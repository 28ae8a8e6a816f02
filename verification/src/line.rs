//! The line state: one slot per item position and the line printed last.

use vstd::prelude::*;
use vstd::string::*;

verus! {

/// Pause between a change of the line and its printing, in which updates
/// that arrive close together are gathered.
pub const SETTLE_DELAY_MILLIS: u64 = 5;

/// The newest text of the item at one position.
#[derive(Clone, Debug)]
pub struct Update {
    pub position: usize,
    pub message: String,
}

/// An update as contracts see it.
pub struct UpdateView {
    pub position: int,
    pub message: Seq<char>,
}

impl View for Update {
    type V = UpdateView;

    open spec fn view(&self) -> UpdateView {
        UpdateView { position: self.position as int, message: self.message@ }
    }
}

/// The line state as contracts see it.
pub struct LineView {
    pub slots: Seq<Seq<char>>,
    pub last_printed: Seq<char>,
}

/// The slots joined in position order, with nothing between them.
pub open spec fn concat(slots: Seq<Seq<char>>) -> Seq<char>
    decreases slots.len(),
{
    if slots.len() == 0 {
        Seq::empty()
    } else {
        concat(slots.drop_last()) + slots.last()
    }
}

/// The text of each string of `v`.
pub open spec fn texts(v: Seq<String>) -> Seq<Seq<char>> {
    Seq::new(v.len(), |i: int| v[i]@)
}

/// The views of the updates of `v`.
pub open spec fn update_views(v: Seq<Update>) -> Seq<UpdateView> {
    Seq::new(v.len(), |i: int| v[i]@)
}

/// Every update of `us` names one of `n` positions.
pub open spec fn in_range(us: Seq<UpdateView>, n: nat) -> bool {
    forall|k: int| 0 <= k < us.len() ==> 0 <= (#[trigger] us[k]).position < n
}

/// The slots after the updates of `us` were written into them, one after
/// the other.
pub open spec fn written(slots: Seq<Seq<char>>, us: Seq<UpdateView>) -> Seq<Seq<char>>
    decreases us.len(),
{
    if us.len() == 0 {
        slots
    } else {
        written(slots, us.drop_last()).update(us.last().position, us.last().message)
    }
}

/// The line that stood printed once the updates of `us` were handled one
/// by one, starting from the state `s`.
pub open spec fn line_after(s: LineView, us: Seq<UpdateView>) -> Seq<char> {
    if us.len() == 0 {
        s.last_printed
    } else {
        concat(written(s.slots, us))
    }
}

/// The lines printed while the updates of `us` are handled one by one,
/// starting from the state `s`: a line is printed whenever it differs from
/// the one that stood printed before.
pub open spec fn printed(s: LineView, us: Seq<UpdateView>) -> Seq<Seq<char>>
    decreases us.len(),
{
    if us.len() == 0 {
        Seq::empty()
    } else if line_after(s, us) != line_after(s, us.drop_last()) {
        printed(s, us.drop_last()).push(line_after(s, us))
    } else {
        printed(s, us.drop_last())
    }
}

/// The slots of the line and the line printed last.
pub struct LineState {
    slots: Vec<String>,
    last_printed: String,
}

impl View for LineState {
    type V = LineView;

    closed spec fn view(&self) -> LineView {
        LineView { slots: texts(self.slots@), last_printed: self.last_printed@ }
    }
}

impl LineState {
    /// A state of `n` empty slots with nothing printed yet.
    pub fn new(n: usize) -> (state: LineState)
        ensures
            state@.slots.len() == n,
            forall|i: int| 0 <= i < n ==> state@.slots[i] == Seq::<char>::empty(),
            state@.last_printed == Seq::<char>::empty(),
    {
        let mut slots: Vec<String> = Vec::new();
        let mut i: usize = 0;
        while i < n
            invariant
                i <= n,
                slots@.len() == i,
                forall|k: int| 0 <= k < i ==> slots@[k]@ == Seq::<char>::empty(),
            decreases n - i,
        {
            slots.push(String::new());
            i += 1;
        }
        LineState { slots, last_printed: String::new() }
    }

    /// The number of slots.
    pub fn len(&self) -> (n: usize)
        ensures
            n == self@.slots.len(),
    {
        self.slots.len()
    }

    /// The text that slot `position` holds.
    pub fn slot(&self, position: usize) -> (text: String)
        requires
            position < self@.slots.len(),
        ensures
            text@ == self@.slots[position as int],
    {
        self.slots[position].clone()
    }

    /// The line printed last.
    pub fn last_printed(&self) -> (line: String)
        ensures
            line@ == self@.last_printed,
    {
        self.last_printed.clone()
    }

    /// The slots joined in position order.
    pub fn render(&self) -> (line: String)
        ensures
            line@ == concat(self@.slots),
    {
        let mut line = String::new();
        let mut i: usize = 0;
        while i < self.slots.len()
            invariant
                i <= self.slots@.len(),
                line@ == concat(texts(self.slots@).take(i as int)),
            decreases self.slots@.len() - i,
        {
            proof {
                let all = texts(self.slots@);
                assert(all.take(i + 1).drop_last() =~= all.take(i as int));
            }
            line.append(self.slots[i].as_str());
            i += 1;
        }
        proof {
            let all = texts(self.slots@);
            assert(all.take(all.len() as int) =~= all);
        }
        line
    }

    /// Writes the update's message into its slot. Nothing is printed.
    pub fn record(&mut self, update: Update)
        requires
            update.position < old(self)@.slots.len(),
        ensures
            final(self)@.slots == old(self)@.slots.update(
                update.position as int,
                update.message@,
            ),
            final(self)@.slots == written(old(self)@.slots, seq![update@]),
            final(self)@.last_printed == old(self)@.last_printed,
    {
        proof {
            let one = seq![update@];
            assert(one.drop_last() =~= Seq::<UpdateView>::empty());
            assert(written(old(self)@.slots, one.drop_last()) == old(self)@.slots);
        }
        self.slots.set(update.position, update.message);
        assert(self@.slots =~= old(self)@.slots.update(update.position as int, update.message@));
    }

    /// Whether the slots now give another line than the one printed last.
    pub fn is_stale(&self) -> (stale: bool)
        ensures
            stale == (concat(self@.slots) != self@.last_printed),
    {
        let line = self.render();
        line != self.last_printed
    }

    /// Hands out the current line if it differs from the one printed last,
    /// and remembers it as printed.
    pub fn emit(&mut self) -> (out: Option<String>)
        ensures
            final(self)@.slots == old(self)@.slots,
            final(self)@.last_printed == concat(old(self)@.slots),
            out is Some <==> concat(old(self)@.slots) != old(self)@.last_printed,
            out is Some ==> out->0@ == concat(old(self)@.slots),
    {
        let line = self.render();
        if line != self.last_printed {
            self.last_printed = line.clone();
            Some(line)
        } else {
            None
        }
    }

    /// Handles one update: writes it into its slot and hands out the new
    /// line if it differs from the one printed last.
    pub fn apply(&mut self, update: Update) -> (out: Option<String>)
        requires
            update.position < old(self)@.slots.len(),
        ensures
            final(self)@.slots == old(self)@.slots.update(
                update.position as int,
                update.message@,
            ),
            final(self)@.last_printed == concat(final(self)@.slots),
            out is Some <==> concat(final(self)@.slots) != old(self)@.last_printed,
            out is Some ==> out->0@ == concat(final(self)@.slots),
            out.is_some() ==> printed(old(self)@, seq![update@]) == seq![out->0@],
            out.is_none() ==> printed(old(self)@, seq![update@]) == Seq::<Seq<char>>::empty(),
    {
        proof {
            let one = seq![update@];
            assert(one.drop_last() =~= Seq::<UpdateView>::empty());
            assert(printed(old(self)@, one.drop_last()) == Seq::<Seq<char>>::empty());
        }
        self.record(update);
        let out = self.emit();
        proof {
            let one = seq![update@];
            if out.is_some() {
                assert(printed(old(self)@, one) =~= seq![out->0@]);
            }
        }
        out
    }

    /// Handles the updates one by one, in the order given, and returns the
    /// lines that were printed on the way.
    pub fn apply_all(&mut self, updates: &Vec<Update>) -> (lines: Vec<String>)
        requires
            in_range(update_views(updates@), old(self)@.slots.len()),
        ensures
            final(self)@.slots == written(old(self)@.slots, update_views(updates@)),
            final(self)@.last_printed == line_after(old(self)@, update_views(updates@)),
            texts(lines@) == printed(old(self)@, update_views(updates@)),
    {
        let ghost all = update_views(updates@);
        let mut lines: Vec<String> = Vec::new();
        let mut i: usize = 0;
        proof {
            assert(all.take(0) =~= Seq::<UpdateView>::empty());
            assert(texts(lines@) =~= Seq::<Seq<char>>::empty());
        }
        while i < updates.len()
            invariant
                i <= updates@.len(),
                all == update_views(updates@),
                in_range(all, old(self)@.slots.len()),
                self@.slots.len() == old(self)@.slots.len(),
                self@.slots == written(old(self)@.slots, all.take(i as int)),
                self@.last_printed == line_after(old(self)@, all.take(i as int)),
                texts(lines@) == printed(old(self)@, all.take(i as int)),
            decreases updates@.len() - i,
        {
            let update = Update {
                position: updates[i].position,
                message: updates[i].message.clone(),
            };
            proof {
                assert(all[i as int] == update@);
                assert(all.take(i + 1).drop_last() =~= all.take(i as int));
                assert(all.take(i + 1).last() == update@);
            }
            let ghost before = texts(lines@);
            match self.apply(update) {
                Some(line) => {
                    lines.push(line);
                    assert(texts(lines@) =~= before.push(line@));
                },
                None => {},
            }
            i += 1;
        }
        proof {
            assert(all.take(all.len() as int) =~= all);
        }
        lines
    }

    /// Writes all the updates into their slots, in the order given, and only
    /// then hands out the line if it differs from the one printed last: at
    /// most one line for the whole batch.
    pub fn absorb(&mut self, updates: &Vec<Update>) -> (out: Option<String>)
        requires
            in_range(update_views(updates@), old(self)@.slots.len()),
        ensures
            final(self)@.slots == written(old(self)@.slots, update_views(updates@)),
            final(self)@.last_printed == concat(final(self)@.slots),
            out is Some <==> concat(final(self)@.slots) != old(self)@.last_printed,
            out is Some ==> out->0@ == concat(final(self)@.slots),
    {
        let ghost all = update_views(updates@);
        let mut i: usize = 0;
        proof {
            assert(all.take(0) =~= Seq::<UpdateView>::empty());
        }
        while i < updates.len()
            invariant
                i <= updates@.len(),
                all == update_views(updates@),
                in_range(all, old(self)@.slots.len()),
                self@.slots.len() == old(self)@.slots.len(),
                self@.slots == written(old(self)@.slots, all.take(i as int)),
                self@.last_printed == old(self)@.last_printed,
            decreases updates@.len() - i,
        {
            let update = Update {
                position: updates[i].position,
                message: updates[i].message.clone(),
            };
            proof {
                assert(all[i as int] == update@);
                assert(all.take(i + 1).drop_last() =~= all.take(i as int));
                assert(all.take(i + 1).last() == update@);
            }
            self.record(update);
            i += 1;
        }
        proof {
            assert(all.take(all.len() as int) =~= all);
        }
        self.emit()
    }
}

/// The messages that the item at position `i` sent, in the order in which
/// they arrived.
pub open spec fn from_item(us: Seq<UpdateView>, i: int) -> Seq<Seq<char>>
    decreases us.len(),
{
    if us.len() == 0 {
        Seq::empty()
    } else if us.last().position == i {
        from_item(us.drop_last(), i).push(us.last().message)
    } else {
        from_item(us.drop_last(), i)
    }
}

/// Each slot holds the newest message of its own item, or what it held
/// before where the item sent nothing, whatever the other items sent in
/// between.
pub proof fn lemma_slot_holds_latest(slots: Seq<Seq<char>>, us: Seq<UpdateView>, i: int)
    requires
        in_range(us, slots.len()),
        0 <= i < slots.len(),
    ensures
        written(slots, us).len() == slots.len(),
        written(slots, us)[i] == if from_item(us, i).len() == 0 {
            slots[i]
        } else {
            from_item(us, i).last()
        },
    decreases us.len(),
{
    if us.len() > 0 {
        assert(in_range(us.drop_last(), slots.len())) by {
            assert forall|k: int| 0 <= k < us.drop_last().len() implies 0 <= (
            #[trigger] us.drop_last()[k]).position < slots.len() by {
                assert(us.drop_last()[k] == us[k]);
            }
        }
        lemma_slot_holds_latest(slots, us.drop_last(), i);
    }
}

/// The line depends on what each item sent, in its own order, and not on
/// how the items' updates were interleaved on arrival.
pub proof fn lemma_interleaving_is_irrelevant(
    slots: Seq<Seq<char>>,
    us: Seq<UpdateView>,
    vs: Seq<UpdateView>,
)
    requires
        in_range(us, slots.len()),
        in_range(vs, slots.len()),
        forall|i: int| 0 <= i < slots.len() ==> from_item(us, i) == from_item(vs, i),
    ensures
        written(slots, us) == written(slots, vs),
        concat(written(slots, us)) == concat(written(slots, vs)),
{
    assert forall|i: int| 0 <= i < slots.len() implies written(slots, us)[i] == written(
        slots,
        vs,
    )[i] by {
        lemma_slot_holds_latest(slots, us, i);
        lemma_slot_holds_latest(slots, vs, i);
    }
    if slots.len() == 0 {
        lemma_written_len(slots, us);
        lemma_written_len(slots, vs);
    } else {
        lemma_slot_holds_latest(slots, us, 0);
        lemma_slot_holds_latest(slots, vs, 0);
    }
    assert(written(slots, us) =~= written(slots, vs));
}

/// Writing updates keeps the number of slots.
pub proof fn lemma_written_len(slots: Seq<Seq<char>>, us: Seq<UpdateView>)
    requires
        in_range(us, slots.len()),
    ensures
        written(slots, us).len() == slots.len(),
    decreases us.len(),
{
    if us.len() > 0 {
        assert forall|k: int| 0 <= k < us.drop_last().len() implies 0 <= (
        #[trigger] us.drop_last()[k]).position < slots.len() by {
            assert(us.drop_last()[k] == us[k]);
        }
        lemma_written_len(slots, us.drop_last());
    }
}

/// No line is printed twice in a row: the first printed line differs from
/// the one that stood printed at the start, each later one from the one
/// before it, and the last one is the line that stands printed at the end.
/// So there are as many printed lines as changes of the line, and never
/// more than updates.
pub proof fn lemma_printed_lines_differ(s: LineView, us: Seq<UpdateView>)
    ensures
        printed(s, us).len() <= us.len(),
        printed(s, us).len() == 0 ==> line_after(s, us) == s.last_printed,
        printed(s, us).len() > 0 ==> printed(s, us)[0] != s.last_printed && printed(
            s,
            us,
        ).last() == line_after(s, us),
        forall|k: int|
            0 < k < printed(s, us).len() ==> #[trigger] printed(s, us)[k] != printed(s, us)[k - 1],
    decreases us.len(),
{
    if us.len() > 0 {
        lemma_printed_lines_differ(s, us.drop_last());
    }
}

/// An update that repeats the text its slot already holds prints nothing.
pub proof fn lemma_unchanged_text_prints_nothing(s: LineView, us: Seq<UpdateView>, u: UpdateView)
    requires
        in_range(us, s.slots.len()),
        0 <= u.position < s.slots.len(),
        u.message == written(s.slots, us)[u.position],
        s.last_printed == concat(s.slots),
    ensures
        written(s.slots, us.push(u)) == written(s.slots, us),
        printed(s, us.push(u)) == printed(s, us),
{
    lemma_written_len(s.slots, us);
    assert(us.push(u).drop_last() =~= us);
    assert(written(s.slots, us).update(u.position, u.message) =~= written(s.slots, us));
}

} // verus!
