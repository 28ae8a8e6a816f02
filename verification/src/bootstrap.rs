//! Laying out the items of the order list: which of them run, and at
//! which position of the line each one stands.

use vstd::prelude::*;
use crate::config::{resolve_item, resolution, ConfigError, Entry, ItemSpec, ItemSpecView, Lookup};
use crate::line::texts;

verus! {

/// What is to be started: the items that run, in the order of the line,
/// and the names for which the configuration holds nothing.
#[derive(Debug)]
pub struct Plan {
    pub items: Vec<ItemSpec>,
    pub missing: Vec<String>,
}

/// A plan as contracts see it.
pub struct PlanView {
    pub items: Seq<ItemSpecView>,
    pub missing: Seq<Seq<char>>,
}

/// The item that cannot be run, and why.
#[derive(Debug)]
pub struct StartupError {
    pub name: String,
    pub error: ConfigError,
}

/// A startup error as contracts see it.
pub struct StartupErrorView {
    pub name: Seq<char>,
    pub error: ConfigError,
}

/// The views of the items of `v`.
pub open spec fn item_views(v: Seq<ItemSpec>) -> Seq<ItemSpecView> {
    Seq::new(v.len(), |i: int| v[i]@)
}

impl View for Plan {
    type V = PlanView;

    open spec fn view(&self) -> PlanView {
        PlanView { items: item_views(self.items@), missing: texts(self.missing@) }
    }
}

impl View for StartupError {
    type V = StartupErrorView;

    open spec fn view(&self) -> StartupErrorView {
        StartupErrorView { name: self.name@, error: self.error }
    }
}

/// The plan for the entries of an order list, taken from left to right: a
/// name with nothing under it is noted as missing and takes no position; any
/// other gets the next free position, and the first one that cannot be run
/// fails the whole plan.
pub open spec fn planned(entries: Seq<Entry>, env_shell: Option<String>) -> Result<
    PlanView,
    StartupErrorView,
>
    decreases entries.len(),
{
    if entries.len() == 0 {
        Ok(PlanView { items: Seq::empty(), missing: Seq::empty() })
    } else {
        match planned(entries.drop_last(), env_shell) {
            Err(e) => Err(e),
            Ok(plan) => {
                let entry = entries.last();
                match entry.lookup {
                    Lookup::Absent => Ok(
                        PlanView { items: plan.items, missing: plan.missing.push(entry.name@) },
                    ),
                    Lookup::Invalid => Err(
                        StartupErrorView { name: entry.name@, error: ConfigError::MissingSection },
                    ),
                    Lookup::Found(section) => match resolution(
                        entry.name@,
                        plan.items.len() as usize,
                        section,
                        env_shell,
                    ) {
                        Ok(item) => Ok(
                            PlanView { items: plan.items.push(item), missing: plan.missing },
                        ),
                        Err(error) => Err(StartupErrorView { name: entry.name@, error }),
                    },
                }
            },
        }
    }
}

/// How many of the first `upto` entries stand for something in the
/// configuration.
pub open spec fn present_before(entries: Seq<Entry>, upto: int) -> int
    decreases upto,
{
    if upto <= 0 {
        0
    } else if entries[upto - 1].lookup is Absent {
        present_before(entries, upto - 1)
    } else {
        present_before(entries, upto - 1) + 1
    }
}

/// Lays out the entries of the order list.
pub fn plan(entries: &Vec<Entry>, env_shell: &Option<String>) -> (res: Result<Plan, StartupError>)
    ensures
        match res {
            Ok(p) => planned(entries@, *env_shell) == Ok::<PlanView, StartupErrorView>(p@),
            Err(e) => planned(entries@, *env_shell) == Err::<PlanView, StartupErrorView>(e@),
        },
{
    let mut items: Vec<ItemSpec> = Vec::new();
    let mut missing: Vec<String> = Vec::new();
    let mut i: usize = 0;
    proof {
        assert(entries@.take(0) =~= Seq::<Entry>::empty());
        assert(item_views(items@) =~= Seq::<ItemSpecView>::empty());
        assert(texts(missing@) =~= Seq::<Seq<char>>::empty());
    }
    while i < entries.len()
        invariant
            i <= entries@.len(),
            items@.len() <= i,
            planned(entries@.take(i as int), *env_shell) == Ok::<PlanView, StartupErrorView>(
                PlanView { items: item_views(items@), missing: texts(missing@) },
            ),
        decreases entries@.len() - i,
    {
        let entry = &entries[i];
        let ghost old_items = item_views(items@);
        let ghost old_missing = texts(missing@);
        proof {
            assert(entries@.take(i + 1).drop_last() =~= entries@.take(i as int));
            assert(entries@.take(i + 1).last() == entries@[i as int]);
        }
        match &entry.lookup {
            Lookup::Absent => {
                missing.push(entry.name.clone());
                proof {
                    assert(texts(missing@) =~= old_missing.push(entry.name@));
                }
            },
            Lookup::Invalid => {
                proof {
                    lemma_failure_stands(entries@, *env_shell, i + 1);
                }
                return Err(
                    StartupError { name: entry.name.clone(), error: ConfigError::MissingSection },
                );
            },
            Lookup::Found(section) => {
                match resolve_item(entry.name.as_str(), items.len(), section, env_shell) {
                    Ok(item) => {
                        items.push(item);
                        proof {
                            assert(item_views(items@) =~= old_items.push(item@));
                        }
                    },
                    Err(error) => {
                        proof {
                            lemma_failure_stands(entries@, *env_shell, i + 1);
                        }
                        return Err(StartupError { name: entry.name.clone(), error });
                    },
                }
            },
        }
        i += 1;
    }
    proof {
        assert(entries@.take(entries@.len() as int) =~= entries@);
    }
    Ok(Plan { items, missing })
}

/// Once the entries up to some point cannot be planned, no entry after
/// them mends it: the plan fails on the first item that cannot be run.
pub proof fn lemma_failure_stands(entries: Seq<Entry>, env_shell: Option<String>, upto: int)
    requires
        0 <= upto <= entries.len(),
        planned(entries.take(upto), env_shell) is Err,
    ensures
        planned(entries, env_shell) == planned(entries.take(upto), env_shell),
    decreases entries.len(),
{
    if upto == entries.len() {
        assert(entries.take(upto) =~= entries);
    } else {
        assert(entries.drop_last().take(upto) =~= entries.take(upto));
        lemma_failure_stands(entries.drop_last(), env_shell, upto);
    }
}

/// In a plan the positions are dense and follow the order list: the item
/// at index `k` has position `k`, every name is either run or missing, and
/// an entry that stands for something in the configuration runs under its
/// own name at the position that counts such entries before it.
pub proof fn lemma_positions_follow_order(entries: Seq<Entry>, env_shell: Option<String>)
    requires
        entries.len() <= usize::MAX,
        planned(entries, env_shell) is Ok,
    ensures
        ({
            let p = planned(entries, env_shell)->Ok_0;
            &&& p.items.len() + p.missing.len() == entries.len()
            &&& p.items.len() == present_before(entries, entries.len() as int)
            &&& forall|k: int| 0 <= k < p.items.len() ==> (#[trigger] p.items[k]).position == k
            &&& forall|j: int|
                0 <= j < entries.len() && !(entries[j].lookup is Absent) ==> 0 <= present_before(
                    entries,
                    j,
                ) < p.items.len() && (#[trigger] p.items[present_before(entries, j)]).name
                    == entries[j].name@
        }),
    decreases entries.len(),
{
    if entries.len() > 0 {
        let front = entries.drop_last();
        lemma_positions_follow_order(front, env_shell);
        let q = planned(front, env_shell)->Ok_0;
        let p = planned(entries, env_shell)->Ok_0;
        lemma_present_before_prefix(entries, front.len() as int);
        assert forall|j: int|
            0 <= j < entries.len() && !(entries[j].lookup is Absent) implies 0 <= present_before(
            entries,
            j,
        ) < p.items.len() && (#[trigger] p.items[present_before(entries, j)]).name
            == entries[j].name@ by {
            if j < front.len() {
                assert(front[j] == entries[j]);
                lemma_present_before_prefix(entries, j);
                assert(present_before(entries, j) == present_before(front, j));
                assert(p.items[present_before(front, j)] == q.items[present_before(front, j)]);
            }
        }
    }
}

/// Earlier entries that stand for something come at earlier positions.
pub proof fn lemma_present_before_grows(entries: Seq<Entry>, i: int, j: int)
    requires
        0 <= i < j <= entries.len(),
        !(entries[i].lookup is Absent),
    ensures
        present_before(entries, i) < present_before(entries, j),
        0 <= present_before(entries, i),
    decreases j,
{
    lemma_present_before_bounds(entries, i);
    if j > i + 1 {
        lemma_present_before_grows(entries, i, j - 1);
    }
}

proof fn lemma_present_before_bounds(entries: Seq<Entry>, upto: int)
    ensures
        0 <= present_before(entries, upto),
    decreases upto,
{
    if upto > 0 {
        lemma_present_before_bounds(entries, upto - 1);
    }
}

proof fn lemma_present_before_prefix(entries: Seq<Entry>, upto: int)
    requires
        0 <= upto < entries.len(),
    ensures
        present_before(entries, upto) == present_before(entries.drop_last(), upto),
        0 <= present_before(entries, upto) <= upto,
    decreases upto,
{
    if upto > 0 {
        lemma_present_before_prefix(entries, upto - 1);
        assert(entries.drop_last()[upto - 1] == entries[upto - 1]);
    }
}

} // verus!
