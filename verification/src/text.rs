//! Stripping trailing line-ending characters from command output.

use vstd::prelude::*;
use vstd::string::*;

verus! {

/// Carriage return and line feed are the characters stripped from output.
pub open spec fn is_line_ending(c: char) -> bool {
    c == '\r' || c == '\n'
}

/// `s` without the line-ending characters at its back. What stands at the
/// front or inside stays.
pub open spec fn trim_back(s: Seq<char>) -> Seq<char>
    decreases s.len(),
{
    if s.len() > 0 && is_line_ending(s.last()) {
        trim_back(s.drop_last())
    } else {
        s
    }
}

/// Trimmed text is the front part of the text it was made from, and does
/// not end with a line-ending character.
pub proof fn lemma_trim_back_is_clean_prefix(s: Seq<char>)
    ensures
        trim_back(s).len() <= s.len(),
        trim_back(s) == s.subrange(0, trim_back(s).len() as int),
        trim_back(s).len() > 0 ==> !is_line_ending(trim_back(s).last()),
        forall|k: int| trim_back(s).len() <= k < s.len() ==> is_line_ending(#[trigger] s[k]),
    decreases s.len(),
{
    if s.len() > 0 && is_line_ending(s.last()) {
        let front = s.drop_last();
        lemma_trim_back_is_clean_prefix(front);
        assert(front.subrange(0, trim_back(front).len() as int) =~= s.subrange(
            0,
            trim_back(front).len() as int,
        ));
        assert forall|k: int| trim_back(s).len() <= k < s.len() implies is_line_ending(
            #[trigger] s[k],
        ) by {
            if k < front.len() {
                assert(s[k] == front[k]);
            }
        }
    } else {
        assert(s.subrange(0, s.len() as int) =~= s);
    }
}

/// Trimming text a second time changes nothing.
pub proof fn lemma_trim_back_is_idempotent(s: Seq<char>)
    ensures
        trim_back(trim_back(s)) == trim_back(s),
{
    lemma_trim_back_is_clean_prefix(s);
}

/// Text that does not end with a line-ending character is left as it is,
/// whatever it starts with.
pub proof fn lemma_trim_back_keeps_clean_text(s: Seq<char>)
    requires
        s.len() > 0 ==> !is_line_ending(s.last()),
    ensures
        trim_back(s) == s,
{
}

fn is_ending(c: char) -> (b: bool)
    ensures
        b == is_line_ending(c),
{
    c == '\r' || c == '\n'
}

/// Copies `s` without the carriage returns and line feeds at its end.
pub fn trim_line_endings(s: &str) -> (out: String)
    ensures
        out@ == trim_back(s@),
{
    let n: usize = s.unicode_len();
    let mut end: usize = n;
    proof {
        assert(s@.subrange(0, n as int) =~= s@);
    }
    while 0 < end && is_ending(s.get_char(end - 1))
        invariant
            end <= n,
            n == s@.len(),
            trim_back(s@) == trim_back(s@.subrange(0, end as int)),
        decreases end,
    {
        proof {
            let rest = s@.subrange(0, end as int);
            assert(rest.drop_last() =~= s@.subrange(0, end - 1));
        }
        end -= 1;
    }
    String::from_str(s.substring_char(0, end))
}

} // verus!
