//! Small edits on strings, as the edit buffers need them.

use vstd::prelude::*;
use vstd::std_specs::iter::IteratorSpec;
use vstd::string::StrSliceExecFns;

verus! {

/// Relies on `String::push`: the character is added at the end.
#[verifier::external_body]
pub(crate) fn push_char(s: &mut String, c: char)
    ensures
        final(s)@ == old(s)@.push(c),
{
    s.push(c);
}

/// Relies on `String::pop`: the last character is removed and returned, and
/// an empty string stays empty.
#[verifier::external_body]
pub(crate) fn pop_char(s: &mut String) -> (r: Option<char>)
    ensures
        old(s)@.len() == 0 ==> r.is_none() && final(s)@ == old(s)@,
        old(s)@.len() > 0 ==> r == Some(old(s)@.last()) && final(s)@ == old(s)@.drop_last(),
{
    s.pop()
}

/// How many line breaks a text holds.
pub open spec fn newline_count(s: Seq<char>) -> int
    decreases s.len(),
{
    if s.len() == 0 {
        0
    } else {
        newline_count(s.drop_last()) + if s.last() == '\n' {
            1int
        } else {
            0int
        }
    }
}

/// How many line breaks a text holds, counting no further than `cap`.
pub fn count_newlines_upto(s: &str, cap: usize) -> (r: usize)
    ensures
        r == if newline_count(s@) < cap {
            newline_count(s@)
        } else {
            cap as int
        },
{
    broadcast use vstd::string::axiom_spec_iter, vstd::string::next_postcondition;

    let total = s.unicode_len();
    let mut it = s.chars();
    let mut k: usize = 0;
    let mut n: usize = 0;
    proof {
        assert(s@.take(0) =~= Seq::<char>::empty());
    }
    loop
        invariant
            total == s@.len(),
            k <= s@.len(),
            it.obeys_prophetic_iter_laws(),
            it.remaining() == s@.skip(k as int),
            n == if newline_count(s@.take(k as int)) < cap {
                newline_count(s@.take(k as int))
            } else {
                cap as int
            },
        ensures
            n == if newline_count(s@) < cap {
                newline_count(s@)
            } else {
                cap as int
            },
        decreases s@.len() - k,
    {
        let ghost before = it.remaining();
        match it.next() {
            Some(c) => {
                proof {
                    assert(before.len() > 0);
                    assert(c == s@[k as int]);
                    assert(s@.take(k + 1).drop_last() =~= s@.take(k as int));
                    assert(s@.skip(k as int).drop_first() =~= s@.skip(k + 1));
                }
                if c == '\n' && n < cap {
                    n += 1;
                }
                k += 1;
            },
            None => {
                proof {
                    assert(before.len() == 0);
                    assert(s@.take(k as int) =~= s@);
                }
                break;
            },
        }
    }
    n
}

} // verus!
