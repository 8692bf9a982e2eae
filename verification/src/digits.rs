//! Runs of decimal digits in a text.

use crate::address::is_digit;
use vstd::prelude::*;
use vstd::std_specs::iter::IteratorSpec;

verus! {

/// The longest run of digits that the JSON parser is given. The parser
/// counts the digits of a fraction in a signed 16-bit number, which a run of
/// this length cannot overflow.
pub const MAX_DIGIT_RUN: usize = 32767;

/// From place `i` on, the text holds `n` digits in a row.
pub open spec fn digit_run_at(s: Seq<char>, i: int, n: int) -> bool {
    &&& 0 <= i
    &&& i + n <= s.len()
    &&& forall|k: int| i <= k < i + n ==> is_digit(#[trigger] s[k])
}

/// From place `i` on, the text holds more than `MAX_DIGIT_RUN` digits in a
/// row.
pub open spec fn long_run_at(s: Seq<char>, i: int) -> bool {
    digit_run_at(s, i, MAX_DIGIT_RUN + 1)
}

/// The text holds more than `MAX_DIGIT_RUN` digits in a row somewhere.
pub open spec fn has_long_digit_run(s: Seq<char>) -> bool {
    exists|i: int| #[trigger] long_run_at(s, i)
}

/// Whether the text holds more than `MAX_DIGIT_RUN` digits in a row.
pub fn holds_long_digit_run(text: &str) -> (b: bool)
    ensures
        b == has_long_digit_run(text@),
{
    broadcast use vstd::string::group_string_axioms;

    let ghost s = text@;
    let ghost mut i: int = 0;
    let mut run: usize = 0;
    let mut rest = text.chars();
    loop
        invariant
            rest.obeys_prophetic_iter_laws(),
            rest.decrease() is Some,
            s == text@,
            0 <= i <= s.len(),
            rest.remaining() == s.subrange(i, s.len() as int),
            run <= MAX_DIGIT_RUN,
            run <= i,
            digit_run_at(s, i - run, run as int),
            i - run == 0 || !is_digit(s[i - run - 1]),
            forall|j: int| j + MAX_DIGIT_RUN + 1 <= i ==> !#[trigger] long_run_at(s, j),
        decreases rest.decrease()->0,
    {
        let ghost before = rest;
        let next = rest.next();
        let c = match next {
            Some(c) => c,
            None => {
                proof {
                    assert(before.remaining().len() == 0);
                    assert(i == s.len());
                    assert forall|j: int| !#[trigger] long_run_at(s, j) by {}
                }
                return false;
            },
        };
        proof {
            assert(before.remaining().len() > 0);
            assert(i < s.len());
            assert(c == before.remaining()[0]);
            assert(c == s[i]);
            assert(rest.remaining() =~= s.subrange(i + 1, s.len() as int));
        }
        let code: u32 = c as u32;
        if 48 <= code && code <= 57 {
            run = run + 1;
            if run > MAX_DIGIT_RUN {
                proof {
                    assert(long_run_at(s, i + 1 - run));
                }
                return true;
            }
            proof {
                assert forall|j: int| j + MAX_DIGIT_RUN + 1 <= i + 1 implies !#[trigger] long_run_at(
                    s,
                    j,
                ) by {
                    if j + MAX_DIGIT_RUN + 1 == i + 1 && long_run_at(s, j) {
                        let first = i + 1 - run;
                        assert(first > 0);
                        assert(is_digit(s[first - 1]));
                    }
                }
            }
        } else {
            run = 0;
            proof {
                assert forall|j: int| j + MAX_DIGIT_RUN + 1 <= i + 1 implies !#[trigger] long_run_at(
                    s,
                    j,
                ) by {
                    if j + MAX_DIGIT_RUN + 1 == i + 1 && long_run_at(s, j) {
                        assert(is_digit(s[i]));
                    }
                }
            }
        }
        proof {
            i = i + 1;
        }
    }
}

} // verus!
