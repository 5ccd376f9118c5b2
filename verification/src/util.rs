//! Small string helpers shared by the recognition and control planes.

use vstd::prelude::*;
use vstd::string::StringExecFns;

verus! {

/// The decimal digits of `n`, most significant first.
pub open spec fn dec_str(n: nat) -> Seq<char>
    decreases n,
{
    if n < 10 {
        seq![digit_char(n)]
    } else {
        dec_str(n / 10) + seq![digit_char(n % 10)]
    }
}

pub open spec fn digit_char(d: nat) -> char {
    if d == 0 {
        '0'
    } else if d == 1 {
        '1'
    } else if d == 2 {
        '2'
    } else if d == 3 {
        '3'
    } else if d == 4 {
        '4'
    } else if d == 5 {
        '5'
    } else if d == 6 {
        '6'
    } else if d == 7 {
        '7'
    } else if d == 8 {
        '8'
    } else {
        '9'
    }
}

fn append_digit(s: &mut String, d: usize)
    requires
        d < 10,
    ensures
        final(s)@ == old(s)@ + seq![digit_char(d as nat)],
{
    if d == 0 {
        s.append("0");
        proof {
            reveal_strlit("0");
        }
    } else if d == 1 {
        s.append("1");
        proof {
            reveal_strlit("1");
        }
    } else if d == 2 {
        s.append("2");
        proof {
            reveal_strlit("2");
        }
    } else if d == 3 {
        s.append("3");
        proof {
            reveal_strlit("3");
        }
    } else if d == 4 {
        s.append("4");
        proof {
            reveal_strlit("4");
        }
    } else if d == 5 {
        s.append("5");
        proof {
            reveal_strlit("5");
        }
    } else if d == 6 {
        s.append("6");
        proof {
            reveal_strlit("6");
        }
    } else if d == 7 {
        s.append("7");
        proof {
            reveal_strlit("7");
        }
    } else if d == 8 {
        s.append("8");
        proof {
            reveal_strlit("8");
        }
    } else {
        s.append("9");
        proof {
            reveal_strlit("9");
        }
    }
    proof {
        assert(s@ =~= old(s)@ + seq![digit_char(d as nat)]);
    }
}

fn push_decimal(s: &mut String, n: usize)
    ensures
        final(s)@ == old(s)@ + dec_str(n as nat),
    decreases n,
{
    if n < 10 {
        append_digit(s, n);
    } else {
        push_decimal(s, n / 10);
        append_digit(s, n % 10);
        proof {
            assert(s@ =~= old(s)@ + dec_str(n as nat));
        }
    }
}

/// `n` written in decimal.
pub fn usize_to_string(n: usize) -> (s: String)
    ensures
        s@ == dec_str(n as nat),
{
    let mut s = String::new();
    push_decimal(&mut s, n);
    proof {
        assert(s@ =~= dec_str(n as nat));
    }
    s
}

/// `n` written in decimal.
pub fn u32_to_string(n: u32) -> (s: String)
    ensures
        s@ == dec_str(n as nat),
{
    usize_to_string(n as usize)
}

/// Relies on `core::iter::Iterator::collect` for `String`: collecting the
/// characters of a vector yields the string of exactly those characters.
#[verifier::external_body]
pub fn string_from_chars(v: &Vec<char>) -> (s: String)
    ensures
        s@ == v@,
{
    v.iter().copied().collect()
}

/// The characters of a string, in order.
pub fn chars_of_str(s: &str) -> (v: Vec<char>)
    ensures
        v@ == s@,
{
    broadcast use vstd::string::axiom_spec_iter;
    broadcast use vstd::string::next_postcondition;

    let mut v: Vec<char> = Vec::new();
    let mut it = s.chars();
    proof {
        assert(vstd::std_specs::iter::IteratorSpec::remaining(&it) == s@);
    }
    loop
        invariant
            vstd::std_specs::iter::IteratorSpec::decrease(&it) is Some,
            v@ + vstd::std_specs::iter::IteratorSpec::remaining(&it) == s@,
        decreases vstd::std_specs::iter::IteratorSpec::decrease(&it)->0,
    {
        match it.next() {
            Option::Some(c) => {
                v.push(c);
                proof {
                    assert(v@ + vstd::std_specs::iter::IteratorSpec::remaining(&it) =~= s@);
                }
            },
            Option::None => {
                proof {
                    assert(v@ =~= s@);
                }
                return v;
            },
        }
    }
}

/// The lines of a vector of strings, as character sequences.
pub open spec fn strings_view(v: Seq<String>) -> Seq<Seq<char>> {
    Seq::new(v.len(), |j: int| v[j]@)
}

/// A queue bounded at `cap` lines: when full, the oldest line makes room.
pub open spec fn bounded_push_spec(q: Seq<Seq<char>>, cap: nat, x: Seq<char>) -> Seq<Seq<char>> {
    if q.len() >= cap {
        q.skip(1).push(x)
    } else {
        q.push(x)
    }
}

} // verus!
