//! Unsigned numbers in text form, as they stand in a status line, in a
//! `Content-Length` value and in the length field of a chunk.
//!
//! The accepted form is an optional `+` followed by at least one digit of the
//! radix; letters count as digits from ten up, in either case. A value above
//! the given maximum is rejected.

use vstd::prelude::*;

verus! {

/// The value of one digit, letters standing for ten and up.
pub open spec fn digit_value(b: u8) -> Option<int> {
    if 48 <= b <= 57 {
        Some(b - 48)
    } else if 97 <= b <= 122 {
        Some(b - 97 + 10)
    } else if 65 <= b <= 90 {
        Some(b - 65 + 10)
    } else {
        None
    }
}

/// The value of a run of digits in the given radix, most significant digit
/// first; `None` when a byte is no digit of the radix. The empty run has the
/// value zero.
pub open spec fn digits_value(s: Seq<u8>, radix: int) -> Option<int>
    decreases s.len(),
{
    if s.len() == 0 {
        Some(0int)
    } else {
        match (digits_value(s.drop_last(), radix), digit_value(s.last())) {
            (Some(v), Some(d)) => if d < radix {
                Some(v * radix + d)
            } else {
                None
            },
            _ => None,
        }
    }
}

/// The digits of a number: the text without its optional leading `+`.
pub open spec fn number_body(s: Seq<u8>) -> Seq<u8> {
    if s.len() > 0 && s[0] == 43u8 {
        s.drop_first()
    } else {
        s
    }
}

/// The number that `s` denotes in the given radix, when `s` is an optional
/// `+`, then one digit or more, and the value is at most `max`.
pub open spec fn parse_number(s: Seq<u8>, radix: int, max: int) -> Option<int> {
    let body = number_body(s);
    if body.len() == 0 {
        None
    } else {
        match digits_value(body, radix) {
            Some(v) => if v <= max {
                Some(v)
            } else {
                None
            },
            None => None,
        }
    }
}

/// The value of a prefix of a run of digits is defined where the value of
/// the run is, and is no larger.
pub proof fn lemma_digits_prefix(s: Seq<u8>, radix: int, k: int)
    requires
        radix >= 1,
        0 <= k <= s.len(),
        digits_value(s, radix) is Some,
    ensures
        digits_value(s.take(k), radix) is Some,
        0 <= digits_value(s.take(k), radix).unwrap() <= digits_value(s, radix).unwrap(),
    decreases s.len(),
{
    if s.len() == 0 {
        assert(s.take(k) =~= s);
    } else {
        let init = s.drop_last();
        lemma_digits_prefix(init, radix, if k < s.len() { k } else { init.len() as int });
        let v = digits_value(init, radix).unwrap();
        let d = digit_value(s.last()).unwrap();
        assert(init.take(init.len() as int) =~= init);
        assert(v * radix >= v) by (nonlinear_arith)
            requires
                v >= 0,
                radix >= 1,
        ;
        if k == s.len() {
            assert(s.take(k) =~= s);
        } else {
            assert(init.take(k) =~= s.take(k));
        }
    }
}

/// A number that was read lies between zero and the maximum.
pub proof fn lemma_parse_number_bounds(s: Seq<u8>, radix: int, max: int)
    requires
        radix >= 1,
    ensures
        parse_number(s, radix, max) matches Some(v) ==> 0 <= v <= max,
{
    let body = number_body(s);
    if digits_value(body, radix) is Some {
        lemma_digits_prefix(body, radix, body.len() as int);
    }
}

/// Reads one digit.
fn read_digit(b: u8) -> (res: Option<u8>)
    ensures
        match digit_value(b) {
            Some(d) => res == Some(d as u8) && d < 36,
            None => res is None,
        },
{
    if 48 <= b && b <= 57 {
        Some(b - 48)
    } else if 97 <= b && b <= 122 {
        Some(b - 97 + 10)
    } else if 65 <= b && b <= 90 {
        Some(b - 65 + 10)
    } else {
        None
    }
}

/// Reads the number that `s` denotes in the given radix: an optional `+`,
/// then at least one digit. Returns `None` for any other text and for a
/// value above `max`.
pub fn read_number(s: &[u8], radix: u8, max: usize) -> (res: Option<usize>)
    requires
        2 <= radix <= 36,
    ensures
        match res {
            Some(n) => parse_number(s@, radix as int, max as int) == Some(n as int) && n <= max,
            None => parse_number(s@, radix as int, max as int) is None,
        },
{
    let start: usize = if s.len() > 0 && s[0] == 43u8 {
        1
    } else {
        0
    };
    let ghost body = number_body(s@);
    assert(body =~= s@.skip(start as int));
    if start == s.len() {
        return None;
    }
    let mut acc: usize = 0;
    let mut i: usize = start;
    assert(body.take(0) =~= Seq::<u8>::empty());
    while i < s.len()
        invariant
            2 <= radix <= 36,
            start <= i <= s@.len(),
            body == s@.skip(start as int),
            body == number_body(s@),
            body.len() > 0,
            digits_value(body.take(i - start), radix as int) == Some(acc as int),
            acc <= max,
        decreases s@.len() - i,
    {
        let ghost upto = body.take(i - start + 1);
        assert(upto.drop_last() =~= body.take(i - start));
        assert(upto.last() == s@[i as int]);
        let wide: u128 = match read_digit(s[i]) {
            Some(d) => {
                if d >= radix {
                    proof {
                        if digits_value(body, radix as int) is Some {
                            lemma_digits_prefix(body, radix as int, i - start + 1);
                        }
                    }
                    return None;
                }
                assert(acc * radix <= usize::MAX * 36) by (nonlinear_arith)
                    requires
                        0 <= acc <= usize::MAX,
                        0 <= radix <= 36,
                ;
                (acc as u128) * (radix as u128) + (d as u128)
            },
            None => {
                proof {
                    if digits_value(body, radix as int) is Some {
                        lemma_digits_prefix(body, radix as int, i - start + 1);
                    }
                }
                return None;
            },
        };
        assert(digits_value(upto, radix as int) == Some(wide as int));
        if wide > max as u128 {
            proof {
                if digits_value(body, radix as int) is Some {
                    lemma_digits_prefix(body, radix as int, i - start + 1);
                }
            }
            return None;
        }
        acc = wide as usize;
        i += 1;
    }
    assert(body.take(i - start) =~= body);
    Some(acc)
}

} // verus!
