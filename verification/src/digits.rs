//! Decimal digit runs: the shared reading of unsigned numbers out of
//! strings, as the time-of-day and interval parsers need it.

use vstd::prelude::*;
use crate::color::hex_char;

verus! {

/// Whether `c` is an ASCII decimal digit.
pub open spec fn is_digit(c: char) -> bool {
    48 <= c as int && c as int <= 57
}

/// Whether every character of `s` is an ASCII decimal digit.
pub open spec fn all_digits(s: Seq<char>) -> bool {
    forall|i: int| 0 <= i < s.len() ==> is_digit(#[trigger] s[i])
}

/// The number written by a digit sequence, most significant digit first.
/// Meaningful when `all_digits(s)` holds.
pub open spec fn spec_num(s: Seq<char>) -> int
    decreases s.len(),
{
    if s.len() == 0 {
        0
    } else {
        spec_num(s.drop_last()) * 10 + (s.last() as int - 48)
    }
}

/// A digit sequence names a nonnegative number.
pub proof fn lemma_num_nonneg(s: Seq<char>)
    requires
        all_digits(s),
    ensures
        spec_num(s) >= 0,
    decreases s.len(),
{
    if s.len() > 0 {
        assert(all_digits(s.drop_last()));
        lemma_num_nonneg(s.drop_last());
        assert(spec_num(s.drop_last()) * 10 >= 0) by (nonlinear_arith)
            requires
                spec_num(s.drop_last()) >= 0,
        ;
    }
}

/// Read the digit run `s[from..to]` as a number. Returns nothing when the
/// range is empty or holds a non-digit; otherwise the number, saturated at
/// `u64::MAX`, with a flag that tells whether saturation occurred.
pub fn parse_digits(s: &str, from: usize, to: usize) -> (r: Option<(u64, bool)>)
    requires
        from <= to <= s@.len(),
    ensures
        r is Some <==> (from < to && all_digits(s@.subrange(from as int, to as int))),
        r is Some ==> ({
            let num = spec_num(s@.subrange(from as int, to as int));
            let (v, over) = r->0;
            &&& (over <==> num > u64::MAX)
            &&& (!over ==> v == num)
        }),
{
    if from == to {
        return None;
    }
    let mut acc: u64 = 0;
    let mut over = false;
    let mut i = from;
    while i < to
        invariant
            from <= i <= to <= s@.len(),
            from < to,
            all_digits(s@.subrange(from as int, i as int)),
            over <==> spec_num(s@.subrange(from as int, i as int)) > u64::MAX,
            !over ==> acc == spec_num(s@.subrange(from as int, i as int)),
        decreases to - i,
    {
        let c = s.get_char(i);
        let u = c as u32;
        if u < 48 || u > 57 {
            proof {
                assert(s@.subrange(from as int, to as int)[i - from] == s@[i as int]);
            }
            return None;
        }
        let d = (u - 48) as u64;
        let ghost pre = s@.subrange(from as int, i as int);
        let ghost cur = s@.subrange(from as int, i as int + 1);
        proof {
            assert(cur.drop_last() =~= pre);
            assert(cur.last() == s@[i as int]);
            assert(all_digits(cur));
            lemma_num_nonneg(pre);
        }
        if over || acc > (u64::MAX - d) / 10 {
            proof {
                if !over {
                    // acc * 10 + d overflows, so the number read so far
                    // already exceeds the saturation bound.
                    assert(acc * 10 + d > u64::MAX) by (nonlinear_arith)
                        requires
                            acc > (u64::MAX - d) / 10,
                            0 <= d <= 9,
                    ;
                } else {
                    assert(spec_num(pre) * 10 + d > u64::MAX) by (nonlinear_arith)
                        requires
                            spec_num(pre) > u64::MAX,
                            0 <= d,
                    ;
                }
            }
            over = true;
        } else {
            acc = acc * 10 + d;
        }
        i = i + 1;
    }
    proof {
        assert(s@.subrange(from as int, to as int) =~= s@.subrange(from as int, i as int));
    }
    Some((acc, over))
}


/// The decimal digits of `n`, most significant first.
pub open spec fn spec_dec(n: int) -> Seq<char>
    decreases n,
{
    if n < 10 {
        seq![hex_char(n)]
    } else {
        spec_dec(n / 10) + seq![hex_char(n % 10)]
    }
}

pub fn dec_digit_str(d: usize) -> (r: &'static str)
    requires
        d < 10,
    ensures
        r@ == seq![hex_char(d as int)],
{
    proof {
        reveal_strlit("0");
        reveal_strlit("1");
        reveal_strlit("2");
        reveal_strlit("3");
        reveal_strlit("4");
        reveal_strlit("5");
        reveal_strlit("6");
        reveal_strlit("7");
        reveal_strlit("8");
        reveal_strlit("9");
    }
    match d {
        0 => "0",
        1 => "1",
        2 => "2",
        3 => "3",
        4 => "4",
        5 => "5",
        6 => "6",
        7 => "7",
        8 => "8",
        _ => "9",
    }
}

/// `n` in decimal notation.
pub fn dec_string(n: usize) -> (r: String)
    ensures
        r@ == spec_dec(n as int),
    decreases n,
{
    if n < 10 {
        String::from_str(dec_digit_str(n))
    } else {
        let mut s = dec_string(n / 10);
        s.append(dec_digit_str(n % 10));
        s
    }
}

} // verus!
