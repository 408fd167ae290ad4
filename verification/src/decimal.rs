//! Parsing decimal strings from venue feeds into fixed-point integers.
//!
//! A price or quantity arrives as text like `"49951.25"`.  It is parsed
//! against the grammar `digits [ '.' digits ]` — at most nineteen integer
//! digits — and scaled by `10^scale`; fraction digits beyond the scale
//! are truncated toward zero.

use vstd::prelude::*;
use vstd::string::StrSliceExecFns;

use crate::text::count_char;

verus! {

/// Value of one decimal digit, or `-1` for any other character.
pub open spec fn digit_val(c: char) -> int {
    match c {
        '0' => 0,
        '1' => 1,
        '2' => 2,
        '3' => 3,
        '4' => 4,
        '5' => 5,
        '6' => 6,
        '7' => 7,
        '8' => 8,
        '9' => 9,
        _ => -1,
    }
}

/// Every character is a decimal digit.
pub open spec fn all_digits(s: Seq<char>) -> bool {
    forall|i: int| 0 <= i < s.len() ==> digit_val(#[trigger] s[i]) >= 0
}

/// Ten to the `n`.
pub open spec fn pow10(n: nat) -> int
    decreases n,
{
    if n == 0 {
        1
    } else {
        10 * pow10((n - 1) as nat)
    }
}

/// Value of a digit string, most significant digit first.
pub open spec fn digits_val(s: Seq<char>) -> int
    decreases s.len(),
{
    if s.len() == 0 {
        0
    } else {
        digits_val(s.drop_last()) * 10 + digit_val(s.last())
    }
}

/// A well-formed integer part: one to nineteen decimal digits.
pub open spec fn valid_digits(s: Seq<char>) -> bool {
    1 <= s.len() <= 19 && all_digits(s)
}

/// Value of a fraction-digit string at the given scale: the first
/// `scale` digits count, the rest are truncated.
pub open spec fn frac_val(s: Seq<char>, scale: nat) -> int {
    if s.len() <= scale {
        digits_val(s) * pow10((scale - s.len()) as nat)
    } else {
        digits_val(s.take(scale as int))
    }
}

/// What a decimal string denotes at the given scale, or nothing when it
/// does not fit the grammar `digits [ '.' digits ]` (at most nineteen
/// integer digits, at least one digit on each side of the point).
pub open spec fn spec_parse_scaled(s: Seq<char>, scale: nat) -> Option<int> {
    if count_char(s, '.') == 0 {
        if valid_digits(s) {
            Some(digits_val(s) * pow10(scale))
        } else {
            None
        }
    } else if count_char(s, '.') == 1 {
        let i = choose|i: int| 0 <= i < s.len() && s[i] == '.';
        let ip = s.subrange(0, i);
        let fp = s.subrange(i + 1, s.len() as int);
        if valid_digits(ip) && fp.len() >= 1 && all_digits(fp) {
            Some(digits_val(ip) * pow10(scale) + frac_val(fp, scale))
        } else {
            None
        }
    } else {
        None
    }
}

/// A digit string's value is non-negative.
pub proof fn lemma_digits_val_nonneg(s: Seq<char>)
    requires
        all_digits(s),
    ensures
        digits_val(s) >= 0,
    decreases s.len(),
{
    if s.len() > 0 {
        assert(all_digits(s.drop_last()));
        lemma_digits_val_nonneg(s.drop_last());
    }
}

/// A digit string's value is below ten to its length.
pub proof fn lemma_digits_val_bound(s: Seq<char>)
    requires
        all_digits(s),
    ensures
        digits_val(s) < pow10(s.len()),
    decreases s.len(),
{
    if s.len() > 0 {
        assert(all_digits(s.drop_last()));
        lemma_digits_val_bound(s.drop_last());
        lemma_digits_val_nonneg(s.drop_last());
        assert(digit_val(s.last()) <= 9);
        assert(digits_val(s.drop_last()) <= pow10((s.len() - 1) as nat) - 1);
        assert(pow10(s.len()) == 10 * pow10((s.len() - 1) as nat));
    }
}

/// Ten to the `n` is positive.
pub proof fn lemma_pow10_pos(n: nat)
    ensures
        pow10(n) >= 1,
    decreases n,
{
    if n > 0 {
        lemma_pow10_pos((n - 1) as nat);
    }
}

/// Ten to the `n` grows with `n`.
pub proof fn lemma_pow10_mono(a: nat, b: nat)
    requires
        a <= b,
    ensures
        pow10(a) <= pow10(b),
    decreases b,
{
    if a < b {
        lemma_pow10_mono(a, (b - 1) as nat);
        lemma_pow10_pos((b - 1) as nat);
    }
}

/// One more digit multiplies the prefix value by ten and adds the digit.
proof fn lemma_digits_val_step(s: Seq<char>, i: int)
    requires
        0 <= i < s.len(),
    ensures
        digits_val(s.take(i + 1)) == digits_val(s.take(i)) * 10 + digit_val(s[i]),
{
    assert(s.take(i + 1).drop_last() =~= s.take(i));
    assert(s.take(i + 1).last() == s[i]);
}

/// Concrete powers of ten up to nineteen digits.
proof fn lemma_pow10_concrete()
    ensures
        pow10(18) == 1000000000000000000,
        pow10(19) == 10000000000000000000,
{
    assert(pow10(0) == 1);
    assert(pow10(1) == 10);
    assert(pow10(2) == 100);
    assert(pow10(3) == 1000);
    assert(pow10(4) == 10000);
    assert(pow10(5) == 100000);
    assert(pow10(6) == 1000000);
    assert(pow10(7) == 10000000);
    assert(pow10(8) == 100000000);
    assert(pow10(9) == 1000000000);
    assert(pow10(10) == 10000000000);
    assert(pow10(11) == 100000000000);
    assert(pow10(12) == 1000000000000);
    assert(pow10(13) == 10000000000000);
    assert(pow10(14) == 100000000000000);
    assert(pow10(15) == 1000000000000000);
    assert(pow10(16) == 10000000000000000);
    assert(pow10(17) == 100000000000000000);
    assert(pow10(18) == 1000000000000000000);
    assert(pow10(19) == 10000000000000000000);
}

/// Digit value of a character, or `None` when it is no digit.
fn digit_of(c: char) -> (r: Option<u8>)
    ensures
        digit_val(c) >= 0 ==> r == Some(digit_val(c) as u8),
        digit_val(c) < 0 ==> r is None,
{
    match c {
        '0' => Some(0),
        '1' => Some(1),
        '2' => Some(2),
        '3' => Some(3),
        '4' => Some(4),
        '5' => Some(5),
        '6' => Some(6),
        '7' => Some(7),
        '8' => Some(8),
        '9' => Some(9),
        _ => None,
    }
}

/// Checks that every character of `s[from..to]` is a decimal digit.
fn check_digits(s: &str, from: usize, to: usize) -> (r: bool)
    requires
        from <= to <= s@.len(),
    ensures
        r == all_digits(s@.subrange(from as int, to as int)),
{
    let ghost part = s@.subrange(from as int, to as int);
    let mut i: usize = from;
    while i < to
        invariant
            from <= i <= to <= s@.len(),
            part == s@.subrange(from as int, to as int),
            forall|j: int| 0 <= j < i - from ==> digit_val(#[trigger] part[j]) >= 0,
        decreases to - i,
    {
        match digit_of(s.get_char(i)) {
            Some(_) => {
                proof {
                    assert(part[i - from] == s@[i as int]);
                }
            },
            None => {
                proof {
                    assert(part[i - from] == s@[i as int]);
                }
                return false;
            },
        }
        i = i + 1;
    }
    true
}

/// Parses a digit substring `s[from..to]`, returning its value when it
/// is one to nineteen digits long.
fn parse_digits(s: &str, from: usize, to: usize) -> (r: Option<u64>)
    requires
        from <= to <= s@.len(),
    ensures
        match r {
            Some(v) => valid_digits(s@.subrange(from as int, to as int)) && v == digits_val(
                s@.subrange(from as int, to as int),
            ),
            None => !valid_digits(s@.subrange(from as int, to as int)),
        },
{
    let ghost part = s@.subrange(from as int, to as int);
    if to == from || to - from > 19 {
        return None;
    }
    let mut acc: u64 = 0;
    let mut i: usize = from;
    while i < to
        invariant
            from <= i <= to <= s@.len(),
            to - from <= 19,
            part == s@.subrange(from as int, to as int),
            all_digits(part.take(i - from)),
            acc == digits_val(part.take(i - from)),
            acc < pow10((i - from) as nat),
        decreases to - i,
    {
        proof {
            lemma_digits_val_step(part, i - from);
            assert(part[i - from] == s@[i as int]);
            lemma_pow10_concrete();
            lemma_pow10_mono((i - from + 1) as nat, 19);
        }
        match digit_of(s.get_char(i)) {
            Some(d) => {
                assert(acc * 10 + d < pow10((i - from + 1) as nat)) by {
                    assert(acc <= pow10((i - from) as nat) - 1);
                    assert(d <= 9);
                    assert(acc * 10 <= (pow10((i - from) as nat) - 1) * 10) by (nonlinear_arith)
                        requires
                            acc <= pow10((i - from) as nat) - 1,
                    ;
                    assert(pow10((i - from + 1) as nat) == 10 * pow10((i - from) as nat));
                }
                acc = acc * 10 + (d as u64);
                proof {
                    assert(part.take(i - from + 1) =~= part.take(i - from).push(part[i - from]));
                }
            },
            None => {
                return None;
            },
        }
        i = i + 1;
    }
    proof {
        assert(part.take(to - from) =~= part);
    }
    Some(acc)
}

/// Ten to the `scale`, as a number.
pub fn pow10_u64(scale: usize) -> (r: u64)
    requires
        scale <= 18,
    ensures
        r == pow10(scale as nat),
    decreases scale,
{
    proof {
        lemma_pow10_concrete();
        lemma_pow10_mono(scale as nat, 18);
        lemma_pow10_pos(scale as nat);
    }
    if scale == 0 {
        1
    } else {
        let rest = pow10_u64(scale - 1);
        proof {
            lemma_pow10_mono((scale - 1) as nat, 18);
        }
        10 * rest
    }
}

/// With exactly one `.`, any occurrence is at that index.
proof fn lemma_dot_unique(s: Seq<char>, dot: int)
    requires
        0 <= dot < s.len(),
        s[dot] == '.',
        count_char(s, '.') == 1,
    ensures
        forall|k: int| 0 <= k < s.len() && s[k] == '.' ==> k == dot,
        ({
            let i = choose|i: int| 0 <= i < s.len() && s[i] == '.';
            i == dot
        }),
{
    assert forall|k: int| 0 <= k < s.len() && s[k] == '.' implies k == dot by {
        if k != dot {
            let a = if k < dot {
                k
            } else {
                dot
            };
            let b = if k < dot {
                dot
            } else {
                k
            };
            let pre = s.subrange(0, a + 1);
            let post = s.subrange(a + 1, s.len() as int);
            assert(s =~= pre + post);
            crate::text::lemma_count_char_add(pre, post, '.');
            assert(pre.last() == s[a]);
            lemma_count_last(pre, '.');
            assert(post[b - a - 1] == s[b]);
            crate::text::lemma_count_char_zero(post, '.');
            assert(count_char(post, '.') >= 1);
        }
    }
    let i = choose|i: int| 0 <= i < s.len() && s[i] == '.';
    assert(s[dot] == '.');
}

/// A string ending in `c` counts at least one occurrence.
proof fn lemma_count_last(s: Seq<char>, c: char)
    requires
        s.len() >= 1,
        s.last() == c,
    ensures
        count_char(s, c) >= 1,
    decreases s.len(),
{
    if s.len() == 1 {
        assert(s[0] == c);
    } else {
        assert(s.drop_first().last() == s.last());
        lemma_count_last(s.drop_first(), c);
    }
}

/// The value of the fraction field at the scale equals the value of its
/// first `min(scale, len)` digits times the remaining scale.
proof fn lemma_frac_value(fp: Seq<char>, take_len: int, scale: nat)
    requires
        fp.len() >= 1,
        all_digits(fp),
        take_len == if fp.len() <= scale {
            fp.len() as int
        } else {
            scale as int
        },
    ensures
        frac_val(fp, scale) == digits_val(fp.take(take_len)) * pow10(
            (scale - take_len) as nat,
        ),
{
    if fp.len() <= scale {
        assert(fp.take(take_len) =~= fp);
    } else {
        assert(pow10(0) == 1);
    }
}

/// Parses a decimal string into a fixed-point integer at the given
/// scale.  Succeeds exactly when the text fits the grammar
/// `digits [ '.' digits ]` (at most nineteen integer digits) and the
/// scaled value fits in 64 bits; fraction digits beyond the scale are
/// truncated toward zero.
pub fn parse_scaled_decimal(s: &str, scale: usize) -> (r: Option<u64>)
    requires
        scale <= 18,
    ensures
        match r {
            Some(v) => spec_parse_scaled(s@, scale as nat) == Some(v as int),
            None => spec_parse_scaled(s@, scale as nat) is None || !(spec_parse_scaled(
                s@,
                scale as nat,
            )->Some_0 <= u64::MAX),
        },
{
    let n = s.unicode_len();
    let factor = pow10_u64(scale);
    match crate::text::find_char_at(s, '.') {
        None => {
            proof {
                crate::text::lemma_count_char_zero(s@, '.');
                assert(s@.subrange(0, s@.len() as int) =~= s@);
            }
            match parse_digits(s, 0, n) {
                Some(ip) => {
                    proof {
                        lemma_digits_val_nonneg(s@);
                        lemma_pow10_pos(scale as nat);
                        lemma_pow10_concrete();
                        lemma_pow10_mono(scale as nat, 18);
                        lemma_digits_val_bound(s@);
                        lemma_pow10_mono(s@.len(), 19);
                        assert((ip as int) * (factor as int) < pow10(19) * pow10(18))
                            by (nonlinear_arith)
                            requires
                                0 <= (ip as int),
                                (ip as int) < pow10(19),
                                1 <= (factor as int),
                                (factor as int) <= pow10(18),
                                pow10(19) > 0,
                                pow10(18) > 0,
                        ;
                        assert(pow10(19) * pow10(18) == 10000000000000000000
                            * 1000000000000000000);
                    }
                    let v: u128 = (ip as u128) * (factor as u128);
                    if v <= u64::MAX as u128 {
                        Some(v as u64)
                    } else {
                        None
                    }
                },
                None => None,
            }
        },
        Some(dot) => {
            let ghost ip_seq = s@.subrange(0, dot as int);
            let ghost fp_seq = s@.subrange(dot + 1, s@.len() as int);
            match crate::text::find_char_at_from(s, '.', dot + 1) {
                Some(j) => {
                    proof {
                        crate::text::lemma_count_first_occurrence(s@, dot as int, '.');
                        assert(fp_seq[j - dot - 1] == '.');
                        crate::text::lemma_count_char_zero(fp_seq, '.');
                        assert(count_char(s@, '.') != 0 && count_char(s@, '.') != 1);
                    }
                    None
                },
                None => {
                    proof {
                        crate::text::lemma_count_first_occurrence(s@, dot as int, '.');
                        crate::text::lemma_count_char_zero(fp_seq, '.');
                        assert(count_char(s@, '.') == 1);
                        lemma_dot_unique(s@, dot as int);
                    }
                    if dot + 1 >= n {
                        proof {
                            assert(fp_seq.len() == 0);
                        }
                        return None;
                    }
                    if !check_digits(s, dot + 1, n) {
                        return None;
                    }
                    let ip = match parse_digits(s, 0, dot) {
                        Some(v) => v,
                        None => {
                            return None;
                        },
                    };
                    let take_len = if n - (dot + 1) <= scale {
                        n - (dot + 1)
                    } else {
                        scale
                    };
                    let fv: u64 = if take_len == 0 {
                        0
                    } else {
                        match parse_digits(s, dot + 1, dot + 1 + take_len) {
                            Some(v) => v,
                            None => {
                                proof {
                                    let sub = s@.subrange(dot + 1, dot + 1 + take_len as int);
                                    assert forall|k: int| 0 <= k < sub.len() implies digit_val(
                                        #[trigger] sub[k],
                                    ) >= 0 by {
                                        assert(sub[k] == fp_seq[k]);
                                    }
                                    assert(valid_digits(sub));
                                    assert(false);
                                }
                                0
                            },
                        }
                    };
                    let fscale = pow10_u64(scale - take_len);
                    let ghost sub = s@.subrange(dot + 1, dot + 1 + take_len as int);
                    proof {
                        assert(sub =~= fp_seq.take(take_len as int));
                        lemma_frac_value(fp_seq, take_len as int, scale as nat);
                        if take_len == 0 {
                            assert(digits_val(fp_seq.take(0)) == 0);
                            assert(fv == digits_val(fp_seq.take(take_len as int)));
                        }
                        lemma_digits_val_nonneg(ip_seq);
                        lemma_digits_val_bound(ip_seq);
                        lemma_digits_val_nonneg(fp_seq.take(take_len as int));
                        lemma_digits_val_bound(fp_seq.take(take_len as int));
                        lemma_pow10_pos(scale as nat);
                        lemma_pow10_concrete();
                        lemma_pow10_mono(scale as nat, 18);
                        lemma_pow10_mono(ip_seq.len(), 19);
                        lemma_pow10_mono((scale - take_len) as nat, 18);
                        lemma_pow10_mono(take_len as nat, 18);
                        lemma_pow10_pos((scale - take_len) as nat);
                        assert((ip as int) * (factor as int) < pow10(19) * pow10(18))
                            by (nonlinear_arith)
                            requires
                                0 <= (ip as int),
                                (ip as int) < pow10(19),
                                1 <= (factor as int),
                                (factor as int) <= pow10(18),
                                pow10(19) > 0,
                                pow10(18) > 0,
                        ;
                        assert(pow10(19) * pow10(18) == 10000000000000000000
                            * 1000000000000000000);
                        assert((fv as int) * (fscale as int) <= pow10(18) * pow10(18))
                            by (nonlinear_arith)
                            requires
                                0 <= (fv as int),
                                (fv as int) <= pow10(18),
                                1 <= (fscale as int),
                                (fscale as int) <= pow10(18),
                                pow10(18) > 0,
                        ;
                        assert(pow10(18) * pow10(18) == 1000000000000000000
                            * 1000000000000000000);
                    }
                    let fpart: u128 = (fv as u128) * (fscale as u128);
                    let v: u128 = (ip as u128) * (factor as u128) + fpart;
                    if v <= u64::MAX as u128 {
                        Some(v as u64)
                    } else {
                        None
                    }
                },
            }
        },
    }
}

} // verus!
