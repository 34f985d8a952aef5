//! Decimal amounts from the command line.
//!
//! The set/up/down commands take a decimal amount of percentage points,
//! possibly signed, possibly with a fractional part (`"42"`, `"-2.5"`,
//! `".5"`).  The amount is carried in milli-percent units, truncating the
//! fraction after the third digit; magnitudes beyond
//! [`AMOUNT_SAT_MILLI`] saturate there, which the later clamp into
//! `[0.1%, 100%]` makes indistinguishable from the exact value.

use crate::numtext::all_digits;
use crate::numtext::dec_val;
use crate::numtext::digit_val;
use crate::numtext::is_digit;
use crate::numtext::lemma_dec_val_nonneg;
use vstd::prelude::*;

verus! {

/// Amount magnitudes saturate at this many milli-percent (one thousand
/// billion percent): far beyond the clamp range, so saturation never
/// changes what the tool does.
pub const AMOUNT_SAT_MILLI: i64 = 1_000_000_000_000_000;

/// An integer part at or beyond this value saturates the amount.
const INT_CAP: u64 = 1_000_000_000_000;

/// Does the amount text start with a minus sign?
pub open spec fn spec_amount_negative(s: Seq<char>) -> bool {
    s.len() > 0 && s[0] == '-'
}

/// The amount text after its optional sign.
pub open spec fn spec_amount_body(s: Seq<char>) -> Seq<char> {
    if s.len() > 0 && (s[0] == '+' || s[0] == '-') {
        s.drop_first()
    } else {
        s
    }
}

/// The index of the first `'.'` in `b`, or `b.len()` if there is none.
pub open spec fn first_dot(b: Seq<char>) -> int
    decreases b.len(),
{
    if b.len() == 0 {
        0
    } else if b[0] == '.' {
        0
    } else {
        1 + first_dot(b.drop_first())
    }
}

/// The digits before the first dot.
pub open spec fn int_part(b: Seq<char>) -> Seq<char> {
    b.subrange(0, first_dot(b))
}

/// The digits after the first dot; empty if there is no dot.
pub open spec fn frac_part(b: Seq<char>) -> Seq<char> {
    if first_dot(b) == b.len() {
        Seq::<char>::empty()
    } else {
        b.subrange(first_dot(b) + 1, b.len() as int)
    }
}

/// Is `b` the body of a decimal amount: digits, at most one dot, and at
/// least one digit?  Any second dot would stand in the fractional part,
/// which then would not be all digits.
pub open spec fn is_amount_body(b: Seq<char>) -> bool {
    all_digits(int_part(b)) && all_digits(frac_part(b)) && int_part(b).len() + frac_part(b).len()
        > 0
}

/// Does `s` parse as a decimal amount (optional sign, digits, at most one
/// dot, at least one digit)?
pub open spec fn is_amount_text(s: Seq<char>) -> bool {
    is_amount_body(spec_amount_body(s))
}

/// The fractional part's worth in milli-percent: the first three
/// fractional digits, shorter fractions scaled up, longer ones truncated.
pub open spec fn frac_milli(f: Seq<char>) -> int {
    if f.len() >= 3 {
        dec_val(f.subrange(0, 3))
    } else if f.len() == 2 {
        dec_val(f) * 10
    } else if f.len() == 1 {
        dec_val(f) * 100
    } else {
        0
    }
}

/// Saturate a non-negative magnitude at [`AMOUNT_SAT_MILLI`].
pub open spec fn spec_sat_milli(x: int) -> int {
    if x > AMOUNT_SAT_MILLI as int {
        AMOUNT_SAT_MILLI as int
    } else {
        x
    }
}

/// The milli-percent value that the amount text `s` denotes: sign times
/// the saturated magnitude of integer and fractional part.
pub open spec fn spec_amount_milli(s: Seq<char>) -> int {
    let b = spec_amount_body(s);
    let mag = spec_sat_milli(dec_val(int_part(b)) * 1000 + frac_milli(frac_part(b)));
    if spec_amount_negative(s) {
        -mag
    } else {
        mag
    }
}

/// `first_dot` finds exactly the first dot: if no dot stands before `k`
/// and `k` is a dot or the end, then `first_dot` is `k`.
proof fn lemma_first_dot_at(b: Seq<char>, k: int)
    requires
        0 <= k <= b.len(),
        forall|j: int| 0 <= j < k ==> #[trigger] b[j] != '.',
        k == b.len() || b[k] == '.',
    ensures
        first_dot(b) == k,
    decreases k,
{
    if k == 0 {
    } else {
        let rest = b.drop_first();
        lemma_first_dot_at(rest, k - 1);
    }
}

/// Digit strings of at most three digits denote less than 1000.
proof fn lemma_dec_val_below_1000(s: Seq<char>)
    requires
        s.len() <= 3,
    ensures
        dec_val(s) < 1000,
    decreases s.len(),
{
    if s.len() > 0 {
        lemma_dec_val_below_1000(s.drop_last());
        if s.len() == 1 {
            assert(dec_val(s.drop_last()) == 0);
        } else {
            lemma_dec_val_below_100(s.drop_last());
        }
    }
}

/// Digit strings of at most two digits denote less than 100.
proof fn lemma_dec_val_below_100(s: Seq<char>)
    requires
        s.len() <= 2,
    ensures
        dec_val(s) < 100,
    decreases s.len(),
{
    if s.len() > 0 {
        lemma_dec_val_below_100(s.drop_last());
        if s.len() == 1 {
            assert(dec_val(s.drop_last()) == 0);
        } else {
            assert(s.drop_last().len() == 1);
            assert(dec_val(s.drop_last().drop_last()) == 0);
        }
    }
}

/// The saturated value of a digit run: `None` exactly when a non-digit
/// stands in `[from, to)`; otherwise the run's value, capped at
/// [`INT_CAP`].
fn scan_digits_capped(s: &str, from: usize, to: usize) -> (r: Option<u64>)
    requires
        from <= to <= s@.len(),
    ensures
        r is Some <==> all_digits(s@.subrange(from as int, to as int)),
        r matches Some(v) ==> v as int == (if dec_val(s@.subrange(from as int, to as int))
            >= INT_CAP as int {
            INT_CAP as int
        } else {
            dec_val(s@.subrange(from as int, to as int))
        }),
{
    let mut acc: u64 = 0;
    let mut j: usize = from;
    while j < to
        invariant
            from <= j <= to <= s@.len(),
            forall|k: int| from <= k < j ==> is_digit(#[trigger] s@[k]),
            acc <= INT_CAP,
            acc as int == (if dec_val(s@.subrange(from as int, j as int)) >= INT_CAP as int {
                INT_CAP as int
            } else {
                dec_val(s@.subrange(from as int, j as int))
            }),
        decreases to - j,
    {
        let c = s.get_char(j);
        let dv: u64 = if c == '0' {
            0
        } else if c == '1' {
            1
        } else if c == '2' {
            2
        } else if c == '3' {
            3
        } else if c == '4' {
            4
        } else if c == '5' {
            5
        } else if c == '6' {
            6
        } else if c == '7' {
            7
        } else if c == '8' {
            8
        } else if c == '9' {
            9
        } else {
            proof {
                assert(!is_digit(s@.subrange(from as int, to as int)[j - from]));
            }
            return None;
        };
        let wide: u64 = acc * 10 + dv;
        proof {
            let prev = s@.subrange(from as int, j as int);
            let next = s@.subrange(from as int, j + 1);
            assert(next.drop_last() =~= prev);
            assert(next.last() == s@[j as int]);
            assert(dec_val(next) == dec_val(prev) * 10 + digit_val(s@[j as int]));
            lemma_dec_val_nonneg(prev);
        }
        acc = if wide >= INT_CAP {
            INT_CAP
        } else {
            wide
        };
        j = j + 1;
    }
    proof {
        assert(forall|k: int|
            0 <= k < s@.subrange(from as int, to as int).len() ==> is_digit(
                #[trigger] s@.subrange(from as int, to as int)[k],
            ));
    }
    Some(acc)
}

/// Parse a command-line amount: optional sign, then digits with at most
/// one dot and at least one digit.  `None` exactly when the text has any
/// other shape; otherwise the denoted milli-percent value, the fraction
/// truncated after three digits and the magnitude saturated at
/// [`AMOUNT_SAT_MILLI`].
pub fn parse_amount_milli(s: &str) -> (r: Option<i64>)
    ensures
        r is Some <==> is_amount_text(s@),
        r matches Some(v) ==> v as int == spec_amount_milli(s@),
{
    let n = s.unicode_len();
    let mut i: usize = 0;
    let mut neg = false;
    if n > 0 {
        let c0 = s.get_char(0);
        if c0 == '+' {
            i = 1;
        } else if c0 == '-' {
            neg = true;
            i = 1;
        }
    }
    let ghost b: Seq<char> = spec_amount_body(s@);
    proof {
        assert(b =~= s@.subrange(i as int, n as int));
        assert(neg == spec_amount_negative(s@));
    }
    let mut dot: usize = i;
    while dot < n && s.get_char(dot) != '.'
        invariant
            i <= dot <= n,
            n == s@.len(),
            forall|j: int| i <= j < dot ==> #[trigger] s@[j] != '.',
        decreases n - dot,
    {
        dot = dot + 1;
    }
    proof {
        lemma_first_dot_at(b, dot - i);
        assert(int_part(b) =~= s@.subrange(i as int, dot as int));
    }
    let iv: u64 = match scan_digits_capped(s, i, dot) {
        Some(v) => v,
        None => {
            return None;
        },
    };
    let mut fm: u64 = 0;
    let mut frac_len: usize = 0;
    if dot < n {
        frac_len = n - dot - 1;
        proof {
            assert(frac_part(b) =~= s@.subrange(dot + 1, n as int));
        }
        match scan_digits_capped(s, dot + 1, n) {
            Some(_) => {},
            None => {
                return None;
            },
        }
        let k: usize = if frac_len >= 3 {
            3
        } else {
            frac_len
        };
        proof {
            let whole = s@.subrange(dot + 1, n as int);
            let head = s@.subrange(dot + 1, dot + 1 + k);
            assert(forall|j: int| 0 <= j < head.len() ==> head[j] == whole[j]);
            assert(all_digits(head));
            assert(head.len() <= 3);
            lemma_dec_val_below_1000(head);
            lemma_dec_val_nonneg(head);
        }
        let fv: u64 = match scan_digits_capped(s, dot + 1, dot + 1 + k) {
            Some(v) => v,
            None => {
                proof {
                    assert(false);
                }
                0
            },
        };
        proof {
            let whole = s@.subrange(dot + 1, n as int);
            if frac_len >= 3 {
                assert(whole.subrange(0, 3) =~= s@.subrange(dot + 1, dot + 1 + k));
            } else {
                assert(whole =~= s@.subrange(dot + 1, dot + 1 + k));
            }
        }
        fm = if frac_len >= 3 {
            fv
        } else if frac_len == 2 {
            fv * 10
        } else {
            fv * 100
        };
        proof {
            let head = s@.subrange(dot + 1, dot + 1 + k);
            if frac_len == 2 {
                lemma_dec_val_below_100(head);
            } else if frac_len == 1 {
                assert(head.len() == 1);
                assert(dec_val(head.drop_last()) == 0);
            }
            assert(fm < 1000);
            assert(fm as int == frac_milli(frac_part(b)));
        }
    } else {
        proof {
            assert(frac_part(b) =~= Seq::<char>::empty());
        }
    }
    let int_len: usize = dot - i;
    if int_len == 0 && frac_len == 0 {
        return None;
    }
    proof {
        lemma_dec_val_nonneg(int_part(b));
    }
    let mag: i64 = if iv >= INT_CAP {
        AMOUNT_SAT_MILLI
    } else {
        (iv * 1000 + fm) as i64
    };
    proof {
        let true_mag = dec_val(int_part(b)) * 1000 + frac_milli(frac_part(b));
        if iv >= INT_CAP {
            assert(dec_val(int_part(b)) >= INT_CAP as int);
            assert(dec_val(int_part(b)) * 1000 >= INT_CAP as int * 1000) by (nonlinear_arith)
                requires
                    dec_val(int_part(b)) >= INT_CAP as int,
            ;
            assert(spec_sat_milli(true_mag) == AMOUNT_SAT_MILLI as int);
        } else {
            assert(dec_val(int_part(b)) < INT_CAP as int);
            assert(dec_val(int_part(b)) * 1000 <= (INT_CAP as int - 1) * 1000)
                by (nonlinear_arith)
                requires
                    dec_val(int_part(b)) <= INT_CAP as int - 1,
            ;
            assert(fm < 1000);
            assert(true_mag < AMOUNT_SAT_MILLI as int);
            assert(spec_sat_milli(true_mag) == mag as int);
        }
    }
    if neg {
        Some(-mag)
    } else {
        Some(mag)
    }
}

} // verus!
