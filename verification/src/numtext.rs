//! Decimal text: the format of the two sysfs-style files.
//!
//! Each file holds the decimal text of an unsigned integer, optionally
//! surrounded by whitespace.  This module gives the text format a
//! mathematical meaning ([`dec_val`], [`dec_digits`]), a verified parser
//! that trims and reads such text, and a verified renderer that writes a
//! value back; parsing what was rendered returns the value
//! ([`lemma_render_parse_round_trip`]).
//!
//! Whitespace here is the ASCII kind found around sysfs values: space,
//! tab, line feed, carriage return.

use vstd::prelude::*;

verus! {

/// Is `c` one of the ten decimal digit characters?
pub open spec fn is_digit(c: char) -> bool {
    c == '0' || c == '1' || c == '2' || c == '3' || c == '4' || c == '5' || c == '6' || c == '7'
        || c == '8' || c == '9'
}

/// The numeric value of a decimal digit character; 0 for any other
/// character.
pub open spec fn digit_val(c: char) -> int {
    if c == '1' {
        1
    } else if c == '2' {
        2
    } else if c == '3' {
        3
    } else if c == '4' {
        4
    } else if c == '5' {
        5
    } else if c == '6' {
        6
    } else if c == '7' {
        7
    } else if c == '8' {
        8
    } else if c == '9' {
        9
    } else {
        0
    }
}

/// The decimal digit character for a value in `0..=9`; `'9'` for anything
/// larger, so that the function is total.
pub open spec fn digit_char(d: int) -> char {
    if d == 0 {
        '0'
    } else if d == 1 {
        '1'
    } else if d == 2 {
        '2'
    } else if d == 3 {
        '3'
    } else if d == 4 {
        '4'
    } else if d == 5 {
        '5'
    } else if d == 6 {
        '6'
    } else if d == 7 {
        '7'
    } else if d == 8 {
        '8'
    } else {
        '9'
    }
}

/// Every character of `s` is a decimal digit.
pub open spec fn all_digits(s: Seq<char>) -> bool {
    forall|i: int| 0 <= i < s.len() ==> is_digit(#[trigger] s[i])
}

/// The number that a digit string denotes, most significant digit first.
pub open spec fn dec_val(s: Seq<char>) -> int
    decreases s.len(),
{
    if s.len() == 0 {
        0
    } else {
        dec_val(s.drop_last()) * 10 + digit_val(s.last())
    }
}

/// The decimal digit string of a non-negative number, without sign or
/// leading zeros (a single `'0'` for zero).
pub open spec fn dec_digits(n: int) -> Seq<char>
    decreases n,
{
    if n < 10 {
        seq![digit_char(n)]
    } else {
        dec_digits(n / 10) + seq![digit_char(n % 10)]
    }
}

/// ASCII whitespace, as found around sysfs values.
pub open spec fn is_space_char(c: char) -> bool {
    c == ' ' || c == '\t' || c == '\n' || c == '\r'
}

/// `s` with its leading whitespace removed.
pub open spec fn spec_trim_front(s: Seq<char>) -> Seq<char>
    decreases s.len(),
{
    if s.len() > 0 && is_space_char(s[0]) {
        spec_trim_front(s.drop_first())
    } else {
        s
    }
}

/// `s` with its trailing whitespace removed.
pub open spec fn spec_trim_back(s: Seq<char>) -> Seq<char>
    decreases s.len(),
{
    if s.len() > 0 && is_space_char(s.last()) {
        spec_trim_back(s.drop_last())
    } else {
        s
    }
}

/// `s` with whitespace removed from both ends.
pub open spec fn spec_trim(s: Seq<char>) -> Seq<char> {
    spec_trim_back(spec_trim_front(s))
}

/// The digit part of unsigned integer text: everything after an optional
/// leading `'+'`.
pub open spec fn unsigned_digits(s: Seq<char>) -> Seq<char> {
    if s.len() > 0 && s[0] == '+' {
        s.drop_first()
    } else {
        s
    }
}

/// Does `s` (already trimmed) denote an unsigned integer that fits in a
/// `u32`?  An optional `'+'`, then one or more digits, value in range.
pub open spec fn is_u32_text(s: Seq<char>) -> bool {
    let d = unsigned_digits(s);
    d.len() > 0 && all_digits(d) && dec_val(d) <= u32::MAX
}

/// A digit string denotes a non-negative number.
pub proof fn lemma_dec_val_nonneg(s: Seq<char>)
    ensures
        dec_val(s) >= 0,
    decreases s.len(),
{
    if s.len() > 0 {
        lemma_dec_val_nonneg(s.drop_last());
    }
}

/// Extending a digit string to the right never shrinks its value.
pub proof fn lemma_dec_val_prefix_le(d: Seq<char>, m: int)
    requires
        0 <= m <= d.len(),
    ensures
        dec_val(d.subrange(0, m)) <= dec_val(d),
    decreases d.len() - m,
{
    if m == d.len() {
        assert(d.subrange(0, m) =~= d);
    } else {
        let shorter = d.subrange(0, m);
        let longer = d.subrange(0, m + 1);
        assert(longer.drop_last() =~= shorter);
        assert(longer.last() == d[m]);
        lemma_dec_val_nonneg(shorter);
        lemma_dec_val_prefix_le(d, m + 1);
    }
}

/// Whitespace-trimming from the front removes exactly the leading run of
/// whitespace.
proof fn lemma_trim_front_is_subrange(s: Seq<char>, k: int)
    requires
        0 <= k <= s.len(),
        forall|j: int| 0 <= j < k ==> is_space_char(#[trigger] s[j]),
        k == s.len() || !is_space_char(s[k]),
    ensures
        spec_trim_front(s) == s.subrange(k, s.len() as int),
    decreases k,
{
    if k == 0 {
        assert(s.subrange(0, s.len() as int) =~= s);
    } else {
        let rest = s.drop_first();
        assert(rest =~= s.subrange(1, s.len() as int));
        lemma_trim_front_is_subrange(rest, k - 1);
        assert(rest.subrange(k - 1, rest.len() as int) =~= s.subrange(k, s.len() as int));
    }
}

/// Whitespace-trimming from the back removes exactly the trailing run of
/// whitespace.
proof fn lemma_trim_back_is_subrange(s: Seq<char>, e: int)
    requires
        0 <= e <= s.len(),
        forall|j: int| e <= j < s.len() ==> is_space_char(#[trigger] s[j]),
        e == 0 || !is_space_char(s[e - 1]),
    ensures
        spec_trim_back(s) == s.subrange(0, e),
    decreases s.len() - e,
{
    if e == s.len() {
        if s.len() > 0 {
            assert(!is_space_char(s.last()));
        }
        assert(s.subrange(0, e) =~= s);
    } else {
        assert(is_space_char(s.last()));
        let rest = s.drop_last();
        assert(rest =~= s.subrange(0, s.len() - 1));
        lemma_trim_back_is_subrange(rest, e);
        assert(rest.subrange(0, e) =~= s.subrange(0, e));
    }
}

/// Is `c` ASCII whitespace?
fn is_space(c: char) -> (b: bool)
    ensures
        b == is_space_char(c),
{
    c == ' ' || c == '\t' || c == '\n' || c == '\r'
}

/// The value of `c` as a decimal digit, or `None` if `c` is no digit.
fn digit_of(c: char) -> (r: Option<u32>)
    ensures
        r is Some <==> is_digit(c),
        r matches Some(v) ==> v as int == digit_val(c) && v < 10,
{
    if c == '0' {
        Some(0)
    } else if c == '1' {
        Some(1)
    } else if c == '2' {
        Some(2)
    } else if c == '3' {
        Some(3)
    } else if c == '4' {
        Some(4)
    } else if c == '5' {
        Some(5)
    } else if c == '6' {
        Some(6)
    } else if c == '7' {
        Some(7)
    } else if c == '8' {
        Some(8)
    } else if c == '9' {
        Some(9)
    } else {
        None
    }
}

/// Parse the text of a sysfs-style value file: trim whitespace from both
/// ends, then read an unsigned decimal integer (an optional `'+'`, then
/// digits).  `None` exactly when the trimmed text is not such an integer
/// or its value does not fit in a `u32`.
pub fn parse_trimmed_u32(s: &str) -> (r: Option<u32>)
    ensures
        r is Some <==> is_u32_text(spec_trim(s@)),
        r matches Some(v) ==> v as int == dec_val(unsigned_digits(spec_trim(s@))),
{
    let n = s.unicode_len();
    let mut start: usize = 0;
    while start < n && is_space(s.get_char(start))
        invariant
            n == s@.len(),
            0 <= start <= n,
            forall|j: int| 0 <= j < start ==> is_space_char(#[trigger] s@[j]),
        decreases n - start,
    {
        start = start + 1;
    }
    let mut end: usize = n;
    while end > start && is_space(s.get_char(end - 1))
        invariant
            n == s@.len(),
            start <= end <= n,
            forall|j: int| end <= j < n ==> is_space_char(#[trigger] s@[j]),
        decreases end,
    {
        end = end - 1;
    }
    let t = s.substring_char(start, end);
    proof {
        lemma_trim_front_is_subrange(s@, start as int);
        if end == start {
            lemma_trim_back_is_subrange(s@.subrange(start as int, n as int), 0);
        } else {
            lemma_trim_back_is_subrange(s@.subrange(start as int, n as int), end - start);
        }
        assert(s@.subrange(start as int, n as int).subrange(0, end - start) =~= s@.subrange(
            start as int,
            end as int,
        ));
        assert(spec_trim(s@) == t@);
    }
    let tn = t.unicode_len();
    let ghost tv: Seq<char> = t@;
    let mut i: usize = 0;
    if tn > 0 {
        if t.get_char(0) == '+' {
            i = 1;
        }
    }
    let ghost d: Seq<char> = unsigned_digits(tv);
    proof {
        assert(d =~= tv.subrange(i as int, tn as int));
    }
    if i == tn {
        return None;
    }
    let mut acc: u32 = 0;
    let mut j: usize = i;
    while j < tn
        invariant
            i <= j <= tn,
            tn == tv.len(),
            t@ == tv,
            d == tv.subrange(i as int, tn as int),
            d == unsigned_digits(spec_trim(s@)),
            is_u32_text(spec_trim(s@)) == (d.len() > 0 && all_digits(d) && dec_val(d)
                <= u32::MAX),
            forall|k: int| i <= k < j ==> is_digit(#[trigger] tv[k]),
            acc as int == dec_val(tv.subrange(i as int, j as int)),
        decreases tn - j,
    {
        let c = t.get_char(j);
        let dv: u32 = match digit_of(c) {
            Some(v) => v,
            None => {
                proof {
                    assert(d[j - i] == tv[j as int]);
                    assert(!all_digits(d));
                }
                return None;
            },
        };
        let wide: u64 = (acc as u64) * 10 + (dv as u64);
        proof {
            assert(tv.subrange(i as int, j + 1).drop_last() =~= tv.subrange(i as int, j as int));
            assert(tv.subrange(i as int, j + 1).last() == tv[j as int]);
            assert(dec_val(tv.subrange(i as int, j + 1)) == wide as int);
        }
        if wide > u32::MAX as u64 {
            proof {
                if all_digits(d) {
                    assert(d.subrange(0, j + 1 - i) =~= tv.subrange(i as int, j + 1));
                    lemma_dec_val_prefix_le(d, j + 1 - i);
                }
            }
            return None;
        }
        acc = wide as u32;
        j = j + 1;
    }
    proof {
        assert(d =~= tv.subrange(i as int, tn as int));
        assert(forall|k: int| 0 <= k < d.len() ==> is_digit(#[trigger] d[k]));
        assert(dec_val(d) == acc as int);
    }
    Some(acc)
}

/// The one-character string of a decimal digit.
fn digit_str(dv: u64) -> (r: &'static str)
    requires
        dv < 10,
    ensures
        r@ == seq![digit_char(dv as int)],
{
    proof {
        reveal_strlit("0");
        reveal_strlit("1");
        reveal_strlit("2");
        reveal_strlit("3");
        reveal_strlit("4");
        reveal_strlit("5");
        reveal_strlit("6");
        reveal_strlit("7");
        reveal_strlit("8");
        reveal_strlit("9");
    }
    let r: &'static str = if dv == 0 {
        "0"
    } else if dv == 1 {
        "1"
    } else if dv == 2 {
        "2"
    } else if dv == 3 {
        "3"
    } else if dv == 4 {
        "4"
    } else if dv == 5 {
        "5"
    } else if dv == 6 {
        "6"
    } else if dv == 7 {
        "7"
    } else if dv == 8 {
        "8"
    } else {
        "9"
    };
    proof {
        assert(r@ =~= seq![digit_char(dv as int)]);
    }
    r
}

/// The decimal text of `n`, most significant digit first, no sign and no
/// padding: what is written back to a brightness file.
pub fn render_u64(n: u64) -> (r: String)
    ensures
        r@ == dec_digits(n as int),
    decreases n,
{
    if n < 10 {
        let s = String::from_str(digit_str(n));
        proof {
            assert(s@ =~= dec_digits(n as int));
        }
        s
    } else {
        let rest = render_u64(n / 10);
        let s = rest.concat(digit_str(n % 10));
        proof {
            assert(s@ =~= dec_digits(n as int));
        }
        s
    }
}

/// Rendered decimal text is plain digits: non-empty, no sign, no
/// whitespace anywhere.
pub proof fn lemma_dec_digits_wf(n: int)
    requires
        n >= 0,
    ensures
        dec_digits(n).len() >= 1,
        all_digits(dec_digits(n)),
    decreases n,
{
    if n >= 10 {
        lemma_dec_digits_wf(n / 10);
        let s = dec_digits(n);
        assert forall|j: int| 0 <= j < s.len() implies is_digit(#[trigger] s[j]) by {
            if j < dec_digits(n / 10).len() {
                assert(s[j] == dec_digits(n / 10)[j]);
            } else {
                assert(s[j] == digit_char(n % 10));
            }
        }
    }
}

/// Rendered decimal text denotes the number it was rendered from.
pub proof fn lemma_dec_digits_val(n: int)
    requires
        n >= 0,
    ensures
        dec_val(dec_digits(n)) == n,
    decreases n,
{
    if n < 10 {
        let s = dec_digits(n);
        assert(s.len() == 1);
        assert(s.last() == digit_char(n));
        assert(s.drop_last() =~= Seq::<char>::empty());
        assert(dec_val(s) == dec_val(s.drop_last()) * 10 + digit_val(s.last()));
        assert(digit_val(digit_char(n)) == n);
    } else {
        lemma_dec_digits_val(n / 10);
        let s = dec_digits(n);
        assert(s.drop_last() =~= dec_digits(n / 10));
        assert(s.last() == digit_char(n % 10));
    }
}

/// Rendered decimal text survives the file round trip: trimming leaves it
/// unchanged, it parses as unsigned integer text whenever the value fits
/// in a `u32`, and parsing returns the rendered value.
pub proof fn lemma_render_parse_round_trip(n: int)
    requires
        0 <= n <= u32::MAX,
    ensures
        spec_trim(dec_digits(n)) == dec_digits(n),
        unsigned_digits(dec_digits(n)) == dec_digits(n),
        is_u32_text(dec_digits(n)),
        dec_val(unsigned_digits(spec_trim(dec_digits(n)))) == n,
{
    let s = dec_digits(n);
    lemma_dec_digits_wf(n);
    lemma_dec_digits_val(n);
    assert(is_digit(s[0]));
    assert(is_digit(s.last()));
    assert(!is_space_char(s[0]));
    assert(spec_trim_front(s) == s);
    assert(!is_space_char(s.last()));
    assert(spec_trim_back(s) == s);
    assert(s[0] != '+');
}

} // verus!
