//! Reads a palette height written as `130`, `130px` or `50%`.
use vstd::prelude::*;
use crate::config::{PaletteHeight, FULL_PERCENTAGE, PERCENT_SCALE};
use crate::error::ColorBuddyError;

verus! {

/// Whether `c` is an ASCII digit.
pub open spec fn is_digit(c: char) -> bool {
    '0' <= c && c <= '9'
}

/// Whether every character of `s` is an ASCII digit.
pub open spec fn all_digits(s: Seq<char>) -> bool {
    forall|i: int| 0 <= i < s.len() ==> is_digit(#[trigger] s[i])
}

/// The value of an ASCII digit.
pub open spec fn digit_value(c: char) -> nat {
    (c as u32 - '0' as u32) as nat
}

/// The number that a run of decimal digits spells (0 for none).
pub open spec fn digits_value(s: Seq<char>) -> nat
    decreases s.len(),
{
    if s.len() == 0 {
        0
    } else {
        digits_value(s.drop_last()) * 10 + digit_value(s.last())
    }
}

/// `10` to the power `n`.
pub open spec fn pow10(n: nat) -> nat
    decreases n,
{
    if n == 0 {
        1
    } else {
        10 * pow10((n - 1) as nat)
    }
}

/// The text after an optional leading `+`.
pub open spec fn unsigned_part(s: Seq<char>) -> Seq<char> {
    if s.len() > 0 && s[0] == '+' {
        s.drop_first()
    } else {
        s
    }
}

/// A `u32` as std reads one from text: an optional `+`, then one or more
/// ASCII digits whose value fits.
pub open spec fn parse_u32(s: Seq<char>) -> Option<u32> {
    let d = unsigned_part(s);
    if d.len() > 0 && all_digits(d) && digits_value(d) <= u32::MAX {
        Some(digits_value(d) as u32)
    } else {
        None
    }
}

/// Position of the first `.` in `s`, or its length where there is none.
pub open spec fn dot_index(s: Seq<char>) -> int
    decreases s.len(),
{
    if s.len() == 0 {
        0
    } else if s[0] == '.' {
        0
    } else {
        1 + dot_index(s.drop_first())
    }
}

/// The first six digits after a decimal point as millionths; later digits are dropped.
pub open spec fn fraction_millionths(f: Seq<char>) -> nat {
    if f.len() <= 6 {
        digits_value(f) * pow10((6 - f.len()) as nat)
    } else {
        digits_value(f.take(6))
    }
}

/// A percentage in millionths of a percent: an optional `+`, digits, then
/// optionally `.` and more digits, with at least one digit in all; its value
/// must lie within 0 ..= 100.
pub open spec fn parse_percentage(s: Seq<char>) -> Option<u32> {
    let body = unsigned_part(s);
    let k = dot_index(body);
    let whole = body.take(k);
    let fraction = if k < body.len() {
        body.skip(k + 1)
    } else {
        Seq::<char>::empty()
    };
    let value = digits_value(whole) * PERCENT_SCALE + fraction_millionths(fraction);
    if all_digits(whole) && all_digits(fraction) && whole.len() + fraction.len() > 0 && value
        <= FULL_PERCENTAGE {
        Some(value as u32)
    } else {
        None
    }
}

/// A palette height: `N%` is a percentage, `Npx` and a bare `N` are pixels.
pub open spec fn parse_palette_height(s: Seq<char>) -> Option<PaletteHeight> {
    if is_percentage_text(s) {
        match parse_percentage(s.drop_last()) {
            Some(p) => Some(PaletteHeight::Percentage(p)),
            None => None,
        }
    } else if s.len() >= 2 && s[s.len() - 2] == 'p' && s[s.len() - 1] == 'x' {
        match parse_u32(s.take(s.len() - 2)) {
            Some(n) => Some(PaletteHeight::Absolute(n)),
            None => None,
        }
    } else {
        match parse_u32(s) {
            Some(n) => Some(PaletteHeight::Absolute(n)),
            None => None,
        }
    }
}

/// Whether `s` is written as a percentage (it ends with `%`).
pub open spec fn is_percentage_text(s: Seq<char>) -> bool {
    s.len() >= 1 && s.last() == '%'
}

/// The message of the error for a height that cannot be read.
pub open spec fn height_error_message(percentage: bool) -> Seq<char> {
    if percentage {
        "Percentage must be between 0 and 100"@
    } else {
        "Pixels must be a positive integer"@
    }
}

/// Adding a digit multiplies by ten and adds it.
proof fn lemma_digits_push(s: Seq<char>, c: char)
    ensures
        digits_value(s.push(c)) == digits_value(s) * 10 + digit_value(c),
{
    assert(s.push(c).drop_last() =~= s);
}

/// A run of digits is never worth less than its prefix.
proof fn lemma_digits_grow(s: Seq<char>, c: char)
    ensures
        digits_value(s.push(c)) >= digits_value(s),
{
    lemma_digits_push(s, c);
}

/// `dot_index` is the first position holding `.`, or the length.
proof fn lemma_dot_index(s: Seq<char>, j: int)
    requires
        0 <= j <= s.len(),
        forall|i: int| 0 <= i < j ==> #[trigger] s[i] != '.',
        j < s.len() ==> s[j] == '.',
    ensures
        dot_index(s) == j,
    decreases s.len(),
{
    if s.len() > 0 && j > 0 {
        let t = s.drop_first();
        assert forall|i: int| 0 <= i < j - 1 implies #[trigger] t[i] != '.' by {
            assert(t[i] == s[i + 1]);
        }
        lemma_dot_index(t, j - 1);
    }
}

/// Reads the digits `s[from..to]`: `None` where one is not an ASCII digit,
/// else their value, or `cap + 1` where that value is above `cap`.
fn read_digits(s: &str, from: usize, to: usize, cap: u64) -> (r: Option<u64>)
    requires
        from <= to <= s@.len(),
        cap <= u32::MAX,
    ensures
        r is Some <==> all_digits(s@.subrange(from as int, to as int)),
        r matches Some(v) ==> v == if digits_value(s@.subrange(from as int, to as int)) <= cap {
            digits_value(s@.subrange(from as int, to as int)) as int
        } else {
            cap + 1
        },
{
    let mut acc: u64 = 0;
    let mut i: usize = from;
    while i < to
        invariant
            from <= i <= to <= s@.len(),
            cap <= u32::MAX,
            all_digits(s@.subrange(from as int, i as int)),
            acc == if digits_value(s@.subrange(from as int, i as int)) <= cap {
                digits_value(s@.subrange(from as int, i as int)) as int
            } else {
                cap + 1
            },
        decreases to - i,
    {
        let c = s.get_char(i);
        let ghost before = s@.subrange(from as int, i as int);
        assert(s@.subrange(from as int, i as int + 1) =~= before.push(c));
        proof {
            lemma_digits_push(before, c);
        }
        if c < '0' || c > '9' {
            assert(!all_digits(s@.subrange(from as int, to as int))) by {
                assert(s@.subrange(from as int, to as int)[i - from] == c);
            }
            return None;
        }
        let d = (c as u32 - '0' as u32) as u64;
        if acc <= cap {
            let next = acc * 10 + d;
            acc = if next <= cap { next } else { cap + 1 };
        }
        i = i + 1;
    }
    Some(acc)
}

/// The error for a height that cannot be read.
fn height_error(percent: bool) -> (e: ColorBuddyError)
    ensures
        e is InvalidPaletteHeight,
        e->InvalidPaletteHeight_0@ == height_error_message(percent),
{
    if percent {
        ColorBuddyError::InvalidPaletteHeight(
            String::from_str("Percentage must be between 0 and 100"),
        )
    } else {
        ColorBuddyError::InvalidPaletteHeight(String::from_str("Pixels must be a positive integer"))
    }
}

/// Reads `s[0..end]` as a `u32` the way std does.
fn read_u32(s: &str, end: usize) -> (r: Option<u32>)
    requires
        end <= s@.len(),
    ensures
        r == parse_u32(s@.take(end as int)),
{
    let ghost t = s@.take(end as int);
    let start: usize = if end > 0 && s.get_char(0) == '+' { 1 } else { 0 };
    assert(unsigned_part(t) =~= s@.subrange(start as int, end as int));
    if start == end {
        return None;
    }
    match read_digits(s, start, end, 0xffff_ffff) {
        Some(v) => if v <= 0xffff_ffff {
            Some(v as u32)
        } else {
            None
        },
        None => None,
    }
}

/// Position of the first `.` in `s[from..to]`, or `to` where there is none.
fn find_dot(s: &str, from: usize, to: usize) -> (k: usize)
    requires
        from <= to <= s@.len(),
    ensures
        from <= k <= to,
        dot_index(s@.subrange(from as int, to as int)) == k - from,
{
    let ghost body = s@.subrange(from as int, to as int);
    let mut k: usize = from;
    while k < to && s.get_char(k) != '.'
        invariant
            from <= k <= to <= s@.len(),
            forall|i: int| from <= i < k ==> #[trigger] s@[i] != '.',
        decreases to - k,
    {
        k = k + 1;
    }
    proof {
        assert forall|i: int| 0 <= i < k - from implies #[trigger] body[i] != '.' by {
            assert(body[i] == s@[from + i]);
        }
        lemma_dot_index(body, k - from);
    }
    k
}

/// Reads the digits after a decimal point, `s[from..to]`, as millionths.
fn read_fraction(s: &str, from: usize, to: usize) -> (r: Option<u64>)
    requires
        from <= to <= s@.len(),
    ensures
        r is Some <==> all_digits(s@.subrange(from as int, to as int)),
        r matches Some(v) ==> v == fraction_millionths(s@.subrange(from as int, to as int)) && v
            < 1000000,
{
    let ghost fraction = s@.subrange(from as int, to as int);
    let six_end: usize = if to - from > 6 { from + 6 } else { to };
    let ghost first_six = s@.subrange(from as int, six_end as int);
    let ghost rest = s@.subrange(six_end as int, to as int);
    assert(fraction =~= first_six + rest);
    let six = match read_digits(s, from, six_end, 999999) {
        Some(v) => v,
        None => {
            assert(!all_digits(fraction)) by {
                let j = choose|j: int| 0 <= j < first_six.len() && !is_digit(#[trigger] first_six[j]);
                assert(fraction[j] == first_six[j]);
            }
            return None;
        },
    };
    match read_digits(s, six_end, to, 0) {
        Some(_) => {},
        None => {
            assert(!all_digits(fraction)) by {
                let j = choose|j: int| 0 <= j < rest.len() && !is_digit(#[trigger] rest[j]);
                assert(fraction[j + first_six.len()] == rest[j]);
            }
            return None;
        },
    }
    assert(all_digits(fraction)) by {
        assert forall|j: int| 0 <= j < fraction.len() implies is_digit(#[trigger] fraction[j]) by {
            if j < first_six.len() {
                assert(fraction[j] == first_six[j]);
            } else {
                assert(fraction[j] == rest[j - first_six.len()]);
            }
        }
    }
    proof {
        lemma_digits_bound(first_six);
        if fraction.len() > 6 {
            assert(fraction.take(6) =~= first_six);
            assert(pow10(0) == 1);
        } else {
            assert(first_six =~= fraction);
        }
    }
    let scale: u64 = pow10_exec((6 - (six_end - from)) as u64);
    assert(first_six.len() == six_end - from);
    assert(six == digits_value(first_six));
    assert(scale == pow10((6 - first_six.len()) as nat));
    assert(six * scale < 1000000);
    proof {
        if fraction.len() > 6 {
            assert(fraction.take(6) =~= first_six);
            assert(scale == 1);
            assert(six * scale == six) by (nonlinear_arith)
                requires
                    scale == 1,
            ;
        } else {
            assert(first_six =~= fraction);
        }
    }
    assert(six * scale == fraction_millionths(fraction));
    Some(six * scale)
}

/// Reads `s[0..end]` as a percentage in millionths, as `parse_percentage` says.
fn read_percentage(s: &str, end: usize) -> (r: Option<u32>)
    requires
        end <= s@.len(),
    ensures
        r == parse_percentage(s@.take(end as int)),
{
    let ghost t = s@.take(end as int);
    let start: usize = if end > 0 && s.get_char(0) == '+' { 1 } else { 0 };
    let ghost body = s@.subrange(start as int, end as int);
    assert(unsigned_part(t) =~= body);
    let k = find_dot(s, start, end);
    assert(body.take(k - start) =~= s@.subrange(start as int, k as int));
    let frac_start: usize = if k < end { k + 1 } else { end };
    assert((if k < end { body.skip(k - start + 1) } else { Seq::<char>::empty() }) =~= s@.subrange(
        frac_start as int,
        end as int,
    ));
    if k == start && frac_start == end {
        return None;
    }
    let whole = match read_digits(s, start, k, 100) {
        Some(v) => v,
        None => return None,
    };
    let fraction = match read_fraction(s, frac_start, end) {
        Some(v) => v,
        None => return None,
    };
    let value: u64 = whole * 1000000 + fraction;
    if value <= 100000000 {
        Some(value as u32)
    } else {
        None
    }
}

/// A run of at most six digits is below a million.
proof fn lemma_digits_bound(s: Seq<char>)
    requires
        s.len() <= 6,
        all_digits(s),
    ensures
        digits_value(s) * pow10((6 - s.len()) as nat) < 1000000,
        digits_value(s) < pow10(s.len()),
        digits_value(s) < 1000000,
    decreases s.len(),
{
    if s.len() > 0 {
        let t = s.drop_last();
        assert(all_digits(t)) by {
            assert forall|i: int| 0 <= i < t.len() implies is_digit(#[trigger] t[i]) by {
                assert(t[i] == s[i]);
            }
        }
        lemma_digits_bound(t);
        assert(is_digit(s[s.len() - 1]));
        assert(digits_value(s) < pow10(s.len())) by (nonlinear_arith)
            requires
                digits_value(s) == digits_value(t) * 10 + digit_value(s.last()),
                digits_value(t) < pow10(t.len()),
                digit_value(s.last()) <= 9,
                pow10(s.len()) == 10 * pow10(t.len()),
        ;
    }
    lemma_pow10_split(s.len(), (6 - s.len()) as nat);
    assert(digits_value(s) * pow10((6 - s.len()) as nat) < 1000000) by (nonlinear_arith)
        requires
            digits_value(s) < pow10(s.len()),
            pow10(s.len()) * pow10((6 - s.len()) as nat) == 1000000,
            pow10((6 - s.len()) as nat) > 0,
    ;
    assert(digits_value(s) < 1000000) by (nonlinear_arith)
        requires
            digits_value(s) * pow10((6 - s.len()) as nat) < 1000000,
            pow10((6 - s.len()) as nat) > 0,
    ;
}

/// `10^a * 10^b` with `a + b == 6` is a million; every power of ten is positive.
proof fn lemma_pow10_split(a: nat, b: nat)
    requires
        a + b == 6,
    ensures
        pow10(a) * pow10(b) == 1000000,
        pow10(b) > 0,
{
    reveal_with_fuel(pow10, 7);
    assert(pow10(0) == 1);
    assert(pow10(1) == 10);
    assert(pow10(2) == 100);
    assert(pow10(3) == 1000);
    assert(pow10(4) == 10000);
    assert(pow10(5) == 100000);
    assert(pow10(6) == 1000000);
    if a == 0 {
        assert(b == 6);
    } else if a == 1 {
        assert(b == 5);
    } else if a == 2 {
        assert(b == 4);
    } else if a == 3 {
        assert(b == 3);
    } else if a == 4 {
        assert(b == 2);
    } else if a == 5 {
        assert(b == 1);
    } else {
        assert(b == 0);
    }
}

/// `10` to the power `n`, for `n <= 6`.
fn pow10_exec(n: u64) -> (r: u64)
    requires
        n <= 6,
    ensures
        r == pow10(n as nat),
        r <= 1000000,
{
    reveal_with_fuel(pow10, 7);
    match n {
        0 => 1,
        1 => 10,
        2 => 100,
        3 => 1000,
        4 => 10000,
        5 => 100000,
        _ => 1000000,
    }
}

/// Reads a palette height: `N%` (a percentage within 0% ..= 100%), `Npx` or a
/// bare `N` (pixels, a `u32`). Anything else is `InvalidPaletteHeight`, with
/// "Percentage must be between 0 and 100" for text ending in `%` and "Pixels
/// must be a positive integer" otherwise.
pub fn palette_height_parser(s: &str) -> (r: Result<PaletteHeight, ColorBuddyError>)
    ensures
        match parse_palette_height(s@) {
            Some(h) => r == Ok::<PaletteHeight, ColorBuddyError>(h),
            None => r matches Err(e) && e is InvalidPaletteHeight && e->InvalidPaletteHeight_0@
                == height_error_message(is_percentage_text(s@)),
        },
        r matches Ok(h) ==> h.wf(),
{
    let len = s.unicode_len();
    if len >= 1 && s.get_char(len - 1) == '%' {
        assert(s@.drop_last() =~= s@.take(len - 1));
        match read_percentage(s, len - 1) {
            Some(p) => Ok(PaletteHeight::Percentage(p)),
            None => Err(height_error(true)),
        }
    } else if len >= 2 && s.get_char(len - 2) == 'p' && s.get_char(len - 1) == 'x' {
        match read_u32(s, len - 2) {
            Some(n) => Ok(PaletteHeight::Absolute(n)),
            None => Err(height_error(false)),
        }
    } else {
        assert(s@.take(len as int) =~= s@);
        match read_u32(s, len) {
            Some(n) => Ok(PaletteHeight::Absolute(n)),
            None => Err(height_error(false)),
        }
    }
}

} // verus!
