//! Reading numbers as beatmap files write them: whole numbers, and decimal
//! numbers that are held as a whole number of thousandths.

use vstd::prelude::*;
use vstd::string::StringSliceAdditionalSpecFns;

verus! {

/// Whether `b` is an ASCII digit.
pub open spec fn is_digit(b: u8) -> bool {
    48 <= b <= 57
}

/// Whether every byte of `s` is an ASCII digit.
pub open spec fn all_digits(s: Seq<u8>) -> bool {
    forall|i: int| 0 <= i < s.len() ==> is_digit(#[trigger] s[i])
}

/// The digit that `b` writes, and 0 where it writes none.
pub open spec fn digit_of(b: u8) -> nat {
    if is_digit(b) {
        (b - 48) as nat
    } else {
        0
    }
}

/// The number that the digits of `s` write in base ten.
pub open spec fn digits_value(s: Seq<u8>) -> nat
    decreases s.len(),
{
    if s.len() == 0 {
        0
    } else {
        digits_value(s.drop_last()) * 10 + digit_of(s.last())
    }
}

/// `s` without a leading plus sign.
pub open spec fn unsigned_body(s: Seq<u8>) -> Seq<u8> {
    if s.len() > 0 && s[0] == 43 {
        s.skip(1)
    } else {
        s
    }
}

/// The whole number that `s` writes: one or more digits, after a plus sign or
/// none, that write a number within the range of `u32`.
pub open spec fn parsed_u32(s: Seq<u8>) -> Option<u32> {
    let body = unsigned_body(s);
    if body.len() > 0 && all_digits(body) && digits_value(body) <= u32::MAX {
        Some(digits_value(body) as u32)
    } else {
        None
    }
}

/// Whether `s` starts with a minus sign.
pub open spec fn is_negative(s: Seq<u8>) -> bool {
    s.len() > 0 && s[0] == 45
}

/// `s` without a leading sign.
pub open spec fn signless_body(s: Seq<u8>) -> Seq<u8> {
    if s.len() > 0 && (s[0] == 43 || s[0] == 45) {
        s.skip(1)
    } else {
        s
    }
}

/// The index of the first decimal point of `s`, and the length of `s` where it
/// has none.
pub open spec fn first_dot(s: Seq<u8>) -> int
    decreases s.len(),
{
    if s.len() == 0 {
        0
    } else if s[0] == 46 {
        0
    } else {
        1 + first_dot(s.skip(1))
    }
}

/// What follows the first decimal point of `s`.
pub open spec fn fraction_of(s: Seq<u8>) -> Seq<u8> {
    if first_dot(s) < s.len() {
        s.skip(first_dot(s) + 1)
    } else {
        Seq::empty()
    }
}

/// The thousandths that the fraction digits `frac` write; digits after the
/// third are dropped.
pub open spec fn fraction_thousandths(frac: Seq<u8>) -> nat {
    if frac.len() == 0 {
        0
    } else if frac.len() == 1 {
        digits_value(frac) * 100
    } else if frac.len() == 2 {
        digits_value(frac) * 10
    } else {
        digits_value(frac.take(3))
    }
}

/// The decimal number that `s` writes, in thousandths: a sign or none, then
/// digits, then possibly a decimal point and more digits, with at least one
/// digit in all. Numbers beyond the range of `i32` thousandths are not read.
pub open spec fn parsed_thousandths(s: Seq<u8>) -> Option<i32> {
    let body = signless_body(s);
    let whole = body.take(first_dot(body));
    let frac = fraction_of(body);
    let magnitude = digits_value(whole) * 1000 + fraction_thousandths(frac);
    if all_digits(whole) && all_digits(frac) && whole.len() + frac.len() > 0 && magnitude
        <= i32::MAX {
        Some(
            if is_negative(s) {
                (-magnitude) as i32
            } else {
                magnitude as i32
            },
        )
    } else {
        None
    }
}

/// The value of a run of digits grows with every digit that is added.
pub proof fn lemma_digits_value_grows(s: Seq<u8>, i: int)
    requires
        0 <= i <= s.len(),
    ensures
        digits_value(s.take(i)) <= digits_value(s),
    decreases s.len() - i,
{
    if i < s.len() {
        lemma_digits_value_grows(s, i + 1);
        assert(s.take(i + 1).drop_last() =~= s.take(i));
    } else {
        assert(s.take(i) =~= s);
    }
}

/// One more digit multiplies the value by ten and adds the digit.
pub proof fn lemma_digits_value_step(s: Seq<u8>, i: int)
    requires
        0 <= i < s.len(),
    ensures
        digits_value(s.take(i + 1)) == digits_value(s.take(i)) * 10 + digit_of(s[i]),
{
    assert(s.take(i + 1).drop_last() =~= s.take(i));
    assert(s.take(i + 1).last() == s[i]);
}

/// The first decimal point is where no point stands before and one stands,
/// or the text ends.
pub proof fn lemma_first_dot(s: Seq<u8>, k: int)
    requires
        0 <= k <= s.len(),
        forall|j: int| 0 <= j < k ==> s[j] != 46,
        k < s.len() ==> s[k] == 46,
    ensures
        first_dot(s) == k,
    decreases s.len(),
{
    if s.len() > 0 && k > 0 {
        assert(s[0] != 46);
        assert forall|j: int| 0 <= j < k - 1 implies s.skip(1)[j] != 46 by {
            assert(s.skip(1)[j] == s[j + 1]);
        }
        lemma_first_dot(s.skip(1), k - 1);
    }
}

/// Reads a whole number as `str::parse::<u32>` does.
#[verifier::loop_isolation(false)]
pub fn parse_u32(text: &str) -> (value: Option<u32>)
    ensures
        value == parsed_u32(text.spec_bytes()),
{
    let bytes = text.as_bytes();
    let n: usize = bytes.len();
    let start: usize = if n > 0 && bytes[0] == 43 {
        1
    } else {
        0
    };
    let ghost body = unsigned_body(bytes@);
    if start == n {
        return None;
    }
    let mut value: u64 = 0;
    let mut i: usize = start;
    assert(body.take(0) =~= Seq::<u8>::empty());
    while i < n
        invariant
            start <= i <= n,
            n == bytes@.len(),
            body == bytes@.skip(start as int),
            body.len() == n - start,
            all_digits(body.take(i - start)),
            value as nat == digits_value(body.take(i - start)),
            value <= u32::MAX,
        decreases n - i,
    {
        let b: u8 = bytes[i];
        assert(body[i - start] == b);
        if b < 48 || b > 57 {
            assert(!all_digits(body));
            return None;
        }
        proof {
            lemma_digits_value_step(body, i - start);
            lemma_digits_value_grows(body, i - start + 1);
        }
        value = value * 10 + (b - 48) as u64;
        if value > u32::MAX as u64 {
            return None;
        }
        assert forall|j: int| 0 <= j < i + 1 - start implies is_digit(
            #[trigger] body.take(i + 1 - start)[j],
        ) by {
            if j < i - start {
                assert(body.take(i - start)[j] == body.take(i + 1 - start)[j]);
            }
        }
        i += 1;
    }
    assert(body.take(n - start) =~= body);
    Some(value as u32)
}

/// The index of the first decimal point at or after `start`, and the length
/// of `bytes` where there is none.
fn find_dot(bytes: &[u8], start: usize) -> (dot: usize)
    requires
        start <= bytes@.len(),
    ensures
        start <= dot <= bytes@.len(),
        dot - start == first_dot(bytes@.skip(start as int)),
{
    let ghost body = bytes@.skip(start as int);
    let mut i: usize = start;
    while i < bytes.len() && bytes[i] != 46
        invariant
            start <= i <= bytes@.len(),
            body == bytes@.skip(start as int),
            forall|j: int| 0 <= j < i - start ==> body[j] != 46,
        decreases bytes@.len() - i,
    {
        assert(body[i - start] == bytes@[i as int]);
        i += 1;
    }
    proof {
        if i < bytes@.len() {
            assert(body[i - start] == bytes@[i as int]);
        }
        lemma_first_dot(body, i - start);
    }
    i
}

/// The number that `bytes[from..to]` writes, where these are all digits and
/// the number is no larger than `cap`.
fn read_digits(bytes: &[u8], from: usize, to: usize, cap: u64) -> (value: Option<u64>)
    requires
        from <= to <= bytes@.len(),
        cap <= 0xFFFF_FFFF_FFFF,
    ensures
        value is Some <==> all_digits(bytes@.subrange(from as int, to as int)) && digits_value(
            bytes@.subrange(from as int, to as int),
        ) <= cap,
        value matches Some(v) ==> v as nat == digits_value(
            bytes@.subrange(from as int, to as int),
        ),
{
    let ghost run = bytes@.subrange(from as int, to as int);
    let mut value: u64 = 0;
    let mut i: usize = from;
    assert(run.take(0) =~= Seq::<u8>::empty());
    while i < to
        invariant
            from <= i <= to <= bytes@.len(),
            run == bytes@.subrange(from as int, to as int),
            cap <= 0xFFFF_FFFF_FFFF,
            all_digits(run.take(i - from)),
            value as nat == digits_value(run.take(i - from)),
            value <= cap,
        decreases to - i,
    {
        let b: u8 = bytes[i];
        assert(run[i - from] == b);
        if b < 48 || b > 57 {
            assert(!all_digits(run));
            return None;
        }
        proof {
            lemma_digits_value_step(run, i - from);
            lemma_digits_value_grows(run, i - from + 1);
        }
        value = value * 10 + (b - 48) as u64;
        if value > cap {
            return None;
        }
        assert forall|j: int| 0 <= j < i + 1 - from implies is_digit(
            #[trigger] run.take(i + 1 - from)[j],
        ) by {
            if j < i - from {
                assert(run.take(i - from)[j] == run.take(i + 1 - from)[j]);
            }
        }
        i += 1;
    }
    assert(run.take(to - from) =~= run);
    Some(value)
}

/// Whether `bytes[from..]` are all digits.
fn are_digits(bytes: &[u8], from: usize) -> (digits: bool)
    requires
        from <= bytes@.len(),
    ensures
        digits == all_digits(bytes@.skip(from as int)),
{
    let ghost run = bytes@.skip(from as int);
    let mut i: usize = from;
    while i < bytes.len()
        invariant
            from <= i <= bytes@.len(),
            run == bytes@.skip(from as int),
            forall|j: int| 0 <= j < i - from ==> is_digit(#[trigger] run[j]),
        decreases bytes@.len() - i,
    {
        let b: u8 = bytes[i];
        assert(run[i - from] == b);
        if b < 48 || b > 57 {
            return false;
        }
        i += 1;
    }
    true
}

/// Reads a decimal number, in thousandths.
pub fn parse_thousandths(text: &str) -> (value: Option<i32>)
    ensures
        value == parsed_thousandths(text.spec_bytes()),
{
    let bytes = text.as_bytes();
    let n: usize = bytes.len();
    let negative: bool = n > 0 && bytes[0] == 45;
    let start: usize = if n > 0 && (bytes[0] == 43 || bytes[0] == 45) {
        1
    } else {
        0
    };
    let ghost body = signless_body(bytes@);
    assert(body =~= bytes@.skip(start as int));
    let dot: usize = find_dot(bytes, start);
    let ghost whole_digits = body.take(first_dot(body));
    assert(whole_digits =~= bytes@.subrange(start as int, dot as int));
    let frac_start: usize = if dot < n {
        dot + 1
    } else {
        n
    };
    let ghost frac = fraction_of(body);
    assert(frac =~= bytes@.skip(frac_start as int));
    let frac_len: usize = n - frac_start;
    let lead_end: usize = if frac_len > 3 {
        frac_start + 3
    } else {
        n
    };
    let ghost lead = bytes@.subrange(frac_start as int, lead_end as int);
    let ghost tail = bytes@.skip(lead_end as int);
    assert(lead =~= frac.take(lead_end - frac_start));
    assert(frac_len <= 3 ==> lead =~= frac);
    proof {
        lemma_digits_bound(lead);
        assert forall|j: int| 0 <= j < tail.len() implies tail[j] == frac[j + (lead_end
            - frac_start)] by {}
        assert forall|j: int| 0 <= j < lead.len() implies lead[j] == frac[j] by {}
        if all_digits(lead) && all_digits(tail) {
            assert forall|j: int| 0 <= j < frac.len() implies is_digit(#[trigger] frac[j]) by {
                if j < lead.len() {
                    assert(lead[j] == frac[j]);
                } else {
                    assert(tail[j - lead.len()] == frac[j]);
                }
            }
        }
        if all_digits(frac) {
            assert forall|j: int| 0 <= j < lead.len() implies is_digit(#[trigger] lead[j]) by {
                assert(lead[j] == frac[j]);
            }
            assert forall|j: int| 0 <= j < tail.len() implies is_digit(#[trigger] tail[j]) by {
                assert(tail[j] == frac[j + lead.len()]);
            }
        }
    }
    let whole: u64 = match read_digits(bytes, start, dot, 2_147_483) {
        Some(whole) => whole,
        None => {
            return None;
        },
    };
    let leading: u64 = match read_digits(bytes, frac_start, lead_end, 999) {
        Some(leading) => leading,
        None => {
            return None;
        },
    };
    if !are_digits(bytes, lead_end) {
        return None;
    }
    if (dot - start) + frac_len == 0 {
        return None;
    }
    let scaled: u64 = if frac_len == 0 {
        0
    } else if frac_len == 1 {
        leading * 100
    } else if frac_len == 2 {
        leading * 10
    } else {
        leading
    };
    let magnitude: u64 = whole * 1000 + scaled;
    if magnitude > i32::MAX as u64 {
        return None;
    }
    if negative {
        Some(-(magnitude as i32))
    } else {
        Some(magnitude as i32)
    }
}

/// Up to three digits write a number below a thousand.
pub proof fn lemma_digits_bound(s: Seq<u8>)
    requires
        s.len() <= 3,
    ensures
        s.len() == 0 ==> digits_value(s) == 0,
        s.len() == 1 ==> digits_value(s) <= 9,
        s.len() == 2 ==> digits_value(s) <= 99,
        s.len() == 3 ==> digits_value(s) <= 999,
    decreases s.len(),
{
    if s.len() > 0 {
        lemma_digits_bound(s.drop_last());
    }
}

} // verus!
