//! Fixed-point money.
//!
//! An amount is a whole number of ticks, one tick being a hundred-millionth
//! of a currency unit. Amounts that come with a transaction fit in an `i64`;
//! balances, which add many of them up, are kept in an `i128`.

use vstd::prelude::*;

verus! {

/// Ticks in one whole currency unit.
pub const TICKS_PER_UNIT: i64 = 100_000_000;

/// Ticks in one ten-thousandth of a currency unit, the finest step at which
/// funds are frozen or withdrawn.
pub const TICKS_PER_STEP: i64 = 10_000;

/// `amount` cut down to four decimal places, towards zero.
pub open spec fn truncated(amount: int) -> int {
    if amount >= 0 {
        amount - amount % 10_000
    } else {
        -((-amount) - (-amount) % 10_000)
    }
}

/// Cuts an amount down to four decimal places, towards zero.
pub fn truncate(amount: i64) -> (cut: i64)
    ensures
        cut == truncated(amount as int),
{
    amount - amount % TICKS_PER_STEP
}

/// Whether `byte` is one of the ten ASCII digits.
pub open spec fn is_digit(byte: u8) -> bool {
    48 <= byte <= 57
}

/// Whether `text` holds digits only.
pub open spec fn all_digits(text: Seq<u8>) -> bool {
    forall|i: int| 0 <= i < text.len() ==> is_digit(#[trigger] text[i])
}

/// The number that a run of digits writes.
pub open spec fn digits_value(digits: Seq<u8>) -> nat
    decreases digits.len(),
{
    if digits.len() == 0 {
        0
    } else {
        digits_value(digits.drop_last()) * 10 + (digits.last() - 48) as nat
    }
}

/// How many ticks one unit of the digit at `place` after the decimal point
/// counts. Places are numbered from 0; beyond the eighth a digit counts
/// nothing.
pub open spec fn place_weight(place: int) -> nat {
    if place == 0 {
        10_000_000
    } else if place == 1 {
        1_000_000
    } else if place == 2 {
        100_000
    } else if place == 3 {
        10_000
    } else if place == 4 {
        1_000
    } else if place == 5 {
        100
    } else if place == 6 {
        10
    } else if place == 7 {
        1
    } else {
        0
    }
}

/// The ticks that the digits after a decimal point write.
pub open spec fn fraction_value(digits: Seq<u8>) -> nat
    decreases digits.len(),
{
    if digits.len() == 0 {
        0
    } else {
        fraction_value(digits.drop_last()) + (digits.last() - 48) as nat * place_weight(
            digits.len() - 1,
        )
    }
}

/// Where the first decimal point of `text` stands; the length of `text` if
/// it has none.
pub open spec fn point_at(text: Seq<u8>) -> int
    decreases text.len(),
{
    if text.len() == 0 || text[0] == 46 {
        0
    } else {
        1 + point_at(text.drop_first())
    }
}

/// The digits before the first decimal point.
pub open spec fn whole_part(text: Seq<u8>) -> Seq<u8> {
    text.take(point_at(text))
}

/// What follows the first decimal point; nothing if there is none.
pub open spec fn fraction_part(text: Seq<u8>) -> Seq<u8> {
    if point_at(text) < text.len() {
        text.skip(point_at(text) + 1)
    } else {
        Seq::empty()
    }
}

/// The ticks that an unsigned decimal number writes: digits, then
/// optionally a point and more digits, with a digit on at least one side.
/// Other text writes no number.
pub open spec fn unsigned_ticks(text: Seq<u8>) -> Option<nat> {
    if all_digits(whole_part(text)) && all_digits(fraction_part(text)) && whole_part(text).len()
        + fraction_part(text).len() > 0 {
        Some(digits_value(whole_part(text)) * 100_000_000 + fraction_value(fraction_part(text)))
    } else {
        None
    }
}

/// Whether `text` starts with a plus or minus sign.
pub open spec fn signed(text: Seq<u8>) -> bool {
    text.len() > 0 && (text[0] == 43 || text[0] == 45)
}

/// The amount that a decimal number writes, in ticks: an optional sign and
/// an unsigned decimal number; digits beyond the eighth decimal place are
/// dropped. Text that is no such number, or a number that does not fit in
/// an `i64` of ticks, writes no amount.
pub open spec fn parsed_amount(text: Seq<u8>) -> Option<i64> {
    let body = if signed(text) { text.skip(1) } else { text };
    match unsigned_ticks(body) {
        Some(ticks) => {
            let amount = if signed(text) && text[0] == 45 { -ticks } else { ticks as int };
            if i64::MIN <= amount <= i64::MAX {
                Some(amount as i64)
            } else {
                None
            }
        },
        None => None,
    }
}

/// The first decimal point stands where a run of other bytes ends.
proof fn point_follows_run(text: Seq<u8>, end: int)
    requires
        0 <= end <= text.len(),
        forall|i: int| 0 <= i < end ==> text[i] != 46,
        end < text.len() ==> text[end] == 46,
    ensures
        point_at(text) == end,
    decreases end,
{
    if end > 0 {
        let rest = text.drop_first();
        assert forall|i: int| 0 <= i < end - 1 implies rest[i] != 46 by {
            assert(rest[i] == text[i + 1]);
        }
        point_follows_run(rest, end - 1);
    }
}

/// A decimal point does not stand before a byte that is not one.
proof fn point_stands_on_point(text: Seq<u8>)
    ensures
        0 <= point_at(text) <= text.len(),
        point_at(text) < text.len() ==> text[point_at(text)] == 46,
        forall|i: int| 0 <= i < point_at(text) ==> text[i] != 46,
    decreases text.len(),
{
    if !(text.len() == 0 || text[0] == 46) {
        let rest = text.drop_first();
        point_stands_on_point(rest);
        assert forall|i: int| 0 <= i < point_at(text) implies text[i] != 46 by {
            if i > 0 {
                assert(text[i] == rest[i - 1]);
            }
        }
    }
}

/// Reads a decimal number as an amount in ticks.
pub fn parse_amount(text: &[u8]) -> (amount: Option<i64>)
    ensures
        amount == parsed_amount(text@),
{
    let length = text.len();
    let mut negative = false;
    let mut at: usize = 0;
    if length > 0 && (text[0] == 43 || text[0] == 45) {
        negative = text[0] == 45;
        at = 1;
    }
    let start = at;
    let ghost body = text@.skip(start as int);
    let mut whole: u64 = 0;
    let mut too_large = false;
    while at < length && 48 <= text[at] && text[at] <= 57
        invariant
            start <= at <= length,
            length == text@.len(),
            body == text@.skip(start as int),
            all_digits(body.take(at - start)),
            too_large ==> digits_value(body.take(at - start)) > 92_233_720_368,
            !too_large ==> whole == digits_value(body.take(at - start)) && whole <= 92_233_720_368,
        decreases length - at,
    {
        let digit = (text[at] - 48) as u64;
        proof {
            let longer = body.take(at - start + 1);
            assert(longer.drop_last() =~= body.take(at - start));
            assert(longer.last() == text@[at as int]);
            assert forall|i: int| 0 <= i < longer.len() implies is_digit(#[trigger] longer[i]) by {
                if i < at - start {
                    assert(body.take(at - start)[i] == longer[i]);
                }
            }
        }
        if !too_large {
            whole = whole * 10 + digit;
            if whole > 92_233_720_368 {
                too_large = true;
            }
        }
        at = at + 1;
    }
    let whole_end = at;
    let mut fraction: u64 = 0;
    let mut digits = at - start;
    if at < length && text[at] == 46 {
        at = at + 1;
        let mut weight: u64 = 10_000_000;
        while at < length && 48 <= text[at] && text[at] <= 57
            invariant
                start <= whole_end < at <= length,
                length == text@.len(),
                body == text@.skip(start as int),
                all_digits(body.subrange(whole_end - start + 1, at - start)),
                fraction == fraction_value(body.subrange(whole_end - start + 1, at - start)),
                weight == place_weight(at - whole_end - 1),
                fraction + 10 * weight <= 100_000_000,
                fraction < 100_000_000,
            decreases length - at,
        {
            let digit = (text[at] - 48) as u64;
            proof {
                let shorter = body.subrange(whole_end - start + 1, at - start);
                let longer = body.subrange(whole_end - start + 1, at - start + 1);
                assert(longer.drop_last() =~= shorter);
                assert(longer.last() == text@[at as int]);
                assert forall|i: int| 0 <= i < longer.len() implies is_digit(
                    #[trigger] longer[i],
                ) by {
                    if i < shorter.len() {
                        assert(shorter[i] == longer[i]);
                    }
                }
                assert(digit * weight <= 9 * weight) by (nonlinear_arith)
                    requires
                        digit <= 9,
                        weight >= 0,
                ;
            }
            fraction = fraction + digit * weight;
            weight = weight / 10;
            at = at + 1;
        }
        digits = at - start - 1;
    }
    let complete = at == length && digits > 0;
    proof {
        let run = whole_end - start;
        assert(body =~= if signed(text@) { text@.skip(1) } else { text@ });
        assert forall|i: int| 0 <= i < run implies body[i] != 46 by {
            assert(is_digit(body.take(run)[i]));
        }
        if whole_end < length && text[whole_end as int] == 46 {
            assert(body[run] == text@[whole_end as int]);
            point_follows_run(body, run);
            assert(whole_part(body) =~= body.take(run));
            let seen = body.subrange(run + 1, at - start);
            if at < length {
                assert(fraction_part(body)[at - whole_end - 1] == text@[at as int]);
                assert(!is_digit(fraction_part(body)[at - whole_end - 1]));
            } else {
                assert(fraction_part(body) =~= seen);
            }
        } else if whole_end < length {
            point_stands_on_point(body);
            assert(body[run] == text@[whole_end as int]);
            assert(point_at(body) > run);
            assert(whole_part(body)[run] == body[run]);
            assert(!is_digit(whole_part(body)[run]));
        } else {
            point_follows_run(body, run);
            assert(whole_part(body) =~= body.take(run));
            assert(fraction_part(body) =~= Seq::<u8>::empty());
        }
        assert(!complete ==> unsigned_ticks(body) is None);
        assert(complete ==> unsigned_ticks(body) == Some(
            digits_value(body.take(run)) * 100_000_000 + fraction as nat,
        ));
    }
    if !complete || too_large {
        return None;
    }
    let ticks: u64 = whole * 100_000_000 + fraction;
    if negative {
        if ticks > 0x8000_0000_0000_0000 {
            None
        } else if ticks == 0x8000_0000_0000_0000 {
            Some(i64::MIN)
        } else {
            Some(-(ticks as i64))
        }
    } else if ticks > 0x7fff_ffff_ffff_ffff {
        None
    } else {
        Some(ticks as i64)
    }
}

/// The character that writes a digit.
pub open spec fn digit_char(digit: int) -> char {
    if digit == 0 {
        '0'
    } else if digit == 1 {
        '1'
    } else if digit == 2 {
        '2'
    } else if digit == 3 {
        '3'
    } else if digit == 4 {
        '4'
    } else if digit == 5 {
        '5'
    } else if digit == 6 {
        '6'
    } else if digit == 7 {
        '7'
    } else if digit == 8 {
        '8'
    } else {
        '9'
    }
}

/// A number in decimal, without leading zeros.
pub open spec fn decimal(number: nat) -> Seq<char>
    decreases number,
{
    if number < 10 {
        seq![digit_char(number as int)]
    } else {
        decimal(number / 10).push(digit_char((number % 10) as int))
    }
}

/// The four digits that write a number below ten thousand.
pub open spec fn four_places(number: nat) -> Seq<char> {
    seq![
        digit_char((number / 1000 % 10) as int),
        digit_char((number / 100 % 10) as int),
        digit_char((number / 10 % 10) as int),
        digit_char((number % 10) as int),
    ]
}

/// A count of ticks without its sign.
pub open spec fn magnitude(ticks: int) -> nat {
    if ticks < 0 {
        (-ticks) as nat
    } else {
        ticks as nat
    }
}

/// The nearest count of ten-thousandths to a count of ticks; of two that
/// are equally near, the even one.
pub open spec fn rounded_steps(ticks: nat) -> nat {
    if ticks % 10_000 > 5_000 || (ticks % 10_000 == 5_000 && ticks / 10_000 % 2 == 1) {
        ticks / 10_000 + 1
    } else {
        ticks / 10_000
    }
}

/// A balance written with exactly four decimal places, rounded to the
/// nearest ten-thousandth, with a minus sign in front if it is below zero.
pub open spec fn rendered(ticks: int) -> Seq<char> {
    let steps = rounded_steps(magnitude(ticks));
    let sign = if ticks < 0 {
        seq!['-']
    } else {
        Seq::<char>::empty()
    };
    sign + decimal(steps / 10_000) + seq!['.'] + four_places(steps % 10_000)
}

/// The text of one digit.
fn digit_text(digit: u8) -> (text: &'static str)
    requires
        digit < 10,
    ensures
        text@ == seq![digit_char(digit as int)],
{
    proof {
        reveal_strlit("0");
        reveal_strlit("1");
        reveal_strlit("2");
        reveal_strlit("3");
        reveal_strlit("4");
        reveal_strlit("5");
        reveal_strlit("6");
        reveal_strlit("7");
        reveal_strlit("8");
        reveal_strlit("9");
    }
    let text = match digit {
        0 => "0",
        1 => "1",
        2 => "2",
        3 => "3",
        4 => "4",
        5 => "5",
        6 => "6",
        7 => "7",
        8 => "8",
        _ => "9",
    };
    assert(text@ =~= seq![digit_char(digit as int)]);
    text
}

/// Writes a number in decimal at the end of `out`.
pub fn push_decimal(out: &mut String, number: u128)
    ensures
        final(out)@ == old(out)@ + decimal(number as nat),
    decreases number,
{
    if number >= 10 {
        push_decimal(out, number / 10);
    }
    out.append(digit_text((number % 10) as u8));
    assert(out@ =~= old(out)@ + decimal(number as nat));
}

/// Writes a balance with exactly four decimal places.
pub fn render(ticks: i128) -> (text: String)
    ensures
        text@ == rendered(ticks as int),
{
    let size: u128 = if ticks >= 0 {
        ticks as u128
    } else {
        (-(ticks + 1)) as u128 + 1
    };
    let whole = size / 10_000;
    let rest = size % 10_000;
    let steps = if rest > 5_000 || (rest == 5_000 && whole % 2 == 1) {
        whole + 1
    } else {
        whole
    };
    assert(size == magnitude(ticks as int));
    assert(steps == rounded_steps(size as nat));
    let places = steps % 10_000;
    let mut text = String::new();
    if ticks < 0 {
        text.append("-");
    }
    push_decimal(&mut text, steps / 10_000);
    text.append(".");
    text.append(digit_text((places / 1000 % 10) as u8));
    text.append(digit_text((places / 100 % 10) as u8));
    text.append(digit_text((places / 10 % 10) as u8));
    text.append(digit_text((places % 10) as u8));
    proof {
        reveal_strlit("-");
        reveal_strlit(".");
        assert("-"@ =~= seq!['-']);
        assert("."@ =~= seq!['.']);
        assert(text@ =~= rendered(ticks as int));
    }
    text
}

} // verus!
