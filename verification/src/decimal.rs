//! Numbers in decimal notation.
use vstd::prelude::*;

verus! {

/// The digit that stands for a value below ten.
pub open spec fn digit(value: nat) -> char {
    (value + '0' as nat) as char
}

/// The decimal notation of a number, without leading zeros.
pub open spec fn notation(number: nat) -> Seq<char>
    decreases number,
{
    if number < 10 {
        seq![digit(number)]
    } else {
        notation(number / 10).push(digit(number % 10))
    }
}

/// Tells that a text consists of decimal digits.
pub open spec fn all_digits(text: Seq<char>) -> bool {
    forall|i: int| 0 <= i < text.len() ==> '0' <= #[trigger] text[i] <= '9'
}

/// The number that a sequence of decimal digits denotes.
pub open spec fn value(digits: Seq<char>) -> nat
    decreases digits.len(),
{
    if digits.len() == 0 {
        0
    } else {
        value(digits.drop_last()) * 10 + (digits.last() as nat - '0' as nat) as nat
    }
}

/// What remains of a text once a leading plus sign is taken off.
pub open spec fn unsigned_part(text: Seq<char>) -> Seq<char> {
    if text.len() > 0 && text[0] == '+' {
        text.skip(1)
    } else {
        text
    }
}

/// The number that a text denotes: an optional plus sign and one or more decimal digits.
pub open spec fn number(text: Seq<char>) -> Option<nat> {
    let digits = unsigned_part(text);
    if digits.len() > 0 && all_digits(digits) {
        Some(value(digits))
    } else {
        None
    }
}

/// The digit that stands for a value below ten, as text.
fn digit_text(value: u32) -> (text: &'static str)
    requires
        value < 10,
    ensures
        text@ == seq![digit(value as nat)],
{
    proof {
        reveal_strlit("0");
        reveal_strlit("1");
        reveal_strlit("2");
        reveal_strlit("3");
        reveal_strlit("4");
        reveal_strlit("5");
        reveal_strlit("6");
        reveal_strlit("7");
        reveal_strlit("8");
        reveal_strlit("9");
    }
    match value {
        0 => "0",
        1 => "1",
        2 => "2",
        3 => "3",
        4 => "4",
        5 => "5",
        6 => "6",
        7 => "7",
        8 => "8",
        _ => "9",
    }
}

/// Writes a number in decimal notation.
pub fn write_decimal(number: u32) -> (text: String)
    ensures
        text@ == notation(number as nat),
    decreases number,
{
    if number < 10 {
        digit_text(number).to_owned()
    } else {
        let text: String = write_decimal(number / 10).concat(digit_text(number % 10));
        assert(text@ =~= notation(number as nat));
        text
    }
}

/// Reads a number that a `usize` can hold: an optional plus sign and one or more decimal digits.
pub fn parse_usize(text: &str) -> (parsed: Option<usize>)
    ensures
        match parsed {
            Some(result) => number(text@) == Some(result as nat),
            None => number(text@) matches Some(denoted) ==> denoted > usize::MAX,
        },
{
    let len: usize = text.unicode_len();
    let ghost digits = unsigned_part(text@);
    let mut result: usize = 0;
    let mut index: usize = 0;
    let mut signed: bool = false;
    for c in chars: text.chars()
        invariant
            chars.seq() == text@,
            index == chars.index(),
            len == text@.len(),
            digits == unsigned_part(text@),
            signed == (index > 0 && text@[0] == '+'),
            all_digits(digits.take(index - if signed { 1int } else { 0 })),
            result == value(digits.take(index - if signed { 1int } else { 0 })),
    {
        let ghost seen = index - if signed { 1int } else { 0 };
        if index == 0 && c == '+' {
            signed = true;
            assert(digits.take(0) =~= Seq::empty());
        } else {
            assert(digits[seen] == c);
            if !('0' <= c && c <= '9') {
                return None;
            }
            let ghost next = digits.take(seen + 1);
            assert(next.drop_last() =~= digits.take(seen));
            let low: usize = c as usize - '0' as usize;
            match result.checked_mul(10) {
                Some(shifted) => match shifted.checked_add(low) {
                    Some(sum) => {
                        result = sum;
                    },
                    None => {
                        proof {
                            lemma_prefix_is_smaller(digits, seen + 1);
                        }
                        return None;
                    },
                },
                None => {
                    proof {
                        lemma_prefix_is_smaller(digits, seen + 1);
                    }
                    return None;
                },
            }
        }
        index += 1;
    }
    let ghost seen = index - if signed { 1int } else { 0 };
    assert(digits.take(seen) =~= digits);
    if index == 0 || (signed && index == 1) {
        None
    } else {
        Some(result)
    }
}

/// The first digits of a number denote no more than all of them.
proof fn lemma_prefix_is_smaller(digits: Seq<char>, len: int)
    requires
        0 <= len <= digits.len(),
    ensures
        value(digits.take(len)) <= value(digits),
    decreases digits.len(),
{
    if len == digits.len() {
        assert(digits.take(len) =~= digits);
    } else {
        lemma_prefix_is_smaller(digits.drop_last(), len);
        assert(digits.drop_last().take(len) =~= digits.take(len));
    }
}

/// Reading what was written gives back the number, with a plus sign in front of it or without.
pub proof fn law_decimal_round_trip(written: nat)
    ensures
        number(notation(written)) == Some(written),
        number(seq!['+'] + notation(written)) == Some(written),
{
    lemma_notation(written);
    assert((seq!['+'] + notation(written)).skip(1) =~= notation(written));
}

/// A number's notation consists of digits that denote the number.
proof fn lemma_notation(written: nat)
    ensures
        notation(written).len() > 0,
        all_digits(notation(written)),
        value(notation(written)) == written,
        notation(written)[0] != '+',
    decreases written,
{
    if written < 10 {
        assert(notation(written).drop_last() =~= Seq::empty());
        assert(value(notation(written).drop_last()) == 0);
    } else {
        lemma_notation(written / 10);
        assert(notation(written).drop_last() =~= notation(written / 10));
    }
}

/// One digit is read as its value.
pub proof fn law_one_digit_is_its_value(text: &str, low: usize, parsed: Option<usize>)
    requires
        low < 10,
        text@ == seq![(48 + low) as char],
        call_ensures(parse_usize, (text,), parsed),
    ensures
        parsed == Some(low),
{
    assert(text@.drop_last() =~= Seq::empty());
    assert(value(text@.drop_last()) == 0);
}

/// One more digit multiplies what was read by ten and counts its own value; where a `usize` cannot
/// hold that, nothing is read.  What was too large stays too large.
pub proof fn law_one_more_digit_is_ten_times_as_much(
    text: &str,
    low: usize,
    longer: &str,
    parsed: Option<usize>,
    parsed_longer: Option<usize>,
)
    requires
        low < 10,
        longer@ == text@.push((48 + low) as char),
        call_ensures(parse_usize, (text,), parsed),
        call_ensures(parse_usize, (longer,), parsed_longer),
    ensures
        parsed matches Some(high) ==> if high * 10 + low <= usize::MAX {
            parsed_longer == Some((high * 10 + low) as usize)
        } else {
            parsed_longer is None
        },
        parsed is None && text@.len() > 0 && text@ != seq!['+'] ==> parsed_longer is None,
{
    let digits = unsigned_part(text@);
    let longer_digits = unsigned_part(longer@);
    if text@.len() > 0 {
        assert(longer@[0] == text@[0]);
        assert(longer_digits =~= digits.push((48 + low) as char));
        assert(longer_digits.drop_last() =~= digits);
        if text@ != seq!['+'] {
            if digits.len() == 0 {
                assert(text@ =~= seq!['+']);
            }
        }
        if all_digits(digits) {
            assert(all_digits(longer_digits)) by {
                assert forall|i: int| 0 <= i < longer_digits.len() implies '0'
                    <= #[trigger] longer_digits[i] <= '9' by {
                    if i < digits.len() {
                        assert(longer_digits[i] == digits[i]);
                    }
                }
            }
        } else {
            let i = choose|i: int|
                0 <= i < digits.len() && !('0' <= #[trigger] digits[i] <= '9');
            assert(longer_digits[i] == digits[i]);
        }
    }
}

/// A plus sign in front of what can be read changes nothing; a second one makes it unreadable.
pub proof fn law_plus_sign_counts_for_nothing(
    text: &str,
    signed: &str,
    parsed: Option<usize>,
    parsed_signed: Option<usize>,
)
    requires
        signed@ == seq!['+'] + text@,
        call_ensures(parse_usize, (text,), parsed),
        call_ensures(parse_usize, (signed,), parsed_signed),
    ensures
        text@.len() > 0 && text@[0] != '+' ==> parsed_signed == parsed,
        text@.len() > 0 && text@[0] == '+' ==> parsed_signed is None,
{
    assert(signed@.skip(1) =~= text@);
    assert(signed@[0] == '+');
}

/// Whatever is read consists of digits, of which there is at least one, with no more than a plus sign
/// in front of them.
pub proof fn law_only_digits_are_read(text: &str, parsed: Option<usize>)
    requires
        call_ensures(parse_usize, (text,), parsed),
    ensures
        text@.len() == 0 || text@ == seq!['+'] ==> parsed is None,
        forall|i: int|
            0 <= i < text@.len() && !('0' <= #[trigger] text@[i] <= '9') && !(i == 0 && text@[0]
                == '+') ==> parsed is None,
{
    let digits = unsigned_part(text@);
    assert forall|i: int|
        0 <= i < text@.len() && !('0' <= #[trigger] text@[i] <= '9') && !(i == 0 && text@[0]
            == '+') implies parsed is None by {
        if text@[0] == '+' {
            assert(digits[i - 1] == text@[i]);
        } else {
            assert(digits[i] == text@[i]);
        }
    }
}

/// A number below ten is written as its digit, and a larger one as what a tenth of it is written as,
/// followed by the digit of what remains.
pub proof fn law_writing_appends_the_last_digit(
    number: u32,
    tenth: u32,
    text: String,
    tenth_text: String,
)
    requires
        tenth == number / 10,
        call_ensures(write_decimal, (number,), text),
        call_ensures(write_decimal, (tenth,), tenth_text),
    ensures
        number < 10 ==> text@ == seq![(48 + number) as char],
        number >= 10 ==> text@ == tenth_text@.push((48 + number % 10) as char),
{
}

/// Reading gives back the number that was written.
pub proof fn law_reading_undoes_writing(
    number: u32,
    written: String,
    text: &str,
    parsed: Option<usize>,
)
    requires
        call_ensures(write_decimal, (number,), written),
        text@ == written@,
        call_ensures(parse_usize, (text,), parsed),
    ensures
        parsed == Some(number as usize),
{
    law_decimal_round_trip(number as nat);
}

} // verus!
