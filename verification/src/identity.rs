//! Text form of identifiers.

use crate::common::InstanceId;
use vstd::arithmetic::power::pow;
use vstd::prelude::*;

verus! {

/// One lower-case hexadecimal digit.
pub open spec fn hex_char(digit: int) -> char {
    if digit < 10 {
        (48 + digit) as char
    } else {
        (87 + digit) as char
    }
}

/// The hexadecimal digit `place` of a 128-bit value, counted from the most
/// significant one.
pub open spec fn hex_digit_at(bits: u128, place: int) -> int {
    (bits as int / pow(16, (31 - place) as nat)) % 16
}

/// Hyphens of a UUID's text that stand before a character position.
pub open spec fn hyphens_before(index: int) -> int {
    if index <= 8 {
        0
    } else if index <= 13 {
        1
    } else if index <= 18 {
        2
    } else if index <= 23 {
        3
    } else {
        4
    }
}

/// The hyphenated lower-case text of a UUID.
pub open spec fn uuid_text(bits: u128) -> Seq<char> {
    Seq::new(
        36,
        |i: int|
            if i == 8 || i == 13 || i == 18 || i == 23 {
                '-'
            } else {
                hex_char(hex_digit_at(bits, i - hyphens_before(i)))
            },
    )
}

/// `Display` of `velo_ext::InstanceId`: the hyphenated lower-case text of the
/// UUID it wraps.
#[verifier::external_body]
pub(crate) fn format_instance(bits: u128) -> (text: String)
    ensures
        text@ == uuid_text(bits),
{
    velo_ext::InstanceId::from(uuid::Uuid::from_u128(bits)).to_string()
}

/// `Uuid::new_v4`: 128 bits of a random UUID. Nothing is said of the bits.
#[verifier::external_body]
pub(crate) fn random_session_id() -> (bits: u128) {
    uuid::Uuid::new_v4().as_u128()
}

impl InstanceId {
    /// The text of the id.
    pub fn to_text(&self) -> (text: String)
        ensures
            text@ == uuid_text(self.bits),
    {
        format_instance(self.bits)
    }
}

/// The decimal digits of a number.
pub open spec fn decimal_text(number: nat) -> Seq<char>
    decreases number,
{
    if number < 10 {
        seq![(48 + number) as char]
    } else {
        decimal_text(number / 10).push((48 + number % 10) as char)
    }
}

/// One decimal digit.
fn digit_text(digit: u64) -> (text: &'static str)
    requires
        digit < 10,
    ensures
        text@ == seq![(48 + digit) as char],
{
    proof {
        reveal_strlit("0");
        reveal_strlit("1");
        reveal_strlit("2");
        reveal_strlit("3");
        reveal_strlit("4");
        reveal_strlit("5");
        reveal_strlit("6");
        reveal_strlit("7");
        reveal_strlit("8");
        reveal_strlit("9");
    }
    let text = match digit {
        0 => "0",
        1 => "1",
        2 => "2",
        3 => "3",
        4 => "4",
        5 => "5",
        6 => "6",
        7 => "7",
        8 => "8",
        _ => "9",
    };
    assert(text@ =~= seq![(48 + digit) as char]);
    text
}

/// Appends the decimal digits of a number.
pub(crate) fn append_decimal(text: &mut String, number: u64)
    ensures
        final(text)@ == old(text)@ + decimal_text(number as nat),
    decreases number,
{
    if number >= 10 {
        append_decimal(text, number / 10);
    }
    let ghost head = text@;
    text.append(digit_text(number % 10));
    proof {
        if number < 10 {
            assert(number % 10 == number);
        } else {
            assert(text@ =~= old(text)@ + decimal_text(number as nat));
        }
    }
}

/// Hexadecimal digits have distinct characters.
proof fn lemma_hex_char_injective(a: int, b: int)
    requires
        0 <= a < 16,
        0 <= b < 16,
        hex_char(a) == hex_char(b),
    ensures
        a == b,
{
    assert((48 + a) as char == (48 + b) as char && a < 10 && b < 10 ==> a == b);
}

/// Two values agree if their leading parts and their last digits agree.
proof fn lemma_digits_determine(a: int, b: int, places: nat)
    requires
        0 <= a < pow(16, places),
        0 <= b < pow(16, places),
        forall|k: int|
            #![trigger pow(16, k as nat)]
            0 <= k < places ==> (a / pow(16, k as nat)) % 16 == (b / pow(16, k as nat)) % 16,
    ensures
        a == b,
    decreases places,
{
    reveal(pow);
    if places == 0 {
        assert(pow(16, 0) == 1);
    } else {
        assert(pow(16, 0) == 1);
        assert((a / pow(16, 0int as nat)) % 16 == (b / pow(16, 0int as nat)) % 16);
        assert(a % 16 == b % 16);
        let ha = a / 16;
        let hb = b / 16;
        let rest = (places - 1) as nat;
        assert(pow(16, places) == 16 * pow(16, rest));
        assert forall|k: int|
            #![trigger pow(16, k as nat)]
            0 <= k < rest implies (ha / pow(16, k as nat)) % 16 == (hb / pow(16, k as nat)) % 16 by {
            let up = (k + 1) as nat;
            assert(pow(16, up) == 16 * pow(16, k as nat));
            vstd::arithmetic::power::lemma_pow_positive(16, k as nat);
            vstd::arithmetic::div_mod::lemma_div_denominator(a, 16, pow(16, k as nat));
            vstd::arithmetic::div_mod::lemma_div_denominator(b, 16, pow(16, k as nat));
            assert((a / pow(16, (k + 1) as nat)) % 16 == (b / pow(16, (k + 1) as nat)) % 16);
        }
        lemma_digits_determine(ha, hb, rest);
    }
}

/// Distinct ids have distinct texts.
pub proof fn law_instance_text_injective(a: InstanceId, b: InstanceId)
    requires
        uuid_text(a.bits) == uuid_text(b.bits),
    ensures
        a == b,
{
    assert forall|k: int|
        #![trigger pow(16, k as nat)]
        0 <= k < 32 implies (a.bits as int / pow(16, k as nat)) % 16 == (b.bits as int / pow(
        16,
        k as nat,
    )) % 16 by {
        let place = 31 - k;
        let index = if place < 8 {
            place
        } else if place < 12 {
            place + 1
        } else if place < 16 {
            place + 2
        } else if place < 20 {
            place + 3
        } else {
            place + 4
        };
        assert(index - hyphens_before(index) == place);
        assert(uuid_text(a.bits)[index] == hex_char(hex_digit_at(a.bits, place)));
        assert(uuid_text(b.bits)[index] == hex_char(hex_digit_at(b.bits, place)));
        lemma_hex_char_injective(hex_digit_at(a.bits, place), hex_digit_at(b.bits, place));
    }
    assert(pow(16, 32) == 0x1_0000_0000_0000_0000_0000_0000_0000_0000) by {
        reveal_with_fuel(pow, 33);
    }
    lemma_digits_determine(a.bits as int, b.bits as int, 32);
}

/// A number reads as its decimal digits, the highest first.
pub proof fn law_numbers_read_in_decimal(number: nat, digit: nat)
    requires
        digit < 10,
    ensures
        decimal_text(digit).len() == 1,
        decimal_text(digit)[0] as u32 == 48 + digit,
        number > 0 ==> {
            let text = decimal_text(10 * number + digit);
            &&& text.drop_last() == decimal_text(number)
            &&& text.last() as u32 == 48 + digit
        },
{
    if number > 0 {
        let whole = 10 * number + digit;
        assert(whole / 10 == number);
        assert(whole % 10 == digit);
        assert(decimal_text(whole).drop_last() =~= decimal_text(number));
    }
}

} // verus!
