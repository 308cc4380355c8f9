//! Pairing: who is allowed to talk to this robot over Bluetooth.
//!
//! The robot answers a passkey request with a PIN that the configuration daemon holds, asked
//! for anew at every pairing. Anything short of that PIN refuses the bond.
use vstd::arithmetic::power;
use vstd::prelude::*;

use crate::proto;
use crate::proto::{Error, PairingPinResult};
use crate::text;

verus! {

/// How long to wait for the PIN, seconds.
pub const PIN_TIMEOUT_SECONDS: u64 = 3;

/// A decimal digit?
pub open spec fn is_digit(c: char) -> bool {
    '0' <= c <= '9'
}

/// The value of a text of digits.
pub open spec fn value_of(digits: Seq<char>) -> nat
    decreases digits.len(),
{
    if digits.len() == 0 {
        0
    } else {
        10 * value_of(digits.drop_last()) + (digits.last() as int - 48) as nat
    }
}

/// The digits of a number that may start with a plus sign.
pub open spec fn digits_of(s: Seq<char>) -> Seq<char> {
    if s.len() > 0 && s[0] == '+' {
        s.skip(1)
    } else {
        s
    }
}

/// The number a text spells, if it spells one that fits: an optional plus sign and at least one
/// digit.
pub open spec fn number_of(s: Seq<char>) -> Option<u32> {
    let digits = digits_of(s);
    if digits.len() > 0 && (forall|i: int| 0 <= i < digits.len() ==> is_digit(#[trigger] digits[i]))
        && value_of(digits) <= u32::MAX {
        Some(value_of(digits) as u32)
    } else {
        None
    }
}

proof fn a_longer_number_is_no_smaller(digits: Seq<char>, n: int)
    requires
        0 <= n <= digits.len(),
    ensures
        value_of(digits.take(n)) <= value_of(digits),
    decreases digits.len(),
{
    if n == digits.len() {
        assert(digits.take(n) == digits);
    } else {
        a_longer_number_is_no_smaller(digits.drop_last(), n);
        assert(digits.drop_last().take(n) == digits.take(n));
    }
}

/// The number a text spells.
pub fn parse_number(s: &str) -> (r: Option<u32>)
    ensures
        r == number_of(s@),
{
    let chars = text::chars_of(s);
    let start: usize = if chars.len() > 0 && chars[0] == '+' {
        1
    } else {
        0
    };
    let ghost digits = digits_of(s@);
    assert(digits == s@.skip(start as int));
    if chars.len() == start {
        return None;
    }
    let mut value: u32 = 0;
    let mut i: usize = start;
    assert(digits.take(0).len() == 0);
    while i < chars.len()
        invariant
            chars@ == s@,
            digits == digits_of(s@),
            digits == s@.skip(start as int),
            start <= i <= chars@.len(),
            digits.len() > 0,
            value == value_of(digits.take(i - start)),
            forall|j: int| 0 <= j < i - start ==> is_digit(#[trigger] digits[j]),
        decreases chars@.len() - i,
    {
        let c = chars[i];
        assert(c == digits[i - start]);
        if c < '0' || c > '9' {
            return None;
        }
        let digit: u32 = c as u32 - 48;
        assert(digits.take(i - start + 1).drop_last() == digits.take(i - start));
        assert(digits.take(i - start + 1).last() == c);
        assert(value_of(digits.take(i - start + 1)) == 10 * value + digit);
        let next: u64 = 10 * (value as u64) + digit as u64;
        if next > 0xffff_ffff {
            proof {
                a_longer_number_is_no_smaller(digits, i - start + 1);
            }
            return None;
        }
        value = next as u32;
        i = i + 1;
    }
    assert(digits.take(i - start) == digits);
    Some(value)
}

/// What a PIN that is no number is reported as: its length, and not itself.
pub open spec fn not_a_number(pin: Seq<char>) -> Seq<char> {
    "configd returned a PIN that is not a number: "@ + text::dec(
        vstd::utf8::encode_utf8(pin).len(),
    ) + " chars"@
}

/// The passkey a PIN stands for. Leading zeros go, since a passkey is a number.
pub fn passkey(pin: &str) -> (r: Result<u32, String>)
    ensures
        match number_of(pin@) {
            Some(n) => r == Ok::<u32, String>(n),
            None => r matches Err(e) && e@ == not_a_number(pin@),
        },
{
    match parse_number(pin) {
        Some(n) => Ok(n),
        None => {
            let mut e = "configd returned a PIN that is not a number: ".to_owned();
            e.append(text::decimal(pin.as_bytes().len() as u64).as_str());
            e.append(" chars");
            Err(e)
        },
    }
}

/// What came of asking for the PIN.
#[derive(Debug)]
pub enum PinReply {
    /// Nothing, in the time there was.
    TimedOut,
    /// Nobody is listening there.
    Unreachable { socket: String, why: String },
    /// The connection or the answer could not be read.
    Broken(String),
    /// The connection was closed instead of an answer.
    Closed,
    /// The daemon said no.
    Refused(Error),
    Pin(PairingPinResult),
}

/// Why a reply is no passkey.
pub open spec fn complaint(reply: PinReply) -> Seq<char> {
    match reply {
        PinReply::TimedOut => "configd did not answer in time"@,
        PinReply::Unreachable { socket, why } => "cannot reach configd at "@ + socket@ + ": "@
            + why@,
        PinReply::Broken(why) => why@,
        PinReply::Closed => "configd closed the connection without answering"@,
        PinReply::Refused(e) => "configd refused: "@ + proto::error_text(
            e.code as int,
            e.message@,
        ),
        PinReply::Pin(result) => not_a_number(result.pin@),
    }
}

/// The passkey a reply carries, or why there is none. Only an answered PIN is ever a passkey:
/// a refusal is not a default.
pub fn pin(reply: PinReply) -> (r: Result<u32, String>)
    ensures
        r is Ok <==> (reply matches PinReply::Pin(result) && number_of(result.pin@) is Some),
        r matches Ok(n) ==> (reply matches PinReply::Pin(result) && number_of(result.pin@) == Some(
            n,
        )),
        r matches Err(e) ==> e@ == complaint(reply),
{
    match reply {
        PinReply::TimedOut => Err("configd did not answer in time".to_owned()),
        PinReply::Unreachable { socket, why } => {
            let mut e = "cannot reach configd at ".to_owned();
            e.append(socket.as_str());
            e.append(": ");
            e.append(why.as_str());
            Err(e)
        },
        PinReply::Broken(why) => Err(why),
        PinReply::Closed => Err("configd closed the connection without answering".to_owned()),
        PinReply::Refused(error) => {
            let mut e = "configd refused: ".to_owned();
            e.append(error.to_string().as_str());
            Err(e)
        },
        PinReply::Pin(result) => passkey(result.pin.as_str()),
    }
}

/// A number of so many digits is below that power of ten.
proof fn digits_bound_a_number(digits: Seq<char>)
    requires
        forall|i: int| 0 <= i < digits.len() ==> is_digit(#[trigger] digits[i]),
    ensures
        value_of(digits) < power::pow(10, digits.len()),
    decreases digits.len(),
{
    reveal(power::pow);
    if digits.len() > 0 {
        let rest = digits.drop_last();
        assert forall|i: int| 0 <= i < rest.len() implies is_digit(#[trigger] rest[i]) by {
            assert(rest[i] == digits[i]);
        }
        digits_bound_a_number(rest);
        assert(is_digit(digits[digits.len() - 1]));
    }
}

/// Every PIN of six digits is a passkey, and one that fits in six digits.
pub proof fn six_digits_are_a_passkey(pin: Seq<char>)
    requires
        pin.len() == 6,
        forall|i: int| 0 <= i < pin.len() ==> is_digit(#[trigger] pin[i]),
    ensures
        number_of(pin) matches Some(n) && n == value_of(pin) && n < 1_000_000,
{
    assert(is_digit(pin[0]));
    assert(digits_of(pin) == pin);
    digits_bound_a_number(pin);
    reveal_with_fuel(power::pow, 7);
    assert(power::pow(10, 6) == 1_000_000);
}

/// A zero in front of a number does not change it.
pub proof fn leading_zeros_do_not_count(digits: Seq<char>)
    ensures
        value_of(seq!['0'] + digits) == value_of(digits),
    decreases digits.len(),
{
    let longer = seq!['0'] + digits;
    if digits.len() == 0 {
        assert(longer.drop_last() == Seq::<char>::empty());
        reveal_with_fuel(value_of, 2);
    } else {
        leading_zeros_do_not_count(digits.drop_last());
        assert(longer.drop_last() == seq!['0'] + digits.drop_last());
        assert(longer.last() == digits.last());
    }
}

proof fn a_value_is_a_value(digits: Seq<char>)
    requires
        forall|i: int| 0 <= i < digits.len() ==> is_digit(#[trigger] digits[i]),
    ensures
        value_of(digits) == text::value(digits),
    decreases digits.len(),
{
    if digits.len() > 0 {
        let rest = digits.drop_last();
        assert forall|i: int| 0 <= i < rest.len() implies is_digit(#[trigger] rest[i]) by {
            assert(rest[i] == digits[i]);
        }
        a_value_is_a_value(rest);
        assert(is_digit(digits[digits.len() - 1]));
    }
}

/// Reading undoes writing: a number written in decimal is read back as that number where it fits,
/// with or without a plus sign, and as none where it does not.
pub proof fn a_written_number_is_read_back(n: nat)
    ensures
        n <= u32::MAX ==> number_of(text::dec(n)) == Some(n as u32),
        n <= u32::MAX ==> number_of(seq!['+'] + text::dec(n)) == Some(n as u32),
        n > u32::MAX ==> number_of(text::dec(n)) is None,
{
    let s = text::dec(n);
    text::decimals_read_back(n);
    assert(s[0] != '+');
    assert forall|i: int| 0 <= i < s.len() implies is_digit(#[trigger] s[i]) by {}
    a_value_is_a_value(s);
    let signed = seq!['+'] + s;
    assert(signed.skip(1) =~= s);
    assert(digits_of(signed) == s);
    assert(digits_of(s) == s);
}

/// Whatever is not a digit spells no number, wherever it stands behind the sign, and neither does
/// a text without a digit.
pub proof fn only_digits_spell_a_number(s: Seq<char>, i: int)
    requires
        0 < i < s.len(),
        s[i] < '0' || s[i] > '9',
    ensures
        number_of(s) is None,
        number_of(Seq::empty()) is None,
        number_of(seq!['+']) is None,
        number_of(seq!['-'] + s) is None,
{
    let digits = digits_of(s);
    let at = if s[0] == '+' { i - 1 } else { i };
    assert(digits[at] == s[i]);
    assert(!is_digit(digits[at]));
    let signed = seq!['-'] + s;
    assert(digits_of(signed) == signed);
    assert(!is_digit(signed[0]));
}

/// The complaint about a PIN that is no number says how long it is and nothing else of it: two of
/// one length are complained of alike.
pub proof fn a_bad_pin_is_not_repeated(a: Seq<char>, b: Seq<char>)
    ensures
        vstd::utf8::encode_utf8(a).len() == vstd::utf8::encode_utf8(b).len() ==> not_a_number(a)
            == not_a_number(b),
        text::differ_behind(
            not_a_number(a),
            not_a_number(b),
            "configd returned a PIN that is not a number: "@,
            text::dec(vstd::utf8::encode_utf8(a).len()),
            text::dec(vstd::utf8::encode_utf8(b).len()),
        ),
{
    let none = Seq::<char>::empty();
    let label = "configd returned a PIN that is not a number: "@;
    let (x, y) = (
        text::dec(vstd::utf8::encode_utf8(a).len()),
        text::dec(vstd::utf8::encode_utf8(b).len()),
    );
    text::a_change_behind_a_label(none, label, x, y, " chars"@);
    assert(not_a_number(a) =~= none + label + x + " chars"@);
    assert(not_a_number(b) =~= none + label + y + " chars"@);
}

/// A reply that is no passkey says what went wrong in the words it came with: the place that did
/// not answer and why, what could not be read, or the daemon's own error.
pub proof fn a_complaint_says_what_went_wrong(socket: String, why: String, other: String, e: Error)
    ensures
        text::differ_behind(
            complaint(PinReply::Unreachable { socket, why }),
            complaint(PinReply::Unreachable { socket: other, why }),
            "cannot reach configd at "@,
            socket@,
            other@,
        ),
        text::differ_behind(
            complaint(PinReply::Unreachable { socket, why }),
            complaint(PinReply::Unreachable { socket, why: other }),
            ": "@,
            why@,
            other@,
        ),
        complaint(PinReply::Broken(why)) == why@,
        proto::error_text(e.code as int, e.message@).is_suffix_of(complaint(PinReply::Refused(e))),
        complaint(PinReply::Refused(e)).len() == "configd refused: "@.len() + proto::error_text(
            e.code as int,
            e.message@,
        ).len(),
        complaint(PinReply::TimedOut) != complaint(PinReply::Closed),
{
    let none = Seq::<char>::empty();
    let start = "cannot reach configd at "@;
    let t = complaint(PinReply::Unreachable { socket, why });
    text::a_change_behind_a_label(none, start, socket@, other@, ": "@ + why@);
    assert(t =~= none + start + socket@ + (": "@ + why@));
    assert(complaint(PinReply::Unreachable { socket: other, why }) =~= none + start + other@ + (
    ": "@ + why@));
    text::a_change_behind_a_label(start + socket@, ": "@, why@, other@, none);
    assert(t =~= start + socket@ + ": "@ + why@ + none);
    assert(complaint(PinReply::Unreachable { socket, why: other }) =~= start + socket@ + ": "@
        + other@ + none);
    let said = proto::error_text(e.code as int, e.message@);
    let r = complaint(PinReply::Refused(e));
    assert(r.subrange(r.len() - said.len(), r.len() as int) =~= said);
    reveal_strlit("configd did not answer in time");
    reveal_strlit("configd closed the connection without answering");
    assert(complaint(PinReply::TimedOut).len() == 30);
    assert(complaint(PinReply::Closed).len() == 47);
}

} // verus!
