//! The time to wait for the services, as it is written on a command line: a
//! number of seconds in decimal digits.

use std::time::Duration;
use vstd::prelude::*;
use vstd::string::*;

verus! {

/// Why a text is no number of seconds.
#[derive(Clone, Copy, Debug, PartialEq, Eq, Structural)]
pub enum SecsError {
    /// The text is empty.
    Empty,
    /// The text holds something that is no decimal digit, or no digit at all.
    InvalidDigit,
    /// The number is too large for 64 bits.
    TooLarge,
}

/// The value of a decimal digit.
pub open spec fn digit_of(c: char) -> Option<nat> {
    if '0' <= c <= '9' {
        Some((c as nat - '0' as nat) as nat)
    } else {
        None
    }
}

/// The number that `digits` spell, read from left to right: the first
/// character that is no digit, or that takes the number beyond 64 bits, is
/// the error.
pub open spec fn number(digits: Seq<char>) -> Result<nat, SecsError>
    decreases digits.len(),
{
    if digits.len() == 0 {
        Ok(0)
    } else {
        match number(digits.drop_last()) {
            Err(error) => Err(error),
            Ok(before) => match digit_of(digits.last()) {
                None => Err(SecsError::InvalidDigit),
                Some(digit) => if before * 10 + digit > u64::MAX {
                    Err(SecsError::TooLarge)
                } else {
                    Ok(before * 10 + digit)
                },
            },
        }
    }
}

/// Where the digits of `arg` begin: behind a plus sign, if it has one.
pub open spec fn digits_start(arg: Seq<char>) -> int {
    if arg.len() > 0 && arg[0] == '+' {
        1
    } else {
        0
    }
}

/// The digits of `arg`: all of it but a plus sign in front.
pub open spec fn digits_in(arg: Seq<char>) -> Seq<char> {
    if digits_start(arg) == 1 {
        arg.skip(1)
    } else {
        arg
    }
}

/// The number of seconds that `arg` names: one or more decimal digits, which
/// a plus sign may precede.
pub open spec fn seconds(arg: Seq<char>) -> Result<u64, SecsError> {
    if arg.len() == 0 {
        Err(SecsError::Empty)
    } else if digits_in(arg).len() == 0 {
        Err(SecsError::InvalidDigit)
    } else {
        match number(digits_in(arg)) {
            Ok(value) => Ok(value as u64),
            Err(error) => Err(error),
        }
    }
}

/// What [`Duration::from_secs`] makes of a number of seconds.
pub uninterp spec fn duration_of(secs: u64) -> Duration;

/// `Duration::from_secs` gives the duration of `secs` whole seconds: the
/// same for the same number, whenever it is asked.
pub assume_specification[ Duration::from_secs ](secs: u64) -> (duration: Duration)
    ensures
        duration == duration_of(secs),
;

/// Reads a number of seconds.
pub fn parse_seconds(arg: &str) -> (secs: Result<u64, SecsError>)
    ensures
        secs == seconds(arg@),
{
    let length = arg.unicode_len();
    if length == 0 {
        return Err(SecsError::Empty);
    }
    let first: usize = if arg.get_char(0) == '+' {
        1
    } else {
        0
    };
    if first == length {
        return Err(SecsError::InvalidDigit);
    }
    let ghost digits = arg@.skip(first as int);
    assert(arg@.skip(0) =~= arg@);
    let mut value: u64 = 0;
    let mut at: usize = first;
    assert(digits.take(0) =~= Seq::<char>::empty());
    while at < length
        invariant
            first <= at <= length == arg@.len(),
            first < length,
            first == digits_start(arg@),
            digits == arg@.skip(first as int),
            digits == digits_in(arg@),
            number(digits.take(at - first)) == Ok::<nat, SecsError>(value as nat),
        decreases length - at,
    {
        let c = arg.get_char(at);
        let ghost read = digits.take(at - first + 1);
        assert(read.drop_last() =~= digits.take(at - first));
        assert(read.last() == c);
        if c < '0' || c > '9' {
            proof {
                lemma_error_stays(digits, at - first + 1);
            }
            return Err(SecsError::InvalidDigit);
        }
        let digit: u64 = (c as u32 - '0' as u32) as u64;
        if value > (u64::MAX - digit) / 10 {
            proof {
                lemma_error_stays(digits, at - first + 1);
            }
            return Err(SecsError::TooLarge);
        }
        value = value * 10 + digit;
        at += 1;
    }
    assert(digits.take(at - first) =~= digits);
    Ok(value)
}

/// Once a beginning of `digits` spells no number, neither does the whole, and
/// for the same reason.
proof fn lemma_error_stays(digits: Seq<char>, upto: int)
    requires
        0 <= upto <= digits.len(),
        number(digits.take(upto)) is Err,
    ensures
        number(digits) == number(digits.take(upto)),
    decreases digits.len() - upto,
{
    if upto < digits.len() {
        assert(digits.take(upto + 1).drop_last() =~= digits.take(upto));
        lemma_error_stays(digits, upto + 1);
    } else {
        assert(digits.take(upto) =~= digits);
    }
}

/// Reads the time to wait from its text: a number of seconds.
pub fn parse_secs(arg: &str) -> (timeout: Result<Duration, SecsError>)
    ensures
        timeout == match seconds(arg@) {
            Ok(secs) => Ok::<Duration, SecsError>(duration_of(secs)),
            Err(error) => Err(error),
        },
{
    match parse_seconds(arg) {
        Ok(secs) => Ok(Duration::from_secs(secs)),
        Err(error) => Err(error),
    }
}

} // verus!
