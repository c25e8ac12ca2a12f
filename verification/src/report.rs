//! The status line that tells the user how a job ended.

use vstd::prelude::*;
use vstd::string::StringExecFns;
use crate::decide::{Ending, Report};
use crate::event::{ProcessEnd, Signal};
use crate::text::push_char;

verus! {

/// The character for a digit below sixteen.
pub open spec fn digit_char(d: int) -> char {
    if d < 10 {
        ('0' as u8 + d) as char
    } else {
        ('a' as u8 + (d - 10)) as char
    }
}

/// The decimal digits of a number, most significant first.
pub open spec fn decimal_digits(n: nat) -> Seq<char>
    decreases n,
{
    if n < 10 {
        seq![digit_char(n as int)]
    } else {
        decimal_digits(n / 10).push(digit_char((n % 10) as int))
    }
}

/// The hexadecimal digits of a number, most significant first.
pub open spec fn hex_digits(n: nat) -> Seq<char>
    decreases n,
{
    if n < 16 {
        seq![digit_char(n as int)]
    } else {
        hex_digits(n / 16).push(digit_char((n % 16) as int))
    }
}

/// The decimal text of a number, with a minus sign if it is negative.
pub open spec fn decimal_text(n: int) -> Seq<char> {
    if n < 0 {
        seq!['-'] + decimal_digits((-n) as nat)
    } else {
        decimal_digits(n as nat)
    }
}

/// The hexadecimal text of a number of 32 bits in two's complement, after
/// `0x`.
pub open spec fn hex_text(n: i32) -> Seq<char> {
    "0x"@ + hex_digits(
        if n < 0 {
            (n + 0x1_0000_0000) as nat
        } else {
            n as nat
        },
    )
}

/// The name of a signal.
pub open spec fn signal_name(signal: Signal) -> Seq<char> {
    match signal {
        Signal::Hangup => "Hangup"@,
        Signal::ForceStop => "ForceStop"@,
        Signal::Interrupt => "Interrupt"@,
        Signal::Quit => "Quit"@,
        Signal::Terminate => "Terminate"@,
        Signal::User1 => "User1"@,
        Signal::User2 => "User2"@,
        Signal::Custom(n) => "Custom("@ + decimal_text(n as int) + ")"@,
    }
}

/// The status line for what became of a job.
pub open spec fn message_text(ending: Ending) -> Seq<char> {
    match ending {
        Ending::FailedToStart => "Command failed to start"@,
        Ending::Ended(None) => "Command completed"@,
        Ending::Ended(Some(ProcessEnd::Success)) => "Command was successful"@,
        Ending::Ended(Some(ProcessEnd::ExitError(code))) => "Command exited with "@ + decimal_text(
            code as int,
        ),
        Ending::Ended(Some(ProcessEnd::ExitSignal(signal))) => "Command killed by "@ + signal_name(
            signal,
        ),
        Ending::Ended(Some(ProcessEnd::ExitStop(signal))) => "Command stopped by "@ + decimal_text(
            signal as int,
        ),
        Ending::Ended(Some(ProcessEnd::Exception(code))) => "Command ended by exception "@
            + hex_text(code),
        Ending::Ended(Some(ProcessEnd::Continued)) => "Command continued"@,
    }
}

/// The character for a digit below sixteen.
pub fn digit(d: u8) -> (c: char)
    requires
        d < 16,
    ensures
        c == digit_char(d as int),
{
    if d < 10 {
        (('0' as u8) + d) as char
    } else {
        (('a' as u8) + (d - 10)) as char
    }
}

/// Appends the decimal digits of `n`.
pub fn push_decimal_digits(out: &mut String, n: u64)
    ensures
        final(out)@ == old(out)@ + decimal_digits(n as nat),
    decreases n,
{
    if n >= 10 {
        push_decimal_digits(out, n / 10);
    }
    let c = digit((n % 10) as u8);
    proof {
        if n < 10 {
            assert(old(out)@.push(c) == old(out)@ + decimal_digits(n as nat));
        } else {
            let more = decimal_digits((n / 10) as nat);
            assert((old(out)@ + more).push(c) == old(out)@ + more.push(c));
        }
    }
    push_char(out, c);
}

/// Appends the hexadecimal digits of `n`.
pub fn push_hex_digits(out: &mut String, n: u64)
    ensures
        final(out)@ == old(out)@ + hex_digits(n as nat),
    decreases n,
{
    if n >= 16 {
        push_hex_digits(out, n / 16);
    }
    let c = digit((n % 16) as u8);
    proof {
        if n < 16 {
            assert(old(out)@.push(c) == old(out)@ + hex_digits(n as nat));
        } else {
            let more = hex_digits((n / 16) as nat);
            assert((old(out)@ + more).push(c) == old(out)@ + more.push(c));
        }
    }
    push_char(out, c);
}

/// Appends the decimal text of `n`.
pub fn push_decimal(out: &mut String, n: i64)
    ensures
        final(out)@ == old(out)@ + decimal_text(n as int),
{
    if n < 0 {
        push_char(out, '-');
        let magnitude: u64 = ((-(n + 1)) as u64) + 1;
        push_decimal_digits(out, magnitude);
        proof {
            let digits = decimal_digits((-n) as nat);
            assert(old(out)@.push('-') + digits == old(out)@ + (seq!['-'] + digits));
        }
    } else {
        push_decimal_digits(out, n as u64);
    }
}

/// Appends the name of the signal.
pub fn push_signal(out: &mut String, signal: Signal)
    ensures
        final(out)@ == old(out)@ + signal_name(signal),
{
    match signal {
        Signal::Hangup => out.append("Hangup"),
        Signal::ForceStop => out.append("ForceStop"),
        Signal::Interrupt => out.append("Interrupt"),
        Signal::Quit => out.append("Quit"),
        Signal::Terminate => out.append("Terminate"),
        Signal::User1 => out.append("User1"),
        Signal::User2 => out.append("User2"),
        Signal::Custom(n) => {
            out.append("Custom(");
            push_decimal(out, n as i64);
            out.append(")");
            proof {
                assert(out@ == old(out)@ + ("Custom("@ + decimal_text(n as int) + ")"@));
            }
        },
    }
}

/// The status line for a report.
pub fn message(report: &Report) -> (line: String)
    ensures
        line@ == message_text(report.ending),
{
    match report.ending {
        Ending::FailedToStart => String::from_str("Command failed to start"),
        Ending::Ended(None) => String::from_str("Command completed"),
        Ending::Ended(Some(ProcessEnd::Success)) => String::from_str("Command was successful"),
        Ending::Ended(Some(ProcessEnd::Continued)) => String::from_str("Command continued"),
        Ending::Ended(Some(ProcessEnd::ExitError(code))) => {
            let mut line = String::from_str("Command exited with ");
            push_decimal(&mut line, code);
            line
        },
        Ending::Ended(Some(ProcessEnd::ExitSignal(signal))) => {
            let mut line = String::from_str("Command killed by ");
            push_signal(&mut line, signal);
            line
        },
        Ending::Ended(Some(ProcessEnd::ExitStop(signal))) => {
            let mut line = String::from_str("Command stopped by ");
            push_decimal(&mut line, signal as i64);
            line
        },
        Ending::Ended(Some(ProcessEnd::Exception(code))) => {
            let mut line = String::from_str("Command ended by exception ");
            line.append("0x");
            let bits: u64 = if code < 0 {
                (code as i64 + 0x1_0000_0000) as u64
            } else {
                code as u64
            };
            push_hex_digits(&mut line, bits);
            proof {
                let digits = hex_digits(bits as nat);
                assert(line@ == "Command ended by exception "@ + ("0x"@ + digits));
            }
            line
        },
    }
}

} // verus!
