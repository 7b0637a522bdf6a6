use vstd::prelude::*;

use crate::text::{decimal, digits_value, law_decimal_denotes, push_decimal};

verus! {

/// An integer in decimal, with a leading `-` when negative.
pub open spec fn signed_decimal(n: int) -> Seq<char> {
    if n < 0 {
        "-"@ + decimal((-n) as nat)
    } else {
        decimal(n as nat)
    }
}

/// How a finished reaction command's exit is reported: its exit code, or
/// `signal` where it was ended by a signal and has no code.
pub open spec fn exit_label_text(code: Option<i32>) -> Seq<char> {
    match code {
        Some(c) => signed_decimal(c as int),
        None => "signal"@,
    }
}

/// The label of an exit code is its decimal notation, with a `-` in front
/// of a negative code; an exit without a code reads `signal`.
pub proof fn law_exit_label_denotes(code: i32)
    ensures
        code >= 0 ==> exit_label_text(Some(code)) == decimal(code as nat),
        code < 0 ==> exit_label_text(Some(code)) == "-"@ + decimal((-code) as nat),
        exit_label_text(None) == "signal"@,
        digits_value(decimal(if code >= 0 {
            code as nat
        } else {
            (-code) as nat
        })) == if code >= 0 {
            code as int
        } else {
            -code
        },
{
    law_decimal_denotes(if code >= 0 {
        code as nat
    } else {
        (-code) as nat
    });
}

/// The exit code of a failed reaction command as its log line shows it.
pub fn exit_label(code: Option<i32>) -> (label: String)
    ensures
        label@ == exit_label_text(code),
{
    match code {
        Some(c) => {
            let mut label = String::new();
            if c < 0 {
                label.append("-");
                let magnitude: u64 = (0i64 - c as i64) as u64;
                push_decimal(&mut label, magnitude);
            } else {
                push_decimal(&mut label, c as u64);
            }
            assert(label@ =~= exit_label_text(code));
            label
        },
        None => String::from_str("signal"),
    }
}

} // verus!
