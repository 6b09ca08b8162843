use vstd::prelude::*;
use vstd::string::StringExecFns;

use crate::text::{decimal_text, push_decimal};

verus! {

/// A duration of `seconds` whole seconds as a timer shows it: `m:ss` from a
/// minute on, plain seconds below.
pub open spec fn time_text(seconds: nat) -> Seq<char> {
    let minutes = seconds / 60;
    let rest = seconds % 60;
    if minutes > 0 {
        decimal_text(minutes) + ":"@ + (if rest < 10 {
            "0"@
        } else {
            Seq::empty()
        }) + decimal_text(rest)
    } else {
        decimal_text(rest)
    }
}

/// The timer text for `ms` milliseconds; the part of a second is dropped.
pub fn seconds_to_time(ms: u64) -> (r: String)
    ensures
        r@ == time_text((ms / 1000) as nat),
{
    let seconds = ms / 1000;
    let minutes = seconds / 60;
    let rest = seconds % 60;
    let mut result = String::new();
    if minutes > 0 {
        push_decimal(&mut result, minutes);
        result.append(":");
        if rest < 10 {
            result.append("0");
        }
        let ghost before = result@;
        push_decimal(&mut result, rest);
        assert(before == decimal_text(minutes as nat) + ":"@ + (if rest < 10 {
            "0"@
        } else {
            Seq::empty()
        })) by {
            if rest >= 10 {
                assert(decimal_text(minutes as nat) + ":"@ + Seq::<char>::empty() =~= decimal_text(
                    minutes as nat,
                ) + ":"@);
            }
        }
    } else {
        push_decimal(&mut result, rest);
        assert(Seq::<char>::empty() + decimal_text(rest as nat) =~= decimal_text(rest as nat));
    }
    result
}

} // verus!
