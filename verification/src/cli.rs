//! The command interpreter: from an argument list to one action, and
//! from an action to one device mutation or one line of output.
//!
//! The argument list includes the program name as its first element.
//! One argument means print; three mean an action keyword (`set`, `up`,
//! `down`, case-sensitive) with a decimal amount; anything else is a
//! count error.  The amount is parsed before the keyword is checked, so
//! a bad amount wins over an unknown keyword.

use crate::amount::is_amount_text;
use crate::amount::parse_amount_milli;
use crate::amount::spec_amount_milli;
use crate::device::Device;
use crate::errors::BrightnessError;
use crate::numtext::dec_digits;
use crate::numtext::render_u64;
use crate::percent::spec_clamp_percent;
use crate::percent::spec_percent_from_raw;
use crate::percent::spec_raw_from_percent;
use vstd::prelude::*;

verus! {

/// One run's action against the device.
pub enum Action {
    /// Set the brightness to an absolute percentage (milli-percent).
    SetTo(i64),
    /// Raise the brightness by so many percentage points (milli-percent).
    Up(i64),
    /// Lower the brightness by so many percentage points (milli-percent).
    Down(i64),
    /// Print the current brightness; mutates nothing.
    Print,
}

/// Interpret the argument list.  Exactly one argument is a print;
/// exactly three are keyword plus amount; every other count is an
/// argument-count error.  With three, a malformed amount is reported
/// before an unknown keyword is.
pub fn parse_args(args: &Vec<String>) -> (r: Result<Action, BrightnessError>)
    ensures
        args@.len() == 1 ==> r == Ok::<Action, BrightnessError>(Action::Print),
        args@.len() != 1 && args@.len() != 3 ==> r == Err::<Action, BrightnessError>(
            BrightnessError::ArgumentCountError,
        ),
        args@.len() == 3 && !is_amount_text(args@[2]@) ==> r == Err::<Action, BrightnessError>(
            BrightnessError::AmountParseError,
        ),
        args@.len() == 3 && is_amount_text(args@[2]@) && args@[1]@ == "set"@ ==> r == Ok::<
            Action,
            BrightnessError,
        >(Action::SetTo(spec_amount_milli(args@[2]@) as i64)),
        args@.len() == 3 && is_amount_text(args@[2]@) && args@[1]@ == "up"@ ==> r == Ok::<
            Action,
            BrightnessError,
        >(Action::Up(spec_amount_milli(args@[2]@) as i64)),
        args@.len() == 3 && is_amount_text(args@[2]@) && args@[1]@ == "down"@ ==> r == Ok::<
            Action,
            BrightnessError,
        >(Action::Down(spec_amount_milli(args@[2]@) as i64)),
        args@.len() == 3 && is_amount_text(args@[2]@) && args@[1]@ != "set"@ && args@[1]@ != "up"@
            && args@[1]@ != "down"@ ==> (r matches Err(e) && (e matches
        BrightnessError::UnknownActionError(t) && t@ == args@[1]@)),
{
    if args.len() == 1 {
        return Ok(Action::Print);
    }
    if args.len() != 3 {
        return Err(BrightnessError::ArgumentCountError);
    }
    let amount: i64 = match parse_amount_milli(args[2].as_str()) {
        Some(v) => v,
        None => {
            return Err(BrightnessError::AmountParseError);
        },
    };
    proof {
        reveal_strlit("set");
        reveal_strlit("up");
        reveal_strlit("down");
        assert("set"@.len() == 3);
        assert("up"@.len() == 2);
        assert("down"@.len() == 4);
    }
    let set_kw = String::from_str("set");
    let up_kw = String::from_str("up");
    let down_kw = String::from_str("down");
    if args[1] == set_kw {
        Ok(Action::SetTo(amount))
    } else if args[1] == up_kw {
        Ok(Action::Up(amount))
    } else if args[1] == down_kw {
        Ok(Action::Down(amount))
    } else {
        Err(BrightnessError::UnknownActionError(args[1].clone()))
    }
}

/// Run one action against the device.  The three mutating actions
/// change the device in memory and return nothing: the shell must then
/// write the save payload.  Print changes nothing and returns the output
/// line, the whole percentage (fraction discarded) followed by `%`.
pub fn execute_action(device: &mut Device, action: &Action) -> (r: Option<String>)
    requires
        old(device).wf(),
    ensures
        final(device).wf(),
        final(device).max_brightness == old(device).max_brightness,
        final(device).brightness_path == old(device).brightness_path,
        final(device).max_brightness_path == old(device).max_brightness_path,
        (*action) matches Action::SetTo(a) ==> (r is None && final(device).brightness as int
            == spec_raw_from_percent(
            spec_clamp_percent(a as int),
            old(device).max_brightness as int,
        )),
        (*action) matches Action::Up(a) ==> (r is None && final(device).brightness as int
            == spec_raw_from_percent(
            spec_clamp_percent(
                spec_percent_from_raw(
                    old(device).brightness as int,
                    old(device).max_brightness as int,
                ) + a,
            ),
            old(device).max_brightness as int,
        )),
        (*action) matches Action::Down(a) ==> (r is None && final(device).brightness as int
            == spec_raw_from_percent(
            spec_clamp_percent(
                spec_percent_from_raw(
                    old(device).brightness as int,
                    old(device).max_brightness as int,
                ) - a,
            ),
            old(device).max_brightness as int,
        )),
        (*action) is Print ==> *final(device) == *old(device),
        (*action) is Print ==> (r matches Some(line) && line@ == dec_digits(
            spec_percent_from_raw(old(device).brightness as int, old(device).max_brightness as int)
                / 1000,
        ) + "%"@),
    {
    match action {
        Action::SetTo(a) => {
            device.set_brightness(*a);
            None
        },
        Action::Up(a) => {
            device.adjust_brightness(*a);
            None
        },
        Action::Down(a) => {
            device.adjust_signed(-(*a as i128));
            None
        },
        Action::Print => {
            let milli: u64 = device.get_brightness();
            let whole: u64 = milli / 1000;
            let line = render_u64(whole).concat("%");
            proof {
                assert(line@ =~= dec_digits(
                    spec_percent_from_raw(
                        device.brightness as int,
                        device.max_brightness as int,
                    ) / 1000,
                ) + "%"@);
            }
            Some(line)
        },
    }
}

} // verus!
