//! Reading on/off switches given as text (environment values).
use vstd::prelude::*;
use crate::frequency::ascii_lowercase;
use crate::text::{ascii_lower_seq, str_eq, trim, trim_str};

verus! {

/// The switch a value names: `0`, `false`, `no`, `off` turn it off; `1`,
/// `true`, `yes`, `on` turn it on (after trimming, in any ASCII case);
/// anything else, or no value, leaves `default`. (ASCII lower-casing
/// accepts exactly the words that full lower-casing would.)
pub open spec fn bool_flag_spec(value: Option<Seq<char>>, default: bool) -> bool {
    match value {
        None => default,
        Some(v) => {
            let w = ascii_lower_seq(trim(v));
            if w == "0"@ || w == "false"@ || w == "no"@ || w == "off"@ {
                false
            } else if w == "1"@ || w == "true"@ || w == "yes"@ || w == "on"@ {
                true
            } else {
                default
            }
        },
    }
}

/// Reads an on/off switch from its text value (see `bool_flag_spec`).
pub fn parse_bool_flag(value: Option<&str>, default: bool) -> (r: bool)
    ensures
        r == bool_flag_spec(
            match value {
                Some(v) => Some(v@),
                None => None,
            },
            default,
        ),
{
    match value {
        None => default,
        Some(v) => {
            let lowered = ascii_lowercase(trim_str(v));
            let w = lowered.as_str();
            if str_eq(w, "0") || str_eq(w, "false") || str_eq(w, "no") || str_eq(w, "off") {
                false
            } else if str_eq(w, "1") || str_eq(w, "true") || str_eq(w, "yes") || str_eq(w, "on") {
                true
            } else {
                default
            }
        },
    }
}

} // verus!
