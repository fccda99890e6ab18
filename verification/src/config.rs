//! Reading the scheduler settings that the service takes from its environment.
use vstd::prelude::*;
use crate::decimal::{decimal_spec, lemma_parse_decimal_round_trip, parse_u64, parse_u64_spec};
use crate::text::{
    ascii_lower, chars_of, equal_chars, lemma_ascii_lower_idempotent, lower_chars, opt_str_view,
};

verus! {

/// Seconds between scheduled check runs when no valid interval is configured.
pub const DEFAULT_CHECK_INTERVAL_SECONDS: u64 = 1800;

/// The lower-case words that switch a flag on: `1`, `true`, `yes`, `on`.
pub open spec fn is_flag_word(s: Seq<char>) -> bool {
    ||| s == seq!['1']
    ||| s == seq!['t', 'r', 'u', 'e']
    ||| s == seq!['y', 'e', 's']
    ||| s == seq!['o', 'n']
}

/// Whether a flag whose setting is `value` (absent: `None`) is switched on.
pub open spec fn flag_is_set_spec(value: Option<Seq<char>>) -> bool {
    match value {
        Some(text) => is_flag_word(ascii_lower(text)),
        None => false,
    }
}

/// The check interval that a setting of `value` gives.
pub open spec fn check_interval_spec(value: Option<Seq<char>>) -> u64 {
    match value {
        Some(text) => match parse_u64_spec(text) {
            Some(seconds) => seconds,
            None => DEFAULT_CHECK_INTERVAL_SECONDS,
        },
        None => DEFAULT_CHECK_INTERVAL_SECONDS,
    }
}

/// Whether a flag setting switches the flag on: one of `1`, `true`, `yes`,
/// `on`, in any ASCII case; an absent setting leaves it off.
pub fn flag_is_set(value: Option<&str>) -> (on: bool)
    ensures
        on == flag_is_set_spec(opt_str_view(value)),
{
    match value {
        None => false,
        Some(text) => {
            let lowered = lower_chars(&chars_of(text));
            let one = vec!['1'];
            let yes_true = vec!['t', 'r', 'u', 'e'];
            let yes = vec!['y', 'e', 's'];
            let on = vec!['o', 'n'];
            assert(one@ =~= seq!['1']);
            assert(yes_true@ =~= seq!['t', 'r', 'u', 'e']);
            assert(yes@ =~= seq!['y', 'e', 's']);
            assert(on@ =~= seq!['o', 'n']);
            equal_chars(&lowered, &one) || equal_chars(&lowered, &yes_true) || equal_chars(
                &lowered,
                &yes,
            ) || equal_chars(&lowered, &on)
        },
    }
}

/// The seconds between scheduled check runs: the setting read as a `u64`,
/// or the default where it is absent or not a valid `u64`.
pub fn check_interval_seconds(value: Option<&str>) -> (seconds: u64)
    ensures
        seconds == check_interval_spec(opt_str_view(value)),
{
    match value {
        None => DEFAULT_CHECK_INTERVAL_SECONDS,
        Some(text) => match parse_u64(text) {
            Some(seconds) => seconds,
            None => DEFAULT_CHECK_INTERVAL_SECONDS,
        },
    }
}

/// Flag words are read without regard to ASCII case.
pub proof fn lemma_flag_case_insensitive(text: Seq<char>)
    ensures
        flag_is_set_spec(Some(ascii_lower(text))) == flag_is_set_spec(Some(text)),
{
    lemma_ascii_lower_idempotent(text);
}

/// An interval written out in decimal is read back as that interval.
pub proof fn lemma_interval_round_trip(seconds: u64)
    ensures
        check_interval_spec(Some(decimal_spec(seconds as nat))) == seconds,
{
    lemma_parse_decimal_round_trip(seconds);
}

} // verus!
