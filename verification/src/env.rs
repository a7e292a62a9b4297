//! Environment variables and how their values override settings.

use vstd::prelude::*;

use crate::durations::parse_duration;
#[allow(unused_imports)]
use crate::durations::parsed_nanos;
use crate::spans::check_spans_fit;
#[allow(unused_imports)]
use crate::spans::spans_fit;
#[allow(unused_imports)]
use crate::text::number;
use crate::text::parse_number;
use crate::time::Duration;

verus! {

/// A set of environment variables.
#[derive(Clone, Debug, PartialEq, Eq)]
pub struct Environment {
    vars: Vec<(String, String)>,
}

/// `vars` hold a value for `key` at place `i`, and none before.
pub open spec fn is_first_var(vars: Seq<(Seq<char>, Seq<char>)>, key: Seq<char>, i: int) -> bool {
    &&& 0 <= i < vars.len()
    &&& vars[i].0 == key
    &&& forall|j: int| 0 <= j < i ==> (#[trigger] vars[j]).0 != key
}

/// The value of `key`: the first one in `vars`.
pub open spec fn lookup(vars: Seq<(Seq<char>, Seq<char>)>, key: Seq<char>) -> Option<Seq<char>> {
    if exists|i: int| is_first_var(vars, key, i) {
        Some(vars[choose|i: int| is_first_var(vars, key, i)].1)
    } else {
        None
    }
}

impl View for Environment {
    type V = Seq<(Seq<char>, Seq<char>)>;

    closed spec fn view(&self) -> Seq<(Seq<char>, Seq<char>)> {
        var_views(self.vars@)
    }
}

/// The variables in `vars`.
pub open spec fn var_views(vars: Seq<(String, String)>) -> Seq<(Seq<char>, Seq<char>)> {
    vars.map_values(|v: (String, String)| (v.0@, v.1@))
}

impl Environment {
    /// An environment with the given variables.
    pub fn new(vars: Vec<(String, String)>) -> (env: Environment)
        ensures
            env@ == var_views(vars@),
    {
        Environment { vars }
    }

    /// The value of `key`.
    pub fn get(&self, key: &str) -> (r: Option<&str>)
        ensures
            match r {
                Some(value) => lookup(self@, key@) == Some(value@),
                None => lookup(self@, key@) is None,
            },
    {
        let wanted = key.to_string();
        for i in 0..self.vars.len()
            invariant
                wanted@ == key@,
                forall|j: int| 0 <= j < i ==> (#[trigger] self@[j]).0 != key@,
        {
            assert(self@[i as int] == (self.vars@[i as int].0@, self.vars@[i as int].1@));
            if self.vars[i].0 == wanted {
                assert(is_first_var(self@, key@, i as int));
                let ghost first = choose|k: int| is_first_var(self@, key@, k);
                assert(is_first_var(self@, key@, first));
                assert(first == i);
                return Some(self.vars[i].1.as_str());
            }
        }
        None
    }
}

/// Every character of `text` is an ASCII character.
pub open spec fn all_ascii(text: Seq<char>) -> bool {
    forall|i: int| 0 <= i < text.len() ==> (#[trigger] text[i]) <= '\u{7f}'
}

/// The lower-case form of an ASCII character.
pub open spec fn ascii_lower(c: char) -> char {
    if 'A' <= c && c <= 'Z' {
        (c as u32 + 32) as char
    } else {
        c
    }
}

/// What `str::to_lowercase` makes of a text.
pub uninterp spec fn lowercased(text: Seq<char>) -> Seq<char>;

/// `str::to_lowercase`: the text in lower case. Of an ASCII text, every letter is
/// replaced by its lower-case form and all else is kept; of other texts, the result
/// is only named.
#[verifier::external_body]
fn lowercase(text: &str) -> (r: String)
    ensures
        r@ == lowercased(text@),
        all_ascii(text@) ==> r@ == text@.map_values(|c: char| ascii_lower(c)),
{
    text.to_lowercase()
}

/// The truth value that a lower-case word stands for.
pub open spec fn word_value(word: Seq<char>) -> Option<bool> {
    if word == "true"@ || word == "1"@ || word == "yes"@ {
        Some(true)
    } else if word == "false"@ || word == "0"@ || word == "no"@ {
        Some(false)
    } else {
        None
    }
}

/// The truth value that a lower-case word stands for.
pub fn bool_word(word: &str) -> (r: Option<bool>)
    ensures
        r == word_value(word@),
{
    let w = word.to_string();
    if w == "true".to_string() || w == "1".to_string() || w == "yes".to_string() {
        Some(true)
    } else if w == "false".to_string() || w == "0".to_string() || w == "no".to_string() {
        Some(false)
    } else {
        None
    }
}

/// The setting after the variable `key` was looked at: its value, where it is
/// set.
pub open spec fn str_setting(
    vars: Seq<(Seq<char>, Seq<char>)>,
    key: Seq<char>,
    old_value: Seq<char>,
) -> Seq<char> {
    match lookup(vars, key) {
        Some(value) => value,
        None => old_value,
    }
}

/// The setting after the variable `key` was looked at: the truth value that its
/// value in lower case stands for, where it stands for one.
pub open spec fn bool_setting(
    vars: Seq<(Seq<char>, Seq<char>)>,
    key: Seq<char>,
    old_value: bool,
) -> bool {
    match lookup(vars, key) {
        Some(value) => match word_value(lowercased(value)) {
            Some(b) => b,
            None => old_value,
        },
        None => old_value,
    }
}

/// The setting after the variable `key` was looked at: the number that its value
/// writes, where it writes one that fits.
pub open spec fn usize_setting(
    vars: Seq<(Seq<char>, Seq<char>)>,
    key: Seq<char>,
    old_value: usize,
) -> usize {
    match lookup(vars, key) {
        Some(value) => match number(value, usize::MAX as nat) {
            Some(n) => n as usize,
            None => old_value,
        },
        None => old_value,
    }
}

/// The setting, in nanoseconds, after the variable `key` was looked at: the span
/// that its value writes, where it writes one.
pub open spec fn duration_setting(
    vars: Seq<(Seq<char>, Seq<char>)>,
    key: Seq<char>,
    old_value: nat,
) -> nat {
    match lookup(vars, key) {
        Some(value) => match parsed_nanos(value) {
            Some(n) => n,
            None => old_value,
        },
        None => old_value,
    }
}

/// Whether the value of `key`, if there is one, has no second to carry over to
/// 2^64 - 1 seconds.
pub open spec fn duration_fits(vars: Seq<(Seq<char>, Seq<char>)>, key: Seq<char>) -> bool {
    match lookup(vars, key) {
        Some(value) => spans_fit(value),
        None => true,
    }
}

/// Whether the value of `key`, if there is one, has no second to carry over to
/// 2^64 - 1 seconds.
pub fn check_duration_fits(env: &Environment, key: &str) -> (r: bool)
    ensures
        r == duration_fits(env@, key@),
{
    match env.get(key) {
        Some(value) => check_spans_fit(value),
        None => true,
    }
}

/// Puts `value` in the place of a setting, where there is a value.
pub fn override_with<T>(value: Option<T>, target: &mut T)
    ensures
        *final(target) == (match value {
            Some(v) => v,
            None => *old(target),
        }),
{
    if let Some(v) = value {
        *target = v;
    }
}

/// Overrides a span of time. A value that is no span is passed over.
pub fn env_duration(env: &Environment, key: &str, target: &mut Duration)
    requires
        duration_fits(env@, key@),
    ensures
        final(target)@ == duration_setting(env@, key@, old(target)@),
{
    if let Some(value) = env.get(key) {
        override_with(parse_duration(value), target);
    }
}

/// Overrides a text setting.
pub fn env_str(env: &Environment, key: &str, target: &mut String)
    ensures
        final(target)@ == str_setting(env@, key@, old(target)@),
{
    if let Some(value) = env.get(key) {
        *target = value.to_string();
    }
}

/// Overrides a switch. A value that is no truth value is passed over.
pub fn env_bool(env: &Environment, key: &str, target: &mut bool)
    ensures
        *final(target) == bool_setting(env@, key@, *old(target)),
        match lookup(env@, key@) {
            Some(value) => all_ascii(value) ==> *final(target) == (match word_value(
                value.map_values(|c: char| ascii_lower(c)),
            ) {
                Some(b) => b,
                None => *old(target),
            }),
            None => *final(target) == *old(target),
        },
{
    if let Some(value) = env.get(key) {
        override_with(bool_word(lowercase(value).as_str()), target);
    }
}

/// Overrides a size. A value that is no number is passed over.
pub fn env_usize(env: &Environment, key: &str, target: &mut usize)
    ensures
        *final(target) == usize_setting(env@, key@, *old(target)),
{
    if let Some(value) = env.get(key) {
        if let Some(n) = parse_number(value, usize::MAX as u64) {
            *target = n as usize;
        }
    }
}

} // verus!
