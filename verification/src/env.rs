//! Reading settings from a snapshot of the process environment.

use vstd::prelude::*;

use crate::error::{agrees, in_context, ErrorChain};
use crate::number::{at_least, at_most, max_u64, min_u64, parse_unsigned, unsigned_of};
use crate::text::{
    ascii_lower, ascii_lower_of, has_suffix, opt_text, strip_suffix, text_eq, trim, trim_of,
};
use crate::util::{parse_size, size_of};

verus! {

/// One variable of the environment.
#[derive(Clone, Debug)]
pub struct EnvVar {
    pub name: String,
    pub value: String,
}

/// The variables of the environment whose names and values are Unicode.
#[derive(Clone, Debug)]
pub struct Environment {
    pub vars: Vec<EnvVar>,
}

impl View for EnvVar {
    type V = (Seq<char>, Seq<char>);

    open spec fn view(&self) -> (Seq<char>, Seq<char>) {
        (self.name@, self.value@)
    }
}

impl View for Environment {
    type V = Seq<(Seq<char>, Seq<char>)>;

    open spec fn view(&self) -> Seq<(Seq<char>, Seq<char>)> {
        self.vars@.map_values(|var: EnvVar| var@)
    }
}

/// The value of the first variable named `key`.
pub open spec fn var_of(vars: Seq<(Seq<char>, Seq<char>)>, key: Seq<char>) -> Option<Seq<char>>
    decreases vars.len(),
{
    if vars.len() == 0 {
        None
    } else if vars[0].0 == key {
        Some(vars[0].1)
    } else {
        var_of(vars.drop_first(), key)
    }
}

impl Environment {
    /// The value of the variable `key`.
    pub fn var(&self, key: &str) -> (r: Option<&str>)
        ensures
            match var_of(self@, key@) {
                Some(value) => r matches Some(found) && found@ == value,
                None => r is None,
            },
    {
        let mut i: usize = 0;
        proof {
            assert(self@.skip(0) == self@);
        }
        while i < self.vars.len()
            invariant
                i <= self.vars@.len(),
                var_of(self@.skip(i as int), key@) == var_of(self@, key@),
            decreases self.vars@.len() - i,
        {
            proof {
                assert(self@.skip(i as int).drop_first() == self@.skip(i + 1));
                assert(self@.skip(i as int)[0] == self.vars@[i as int]@);
            }
            if text_eq(self.vars[i].name.as_str(), key) {
                return Some(self.vars[i].value.as_str());
            }
            i += 1;
        }
        proof {
            assert(self@.skip(i as int) == Seq::<(Seq<char>, Seq<char>)>::empty());
        }
        None
    }
}

/// A message that starts with the name of a variable.
fn about(key: &str, rest: &str) -> (r: String)
    ensures
        r@ == key@ + rest@,
{
    let mut message = key.to_owned();
    message.append(rest);
    message
}

/// The value of `key`, or `default`.
pub open spec fn string_of_env(
    vars: Seq<(Seq<char>, Seq<char>)>,
    key: Seq<char>,
    default: Seq<char>,
) -> Seq<char> {
    match var_of(vars, key) {
        Some(value) => value,
        None => default,
    }
}

/// The value of `key`, or `default`.
pub fn env_string(env: &Environment, key: &str, default: &str) -> (r: String)
    ensures
        r@ == string_of_env(env@, key@, default@),
{
    match env.var(key) {
        Some(value) => value.to_owned(),
        None => default.to_owned(),
    }
}

/// The value of `key` without surrounding white space, where there is more to it.
pub open spec fn optional_string_of(
    vars: Seq<(Seq<char>, Seq<char>)>,
    key: Seq<char>,
) -> Option<Seq<char>> {
    match var_of(vars, key) {
        Some(value) => if trim_of(value).len() == 0 {
            None
        } else {
            Some(trim_of(value))
        },
        None => None,
    }
}

/// The value of `key` without surrounding white space, where there is more to it.
pub fn env_optional_string(env: &Environment, key: &str) -> (r: Option<String>)
    ensures
        opt_text(r) == optional_string_of(env@, key@),
{
    match env.var(key) {
        Some(value) => {
            let trimmed = trim(value);
            if trimmed.as_str().is_empty() {
                None
            } else {
                Some(trimmed)
            }
        },
        None => None,
    }
}

/// The truth value that a word stands for, in any letter case.
pub open spec fn bool_word_of(word: Seq<char>) -> Option<bool> {
    let word = ascii_lower_of(word);
    if word == "1"@ || word == "true"@ || word == "yes"@ || word == "on"@ {
        Some(true)
    } else if word == "0"@ || word == "false"@ || word == "no"@ || word == "off"@ {
        Some(false)
    } else {
        None
    }
}

fn bool_word(word: &str) -> (r: Option<bool>)
    ensures
        r == bool_word_of(word@),
{
    let lower = ascii_lower(word);
    let word = lower.as_str();
    if text_eq(word, "1") || text_eq(word, "true") || text_eq(word, "yes") || text_eq(word, "on") {
        Some(true)
    } else if text_eq(word, "0") || text_eq(word, "false") || text_eq(word, "no") || text_eq(
        word,
        "off",
    ) {
        Some(false)
    } else {
        None
    }
}

/// The truth value of `key`, or `default` where it holds none.
pub open spec fn bool_of(
    vars: Seq<(Seq<char>, Seq<char>)>,
    key: Seq<char>,
    default: bool,
) -> bool {
    match var_of(vars, key) {
        Some(value) => match bool_word_of(trim_of(value)) {
            Some(word) => word,
            None => default,
        },
        None => default,
    }
}

/// The truth value of `key`, or `default` where it holds none.
pub fn env_bool(env: &Environment, key: &str, default: bool) -> (r: bool)
    ensures
        r == bool_of(env@, key@, default),
{
    match env.var(key) {
        Some(value) => {
            let trimmed = trim(value);
            match bool_word(trimmed.as_str()) {
                Some(word) => word,
                None => default,
            }
        },
        None => default,
    }
}

/// The truth value of `key`, where it is set to more than white space.
pub open spec fn optional_bool_of(
    vars: Seq<(Seq<char>, Seq<char>)>,
    key: Seq<char>,
) -> Result<Option<bool>, Seq<Seq<char>>> {
    match optional_string_of(vars, key) {
        None => Ok(None),
        Some(value) => match bool_word_of(value) {
            Some(word) => Ok(Some(word)),
            None => Err(seq![key + " must be a boolean value"@]),
        },
    }
}

/// The truth value of `key`, where it is set to more than white space.
pub fn env_optional_bool(env: &Environment, key: &str) -> (r: Result<Option<bool>, ErrorChain>)
    ensures
        agrees(r, optional_bool_of(env@, key@)),
{
    match env_optional_string(env, key) {
        None => Ok(None),
        Some(value) => match bool_word(value.as_str()) {
            Some(word) => Ok(Some(word)),
            None => Err(ErrorChain::new(about(key, " must be a boolean value"))),
        },
    }
}

/// The size that `key` holds, or `default`.
pub open spec fn usize_of(
    vars: Seq<(Seq<char>, Seq<char>)>,
    key: Seq<char>,
    default: usize,
) -> Result<usize, Seq<Seq<char>>> {
    match var_of(vars, key) {
        Some(value) => in_context(
            size_of(value),
            key + " must be a byte count or size like 64mb"@,
        ),
        None => Ok(default),
    }
}

/// The size that `key` holds, or `default`.
pub fn env_usize(env: &Environment, key: &str, default: usize) -> (r: Result<usize, ErrorChain>)
    ensures
        agrees(r, usize_of(env@, key@, default)),
{
    match env.var(key) {
        Some(value) => match parse_size(value) {
            Ok(size) => Ok(size),
            Err(error) => Err(
                error.context(about(key, " must be a byte count or size like 64mb")),
            ),
        },
        None => Ok(default),
    }
}

/// The whole number in a text, which may have white space around it.
pub open spec fn count_text_of(value: Seq<char>, max: nat) -> Result<nat, Seq<Seq<char>>> {
    match unsigned_of(trim_of(value), max) {
        Ok(count) => Ok(count),
        Err(kind) => Err(seq![kind.words()]),
    }
}

fn count_text(value: &str, max: u64) -> (r: Result<u64, ErrorChain>)
    ensures
        match count_text_of(value@, max as nat) {
            Ok(count) => r matches Ok(v) && v == count && v <= max,
            Err(messages) => r matches Err(error) && error@ == messages,
        },
{
    let trimmed = trim(value);
    match parse_unsigned(trimmed.as_str(), max) {
        Ok(count) => Ok(count),
        Err(kind) => Err(ErrorChain::new(kind.describe())),
    }
}

/// The whole number that `key` holds, or `default`.
pub open spec fn count_of(
    vars: Seq<(Seq<char>, Seq<char>)>,
    key: Seq<char>,
    default: usize,
) -> Result<usize, Seq<Seq<char>>> {
    match var_of(vars, key) {
        Some(value) => match in_context(
            count_text_of(value, usize::MAX as nat),
            key + " must be an integer"@,
        ) {
            Ok(count) => Ok(count as usize),
            Err(messages) => Err(messages),
        },
        None => Ok(default),
    }
}

/// The whole number that `key` holds, or `default`.
pub fn env_count(env: &Environment, key: &str, default: usize) -> (r: Result<usize, ErrorChain>)
    ensures
        agrees(r, count_of(env@, key@, default)),
{
    match env.var(key) {
        Some(value) => match count_text(value, usize::MAX as u64) {
            Ok(count) => Ok(count as usize),
            Err(error) => Err(error.context(about(key, " must be an integer"))),
        },
        None => Ok(default),
    }
}

/// Whether a value leaves the choice to the worker: it is blank, or the word `auto`.
pub open spec fn is_auto(value: Seq<char>) -> bool {
    trim_of(value).len() == 0 || ascii_lower_of(trim_of(value)) == "auto"@
}

fn leaves_auto(value: &str) -> (r: bool)
    ensures
        r == is_auto(value@),
{
    let trimmed = trim(value);
    if trimmed.as_str().is_empty() {
        return true;
    }
    let lower = ascii_lower(trimmed.as_str());
    text_eq(lower.as_str(), "auto")
}

/// The whole number that `key` holds, or `default` where it holds none or `auto`.
pub open spec fn count_auto_of(
    vars: Seq<(Seq<char>, Seq<char>)>,
    key: Seq<char>,
    default: usize,
) -> Result<usize, Seq<Seq<char>>> {
    match var_of(vars, key) {
        Some(value) => if is_auto(value) {
            Ok(default)
        } else {
            match in_context(
                count_text_of(value, usize::MAX as nat),
                key + " must be auto or an integer"@,
            ) {
                Ok(count) => Ok(count as usize),
                Err(messages) => Err(messages),
            }
        },
        None => Ok(default),
    }
}

/// The whole number that `key` holds, or `default` where it holds none or `auto`.
pub fn env_count_auto(env: &Environment, key: &str, default: usize) -> (r: Result<
    usize,
    ErrorChain,
>)
    ensures
        agrees(r, count_auto_of(env@, key@, default)),
{
    match env.var(key) {
        Some(value) => {
            if leaves_auto(value) {
                return Ok(default);
            }
            match count_text(value, usize::MAX as u64) {
                Ok(count) => Ok(count as usize),
                Err(error) => Err(error.context(about(key, " must be auto or an integer"))),
            }
        },
        None => Ok(default),
    }
}

/// The percentage that `key` holds, or `default`; at most one hundred.
pub open spec fn percent_of_env(
    vars: Seq<(Seq<char>, Seq<char>)>,
    key: Seq<char>,
    default: u64,
) -> Result<u64, Seq<Seq<char>>> {
    match var_of(vars, key) {
        Some(value) => match in_context(
            count_text_of(value, u64::MAX as nat),
            key + " must be an integer percent"@,
        ) {
            Ok(percent) => Ok(at_most(percent as int, 100) as u64),
            Err(messages) => Err(messages),
        },
        None => Ok(at_most(default as int, 100) as u64),
    }
}

/// The percentage that `key` holds, or `default`; at most one hundred.
pub fn env_percent(env: &Environment, key: &str, default: u64) -> (r: Result<u64, ErrorChain>)
    ensures
        agrees(r, percent_of_env(env@, key@, default)),
{
    match env.var(key) {
        Some(value) => match count_text(value, u64::MAX) {
            Ok(percent) => Ok(min_u64(percent, 100)),
            Err(error) => Err(error.context(about(key, " must be an integer percent"))),
        },
        None => Ok(min_u64(default, 100)),
    }
}

/// The size that `key` holds, where it holds one other than the word `0`.
pub open spec fn optional_u64_of(
    vars: Seq<(Seq<char>, Seq<char>)>,
    key: Seq<char>,
) -> Result<Option<u64>, Seq<Seq<char>>> {
    match var_of(vars, key) {
        Some(value) => if trim_of(value).len() == 0 || trim_of(value) == "0"@ {
            Ok(None)
        } else {
            match in_context(
                size_of(value),
                key + " must be 0, a byte count, or a size like 64mb"@,
            ) {
                Ok(size) => Ok(Some(size as u64)),
                Err(messages) => Err(messages),
            }
        },
        None => Ok(None),
    }
}

/// The size that `key` holds, where it holds one other than the word `0`.
pub fn env_optional_u64(env: &Environment, key: &str) -> (r: Result<Option<u64>, ErrorChain>)
    ensures
        agrees(r, optional_u64_of(env@, key@)),
{
    match env.var(key) {
        Some(value) => {
            let trimmed = trim(value);
            if trimmed.as_str().is_empty() || text_eq(trimmed.as_str(), "0") {
                return Ok(None);
            }
            match parse_size(value) {
                Ok(size) => Ok(Some(size as u64)),
                Err(error) => Err(
                    error.context(about(key, " must be 0, a byte count, or a size like 64mb")),
                ),
            }
        },
        None => Ok(None),
    }
}

/// How a text reads as a number of CPU cores in floating point.
#[derive(Clone, Copy, Debug, PartialEq, Eq, Structural)]
pub enum CoreCount {
    /// It is no number.
    NotANumber,
    /// It is not finite, or not above zero.
    NotPositive,
    /// This many thousandths of a core, rounded up, at least one.
    Millicores(u64),
}

/// The CPU budget that a Kubernetes quantity stands for, in thousandths of a core. `cores` is how
/// the value without surrounding white space reads as a number of cores.
pub open spec fn cpu_millicores_of(
    value: Seq<char>,
    cores: CoreCount,
) -> Result<u64, Seq<Seq<char>>> {
    let value = trim_of(value);
    if has_suffix(value, "m"@) {
        match in_context(
            count_text_of(value.take(value.len() - "m"@.len()), u64::MAX as nat),
            "millicore value must be an integer"@,
        ) {
            Ok(millicores) => Ok(at_least(millicores as int, 1) as u64),
            Err(messages) => Err(messages),
        }
    } else {
        match cores {
            CoreCount::NotANumber => Err(
                seq![
                    "CPU value must be a number of cores"@,
                    if value.len() == 0 {
                        "cannot parse float from empty string"@
                    } else {
                        "invalid float literal"@
                    },
                ],
            ),
            CoreCount::NotPositive => Err(seq!["CPU value must be positive"@]),
            CoreCount::Millicores(millicores) => Ok(millicores),
        }
    }
}

/// The CPU budget that a Kubernetes quantity such as `500m` or `0.5` stands for, in thousandths of
/// a core. `cores` is how the value without surrounding white space reads as a number of cores.
pub fn parse_cpu_millicores(value: &str, cores: CoreCount) -> (r: Result<u64, ErrorChain>)
    ensures
        agrees(r, cpu_millicores_of(value@, cores)),
{
    let value = trim(value);
    if let Some(millis) = strip_suffix(value.as_str(), "m") {
        return match count_text(millis.as_str(), u64::MAX) {
            Ok(parsed) => Ok(max_u64(parsed, 1)),
            Err(error) => Err(error.context("millicore value must be an integer".to_owned())),
        };
    }
    match cores {
        CoreCount::NotANumber => {
            let cause = if value.as_str().is_empty() {
                "cannot parse float from empty string"
            } else {
                "invalid float literal"
            };
            let error = ErrorChain::new(cause.to_owned()).context(
                "CPU value must be a number of cores".to_owned(),
            );
            proof {
                assert(error@ == seq!["CPU value must be a number of cores"@, cause@]);
            }
            Err(error)
        },
        CoreCount::NotPositive => Err(ErrorChain::new("CPU value must be positive".to_owned())),
        CoreCount::Millicores(millicores) => Ok(millicores),
    }
}

/// The CPU budget that `key` holds, where it does not leave the choice to the worker.
pub open spec fn optional_cpu_of(
    vars: Seq<(Seq<char>, Seq<char>)>,
    key: Seq<char>,
    cores: CoreCount,
) -> Result<Option<u64>, Seq<Seq<char>>> {
    match var_of(vars, key) {
        Some(value) => if is_auto(value) {
            Ok(None)
        } else {
            match in_context(
                cpu_millicores_of(value, cores),
                key + " must be auto, 1000m, or a CPU count like 1 or 0.5"@,
            ) {
                Ok(millicores) => Ok(Some(millicores)),
                Err(messages) => Err(messages),
            }
        },
        None => Ok(None),
    }
}

/// The CPU budget that `key` holds, where it does not leave the choice to the worker.
pub fn env_optional_cpu_millicores(env: &Environment, key: &str, cores: CoreCount) -> (r: Result<
    Option<u64>,
    ErrorChain,
>)
    ensures
        agrees(r, optional_cpu_of(env@, key@, cores)),
{
    match env.var(key) {
        Some(value) => {
            if leaves_auto(value) {
                return Ok(None);
            }
            match parse_cpu_millicores(value, cores) {
                Ok(millicores) => Ok(Some(millicores)),
                Err(error) => Err(
                    error.context(
                        about(key, " must be auto, 1000m, or a CPU count like 1 or 0.5"),
                    ),
                ),
            }
        },
        None => Ok(None),
    }
}

// ---------------------------------------------------------------------------
// Laws

/// The value of a variable is that of the first one with its name, and there is one exactly where
/// some variable has the name.
pub proof fn law_first_variable_counts(vars: Seq<(Seq<char>, Seq<char>)>, key: Seq<char>)
    ensures
        match var_of(vars, key) {
            Some(value) => exists|i: int|
                {
                    &&& 0 <= i < vars.len()
                    &&& #[trigger] vars[i] == (key, value)
                    &&& forall|j: int| 0 <= j < i ==> (#[trigger] vars[j]).0 != key
                },
            None => forall|i: int| 0 <= i < vars.len() ==> (#[trigger] vars[i]).0 != key,
        },
    decreases vars.len(),
{
    if vars.len() > 0 {
        if vars[0].0 == key {
            assert(vars[0] == (key, var_of(vars, key)->0));
        } else {
            let rest = vars.drop_first();
            law_first_variable_counts(rest, key);
            match var_of(vars, key) {
                Some(value) => {
                    let i = choose|i: int|
                        {
                            &&& 0 <= i < rest.len()
                            &&& #[trigger] rest[i] == (key, value)
                            &&& forall|j: int| 0 <= j < i ==> (#[trigger] rest[j]).0 != key
                        };
                    assert(vars[i + 1] == (key, value));
                    assert forall|j: int| 0 <= j < i + 1 implies (#[trigger] vars[j]).0 != key by {
                        if j > 0 {
                            assert(rest[j - 1] == vars[j]);
                        }
                    }
                },
                None => {
                    assert forall|i: int| 0 <= i < vars.len() implies (#[trigger] vars[i]).0
                        != key by {
                        if i > 0 {
                            assert(rest[i - 1] == vars[i]);
                        }
                    }
                },
            }
        }
    }
}

/// Whether a setting is a whole number: that of its variable, which may have white space around it,
/// or a default where there is no variable.
pub open spec fn is_counted(
    vars: Seq<(Seq<char>, Seq<char>)>,
    key: Seq<char>,
    default: int,
    value: int,
) -> bool {
    match var_of(vars, key) {
        None => value == default,
        Some(text) => value >= 0 && unsigned_of(trim_of(text), usize::MAX as nat) == Ok::<
            nat,
            crate::number::IntErrorKind,
        >(value as nat),
    }
}

/// Whether a setting is a whole number, or a default where its variable is not there, is blank, or
/// says `auto`.
pub open spec fn is_counted_or_auto(
    vars: Seq<(Seq<char>, Seq<char>)>,
    key: Seq<char>,
    default: int,
    value: int,
) -> bool {
    match var_of(vars, key) {
        None => value == default,
        Some(text) => if trim_of(text).len() == 0 || ascii_lower_of(trim_of(text)) == "auto"@ {
            value == default
        } else {
            value >= 0 && unsigned_of(trim_of(text), usize::MAX as nat) == Ok::<
                nat,
                crate::number::IntErrorKind,
            >(value as nat)
        },
    }
}

/// Whether a setting is the size that its variable holds, or a default where there is no variable.
pub open spec fn is_sized(
    vars: Seq<(Seq<char>, Seq<char>)>,
    key: Seq<char>,
    default: int,
    value: int,
) -> bool {
    match var_of(vars, key) {
        None => value == default,
        Some(text) => size_of(text) is Ok && size_of(text)->Ok_0 == value,
    }
}

/// Whether a setting is a truth value: that of its variable, which is one of eight words in any
/// letter case and with any white space around it, or a default where it is none of them.
pub open spec fn is_switched(
    vars: Seq<(Seq<char>, Seq<char>)>,
    key: Seq<char>,
    default: bool,
    value: bool,
) -> bool {
    match var_of(vars, key) {
        None => value == default,
        Some(text) => {
            let word = ascii_lower_of(trim_of(text));
            if word == "1"@ || word == "true"@ || word == "yes"@ || word == "on"@ {
                value
            } else if word == "0"@ || word == "false"@ || word == "no"@ || word == "off"@ {
                !value
            } else {
                value == default
            }
        },
    }
}

/// Whether a setting is the text of its variable, or a default where there is no variable.
pub open spec fn is_worded(
    vars: Seq<(Seq<char>, Seq<char>)>,
    key: Seq<char>,
    default: Seq<char>,
    value: Seq<char>,
) -> bool {
    match var_of(vars, key) {
        None => value == default,
        Some(text) => value == text,
    }
}

/// Whether a setting is the text of its variable without the white space around it, and is there
/// exactly where the variable has more than that.
pub open spec fn is_worded_or_none(
    vars: Seq<(Seq<char>, Seq<char>)>,
    key: Seq<char>,
    value: Option<Seq<char>>,
) -> bool {
    match var_of(vars, key) {
        None => value is None,
        Some(text) => {
            &&& value is None <==> trim_of(text).len() == 0
            &&& value matches Some(word) ==> word == trim_of(text)
        },
    }
}

/// Whether a setting is the size that its variable holds, and is there exactly where the variable
/// is neither blank nor the word `0`.
pub open spec fn is_sized_or_none(
    vars: Seq<(Seq<char>, Seq<char>)>,
    key: Seq<char>,
    value: Option<u64>,
) -> bool {
    match var_of(vars, key) {
        None => value is None,
        Some(text) => {
            &&& value is None <==> trim_of(text).len() == 0 || trim_of(text) == "0"@
            &&& value matches Some(size) ==> size_of(text) is Ok && size_of(text)->Ok_0 == size
        },
    }
}

/// A setting is read as its variable says, or has its default where there is no variable. A number
/// that its variable does not hold is an error, and so is one that does not fit.
pub proof fn law_settings_are_read(
    vars: Seq<(Seq<char>, Seq<char>)>,
    key: Seq<char>,
    number: usize,
    truth: bool,
    text: Seq<char>,
)
    ensures
        count_of(vars, key, number) matches Ok(value) ==> is_counted(
            vars,
            key,
            number as int,
            value as int,
        ),
        count_of(vars, key, number) is Err <==> var_of(vars, key) is Some && unsigned_of(
            trim_of(var_of(vars, key)->0),
            usize::MAX as nat,
        ) is Err,
        count_auto_of(vars, key, number) matches Ok(value) ==> is_counted_or_auto(
            vars,
            key,
            number as int,
            value as int,
        ),
        usize_of(vars, key, number) matches Ok(value) ==> is_sized(
            vars,
            key,
            number as int,
            value as int,
        ),
        usize_of(vars, key, number) is Err <==> var_of(vars, key) is Some && size_of(
            var_of(vars, key)->0,
        ) is Err,
        is_switched(vars, key, truth, bool_of(vars, key, truth)),
        is_worded(vars, key, text, string_of_env(vars, key, text)),
        is_worded_or_none(vars, key, optional_string_of(vars, key)),
        optional_u64_of(vars, key) matches Ok(value) ==> is_sized_or_none(vars, key, value),
{
    if let Some(text) = var_of(vars, key) {
        if unsigned_of(trim_of(text), usize::MAX as nat) is Ok {
            crate::number::law_numbers_are_digits(trim_of(text), usize::MAX as nat);
        }
    }
}

/// A percentage is the whole number that its variable holds, or a default, and never more than one
/// hundred.
pub proof fn law_percentages(vars: Seq<(Seq<char>, Seq<char>)>, key: Seq<char>, default: u64)
    requires
        default <= 100,
        percent_of_env(vars, key, default) is Ok,
    ensures
        ({
            let percent = percent_of_env(vars, key, default)->Ok_0;
            &&& percent <= 100
            &&& var_of(vars, key) is None ==> percent == default
            &&& var_of(vars, key) matches Some(text) ==> {
                &&& unsigned_of(trim_of(text), u64::MAX as nat) matches Ok(given)
                &&& given <= 100 ==> percent == given
                &&& given > 100 ==> percent == 100
            }
        }),
{
}

/// A CPU quantity with an `m` behind it is a whole number of thousandths of a core, at least one;
/// without it, it is the number of cores that the value reads as. Blank, or as `auto`, it sets no
/// budget.
pub proof fn law_cpu_quantities(
    vars: Seq<(Seq<char>, Seq<char>)>,
    key: Seq<char>,
    cores: CoreCount,
    value: Seq<char>,
)
    ensures
        var_of(vars, key) is None ==> optional_cpu_of(vars, key, cores) == Ok::<
            Option<u64>,
            Seq<Seq<char>>,
        >(None),
        cpu_millicores_of(value, cores) matches Ok(millicores) ==> {
            let quantity = trim_of(value);
            &&& has_suffix(quantity, "m"@) ==> {
                &&& unsigned_of(trim_of(quantity.drop_last()), u64::MAX as nat) matches Ok(given)
                &&& given >= 1 ==> millicores == given
                &&& given == 0 ==> millicores == 1
            }
            &&& !has_suffix(quantity, "m"@) ==> cores == CoreCount::Millicores(millicores)
        },
        var_of(vars, key) matches Some(text) ==> (optional_cpu_of(vars, key, cores) == Ok::<
            Option<u64>,
            Seq<Seq<char>>,
        >(None) <==> trim_of(text).len() == 0 || ascii_lower_of(trim_of(text)) == "auto"@),
{
    reveal_strlit("m");
    let quantity = trim_of(value);
    if has_suffix(quantity, "m"@) {
        assert(quantity.take(quantity.len() - 1) == quantity.drop_last());
        let digits = trim_of(quantity.drop_last());
        if unsigned_of(digits, u64::MAX as nat) is Ok {
            crate::number::law_numbers_are_digits(digits, u64::MAX as nat);
        }
    }
}

}
