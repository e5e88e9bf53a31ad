//! Configuration values as the process environment gives them: lookup by
//! name, and lists written as comma-separated text.

use vstd::prelude::*;
use vstd::string::StrSliceExecFns;
use crate::reader::texts;

verus! {

/// Why a variable of the environment has no usable value.
#[derive(Clone, Copy, Debug, PartialEq, Eq, Structural)]
pub enum VarError {
    /// The variable is not set.
    NotPresent,
    /// The variable is set to something that is not Unicode text.
    NotUnicode,
}

/// Why a configuration value could not be had.
#[derive(Clone, Debug, PartialEq, Eq)]
pub enum EnvError {
    /// The variable of this name has no usable value.
    EnvVar(VarError, String),
    /// The list of audiences holds no value.
    MissingAudience(String),
}

/// The name of the variable that lists the audiences of the bearer token.
pub open spec fn audience_key() -> Seq<char> {
    "AUTH_AUDIENCE"@
}

/// What the agent says when the list of audiences holds no value.
pub open spec fn missing_audience_message() -> Seq<char> {
    "No audience values found in AUTH_AUDIENCE"@
}

/// What `str::trim` leaves of a text.
pub uninterp spec fn trimmed(text: Seq<char>) -> Seq<char>;

/// What `str::to_lowercase` makes of a text.
pub uninterp spec fn lowercased(text: Seq<char>) -> Seq<char>;

/// Calls `str::trim`. Trusted: the result is the standard library's, known
/// to the proofs only under the name `trimmed`.
#[verifier::external_body]
fn trim(text: &str) -> (result: String)
    ensures
        result@ == trimmed(text@),
{
    text.trim().to_string()
}

/// Calls `str::to_lowercase`. Trusted: the result is the standard
/// library's, known to the proofs only under the name `lowercased`.
#[verifier::external_body]
fn to_lowercase(text: &str) -> (result: String)
    ensures
        result@ == lowercased(text@),
{
    text.to_lowercase()
}

/// One variable of the environment: its name, and its value where that is
/// Unicode text.
pub struct EnvEntry {
    pub key: String,
    pub value: Option<String>,
}

/// A snapshot of the process environment. Where a name occurs more than
/// once, the first entry counts.
pub struct Environment {
    pub entries: Vec<EnvEntry>,
}

/// What a list of entries holds under `key`: nothing, or the first entry of
/// that name.
pub open spec fn lookup(entries: Seq<EnvEntry>, key: Seq<char>) -> Option<EnvEntry>
    decreases entries.len(),
{
    if entries.len() == 0 {
        None
    } else if entries[0].key@ == key {
        Some(entries[0])
    } else {
        lookup(entries.drop_first(), key)
    }
}

/// The value that an environment gives for `key`, or why it gives none.
pub open spec fn var(entries: Seq<EnvEntry>, key: Seq<char>) -> Result<Seq<char>, VarError> {
    match lookup(entries, key) {
        None => Err(VarError::NotPresent),
        Some(entry) => match entry.value {
            None => Err(VarError::NotUnicode),
            Some(value) => Ok(value@),
        },
    }
}

/// The index of the first comma at or after `from`; the length of the text
/// where none follows.
pub open spec fn field_end(text: Seq<char>, from: int) -> int
    decreases text.len() - from,
{
    if from >= text.len() {
        text.len() as int
    } else if text[from] == ',' {
        from
    } else {
        field_end(text, from + 1)
    }
}

/// The fields that commas separate in the text from `from` on. A text
/// without a comma is one field, and so is the empty text.
pub open spec fn fields(text: Seq<char>, from: int) -> Seq<Seq<char>>
    decreases text.len() - from,
{
    if from < 0 || from > text.len() {
        Seq::empty()
    } else {
        proof {
            lemma_field_end_bounds(text, from);
        }
        let end = field_end(text, from);
        if end >= text.len() {
            seq![text.subrange(from, text.len() as int)]
        } else {
            seq![text.subrange(from, end)] + fields(text, end + 1)
        }
    }
}

/// A field ends at or after its start, within the text.
pub proof fn lemma_field_end_bounds(text: Seq<char>, from: int)
    requires
        0 <= from <= text.len(),
    ensures
        from <= field_end(text, from) <= text.len(),
    decreases text.len() - from,
{
    if from < text.len() && text[from] != ',' {
        lemma_field_end_bounds(text, from + 1);
    }
}

/// A field as it enters a list: without white space around it, in lower
/// case.
pub open spec fn normalized(field: Seq<char>) -> Seq<char> {
    lowercased(trimmed(field))
}

/// The values of a comma-separated list: its fields, normalized, without
/// those that are empty then.
pub open spec fn list_values(text: Seq<char>) -> Seq<Seq<char>> {
    fields(text, 0).map_values(|field: Seq<char>| normalized(field)).filter(
        |value: Seq<char>| value.len() > 0,
    )
}

/// The fields that commas separate in `text`.
fn split_commas(text: &str) -> (parts: Vec<String>)
    ensures
        texts(parts@) == fields(text@, 0),
{
    let n = text.unicode_len();
    let mut parts: Vec<String> = Vec::new();
    let mut start: usize = 0;
    let mut i: usize = 0;
    assert(texts(parts@) == Seq::<Seq<char>>::empty());
    while i < n
        invariant
            n == text@.len(),
            start <= i <= n,
            field_end(text@, i as int) == field_end(text@, start as int),
            texts(parts@) + fields(text@, start as int) == fields(text@, 0),
        decreases n - i,
    {
        if text.get_char(i) == ',' {
            let field = text.substring_char(start, i).to_owned();
            let ghost earlier = parts@;
            parts.push(field);
            assert(texts(parts@) == texts(earlier).push(text@.subrange(start as int, i as int)));
            start = i + 1;
        }
        i += 1;
    }
    let field = text.substring_char(start, n).to_owned();
    let ghost earlier = parts@;
    parts.push(field);
    assert(texts(parts@) == texts(earlier).push(text@.subrange(start as int, n as int)));
    parts
}

/// The value of the variable `key`. A variable that is not set, or not set
/// to Unicode text, gives an error that names it.
pub fn get_env_var(env: &Environment, key: &str) -> (value: Result<String, EnvError>)
    ensures
        match value {
            Ok(v) => var(env.entries@, key@) == Ok::<Seq<char>, VarError>(v@),
            Err(EnvError::EnvVar(why, name)) => var(env.entries@, key@) == Err::<
                Seq<char>,
                VarError,
            >(why) && name@ == key@,
            Err(_) => false,
        },
{
    let wanted = key.to_owned();
    let mut i: usize = 0;
    assert(env.entries@.subrange(0, env.entries.len() as int) == env.entries@);
    while i < env.entries.len()
        invariant
            i <= env.entries.len(),
            wanted@ == key@,
            lookup(env.entries@, key@) == lookup(env.entries@.subrange(i as int, env.entries.len() as int), key@),
        decreases env.entries.len() - i,
    {
        let ghost rest = env.entries@.subrange(i as int, env.entries.len() as int);
        assert(rest[0] == env.entries[i as int]);
        assert(rest.drop_first() == env.entries@.subrange(i + 1, env.entries.len() as int));
        if env.entries[i].key == wanted {
            return match &env.entries[i].value {
                Some(v) => Ok(v.clone()),
                None => Err(EnvError::EnvVar(VarError::NotUnicode, wanted)),
            };
        }
        i += 1;
    }
    Err(EnvError::EnvVar(VarError::NotPresent, wanted))
}

/// The values of the comma-separated list that the variable `key` holds:
/// each field without white space around it and in lower case, empty fields
/// left out. A list without a value is `None`.
pub fn get_env_var_as_vec(env: &Environment, key: &str) -> (values: Result<
    Option<Vec<String>>,
    EnvError,
>)
    ensures
        match values {
            Ok(Some(list)) => {
                &&& var(env.entries@, key@) matches Ok(text)
                &&& texts(list@) == list_values(text)
                &&& list@.len() > 0
            },
            Ok(None) => {
                &&& var(env.entries@, key@) matches Ok(text)
                &&& list_values(text).len() == 0
            },
            Err(EnvError::EnvVar(why, name)) => var(env.entries@, key@) == Err::<
                Seq<char>,
                VarError,
            >(why) && name@ == key@,
            Err(_) => false,
        },
{
    let text = match get_env_var(env, key) {
        Ok(text) => text,
        Err(e) => {
            return Err(e);
        },
    };
    let parts = split_commas(text.as_str());
    let mut list: Vec<String> = Vec::new();
    let ghost normalize = |field: Seq<char>| normalized(field);
    let ghost keep = |value: Seq<char>| value.len() > 0;
    let mut i: usize = 0;
    proof {
        reveal(Seq::filter);
    }
    assert(texts(parts@).subrange(0, 0).map_values(normalize).filter(keep) == Seq::<
        Seq<char>,
    >::empty());
    assert(texts(list@) == Seq::<Seq<char>>::empty());
    while i < parts.len()
        invariant
            i <= parts.len(),
            normalize == |field: Seq<char>| normalized(field),
            keep == |value: Seq<char>| value.len() > 0,
            texts(list@) == texts(parts@).subrange(0, i as int).map_values(normalize).filter(keep),
        decreases parts.len() - i,
    {
        let ghost seen = texts(parts@).subrange(0, i as int);
        let ghost now = texts(parts@).subrange(0, i + 1);
        assert(now.drop_last() == seen);
        assert(now.map_values(normalize).drop_last() == seen.map_values(normalize));
        let trimmed_field = trim(parts[i].as_str());
        let value = to_lowercase(trimmed_field.as_str());
        assert(value@ == now.map_values(normalize).last());
        proof {
            reveal(Seq::filter);
        }
        if !value.as_str().is_empty() {
            let ghost earlier = list@;
            list.push(value);
            assert(texts(list@) == texts(earlier).push(value@));
        }
        i += 1;
    }
    assert(texts(parts@).subrange(0, parts.len() as int) == texts(parts@));
    if list.len() == 0 {
        Ok(None)
    } else {
        Ok(Some(list))
    }
}

/// The audiences for which the bearer token is asked. The list must hold at
/// least one value.
pub fn get_env_audience(env: &Environment) -> (audience: Result<Vec<String>, EnvError>)
    ensures
        match audience {
            Ok(list) => {
                &&& var(env.entries@, audience_key()) matches Ok(text)
                &&& texts(list@) == list_values(text)
                &&& list@.len() > 0
            },
            Err(EnvError::EnvVar(why, name)) => var(env.entries@, audience_key()) == Err::<
                Seq<char>,
                VarError,
            >(why) && name@ == audience_key(),
            Err(EnvError::MissingAudience(message)) => {
                &&& var(env.entries@, audience_key()) matches Ok(text)
                &&& list_values(text).len() == 0
                &&& message@ == missing_audience_message()
            },
        },
{
    match get_env_var_as_vec(env, "AUTH_AUDIENCE") {
        Ok(Some(list)) => Ok(list),
        Ok(None) => Err(
            EnvError::MissingAudience("No audience values found in AUTH_AUDIENCE".to_owned()),
        ),
        Err(e) => Err(e),
    }
}

} // verus!
