//! The JSON document in which an agent's record is persisted.
//!
//! A record is one JSON object with the members `id`, `name`, `skills`,
//! `config` and `state`, in this order and without insignificant white
//! space. The layout of the object is decided here; each string is turned
//! into a JSON string literal by `serde_json`.

use vstd::prelude::*;
use vstd::string::StringExecFns;
use crate::config::{text_pairs, Entries};
use crate::error::AgentError;

verus! {

/// Makes `serde_json::Error` known as an opaque type: a value of it is
/// carried from the serializer to the place where its message is taken,
/// and nothing is known of what it holds.
#[verifier::external_type_specification]
#[verifier::external_body]
pub struct ExJsonError(serde_json::Error);

/// The lower-case hexadecimal digit of `n`, for `n` below sixteen.
pub open spec fn hex_digit(n: nat) -> char {
    seq!['0', '1', '2', '3', '4', '5', '6', '7', '8', '9', 'a', 'b', 'c', 'd', 'e', 'f'][n as int]
}

/// What stands for the character `c` inside a JSON string literal.
///
/// The double quote and the backslash get a backslash in front. Backspace,
/// tab, line feed, form feed and carriage return become `\b`, `\t`, `\n`,
/// `\f` and `\r`. Every other character below U+0020 becomes `\u00` and
/// its two hexadecimal digits. All other characters stand for themselves.
pub open spec fn escaped_char(c: char) -> Seq<char> {
    if c == '"' {
        seq!['\\', '"']
    } else if c == '\\' {
        seq!['\\', '\\']
    } else if c == '\u{8}' {
        seq!['\\', 'b']
    } else if c == '\t' {
        seq!['\\', 't']
    } else if c == '\n' {
        seq!['\\', 'n']
    } else if c == '\u{c}' {
        seq!['\\', 'f']
    } else if c == '\r' {
        seq!['\\', 'r']
    } else if (c as u32) < 0x20 {
        seq![
            '\\',
            'u',
            '0',
            '0',
            hex_digit((c as u32 / 16) as nat),
            hex_digit((c as u32 % 16) as nat),
        ]
    } else {
        seq![c]
    }
}

/// The characters of `text`, each as it stands inside a JSON string
/// literal.
pub open spec fn escaped_text(text: Seq<char>) -> Seq<char>
    decreases text.len(),
{
    if text.len() == 0 {
        Seq::empty()
    } else {
        escaped_text(text.drop_last()) + escaped_char(text.last())
    }
}

/// The JSON string literal of `text`: a double quote, the characters of
/// `text` as `escaped_char` gives them, a double quote.
pub open spec fn json_string_literal(text: Seq<char>) -> Seq<char> {
    seq!['"'] + escaped_text(text) + seq!['"']
}

/// Whether `c` stands for itself inside a JSON string literal.
pub open spec fn is_plain(c: char) -> bool {
    c != '"' && c != '\\' && (c as u32) >= 0x20
}

/// A text without a quote, a backslash or a character below U+0020 is
/// written between the quotes as it is.
pub proof fn law_plain_text_is_quoted_unchanged(text: Seq<char>)
    requires
        forall|i: int| 0 <= i < text.len() ==> is_plain(#[trigger] text[i]),
    ensures
        escaped_text(text) == text,
        json_string_literal(text) == seq!['"'] + text + seq!['"'],
    decreases text.len(),
{
    if text.len() > 0 {
        law_plain_text_is_quoted_unchanged(text.drop_last());
        assert(is_plain(text.last()));
        assert(text.drop_last() + seq![text.last()] =~= text);
    }
}

/// Calls `serde_json::to_string` on a string slice.
///
/// Trusted: the call succeeds, and its result is the JSON string literal of
/// `text`. The serializer writes into a vector of bytes, which takes every
/// write, and a string slice is written as a quote, its characters with
/// the escapes of `escaped_char`, and a quote.
#[verifier::external_body]
fn to_json_string(text: &str) -> (r: Result<String, serde_json::Error>)
    ensures
        r is Ok,
        r matches Ok(literal) ==> literal@ == json_string_literal(text@),
{
    serde_json::to_string(text)
}

/// Renders `text` as a JSON string literal.
///
/// The result is always `Ok`; its type is that of the operations that
/// build on it.
pub fn string_literal(text: &str) -> (r: Result<String, AgentError>)
    ensures
        r matches Ok(literal) && literal@ == json_string_literal(text@),
{
    match to_json_string(text) {
        Ok(literal) => Ok(literal),
        Err(error) => Err(AgentError::PersistenceError(error.to_string())),
    }
}

/// The texts of `parts` with a comma between each two neighbours.
pub open spec fn comma_joined(parts: Seq<Seq<char>>) -> Seq<char>
    decreases parts.len(),
{
    if parts.len() == 0 {
        Seq::empty()
    } else if parts.len() == 1 {
        parts[0]
    } else {
        comma_joined(parts.drop_last()) + ","@ + parts.last()
    }
}

/// One member of a JSON object: the key, a colon, the value.
pub open spec fn member_text(key: Seq<char>, value: Seq<char>) -> Seq<char> {
    key + ":"@ + value
}

/// The text of a record whose strings are given as JSON literals.
pub open spec fn record_text(
    id: Seq<char>,
    name: Seq<char>,
    skills: Seq<Seq<char>>,
    config: Entries,
    state: Seq<char>,
) -> Seq<char> {
    "{\"id\":"@ + id + ",\"name\":"@ + name + ",\"skills\":["@ + comma_joined(skills)
        + "],\"config\":{"@ + comma_joined(
        config.map_values(|entry: (Seq<char>, Seq<char>)| member_text(entry.0, entry.1)),
    ) + "},\"state\":"@ + state + "}"@
}

/// The views of a vector of strings.
pub open spec fn texts(parts: Seq<String>) -> Seq<Seq<char>> {
    parts.map_values(|part: String| part@)
}

/// Joins `parts` with commas.
pub fn join_with_commas(parts: &Vec<String>) -> (text: String)
    ensures
        text@ == comma_joined(texts(parts@)),
{
    let mut text = String::new();
    let mut i: usize = 0;
    while i < parts.len()
        invariant
            i <= parts.len(),
            text@ == comma_joined(texts(parts@).take(i as int)),
        decreases parts.len() - i,
    {
        proof {
            let next = texts(parts@).take(i + 1);
            assert(next.drop_last() =~= texts(parts@).take(i as int));
            assert(next.last() == parts[i as int]@);
        }
        if i > 0 {
            text.append(",");
        }
        text.append(parts[i].as_str());
        i += 1;
    }
    assert(texts(parts@).take(i as int) =~= texts(parts@));
    text
}

/// Lays out a record as a JSON object.
///
/// Every argument is taken as it is to be written: `id`, `name`, `state`,
/// each skill, and each key and value of `config` are JSON literals already.
pub fn frame_record(
    id: &str,
    name: &str,
    skills: &Vec<String>,
    config: &Vec<(String, String)>,
    state: &str,
) -> (text: String)
    ensures
        text@ == record_text(id@, name@, texts(skills@), text_pairs(config@), state@),
{
    let mut members: Vec<String> = Vec::new();
    let mut i: usize = 0;
    while i < config.len()
        invariant
            i <= config.len(),
            members.len() == i,
            forall|j: int|
                0 <= j < i ==> (#[trigger] members[j])@ == member_text(config[j].0@, config[j].1@),
        decreases config.len() - i,
    {
        let mut member = config[i].0.clone();
        member.append(":");
        member.append(config[i].1.as_str());
        members.push(member);
        i += 1;
    }
    assert(texts(members@) =~= text_pairs(config@).map_values(
        |entry: (Seq<char>, Seq<char>)| member_text(entry.0, entry.1),
    ));
    let mut text = "{\"id\":".to_owned();
    text.append(id);
    text.append(",\"name\":");
    text.append(name);
    text.append(",\"skills\":[");
    text.append(join_with_commas(skills).as_str());
    text.append("],\"config\":{");
    text.append(join_with_commas(&members).as_str());
    text.append("},\"state\":");
    text.append(state);
    text.append("}");
    text
}

} // verus!
