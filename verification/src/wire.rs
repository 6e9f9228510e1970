//! The text of the protocol messages on the wire: each message is a JSON
//! object written on one line, its string fields encoded by serde_json.

use vstd::prelude::*;

verus! {

/// serde_json's error type.
#[verifier::external_type_specification]
#[verifier::external_body]
pub struct ExJsonError(serde_json::Error);

/// The lowercase hexadecimal digit for `n`, below 16.
pub open spec fn hex_digit(n: int) -> char {
    if n < 10 {
        (48 + n) as char
    } else {
        (87 + n) as char
    }
}

/// How serde_json writes the character `c` inside a JSON string: a quote and
/// a backslash behind a backslash; backspace, tab, newline, form feed and
/// carriage return as `\b`, `\t`, `\n`, `\f`, `\r`; the other control
/// characters below U+0020 as `\u00` and two lowercase hex digits; every
/// other character as itself.
pub open spec fn escaped_char(c: char) -> Seq<char> {
    let v = c as u32;
    if c == '"' {
        seq!['\\', '"']
    } else if c == '\\' {
        seq!['\\', '\\']
    } else if v == 0x08 {
        seq!['\\', 'b']
    } else if v == 0x09 {
        seq!['\\', 't']
    } else if v == 0x0A {
        seq!['\\', 'n']
    } else if v == 0x0C {
        seq!['\\', 'f']
    } else if v == 0x0D {
        seq!['\\', 'r']
    } else if v < 0x20 {
        seq!['\\', 'u', '0', '0', hex_digit(v as int / 16), hex_digit(v as int % 16)]
    } else {
        seq![c]
    }
}

/// The characters of `s`, each escaped as in a JSON string.
pub open spec fn json_escaped(s: Seq<char>) -> Seq<char>
    decreases s.len(),
{
    if s.len() == 0 {
        Seq::empty()
    } else {
        json_escaped(s.drop_last()) + escaped_char(s.last())
    }
}

/// The JSON string literal that serde_json writes for `text`: the escaped
/// text in double quotes.
pub open spec fn json_string_literal(text: Seq<char>) -> Seq<char> {
    seq!['"'] + json_escaped(text) + seq!['"']
}

/// Encodes `text` as a JSON string literal.
///
/// Trusted: calls `serde_json::to_string` on the string. Its documentation
/// says serialization fails only when the value's `Serialize` impl decides
/// to fail or a map has non-string keys; a `str` serializes through
/// `serialize_str`, which writes the quoted, escaped text into a `Vec<u8>`,
/// so the call succeeds. Its result is the quoted text with each character
/// escaped by the table `ESCAPE` and `write_char_escape` of `ser.rs`, as
/// `escaped_char` states it.
#[verifier::external_body]
fn quote_json(text: &str) -> (r: Result<String, serde_json::Error>)
    ensures
        r is Ok,
        r matches Ok(q) ==> q@ == json_string_literal(text@),
{
    serde_json::to_string(text)
}

/// The encoder could not write a message.
#[derive(Clone, Copy, Debug, PartialEq, Eq, Structural)]
pub enum WireError {
    Encode,
    Decode,
}

/// The line of a request whose prompt is encoded as `quoted_prompt`.
pub open spec fn request_text(quoted_prompt: Seq<char>) -> Seq<char> {
    "{\"prompt\":"@ + quoted_prompt + "}"@
}

/// The line of a whole reply whose text is encoded as `quoted_response`.
pub open spec fn response_text(quoted_response: Seq<char>) -> Seq<char> {
    "{\"response\":"@ + quoted_response + "}"@
}

/// The line of a reply chunk whose content is encoded as `quoted_content`.
pub open spec fn chunk_text(quoted_content: Seq<char>, done: bool) -> Seq<char> {
    "{\"content\":"@ + quoted_content + (if done {
        ",\"done\":true}"@
    } else {
        ",\"done\":false}"@
    })
}

/// The request object around a prompt already encoded as a JSON string.
pub fn request_from_quoted(quoted_prompt: &str) -> (r: String)
    ensures
        r@ == request_text(quoted_prompt@),
{
    let mut r = "{\"prompt\":".to_owned();
    r.append(quoted_prompt);
    r.append("}");
    r
}

/// The reply object around a text already encoded as a JSON string.
pub fn response_from_quoted(quoted_response: &str) -> (r: String)
    ensures
        r@ == response_text(quoted_response@),
{
    let mut r = "{\"response\":".to_owned();
    r.append(quoted_response);
    r.append("}");
    r
}

/// The chunk object around a content already encoded as a JSON string.
pub fn chunk_from_quoted(quoted_content: &str, done: bool) -> (r: String)
    ensures
        r@ == chunk_text(quoted_content@, done),
{
    let mut r = "{\"content\":".to_owned();
    r.append(quoted_content);
    if done {
        r.append(",\"done\":true}");
    } else {
        r.append(",\"done\":false}");
    }
    r
}

/// The JSON text of a request carrying `prompt`.
pub fn encode_request(prompt: &str) -> (r: Result<String, WireError>)
    ensures
        r matches Ok(line) && line@ == request_text(json_string_literal(prompt@)),
{
    match quote_json(prompt) {
        Ok(q) => Ok(request_from_quoted(q.as_str())),
        Err(_) => Err(WireError::Encode),
    }
}

/// The JSON text of a whole reply carrying `response`.
pub fn encode_response(response: &str) -> (r: Result<String, WireError>)
    ensures
        r matches Ok(line) && line@ == response_text(json_string_literal(response@)),
{
    match quote_json(response) {
        Ok(q) => Ok(response_from_quoted(q.as_str())),
        Err(_) => Err(WireError::Encode),
    }
}

/// The JSON text of a reply chunk with `content`, marked `done` when it ends
/// the reply.
pub fn encode_chunk(content: &str, done: bool) -> (r: Result<String, WireError>)
    ensures
        r matches Ok(line) && line@ == chunk_text(json_string_literal(content@), done),
{
    match quote_json(content) {
        Ok(q) => Ok(chunk_from_quoted(q.as_str(), done)),
        Err(_) => Err(WireError::Encode),
    }
}

/// What a reply line holds under its `response` key: `None` when the line is
/// not JSON, `Some(None)` when the key is missing or its value is not a
/// string, and `Some(Some(text))` when it is the string `text`.
pub uninterp spec fn json_response_field(line: Seq<char>) -> Option<Option<Seq<char>>>;

/// Reads the `response` string of a JSON reply line.
///
/// Trusted: parses `line` with `serde_json::from_str` into a
/// `serde_json::Value`, then takes `value["response"].as_str()` (indexing a
/// value by a missing key, or a non-object, gives `Null`, and `as_str` gives
/// `None` for anything but a string). The outcome is named; it depends on the
/// line alone.
#[verifier::external_body]
fn parse_response_field(line: &str) -> (r: Result<Option<String>, serde_json::Error>)
    ensures
        match r {
            Ok(f) => json_response_field(line@) == Some(
                match f {
                    Some(s) => Some(s@),
                    None => None,
                },
            ),
            Err(_) => json_response_field(line@) is None,
        },
{
    match serde_json::from_str::<serde_json::Value>(line) {
        Ok(v) => Ok(v["response"].as_str().map(|s| s.to_string())),
        Err(e) => Err(e),
    }
}

/// The text of a whole reply line: its `response` string, or an empty text
/// when it has none; an error when the line is not JSON.
pub fn decode_response(line: &str) -> (r: Result<String, WireError>)
    ensures
        match r {
            Ok(t) => json_response_field(line@) matches Some(f) && t@ == (match f {
                Some(s) => s,
                None => Seq::<char>::empty(),
            }),
            Err(e) => e == WireError::Decode && json_response_field(line@) is None,
        },
{
    match parse_response_field(line) {
        Ok(Some(text)) => Ok(text),
        Ok(None) => Ok(String::new()),
        Err(_) => Err(WireError::Decode),
    }
}

/// No escaped character holds a newline.
proof fn lemma_escaped_char_has_no_newline(c: char)
    ensures
        !escaped_char(c).contains('\n'),
{
    let e = escaped_char(c);
    let v = c as u32;
    if v < 0x20 && c != '"' && c != '\\' && v != 0x08 && v != 0x09 && v != 0x0A && v != 0x0C
        && v != 0x0D {
        assert(hex_digit(v as int / 16) != '\n');
        assert(hex_digit(v as int % 16) != '\n');
    }
    if e.contains('\n') {
        let i = choose|i: int| 0 <= i < e.len() && e[i] == '\n';
        assert(e[i] == '\n');
    }
}

/// A JSON string literal written by serde_json holds no newline: newlines
/// in the text are escaped.
pub proof fn lemma_string_literal_has_no_newline(text: Seq<char>)
    ensures
        !json_string_literal(text).contains('\n'),
{
    lemma_escaped_has_no_newline(text);
    let l = json_string_literal(text);
    if l.contains('\n') {
        let i = choose|i: int| 0 <= i < l.len() && l[i] == '\n';
        if 0 < i < l.len() - 1 {
            assert(json_escaped(text)[i - 1] == '\n');
        }
    }
}

proof fn lemma_escaped_has_no_newline(text: Seq<char>)
    ensures
        !json_escaped(text).contains('\n'),
    decreases text.len(),
{
    if text.len() > 0 {
        lemma_escaped_has_no_newline(text.drop_last());
        lemma_escaped_char_has_no_newline(text.last());
        let a = json_escaped(text.drop_last());
        let b = escaped_char(text.last());
        if (a + b).contains('\n') {
            let i = choose|i: int| 0 <= i < (a + b).len() && (a + b)[i] == '\n';
            if i < a.len() {
                assert(a[i] == '\n');
            } else {
                assert(b[i - a.len()] == '\n');
            }
        }
    }
}

/// The JSON text of a request holds no newline, so written with one newline
/// after it the request takes exactly one line, whatever its prompt holds.
pub proof fn lemma_request_is_one_line(prompt: Seq<char>)
    ensures
        !request_text(json_string_literal(prompt)).contains('\n'),
        (request_text(json_string_literal(prompt)) + "\n"@).last() == '\n',
{
    reveal_strlit("{\"prompt\":");
    reveal_strlit("}");
    reveal_strlit("\n");
    lemma_string_literal_has_no_newline(prompt);
    let q = json_string_literal(prompt);
    let t = request_text(q);
    let head = "{\"prompt\":"@;
    if t.contains('\n') {
        let i = choose|i: int| 0 <= i < t.len() && t[i] == '\n';
        if i < head.len() {
            assert(t[i] == head[i]);
        } else if i < head.len() + q.len() {
            assert(t[i] == q[i - head.len()]);
        } else {
            assert(t[i] == '}');
        }
    }
}

} // verus!
