use vstd::prelude::*;

use crate::rss::{trim_chars, trimmed};
use crate::text::{chars_of, decimal, push_decimal, same_text, starts_with, string_from_range};

verus! {

/// The commands that the browser host answers on its standard input.
#[derive(Debug, Clone, Copy, PartialEq, Eq, Structural)]
pub enum Method {
    Open,
    Navigate,
    Eval,
    Query,
    Close,
    Shutdown,
}

/// The command a method name stands for, or the error message for an unknown one.
pub open spec fn method_of(name: Seq<char>) -> Result<Method, Seq<char>> {
    if name == "open"@ {
        Ok(Method::Open)
    } else if name == "navigate"@ {
        Ok(Method::Navigate)
    } else if name == "eval"@ {
        Ok(Method::Eval)
    } else if name == "query"@ {
        Ok(Method::Query)
    } else if name == "close"@ {
        Ok(Method::Close)
    } else if name == "shutdown"@ {
        Ok(Method::Shutdown)
    } else {
        Err("unknown method: "@ + name)
    }
}

/// The view of a result whose error is a text.
pub open spec fn text_result_view<T>(r: Result<T, String>) -> Result<T, Seq<char>> {
    match r {
        Ok(v) => Ok(v),
        Err(e) => Err(e@),
    }
}

/// The command that `method` names; `unknown method: <name>` where it names none.
pub fn parse_method(method: &str) -> (r: Result<Method, String>)
    ensures
        text_result_view(r) == method_of(method@),
{
    if same_text(method, "open") {
        Ok(Method::Open)
    } else if same_text(method, "navigate") {
        Ok(Method::Navigate)
    } else if same_text(method, "eval") {
        Ok(Method::Eval)
    } else if same_text(method, "query") {
        Ok(Method::Query)
    } else if same_text(method, "close") {
        Ok(Method::Close)
    } else if same_text(method, "shutdown") {
        Ok(Method::Shutdown)
    } else {
        let mut message = String::from_str("unknown method: ");
        message.append(method);
        Err(message)
    }
}

/// The message for a text parameter that is missing.
pub open spec fn missing_text_param(name: Seq<char>) -> Seq<char> {
    "missing '"@ + name + "' string param"@
}

/// The text parameter `name`, where the request holds it as a string.
pub fn require_text_param(value: Option<&str>, name: &str) -> (r: Result<String, String>)
    ensures
        match value {
            Some(v) => r is Ok && r->Ok_0@ == v@,
            None => r is Err && r->Err_0@ == missing_text_param(name@),
        },
{
    match value {
        Some(v) => Ok(String::from_str(v)),
        None => {
            let mut message = String::from_str("missing '");
            message.append(name);
            message.append("' string param");
            Err(message)
        },
    }
}

/// The browser identifier of a request, where it holds one as an unsigned number; only its low
/// 32 bits are kept.
pub fn require_browser_id(value: Option<u64>) -> (r: Result<u32, String>)
    ensures
        match value {
            Some(v) => r == Ok::<u32, String>((v % 0x1_0000_0000) as u32),
            None => r is Err && r->Err_0@ == "missing 'browser_id'"@,
        },
{
    match value {
        Some(v) => {
            let low = v % 0x1_0000_0000;
            Ok(low as u32)
        },
        None => Err(String::from_str("missing 'browser_id'")),
    }
}

/// The message for a browser identifier that names no browser.
pub open spec fn no_browser_message(browser_id: u32) -> Seq<char> {
    "no browser with id "@ + decimal(browser_id as nat)
}

pub fn no_browser_error(browser_id: u32) -> (r: String)
    ensures
        r@ == no_browser_message(browser_id),
{
    let mut message = String::from_str("no browser with id ");
    push_decimal(&mut message, browser_id as u64);
    message
}

/// The lower-case hexadecimal digit for `n`, which is below 16.
pub open spec fn hex_digit(n: int) -> char {
    "0123456789abcdef"@[n]
}

/// What a character becomes inside a JSON string literal as `serde_json` writes it: `"` and
/// `\` get a backslash; backspace, tab, line feed, form feed and carriage return get their
/// short forms; the other characters below U+0020 become `\u00` and two lower-case hexadecimal
/// digits; every other character stands for itself.
pub open spec fn json_escape_char(c: char) -> Seq<char> {
    if c == '"' {
        seq!['\\', '"']
    } else if c == '\\' {
        seq!['\\', '\\']
    } else if c == '\u{8}' {
        seq!['\\', 'b']
    } else if c == '\t' {
        seq!['\\', 't']
    } else if c == '\n' {
        seq!['\\', 'n']
    } else if c == '\u{c}' {
        seq!['\\', 'f']
    } else if c == '\r' {
        seq!['\\', 'r']
    } else if (c as int) < 0x20 {
        seq!['\\', 'u', '0', '0', hex_digit((c as int) / 16), hex_digit((c as int) % 16)]
    } else {
        seq![c]
    }
}

/// The characters of a text, each escaped for a JSON string literal.
pub open spec fn json_escaped(text: Seq<char>) -> Seq<char>
    decreases text.len(),
{
    if text.len() == 0 {
        Seq::empty()
    } else {
        json_escaped(text.drop_last()) + json_escape_char(text.last())
    }
}

/// The JSON string literal that `serde_json` writes for a text: the escaped text in double
/// quotes.
pub open spec fn json_string_literal(text: Seq<char>) -> Seq<char> {
    seq!['"'] + json_escaped(text) + seq!['"']
}

/// Calls `serde_json::to_string` on a text. Claimed: the result is the text as a JSON string
/// literal, quoted, with `"`, `\` and the characters below U+0020 escaped as
/// `format_escaped_str` in `serde_json`'s serializer does. Writing a `str` into memory cannot
/// fail, so the error arm is never taken.
#[verifier::external_body]
fn json_string(text: &str) -> (r: String)
    ensures
        r@ == json_string_literal(text@),
{
    match serde_json::to_string(text) {
        Ok(json) => json,
        Err(_) => String::new(),
    }
}

/// The script that runs `code` in the page and reports its outcome under `tag_json` through a
/// console line starting with `CEFHOST::`.
pub open spec fn query_script_text(code: Seq<char>, tag_json: Seq<char>) -> Seq<char> {
    "(async () => { try { const r = await (async () => { "@ + code
        + " })(); console.log('CEFHOST::' + JSON.stringify({ tag: "@ + tag_json
        + ", ok: r === undefined ? null : r })); } catch (e) { console.log('CEFHOST::' + JSON.stringify({ tag: "@
        + tag_json + ", err: String(e && e.message || e) })); } })();"@
}

/// The query script for `code`, with the tag already written as a JSON string literal.
pub fn query_script_with_tag_json(code: &str, tag_json: &str) -> (r: String)
    ensures
        r@ == query_script_text(code@, tag_json@),
{
    let mut script = String::from_str("(async () => { try { const r = await (async () => { ");
    script.append(code);
    script.append(" })(); console.log('CEFHOST::' + JSON.stringify({ tag: ");
    script.append(tag_json);
    script.append(
        ", ok: r === undefined ? null : r })); } catch (e) { console.log('CEFHOST::' + JSON.stringify({ tag: ",
    );
    script.append(tag_json);
    script.append(", err: String(e && e.message || e) })); } })();");
    script
}

/// The query script for `code` and `tag`.
pub fn query_script(code: &str, tag: &str) -> (r: String)
    ensures
        r@ == query_script_text(code@, json_string_literal(tag@)),
{
    let tag_json = json_string(tag);
    query_script_with_tag_json(code, tag_json.as_str())
}

/// What a console line carries for the host: the text after a leading `CEFHOST::`, if the line
/// has that prefix.
pub open spec fn host_payload(text: Seq<char>) -> Option<Seq<char>> {
    if starts_with(text, "CEFHOST::"@) {
        Some(text.subrange("CEFHOST::"@.len() as int, text.len() as int))
    } else {
        None
    }
}

/// The payload of a console line meant for the host.
pub fn strip_host_prefix(text: &str) -> (r: Option<String>)
    ensures
        r.deep_view() == host_payload(text@),
{
    if crate::text::text_starts_with(text, "CEFHOST::") {
        let chars = chars_of(text);
        let prefix = chars_of("CEFHOST::");
        Some(string_from_range(&chars, prefix.len(), chars.len()))
    } else {
        None
    }
}

/// A line of the line-delimited JSON channel: trimmed, and skipped where nothing is left.
pub open spec fn message_line(line: Seq<char>) -> Option<Seq<char>> {
    let t = trimmed(line);
    if t.len() == 0 {
        None
    } else {
        Some(t)
    }
}

/// The trimmed text of a line, or `None` for a blank line, which carries no message.
pub fn trimmed_line(line: &str) -> (r: Option<String>)
    ensures
        r.deep_view() == message_line(line@),
{
    let chars = chars_of(line);
    let t = trim_chars(&chars);
    if t.len() == 0 {
        None
    } else {
        Some(string_from_range(&t, 0, t.len()))
    }
}

/// What the application does with a message from the browser host.
#[derive(Debug, PartialEq, Eq)]
pub enum SidecarRoute {
    /// Settle the pending call with this identifier: with the error where there is one,
    /// otherwise with the message's result.
    Reply { id: u64, error: Option<String> },
    /// Forward the message's parameters to the front end as this event.
    Event { name: String },
    /// Nothing to do.
    Ignore,
}

/// The name of the front-end event for a notification method.
pub open spec fn event_name(method: Seq<char>) -> Seq<char> {
    "cef://"@ + method
}

/// Routes a message by its fields: one with a numeric `id` answers a call; otherwise one with
/// a `method` is a notification; anything else is dropped.
pub fn route_message(id: Option<u64>, error: Option<&str>, method: Option<&str>) -> (r:
    SidecarRoute)
    ensures
        match id {
            Some(i) => match r {
                SidecarRoute::Reply { id: rid, error: e } => rid == i && e.deep_view()
                    == error.deep_view(),
                _ => false,
            },
            None => match method {
                Some(m) => match r {
                    SidecarRoute::Event { name } => name@ == event_name(m@),
                    _ => false,
                },
                None => r == SidecarRoute::Ignore,
            },
        },
{
    match id {
        Some(i) => {
            let e = match error {
                Some(text) => Some(String::from_str(text)),
                None => None,
            };
            SidecarRoute::Reply { id: i, error: e }
        },
        None => match method {
            Some(m) => {
                let mut name = String::from_str("cef://");
                name.append(m);
                SidecarRoute::Event { name }
            },
            None => SidecarRoute::Ignore,
        },
    }
}

} // verus!
