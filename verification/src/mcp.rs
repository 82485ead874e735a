//! Decisions of the browser MCP client: which server tool to use, which
//! server-sent-event lines carry replies, and how tool output is joined.
use vstd::prelude::*;
use vstd::utf8::is_char_boundary;
use vstd::string::StringSliceAdditionalSpecFns;
use crate::json::{Json, jarr, jfield, jget, jint, jstr, opt_string};
use crate::text::{
    contains_chars, has_infix, chars_of, concat_chars, same_chars, eq_ignore_ascii_case, eq_ignore_case, has_prefix, slice_chars,
    split_char, split_chars, starts_with_chars, string_of, trim, trim_chars, views,
};

verus! {

/// The first of `tools` that equals `c` up to ASCII case.
pub open spec fn first_tool_match(tools: Seq<Seq<char>>, c: Seq<char>) -> Option<Seq<char>>
    decreases tools.len(),
{
    if tools.len() == 0 {
        None
    } else if eq_ignore_case(tools[0], c) {
        Some(tools[0])
    } else {
        first_tool_match(tools.drop_first(), c)
    }
}

/// The server's name for the first candidate (in priority order) that the
/// server offers, compared up to ASCII case.
pub open spec fn spec_pick_tool(cands: Seq<Seq<char>>, tools: Seq<Seq<char>>) -> Option<Seq<char>>
    decreases cands.len(),
{
    if cands.len() == 0 {
        None
    } else {
        match first_tool_match(tools, cands[0]) {
            Some(t) => Some(t),
            None => spec_pick_tool(cands.drop_first(), tools),
        }
    }
}

pub open spec fn string_views(v: Seq<String>) -> Seq<Seq<char>> {
    v.map_values(|s: String| s@)
}

fn first_tool(tools: &Vec<String>, c: &Vec<char>) -> (r: Option<String>)
    ensures
        match r {
            Some(t) => first_tool_match(string_views(tools@), c@) == Some(t@),
            None => first_tool_match(string_views(tools@), c@) is None,
        },
{
    let ghost all = string_views(tools@);
    assert(all.skip(0) =~= all);
    for i in 0..tools.len()
        invariant
            all == string_views(tools@),
            first_tool_match(all, c@) == first_tool_match(all.skip(i as int), c@),
    {
        assert(all.skip(i as int)[0] == tools@[i as int]@);
        assert(all.skip(i as int).drop_first() =~= all.skip(i + 1));
        if eq_ignore_ascii_case(&chars_of(tools[i].as_str()), c) {
            return Some(tools[i].clone());
        }
    }
    assert(all.skip(tools.len() as int).len() == 0);
    None
}

/// Pick a tool: the first candidate the server offers (see
/// `spec_pick_tool`), by the server's own spelling.
pub fn pick_tool(candidates: &Vec<String>, tools: &Vec<String>) -> (r: Option<String>)
    ensures
        match r {
            Some(t) => spec_pick_tool(string_views(candidates@), string_views(tools@)) == Some(t@),
            None => spec_pick_tool(string_views(candidates@), string_views(tools@)) is None,
        },
{
    let ghost cs = string_views(candidates@);
    assert(cs.skip(0) =~= cs);
    for i in 0..candidates.len()
        invariant
            cs == string_views(candidates@),
            spec_pick_tool(cs, string_views(tools@)) == spec_pick_tool(cs.skip(i as int), string_views(tools@)),
    {
        assert(cs.skip(i as int)[0] == candidates@[i as int]@);
        assert(cs.skip(i as int).drop_first() =~= cs.skip(i + 1));
        match first_tool(tools, &chars_of(candidates[i].as_str())) {
            Some(t) => return Some(t),
            None => {},
        }
    }
    assert(cs.skip(candidates.len() as int).len() == 0);
    None
}

/// The reply carried by one server-sent-event line: the text after
/// `data:`, trimmed, when not empty.
pub open spec fn sse_payload(line: Seq<char>) -> Option<Seq<char>> {
    if has_prefix(line, "data:"@) {
        let d = trim(line.skip(5));
        if d.len() == 0 {
            None
        } else {
            Some(d)
        }
    } else {
        None
    }
}

pub open spec fn sse_payloads(lines: Seq<Seq<char>>) -> Seq<Seq<char>>
    decreases lines.len(),
{
    if lines.len() == 0 {
        Seq::empty()
    } else {
        let prev = sse_payloads(lines.drop_last());
        match sse_payload(lines.last()) {
            Some(d) => prev.push(d),
            None => prev,
        }
    }
}

/// The `data:` payloads of an event stream, in order. Lines are the pieces
/// between `'\n'`; payloads are trimmed, so a `'\r'` line ending and a
/// final empty piece make no difference (this is what `str::lines` gives).
pub open spec fn spec_sse_data(text: Seq<char>) -> Seq<Seq<char>> {
    sse_payloads(split_char(text, '\n'))
}

/// The `data:` payloads of a `text/event-stream` body, in order.
pub fn sse_data(text: &str) -> (out: Vec<String>)
    ensures
        string_views(out@) == spec_sse_data(text@),
{
    let lines = split_chars(&chars_of(text), '\n');
    let prefix = chars_of("data:");
    let mut out: Vec<String> = Vec::new();
    for i in 0..lines.len()
        invariant
            prefix@ == "data:"@,
            string_views(out@) == sse_payloads(views(lines@).take(i as int)),
    {
        proof {
            assert(views(lines@).take(i + 1).drop_last() =~= views(lines@).take(i as int));
            assert(views(lines@).take(i + 1).last() == lines@[i as int]@);
            reveal_strlit("data:");
        }
        let line = &lines[i];
        if starts_with_chars(line, &prefix) {
            let d = trim_chars(&slice_chars(line, 5, line.len()));
            assert(line@.subrange(5, line@.len() as int) =~= line@.skip(5));
            if d.len() > 0 {
                out.push(string_of(&d));
                assert(string_views(out@) =~= sse_payloads(views(lines@).take(i + 1)));
            }
        }
    }
    assert(views(lines@).take(lines.len() as int) =~= views(lines@));
    out
}

/// Text blocks joined, each followed by a newline.
pub open spec fn joined_lines(texts: Seq<Seq<char>>) -> Seq<char>
    decreases texts.len(),
{
    if texts.len() == 0 {
        Seq::empty()
    } else {
        joined_lines(texts.drop_last()) + texts.last() + seq!['\n']
    }
}

/// The text content of a tool result: its text blocks, each followed by a
/// newline; None when it has none.
pub fn join_text(texts: &Vec<String>) -> (r: Option<String>)
    ensures
        texts@.len() == 0 ==> r is None,
        texts@.len() > 0 ==> (r matches Some(s) && s@ == joined_lines(string_views(texts@))),
{
    if texts.len() == 0 {
        return None;
    }
    let mut out: Vec<char> = Vec::new();
    let mut nl: Vec<char> = Vec::new();
    nl.push('\n');
    for i in 0..texts.len()
        invariant
            nl@ == seq!['\n'],
            out@ == joined_lines(string_views(texts@).take(i as int)),
    {
        proof {
            assert(string_views(texts@).take(i + 1).drop_last() =~= string_views(texts@).take(i as int));
            assert(string_views(texts@).take(i + 1).last() == texts@[i as int]@);
        }
        out = concat_chars(&out, &chars_of(texts[i].as_str()));
        out = concat_chars(&out, &nl);
    }
    assert(string_views(texts@).take(texts.len() as int) =~= string_views(texts@));
    Some(string_of(&out))
}

/// `s.get(..n).unwrap_or(s)`: the first `n` bytes of `s` when `n` falls on
/// a character boundary within it, else all of `s`.
pub fn truncate(s: &str, n: usize) -> (r: &str)
    ensures
        n <= s.len() && is_char_boundary(s.spec_bytes(), n as int) ==> r.spec_bytes()
            == s.spec_bytes().subrange(0, n as int),
        !(n <= s.len() && is_char_boundary(s.spec_bytes(), n as int)) ==> r == s,
{
    if n <= s.len() && s.is_char_boundary(n) {
        let (head, _) = s.split_at(n);
        head
    } else {
        s
    }
}


/// The text blocks of a tool result's content items: the `text` of each
/// item typed "text" that has one.
pub open spec fn text_items(items: Seq<Json>) -> Seq<Seq<char>>
    decreases items.len(),
{
    if items.len() == 0 {
        Seq::empty()
    } else {
        let prev = text_items(items.drop_last());
        let it = items.last();
        if jstr(jfield(it, "type"@)) == Some("text"@) && jstr(jfield(it, "text"@)) is Some {
            prev.push(jstr(jfield(it, "text"@))->0)
        } else {
            prev
        }
    }
}

/// The text content of a tool result: its text blocks, each followed by a
/// newline; None when `content` is missing, not an array, or holds no text.
pub open spec fn spec_extract_text(result: Json) -> Option<Seq<char>> {
    match jget(result, "content"@) {
        Some(c) => match jarr(c) {
            Some(items) => if text_items(items).len() == 0 {
                None
            } else {
                Some(joined_lines(text_items(items)))
            },
            None => None,
        },
        None => None,
    }
}

/// Collect the text content of a tool result (see `spec_extract_text`).
pub fn extract_text(result: &Json) -> (r: Option<String>)
    ensures
        opt_string(r) == spec_extract_text(*result),
{
    let items = match result.get("content") {
        Some(c) => match c.as_array() {
            Some(a) => a,
            None => return None,
        },
        None => return None,
    };
    let mut texts: Vec<String> = Vec::new();
    for i in 0..items.len()
        invariant
            string_views(texts@) == text_items(items@.take(i as int)),
    {
        proof {
            assert(items@.take(i + 1).drop_last() =~= items@.take(i as int));
            assert(items@.take(i + 1).last() == items@[i as int]);
        }
        let it = &items[i];
        let is_text = match it.field_str("type") {
            Some(t) => same_chars(&chars_of(t), &chars_of("text")),
            None => false,
        };
        if is_text {
            match it.field_str("text") {
                Some(t) => {
                    texts.push(t.to_owned());
                    assert(string_views(texts@) =~= text_items(items@.take(i + 1)));
                },
                None => {},
            }
        }
    }
    assert(items@.take(items.len() as int) =~= items@);
    join_text(&texts)
}

/// The tool names of a `tools/list` reply: the string `name` of each
/// entry of `result.tools`, in order.
pub open spec fn tool_names_of(tools: Seq<Json>) -> Seq<Seq<char>>
    decreases tools.len(),
{
    if tools.len() == 0 {
        Seq::empty()
    } else {
        let prev = tool_names_of(tools.drop_last());
        match jstr(jfield(tools.last(), "name"@)) {
            Some(n) => prev.push(n),
            None => prev,
        }
    }
}

pub open spec fn spec_tool_names(resp: Json) -> Seq<Seq<char>> {
    match jget(resp, "result"@) {
        Some(r) => match jget(r, "tools"@) {
            Some(t) => match jarr(t) {
                Some(tools) => tool_names_of(tools),
                None => Seq::empty(),
            },
            None => Seq::empty(),
        },
        None => Seq::empty(),
    }
}

/// The tool names a `tools/list` reply offers.
pub fn tool_names(resp: &Json) -> (names: Vec<String>)
    ensures
        string_views(names@) == spec_tool_names(*resp),
{
    let mut names: Vec<String> = Vec::new();
    let tools = match resp.get("result") {
        Some(r) => match r.get("tools") {
            Some(t) => match t.as_array() {
                Some(a) => a,
                None => return names,
            },
            None => return names,
        },
        None => return names,
    };
    for i in 0..tools.len()
        invariant
            string_views(names@) == tool_names_of(tools@.take(i as int)),
    {
        proof {
            assert(tools@.take(i + 1).drop_last() =~= tools@.take(i as int));
            assert(tools@.take(i + 1).last() == tools@[i as int]);
        }
        match tools[i].field_str("name") {
            Some(n) => {
                names.push(n.to_owned());
                assert(string_views(names@) =~= tool_names_of(tools@.take(i + 1)));
            },
            None => {},
        }
    }
    assert(tools@.take(tools.len() as int) =~= tools@);
    names
}

/// How a `tools/call` reply turned out.
pub enum ToolOutcome {
    /// The reply is a JSON-RPC error.
    RpcError,
    /// The reply has no `result`.
    NoResult,
    /// The tool reported an error; its text, or "unknown".
    ToolError(String),
    /// The tool's text content.
    Text(String),
    /// The result holds no text content.
    NoText,
}

/// Judge a `tools/call` reply: an `error` member first, then a missing
/// `result`, then `result.isError == true`, else the result's text.
pub fn tool_outcome(resp: &Json) -> (r: ToolOutcome)
    ensures
        jget(*resp, "error"@) is Some ==> r is RpcError,
        jget(*resp, "error"@) is None ==> match jget(*resp, "result"@) {
            None => r is NoResult,
            Some(res) => if jfield(res, "isError"@) == Json::Bool(true) {
                r matches ToolOutcome::ToolError(m) && m@ == match spec_extract_text(res) {
                    Some(t) => t,
                    None => "unknown"@,
                }
            } else {
                match spec_extract_text(res) {
                    Some(t) => r matches ToolOutcome::Text(x) && x@ == t,
                    None => r is NoText,
                }
            },
        },
{
    if resp.get("error").is_some() {
        return ToolOutcome::RpcError;
    }
    let res = match resp.get("result") {
        Some(x) => x,
        None => return ToolOutcome::NoResult,
    };
    let is_error = match res.get("isError") {
        Some(Json::Bool(b)) => *b,
        _ => false,
    };
    if is_error {
        match extract_text(res) {
            Some(t) => ToolOutcome::ToolError(t),
            None => ToolOutcome::ToolError("unknown".to_owned()),
        }
    } else {
        match extract_text(res) {
            Some(t) => ToolOutcome::Text(t),
            None => ToolOutcome::NoText,
        }
    }
}

/// A message answers the request with id `id`: its `id` is that integer.
pub fn answers(msg: &Json, id: u64) -> (r: bool)
    ensures
        r == (id <= i64::MAX && jint(jfield(*msg, "id"@)) == Some(id as i64)),
{
    if id > 9223372036854775807u64 {
        return false;
    }
    msg.field_i64("id") == Some(id as i64)
}

/// The server's name from an `initialize` result, or "unknown".
pub fn server_name(result: &Json) -> (r: String)
    ensures
        r@ == match jstr(jfield(jfield(*result, "serverInfo"@), "name"@)) {
            Some(n) => n,
            None => "unknown"@,
        },
{
    let n = match result.get("serverInfo") {
        Some(si) => si.field_str("name"),
        None => None,
    };
    match n {
        Some(x) => x.to_owned(),
        None => "unknown".to_owned(),
    }
}

/// How to read an HTTP reply to a JSON-RPC post.
pub enum ReplyKind {
    /// The status was not a success.
    Failed,
    /// An empty (or blank) body: a notification was acknowledged.
    Empty,
    /// An event stream: the `data:` payloads, in order.
    Stream(Vec<String>),
    /// A plain JSON body.
    Plain,
}

/// Classify a reply by its status, content type and body.
pub fn classify_reply(success: bool, content_type: &str, text: &str) -> (r: ReplyKind)
    ensures
        !success ==> r is Failed,
        success && trim(text@).len() == 0 ==> r is Empty,
        success && trim(text@).len() > 0 && has_infix(content_type@, "text/event-stream"@) ==> (
        r matches ReplyKind::Stream(d) && string_views(d@) == spec_sse_data(text@)),
        success && trim(text@).len() > 0 && !has_infix(content_type@, "text/event-stream"@) ==> r is Plain,
{
    if !success {
        return ReplyKind::Failed;
    }
    if trim_chars(&chars_of(text)).len() == 0 {
        return ReplyKind::Empty;
    }
    if contains_chars(&chars_of(content_type), &chars_of("text/event-stream")) {
        ReplyKind::Stream(sse_data(text))
    } else {
        ReplyKind::Plain
    }
}

/// A configured tool name overrides discovery when it is not blank; it is
/// used trimmed.
pub fn tool_override(raw: Option<&str>) -> (r: Option<String>)
    ensures
        match raw {
            Some(v) => if trim(v@).len() > 0 {
                opt_string(r) == Some(trim(v@))
            } else {
                r is None
            },
            None => r is None,
        },
{
    match raw {
        Some(v) => {
            let t = trim_chars(&chars_of(v));
            if t.len() > 0 {
                Some(string_of(&t))
            } else {
                None
            }
        },
        None => None,
    }
}
} // verus!
