//! Parsing a request from its wire bytes.
use vstd::prelude::*;
use crate::fields::FieldMap;
use crate::lex::{
    chars_eq, copy_chars, find_char, find_first, is_ws, lemma_split_first, lemma_split_nonempty,
    lemma_split_prefix, lemma_tokens_concat, lemma_tokens_skip_ws, split, split_on, split_tokens,
    tokens, trim, trim_range,
};
use crate::request::{HTTPMethod, HTTPRequest, RequestView};
use crate::text::{chars_of, decode_lossy, lossy_utf8, string_of, to_upper, upper_of};
use vstd::utf8::{decode_utf8, valid_utf8};
use crate::wire::{copy_range, crlfcrlf, find_delim, find_delimiter, lemma_find_delim_found};

verus! {

/// Why a byte sequence is not a request.
#[derive(Debug, Clone, Copy, PartialEq, Eq, Structural)]
pub enum ParseError {
    /// No `\r\n\r\n`, or the request line lacks its method, URI or version.
    MalformedMessage,
    /// The first token names none of the nine methods.
    UnknownMethod,
    /// The version token is not `HTTP/1.1`.
    UnsupportedVersion,
}

/// Every character of `t` is ASCII.
pub open spec fn is_ascii_text(t: Seq<char>) -> bool {
    forall|i: int| 0 <= i < t.len() ==> #[trigger] (t[i] as u32) <= 0x7f
}

/// `t` equals the upper-case `name` but for the case of ASCII letters.
pub open spec fn folds_to(t: Seq<char>, name: Seq<char>) -> bool {
    &&& t.len() == name.len()
    &&& forall|i: int|
        0 <= i < t.len() ==> t[i] == name[i] || ('A' <= name[i] && name[i] <= 'Z' && t[i] as u32
            == name[i] as u32 + 32)
}

/// Whether the token `t`, upper-cased, is the name of `m`. For ASCII text,
/// Unicode upper-casing is ASCII upper-casing.
pub open spec fn names_method(t: Seq<char>, m: HTTPMethod) -> bool {
    if is_ascii_text(t) {
        folds_to(t, m.name())
    } else {
        upper_of(t) == m.name()
    }
}

/// The method that a token names, compared after upper-casing.
pub open spec fn method_of(t: Seq<char>) -> Option<HTTPMethod> {
    if names_method(t, HTTPMethod::CONNECT) {
        Some(HTTPMethod::CONNECT)
    } else if names_method(t, HTTPMethod::DELETE) {
        Some(HTTPMethod::DELETE)
    } else if names_method(t, HTTPMethod::GET) {
        Some(HTTPMethod::GET)
    } else if names_method(t, HTTPMethod::HEAD) {
        Some(HTTPMethod::HEAD)
    } else if names_method(t, HTTPMethod::OPTIONS) {
        Some(HTTPMethod::OPTIONS)
    } else if names_method(t, HTTPMethod::PATCH) {
        Some(HTTPMethod::PATCH)
    } else if names_method(t, HTTPMethod::POST) {
        Some(HTTPMethod::POST)
    } else if names_method(t, HTTPMethod::PUT) {
        Some(HTTPMethod::PUT)
    } else if names_method(t, HTTPMethod::TRACE) {
        Some(HTTPMethod::TRACE)
    } else {
        None
    }
}

/// The only accepted version token, `HTTP/1.1`.
pub open spec fn http11() -> Seq<char> {
    seq!['H', 'T', 'T', 'P', '/', '1', '.', '1']
}

/// The pairs named by `items`, each split at its first `sep` into a trimmed
/// name and a trimmed value; items without `sep` are skipped, and a later
/// pair replaces an earlier one with the same name.
pub open spec fn fields_of(items: Seq<Seq<char>>, sep: char) -> Map<Seq<char>, Seq<char>>
    decreases items.len(),
{
    if items.len() == 0 {
        Map::empty()
    } else {
        let m = fields_of(items.drop_last(), sep);
        let it = items.last();
        match find_first(it, sep) {
            Some(j) => m.insert(trim(it.subrange(0, j)), trim(it.subrange(j + 1, it.len() as int))),
            None => m,
        }
    }
}

/// The part of a raw URI before its first `?`.
pub open spec fn path_of(uri: Seq<char>) -> Seq<char> {
    match find_first(uri, '?') {
        Some(q) => uri.subrange(0, q),
        None => uri,
    }
}

/// The query parameters of a raw URI: the part after its first `?`, split
/// at `&` into pairs, each split at its first `=`.
pub open spec fn queries_of(uri: Seq<char>) -> Map<Seq<char>, Seq<char>> {
    match find_first(uri, '?') {
        Some(q) => fields_of(split(uri.subrange(q + 1, uri.len() as int), '&'), '='),
        None => Map::empty(),
    }
}

/// What the header text `text` and the body make: the first line is the
/// request line, the other lines are headers.
pub open spec fn parse_text(text: Seq<char>, body: Seq<u8>) -> Result<RequestView, ParseError> {
    let lines = split(text, '\n');
    let toks = tokens(lines[0]);
    if toks.len() == 0 {
        Err(ParseError::MalformedMessage)
    } else if method_of(toks[0]) is None {
        Err(ParseError::UnknownMethod)
    } else if toks.len() < 3 {
        Err(ParseError::MalformedMessage)
    } else if toks[2] != http11() {
        Err(ParseError::UnsupportedVersion)
    } else {
        Ok(
            RequestView {
                method: method_of(toks[0])->Some_0,
                uri: path_of(toks[1]),
                headers: fields_of(lines.drop_first(), ':'),
                queries: queries_of(toks[1]),
                body,
            },
        )
    }
}

/// What parsing `s` gives: the header section runs up to and including the
/// first `\r\n\r\n`, is decoded as UTF-8 with invalid sequences replaced,
/// and is read by `parse_text`; the body is the rest.
pub open spec fn parse_spec(s: Seq<u8>) -> Result<RequestView, ParseError> {
    match find_delim(s) {
        None => Err(ParseError::MalformedMessage),
        Some(d) => parse_text(lossy_utf8(s.subrange(0, d + 4)), s.subrange(d + 4, s.len() as int)),
    }
}

/// Bytes too short to hold `\r\n\r\n`, or holding none, are a malformed
/// message.
pub proof fn lemma_undelimited_is_malformed(s: Seq<u8>)
    requires
        s.len() < 4 || forall|i: int|
            0 <= i && i + 4 <= s.len() ==> #[trigger] s.subrange(i, i + 4) != crlfcrlf(),
    ensures
        parse_spec(s) == Err::<RequestView, ParseError>(ParseError::MalformedMessage),
{
    lemma_find_delim_found(s);
}

/// When the text starts with a line free of whitespace breaks, the first
/// line is that line followed by what comes before the next line feed.
proof fn lemma_first_line(line: Seq<char>, rest: Seq<char>)
    requires
        forall|i: int| 0 <= i < line.len() ==> line[i] != '\n',
    ensures
        ({
            let first = split(line + rest, '\n')[0];
            &&& first.len() >= line.len()
            &&& first.len() <= line.len() + rest.len()
            &&& first.subrange(0, line.len() as int) == line
            &&& (first.len() > line.len() ==> first[line.len() as int] == rest[0])
        }),
{
    lemma_split_prefix(line, rest, '\n');
    lemma_split_first(rest, '\n');
    let x = split(rest, '\n')[0];
    let first = split(line + rest, '\n')[0];
    assert(first == line + x);
    assert(first.subrange(0, line.len() as int) =~= line);
    if x.len() > 0 {
        assert(x[0] == rest[0]);
    }
}

/// A request line whose first token names none of the nine methods after
/// upper-casing makes the request fail with `UnknownMethod`.
pub proof fn lemma_unknown_method(t: Seq<char>, rest: Seq<char>, body: Seq<u8>)
    requires
        t.len() > 0,
        forall|i: int| 0 <= i < t.len() ==> !is_ws(t[i]),
        rest.len() > 0 && is_ws(rest[0]),
        method_of(t) is None,
    ensures
        parse_text(t + rest, body) == Err::<RequestView, ParseError>(ParseError::UnknownMethod),
{
    lemma_first_line(t, rest);
    let first = split(t + rest, '\n')[0];
    let x = first.subrange(t.len() as int, first.len() as int);
    assert(first =~= t + x);
    if x.len() > 0 {
        assert(x[0] == first[t.len() as int]);
    }
    lemma_tokens_concat(t, x);
    assert(tokens(first)[0] == t);
}

/// A request line `<method> <uri> <version>` whose version is not exactly
/// `HTTP/1.1` makes the request fail with `UnsupportedVersion`.
pub proof fn lemma_unsupported_version(
    m: Seq<char>,
    u: Seq<char>,
    v: Seq<char>,
    rest: Seq<char>,
    body: Seq<u8>,
)
    requires
        m.len() > 0 && u.len() > 0 && v.len() > 0,
        forall|i: int| 0 <= i < m.len() ==> !is_ws(m[i]),
        forall|i: int| 0 <= i < u.len() ==> !is_ws(u[i]),
        forall|i: int| 0 <= i < v.len() ==> !is_ws(v[i]),
        rest.len() == 0 || is_ws(rest[0]),
        method_of(m) is Some,
        v != http11(),
    ensures
        parse_text(m + seq![' '] + u + seq![' '] + v + rest, body) == Err::<
            RequestView,
            ParseError,
        >(ParseError::UnsupportedVersion),
{
    let line = m + seq![' '] + u + seq![' '] + v;
    assert forall|i: int| 0 <= i < line.len() implies line[i] != '\n' by {
        if i < m.len() {
            assert(line[i] == m[i]);
        } else if i == m.len() {
        } else if i < m.len() + 1 + u.len() {
            assert(line[i] == u[i - m.len() - 1]);
        } else if i == m.len() + 1 + u.len() {
        } else {
            assert(line[i] == v[i - m.len() - 2 - u.len()]);
        }
    }
    assert(line + rest =~= m + seq![' '] + u + seq![' '] + v + rest);
    lemma_first_line(line, rest);
    let first = split(line + rest, '\n')[0];
    let x = first.subrange(line.len() as int, first.len() as int);
    assert(first =~= line + x);
    if x.len() > 0 {
        assert(x[0] == first[line.len() as int]);
    }
    assert(first =~= m + (seq![' '] + (u + (seq![' '] + (v + x)))));
    lemma_tokens_concat(v, x);
    lemma_tokens_skip_ws(' ', v + x);
    lemma_tokens_concat(u, seq![' '] + (v + x));
    lemma_tokens_skip_ws(' ', u + (seq![' '] + (v + x)));
    lemma_tokens_concat(m, seq![' '] + (u + (seq![' '] + (v + x))));
    let toks = tokens(first);
    assert(toks =~= seq![m, u, v] + tokens(x));
}

/// Of several lines that set the same name, the last one's value is kept.
pub proof fn lemma_last_field_wins(items: Seq<Seq<char>>, it: Seq<char>, sep: char)
    requires
        find_first(it, sep) is Some,
    ensures
        ({
            let j = find_first(it, sep)->Some_0;
            fields_of(items.push(it), sep)[trim(it.subrange(0, j))] == trim(
                it.subrange(j + 1, it.len() as int),
            )
        }),
{
    assert(items.push(it).drop_last() =~= items);
}

/// Whether every character is ASCII.
fn all_ascii(t: &[char]) -> (r: bool)
    ensures
        r == is_ascii_text(t@),
{
    let mut i: usize = 0;
    while i < t.len()
        invariant
            i <= t@.len(),
            forall|j: int| 0 <= j < i ==> #[trigger] (t@[j] as u32) <= 0x7f,
        decreases t@.len() - i,
    {
        let c = t[i];
        if c as u32 > 0x7f {
            return false;
        }

        i = i + 1;
    }
    true
}

/// Whether `t` equals the upper-case `name` but for ASCII case.
fn folds_eq(t: &[char], name: &[char]) -> (r: bool)
    ensures
        r == folds_to(t@, name@),
{
    if t.len() != name.len() {
        return false;
    }
    let mut i: usize = 0;
    while i < t.len()
        invariant
            t@.len() == name@.len(),
            i <= t@.len(),
            forall|j: int|
                0 <= j < i ==> t@[j] == name@[j] || ('A' <= name@[j] && name@[j] <= 'Z' && t@[j]
                    as u32 == name@[j] as u32 + 32),
        decreases t@.len() - i,
    {
        let c = t[i];
        let n = name[i];
        if !(c == n || ('A' <= n && n <= 'Z' && (c as u32) == (n as u32) + 32)) {
            return false;
        }
        i = i + 1;
    }
    true
}

fn names(t: &[char], ascii: bool, upper: &Vec<char>, m: HTTPMethod) -> (r: bool)
    requires
        ascii == is_ascii_text(t@),
        !ascii ==> upper@ == upper_of(t@),
    ensures
        r == names_method(t@, m),
{
    let name = m.wire_name();
    if ascii {
        folds_eq(t, name.as_slice())
    } else {
        chars_eq(upper.as_slice(), name.as_slice())
    }
}

/// Reads the method named by a token.
pub fn method_from_token(t: &[char]) -> (r: Option<HTTPMethod>)
    ensures
        r == method_of(t@),
{
    let ascii = all_ascii(t);
    let upper: Vec<char> = if ascii {
        Vec::new()
    } else {
        let s = string_of(t);
        chars_of(to_upper(s.as_str()).as_str())
    };
    if names(t, ascii, &upper, HTTPMethod::CONNECT) {
        Some(HTTPMethod::CONNECT)
    } else if names(t, ascii, &upper, HTTPMethod::DELETE) {
        Some(HTTPMethod::DELETE)
    } else if names(t, ascii, &upper, HTTPMethod::GET) {
        Some(HTTPMethod::GET)
    } else if names(t, ascii, &upper, HTTPMethod::HEAD) {
        Some(HTTPMethod::HEAD)
    } else if names(t, ascii, &upper, HTTPMethod::OPTIONS) {
        Some(HTTPMethod::OPTIONS)
    } else if names(t, ascii, &upper, HTTPMethod::PATCH) {
        Some(HTTPMethod::PATCH)
    } else if names(t, ascii, &upper, HTTPMethod::POST) {
        Some(HTTPMethod::POST)
    } else if names(t, ascii, &upper, HTTPMethod::PUT) {
        Some(HTTPMethod::PUT)
    } else if names(t, ascii, &upper, HTTPMethod::TRACE) {
        Some(HTTPMethod::TRACE)
    } else {
        None
    }
}

/// The pairs named by `items[from..]` (see `fields_of`).
pub fn fields_from(items: &Vec<Vec<char>>, from: usize, sep: char) -> (r: FieldMap)
    requires
        from <= items@.len(),
    ensures
        r.wf(),
        r@ == fields_of(items.deep_view().subrange(from as int, items@.len() as int), sep),
{
    let mut m = FieldMap::new();
    let mut k: usize = from;
    assert(items.deep_view().subrange(from as int, from as int).len() == 0);
    while k < items.len()
        invariant
            from <= k <= items@.len(),
            m.wf(),
            m@ == fields_of(items.deep_view().subrange(from as int, k as int), sep),
        decreases items@.len() - k,
    {
        let ghost dv = items.deep_view();
        let ghost next = dv.subrange(from as int, k + 1);
        assert(next.drop_last() =~= dv.subrange(from as int, k as int));
        assert(items@[k as int].deep_view() =~= items@[k as int]@);
        assert(next.last() == items@[k as int]@);
        let it = items[k].as_slice();
        let len = it.len();
        match find_char(it, sep) {
            Some(j) => {
                let key = string_of(trim_range(it, 0, j).as_slice());
                let value = string_of(trim_range(it, j + 1, len).as_slice());
                m.insert(key.as_str(), value.as_str());
            },
            None => {},
        }
        k = k + 1;
    }
    m
}

/// Reads a request from its decoded header text and its body: see
/// `parse_text`.
pub fn parse_head(head: &str, body: &[u8]) -> (r: Result<HTTPRequest, ParseError>)
    ensures
        match r {
            Ok(q) => parse_text(head@, body@) == Ok::<RequestView, ParseError>(q@),
            Err(e) => parse_text(head@, body@) == Err::<RequestView, ParseError>(e),
        },
{
    let text = chars_of(head);
    let lines = split_on(text.as_slice(), '\n');
    proof {
        lemma_split_nonempty(text@, '\n');
    }
    let ghost dv = lines.deep_view();
    assert(lines@[0].deep_view() =~= lines@[0]@);
    let toks = split_tokens(lines[0].as_slice());
    if toks.len() == 0 {
        return Err(ParseError::MalformedMessage);
    }
    assert(toks@[0].deep_view() =~= toks@[0]@);
    let method = match method_from_token(toks[0].as_slice()) {
        Some(m) => m,
        None => return Err(ParseError::UnknownMethod),
    };
    if toks.len() < 3 {
        return Err(ParseError::MalformedMessage);
    }
    assert(toks@[1].deep_view() =~= toks@[1]@);
    assert(toks@[2].deep_view() =~= toks@[2]@);
    let version = vec!['H', 'T', 'T', 'P', '/', '1', '.', '1'];
    assert(version@ =~= http11());
    if !chars_eq(toks[2].as_slice(), version.as_slice()) {
        return Err(ParseError::UnsupportedVersion);
    }
    let raw = toks[1].as_slice();
    let (path, queries) = match find_char(raw, '?') {
        Some(q) => {
            let qs = copy_chars(raw, q + 1, raw.len());
            let pairs = split_on(qs.as_slice(), '&');
            let queries = fields_from(&pairs, 0, '=');
            assert(pairs.deep_view().subrange(0, pairs@.len() as int) =~= pairs.deep_view());
            (copy_chars(raw, 0, q), queries)
        },
        None => {
            let all = copy_chars(raw, 0, raw.len());
            assert(raw@.subrange(0, raw@.len() as int) =~= raw@);
            (all, FieldMap::new())
        },
    };
    let headers = fields_from(&lines, 1, ':');
    assert(dv.subrange(1, dv.len() as int) =~= dv.drop_first());
    let uri = string_of(path.as_slice());
    Ok(HTTPRequest::from_parts(method, uri.as_str(), body, headers, queries))
}

/// Turns wire bytes into requests.
pub struct HTTPRequestParser;

impl HTTPRequestParser {
    pub fn new() -> (r: HTTPRequestParser) {
        HTTPRequestParser
    }

    /// Parses one request: see `parse_spec` for what comes out of which
    /// bytes.
    pub fn parse(&self, bytes: &[u8]) -> (r: Result<HTTPRequest, ParseError>)
        ensures
            match r {
                Ok(q) => parse_spec(bytes@) == Ok::<RequestView, ParseError>(q@),
                Err(e) => parse_spec(bytes@) == Err::<RequestView, ParseError>(e),
            },
            find_delim(bytes@) is Some && valid_utf8(
                bytes@.subrange(0, find_delim(bytes@)->Some_0 + 4),
            ) ==> parse_spec(bytes@) == parse_text(
                decode_utf8(bytes@.subrange(0, find_delim(bytes@)->Some_0 + 4)),
                bytes@.subrange(find_delim(bytes@)->Some_0 + 4, bytes@.len() as int),
            ),
    {
        let d = match find_delimiter(bytes) {
            Some(d) => d,
            None => return Err(ParseError::MalformedMessage),
        };
        let n = bytes.len();
        let head = copy_range(bytes, 0, d + 4);
        let body = copy_range(bytes, d + 4, n);
        let text = decode_lossy(head.as_slice());
        parse_head(text.as_str(), body.as_slice())
    }
}

} // verus!
