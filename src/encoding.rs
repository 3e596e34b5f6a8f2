//! Writing a request's header text out, and reading it back with the parser.
use vstd::prelude::*;
use crate::lex::{
    find_first, is_ws, lemma_find_first_at, lemma_find_first_none, lemma_split_concat,
    lemma_split_whole, lemma_tokens_concat, lemma_tokens_skip_ws, split, tokens, trim, trim_end,
    trim_start,
};
use crate::parser::{
    fields_of, folds_to, http11, is_ascii_text, method_of, names_method, parse_text, path_of,
    queries_of, ParseError,
};
use crate::request::{HTTPMethod, RequestView};

verus! {

/// A header line without its line end: `name: value`.
pub open spec fn header_text(h: (Seq<char>, Seq<char>)) -> Seq<char> {
    h.0 + seq![':', ' '] + h.1
}

/// The header lines, each ended by `\r\n`.
pub open spec fn header_block(hs: Seq<(Seq<char>, Seq<char>)>) -> Seq<char>
    decreases hs.len(),
{
    if hs.len() == 0 {
        Seq::empty()
    } else {
        header_block(hs.drop_last()) + header_text(hs.last()) + seq!['\r', '\n']
    }
}

/// A query parameter as written: `key=value`.
pub open spec fn pair_text(q: (Seq<char>, Seq<char>)) -> Seq<char> {
    q.0 + seq!['='] + q.1
}

/// Query parameters joined by `&`.
pub open spec fn query_text(qs: Seq<(Seq<char>, Seq<char>)>) -> Seq<char>
    decreases qs.len(),
{
    if qs.len() == 0 {
        Seq::empty()
    } else if qs.len() == 1 {
        pair_text(qs[0])
    } else {
        query_text(qs.drop_last()) + seq!['&'] + pair_text(qs.last())
    }
}

/// The URI: the path, then `?` and the query parameters if there are any.
pub open spec fn uri_text(path: Seq<char>, qs: Seq<(Seq<char>, Seq<char>)>) -> Seq<char> {
    if qs.len() == 0 {
        path
    } else {
        path + seq!['?'] + query_text(qs)
    }
}

/// The request line `<METHOD> <uri> HTTP/1.1`.
pub open spec fn request_line(m: HTTPMethod, uri: Seq<char>) -> Seq<char> {
    m.name() + seq![' '] + uri + seq![' '] + http11()
}

/// A request's header text: its request line, its header lines and a blank
/// line.
pub open spec fn encode_head(
    m: HTTPMethod,
    path: Seq<char>,
    qs: Seq<(Seq<char>, Seq<char>)>,
    hs: Seq<(Seq<char>, Seq<char>)>,
) -> Seq<char> {
    request_line(m, uri_text(path, qs)) + seq!['\r', '\n'] + header_block(hs) + seq!['\r', '\n']
}

/// The map that the pairs make, a later pair replacing an earlier one with
/// the same name.
pub open spec fn pairs_map(ps: Seq<(Seq<char>, Seq<char>)>) -> Map<Seq<char>, Seq<char>>
    decreases ps.len(),
{
    if ps.len() == 0 {
        Map::empty()
    } else {
        pairs_map(ps.drop_last()).insert(ps.last().0, ps.last().1)
    }
}

/// No whitespace anywhere.
pub open spec fn no_ws(t: Seq<char>) -> bool {
    forall|i: int| 0 <= i < t.len() ==> !is_ws(t[i])
}

/// Neither starts nor ends with whitespace.
pub open spec fn trimmed(t: Seq<char>) -> bool {
    t.len() > 0 ==> !is_ws(t[0]) && !is_ws(t.last())
}

/// A path that can be written: nonempty, without whitespace or `?`.
pub open spec fn writable_path(p: Seq<char>) -> bool {
    p.len() > 0 && no_ws(p) && forall|i: int| 0 <= i < p.len() ==> p[i] != '?'
}

/// A query parameter that can be written: neither part holds whitespace or
/// `&`, and the key holds no `=`.
pub open spec fn writable_query(q: (Seq<char>, Seq<char>)) -> bool {
    &&& no_ws(q.0) && no_ws(q.1)
    &&& forall|i: int| 0 <= i < q.0.len() ==> q.0[i] != '=' && q.0[i] != '&'
    &&& forall|i: int| 0 <= i < q.1.len() ==> q.1[i] != '&'
}

/// A header that can be written: the name is nonempty and holds no `:`,
/// neither part holds a line feed, and both are trimmed.
pub open spec fn writable_header(h: (Seq<char>, Seq<char>)) -> bool {
    &&& h.0.len() > 0 && trimmed(h.0) && trimmed(h.1)
    &&& forall|i: int| 0 <= i < h.0.len() ==> h.0[i] != ':' && h.0[i] != '\n'
    &&& forall|i: int| 0 <= i < h.1.len() ==> h.1[i] != '\n'
}

/// The request line holds no line feed, and its tokens are the method's
/// name, the URI and the version.
proof fn lemma_request_line(m: HTTPMethod, uri: Seq<char>)
    requires
        uri.len() > 0,
        no_ws(uri),
    ensures
        forall|i: int| 0 <= i < request_line(m, uri).len() ==> request_line(m, uri)[i] != '\n',
        tokens(request_line(m, uri).push('\r')) == seq![m.name(), uri, http11()],
{
    let n = m.name();
    let v = http11();
    let line = request_line(m, uri);
    assert(no_ws(n));
    assert(no_ws(v));
    assert forall|i: int| 0 <= i < line.len() implies line[i] != '\n' by {
        if i < n.len() {
            assert(line[i] == n[i]);
        } else if i == n.len() {
        } else if i < n.len() + 1 + uri.len() {
            assert(line[i] == uri[i - n.len() - 1]);
        } else if i == n.len() + 1 + uri.len() {
        } else {
            assert(line[i] == v[i - n.len() - 2 - uri.len()]);
        }
    }
    let x = seq!['\r'];
    assert(line.push('\r') =~= n + (seq![' '] + (uri + (seq![' '] + (v + x)))));
    lemma_tokens_concat(v, x);
    assert(x.drop_last() =~= Seq::<char>::empty());
    assert(tokens(x.drop_last()) =~= Seq::<Seq<char>>::empty());
    assert(tokens(x) =~= Seq::<Seq<char>>::empty());
    lemma_tokens_skip_ws(' ', v + x);
    lemma_tokens_concat(uri, seq![' '] + (v + x));
    lemma_tokens_skip_ws(' ', uri + (seq![' '] + (v + x)));
    lemma_tokens_concat(n, seq![' '] + (uri + (seq![' '] + (v + x))));
    assert(tokens(line.push('\r')) =~= seq![n, uri, v]);
}

/// Each method's name reads back as that method.
proof fn lemma_method_name(m: HTTPMethod)
    ensures
        method_of(m.name()) == Some(m),
{
    let all = seq![
        HTTPMethod::CONNECT,
        HTTPMethod::DELETE,
        HTTPMethod::GET,
        HTTPMethod::HEAD,
        HTTPMethod::OPTIONS,
        HTTPMethod::PATCH,
        HTTPMethod::POST,
        HTTPMethod::PUT,
        HTTPMethod::TRACE,
    ];
    assert(is_ascii_text(m.name()));
    assert(folds_to(m.name(), m.name()));
    assert forall|k: int| 0 <= k < 9 && all[k] != m implies !names_method(m.name(), all[k]) by {
        let a = m.name();
        let b = all[k].name();
        if a.len() == b.len() {
            assert(exists|i: int|
                0 <= i < a.len() && a[i] != b[i] && 'A' <= a[i] && a[i] <= 'Z' && 'A' <= b[i]
                    && b[i] <= 'Z');
        }
    }
    assert(all[0] == HTTPMethod::CONNECT);
    assert(all[8] == HTTPMethod::TRACE);
}

proof fn lemma_header_text_chars(h: (Seq<char>, Seq<char>))
    requires
        writable_header(h),
    ensures
        forall|i: int| 0 <= i < header_text(h).len() ==> header_text(h)[i] != '\n',
{
    let t = header_text(h);
    assert forall|i: int| 0 <= i < t.len() implies t[i] != '\n' by {
        if i < h.0.len() {
            assert(t[i] == h.0[i]);
        } else if i >= h.0.len() + 2 {
            assert(t[i] == h.1[i - h.0.len() - 2]);
        }
    }
}

/// The lines of a header block, each still ending in `\r`.
spec fn header_pieces(hs: Seq<(Seq<char>, Seq<char>)>) -> Seq<Seq<char>>
    decreases hs.len(),
{
    if hs.len() == 0 {
        Seq::empty()
    } else {
        header_pieces(hs.drop_last()).push(header_text(hs.last()).push('\r'))
    }
}

proof fn lemma_split_header_block(hs: Seq<(Seq<char>, Seq<char>)>, tail: Seq<char>)
    requires
        forall|i: int| 0 <= i < hs.len() ==> writable_header(#[trigger] hs[i]),
    ensures
        split(header_block(hs) + tail, '\n') == header_pieces(hs) + split(tail, '\n'),
    decreases hs.len(),
{
    if hs.len() == 0 {
        assert(header_block(hs) + tail =~= tail);
        assert(header_pieces(hs) + split(tail, '\n') =~= split(tail, '\n'));
    } else {
        let hp = hs.drop_last();
        assert forall|i: int| 0 <= i < hp.len() implies writable_header(#[trigger] hp[i]) by {
            assert(hp[i] == hs[i]);
        }
        let h = hs.last();
        assert(writable_header(hs[hs.len() - 1]));
        lemma_header_text_chars(h);
        let line = header_text(h).push('\r');
        let rest = line.push('\n') + tail;
        assert(header_block(hs) + tail =~= header_block(hp) + rest);
        lemma_split_header_block(hp, rest);
        lemma_split_concat(line, tail, '\n');
        assert forall|i: int| 0 <= i < line.len() implies line[i] != '\n' by {
            if i < header_text(h).len() {
                assert(line[i] == header_text(h)[i]);
            }
        }
        lemma_split_whole(line, '\n');
        assert(split(header_block(hs) + tail, '\n') =~= header_pieces(hs) + split(tail, '\n'));
    }
}

proof fn lemma_trim_trimmed(k: Seq<char>)
    requires
        trimmed(k),
    ensures
        trim(k) == k,
{
    assert(trim_start(k) == k);
    if k.len() > 0 {
        assert(k.last() == k[k.len() - 1]);
    }
    assert(trim_end(k) == k);
}

proof fn lemma_trim_value(v: Seq<char>)
    requires
        trimmed(v),
    ensures
        trim(seq![' '] + v + seq!['\r']) == v,
{
    let x = seq![' '] + v + seq!['\r'];
    assert(x.subrange(1, x.len() as int) =~= v.push('\r'));
    let y = v.push('\r');
    if v.len() > 0 {
        assert(y[0] == v[0]);
        assert(trim_start(y) == y);
        assert(y.drop_last() =~= v);
        assert(trim_end(v) == v);
    } else {
        assert(y.subrange(1, y.len() as int) =~= Seq::<char>::empty());
        assert(trim_start(Seq::<char>::empty()) == Seq::<char>::empty());
        assert(trim_start(y) =~= Seq::<char>::empty());
        assert(trim_end(Seq::<char>::empty()) == Seq::<char>::empty());
        assert(v =~= Seq::<char>::empty());
    }
}

proof fn lemma_header_fields(hs: Seq<(Seq<char>, Seq<char>)>)
    requires
        forall|i: int| 0 <= i < hs.len() ==> writable_header(#[trigger] hs[i]),
    ensures
        fields_of(header_pieces(hs), ':') == pairs_map(hs),
    decreases hs.len(),
{
    if hs.len() > 0 {
        let hp = hs.drop_last();
        assert forall|i: int| 0 <= i < hp.len() implies writable_header(#[trigger] hp[i]) by {
            assert(hp[i] == hs[i]);
        }
        lemma_header_fields(hp);
        let h = hs.last();
        assert(writable_header(hs[hs.len() - 1]));
        let line = header_text(h).push('\r');
        assert(header_pieces(hs).drop_last() =~= header_pieces(hp));
        let k = h.0.len() as int;
        assert(line[k] == ':');
        assert forall|i: int| 0 <= i < k implies line[i] != ':' by {
            assert(line[i] == h.0[i]);
        }
        lemma_find_first_at(line, ':', k);
        assert(line.subrange(0, k) =~= h.0);
        assert(line.subrange(k + 1, line.len() as int) =~= seq![' '] + h.1 + seq!['\r']);
        lemma_trim_trimmed(h.0);
        lemma_trim_value(h.1);
    }
}

proof fn lemma_pair_chars(q: (Seq<char>, Seq<char>))
    requires
        writable_query(q),
    ensures
        no_ws(pair_text(q)),
        forall|i: int| 0 <= i < pair_text(q).len() ==> pair_text(q)[i] != '&',
        find_first(pair_text(q), '=') == Some(q.0.len() as int),
        pair_text(q).subrange(0, q.0.len() as int) == q.0,
        pair_text(q).subrange(q.0.len() as int + 1, pair_text(q).len() as int) == q.1,
{
    let t = pair_text(q);
    assert forall|i: int| 0 <= i < t.len() implies !is_ws(t[i]) && t[i] != '&' by {
        if i < q.0.len() {
            assert(t[i] == q.0[i]);
        } else if i > q.0.len() {
            assert(t[i] == q.1[i - q.0.len() - 1]);
        }
    }
    assert forall|i: int| 0 <= i < q.0.len() implies t[i] != '=' by {
        assert(t[i] == q.0[i]);
    }
    lemma_find_first_at(t, '=', q.0.len() as int);
    assert(t.subrange(0, q.0.len() as int) =~= q.0);
    assert(t.subrange(q.0.len() as int + 1, t.len() as int) =~= q.1);
}

proof fn lemma_no_ws_trim(t: Seq<char>)
    requires
        no_ws(t),
    ensures
        trim(t) == t,
{
    if t.len() > 0 {
        assert(!is_ws(t[0]));
        assert(!is_ws(t[t.len() - 1]));
    }
    lemma_trim_trimmed(t);
}

/// The pieces of the query text are the written pairs, and it holds no
/// whitespace.
proof fn lemma_query_text(qs: Seq<(Seq<char>, Seq<char>)>)
    requires
        qs.len() > 0,
        forall|i: int| 0 <= i < qs.len() ==> writable_query(#[trigger] qs[i]),
    ensures
        no_ws(query_text(qs)),
        split(query_text(qs), '&') == qs.map_values(|q: (Seq<char>, Seq<char>)| pair_text(q)),
        fields_of(split(query_text(qs), '&'), '=') == pairs_map(qs),
    decreases qs.len(),
{
    let last = qs.last();
    assert(writable_query(qs[qs.len() - 1]));
    lemma_pair_chars(last);
    lemma_split_whole(pair_text(last), '&');
    lemma_no_ws_trim(last.0);
    lemma_no_ws_trim(last.1);
    if qs.len() == 1 {
        assert(qs.map_values(|q: (Seq<char>, Seq<char>)| pair_text(q)) =~= seq![pair_text(last)]);
        assert(qs.drop_last() =~= Seq::<(Seq<char>, Seq<char>)>::empty());
        assert(seq![pair_text(last)].drop_last() =~= Seq::<Seq<char>>::empty());
        assert(fields_of(Seq::<Seq<char>>::empty(), '=') == Map::<Seq<char>, Seq<char>>::empty());
        assert(pairs_map(qs.drop_last()) == Map::<Seq<char>, Seq<char>>::empty());
    } else {
        let qp = qs.drop_last();
        assert forall|i: int| 0 <= i < qp.len() implies writable_query(#[trigger] qp[i]) by {
            assert(qp[i] == qs[i]);
        }
        lemma_query_text(qp);
        let a = query_text(qp);
        let t = query_text(qs);
        assert(t =~= a.push('&') + pair_text(last));
        assert forall|i: int| 0 <= i < t.len() implies !is_ws(t[i]) by {
            if i < a.len() {
                assert(t[i] == a[i]);
            } else if i > a.len() {
                assert(t[i] == pair_text(last)[i - a.len() - 1]);
            }
        }
        lemma_split_concat(a, pair_text(last), '&');
        let pieces = split(t, '&');
        assert(pieces =~= qs.map_values(|q: (Seq<char>, Seq<char>)| pair_text(q)));
        assert(pieces.drop_last() =~= split(a, '&'));
    }
}

/// Writing a request's header text out and parsing it with a body gives
/// back its method, path, query parameters, headers and body; of several
/// query parameters or headers with the same name, the last one is kept.
pub proof fn lemma_round_trip(
    m: HTTPMethod,
    path: Seq<char>,
    qs: Seq<(Seq<char>, Seq<char>)>,
    hs: Seq<(Seq<char>, Seq<char>)>,
    body: Seq<u8>,
)
    requires
        writable_path(path),
        forall|i: int| 0 <= i < qs.len() ==> writable_query(#[trigger] qs[i]),
        forall|i: int| 0 <= i < hs.len() ==> writable_header(#[trigger] hs[i]),
    ensures
        parse_text(encode_head(m, path, qs, hs), body) == Ok::<RequestView, ParseError>(
            RequestView {
                method: m,
                uri: path,
                headers: pairs_map(hs),
                queries: pairs_map(qs),
                body,
            },
        ),
{
    let uri = uri_text(path, qs);
    if qs.len() > 0 {
        lemma_query_text(qs);
        let qt = query_text(qs);
        assert(uri =~= path + (seq!['?'] + qt));
        assert forall|i: int| 0 <= i < uri.len() implies !is_ws(uri[i]) by {
            if i < path.len() {
                assert(uri[i] == path[i]);
            } else if i > path.len() {
                assert(uri[i] == qt[i - path.len() - 1]);
            }
        }
        assert forall|i: int| 0 <= i < path.len() implies uri[i] != '?' by {
            assert(uri[i] == path[i]);
        }
        lemma_find_first_at(uri, '?', path.len() as int);
        assert(uri.subrange(0, path.len() as int) =~= path);
        assert(uri.subrange(path.len() as int + 1, uri.len() as int) =~= qt);
        assert(path_of(uri) == path);
        assert(queries_of(uri) == pairs_map(qs));
    } else {
        lemma_find_first_none(path, '?');
        assert(path_of(uri) == path);
        assert(queries_of(uri) == Map::<Seq<char>, Seq<char>>::empty());
        assert(pairs_map(qs) == Map::<Seq<char>, Seq<char>>::empty());
    }
    let text = encode_head(m, path, qs, hs);
    let line = request_line(m, uri);
    lemma_request_line(m, uri);
    lemma_method_name(m);
    let first = line.push('\r');
    assert(text =~= first.push('\n') + (header_block(hs) + seq!['\r', '\n']));
    lemma_split_concat(first, header_block(hs) + seq!['\r', '\n'], '\n');
    assert forall|i: int| 0 <= i < first.len() implies first[i] != '\n' by {
        if i < line.len() {
            assert(first[i] == line[i]);
        }
    }
    lemma_split_whole(first, '\n');
    lemma_split_header_block(hs, seq!['\r', '\n']);
    assert(seq!['\r', '\n'] =~= seq!['\r'].push('\n') + Seq::<char>::empty());
    lemma_split_concat(seq!['\r'], Seq::<char>::empty(), '\n');
    lemma_split_whole(seq!['\r'], '\n');
    assert(split(Seq::<char>::empty(), '\n') =~= seq![Seq::<char>::empty()]);
    let lines = split(text, '\n');
    assert(lines =~= seq![first] + header_pieces(hs) + seq![seq!['\r'], Seq::<char>::empty()]);
    let rest = lines.drop_first();
    assert(rest =~= (header_pieces(hs).push(seq!['\r'])).push(Seq::<char>::empty()));
    assert(rest.drop_last() =~= header_pieces(hs).push(seq!['\r']));
    assert(rest.drop_last().drop_last() =~= header_pieces(hs));
    lemma_find_first_none(Seq::<char>::empty(), ':');
    lemma_find_first_none(seq!['\r'], ':');
    lemma_header_fields(hs);
    assert(lines[0] == first);
    let toks = tokens(lines[0]);
    assert(toks == seq![m.name(), uri, http11()]);
    assert(toks[0] == m.name());
    assert(toks[1] == uri);
    assert(toks[2] == http11());
    assert(fields_of(rest, ':') == fields_of(rest.drop_last(), ':'));
    assert(fields_of(rest.drop_last(), ':') == fields_of(header_pieces(hs), ':'));
}

} // verus!
