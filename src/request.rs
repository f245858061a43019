//! The parsed form of an incoming request.
use vstd::prelude::*;

use crate::strmap::{first_folded, text_opt, Pairs, StrMap};
use crate::text::{
    chars_of, find_from, is_space, lemma_split_once_at, lemma_words_single, lemma_words_space,
    no_space, split, split_on, split_once, split_words, string_of, words,
};

verus! {

/// Method, request target and version of a request line: its three
/// whitespace-separated words, or `GET / HTTP/1.1` when it does not have
/// exactly three.
pub open spec fn line_parts(line: Seq<char>) -> (Seq<char>, Seq<char>, Seq<char>) {
    let w = words(line);
    if w.len() == 3 {
        (w[0], w[1], w[2])
    } else {
        ("GET"@, "/"@, "HTTP/1.1"@)
    }
}

/// The path of a request target: what comes before its first `?`.
pub open spec fn target_path(target: Seq<char>) -> Seq<char> {
    match split_once(target, '?') {
        Some((p, _)) => p,
        None => target,
    }
}

/// The query of a request target: what comes after its first `?`, parsed.
pub open spec fn target_query(target: Seq<char>) -> Map<Seq<char>, Seq<char>> {
    match split_once(target, '?') {
        Some((_, q)) => query_map(q),
        None => Map::empty(),
    }
}

/// The key of one `&`-separated piece of a query: before its first `=`, or
/// the whole piece.
pub open spec fn piece_key(piece: Seq<char>) -> Seq<char> {
    match split_once(piece, '=') {
        Some((k, _)) => k,
        None => piece,
    }
}

/// The value of one `&`-separated piece of a query: after its first `=`, or
/// empty.
pub open spec fn piece_value(piece: Seq<char>) -> Seq<char> {
    match split_once(piece, '=') {
        Some((_, v)) => v,
        None => Seq::empty(),
    }
}

/// The map that the pieces give when entered in order, a later key
/// overwriting an earlier one.
pub open spec fn pieces_map(pieces: Seq<Seq<char>>) -> Map<Seq<char>, Seq<char>>
    decreases pieces.len(),
{
    if pieces.len() == 0 {
        Map::empty()
    } else {
        pieces_map(pieces.drop_last()).insert(
            piece_key(pieces.last()),
            piece_value(pieces.last()),
        )
    }
}

/// A query string parsed into a map.
pub open spec fn query_map(q: Seq<char>) -> Map<Seq<char>, Seq<char>> {
    pieces_map(split(q, '&'))
}

/// The error text for a missing required header.
pub open spec fn missing_header(key: Seq<char>) -> Seq<char> {
    "[rxpress error]: Required header `"@ + key
        + "` is missing. Please include it in your request, e.g., `"@ + key + ": value`."@
}

/// The error text for a missing required route parameter.
pub open spec fn missing_param(key: Seq<char>) -> Seq<char> {
    "[rxpress error]: Required route parameter `"@ + key
        + "` is missing. Ensure your route includes it, e.g., `/route/:"@ + key + "`."@
}

/// The error text for a missing required query parameter.
pub open spec fn missing_query(key: Seq<char>) -> Seq<char> {
    "[rxpress error]: Required query parameter `"@ + key
        + "` is missing. Please include it in your request, e.g., `/route?"@ + key
        + "=value`."@
}

/// `m[key]` when `key` is present, else `default`.
pub open spec fn value_or(m: Map<Seq<char>, Seq<char>>, key: Seq<char>, default: Seq<char>) -> Seq<
    char,
> {
    if m.contains_key(key) {
        m[key]
    } else {
        default
    }
}

/// Every piece is entered: its key is present, and when no later piece has
/// the same key, its value is the piece's value.
pub proof fn lemma_pieces_map(pieces: Seq<Seq<char>>)
    ensures
        forall|i: int|
            0 <= i < pieces.len() ==> pieces_map(pieces).contains_key(
                piece_key(#[trigger] pieces[i]),
            ),
        forall|i: int|
            0 <= i < pieces.len() && (forall|j: int|
                i < j < pieces.len() ==> piece_key(#[trigger] pieces[j]) != piece_key(pieces[i]))
                ==> pieces_map(pieces)[piece_key(#[trigger] pieces[i])] == piece_value(pieces[i]),
    decreases pieces.len(),
{
    if pieces.len() > 0 {
        let q = pieces.drop_last();
        lemma_pieces_map(q);
        assert forall|i: int| 0 <= i < pieces.len() implies pieces_map(pieces).contains_key(
            piece_key(#[trigger] pieces[i]),
        ) by {
            if i < q.len() {
                assert(pieces[i] == q[i]);
            }
        }
        assert forall|i: int|
            0 <= i < pieces.len() && (forall|j: int|
                i < j < pieces.len() ==> piece_key(#[trigger] pieces[j]) != piece_key(pieces[i]))
                implies pieces_map(pieces)[piece_key(#[trigger] pieces[i])] == piece_value(
            pieces[i],
        ) by {
            if i < q.len() {
                assert(pieces[i] == q[i]);
                assert(piece_key(pieces[pieces.len() - 1]) != piece_key(pieces[i]));
                assert forall|j: int| i < j < q.len() implies piece_key(#[trigger] q[j]) != piece_key(
                    q[i],
                ) by {
                    assert(q[j] == pieces[j]);
                }
            }
        }
    }
}

/// A request line `METHOD PATH?QUERY VERSION` gives back its method, path
/// and version, and its query map holds the key of every `&`-separated
/// piece, with the piece's value (empty for a key without `=`) wherever no
/// later piece repeats that key.
pub proof fn lemma_request_line(m: Seq<char>, p: Seq<char>, q: Seq<char>, v: Seq<char>)
    requires
        m.len() > 0,
        v.len() > 0,
        no_space(m),
        no_space(p),
        no_space(q),
        no_space(v),
        forall|i: int| 0 <= i < p.len() ==> #[trigger] p[i] != '?',
    ensures
        ({
            let line = m + seq![' '] + (p + seq!['?'] + q) + seq![' '] + v;
            let target = line_parts(line).1;
            let pieces = split(q, '&');
            &&& line_parts(line).0 == m
            &&& target_path(target) == p
            &&& line_parts(line).2 == v
            &&& forall|i: int|
                0 <= i < pieces.len() ==> target_query(target).contains_key(
                    piece_key(#[trigger] pieces[i]),
                )
            &&& forall|i: int|
                0 <= i < pieces.len() && (forall|j: int|
                    i < j < pieces.len() ==> piece_key(#[trigger] pieces[j]) != piece_key(
                        pieces[i],
                    )) ==> target_query(target)[piece_key(#[trigger] pieces[i])] == piece_value(
                    pieces[i],
                )
            &&& forall|i: int|
                0 <= i < pieces.len() && split_once(#[trigger] pieces[i], '=') is None
                    ==> piece_value(pieces[i]) == Seq::<char>::empty()
        }),
{
    let t = p + seq!['?'] + q;
    let line = m + seq![' '] + t + seq![' '] + v;
    assert(no_space(t)) by {
        assert forall|i: int| 0 <= i < t.len() implies !is_space(#[trigger] t[i]) by {
            if i < p.len() {
                assert(t[i] == p[i]);
            } else if i > p.len() {
                assert(t[i] == q[i - p.len() - 1]);
            }
        }
    }
    assert(line == m + seq![' '] + (t + seq![' '] + v));
    lemma_words_space(m, t + seq![' '] + v);
    lemma_words_space(t, v);
    lemma_words_single(v);
    assert(words(line) == seq![m, t, v]);
    lemma_split_once_at(p, '?', q);
    lemma_pieces_map(split(q, '&'));
}

/// An incoming request.
pub struct Request {
    pub method: String,
    pub path: String,
    pub headers: StrMap,
    pub version: String,
    pub query: StrMap,
    pub params: StrMap,
    pub body: String,
}

/// `a`, then `b`, then `c`, then `b` again, then `d`.
fn message(a: &str, b: &str, c: &str, d: &str) -> (r: String)
    ensures
        r@ == a@ + b@ + c@ + b@ + d@,
{
    let mut m = a.to_owned();
    m.append(b);
    m.append(c);
    m.append(b);
    m.append(d);
    m
}

impl Request {
    /// Whether `self` and `other` agree on everything but the route
    /// parameters.
    pub open spec fn same_but_params(&self, other: &Request) -> bool {
        &&& self.method@ == other.method@
        &&& self.path@ == other.path@
        &&& self.headers.pairs() == other.headers.pairs()
        &&& self.version@ == other.version@
        &&& self.query.pairs() == other.query.pairs()
        &&& self.body@ == other.body@
    }

    /// Parses a query string: `&`-separated pieces, each `key=value` cut at
    /// its first `=`, or a bare key with an empty value; a later key
    /// overwrites an earlier one.
    pub fn parse_query(q: &str) -> (r: StrMap)
        ensures
            r@ == query_map(q@),
    {
        let pieces = split_on(q, '&');
        let ghost ps = pieces@.map_values(|x: String| x@);
        let mut map = StrMap::new();
        let mut i: usize = 0;
        assert(ps.take(0) =~= Seq::<Seq<char>>::empty());
        while i < pieces.len()
            invariant
                ps == pieces@.map_values(|x: String| x@),
                ps == split(q@, '&'),
                i <= pieces.len(),
                map@ == pieces_map(ps.take(i as int)),
            decreases pieces.len() - i,
        {
            let piece = chars_of(pieces[i].as_str());
            let k = find_from(&piece, 0, '=');
            assert(piece@.skip(0) == piece@);
            if k < piece.len() {
                map.insert(string_of(&piece, 0, k), string_of(&piece, k + 1, piece.len()));
            } else {
                map.insert(string_of(&piece, 0, piece.len()), String::new());
                assert(piece@.subrange(0, piece@.len() as int) == piece@);
            }
            assert(piece@.take(k as int) == piece@.subrange(0, k as int));
            assert(piece@.skip(k + 1) == piece@.subrange(k + 1, piece@.len() as int));
            assert(ps.take(i + 1).drop_last() == ps.take(i as int));
            i = i + 1;
        }
        assert(ps.take(i as int) == ps);
        map
    }

    /// Builds a request from its request line, its headers and its body.
    /// The line is split on whitespace into method, target and version, and
    /// the target is cut at its first `?` into path and query.
    pub fn new(request_line: &str, headers: StrMap, body: String) -> (r: Request)
        ensures
            r.method@ == line_parts(request_line@).0,
            r.path@ == target_path(line_parts(request_line@).1),
            r.version@ == line_parts(request_line@).2,
            r.query@ == target_query(line_parts(request_line@).1),
            r.headers.pairs() == headers.pairs(),
            r.params.pairs() == Pairs::empty(),
            r.params@ == Map::<Seq<char>, Seq<char>>::empty(),
            r.body@ == body@,
    {
        let parts = split_words(request_line);
        let ghost w = parts@.map_values(|x: String| x@);
        let (method, target, version) = if parts.len() == 3 {
            assert(w[0] == parts@[0]@ && w[1] == parts@[1]@ && w[2] == parts@[2]@);
            (parts[0].clone(), parts[1].clone(), parts[2].clone())
        } else {
            ("GET".to_owned(), "/".to_owned(), "HTTP/1.1".to_owned())
        };
        let t = chars_of(target.as_str());
        let k = find_from(&t, 0, '?');
        assert(t@.skip(0) == t@);
        let (path, query) = if k < t.len() {
            let rest = string_of(&t, k + 1, t.len());
            assert(t@.take(k as int) == t@.subrange(0, k as int));
            assert(t@.skip(k + 1) == t@.subrange(k + 1, t@.len() as int));
            (string_of(&t, 0, k), Request::parse_query(rest.as_str()))
        } else {
            (target, StrMap::new())
        };
        Request { method, path, headers, version, query, params: StrMap::new(), body }
    }

    /// The value of the first header whose name equals `key` ignoring ASCII
    /// case.
    pub fn header(&self, key: &str) -> (r: Option<&String>)
        ensures
            text_opt(r) == first_folded(self.headers.pairs(), key@),
    {
        self.headers.get_ignore_case(key)
    }

    /// The value of header `key` (ignoring ASCII case), or `default`.
    pub fn header_or<'a>(&'a self, key: &str, default: &'a str) -> (r: &'a str)
        ensures
            r@ == match first_folded(self.headers.pairs(), key@) {
                Some(v) => v,
                None => default@,
            },
    {
        match self.header(key) {
            Some(v) => v.as_str(),
            None => default,
        }
    }

    /// The value of header `key` (ignoring ASCII case), or an error that
    /// names it.
    pub fn header_expect(&self, key: &str) -> (r: Result<&str, String>)
        ensures
            match r {
                Ok(x) => first_folded(self.headers.pairs(), key@) == Some(x@),
                Err(e) => first_folded(self.headers.pairs(), key@) is None && e@ == missing_header(
                    key@,
                ),
            },
    {
        match self.header(key) {
            Some(v) => Ok(v.as_str()),
            None => Err(
                message(
                    "[rxpress error]: Required header `",
                    key,
                    "` is missing. Please include it in your request, e.g., `",
                    ": value`.",
                ),
            ),
        }
    }

    /// The route parameter `key`.
    pub fn param(&self, key: &str) -> (r: Option<&String>)
        ensures
            r is Some <==> self.params@.contains_key(key@),
            r is Some ==> r->0@ == self.params@[key@],
    {
        self.params.get(key)
    }

    /// The route parameter `key`, or `default`.
    pub fn param_or<'a>(&'a self, key: &str, default: &'a str) -> (r: &'a str)
        ensures
            r@ == value_or(self.params@, key@, default@),
    {
        match self.params.get(key) {
            Some(v) => v.as_str(),
            None => default,
        }
    }

    /// The route parameter `key`, or an error that names it.
    pub fn param_expect(&self, key: &str) -> (r: Result<&str, String>)
        ensures
            match r {
                Ok(x) => self.params@.contains_key(key@) && x@ == self.params@[key@],
                Err(e) => !self.params@.contains_key(key@) && e@ == missing_param(key@),
            },
    {
        match self.params.get(key) {
            Some(v) => Ok(v.as_str()),
            None => Err(
                message(
                    "[rxpress error]: Required route parameter `",
                    key,
                    "` is missing. Ensure your route includes it, e.g., `/route/:",
                    "`.",
                ),
            ),
        }
    }

    /// The query parameter `key`.
    pub fn query(&self, key: &str) -> (r: Option<&String>)
        ensures
            r is Some <==> self.query@.contains_key(key@),
            r is Some ==> r->0@ == self.query@[key@],
    {
        self.query.get(key)
    }

    /// The query parameter `key`, or `default`.
    pub fn query_or<'a>(&'a self, key: &str, default: &'a str) -> (r: &'a str)
        ensures
            r@ == value_or(self.query@, key@, default@),
    {
        match self.query.get(key) {
            Some(v) => v.as_str(),
            None => default,
        }
    }

    /// The query parameter `key`, or an error that names it.
    pub fn query_expect(&self, key: &str) -> (r: Result<&str, String>)
        ensures
            match r {
                Ok(x) => self.query@.contains_key(key@) && x@ == self.query@[key@],
                Err(e) => !self.query@.contains_key(key@) && e@ == missing_query(key@),
            },
    {
        match self.query.get(key) {
            Some(v) => Ok(v.as_str()),
            None => Err(
                message(
                    "[rxpress error]: Required query parameter `",
                    key,
                    "` is missing. Please include it in your request, e.g., `/route?",
                    "=value`.",
                ),
            ),
        }
    }
}

} // verus!
