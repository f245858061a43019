//! Framing of an incoming request: its header lines and the length of its
//! body.
use vstd::prelude::*;

use crate::strmap::StrMap;
use crate::text::{chars_of, find_from, fold, lowercase, split_once, trim, trimmed};

verus! {

/// Index of the first empty line, or `lines.len()`.
pub open spec fn first_blank(lines: Seq<Seq<char>>) -> int
    decreases lines.len(),
{
    if lines.len() == 0 || lines[0].len() == 0 {
        0
    } else {
        1 + first_blank(lines.drop_first())
    }
}

/// The headers that `lines` give when entered in order: a line with a `:`
/// gives its trimmed name in lower case and its trimmed value; a line
/// without one is skipped.
pub open spec fn fields_map(lines: Seq<Seq<char>>) -> Map<Seq<char>, Seq<char>>
    decreases lines.len(),
{
    if lines.len() == 0 {
        Map::empty()
    } else {
        let prev = fields_map(lines.drop_last());
        match split_once(lines.last(), ':') {
            Some((k, v)) => prev.insert(fold(trim(k)), trim(v)),
            None => prev,
        }
    }
}

/// The headers of a request whose lines after the request line are
/// `lines`: those before the first empty line.
pub open spec fn header_map(lines: Seq<Seq<char>>) -> Map<Seq<char>, Seq<char>> {
    fields_map(lines.take(first_blank(lines)))
}

/// Whether every character of `s` is an ASCII digit.
pub open spec fn all_digits(s: Seq<char>) -> bool {
    forall|i: int| 0 <= i < s.len() ==> '0' <= #[trigger] s[i] && s[i] <= '9'
}

/// The number that the decimal digits `s` write.
pub open spec fn digits_value(s: Seq<char>) -> nat
    decreases s.len(),
{
    if s.len() == 0 {
        0
    } else {
        digits_value(s.drop_last()) * 10 + ((s.last() as u32 - 48) as nat)
    }
}

/// An unsigned machine integer written in decimal, with an optional
/// leading `+`; nothing when `s` is not one or the number does not fit.
pub open spec fn parse_size(s: Seq<char>) -> Option<nat> {
    let d = if s.len() > 0 && s[0] == '+' {
        s.drop_first()
    } else {
        s
    };
    if d.len() > 0 && all_digits(d) && digits_value(d) <= usize::MAX {
        Some(digits_value(d))
    } else {
        None
    }
}

proof fn lemma_digits_grow(s: Seq<char>, i: int)
    requires
        0 <= i <= s.len(),
        all_digits(s),
    ensures
        digits_value(s.take(i)) <= digits_value(s),
    decreases s.len() - i,
{
    if i < s.len() {
        lemma_digits_grow(s, i + 1);
        assert(s.take(i + 1).drop_last() == s.take(i));
    } else {
        assert(s.take(i) == s);
    }
}

/// Parses an unsigned machine integer written in decimal.
pub fn parse_usize(s: &str) -> (r: Option<usize>)
    ensures
        match r {
            Some(n) => parse_size(s@) == Some(n as nat),
            None => parse_size(s@) is None,
        },
{
    let v = chars_of(s);
    let start: usize = if v.len() > 0 && v[0] == '+' { 1 } else { 0 };
    let ghost d = v@.skip(start as int);
    assert(d == (if s@.len() > 0 && s@[0] == '+' { s@.drop_first() } else { s@ }));
    if start == v.len() {
        return None;
    }
    let mut value: usize = 0;
    let mut i = start;
    assert(d.take(0) == Seq::<char>::empty());
    while i < v.len()
        invariant
            v@ == s@,
            d == v@.skip(start as int),
            d == (if s@.len() > 0 && s@[0] == '+' { s@.drop_first() } else { s@ }),
            start <= i <= v.len(),
            all_digits(d.take(i - start)),
            value as nat == digits_value(d.take(i - start)),
        decreases v.len() - i,
    {
        let c = v[i];
        assert(d[i - start] == c);
        if c < '0' || c > '9' {
            assert(!all_digits(d));
            return None;
        }
        let x = (c as u32 - 48) as usize;
        assert(d.take(i - start + 1).drop_last() == d.take(i - start));
        if value > (usize::MAX - x) / 10 {
            proof {
                assert(value * 10 + x > usize::MAX) by (nonlinear_arith)
                    requires
                        value > (usize::MAX - x) / 10,
                        x <= 9,
                ;
                if all_digits(d) {
                    lemma_digits_grow(d, i - start + 1);
                }
            }
            return None;
        }
        assert(value * 10 + x <= usize::MAX) by (nonlinear_arith)
            requires
                value <= (usize::MAX - x) / 10,
                x <= 9,
        ;
        value = value * 10 + x;
        i = i + 1;
    }
    assert(d.take(i - start) == d);
    Some(value)
}

/// The headers that the lines after the request line give, up to the first
/// empty line. Names are trimmed and lower-cased, values trimmed, and a
/// line without `:` is skipped.
pub fn get_headers(lines: &Vec<String>) -> (r: StrMap)
    ensures
        r@ == header_map(lines@.map_values(|x: String| x@)),
{
    let ghost ls = lines@.map_values(|x: String| x@);
    let mut n: usize = 0;
    while n < lines.len() && !lines[n].as_str().is_empty()
        invariant
            ls == lines@.map_values(|x: String| x@),
            n <= lines.len(),
            forall|j: int| 0 <= j < n ==> (#[trigger] ls[j]).len() > 0,
        decreases lines.len() - n,
    {
        assert(ls[n as int] == lines@[n as int]@);
        n = n + 1;
    }
    proof {
        if n < lines.len() {
            assert(ls[n as int] == lines@[n as int]@);
        }
        lemma_first_blank_at(ls, n as int);
    }
    let mut map = StrMap::new();
    let mut i: usize = 0;
    assert(ls.take(0) == Seq::<Seq<char>>::empty());
    while i < n
        invariant
            ls == lines@.map_values(|x: String| x@),
            i <= n <= lines.len(),
            map@ == fields_map(ls.take(i as int)),
        decreases n - i,
    {
        let line = chars_of(lines[i].as_str());
        assert(ls[i as int] == line@);
        let k = find_from(&line, 0, ':');
        assert(line@.skip(0) == line@);
        assert(ls.take(i + 1).drop_last() == ls.take(i as int));
        if k < line.len() {
            let name = trimmed(&line, 0, k);
            let value = trimmed(&line, k + 1, line.len());
            assert(line@.take(k as int) == line@.subrange(0, k as int));
            assert(line@.skip(k + 1) == line@.subrange(k + 1, line@.len() as int));
            map.insert(lowercase(&name), value);
        }
        i = i + 1;
    }
    map
}

proof fn lemma_first_blank_at(lines: Seq<Seq<char>>, k: int)
    requires
        0 <= k <= lines.len(),
        forall|j: int| 0 <= j < k ==> (#[trigger] lines[j]).len() > 0,
        k < lines.len() ==> lines[k].len() == 0,
    ensures
        first_blank(lines) == k,
    decreases lines.len(),
{
    if k > 0 {
        assert forall|j: int| 0 <= j < k - 1 implies (#[trigger] lines.drop_first()[j]).len() > 0 by {
            assert(lines[j + 1].len() > 0);
        }
        lemma_first_blank_at(lines.drop_first(), k - 1);
    }
}

/// The length of the body that the headers announce: the value of
/// `content-length` when it is an unsigned integer, else nothing.
pub fn body_length(headers: &StrMap) -> (r: Option<usize>)
    ensures
        match r {
            Some(n) => headers@.contains_key("content-length"@) && parse_size(
                headers@["content-length"@],
            ) == Some(n as nat),
            None => !headers@.contains_key("content-length"@) || parse_size(
                headers@["content-length"@],
            ) is None,
        },
{
    match headers.get("content-length") {
        Some(v) => parse_usize(v.as_str()),
        None => None,
    }
}

} // verus!
