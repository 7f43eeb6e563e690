//! The link list of a response header.
//!
//! The list is a sequence of entries separated by commas.  An entry has the
//! form `<address>; rel="value"`.  The continuation of a collection is the
//! address of the first entry whose relation is `next`.

use crate::text::{
    chars_of, find, index_of, range_is, skip_back, skip_front, split, strip_back, strip_front, trim, trim_range, Strip,
};
use vstd::prelude::*;

verus! {

/// The relation that marks the continuation.
pub open spec fn rel_next() -> Seq<char> {
    "rel=\"next\""@
}

/// The fields of an entry: the entry is trimmed and cut at semicolons.
pub open spec fn fields(entry: Seq<char>) -> Seq<Seq<char>> {
    split(trim(entry), ';')
}

/// The address of `entry` if it is a continuation: the entry has exactly
/// two fields, the second is the `next` relation once trimmed, and the
/// address is the trimmed first field without its leading `<` and trailing
/// `>` characters.
pub open spec fn target(entry: Seq<char>) -> Option<Seq<char>> {
    let f = fields(entry);
    if f.len() == 2 && trim(f[1]) == rel_next() {
        Some(strip_back(strip_front(trim(f[0]), Strip::Char('<')), Strip::Char('>')))
    } else {
        None
    }
}

/// The address of the first continuation among `entries`.
pub open spec fn first_target(entries: Seq<Seq<char>>) -> Option<Seq<char>>
    decreases entries.len(),
{
    if entries.len() == 0 {
        None
    } else {
        match target(entries[0]) {
            Some(address) => Some(address),
            None => first_target(entries.drop_first()),
        }
    }
}

/// The continuation that a link list names, if any.  A list that is
/// malformed names none.
pub open spec fn next_link(header: Seq<char>) -> Option<Seq<char>> {
    first_target(split(header, ','))
}

/// The continuation named by an optional link list.
pub open spec fn next_page_of(link: Option<String>) -> Option<Seq<char>> {
    match link {
        Some(header) => next_link(header@),
        None => None,
    }
}

/// Cutting a text yields at least one piece.
pub proof fn lemma_split_nonempty(s: Seq<char>, sep: char)
    ensures
        split(s, sep).len() >= 1,
    decreases s.len(),
{
    let i = index_of(s, sep) as int;
    if i < s.len() {
        lemma_split_nonempty(s.subrange(i + 1, s.len() as int), sep);
    }
}

fn entry_target(v: &Vec<char>, from: usize, to: usize, word: &Vec<char>) -> (r: Option<
    (usize, usize),
>)
    requires
        from <= to <= v.len(),
        word@ == rel_next(),
    ensures
        r is Some == target(v@.subrange(from as int, to as int)) is Some,
        r matches Some((a, b)) ==> a <= b <= v.len() && Some(v@.subrange(a as int, b as int))
            == target(v@.subrange(from as int, to as int)),
{
    let (a, b) = trim_range(v, from, to);
    let ghost t = v@.subrange(a as int, b as int);
    let first = find(v, a, b, ';');
    if first >= b {
        return None;
    }
    let ghost rest = v@.subrange(first + 1, b as int);
    assert(t.subrange(first - a + 1, t.len() as int) == rest);
    assert(t.subrange(0, first - a) == v@.subrange(a as int, first as int));
    let second = find(v, first + 1, b, ';');
    if second < b {
        proof {
            let beyond = rest.subrange(second - first, rest.len() as int);
            lemma_split_nonempty(beyond, ';');
            assert(split(rest, ';') == seq![rest.subrange(0, second - first - 1)] + split(
                beyond,
                ';',
            ));
            assert(split(t, ';') == seq![t.subrange(0, first - a)] + split(rest, ';'));
        }
        return None;
    }
    assert(split(rest, ';') == seq![rest]);
    assert(fields(v@.subrange(from as int, to as int)) == seq![
        v@.subrange(a as int, first as int),
        rest,
    ]);
    let (c, d) = trim_range(v, first + 1, b);
    if !range_is(v, c, d, word) {
        return None;
    }
    let (e, f) = trim_range(v, a, first);
    let g = skip_front(v, e, f, Strip::Char('<'));
    let h = skip_back(v, g, f, Strip::Char('>'));
    Some((g, h))
}

/// Reads the continuation out of a link list.
pub fn next_link_of(header: &str) -> (r: Option<String>)
    ensures
        r.deep_view() == next_link(header@),
{
    let v = chars_of(header);
    let word = chars_of("rel=\"next\"");
    let n = v.len();
    let mut p: usize = 0;
    assert(v@.subrange(0, n as int) == v@);
    loop
        invariant
            p <= n,
            n == v.len(),
            v@ == header@,
            word@ == rel_next(),
            next_link(header@) == first_target(split(v@.subrange(p as int, n as int), ',')),
        decreases n - p,
    {
        let ghost s = v@.subrange(p as int, n as int);
        let i = find(&v, p, n, ',');
        let ghost entry = v@.subrange(p as int, i as int);
        proof {
            assert(s.subrange(0, i - p) == entry);
            if i < n {
                let tail = split(s.subrange(i - p + 1, s.len() as int), ',');
                assert(s.subrange(i - p + 1, s.len() as int) == v@.subrange(i + 1, n as int));
                assert(split(s, ',') == seq![entry] + tail);
                assert(split(s, ',').drop_first() == tail);
            } else {
                assert(s == entry);
                assert(split(s, ',') == seq![entry]);
                assert(split(s, ',').drop_first().len() == 0);
                assert(first_target(split(s, ',').drop_first()) is None);
            }
            assert(split(s, ',')[0] == entry);
        }
        match entry_target(&v, p, i, &word) {
            Some((a, b)) => {
                let address = header.substring_char(a, b);
                return Some(address.to_owned());
            },
            None => {},
        }
        if i >= n {
            return None;
        }
        p = i + 1;
    }
}

} // verus!
