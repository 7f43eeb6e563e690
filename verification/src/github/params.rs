//! Query parameters of a request, kept in the order of their names.

use crate::text::{
    chars_of, lemma_text_lt_transitive, lemma_text_total, precedes, same_text, text_lt,
};
use vstd::prelude::*;

verus! {

/// One `name=value` pair of a query.
#[derive(Debug)]
pub struct Parameter {
    pub name: &'static str,
    pub value: String,
}

/// The pairs of a query as texts.
pub type Pairs = Seq<(Seq<char>, Seq<char>)>;

/// The pairs `s` with `name` bound to `value`: an entry of that name is
/// replaced where it stands, a new name goes before the first greater one.
pub open spec fn bind(s: Pairs, name: Seq<char>, value: Seq<char>) -> Pairs
    decreases s.len(),
{
    if s.len() == 0 {
        seq![(name, value)]
    } else if s[0].0 == name {
        seq![(name, value)] + s.drop_first()
    } else if text_lt(name, s[0].0) {
        seq![(name, value)] + s
    } else {
        seq![s[0]] + bind(s.drop_first(), name, value)
    }
}

/// Whether the names of `s` strictly increase.
pub open spec fn ascending(s: Pairs) -> bool {
    forall|i: int, j: int| 0 <= i < j < s.len() ==> text_lt(#[trigger] s[i].0, #[trigger] s[j].0)
}

/// Binding a name keeps the names in strictly increasing order, and every
/// name of the result is the new name or one that was there before.
pub proof fn lemma_bind_ascending(s: Pairs, name: Seq<char>, value: Seq<char>)
    requires
        ascending(s),
    ensures
        ascending(bind(s, name, value)),
        forall|k: int|
            0 <= k < bind(s, name, value).len() ==> {
                ||| (#[trigger] bind(s, name, value)[k]).0 == name
                ||| exists|i: int| 0 <= i < s.len() && s[i].0 == bind(s, name, value)[k].0
            },
    decreases s.len(),
{
    let r = bind(s, name, value);
    if s.len() == 0 {
    } else if s[0].0 == name {
        assert forall|i: int, j: int| 0 <= i < j < r.len() implies text_lt(
            #[trigger] r[i].0,
            #[trigger] r[j].0,
        ) by {
            assert(r[j] == s[j]);
            if i > 0 {
                assert(r[i] == s[i]);
            } else {
                assert(text_lt(s[0].0, s[j].0));
            }
        }
        assert forall|k: int| 0 <= k < r.len() implies {
            ||| (#[trigger] r[k]).0 == name
            ||| exists|i: int| 0 <= i < s.len() && s[i].0 == r[k].0
        } by {
            if k > 0 {
                assert(s[k].0 == r[k].0);
            }
        }
    } else if text_lt(name, s[0].0) {
        assert forall|i: int, j: int| 0 <= i < j < r.len() implies text_lt(
            #[trigger] r[i].0,
            #[trigger] r[j].0,
        ) by {
            assert(r[j] == s[j - 1]);
            if i > 0 {
                assert(r[i] == s[i - 1]);
            } else if j > 1 {
                assert(text_lt(s[0].0, s[j - 1].0));
                lemma_text_lt_transitive(name, s[0].0, s[j - 1].0);
            }
        }
        assert forall|k: int| 0 <= k < r.len() implies {
            ||| (#[trigger] r[k]).0 == name
            ||| exists|i: int| 0 <= i < s.len() && s[i].0 == r[k].0
        } by {
            if k > 0 {
                assert(s[k - 1].0 == r[k].0);
            }
        }
    } else {
        let rest = s.drop_first();
        let tail = bind(rest, name, value);
        assert forall|i: int, j: int| 0 <= i < j < rest.len() implies text_lt(
            #[trigger] rest[i].0,
            #[trigger] rest[j].0,
        ) by {
            assert(rest[i] == s[i + 1]);
            assert(rest[j] == s[j + 1]);
        }
        lemma_bind_ascending(rest, name, value);
        lemma_text_total(name, s[0].0);
        assert forall|k: int| 0 <= k < r.len() implies {
            ||| (#[trigger] r[k]).0 == name
            ||| exists|i: int| 0 <= i < s.len() && s[i].0 == r[k].0
        } by {
            if k > 0 {
                assert(r[k] == tail[k - 1]);
                if tail[k - 1].0 != name {
                    let i = choose|i: int| 0 <= i < rest.len() && rest[i].0 == tail[k - 1].0;
                    assert(s[i + 1].0 == r[k].0);
                }
            } else {
                assert(s[0].0 == r[0].0);
            }
        }
        assert forall|i: int, j: int| 0 <= i < j < r.len() implies text_lt(
            #[trigger] r[i].0,
            #[trigger] r[j].0,
        ) by {
            assert(r[j] == tail[j - 1]);
            if i > 0 {
                assert(r[i] == tail[i - 1]);
            } else {
                assert(r[0] == s[0]);
                if tail[j - 1].0 != name {
                    let m = choose|m: int| 0 <= m < rest.len() && rest[m].0 == tail[j - 1].0;
                    assert(rest[m] == s[m + 1]);
                    assert(text_lt(s[0].0, s[m + 1].0));
                }
            }
        }
    }
}

/// The pairs that a list of parameters holds.
pub open spec fn pairs_of(entries: Seq<Parameter>) -> Pairs {
    Seq::new(entries.len(), |i: int| (entries[i].name@, entries[i].value@))
}

fn place(entries: &mut Vec<Parameter>, name: &'static str, value: String)
    ensures
        pairs_of(final(entries)@) == bind(pairs_of(old(entries)@), name@, value@),
{
    let ghost before = pairs_of(entries@);
    let key = chars_of(name);
    let mut k: usize = 0;
    assert(before.skip(0) == before);
    assert(before.take(0) + bind(before, name@, value@) == bind(before, name@, value@));
    while k < entries.len()
        invariant
            k <= entries.len(),
            pairs_of(entries@) == before,
            before == pairs_of(old(entries)@),
            key@ == name@,
            bind(before, name@, value@) == before.take(k as int) + bind(
                before.skip(k as int),
                name@,
                value@,
            ),
        decreases entries.len() - k,
    {
        let here = chars_of(entries[k].name);
        let ghost rest = before.skip(k as int);
        assert(rest[0] == before[k as int]);
        assert(rest[0].0 == here@);
        if same_text(&here, &key) {
            entries[k] = Parameter { name, value };
            assert(pairs_of(entries@) =~= before.take(k as int) + (seq![(name@, value@)]
                + rest.drop_first()));
            return ;
        }
        if precedes(&key, &here) {
            entries.insert(k, Parameter { name, value });
            assert(pairs_of(entries@) =~= before.take(k as int) + (seq![(name@, value@)] + rest));
            return ;
        }
        assert(rest.drop_first() == before.skip(k + 1));
        assert(before.take(k as int) + (seq![rest[0]] + bind(rest.drop_first(), name@, value@))
            =~= before.take(k + 1) + bind(before.skip(k + 1), name@, value@));
        k = k + 1;
    }
    entries.push(Parameter { name, value });
    assert(before.skip(k as int).len() == 0);
    assert(pairs_of(entries@) =~= before.take(k as int) + seq![(name@, value@)]);
}

/// The parameters of a request: at most one value per name, names in
/// strictly increasing order.
#[derive(Debug)]
pub struct ParameterMap {
    entries: Vec<Parameter>,
}

impl View for ParameterMap {
    type V = Pairs;

    closed spec fn view(&self) -> Pairs {
        pairs_of(self.entries@)
    }
}

impl ParameterMap {
    #[verifier::type_invariant]
    spec fn inv(&self) -> bool {
        ascending(pairs_of(self.entries@))
    }

    /// A map without parameters.
    pub fn new() -> (m: ParameterMap)
        ensures
            m@ == Seq::<(Seq<char>, Seq<char>)>::empty(),
    {
        let m = ParameterMap { entries: Vec::new() };
        assert(m@ =~= Seq::<(Seq<char>, Seq<char>)>::empty());
        m
    }

    /// Number of parameters.
    pub fn len(&self) -> (n: usize)
        ensures
            n == self@.len(),
            ascending(self@),
    {
        proof {
            use_type_invariant(self);
        }
        self.entries.len()
    }

    /// The parameter at position `i` in name order.
    pub fn get(&self, i: usize) -> (p: &Parameter)
        requires
            i < self@.len(),
        ensures
            (p.name@, p.value@) == self@[i as int],
    {
        &self.entries[i]
    }

    /// Binds `name` to `value`, replacing an earlier value of that name.
    /// The names stay in strictly increasing order.
    pub fn insert(&mut self, name: &'static str, value: String)
        ensures
            final(self)@ == bind(old(self)@, name@, value@),
            ascending(final(self)@),
    {
        proof {
            use_type_invariant(&*self);
            lemma_bind_ascending(self@, name@, value@);
        }
        let mut entries: Vec<Parameter> = Vec::new();
        std::mem::swap(&mut self.entries, &mut entries);
        place(&mut entries, name, value);
        self.entries = entries;
    }
}

} // verus!
