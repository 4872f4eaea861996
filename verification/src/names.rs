//! The map from area codes to display names, and name normalization.

use vstd::prelude::*;
use crate::text::{hyphens_to_spaces, spaced, str_eq};

verus! {

/// What the title-casing routine of the `titlecase` crate returns; the
/// result is a function of the input characters alone.
pub uninterp spec fn titlecase_of(s: Seq<char>) -> Seq<char>;

/// Relies on titlecase::titlecase: turns a phrase into title case, computing
/// the result from the input characters alone.
#[verifier::external_body]
fn titlecase_str(s: &str) -> (r: String)
    ensures
        r@ == titlecase_of(s@),
{
    titlecase::titlecase(s)
}

/// A raw area name made displayable: hyphens become spaces, then the words
/// are title-cased.
pub open spec fn normalized(raw: Seq<char>) -> Seq<char> {
    titlecase_of(spaced(raw))
}

/// Normalizes a raw area name for display.
pub fn normalize_name(raw: &str) -> (r: String)
    ensures
        r@ == normalized(raw@),
{
    let t = hyphens_to_spaces(raw);
    titlecase_str(t.as_str())
}

/// The map described by a sequence of key-value entries, later entries
/// winning.
pub open spec fn map_of(s: Seq<(Seq<char>, Seq<char>)>) -> Map<Seq<char>, Seq<char>>
    decreases s.len(),
{
    if s.len() == 0 {
        Map::empty()
    } else {
        map_of(s.drop_last()).insert(s.last().0, s.last().1)
    }
}

/// Whether no two entries share a key.
pub open spec fn unique_keys(s: Seq<(Seq<char>, Seq<char>)>) -> bool {
    forall|i: int, j: int| 0 <= i < j < s.len() ==> s[i].0 != s[j].0
}

proof fn lemma_map_of_contains(s: Seq<(Seq<char>, Seq<char>)>, k: Seq<char>)
    ensures
        map_of(s).contains_key(k) <==> exists|i: int| 0 <= i < s.len() && s[i].0 == k,
    decreases s.len(),
{
    if s.len() > 0 {
        lemma_map_of_contains(s.drop_last(), k);
        if s.last().0 == k {
            assert(s[s.len() - 1].0 == k);
        } else if map_of(s).contains_key(k) {
            let i = choose|i: int| 0 <= i < s.drop_last().len() && s.drop_last()[i].0 == k;
            assert(s[i].0 == k);
        } else {
            assert forall|i: int| 0 <= i < s.len() implies s[i].0 != k by {
                if i < s.len() - 1 {
                    assert(s.drop_last()[i].0 != k);
                }
            }
        }
    }
}

proof fn lemma_map_of_value(s: Seq<(Seq<char>, Seq<char>)>, i: int)
    requires
        unique_keys(s),
        0 <= i < s.len(),
    ensures
        map_of(s).contains_key(s[i].0),
        map_of(s)[s[i].0] == s[i].1,
    decreases s.len(),
{
    if i < s.len() - 1 {
        assert(unique_keys(s.drop_last())) by {
            assert forall|p: int, q: int|
                0 <= p < q < s.drop_last().len() implies s.drop_last()[p].0 != s.drop_last()[q].0 by {
                assert(s[p].0 != s[q].0);
            }
        }
        lemma_map_of_value(s.drop_last(), i);
        assert(s.last().0 != s[i].0);
    }
}

proof fn lemma_map_of_update(s: Seq<(Seq<char>, Seq<char>)>, i: int, v: Seq<char>)
    requires
        unique_keys(s),
        0 <= i < s.len(),
    ensures
        map_of(s.update(i, (s[i].0, v))) == map_of(s).insert(s[i].0, v),
    decreases s.len(),
{
    let t = s.update(i, (s[i].0, v));
    if i == s.len() - 1 {
        assert(t.drop_last() =~= s.drop_last());
        assert(t.last() == (s[i].0, v));
        assert(map_of(t) =~= map_of(s).insert(s[i].0, v));
    } else {
        assert(unique_keys(s.drop_last())) by {
            assert forall|p: int, q: int|
                0 <= p < q < s.drop_last().len() implies s.drop_last()[p].0 != s.drop_last()[q].0 by {
                assert(s[p].0 != s[q].0);
            }
        }
        assert(t.drop_last() =~= s.drop_last().update(i, (s[i].0, v)));
        assert(s.drop_last()[i] == s[i]);
        lemma_map_of_update(s.drop_last(), i, v);
        assert(t.last() == s.last());
        assert(s.last().0 != s[i].0);
        assert(map_of(t) =~= map_of(s).insert(s[i].0, v));
    }
}

/// A mapping from area-code text to a display name, keys unique.
#[derive(Debug)]
pub struct NameMap {
    entries: Vec<(String, String)>,
}

impl View for NameMap {
    type V = Map<Seq<char>, Seq<char>>;

    closed spec fn view(&self) -> Map<Seq<char>, Seq<char>> {
        map_of(self.entry_views())
    }
}

impl NameMap {
    /// The entries as character sequences, in insertion order.
    pub closed spec fn entry_views(&self) -> Seq<(Seq<char>, Seq<char>)> {
        Seq::new(self.entries@.len(), |i: int| (self.entries@[i].0@, self.entries@[i].1@))
    }

    /// Well-formed: no two entries share a key.
    pub closed spec fn wf(&self) -> bool {
        unique_keys(self.entry_views())
    }

    /// An empty map.
    pub fn new() -> (r: NameMap)
        ensures
            r.wf(),
            r@ == Map::<Seq<char>, Seq<char>>::empty(),
            r@.dom() == Set::<Seq<char>>::empty(),
    {
        let r = NameMap { entries: Vec::new() };
        proof {
            assert(r.entry_views() =~= Seq::<(Seq<char>, Seq<char>)>::empty());
            assert(r@.dom() =~= Set::<Seq<char>>::empty());
        }
        r
    }

    /// Whether the map has no entry.
    pub fn is_empty(&self) -> (r: bool)
        requires
            self.wf(),
        ensures
            r == self@.dom().is_empty(),
    {
        let r = self.entries.len() == 0;
        proof {
            if self.entries@.len() == 0 {
                assert(self.entry_views() =~= Seq::<(Seq<char>, Seq<char>)>::empty());
                assert(self@.dom() =~= Set::<Seq<char>>::empty());
            } else {
                lemma_map_of_value(self.entry_views(), 0);
                assert(self@.dom().contains(self.entry_views()[0].0));
            }
        }
        r
    }

    /// The display name stored under an area code.
    pub fn get<'a>(&'a self, code: &str) -> (r: Option<&'a String>)
        requires
            self.wf(),
        ensures
            match r {
                Option::Some(v) => self@.contains_key(code@) && v@ == self@[code@],
                Option::None => !self@.contains_key(code@),
            },
    {
        let n = self.entries.len();
        let mut i: usize = 0;
        while i < n
            invariant
                self.wf(),
                i <= n,
                n == self.entries@.len(),
                forall|j: int| 0 <= j < i ==> self.entry_views()[j].0 != code@,
            decreases n - i,
        {
            if str_eq(self.entries[i].0.as_str(), code) {
                proof {
                    assert(self.entry_views()[i as int].0 == code@);
                    lemma_map_of_value(self.entry_views(), i as int);
                }
                return Some(&self.entries[i].1);
            }
            proof {
                assert(self.entry_views()[i as int].0 == self.entries@[i as int].0@);
            }
            i = i + 1;
        }
        proof {
            lemma_map_of_contains(self.entry_views(), code@);
        }
        None
    }

    /// Stores a display name under an area code, replacing an earlier one.
    pub fn insert(&mut self, code: String, name: String)
        requires
            old(self).wf(),
        ensures
            final(self).wf(),
            final(self)@ == old(self)@.insert(code@, name@),
    {
        let n = self.entries.len();
        let mut i: usize = 0;
        while i < n
            invariant
                self.wf(),
                *self == *old(self),
                i <= n,
                n == self.entries@.len(),
                forall|j: int| 0 <= j < i ==> self.entry_views()[j].0 != code@,
            decreases n - i,
        {
            if str_eq(self.entries[i].0.as_str(), code.as_str()) {
                proof {
                    assert(self.entry_views()[i as int].0 == code@);
                }
                let ghost pre = self.entry_views();
                self.entries.set(i, (code, name));
                proof {
                    assert(self.entry_views() =~= pre.update(
                        i as int,
                        (pre[i as int].0, self.entries@[i as int].1@),
                    ));
                    lemma_map_of_update(pre, i as int, self.entries@[i as int].1@);
                    assert forall|p: int, q: int|
                        0 <= p < q < self.entry_views().len() implies self.entry_views()[p].0
                        != self.entry_views()[q].0 by {
                        assert(pre[p].0 != pre[q].0);
                    }
                }
                return ;
            }
            proof {
                assert(self.entry_views()[i as int].0 == self.entries@[i as int].0@);
            }
            i = i + 1;
        }
        let ghost pre = self.entry_views();
        self.entries.push((code, name));
        proof {
            assert(self.entry_views() =~= pre.push(
                (self.entries@.last().0@, self.entries@.last().1@),
            ));
            assert(self.entry_views().drop_last() =~= pre);
            assert forall|p: int, q: int|
                0 <= p < q < self.entry_views().len() implies self.entry_views()[p].0
                != self.entry_views()[q].0 by {
                if q < pre.len() {
                    assert(pre[p].0 != pre[q].0);
                } else {
                    assert(pre[p].0 != self.entry_views()[q].0);
                }
            }
        }
    }
}

/// The name map that a list of raw (code, name) pairs resolves to: each raw
/// name normalized, later pairs winning.
pub open spec fn resolved_map(pairs: Seq<(Seq<char>, Seq<char>)>) -> Map<Seq<char>, Seq<char>>
    decreases pairs.len(),
{
    if pairs.len() == 0 {
        Map::empty()
    } else {
        resolved_map(pairs.drop_last()).insert(pairs.last().0, normalized(pairs.last().1))
    }
}

/// The resolved map holds exactly the normalization of the last pair that
/// carries a key.
pub proof fn lemma_resolved_map_last_wins(pairs: Seq<(Seq<char>, Seq<char>)>, i: int)
    requires
        0 <= i < pairs.len(),
        forall|j: int| i < j < pairs.len() ==> pairs[j].0 != pairs[i].0,
    ensures
        resolved_map(pairs).contains_key(pairs[i].0),
        resolved_map(pairs)[pairs[i].0] == normalized(pairs[i].1),
    decreases pairs.len(),
{
    if i < pairs.len() - 1 {
        assert(pairs.drop_last()[i] == pairs[i]);
        assert forall|j: int| i < j < pairs.drop_last().len() implies pairs.drop_last()[j].0
            != pairs.drop_last()[i].0 by {
            assert(pairs[j].0 != pairs[i].0);
        }
        lemma_resolved_map_last_wins(pairs.drop_last(), i);
        assert(pairs.last().0 != pairs[i].0);
    }
}

/// The views of a list of string pairs.
pub open spec fn pair_views(ps: Seq<(String, String)>) -> Seq<(Seq<char>, Seq<char>)> {
    Seq::new(ps.len(), |i: int| (ps[i].0@, ps[i].1@))
}

/// Builds the display-name map from raw (code, name) pairs.
pub fn build_name_map(pairs: &Vec<(String, String)>) -> (m: NameMap)
    ensures
        m.wf(),
        m@ == resolved_map(pair_views(pairs@)),
{
    let mut m = NameMap::new();
    let mut i: usize = 0;
    proof {
        assert(pair_views(pairs@).take(0) =~= Seq::<(Seq<char>, Seq<char>)>::empty());
    }
    while i < pairs.len()
        invariant
            i <= pairs@.len(),
            m.wf(),
            m@ == resolved_map(pair_views(pairs@).take(i as int)),
        decreases pairs@.len() - i,
    {
        let name = normalize_name(pairs[i].1.as_str());
        let code = pairs[i].0.clone();
        m.insert(code, name);
        proof {
            let pv = pair_views(pairs@);
            assert(pv.take(i as int + 1).drop_last() =~= pv.take(i as int));
            assert(pv.take(i as int + 1).last() == pv[i as int]);
        }
        i = i + 1;
    }
    proof {
        assert(pair_views(pairs@).take(pairs@.len() as int) =~= pair_views(pairs@));
    }
    m
}

} // verus!
