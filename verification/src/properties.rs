//! Resource properties and the match predicate.
//!
//! Every registered resource carries a set of key/value string pairs.
//! A slot or a request selects resources by requiring certain pairs;
//! the match holds exactly when every required key is present with the
//! exact required value.  Matching is case-sensitive.  The reserved
//! key `"name"` is present in every well-formed property set.

use vstd::prelude::*;

verus! {

/// The mathematical reading of a sequence of owned string pairs.
pub open spec fn pairs_view(s: Seq<(String, String)>) -> Seq<(Seq<char>, Seq<char>)> {
    s.map_values(|p: (String, String)| (p.0@, p.1@))
}

/// First-match lookup of `key` in an association sequence.
pub open spec fn lookup_key(pairs: Seq<(Seq<char>, Seq<char>)>, key: Seq<char>) -> Option<
    Seq<char>,
>
    decreases pairs.len(),
{
    if pairs.len() == 0 {
        None
    } else if pairs[0].0 == key {
        Some(pairs[0].1)
    } else {
        lookup_key(pairs.drop_first(), key)
    }
}

/// Prepending a pair shadows the rest of the association sequence for
/// its key and leaves every other key unchanged.
pub proof fn lemma_lookup_prepend(
    pairs: Seq<(Seq<char>, Seq<char>)>,
    p: (Seq<char>, Seq<char>),
    key: Seq<char>,
)
    ensures
        lookup_key(seq![p] + pairs, key) == if p.0 == key {
            Some(p.1)
        } else {
            lookup_key(pairs, key)
        },
{
    let s = seq![p] + pairs;
    assert(s[0] == p);
    assert(s.drop_first() =~= pairs);
}

/// A case-sensitive string-to-string mapping attached to each
/// registered resource.  Viewed as an association sequence; lookup is
/// first-match, and insertion prepends, so the newest pair for a key
/// wins.
pub struct Properties {
    entries: Vec<(String, String)>,
}

impl View for Properties {
    type V = Seq<(Seq<char>, Seq<char>)>;

    closed spec fn view(&self) -> Seq<(Seq<char>, Seq<char>)> {
        pairs_view(self.entries@)
    }
}

impl Properties {
    /// A property set is well formed when the reserved `"name"` key is
    /// present.
    pub open spec fn wf(self) -> bool {
        lookup_key(self@, "name"@) is Some
    }

    /// The value of the reserved `"name"` key.
    pub open spec fn spec_name(self) -> Seq<char>
        recommends
            self.wf(),
    {
        match lookup_key(self@, "name"@) {
            Some(n) => n,
            None => Seq::empty(),
        }
    }

    /// Every required pair is present with the exact required value.
    pub open spec fn spec_matches(self, required: Seq<(Seq<char>, Seq<char>)>) -> bool {
        forall|i: int|
            0 <= i < required.len() ==> lookup_key(self@, (#[trigger] required[i]).0) == Some(
                required[i].1,
            )
    }

    /// Creates a property set holding only the mandatory name pair.
    pub fn new(name: &str) -> (r: Properties)
        ensures
            r@ == seq![("name"@, name@)],
            r.wf(),
            r.spec_name() == name@,
    {
        let key: String = "name".to_owned();
        let value: String = name.to_owned();
        let mut entries: Vec<(String, String)> = Vec::new();
        entries.push((key, value));
        let r = Properties { entries };
        proof {
            assert(r@ =~= seq![("name"@, name@)]);
        }
        r
    }

    /// Adds a pair in front of the existing ones, so that lookups of
    /// this key now return `value`.
    pub fn insert(&mut self, key: String, value: String)
        ensures
            final(self)@ == seq![(key@, value@)] + old(self)@,
            lookup_key(final(self)@, key@) == Some(value@),
            forall|k: Seq<char>|
                k != key@ ==> #[trigger] lookup_key(final(self)@, k) == lookup_key(old(self)@, k),
            old(self).wf() ==> final(self).wf(),
    {
        let ghost prior = self@;
        let ghost kv = key@;
        let ghost vv = value@;
        self.entries.insert(0, (key, value));
        proof {
            assert(self@ =~= seq![(kv, vv)] + prior);
            assert forall|k: Seq<char>| true implies #[trigger] lookup_key(self@, k) == (if kv == k {
                Some(vv)
            } else {
                lookup_key(prior, k)
            }) by {
                lemma_lookup_prepend(prior, (kv, vv), k);
            }
        }
    }

    /// Point lookup: the first pair whose key equals `key`, if any.
    pub fn get(&self, key: &String) -> (r: Option<&String>)
        ensures
            match r {
                Some(v) => lookup_key(self@, key@) == Some(v@),
                None => lookup_key(self@, key@) is None,
            },
    {
        let n = self.entries.len();
        let mut i: usize = 0;
        proof {
            assert(self@.skip(0) =~= self@);
        }
        while i < n
            invariant
                n == self.entries.len(),
                i <= n,
                lookup_key(self@, key@) == lookup_key(self@.skip(i as int), key@),
            decreases n - i,
        {
            let pair = &self.entries[i];
            proof {
                assert(self@.skip(i as int)[0] == self@[i as int]);
                assert(self@[i as int] == (self.entries@[i as int].0@, self.entries@[i as int].1@));
            }
            if pair.0 == *key {
                return Some(&pair.1);
            }
            proof {
                assert(self@.skip(i as int).drop_first() =~= self@.skip(i as int + 1));
            }
            i = i + 1;
        }
        proof {
            assert(self@.skip(n as int) =~= Seq::empty());
        }
        None
    }

    /// The resource's name: the value of the reserved `"name"` key.
    pub fn name(&self) -> (r: &String)
        requires
            self.wf(),
        ensures
            r@ == self.spec_name(),
    {
        let key: String = "name".to_owned();
        match self.get(&key) {
            Some(v) => v,
            None => vstd::pervasive::unreached(),
        }
    }

    /// True iff every pair of `required` is present with the exact
    /// required value.  A missing key or a mismatched value is a
    /// non-match.
    pub fn matches(&self, required: &Vec<(String, String)>) -> (r: bool)
        ensures
            r == self.spec_matches(pairs_view(required@)),
    {
        let ghost rv = pairs_view(required@);
        let n = required.len();
        let mut i: usize = 0;
        while i < n
            invariant
                n == required.len(),
                i <= n,
                rv == pairs_view(required@),
                forall|j: int|
                    0 <= j < i ==> lookup_key(self@, (#[trigger] rv[j]).0) == Some(rv[j].1),
            decreases n - i,
        {
            let pair = &required[i];
            proof {
                assert(rv[i as int] == (pair.0@, pair.1@));
            }
            let ok: bool = match self.get(&pair.0) {
                Some(v) => *v == pair.1,
                None => false,
            };
            if !ok {
                proof {
                    assert(lookup_key(self@, rv[i as int].0) != Some(rv[i as int].1));
                }
                return false;
            }
            i = i + 1;
        }
        true
    }

    /// A copy with the same mathematical contents.
    pub fn duplicate(&self) -> (r: Properties)
        ensures
            r@ == self@,
    {
        let n = self.entries.len();
        let mut entries: Vec<(String, String)> = Vec::new();
        let mut i: usize = 0;
        while i < n
            invariant
                n == self.entries.len(),
                i <= n,
                entries@ =~= self.entries@.take(i as int),
            decreases n - i,
        {
            let pair = &self.entries[i];
            entries.push((pair.0.clone(), pair.1.clone()));
            i = i + 1;
        }
        let r = Properties { entries };
        proof {
            assert(r.entries@ =~= self.entries@);
        }
        r
    }
}

} // verus!
