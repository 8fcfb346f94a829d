//! The attributes of a person to create: a mapping from attribute name to
//! value, in which a later value for a name replaces an earlier one.
use vstd::prelude::*;

verus! {

/// The mapping that a sequence of (name, value) pairs denotes when the pairs
/// are applied in order, so that the last pair for a name decides its value.
pub open spec fn pairs_map(s: Seq<(String, String)>) -> Map<Seq<char>, Seq<char>>
    decreases s.len(),
{
    if s.len() == 0 {
        Map::empty()
    } else {
        pairs_map(s.drop_last()).insert(s.last().0@, s.last().1@)
    }
}

/// A name is mapped iff some pair carries it.
pub proof fn lemma_pairs_map_dom(s: Seq<(String, String)>, k: Seq<char>)
    ensures
        pairs_map(s).contains_key(k) <==> exists|i: int| 0 <= i < s.len() && s[i].0@ == k,
    decreases s.len(),
{
    if s.len() > 0 {
        lemma_pairs_map_dom(s.drop_last(), k);
        if pairs_map(s).contains_key(k) && s.last().0@ != k {
            let i = choose|i: int| 0 <= i < s.len() - 1 && s.drop_last()[i].0@ == k;
            assert(s[i].0@ == k);
        }
        if exists|i: int| 0 <= i < s.len() && s[i].0@ == k {
            let i = choose|i: int| 0 <= i < s.len() && s[i].0@ == k;
            if i < s.len() - 1 {
                assert(s.drop_last()[i].0@ == k);
            }
        }
    }
}

/// Pairs after position `n` that do not carry `k` leave its entry as the
/// first `n` pairs made it.
pub proof fn lemma_pairs_map_suffix(s: Seq<(String, String)>, n: int, k: Seq<char>)
    requires
        0 <= n <= s.len(),
        forall|j: int| n <= j < s.len() ==> s[j].0@ != k,
    ensures
        pairs_map(s).contains_key(k) == pairs_map(s.take(n)).contains_key(k),
        pairs_map(s).contains_key(k) ==> pairs_map(s)[k] == pairs_map(s.take(n))[k],
    decreases s.len(),
{
    if s.len() == n {
        assert(s.take(n) =~= s);
    } else {
        lemma_pairs_map_suffix(s.drop_last(), n, k);
        assert(s.drop_last().take(n) =~= s.take(n));
    }
}

/// Person attributes keyed by name.
#[derive(Debug)]
pub struct PersonParams {
    entries: Vec<(String, String)>,
}

impl View for PersonParams {
    type V = Map<Seq<char>, Seq<char>>;

    closed spec fn view(&self) -> Map<Seq<char>, Seq<char>> {
        pairs_map(self.entries@)
    }
}

impl PersonParams {
    /// No attributes.
    pub fn new() -> (r: PersonParams)
        ensures
            r@ == Map::<Seq<char>, Seq<char>>::empty(),
    {
        PersonParams { entries: Vec::new() }
    }

    /// Sets `key` to `value`, replacing any earlier value of `key`.
    pub fn insert(&mut self, key: String, value: String)
        ensures
            final(self)@ == old(self)@.insert(key@, value@),
    {
        let ghost before = self.entries@;
        self.entries.push((key, value));
        assert(self.entries@.drop_last() =~= before);
    }

    /// The value of `key`, if it is set.
    pub fn value_of(&self, key: &str) -> (r: Option<&String>)
        ensures
            r matches Some(v) ==> self@.contains_key(key@) && self@[key@] == v@,
            r is None ==> !self@.contains_key(key@),
    {
        let mut i: usize = self.entries.len();
        while i > 0
            invariant
                i <= self.entries@.len(),
                forall|j: int| i <= j < self.entries@.len() ==> self.entries@[j].0@ != key@,
            decreases i,
        {
            if crate::text::same_text(self.entries[i - 1].0.as_str(), key) {
                proof {
                    lemma_pairs_map_suffix(self.entries@, i as int, key@);
                    let t = self.entries@.take(i as int);
                    assert(t.drop_last() =~= self.entries@.take(i - 1));
                }
                return Some(&self.entries[i - 1].1);
            }
            i = i - 1;
        }
        proof {
            lemma_pairs_map_suffix(self.entries@, 0, key@);
            assert(self.entries@.take(0).len() == 0);
        }
        None
    }
}

impl PersonParams {
    /// Whether every name set here is set in `other` to the same value.
    fn covered_by(&self, other: &PersonParams) -> (r: bool)
        ensures
            r <==> (forall|k: Seq<char>| #[trigger] self@.contains_key(k) ==> other@.contains_key(k)
                && other@[k] == self@[k]),
    {
        let mut i: usize = 0;
        while i < self.entries.len()
            invariant
                i <= self.entries@.len(),
                forall|j: int|
                    0 <= j < i ==> {
                        let k = #[trigger] self.entries@[j].0@;
                        other@.contains_key(k) && other@[k] == self@[k]
                    },
            decreases self.entries@.len() - i,
        {
            let key = self.entries[i].0.as_str();
            proof {
                assert(self.entries@[i as int].0@ == key@);
                lemma_pairs_map_dom(self.entries@, key@);
            }
            let mine = self.value_of(key);
            let theirs = other.value_of(key);
            match (mine, theirs) {
                (Some(a), Some(b)) => {
                    if !crate::text::same_text(a.as_str(), b.as_str()) {
                        return false;
                    }
                },
                _ => {
                    return false;
                },
            }
            i = i + 1;
        }
        assert forall|k: Seq<char>| #[trigger] self@.contains_key(k) implies other@.contains_key(k)
            && other@[k] == self@[k] by {
            lemma_pairs_map_dom(self.entries@, k);
            let j = choose|j: int| 0 <= j < self.entries@.len() && self.entries@[j].0@ == k;
            assert(self.entries@[j].0@ == k);
        }
        true
    }
}

impl PartialEq for PersonParams {
    fn eq(&self, other: &PersonParams) -> (r: bool) {
        let r = self.covered_by(other) && other.covered_by(self);
        proof {
            if r {
                assert(self@ =~= other@);
            }
        }
        r
    }
}

impl vstd::std_specs::cmp::PartialEqSpecImpl for PersonParams {
    open spec fn obeys_eq_spec() -> bool {
        true
    }

    open spec fn eq_spec(&self, other: &PersonParams) -> bool {
        self@ == other@
    }
}

impl Eq for PersonParams {
}

} // verus!
