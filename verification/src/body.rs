use crate::kv::KvPair;
use vstd::prelude::*;
use vstd::string::*;

verus! {

/// The mapping that a sequence of pairs collapses to, read from left to
/// right: a later pair overwrites an earlier one with the same key.
pub open spec fn pairs_map(pairs: Seq<KvPair>) -> Map<Seq<char>, Seq<char>>
    decreases pairs.len(),
{
    if pairs.len() == 0 {
        Map::empty()
    } else {
        pairs_map(pairs.drop_last()).insert(pairs.last().k@, pairs.last().v@)
    }
}

/// No key occurs twice.
pub open spec fn keys_distinct(pairs: Seq<KvPair>) -> bool {
    forall|i: int, j: int| 0 <= i < j < pairs.len() ==> pairs[i].k@ != pairs[j].k@
}

/// A key of the mapping is the key of one of the pairs, and the other way
/// round.
pub proof fn lemma_map_keys(pairs: Seq<KvPair>, key: Seq<char>)
    ensures
        pairs_map(pairs).contains_key(key) <==> exists|i: int|
            0 <= i < pairs.len() && #[trigger] pairs[i].k@ == key,
    decreases pairs.len(),
{
    if pairs.len() > 0 {
        let front = pairs.drop_last();
        lemma_map_keys(front, key);
        if pairs_map(pairs).contains_key(key) {
            if pairs.last().k@ == key {
                assert(pairs[pairs.len() - 1].k@ == key);
            } else {
                let i = choose|i: int| 0 <= i < front.len() && #[trigger] front[i].k@ == key;
                assert(pairs[i].k@ == key);
            }
        }
        if exists|i: int| 0 <= i < pairs.len() && #[trigger] pairs[i].k@ == key {
            let i = choose|i: int| 0 <= i < pairs.len() && #[trigger] pairs[i].k@ == key;
            if i < front.len() {
                assert(front[i].k@ == key);
            }
        }
    }
}

/// Where no key occurs twice, each pair is found in the mapping under its
/// key.
pub proof fn lemma_map_lookup(pairs: Seq<KvPair>, i: int)
    requires
        keys_distinct(pairs),
        0 <= i < pairs.len(),
    ensures
        pairs_map(pairs).contains_key(pairs[i].k@),
        pairs_map(pairs)[pairs[i].k@] == pairs[i].v@,
    decreases pairs.len(),
{
    if i < pairs.len() - 1 {
        let front = pairs.drop_last();
        assert(keys_distinct(front)) by {
            assert forall|a: int, b: int| 0 <= a < b < front.len() implies front[a].k@
                != front[b].k@ by {
                assert(pairs[a].k@ != pairs[b].k@);
            }
        }
        lemma_map_lookup(front, i);
        assert(front[i] == pairs[i]);
        assert(pairs[i].k@ != pairs[pairs.len() - 1].k@);
    }
}

/// The last pair with a key decides: the mapping holds its value under that
/// key, whatever earlier pairs gave.
pub proof fn lemma_map_last_wins(pairs: Seq<KvPair>, i: int)
    requires
        0 <= i < pairs.len(),
        forall|j: int| i < j < pairs.len() ==> (#[trigger] pairs[j]).k@ != pairs[i].k@,
    ensures
        pairs_map(pairs).contains_key(pairs[i].k@),
        pairs_map(pairs)[pairs[i].k@] == pairs[i].v@,
    decreases pairs.len(),
{
    if i < pairs.len() - 1 {
        let front = pairs.drop_last();
        assert(front[i] == pairs[i]);
        assert forall|j: int| i < j < front.len() implies (#[trigger] front[j]).k@
            != front[i].k@ by {
            assert(front[j] == pairs[j]);
        }
        lemma_map_last_wins(front, i);
        assert(pairs[pairs.len() - 1].k@ != pairs[i].k@);
    }
}

/// Replacing the pair that holds a key is inserting that key into the
/// mapping, and leaves every key single.
pub proof fn lemma_map_update(pairs: Seq<KvPair>, i: int, p: KvPair)
    requires
        keys_distinct(pairs),
        0 <= i < pairs.len(),
        pairs[i].k@ == p.k@,
    ensures
        keys_distinct(pairs.update(i, p)),
        pairs_map(pairs.update(i, p)) == pairs_map(pairs).insert(p.k@, p.v@),
    decreases pairs.len(),
{
    let changed = pairs.update(i, p);
    let front = pairs.drop_last();
    assert(keys_distinct(changed)) by {
        assert forall|a: int, b: int| 0 <= a < b < changed.len() implies changed[a].k@
            != changed[b].k@ by {
            assert(pairs[a].k@ != pairs[b].k@);
        }
    }
    if i == pairs.len() - 1 {
        assert(changed.drop_last() =~= front);
        assert(pairs_map(changed) =~= pairs_map(pairs).insert(p.k@, p.v@));
    } else {
        assert(keys_distinct(front)) by {
            assert forall|a: int, b: int| 0 <= a < b < front.len() implies front[a].k@
                != front[b].k@ by {
                assert(pairs[a].k@ != pairs[b].k@);
            }
        }
        lemma_map_update(front, i, p);
        assert(changed.drop_last() =~= front.update(i, p));
        assert(changed.last() == pairs.last());
        assert(pairs[i].k@ != pairs[pairs.len() - 1].k@);
        assert(pairs_map(changed) =~= pairs_map(pairs).insert(p.k@, p.v@));
    }
}

/// The body of a POST before it is serialised: a mapping from key to value,
/// kept as a list of entries in which no key occurs twice.
#[derive(Debug, Clone)]
pub struct Body {
    entries: Vec<KvPair>,
}

impl View for Body {
    type V = Map<Seq<char>, Seq<char>>;

    closed spec fn view(&self) -> Map<Seq<char>, Seq<char>> {
        pairs_map(self.entries@)
    }
}

impl Body {
    /// The entries, in the order in which their keys first came.
    pub closed spec fn entries_view(&self) -> Seq<KvPair> {
        self.entries@
    }

    /// No key occurs twice among the entries, and the mapping is what the
    /// entries collapse to.
    pub open spec fn wf(&self) -> bool {
        &&& keys_distinct(self.entries_view())
        &&& self@ == pairs_map(self.entries_view())
    }

    /// A body without entries.
    pub fn new() -> (r: Body)
        ensures
            r.wf(),
            r@ == Map::<Seq<char>, Seq<char>>::empty(),
            r.entries_view().len() == 0,
    {
        Body { entries: Vec::new() }
    }

    /// Sets `k` to `v`, overwriting what `k` had before.
    pub fn insert(&mut self, k: String, v: String)
        requires
            old(self).wf(),
        ensures
            final(self).wf(),
            final(self)@ == old(self)@.insert(k@, v@),
    {
        let n = self.entries.len();
        let mut i: usize = 0;
        while i < n
            invariant
                n == self.entries@.len(),
                i <= n,
                self.entries@ == old(self).entries@,
                old(self).wf(),
                forall|j: int| 0 <= j < i ==> self.entries@[j].k@ != k@,
            decreases n - i,
        {
            if self.entries[i].k == k {
                proof {
                    lemma_map_update(self.entries@, i as int, KvPair { k, v });
                }
                self.entries.set(i, KvPair { k, v });
                return ;
            }
            i += 1;
        }
        proof {
            let p = KvPair { k, v };
            assert(self.entries@.push(p).drop_last() =~= self.entries@);
        }
        self.entries.push(KvPair { k, v });
    }

    /// Collapses the pairs of a command line into a body, from left to right.
    pub fn from_pairs(pairs: &Vec<KvPair>) -> (r: Body)
        ensures
            r.wf(),
            r@ == pairs_map(pairs@),
    {
        let mut body = Body::new();
        let n = pairs.len();
        let mut i: usize = 0;
        while i < n
            invariant
                n == pairs@.len(),
                i <= n,
                body.wf(),
                body@ == pairs_map(pairs@.take(i as int)),
            decreases n - i,
        {
            proof {
                assert(pairs@.take(i + 1).drop_last() =~= pairs@.take(i as int));
            }
            body.insert(pairs[i].k.clone(), pairs[i].v.clone());
            i += 1;
        }
        proof {
            assert(pairs@.take(n as int) =~= pairs@);
        }
        body
    }

    /// The value that stands under `key`, if any.
    pub fn get(&self, key: &String) -> (r: Option<&String>)
        requires
            self.wf(),
        ensures
            r is Some <==> self@.contains_key(key@),
            r is Some ==> r->Some_0@ == self@[key@],
    {
        let n = self.entries.len();
        let mut i: usize = 0;
        while i < n
            invariant
                n == self.entries@.len(),
                i <= n,
                self.wf(),
                forall|j: int| 0 <= j < i ==> self.entries@[j].k@ != key@,
            decreases n - i,
        {
            if self.entries[i].k == *key {
                proof {
                    lemma_map_lookup(self.entries@, i as int);
                }
                return Some(&self.entries[i].v);
            }
            i += 1;
        }
        proof {
            lemma_map_keys(self.entries@, key@);
        }
        None
    }

    /// The entries of the mapping, each key once.
    pub fn entries(&self) -> (r: &Vec<KvPair>)
        ensures
            r@ == self.entries_view(),
    {
        &self.entries
    }
}

} // verus!
