//! The key/value pairs of one tag block: an association list in which no
//! key occurs twice, read as a map from key to value.

use vstd::prelude::*;

verus! {

/// The map that a list of pairs writes down, a later pair replacing an
/// earlier one that has the same key.
pub open spec fn pairs_map(pairs: Seq<(String, String)>) -> Map<Seq<char>, Seq<char>>
    decreases pairs.len(),
{
    if pairs.len() == 0 {
        Map::empty()
    } else {
        pairs_map(pairs.drop_last()).insert(pairs.last().0@, pairs.last().1@)
    }
}

/// No two pairs have the same key.
pub open spec fn distinct_keys(pairs: Seq<(String, String)>) -> bool {
    forall|i: int, j: int| 0 <= i < j < pairs.len() ==> pairs[i].0@ != pairs[j].0@
}

/// A key is in the map exactly when some pair carries it.
pub proof fn lemma_pairs_map_dom(pairs: Seq<(String, String)>, key: Seq<char>)
    ensures
        pairs_map(pairs).dom().contains(key) <==> exists|i: int|
            0 <= i < pairs.len() && #[trigger] pairs[i].0@ == key,
        pairs_map(pairs).dom().finite(),
    decreases pairs.len(),
{
    if pairs.len() > 0 {
        let front = pairs.drop_last();
        lemma_pairs_map_dom(front, key);
        if pairs_map(pairs).dom().contains(key) {
            if pairs.last().0@ == key {
                assert(pairs[pairs.len() - 1].0@ == key);
            } else {
                let i = choose|i: int| 0 <= i < front.len() && #[trigger] front[i].0@ == key;
                assert(pairs[i].0@ == key);
            }
        }
        if exists|i: int| 0 <= i < pairs.len() && #[trigger] pairs[i].0@ == key {
            let i = choose|i: int| 0 <= i < pairs.len() && #[trigger] pairs[i].0@ == key;
            if i < front.len() {
                assert(front[i].0@ == key);
            }
        }
    }
}

/// Where keys are distinct, each pair's key maps to that pair's value.
pub proof fn lemma_pairs_map_value(pairs: Seq<(String, String)>, i: int)
    requires
        distinct_keys(pairs),
        0 <= i < pairs.len(),
    ensures
        pairs_map(pairs).dom().contains(pairs[i].0@),
        pairs_map(pairs)[pairs[i].0@] == pairs[i].1@,
    decreases pairs.len(),
{
    if i < pairs.len() - 1 {
        let front = pairs.drop_last();
        assert(front[i] == pairs[i]);
        lemma_pairs_map_value(front, i);
    }
}

/// Where keys are distinct, replacing the value of the pair at `i` is an
/// insertion under that pair's key.
pub proof fn lemma_pairs_map_update(pairs: Seq<(String, String)>, i: int, pair: (String, String))
    requires
        distinct_keys(pairs),
        0 <= i < pairs.len(),
        pair.0@ == pairs[i].0@,
    ensures
        pairs_map(pairs.update(i, pair)) == pairs_map(pairs).insert(pair.0@, pair.1@),
        distinct_keys(pairs.update(i, pair)),
    decreases pairs.len(),
{
    let updated = pairs.update(i, pair);
    let front = pairs.drop_last();
    if i == pairs.len() - 1 {
        assert(updated.drop_last() == front);
        assert(pairs_map(updated) == pairs_map(pairs).insert(pair.0@, pair.1@));
    } else {
        assert(updated.drop_last() == front.update(i, pair));
        assert(front[i] == pairs[i]);
        lemma_pairs_map_update(front, i, pair);
        assert(updated.last() == pairs.last());
        assert(pairs.last().0@ != pair.0@);
        assert(pairs_map(updated) == pairs_map(pairs).insert(pair.0@, pair.1@));
    }
}

/// The text that `serde_json::to_string` gives for a map from strings to
/// strings whose keys are visited in ascending order, which is a JSON
/// object with one member per key; the empty text where it gives none.
pub uninterp spec fn json_object(entries: Map<Seq<char>, Seq<char>>) -> Seq<char>;

/// Serialises the pairs as one JSON object with `serde_json::to_string`,
/// applied to a `BTreeMap` that borrows each key and value, so that the
/// members come out ordered by key. Not proved: the text is a function of
/// the map that the pairs write down. `to_string` can fail only on a map
/// with keys that are not strings or on a failing `Serialize` impl; neither
/// can happen here, and the empty string stands for that case.
#[verifier::external_body]
fn encode_pairs(pairs: &Vec<(String, String)>) -> (text: String)
    requires
        distinct_keys(pairs@),
    ensures
        text@ == json_object(pairs_map(pairs@)),
{
    let sorted: std::collections::BTreeMap<&String, &String> =
        pairs.iter().map(|p| (&p.0, &p.1)).collect();
    match serde_json::to_string(&sorted) {
        Ok(text) => text,
        Err(_) => String::new(),
    }
}

/// A map from tag names to tag values.
pub struct TagMap {
    entries: Vec<(String, String)>,
}

impl View for TagMap {
    type V = Map<Seq<char>, Seq<char>>;

    closed spec fn view(&self) -> Map<Seq<char>, Seq<char>> {
        pairs_map(self.entries@)
    }
}

impl TagMap {
    /// No key is held twice.
    pub closed spec fn wf(&self) -> bool {
        distinct_keys(self.entries@)
    }

    /// The empty map.
    pub fn new() -> (m: Self)
        ensures
            m.wf(),
            m@ == Map::<Seq<char>, Seq<char>>::empty(),
    {
        TagMap { entries: Vec::new() }
    }

    /// Number of keys.
    pub fn len(&self) -> (n: usize)
        requires
            self.wf(),
        ensures
            n == self@.dom().len(),
    {
        proof {
            lemma_pairs_map_len(self.entries@);
        }
        self.entries.len()
    }

    /// Sets the value of `key`, whether or not the key was present.
    pub fn insert(&mut self, key: String, value: String)
        requires
            old(self).wf(),
        ensures
            final(self).wf(),
            final(self)@ == old(self)@.insert(key@, value@),
    {
        let mut i: usize = 0;
        while i < self.entries.len()
            invariant
                i <= self.entries.len(),
                self.entries@ == old(self).entries@,
                distinct_keys(self.entries@),
                forall|j: int| 0 <= j < i ==> self.entries@[j].0@ != key@,
            decreases self.entries.len() - i,
        {
            if self.entries[i].0 == key {
                proof {
                    lemma_pairs_map_update(self.entries@, i as int, (key, value));
                }
                self.entries.set(i, (key, value));
                return ;
            }
            i += 1;
        }
        proof {
            assert(self.entries@.push((key, value)).drop_last() == self.entries@);
        }
        self.entries.push((key, value));
    }

    /// The value of `key`, if the key is present.
    pub fn get(&self, key: &str) -> (r: Option<&String>)
        requires
            self.wf(),
        ensures
            match r {
                Some(value) => self@.dom().contains(key@) && self@[key@] == value@,
                None => !self@.dom().contains(key@),
            },
    {
        let wanted: String = key.to_owned();
        let mut i: usize = 0;
        while i < self.entries.len()
            invariant
                i <= self.entries.len(),
                wanted@ == key@,
                distinct_keys(self.entries@),
                forall|j: int| 0 <= j < i ==> self.entries@[j].0@ != key@,
            decreases self.entries.len() - i,
        {
            if self.entries[i].0 == wanted {
                proof {
                    lemma_pairs_map_value(self.entries@, i as int);
                }
                return Some(&self.entries[i].1);
            }
            i += 1;
        }
        proof {
            lemma_pairs_map_dom(self.entries@, key@);
        }
        None
    }

    /// The map as the text of one JSON object, its members ordered by key.
    pub fn to_json(&self) -> (text: String)
        requires
            self.wf(),
        ensures
            text@ == json_object(self@),
    {
        encode_pairs(&self.entries)
    }
}

/// Where keys are distinct, the map has as many keys as there are pairs.
pub proof fn lemma_pairs_map_len(pairs: Seq<(String, String)>)
    requires
        distinct_keys(pairs),
    ensures
        pairs_map(pairs).dom().finite(),
        pairs_map(pairs).dom().len() == pairs.len(),
    decreases pairs.len(),
{
    if pairs.len() > 0 {
        let front = pairs.drop_last();
        lemma_pairs_map_len(front);
        lemma_pairs_map_dom(front, pairs.last().0@);
        if pairs_map(front).dom().contains(pairs.last().0@) {
            let i = choose|i: int| 0 <= i < front.len() && #[trigger] front[i].0@ == pairs.last().0@;
            assert(pairs[i].0@ == pairs[pairs.len() - 1].0@);
        }
    }
}

} // verus!
