//! A profile: the field values one applet keeps for one friend.
use vstd::prelude::*;
use crate::text::str_eq;

verus! {

/// Field values of one applet for one friend, as (field key, value) pairs;
/// a later pair for the same key overrides an earlier one.
#[derive(Clone, Debug)]
pub struct Profile {
    entries: Vec<(String, String)>,
}

/// The map that a list of pairs stands for, later pairs overriding earlier ones.
pub open spec fn pairs_map(s: Seq<(String, String)>) -> Map<Seq<char>, Seq<char>>
    decreases s.len(),
{
    if s.len() == 0 {
        Map::empty()
    } else {
        pairs_map(s.drop_last()).insert(s.last().0@, s.last().1@)
    }
}

/// Index of the last pair whose key is `k`, or -1.
pub open spec fn last_index(s: Seq<(String, String)>, k: Seq<char>) -> int
    decreases s.len(),
{
    if s.len() == 0 {
        -1
    } else if s.last().0@ == k {
        s.len() - 1
    } else {
        last_index(s.drop_last(), k)
    }
}

/// The value stored under `k`, or the empty string.
pub open spec fn value_or_empty(m: Map<Seq<char>, Seq<char>>, k: Seq<char>) -> Seq<char> {
    if m.contains_key(k) {
        m[k]
    } else {
        Seq::empty()
    }
}

proof fn lemma_pairs_map_lookup(s: Seq<(String, String)>, k: Seq<char>)
    ensures
        -1 <= last_index(s, k) < s.len(),
        pairs_map(s).contains_key(k) <==> last_index(s, k) >= 0,
        last_index(s, k) >= 0 ==> s[last_index(s, k)].0@ == k && pairs_map(s)[k] == s[last_index(
            s,
            k,
        )].1@,
    decreases s.len(),
{
    if s.len() > 0 {
        lemma_pairs_map_lookup(s.drop_last(), k);
    }
}

proof fn lemma_pairs_map_empty(s: Seq<(String, String)>)
    ensures
        pairs_map(s).dom().is_empty() <==> s.len() == 0,
{
    if s.len() > 0 {
        assert(pairs_map(s).contains_key(s.last().0@));
    }
}

impl View for Profile {
    type V = Map<Seq<char>, Seq<char>>;

    closed spec fn view(&self) -> Map<Seq<char>, Seq<char>> {
        pairs_map(self.entries@)
    }
}

impl Profile {
    /// A profile with no fields.
    pub fn new() -> (res: Profile)
        ensures
            res@ == Map::<Seq<char>, Seq<char>>::empty(),
    {
        Profile { entries: Vec::new() }
    }

    /// The profile holding the given pairs, a later pair overriding an earlier one.
    pub fn from_pairs(pairs: Vec<(String, String)>) -> (res: Profile)
        ensures
            res@ == pairs_map(pairs@),
    {
        Profile { entries: pairs }
    }

    /// The stored pairs; they stand for this profile, later ones overriding earlier ones.
    pub fn pairs(&self) -> (res: &Vec<(String, String)>)
        ensures
            pairs_map(res@) == self@,
    {
        &self.entries
    }

    /// Stores `value` under `key`.
    pub fn insert(&mut self, key: String, value: String)
        ensures
            final(self)@ == old(self)@.insert(key@, value@),
    {
        self.entries.push((key, value));
        assert(self.entries@.drop_last() =~= old(self).entries@);
    }

    /// The value stored under `key`, if any.
    pub fn get(&self, key: &str) -> (res: Option<&String>)
        ensures
            match res {
                Some(v) => self@.contains_key(key@) && v@ == self@[key@],
                None => !self@.contains_key(key@),
            },
    {
        let n = self.entries.len();
        let mut found: Option<usize> = None;
        let mut i: usize = 0;
        while i < n
            invariant
                n == self.entries.len(),
                i <= n,
                match found {
                    Some(j) => j < i && last_index(self.entries@.take(i as int), key@) == j,
                    None => last_index(self.entries@.take(i as int), key@) == -1,
                },
            decreases n - i,
        {
            assert(self.entries@.take(i + 1).drop_last() =~= self.entries@.take(i as int));
            if str_eq(self.entries[i].0.as_str(), key) {
                found = Some(i);
            }
            i = i + 1;
        }
        assert(self.entries@.take(n as int) =~= self.entries@);
        proof {
            lemma_pairs_map_lookup(self.entries@, key@);
        }
        match found {
            Some(j) => Some(&self.entries[j].1),
            None => None,
        }
    }

    /// The value stored under `key`, or the empty string.
    pub fn get_or_empty(&self, key: &str) -> (res: String)
        ensures
            res@ == value_or_empty(self@, key@),
    {
        match self.get(key) {
            Some(v) => v.clone(),
            None => String::new(),
        }
    }

    /// The value stored under `key`, if any, as an owned string.
    pub fn get_owned(&self, key: &str) -> (res: Option<String>)
        ensures
            match res {
                Some(v) => self@.contains_key(key@) && v@ == self@[key@],
                None => !self@.contains_key(key@),
            },
    {
        match self.get(key) {
            Some(v) => Some(v.clone()),
            None => None,
        }
    }

    /// Whether no field is stored.
    pub fn is_empty(&self) -> (res: bool)
        ensures
            res == self@.dom().is_empty(),
    {
        proof {
            lemma_pairs_map_empty(self.entries@);
        }
        self.entries.len() == 0
    }

    /// A profile with the same fields.
    pub fn copy(&self) -> (res: Profile)
        ensures
            res@ == self@,
    {
        let n = self.entries.len();
        let mut v: Vec<(String, String)> = Vec::new();
        let mut i: usize = 0;
        while i < n
            invariant
                n == self.entries.len(),
                i <= n,
                v@.len() == i,
                forall|j: int|
                    0 <= j < i ==> #[trigger] v@[j].0@ == self.entries@[j].0@ && v@[j].1@
                        == self.entries@[j].1@,
            decreases n - i,
        {
            let k = self.entries[i].0.clone();
            let x = self.entries[i].1.clone();
            v.push((k, x));
            i = i + 1;
        }
        proof {
            lemma_pairs_map_same(v@, self.entries@);
        }
        Profile { entries: v }
    }
}

proof fn lemma_pairs_map_same(a: Seq<(String, String)>, b: Seq<(String, String)>)
    requires
        a.len() == b.len(),
        forall|j: int| 0 <= j < a.len() ==> #[trigger] a[j].0@ == b[j].0@ && a[j].1@ == b[j].1@,
    ensures
        pairs_map(a) == pairs_map(b),
    decreases a.len(),
{
    if a.len() > 0 {
        lemma_pairs_map_same(a.drop_last(), b.drop_last());
        assert(a.last().0@ == b.last().0@);
    }
}

} // verus!
