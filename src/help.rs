//! Settings of the help command and the insertion-ordered map it groups
//! commands by category with.

use vstd::prelude::*;
use vstd::std_specs::cmp::PartialEqSpec;

verus! {

/// How the help command answers.
pub struct HelpConfiguration<'a> {
    /// Extra text shown at the bottom of the help message.
    pub extra_text_at_bottom: &'a str,
    /// Whether the response is ephemeral where the chat allows it.
    pub ephemeral: bool,
    /// Whether context menu commands are listed too.
    pub show_context_menu_commands: bool,
}

impl Default for HelpConfiguration<'_> {
    fn default() -> (r: Self)
        ensures
            r.extra_text_at_bottom@ == ""@,
            r.ephemeral,
            !r.show_context_menu_commands,
    {
        HelpConfiguration { extra_text_at_bottom: "", ephemeral: true, show_context_menu_commands: false }
    }
}

/// A map that keeps its entries in insertion order, with keys compared by
/// `==`; small enough that a linear search is the right lookup.
#[derive(Clone, Debug, PartialEq, Eq, Hash)]
pub struct OrderedMap<K, V>(pub Vec<(K, V)>);

/// Index of the first entry of `s` whose key equals `k`, or `s.len()` when
/// there is none.
pub open spec fn first_key_index<K: PartialEq, V>(s: Seq<(K, V)>, k: K) -> int
    decreases s.len(),
{
    if s.len() == 0 {
        0
    } else if s[0].0.eq_spec(&k) {
        0
    } else {
        1 + first_key_index(s.drop_first(), k)
    }
}

proof fn lemma_first_key_index<K: PartialEq, V>(s: Seq<(K, V)>, k: K)
    ensures
        0 <= first_key_index(s, k) <= s.len(),
        forall|j: int| 0 <= j < first_key_index(s, k) ==> !(#[trigger] s[j].0.eq_spec(&k)),
        first_key_index(s, k) < s.len() ==> s[first_key_index(s, k)].0.eq_spec(&k),
    decreases s.len(),
{
    if s.len() > 0 && !s[0].0.eq_spec(&k) {
        let rest = s.drop_first();
        lemma_first_key_index(rest, k);
        assert forall|j: int| 0 <= j < first_key_index(s, k) implies !(#[trigger] s[j].0.eq_spec(&k)) by {
            if j > 0 {
                assert(s[j] == rest[j - 1]);
            }
        }
    }
}

/// Scans for the first entry whose key equals `k`.
fn find_key<K: Eq, V>(s: &Vec<(K, V)>, k: &K) -> (r: usize)
    requires
        K::obeys_eq_spec(),
    ensures
        r == first_key_index(s@, *k),
        r <= s@.len(),
        r < s@.len() ==> s@[r as int].0.eq_spec(k),
{
    proof {
        lemma_first_key_index(s@, *k);
    }
    let mut i: usize = 0;
    while i < s.len()
        invariant
            K::obeys_eq_spec(),
            i <= s@.len(),
            0 <= first_key_index(s@, *k) <= s@.len(),
            forall|j: int| 0 <= j < first_key_index(s@, *k) ==> !(#[trigger] s@[j].0.eq_spec(k)),
            first_key_index(s@, *k) < s@.len() ==> s@[first_key_index(s@, *k)].0.eq_spec(k),
            forall|j: int| 0 <= j < i ==> !(#[trigger] s@[j].0.eq_spec(k)),
        decreases s@.len() - i,
    {
        if s[i].0 == *k {
            return i;
        }
        i = i + 1;
    }
    i
}

impl<K, V> Default for OrderedMap<K, V> {
    fn default() -> (r: Self)
        ensures
            r.0@.len() == 0,
    {
        OrderedMap(Vec::new())
    }
}

impl<K: Eq, V> OrderedMap<K, V> {
    /// An empty map.
    pub fn new() -> (r: Self)
        ensures
            r.0@.len() == 0,
    {
        OrderedMap(Vec::new())
    }

    /// The value of the first entry whose key equals `k`.
    pub fn get(&self, k: &K) -> (r: Option<&V>)
        requires
            K::obeys_eq_spec(),
        ensures
            match r {
                None => first_key_index(self.0@, *k) == self.0@.len(),
                Some(v) => first_key_index(self.0@, *k) < self.0@.len() && *v == self.0@[first_key_index(
                    self.0@,
                    *k,
                )].1,
            },
    {
        let i = find_key(&self.0, k);
        if i < self.0.len() {
            Some(&self.0[i].1)
        } else {
            None
        }
    }

    /// Sets the value of the first entry whose key equals `k`, or appends
    /// `(k, v)` when there is none.
    pub fn insert(&mut self, k: K, v: V)
        requires
            K::obeys_eq_spec(),
        ensures
            first_key_index(old(self).0@, k) < old(self).0@.len() ==> final(self).0@ == old(
                self,
            ).0@.update(
                first_key_index(old(self).0@, k),
                (old(self).0@[first_key_index(old(self).0@, k)].0, v),
            ),
            first_key_index(old(self).0@, k) == old(self).0@.len() ==> final(self).0@ == old(
                self,
            ).0@.push((k, v)),
    {
        let i = find_key(&self.0, &k);
        if i < self.0.len() {
            let (key, _) = self.0.remove(i);
            self.0.insert(i, (key, v));
            proof {
                assert(self.0@ =~= old(self).0@.update(i as int, (old(self).0@[i as int].0, v)));
            }
        } else {
            self.0.push((k, v));
        }
    }

    /// The value of the first entry whose key equals `k`; when there is
    /// none, `(k, v())` is appended first and its value returned.
    pub fn get_or_insert_with<F: FnOnce() -> V>(&mut self, k: K, v: F) -> (r: &mut V)
        requires
            K::obeys_eq_spec(),
            v.requires(()),
        ensures
            first_key_index(old(self).0@, k) < old(self).0@.len() ==> {
                &&& *r == old(self).0@[first_key_index(old(self).0@, k)].1
                &&& final(self).0@ == old(self).0@.update(
                    first_key_index(old(self).0@, k),
                    (old(self).0@[first_key_index(old(self).0@, k)].0, *final(r)),
                )
            },
            first_key_index(old(self).0@, k) == old(self).0@.len() ==> {
                &&& v.ensures((), *r)
                &&& final(self).0@ == old(self).0@.push((k, *final(r)))
            },
    {
        let i = find_key(&self.0, &k);
        if i < self.0.len() {
            &mut self.0[i].1
        } else {
            let value = v();
            self.0.push((k, value));
            let last = self.0.len() - 1;
            &mut self.0[last].1
        }
    }
}

} // verus!
