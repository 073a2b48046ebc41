//! The redemption registry: a key-value store whose entries carry an
//! optional expiry deadline, mirroring the cache the application keeps its
//! one-time redemption markers in (`SET`, `EXPIRE`, `GET`, `DEL`, each
//! handed the current time explicitly). An entry whose deadline has passed
//! behaves as absent.

use vstd::prelude::*;

use crate::text::str_eq;

verus! {

/// One stored entry, as the specification sees it.
pub struct EntryModel {
    pub key: Seq<char>,
    pub value: Seq<char>,
    pub deadline: Option<int>,
}

pub struct Entry {
    pub key: String,
    pub value: String,
    pub deadline: Option<i64>,
}

impl View for Entry {
    type V = EntryModel;

    open spec fn view(&self) -> EntryModel {
        EntryModel { key: self.key@, value: self.value@, deadline: match self.deadline {
            Option::Some(d) => Option::Some(d as int),
            Option::None => Option::None,
        } }
    }
}

/// The stored entry for `key`, if any.
pub open spec fn spec_get(s: Seq<EntryModel>, key: Seq<char>) -> Option<EntryModel>
    decreases s.len(),
{
    if s.len() == 0 {
        None
    } else if s[0].key == key {
        Some(s[0])
    } else {
        spec_get(s.skip(1), key)
    }
}

/// Whether an entry is still alive at time `now`.
pub open spec fn live_at(e: EntryModel, now: int) -> bool {
    match e.deadline {
        Option::Some(d) => now < d,
        Option::None => true,
    }
}

/// The value stored under `key` and alive at `now`, if any.
pub open spec fn spec_lookup(s: Seq<EntryModel>, key: Seq<char>, now: int) -> Option<Seq<char>> {
    match spec_get(s, key) {
        Some(e) => if live_at(e, now) {
            Some(e.value)
        } else {
            None
        },
        None => None,
    }
}

/// No two entries share a key.
pub open spec fn distinct_keys(s: Seq<EntryModel>) -> bool {
    forall|i: int, j: int| 0 <= i < j < s.len() ==> (#[trigger] s[i]).key != (#[trigger] s[j]).key
}

/// A key-value store with per-key expiry.
pub struct Registry {
    entries: Vec<Entry>,
}

impl View for Registry {
    type V = Seq<EntryModel>;

    closed spec fn view(&self) -> Seq<EntryModel> {
        self.entries@.map_values(|e: Entry| e@)
    }
}

/// The entry an index points at is the one the key finds.
proof fn lemma_spec_get_skip(s: Seq<EntryModel>, key: Seq<char>, i: int)
    requires
        0 <= i < s.len(),
        distinct_keys(s),
        s[i].key == key,
    ensures
        spec_get(s, key) == Some(s[i]),
    decreases i,
{
    if i > 0 {
        assert(s[0].key != key);
        assert(distinct_keys(s.skip(1))) by {
            assert forall|a: int, b: int| 0 <= a < b < s.skip(1).len() implies (#[trigger] s.skip(
                1,
            )[a]).key != (#[trigger] s.skip(1)[b]).key by {
                assert(s.skip(1)[a] == s[a + 1]);
                assert(s.skip(1)[b] == s[b + 1]);
            }
        }
        lemma_spec_get_skip(s.skip(1), key, i - 1);
    }
}

/// A key held by no entry is not found.
proof fn lemma_spec_get_none(s: Seq<EntryModel>, key: Seq<char>)
    requires
        forall|j: int| 0 <= j < s.len() ==> (#[trigger] s[j]).key != key,
    ensures
        spec_get(s, key) is None,
    decreases s.len(),
{
    if s.len() > 0 {
        lemma_spec_get_none(s.skip(1), key);
    }
}

impl Registry {
    pub open spec fn wf(&self) -> bool {
        distinct_keys(self@)
    }

    /// An empty registry.
    pub fn new() -> (r: Registry)
        ensures
            r.wf(),
            r@ == Seq::<EntryModel>::empty(),
    {
        let r = Registry { entries: Vec::new() };
        assert(r@ =~= Seq::<EntryModel>::empty());
        r
    }

    fn find(&self, key: &str) -> (r: Option<usize>)
        requires
            self.wf(),
        ensures
            match r {
                Some(i) => i < self@.len() && self@[i as int].key == key@ && spec_get(self@, key@)
                    == Some(self@[i as int]),
                None => spec_get(self@, key@) is None,
            },
    {
        let n = self.entries.len();
        let mut i: usize = 0;
        while i < n
            invariant
                i <= n,
                n == self@.len(),
                self.wf(),
                forall|j: int| 0 <= j < i ==> (#[trigger] self@[j]).key != key@,
            decreases n - i,
        {
            if str_eq(self.entries[i].key.as_str(), key) {
                proof {
                    lemma_spec_get_skip(self@, key@, i as int);
                }
                return Some(i);
            }
            i = i + 1;
        }
        proof {
            lemma_spec_get_none(self@, key@);
        }
        None
    }

    /// Store `value` under `key`, replacing any earlier entry and clearing
    /// any earlier deadline.
    pub fn set(&mut self, key: String, value: String)
        requires
            old(self).wf(),
        ensures
            final(self).wf(),
            spec_get(final(self)@, key@) == Some(
                EntryModel { key: key@, value: value@, deadline: None },
            ),
            forall|k: Seq<char>| k != key@ ==> spec_get(final(self)@, k) == spec_get(
                old(self)@,
                k,
            ),
    {
        let ghost pre = self@;
        let found = self.find(key.as_str());
        match found {
            Some(i) => {
                let _ = self.entries.remove(i);
                proof {
                    assert(self@ =~= pre.remove(i as int));
                    lemma_remove_other_keys(pre, self@, key@, i as int);
                }
            },
            None => {},
        }
        let ghost mid = self@;
        assert(spec_get(mid, key@) is None);
        let e = Entry { key, value, deadline: None };
        let ghost em = e@;
        self.entries.push(e);
        proof {
            assert(self@ =~= mid.push(em));
            lemma_push_get(mid, em);
        }
    }

    /// Give the entry under `key` a deadline `now + ttl_seconds`, if one is
    /// alive there; report whether one was.
    pub fn expire(&mut self, key: &str, ttl_seconds: i64, now: i64) -> (r: bool)
        requires
            old(self).wf(),
            0 <= now,
            0 <= ttl_seconds,
            now + ttl_seconds <= i64::MAX,
        ensures
            final(self).wf(),
            r == (spec_lookup(old(self)@, key@, now as int) is Some),
            r ==> (spec_get(final(self)@, key@) matches Some(e) && e.key == key@ && e.value
                == spec_get(old(self)@, key@)->Some_0.value && e.deadline == Some(
                now + ttl_seconds as int,
            )),
            !r ==> final(self)@ == old(self)@,
            forall|k: Seq<char>| k != key@ ==> spec_get(final(self)@, k) == spec_get(
                old(self)@,
                k,
            ),
    {
        let ghost pre = self@;
        let found = self.find(key);
        match found {
            Some(i) => {
                let alive = match self.entries[i].deadline {
                    Some(d) => now < d,
                    None => true,
                };
                if alive {
                    let old_entry = self.entries.remove(i);
                    proof {
                        assert(self@ =~= pre.remove(i as int));
                        lemma_remove_other_keys(pre, self@, key@, i as int);
                    }
                    let ghost mid = self@;
                    let e = Entry {
                        key: old_entry.key,
                        value: old_entry.value,
                        deadline: Some(now + ttl_seconds),
                    };
                    let ghost em = e@;
                    self.entries.push(e);
                    proof {
                        assert(self@ =~= mid.push(em));
                        lemma_push_get(mid, em);
                    }
                    true
                } else {
                    false
                }
            },
            None => false,
        }
    }

    /// The value alive under `key` at `now`, if any.
    pub fn get(&self, key: &str, now: i64) -> (r: Option<String>)
        requires
            self.wf(),
        ensures
            match r {
                Some(v) => spec_lookup(self@, key@, now as int) == Some(v@),
                None => spec_lookup(self@, key@, now as int) is None,
            },
    {
        let found = self.find(key);
        match found {
            Some(i) => {
                let alive = match self.entries[i].deadline {
                    Some(d) => now < d,
                    None => true,
                };
                if alive {
                    Some(self.entries[i].value.clone())
                } else {
                    None
                }
            },
            None => None,
        }
    }

    /// Remove whatever is stored under `key`; report whether an entry
    /// alive at `now` was removed.
    pub fn del(&mut self, key: &str, now: i64) -> (r: bool)
        requires
            old(self).wf(),
        ensures
            final(self).wf(),
            r == (spec_lookup(old(self)@, key@, now as int) is Some),
            spec_get(final(self)@, key@) is None,
            forall|k: Seq<char>| k != key@ ==> spec_get(final(self)@, k) == spec_get(
                old(self)@,
                k,
            ),
    {
        let ghost pre = self@;
        let found = self.find(key);
        match found {
            Some(i) => {
                let alive = match self.entries[i].deadline {
                    Some(d) => now < d,
                    None => true,
                };
                let _ = self.entries.remove(i);
                proof {
                    assert(self@ =~= pre.remove(i as int));
                    lemma_remove_other_keys(pre, self@, key@, i as int);
                }
                alive
            },
            None => false,
        }
    }

    /// How many entries the store holds, dead or alive.
    pub fn len(&self) -> (r: usize)
        ensures
            r == self@.len(),
    {
        self.entries.len()
    }
}

/// Removing the entry at `i` removes its key and leaves every other key's
/// entry unchanged.
proof fn lemma_remove_other_keys(pre: Seq<EntryModel>, post: Seq<EntryModel>, key: Seq<char>, i: int)
    requires
        0 <= i < pre.len(),
        distinct_keys(pre),
        pre[i].key == key,
        post == pre.remove(i),
    ensures
        distinct_keys(post),
        spec_get(post, key) is None,
        forall|k: Seq<char>| k != key ==> spec_get(post, k) == spec_get(pre, k),
{
    assert(distinct_keys(post)) by {
        assert forall|a: int, b: int| 0 <= a < b < post.len() implies (#[trigger] post[a]).key != (
        #[trigger] post[b]).key by {
            let a0 = if a < i {
                a
            } else {
                a + 1
            };
            let b0 = if b < i {
                b
            } else {
                b + 1
            };
            assert(post[a] == pre[a0]);
            assert(post[b] == pre[b0]);
        }
    }
    assert forall|j: int| 0 <= j < post.len() implies (#[trigger] post[j]).key != key by {
        let j0 = if j < i {
            j
        } else {
            j + 1
        };
        assert(post[j] == pre[j0]);
    }
    lemma_spec_get_none(post, key);
    assert forall|k: Seq<char>| k != key implies spec_get(post, k) == spec_get(pre, k) by {
        lemma_get_after_remove(pre, k, i);
    }
}

/// Looking a key up ignores the removal of an entry with another key.
proof fn lemma_get_after_remove(pre: Seq<EntryModel>, k: Seq<char>, i: int)
    requires
        0 <= i < pre.len(),
        pre[i].key != k,
    ensures
        spec_get(pre.remove(i), k) == spec_get(pre, k),
    decreases pre.len(),
{
    if i == 0 {
        assert(pre.remove(0) =~= pre.skip(1));
    } else {
        assert(pre.remove(i).skip(1) =~= pre.skip(1).remove(i - 1));
        assert(pre.remove(i)[0] == pre[0]);
        if pre[0].key != k {
            lemma_get_after_remove(pre.skip(1), k, i - 1);
        }
    }
}

/// Appending an entry makes its key found and leaves other keys' results
/// unchanged.
proof fn lemma_push_get(s: Seq<EntryModel>, e: EntryModel)
    requires
        spec_get(s, e.key) is None,
    ensures
        spec_get(s.push(e), e.key) == Some(e),
        forall|k: Seq<char>| k != e.key ==> spec_get(s.push(e), k) == spec_get(s, k),
        distinct_keys(s) ==> distinct_keys(s.push(e)),
    decreases s.len(),
{
    assert forall|k: Seq<char>| true implies (if k == e.key {
        spec_get(s.push(e), k) == Some(e)
    } else {
        spec_get(s.push(e), k) == spec_get(s, k)
    }) by {
        lemma_push_get_one(s, e, k);
    }
    if distinct_keys(s) {
        lemma_keys_absent(s, e.key);
        assert forall|a: int, b: int| 0 <= a < b < s.push(e).len() implies (#[trigger] s.push(
            e,
        )[a]).key != (#[trigger] s.push(e)[b]).key by {
            if b < s.len() {
                assert(s.push(e)[a] == s[a]);
                assert(s.push(e)[b] == s[b]);
            } else {
                assert(s.push(e)[a] == s[a]);
                assert(s.push(e)[b] == e);
            }
        }
    }
}

/// The single-key core of `lemma_push_get`.
proof fn lemma_push_get_one(s: Seq<EntryModel>, e: EntryModel, k: Seq<char>)
    ensures
        k == e.key && spec_get(s, e.key) is None ==> spec_get(s.push(e), k) == Some(e),
        k != e.key ==> spec_get(s.push(e), k) == spec_get(s, k),
    decreases s.len(),
{
    if s.len() == 0 {
        assert(s.push(e)[0] == e);
        assert(s.push(e).skip(1) =~= Seq::<EntryModel>::empty());
        if k != e.key {
            assert(spec_get(s.push(e), k) == spec_get(s.push(e).skip(1), k));
            assert(spec_get(s.push(e).skip(1), k) is None);
            assert(spec_get(s, k) is None);
        }
    } else {
        assert(s.push(e)[0] == s[0]);
        assert(s.push(e).skip(1) =~= s.skip(1).push(e));
        lemma_push_get_one(s.skip(1), e, k);
        if k != e.key {
            if s[0].key == k {
                assert(spec_get(s.push(e), k) == Some(s[0]));
                assert(spec_get(s, k) == Some(s[0]));
            } else {
                assert(spec_get(s.push(e), k) == spec_get(s.skip(1).push(e), k));
                assert(spec_get(s, k) == spec_get(s.skip(1), k));
            }
        }
    }
}

/// If a key is not found, no entry holds it.
proof fn lemma_keys_absent(s: Seq<EntryModel>, key: Seq<char>)
    requires
        spec_get(s, key) is None,
    ensures
        forall|j: int| 0 <= j < s.len() ==> (#[trigger] s[j]).key != key,
    decreases s.len(),
{
    if s.len() > 0 {
        lemma_keys_absent(s.skip(1), key);
        assert forall|j: int| 0 <= j < s.len() implies (#[trigger] s[j]).key != key by {
            if j > 0 {
                assert(s[j] == s.skip(1)[j - 1]);
            }
        }
    }
}

} // verus!
