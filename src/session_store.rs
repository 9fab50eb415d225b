//! A store of values keyed by user, device and session token.
use vstd::prelude::*;

use crate::event::UserId;

verus! {

/// One stored value and its key.
#[derive(Debug)]
pub struct Keyed<V> {
    pub user: UserId,
    pub device: u64,
    pub session: String,
    pub value: V,
}

/// The key of an entry, with the session token as characters.
pub open spec fn key_of<V>(e: Keyed<V>) -> (UserId, u64, Seq<char>) {
    (e.user, e.device, e.session@)
}

/// Values keyed by `(user, device, session token)`, each key at most once.
#[derive(Debug)]
pub struct SessionStore<V> {
    entries: Vec<Keyed<V>>,
}

/// No two entries of `s` have the same key.
pub open spec fn keys_distinct<V>(s: Seq<Keyed<V>>) -> bool {
    forall|i: int, j: int|
        0 <= i < s.len() && 0 <= j < s.len() && i != j ==> key_of(s[i]) != key_of(s[j])
}

/// The value that `s` holds under `k`, if any.
pub open spec fn value_at<V>(s: Seq<Keyed<V>>, k: (UserId, u64, Seq<char>)) -> Option<V> {
    if exists|i: int| 0 <= i < s.len() && key_of(#[trigger] s[i]) == k {
        Some(s[choose|i: int| 0 <= i < s.len() && key_of(#[trigger] s[i]) == k].value)
    } else {
        None
    }
}

proof fn lemma_value_at<V>(s: Seq<Keyed<V>>, i: int)
    requires
        keys_distinct(s),
        0 <= i < s.len(),
    ensures
        value_at(s, key_of(s[i])) == Some(s[i].value),
{
    let k = key_of(s[i]);
    let j = choose|j: int| 0 <= j < s.len() && key_of(#[trigger] s[j]) == k;
    assert(j == i);
}

proof fn lemma_remove<V>(s: Seq<Keyed<V>>, i: int)
    requires
        keys_distinct(s),
        0 <= i < s.len(),
    ensures
        keys_distinct(s.remove(i)),
        value_at(s.remove(i), key_of(s[i])).is_none(),
        forall|k: (UserId, u64, Seq<char>)|
            k != key_of(s[i]) ==> #[trigger] value_at(s.remove(i), k) == value_at(s, k),
{
    let t = s.remove(i);
    assert forall|a: int| 0 <= a < t.len() implies #[trigger] t[a] == s[if a < i {
        a
    } else {
        a + 1
    }] by {}
    assert(keys_distinct(t)) by {
        assert forall|a: int, b: int|
            0 <= a < t.len() && 0 <= b < t.len() && a != b implies key_of(t[a]) != key_of(
            t[b],
        ) by {
            let a1 = if a < i {
                a
            } else {
                a + 1
            };
            let b1 = if b < i {
                b
            } else {
                b + 1
            };
            assert(t[a] == s[a1] && t[b] == s[b1]);
        }
    }
    assert(!exists|a: int| 0 <= a < t.len() && key_of(#[trigger] t[a]) == key_of(s[i])) by {
        assert forall|a: int| 0 <= a < t.len() implies key_of(#[trigger] t[a]) != key_of(
            s[i],
        ) by {
            let a1 = if a < i {
                a
            } else {
                a + 1
            };
            assert(t[a] == s[a1]);
        }
    }
    assert forall|k: (UserId, u64, Seq<char>)| k != key_of(s[i]) implies #[trigger] value_at(
        t,
        k,
    ) == value_at(s, k) by {
        if exists|a: int| 0 <= a < s.len() && key_of(#[trigger] s[a]) == k {
            let a = choose|a: int| 0 <= a < s.len() && key_of(#[trigger] s[a]) == k;
            lemma_value_at(s, a);
            let a2 = if a < i {
                a
            } else {
                a - 1
            };
            assert(t[a2] == s[a]);
            lemma_value_at(t, a2);
        } else {
            assert forall|a: int| 0 <= a < t.len() implies key_of(#[trigger] t[a]) != k by {
                let a1 = if a < i {
                    a
                } else {
                    a + 1
                };
                assert(t[a] == s[a1]);
            }
        }
    }
}

proof fn lemma_push<V>(s: Seq<Keyed<V>>, e: Keyed<V>)
    requires
        keys_distinct(s),
        value_at(s, key_of(e)).is_none(),
    ensures
        keys_distinct(s.push(e)),
        value_at(s.push(e), key_of(e)) == Some(e.value),
        forall|k: (UserId, u64, Seq<char>)|
            k != key_of(e) ==> #[trigger] value_at(s.push(e), k) == value_at(s, k),
{
    let t = s.push(e);
    assert forall|a: int| 0 <= a < s.len() implies key_of(#[trigger] s[a]) != key_of(e) by {}
    assert(keys_distinct(t)) by {
        assert forall|a: int, b: int|
            0 <= a < t.len() && 0 <= b < t.len() && a != b implies key_of(t[a]) != key_of(
            t[b],
        ) by {
            if a < s.len() && b < s.len() {
                assert(t[a] == s[a] && t[b] == s[b]);
            } else if a < s.len() {
                assert(t[a] == s[a]);
            } else if b < s.len() {
                assert(t[b] == s[b]);
            }
        }
    }
    lemma_value_at(t, s.len() as int);
    assert forall|k: (UserId, u64, Seq<char>)| k != key_of(e) implies #[trigger] value_at(t, k)
        == value_at(s, k) by {
        if exists|a: int| 0 <= a < s.len() && key_of(#[trigger] s[a]) == k {
            let a = choose|a: int| 0 <= a < s.len() && key_of(#[trigger] s[a]) == k;
            lemma_value_at(s, a);
            assert(t[a] == s[a]);
            lemma_value_at(t, a);
        } else {
            assert forall|a: int| 0 <= a < t.len() implies key_of(#[trigger] t[a]) != k by {
                if a < s.len() {
                    assert(t[a] == s[a]);
                }
            }
        }
    }
}

impl<V> SessionStore<V> {
    /// Each key is stored at most once.
    pub closed spec fn wf(&self) -> bool {
        keys_distinct(self.entries@)
    }

    /// The value stored under `(user, device, session)`, if any.
    pub closed spec fn get(&self, user: UserId, device: u64, session: Seq<char>) -> Option<V> {
        value_at(self.entries@, (user, device, session))
    }

    /// An empty store.
    pub fn new() -> (r: Self)
        ensures
            r.wf(),
            forall|u: UserId, d: u64, s: Seq<char>| #[trigger] r.get(u, d, s).is_none(),
    {
        SessionStore { entries: Vec::new() }
    }

    fn find(&self, user: UserId, device: u64, session: &String) -> (r: Option<usize>)
        requires
            self.wf(),
        ensures
            match r {
                Some(i) => i < self.entries@.len() && key_of(self.entries@[i as int]) == (
                user,
                device,
                session@,
                ),
                None => self.get(user, device, session@).is_none(),
            },
    {
        let mut i: usize = 0;
        while i < self.entries.len()
            invariant
                i <= self.entries@.len(),
                forall|j: int|
                    0 <= j < i ==> key_of(#[trigger] self.entries@[j]) != (user, device, session@),
            decreases self.entries@.len() - i,
        {
            let e = &self.entries[i];
            if e.user == user && e.device == device && e.session == *session {
                return Some(i);
            }
            i = i + 1;
        }
        None
    }

    /// The value stored under the key, if any.
    pub fn lookup(&self, user: UserId, device: u64, session: &String) -> (r: Option<&V>)
        requires
            self.wf(),
        ensures
            match r {
                Some(v) => self.get(user, device, session@) == Some(*v),
                None => self.get(user, device, session@).is_none(),
            },
    {
        match self.find(user, device, session) {
            Some(i) => {
                proof {
                    lemma_value_at(self.entries@, i as int);
                }
                Some(&self.entries[i].value)
            },
            None => None,
        }
    }

    /// Removes the value stored under the key and returns it.
    pub fn take(&mut self, user: UserId, device: u64, session: &String) -> (r: Option<V>)
        requires
            old(self).wf(),
        ensures
            final(self).wf(),
            r == old(self).get(user, device, session@),
            final(self).get(user, device, session@).is_none(),
            forall|u: UserId, d: u64, s: Seq<char>|
                (u, d, s) != (user, device, session@) ==> #[trigger] final(self).get(u, d, s)
                    == old(self).get(u, d, s),
    {
        match self.find(user, device, session) {
            Some(i) => {
                proof {
                    lemma_value_at(self.entries@, i as int);
                    lemma_remove(self.entries@, i as int);
                }
                let e = self.entries.remove(i);
                Some(e.value)
            },
            None => None,
        }
    }

    /// Stores `value` under the key, in place of what was there.
    pub fn put(&mut self, user: UserId, device: u64, session: String, value: V)
        requires
            old(self).wf(),
        ensures
            final(self).wf(),
            final(self).get(user, device, session@) == Some(value),
            forall|u: UserId, d: u64, s: Seq<char>|
                (u, d, s) != (user, device, session@) ==> #[trigger] final(self).get(u, d, s)
                    == old(self).get(u, d, s),
    {
        let ghost before = old(self).entries@;
        match self.find(user, device, &session) {
            Some(i) => {
                proof {
                    lemma_remove(self.entries@, i as int);
                }
                let _ = self.entries.remove(i);
            },
            None => {},
        }
        let ghost mid = self.entries@;
        let ghost k0 = (user, device, session@);
        let e = Keyed { user, device, session, value };
        proof {
            lemma_push(self.entries@, e);
        }
        self.entries.push(e);
        assert forall|u: UserId, d: u64, s: Seq<char>| (u, d, s) != k0 implies #[trigger] value_at(
            self.entries@,
            (u, d, s),
        ) == value_at(before, (u, d, s)) by {
            assert(value_at(mid.push(e), (u, d, s)) == value_at(mid, (u, d, s)));
            assert(value_at(mid, (u, d, s)) == value_at(before, (u, d, s)));
        }
    }
}

} // verus!
