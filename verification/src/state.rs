//! Application state container: a type-keyed store for shared,
//! read-mostly dependencies.
//!
//! Values are keyed by a type identity, reduced here to a numeric
//! key, and hold a handle to the shared value the application keeps.
//! At most one value is stored per key: inserting under an existing
//! key replaces the previous value (last write wins). The container
//! is built before the server starts and only read afterwards.

use vstd::prelude::*;

verus! {

/// The type-keyed container. Each slot pairs a type key with the
/// handle of the stored value.
pub struct AppState {
    pub slots: Vec<(u64, u64)>,
}

/// The value stored under a key: that of the first slot carrying it.
pub open spec fn spec_lookup(sl: Seq<(u64, u64)>, key: u64) -> Option<u64>
    decreases sl.len(),
{
    if sl.len() == 0 {
        Option::None
    } else if sl[0].0 == key {
        Option::Some(sl[0].1)
    } else {
        spec_lookup(sl.skip(1), key)
    }
}

/// What `get` answers for a key.
pub open spec fn spec_state_get(s: AppState, key: u64) -> Option<u64> {
    spec_lookup(s.slots@, key)
}

/// Container well-formedness: one slot per key.
pub open spec fn state_wf(s: AppState) -> bool {
    forall|i: int, j: int|
        0 <= i < j < s.slots@.len() ==> (#[trigger] s.slots@[i]).0 != (#[trigger] s.slots@[j]).0
}

proof fn lemma_lookup_absent(sl: Seq<(u64, u64)>, key: u64)
    requires
        forall|i: int| 0 <= i < sl.len() ==> (#[trigger] sl[i]).0 != key,
    ensures
        spec_lookup(sl, key) == Option::<u64>::None,
    decreases sl.len(),
{
    if sl.len() > 0 {
        assert forall|i: int| 0 <= i < sl.skip(1).len() implies (#[trigger] sl.skip(1)[i]).0
            != key by {
            assert(sl.skip(1)[i] == sl[i + 1]);
        }
        lemma_lookup_absent(sl.skip(1), key);
    }
}

proof fn lemma_lookup_update(sl: Seq<(u64, u64)>, i: int, v: u64)
    requires
        0 <= i < sl.len(),
        forall|j: int| 0 <= j < i ==> (#[trigger] sl[j]).0 != sl[i].0,
    ensures
        spec_lookup(sl.update(i, (sl[i].0, v)), sl[i].0) == Option::Some(v),
        forall|k2: u64|
            k2 != sl[i].0 ==> #[trigger] spec_lookup(sl.update(i, (sl[i].0, v)), k2)
                == spec_lookup(sl, k2),
    decreases i,
{
    let up = sl.update(i, (sl[i].0, v));
    if i == 0 {
        assert(up[0] == (sl[0].0, v));
        assert(up.skip(1) =~= sl.skip(1));
        assert forall|k2: u64| k2 != sl[0].0 implies #[trigger] spec_lookup(up, k2)
            == spec_lookup(sl, k2) by {
            assert(spec_lookup(up, k2) == spec_lookup(up.skip(1), k2));
            assert(spec_lookup(sl, k2) == spec_lookup(sl.skip(1), k2));
        }
    } else {
        assert forall|j: int| 0 <= j < i - 1 implies (#[trigger] sl.skip(1)[j]).0 != sl.skip(
            1,
        )[i - 1].0 by {
            assert(sl.skip(1)[j] == sl[j + 1]);
            assert(sl.skip(1)[i - 1] == sl[i]);
        }
        assert(sl.skip(1)[i - 1] == sl[i]);
        lemma_lookup_update(sl.skip(1), i - 1, v);
        assert(up.skip(1) =~= sl.skip(1).update(i - 1, (sl[i].0, v)));
        assert(up[0] == sl[0]);
        assert(sl[0].0 != sl[i].0);
        assert(spec_lookup(up, sl[i].0) == spec_lookup(up.skip(1), sl[i].0));
        assert forall|k2: u64| k2 != sl[i].0 implies #[trigger] spec_lookup(up, k2)
            == spec_lookup(sl, k2) by {
            if k2 == sl[0].0 {
                assert(spec_lookup(up, k2) == Option::Some(up[0].1));
                assert(spec_lookup(sl, k2) == Option::Some(sl[0].1));
            } else {
                assert(spec_lookup(up, k2) == spec_lookup(up.skip(1), k2));
                assert(spec_lookup(sl, k2) == spec_lookup(sl.skip(1), k2));
            }
        }
    }
}

proof fn lemma_lookup_push(sl: Seq<(u64, u64)>, key: u64, v: u64)
    requires
        forall|i: int| 0 <= i < sl.len() ==> (#[trigger] sl[i]).0 != key,
    ensures
        spec_lookup(sl.push((key, v)), key) == Option::Some(v),
        forall|k2: u64|
            k2 != key ==> #[trigger] spec_lookup(sl.push((key, v)), k2) == spec_lookup(sl, k2),
    decreases sl.len(),
{
    let pu = sl.push((key, v));
    if sl.len() == 0 {
        assert(pu[0] == (key, v));
        assert(pu.skip(1) =~= Seq::<(u64, u64)>::empty());
        assert forall|k2: u64| k2 != key implies #[trigger] spec_lookup(pu, k2) == spec_lookup(
            sl,
            k2,
        ) by {
            assert(spec_lookup(pu, k2) == spec_lookup(pu.skip(1), k2));
        }
    } else {
        assert forall|i: int| 0 <= i < sl.skip(1).len() implies (#[trigger] sl.skip(1)[i]).0
            != key by {
            assert(sl.skip(1)[i] == sl[i + 1]);
        }
        lemma_lookup_push(sl.skip(1), key, v);
        assert(pu[0] == sl[0]);
        assert(pu.skip(1) =~= sl.skip(1).push((key, v)));
        assert(sl[0].0 != key);
        assert(spec_lookup(pu, key) == spec_lookup(pu.skip(1), key));
        assert forall|k2: u64| k2 != key implies #[trigger] spec_lookup(pu, k2) == spec_lookup(
            sl,
            k2,
        ) by {
            if k2 == sl[0].0 {
                assert(spec_lookup(pu, k2) == Option::Some(pu[0].1));
            } else {
                assert(spec_lookup(pu, k2) == spec_lookup(pu.skip(1), k2));
                assert(spec_lookup(sl, k2) == spec_lookup(sl.skip(1), k2));
            }
        }
    }
}

impl AppState {
    /// An empty container.
    pub fn new() -> (s: AppState)
        ensures
            state_wf(s),
            forall|k: u64| #[trigger] spec_state_get(s, k) == Option::<u64>::None,
    {
        let s = AppState { slots: Vec::new() };
        proof {
            assert forall|k: u64| #[trigger]
                spec_state_get(s, k) == Option::<u64>::None by {
                lemma_lookup_absent(s.slots@, k);
            }
        }
        s
    }

    /// Stores a value under a type key, replacing any previous value
    /// under the same key: the last write wins. Every other key is
    /// untouched.
    pub fn with(self, key: u64, value: u64) -> (r: AppState)
        requires
            state_wf(self),
        ensures
            state_wf(r),
            spec_state_get(r, key) == Option::Some(value),
            forall|k2: u64|
                k2 != key ==> #[trigger] spec_state_get(r, k2) == spec_state_get(self, k2),
    {
        let mut s = self;
        let n = s.slots.len();
        let mut i: usize = 0;
        while i < n
            invariant
                i <= n,
                s == self,
                state_wf(s),
                n == s.slots@.len(),
                forall|j: int| 0 <= j < i ==> (#[trigger] s.slots@[j]).0 != key,
            decreases n - i,
        {
            if s.slots[i].0 == key {
                let ghost before = s.slots@;
                s.slots.set(i, (key, value));
                proof {
                    assert(s.slots@ =~= before.update(i as int, (before[i as int].0, value)));
                    lemma_lookup_update(before, i as int, value);
                }
                return s;
            }
            i = i + 1;
        }
        proof {
            lemma_lookup_push(s.slots@, key, value);
        }
        s.slots.push((key, value));
        s
    }

    /// Reads the value stored under a type key, if any.
    pub fn get(&self, key: u64) -> (r: Option<u64>)
        ensures
            r == spec_state_get(*self, key),
    {
        let n = self.slots.len();
        let mut i: usize = 0;
        proof {
            assert(self.slots@.skip(0) =~= self.slots@);
        }
        while i < n
            invariant
                i <= n,
                n == self.slots@.len(),
                forall|j: int| 0 <= j < i ==> (#[trigger] self.slots@[j]).0 != key,
                spec_lookup(self.slots@.skip(i as int), key) == spec_state_get(*self, key),
            decreases n - i,
        {
            proof {
                assert(self.slots@.skip(i as int)[0] == self.slots@[i as int]);
                assert(self.slots@.skip(i as int).skip(1) =~= self.slots@.skip(i + 1));
            }
            if self.slots[i].0 == key {
                return Some(self.slots[i].1);
            }
            i = i + 1;
        }
        proof {
            assert(self.slots@.skip(n as int) =~= Seq::<(u64, u64)>::empty());
        }
        None
    }
}

} // verus!
