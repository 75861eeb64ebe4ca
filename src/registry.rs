use vstd::prelude::*;

use crate::error::{EndpointError, EndpointKind};

verus! {

/// True when some entry of `s` is keyed by `k`.
pub open spec fn has_key<V>(s: Seq<(String, V)>, k: Seq<char>) -> bool {
    exists|i: int| 0 <= i < s.len() && (#[trigger] s[i]).0@ == k
}

/// No two entries of `s` share a key.
pub open spec fn unique_keys<V>(s: Seq<(String, V)>) -> bool {
    forall|i: int, j: int|
        #![trigger s[i], s[j]]
        0 <= i < s.len() && 0 <= j < s.len() && s[i].0@ == s[j].0@ ==> i == j
}

/// The values of `s`, in order.
pub open spec fn values_of<V>(s: Seq<(String, V)>) -> Seq<V> {
    s.map_values(|e: (String, V)| e.1)
}

/// Number of `true` entries of `ok`.
pub open spec fn count_true(ok: Seq<bool>) -> nat
    decreases ok.len(),
{
    if ok.len() == 0 {
        0
    } else {
        count_true(ok.drop_last()) + if ok.last() {
            1nat
        } else {
            0nat
        }
    }
}

/// Number of `false` entries of `ok`.
pub open spec fn count_false(ok: Seq<bool>) -> nat
    decreases ok.len(),
{
    if ok.len() == 0 {
        0
    } else {
        count_false(ok.drop_last()) + if ok.last() {
            0nat
        } else {
            1nat
        }
    }
}

/// Which of the outcomes succeeded.
pub open spec fn oks<E>(outs: Seq<Result<(), E>>) -> Seq<bool> {
    outs.map_values(|o: Result<(), E>| o is Ok)
}

/// The entries of `s` whose flag in `ok` (aligned with `s`) is set, in order.
pub open spec fn kept<V>(s: Seq<(String, V)>, ok: Seq<bool>) -> Seq<(String, V)>
    decreases s.len(),
{
    if s.len() == 0 {
        Seq::empty()
    } else {
        let rest = kept(s.drop_last(), ok.drop_last());
        if ok.last() {
            rest.push(s.last())
        } else {
            rest
        }
    }
}

/// `e` is an entry of `s` whose flag in `ok` is set.
pub open spec fn flagged_in<V>(s: Seq<(String, V)>, ok: Seq<bool>, e: (String, V)) -> bool {
    exists|j: int| 0 <= j < s.len() && ok[j] && (#[trigger] s[j]) == e
}

/// Every `true` flag counts once toward `count_true`, every `false` one
/// toward `count_false`.
pub proof fn lemma_counts(ok: Seq<bool>)
    ensures
        count_true(ok) + count_false(ok) == ok.len(),
    decreases ok.len(),
{
    if ok.len() > 0 {
        lemma_counts(ok.drop_last());
    }
}

/// Filtering entries with unique keys by `ok` keeps the keys unique, keeps
/// exactly the flagged keys, and keeps `count_true(ok)` entries.
pub proof fn lemma_kept<V>(s: Seq<(String, V)>, ok: Seq<bool>)
    requires
        unique_keys(s),
        ok.len() == s.len(),
    ensures
        unique_keys(kept(s, ok)),
        kept(s, ok).len() == count_true(ok),
        forall|m: int| 0 <= m < kept(s, ok).len() ==> flagged_in(s, ok, #[trigger] kept(s, ok)[m]),
        forall|i: int| 0 <= i < s.len() ==> (has_key(kept(s, ok), (#[trigger] s[i]).0@) <==> ok[i]),
    decreases s.len(),
{
    if s.len() > 0 {
        let n = s.len() - 1;
        let s2 = s.drop_last();
        let ok2 = ok.drop_last();
        assert forall|i: int, j: int|
            #![trigger s2[i], s2[j]]
            0 <= i < s2.len() && 0 <= j < s2.len() && s2[i].0@ == s2[j].0@ implies i == j by {
            assert(s2[i] == s[i] && s2[j] == s[j]);
        }
        lemma_kept(s2, ok2);
        let k2 = kept(s2, ok2);
        let k = kept(s, ok);
        assert(s.last() == s[n] && ok.last() == ok[n]);
        assert(ok[n] ==> k == k2.push(s[n]));
        assert(!ok[n] ==> k == k2);
        assert(!has_key(k2, s[n].0@)) by {
            if has_key(k2, s[n].0@) {
                let m = choose|m: int| 0 <= m < k2.len() && (#[trigger] k2[m]).0@ == s[n].0@;
                assert(flagged_in(s2, ok2, k2[m]));
                let j = choose|j: int| 0 <= j < s2.len() && ok2[j] && (#[trigger] s2[j]) == k2[m];
                assert(s[j] == s2[j]);
                assert(s[j].0@ == s[n].0@);
            }
        }
        assert forall|m: int| 0 <= m < k.len() implies flagged_in(s, ok, #[trigger] k[m]) by {
            if m < k2.len() {
                assert(k[m] == k2[m]);
                assert(flagged_in(s2, ok2, k2[m]));
                let j = choose|j: int| 0 <= j < s2.len() && ok2[j] && (#[trigger] s2[j]) == k2[m];
                assert(s[j] == s2[j] && ok[j] == ok2[j]);
            } else {
                assert(k[m] == s[n] && ok[n]);
            }
        }
        assert forall|a: int, b: int|
            #![trigger k[a], k[b]]
            0 <= a < k.len() && 0 <= b < k.len() && k[a].0@ == k[b].0@ implies a == b by {
            if a < k2.len() && b < k2.len() {
                assert(k[a] == k2[a] && k[b] == k2[b]);
            } else if a < k2.len() {
                assert(k[a] == k2[a] && k[b] == s[n]);
            } else if b < k2.len() {
                assert(k[b] == k2[b] && k[a] == s[n]);
            }
        }
        assert forall|i: int| 0 <= i < s.len() implies (has_key(k, (#[trigger] s[i]).0@)
            <==> ok[i]) by {
            if i < n {
                assert(s2[i] == s[i] && ok2[i] == ok[i]);
                if s[i].0@ == s[n].0@ {
                    assert(false);
                }
                if has_key(k2, s[i].0@) {
                    let m = choose|m: int| 0 <= m < k2.len() && (#[trigger] k2[m]).0@ == s[i].0@;
                    if ok[n] {
                        assert(k[m] == k2[m]);
                    }
                }
                if has_key(k, s[i].0@) {
                    let m = choose|m: int| 0 <= m < k.len() && (#[trigger] k[m]).0@ == s[i].0@;
                    if m < k2.len() {
                        assert(k[m] == k2[m]);
                    }
                }
            } else {
                if ok[n] {
                    assert(k[k.len() - 1] == s[n]);
                } else {
                    assert(k == k2);
                }
            }
        }
    } else {
        assert(kept(s, ok) =~= Seq::<(String, V)>::empty());
    }
}

/// What `start` does: a live key fails with `AlreadyRunning` and changes
/// nothing; otherwise `open` decides, and only its success is registered.
pub open spec fn start_outcome<V, F: FnOnce(&String) -> Result<V, EndpointError>>(
    before: Seq<(String, V)>,
    after: Seq<(String, V)>,
    kind: EndpointKind,
    key: String,
    open: F,
    r: Result<(), EndpointError>,
) -> bool {
    if has_key(before, key@) {
        r == Err::<(), EndpointError>(EndpointError::AlreadyRunning(kind)) && after == before
    } else {
        match r {
            Ok(_) => has_key(after, key@) && exists|v: V|
                open.ensures((&key,), Ok::<V, EndpointError>(v)) && after == before.push((key, v)),
            Err(e) => open.ensures((&key,), Err::<V, EndpointError>(e)) && after == before,
        }
    }
}

/// What `stop` does: one key is removed and its value handed back, or
/// `NotRunning` when it is absent; `None` removes and hands back everything.
pub open spec fn stop_outcome<V>(
    before: Seq<(String, V)>,
    after: Seq<(String, V)>,
    kind: EndpointKind,
    key: Option<String>,
    r: Result<Vec<V>, EndpointError>,
) -> bool {
    match key {
        Some(k) => match r {
            Ok(vs) => vs@.len() == 1 && exists|i: int|
                0 <= i < before.len() && (#[trigger] before[i]).0@ == k@ && before[i].1 == vs@[0]
                    && after == before.remove(i),
            Err(e) => e == EndpointError::NotRunning(kind) && !has_key(before, k@) && after
                == before,
        },
        None => match r {
            Ok(vs) => vs@ == values_of(before) && after.len() == 0,
            Err(_) => false,
        },
    }
}

/// A successful start keeps keys unique and leaves its key live, so every
/// later start on that key fails with `AlreadyRunning` until it is stopped:
/// at most one endpoint per key is live at any time.
pub proof fn lemma_start_claims_key<V>(before: Seq<(String, V)>, key: String, v: V)
    requires
        unique_keys(before),
        !has_key(before, key@),
    ensures
        unique_keys(before.push((key, v))),
        has_key(before.push((key, v)), key@),
{
    let after = before.push((key, v));
    assert(after[before.len() as int] == (key, v));
    assert forall|i: int, j: int|
        #![trigger after[i], after[j]]
        0 <= i < after.len() && 0 <= j < after.len() && after[i].0@ == after[j].0@ implies i
            == j by {
        if i < before.len() {
            assert(before[i] == after[i]);
        }
        if j < before.len() {
            assert(before[j] == after[j]);
        }
    }
}

/// Once a key's entry is removed the key is absent, so stopping it again
/// fails with `NotRunning` and hands back nothing.
pub proof fn lemma_stop_releases_key<V>(before: Seq<(String, V)>, i: int, key: Seq<char>)
    requires
        unique_keys(before),
        0 <= i < before.len(),
        before[i].0@ == key,
    ensures
        unique_keys(before.remove(i)),
        !has_key(before.remove(i), key),
{
    let after = before.remove(i);
    assert forall|a: int, b: int|
        #![trigger after[a], after[b]]
        0 <= a < after.len() && 0 <= b < after.len() && after[a].0@ == after[b].0@ implies a
            == b by {
        let a0 = if a < i {
            a
        } else {
            a + 1
        };
        let b0 = if b < i {
            b
        } else {
            b + 1
        };
        assert(after[a] == before[a0] && after[b] == before[b0]);
    }
    if has_key(after, key) {
        let c = choose|c: int| 0 <= c < after.len() && (#[trigger] after[c]).0@ == key;
        let c0 = if c < i {
            c
        } else {
            c + 1
        };
        assert(after[c] == before[c0]);
    }
}

/// Live values keyed by address, in order of insertion, at most one per key.
///
/// Serves as the registry of live endpoints of one kind and as the peer
/// table of a TCP server.
pub struct Registry<V> {
    entries: Vec<(String, V)>,
}

impl<V> View for Registry<V> {
    type V = Seq<(String, V)>;

    closed spec fn view(&self) -> Seq<(String, V)> {
        self.entries@
    }
}

impl<V> Registry<V> {
    /// The registry's invariant: keys are unique.
    pub open spec fn wf(&self) -> bool {
        unique_keys(self@)
    }

    pub fn new() -> (r: Self)
        ensures
            r@ == Seq::<(String, V)>::empty(),
            r.wf(),
    {
        Registry { entries: Vec::new() }
    }

    pub fn len(&self) -> (r: usize)
        ensures
            r == self@.len(),
    {
        self.entries.len()
    }

    /// Position of the entry keyed by `key`.
    pub fn find(&self, key: &String) -> (r: Option<usize>)
        ensures
            match r {
                Some(i) => i < self@.len() && self@[i as int].0@ == key@,
                None => !has_key(self@, key@),
            },
    {
        let mut i: usize = 0;
        while i < self.entries.len()
            invariant
                i <= self.entries@.len(),
                forall|j: int| 0 <= j < i ==> (#[trigger] self.entries@[j]).0@ != key@,
            decreases self.entries@.len() - i,
        {
            if self.entries[i].0 == *key {
                return Some(i);
            }
            i += 1;
        }
        None
    }

    pub fn contains_key(&self, key: &String) -> (r: bool)
        ensures
            r == has_key(self@, key@),
    {
        match self.find(key) {
            Some(i) => {
                assert(self@[i as int].0@ == key@);
                true
            },
            None => false,
        }
    }

    /// The value registered under `key`.
    pub fn get(&self, key: &String) -> (r: Option<&V>)
        ensures
            match r {
                Some(v) => exists|i: int|
                    0 <= i < self@.len() && (#[trigger] self@[i]).0@ == key@ && self@[i].1 == *v,
                None => !has_key(self@, key@),
            },
    {
        match self.find(key) {
            Some(i) => {
                let v = &self.entries[i].1;
                assert(self@[i as int].1 == *v);
                Some(v)
            },
            None => None,
        }
    }

    pub fn key_at(&self, i: usize) -> (r: &String)
        requires
            i < self@.len(),
        ensures
            *r == self@[i as int].0,
    {
        &self.entries[i].0
    }

    pub fn value_at(&self, i: usize) -> (r: &V)
        requires
            i < self@.len(),
        ensures
            *r == self@[i as int].1,
    {
        &self.entries[i].1
    }

    /// The keys, in order of insertion.
    pub fn keys(&self) -> (r: Vec<String>)
        ensures
            r@.len() == self@.len(),
            forall|i: int| 0 <= i < r@.len() ==> r@[i] == (#[trigger] self@[i]).0,
    {
        let mut out: Vec<String> = Vec::new();
        let mut i: usize = 0;
        while i < self.entries.len()
            invariant
                i <= self.entries@.len(),
                out@.len() == i,
                forall|j: int| 0 <= j < i ==> out@[j] == (#[trigger] self.entries@[j]).0,
            decreases self.entries@.len() - i,
        {
            out.push(self.entries[i].0.clone());
            i += 1;
        }
        out
    }

    /// Adds an entry under a key that is not yet present.
    pub fn insert_new(&mut self, key: String, value: V)
        requires
            old(self).wf(),
            !has_key(old(self)@, key@),
        ensures
            final(self)@ == old(self)@.push((key, value)),
            final(self).wf(),
            has_key(final(self)@, key@),
    {
        proof {
            lemma_start_claims_key(self@, key, value);
        }
        self.entries.push((key, value));
    }

    /// Removes the entry keyed by `key` and hands back its value.
    pub fn remove(&mut self, key: &String) -> (r: Option<V>)
        requires
            old(self).wf(),
        ensures
            final(self).wf(),
            !has_key(final(self)@, key@),
            match r {
                Some(v) => exists|i: int|
                    0 <= i < old(self)@.len() && (#[trigger] old(self)@[i]).0@ == key@
                        && old(self)@[i].1 == v && final(self)@ == old(self)@.remove(i),
                None => !has_key(old(self)@, key@) && final(self)@ == old(self)@,
            },
    {
        match self.find(key) {
            Some(i) => {
                proof {
                    lemma_stop_releases_key(self@, i as int, key@);
                }
                let (_k, v) = self.entries.remove(i);
                Some(v)
            },
            None => None,
        }
    }

    /// Registers `value` under `key`, replacing and handing back a value
    /// already registered there.
    pub fn insert(&mut self, key: String, value: V) -> (prev: Option<V>)
        requires
            old(self).wf(),
        ensures
            final(self).wf(),
            has_key(final(self)@, key@),
            match prev {
                Some(p) => exists|i: int|
                    0 <= i < old(self)@.len() && (#[trigger] old(self)@[i]).0@ == key@
                        && old(self)@[i].1 == p && final(self)@ == old(self)@.remove(i).push(
                        (key, value),
                    ),
                None => !has_key(old(self)@, key@) && final(self)@ == old(self)@.push(
                    (key, value),
                ),
            },
    {
        let prev = self.remove(&key);
        let ghost k = key;
        self.insert_new(key, value);
        assert(self@[self@.len() - 1].0@ == k@);
        prev
    }

    /// Tries `attempt` on each value in turn, with `arg`; keeps the entries
    /// on which it succeeds, drops the others, and returns how many were
    /// kept.
    pub fn retain_ok<A, E>(&mut self, attempt: &A, arg: &[u8]) -> (n: usize) where
        A: Fn(&V, &[u8]) -> Result<(), E>,

        requires
            old(self).wf(),
            forall|v: &V| attempt.requires((v, arg)),
        ensures
            final(self).wf(),
            exists|outs: Seq<Result<(), E>>|
                outs.len() == old(self)@.len() && (forall|i: int|
                    0 <= i < outs.len() ==> attempt.ensures(
                        (&old(self)@[i].1, arg),
                        #[trigger] outs[i],
                    )) && n == count_true(oks(outs)) && final(self)@ == kept(
                    old(self)@,
                    oks(outs),
                ),
    {
        let mut rest: Vec<(String, V)> = Vec::new();
        std::mem::swap(&mut rest, &mut self.entries);
        let ghost all = rest@;
        let total = rest.len();
        let ghost mut outs: Seq<Result<(), E>> = Seq::empty();
        let mut n: usize = 0;
        while rest.len() > 0
            invariant
                outs.len() + rest@.len() == all.len(),
                rest@ == all.subrange(outs.len() as int, all.len() as int),
                forall|i: int|
                    0 <= i < outs.len() ==> attempt.ensures((&all[i].1, arg), #[trigger] outs[i]),
                self.entries@ == kept(all.subrange(0, outs.len() as int), oks(outs)),
                n == count_true(oks(outs)),
                n <= outs.len(),
                all.len() == total,
                unique_keys(all),
                forall|v: &V| attempt.requires((v, arg)),
            decreases rest@.len(),
        {
            let ghost k = outs.len() as int;
            let ghost prev_outs = outs;
            let (key, value) = rest.remove(0);
            assert((key, value) == all[k]);
            let res = attempt(&value, arg);
            let ok = res.is_ok();
            proof {
                outs = outs.push(res);
            }
            if ok {
                self.entries.push((key, value));
                n = n + 1;
            }
            proof {
                let s1 = all.subrange(0, k + 1);
                assert(rest@ =~= all.subrange(k + 1, all.len() as int));
                assert(s1.drop_last() =~= all.subrange(0, k));
                assert(oks(outs).drop_last() =~= oks(prev_outs));
                assert(s1.last() == all[k]);
                assert(oks(outs).last() == ok);
                assert forall|i: int| 0 <= i < outs.len() implies attempt.ensures(
                    (&all[i].1, arg),
                    #[trigger] outs[i],
                ) by {
                    if i < k {
                        assert(outs[i] == prev_outs[i]);
                    }
                }
            }
        }
        proof {
            assert(all.subrange(0, all.len() as int) =~= all);
            lemma_kept(all, oks(outs));
        }
        n
    }

    /// Empties the registry and hands back every value, in order.
    pub fn take_all(&mut self) -> (r: Vec<V>)
        ensures
            final(self)@.len() == 0,
            final(self).wf(),
            r@ == values_of(old(self)@),
    {
        let mut rest: Vec<(String, V)> = Vec::new();
        std::mem::swap(&mut rest, &mut self.entries);
        let ghost all = rest@;
        let mut out: Vec<V> = Vec::new();
        while rest.len() > 0
            invariant
                out@.len() + rest@.len() == all.len(),
                rest@ == all.subrange(out@.len() as int, all.len() as int),
                out@ == values_of(all.subrange(0, out@.len() as int)),
                self.entries@.len() == 0,
            decreases rest@.len(),
        {
            let ghost k = out@.len() as int;
            let (_key, v) = rest.remove(0);
            out.push(v);
            assert(rest@ =~= all.subrange(k + 1, all.len() as int));
            assert(out@ =~= values_of(all.subrange(0, k + 1)));
        }
        assert(all.subrange(0, all.len() as int) =~= all);
        out
    }

    /// Registers a new endpoint under `key`, checking and inserting in one
    /// step: a second start on a live key fails with `AlreadyRunning`.
    /// `open` binds or connects; only its success is registered.
    pub fn start<F>(&mut self, kind: EndpointKind, key: String, open: F) -> (r: Result<
        (),
        EndpointError,
    >) where F: FnOnce(&String) -> Result<V, EndpointError>
        requires
            old(self).wf(),
            open.requires((&key,)),
        ensures
            final(self).wf(),
            start_outcome(old(self)@, final(self)@, kind, key, open, r),
    {
        if self.contains_key(&key) {
            return Err(EndpointError::AlreadyRunning(kind));
        }
        match open(&key) {
            Ok(v) => {
                self.insert_new(key, v);
                Ok(())
            },
            Err(e) => Err(e),
        }
    }

    /// Unregisters the endpoint under `key`, or every endpoint when `key` is
    /// `None`, and hands back the values removed, for the caller to signal
    /// and join. Stopping all of an empty registry succeeds.
    pub fn stop(&mut self, kind: EndpointKind, key: Option<String>) -> (r: Result<
        Vec<V>,
        EndpointError,
    >)
        requires
            old(self).wf(),
        ensures
            final(self).wf(),
            stop_outcome(old(self)@, final(self)@, kind, key, r),
    {
        match key {
            Some(k) => match self.remove(&k) {
                Some(v) => {
                    let mut vs: Vec<V> = Vec::new();
                    vs.push(v);
                    Ok(vs)
                },
                None => Err(EndpointError::NotRunning(kind)),
            },
            None => Ok(self.take_all()),
        }
    }
}

} // verus!
