//! The strategy cache: a bounded least-recently-used mapping from an
//! application identifier to the verdict of the last successful retrieval
//! technique for that application. The bounded LRU collection itself comes
//! from the `lru` crate and is reached only through trusted wrappers; its
//! contents are modelled as a sequence of key/verdict pairs ordered from the
//! most recently used entry to the least recently used one.

use vstd::prelude::*;

verus! {

/// Which retrieval technique last yielded a non-empty result for an
/// application: presence of a verdict means "at least one prior retrieval
/// for this application succeeded via the recorded technique".
#[derive(Clone, Copy, Debug, PartialEq, Eq, Structural)]
pub enum StrategyVerdict {
    AccessibilitySucceeded,
    AccessibilityFailed,
}

/// The bounded LRU collection of the `lru` crate, held in a field that the
/// verifier does not look into; everything known of it is said by the
/// trusted wrappers below, over `lru_model` and `lru_capacity`.
#[verifier::external_body]
pub struct LruCore {
    inner: lru::LruCache<String, StrategyVerdict>,
}

/// The entries of the underlying LRU collection, most recently used first.
pub uninterp spec fn lru_model(c: &LruCore) -> Seq<(Seq<char>, StrategyVerdict)>;

/// The fixed capacity the underlying LRU collection was created with.
pub uninterp spec fn lru_capacity(c: &LruCore) -> nat;

/// Whether some entry of `m` has the key `k`.
pub open spec fn model_has_key(m: Seq<(Seq<char>, StrategyVerdict)>, k: Seq<char>) -> bool {
    exists|i: int| 0 <= i < m.len() && m[i].0 == k
}

/// The position of the entry with key `k`.
pub open spec fn model_index_of(m: Seq<(Seq<char>, StrategyVerdict)>, k: Seq<char>) -> int {
    choose|i: int| 0 <= i < m.len() && m[i].0 == k
}

/// The verdict recorded under key `k`.
pub open spec fn model_value_of(
    m: Seq<(Seq<char>, StrategyVerdict)>,
    k: Seq<char>,
) -> StrategyVerdict {
    m[model_index_of(m, k)].1
}

/// `m` without the entry keyed `k`.
pub open spec fn model_remove(
    m: Seq<(Seq<char>, StrategyVerdict)>,
    k: Seq<char>,
) -> Seq<(Seq<char>, StrategyVerdict)> {
    let i = model_index_of(m, k);
    m.subrange(0, i) + m.subrange(i + 1, m.len() as int)
}

/// What a lookup does to the entries: a present key moves to the front with
/// its verdict unchanged; an absent key leaves the entries as they are.
pub open spec fn lru_touch(
    m: Seq<(Seq<char>, StrategyVerdict)>,
    k: Seq<char>,
) -> Seq<(Seq<char>, StrategyVerdict)> {
    if model_has_key(m, k) {
        seq![(k, model_value_of(m, k))] + model_remove(m, k)
    } else {
        m
    }
}

/// What an insertion does to the entries: a present key is re-recorded at
/// the front with the new verdict; an absent key is added at the front, and
/// when the collection already stands at its capacity the least recently
/// used entry (the last one) is evicted to make room.
pub open spec fn lru_insert(
    m: Seq<(Seq<char>, StrategyVerdict)>,
    cap: nat,
    k: Seq<char>,
    v: StrategyVerdict,
) -> Seq<(Seq<char>, StrategyVerdict)> {
    if model_has_key(m, k) {
        seq![(k, v)] + model_remove(m, k)
    } else if m.len() < cap {
        seq![(k, v)] + m
    } else {
        seq![(k, v)] + m.drop_last()
    }
}

/// Well-formedness of a model: the capacity is positive, the entries fit in
/// it, and no key occurs twice.
pub open spec fn model_wf(m: Seq<(Seq<char>, StrategyVerdict)>, cap: nat) -> bool {
    &&& 1 <= cap
    &&& m.len() <= cap
    &&& forall|i: int, j: int| 0 <= i < j < m.len() ==> m[i].0 != m[j].0
}

/// Relies on lru::LruCache::new: creates an empty cache bounded at `cap`.
#[verifier::external_body]
fn lru_new(cap: usize) -> (c: LruCore)
    requires
        1 <= cap,
    ensures
        lru_model(&c) == Seq::<(Seq<char>, StrategyVerdict)>::empty(),
        lru_capacity(&c) == cap as nat,
{
    LruCore { inner: lru::LruCache::new(std::num::NonZeroUsize::new(cap).unwrap()) }
}

/// Relies on lru::LruCache::get: returns the value under the key, if any,
/// and moves that entry to the front of the recency order.
#[verifier::external_body]
fn lru_get(c: &mut LruCore, k: &String) -> (r: Option<StrategyVerdict>)
    ensures
        lru_capacity(final(c)) == lru_capacity(old(c)),
        lru_model(final(c)) == lru_touch(lru_model(old(c)), k@),
        r == (if model_has_key(lru_model(old(c)), k@) {
            Some(model_value_of(lru_model(old(c)), k@))
        } else {
            None::<StrategyVerdict>
        }),
{
    c.inner.get(k).copied()
}

/// Relies on lru::LruCache::put: records the value under the key at the
/// front of the recency order, evicting the least recently used entry when
/// the key is new and the cache is full.
#[verifier::external_body]
fn lru_put(c: &mut LruCore, k: String, v: StrategyVerdict)
    ensures
        lru_capacity(final(c)) == lru_capacity(old(c)),
        lru_model(final(c)) == lru_insert(lru_model(old(c)), lru_capacity(old(c)), k@, v),
{
    c.inner.put(k, v);
}

/// The bounded per-application strategy memory.
pub struct StrategyCache {
    core: LruCore,
}

impl StrategyCache {
    /// The cached entries, most recently used first.
    pub closed spec fn entries(&self) -> Seq<(Seq<char>, StrategyVerdict)> {
        lru_model(&self.core)
    }

    /// The capacity the cache was created with.
    pub closed spec fn capacity(&self) -> nat {
        lru_capacity(&self.core)
    }

    pub open spec fn wf(&self) -> bool {
        model_wf(self.entries(), self.capacity())
    }

    /// A fresh cache bounded at `capacity` entries.
    pub fn new(capacity: usize) -> (c: Self)
        requires
            1 <= capacity,
        ensures
            c.entries() == Seq::<(Seq<char>, StrategyVerdict)>::empty(),
            c.capacity() == capacity as nat,
            c.wf(),
    {
        StrategyCache { core: lru_new(capacity) }
    }

    /// Looks an application up; the queried entry, if present, becomes the
    /// most recently used one.
    pub fn lookup(&mut self, application_id: &String) -> (r: Option<StrategyVerdict>)
        ensures
            final(self).capacity() == old(self).capacity(),
            final(self).entries() == lru_touch(old(self).entries(), application_id@),
            r == (if model_has_key(old(self).entries(), application_id@) {
                Some(model_value_of(old(self).entries(), application_id@))
            } else {
                None::<StrategyVerdict>
            }),
            old(self).wf() ==> final(self).wf(),
    {
        let r = lru_get(&mut self.core, application_id);
        proof {
            if old(self).wf() {
                lemma_touch_preserves_wf(old(self).entries(), old(self).capacity(), application_id@);
            }
        }
        r
    }

    /// Records a verdict for an application at the front of the recency
    /// order, evicting the least recently used entry if room must be made.
    pub fn record(&mut self, application_id: String, verdict: StrategyVerdict)
        ensures
            final(self).capacity() == old(self).capacity(),
            final(self).entries() == lru_insert(
                old(self).entries(),
                old(self).capacity(),
                application_id@,
                verdict,
            ),
            old(self).wf() ==> final(self).wf(),
    {
        proof {
            if old(self).wf() {
                lemma_insert_preserves_wf(
                    old(self).entries(),
                    old(self).capacity(),
                    application_id@,
                    verdict,
                );
            }
        }
        lru_put(&mut self.core, application_id, verdict);
    }
}

/// In a well-formed model the chosen index of a present key is the only one
/// carrying that key.
proof fn lemma_index_of_present(m: Seq<(Seq<char>, StrategyVerdict)>, k: Seq<char>)
    requires
        model_has_key(m, k),
    ensures
        0 <= model_index_of(m, k) < m.len(),
        m[model_index_of(m, k)].0 == k,
{
    let i = choose|i: int| 0 <= i < m.len() && m[i].0 == k;
    assert(0 <= i < m.len() && m[i].0 == k);
}

/// Removing a present key keeps every other entry, in order.
proof fn lemma_remove_shape(m: Seq<(Seq<char>, StrategyVerdict)>, k: Seq<char>)
    requires
        model_has_key(m, k),
    ensures
        model_remove(m, k).len() == m.len() - 1,
        forall|x: int|
            0 <= x < m.len() - 1 ==> #[trigger] model_remove(m, k)[x] == (if x
                < model_index_of(m, k) {
                m[x]
            } else {
                m[x + 1]
            }),
{
    lemma_index_of_present(m, k);
}

/// A lookup keeps the model well-formed and its length unchanged.
pub proof fn lemma_touch_preserves_wf(
    m: Seq<(Seq<char>, StrategyVerdict)>,
    cap: nat,
    k: Seq<char>,
)
    requires
        model_wf(m, cap),
    ensures
        model_wf(lru_touch(m, k), cap),
        lru_touch(m, k).len() == m.len(),
{
    if model_has_key(m, k) {
        lemma_index_of_present(m, k);
        lemma_remove_shape(m, k);
        let idx = model_index_of(m, k);
        let t = lru_touch(m, k);
        assert forall|i: int, j: int| 0 <= i < j < t.len() implies t[i].0 != t[j].0 by {
            if i == 0 {
                let p = if j - 1 < idx { j - 1 } else { j };
                assert(t[j] == m[p]);
                assert(m[p].0 != m[idx].0);
            } else {
                let p = if i - 1 < idx { i - 1 } else { i };
                let q = if j - 1 < idx { j - 1 } else { j };
                assert(t[i] == m[p]);
                assert(t[j] == m[q]);
            }
        }
    }
}

/// An insertion keeps the model well-formed, within its capacity.
pub proof fn lemma_insert_preserves_wf(
    m: Seq<(Seq<char>, StrategyVerdict)>,
    cap: nat,
    k: Seq<char>,
    v: StrategyVerdict,
)
    requires
        model_wf(m, cap),
    ensures
        model_wf(lru_insert(m, cap, k, v), cap),
        model_has_key(m, k) ==> lru_insert(m, cap, k, v).len() == m.len(),
        !model_has_key(m, k) && m.len() < cap ==> lru_insert(m, cap, k, v).len() == m.len() + 1,
        !model_has_key(m, k) && m.len() == cap ==> lru_insert(m, cap, k, v).len() == m.len(),
{
    let t = lru_insert(m, cap, k, v);
    if model_has_key(m, k) {
        lemma_index_of_present(m, k);
        lemma_remove_shape(m, k);
        let idx = model_index_of(m, k);
        assert forall|i: int, j: int| 0 <= i < j < t.len() implies t[i].0 != t[j].0 by {
            if i == 0 {
                let p = if j - 1 < idx { j - 1 } else { j };
                assert(t[j] == m[p]);
                assert(m[p].0 != m[idx].0);
            } else {
                let p = if i - 1 < idx { i - 1 } else { i };
                let q = if j - 1 < idx { j - 1 } else { j };
                assert(t[i] == m[p]);
                assert(t[j] == m[q]);
            }
        }
    } else if m.len() < cap {
        assert forall|i: int, j: int| 0 <= i < j < t.len() implies t[i].0 != t[j].0 by {
            if i == 0 {
                assert(t[j] == m[j - 1]);
                assert(m[j - 1].0 != k);
            } else {
                assert(t[i] == m[i - 1]);
                assert(t[j] == m[j - 1]);
            }
        }
    } else {
        assert forall|i: int, j: int| 0 <= i < j < t.len() implies t[i].0 != t[j].0 by {
            if i == 0 {
                assert(t[j] == m[j - 1]);
                assert(m[j - 1].0 != k);
            } else {
                assert(t[i] == m[i - 1]);
                assert(t[j] == m[j - 1]);
            }
        }
    }
}

/// After a verdict is recorded for a key, a lookup of that key finds exactly
/// that verdict.
pub proof fn lemma_insert_then_found(
    m: Seq<(Seq<char>, StrategyVerdict)>,
    cap: nat,
    k: Seq<char>,
    v: StrategyVerdict,
)
    requires
        model_wf(m, cap),
    ensures
        model_has_key(lru_insert(m, cap, k, v), k),
        model_value_of(lru_insert(m, cap, k, v), k) == v,
{
    let t = lru_insert(m, cap, k, v);
    if model_has_key(m, k) {
        lemma_index_of_present(m, k);
        lemma_remove_shape(m, k);
    }
    assert(t[0] == (k, v));
    assert(model_has_key(t, k));
    lemma_insert_preserves_wf(m, cap, k, v);
    lemma_index_of_present(t, k);
    let i = model_index_of(t, k);
    if i != 0 {
        assert(t[0].0 != t[i].0);
        assert(false);
    }
}

/// Inserting a fresh key into a full cache evicts exactly the least
/// recently used entry: the new entry stands at the front, every other
/// entry but the last one survives in order, and the last entry's key is
/// gone.
pub proof fn lemma_insert_full_evicts_lru(
    m: Seq<(Seq<char>, StrategyVerdict)>,
    cap: nat,
    k: Seq<char>,
    v: StrategyVerdict,
)
    requires
        model_wf(m, cap),
        m.len() == cap,
        !model_has_key(m, k),
    ensures
        lru_insert(m, cap, k, v).len() == cap,
        lru_insert(m, cap, k, v)[0] == (k, v),
        forall|i: int| 0 <= i < cap - 1 ==> #[trigger] lru_insert(m, cap, k, v)[i + 1] == m[i],
        !model_has_key(lru_insert(m, cap, k, v), m.last().0),
{
    let t = lru_insert(m, cap, k, v);
    assert(t =~= seq![(k, v)] + m.drop_last());
    let evicted = m.last().0;
    assert forall|i: int| 0 <= i < t.len() implies t[i].0 != evicted by {
        if i == 0 {
            assert(m[m.len() - 1].0 == evicted);
            assert(model_has_key(m, evicted));
        } else {
            assert(t[i] == m[i - 1]);
            assert(m[i - 1].0 != m[m.len() - 1].0);
        }
    }
    if model_has_key(t, evicted) {
        let w = choose|i: int| 0 <= i < t.len() && t[i].0 == evicted;
        assert(t[w].0 != evicted);
    }
}

/// A lookup of a present key moves that entry, unchanged, to the front, and
/// neither adds nor drops any key: querying counts as a use for recency.
pub proof fn lemma_touch_refreshes_recency(
    m: Seq<(Seq<char>, StrategyVerdict)>,
    cap: nat,
    k: Seq<char>,
)
    requires
        model_wf(m, cap),
        model_has_key(m, k),
    ensures
        lru_touch(m, k).len() == m.len(),
        lru_touch(m, k)[0] == (k, model_value_of(m, k)),
        forall|k2: Seq<char>|
            #[trigger] model_has_key(lru_touch(m, k), k2) <==> model_has_key(m, k2),
{
    lemma_index_of_present(m, k);
    lemma_remove_shape(m, k);
    let idx = model_index_of(m, k);
    let t = lru_touch(m, k);
    assert forall|k2: Seq<char>|
        #[trigger] model_has_key(t, k2) <==> model_has_key(m, k2) by {
        if model_has_key(t, k2) {
            let i = choose|i: int| 0 <= i < t.len() && t[i].0 == k2;
            if i == 0 {
                assert(m[idx].0 == k2);
            } else {
                let p = if i - 1 < idx { i - 1 } else { i };
                assert(t[i] == m[p]);
            }
            assert(model_has_key(m, k2));
        }
        if model_has_key(m, k2) {
            let i = choose|i: int| 0 <= i < m.len() && m[i].0 == k2;
            if i == idx {
                assert(t[0].0 == k2);
            } else if i < idx {
                assert(t[i + 1] == m[i]);
            } else {
                assert(t[i] == m[i]);
            }
            assert(model_has_key(t, k2));
        }
    }
}

} // verus!
