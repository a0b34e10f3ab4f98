//! Resource cache protocol: decides, per resource slot, whether the
//! output provisioned by a prior deployment can be reused or must be
//! regenerated, and records freshly provisioned output, superseding the
//! slot's prior entry.

use vstd::prelude::*;

use crate::error::Error;

verus! {

/// The closed set of platform-managed resource kinds a builder can be
/// keyed by. One cache slot exists per kind.
#[derive(Clone, Copy, Debug, PartialEq, Eq, Structural)]
pub enum ResourceKind {
    Database,
    Secrets,
    StaticFolder,
}

/// Cache key for one resource slot: the resource kind tag together with
/// the serialized Config value. Equality of two keys across deployments
/// is the sole criterion for cache reuse.
pub struct ConfigKey {
    pub kind: ResourceKind,
    pub config: String,
}

impl ConfigKey {
    /// Structural key equality: same kind, same serialized config.
    pub open spec fn key_matches(&self, other: &ConfigKey) -> bool {
        self.kind == other.kind && self.config@ == other.config@
    }

    /// Decides key equality.
    pub fn key_eq(&self, other: &ConfigKey) -> (r: bool)
        ensures
            r == self.key_matches(other),
    {
        self.kind == other.kind && self.config == other.config
    }
}

/// One cache entry: the key it was stored under, the serialized Output
/// it memoizes, and the deployment that produced it.
pub struct CachedOutput {
    pub key: ConfigKey,
    pub output: String,
    pub deployment: u64,
}

/// Mathematical image of a cache entry.
#[verifier::ext_equal]
pub ghost struct EntryView {
    pub config: Seq<char>,
    pub output: Seq<char>,
    pub deployment: u64,
}

impl View for CachedOutput {
    type V = EntryView;

    open spec fn view(&self) -> EntryView {
        EntryView { config: self.key.config@, output: self.output@, deployment: self.deployment }
    }
}

/// First entry of `s` stored under `kind`, if any.
pub open spec fn spec_find(s: Seq<CachedOutput>, kind: ResourceKind) -> Option<EntryView>
    decreases s.len(),
{
    if s.len() == 0 {
        None
    } else if s[0].key.kind == kind {
        Some(s[0]@)
    } else {
        spec_find(s.drop_first(), kind)
    }
}

/// No two entries of `s` share a resource kind.
pub open spec fn distinct_kinds(s: Seq<CachedOutput>) -> bool {
    forall|i: int, j: int|
        0 <= i < j < s.len() ==> s[i].key.kind != s[j].key.kind
}

/// The per-service store of cached provisioning outputs, one slot per
/// resource kind.
pub struct ResourceCache {
    entries: Vec<CachedOutput>,
}

/// What consulting the cache for a key decided: reuse the memoized
/// output, or provision afresh.
pub enum CacheDecision {
    Hit { output: String },
    Miss,
}

impl ResourceCache {
    /// The entry currently held by the slot for `kind`, if any.
    pub closed spec fn slot(&self, kind: ResourceKind) -> Option<EntryView> {
        spec_find(self.entries@, kind)
    }

    /// Internal invariant: at most one entry per resource kind.
    pub closed spec fn wf(&self) -> bool {
        distinct_kinds(self.entries@)
    }

    /// True when the slot for `key.kind` holds an entry whose serialized
    /// config equals `key.config`: the cached output may be reused.
    pub open spec fn spec_hit(&self, key: &ConfigKey) -> bool {
        match self.slot(key.kind) {
            Some(e) => e.config == key.config@,
            None => false,
        }
    }

    /// An empty cache: every slot is vacant.
    pub fn new() -> (c: ResourceCache)
        ensures
            c.wf(),
            forall|k: ResourceKind| c.slot(k) is None,
    {
        ResourceCache { entries: Vec::new() }
    }

    /// Consults the cache for the current deployment's key. Returns `Hit`
    /// with exactly the memoized output when the slot's stored config
    /// equals the key's; `Miss` otherwise (vacant slot, or changed
    /// config), in which case provisioning must run.
    pub fn consult(&self, key: &ConfigKey) -> (d: CacheDecision)
        ensures
            match d {
                CacheDecision::Hit { output } => self.spec_hit(key) && (self.slot(key.kind)
                    matches Some(e) && e.output == output@),
                CacheDecision::Miss => !self.spec_hit(key),
            },
    {
        let n = self.entries.len();
        let mut i: usize = 0;
        while i < n
            invariant
                n == self.entries@.len(),
                0 <= i <= n,
                forall|j: int| 0 <= j < i ==> self.entries@[j].key.kind != key.kind,
            decreases n - i,
        {
            if self.entries[i].key.kind == key.kind {
                proof {
                    lemma_find_skip(self.entries@, key.kind, i as int);
                }
                if self.entries[i].key.config == key.config {
                    return CacheDecision::Hit { output: self.entries[i].output.clone() };
                } else {
                    return CacheDecision::Miss;
                }
            }
            i += 1;
        }
        proof {
            lemma_find_skip(self.entries@, key.kind, n as int);
        }
        CacheDecision::Miss
    }

    /// Stores freshly provisioned output under `key`, superseding
    /// whatever entry the slot for `key.kind` held before; every other
    /// slot is untouched.
    pub fn store(&mut self, key: &ConfigKey, output: String, deployment: u64)
        requires
            old(self).wf(),
        ensures
            final(self).wf(),
            final(self).slot(key.kind) == Some(
                EntryView { config: key.config@, output: output@, deployment },
            ),
            forall|k: ResourceKind| k != key.kind ==> final(self).slot(k) == old(self).slot(k),
    {
        let entry = CachedOutput {
            key: ConfigKey { kind: key.kind, config: key.config.clone() },
            output,
            deployment,
        };
        let n = self.entries.len();
        let mut i: usize = 0;
        while i < n
            invariant
                n == self.entries@.len(),
                0 <= i <= n,
                forall|j: int| 0 <= j < i ==> self.entries@[j].key.kind != key.kind,
                entry.key.kind == key.kind,
                entry@ == (EntryView { config: key.config@, output: output@, deployment }),
                distinct_kinds(self.entries@),
                self.entries@ == old(self).entries@,
            decreases n - i,
        {
            if self.entries[i].key.kind == key.kind {
                proof {
                    lemma_find_update(self.entries@, i as int, entry, key.kind);
                }
                self.entries.set(i, entry);
                return ;
            }
            i += 1;
        }
        proof {
            lemma_find_skip(self.entries@, key.kind, n as int);
            lemma_find_push(self.entries@, entry);
            lemma_find_none_no_kind(self.entries@, key.kind);
        }
        self.entries.push(entry);
    }

    /// Applies the outcome of a provisioning attempt for `key` to the
    /// cache. On success the serialized output is memoized under `key`,
    /// superseding the slot's prior entry, and handed back. On failure
    /// nothing is written — the prior entry, if any, stays valid for the
    /// next attempt — and the error is handed back.
    pub fn record_provisioning(
        &mut self,
        key: &ConfigKey,
        outcome: Result<String, Error>,
        deployment: u64,
    ) -> (r: Result<String, Error>)
        requires
            old(self).wf(),
        ensures
            final(self).wf(),
            outcome matches Ok(o) ==> r == Ok::<String, Error>(o) && final(self).slot(key.kind)
                == Some(EntryView { config: key.config@, output: o@, deployment }) && (forall|
                k: ResourceKind,
            |
                k != key.kind ==> final(self).slot(k) == old(self).slot(k)),
            outcome matches Err(e) ==> r == Err::<String, Error>(e) && (forall|k: ResourceKind|
                final(self).slot(k) == old(self).slot(k)),
    {
        match outcome {
            Ok(o) => {
                let stored = o.clone();
                self.store(key, stored, deployment);
                Ok(o)
            },
            Err(e) => Err(e),
        }
    }
}

/// Idempotence of the provisioning protocol: once a deployment has
/// memoized the output provisioned under a key, any later deployment
/// whose freshly computed key is equal — same kind, same serialized
/// config — hits the cache and reuses exactly that output, so the
/// expensive provisioning step is not invoked again.
pub proof fn lemma_second_deployment_hits(
    c: ResourceCache,
    key1: ConfigKey,
    key2: ConfigKey,
    out: Seq<char>,
    dep: u64,
)
    requires
        key2.key_matches(&key1),
        c.slot(key1.kind) == Some(EntryView { config: key1.config@, output: out, deployment: dep }),
    ensures
        c.spec_hit(&key2),
        (c.slot(key2.kind) matches Some(e) && e.output == out),
{
}

/// Cache-miss correctness: when the serialized config changed between
/// deployments, the stale entry cannot be reused — the lookup misses, so
/// provisioning runs again — and once its outcome is recorded the new
/// entry has overwritten the slot: the key now hits, with the new output,
/// and the prior entry is gone.
pub proof fn lemma_changed_config_supersedes(
    c1: ResourceCache,
    c2: ResourceCache,
    key: ConfigKey,
    prior: EntryView,
    out: Seq<char>,
    dep: u64,
)
    requires
        c1.slot(key.kind) == Some(prior),
        prior.config != key.config@,
        c2.slot(key.kind) == Some(EntryView { config: key.config@, output: out, deployment: dep }),
        forall|k: ResourceKind| k != key.kind ==> c2.slot(k) == c1.slot(k),
    ensures
        !c1.spec_hit(&key),
        c2.spec_hit(&key),
        (c2.slot(key.kind) matches Some(e) && e.output == out && e.config == key.config@ && e
            != prior),
{
}

/// Scanning past a kind-free prefix does not change what is found.
proof fn lemma_find_skip(s: Seq<CachedOutput>, kind: ResourceKind, i: int)
    requires
        0 <= i <= s.len(),
        forall|j: int| 0 <= j < i ==> s[j].key.kind != kind,
    ensures
        spec_find(s, kind) == spec_find(s.skip(i), kind),
    decreases i,
{
    if i > 0 {
        assert(s.len() > 0);
        assert(s[0].key.kind != kind);
        assert(s.drop_first().skip(i - 1) =~= s.skip(i));
        lemma_find_skip(s.drop_first(), kind, i - 1);
    } else {
        assert(s.skip(0) =~= s);
    }
}

/// A vacant slot means no entry of the sequence has that kind.
proof fn lemma_find_none_no_kind(s: Seq<CachedOutput>, kind: ResourceKind)
    requires
        spec_find(s, kind) is None,
    ensures
        forall|j: int| 0 <= j < s.len() ==> s[j].key.kind != kind,
    decreases s.len(),
{
    if s.len() > 0 {
        lemma_find_none_no_kind(s.drop_first(), kind);
        assert forall|j: int| 0 <= j < s.len() implies s[j].key.kind != kind by {
            if j > 0 {
                assert(s.drop_first()[j - 1] == s[j]);
            }
        }
    }
}

/// Replacing the unique entry of a kind in place updates that slot and
/// leaves every other slot as it was.
proof fn lemma_find_update(s: Seq<CachedOutput>, i: int, e: CachedOutput, kind: ResourceKind)
    requires
        0 <= i < s.len(),
        s[i].key.kind == kind,
        e.key.kind == kind,
        distinct_kinds(s),
        forall|j: int| 0 <= j < i ==> s[j].key.kind != kind,
    ensures
        spec_find(s.update(i, e), kind) == Some(e@),
        forall|k: ResourceKind| k != kind ==> spec_find(s.update(i, e), k) == spec_find(s, k),
        distinct_kinds(s.update(i, e)),
    decreases i,
{
    let t = s.update(i, e);
    assert forall|a: int, b: int| 0 <= a < b < t.len() implies t[a].key.kind != t[b].key.kind by {
        if a != i && b != i {
            assert(t[a] == s[a] && t[b] == s[b]);
        } else if a == i {
            assert(t[b] == s[b] && s[i].key.kind != s[b].key.kind);
        } else {
            assert(t[a] == s[a] && s[a].key.kind != s[i].key.kind);
        }
    }
    if i == 0 {
        assert(t[0] == e);
        assert forall|k: ResourceKind| k != kind implies spec_find(t, k) == spec_find(s, k) by {
            assert(t.drop_first() =~= s.drop_first());
            assert(spec_find(t, k) == spec_find(t.drop_first(), k));
            assert(spec_find(s, k) == spec_find(s.drop_first(), k));
        }
    } else {
        assert(t[0] == s[0]);
        assert(s[0].key.kind != kind);
        assert(t.drop_first() =~= s.drop_first().update(i - 1, e));
        lemma_find_update(s.drop_first(), i - 1, e, kind);
        assert(spec_find(t, kind) == spec_find(t.drop_first(), kind));
        assert forall|k: ResourceKind| k != kind implies spec_find(t, k) == spec_find(s, k) by {
            if s[0].key.kind == k {
                assert(spec_find(t, k) == Some(t[0]@));
                assert(spec_find(s, k) == Some(s[0]@));
            } else {
                assert(spec_find(t, k) == spec_find(t.drop_first(), k));
                assert(spec_find(s, k) == spec_find(s.drop_first(), k));
                assert(spec_find(s.drop_first().update(i - 1, e), k) == spec_find(
                    s.drop_first(),
                    k,
                ));
            }
        }
    }
}

/// Appending an entry for a vacant kind fills that slot and leaves every
/// other slot as it was.
proof fn lemma_find_push(s: Seq<CachedOutput>, e: CachedOutput)
    requires
        spec_find(s, e.key.kind) is None,
    ensures
        spec_find(s.push(e), e.key.kind) == Some(e@),
        forall|k: ResourceKind| k != e.key.kind ==> spec_find(s.push(e), k) == spec_find(s, k),
    decreases s.len(),
{
    let t = s.push(e);
    if s.len() == 0 {
        assert(t[0] == e);
        assert forall|k: ResourceKind| k != e.key.kind implies spec_find(t, k) == spec_find(s, k) by {
            assert(t.drop_first() =~= Seq::<CachedOutput>::empty());
            assert(spec_find(t, k) == spec_find(t.drop_first(), k));
            assert(t.drop_first().len() == 0);
            assert(spec_find(t.drop_first(), k) is None);
            assert(spec_find(s, k) is None);
        }
    } else {
        assert(t[0] == s[0]);
        assert(s[0].key.kind != e.key.kind);
        assert(t.drop_first() =~= s.drop_first().push(e));
        lemma_find_push(s.drop_first(), e);
        assert(spec_find(t, e.key.kind) == spec_find(t.drop_first(), e.key.kind));
        assert forall|k: ResourceKind| k != e.key.kind implies spec_find(t, k) == spec_find(
            s,
            k,
        ) by {
            if s[0].key.kind == k {
                assert(spec_find(t, k) == Some(t[0]@));
                assert(spec_find(s, k) == Some(s[0]@));
            } else {
                assert(spec_find(t, k) == spec_find(t.drop_first(), k));
                assert(spec_find(s, k) == spec_find(s.drop_first(), k));
                assert(spec_find(s.drop_first().push(e), k) == spec_find(s.drop_first(), k));
            }
        }
    }
}

} // verus!
