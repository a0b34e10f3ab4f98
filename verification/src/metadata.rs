//! Read-only deployment facts and the per-deployment secret bundle: the
//! plain values the platform's factory hands a resource builder during
//! provisioning.

use vstd::prelude::*;

verus! {

/// Where a deployment runs.
#[derive(Clone, Copy, Debug, PartialEq, Eq, Structural)]
pub enum Environment {
    Local,
    Production,
}

/// Read-only facts about the current deployment, owned by the platform
/// and exposed to builders through the factory.
pub struct DeploymentMetadata {
    pub env: Environment,
    pub project_name: String,
}

impl DeploymentMetadata {
    /// True when this deployment runs locally rather than on the
    /// platform.
    pub fn is_local(&self) -> (r: bool)
        ensures
            r == (self.env == Environment::Local),
    {
        match self.env {
            Environment::Local => true,
            Environment::Production => false,
        }
    }
}

/// One named secret.
pub struct Secret {
    pub name: String,
    pub value: String,
}

/// No two secrets of `s` share a name.
pub open spec fn distinct_names(s: Seq<Secret>) -> bool {
    forall|i: int, j: int| 0 <= i < j < s.len() ==> s[i].name@ != s[j].name@
}

/// Value of the first secret of `s` named `name`, if any.
pub open spec fn spec_lookup(s: Seq<Secret>, name: Seq<char>) -> Option<Seq<char>>
    decreases s.len(),
{
    if s.len() == 0 {
        None
    } else if s[0].name@ == name {
        Some(s[0].value@)
    } else {
        spec_lookup(s.drop_first(), name)
    }
}

/// The secrets visible to a service, fetched as a whole per deployment;
/// names are unique, and no partial fetch or refresh exists in this
/// contract.
pub struct SecretBundle {
    secrets: Vec<Secret>,
}

impl SecretBundle {
    /// The value stored under `name`, if any.
    pub closed spec fn spec_get(&self, name: Seq<char>) -> Option<Seq<char>> {
        spec_lookup(self.secrets@, name)
    }

    /// Internal invariant: names are unique.
    pub closed spec fn wf(&self) -> bool {
        distinct_names(self.secrets@)
    }

    /// An empty bundle.
    pub fn new() -> (b: SecretBundle)
        ensures
            b.wf(),
            forall|n: Seq<char>| b.spec_get(n) is None,
    {
        SecretBundle { secrets: Vec::new() }
    }

    /// Adds a secret under a name the bundle does not hold yet.
    pub fn insert(&mut self, name: String, value: String)
        requires
            old(self).wf(),
            old(self).spec_get(name@) is None,
        ensures
            final(self).wf(),
            final(self).spec_get(name@) == Some(value@),
            forall|n: Seq<char>| n != name@ ==> final(self).spec_get(n) == old(self).spec_get(n),
    {
        let entry = Secret { name, value };
        proof {
            lemma_lookup_push(self.secrets@, entry);
        }
        self.secrets.push(entry);
    }

    /// Looks a secret up by name: exactly the stored value, or nothing
    /// when the name is absent.
    pub fn get(&self, name: &String) -> (r: Option<String>)
        ensures
            r matches Some(v) ==> self.spec_get(name@) == Some(v@),
            r is None ==> self.spec_get(name@) is None,
    {
        let n = self.secrets.len();
        let mut i: usize = 0;
        while i < n
            invariant
                n == self.secrets@.len(),
                0 <= i <= n,
                forall|j: int| 0 <= j < i ==> self.secrets@[j].name@ != name@,
            decreases n - i,
        {
            if self.secrets[i].name == *name {
                proof {
                    lemma_lookup_skip(self.secrets@, name@, i as int);
                }
                return Some(self.secrets[i].value.clone());
            }
            i += 1;
        }
        proof {
            lemma_lookup_skip(self.secrets@, name@, n as int);
        }
        None
    }
}

/// Scanning past a name-free prefix does not change what is found.
proof fn lemma_lookup_skip(s: Seq<Secret>, name: Seq<char>, i: int)
    requires
        0 <= i <= s.len(),
        forall|j: int| 0 <= j < i ==> s[j].name@ != name,
    ensures
        spec_lookup(s, name) == spec_lookup(s.skip(i), name),
    decreases i,
{
    if i > 0 {
        assert(s[0].name@ != name);
        assert(s.drop_first().skip(i - 1) =~= s.skip(i));
        lemma_lookup_skip(s.drop_first(), name, i - 1);
    } else {
        assert(s.skip(0) =~= s);
    }
}

/// Appending a secret under an absent name stores it and leaves every
/// other name as it was.
proof fn lemma_lookup_push(s: Seq<Secret>, e: Secret)
    requires
        spec_lookup(s, e.name@) is None,
    ensures
        spec_lookup(s.push(e), e.name@) == Some(e.value@),
        forall|n: Seq<char>| n != e.name@ ==> spec_lookup(s.push(e), n) == spec_lookup(s, n),
        distinct_names(s) ==> distinct_names(s.push(e)),
    decreases s.len(),
{
    lemma_lookup_none_no_name(s, e.name@);
    let t = s.push(e);
    if s.len() == 0 {
        assert(t[0] == e);
        assert forall|n: Seq<char>| n != e.name@ implies spec_lookup(t, n) == spec_lookup(s, n) by {
            assert(spec_lookup(t, n) == spec_lookup(t.drop_first(), n));
            assert(t.drop_first().len() == 0);
            assert(spec_lookup(t.drop_first(), n) is None);
        }
    } else {
        assert(t[0] == s[0]);
        assert(s[0].name@ != e.name@);
        assert(t.drop_first() =~= s.drop_first().push(e));
        lemma_lookup_push(s.drop_first(), e);
        assert(spec_lookup(t, e.name@) == spec_lookup(t.drop_first(), e.name@));
        assert forall|n: Seq<char>| n != e.name@ implies spec_lookup(t, n) == spec_lookup(s, n) by {
            if s[0].name@ == n {
                assert(spec_lookup(t, n) == Some(t[0].value@));
                assert(spec_lookup(s, n) == Some(s[0].value@));
            } else {
                assert(spec_lookup(t, n) == spec_lookup(t.drop_first(), n));
                assert(spec_lookup(s, n) == spec_lookup(s.drop_first(), n));
                assert(spec_lookup(s.drop_first().push(e), n) == spec_lookup(s.drop_first(), n));
            }
        }
    }
    assert forall|a: int, b: int|
        distinct_names(s) && 0 <= a < b < t.len() implies t[a].name@ != t[b].name@ by {
        if b < s.len() {
            assert(t[a] == s[a] && t[b] == s[b]);
        } else {
            assert(t[b] == e);
            assert(t[a] == s[a]);
        }
    }
}

/// An absent name means no secret of the sequence has it.
proof fn lemma_lookup_none_no_name(s: Seq<Secret>, name: Seq<char>)
    requires
        spec_lookup(s, name) is None,
    ensures
        forall|j: int| 0 <= j < s.len() ==> s[j].name@ != name,
    decreases s.len(),
{
    if s.len() > 0 {
        lemma_lookup_none_no_name(s.drop_first(), name);
        assert forall|j: int| 0 <= j < s.len() implies s[j].name@ != name by {
            if j > 0 {
                assert(s.drop_first()[j - 1] == s[j]);
            }
        }
    }
}

} // verus!
