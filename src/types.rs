//! The configuration records: projects, environments, integrations, mappings
//! and the credentials of an integration.
use vstd::prelude::*;

verus! {

/// A software project, with the environments it is deployed to.
#[derive(Debug, Clone, PartialEq, Eq)]
pub struct Project {
    pub id: String,
    pub name: String,
    pub description: Option<String>,
    /// The identifiers of the project's environments.
    pub environments: Vec<String>,
}

/// A deployment target (dev, staging, prod, ...).
#[derive(Debug, Clone, PartialEq, Eq)]
pub struct Environment {
    pub id: String,
    pub name: String,
    /// The cluster namespace, where there is one.
    pub namespace: Option<String>,
    pub project_id: String,
}

/// The kind of service that an integration connects to.
#[derive(Debug, Clone, Copy, PartialEq, Eq, Structural)]
pub enum IntegrationType {
    GitLab,
    Jenkins,
    Kubernetes,
    SonarQube,
    Keycloak,
}

/// A configured connection to one outside service (without its secrets).
#[derive(Debug, Clone, PartialEq, Eq)]
pub struct Integration {
    pub id: String,
    pub integration_type: IntegrationType,
    pub name: String,
    pub base_url: String,
    /// The key of the integration's entry in the secret store, where it is
    /// not the integration's own identifier.
    pub credentials_ref: Option<String>,
}

/// How identifiers of the different systems relate to each other.
#[derive(Debug, Clone, PartialEq, Eq)]
pub struct Mapping {
    pub id: String,
    pub repo_id: Option<String>,
    pub job_id: Option<String>,
    pub namespace: Option<String>,
    pub service_name: Option<String>,
    pub project_id: Option<String>,
    pub environment_id: Option<String>,
}

/// The secrets of an integration.
#[derive(Debug, Clone, PartialEq, Eq)]
pub struct IntegrationCredentials {
    pub token: Option<String>,
    pub username: Option<String>,
    pub password: Option<String>,
    /// Further named values (a cluster-config path, ...), each name once.
    pub custom: Vec<(String, String)>,
}

/// The listing entry of a saved flow.
#[derive(Debug, Clone, PartialEq, Eq)]
pub struct FlowMetadata {
    pub id: String,
    pub name: String,
    pub created_at: String,
    pub updated_at: String,
}

/// The value of the first entry named `key`.
pub open spec fn lookup(entries: Seq<(String, String)>, key: Seq<char>) -> Option<String>
    decreases entries.len(),
{
    if entries.len() == 0 {
        None
    } else if entries[0].0@ == key {
        Some(entries[0].1)
    } else {
        lookup(entries.drop_first(), key)
    }
}

proof fn lemma_lookup_skip(entries: Seq<(String, String)>, key: Seq<char>, i: int)
    requires
        0 <= i <= entries.len(),
        forall|k: int| 0 <= k < i ==> (#[trigger] entries[k]).0@ != key,
    ensures
        lookup(entries, key) == lookup(entries.subrange(i, entries.len() as int), key),
    decreases i,
{
    if i > 0 {
        lemma_lookup_skip(entries, key, i - 1);
        let t = entries.subrange(i - 1, entries.len() as int);
        assert(t.drop_first() =~= entries.subrange(i, entries.len() as int));
        assert(t[0] == entries[i - 1]);
    } else {
        assert(entries.subrange(0, entries.len() as int) =~= entries);
    }
}

impl IntegrationCredentials {
    /// The custom value named `key`.
    pub fn custom_value(&self, key: &str) -> (r: Option<String>)
        ensures
            r == lookup(self.custom@, key@),
    {
        let wanted = String::from_str(key);
        let mut i: usize = 0;
        while i < self.custom.len()
            invariant
                wanted@ == key@,
                i <= self.custom@.len(),
                forall|k: int| 0 <= k < i ==> (#[trigger] self.custom@[k]).0@ != key@,
            decreases self.custom@.len() - i,
        {
            if self.custom[i].0 == wanted {
                proof {
                    lemma_lookup_skip(self.custom@, key@, i as int);
                    let rest = self.custom@.subrange(i as int, self.custom@.len() as int);
                    assert(rest[0] == self.custom@[i as int]);
                }
                return Some(self.custom[i].1.clone());
            }
            i = i + 1;
        }
        proof {
            lemma_lookup_skip(self.custom@, key@, i as int);
        }
        None
    }
}

} // verus!
