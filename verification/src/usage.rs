//! The two usages a configuration stash can serve, and the collection
//! names each owns. A stash is recognised by the collection names found
//! in it, which is only safe when no usage's names are contained in the
//! others'.

use vstd::prelude::*;

verus! {

/// Which system a stash stores configuration for.
#[derive(Clone, Copy, Debug, PartialEq, Eq, Structural)]
pub enum Usage {
    Catalog,
    Storage,
}

/// Why a stash could not be attributed to one usage.
#[derive(Clone, Copy, Debug, PartialEq, Eq, Structural)]
pub enum UsageError {
    /// Collection names overlap across usages.
    DuplicateNames,
    /// No usage owns any of the collection names that were found.
    UnknownNames,
}

/// The collection names of the catalog usage.
pub open spec fn catalog_names() -> Seq<Seq<char>> {
    seq![
        "config"@,
        "id_alloc"@,
        "system_gid_mapping"@,
        "compute_instance"@,
        "compute_introspection_source_index"@,
        "compute_replicas"@,
        "database"@,
        "schema"@,
        "item"@,
        "role"@,
        "timestamp"@,
        "system_configuration"@,
        "audit_log"@,
        "storage_usage"@,
    ]
}

/// The collection names of the storage usage.
pub open spec fn storage_names() -> Seq<Seq<char>> {
    seq!["storage-collection-metadata"@, "storage-export-metadata"@]
}

pub open spec fn usage_names(u: Usage) -> Seq<Seq<char>> {
    match u {
        Usage::Catalog => catalog_names(),
        Usage::Storage => storage_names(),
    }
}

pub open spec fn contains_name(names: Seq<Seq<char>>, x: Seq<char>) -> bool {
    exists|i: int| 0 <= i < names.len() && names[i] == x
}

/// Every name of `a` also occurs in `b`.
pub open spec fn names_subset(a: Seq<Seq<char>>, b: Seq<Seq<char>>) -> bool {
    forall|i: int| 0 <= i < a.len() ==> contains_name(b, #[trigger] a[i])
}

fn push_owned(v: &mut Vec<String>, s: &str)
    ensures
        final(v).deep_view() == old(v).deep_view().push(s@),
{
    v.push(s.to_owned());
    proof {
        assert(v.deep_view() =~= old(v).deep_view().push(s@));
    }
}

impl Usage {
    /// Every usage a stash can serve.
    pub fn all_usages() -> (r: Vec<Usage>)
        ensures
            r@ == seq![Usage::Catalog, Usage::Storage],
    {
        let mut r: Vec<Usage> = Vec::new();
        r.push(Usage::Catalog);
        r.push(Usage::Storage);
        proof {
            assert(r@ =~= seq![Usage::Catalog, Usage::Storage]);
        }
        r
    }

    /// The collection names this usage owns.
    pub fn names(&self) -> (r: Vec<String>)
        ensures
            r.deep_view() == usage_names(*self),
    {
        let mut r: Vec<String> = Vec::new();
        match self {
            Usage::Catalog => {
                push_owned(&mut r, "config");
                push_owned(&mut r, "id_alloc");
                push_owned(&mut r, "system_gid_mapping");
                push_owned(&mut r, "compute_instance");
                push_owned(&mut r, "compute_introspection_source_index");
                push_owned(&mut r, "compute_replicas");
                push_owned(&mut r, "database");
                push_owned(&mut r, "schema");
                push_owned(&mut r, "item");
                push_owned(&mut r, "role");
                push_owned(&mut r, "timestamp");
                push_owned(&mut r, "system_configuration");
                push_owned(&mut r, "audit_log");
                push_owned(&mut r, "storage_usage");
                proof {
                    assert(r.deep_view() =~= catalog_names());
                }
            },
            Usage::Storage => {
                push_owned(&mut r, "storage-collection-metadata");
                push_owned(&mut r, "storage-export-metadata");
                proof {
                    assert(r.deep_view() =~= storage_names());
                }
            },
        }
        r
    }

    /// Returns an error if some usage's collection names are wholly
    /// contained in the names of the usages before it, in which case a
    /// stash could not be attributed to one usage.
    pub fn verify_all_usages() -> (r: Result<(), UsageError>)
        ensures
            r is Ok <==> catalog_names().len() > 0 && !names_subset(
                storage_names(),
                catalog_names(),
            ),
            r is Err ==> r->Err_0 is DuplicateNames,
    {
        let catalog = Usage::Catalog.names();
        if catalog.len() == 0 {
            return Err(UsageError::DuplicateNames);
        }
        let storage = Usage::Storage.names();
        if is_name_subset(&storage, &catalog) {
            Err(UsageError::DuplicateNames)
        } else {
            Ok(())
        }
    }

    /// Attributes a stash to a usage by the collection names found in it:
    /// the first usage that owns any of them, provided the usages' own
    /// names do not overlap. Some collections exist before any entry has
    /// been written, so any overlap with a usage's names identifies it.
    pub fn from_collection_names(found: &Vec<String>) -> (r: Result<Usage, UsageError>)
        ensures
            ({
                let verified = catalog_names().len() > 0 && !names_subset(
                    storage_names(),
                    catalog_names(),
                );
                match r {
                    Ok(u) => verified && names_intersect(usage_names(u), found.deep_view()) && (u
                        is Storage ==> !names_intersect(catalog_names(), found.deep_view())),
                    Err(e) => (e is DuplicateNames <==> !verified) && (e is UnknownNames
                        ==> !names_intersect(catalog_names(), found.deep_view())
                        && !names_intersect(storage_names(), found.deep_view())),
                }
            }),
    {
        if let Err(e) = Usage::verify_all_usages() {
            return Err(e);
        }
        let catalog = Usage::Catalog.names();
        if names_intersect_exec(&catalog, found) {
            return Ok(Usage::Catalog);
        }
        let storage = Usage::Storage.names();
        if names_intersect_exec(&storage, found) {
            return Ok(Usage::Storage);
        }
        Err(UsageError::UnknownNames)
    }
}

/// Some name of `a` also occurs in `b`.
pub open spec fn names_intersect(a: Seq<Seq<char>>, b: Seq<Seq<char>>) -> bool {
    exists|i: int| 0 <= i < a.len() && contains_name(b, #[trigger] a[i])
}

fn names_intersect_exec(a: &Vec<String>, b: &Vec<String>) -> (r: bool)
    ensures
        r == names_intersect(a.deep_view(), b.deep_view()),
{
    let n = a.len();
    let mut i: usize = 0;
    while i < n
        invariant
            n == a@.len(),
            i <= n,
            forall|j: int|
                0 <= j < i ==> !contains_name(b.deep_view(), #[trigger] a.deep_view()[j]),
        decreases n - i,
    {
        if contains_string(b, &a[i]) {
            proof {
                assert(a.deep_view()[i as int] == a@[i as int]@);
            }
            return true;
        }
        proof {
            assert(a.deep_view()[i as int] == a@[i as int]@);
        }
        i = i + 1;
    }
    false
}

fn contains_string(names: &Vec<String>, x: &String) -> (r: bool)
    ensures
        r == contains_name(names.deep_view(), x@),
{
    let n = names.len();
    let mut i: usize = 0;
    while i < n
        invariant
            n == names@.len(),
            i <= n,
            forall|j: int| 0 <= j < i ==> names.deep_view()[j] != x@,
        decreases n - i,
    {
        if names[i] == *x {
            proof {
                assert(names.deep_view()[i as int] == x@);
            }
            return true;
        }
        proof {
            assert(names.deep_view()[i as int] == names@[i as int]@);
        }
        i = i + 1;
    }
    false
}

fn is_name_subset(a: &Vec<String>, b: &Vec<String>) -> (r: bool)
    ensures
        r == names_subset(a.deep_view(), b.deep_view()),
{
    let n = a.len();
    let mut i: usize = 0;
    while i < n
        invariant
            n == a@.len(),
            i <= n,
            forall|j: int| 0 <= j < i ==> contains_name(b.deep_view(), #[trigger] a.deep_view()[j]),
        decreases n - i,
    {
        if !contains_string(b, &a[i]) {
            proof {
                assert(a.deep_view()[i as int] == a@[i as int]@);
            }
            return false;
        }
        proof {
            assert(a.deep_view()[i as int] == a@[i as int]@);
        }
        i = i + 1;
    }
    true
}

} // verus!
