//! Schema discovery: from `(apiVersion, kind)` to the metadata that
//! addresses a resource, and the cache that keeps what was found.
use crate::registry::{Registry, RegistryKey};
use crate::selector::{find, find_pattern};
use crate::store::{ApiResource, ApiResourceView};
use vstd::prelude::*;

verus! {

/// The coordinate a caller names a resource type by.
#[derive(Debug, Clone, PartialEq, Eq, Hash)]
pub struct ApiVersionKind {
    pub api_version: String,
    pub kind: String,
}

impl View for ApiVersionKind {
    type V = (Seq<char>, Seq<char>);

    open spec fn view(&self) -> (Seq<char>, Seq<char>) {
        (self.api_version@, self.kind@)
    }
}

impl RegistryKey for ApiVersionKind {
    fn same_key(&self, other: &Self) -> (r: bool) {
        self.api_version == other.api_version && self.kind == other.kind
    }
}

/// A resource type and whether its objects live in a namespace.
#[derive(Debug, Clone, PartialEq, Eq)]
pub struct KubeResource {
    pub resource: ApiResource,
    pub namespaced: bool,
}

impl View for KubeResource {
    type V = (ApiResourceView, bool);

    open spec fn view(&self) -> (ApiResourceView, bool) {
        (self.resource@, self.namespaced)
    }
}

impl KubeResource {
    /// A copy equal to `self`.
    pub fn duplicate(&self) -> (r: KubeResource)
        ensures
            r == *self,
    {
        KubeResource { resource: self.resource.duplicate(), namespaced: self.namespaced }
    }
}

/// One entry of an API server's resource listing.
#[derive(Debug, Clone, PartialEq, Eq)]
pub struct DiscoveredResource {
    /// The plural wire name.
    pub name: String,
    pub kind: String,
    pub namespaced: bool,
}

/// Why a resource type could not be resolved.
#[derive(Debug, Clone, Copy, PartialEq, Eq, Structural)]
pub enum SchemaError {
    /// No resource of the listing has the kind asked for.
    UnknownResource,
    /// An apiVersion other than `v1` without a `/`.
    MalformedApiVersion,
    /// The API server could not be asked.
    ApiServerUnreachable,
}

pub open spec fn core_api_version() -> Seq<char> {
    "v1"@
}

/// The first position at or after `i` of a listed resource of kind `kind`,
/// or -1.
pub open spec fn first_of_kind(rs: Seq<DiscoveredResource>, kind: Seq<char>, i: int) -> int
    decreases rs.len() - i,
{
    if i < 0 || i >= rs.len() {
        -1
    } else if rs[i].kind@ == kind {
        i
    } else {
        first_of_kind(rs, kind, i + 1)
    }
}

/// Group and version of an apiVersion: `("", "v1")` for the core API,
/// else the text around its first `/`.
pub open spec fn group_version(av: Seq<char>) -> Option<(Seq<char>, Seq<char>)> {
    if av == core_api_version() {
        Some((Seq::empty(), core_api_version()))
    } else if find(av, seq!['/']) >= 0 {
        let i = find(av, seq!['/']);
        Some((av.subrange(0, i), av.subrange(i + 1, av.len() as int)))
    } else {
        None
    }
}

/// What `(av, kind)` resolves to against the listing `rs`.
pub open spec fn resolution(av: Seq<char>, kind: Seq<char>, rs: Seq<DiscoveredResource>) -> Result<
    (ApiResourceView, bool),
    SchemaError,
> {
    let i = first_of_kind(rs, kind, 0);
    if i < 0 {
        Err(SchemaError::UnknownResource)
    } else {
        match group_version(av) {
            None => Err(SchemaError::MalformedApiVersion),
            Some(gv) => Ok(
                (
                    ApiResourceView {
                        group: gv.0,
                        version: gv.1,
                        api_version: av,
                        kind: kind,
                        plural: rs[i].name@,
                    },
                    rs[i].namespaced,
                ),
            ),
        }
    }
}

/// Splits an apiVersion into group and version.
pub fn split_api_version(api_version: &str) -> (r: Option<(String, String)>)
    ensures
        match r {
            Some((g, v)) => group_version(api_version@) == Some((g@, v@)),
            None => group_version(api_version@) is None,
        },
{
    let av = api_version.to_owned();
    let core = String::from_str("v1");
    if av == core {
        return Some((String::new(), core));
    }
    proof {
        reveal_strlit("/");
        assert("/"@ =~= seq!['/']);
    }
    let n = api_version.unicode_len();
    match find_pattern(api_version, n, "/", 1) {
        Some(i) => {
            let group = api_version.substring_char(0, i).to_owned();
            let version = api_version.substring_char(i + 1, n).to_owned();
            Some((group, version))
        },
        None => None,
    }
}

/// Resolves `(api_version, kind)` against the resources that the API server
/// lists for `api_version`.
pub fn resolve_kube_resource(
    api_version: &str,
    kind: &str,
    discovered: &Vec<DiscoveredResource>,
) -> (r: Result<KubeResource, SchemaError>)
    ensures
        match r {
            Ok(kr) => resolution(api_version@, kind@, discovered@) == Ok::<
                (ApiResourceView, bool),
                SchemaError,
            >(kr@),
            Err(e) => resolution(api_version@, kind@, discovered@) == Err::<
                (ApiResourceView, bool),
                SchemaError,
            >(e),
        },
{
    let wanted = kind.to_owned();
    let mut i: usize = 0;
    while i < discovered.len()
        invariant
            i <= discovered@.len(),
            wanted@ == kind@,
            first_of_kind(discovered@, kind@, 0) == first_of_kind(discovered@, kind@, i as int),
        ensures
            i <= discovered@.len(),
            first_of_kind(discovered@, kind@, 0) == first_of_kind(discovered@, kind@, i as int),
            i < discovered@.len() ==> discovered@[i as int].kind@ == kind@,
        decreases discovered.len() - i,
    {
        if discovered[i].kind == wanted {
            break;
        }
        i = i + 1;
    }
    if i == discovered.len() {
        return Err(SchemaError::UnknownResource);
    }
    let found = &discovered[i];
    match split_api_version(api_version) {
        None => Err(SchemaError::MalformedApiVersion),
        Some((group, version)) => Ok(
            KubeResource {
                resource: ApiResource {
                    group,
                    version,
                    api_version: api_version.to_owned(),
                    kind: wanted,
                    plural: found.name.clone(),
                },
                namespaced: found.namespaced,
            },
        ),
    }
}

/// The schema cache: what each `(apiVersion, kind)` resolved to.
pub type SchemaCache = Registry<ApiVersionKind, KubeResource>;

/// Every entry describes the coordinate it is cached under.
pub open spec fn schema_cache_wf(m: Map<(Seq<char>, Seq<char>), KubeResource>) -> bool {
    forall|k: (Seq<char>, Seq<char>)| #[trigger]
        m.contains_key(k) ==> m[k].resource.api_version@ == k.0 && m[k].resource.kind@ == k.1
}

/// The cache after resolving `(av, kind)` against `rs`: the new entry is
/// added when the resolution succeeds.
pub open spec fn cached_after(
    m: Map<(Seq<char>, Seq<char>), KubeResource>,
    av: Seq<char>,
    kind: Seq<char>,
    rs: Seq<DiscoveredResource>,
    r: KubeResource,
) -> Map<(Seq<char>, Seq<char>), KubeResource> {
    m.insert((av, kind), r)
}

/// Resolves `(api_version, kind)` against the listing and caches what was
/// found; a failed resolution leaves the cache as it was.
pub fn resolve_and_cache(
    cache: &mut SchemaCache,
    api_version: &str,
    kind: &str,
    discovered: &Vec<DiscoveredResource>,
) -> (r: Result<KubeResource, SchemaError>)
    requires
        schema_cache_wf(old(cache)@),
    ensures
        schema_cache_wf(final(cache)@),
        match r {
            Ok(kr) => {
                &&& resolution(api_version@, kind@, discovered@) == Ok::<
                    (ApiResourceView, bool),
                    SchemaError,
                >(kr@)
                &&& final(cache)@ == cached_after(
                    old(cache)@,
                    api_version@,
                    kind@,
                    discovered@,
                    kr,
                )
            },
            Err(e) => {
                &&& resolution(api_version@, kind@, discovered@) == Err::<
                    (ApiResourceView, bool),
                    SchemaError,
                >(e)
                &&& final(cache)@ == old(cache)@
            },
        },
{
    let r = resolve_kube_resource(api_version, kind, discovered);
    match r {
        Ok(kr) => {
            let key = ApiVersionKind { api_version: api_version.to_owned(), kind: kind.to_owned() };
            let entry = kr.duplicate();
            cache.insert(key, entry);
            Ok(kr)
        },
        Err(e) => Err(e),
    }
}

/// A coordinate that resolved is found in the cache afterwards, holding
/// what it resolved to, so a later lookup needs no discovery.
pub proof fn lemma_resolution_is_cached(
    m: Map<(Seq<char>, Seq<char>), KubeResource>,
    av: Seq<char>,
    kind: Seq<char>,
    rs: Seq<DiscoveredResource>,
    r: KubeResource,
)
    requires
        resolution(av, kind, rs) == Ok::<(ApiResourceView, bool), SchemaError>(r@),
    ensures
        cached_after(m, av, kind, rs, r).contains_key((av, kind)),
        cached_after(m, av, kind, rs, r)[(av, kind)]@ == r@,
        schema_cache_wf(m) ==> schema_cache_wf(cached_after(m, av, kind, rs, r)),
{
}

} // verus!
