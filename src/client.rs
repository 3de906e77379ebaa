//! The decisions a client makes around each operation: which requests a
//! resource's scope admits, how selector strings are read, and whether a
//! reflector has seen a change.
use crate::schema::KubeResource;
use crate::selector::{ParseError, RequirementModel, Selector, parse_selector};
use vstd::prelude::*;

verus! {

/// A request that does not fit the scope of the resource type.
#[derive(Debug, Clone, Copy, PartialEq, Eq, Structural)]
pub enum UsageError {
    /// A namespace was given for a cluster-scoped type.
    NotNamespaced,
    /// No namespace was given for a namespaced type.
    NamespaceRequired,
}

/// A listing inside a namespace is only for namespaced types.
pub fn check_list_by_namespace(resource: &KubeResource) -> (r: Result<(), UsageError>)
    ensures
        r == (if resource.namespaced {
            Ok::<(), UsageError>(())
        } else {
            Err(UsageError::NotNamespaced)
        }),
{
    if resource.namespaced {
        Ok(())
    } else {
        Err(UsageError::NotNamespaced)
    }
}

/// Fetching an object of a namespaced type needs its namespace.
pub fn check_get(resource: &KubeResource, namespace: Option<&str>) -> (r: Result<(), UsageError>)
    ensures
        r == (if resource.namespaced && namespace is None {
            Err(UsageError::NamespaceRequired)
        } else {
            Ok::<(), UsageError>(())
        }),
{
    if resource.namespaced && namespace.is_none() {
        Err(UsageError::NamespaceRequired)
    } else {
        Ok(())
    }
}

/// What an optional selector string reads as.
pub open spec fn optional_selector(s: Option<Seq<char>>) -> Result<
    Option<Seq<RequirementModel>>,
    ParseError,
> {
    match s {
        None => Ok(None),
        Some(t) => match parse_selector(t) {
            Ok(rs) => Ok(Some(rs)),
            Err(e) => Err(e),
        },
    }
}

pub open spec fn selector_view(s: Option<Selector>) -> Option<Seq<RequirementModel>> {
    match s {
        Some(sel) => Some(sel@),
        None => None,
    }
}

pub open spec fn str_view(s: Option<&str>) -> Option<Seq<char>> {
    match s {
        Some(t) => Some(t@),
        None => None,
    }
}

/// Parses an optional selector string.
pub fn parse_optional_selector(s: Option<&str>) -> (r: Result<Option<Selector>, ParseError>)
    ensures
        match r {
            Ok(sel) => optional_selector(str_view(s)) == Ok::<
                Option<Seq<RequirementModel>>,
                ParseError,
            >(selector_view(sel)),
            Err(e) => optional_selector(str_view(s)) == Err::<
                Option<Seq<RequirementModel>>,
                ParseError,
            >(e),
        },
{
    match s {
        None => Ok(None),
        Some(t) => match Selector::from_string(t) {
            Ok(sel) => Ok(Some(sel)),
            Err(e) => Err(e),
        },
    }
}

/// Parses the label selector, then the field selector; the first error
/// is returned.
pub fn parse_selectors(label_selector: Option<&str>, field_selector: Option<&str>) -> (r: Result<
    (Option<Selector>, Option<Selector>),
    ParseError,
>)
    ensures
        match r {
            Ok((l, f)) => {
                &&& optional_selector(str_view(label_selector)) == Ok::<
                    Option<Seq<RequirementModel>>,
                    ParseError,
                >(selector_view(l))
                &&& optional_selector(str_view(field_selector)) == Ok::<
                    Option<Seq<RequirementModel>>,
                    ParseError,
                >(selector_view(f))
            },
            Err(e) => match optional_selector(str_view(label_selector)) {
                Err(le) => e == le,
                Ok(_) => optional_selector(str_view(field_selector)) == Err::<
                    Option<Seq<RequirementModel>>,
                    ParseError,
                >(e),
            },
        },
{
    let l = match parse_optional_selector(label_selector) {
        Ok(l) => l,
        Err(e) => {
            return Err(e);
        },
    };
    let f = match parse_optional_selector(field_selector) {
        Ok(f) => f,
        Err(e) => {
            return Err(e);
        },
    };
    Ok((l, f))
}

/// Whether a listing may have changed since `since`: always when no
/// reflector exists yet, else when the last change came after `since`.
pub open spec fn changed_since(last_change_seen_at: Option<u64>, since: u64) -> bool {
    match last_change_seen_at {
        None => true,
        Some(last) => since < last,
    }
}

/// `last_change_seen_at` is `None` when no reflector exists yet.
pub fn has_changed_since(last_change_seen_at: Option<u64>, since: u64) -> (r: bool)
    ensures
        r == changed_since(last_change_seen_at, since),
{
    match last_change_seen_at {
        None => true,
        Some(last) => since < last,
    }
}

/// Two instants that both come before the last change seen both report a
/// change, and a report of a change stays true as the last change seen
/// moves forward.
pub proof fn lemma_changed_since_monotonic(last: u64, later: u64, t0: u64, t1: u64)
    requires
        t0 < t1,
        t1 < last,
        last <= later,
    ensures
        changed_since(Some(last), t0),
        changed_since(Some(last), t1),
        changed_since(Some(last), t0) ==> changed_since(Some(later), t0),
        changed_since(Some(last), t1) ==> changed_since(Some(later), t1),
        changed_since(None, t0),
{
}

} // verus!
