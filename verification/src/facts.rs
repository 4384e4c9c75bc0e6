//! The fact map that a rule tree is evaluated against.
use vstd::prelude::*;
use std::collections::BTreeMap;

verus! {

/// The facts as a mathematical map from field name to observed value.
pub open spec fn facts_of(info: &BTreeMap<String, String>) -> Map<Seq<char>, Seq<char>> {
    info.deep_view()
}

/// Trusted: `BTreeMap::get` with a `str` key. A map keyed by strings finds
/// the entry whose key holds the same characters as `field`, and finds none
/// exactly when no key does. The verifier's own account of `get` covers only
/// key types whose ordering it models, and `String` is not among them.
#[verifier::external_body]
pub(crate) fn lookup<'a>(info: &'a BTreeMap<String, String>, field: &str) -> (found: Option<
    &'a String,
>)
    ensures
        match found {
            Some(value) => facts_of(info).contains_key(field@) && facts_of(info)[field@]
                == value@,
            None => !facts_of(info).contains_key(field@),
        },
{
    info.get(field)
}

} // verus!
