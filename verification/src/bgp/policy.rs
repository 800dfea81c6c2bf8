//! Named sets of prefixes that import and export policies refer to.

use vstd::prelude::*;

use crate::net::IpNet;
use crate::text::cat2;

verus! {

/// What a set of prefixes holds.
#[derive(Debug, Clone, Copy, PartialEq, Eq, Structural)]
pub enum DefinedSetKind {
    /// Pod networks of the nodes.
    PodCidr,
    /// Addresses of services.
    ServiceVip,
    /// Prefixes that are not to be learned.
    CustomImportReject,
    /// The default route.
    DefaultRoute,
}

/// A named set of prefixes.
#[derive(Debug, Clone)]
pub struct DefinedSet {
    /// Name.
    pub name: String,
    /// What it holds.
    pub kind: DefinedSetKind,
    /// The prefixes.
    pub prefixes: Vec<IpNet>,
}

/// The name of a set of IPv4 prefixes.
pub open spec fn base_name(kind: DefinedSetKind) -> Seq<char> {
    match kind {
        DefinedSetKind::PodCidr => "podcidrdefinedset"@,
        DefinedSetKind::ServiceVip => "servicevipsdefinedset"@,
        DefinedSetKind::CustomImportReject => "customimportrejectdefinedset"@,
        DefinedSetKind::DefaultRoute => "defaultroutedefinedset"@,
    }
}

impl DefinedSet {
    /// A set with the name of its kind and family.
    pub fn new(kind: DefinedSetKind, v6: bool, prefixes: Vec<IpNet>) -> (r: DefinedSet)
        ensures
            r.name@ == if v6 {
                base_name(kind) + "v6"@
            } else {
                base_name(kind)
            },
            r.kind == kind,
            r.prefixes@ == prefixes@,
    {
        let base = match kind {
            DefinedSetKind::PodCidr => "podcidrdefinedset",
            DefinedSetKind::ServiceVip => "servicevipsdefinedset",
            DefinedSetKind::CustomImportReject => "customimportrejectdefinedset",
            DefinedSetKind::DefaultRoute => "defaultroutedefinedset",
        };
        let name = if v6 {
            cat2(base, "v6")
        } else {
            base.to_owned()
        };
        DefinedSet { name, kind, prefixes }
    }
}

} // verus!
