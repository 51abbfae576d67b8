//! Release bookkeeping: comparing the package version with the version
//! shown in the project's README badge.
use vstd::prelude::*;
use crate::indexer::{starts_with, str_starts_with};

verus! {

/// The badge shows the version itself, or its `major.minor` prefix.
pub open spec fn versions_agree(cargo: Seq<char>, badge: Seq<char>) -> bool {
    cargo == badge || starts_with(cargo, badge + seq!['.'])
}

/// Returns true if the badge version is the package version or a
/// dot-terminated prefix of it (`0.10` for `0.10.0`).
pub fn versions_match(cargo_version: &str, badge_version: &str) -> (r: bool)
    ensures
        r == versions_agree(cargo_version@, badge_version@),
{
    if crate::db::str_eq(cargo_version, badge_version) {
        return true;
    }
    let prefix = crate::text::string_from_str(badge_version).concat(".");
    let r = str_starts_with(cargo_version, prefix.as_str());
    assert(prefix@ =~= badge_version@ + seq!['.']) by {
        reveal_strlit(".");
    }
    r
}

} // verus!
