use vstd::prelude::*;

use crate::text::str_eq;

verus! {

/// The crate that re-exports the crate `name`: `gobject` is published as `glib`.
pub open spec fn spec_higher_crate_name(name: Seq<char>) -> Seq<char> {
    if name == "gobject"@ {
        "glib"@
    } else {
        name
    }
}

/// `gobject` is published as `glib`; every other crate, `glib` among them,
/// is published under its own name.
pub proof fn law_higher_crate_name(name: Seq<char>)
    ensures
        spec_higher_crate_name("gobject"@) == "glib"@,
        name != "gobject"@ ==> spec_higher_crate_name(name) == name,
{
}

/// The crate that re-exports the crate `name`: `gobject` is published as `glib`.
pub fn higher_crate_name(name: &str) -> (r: String)
    ensures
        r@ == spec_higher_crate_name(name@),
{
    if str_eq(name, "gobject") {
        "glib".to_owned()
    } else {
        name.to_owned()
    }
}

} // verus!
