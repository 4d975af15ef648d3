use vstd::prelude::*;

use crate::library::{self, Library, INTERNAL_NAMESPACE, MAIN_NAMESPACE};
use crate::nameutil::{higher_crate_name, spec_higher_crate_name};
use crate::text::str_eq;
use crate::version::Version;

verus! {

pub type NsId = u16;

pub const MAIN: NsId = MAIN_NAMESPACE;

pub const INTERNAL: NsId = INTERNAL_NAMESPACE;

/// What the code generator needs to know of a namespace.
#[derive(Debug)]
pub struct Namespace {
    pub name: String,
    pub crate_name: String,
    pub sys_crate_name: String,
    pub higher_crate_name: String,
    pub package_name: Option<String>,
    pub shared_libs: Vec<String>,
    pub versions: Vec<Version>,
}

/// The namespaces of a library, numbered as the library numbers them.
#[derive(Debug)]
pub struct Info {
    namespaces: Vec<Namespace>,
    pub is_glib_crate: bool,
    pub glib_ns_id: NsId,
}

/// The analysed namespace `a` describes the library namespace `ns`.
pub open spec fn describes(a: Namespace, ns: library::Namespace) -> bool {
    &&& a.name@ == ns.name@
    &&& a.crate_name@ == ns.crate_name@
    &&& a.sys_crate_name@ == ns.crate_name@ + "_sys"@
    &&& a.higher_crate_name@ == spec_higher_crate_name(ns.crate_name@)
    &&& a.package_name == ns.package_name
    &&& a.shared_libs@ == ns.shared_library@
    &&& a.versions@ == ns.versions@
}

impl Info {
    /// The namespaces, by id.
    pub closed spec fn namespaces_spec(&self) -> Seq<Namespace> {
        self.namespaces@
    }

    /// Whether the crate being generated is GLib's own.
    pub closed spec fn is_glib_crate_spec(&self) -> bool {
        self.is_glib_crate
    }

    /// The id of the `GLib` namespace.
    pub closed spec fn glib_ns_id_spec(&self) -> NsId {
        self.glib_ns_id
    }

    /// Whether the crate being generated is GLib's own.
    pub fn is_glib_crate(&self) -> (r: bool)
        ensures
            r == self.is_glib_crate_spec(),
    {
        self.is_glib_crate
    }

    /// The id of the `GLib` namespace.
    pub fn glib_ns_id(&self) -> (r: NsId)
        ensures
            r == self.glib_ns_id_spec(),
    {
        self.glib_ns_id
    }

    /// The namespace of the library being generated.
    pub fn main(&self) -> (r: &Namespace)
        requires
            MAIN < self.namespaces_spec().len(),
        ensures
            *r == self.namespaces_spec()[MAIN as int],
    {
        self.index(MAIN)
    }

    /// The namespace with id `index`.
    pub fn index(&self, index: NsId) -> (r: &Namespace)
        requires
            index < self.namespaces_spec().len(),
        ensures
            *r == self.namespaces_spec()[index as int],
    {
        &self.namespaces[index as usize]
    }
}

/// A copy of a list of strings.
fn copy_strings(v: &Vec<String>) -> (r: Vec<String>)
    ensures
        r@ == v@,
{
    let mut r: Vec<String> = Vec::new();
    let n = v.len();
    let mut i: usize = 0;
    while i < n
        invariant
            n == v@.len(),
            i <= n,
            r@ == v@.take(i as int),
        decreases n - i,
    {
        r.push(v[i].clone());
        assert(r@ =~= v@.take(i + 1));
        i += 1;
    }
    assert(v@.take(n as int) =~= v@);
    r
}

/// A copy of a list of versions.
fn copy_versions(v: &Vec<Version>) -> (r: Vec<Version>)
    ensures
        r@ == v@,
{
    let mut r: Vec<Version> = Vec::new();
    let n = v.len();
    let mut i: usize = 0;
    while i < n
        invariant
            n == v@.len(),
            i <= n,
            r@ == v@.take(i as int),
        decreases n - i,
    {
        r.push(v[i]);
        assert(r@ =~= v@.take(i + 1));
        i += 1;
    }
    assert(v@.take(n as int) =~= v@);
    r
}

/// Describes the namespace `ns` for the code generator.
fn analyse_namespace(ns: &library::Namespace) -> (r: Namespace)
    ensures
        describes(r, *ns),
{
    let crate_name = ns.crate_name.clone();
    let mut sys_crate_name = ns.crate_name.clone();
    sys_crate_name.append("_sys");
    let higher = higher_crate_name(ns.crate_name.as_str());
    let package_name = match &ns.package_name {
        Some(p) => Some(p.clone()),
        None => None,
    };
    Namespace {
        name: ns.name.clone(),
        crate_name,
        sys_crate_name,
        higher_crate_name: higher,
        package_name,
        shared_libs: copy_strings(&ns.shared_library),
        versions: copy_versions(&ns.versions),
    }
}

/// Describes every namespace of `gir`, finds the `GLib` namespace and tells
/// whether the main namespace is GLib's own (`GLib` or `GObject`).
pub fn run(gir: &Library) -> (r: Info)
    requires
        gir.namespaces@.len() <= 0x1_0000,
        exists|i: int| 0 <= i < gir.namespaces@.len() && #[trigger] gir.namespaces@[i].name@ == "GLib"@,
    ensures
        r.namespaces_spec().len() == gir.namespaces@.len(),
        forall|i: int| 0 <= i < gir.namespaces@.len() ==> describes(
            #[trigger] r.namespaces_spec()[i],
            gir.namespaces@[i],
        ),
        r.glib_ns_id_spec() < gir.namespaces@.len(),
        gir.namespaces@[r.glib_ns_id_spec() as int].name@ == "GLib"@,
        forall|j: int| r.glib_ns_id_spec() < j < gir.namespaces@.len() ==> #[trigger] gir.namespaces@[j].name@ != "GLib"@,
        r.is_glib_crate_spec() == (MAIN < gir.namespaces@.len() && (gir.namespaces@[MAIN as int].name@
            == "GLib"@ || gir.namespaces@[MAIN as int].name@ == "GObject"@)),
{
    let n = gir.namespaces.len();
    let mut namespaces: Vec<Namespace> = Vec::new();
    let mut is_glib_crate = false;
    let mut glib_ns_id: Option<NsId> = None;
    let mut i: usize = 0;
    while i < n
        invariant
            n == gir.namespaces@.len(),
            n <= 0x1_0000,
            i <= n,
            namespaces@.len() == i,
            forall|j: int| 0 <= j < i ==> describes(#[trigger] namespaces@[j], gir.namespaces@[j]),
            match glib_ns_id {
                Some(g) => g < i && gir.namespaces@[g as int].name@ == "GLib"@ && forall|j: int|
                    g < j < i ==> #[trigger] gir.namespaces@[j].name@ != "GLib"@,
                None => forall|j: int| 0 <= j < i ==> #[trigger] gir.namespaces@[j].name@ != "GLib"@,
            },
            is_glib_crate == (MAIN < i && (gir.namespaces@[MAIN as int].name@ == "GLib"@
                || gir.namespaces@[MAIN as int].name@ == "GObject"@)),
        decreases n - i,
    {
        let ns = &gir.namespaces[i];
        let ns_id = i as NsId;
        namespaces.push(analyse_namespace(ns));
        if str_eq(ns.name.as_str(), "GLib") {
            glib_ns_id = Some(ns_id);
            if ns_id == MAIN {
                is_glib_crate = true;
            }
        } else if str_eq(ns.name.as_str(), "GObject") && ns_id == MAIN {
            is_glib_crate = true;
        }
        i += 1;
    }
    let glib_ns_id = match glib_ns_id {
        Some(g) => g,
        None => {
            proof {
                let k = choose|k: int| 0 <= k < gir.namespaces@.len() && #[trigger] gir.namespaces@[k].name@ == "GLib"@;
                assert(gir.namespaces@[k].name@ != "GLib"@);
            }
            0
        },
    };
    Info { namespaces, is_glib_crate, glib_ns_id }
}

} // verus!
