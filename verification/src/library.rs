use vstd::prelude::*;

use crate::text::{dot_pos, find_dot, str_eq};
use crate::version::Version;

verus! {

/// The namespace of the types that every GIR file may use.
pub const INTERNAL_NAMESPACE: u16 = 0;

/// The namespace of the library being generated.
pub const MAIN_NAMESPACE: u16 = 1;

/// A type of the library: its namespace and its position there.
#[derive(Clone, Copy, Debug, PartialEq, Eq, Structural)]
pub struct TypeId {
    pub ns_id: u16,
    pub id: u32,
}

/// How the objects of a type may be shared between threads.
#[derive(Clone, Copy, Debug, PartialEq, Eq, Structural)]
pub enum Concurrency {
    /// Neither `Send` nor `Sync` (the setting `none`).
    Local,
    Send,
    SendSync,
}

impl Default for Concurrency {
    fn default() -> (r: Concurrency)
        ensures
            r == Concurrency::Local,
    {
        Concurrency::Local
    }
}

/// The concurrency that a setting names: `none`, `send` or `send+sync`.
pub open spec fn spec_parse_concurrency(s: Seq<char>) -> Option<Concurrency> {
    if s == "none"@ {
        Some(Concurrency::Local)
    } else if s == "send"@ {
        Some(Concurrency::Send)
    } else if s == "send+sync"@ {
        Some(Concurrency::SendSync)
    } else {
        None
    }
}

/// Reads a concurrency setting: `none`, `send` or `send+sync`.
pub fn parse_concurrency(s: &str) -> (r: Option<Concurrency>)
    ensures
        r == spec_parse_concurrency(s@),
{
    if str_eq(s, "none") {
        Some(Concurrency::Local)
    } else if str_eq(s, "send") {
        Some(Concurrency::Send)
    } else if str_eq(s, "send+sync") {
        Some(Concurrency::SendSync)
    } else {
        None
    }
}

/// A namespace of the loaded GIR library, as far as the analysis reads it.
#[derive(Clone, Debug)]
pub struct Namespace {
    /// The GIR name of the namespace, such as `Gtk`.
    pub name: String,
    /// The Rust crate name that the namespace name maps to, such as `gtk`.
    /// It is supplied with the namespace, not derived from its name here.
    pub crate_name: String,
    pub package_name: Option<String>,
    pub shared_library: Vec<String>,
    pub versions: Vec<Version>,
    /// The names of the namespace's types; a type's id is its position here.
    pub types: Vec<String>,
}

/// The loaded GIR library: its namespaces, numbered by position.
#[derive(Clone, Debug)]
pub struct Library {
    pub namespaces: Vec<Namespace>,
}

/// The first index `i` of `names` that holds `name`.
pub open spec fn first_index(names: Seq<String>, name: Seq<char>) -> Option<int> {
    if exists|i: int| 0 <= i < names.len() && names[i]@ == name {
        Some(choose|i: int| 0 <= i < names.len() && names[i]@ == name && forall|j: int| 0 <= j < i ==> names[j]@ != name)
    } else {
        None
    }
}

impl Library {
    /// The namespace and type ids fit their integer types.
    pub open spec fn wf(&self) -> bool {
        &&& self.namespaces@.len() <= 0x1_0000
        &&& forall|i: int| 0 <= i < self.namespaces@.len() ==> #[trigger] self.namespaces@[i].types@.len() <= 0x1_0000_0000
    }

    /// The id of the first namespace called `name`.
    pub open spec fn spec_find_namespace(&self, name: Seq<char>) -> Option<int> {
        first_index(self.namespaces@.map_values(|ns: Namespace| ns.name), name)
    }

    /// The type called `name` in namespace `ns_id`.
    pub open spec fn spec_find_in(&self, ns_id: int, name: Seq<char>) -> Option<TypeId> {
        match first_index(self.namespaces@[ns_id].types@, name) {
            Some(i) => Some(TypeId { ns_id: ns_id as u16, id: i as u32 }),
            None => None,
        }
    }

    /// The type that `name` refers to from namespace `current_ns_id`: a name
    /// `Ns.Type` is looked up in the namespace called `Ns`; a bare name in
    /// `current_ns_id`, then in the internal namespace.
    pub open spec fn spec_find_type(&self, current_ns_id: int, name: Seq<char>) -> Option<TypeId> {
        match dot_pos(name) {
            Some(d) => match self.spec_find_namespace(name.take(d)) {
                Some(ns) => self.spec_find_in(ns, name.skip(d + 1)),
                None => None,
            },
            None => match self.spec_find_in(current_ns_id, name) {
                Some(t) => Some(t),
                None => if 0 < self.namespaces@.len() {
                    self.spec_find_in(INTERNAL_NAMESPACE as int, name)
                } else {
                    None
                },
            },
        }
    }

    /// The namespace with id `ns_id`.
    pub fn namespace(&self, ns_id: u16) -> (r: &Namespace)
        requires
            ns_id < self.namespaces@.len(),
        ensures
            *r == self.namespaces@[ns_id as int],
    {
        &self.namespaces[ns_id as usize]
    }

    /// The id of the first namespace called `name`.
    pub fn find_namespace(&self, name: &str) -> (r: Option<u16>)
        requires
            self.wf(),
        ensures
            match r {
                Some(i) => self.spec_find_namespace(name@) == Some(i as int) && (i as int) < self.namespaces@.len(),
                None => self.spec_find_namespace(name@) is None,
            },
    {
        let ghost names = self.namespaces@.map_values(|ns: Namespace| ns.name);
        let n = self.namespaces.len();
        let mut i: usize = 0;
        while i < n
            invariant
                n == self.namespaces@.len(),
                n <= 0x1_0000,
                i <= n,
                names == self.namespaces@.map_values(|ns: Namespace| ns.name),
                forall|j: int| 0 <= j < i ==> names[j]@ != name@,
            decreases n - i,
        {
            if str_eq(self.namespaces[i].name.as_str(), name) {
                proof {
                    lemma_first_index(names, name@, i as int);
                }
                return Some(i as u16);
            }
            i += 1;
        }
        None
    }

    /// The type called `name` in namespace `ns_id`.
    pub fn find_in(&self, ns_id: u16, name: &str) -> (r: Option<TypeId>)
        requires
            self.wf(),
            ns_id < self.namespaces@.len(),
        ensures
            r == self.spec_find_in(ns_id as int, name@),
    {
        let types = &self.namespaces[ns_id as usize].types;
        let n = types.len();
        assert(n <= 0x1_0000_0000) by {
            assert(self.namespaces@[ns_id as int].types@.len() <= 0x1_0000_0000);
        }
        let mut i: usize = 0;
        while i < n
            invariant
                n == types@.len(),
                n <= 0x1_0000_0000,
                types@ == self.namespaces@[ns_id as int].types@,
                i <= n,
                forall|j: int| 0 <= j < i ==> types@[j]@ != name@,
            decreases n - i,
        {
            if str_eq(types[i].as_str(), name) {
                proof {
                    lemma_first_index(types@, name@, i as int);
                }
                return Some(TypeId { ns_id, id: i as u32 });
            }
            i += 1;
        }
        None
    }

    /// The type that `name` refers to from namespace `current_ns_id`.
    pub fn find_type(&self, current_ns_id: u16, name: &str) -> (r: Option<TypeId>)
        requires
            self.wf(),
            current_ns_id < self.namespaces@.len(),
        ensures
            r == self.spec_find_type(current_ns_id as int, name@),
    {
        match find_dot(name) {
            Some(d) => {
                let len = name.unicode_len();
                let ns_name = name.substring_char(0, d);
                let short_name = name.substring_char(d + 1, len);
                match self.find_namespace(ns_name) {
                    Some(ns) => self.find_in(ns, short_name),
                    None => None,
                }
            },
            None => match self.find_in(current_ns_id, name) {
                Some(t) => Some(t),
                None => if 0 < self.namespaces.len() {
                    self.find_in(INTERNAL_NAMESPACE, name)
                } else {
                    None
                },
            },
        }
    }
}

/// `first_index` finds the first position that holds `name`.
pub proof fn lemma_first_index(names: Seq<String>, name: Seq<char>, i: int)
    requires
        0 <= i < names.len(),
        names[i]@ == name,
        forall|j: int| 0 <= j < i ==> names[j]@ != name,
    ensures
        first_index(names, name) == Some(i),
{
    let c = choose|c: int| 0 <= c < names.len() && names[c]@ == name && forall|j: int| 0 <= j < c ==> names[j]@ != name;
    assert(0 <= c < names.len() && names[c]@ == name && forall|j: int| 0 <= j < c ==> names[j]@ != name);
    if c < i {
    } else if c > i {
        assert(names[i]@ != name);
    }
}

} // verus!
