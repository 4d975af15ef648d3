use vstd::prelude::*;

use crate::library::{Library, MAIN_NAMESPACE};
use crate::name_map::{keys_increasing, map_of, NameMap};
use crate::nameutil::{higher_crate_name, spec_higher_crate_name};
use crate::text::{find_path_sep, lemma_path_sep, path_sep, str_eq};
use crate::version::{
    lemma_min_version, lemma_opt_version_order, min_version, opt_version_less, opt_version_lt,
    Version,
};

verus! {

/// What a use declaration records: the version from which the name is
/// needed (none: always) and the feature constraints under which it is.
pub type ImportValue = (Option<Version>, Vec<String>);

/// `ImportValue` with its strings as character sequences.
pub type ImportView = (Option<Version>, Seq<Seq<char>>);

/// The character sequences of a list of strings.
pub open spec fn strs_view(v: Seq<String>) -> Seq<Seq<char>> {
    v.map_values(|s: String| s@)
}

/// The view of a recorded value.
pub open spec fn import_view(v: ImportValue) -> ImportView {
    (v.0, strs_view(v.1@))
}

/// The view of a map of recorded values.
pub open spec fn uses_of(m: Map<Seq<char>, ImportValue>) -> Map<Seq<char>, ImportView> {
    m.map_values(|v: ImportValue| import_view(v))
}

/// The path of `name` inside the crate `crate_name`.
pub open spec fn local_name(crate_name: Seq<char>, name: Seq<char>) -> Seq<char> {
    crate_name + "::"@ + name
}

/// `name` as it is written inside the crate `prefix`: a path that starts
/// with the crate's name starts with `crate` instead; the crate's own name
/// needs no declaration (`None`); any other name stays as it is.
pub open spec fn spec_strip_crate_name(prefix: Seq<char>, name: Seq<char>) -> Option<Seq<char>> {
    match path_sep(name) {
        Some(i) => if name.take(i) == prefix {
            Some("crate"@ + name.skip(i))
        } else {
            Some(name)
        },
        None => if name == prefix {
            None
        } else {
            Some(name)
        },
    }
}

/// The uses after declaring `name` with `version` and `constraint`.
pub open spec fn spec_add_with_constraint(
    uses: Map<Seq<char>, ImportView>,
    crate_name: Seq<char>,
    defined: Option<Seq<char>>,
    name: Seq<char>,
    version: Option<Version>,
    constraint: Option<Seq<char>>,
) -> Map<Seq<char>, ImportView> {
    if defined == Some(name) {
        uses
    } else {
        match spec_strip_crate_name(crate_name, name) {
            None => uses,
            Some(key) => {
                let v = if uses.contains_key(key) {
                    min_version(version, uses[key].0)
                } else {
                    version
                };
                let c = match constraint {
                    Some(c) => seq![c],
                    None => Seq::empty(),
                };
                uses.insert(key, (v, c))
            },
        }
    }
}

/// The uses after declaring `name` with `version`.
pub open spec fn spec_add(
    uses: Map<Seq<char>, ImportView>,
    crate_name: Seq<char>,
    defined: Option<Seq<char>>,
    name: Seq<char>,
    version: Option<Version>,
) -> Map<Seq<char>, ImportView> {
    spec_add_with_constraint(uses, crate_name, defined, name, version, None)
}

/// The uses after declaring the used type `used_type`: a bare type name is a
/// type of the crate itself; a path needs no declaration here.
pub open spec fn spec_add_used_type(
    uses: Map<Seq<char>, ImportView>,
    crate_name: Seq<char>,
    defined: Option<Seq<char>>,
    used_type: Seq<char>,
    version: Option<Version>,
) -> Map<Seq<char>, ImportView> {
    if path_sep(used_type) is None {
        spec_add(uses, crate_name, defined, local_name(crate_name, used_type), version)
    } else {
        uses
    }
}

/// The uses after declaring each of `used_types` in turn.
pub open spec fn spec_add_used_types(
    uses: Map<Seq<char>, ImportView>,
    crate_name: Seq<char>,
    defined: Option<Seq<char>>,
    used_types: Seq<Seq<char>>,
    version: Option<Version>,
) -> Map<Seq<char>, ImportView>
    decreases used_types.len(),
{
    if used_types.len() == 0 {
        uses
    } else {
        spec_add_used_type(
            spec_add_used_types(uses, crate_name, defined, used_types.drop_last(), version),
            crate_name,
            defined,
            used_types.last(),
            version,
        )
    }
}

/// Declaring a name records the lower of the given version and the one
/// recorded before, so a name is needed from its lowest declared version.
pub proof fn law_add_keeps_lowest_version(
    uses: Map<Seq<char>, ImportView>,
    crate_name: Seq<char>,
    defined: Option<Seq<char>>,
    name: Seq<char>,
    version: Option<Version>,
)
    requires
        defined != Some(name),
        spec_strip_crate_name(crate_name, name) is Some,
    ensures
        ({
            let key = spec_strip_crate_name(crate_name, name)->0;
            let after = spec_add(uses, crate_name, defined, name, version);
            &&& after.contains_key(key)
            &&& !opt_version_lt(version, after[key].0)
            &&& uses.contains_key(key) ==> !opt_version_lt(uses[key].0, after[key].0)
        }),
{
    let key = spec_strip_crate_name(crate_name, name)->0;
    lemma_opt_version_order(version, uses[key].0, version);
}

/// The name that the module defines is never declared.
pub proof fn law_defined_name_not_declared(
    uses: Map<Seq<char>, ImportView>,
    crate_name: Seq<char>,
    defined: Seq<char>,
    version: Option<Version>,
    constraint: Option<Seq<char>>,
)
    ensures
        spec_add_with_constraint(uses, crate_name, Some(defined), defined, version, constraint)
            == uses,
{
}

/// No declared name lists more than one constraint.
pub open spec fn constraints_single(uses: Map<Seq<char>, ImportView>) -> bool {
    forall|k: Seq<char>| #[trigger] uses.contains_key(k) ==> uses[k].1.len() <= 1
}

/// Declaring a name leaves exactly the given constraint (or none) on it, so
/// no declared name ever lists more than one constraint: this holds of new
/// imports, which declare nothing, and every declaration keeps it.
pub proof fn law_single_constraint(
    uses: Map<Seq<char>, ImportView>,
    crate_name: Seq<char>,
    defined: Option<Seq<char>>,
    name: Seq<char>,
    version: Option<Version>,
    constraint: Option<Seq<char>>,
)
    requires
        constraints_single(uses),
    ensures
        constraints_single(Map::<Seq<char>, ImportView>::empty()),
        constraints_single(
            spec_add_with_constraint(uses, crate_name, defined, name, version, constraint),
        ),
        constraints_single(spec_add_used_type(uses, crate_name, defined, name, version)),
        defined != Some(name) && spec_strip_crate_name(crate_name, name) is Some ==> ({
            let key = spec_strip_crate_name(crate_name, name)->0;
            spec_add_with_constraint(uses, crate_name, defined, name, version, constraint)[key].1
                == match constraint {
                Some(c) => seq![c],
                None => Seq::<Seq<char>>::empty(),
            }
        }),
{
    let local = local_name(crate_name, name);
    let r = spec_add_with_constraint(uses, crate_name, defined, name, version, constraint);
    assert forall|k: Seq<char>| #[trigger] r.contains_key(k) implies r[k].1.len() <= 1 by {
        if uses.contains_key(k) {
        }
    }
    let u = spec_add(uses, crate_name, defined, local, version);
    assert forall|k: Seq<char>| #[trigger] u.contains_key(k) implies u[k].1.len() <= 1 by {
        if uses.contains_key(k) {
        }
    }
}

/// Declaring a list of used types keeps every declared name to one constraint at most.
pub proof fn law_single_constraint_used_types(
    uses: Map<Seq<char>, ImportView>,
    crate_name: Seq<char>,
    defined: Option<Seq<char>>,
    used_types: Seq<Seq<char>>,
    version: Option<Version>,
)
    requires
        constraints_single(uses),
    ensures
        constraints_single(spec_add_used_types(uses, crate_name, defined, used_types, version)),
    decreases used_types.len(),
{
    if used_types.len() > 0 {
        law_single_constraint_used_types(
            uses,
            crate_name,
            defined,
            used_types.drop_last(),
            version,
        );
        law_single_constraint(
            spec_add_used_types(uses, crate_name, defined, used_types.drop_last(), version),
            crate_name,
            defined,
            used_types.last(),
            version,
            None,
        );
    }
}

/// The key under which declaring the used type `t` records it, if any.
pub open spec fn used_type_key(
    crate_name: Seq<char>,
    defined: Option<Seq<char>>,
    t: Seq<char>,
) -> Option<Seq<char>> {
    if path_sep(t) is None && defined != Some(local_name(crate_name, t)) {
        spec_strip_crate_name(crate_name, local_name(crate_name, t))
    } else {
        None
    }
}

/// Whether some used type of `types` is recorded under `k`.
pub open spec fn reached(
    crate_name: Seq<char>,
    defined: Option<Seq<char>>,
    types: Set<Seq<char>>,
    k: Seq<char>,
) -> bool {
    exists|t: Seq<char>| types.contains(t) && #[trigger] used_type_key(crate_name, defined, t) == Some(k)
}

/// The uses after declaring the used types `types`, each with `version`:
/// every key they reach gets the lower of `version` and what it had, and no
/// constraint; every other key keeps what it had.
pub open spec fn spec_used_types_set(
    uses: Map<Seq<char>, ImportView>,
    crate_name: Seq<char>,
    defined: Option<Seq<char>>,
    types: Set<Seq<char>>,
    version: Option<Version>,
) -> Map<Seq<char>, ImportView> {
    Map::new(
        |k: Seq<char>| uses.contains_key(k) || reached(crate_name, defined, types, k),
        |k: Seq<char>|
            if reached(crate_name, defined, types, k) {
                (
                    if uses.contains_key(k) {
                        min_version(version, uses[k].0)
                    } else {
                        version
                    },
                    Seq::<Seq<char>>::empty(),
                )
            } else {
                uses[k]
            },
    )
}

/// Declaring a list of used types gives the uses that the set of its types determines.
proof fn lemma_used_types_set(
    uses: Map<Seq<char>, ImportView>,
    crate_name: Seq<char>,
    defined: Option<Seq<char>>,
    used_types: Seq<Seq<char>>,
    version: Option<Version>,
)
    ensures
        spec_add_used_types(uses, crate_name, defined, used_types, version)
            == spec_used_types_set(uses, crate_name, defined, used_types.to_set(), version),
    decreases used_types.len(),
{
    let r = spec_add_used_types(uses, crate_name, defined, used_types, version);
    let m = spec_used_types_set(uses, crate_name, defined, used_types.to_set(), version);
    if used_types.len() == 0 {
        assert forall|k: Seq<char>| !reached(crate_name, defined, used_types.to_set(), k) by {
            if reached(crate_name, defined, used_types.to_set(), k) {
                let t = choose|t: Seq<char>|
                    used_types.to_set().contains(t) && #[trigger] used_type_key(
                        crate_name,
                        defined,
                        t,
                    ) == Some(k);
                assert(used_types.contains(t));
            }
        }
        assert(r =~= m);
    } else {
        let init = used_types.drop_last();
        let t = used_types.last();
        lemma_used_types_set(uses, crate_name, defined, init, version);
        let prev = spec_used_types_set(uses, crate_name, defined, init.to_set(), version);
        assert(r == spec_add_used_type(prev, crate_name, defined, t, version));
        // membership of the whole list: that of its first part, or its last type
        assert forall|x: Seq<char>|
            #[trigger] used_types.to_set().contains(x) <==> (init.to_set().contains(x) || x
                == t) by {
            if used_types.contains(x) {
                let i = choose|i: int| 0 <= i < used_types.len() && used_types[i] == x;
                if i < used_types.len() - 1 {
                    assert(init[i] == x);
                }
            }
            if init.contains(x) {
                let i = choose|i: int| 0 <= i < init.len() && init[i] == x;
                assert(used_types[i] == x);
            }
            if x == t {
                assert(used_types[used_types.len() - 1] == x);
            }
        }
        assert forall|k: Seq<char>|
            reached(crate_name, defined, used_types.to_set(), k) <==> (reached(
                crate_name,
                defined,
                init.to_set(),
                k,
            ) || used_type_key(crate_name, defined, t) == Some(k)) by {
            if reached(crate_name, defined, used_types.to_set(), k) {
                let x = choose|x: Seq<char>|
                    used_types.to_set().contains(x) && #[trigger] used_type_key(
                        crate_name,
                        defined,
                        x,
                    ) == Some(k);
                if x != t {
                    assert(init.to_set().contains(x));
                }
            }
            if reached(crate_name, defined, init.to_set(), k) {
                let x = choose|x: Seq<char>|
                    init.to_set().contains(x) && #[trigger] used_type_key(
                        crate_name,
                        defined,
                        x,
                    ) == Some(k);
                assert(used_types.to_set().contains(x));
            }
            if used_type_key(crate_name, defined, t) == Some(k) {
                assert(used_types.to_set().contains(t));
            }
        }
        match used_type_key(crate_name, defined, t) {
            None => {
                assert(r == prev);
                assert(r =~= m);
            },
            Some(key) => {
                lemma_min_version(version, version, uses[key].0);
                lemma_min_version(version, uses[key].0, uses[key].0);
                assert(r =~= m);
            },
        }
    }
}

/// Declaring a list of used types depends only on which types it holds: not
/// on their order, nor on how often one occurs.
pub proof fn law_used_types_set(
    uses: Map<Seq<char>, ImportView>,
    crate_name: Seq<char>,
    defined: Option<Seq<char>>,
    types1: Seq<Seq<char>>,
    types2: Seq<Seq<char>>,
    version: Option<Version>,
)
    requires
        types1.to_set() == types2.to_set(),
    ensures
        spec_add_used_types(uses, crate_name, defined, types1, version) == spec_add_used_types(
            uses,
            crate_name,
            defined,
            types2,
            version,
        ),
{
    lemma_used_types_set(uses, crate_name, defined, types1, version);
    lemma_used_types_set(uses, crate_name, defined, types2, version);
}

/// How a name is written inside the crate `crate_name`: a name without `::`
/// is kept as it is, unless it is the crate's own name, which needs no
/// declaration; a path whose first segment is the crate's name has that
/// segment replaced by `crate`; any other path is kept as it is.
pub proof fn law_strip_crate_name(crate_name: Seq<char>, name: Seq<char>)
    ensures
        (forall|j: int| 0 <= j < name.len() - 1 ==> !(#[trigger] name[j] == ':' && name[j + 1] == ':'))
            ==> spec_strip_crate_name(crate_name, name) == if name == crate_name {
            None
        } else {
            Some(name)
        },
        forall|i: int|
            0 <= i < name.len() - 1 && #[trigger] name[i] == ':' && name[i + 1] == ':' && (forall|
                j: int,
            | 0 <= j < i ==> !(#[trigger] name[j] == ':' && name[j + 1] == ':'))
                ==> spec_strip_crate_name(crate_name, name) == if name.take(i) == crate_name {
                Some("crate"@ + name.skip(i))
            } else {
                Some(name)
            },
{
    lemma_path_sep(name);
    assert forall|i: int|
        0 <= i < name.len() - 1 && #[trigger] name[i] == ':' && name[i + 1] == ':' && (forall|
            j: int,
        | 0 <= j < i ==> !(#[trigger] name[j] == ':' && name[j + 1] == ':'))
            implies spec_strip_crate_name(crate_name, name) == if name.take(i) == crate_name {
            Some("crate"@ + name.skip(i))
        } else {
            Some(name)
        } by {
        if path_sep(name) is None {
            assert(!(name[i] == ':' && name[i + 1] == ':'));
        } else {
            let k = path_sep(name)->0;
            if k < i {
                assert(!(name[k] == ':' && name[k + 1] == ':'));
            } else if i < k {
                assert(!(name[i] == ':' && name[i + 1] == ':'));
            }
        }
    }
}

/// Declaring a name without `::` that is neither the crate's own name nor the
/// defined name records that very name, with no constraint and the lower of
/// the given version and the one it had.
pub proof fn law_plain_name_declared(
    uses: Map<Seq<char>, ImportView>,
    crate_name: Seq<char>,
    defined: Option<Seq<char>>,
    name: Seq<char>,
    version: Option<Version>,
)
    requires
        forall|j: int| 0 <= j < name.len() - 1 ==> !(#[trigger] name[j] == ':' && name[j + 1] == ':'),
        name != crate_name,
        defined != Some(name),
    ensures
        ({
            let after = spec_add(uses, crate_name, defined, name, version);
            &&& after.contains_key(name)
            &&& after[name].1.len() == 0
            &&& !opt_version_lt(version, after[name].0)
            &&& uses.contains_key(name) ==> !opt_version_lt(uses[name].0, after[name].0)
            &&& (after[name].0 == version || (uses.contains_key(name) && after[name].0
                == uses[name].0))
            &&& forall|k: Seq<char>| k != name ==> (after.contains_key(k) == uses.contains_key(k)
                && (uses.contains_key(k) ==> #[trigger] after[k] == uses[k]))
        }),
{
    law_strip_crate_name(crate_name, name);
    lemma_opt_version_order(version, uses[name].0, version);
}

/// A used type without `::` is a type of the crate: declaring it declares
/// `<crate>::<type>`; a used type with `::` is declared elsewhere and changes nothing.
pub proof fn law_used_type_is_local(
    uses: Map<Seq<char>, ImportView>,
    crate_name: Seq<char>,
    defined: Option<Seq<char>>,
    used_type: Seq<char>,
    version: Option<Version>,
)
    ensures
        (forall|j: int|
            0 <= j < used_type.len() - 1 ==> !(#[trigger] used_type[j] == ':' && used_type[j + 1]
                == ':')) ==> spec_add_used_type(uses, crate_name, defined, used_type, version)
            == spec_add(uses, crate_name, defined, crate_name + "::"@ + used_type, version),
        (exists|j: int|
            0 <= j < used_type.len() - 1 && #[trigger] used_type[j] == ':' && used_type[j + 1]
                == ':') ==> spec_add_used_type(uses, crate_name, defined, used_type, version)
            == uses,
{
    lemma_path_sep(used_type);
}

/// Declaring a list of used types leaves each type of the crate that it
/// lists recorded with the lower of the given version and the one it had.
pub proof fn law_used_types_lowest_version(
    uses: Map<Seq<char>, ImportView>,
    crate_name: Seq<char>,
    defined: Option<Seq<char>>,
    used_types: Seq<Seq<char>>,
    version: Option<Version>,
    t: Seq<char>,
)
    requires
        used_types.contains(t),
        used_type_key(crate_name, defined, t) is Some,
    ensures
        ({
            let key = used_type_key(crate_name, defined, t)->0;
            let after = spec_add_used_types(uses, crate_name, defined, used_types, version);
            &&& after.contains_key(key)
            &&& after[key].1.len() == 0
            &&& !opt_version_lt(version, after[key].0)
            &&& uses.contains_key(key) ==> !opt_version_lt(uses[key].0, after[key].0)
            &&& (after[key].0 == version || (uses.contains_key(key) && after[key].0
                == uses[key].0))
        }),
{
    let key = used_type_key(crate_name, defined, t)->0;
    lemma_used_types_set(uses, crate_name, defined, used_types, version);
    assert(used_types.to_set().contains(t));
    assert(reached(crate_name, defined, used_types.to_set(), key));
    lemma_opt_version_order(version, uses[key].0, version);
}

/// Storing a value and then viewing the map is viewing and then storing its view.
proof fn lemma_uses_insert(m: Map<Seq<char>, ImportValue>, k: Seq<char>, v: ImportValue)
    ensures
        uses_of(m.insert(k, v)) == uses_of(m).insert(k, import_view(v)),
{
    assert(uses_of(m.insert(k, v)) =~= uses_of(m).insert(k, import_view(v)));
}

/// Declaring the same name with the same version twice records what declaring it once does.
pub proof fn law_add_idempotent(
    uses: Map<Seq<char>, ImportView>,
    crate_name: Seq<char>,
    defined: Option<Seq<char>>,
    name: Seq<char>,
    version: Option<Version>,
)
    ensures
        spec_add(spec_add(uses, crate_name, defined, name, version), crate_name, defined, name, version)
            == spec_add(uses, crate_name, defined, name, version),
{
    let once = spec_add(uses, crate_name, defined, name, version);
    if defined != Some(name) {
        if let Some(key) = spec_strip_crate_name(crate_name, name) {
            lemma_min_version(version, version, uses[key].0);
            lemma_min_version(version, uses[key].0, uses[key].0);
            assert(spec_add(once, crate_name, defined, name, version) =~= once);
        }
    }
}

/// The order in which two names are declared does not change what is recorded.
pub proof fn law_add_commutes(
    uses: Map<Seq<char>, ImportView>,
    crate_name: Seq<char>,
    defined: Option<Seq<char>>,
    a: Seq<char>,
    va: Option<Version>,
    b: Seq<char>,
    vb: Option<Version>,
)
    ensures
        spec_add(spec_add(uses, crate_name, defined, a, va), crate_name, defined, b, vb)
            == spec_add(spec_add(uses, crate_name, defined, b, vb), crate_name, defined, a, va),
{
    let ab = spec_add(spec_add(uses, crate_name, defined, a, va), crate_name, defined, b, vb);
    let ba = spec_add(spec_add(uses, crate_name, defined, b, vb), crate_name, defined, a, va);
    if defined != Some(a) && defined != Some(b) {
        if let (Some(ka), Some(kb)) = (
            spec_strip_crate_name(crate_name, a),
            spec_strip_crate_name(crate_name, b),
        ) {
            if ka == kb {
                lemma_min_version(va, vb, uses[ka].0);
                lemma_min_version(vb, va, uses[ka].0);
                lemma_min_version(va, vb, vb);
                lemma_min_version(vb, va, va);
            }
            assert(ab =~= ba);
        }
    }
}

/// Provides assistance in generating use declarations.
///
/// It takes into account that use declaration referring to names within the
/// same crate will look differently. It also avoids generating spurious
/// declarations referring to names from within the same module as the one we
/// are generating code for.
#[derive(Clone, Debug)]
pub struct Imports {
    /// Name of the current crate.
    crate_name: String,
    /// Name defined within current module. It doesn't need use declaration.
    defined: Option<String>,
    map: NameMap<ImportValue>,
}

impl Imports {
    /// The name of the current crate.
    pub closed spec fn crate_name_spec(&self) -> Seq<char> {
        self.crate_name@
    }

    /// The name defined within the current module, if any.
    pub closed spec fn defined_spec(&self) -> Option<Seq<char>> {
        match self.defined {
            Some(d) => Some(d@),
            None => None,
        }
    }

    /// The declared names, each with its version and constraints.
    pub closed spec fn uses(&self) -> Map<Seq<char>, ImportView> {
        uses_of(self.map@)
    }

    /// The declared names with what is recorded for them, in increasing order of names.
    pub closed spec fn entries_spec(&self) -> Seq<(String, ImportValue)> {
        self.map.entries_spec()
    }

    /// Imports for the main namespace of `gir`, with nothing declared yet.
    pub fn new(gir: &Library) -> (r: Imports)
        requires
            MAIN_NAMESPACE < gir.namespaces@.len(),
        ensures
            r.crate_name_spec() == spec_higher_crate_name(
                gir.namespaces@[MAIN_NAMESPACE as int].crate_name@,
            ),
            r.defined_spec() is None,
            r.uses() == Map::<Seq<char>, ImportView>::empty(),
    {
        let crate_name = higher_crate_name(gir.namespace(MAIN_NAMESPACE).crate_name.as_str());
        let r = Imports { crate_name, defined: None, map: NameMap::new() };
        assert(r.uses() =~= Map::<Seq<char>, ImportView>::empty());
        r
    }

    /// Imports for the main namespace of `gir`, in a module that defines `name`.
    pub fn with_defined(gir: &Library, name: &str) -> (r: Imports)
        requires
            MAIN_NAMESPACE < gir.namespaces@.len(),
        ensures
            r.crate_name_spec() == spec_higher_crate_name(
                gir.namespaces@[MAIN_NAMESPACE as int].crate_name@,
            ),
            r.defined_spec() == Some(local_name(r.crate_name_spec(), name@)),
            r.uses() == Map::<Seq<char>, ImportView>::empty(),
    {
        let mut imports = Imports::new(gir);
        imports.defined = Some(imports.make_local_name(name));
        imports
    }

    /// The path of `name` inside the current crate.
    fn make_local_name(&self, name: &str) -> (r: String)
        ensures
            r@ == local_name(self.crate_name@, name@),
    {
        let mut r = self.crate_name.clone();
        r.append("::");
        r.append(name);
        r
    }

    /// Declares that name should be available through its last path component.
    ///
    /// For example, if name is `X::Y::Z` then it will be available as `Z`.
    pub fn add(&mut self, name: &str, version: Option<Version>)
        ensures
            final(self).crate_name_spec() == old(self).crate_name_spec(),
            final(self).defined_spec() == old(self).defined_spec(),
            final(self).uses() == spec_add(
                old(self).uses(),
                old(self).crate_name_spec(),
                old(self).defined_spec(),
                name@,
                version,
            ),
    {
        self.add_with_constraint(name, version, None);
    }

    /// Declares that name should be available through its last path component and provides
    /// an optional feature constraint.
    ///
    /// For example, if name is `X::Y::Z` then it will be available as `Z`.
    pub fn add_with_constraint(
        &mut self,
        name: &str,
        version: Option<Version>,
        constraint: Option<&str>,
    )
        ensures
            final(self).crate_name_spec() == old(self).crate_name_spec(),
            final(self).defined_spec() == old(self).defined_spec(),
            final(self).uses() == spec_add_with_constraint(
                old(self).uses(),
                old(self).crate_name_spec(),
                old(self).defined_spec(),
                name@,
                version,
                match constraint {
                    Some(c) => Some(c@),
                    None => None,
                },
            ),
    {
        if let Some(defined) = &self.defined {
            if str_eq(name, defined.as_str()) {
                return;
            }
        }
        if let Some(name) = self.strip_crate_name(name) {
            let entry_version = match self.map.get(name.as_str()) {
                Some(entry) => entry.0,
                None => version,
            };
            let new_version = if opt_version_less(version, entry_version) {
                version
            } else {
                entry_version
            };
            let mut constraints: Vec<String> = Vec::new();
            if let Some(constraint) = constraint {
                let constraint = constraint.to_owned();
                if !contains_str(&constraints, constraint.as_str()) {
                    constraints.push(constraint);
                }
            }
            proof {
                lemma_uses_insert(self.map@, name@, (new_version, constraints));
                assert(strs_view(constraints@) =~= match constraint {
                    Some(c) => seq![c@],
                    None => Seq::<Seq<char>>::empty(),
                });
            }
            self.map.insert(name, (new_version, constraints));
        }
    }

    /// Declares a type used by the generated code: a bare type name is a type
    /// of the current crate.
    pub fn add_used_type(&mut self, used_type: &str, version: Option<Version>)
        ensures
            final(self).crate_name_spec() == old(self).crate_name_spec(),
            final(self).defined_spec() == old(self).defined_spec(),
            final(self).uses() == spec_add_used_type(
                old(self).uses(),
                old(self).crate_name_spec(),
                old(self).defined_spec(),
                used_type@,
                version,
            ),
    {
        if find_path_sep(used_type).is_none() {
            let local = self.make_local_name(used_type);
            self.add(local.as_str(), version);
        }
    }

    /// Declares each of the types used by the generated code.
    pub fn add_used_types(&mut self, used_types: &[String], version: Option<Version>)
        ensures
            final(self).crate_name_spec() == old(self).crate_name_spec(),
            final(self).defined_spec() == old(self).defined_spec(),
            final(self).uses() == spec_add_used_types(
                old(self).uses(),
                old(self).crate_name_spec(),
                old(self).defined_spec(),
                strs_view(used_types@),
                version,
            ),
    {
        let ghost uses0 = self.uses();
        let ghost types = strs_view(used_types@);
        let n = used_types.len();
        let mut i: usize = 0;
        assert(types.take(0) =~= Seq::<Seq<char>>::empty());
        while i < n
            invariant
                n == used_types@.len(),
                types == strs_view(used_types@),
                i <= n,
                self.crate_name_spec() == old(self).crate_name_spec(),
                self.defined_spec() == old(self).defined_spec(),
                self.uses() == spec_add_used_types(
                    uses0,
                    self.crate_name_spec(),
                    self.defined_spec(),
                    types.take(i as int),
                    version,
                ),
            decreases n - i,
        {
            self.add_used_type(used_types[i].as_str(), version);
            assert(types.take(i + 1).drop_last() =~= types.take(i as int));
            i += 1;
        }
        assert(types.take(n as int) =~= types);
    }

    /// Tries to strip crate name prefix from given name.
    ///
    /// Returns `None` if name matches crate name exactly. Otherwise returns name with crate name
    /// prefix replaced with `crate` or full name if there was no match.
    fn strip_crate_name(&self, name: &str) -> (r: Option<String>)
        ensures
            match r {
                Some(s) => spec_strip_crate_name(self.crate_name@, name@) == Some(s@),
                None => spec_strip_crate_name(self.crate_name@, name@) is None,
            },
    {
        let prefix = self.crate_name.as_str();
        match find_path_sep(name) {
            Some(i) => {
                let len = name.unicode_len();
                if str_eq(name.substring_char(0, i), prefix) {
                    let mut r = "crate".to_owned();
                    r.append(name.substring_char(i, len));
                    proof {
                        assert(name@.subrange(0, i as int) =~= name@.take(i as int));
                        assert(name@.subrange(i as int, len as int) =~= name@.skip(i as int));
                    }
                    Some(r)
                } else {
                    proof {
                        assert(name@.subrange(0, i as int) =~= name@.take(i as int));
                    }
                    Some(name.to_owned())
                }
            },
            None => if str_eq(name, prefix) {
                None
            } else {
                Some(name.to_owned())
            },
        }
    }

    /// The declared names with what is recorded for them, in increasing order of names.
    pub fn iter(&self) -> (r: &Vec<(String, ImportValue)>)
        ensures
            r@ == self.entries_spec(),
            keys_increasing(r@),
            uses_of(map_of(r@)) == self.uses(),
    {
        self.map.entries()
    }
}

impl Default for Imports {
    fn default() -> (r: Imports)
        ensures
            r.crate_name_spec() == Seq::<char>::empty(),
            r.defined_spec() is None,
            r.uses() == Map::<Seq<char>, ImportView>::empty(),
    {
        let r = Imports { crate_name: String::new(), defined: None, map: NameMap::new() };
        assert(r.uses() =~= Map::<Seq<char>, ImportView>::empty());
        r
    }
}

/// Whether `v` holds the string `s`.
fn contains_str(v: &Vec<String>, s: &str) -> (r: bool)
    ensures
        r == exists|i: int| 0 <= i < v@.len() && #[trigger] v@[i]@ == s@,
{
    let n = v.len();
    let mut i: usize = 0;
    while i < n
        invariant
            n == v@.len(),
            i <= n,
            forall|j: int| 0 <= j < i ==> #[trigger] v@[j]@ != s@,
        decreases n - i,
    {
        if str_eq(v[i].as_str(), s) {
            return true;
        }
        i += 1;
    }
    false
}

} // verus!
