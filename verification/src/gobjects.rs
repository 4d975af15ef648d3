use vstd::prelude::*;

use crate::library::{
    parse_concurrency, spec_parse_concurrency, Concurrency, Library, TypeId, INTERNAL_NAMESPACE,
    MAIN_NAMESPACE,
};
use crate::name_map::{has_key, keys_increasing, lemma_map_of_index, map_of, NameMap};
use crate::text::{seq_lt, str_eq};
use crate::toml_value::{
    lookup_bool, lookup_integer, lookup_str, spec_as_str, spec_lookup, strings_in, TomlValue,
};
use crate::version::{parse_version, spec_parse_version, Version};

verus! {

/// How a configured object is treated.
#[derive(Clone, Copy, Debug, Eq, PartialEq, Structural)]
pub enum GStatus {
    /// Already generated.
    Manual,
    Generate,
    Comment,
    Ignore,
}

/// The status that a configuration string names.
pub open spec fn spec_status(s: Seq<char>) -> Option<GStatus> {
    if s == "manual"@ {
        Some(GStatus::Manual)
    } else if s == "generate"@ {
        Some(GStatus::Generate)
    } else if s == "comment"@ {
        Some(GStatus::Comment)
    } else if s == "ignore"@ {
        Some(GStatus::Ignore)
    } else {
        None
    }
}

impl GStatus {
    pub fn ignored(self) -> (r: bool)
        ensures
            r == (self == GStatus::Ignore),
    {
        self == GStatus::Ignore
    }

    pub fn need_generate(self) -> (r: bool)
        ensures
            r == (self == GStatus::Generate),
    {
        self == GStatus::Generate
    }

    pub fn normal(self) -> (r: bool)
        ensures
            r == (self == GStatus::Generate || self == GStatus::Manual),
    {
        self == GStatus::Generate || self == GStatus::Manual
    }

    /// Reads a status: `manual`, `generate`, `comment` or `ignore`.
    pub fn parse_status(s: &str) -> (r: Result<GStatus, String>)
        ensures
            match r {
                Ok(status) => spec_status(s@) == Some(status),
                Err(e) => spec_status(s@) is None && e@ == "Wrong object status: \""@ + s@
                    + "\""@,
            },
    {
        if str_eq(s, "manual") {
            Ok(GStatus::Manual)
        } else if str_eq(s, "generate") {
            Ok(GStatus::Generate)
        } else if str_eq(s, "comment") {
            Ok(GStatus::Comment)
        } else if str_eq(s, "ignore") {
            Ok(GStatus::Ignore)
        } else {
            let mut e = "Wrong object status: \"".to_owned();
            e.append(s);
            e.append("\"");
            Err(e)
        }
    }
}

/// Every status is ignored, commented out, or normal, and only one of these;
/// a status to generate is normal.
pub proof fn law_status_kinds(s: GStatus)
    ensures
        (s == GStatus::Ignore) || (s == GStatus::Comment) || (s == GStatus::Generate || s
            == GStatus::Manual),
        !((s == GStatus::Ignore) && (s == GStatus::Generate || s == GStatus::Manual)),
        (s == GStatus::Generate) ==> (s == GStatus::Generate || s == GStatus::Manual),
{
}

/// The key under which `options` lists the objects of a status is the word
/// that `parse_status` reads as that status.
pub proof fn law_status_key_parses(s: GStatus)
    ensures
        spec_status(status_key(s)) == Some(s),
{
    reveal_strlit("manual");
    reveal_strlit("generate");
    reveal_strlit("comment");
    reveal_strlit("ignore");
    assert("generate"@.len() != "manual"@.len());
    assert("comment"@.len() != "manual"@.len());
    assert("comment"@.len() != "generate"@.len());
    assert("ignore"@[0] != "manual"@[0]);
    assert("ignore"@.len() != "generate"@.len());
    assert("ignore"@.len() != "comment"@.len());
}

impl Default for GStatus {
    fn default() -> (r: GStatus)
        ensures
            r == GStatus::Ignore,
    {
        GStatus::Ignore
    }
}

impl std::str::FromStr for GStatus {
    type Err = String;

    /// Reads a status: `manual`, `generate`, `comment` or `ignore`.
    fn from_str(s: &str) -> (r: Result<Self, Self::Err>)
        ensures
            match r {
                Ok(status) => spec_status(s@) == Some(status),
                Err(e) => spec_status(s@) is None && e@ == "Wrong object status: \""@ + s@
                    + "\""@,
            },
    {
        GStatus::parse_status(s)
    }
}

/// How a manually written type is passed by reference.
#[derive(Clone, Copy, Debug, Eq, PartialEq, Structural)]
pub enum RefMode {
    /// Passed by value (the setting `none`).
    ByValue,
    ByRef,
    ByRefMut,
    ByRefImmut,
    ByRefFake,
}

/// How a manually written type converts to its C counterpart.
#[derive(Clone, Copy, Debug, Eq, PartialEq, Structural)]
pub enum ConversionType {
    Direct,
    Scalar,
    Pointer,
    Borrow,
    Unknown,
}

/// The reference mode that a configuration string names.
pub open spec fn spec_ref_mode(s: Seq<char>) -> Option<RefMode> {
    if s == "none"@ {
        Some(RefMode::ByValue)
    } else if s == "ref"@ {
        Some(RefMode::ByRef)
    } else if s == "ref-mut"@ {
        Some(RefMode::ByRefMut)
    } else if s == "ref-immut"@ {
        Some(RefMode::ByRefImmut)
    } else if s == "ref-fake"@ {
        Some(RefMode::ByRefFake)
    } else {
        None
    }
}

/// The conversion type that a configuration string names.
pub open spec fn spec_conversion_type(s: Seq<char>) -> Option<ConversionType> {
    if s == "direct"@ {
        Some(ConversionType::Direct)
    } else if s == "scalar"@ {
        Some(ConversionType::Scalar)
    } else if s == "pointer"@ {
        Some(ConversionType::Pointer)
    } else if s == "borrow"@ {
        Some(ConversionType::Borrow)
    } else if s == "unknown"@ {
        Some(ConversionType::Unknown)
    } else {
        None
    }
}

/// Reads a reference mode: `none`, `ref`, `ref-mut`, `ref-immut` or `ref-fake`.
pub fn ref_mode_from_str(ref_mode: &str) -> (r: Option<RefMode>)
    ensures
        r == spec_ref_mode(ref_mode@),
{
    if str_eq(ref_mode, "none") {
        Some(RefMode::ByValue)
    } else if str_eq(ref_mode, "ref") {
        Some(RefMode::ByRef)
    } else if str_eq(ref_mode, "ref-mut") {
        Some(RefMode::ByRefMut)
    } else if str_eq(ref_mode, "ref-immut") {
        Some(RefMode::ByRefImmut)
    } else if str_eq(ref_mode, "ref-fake") {
        Some(RefMode::ByRefFake)
    } else {
        None
    }
}

/// Reads a conversion type: `direct`, `scalar`, `pointer`, `borrow` or `unknown`.
pub fn conversion_type_from_str(conversion_type: &str) -> (r: Option<ConversionType>)
    ensures
        r == spec_conversion_type(conversion_type@),
{
    if str_eq(conversion_type, "direct") {
        Some(ConversionType::Direct)
    } else if str_eq(conversion_type, "scalar") {
        Some(ConversionType::Scalar)
    } else if str_eq(conversion_type, "pointer") {
        Some(ConversionType::Pointer)
    } else if str_eq(conversion_type, "borrow") {
        Some(ConversionType::Borrow)
    } else if str_eq(conversion_type, "unknown") {
        Some(ConversionType::Unknown)
    } else {
        None
    }
}

/// Info about `GObject` descendant
///
/// It carries the object's own options only: the sub-configurations of an
/// object (functions, constants, signals, members, properties, derives and
/// child properties) are not read or held here.
#[derive(Clone, Debug)]
pub struct GObject {
    pub name: String,
    pub status: GStatus,
    pub module_name: Option<String>,
    pub version: Option<Version>,
    pub cfg_condition: Option<String>,
    pub type_id: Option<TypeId>,
    pub final_type: Option<bool>,
    pub trait_name: Option<String>,
    pub concurrency: Concurrency,
    pub ref_mode: Option<RefMode>,
    pub must_use: bool,
    pub conversion_type: Option<ConversionType>,
    pub use_boxed_functions: bool,
    pub generate_display_trait: bool,
    pub subclassing: bool,
    pub manual_traits: Vec<String>,
    pub align: Option<u32>,
}

/// The characters of an optional string.
pub open spec fn opt_view(o: Option<String>) -> Option<Seq<char>> {
    match o {
        Some(s) => Some(s@),
        None => None,
    }
}

/// `o` is the object called `name` with the given status, concurrency and
/// display setting, and every other option at its default.
pub open spec fn plain_object(
    o: GObject,
    name: Seq<char>,
    status: GStatus,
    concurrency: Concurrency,
    generate_display_trait: bool,
) -> bool {
    &&& o.name@ == name
    &&& o.status == status
    &&& o.module_name is None
    &&& o.version is None
    &&& o.cfg_condition is None
    &&& o.type_id is None
    &&& o.final_type is None
    &&& o.trait_name is None
    &&& o.concurrency == concurrency
    &&& o.ref_mode is None
    &&& !o.must_use
    &&& o.conversion_type is None
    &&& !o.use_boxed_functions
    &&& o.generate_display_trait == generate_display_trait
    &&& !o.subclassing
    &&& o.manual_traits@.len() == 0
    &&& o.align is None
}

impl Default for GObject {
    fn default() -> (r: GObject)
        ensures
            plain_object(r, "Default"@, GStatus::Ignore, Concurrency::Local, true),
    {
        GObject {
            name: "Default".to_owned(),
            status: GStatus::default(),
            module_name: None,
            version: None,
            cfg_condition: None,
            type_id: None,
            final_type: None,
            trait_name: None,
            concurrency: Concurrency::default(),
            ref_mode: None,
            must_use: false,
            conversion_type: None,
            use_boxed_functions: false,
            generate_display_trait: true,
            subclassing: false,
            manual_traits: Vec::new(),
            align: None,
        }
    }
}

/// The objects of a configuration, by name.
pub type GObjects = NameMap<GObject>;

/// Whether `v` is a power of two.
pub open spec fn is_power_of_two(v: int) -> bool
    decreases v,
{
    if v <= 0 {
        false
    } else if v == 1 {
        true
    } else if v % 2 == 1 {
        false
    } else {
        is_power_of_two(v / 2)
    }
}

/// The alignment that the setting `v` asks for: a power of two that fits a `u32`.
pub open spec fn spec_align(v: i64) -> Option<u32> {
    if 0 < v <= 0xffff_ffff && is_power_of_two(v as int) {
        Some(v as u32)
    } else {
        None
    }
}

/// Checks an alignment setting.
fn align_from_setting(v: i64) -> (r: Option<u32>)
    ensures
        r == spec_align(v),
{
    if v <= 0 || v > 0xffff_ffff {
        return None;
    }
    let mut x: i64 = v;
    while x > 1 && x % 2 == 0
        invariant
            0 < x <= v,
            is_power_of_two(v as int) == is_power_of_two(x as int),
        decreases x,
    {
        x = x / 2;
    }
    if x == 1 {
        Some(v as u32)
    } else {
        None
    }
}

/// What `parse_object` needs of an object's table: a string `name` and,
/// where there is a `status`, a string status.
pub open spec fn object_requires(v: TomlValue) -> bool {
    &&& lookup_str(v, "name"@) is Some
    &&& spec_lookup(v, "status"@) matches Some(s) ==> spec_as_str(s) is Some
}

/// The name of an object's table.
pub open spec fn object_name(v: TomlValue) -> Seq<char> {
    lookup_str(v, "name"@)->0
}

/// `o` is the object that the table `v` configures, where a concurrency
/// and a display setting that `v` does not give default to the arguments.
#[verifier::opaque]
pub open spec fn object_parsed(
    o: GObject,
    v: TomlValue,
    concurrency: Concurrency,
    default_generate_display_trait: bool,
) -> bool {
    &&& o.name@ == object_name(v)
    &&& o.status == match lookup_str(v, "status"@) {
        Some(s) => match spec_status(s) {
            Some(st) => st,
            None => GStatus::Ignore,
        },
        None => GStatus::Ignore,
    }
    &&& opt_view(o.module_name) == lookup_str(v, "module_name"@)
    &&& o.version == match lookup_str(v, "version"@) {
        Some(s) => Some(spec_parse_version(s)),
        None => None,
    }
    &&& opt_view(o.cfg_condition) == lookup_str(v, "cfg_condition"@)
    &&& o.type_id is None
    &&& o.final_type == match lookup_bool(v, "final_type"@) {
        Some(b) => Some(b),
        None => match lookup_bool(v, "trait"@) {
            Some(t) => Some(!t),
            None => None,
        },
    }
    &&& opt_view(o.trait_name) == lookup_str(v, "trait_name"@)
    &&& o.concurrency == match lookup_str(v, "concurrency"@) {
        Some(s) => match spec_parse_concurrency(s) {
            Some(c) => c,
            None => concurrency,
        },
        None => concurrency,
    }
    &&& o.ref_mode == match lookup_str(v, "ref_mode"@) {
        Some(s) => spec_ref_mode(s),
        None => None,
    }
    &&& o.conversion_type == match lookup_str(v, "conversion_type"@) {
        Some(s) => spec_conversion_type(s),
        None => None,
    }
    &&& o.must_use == (lookup_bool(v, "must_use"@) == Some(true))
    &&& o.use_boxed_functions == (lookup_bool(v, "use_boxed_functions"@) == Some(true))
    &&& o.generate_display_trait == match lookup_bool(v, "generate_display_trait"@) {
        Some(b) => b,
        None => default_generate_display_trait,
    }
    &&& o.subclassing == (lookup_bool(v, "subclassing"@) == Some(true))
    &&& o.manual_traits@.map_values(|s: String| s@) == match spec_lookup(v, "manual_traits"@) {
        Some(TomlValue::Array(a)) => strings_in(a@),
        _ => Seq::empty(),
    }
    &&& o.align == match lookup_integer(v, "align"@) {
        Some(a) => spec_align(a),
        None => None,
    }
}

/// `generate_display_trait` is the object's own setting where it gives one,
/// whatever the default passed in; the default counts only where it gives none.
pub proof fn law_display_trait_setting(
    o: GObject,
    v: TomlValue,
    concurrency: Concurrency,
    default_generate_display_trait: bool,
)
    requires
        object_parsed(o, v, concurrency, default_generate_display_trait),
    ensures
        forall|b: bool|
            spec_lookup(v, "generate_display_trait"@) == Some(TomlValue::Boolean(b))
                ==> o.generate_display_trait == b,
        !(spec_lookup(v, "generate_display_trait"@) matches Some(TomlValue::Boolean(_)))
            ==> o.generate_display_trait == default_generate_display_trait,
{
    reveal(object_parsed);
}

/// An object's own boolean settings decide: `must_use`, `use_boxed_functions` and `subclassing` hold
/// exactly where the object sets them to `true`; `final_type` is the
/// object's setting, else the negation of its deprecated `trait` setting.
pub proof fn law_object_flags(o: GObject, v: TomlValue, concurrency: Concurrency, default_generate_display_trait: bool)
    requires
        object_parsed(o, v, concurrency, default_generate_display_trait),
    ensures
        o.must_use <==> spec_lookup(v, "must_use"@) == Some(TomlValue::Boolean(true)),
        o.use_boxed_functions <==> spec_lookup(v, "use_boxed_functions"@) == Some(
            TomlValue::Boolean(true),
        ),
        o.subclassing <==> spec_lookup(v, "subclassing"@) == Some(TomlValue::Boolean(true)),
        forall|b: bool|
            spec_lookup(v, "final_type"@) == Some(TomlValue::Boolean(b)) ==> o.final_type == Some(
                b,
            ),
        forall|t: bool|
            !(spec_lookup(v, "final_type"@) matches Some(TomlValue::Boolean(_))) && spec_lookup(
                v,
                "trait"@,
            ) == Some(TomlValue::Boolean(t)) ==> o.final_type == Some(!t),
        o.type_id is None,
{
    reveal(object_parsed);
}

/// The string under `key` of the table `v`, where it is a string.
fn lookup_string(v: &TomlValue, key: &str) -> (r: Option<String>)
    ensures
        opt_view(r) == lookup_str(*v, key@),
{
    match v.lookup(key) {
        Some(x) => match x.as_str() {
            Some(s) => Some(s.to_owned()),
            None => None,
        },
        None => None,
    }
}

/// The boolean under `key` of the table `v`, where it is a boolean.
fn lookup_boolean(v: &TomlValue, key: &str) -> (r: Option<bool>)
    ensures
        r == lookup_bool(*v, key@),
{
    match v.lookup(key) {
        Some(x) => x.as_bool(),
        None => None,
    }
}

/// The strings among `values`, in order.
fn strings_of(values: &Vec<TomlValue>) -> (r: Vec<String>)
    ensures
        r@.map_values(|s: String| s@) == strings_in(values@),
{
    let mut r: Vec<String> = Vec::new();
    let n = values.len();
    let mut i: usize = 0;
    assert(values@.take(0) =~= Seq::<TomlValue>::empty());
    assert(r@.map_values(|s: String| s@) =~= Seq::<Seq<char>>::empty());
    while i < n
        invariant
            n == values@.len(),
            i <= n,
            r@.map_values(|s: String| s@) == strings_in(values@.take(i as int)),
        decreases n - i,
    {
        assert(values@.take(i + 1).drop_last() =~= values@.take(i as int));
        match values[i].as_str() {
            Some(s) => {
                let ghost before = r@;
                r.push(s.to_owned());
                assert(r@.map_values(|s: String| s@) =~= before.map_values(|s: String| s@).push(
                    s@,
                ));
            },
            None => {},
        }
        i += 1;
    }
    assert(values@.take(n as int) =~= values@);
    r
}

/// The object that the table `toml_object` configures.
pub fn parse_object(
    toml_object: &TomlValue,
    concurrency: Concurrency,
    default_generate_display_trait: bool,
) -> (r: GObject)
    requires
        object_requires(*toml_object),
    ensures
        r.name@ == object_name(*toml_object),
        object_parsed(r, *toml_object, concurrency, default_generate_display_trait),
{
    let name: String = toml_object.lookup("name").unwrap().as_str().unwrap().to_owned();

    let status = match toml_object.lookup("status") {
        Some(value) => match GStatus::parse_status(value.as_str().unwrap()) {
            Ok(status) => status,
            Err(_) => GStatus::default(),
        },
        None => GStatus::default(),
    };

    let module_name = lookup_string(toml_object, "module_name");
    let version = match lookup_string(toml_object, "version") {
        Some(s) => Some(parse_version(s.as_str())),
        None => None,
    };
    let cfg_condition = lookup_string(toml_object, "cfg_condition");
    let generate_trait = lookup_boolean(toml_object, "trait");
    let final_type = match lookup_boolean(toml_object, "final_type") {
        Some(b) => Some(b),
        None => match generate_trait {
            Some(t) => Some(!t),
            None => None,
        },
    };
    let trait_name = lookup_string(toml_object, "trait_name");
    let concurrency = match lookup_string(toml_object, "concurrency") {
        Some(s) => match parse_concurrency(s.as_str()) {
            Some(c) => c,
            None => concurrency,
        },
        None => concurrency,
    };
    let ref_mode = match lookup_string(toml_object, "ref_mode") {
        Some(s) => ref_mode_from_str(s.as_str()),
        None => None,
    };
    let conversion_type = match lookup_string(toml_object, "conversion_type") {
        Some(s) => conversion_type_from_str(s.as_str()),
        None => None,
    };
    let must_use = match lookup_boolean(toml_object, "must_use") {
        Some(b) => b,
        None => false,
    };
    let use_boxed_functions = match lookup_boolean(toml_object, "use_boxed_functions") {
        Some(b) => b,
        None => false,
    };
    let generate_display_trait = match lookup_boolean(toml_object, "generate_display_trait") {
        Some(b) => b,
        None => default_generate_display_trait,
    };
    let subclassing = match lookup_boolean(toml_object, "subclassing") {
        Some(b) => b,
        None => false,
    };
    let manual_traits = match toml_object.lookup("manual_traits") {
        Some(v) => match v.as_array() {
            Some(a) => strings_of(a),
            None => Vec::new(),
        },
        None => Vec::new(),
    };
    let align = match toml_object.lookup("align") {
        Some(v) => match v.as_integer() {
            Some(a) => align_from_setting(a),
            None => None,
        },
        None => None,
    };

    proof {
        reveal(object_parsed);
    }
    let r = GObject {
        name,
        status,
        module_name,
        version,
        cfg_condition,
        type_id: None,
        final_type,
        trait_name,
        concurrency,
        ref_mode,
        must_use,
        conversion_type,
        use_boxed_functions,
        generate_display_trait,
        subclassing,
        manual_traits,
        align,
    };
    proof {
        assert(r.manual_traits@.map_values(|s: String| s@) =~= match spec_lookup(*toml_object, "manual_traits"@) {
            Some(TomlValue::Array(a)) => strings_in(a@),
            _ => Seq::empty(),
        });
    }
    r
}

/// The elements of an array value.
pub open spec fn array_items(v: TomlValue) -> Seq<TomlValue> {
    match v {
        TomlValue::Array(a) => a@,
        _ => Seq::empty(),
    }
}

/// Table `j` is the last of the first `n` tables that names its object.
pub open spec fn last_named(items: Seq<TomlValue>, j: int, n: int) -> bool {
    forall|l: int| j < l < n ==> object_name(#[trigger] items[l]) != object_name(items[j])
}

/// `m` holds the objects that the first `n` tables configure: each name that
/// one of them gives, with the object of the last table that gives it.
#[verifier::opaque]
pub open spec fn parsed_prefix(
    m: Map<Seq<char>, GObject>,
    items: Seq<TomlValue>,
    n: int,
    concurrency: Concurrency,
    generate_display_trait: bool,
) -> bool {
    &&& forall|k: Seq<char>|
        #[trigger] m.contains_key(k) <==> exists|j: int|
            0 <= j < n && object_name(#[trigger] items[j]) == k
    &&& forall|j: int|
        0 <= j < n && #[trigger] last_named(items, j, n) ==> m.contains_key(object_name(items[j]))
            && object_parsed(m[object_name(items[j])], items[j], concurrency, generate_display_trait)
}

/// Adding the object of table `n` extends what the first `n` tables configure.
proof fn lemma_parsed_prefix_step(
    m: Map<Seq<char>, GObject>,
    items: Seq<TomlValue>,
    n: int,
    o: GObject,
    concurrency: Concurrency,
    generate_display_trait: bool,
)
    requires
        0 <= n < items.len(),
        parsed_prefix(m, items, n, concurrency, generate_display_trait),
        object_parsed(o, items[n], concurrency, generate_display_trait),
    ensures
        parsed_prefix(
            m.insert(object_name(items[n]), o),
            items,
            n + 1,
            concurrency,
            generate_display_trait,
        ),
{
    reveal(parsed_prefix);
    let m2 = m.insert(object_name(items[n]), o);
    assert forall|k: Seq<char>|
        #[trigger] m2.contains_key(k) <==> exists|j: int|
            0 <= j < n + 1 && object_name(#[trigger] items[j]) == k by {
        if exists|j: int| 0 <= j < n + 1 && object_name(#[trigger] items[j]) == k {
            let j = choose|j: int| 0 <= j < n + 1 && object_name(#[trigger] items[j]) == k;
            if j < n {
                assert(m.contains_key(k));
            }
        }
        if m2.contains_key(k) {
            if k != object_name(items[n]) {
                assert(m.contains_key(k));
                let j = choose|j: int| 0 <= j < n && object_name(#[trigger] items[j]) == k;
                assert(0 <= j < n + 1 && object_name(items[j]) == k);
            } else {
                assert(0 <= n < n + 1 && object_name(items[n]) == k);
            }
        }
    }
    assert forall|j: int|
        0 <= j < n + 1 && #[trigger] last_named(items, j, n + 1) implies m2.contains_key(
            object_name(items[j]),
        ) && object_parsed(m2[object_name(items[j])], items[j], concurrency, generate_display_trait) by {
        if j < n {
            assert(object_name(items[n]) != object_name(items[j]));
            assert(last_named(items, j, n));
        }
    }
}

/// Reads the objects of a configuration, an array of object tables; where
/// two tables name the same object, the later one counts.
pub fn parse_toml(
    toml_objects: &TomlValue,
    concurrency: Concurrency,
    generate_display_trait: bool,
) -> (r: GObjects)
    requires
        *toml_objects is Array,
        forall|i: int|
            0 <= i < array_items(*toml_objects).len() ==> object_requires(
                #[trigger] array_items(*toml_objects)[i],
            ),
    ensures
        parsed_prefix(
            r@,
            array_items(*toml_objects),
            array_items(*toml_objects).len() as int,
            concurrency,
            generate_display_trait,
        ),
{
    let ghost items = array_items(*toml_objects);
    let mut objects: GObjects = NameMap::new();
    let toml_array = toml_objects.as_array().unwrap();
    let n = toml_array.len();
    let mut i: usize = 0;
    proof {
        reveal(parsed_prefix);
    }
    while i < n
        invariant
            n == items.len(),
            items == toml_array@,
            i <= n,
            forall|j: int| 0 <= j < items.len() ==> object_requires(#[trigger] items[j]),
            parsed_prefix(objects@, items, i as int, concurrency, generate_display_trait),
        decreases n - i,
    {
        let gobject = parse_object(&toml_array[i], concurrency, generate_display_trait);
        proof {
            lemma_parsed_prefix_step(
                objects@,
                items,
                i as int,
                gobject,
                concurrency,
                generate_display_trait,
            );
        }
        objects.insert(gobject.name.clone(), gobject);
        i += 1;
    }
    objects
}

/// The key under `options` that lists the objects of a status.
pub open spec fn status_key(status: GStatus) -> Seq<char> {
    match status {
        GStatus::Manual => "manual"@,
        GStatus::Generate => "generate"@,
        GStatus::Comment => "comment"@,
        GStatus::Ignore => "ignore"@,
    }
}

/// The key under `options` that lists the objects of a status.
fn status_key_str(status: GStatus) -> (r: &'static str)
    ensures
        r@ == status_key(status),
{
    match status {
        GStatus::Manual => "manual",
        GStatus::Generate => "generate",
        GStatus::Comment => "comment",
        GStatus::Ignore => "ignore",
    }
}

/// The value listing the objects of a status, `options.<status>`, if there is one.
pub open spec fn shorthand_value(toml: TomlValue, status: GStatus) -> Option<TomlValue> {
    match spec_lookup(toml, "options"@) {
        Some(options) => spec_lookup(options, status_key(status)),
        None => None,
    }
}

/// What `parse_status_shorthand` needs: the list, where there is one, is an array of strings.
pub open spec fn shorthand_requires(toml: TomlValue, status: GStatus) -> bool {
    shorthand_value(toml, status) matches Some(v) ==> {
        &&& v is Array
        &&& forall|i: int|
            0 <= i < array_items(v).len() ==> spec_as_str(#[trigger] array_items(v)[i]) is Some
    }
}

/// The names that the configuration lists under `options.<status>`.
pub open spec fn shorthand_names(toml: TomlValue, status: GStatus) -> Seq<Seq<char>> {
    match shorthand_value(toml, status) {
        Some(v) => array_items(v).map_values(|x: TomlValue| spec_as_str(x)->0),
        None => Seq::empty(),
    }
}

/// Adds the objects that the configuration lists under `options.<status>`,
/// each with that status and every other option at its default.
pub fn parse_status_shorthand(
    objects: &mut GObjects,
    status: GStatus,
    toml: &TomlValue,
    concurrency: Concurrency,
    generate_display_trait: bool,
)
    requires
        shorthand_requires(*toml, status),
        shorthand_names(*toml, status).no_duplicates(),
        forall|i: int|
            0 <= i < shorthand_names(*toml, status).len() ==> !old(objects)@.contains_key(
                #[trigger] shorthand_names(*toml, status)[i],
            ),
    ensures
        forall|k: Seq<char>|
            #[trigger] final(objects)@.contains_key(k) <==> (old(objects)@.contains_key(k)
                || shorthand_names(*toml, status).contains(k)),
        forall|k: Seq<char>|
            #[trigger] old(objects)@.contains_key(k) ==> final(objects)@[k] == old(objects)@[k],
        forall|i: int|
            0 <= i < shorthand_names(*toml, status).len() ==> plain_object(
                final(objects)@[#[trigger] shorthand_names(*toml, status)[i]],
                shorthand_names(*toml, status)[i],
                status,
                concurrency,
                generate_display_trait,
            ),
{
    let ghost names = shorthand_names(*toml, status);
    let key = status_key_str(status);
    let list = match toml.lookup("options") {
        Some(options) => options.lookup(key),
        None => None,
    };
    match list {
        None => {
            assert(names =~= Seq::<Seq<char>>::empty());
        },
        Some(a) => {
            let a = a.as_array().unwrap();
            let n = a.len();
            let mut i: usize = 0;
            while i < n
                invariant
                    n == a@.len(),
                    names == a@.map_values(|x: TomlValue| spec_as_str(x)->0),
                    forall|j: int| 0 <= j < n ==> spec_as_str(#[trigger] a@[j]) is Some,
                    names.no_duplicates(),
                    forall|j: int| 0 <= j < names.len() ==> !old(objects)@.contains_key(
                        #[trigger] names[j],
                    ),
                    i <= n,
                    forall|k: Seq<char>|
                        #[trigger] objects@.contains_key(k) <==> (old(objects)@.contains_key(k)
                            || names.take(i as int).contains(k)),
                    forall|k: Seq<char>|
                        #[trigger] old(objects)@.contains_key(k) ==> objects@[k] == old(
                            objects,
                        )@[k],
                    forall|j: int|
                        0 <= j < i ==> plain_object(
                            objects@[#[trigger] names[j]],
                            names[j],
                            status,
                            concurrency,
                            generate_display_trait,
                        ),
                decreases n - i,
            {
                let name_ = a[i].as_str().unwrap();
                assert(names[i as int] == name_@);
                assert(!objects@.contains_key(name_@)) by {
                    if names.take(i as int).contains(name_@) {
                        let j = choose|j: int| 0 <= j < names.take(i as int).len() && #[trigger] names.take(i as int)[j] == name_@;
                        assert(names[j] == names[i as int]);
                    }
                }
                let mut gobject = GObject::default();
                gobject.name = name_.to_owned();
                gobject.status = status;
                gobject.concurrency = concurrency;
                gobject.generate_display_trait = generate_display_trait;
                let ghost before = objects@;
                objects.insert(name_.to_owned(), gobject);
                proof {
                    assert forall|j: int| 0 <= j < i implies names[j] != name_@ by {
                        assert(names[j] != names[i as int]);
                    }
                    assert forall|k: Seq<char>|
                        #[trigger] objects@.contains_key(k) <==> (old(objects)@.contains_key(k)
                            || names.take(i + 1).contains(k)) by {
                        if names.take(i + 1).contains(k) {
                            let j = choose|j: int| 0 <= j < names.take(i + 1).len() && #[trigger] names.take(i + 1)[j] == k;
                            if j < i {
                                assert(names.take(i as int)[j] == k);
                            }
                        }
                        if k == name_@ {
                            assert(names.take(i + 1)[i as int] == k);
                        } else if before.contains_key(k) && !old(objects)@.contains_key(k) {
                            let j = choose|j: int| 0 <= j < names.take(i as int).len() && #[trigger] names.take(i as int)[j] == k;
                            assert(names.take(i + 1)[j] == k);
                        }
                    }
                }
                i += 1;
            }
            assert(names.take(n as int) =~= names);
        },
    }
}

/// Whether every name that the configuration lists under `options` occurs
/// once there, for one status only, and is not yet among `objects`.
pub open spec fn shorthands_fresh(toml: TomlValue, objects: Map<Seq<char>, GObject>) -> bool {
    &&& forall|s1: GStatus, s2: GStatus, i: int, j: int|
        0 <= i < shorthand_names(toml, s1).len() && 0 <= j < shorthand_names(toml, s2).len()
            && (s1 != s2 || i != j) ==> #[trigger] shorthand_names(toml, s1)[i]
            != #[trigger] shorthand_names(toml, s2)[j]
    &&& forall|s: GStatus, i: int|
        0 <= i < shorthand_names(toml, s).len() ==> !objects.contains_key(
            #[trigger] shorthand_names(toml, s)[i],
        )
}

/// Whether `toml` lists `k` under `options.<s>` for one of the statuses `done`.
pub open spec fn listed(toml: TomlValue, k: Seq<char>, done: Set<GStatus>) -> bool {
    exists|s: GStatus| done.contains(s) && #[trigger] shorthand_names(toml, s).contains(k)
}

/// `m` is `m0` with the objects listed for the statuses `done` added.
#[verifier::opaque]
pub open spec fn shorthands_added(
    m0: Map<Seq<char>, GObject>,
    m: Map<Seq<char>, GObject>,
    toml: TomlValue,
    done: Set<GStatus>,
    concurrency: Concurrency,
    generate_display_trait: bool,
) -> bool {
    &&& forall|k: Seq<char>|
        #[trigger] m.contains_key(k) <==> (m0.contains_key(k) || listed(toml, k, done))
    &&& forall|k: Seq<char>| #[trigger] m0.contains_key(k) ==> m[k] == m0[k]
    &&& forall|s: GStatus, i: int|
        done.contains(s) && 0 <= i < shorthand_names(toml, s).len() ==> plain_object(
            m[#[trigger] shorthand_names(toml, s)[i]],
            shorthand_names(toml, s)[i],
            s,
            concurrency,
            generate_display_trait,
        )
}

/// Before the objects of status `s` are added, none of them is there yet.
proof fn lemma_shorthand_ready(
    toml: TomlValue,
    m0: Map<Seq<char>, GObject>,
    m: Map<Seq<char>, GObject>,
    done: Set<GStatus>,
    s: GStatus,
    concurrency: Concurrency,
    generate_display_trait: bool,
)
    requires
        shorthands_fresh(toml, m0),
        shorthands_added(m0, m, toml, done, concurrency, generate_display_trait),
        !done.contains(s),
    ensures
        shorthand_names(toml, s).no_duplicates(),
        forall|i: int|
            0 <= i < shorthand_names(toml, s).len() ==> !m.contains_key(
                #[trigger] shorthand_names(toml, s)[i],
            ),
{
    reveal(shorthands_added);
    let names = shorthand_names(toml, s);
    assert forall|i: int, j: int|
        0 <= i < names.len() && 0 <= j < names.len() && i != j implies names[i] != names[j] by {
        assert(shorthand_names(toml, s)[i] != shorthand_names(toml, s)[j]);
    }
    assert forall|i: int| 0 <= i < names.len() implies !m.contains_key(#[trigger] names[i]) by {
        let k = names[i];
        assert(!m0.contains_key(shorthand_names(toml, s)[i]));
        if m.contains_key(k) {
            assert(listed(toml, k, done));
            let s2 = choose|s2: GStatus|
                done.contains(s2) && #[trigger] shorthand_names(toml, s2).contains(k);
            let j = choose|j: int|
                0 <= j < shorthand_names(toml, s2).len() && shorthand_names(toml, s2)[j] == k;
            assert(shorthand_names(toml, s2)[j] != shorthand_names(toml, s)[i]);
        }
    }
}

/// Adding the objects of status `s` extends what has been added.
proof fn lemma_shorthand_added(
    toml: TomlValue,
    m0: Map<Seq<char>, GObject>,
    m: Map<Seq<char>, GObject>,
    m2: Map<Seq<char>, GObject>,
    done: Set<GStatus>,
    s: GStatus,
    concurrency: Concurrency,
    generate_display_trait: bool,
)
    requires
        shorthands_added(m0, m, toml, done, concurrency, generate_display_trait),
        forall|k: Seq<char>|
            #[trigger] m2.contains_key(k) <==> (m.contains_key(k) || shorthand_names(
                toml,
                s,
            ).contains(k)),
        forall|k: Seq<char>| #[trigger] m.contains_key(k) ==> m2[k] == m[k],
        forall|i: int|
            0 <= i < shorthand_names(toml, s).len() ==> plain_object(
                m2[#[trigger] shorthand_names(toml, s)[i]],
                shorthand_names(toml, s)[i],
                s,
                concurrency,
                generate_display_trait,
            ),
    ensures
        shorthands_added(m0, m2, toml, done.insert(s), concurrency, generate_display_trait),
{
    reveal(shorthands_added);
    let d2 = done.insert(s);
    assert forall|k: Seq<char>|
        #[trigger] m2.contains_key(k) <==> (m0.contains_key(k) || listed(toml, k, d2)) by {
        if shorthand_names(toml, s).contains(k) {
            assert(d2.contains(s));
        }
        if listed(toml, k, d2) {
            let s2 = choose|s2: GStatus|
                d2.contains(s2) && #[trigger] shorthand_names(toml, s2).contains(k);
            if s2 != s {
                assert(listed(toml, k, done));
            }
        }
        if listed(toml, k, done) {
            let s2 = choose|s2: GStatus|
                done.contains(s2) && #[trigger] shorthand_names(toml, s2).contains(k);
            assert(d2.contains(s2));
        }
    }
    assert forall|s1: GStatus, i: int|
        d2.contains(s1) && 0 <= i < shorthand_names(toml, s1).len() implies plain_object(
        m2[#[trigger] shorthand_names(toml, s1)[i]],
        shorthand_names(toml, s1)[i],
        s1,
        concurrency,
        generate_display_trait,
    ) by {
        if s1 != s {
            let k = shorthand_names(toml, s1)[i];
            assert(shorthand_names(toml, s1).contains(k));
            assert(listed(toml, k, done));
            assert(m.contains_key(k));
        }
    }
    assert forall|k: Seq<char>| #[trigger] m0.contains_key(k) implies m2[k] == m0[k] by {
        assert(m.contains_key(k));
    }
}

/// Adds the objects that the configuration lists under `options.manual`,
/// `options.generate`, `options.comment` and `options.ignore`.
pub fn parse_status_shorthands(
    objects: &mut GObjects,
    toml: &TomlValue,
    concurrency: Concurrency,
    generate_display_trait: bool,
)
    requires
        forall|s: GStatus| #[trigger] shorthand_requires(*toml, s),
        shorthands_fresh(*toml, old(objects)@),
    ensures
        shorthands_added(
            old(objects)@,
            final(objects)@,
            *toml,
            Set::<GStatus>::full(),
            concurrency,
            generate_display_trait,
        ),
{
    let ghost t = *toml;
    let ghost m0 = objects@;
    let ghost done = Set::<GStatus>::empty();
    proof {
        reveal(shorthands_added);
        assert forall|k: Seq<char>| !listed(t, k, done) by {}
    }
    let ghost m = objects@;
    proof {
        lemma_shorthand_ready(t, m0, m, done, GStatus::Manual, concurrency, generate_display_trait);
    }
    parse_status_shorthand(objects, GStatus::Manual, toml, concurrency, generate_display_trait);
    proof {
        lemma_shorthand_added(t, m0, m, objects@, done, GStatus::Manual, concurrency, generate_display_trait);
    }
    let ghost done = done.insert(GStatus::Manual);
    let ghost m = objects@;
    proof {
        lemma_shorthand_ready(t, m0, m, done, GStatus::Generate, concurrency, generate_display_trait);
    }
    parse_status_shorthand(objects, GStatus::Generate, toml, concurrency, generate_display_trait);
    proof {
        lemma_shorthand_added(t, m0, m, objects@, done, GStatus::Generate, concurrency, generate_display_trait);
    }
    let ghost done = done.insert(GStatus::Generate);
    let ghost m = objects@;
    proof {
        lemma_shorthand_ready(t, m0, m, done, GStatus::Comment, concurrency, generate_display_trait);
    }
    parse_status_shorthand(objects, GStatus::Comment, toml, concurrency, generate_display_trait);
    proof {
        lemma_shorthand_added(t, m0, m, objects@, done, GStatus::Comment, concurrency, generate_display_trait);
    }
    let ghost done = done.insert(GStatus::Comment);
    let ghost m = objects@;
    proof {
        lemma_shorthand_ready(t, m0, m, done, GStatus::Ignore, concurrency, generate_display_trait);
    }
    parse_status_shorthand(objects, GStatus::Ignore, toml, concurrency, generate_display_trait);
    proof {
        lemma_shorthand_added(t, m0, m, objects@, done, GStatus::Ignore, concurrency, generate_display_trait);
        let all = done.insert(GStatus::Ignore);
        assert(all =~= Set::<GStatus>::full()) by {
            assert forall|s: GStatus| #[trigger] all.contains(s) by {
                match s {
                    GStatus::Manual => {},
                    GStatus::Generate => {},
                    GStatus::Comment => {},
                    GStatus::Ignore => {},
                }
            }
        }
    }
}

/// `o` with its type id replaced by `type_id`.
pub open spec fn with_type_id(o: GObject, type_id: Option<TypeId>) -> GObject {
    GObject { type_id, ..o }
}

/// Records for each configured object the type of the library that its name
/// refers to, if there is one.
pub fn resolve_type_ids(objects: &mut GObjects, library: &Library)
    requires
        library.wf(),
        MAIN_NAMESPACE < library.namespaces@.len(),
    ensures
        final(objects)@.dom() == old(objects)@.dom(),
        forall|k: Seq<char>|
            #[trigger] old(objects)@.contains_key(k) ==> final(objects)@[k] == with_type_id(
                old(objects)@[k],
                library.spec_find_type(INTERNAL_NAMESPACE as int, k),
            ),
{
    let mut taken: GObjects = NameMap::new();
    std::mem::swap(&mut taken, objects);
    let ghost old_map = taken@;
    let mut rest = taken.into_entries();
    let ghost s = rest@;
    let mut out: Vec<(String, GObject)> = Vec::new();
    assert(s.skip(0) =~= s);
    while rest.len() > 0
        invariant
            library.wf(),
            MAIN_NAMESPACE < library.namespaces@.len(),
            out@.len() + rest@.len() == s.len(),
            rest@ == s.skip(out@.len() as int),
            forall|j: int|
                0 <= j < out@.len() ==> (#[trigger] out@[j]).0 == s[j].0 && out@[j].1
                    == with_type_id(
                    s[j].1,
                    library.spec_find_type(INTERNAL_NAMESPACE as int, s[j].0@),
                ),
        decreases rest@.len(),
    {
        let ghost before = rest@;
        let (name, mut object) = rest.remove(0);
        assert(rest@ =~= s.skip(out@.len() as int + 1));
        object.type_id = library.find_type(INTERNAL_NAMESPACE, name.as_str());
        out.push((name, object));
    }
    let ghost t = out@;
    proof {
        assert forall|a: int, b: int| 0 <= a < b < t.len() implies #[trigger] seq_lt(
            t[a].0@,
            t[b].0@,
        ) by {
            assert(t[a].0 == s[a].0);
            assert(t[b].0 == s[b].0);
            assert(seq_lt(s[a].0@, s[b].0@));
        }
        assert(keys_increasing(t));
        assert forall|k: Seq<char>| #[trigger] map_of(t).contains_key(k) <==> map_of(
            s,
        ).contains_key(k) by {
            if has_key(t, k) {
                let j = choose|j: int| 0 <= j < t.len() && #[trigger] t[j].0@ == k;
                assert(t[j].0 == s[j].0);
                assert(s[j].0@ == k);
            }
            if has_key(s, k) {
                let j = choose|j: int| 0 <= j < s.len() && #[trigger] s[j].0@ == k;
                assert(t[j].0 == s[j].0);
                assert(t[j].0@ == k);
            }
        }
        assert(map_of(t).dom() =~= map_of(s).dom());
        assert forall|k: Seq<char>| #[trigger] map_of(s).contains_key(k) implies map_of(t)[k]
            == with_type_id(
            map_of(s)[k],
            library.spec_find_type(INTERNAL_NAMESPACE as int, k),
        ) by {
            let j = choose|j: int| 0 <= j < s.len() && #[trigger] s[j].0@ == k;
            assert(t[j].0 == s[j].0);
            lemma_map_of_index(s, j);
            lemma_map_of_index(t, j);
        }
    }
    *objects = NameMap::from_entries(out);
}

} // verus!
