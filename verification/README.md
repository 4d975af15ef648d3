# gir analysis and configuration, verified

The parts of the GIR code generator that decide what a generated module
imports, how the namespaces of a GIR library are described, and how the
`[[object]]` configuration is read, written in Verus with their contracts.

- `src/imports.rs`: the use declarations of a generated module (`Imports`).
- `src/namespaces.rs`: the namespaces of a library as the code generator sees them.
- `src/gobjects.rs`: object configuration: statuses, options, shorthand lists, type ids.
- `src/name_map.rs`: a map kept sorted by name, with its proofs.
- `src/library.rs`, `src/toml_value.rs`, `src/version.rs`, `src/text.rs`,
  `src/nameutil.rs`: the library, configuration values, versions and strings
  that the above read.
- `app/lib.rs`: turns values of the `toml` crate into the library's configuration values.

What this crate does not hold:

- the sub-configurations of an object (functions, constants, signals,
  members, properties, derives, child properties): `GObject` carries the
  object's own options only;
- the derivation of a namespace's crate name from its GIR name: the library
  model is given the crate name of each namespace;
- the widget analysis, which needs class lookups, type kinds and parent
  analysis.
