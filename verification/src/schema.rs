use vstd::prelude::*;

verus! {

/// The primitive kinds a `Type` form can ask for.
#[derive(Debug, Clone, Copy, PartialEq, Eq, Structural)]
pub enum PrimType {
    Boolean,
    Int8,
    Uint8,
    Int16,
    Uint16,
    Int32,
    Uint32,
    Float32,
    Float64,
    Str,
    Timestamp,
}

/// A JDDF schema node. A node is nothing but its form, a closed union with
/// one variant per structural shape a conforming value may take.
///
/// Name-to-schema mappings are carried as key/schema lists; well-formedness
/// ([`Schema::wf`]) asks for the key sets a compiled schema guarantees:
/// distinct keys, required and optional disjoint, a non-empty enum, and a
/// discriminator whose every arm is an object form that leaves the tag
/// property alone.
#[derive(Debug, PartialEq)]
pub enum Schema {
    /// Any value at all is acceptable.
    Empty,
    /// A value of one primitive kind.
    Type(PrimType),
    /// One of a fixed, non-empty set of strings.
    Enum(Vec<String>),
    /// An array whose every element satisfies the nested schema.
    Elements(Box<Schema>),
    /// An object with the given required and optional members; further
    /// members are allowed only when `additional` is set.
    Properties {
        required: Vec<(String, Schema)>,
        optional: Vec<(String, Schema)>,
        additional: bool,
    },
    /// An object whose every member value satisfies the nested schema,
    /// under arbitrary keys.
    Values(Box<Schema>),
    /// A tagged union: the member named `tag` selects, by its string value,
    /// the object schema the rest of the value must satisfy.
    Discriminator { tag: String, mapping: Vec<(String, Schema)> },
}

/// Whether some entry of a key/schema list carries the key `k`.
pub open spec fn entries_have_key(entries: Seq<(String, Schema)>, k: Seq<char>) -> bool {
    exists|i: int| 0 <= i < entries.len() && #[trigger] entries[i].0@ == k
}

/// Whether the keys of a key/schema list are pairwise distinct.
pub open spec fn entries_distinct(entries: Seq<(String, Schema)>) -> bool {
    forall|i: int, j: int|
        0 <= i < j < entries.len() ==> #[trigger] entries[i].0@ != #[trigger] entries[j].0@
}

/// Whether an object-shaped schema declares `k` among its required or
/// optional member names.
pub open spec fn props_declare(s: Schema, k: Seq<char>) -> bool {
    s matches Schema::Properties { required, optional, .. } && (entries_have_key(required@, k)
        || entries_have_key(optional@, k))
}

impl Schema {
    /// Well-formedness: the structural invariants a compiled JDDF schema
    /// guarantees of its tree, which the generator takes as given.
    pub open spec fn wf(self) -> bool
        decreases self,
    {
        match self {
            Schema::Empty => true,
            Schema::Type(_) => true,
            Schema::Enum(vals) => vals@.len() >= 1 && (forall|i: int, j: int|
                0 <= i < j < vals@.len() ==> #[trigger] vals@[i]@ != #[trigger] vals@[j]@),
            Schema::Elements(sub) => sub.wf(),
            Schema::Properties { required, optional, .. } => {
                &&& entries_distinct(required@)
                &&& entries_distinct(optional@)
                &&& forall|i: int, j: int|
                    0 <= i < required@.len() && 0 <= j < optional@.len()
                        ==> #[trigger] required@[i].0@ != #[trigger] optional@[j].0@
                &&& forall|i: int| 0 <= i < required@.len() ==> (#[trigger] required@[i].1).wf()
                &&& forall|i: int| 0 <= i < optional@.len() ==> (#[trigger] optional@[i].1).wf()
            },
            Schema::Values(sub) => sub.wf(),
            Schema::Discriminator { tag, mapping } => {
                &&& mapping@.len() >= 1
                &&& entries_distinct(mapping@)
                &&& forall|i: int|
                    0 <= i < mapping@.len() ==> {
                        &&& (#[trigger] mapping@[i].1).wf()
                        &&& mapping@[i].1 is Properties
                        &&& !props_declare(mapping@[i].1, tag@)
                    }
            },
        }
    }

    /// Whether no form of this tree allows undeclared object members: no
    /// `Properties` node has its `additional` flag set.
    pub open spec fn additional_free(self) -> bool
        decreases self,
    {
        match self {
            Schema::Empty => true,
            Schema::Type(_) => true,
            Schema::Enum(_) => true,
            Schema::Elements(sub) => sub.additional_free(),
            Schema::Properties { required, optional, additional } => {
                &&& !additional
                &&& forall|i: int|
                    0 <= i < required@.len() ==> (#[trigger] required@[i].1).additional_free()
                &&& forall|i: int|
                    0 <= i < optional@.len() ==> (#[trigger] optional@[i].1).additional_free()
            },
            Schema::Values(sub) => sub.additional_free(),
            Schema::Discriminator { mapping, .. } => forall|i: int|
                0 <= i < mapping@.len() ==> (#[trigger] mapping@[i].1).additional_free(),
        }
    }
}

} // verus!
