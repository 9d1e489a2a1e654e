use vstd::prelude::*;

use crate::generator::timestamp_str;
use crate::schema::entries_have_key;
use crate::schema::PrimType;
use crate::schema::Schema;
use crate::value::obj_map;
use crate::value::Value;

verus! {

/// What JDDF asks of a value of one primitive kind. Strings are
/// unconstrained; a timestamp is modelled as the RFC 3339 UTC rendering of
/// some 32-bit second count, the image this crate's renderer draws from.
pub open spec fn prim_conforms(v: Value, t: PrimType) -> bool {
    match t {
        PrimType::Boolean => v is Bool,
        PrimType::Int8 => v matches Value::Int(n) && -128 <= n <= 127,
        PrimType::Uint8 => v matches Value::Int(n) && 0 <= n <= 255,
        PrimType::Int16 => v matches Value::Int(n) && -0x8000 <= n <= 0x7fff,
        PrimType::Uint16 => v matches Value::Int(n) && 0 <= n <= 0xffff,
        PrimType::Int32 => v matches Value::Int(n) && -0x8000_0000 <= n <= 0x7fff_ffff,
        PrimType::Uint32 => v matches Value::Int(n) && 0 <= n <= 0xffff_ffff,
        PrimType::Float32 => v is F32Bits,
        PrimType::Float64 => v is F64Bits,
        PrimType::Str => v is Str,
        PrimType::Timestamp => v matches Value::Str(s) && timestamp_str(s@),
    }
}

/// What an object (`Properties`) form asks of the map an object denotes:
/// every required name present and conforming, every optional name
/// conforming where present, and no undeclared name unless additional
/// members are allowed.
pub open spec fn obj_conforms(m: Map<Seq<char>, Value>, s: Schema) -> bool
    decreases s, 1nat,
{
    match s {
        Schema::Properties { required, optional, additional } => {
            &&& forall|i: int|
                0 <= i < required@.len() ==> m.contains_key((#[trigger] required@[i]).0@)
                    && conforms(m[required@[i].0@], required@[i].1)
            &&& forall|i: int|
                0 <= i < optional@.len() && m.contains_key((#[trigger] optional@[i]).0@)
                    ==> conforms(m[optional@[i].0@], optional@[i].1)
            &&& !additional ==> forall|k: Seq<char>|
                #[trigger] m.contains_key(k) ==> entries_have_key(required@, k)
                    || entries_have_key(optional@, k)
        },
        _ => false,
    }
}

/// Conformance of a value to a schema, form by form, per JDDF: the property
/// the generator's output is proved to have.
pub open spec fn conforms(v: Value, s: Schema) -> bool
    decreases s, 2nat,
{
    match s {
        Schema::Empty => true,
        Schema::Type(t) => prim_conforms(v, t),
        Schema::Enum(vals) => v matches Value::Str(x) && exists|i: int|
            0 <= i < vals@.len() && x@ == #[trigger] vals@[i]@,
        Schema::Elements(sub) => v matches Value::Arr(elems) && forall|i: int|
            0 <= i < elems@.len() ==> conforms(#[trigger] elems@[i], *sub),
        Schema::Properties { .. } => v matches Value::Obj(pairs) && obj_conforms(
            obj_map(pairs@),
            s,
        ),
        Schema::Values(sub) => v matches Value::Obj(pairs) && forall|k: Seq<char>|
            #[trigger] obj_map(pairs@).contains_key(k) ==> conforms(obj_map(pairs@)[k], *sub),
        Schema::Discriminator { tag, mapping } => v matches Value::Obj(pairs) && {
            let m = obj_map(pairs@);
            &&& m.contains_key(tag@)
            &&& exists|i: int|
                0 <= i < mapping@.len() && (m[tag@] matches Value::Str(x) && x@
                    == (#[trigger] mapping@[i]).0@) && obj_conforms(m.remove(tag@), mapping@[i].1)
        },
    }
}

} // verus!
