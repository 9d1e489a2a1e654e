use vstd::prelude::*;

use crate::random::RandomSource;
use crate::schema::PrimType;
use crate::schema::Schema;
use crate::timefmt::format_rfc3339;
use crate::timefmt::rfc3339_utc;
use crate::value::Value;

verus! {

/// A string as the generator draws one: at most seven characters, each a
/// printable ASCII character.
pub open spec fn short_str(s: Seq<char>) -> bool {
    s.len() <= 7 && forall|i: int| 0 <= i < s.len() ==> 32 <= #[trigger] s[i] as u32 <= 126
}

/// A string that renders some 32-bit epoch second count in RFC 3339 UTC
/// form.
pub open spec fn timestamp_str(s: Seq<char>) -> bool {
    exists|secs: int| -0x8000_0000 <= secs < 0x8000_0000 && s == rfc3339_utc(secs)
}

/// The fixed repertoire an unconstrained ("empty" form) draw comes from:
/// null, a boolean, a byte-ranged integer, a 64-bit float, or a short
/// printable string.
pub open spec fn any_shape(v: Value) -> bool {
    ||| v is Null
    ||| v is Bool
    ||| v matches Value::Int(n) && 0 <= n <= 255
    ||| v is F64Bits
    ||| v matches Value::Str(s) && short_str(s@)
}

/// What a generated value of one primitive kind looks like.
pub open spec fn prim_ok(v: Value, t: PrimType) -> bool {
    match t {
        PrimType::Boolean => v is Bool,
        PrimType::Int8 => v matches Value::Int(n) && -128 <= n <= 127,
        PrimType::Uint8 => v matches Value::Int(n) && 0 <= n <= 255,
        PrimType::Int16 => v matches Value::Int(n) && -0x8000 <= n <= 0x7fff,
        PrimType::Uint16 => v matches Value::Int(n) && 0 <= n <= 0xffff,
        PrimType::Int32 => v matches Value::Int(n) && -0x8000_0000 <= n <= 0x7fff_ffff,
        PrimType::Uint32 => v matches Value::Int(n) && 0 <= n <= 0xffff_ffff,
        PrimType::Float32 => v is F32Bits,
        PrimType::Float64 => v is F64Bits,
        PrimType::Str => v matches Value::Str(s) && short_str(s@),
        PrimType::Timestamp => v matches Value::Str(s) && timestamp_str(s@),
    }
}

/// The members a generated object owes to the required names: one member
/// per required entry, in order, each value drawn from that entry's schema.
pub open spec fn req_part(a: Seq<(String, Value)>, req: Seq<(String, Schema)>) -> bool
    decreases req, 0nat,
{
    a.len() == req.len() && forall|i: int|
        0 <= i < a.len() ==> (#[trigger] a[i]).0@ == req[i].0@ && gen_ok(a[i].1, req[i].1)
}

/// The members a generated object carries for the optional names: those of
/// some subset of the optional entries, in order, each value drawn from its
/// entry's schema.
pub open spec fn opt_part(b: Seq<(String, Value)>, opt: Seq<(String, Schema)>) -> bool
    decreases opt, 0nat,
{
    if opt.len() == 0 {
        b.len() == 0
    } else {
        ||| opt_part(b, opt.subrange(0, opt.len() - 1))
        ||| (b.len() >= 1 && b[b.len() - 1].0@ == opt[opt.len() - 1].0@ && gen_ok(
            b[b.len() - 1].1,
            opt[opt.len() - 1].1,
        ) && opt_part(b.subrange(0, b.len() - 1), opt.subrange(0, opt.len() - 1)))
    }
}

/// The members a generated object may append beyond the declared names: none
/// unless the form allows additional members, else up to seven, each with a
/// short printable key and an unconstrained-draw value.
pub open spec fn add_part(c: Seq<(String, Value)>, additional: bool) -> bool {
    if additional {
        c.len() <= 7 && forall|i: int|
            0 <= i < c.len() ==> short_str((#[trigger] c[i]).0@) && any_shape(c[i].1)
    } else {
        c.len() == 0
    }
}

/// The member list a generated object of an object (`Properties`) form has:
/// the required members, then the chosen optional members, then any
/// additional members.
pub open spec fn gen_ok_obj(pairs: Seq<(String, Value)>, s: Schema) -> bool
    decreases s, 1nat,
{
    match s {
        Schema::Properties { required, optional, additional } => exists|i: int, j: int|
            0 <= i <= j <= pairs.len() && req_part(#[trigger] pairs.subrange(0, i), required@)
                && opt_part(#[trigger] pairs.subrange(i, j), optional@) && add_part(
                pairs.subrange(j, pairs.len() as int),
                additional,
            ),
        _ => false,
    }
}

/// Everything the generator promises of a value drawn from a schema: the
/// shape the form asks for, within the generator's own bounds on lengths
/// and counts.
pub open spec fn gen_ok(v: Value, s: Schema) -> bool
    decreases s, 2nat,
{
    match s {
        Schema::Empty => any_shape(v),
        Schema::Type(t) => prim_ok(v, t),
        Schema::Enum(vals) => v matches Value::Str(x) && exists|i: int|
            0 <= i < vals@.len() && x@ == #[trigger] vals@[i]@,
        Schema::Elements(sub) => v matches Value::Arr(elems) && elems@.len() <= 7 && forall|i: int|
            0 <= i < elems@.len() ==> gen_ok(#[trigger] elems@[i], *sub),
        Schema::Properties { .. } => v matches Value::Obj(pairs) && gen_ok_obj(pairs@, s),
        Schema::Values(sub) => v matches Value::Obj(pairs) && pairs@.len() <= 7 && forall|i: int|
            0 <= i < pairs@.len() ==> short_str((#[trigger] pairs@[i]).0@) && gen_ok(
                pairs@[i].1,
                *sub,
            ),
        Schema::Discriminator { tag, mapping } => v matches Value::Obj(pairs) && pairs@.len() >= 1
            && pairs@[pairs@.len() - 1].0@ == tag@ && exists|i: int|
            0 <= i < mapping@.len() && (pairs@[pairs@.len() - 1].1 matches Value::Str(x) && x@
                == #[trigger] mapping@[i].0@) && gen_ok_obj(
                pairs@.subrange(0, pairs@.len() - 1),
                mapping@[i].1,
            ),
    }
}

/// Packages the three segments of a generated object's member list into
/// [`gen_ok_obj`], supplying the two split points as witnesses.
proof fn lemma_gen_ok_obj_intro(pairs: Seq<(String, Value)>, s: Schema, i: int, j: int)
    requires
        s is Properties,
        0 <= i <= j <= pairs.len(),
        req_part(pairs.subrange(0, i), s->Properties_required@),
        opt_part(pairs.subrange(i, j), s->Properties_optional@),
        add_part(pairs.subrange(j, pairs.len() as int), s->Properties_additional),
    ensures
        gen_ok_obj(pairs, s),
{
}

/// Relies on String::push: appends exactly the one character.
#[verifier::external_body]
fn push_char(s: &mut String, c: char)
    ensures
        final(s)@ == old(s)@.push(c),
{
    s.push(c);
}

/// Draws a string of length up to seven whose characters are uniform over
/// printable ASCII.
pub fn generate_string(rng: &mut RandomSource) -> (r: String)
    ensures
        short_str(r@),
{
    let n = rng.next_below(8);
    let mut s = String::new();
    let mut i: usize = 0;
    while i < n
        invariant
            n <= 7,
            i <= n,
            s@.len() == i,
            forall|j: int| 0 <= j < s@.len() ==> 32 <= #[trigger] s@[j] as u32 <= 126,
        decreases n - i,
    {
        let d = rng.next_below(95);
        let b: u8 = (d as u8) + 32;
        push_char(&mut s, b as char);
        i += 1;
    }
    s
}

/// Draws one value of the unconstrained ("empty" form) repertoire, each of
/// the five shapes equally likely.
pub fn generate_any(rng: &mut RandomSource) -> (v: Value)
    ensures
        any_shape(v),
{
    let shape = rng.next_below(5);
    if shape == 0 {
        Value::Null
    } else if shape == 1 {
        Value::Bool(rng.next_bool())
    } else if shape == 2 {
        Value::Int(rng.next_u8() as i64)
    } else if shape == 3 {
        Value::F64Bits(rng.next_u64())
    } else {
        Value::Str(generate_string(rng))
    }
}

/// Draws one value of a primitive kind: booleans and integers uniform over
/// their whole range, floats uniform over their whole bit-pattern range,
/// strings short and printable, timestamps rendered from a uniform 32-bit
/// second count.
pub fn generate_prim(t: PrimType, rng: &mut RandomSource) -> (v: Value)
    ensures
        prim_ok(v, t),
{
    match t {
        PrimType::Boolean => Value::Bool(rng.next_bool()),
        PrimType::Int8 => {
            let raw = rng.next_u8();
            let x: i8 = #[verifier::truncate] (raw as i8);
            Value::Int(x as i64)
        },
        PrimType::Uint8 => Value::Int(rng.next_u8() as i64),
        PrimType::Int16 => {
            let raw = rng.next_u16();
            let x: i16 = #[verifier::truncate] (raw as i16);
            Value::Int(x as i64)
        },
        PrimType::Uint16 => Value::Int(rng.next_u16() as i64),
        PrimType::Int32 => {
            let raw = rng.next_u32();
            let x: i32 = #[verifier::truncate] (raw as i32);
            Value::Int(x as i64)
        },
        PrimType::Uint32 => Value::Int(rng.next_u32() as i64),
        PrimType::Float32 => Value::F32Bits(rng.next_u32()),
        PrimType::Float64 => Value::F64Bits(rng.next_u64()),
        PrimType::Str => Value::Str(generate_string(rng)),
        PrimType::Timestamp => {
            let raw = rng.next_u32();
            let secs: i32 = #[verifier::truncate] (raw as i32);
            let s = format_rfc3339(secs);
            proof {
                assert((-0x8000_0000 <= secs as int) && ((secs as int) < 0x8000_0000));
                assert(s@ == rfc3339_utc(secs as int));
            }
            Value::Str(s)
        },
    }
}

/// Draws one element of a non-empty enum form, each element equally likely.
pub fn generate_enum(vals: &Vec<String>, rng: &mut RandomSource) -> (v: Value)
    requires
        vals@.len() >= 1,
    ensures
        v matches Value::Str(x) && exists|i: int|
            0 <= i < vals@.len() && x@ == #[trigger] vals@[i]@,
{
    let i = rng.next_below(vals.len());
    let x = vals[i].clone();
    proof {
        assert(x@ == vals@[i as int]@);
    }
    Value::Str(x)
}

/// Draws one value whose shape the schema allows: the core recursive
/// procedure, dispatching on the node's form.
pub fn generate(s: &Schema, rng: &mut RandomSource) -> (v: Value)
    requires
        s.wf(),
    ensures
        gen_ok(v, *s),
    decreases *s, 1nat,
{
    match s {
        Schema::Empty => generate_any(rng),
        Schema::Type(t) => generate_prim(*t, rng),
        Schema::Enum(vals) => generate_enum(vals, rng),
        Schema::Elements(_) => generate_elements(s, rng),
        Schema::Properties { .. } => generate_props(s, rng),
        Schema::Values(_) => generate_values(s, rng),
        Schema::Discriminator { .. } => generate_discr(s, rng),
    }
}

/// Draws an array of up to seven elements, each drawn independently from
/// the nested schema.
#[verifier::loop_isolation(false)]
fn generate_elements(s: &Schema, rng: &mut RandomSource) -> (v: Value)
    requires
        s.wf(),
        s is Elements,
    ensures
        gen_ok(v, *s),
    decreases *s, 0nat,
{
    match s {
        Schema::Elements(sub) => {
            let n = rng.next_below(8);
            let mut elems: Vec<Value> = Vec::new();
            let mut i: usize = 0;
            while i < n
                invariant
                    i <= n,
                    elems@.len() == i,
                    forall|j: int| 0 <= j < elems@.len() ==> gen_ok(#[trigger] elems@[j], **sub),
                decreases n - i,
            {
                let e = generate(&**sub, rng);
                elems.push(e);
                i += 1;
            }
            Value::Arr(elems)
        },
        _ => vstd::pervasive::unreached(),
    }
}

/// Draws an object of up to seven members, each key a short printable
/// string, each value drawn independently from the nested schema.
#[verifier::loop_isolation(false)]
fn generate_values(s: &Schema, rng: &mut RandomSource) -> (v: Value)
    requires
        s.wf(),
        s is Values,
    ensures
        gen_ok(v, *s),
    decreases *s, 0nat,
{
    match s {
        Schema::Values(sub) => {
            let n = rng.next_below(8);
            let mut pairs: Vec<(String, Value)> = Vec::new();
            let mut i: usize = 0;
            while i < n
                invariant
                    i <= n,
                    pairs@.len() == i,
                    forall|j: int|
                        0 <= j < pairs@.len() ==> short_str((#[trigger] pairs@[j]).0@) && gen_ok(
                            pairs@[j].1,
                            **sub,
                        ),
                decreases n - i,
            {
                let k = generate_string(rng);
                let e = generate(&**sub, rng);
                pairs.push((k, e));
                i += 1;
            }
            Value::Obj(pairs)
        },
        _ => vstd::pervasive::unreached(),
    }
}

/// Draws an object of an object (`Properties`) form: a value for every
/// required name; each optional name included with probability one half;
/// and, where additional members are allowed, up to seven extra members
/// with short random keys and unconstrained-draw values appended last.
#[verifier::loop_isolation(false)]
fn generate_props(s: &Schema, rng: &mut RandomSource) -> (v: Value)
    requires
        s.wf(),
        s is Properties,
    ensures
        gen_ok(v, *s),
    decreases *s, 0nat,
{
    match s {
        Schema::Properties { required, optional, additional } => {
            let mut pairs: Vec<(String, Value)> = Vec::new();
            let mut idx: usize = 0;
            while idx < required.len()
                invariant
                    idx <= required.len(),
                    pairs@.len() == idx,
                    forall|j: int|
                        0 <= j < pairs@.len() ==> (#[trigger] pairs@[j]).0@ == required@[j].0@
                            && gen_ok(pairs@[j].1, required@[j].1),
                decreases required.len() - idx,
            {
                let val = generate(&required[idx].1, rng);
                pairs.push((required[idx].0.clone(), val));
                idx += 1;
            }
            let ghost nr = pairs@.len() as int;
            proof {
                assert(pairs@.subrange(0, nr) =~= pairs@);
                assert(req_part(pairs@.subrange(0, nr), required@));
                assert(pairs@.subrange(nr, nr) =~= Seq::<(String, Value)>::empty());
                assert(optional@.subrange(0, 0) =~= Seq::<(String, Schema)>::empty());
            }
            let mut jdx: usize = 0;
            while jdx < optional.len()
                invariant
                    jdx <= optional.len(),
                    nr <= pairs@.len(),
                    req_part(pairs@.subrange(0, nr), required@),
                    opt_part(
                        pairs@.subrange(nr, pairs@.len() as int),
                        optional@.subrange(0, jdx as int),
                    ),
                decreases optional.len() - jdx,
            {
                let ghost prev = pairs@;
                if rng.next_bool() {
                    let val = generate(&optional[jdx].1, rng);
                    pairs.push((optional[jdx].0.clone(), val));
                }
                proof {
                    let o2 = optional@.subrange(0, jdx + 1);
                    assert(o2.subrange(0, o2.len() - 1) =~= optional@.subrange(0, jdx as int));
                    assert(pairs@.subrange(0, nr) =~= prev.subrange(0, nr));
                    let b2 = pairs@.subrange(nr, pairs@.len() as int);
                    if pairs@.len() == prev.len() {
                        assert(b2 =~= prev.subrange(nr, prev.len() as int));
                    } else {
                        assert(b2.subrange(0, b2.len() - 1) =~= prev.subrange(
                            nr,
                            prev.len() as int,
                        ));
                        assert(b2[b2.len() - 1] == pairs@[pairs@.len() - 1]);
                    }
                    assert(opt_part(b2, o2));
                }
                jdx += 1;
            }
            let ghost no = pairs@.len() as int;
            proof {
                assert(optional@.subrange(0, optional@.len() as int) =~= optional@);
                assert(opt_part(pairs@.subrange(nr, no), optional@));
            }
            if *additional {
                let n = rng.next_below(8);
                let mut k: usize = 0;
                while k < n
                    invariant
                        k <= n,
                        no <= pairs@.len(),
                        pairs@.len() == no + k,
                        req_part(pairs@.subrange(0, nr), required@),
                        opt_part(pairs@.subrange(nr, no), optional@),
                        forall|j: int|
                            no <= j < pairs@.len() ==> short_str((#[trigger] pairs@[j]).0@)
                                && any_shape(pairs@[j].1),
                    decreases n - k,
                {
                    let ghost prev = pairs@;
                    let key = generate_string(rng);
                    let av = generate_any(rng);
                    pairs.push((key, av));
                    proof {
                        assert(pairs@.subrange(0, nr) =~= prev.subrange(0, nr));
                        assert(pairs@.subrange(nr, no) =~= prev.subrange(nr, no));
                    }
                    k += 1;
                }
            }
            proof {
                assert(0 <= nr <= no <= pairs@.len());
                assert(req_part(pairs@.subrange(0, nr), required@));
                assert(opt_part(pairs@.subrange(nr, no), optional@));
                assert(add_part(pairs@.subrange(no, pairs@.len() as int), *additional));
                assert(*s == Schema::Properties {
                    required: *required,
                    optional: *optional,
                    additional: *additional,
                });
                lemma_gen_ok_obj_intro(pairs@, *s, nr, no);
            }
            Value::Obj(pairs)
        },
        _ => vstd::pervasive::unreached(),
    }
}

/// Draws a value of a discriminator form: one arm of the mapping chosen
/// uniformly, an object drawn from that arm's schema, and the tag member
/// then written last, over whatever the draw may have put under that name.
fn generate_discr(s: &Schema, rng: &mut RandomSource) -> (v: Value)
    requires
        s.wf(),
        s is Discriminator,
    ensures
        gen_ok(v, *s),
    decreases *s, 0nat,
{
    match s {
        Schema::Discriminator { tag, mapping } => {
            let i = rng.next_below(mapping.len());
            proof {
                assert(mapping@[i as int].1.wf() && mapping@[i as int].1 is Properties);
            }
            let sub_v = generate(&mapping[i].1, rng);
            match sub_v {
                Value::Obj(pairs_in) => {
                    let mut pairs = pairs_in;
                    let ghost before = pairs@;
                    pairs.push((tag.clone(), Value::Str(mapping[i].0.clone())));
                    proof {
                        assert(pairs@.subrange(0, pairs@.len() - 1) =~= before);
                        assert(gen_ok_obj(before, mapping@[i as int].1));
                        assert(pairs@[pairs@.len() - 1].1 matches Value::Str(x) && x@ == mapping@[
                            i as int].0@);
                    }
                    Value::Obj(pairs)
                },
                _ => vstd::pervasive::unreached(),
            }
        },
        _ => vstd::pervasive::unreached(),
    }
}

} // verus!
