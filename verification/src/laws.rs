use vstd::prelude::*;

use crate::conformance::conforms;
use crate::conformance::obj_conforms;
use crate::generator::add_part;
use crate::generator::gen_ok;
use crate::generator::gen_ok_obj;
use crate::generator::opt_part;
use crate::generator::req_part;
use crate::schema::entries_distinct;
use crate::schema::entries_have_key;
use crate::schema::props_declare;
use crate::schema::Schema;
use crate::value::lemma_obj_map_at_unique;
use crate::value::lemma_obj_map_member_at;
use crate::value::obj_map;
use crate::value::Value;

verus! {

/// Each member of an optional segment realises some optional entry: the
/// same key, with a value drawn from that entry's schema.
proof fn lemma_opt_part_member(b: Seq<(String, Value)>, opt: Seq<(String, Schema)>, j: int)
    requires
        opt_part(b, opt),
        0 <= j < b.len(),
    ensures
        exists|i: int|
            0 <= i < opt.len() && b[j].0@ == (#[trigger] opt[i]).0@ && gen_ok(b[j].1, opt[i].1),
    decreases opt.len(),
{
    let opt1 = opt.subrange(0, opt.len() - 1);
    if opt_part(b, opt1) {
        lemma_opt_part_member(b, opt1, j);
        let i = choose|i: int|
            0 <= i < opt1.len() && b[j].0@ == (#[trigger] opt1[i]).0@ && gen_ok(b[j].1, opt1[i].1);
        assert(opt[i] == opt1[i]);
        assert(b[j].0@ == (opt[i]).0@ && gen_ok(b[j].1, opt[i].1));
    } else {
        if j < b.len() - 1 {
            let b1 = b.subrange(0, b.len() - 1);
            lemma_opt_part_member(b1, opt1, j);
            let i = choose|i: int|
                0 <= i < opt1.len() && b1[j].0@ == (#[trigger] opt1[i]).0@ && gen_ok(
                    b1[j].1,
                    opt1[i].1,
                );
            assert(b[j] == b1[j]);
            assert(opt[i] == opt1[i]);
            assert(b[j].0@ == (opt[i]).0@ && gen_ok(b[j].1, opt[i].1));
        } else {
            assert(b[j].0@ == (opt[opt.len() - 1]).0@ && gen_ok(b[j].1, opt[opt.len() - 1].1));
        }
    }
}

/// Two members of an optional segment drawn against distinct optional names
/// carry distinct keys: the segment picks a subset of the names, in order.
proof fn lemma_opt_part_distinct_at(
    b: Seq<(String, Value)>,
    opt: Seq<(String, Schema)>,
    i: int,
    j: int,
)
    requires
        opt_part(b, opt),
        entries_distinct(opt),
        0 <= i < j < b.len(),
    ensures
        b[i].0@ != b[j].0@,
    decreases opt.len(),
{
    let opt1 = opt.subrange(0, opt.len() - 1);
    assert forall|x: int, y: int| 0 <= x < y < opt1.len() implies (#[trigger] opt1[x]).0@ != (
    #[trigger] opt1[y]).0@ by {
        assert(opt1[x] == opt[x] && opt1[y] == opt[y]);
    }
    if opt_part(b, opt1) {
        lemma_opt_part_distinct_at(b, opt1, i, j);
    } else {
        let b1 = b.subrange(0, b.len() - 1);
        if j < b.len() - 1 {
            lemma_opt_part_distinct_at(b1, opt1, i, j);
            assert(b1[i] == b[i] && b1[j] == b[j]);
        } else {
            assert(b1[i] == b[i]);
            lemma_opt_part_member(b1, opt1, i);
            let ii = choose|ii: int|
                0 <= ii < opt1.len() && b1[i].0@ == (#[trigger] opt1[ii]).0@ && gen_ok(
                    b1[i].1,
                    opt1[ii].1,
                );
            assert(opt1[ii] == opt[ii]);
            assert((opt[ii]).0@ != (opt[opt.len() - 1]).0@);
            assert(b[j].0@ == (opt[opt.len() - 1]).0@);
        }
    }
}

/// Removing a member name an object form does not declare keeps the object
/// conforming to that form.
proof fn lemma_obj_conforms_remove(m: Map<Seq<char>, Value>, s: Schema, k: Seq<char>)
    requires
        obj_conforms(m, s),
        !props_declare(s, k),
    ensures
        obj_conforms(m.remove(k), s),
{
    let required = s->Properties_required;
    let optional = s->Properties_optional;
    let m2 = m.remove(k);
    assert forall|i: int| 0 <= i < required@.len() implies m2.contains_key(
        (#[trigger] required@[i]).0@,
    ) && conforms(m2[required@[i].0@], required@[i].1) by {
        if required@[i].0@ == k {
            assert(entries_have_key(required@, k));
        }
        assert(m2[required@[i].0@] == m[required@[i].0@]);
    }
    assert forall|i: int|
        0 <= i < optional@.len() && m2.contains_key((#[trigger] optional@[i]).0@) implies conforms(
        m2[optional@[i].0@],
        optional@[i].1,
    ) by {
        assert(m.contains_key(optional@[i].0@));
        assert(m2[optional@[i].0@] == m[optional@[i].0@]);
    }
}

/// Soundness for one object (`Properties`) node: the member list the
/// generator builds, read as the map it denotes, meets everything the form
/// asks, when no segment of undeclared extra members was allowed.
proof fn lemma_obj_gen_conforms(pairs: Seq<(String, Value)>, s: Schema)
    requires
        s.wf(),
        s.additional_free(),
        s is Properties,
        gen_ok_obj(pairs, s),
    ensures
        obj_conforms(obj_map(pairs), s),
    decreases s, 0nat,
{
    let required = s->Properties_required;
    let optional = s->Properties_optional;
    let (i, j) = choose|i: int, j: int|
        0 <= i <= j <= pairs.len() && req_part(#[trigger] pairs.subrange(0, i), required@)
            && opt_part(#[trigger] pairs.subrange(i, j), optional@) && add_part(
            pairs.subrange(j, pairs.len() as int),
            s->Properties_additional,
        );
    assert(pairs.subrange(j, pairs.len() as int).len() == 0);
    assert(j == pairs.len());
    let a = pairs.subrange(0, i);
    let b = pairs.subrange(i, pairs.len() as int);
    let m = obj_map(pairs);

    assert forall|i1: int, j1: int| 0 <= i1 < j1 < pairs.len() implies (#[trigger] pairs[i1]).0@
        != (#[trigger] pairs[j1]).0@ by {
        if j1 < i {
            assert(a[i1] == pairs[i1] && a[j1] == pairs[j1]);
            assert(pairs[i1].0@ == (required@[i1]).0@ && pairs[j1].0@ == (required@[j1]).0@);
        } else if i1 < i {
            assert(a[i1] == pairs[i1]);
            assert(b[j1 - i] == pairs[j1]);
            assert(pairs[i1].0@ == (required@[i1]).0@);
            lemma_opt_part_member(b, optional@, j1 - i);
            let ii = choose|ii: int|
                0 <= ii < optional@.len() && b[j1 - i].0@ == (#[trigger] optional@[ii]).0@
                    && gen_ok(b[j1 - i].1, optional@[ii].1);
            assert((required@[i1]).0@ != (optional@[ii]).0@);
        } else {
            assert(b[i1 - i] == pairs[i1] && b[j1 - i] == pairs[j1]);
            lemma_opt_part_distinct_at(b, optional@, i1 - i, j1 - i);
        }
    }

    assert forall|ii: int| 0 <= ii < required@.len() implies m.contains_key(
        (#[trigger] required@[ii]).0@,
    ) && conforms(m[required@[ii].0@], required@[ii].1) by {
        assert(a[ii] == pairs[ii]);
        assert(pairs[ii].0@ == (required@[ii]).0@);
        lemma_obj_map_at_unique(pairs, ii);
        lemma_generated_conforms(pairs[ii].1, required@[ii].1);
    }

    assert forall|ii: int|
        0 <= ii < optional@.len() && m.contains_key((#[trigger] optional@[ii]).0@) implies conforms(
        m[optional@[ii].0@],
        optional@[ii].1,
    ) by {
        let k = optional@[ii].0@;
        lemma_obj_map_member_at(pairs, k);
        let idx = choose|idx: int|
            0 <= idx < pairs.len() && (#[trigger] pairs[idx]).0@ == k && obj_map(pairs)[k]
                == pairs[idx].1;
        if idx < i {
            assert(a[idx] == pairs[idx]);
            assert(pairs[idx].0@ == (required@[idx]).0@);
            assert((required@[idx]).0@ != (optional@[ii]).0@);
            assert(false);
        }
        let jj = idx - i;
        assert(b[jj] == pairs[idx]);
        lemma_opt_part_member(b, optional@, jj);
        let ii2 = choose|ii2: int|
            0 <= ii2 < optional@.len() && b[jj].0@ == (#[trigger] optional@[ii2]).0@ && gen_ok(
                b[jj].1,
                optional@[ii2].1,
            );
        if ii2 != ii {
            assert((optional@[ii2]).0@ != (optional@[ii]).0@);
            assert(false);
        }
        lemma_generated_conforms(b[jj].1, optional@[ii].1);
    }

    assert forall|k: Seq<char>| #[trigger] m.contains_key(k) implies entries_have_key(required@, k)
        || entries_have_key(optional@, k) by {
        lemma_obj_map_member_at(pairs, k);
        let idx = choose|idx: int|
            0 <= idx < pairs.len() && (#[trigger] pairs[idx]).0@ == k && obj_map(pairs)[k]
                == pairs[idx].1;
        if idx < i {
            assert(a[idx] == pairs[idx]);
            assert((required@[idx]).0@ == k);
        } else {
            let jj = idx - i;
            assert(b[jj] == pairs[idx]);
            lemma_opt_part_member(b, optional@, jj);
            let ii2 = choose|ii2: int|
                0 <= ii2 < optional@.len() && b[jj].0@ == (#[trigger] optional@[ii2]).0@ && gen_ok(
                    b[jj].1,
                    optional@[ii2].1,
                );
            assert((optional@[ii2]).0@ == k);
        }
    }
}

/// Soundness of the generator: a value it can produce from a well-formed
/// schema conforms to that schema, provided no object form of the schema
/// allows additional members. (An allowed additional member may, by chance,
/// draw a declared name and overwrite that name's conforming value, so the
/// guarantee is stated for additional-free schemas.)
pub proof fn lemma_generated_conforms(v: Value, s: Schema)
    requires
        s.wf(),
        s.additional_free(),
        gen_ok(v, s),
    ensures
        conforms(v, s),
    decreases s, 1nat,
{
    match s {
        Schema::Empty => {},
        Schema::Type(_) => {},
        Schema::Enum(_) => {},
        Schema::Elements(sub) => {
            match v {
                Value::Arr(elems) => {
                    assert forall|ii: int| 0 <= ii < elems@.len() implies conforms(
                        #[trigger] elems@[ii],
                        *sub,
                    ) by {
                        lemma_generated_conforms(elems@[ii], *sub);
                    }
                },
                _ => {},
            }
        },
        Schema::Properties { .. } => {
            match v {
                Value::Obj(pairs) => {
                    lemma_obj_gen_conforms(pairs@, s);
                },
                _ => {},
            }
        },
        Schema::Values(sub) => {
            match v {
                Value::Obj(pairs) => {
                    assert forall|k: Seq<char>| #[trigger] obj_map(pairs@).contains_key(
                        k,
                    ) implies conforms(obj_map(pairs@)[k], *sub) by {
                        lemma_obj_map_member_at(pairs@, k);
                        let idx = choose|idx: int|
                            0 <= idx < pairs@.len() && (#[trigger] pairs@[idx]).0@ == k && obj_map(
                                pairs@,
                            )[k] == pairs@[idx].1;
                        lemma_generated_conforms(pairs@[idx].1, *sub);
                    }
                },
                _ => {},
            }
        },
        Schema::Discriminator { tag, mapping } => {
            match v {
                Value::Obj(pairs) => {
                    let last = pairs@[pairs@.len() - 1];
                    let q = pairs@.subrange(0, pairs@.len() - 1);
                    let i = choose|i: int|
                        0 <= i < mapping@.len() && (last.1 matches Value::Str(x) && x@ == (
                        #[trigger] mapping@[i]).0@) && gen_ok_obj(q, mapping@[i].1);
                    let m0 = obj_map(q);
                    let m = obj_map(pairs@);
                    assert(pairs@.drop_last() =~= q);
                    assert(m == m0.insert(last.0@, last.1));
                    assert(m.contains_key(tag@));
                    lemma_obj_gen_conforms(q, mapping@[i].1);
                    assert(m.remove(tag@) =~= m0.remove(tag@));
                    assert(!props_declare(mapping@[i].1, tag@));
                    lemma_obj_conforms_remove(m0, mapping@[i].1, tag@);
                    assert(m[tag@] == last.1);
                },
                _ => {},
            }
        },
    }
}

/// For a discriminator form, the produced object always binds the tag name
/// to the chosen mapping key: the tag member is written last, so it wins
/// over anything the selected arm may have put under that name.
pub proof fn lemma_discriminator_tag_wins(v: Value, s: Schema)
    requires
        s is Discriminator,
        gen_ok(v, s),
    ensures
        v is Obj,
        obj_map(v->Obj_0@).contains_key(s->Discriminator_tag@),
        exists|i: int|
            0 <= i < s->Discriminator_mapping@.len() && (obj_map(
                v->Obj_0@,
            )[s->Discriminator_tag@] matches Value::Str(x) && x@
                == (#[trigger] s->Discriminator_mapping@[i]).0@),
{
    match v {
        Value::Obj(pairs) => {
            let last = pairs@[pairs@.len() - 1];
            let q = pairs@.subrange(0, pairs@.len() - 1);
            let mapping = s->Discriminator_mapping;
            let i = choose|i: int|
                0 <= i < mapping@.len() && (last.1 matches Value::Str(x) && x@ == (
                #[trigger] mapping@[i]).0@) && gen_ok_obj(q, mapping@[i].1);
            assert(pairs@.drop_last() =~= q);
            assert(obj_map(pairs@) == obj_map(q).insert(last.0@, last.1));
            assert(obj_map(pairs@)[s->Discriminator_tag@] == last.1);
            assert((obj_map(v->Obj_0@)[s->Discriminator_tag@] matches Value::Str(x) && x@ == (
            #[trigger] mapping@[i]).0@));
        },
        _ => {},
    }
}

} // verus!
