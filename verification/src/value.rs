use vstd::prelude::*;

verus! {

/// A JSON value, as this crate produces it.
///
/// Floating-point members are carried as their IEEE 754 bit patterns
/// (`F32Bits`, `F64Bits`), so that the shape of a value stays fully
/// describable here; rendering a bit pattern as a number is left to the
/// caller. An object is kept as its member list in insertion order; the map
/// it denotes is [`obj_map`], under which a later member overwrites an
/// earlier one with the same key.
#[derive(Debug, PartialEq)]
pub enum Value {
    Null,
    Bool(bool),
    Int(i64),
    F32Bits(u32),
    F64Bits(u64),
    Str(String),
    Arr(Vec<Value>),
    Obj(Vec<(String, Value)>),
}

/// The map a JSON object denotes: members are read left to right, and a
/// later member overwrites an earlier one with the same key.
pub open spec fn obj_map(pairs: Seq<(String, Value)>) -> Map<Seq<char>, Value>
    decreases pairs.len(),
{
    if pairs.len() == 0 {
        Map::<Seq<char>, Value>::empty()
    } else {
        obj_map(pairs.drop_last()).insert(pairs.last().0@, pairs.last().1)
    }
}

/// A key the object map contains comes from some member, and the map binds
/// it to that member's value.
pub proof fn lemma_obj_map_member_at(pairs: Seq<(String, Value)>, k: Seq<char>)
    requires
        obj_map(pairs).contains_key(k),
    ensures
        exists|i: int|
            0 <= i < pairs.len() && (#[trigger] pairs[i]).0@ == k && obj_map(pairs)[k]
                == pairs[i].1,
    decreases pairs.len(),
{
    let q = pairs.drop_last();
    let last = pairs.last();
    if k == last.0@ {
        assert((pairs[pairs.len() - 1]).0@ == k && obj_map(pairs)[k] == pairs[pairs.len() - 1].1);
    } else {
        assert(obj_map(q).contains_key(k));
        lemma_obj_map_member_at(q, k);
        let i = choose|i: int|
            0 <= i < q.len() && (#[trigger] q[i]).0@ == k && obj_map(q)[k] == q[i].1;
        assert((pairs[i]).0@ == k && obj_map(pairs)[k] == pairs[i].1);
    }
}

/// A member whose key occurs nowhere else in the list is bound, in the
/// object map, to exactly its own value.
pub proof fn lemma_obj_map_at_unique(pairs: Seq<(String, Value)>, i: int)
    requires
        0 <= i < pairs.len(),
        forall|j: int| 0 <= j < pairs.len() && j != i ==> #[trigger] pairs[j].0@ != pairs[i].0@,
    ensures
        obj_map(pairs).contains_key(pairs[i].0@),
        obj_map(pairs)[pairs[i].0@] == pairs[i].1,
    decreases pairs.len(),
{
    if i == pairs.len() - 1 {
    } else {
        let q = pairs.drop_last();
        assert(q[i] == pairs[i]);
        assert forall|j: int| 0 <= j < q.len() && j != i implies #[trigger] q[j].0@ != q[i].0@ by {
            assert(q[j] == pairs[j]);
        }
        lemma_obj_map_at_unique(q, i);
        assert(pairs[pairs.len() - 1].0@ != pairs[i].0@);
    }
}

} // verus!
