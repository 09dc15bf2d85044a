//! Properties of sequences of store operations, stated over the abstract map
//! that `KeyValueStore::put`, `get` and `delete` are specified against.
use vstd::prelude::*;

use crate::model::{lookup, StoreMap};

verus! {

/// One mutation of the store, over abstract keys and values.
pub enum Mutation {
    Put(Seq<char>, Seq<char>),
    Delete(Seq<char>),
}

/// The key that a mutation acts on.
pub open spec fn key_of(op: Mutation) -> Seq<char> {
    match op {
        Mutation::Put(k, _) => k,
        Mutation::Delete(k) => k,
    }
}

/// The state after one mutation: what `put` and `delete` do to the view.
pub open spec fn apply(m: StoreMap, op: Mutation) -> StoreMap {
    match op {
        Mutation::Put(k, v) => m.insert(k, v),
        Mutation::Delete(k) => m.remove(k),
    }
}

/// The state after applying `ops` to `m`, first to last.
pub open spec fn replay(m: StoreMap, ops: Seq<Mutation>) -> StoreMap
    decreases ops.len(),
{
    if ops.len() == 0 {
        m
    } else {
        apply(replay(m, ops.drop_last()), ops.last())
    }
}

/// Whether `op` writes a value under `k`.
pub open spec fn writes(op: Mutation, k: Seq<char>) -> bool {
    op is Put && key_of(op) == k
}

/// A key that no `Put` has written since the store was created reads as not
/// found, whatever else was done to the store.
pub proof fn lemma_unwritten_key_not_found(ops: Seq<Mutation>, k: Seq<char>)
    requires
        forall|i: int| 0 <= i < ops.len() ==> !writes(#[trigger] ops[i], k),
    ensures
        lookup(replay(Map::empty(), ops), k) is None,
    decreases ops.len(),
{
    if ops.len() > 0 {
        let init = ops.drop_last();
        assert forall|i: int| 0 <= i < init.len() implies !writes(#[trigger] init[i], k) by {
            assert(init[i] == ops[i]);
        }
        lemma_unwritten_key_not_found(init, k);
        assert(!writes(ops[ops.len() - 1], k));
    }
}

/// A read right after `Put(k, v)` returns `v`.
pub proof fn lemma_put_then_get(m: StoreMap, k: Seq<char>, v: Seq<char>)
    ensures
        lookup(apply(m, Mutation::Put(k, v)), k) == Some(v),
{
}

/// Of two writes to one key, the later one wins: the state is as if only the
/// second had been made.
pub proof fn lemma_last_write_wins(m: StoreMap, k: Seq<char>, v1: Seq<char>, v2: Seq<char>)
    ensures
        replay(m, seq![Mutation::Put(k, v1), Mutation::Put(k, v2)]) == m.insert(k, v2),
        lookup(replay(m, seq![Mutation::Put(k, v1), Mutation::Put(k, v2)]), k) == Some(v2),
{
    lemma_replay_two(m, Mutation::Put(k, v1), Mutation::Put(k, v2));
    assert(m.insert(k, v1).insert(k, v2) =~= m.insert(k, v2));
}

/// Mutations of other keys leave what a key reads unchanged.
pub proof fn lemma_other_keys_preserve(m: StoreMap, k: Seq<char>, ops: Seq<Mutation>)
    requires
        forall|i: int| 0 <= i < ops.len() ==> key_of(#[trigger] ops[i]) != k,
    ensures
        lookup(replay(m, ops), k) == lookup(m, k),
    decreases ops.len(),
{
    if ops.len() > 0 {
        let init = ops.drop_last();
        assert forall|i: int| 0 <= i < init.len() implies key_of(#[trigger] init[i]) != k by {
            assert(init[i] == ops[i]);
        }
        lemma_other_keys_preserve(m, k, init);
        assert(key_of(ops[ops.len() - 1]) != k);
    }
}

/// After `Put(k, v)` and any mutations of other keys, a delete of `k` returns
/// `v` (what `k` reads just before it), and a read after it reports not found.
pub proof fn lemma_delete_returns_latest_write(
    m: StoreMap,
    k: Seq<char>,
    v: Seq<char>,
    later: Seq<Mutation>,
)
    requires
        forall|i: int| 0 <= i < later.len() ==> key_of(#[trigger] later[i]) != k,
    ensures
        lookup(replay(apply(m, Mutation::Put(k, v)), later), k) == Some(v),
        lookup(apply(replay(apply(m, Mutation::Put(k, v)), later), Mutation::Delete(k)), k) is None,
{
    lemma_other_keys_preserve(apply(m, Mutation::Put(k, v)), k, later);
}

/// A delete of an absent key finds nothing and leaves the store as it was.
pub proof fn lemma_delete_absent(m: StoreMap, k: Seq<char>)
    requires
        lookup(m, k) is None,
    ensures
        apply(m, Mutation::Delete(k)) == m,
{
    assert(m.remove(k) =~= m);
}

/// Two writes to one key that race are applied one after the other, in
/// either order: the key then holds one of the two values whole, and the
/// store is exactly as after that single write.
pub proof fn lemma_racing_puts(m: StoreMap, k: Seq<char>, a: Seq<char>, b: Seq<char>)
    ensures
        replay(m, seq![Mutation::Put(k, a), Mutation::Put(k, b)]) == m.insert(k, b),
        replay(m, seq![Mutation::Put(k, b), Mutation::Put(k, a)]) == m.insert(k, a),
        lookup(replay(m, seq![Mutation::Put(k, a), Mutation::Put(k, b)]), k) == Some(b),
        lookup(replay(m, seq![Mutation::Put(k, b), Mutation::Put(k, a)]), k) == Some(a),
{
    lemma_last_write_wins(m, k, a, b);
    lemma_last_write_wins(m, k, b, a);
}

proof fn lemma_replay_two(m: StoreMap, x: Mutation, y: Mutation)
    ensures
        replay(m, seq![x, y]) == apply(apply(m, x), y),
{
    let s = seq![x, y];
    assert(s.drop_last() =~= seq![x]);
    assert(seq![x].drop_last() =~= Seq::<Mutation>::empty());
    reveal_with_fuel(replay, 3);
}

} // verus!
