//! Laws of the deduplicating vertex pool, stated and proved once and for
//! all: interning is idempotent, a corner with an out-of-range position
//! index never resolves, and the pool built from a stream of resolved
//! corners holds exactly the distinct corner values, whatever their order.

use vstd::prelude::*;

use crate::builder::{
    lemma_intern_step, spec_face, spec_intern_index, spec_intern_pool, spec_resolve, BuilderV,
    MeshVertex,
};
use crate::obj::VertexIndices;

verus! {

/// Interning the same vertex value twice yields the same pool index both
/// times, and the pool does not grow on the second interning.
pub proof fn lemma_intern_idempotent(pool: Seq<MeshVertex>, v: MeshVertex)
    ensures
        spec_intern_pool(spec_intern_pool(pool, v), v) == spec_intern_pool(pool, v),
        spec_intern_index(spec_intern_pool(pool, v), v) == spec_intern_index(pool, v),
{
    let p1 = spec_intern_pool(pool, v);
    pool.index_of_first_ensures(v);
    p1.index_of_first_ensures(v);
    if !pool.contains(v) {
        assert(p1[pool.len() as int] == v);
        assert(p1.contains(v));
        assert forall|j: int| 0 <= j < pool.len() implies p1[j] != v by {
            assert(p1[j] == pool[j]);
            if pool[j] == v {
                assert(pool.contains(v));
            }
        }
        assert(spec_intern_index(p1, v) == pool.len());
    }
}

/// A corner whose position index is zero or exceeds the position pool never
/// resolves, whatever its normal and texture-coordinate indices.
pub proof fn lemma_resolve_position_out_of_range(b: BuilderV, v: VertexIndices)
    requires
        v.position == 0 || v.position as int > b.vertices.len(),
    ensures
        spec_resolve(b, v) is None,
{
}

/// The pool after interning each value of `vs` in order.
pub open spec fn spec_intern_all(pool: Seq<MeshVertex>, vs: Seq<MeshVertex>) -> Seq<MeshVertex>
    decreases vs.len(),
{
    if vs.len() == 0 {
        pool
    } else {
        spec_intern_all(spec_intern_pool(pool, vs[0]), vs.drop_first())
    }
}

/// Interning adds exactly the values interned: the resulting pool holds the
/// union of the old entries and the interned values, and a duplicate-free
/// pool stays duplicate-free.
pub proof fn lemma_intern_all_set(pool: Seq<MeshVertex>, vs: Seq<MeshVertex>)
    ensures
        spec_intern_all(pool, vs).to_set() == pool.to_set().union(vs.to_set()),
        pool.no_duplicates() ==> spec_intern_all(pool, vs).no_duplicates(),
    decreases vs.len(),
{
    if vs.len() == 0 {
        assert(spec_intern_all(pool, vs) == pool);
        assert(pool.to_set().union(vs.to_set()) =~= pool.to_set()) by {
            assert(forall|x: MeshVertex| !(#[trigger] vs.contains(x)));
        }
    } else {
        let v = vs[0];
        let p1 = spec_intern_pool(pool, v);
        let rest = vs.drop_first();
        lemma_intern_step(pool, v);
        lemma_intern_all_set(p1, rest);
        assert(p1.to_set() =~= pool.to_set().insert(v)) by {
            assert forall|x: MeshVertex| p1.to_set().contains(x) implies pool.to_set().insert(
                v,
            ).contains(x) by {
                let k = choose|k: int| 0 <= k < p1.len() && p1[k] == x;
                if k < pool.len() {
                    assert(pool[k] == x);
                    assert(pool.contains(x));
                } else {
                    assert(x == v);
                }
            }
            assert forall|x: MeshVertex| pool.to_set().insert(v).contains(x) implies p1
                .to_set()
                .contains(x) by {
                if x == v {
                    assert(p1[spec_intern_index(pool, v)] == v);
                    assert(p1.contains(v));
                } else {
                    let k = choose|k: int| 0 <= k < pool.len() && pool[k] == x;
                    assert(p1[k] == x);
                    assert(p1.contains(x));
                }
            }
        }
        assert(vs.to_set() =~= rest.to_set().insert(v)) by {
            assert forall|x: MeshVertex| vs.to_set().contains(x) implies rest.to_set().insert(
                v,
            ).contains(x) by {
                let k = choose|k: int| 0 <= k < vs.len() && vs[k] == x;
                if k == 0 {
                    assert(x == v);
                } else {
                    assert(rest[k - 1] == x);
                    assert(rest.contains(x));
                }
            }
            assert forall|x: MeshVertex| rest.to_set().insert(v).contains(x) implies vs
                .to_set()
                .contains(x) by {
                if x == v {
                    assert(vs[0] == x);
                    assert(vs.contains(x));
                } else {
                    let k = choose|k: int| 0 <= k < rest.len() && rest[k] == x;
                    assert(vs[k + 1] == x);
                    assert(vs.contains(x));
                }
            }
        }
        assert(pool.to_set().insert(v).union(rest.to_set()) =~= pool.to_set().union(
            rest.to_set().insert(v),
        ));
    }
}

/// Interning a stream of corner values into an empty pool yields one pool
/// entry per distinct value: the pool's length is the number of distinct
/// values referenced.
pub proof fn lemma_pool_counts_distinct_corners(vs: Seq<MeshVertex>)
    ensures
        spec_intern_all(Seq::<MeshVertex>::empty(), vs).len() == vs.to_set().len(),
{
    let e = Seq::<MeshVertex>::empty();
    let p = spec_intern_all(e, vs);
    lemma_intern_all_set(e, vs);
    p.unique_seq_to_set();
    assert(e.to_set().union(vs.to_set()) =~= vs.to_set()) by {
        assert(forall|x: MeshVertex| !(#[trigger] e.contains(x)));
    }
}

/// Two corner streams that reference the same set of distinct values build
/// pools of the same length: the pool size does not depend on face order.
pub proof fn lemma_pool_order_independent(vs1: Seq<MeshVertex>, vs2: Seq<MeshVertex>)
    requires
        vs1.to_set() == vs2.to_set(),
    ensures
        spec_intern_all(Seq::<MeshVertex>::empty(), vs1).len() == spec_intern_all(
            Seq::<MeshVertex>::empty(),
            vs2,
        ).len(),
{
    lemma_pool_counts_distinct_corners(vs1);
    lemma_pool_counts_distinct_corners(vs2);
}

/// A successfully processed face interns exactly its three resolved
/// corners, in corner order.
pub proof fn lemma_face_interns_corners(
    b: BuilderV,
    v1: VertexIndices,
    v2: VertexIndices,
    v3: VertexIndices,
)
    requires
        spec_face(b, v1, v2, v3) is Ok,
    ensures
        (match (spec_resolve(b, v1), spec_resolve(b, v2), spec_resolve(b, v3)) {
            (Some(r1), Some(r2), Some(r3)) => (match spec_face(b, v1, v2, v3) {
                Ok(b2) => b2.mesh_vertices == spec_intern_all(
                    b.mesh_vertices,
                    seq![r1, r2, r3],
                ),
                Err(_) => false,
            }),
            _ => false,
        }),
{
    reveal_with_fuel(spec_intern_all, 4);
    match (spec_resolve(b, v1), spec_resolve(b, v2), spec_resolve(b, v3)) {
        (Some(r1), Some(r2), Some(r3)) => {
            let s = seq![r1, r2, r3];
            assert(s.drop_first() =~= seq![r2, r3]);
            assert(seq![r2, r3].drop_first() =~= seq![r3]);
            assert(seq![r3].drop_first() =~= Seq::<MeshVertex>::empty());
        },
        _ => {
            assert(false);
        },
    }
}

} // verus!
