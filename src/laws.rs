//! Properties of the chunk store that hold across several queries, stated
//! over what `GameMap::get_tile` promises of each one.

use vstd::prelude::*;
use crate::game_map::{
    GameMap,
    Tile,
    chunk_key,
    chunk_fits,
    packed_key,
    lemma_packed_key_injective,
    sampled_by,
    tile_placed,
};

verus! {

/// Asking twice for the same coordinate answers the same tile, and the
/// second query leaves the store as the first left it: nothing is generated
/// again.
pub proof fn lemma_repeat_query_same_tile(
    s0: GameMap,
    s1: GameMap,
    s2: GameMap,
    x: u32,
    y: u32,
    z: u32,
    t1: Tile,
    t2: Tile,
)
    requires
        GameMap::query_outcome(s0, s1, x, y, z, t1),
        GameMap::query_outcome(s1, s2, x, y, z, t2),
    ensures
        t2 == t1,
        s2.chunks() == s1.chunks(),
{
}

/// With a sampler whose result is a function of the point (a noise field of
/// a fixed seed), the tile generated for a coordinate is always the same
/// one, whichever store or generation produced it.
pub proof fn lemma_generated_tile_determined<F: Fn(u32, u32, u64) -> u32>(
    sample: F,
    level_thickness: u32,
    x: u32,
    y: u32,
    z: u32,
    t1: Tile,
    t2: Tile,
)
    requires
        forall|p: (u32, u32, u64), a: u32, b: u32|
            #[trigger] call_ensures(sample, p, a) && #[trigger] call_ensures(sample, p, b) ==> a
                == b,
        tile_placed(t1, x as int, y as int, z as int),
        tile_placed(t2, x as int, y as int, z as int),
        sampled_by(sample, t1, level_thickness),
        sampled_by(sample, t2, level_thickness),
    ensures
        t1 == t2,
{
}

/// Two queries of points in the same chunk generate that chunk at most
/// once: the first caches at most that one chunk, and the second changes
/// nothing.
pub proof fn lemma_same_chunk_generated_once(
    s0: GameMap,
    s1: GameMap,
    s2: GameMap,
    x: u32,
    y: u32,
    z: u32,
    x2: u32,
    y2: u32,
    z2: u32,
    t1: Tile,
    t2: Tile,
)
    requires
        GameMap::query_outcome(s0, s1, x, y, z, t1),
        GameMap::query_outcome(s1, s2, x2, y2, z2, t2),
        x / s0.spec_chunk_size() == x2 / s0.spec_chunk_size(),
        y / s0.spec_chunk_size() == y2 / s0.spec_chunk_size(),
        z / s0.spec_chunk_size() == z2 / s0.spec_chunk_size(),
    ensures
        s1.chunks().dom() == s0.chunks().dom().insert(s0.key_of(x, y, z)),
        s2.chunks() == s1.chunks(),
{
    assert(s1.key_of(x2, y2, z2) == s0.key_of(x, y, z));
}

/// The chunk, counted in chunk edges along each axis, that holds `q`.
pub open spec fn chunk_index(q: (u32, u32, u32), cs: u32) -> (int, int, int) {
    (q.0 as int / cs as int, q.1 as int / cs as int, q.2 as int / cs as int)
}

/// The key of the chunk of index `c`.
pub open spec fn key_of_index(c: (int, int, int), cs: u32) -> u128 {
    packed_key(
        (c.0 * cs + cs / 2) as u32,
        (c.1 * cs + cs / 2) as u32,
        (c.2 * cs + cs / 2) as u32,
    )
}

/// The keys of the chunks of the first `n` points of `qs`.
pub open spec fn prefix_keys(qs: Seq<(u32, u32, u32)>, n: int, cs: u32) -> Set<u128> {
    Set::new(|k: u128| exists|j: int| 0 <= j < n && k == #[trigger] chunk_key(qs[j].0, qs[j].1, qs[j].2, cs))
}

/// `stores` is the run of a store through the queries `qs`, with answers
/// `tiles`.
pub open spec fn query_run(stores: Seq<GameMap>, qs: Seq<(u32, u32, u32)>, tiles: Seq<Tile>) -> bool {
    &&& stores.len() == qs.len() + 1
    &&& tiles.len() == qs.len()
    &&& forall|i: int|
        0 <= i < qs.len() ==> #[trigger] GameMap::query_outcome(
            stores[i],
            stores[i + 1],
            qs[i].0,
            qs[i].1,
            qs[i].2,
            tiles[i],
        )
}

proof fn lemma_run_prefix(stores: Seq<GameMap>, qs: Seq<(u32, u32, u32)>, tiles: Seq<Tile>, n: int)
    requires
        query_run(stores, qs, tiles),
        stores[0].chunks().dom() == Set::<u128>::empty(),
        0 <= n <= qs.len(),
    ensures
        stores[n].spec_chunk_size() == stores[0].spec_chunk_size(),
        stores[n].chunks().dom() == prefix_keys(qs, n, stores[0].spec_chunk_size()),
    decreases n,
{
    let cs = stores[0].spec_chunk_size();
    if n == 0 {
        assert(prefix_keys(qs, 0, cs) =~= Set::<u128>::empty());
    } else {
        lemma_run_prefix(stores, qs, tiles, n - 1);
        let i = n - 1;
        let q = qs[i];
        assert(GameMap::query_outcome(stores[i], stores[i + 1], q.0, q.1, q.2, tiles[i]));
        let k = chunk_key(q.0, q.1, q.2, cs);
        assert(stores[n].chunks().dom() =~= stores[n - 1].chunks().dom().insert(k));
        assert(prefix_keys(qs, n, cs) =~= prefix_keys(qs, n - 1, cs).insert(k)) by {
            assert forall|key: u128| prefix_keys(qs, n, cs).contains(key) implies prefix_keys(
                qs,
                n - 1,
                cs,
            ).insert(k).contains(key) by {
                let j = choose|j: int|
                    0 <= j < n && key == #[trigger] chunk_key(qs[j].0, qs[j].1, qs[j].2, cs);
                if j < n - 1 {
                    assert(prefix_keys(qs, n - 1, cs).contains(key));
                }
            }
            assert forall|key: u128| prefix_keys(qs, n - 1, cs).insert(k).contains(key) implies prefix_keys(
                qs,
                n,
                cs,
            ).contains(key) by {
                if key != k {
                    let j = choose|j: int|
                        0 <= j < n - 1 && key == #[trigger] chunk_key(qs[j].0, qs[j].1, qs[j].2, cs);
                    assert(0 <= j < n);
                } else {
                    assert(key == chunk_key(qs[n - 1].0, qs[n - 1].1, qs[n - 1].2, cs));
                }
            }
        }
    }
}

/// After a run of queries from an empty store, the store holds one chunk
/// for each distinct chunk that the queried points fall in, and no other:
/// exactly as many chunks as the points touch, whatever their order and
/// however often each is asked for.
pub proof fn lemma_growth_bound(stores: Seq<GameMap>, qs: Seq<(u32, u32, u32)>, tiles: Seq<Tile>)
    requires
        query_run(stores, qs, tiles),
        stores[0].chunks().dom() == Set::<u128>::empty(),
        forall|i: int| 0 <= i < qs.len() ==> #[trigger] stores[0].in_range(qs[i].0, qs[i].1, qs[i].2),
    ensures
        stores.last().chunks().dom() == qs.map_values(
            |q: (u32, u32, u32)| chunk_key(q.0, q.1, q.2, stores[0].spec_chunk_size()),
        ).to_set(),
        stores.last().chunks().len() == qs.map_values(
            |q: (u32, u32, u32)| chunk_index(q, stores[0].spec_chunk_size()),
        ).to_set().len(),
{
    broadcast use vstd::seq_lib::seq_to_set_is_finite;

    let cs = stores[0].spec_chunk_size();
    let n = qs.len() as int;
    lemma_run_prefix(stores, qs, tiles, n);
    let key_fn = |q: (u32, u32, u32)| chunk_key(q.0, q.1, q.2, cs);
    let index_fn = |q: (u32, u32, u32)| chunk_index(q, cs);
    let g = |c: (int, int, int)| key_of_index(c, cs);
    let keys = qs.map_values(key_fn).to_set();
    let indices = qs.map_values(index_fn).to_set();
    assert forall|k: u128| prefix_keys(qs, n, cs).contains(k) <==> keys.contains(k) by {
        if prefix_keys(qs, n, cs).contains(k) {
            let j = choose|j: int|
                0 <= j < n && k == #[trigger] chunk_key(qs[j].0, qs[j].1, qs[j].2, cs);
            assert(qs.map_values(key_fn)[j] == k);
        }
        if keys.contains(k) {
            let j = choose|j: int| 0 <= j < n && qs.map_values(key_fn)[j] == k;
            assert(k == chunk_key(qs[j].0, qs[j].1, qs[j].2, cs));
        }
    }
    assert(stores.last().chunks().dom() =~= keys);
    assert(indices.map(g) =~= keys) by {
        assert forall|k: u128| indices.map(g).contains(k) implies keys.contains(k) by {
            let c = choose|c: (int, int, int)| indices.contains(c) && g(c) == k;
            let j = choose|j: int| 0 <= j < n && qs.map_values(index_fn)[j] == c;
            assert(qs.map_values(key_fn)[j] == k);
        }
        assert forall|k: u128| keys.contains(k) implies indices.map(g).contains(k) by {
            let j = choose|j: int| 0 <= j < n && qs.map_values(key_fn)[j] == k;
            let c = index_fn(qs[j]);
            assert(qs.map_values(index_fn)[j] == c);
            assert(indices.contains(c));
            assert(g(c) == k);
        }
    }
    assert(vstd::relations::injective_on(g, indices)) by {
        assert forall|c1: (int, int, int), c2: (int, int, int)|
            indices.contains(c1) && indices.contains(c2) && #[trigger] g(c1) == #[trigger] g(c2) implies c1
            == c2 by {
            let j1 = choose|j: int| 0 <= j < n && qs.map_values(index_fn)[j] == c1;
            let j2 = choose|j: int| 0 <= j < n && qs.map_values(index_fn)[j] == c2;
            assert(stores[0].in_range(qs[j1].0, qs[j1].1, qs[j1].2));
            assert(stores[0].in_range(qs[j2].0, qs[j2].1, qs[j2].2));
            lemma_index_center(qs[j1].0, cs);
            lemma_index_center(qs[j1].1, cs);
            lemma_index_center(qs[j1].2, cs);
            lemma_index_center(qs[j2].0, cs);
            lemma_index_center(qs[j2].1, cs);
            lemma_index_center(qs[j2].2, cs);
            lemma_packed_key_injective(
                (c1.0 * cs + cs / 2) as u32,
                (c1.1 * cs + cs / 2) as u32,
                (c1.2 * cs + cs / 2) as u32,
                (c2.0 * cs + cs / 2) as u32,
                (c2.1 * cs + cs / 2) as u32,
                (c2.2 * cs + cs / 2) as u32,
            );
            lemma_cancel_edge(c1.0, c2.0, cs as int);
            lemma_cancel_edge(c1.1, c2.1, cs as int);
            lemma_cancel_edge(c1.2, c2.2, cs as int);
        }
    }
    vstd::set_lib::lemma_map_size(indices, keys, g);
}

/// The centre of a chunk that fits in `u32` is at most `u32::MAX`.
proof fn lemma_index_center(v: u32, cs: u32)
    requires
        chunk_fits(v, cs),
    ensures
        0 <= (v as int / cs as int) * cs + cs / 2 <= u32::MAX,
{
    assert((v as int / cs as int) * cs >= 0) by (nonlinear_arith)
        requires
            v as int / cs as int >= 0,
            cs > 0,
    ;
}

proof fn lemma_cancel_edge(a: int, b: int, cs: int)
    requires
        cs > 0,
        a * cs + cs / 2 == b * cs + cs / 2,
    ensures
        a == b,
{
    assert(a == b) by (nonlinear_arith)
        requires
            cs > 0,
            a * cs == b * cs,
    ;
}

} // verus!
