//! The chunk store: coordinate mapping, chunk generation from a sample field,
//! and the cache of generated chunks.
//!
//! A terrain sample is the magnitude of a noise value in millionths (`0.6` is
//! `600_000`). The store does not compute noise itself: the caller hands it a
//! sampler, a function from a point `(x, y, depth)` to the sample there, and
//! each chunk is built from the samples of all its cells the first time one
//! of its tiles is asked for.

use vstd::prelude::*;
use std::collections::HashMap;
use crate::color_scheme::{ColorName, get_stone_color, get_floor_color, stone_color, floor_color};

verus! {

/// Samples at or above this magnitude are open floor; below it, solid rock.
pub const FLOOR_THRESHOLD: u32 = 600_000;

/// The range of the stone ramp that colours solid rock.
pub const STONE_RAMP_MIN: u32 = 0;

pub const STONE_RAMP_MAX: u32 = 500_000;

/// The range of the floor ramp that colours open floor.
pub const FLOOR_RAMP_MIN: u32 = 400_000;

pub const FLOOR_RAMP_MAX: u32 = 1_000_000;

pub const ROCK_GLYPH: char = '#';

pub const FLOOR_GLYPH: char = '.';

/// The glyph of a liquid pocket, the "almost equal" sign.
pub const LIQUID_GLYPH: char = '\u{2248}';

/// One cell of terrain.
#[derive(Clone, Copy, Debug, PartialEq, Eq, Structural)]
pub struct Tile {
    /// Global horizontal position.
    pub x: u32,
    pub y: u32,
    /// Global vertical level.
    pub depth: u32,
    pub glyph: char,
    pub color: ColorName,
    /// The sample that the tile was classified from, in millionths.
    pub val: u32,
}

impl Tile {
    /// The tile at `(x, y, depth)` whose sample is `val`: open floor coloured
    /// by the floor ramp at or above the floor threshold; below it, rock
    /// coloured by the stone ramp, except where the stone ramp gives the void,
    /// which is a blue liquid pocket.
    pub open spec fn classified(x: u32, y: u32, depth: u32, val: u32) -> Tile {
        let stone = stone_color(val as int, STONE_RAMP_MIN as int, STONE_RAMP_MAX as int);
        if val >= FLOOR_THRESHOLD {
            Tile {
                x,
                y,
                depth,
                glyph: FLOOR_GLYPH,
                color: floor_color(val as int, FLOOR_RAMP_MIN as int, FLOOR_RAMP_MAX as int),
                val,
            }
        } else if stone == ColorName::Void {
            Tile { x, y, depth, glyph: LIQUID_GLYPH, color: ColorName::Blue, val }
        } else {
            Tile { x, y, depth, glyph: ROCK_GLYPH, color: stone, val }
        }
    }

    /// Classifies the sample `val` taken at `(x, y, depth)`.
    pub fn from_sample(x: u32, y: u32, depth: u32, val: u32) -> (r: Tile)
        ensures
            r == Tile::classified(x, y, depth, val),
            val < FLOOR_THRESHOLD && stone_color(
                val as int,
                STONE_RAMP_MIN as int,
                STONE_RAMP_MAX as int,
            ) == ColorName::Void ==> r.glyph == LIQUID_GLYPH && r.color == ColorName::Blue,
    {
        let mut tile = Tile {
            x,
            y,
            depth,
            glyph: ROCK_GLYPH,
            color: get_stone_color(&val, &STONE_RAMP_MIN, &STONE_RAMP_MAX),
            val,
        };
        if val >= FLOOR_THRESHOLD {
            tile.glyph = FLOOR_GLYPH;
            tile.color = get_floor_color(&val, &FLOOR_RAMP_MIN, &FLOOR_RAMP_MAX);
        }
        if tile.color == ColorName::Void && tile.glyph == ROCK_GLYPH {
            tile.glyph = LIQUID_GLYPH;
            tile.color = ColorName::Blue;
        }
        tile
    }
}

/// The lowest coordinate of the chunk, of edge `cs`, that holds `v`.
pub open spec fn chunk_min(v: int, cs: int) -> int {
    (v / cs) * cs
}

/// The chunk of edge `cs` that holds `v` ends within the range of `u32`.
pub open spec fn chunk_fits(v: u32, cs: u32) -> bool {
    &&& cs > 0
    &&& chunk_min(v as int, cs as int) + cs <= u32::MAX
}

/// The two consecutive multiples of `m` that bracket `n`: `(0, m)` for zero,
/// else the multiple below `n - 1` and the next one.
pub open spec fn boundaries(n: int, m: int) -> (int, int) {
    if n == 0 {
        (0, m)
    } else {
        (((n - 1) / m) * m, ((n - 1) / m) * m + m)
    }
}

proof fn lemma_floor_multiple(v: int, cs: int)
    requires
        v >= 0,
        cs > 0,
    ensures
        0 <= chunk_min(v, cs) <= v < chunk_min(v, cs) + cs,
        v - chunk_min(v, cs) == v % cs,
{
    vstd::arithmetic::div_mod::lemma_fundamental_div_mod(v, cs);
    vstd::arithmetic::div_mod::lemma_mod_pos_bound(v, cs);
    vstd::arithmetic::div_mod::lemma_div_pos_is_pos(v, cs);
    assert((v / cs) * cs == cs * (v / cs)) by (nonlinear_arith);
    assert((v / cs) * cs >= 0) by (nonlinear_arith)
        requires
            v / cs >= 0,
            cs > 0,
    ;
}

/// The key of the chunk whose centre is `(cx, cy, cz)`: the three
/// coordinates side by side in one 128-bit word.
pub open spec fn packed_key(cx: u32, cy: u32, cz: u32) -> u128 {
    ((cx as u128) << 64u128) | ((cy as u128) << 32u128) | (cz as u128)
}

/// Distinct centres have distinct keys.
pub proof fn lemma_packed_key_injective(a: u32, b: u32, c: u32, a2: u32, b2: u32, c2: u32)
    requires
        packed_key(a, b, c) == packed_key(a2, b2, c2),
    ensures
        a == a2 && b == b2 && c == c2,
{
    assert(((a as u128) << 64u128) | ((b as u128) << 32u128) | (c as u128) == ((a2 as u128)
        << 64u128) | ((b2 as u128) << 32u128) | (c2 as u128) ==> a == a2 && b == b2 && c == c2)
        by (bit_vector);
}

fn pack_key(cx: u32, cy: u32, cz: u32) -> (r: u128)
    ensures
        r == packed_key(cx, cy, cz),
{
    ((cx as u128) << 64u128) | ((cy as u128) << 32u128) | (cz as u128)
}

/// The centre coordinate of the chunk of edge `cs` that holds `v`.
pub open spec fn chunk_center(v: u32, cs: u32) -> u32 {
    (chunk_min(v as int, cs as int) + cs / 2) as u32
}

/// The key under which the store files the chunk that holds `(x, y, z)`.
pub open spec fn chunk_key(x: u32, y: u32, z: u32, cs: u32) -> u128 {
    packed_key(chunk_center(x, cs), chunk_center(y, cs), chunk_center(z, cs))
}

/// `t` stands at `(x, y, z)` and is the classification of its own sample.
pub open spec fn tile_placed(t: Tile, x: int, y: int, z: int) -> bool {
    &&& t.x == x
    &&& t.y == y
    &&& t.depth == z
    &&& t == Tile::classified(t.x, t.y, t.depth, t.val)
}

/// The sample of `t` is one that `sample` gives at the tile's point, whose
/// vertical coordinate is the depth scaled by the level thickness `lt`.
pub open spec fn sampled_by<F: Fn(u32, u32, u64) -> u32>(sample: F, t: Tile, lt: u32) -> bool {
    call_ensures(sample, (t.x, t.y, (t.depth * lt) as u64), t.val)
}

/// `s` is the depth slice at level `z` of a chunk whose lowest corner is at
/// `(xm, ym)`: `cs * cs` tiles, row by row, `x` varying fastest.
pub open spec fn slice_shaped(s: Seq<Tile>, xm: int, ym: int, z: int, cs: int) -> bool {
    &&& s.len() == cs * cs
    &&& forall|i: int| 0 <= i < s.len() ==> tile_placed(#[trigger] s[i], xm + i % cs, ym + i / cs, z)
}

/// `c` holds, under each local depth `lz < cs`, the slice at level `zm + lz`
/// of the chunk whose lowest corner is `(xm, ym, zm)`.
pub open spec fn chunk_shaped(c: Map<u32, Vec<Tile>>, xm: int, ym: int, zm: int, cs: u32) -> bool {
    forall|lz: u32|
        lz < cs ==> #[trigger] c.contains_key(lz) && slice_shaped(c[lz]@, xm, ym, zm + lz, cs as int)
}

/// Every tile in the first `cs` slices of `c` was sampled by `sample`.
pub open spec fn chunk_sampled_by<F: Fn(u32, u32, u64) -> u32>(
    c: Map<u32, Vec<Tile>>,
    cs: u32,
    lt: u32,
    sample: F,
) -> bool {
    forall|lz: u32, i: int|
        lz < cs && 0 <= i < c[lz]@.len() ==> sampled_by(sample, #[trigger] c[lz]@[i], lt)
}

/// `i = lx + ly * cs` splits back into `lx` and `ly`.
proof fn lemma_index_split(lx: int, ly: int, cs: int)
    requires
        0 <= lx < cs,
        0 <= ly < cs,
    ensures
        (lx + ly * cs) % cs == lx,
        (lx + ly * cs) / cs == ly,
        0 <= lx + ly * cs < cs * cs,
{
    vstd::arithmetic::div_mod::lemma_fundamental_div_mod_converse(lx + ly * cs, cs, ly, lx);
    assert(lx + ly * cs < cs * cs) by (nonlinear_arith)
        requires
            0 <= lx < cs,
            0 <= ly < cs,
    ;
    assert(0 <= ly * cs) by (nonlinear_arith)
        requires
            0 <= ly,
            0 <= cs,
    ;
}

/// The first number that a PCG32 generator seeded with `seed` draws.
pub uninterp spec fn pcg32_first_u32(seed: u64) -> u32;

/// Relies on oorandom's `Rand32::new` and `Rand32::rand_u32`: a generator
/// seeded with `seed` and its first draw, which depends on the seed alone.
#[verifier::external_body]
fn first_draw(seed: u64) -> (r: u32)
    ensures
        r == pcg32_first_u32(seed),
{
    oorandom::Rand32::new(seed).rand_u32()
}

/// A store of terrain chunks, generated on demand and kept for good.
pub struct GameMap {
    map: HashMap<u128, HashMap<u32, Vec<Tile>>>,
    chunk_size: u32,
    max_chuncks_x: u32,
    max_chuncks_y: u32,
    max_chuncks_z: u32,
    surface_level: u32,
    level_thickness: u32,
    random_seed: u32,
}

impl GameMap {
    /// The cached chunks, by key.
    pub closed spec fn chunks(&self) -> Map<u128, HashMap<u32, Vec<Tile>>> {
        self.map@
    }

    pub closed spec fn spec_chunk_size(&self) -> u32 {
        self.chunk_size
    }

    pub closed spec fn spec_max_chuncks_x(&self) -> u32 {
        self.max_chuncks_x
    }

    pub closed spec fn spec_max_chuncks_y(&self) -> u32 {
        self.max_chuncks_y
    }

    pub closed spec fn spec_max_chuncks_z(&self) -> u32 {
        self.max_chuncks_z
    }

    pub closed spec fn spec_surface_level(&self) -> u32 {
        self.surface_level
    }

    pub closed spec fn spec_level_thickness(&self) -> u32 {
        self.level_thickness
    }

    pub closed spec fn spec_random_seed(&self) -> u32 {
        self.random_seed
    }

    /// The store's world parameters are those of `other`.
    pub open spec fn same_world(&self, other: GameMap) -> bool {
        &&& self.spec_chunk_size() == other.spec_chunk_size()
        &&& self.spec_max_chuncks_x() == other.spec_max_chuncks_x()
        &&& self.spec_max_chuncks_y() == other.spec_max_chuncks_y()
        &&& self.spec_max_chuncks_z() == other.spec_max_chuncks_z()
        &&& self.spec_surface_level() == other.spec_surface_level()
        &&& self.spec_level_thickness() == other.spec_level_thickness()
        &&& self.spec_random_seed() == other.spec_random_seed()
    }

    /// The key of the chunk that holds `(x, y, z)`.
    pub open spec fn key_of(&self, x: u32, y: u32, z: u32) -> u128 {
        chunk_key(x, y, z, self.spec_chunk_size())
    }

    /// `(x, y, z)` lies in a chunk whose coordinates fit in `u32`.
    pub open spec fn in_range(&self, x: u32, y: u32, z: u32) -> bool {
        &&& chunk_fits(x, self.spec_chunk_size())
        &&& chunk_fits(y, self.spec_chunk_size())
        &&& chunk_fits(z, self.spec_chunk_size())
    }

    /// The cached tile at `(x, y, z)`: in the chunk's slice of local depth
    /// `z mod chunk_size`, at index `x mod chunk_size + (y mod chunk_size) *
    /// chunk_size`.
    pub closed spec fn tile_at(&self, x: u32, y: u32, z: u32) -> Tile {
        let cs = self.chunk_size as int;
        self.map@[self.key_of(x, y, z)]@[(z % self.chunk_size) as u32]@[(x as int % cs) + (y as int % cs) * cs]
    }

    /// The chunk size is positive and a slice's index fits in `u32`; each
    /// cached chunk is shaped as the chunk that its key stands for.
    pub closed spec fn wf(&self) -> bool {
        let cs = self.chunk_size;
        &&& 0 < cs
        &&& cs * cs <= u32::MAX
        &&& forall|x: u32, y: u32, z: u32|
            chunk_fits(x, cs) && chunk_fits(y, cs) && chunk_fits(z, cs)
                && self.map@.contains_key(#[trigger] chunk_key(x, y, z, cs)) ==> chunk_shaped(
                self.map@[chunk_key(x, y, z, cs)]@,
                chunk_min(x as int, cs as int),
                chunk_min(y as int, cs as int),
                chunk_min(z as int, cs as int),
                cs,
            )
    }

    /// What a query of `(x, y, z)` that answered `t` did to the store, as
    /// far as it does not depend on the sampler: the chunk of the point is
    /// cached afterwards and nothing else changed; a chunk that was cached
    /// already stayed as it was and answered the query; the answer stands at
    /// `(x, y, z)` and is the tile now cached there.
    pub open spec fn query_outcome(
        before: GameMap,
        after: GameMap,
        x: u32,
        y: u32,
        z: u32,
        t: Tile,
    ) -> bool {
        let key = before.key_of(x, y, z);
        &&& after.wf()
        &&& after.same_world(before)
        &&& after.chunks().contains_key(key)
        &&& after.chunks() == before.chunks().insert(key, after.chunks()[key])
        &&& before.chunks().contains_key(key) ==> after.chunks() == before.chunks() && t
            == before.tile_at(x, y, z)
        &&& t == after.tile_at(x, y, z)
        &&& tile_placed(t, x as int, y as int, z as int)
    }

    /// A store of a 64-unit chunk edge over a planet of 20,000 km
    /// circumference and 32 km crust in levels of 30 m, with its seed drawn
    /// once from a generator seeded with 10, and no chunk yet.
    pub fn new() -> (r: GameMap)
        ensures
            r.wf(),
            r.chunks() == Map::<u128, HashMap<u32, Vec<Tile>>>::empty(),
            r.spec_chunk_size() == 64,
            r.spec_max_chuncks_x() == 312_500,
            r.spec_max_chuncks_y() == 312_500,
            r.spec_max_chuncks_z() == 16,
            r.spec_surface_level() == 1000,
            r.spec_level_thickness() == 30,
            r.spec_random_seed() == pcg32_first_u32(10),
    {
        // in metres
        let planet_circumference: u32 = 20000000;
        let planet_crust_thickness: u32 = 32000;
        let surface_level: u32 = 1000;
        let level_thickness: u32 = 30;

        let chunk_size: u32 = 64;
        let max_chuncks_x: u32 = planet_circumference / chunk_size;
        let max_chuncks_y: u32 = planet_circumference / chunk_size;
        let max_chuncks_z: u32 = planet_crust_thickness / level_thickness / chunk_size;
        GameMap {
            map: HashMap::with_capacity(chunk_size as usize),
            chunk_size,
            max_chuncks_x,
            max_chuncks_y,
            max_chuncks_z,
            surface_level,
            level_thickness,
            random_seed: first_draw(10),
        }
    }

    /// The two multiples of `m` that bracket `n` (see `boundaries`).
    pub fn round_to_boundries(n: u32, m: u32) -> (r: (u32, u32))
        requires
            m > 0,
            n == 0 || boundaries(n as int, m as int).1 <= u32::MAX,
        ensures
            r.0 == boundaries(n as int, m as int).0,
            r.1 == boundaries(n as int, m as int).1,
    {
        if n == 0 {
            (0, m)
        } else {
            proof {
                lemma_floor_multiple((n - 1) as int, m as int);
            }
            let min = ((n - 1) / m) * m;
            (min, min + m)
        }
    }

    /// The chunk of edge `chunk_size` that holds `(x, y, z)`, as the
    /// half-open range `[min, max)` on each axis:
    /// `(x_min, x_max, y_min, y_max, z_min, z_max)`.
    pub fn get_chunck_boundries(x: u32, y: u32, z: u32, chunk_size: u32) -> (r: (
        u32,
        u32,
        u32,
        u32,
        u32,
        u32,
    ))
        requires
            chunk_fits(x, chunk_size),
            chunk_fits(y, chunk_size),
            chunk_fits(z, chunk_size),
        ensures
            r.0 == chunk_min(x as int, chunk_size as int),
            r.1 == r.0 + chunk_size,
            r.2 == chunk_min(y as int, chunk_size as int),
            r.3 == r.2 + chunk_size,
            r.4 == chunk_min(z as int, chunk_size as int),
            r.5 == r.4 + chunk_size,
    {
        proof {
            lemma_floor_multiple(x as int, chunk_size as int);
            lemma_floor_multiple(y as int, chunk_size as int);
            lemma_floor_multiple(z as int, chunk_size as int);
        }
        // the point is moved up by one so that a coordinate on a chunk's
        // lower boundary falls in that chunk and not in the one below
        let cx = x + 1;
        let cy = y + 1;
        let cz = z + 1;

        let (x_min, x_max) = GameMap::round_to_boundries(cx, chunk_size);
        let (y_min, y_max) = GameMap::round_to_boundries(cy, chunk_size);
        let (z_min, z_max) = GameMap::round_to_boundries(cz, chunk_size);

        (x_min, x_max, y_min, y_max, z_min, z_max)
    }

    /// The tile at `(x, y, z)`. Its chunk is generated with `sample` and
    /// cached when it is not cached yet; a cached chunk answers as it is.
    pub fn get_tile<F: Fn(u32, u32, u64) -> u32>(&mut self, x: u32, y: u32, z: u32, sample: &F) -> (r: Tile)
        requires
            old(self).wf(),
            old(self).in_range(x, y, z),
            forall|a: u32, b: u32, d: u64| call_requires(*sample, (a, b, d)),
        ensures
            GameMap::query_outcome(*old(self), *final(self), x, y, z, r),
            !old(self).chunks().contains_key(old(self).key_of(x, y, z)) ==> {
                let chunk = final(self).chunks()[old(self).key_of(x, y, z)]@;
                let cs = old(self).spec_chunk_size();
                &&& chunk_shaped(
                    chunk,
                    chunk_min(x as int, cs as int),
                    chunk_min(y as int, cs as int),
                    chunk_min(z as int, cs as int),
                    cs,
                )
                &&& chunk_sampled_by(chunk, cs, old(self).spec_level_thickness(), *sample)
                &&& sampled_by(*sample, r, old(self).spec_level_thickness())
            },
    {
        broadcast use vstd::std_specs::hash::group_hash_axioms;

        let chunk_size = self.chunk_size;
        let chunk_size_u = self.chunk_size as usize;
        let (x_min, x_max, y_min, y_max, z_min, z_max) = GameMap::get_chunck_boundries(
            x,
            y,
            z,
            chunk_size,
        );
        let center_x = x_min + chunk_size / 2;
        let center_y = y_min + chunk_size / 2;
        let center_z = z_min + chunk_size / 2;
        let key = pack_key(center_x, center_y, center_z);
        let ghost cs = chunk_size as int;
        proof {
            lemma_floor_multiple(x as int, cs);
            lemma_floor_multiple(y as int, cs);
            lemma_floor_multiple(z as int, cs);
            assert(key == chunk_key(x, y, z, chunk_size));
        }

        if !self.map.contains_key(&key) {
            proof {
                vstd::arithmetic::div_mod::lemma_mod_multiples_basic(z as int / cs, cs);
            }
            let chunk = GameMap::generate_map_chunk(
                HashMap::with_capacity(chunk_size_u),
                x_min,
                x_max,
                y_min,
                y_max,
                z_min,
                z_max,
                &chunk_size,
                &self.level_thickness,
                sample,
            );
            let ghost before = self.map@;
            self.map.insert(key, chunk);
            proof {
                assert forall|px: u32, py: u32, pz: u32|
                    chunk_fits(px, chunk_size) && chunk_fits(py, chunk_size) && chunk_fits(
                        pz,
                        chunk_size,
                    ) && self.map@.contains_key(
                        #[trigger] chunk_key(px, py, pz, chunk_size),
                    ) implies chunk_shaped(
                    self.map@[chunk_key(px, py, pz, chunk_size)]@,
                    chunk_min(px as int, cs),
                    chunk_min(py as int, cs),
                    chunk_min(pz as int, cs),
                    chunk_size,
                ) by {
                    if chunk_key(px, py, pz, chunk_size) == key {
                        lemma_floor_multiple(px as int, cs);
                        lemma_floor_multiple(py as int, cs);
                        lemma_floor_multiple(pz as int, cs);
                        lemma_packed_key_injective(
                            chunk_center(px, chunk_size),
                            chunk_center(py, chunk_size),
                            chunk_center(pz, chunk_size),
                            center_x,
                            center_y,
                            center_z,
                        );
                    } else {
                        assert(before.contains_key(chunk_key(px, py, pz, chunk_size)));
                    }
                }
            }
        }
        let chunk = self.map.get(&key).unwrap();
        proof {
            assert(chunk_fits(x, chunk_size) && chunk_fits(y, chunk_size) && chunk_fits(z, chunk_size)
                && self.map@.contains_key(chunk_key(x, y, z, chunk_size)));
        }

        let chunk_x = x % chunk_size;
        let chunk_y = y % chunk_size;
        let chunk_z = z % chunk_size;
        let chunk_plane = chunk.get(&chunk_z).unwrap();
        proof {
            lemma_index_split(chunk_x as int, chunk_y as int, cs);
        }
        let i = (chunk_x + chunk_y * chunk_size) as usize;
        let tile = chunk_plane[i];
        proof {
            assert(self.map@ =~= old(self).map@.insert(key, self.map@[key]));
            assert(tile_placed(tile, x as int, y as int, z as int));
            assert(tile == self.tile_at(x, y, z));
        }
        tile
    }

    /// Generates the chunk `[x_min, x_max) x [y_min, y_max) x [z_min, z_max)`
    /// into `map`, slice by slice from the top level down; each slice goes
    /// under its level modulo `chunk_size`, its tiles row by row. The tile at
    /// `(x, y, z)` is classified from `sample(x, y, z * level_thickness)`.
    /// Keys of `map` from `chunk_size` up are left as they were.
    pub fn generate_map_chunk<F: Fn(u32, u32, u64) -> u32>(
        map: HashMap<u32, Vec<Tile>>,
        x_min: u32,
        x_max: u32,
        y_min: u32,
        y_max: u32,
        z_min: u32,
        z_max: u32,
        chunk_size: &u32,
        level_thickness: &u32,
        sample: &F,
    ) -> (r: HashMap<u32, Vec<Tile>>)
        requires
            *chunk_size > 0,
            *chunk_size * *chunk_size <= u32::MAX,
            x_max == x_min + *chunk_size,
            y_max == y_min + *chunk_size,
            z_max == z_min + *chunk_size,
            z_min % *chunk_size == 0,
            forall|x: u32, y: u32, d: u64| call_requires(*sample, (x, y, d)),
        ensures
            chunk_shaped(r@, x_min as int, y_min as int, z_min as int, *chunk_size),
            chunk_sampled_by(r@, *chunk_size, *level_thickness, *sample),
            forall|k: u32|
                k >= *chunk_size ==> (#[trigger] r@.contains_key(k) == map@.contains_key(k)) && (
                map@.contains_key(k) ==> r@[k] == map@[k]),
    {
        broadcast use vstd::std_specs::hash::group_hash_axioms;

        let cs = *chunk_size;
        let lt = *level_thickness;
        let ghost initial = map@;
        let mut chunk = map;
        let mut z = z_max;
        while z > z_min
            invariant
                z_min <= z <= z_max,
                cs == *chunk_size,
                lt == *level_thickness,
                cs > 0,
                cs * cs <= u32::MAX,
                x_max == x_min + cs,
                y_max == y_min + cs,
                z_max == z_min + cs,
                z_min % cs == 0,
                forall|x: u32, y: u32, d: u64| call_requires(*sample, (x, y, d)),
                forall|lz: u32|
                    z - z_min <= lz < cs ==> #[trigger] chunk@.contains_key(lz) && slice_shaped(
                        chunk@[lz]@,
                        x_min as int,
                        y_min as int,
                        z_min + lz,
                        cs as int,
                    ),
                forall|lz: u32, i: int|
                    z - z_min <= lz < cs && 0 <= i < chunk@[lz]@.len() ==> sampled_by(
                        *sample,
                        #[trigger] chunk@[lz]@[i],
                        lt,
                    ),
                forall|k: u32|
                    k >= cs ==> (#[trigger] chunk@.contains_key(k) == initial.contains_key(k)) && (
                    initial.contains_key(k) ==> chunk@[k] == initial[k]),
            decreases z,
        {
            z = z - 1;
            let mut z_map: Vec<Tile> = Vec::with_capacity((cs * cs) as usize);
            assert(z as u64 * lt as u64 <= 0xffff_ffff * 0xffff_ffff) by (nonlinear_arith)
                requires
                    z <= 0xffff_ffff,
                    lt <= 0xffff_ffff,
            ;
            let z_depth: u64 = z as u64 * lt as u64;
            let mut y = y_min;
            while y < y_max
                invariant
                    y_min <= y <= y_max,
                    z_min <= z < z_max,
                    cs > 0,
                    x_max == x_min + cs,
                    y_max == y_min + cs,
                    z_depth == z * lt,
                    forall|x: u32, y: u32, d: u64| call_requires(*sample, (x, y, d)),
                    z_map@.len() == (y - y_min) * cs,
                    forall|i: int|
                        0 <= i < z_map@.len() ==> tile_placed(
                            #[trigger] z_map@[i],
                            x_min + i % (cs as int),
                            y_min + i / (cs as int),
                            z as int,
                        ) && sampled_by(*sample, z_map@[i], lt),
                decreases y_max - y,
            {
                let mut x = x_min;
                while x < x_max
                    invariant
                        x_min <= x <= x_max,
                        y_min <= y < y_max,
                        cs > 0,
                        x_max == x_min + cs,
                        y_max == y_min + cs,
                        z_depth == z * lt,
                        forall|x: u32, y: u32, d: u64| call_requires(*sample, (x, y, d)),
                        z_map@.len() == (y - y_min) * cs + (x - x_min),
                        forall|i: int|
                            0 <= i < z_map@.len() ==> tile_placed(
                                #[trigger] z_map@[i],
                                x_min + i % (cs as int),
                                y_min + i / (cs as int),
                                z as int,
                            ) && sampled_by(*sample, z_map@[i], lt),
                    decreases x_max - x,
                {
                    let val = sample(x, y, z_depth);
                    let tile = Tile::from_sample(x, y, z, val);
                    proof {
                        lemma_index_split((x - x_min) as int, (y - y_min) as int, cs as int);
                    }
                    z_map.push(tile);
                    x = x + 1;
                }
                proof {
                    assert((y - y_min) * cs + cs == (y + 1 - y_min) * cs) by (nonlinear_arith);
                }
                y = y + 1;
            }
            proof {
                vstd::arithmetic::div_mod::lemma_fundamental_div_mod(z_min as int, cs as int);
                assert(z_min == (z_min / cs) * cs) by (nonlinear_arith)
                    requires
                        z_min == cs * (z_min / cs) + z_min % cs,
                        z_min % cs == 0,
                ;
                vstd::arithmetic::div_mod::lemma_fundamental_div_mod_converse(
                    z as int,
                    cs as int,
                    (z_min / cs) as int,
                    z - z_min,
                );
            }
            let ghost before = chunk@;
            assert(z_map@.len() == cs * cs) by (nonlinear_arith)
                requires
                    z_map@.len() == (y - y_min) * cs,
                    y == y_min + cs,
            ;
            assert(slice_shaped(z_map@, x_min as int, y_min as int, z as int, cs as int));
            chunk.insert(z % cs, z_map);
            assert forall|lz: u32| z - z_min <= lz < cs implies #[trigger] chunk@.contains_key(lz)
                && slice_shaped(chunk@[lz]@, x_min as int, y_min as int, z_min + lz, cs as int) by {
                if lz != z % cs {
                    assert(before.contains_key(lz));
                }
            }
        }
        proof {
            assert(initial == map@);
        }
        chunk
    }
}

impl GameMap {
    pub fn chunk_size(&self) -> (r: u32)
        ensures
            r == self.spec_chunk_size(),
    {
        self.chunk_size
    }

    pub fn max_chuncks_x(&self) -> (r: u32)
        ensures
            r == self.spec_max_chuncks_x(),
    {
        self.max_chuncks_x
    }

    pub fn max_chuncks_y(&self) -> (r: u32)
        ensures
            r == self.spec_max_chuncks_y(),
    {
        self.max_chuncks_y
    }

    pub fn max_chuncks_z(&self) -> (r: u32)
        ensures
            r == self.spec_max_chuncks_z(),
    {
        self.max_chuncks_z
    }

    pub fn surface_level(&self) -> (r: u32)
        ensures
            r == self.spec_surface_level(),
    {
        self.surface_level
    }

    pub fn level_thickness(&self) -> (r: u32)
        ensures
            r == self.spec_level_thickness(),
    {
        self.level_thickness
    }

    pub fn random_seed(&self) -> (r: u32)
        ensures
            r == self.spec_random_seed(),
    {
        self.random_seed
    }

    /// The number of chunks generated so far.
    pub fn chunk_count(&self) -> (r: usize)
        ensures
            r == self.chunks().len(),
    {
        broadcast use vstd::std_specs::hash::group_hash_axioms;

        self.map.len()
    }
}

} // verus!
