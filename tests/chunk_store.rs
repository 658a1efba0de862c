use janus_terrain::color_scheme::ColorName;
use janus_terrain::game_map::{GameMap, Tile};
use noise::{Billow, MultiFractal, NoiseFn, ScalePoint, Seedable};

fn noise_sampler(seed: u32) -> impl Fn(u32, u32, u64) -> u32 {
    let field = ScalePoint::new(
        Billow::new().set_seed(seed).set_frequency(0.125).set_persistence(0.35),
    )
    .set_scale(0.1);
    move |x, y, d| (field.get([x as f64, y as f64, d as f64]).abs() * 1_000_000.0) as u32
}

/// A cheap field: the sample encodes the point, so a tile shows where it was taken.
fn coordinate_sampler(x: u32, y: u32, d: u64) -> u32 {
    (x % 100) + 100 * (y % 100) + 10_000 * (d as u32 % 100)
}

#[test]
fn new_store_parameters() {
    let map = GameMap::new();
    assert_eq!(map.chunk_size(), 64);
    assert_eq!(map.max_chuncks_x(), 312_500);
    assert_eq!(map.max_chuncks_y(), 312_500);
    assert_eq!(map.max_chuncks_z(), 16);
    assert_eq!(map.surface_level(), 1000);
    assert_eq!(map.level_thickness(), 30);
    assert_eq!(map.random_seed(), oorandom::Rand32::new(10).rand_u32());
    assert_ne!(map.random_seed(), 10);
    assert_eq!(map.chunk_count(), 0);
}

#[test]
fn end_to_end_query() {
    let mut map = GameMap::new();
    let sample = noise_sampler(map.random_seed());
    assert_eq!(
        GameMap::get_chunck_boundries(100, 100, 10, map.chunk_size()),
        (64, 128, 64, 128, 0, 64)
    );
    let tile = map.get_tile(100, 100, 10, &sample);
    assert_eq!(tile.depth, 10);
    assert_eq!((tile.x, tile.y), (100, 100));
    assert_eq!(map.chunk_count(), 1);
    let expected = Tile::from_sample(100, 100, 10, sample(100, 100, 300));
    assert_eq!(tile, expected);
}

#[test]
fn repeated_query_same_tile() {
    let mut map = GameMap::new();
    let tile = map.get_tile(7, 8, 9, &coordinate_sampler);
    let again = map.get_tile(7, 8, 9, &coordinate_sampler);
    assert_eq!(tile, again);
    assert_eq!(map.chunk_count(), 1);
    // a cached chunk answers as it is, whatever the sampler now says
    let other = map.get_tile(7, 8, 9, &|_, _, _| 999_999);
    assert_eq!(other, tile);
}

#[test]
fn tiles_come_from_their_own_point() {
    let mut map = GameMap::new();
    let tile = map.get_tile(5, 6, 3, &coordinate_sampler);
    // depth 3 is sampled at 3 * 30 = 90
    assert_eq!(tile.val, 5 + 600 + 900_000);
    assert_eq!(tile, Tile::from_sample(5, 6, 3, 5 + 600 + 900_000));
    let tile = map.get_tile(63, 1, 0, &coordinate_sampler);
    assert_eq!(tile.val, 63 + 100);
    assert_eq!((tile.x, tile.y, tile.depth), (63, 1, 0));
    let tile = map.get_tile(2, 63, 63, &coordinate_sampler);
    assert_eq!(tile.val, 2 + 6300 + 10_000 * ((63 * 30) % 100));
    assert_eq!(map.chunk_count(), 1);
}

#[test]
fn same_chunk_generated_once() {
    let mut map = GameMap::new();
    map.get_tile(0, 5, 5, &coordinate_sampler);
    map.get_tile(63, 5, 5, &coordinate_sampler);
    assert_eq!(map.chunk_count(), 1);
    map.get_tile(64, 5, 5, &coordinate_sampler);
    assert_eq!(map.chunk_count(), 2);
}

#[test]
fn growth_counts_distinct_chunks() {
    let mut map = GameMap::new();
    let points = [
        (1, 1, 1),
        (70, 1, 1),
        (1, 1, 1),
        (2, 3, 4),
        (127, 63, 63),
        (70, 1, 1),
        (1, 70, 1),
    ];
    for &(x, y, z) in points.iter() {
        map.get_tile(x, y, z, &coordinate_sampler);
    }
    assert_eq!(map.chunk_count(), 3);
    let mut reversed = GameMap::new();
    for &(x, y, z) in points.iter().rev() {
        reversed.get_tile(x, y, z, &coordinate_sampler);
    }
    assert_eq!(reversed.chunk_count(), 3);
    assert_eq!(reversed.get_tile(2, 3, 4, &coordinate_sampler), map.get_tile(2, 3, 4, &coordinate_sampler));
}

#[test]
fn generated_chunk_layout() {
    let chunk = GameMap::generate_map_chunk(
        std::collections::HashMap::new(),
        4,
        6,
        10,
        12,
        2,
        4,
        &2,
        &1,
        &coordinate_sampler,
    );
    assert_eq!(chunk.len(), 2);
    let slice = &chunk[&1];
    let positions: Vec<(u32, u32, u32)> = slice.iter().map(|t| (t.x, t.y, t.depth)).collect();
    assert_eq!(positions, vec![(4, 10, 3), (5, 10, 3), (4, 11, 3), (5, 11, 3)]);
    assert_eq!(chunk[&0][3].val, 5 + 1100 + 20_000);
}

#[test]
fn liquid_pockets_in_generated_rock() {
    let mut map = GameMap::new();
    let tile = map.get_tile(1, 1, 1, &|_, _, _| 20_000);
    assert_eq!(tile.color, ColorName::Blue);
    assert_eq!(tile.glyph, '≈');
}
