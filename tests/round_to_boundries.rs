use janus_terrain::game_map::GameMap;

#[test]
fn test_round_to_boundries_0() {
    let n = 0;
    let m = 64;
    let (min, max) = GameMap::round_to_boundries(n, m);
    println!("min: {:?} == 0", min);
    println!("max: {:?} == 64", max);
    assert_eq!(min, 0);
    assert_eq!(max, 64);
}

#[test]
fn test_round_to_boundries_1() {
    let n = 1;
    let m = 64;
    let (min, max) = GameMap::round_to_boundries(n, m);
    println!("min: {:?} == 0", min);
    println!("max: {:?} == 64", max);
    assert_eq!(min, 0);
    assert_eq!(max, 64);
}

#[test]
fn test_round_to_boundries_63() {
    let n = 63;
    let m = 64;
    let (min, max) = GameMap::round_to_boundries(n, m);
    println!("min: {:?} == 0", min);
    println!("max: {:?} == 64", max);
    assert_eq!(min, 0);
    assert_eq!(max, 64);
}

#[test]
fn test_round_to_boundries_64() {
    let n = 64;
    let m = 64;
    let (min, max) = GameMap::round_to_boundries(n, m);
    println!("min: {:?} == 0", min);
    println!("max: {:?} == 64", max);
    assert_eq!(min, 0);
    assert_eq!(max, 64);
}

#[test]
fn test_round_to_boundries_128() {
    let n = 128;
    let m = 64;
    let (min, max) = GameMap::round_to_boundries(n, m);
    println!("min: {:?} == 64", min);
    println!("max: {:?} == 128", max);
    assert_eq!(min, 64);
    assert_eq!(max, 128);
}

#[test]
fn test_round_to_boundries_129() {
    let n = 129;
    let m = 64;
    let (min, max) = GameMap::round_to_boundries(n, m);
    println!("min: {:?} == 128", min);
    println!("max: {:?} == 192", max);
    assert_eq!(min, 128);
    assert_eq!(max, 192);
}

#[test]
fn test_round_to_boundries_192() {
    let n = 192;
    let m = 64;
    let (min, max) = GameMap::round_to_boundries(n, m);
    println!("min: {:?} == 128", min);
    println!("max: {:?} == 192", max);
    assert_eq!(min, 128);
    assert_eq!(max, 192);
}

#[test]
fn test_round_to_boundries_175() {
    let n = 175;
    let m = 64;
    let (min, max) = GameMap::round_to_boundries(n, m);
    println!("min: {:?} == 128", min);
    println!("max: {:?} == 192", max);
    assert_eq!(min, 128);
    assert_eq!(max, 192);
}

#[test]
fn round_to_boundries_other_edge() {
    assert_eq!(GameMap::round_to_boundries(10, 3), (9, 12));
    assert_eq!(GameMap::round_to_boundries(9, 3), (6, 9));
    assert_eq!(GameMap::round_to_boundries(0, 3), (0, 3));
}

#[test]
fn chunk_boundries_move_boundary_points_up() {
    assert_eq!(GameMap::get_chunck_boundries(0, 0, 0, 64), (0, 64, 0, 64, 0, 64));
    assert_eq!(GameMap::get_chunck_boundries(63, 63, 63, 64), (0, 64, 0, 64, 0, 64));
    assert_eq!(GameMap::get_chunck_boundries(64, 128, 127, 64), (64, 128, 128, 192, 64, 128));
    assert_eq!(GameMap::get_chunck_boundries(100, 100, 10, 64), (64, 128, 64, 128, 0, 64));
}
