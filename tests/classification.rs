use janus_terrain::color_scheme::{get_floor_color, get_stone_color, ColorName, ColorScheme};
use janus_terrain::game_map::{Tile, FLOOR_GLYPH, LIQUID_GLYPH, ROCK_GLYPH};

#[test]
fn stone_ramp_bands() {
    // seven bands of 500_000 / 7 over [0, 500_000]
    let expect = [
        (0, ColorName::Void),
        (71_428, ColorName::Void),
        (71_429, ColorName::Stone1),
        (150_000, ColorName::Stone2),
        (250_000, ColorName::Stone3),
        (300_000, ColorName::Stone4),
        (380_000, ColorName::Stone5),
        (428_571, ColorName::Stone5),
        (428_572, ColorName::Stone6),
        (500_000, ColorName::Stone6),
        (2_000_000, ColorName::Stone6),
    ];
    for (val, color) in expect.iter() {
        assert_eq!(get_stone_color(val, &0, &500_000), *color, "value {}", val);
    }
}

#[test]
fn stone_ramp_catch_all_outside_range() {
    assert_eq!(get_stone_color(&99, &100, &800), ColorName::Stone6);
    assert_eq!(get_stone_color(&100, &100, &800), ColorName::Void);
    assert_eq!(get_stone_color(&801, &100, &800), ColorName::Stone6);
    assert_eq!(get_stone_color(&5, &7, &7), ColorName::Stone6);
    assert_eq!(get_stone_color(&7, &7, &7), ColorName::Stone6);
    assert_eq!(get_stone_color(&5, &9, &3), ColorName::Stone6);
}

#[test]
fn floor_ramp_table() {
    // eight bands of 75_000 over [400_000, 1_000_000]
    let expect = [
        (400_000, ColorName::Stone6),
        (474_999, ColorName::Stone6),
        (475_000, ColorName::Void),
        (549_999, ColorName::Void),
        (550_000, ColorName::Stone5),
        (650_000, ColorName::Stone4),
        (700_000, ColorName::Stone3),
        (799_999, ColorName::Stone2),
        (850_000, ColorName::Void),
        (1_000_000, ColorName::Void),
        (399_999, ColorName::Void),
    ];
    for (val, color) in expect.iter() {
        assert_eq!(get_floor_color(val, &400_000, &1_000_000), *color, "value {}", val);
    }
}

#[test]
fn floor_ramp_empty_range_is_void() {
    assert_eq!(get_floor_color(&10, &10, &10), ColorName::Void);
    assert_eq!(get_floor_color(&10, &20, &10), ColorName::Void);
}

#[test]
fn liquid_override_on_void_rock() {
    let tile = Tile::from_sample(3, 4, 5, 10_000);
    assert_eq!(tile.glyph, LIQUID_GLYPH);
    assert_eq!(tile.glyph, '≈');
    assert_eq!(tile.color, ColorName::Blue);
    assert_eq!((tile.x, tile.y, tile.depth, tile.val), (3, 4, 5, 10_000));
}

#[test]
fn rock_takes_stone_ramp() {
    let tile = Tile::from_sample(0, 0, 0, 100_000);
    assert_eq!(tile.glyph, ROCK_GLYPH);
    assert_eq!(tile.color, ColorName::Stone1);
    let tile = Tile::from_sample(0, 0, 0, 599_999);
    assert_eq!(tile.glyph, '#');
    assert_eq!(tile.color, ColorName::Stone6);
}

#[test]
fn floor_takes_floor_ramp() {
    let tile = Tile::from_sample(0, 0, 0, 600_000);
    assert_eq!(tile.glyph, FLOOR_GLYPH);
    assert_eq!(tile.color, ColorName::Stone5);
    let tile = Tile::from_sample(0, 0, 0, 650_000);
    assert_eq!(tile.glyph, '.');
    assert_eq!(tile.color, ColorName::Stone4);
    // a void floor stays floor: the override is for rock only
    let tile = Tile::from_sample(0, 0, 0, 950_000);
    assert_eq!(tile.glyph, '.');
    assert_eq!(tile.color, ColorName::Void);
}

fn scheme() -> ColorScheme {
    let c = |s: &str| String::from(s);
    ColorScheme {
        bg: c("#282828"),
        fg: c("#ebdbb2"),
        fg0: c("#fbf1c7"),
        fg1: c("#ebdbb2"),
        fg2: c("#d5c4a1"),
        fg3: c("#bdae93"),
        fg4: c("#a89984"),
        gray: c("#a89984"),
        light_gray: c("#928374"),
        red: c("#cc241d"),
        light_red: c("#fb4934"),
        green: c("#98971a"),
        light_green: c("#b8bb26"),
        yellow: c("#d79921"),
        light_yellow: c("#fabd2f"),
        blue: c("#458588"),
        light_blue: c("#83a598"),
        purple: c("#b16286"),
        light_purple: c("#d3869b"),
        aqua: c("#689d6a"),
        light_aqua: c("#8ec07c"),
        orange: c("#d65d0e"),
        light_orange: c("#fe8019"),
        void: c("#1d2021"),
        stone0: c("#282828"),
        stone1: c("#32302f"),
        stone2: c("#3c3836"),
        stone3: c("#504945"),
        stone4: c("#665c54"),
        stone5: c("#7c6f64"),
        stone6: c("#928374"),
    }
}

#[test]
fn color_codes_by_name() {
    let s = scheme();
    assert_eq!(s.get_color_code(&ColorName::Bg), "#282828");
    assert_eq!(s.get_color_code(&ColorName::Blue), "#458588");
    assert_eq!(s.get_color_code(&ColorName::Void), "#1d2021");
    assert_eq!(s.get_color_code(&ColorName::Stone6), "#928374");
    assert_eq!(s.get_color_code(&ColorName::LightOrange), "#fe8019");
}
