use staticmap::template::tile_url;
use staticmap::tiles::world_tiles;
use staticmap::{tile_requests, wrap_tile_index, TileRange};

#[test]
fn world_edge_wraps_to_zero() {
    for zoom in 0..=17u8 {
        let edge = world_tiles(zoom) as i32;
        assert_eq!(wrap_tile_index(edge, zoom), wrap_tile_index(0, zoom));
        assert_eq!(wrap_tile_index(edge, zoom), 0);
    }
}

#[test]
fn negative_and_large_indices_wrap() {
    assert_eq!(wrap_tile_index(-1, 4), 15);
    assert_eq!(wrap_tile_index(-16, 4), 0);
    assert_eq!(wrap_tile_index(-17, 4), 15);
    assert_eq!(wrap_tile_index(33, 4), 1);
    assert_eq!(wrap_tile_index(7, 4), 7);
    assert_eq!(wrap_tile_index(5, 0), 0);
    assert_eq!(wrap_tile_index(i32::MIN, 30), 0);
    assert_eq!(wrap_tile_index(i32::MAX, 30), (1 << 30) - 1);
}

#[test]
fn world_tiles_is_a_power_of_two() {
    assert_eq!(world_tiles(0), 1);
    assert_eq!(world_tiles(4), 16);
    assert_eq!(world_tiles(17), 131072);
    assert_eq!(world_tiles(30), 1 << 30);
}

#[test]
fn url_template_braces() {
    let url = tile_url("https://a.tile.osm.org/{z}/{x}/{y}.png", 4, 7, 5);
    assert_eq!(url, "https://a.tile.osm.org/4/7/5.png");
}

#[test]
fn url_template_percent_placeholders() {
    let url = tile_url("http://tiles.example/%z/%x/%y", 12, 2048, 1360);
    assert_eq!(url, "http://tiles.example/12/2048/1360");
}

#[test]
fn url_template_repeats_and_plain_text() {
    assert_eq!(tile_url("{x}-{x}-{y}{z}", 0, 10, 0), "10-10-00");
    assert_eq!(tile_url("no placeholders {q} %w", 3, 1, 2), "no placeholders {q} %w");
    assert_eq!(tile_url("", 3, 1, 2), "");
    assert_eq!(tile_url("{z", 3, 1, 2), "{z");
    assert_eq!(tile_url("{y}", 1, 1, 4294967295), "4294967295");
}

#[test]
fn requests_cover_range_column_by_column() {
    // Canvas 300x300 at zoom 4 centred on lat 54, lon 4.
    let range = TileRange { x_min: 7, x_max: 9, y_min: 4, y_max: 6 };
    let reqs = tile_requests("https://a.tile.osm.org/{z}/{x}/{y}.png", 4, &range);
    let got: Vec<(i32, i32, &str)> = reqs.iter().map(|r| (r.x, r.y, r.url.as_str())).collect();
    assert_eq!(
        got,
        vec![
            (7, 4, "https://a.tile.osm.org/4/7/4.png"),
            (7, 5, "https://a.tile.osm.org/4/7/5.png"),
            (8, 4, "https://a.tile.osm.org/4/8/4.png"),
            (8, 5, "https://a.tile.osm.org/4/8/5.png"),
        ]
    );
}

#[test]
fn requests_wrap_across_the_antimeridian() {
    let range = TileRange { x_min: -1, x_max: 1, y_min: 2, y_max: 3 };
    let reqs = tile_requests("{z}/{x}/{y}", 1, &range);
    let got: Vec<(i32, i32, String)> = reqs.into_iter().map(|r| (r.x, r.y, r.url)).collect();
    assert_eq!(got, vec![(-1, 2, "1/1/0".to_string()), (0, 2, "1/0/0".to_string())]);
}

#[test]
fn empty_range_has_no_requests() {
    let range = TileRange { x_min: 3, x_max: 3, y_min: 0, y_max: 5 };
    assert!(tile_requests("{z}/{x}/{y}", 3, &range).is_empty());
    let range = TileRange { x_min: 0, x_max: 5, y_min: 4, y_max: 1 };
    assert!(tile_requests("{z}/{x}/{y}", 3, &range).is_empty());
}
