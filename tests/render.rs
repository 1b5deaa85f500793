use staticmap::fetchers::one_pixel_bytes;
use staticmap::tiles::request_urls;
use staticmap::{
    composite_tiles, draw_base_layer, replace, tile_requests, Error, NoopTileFetcher, Raster,
    TileFetcher, TileRange, TileRequest,
};
use std::cell::RefCell;

fn requests(n: usize) -> Vec<TileRequest> {
    let range = TileRange { x_min: 0, x_max: n as i32, y_min: 0, y_max: 1 };
    tile_requests("t/{z}/{x}/{y}", 4, &range)
}

fn filled(width: u32, height: u32, value: u8) -> Raster {
    let mut r = Raster::new(width, height).unwrap();
    for b in r.data.iter_mut() {
        *b = value;
    }
    r
}

fn pixel(r: &Raster, x: u32, y: u32) -> &[u8] {
    let i = 4 * (y * r.width + x) as usize;
    &r.data[i..i + 4]
}

fn decoded_one_pixel() -> Vec<u8> {
    tiny_skia::Pixmap::decode_png(&one_pixel_bytes()).unwrap().take()
}

#[test]
fn new_canvas_is_transparent() {
    let c = Raster::new(300, 300).unwrap();
    assert_eq!((c.width, c.height), (300, 300));
    assert_eq!(c.data.len(), 300 * 300 * 4);
    assert!(c.data.iter().all(|&b| b == 0));
}

#[test]
fn zero_area_canvas_is_refused() {
    assert!(Raster::new(0, 10).is_none());
    assert!(Raster::new(10, 0).is_none());
    assert!(Raster::new(536870912, 1).is_none());
    assert!(Raster::new(1, 1).is_some());
}

#[test]
fn replace_overwrites_without_blending() {
    let mut bottom = filled(3, 3, 9);
    let mut top = Raster::new(1, 1).unwrap();
    top.data.copy_from_slice(&[1, 2, 3, 0]);
    replace(&mut bottom, &top, 1, 2);
    assert_eq!(pixel(&bottom, 1, 2), &[1, 2, 3, 0]);
    assert_eq!(pixel(&bottom, 0, 0), &[9, 9, 9, 9]);
    assert_eq!(pixel(&bottom, 2, 2), &[9, 9, 9, 9]);
}

#[test]
fn replace_cuts_off_at_negative_offsets() {
    let mut bottom = filled(2, 2, 0);
    let mut top = Raster::new(2, 2).unwrap();
    for (i, b) in top.data.iter_mut().enumerate() {
        *b = i as u8;
    }
    replace(&mut bottom, &top, -1, -1);
    assert_eq!(pixel(&bottom, 0, 0), &[12, 13, 14, 15]);
    assert_eq!(pixel(&bottom, 1, 0), &[0, 0, 0, 0]);
    assert_eq!(pixel(&bottom, 0, 1), &[0, 0, 0, 0]);
}

#[test]
fn replace_off_canvas_changes_nothing() {
    let mut bottom = filled(2, 2, 5);
    let top = filled(2, 2, 7);
    replace(&mut bottom, &top, 2, 0);
    replace(&mut bottom, &top, -2, 0);
    replace(&mut bottom, &top, 0, 5);
    assert!(bottom.data.iter().all(|&b| b == 5));
}

#[test]
fn tiles_are_written_at_their_offsets() {
    let mut canvas = Raster::new(4, 4).unwrap();
    let offsets = vec![(0, 0), (3, 3), (-1, 1)];
    let results = vec![Ok(one_pixel_bytes()), Ok(one_pixel_bytes()), Ok(one_pixel_bytes())];
    assert!(composite_tiles(&mut canvas, &requests(3), &offsets, results).is_ok());
    let tile = decoded_one_pixel();
    assert_eq!(pixel(&canvas, 0, 0), &tile[..]);
    assert_eq!(pixel(&canvas, 3, 3), &tile[..]);
    assert_eq!(pixel(&canvas, 0, 1), &[0, 0, 0, 0]);
}

#[test]
fn undecodable_tile_fails_with_its_url() {
    let mut canvas = Raster::new(4, 4).unwrap();
    let offsets = vec![(0, 0), (1, 1)];
    let results = vec![Ok(one_pixel_bytes()), Ok(vec![1, 2, 3])];
    match composite_tiles(&mut canvas, &requests(2), &offsets, results) {
        Err(Error::TileDecodingError { url, .. }) => assert_eq!(url, "t/4/1/0"),
        other => panic!("expected a tile decoding error, got {:?}", other),
    }
}

#[test]
fn first_failed_tile_is_reported() {
    let mut canvas = Raster::new(4, 4).unwrap();
    let offsets = vec![(0, 0), (1, 1), (2, 2)];
    let results = vec![
        Ok(one_pixel_bytes()),
        Err(Error::BuildError("second")),
        Err(Error::BuildError("third")),
    ];
    let r = composite_tiles(&mut canvas, &requests(3), &offsets, results);
    assert!(matches!(r, Err(Error::BuildError("second"))));
}

#[test]
fn noop_fetcher_answers_every_url() {
    let urls = ["a", "b", "c"];
    let r = NoopTileFetcher.fetch(&urls);
    assert_eq!(r.len(), 3);
    for res in r {
        assert_eq!(res.unwrap(), one_pixel_bytes());
    }
    assert!(NoopTileFetcher.fetch(&[]).is_empty());
}

#[test]
fn basemap_only_render_succeeds() {
    // Canvas 300x300 at zoom 4 centred on lat 54, lon 4: tiles 7..9 by 4..6.
    let range = TileRange { x_min: 7, x_max: 9, y_min: 4, y_max: 6 };
    let reqs = tile_requests("https://a.tile.osm.org/{z}/{x}/{y}.png", 4, &range);
    let offsets = vec![(-152, -141), (-152, 115), (104, -141), (104, 115)];
    let mut canvas = Raster::new(300, 300).unwrap();
    assert!(draw_base_layer(&mut canvas, &NoopTileFetcher, &reqs, &offsets).is_ok());
    assert_eq!((canvas.width, canvas.height), (300, 300));
    assert_eq!(canvas.data.len(), 300 * 300 * 4);
    assert_eq!(pixel(&canvas, 104, 115), &decoded_one_pixel()[..]);
}

struct FailingFetcher {
    bad: &'static str,
}

impl TileFetcher for FailingFetcher {
    fn fetch(&self, tile_urls: &[&str]) -> Vec<Result<Vec<u8>, Error>> {
        tile_urls
            .iter()
            .map(|u| {
                if *u == self.bad {
                    let io = std::io::Error::new(std::io::ErrorKind::Other, "unreachable host");
                    Err(Error::TileError { error: attohttpc::Error::from(io), url: u.to_string() })
                } else {
                    Ok(one_pixel_bytes())
                }
            })
            .collect()
    }
}

#[test]
fn one_failed_tile_fails_the_render() {
    let range = TileRange { x_min: 7, x_max: 9, y_min: 4, y_max: 6 };
    let reqs = tile_requests("https://a.tile.osm.org/{z}/{x}/{y}.png", 4, &range);
    let offsets = vec![(0, 0); 4];
    let mut canvas = Raster::new(300, 300).unwrap();
    let fetcher = FailingFetcher { bad: "https://a.tile.osm.org/4/8/4.png" };
    match draw_base_layer(&mut canvas, &fetcher, &reqs, &offsets) {
        Err(Error::TileError { url, .. }) => assert_eq!(url, "https://a.tile.osm.org/4/8/4.png"),
        other => panic!("expected a tile error, got {:?}", other),
    }
}

struct RecordingFetcher {
    seen: RefCell<Vec<Vec<String>>>,
}

impl TileFetcher for RecordingFetcher {
    fn fetch(&self, tile_urls: &[&str]) -> Vec<Result<Vec<u8>, Error>> {
        self.seen.borrow_mut().push(tile_urls.iter().map(|u| u.to_string()).collect());
        tile_urls.iter().map(|_| Ok(one_pixel_bytes())).collect()
    }
}

#[test]
fn fetcher_receives_the_tile_urls_once_in_order() {
    let range = TileRange { x_min: 7, x_max: 9, y_min: 4, y_max: 6 };
    let reqs = tile_requests("https://a.tile.osm.org/{z}/{x}/{y}.png", 4, &range);
    let offsets = vec![(-152, -141), (-152, 115), (104, -141), (104, 115)];
    let mut canvas = Raster::new(300, 300).unwrap();
    let fetcher = RecordingFetcher { seen: RefCell::new(Vec::new()) };
    assert!(draw_base_layer(&mut canvas, &fetcher, &reqs, &offsets).is_ok());
    assert_eq!(
        fetcher.seen.into_inner(),
        vec![vec![
            "https://a.tile.osm.org/4/7/4.png".to_string(),
            "https://a.tile.osm.org/4/7/5.png".to_string(),
            "https://a.tile.osm.org/4/8/4.png".to_string(),
            "https://a.tile.osm.org/4/8/5.png".to_string(),
        ]]
    );
}

#[test]
fn world_edge_tile_fetches_the_url_of_tile_zero() {
    let range = TileRange { x_min: 0, x_max: 17, y_min: 16, y_max: 17 };
    let reqs = tile_requests("{z}/{x}/{y}", 4, &range);
    let urls = request_urls(&reqs);
    assert_eq!(urls.len(), 17);
    assert_eq!(urls[16], urls[0]);
    assert_eq!(urls[0], "4/0/0");
}

struct ExtraResultsFetcher;

impl TileFetcher for ExtraResultsFetcher {
    fn fetch(&self, tile_urls: &[&str]) -> Vec<Result<Vec<u8>, Error>> {
        (0..tile_urls.len() + 2).map(|_| Ok(one_pixel_bytes())).collect()
    }
}

#[test]
fn extra_fetch_results_are_ignored() {
    let reqs = requests(2);
    let mut canvas = Raster::new(4, 4).unwrap();
    assert!(draw_base_layer(&mut canvas, &ExtraResultsFetcher, &reqs, &vec![(0, 0), (1, 1)]).is_ok());
}
