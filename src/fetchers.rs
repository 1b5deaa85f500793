//! Fetching of tiles: the capability that the renderer calls with the URLs
//! of all tiles at once, and a fetcher that works offline.
use vstd::prelude::*;
use crate::error::Error;

verus! {

/// Fetches raster tiles by URL.
///
/// Implementations may add caching or throttling. A failed fetch is best
/// reported as `Error::TileError` with the URL that failed.
pub trait TileFetcher {
    /// `results` may be what a fetch of `urls` hands back: by default, one
    /// result for each URL.
    open spec fn fetched(&self, urls: Seq<Seq<char>>, results: Seq<Result<Vec<u8>, Error>>) -> bool {
        results.len() == urls.len()
    }

    /// Fetches the tiles at `tile_urls`: one result for each URL, in the
    /// order of the URLs, the tile's bytes or an error.
    fn fetch(&self, tile_urls: &[&str]) -> (r: Vec<Result<Vec<u8>, Error>>)
        ensures
            r.len() == tile_urls.len(),
            self.fetched(url_texts(tile_urls@), r@),
    ;
}

/// The text of each URL.
pub open spec fn url_texts(urls: Seq<&str>) -> Seq<Seq<char>> {
    urls.map_values(|u: &str| u@)
}

/// The bytes of a PNG image of one gray pixel.
pub open spec fn one_pixel_png() -> Seq<u8> {
    seq![
        137u8, 80, 78, 71, 13, 10, 26, 10, 0, 0, 0, 13, 73, 72, 68, 82, 0, 0, 0, 1, 0, 0, 0, 1,
        8, 4, 0, 0, 0, 181, 28, 12, 2, 0, 0, 0, 11, 73, 68, 65, 84, 120, 218, 99, 100, 96, 0,
        0, 0, 6, 0, 2, 48, 129, 208, 47, 0, 0, 0, 0, 73, 69, 78, 68, 174, 66, 96, 130,
    ]
}

/// The bytes of a PNG image of one gray pixel.
pub fn one_pixel_bytes() -> (r: Vec<u8>)
    ensures
        r@ == one_pixel_png(),
{
    let r: Vec<u8> = vec![
        137, 80, 78, 71, 13, 10, 26, 10, 0, 0, 0, 13, 73, 72, 68, 82, 0, 0, 0, 1, 0, 0, 0, 1,
        8, 4, 0, 0, 0, 181, 28, 12, 2, 0, 0, 0, 11, 73, 68, 65, 84, 120, 218, 99, 100, 96, 0,
        0, 0, 6, 0, 2, 48, 129, 208, 47, 0, 0, 0, 0, 73, 69, 78, 68, 174, 66, 96, 130,
    ];
    assert(r@ =~= one_pixel_png());
    r
}

/// A fetcher that makes no request and hands back a one-pixel PNG for every
/// URL, for use without a network.
#[derive(Clone, Copy, Debug, Default)]
pub struct NoopTileFetcher;

impl TileFetcher for NoopTileFetcher {
    /// One placeholder image for each URL.
    open spec fn fetched(&self, urls: Seq<Seq<char>>, results: Seq<Result<Vec<u8>, Error>>) -> bool {
        &&& results.len() == urls.len()
        &&& forall|i: int| 0 <= i < results.len() ==> ((#[trigger] results[i]) matches Ok(b) && b@ == one_pixel_png())
    }

    fn fetch(&self, tile_urls: &[&str]) -> (r: Vec<Result<Vec<u8>, Error>>)
        ensures
            forall|i: int| 0 <= i < r.len() ==> ((#[trigger] r[i]) matches Ok(b) && b@ == one_pixel_png()),
    {
        let mut r: Vec<Result<Vec<u8>, Error>> = Vec::new();
        let mut i: usize = 0;
        while i < tile_urls.len()
            invariant
                i <= tile_urls.len(),
                r.len() == i,
                forall|k: int| 0 <= k < r.len() ==> ((#[trigger] r[k]) matches Ok(b) && b@ == one_pixel_png()),
            decreases tile_urls.len() - i,
        {
            r.push(Ok(one_pixel_bytes()));
            i = i + 1;
        }
        r
    }
}

} // verus!
