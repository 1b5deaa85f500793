//! The base layer of a map: every tile of the view is fetched at once, and
//! the decoded tiles are written onto the canvas, in order. The first tile
//! that failed to arrive or to decode ends the rendering with its error.
use vstd::prelude::*;
use crate::error::Error;
use crate::fetchers::{url_texts, TileFetcher};
use crate::raster::{blit, decode_png, png_image, replace, Raster};
use crate::tiles::{request_url_texts, request_urls, TileRequest};

verus! {

/// The fetch of a tile succeeded, and its bytes decode to an image.
pub open spec fn tile_ok(r: Result<Vec<u8>, Error>) -> bool {
    r matches Ok(b) && png_image(b@) is Some
}

/// All of the first `n` fetches succeeded and decoded.
pub open spec fn all_ok(results: Seq<Result<Vec<u8>, Error>>, n: int) -> bool {
    forall|i: int| 0 <= i < n ==> tile_ok(#[trigger] results[i])
}

/// The canvas bytes after the first `n` tiles are written over `canvas`,
/// a canvas `width` pixels wide, each at its offset.
pub open spec fn painted(
    canvas: Seq<u8>,
    width: int,
    offsets: Seq<(i32, i32)>,
    results: Seq<Result<Vec<u8>, Error>>,
    n: int,
) -> Seq<u8>
    decreases n,
{
    if n <= 0 {
        canvas
    } else {
        let img = png_image(results[n - 1]->Ok_0@)->Some_0;
        blit(
            painted(canvas, width, offsets, results, n - 1),
            width,
            img.2,
            img.0 as int,
            img.1 as int,
            offsets[n - 1].0 as int,
            offsets[n - 1].1 as int,
        )
    }
}

/// `e` is the error reported for the tile at `url` that failed: the
/// fetch's own error, or, where the bytes arrived and did not decode, a
/// decoding error that names the URL.
pub open spec fn failure_reported(result: Result<Vec<u8>, Error>, url: Seq<char>, e: Error) -> bool {
    match result {
        Err(f) => e == f,
        Ok(_) => e matches Error::TileDecodingError { url: u, .. } && u@ == url,
    }
}

/// The outcome of writing fetched tiles onto a canvas `width` pixels wide
/// whose bytes go from `before` to `after`: success exactly when every tile
/// arrived and decodes, the canvas then holding every tile written in order;
/// otherwise the error of the first tile that did not.
pub open spec fn composited(
    before: Seq<u8>,
    width: int,
    tiles: Seq<TileRequest>,
    offsets: Seq<(i32, i32)>,
    results: Seq<Result<Vec<u8>, Error>>,
    after: Seq<u8>,
    r: Result<(), Error>,
) -> bool {
    &&& (r is Ok <==> all_ok(results, results.len() as int))
    &&& (r is Ok ==> after == painted(before, width, offsets, results, results.len() as int))
    &&& (r matches Err(e) ==> exists|k: int| 0 <= k < results.len() && all_ok(results, k)
        && !tile_ok(#[trigger] results[k]) && failure_reported(results[k], tiles[k].url@, e))
}

/// Writes the fetched tiles onto `canvas`, in order, the `i`-th with its
/// top-left pixel at `offsets[i]`. Succeeds exactly when every fetch
/// succeeded and every tile decodes; otherwise returns the error of the
/// first tile that did not, which for a tile that does not decode names the
/// tile's URL.
pub fn composite_tiles(
    canvas: &mut Raster,
    tiles: &Vec<TileRequest>,
    offsets: &Vec<(i32, i32)>,
    results: Vec<Result<Vec<u8>, Error>>,
) -> (r: Result<(), Error>)
    requires
        old(canvas).wf(),
        offsets.len() == tiles.len(),
        results.len() <= tiles.len(),
    ensures
        final(canvas).wf(),
        final(canvas).width == old(canvas).width,
        final(canvas).height == old(canvas).height,
        composited(old(canvas).data@, old(canvas).width as int, tiles@, offsets@, results@,
            final(canvas).data@, r),
{
    let ghost start = canvas.data@;
    let ghost all = results@;
    let mut pending = results;
    let n = pending.len();
    let mut i: usize = 0;
    while i < n
        invariant
            n == all.len(),
            n <= tiles.len() == offsets.len(),
            results@ == all,
            i <= n,
            pending@ == all.subrange(i as int, n as int),
            canvas.wf(),
            canvas.width == old(canvas).width,
            canvas.height == old(canvas).height,
            start == old(canvas).data@,
            all_ok(all, i as int),
            canvas.data@ == painted(start, canvas.width as int, offsets@, all, i as int),
        decreases n - i,
    {
        let item = pending.remove(0);
        proof {
            assert(item == all[i as int]);
            assert(pending@ =~= all.subrange(i + 1, n as int));
        }
        match item {
            Ok(bytes) => match decode_png(bytes.as_slice()) {
                Ok(tile) => {
                    let (x, y) = offsets[i];
                    replace(canvas, &tile, x, y);
                    proof {
                        assert(all_ok(all, i + 1));
                    }
                    i = i + 1;
                },
                Err(e) => {
                    let err = Error::TileDecodingError { error: e, url: tiles[i].url.clone() };
                    proof {
                        assert(!tile_ok(all[i as int]));
                        assert(failure_reported(all[i as int], tiles@[i as int].url@, err));
                        assert(!all_ok(all, n as int));
                    }
                    return Err(err);
                },
            },
            Err(e) => {
                proof {
                    assert(!tile_ok(all[i as int]));
                    assert(!all_ok(all, n as int));
                }
                return Err(e);
            },
        }
    }
    Ok(())
}

/// Fetches every requested tile through `fetcher`, in one call that is
/// handed the URLs of `requests` in their order, and writes the tiles onto
/// `canvas`, the `i`-th with its top-left pixel at `offsets[i]`. Whatever
/// the fetcher returns, the outcome is that of `composite_tiles` on what
/// it returned for those URLs.
pub fn draw_base_layer<F: TileFetcher>(
    canvas: &mut Raster,
    fetcher: &F,
    requests: &Vec<TileRequest>,
    offsets: &Vec<(i32, i32)>,
) -> (r: Result<(), Error>)
    requires
        old(canvas).wf(),
        offsets.len() == requests.len(),
    ensures
        final(canvas).wf(),
        final(canvas).width == old(canvas).width,
        final(canvas).height == old(canvas).height,
        exists|results: Seq<Result<Vec<u8>, Error>>| results.len() == requests.len()
            && fetcher.fetched(request_url_texts(requests@), results)
            && #[trigger] composited(old(canvas).data@, old(canvas).width as int, requests@,
                offsets@, results, final(canvas).data@, r),
{
    let urls = request_urls(requests);
    let mut results = fetcher.fetch(urls.as_slice());
    let ghost fetched = results@;
    proof {
        assert(url_texts(urls@) =~= request_url_texts(requests@));
    }
    // A fetcher that hands back more results than URLs has the rest ignored.
    results.truncate(requests.len());
    proof {
        assert(results@ =~= fetched);
    }
    let ghost before = canvas.data@;
    let r = composite_tiles(canvas, requests, offsets, results);
    proof {
        assert(composited(before, canvas.width as int, requests@, offsets@, fetched, canvas.data@, r));
    }
    r
}

} // verus!
