//! Tile addressing: the number of tiles per axis at a zoom level, and the
//! wrapping of tile indices onto the world.
use vstd::prelude::*;
use vstd::arithmetic::power2::{pow2, lemma2_to64, lemma_pow2_unfold, lemma_pow2_pos};
use vstd::arithmetic::div_mod::lemma_fundamental_div_mod_converse;
use vstd::arithmetic::div_mod::lemma_fundamental_div_mod;
use crate::template::{tile_url, tile_url_spec};

verus! {

/// The largest zoom level whose tile count per axis fits an `i32`.
pub const MAX_TILE_ZOOM: u8 = 30;

/// Number of tiles along one axis of the world at `zoom`.
pub open spec fn world_size(zoom: nat) -> int {
    pow2(zoom) as int
}

/// A tile index wrapped onto the world: the remainder modulo the world size.
pub open spec fn wrap_spec(index: int, zoom: nat) -> int {
    index % world_size(zoom)
}

/// Number of tiles along one axis of the world at `zoom`, that is `2^zoom`.
pub fn world_tiles(zoom: u8) -> (r: u32)
    requires
        zoom <= MAX_TILE_ZOOM,
    ensures
        r as int == world_size(zoom as nat),
{
    proof {
        lemma2_to64();
    }
    let mut r: u32 = 1;
    let mut k: u8 = 0;
    while k < zoom
        invariant
            k <= zoom <= 30,
            r as int == pow2(k as nat),
            pow2(30) == 0x40000000,
        decreases zoom - k,
    {
        proof {
            lemma_pow2_unfold((k + 1) as nat);
            if k + 1 < 30 {
                vstd::arithmetic::power2::lemma_pow2_strictly_increases((k + 1) as nat, 30);
            }
        }
        r = r * 2;
        k = k + 1;
    }
    r
}

/// Wraps a tile index onto the world at `zoom`: the result is the index
/// modulo `2^zoom`, in `0 .. 2^zoom`, also for negative indices.
pub fn wrap_tile_index(index: i32, zoom: u8) -> (r: i32)
    requires
        zoom <= MAX_TILE_ZOOM,
    ensures
        r as int == wrap_spec(index as int, zoom as nat),
        0 <= r < world_size(zoom as nat),
{
    let m = world_tiles(zoom);
    proof {
        lemma2_to64();
        lemma_pow2_pos(zoom as nat);
        if zoom < 30 {
            vstd::arithmetic::power2::lemma_pow2_strictly_increases(zoom as nat, 30);
        }
    }
    if index >= 0 {
        let r = (index as u32) % m;
        r as i32
    } else {
        let a: u32 = (0i64 - index as i64) as u32;
        let r = a % m;
        proof {
            let mi = m as int;
            let ai = a as int;
            lemma_fundamental_div_mod(ai, mi);
            let q = ai / mi;
            let rem = ai % mi;
            if rem == 0 {
                assert(-ai == (-q) * mi + 0) by (nonlinear_arith)
                    requires ai == mi * q + rem, rem == 0;
                lemma_fundamental_div_mod_converse(-ai, mi, -q, 0);
            } else {
                assert(-ai == (-q - 1) * mi + (mi - rem)) by (nonlinear_arith)
                    requires ai == mi * q + rem;
                lemma_fundamental_div_mod_converse(-ai, mi, -q - 1, mi - rem);
            }
        }
        if r == 0 {
            0
        } else {
            (m - r) as i32
        }
    }
}

/// A tile index and the same index shifted by whole worlds wrap to the same
/// tile, at every zoom level.
pub proof fn lemma_wrap_periodic(index: int, worlds: int, zoom: nat)
    ensures
        wrap_spec(index + worlds * world_size(zoom), zoom) == wrap_spec(index, zoom),
{
    let m = world_size(zoom);
    lemma_pow2_pos(zoom);
    lemma_fundamental_div_mod(index, m);
    vstd::arithmetic::mul::lemma_mul_is_distributive_add(m, index / m, worlds);
    lemma_fundamental_div_mod_converse(index + worlds * m, m, index / m + worlds, index % m);
}

/// The tile index `2^zoom` wraps onto the same tile as index `0`.
pub proof fn lemma_wrap_world_edge(zoom: nat)
    ensures
        wrap_spec(world_size(zoom), zoom) == wrap_spec(0, zoom),
{
    lemma_wrap_periodic(0, 1, zoom);
}

/// The tile indices that cover a canvas: columns `x_min .. x_max` and rows
/// `y_min .. y_max`, before wrapping onto the world.
#[derive(Clone, Copy, Debug, PartialEq, Eq)]
pub struct TileRange {
    pub x_min: i32,
    pub x_max: i32,
    pub y_min: i32,
    pub y_max: i32,
}

impl TileRange {
    /// Number of columns of the range (none where `x_max <= x_min`).
    pub open spec fn cols(&self) -> int {
        if self.x_max > self.x_min { self.x_max - self.x_min } else { 0 }
    }

    /// Number of rows of the range (none where `y_max <= y_min`).
    pub open spec fn rows(&self) -> int {
        if self.y_max > self.y_min { self.y_max - self.y_min } else { 0 }
    }

    /// Column of the `k`-th tile of the range, column by column.
    pub open spec fn col_of(&self, k: int) -> int {
        self.x_min + k / self.rows()
    }

    /// Row of the `k`-th tile of the range, column by column.
    pub open spec fn row_of(&self, k: int) -> int {
        self.y_min + k % self.rows()
    }
}

/// One tile to fetch: its unwrapped indices and the URL of the wrapped tile.
#[derive(Clone, Debug)]
pub struct TileRequest {
    pub x: i32,
    pub y: i32,
    pub url: String,
}

/// The URL for tile (`x`, `y`) at `zoom`: that of the tile the indices wrap
/// onto.
pub open spec fn wrapped_tile_url(template: Seq<char>, zoom: nat, x: int, y: int) -> Seq<char> {
    tile_url_spec(template, zoom, wrap_spec(x, zoom) as nat, wrap_spec(y, zoom) as nat)
}

/// The request for tile (`x`, `y`): the indices as given, and the URL of the
/// tile that they wrap onto.
pub open spec fn request_matches(req: TileRequest, template: Seq<char>, zoom: nat, x: int, y: int) -> bool {
    &&& req.x == x
    &&& req.y == y
    &&& req.url@ == wrapped_tile_url(template, zoom, x, y)
}

/// Tile column `2^zoom` gets the URL of column 0, and tile row `2^zoom` that
/// of row 0.
pub proof fn lemma_world_edge_same_url(template: Seq<char>, zoom: nat, x: int, y: int)
    ensures
        wrapped_tile_url(template, zoom, world_size(zoom), y) == wrapped_tile_url(template, zoom, 0, y),
        wrapped_tile_url(template, zoom, x, world_size(zoom)) == wrapped_tile_url(template, zoom, x, 0),
{
    lemma_wrap_world_edge(zoom);
}

/// The URL text of each request.
pub open spec fn request_url_texts(requests: Seq<TileRequest>) -> Seq<Seq<char>> {
    requests.map_values(|r: TileRequest| r.url@)
}

/// The URLs of `requests`, in order.
pub fn request_urls(requests: &Vec<TileRequest>) -> (r: Vec<&str>)
    ensures
        r.len() == requests.len(),
        forall|k: int| 0 <= k < r.len() ==> (#[trigger] r[k])@ == requests[k].url@,
{
    let mut urls: Vec<&str> = Vec::new();
    let mut i: usize = 0;
    while i < requests.len()
        invariant
            i <= requests.len(),
            urls.len() == i,
            forall|k: int| 0 <= k < i ==> (#[trigger] urls[k])@ == requests[k].url@,
        decreases requests.len() - i,
    {
        urls.push(requests[i].url.as_str());
        i = i + 1;
    }
    urls
}

/// The requests for every tile of `range`, column by column and, within a
/// column, row by row. Each URL names the tile that the indices wrap onto.
pub fn tile_requests(template: &str, zoom: u8, range: &TileRange) -> (r: Vec<TileRequest>)
    requires
        zoom <= MAX_TILE_ZOOM,
    ensures
        r.len() == range.cols() * range.rows(),
        forall|k: int| 0 <= k < r.len() ==> request_matches(#[trigger] r[k], template@, zoom as nat,
            range.col_of(k), range.row_of(k)),
{
    let mut r: Vec<TileRequest> = Vec::new();
    if range.x_max <= range.x_min || range.y_max <= range.y_min {
        proof {
            assert(range.cols() * range.rows() == 0) by (nonlinear_arith)
                requires range.cols() == 0 || range.rows() == 0;
        }
        return r;
    }
    let ghost rows = range.rows();
    let mut x = range.x_min;
    while x < range.x_max
        invariant
            zoom <= 30,
            range.x_min <= x <= range.x_max,
            range.y_min < range.y_max,
            rows == range.rows(),
            r.len() == (x - range.x_min) * rows,
            forall|k: int| 0 <= k < r.len() ==> request_matches(#[trigger] r[k], template@, zoom as nat,
                range.col_of(k), range.row_of(k)),
        decreases range.x_max - x,
    {
        let tile_x = wrap_tile_index(x, zoom);
        let mut y = range.y_min;
        while y < range.y_max
            invariant
                zoom <= 30,
                range.x_min <= x < range.x_max,
                range.y_min <= y <= range.y_max,
                rows == range.rows(),
                tile_x as int == wrap_spec(x as int, zoom as nat),
                0 <= tile_x,
                r.len() == (x - range.x_min) * rows + (y - range.y_min),
                forall|k: int| 0 <= k < r.len() ==> request_matches(#[trigger] r[k], template@, zoom as nat,
                    range.col_of(k), range.row_of(k)),
            decreases range.y_max - y,
        {
            let tile_y = wrap_tile_index(y, zoom);
            let url = tile_url(template, zoom as u32, tile_x as u32, tile_y as u32);
            let ghost k = r.len() as int;
            proof {
                lemma_fundamental_div_mod_converse(k, rows, (x - range.x_min) as int, (y - range.y_min) as int);
            }
            r.push(TileRequest { x, y, url });
            proof {
                assert(request_matches(r[k], template@, zoom as nat, range.col_of(k), range.row_of(k)));
            }
            y = y + 1;
        }
        proof {
            assert((x - range.x_min) * rows + rows == (x + 1 - range.x_min) * rows) by (nonlinear_arith);
        }
        x = x + 1;
    }
    r
}

} // verus!
