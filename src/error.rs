//! The error type of map rendering.
use vstd::prelude::*;
use attohttpc::Error as HttpError;

verus! {

#[verifier::external_type_specification]
#[verifier::external_body]
pub struct ExPngEncodingError(png::EncodingError);

#[verifier::external_type_specification]
#[verifier::external_body]
pub struct ExPngDecodingError(png::DecodingError);

#[verifier::external_type_specification]
#[verifier::external_body]
pub struct ExHttpError(HttpError);

/// All the ways in which building or rendering a map can fail.
#[derive(Debug)]
pub enum Error {
    /// Encoding the image as PNG failed.
    PngEncodingError(png::EncodingError),
    /// Decoding PNG bytes failed.
    PngDecodingError(png::DecodingError),
    /// Fetching a tile from a tile server failed.
    TileError {
        /// What the HTTP client reported.
        error: HttpError,
        /// The URL that failed.
        url: String,
    },
    /// A fetched tile's bytes could not be decoded as PNG.
    TileDecodingError {
        /// What the PNG decoder reported.
        error: png::DecodingError,
        /// The URL of the tile.
        url: String,
    },
    /// Width or height of the image is invalid.
    InvalidSize,
    /// A builder lacks a required field.
    BuildError(&'static str),
}

} // verus!
