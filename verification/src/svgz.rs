//! Gzip compression of SVG text, for the `.svgz` on-disk form.

use vstd::prelude::*;

verus! {

/// Relies on flate2::write::GzEncoder at Compression::best: gzip-compresses
/// the bytes.  The compressed form carries machine-dependent header bytes, so
/// nothing is stated of it; nothing comes back in the (practically
/// unreachable) case that the in-memory encoder reports a write error.
#[verifier::external_body]
pub(crate) fn gzip_bytes(data: &[u8]) -> (r: Option<Vec<u8>>) {
    let mut enc = flate2::write::GzEncoder::new(Vec::new(), flate2::Compression::best());
    match std::io::Write::write_all(&mut enc, data) {
        Ok(()) => enc.finish().ok(),
        Err(_) => None,
    }
}

} // verus!
