use vstd::prelude::*;

verus! {

/// The error taxonomy of the library.
///
/// `Io` covers read and seek failures on the backing source as well as a
/// malformed cabinet or tape-archive layout (both are reported by the
/// container parsers as I/O failures); `Lzma` covers failures inside the xz
/// decoder; `Zip` covers failures reported by the zip reader.
#[derive(Clone, Copy, Debug, PartialEq, Eq, Structural)]
pub enum Error {
    Io,
    Lzma,
    Zip,
}

} // verus!
