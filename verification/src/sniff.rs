use vstd::prelude::*;

verus! {

/// A classification of a byte source into one of the known
/// (container format, compression transform) pairs.
///
/// The compression transforms are always composed over the tape-archive
/// container, so each transform appears as its own pair.
#[derive(Clone, Copy, Debug, PartialEq, Eq, Structural)]
pub enum Format {
    Cab,
    Tar,
    Bzip2Tar,
    GzipTar,
    LzmaTar,
    Zip,
}

/// The 4-byte cabinet magic marker (`M` `S` `C` `F`) stands at offset `i` of `b`.
///
/// This is shared between the sniffer (which only looks at offset 0) and the
/// embedded-archive scanner (which searches the whole buffer for it).
pub open spec fn cab_signature_at(b: Seq<u8>, i: int) -> bool {
    &&& 0 <= i
    &&& i + 4 <= b.len()
    &&& b[i] == 0x4du8
    &&& b[i + 1] == 0x53u8
    &&& b[i + 2] == 0x43u8
    &&& b[i + 3] == 0x46u8
}

/// The gzip magic marker with the deflate method byte.
pub open spec fn gzip_signature(b: Seq<u8>) -> bool {
    b.len() >= 3 && b[0] == 0x1fu8 && b[1] == 0x8bu8 && b[2] == 0x08u8
}

/// The bzip2 magic marker (`B` `Z` `h`).
pub open spec fn bzip2_signature(b: Seq<u8>) -> bool {
    b.len() >= 3 && b[0] == 0x42u8 && b[1] == 0x5au8 && b[2] == 0x68u8
}

/// The xz stream magic marker.
pub open spec fn xz_signature(b: Seq<u8>) -> bool {
    &&& b.len() >= 6
    &&& b[0] == 0xfdu8
    &&& b[1] == 0x37u8
    &&& b[2] == 0x7au8
    &&& b[3] == 0x58u8
    &&& b[4] == 0x5au8
    &&& b[5] == 0x00u8
}

/// One of the three zip record markers: a local file header, an empty
/// central directory end record, or a spanned archive marker.
pub open spec fn zip_signature(b: Seq<u8>) -> bool {
    &&& b.len() >= 4
    &&& b[0] == 0x50u8
    &&& b[1] == 0x4bu8
    &&& {
        ||| b[2] == 0x03u8 && b[3] == 0x04u8
        ||| b[2] == 0x05u8 && b[3] == 0x06u8
        ||| b[2] == 0x07u8 && b[3] == 0x08u8
    }
}

/// The `ustar` marker that a POSIX tape-archive header carries at offset 257.
pub open spec fn tar_signature(b: Seq<u8>) -> bool {
    &&& b.len() >= 262
    &&& b[257] == 0x75u8
    &&& b[258] == 0x73u8
    &&& b[259] == 0x74u8
    &&& b[260] == 0x61u8
    &&& b[261] == 0x72u8
}

/// What the sniffer must answer on a prefix `b` of a source: the first
/// matching signature under a fixed precedence, or `None` when no signature
/// matches ("indeterminate", the trigger for embedded-archive scanning).
///
/// All markers anchored at offset 0 are tested before the tape-archive
/// marker, which sits deep inside the first header block and could otherwise
/// shadow a compressed stream that happens to contain `ustar` there.
pub open spec fn classification(b: Seq<u8>) -> Option<Format> {
    if cab_signature_at(b, 0) {
        Some(Format::Cab)
    } else if gzip_signature(b) {
        Some(Format::GzipTar)
    } else if bzip2_signature(b) {
        Some(Format::Bzip2Tar)
    } else if xz_signature(b) {
        Some(Format::LzmaTar)
    } else if zip_signature(b) {
        Some(Format::Zip)
    } else if tar_signature(b) {
        Some(Format::Tar)
    } else {
        None
    }
}

/// Classify a byte prefix of a source into a known (container, compression)
/// pair, or report that the source is not classifiable by signature.
///
/// Only a small fixed prefix is inspected (at most 262 bytes), and the
/// source is not consumed: the caller hands in whatever prefix it has.
pub fn sniff(bytes: &Vec<u8>) -> (r: Option<Format>)
    ensures
        r == classification(bytes@),
{
    if bytes.len() >= 4 && bytes[0] == 0x4d && bytes[1] == 0x53 && bytes[2] == 0x43
        && bytes[3] == 0x46 {
        Some(Format::Cab)
    } else if bytes.len() >= 3 && bytes[0] == 0x1f && bytes[1] == 0x8b && bytes[2] == 0x08 {
        Some(Format::GzipTar)
    } else if bytes.len() >= 3 && bytes[0] == 0x42 && bytes[1] == 0x5a && bytes[2] == 0x68 {
        Some(Format::Bzip2Tar)
    } else if bytes.len() >= 6 && bytes[0] == 0xfd && bytes[1] == 0x37 && bytes[2] == 0x7a
        && bytes[3] == 0x58 && bytes[4] == 0x5a && bytes[5] == 0x00 {
        Some(Format::LzmaTar)
    } else if bytes.len() >= 4 && bytes[0] == 0x50 && bytes[1] == 0x4b
        && ((bytes[2] == 0x03 && bytes[3] == 0x04) || (bytes[2] == 0x05 && bytes[3] == 0x06)
            || (bytes[2] == 0x07 && bytes[3] == 0x08)) {
        Some(Format::Zip)
    } else if bytes.len() >= 262 && bytes[257] == 0x75 && bytes[258] == 0x73
        && bytes[259] == 0x74 && bytes[260] == 0x61 && bytes[261] == 0x72 {
        Some(Format::Tar)
    } else {
        None
    }
}

} // verus!
