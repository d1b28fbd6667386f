use vstd::prelude::*;

use crate::error::Error;
use crate::{Directory, Entry, LendingIterator};

verus! {

/// What a sequential pass over a tape archive yields before the walk
/// stops: every member when each header is well formed, else the members
/// read before the first malformed or truncated header, in header-stream
/// order. The format has no central directory, so this is exactly what
/// the stream of headers determines; a function of the bytes alone.
pub uninterp spec fn tar_members(b: Seq<u8>) -> Directory;

/// The sequential walk over `b` ends cleanly (at the end-of-archive
/// marker or the end of the stream), with no malformed or truncated
/// header and no member cut short; a function of the bytes alone.
pub uninterp spec fn tar_complete(b: Seq<u8>) -> bool;

/// What inflating a gzip stream yields, or `None` when the stream is not a
/// well-formed gzip stream; a function of the bytes alone.
pub uninterp spec fn gz_plain(b: Seq<u8>) -> Option<Seq<u8>>;

/// What decoding a bzip2 stream yields, or `None` when the stream is not a
/// well-formed bzip2 stream; a function of the bytes alone.
pub uninterp spec fn bz_plain(b: Seq<u8>) -> Option<Seq<u8>>;

/// What decoding an xz stream yields, or `None` when the stream is not a
/// well-formed xz stream; a function of the bytes alone.
pub uninterp spec fn xz_plain(b: Seq<u8>) -> Option<Seq<u8>>;

/// Relies on tar::Archive::entries of the tar crate: the iterator walks
/// the header blocks in stream order and hands out each member exactly
/// once, until the stream ends or a header is malformed; reading a member
/// to its end hands back its recorded content. The members decoded before
/// a failure are kept — damage costs the tail of the walk, not its good
/// prefix. A path that is not valid UTF-8 is carried over lossily.
#[verifier::external_body]
fn tar_list(bytes: &Vec<u8>) -> (r: (Vec<(String, Vec<u8>)>, bool))
    ensures
        r.0@.map_values(|m: (String, Vec<u8>)| (m.0@, m.1@)) == tar_members(bytes@),
        r.1 <==> tar_complete(bytes@),
{
    let mut archive = tar::Archive::new(bytes.as_slice());
    let Ok(entries) = archive.entries() else { return (Vec::new(), false) };
    let mut members = Vec::new();
    for entry in entries {
        let Ok(mut entry) = entry else { return (members, false) };
        let path = String::from_utf8_lossy(&entry.path_bytes()).into_owned();
        let mut data = Vec::new();
        if std::io::Read::read_to_end(&mut entry, &mut data).is_err() {
            return (members, false);
        }
        members.push((path, data));
    }
    (members, true)
}

/// Relies on flate2::read::GzDecoder: inflates one gzip stream; success and
/// the inflated bytes depend on the input bytes alone.
#[verifier::external_body]
fn gz_decode(bytes: &Vec<u8>) -> (r: Result<Vec<u8>, Error>)
    ensures
        r is Ok <==> gz_plain(bytes@) is Some,
        r is Ok ==> r->Ok_0@ == gz_plain(bytes@)->Some_0,
        r is Err ==> r->Err_0 == Error::Io,
{
    let mut decoder = flate2::read::GzDecoder::new(bytes.as_slice());
    let mut data = Vec::new();
    match std::io::Read::read_to_end(&mut decoder, &mut data) {
        Ok(_) => Ok(data),
        Err(_) => Err(Error::Io),
    }
}

/// Relies on bzip2::read::BzDecoder: decodes one bzip2 stream; success and
/// the decoded bytes depend on the input bytes alone.
#[verifier::external_body]
fn bz_decode(bytes: &Vec<u8>) -> (r: Result<Vec<u8>, Error>)
    ensures
        r is Ok <==> bz_plain(bytes@) is Some,
        r is Ok ==> r->Ok_0@ == bz_plain(bytes@)->Some_0,
        r is Err ==> r->Err_0 == Error::Io,
{
    let mut decoder = bzip2::read::BzDecoder::new(bytes.as_slice());
    let mut data = Vec::new();
    match std::io::Read::read_to_end(&mut decoder, &mut data) {
        Ok(_) => Ok(data),
        Err(_) => Err(Error::Io),
    }
}

/// Relies on lzma::reader::LzmaReader::new_decompressor and its Read
/// implementation: decodes one xz stream; success and the decoded bytes
/// depend on the input bytes alone. A failure to set the decoder up is
/// reported as `Lzma`, a failure while decoding as `Io`.
#[verifier::external_body]
fn xz_decode(bytes: &Vec<u8>) -> (r: Result<Vec<u8>, Error>)
    ensures
        r is Ok <==> xz_plain(bytes@) is Some,
        r is Ok ==> r->Ok_0@ == xz_plain(bytes@)->Some_0,
        r is Err ==> r->Err_0 == Error::Lzma || r->Err_0 == Error::Io,
{
    let mut decoder = match lzma::reader::LzmaReader::new_decompressor(bytes.as_slice()) {
        Ok(decoder) => decoder,
        Err(_) => return Err(Error::Lzma),
    };
    let mut data = Vec::new();
    match std::io::Read::read_to_end(&mut decoder, &mut data) {
        Ok(_) => Ok(data),
        Err(_) => Err(Error::Io),
    }
}

/// Law: members enumerated through the bzip2 adapter over a tape archive
/// are exactly the members of the decoded, uncompressed equivalent
/// archive, and the walk ends cleanly over one exactly when it does over
/// the other.
pub proof fn lemma_bzip2_tar_composition(compressed: Seq<u8>, plain: Seq<u8>)
    requires
        bz_plain(compressed) == Some(plain),
    ensures
        tar_members(bz_plain(compressed)->Some_0) == tar_members(plain),
        tar_complete(bz_plain(compressed)->Some_0) == tar_complete(plain),
{
}

/// Law: members enumerated through the gzip adapter over a tape archive
/// are exactly the members of the inflated, uncompressed equivalent
/// archive, and the walk ends cleanly over one exactly when it does over
/// the other.
pub proof fn lemma_gzip_tar_composition(compressed: Seq<u8>, plain: Seq<u8>)
    requires
        gz_plain(compressed) == Some(plain),
    ensures
        tar_members(gz_plain(compressed)->Some_0) == tar_members(plain),
        tar_complete(gz_plain(compressed)->Some_0) == tar_complete(plain),
{
}

/// Law: members enumerated through the xz adapter over a tape archive are
/// exactly the members of the decoded, uncompressed equivalent archive,
/// and the walk ends cleanly over one exactly when it does over the other.
pub proof fn lemma_lzma_tar_composition(compressed: Seq<u8>, plain: Seq<u8>)
    requires
        xz_plain(compressed) == Some(plain),
    ensures
        tar_members(xz_plain(compressed)->Some_0) == tar_members(plain),
        tar_complete(xz_plain(compressed)->Some_0) == tar_complete(plain),
{
}

/// One member of a tape archive, fully decoded: a readable stream over the
/// member's content plus its logical path.
pub struct TarEntry {
    path: String,
    data: Vec<u8>,
    pos: usize,
}

impl Entry for TarEntry {
    closed spec fn entry_path(&self) -> Seq<char> {
        self.path@
    }

    closed spec fn entry_data(&self) -> Seq<u8> {
        self.data@
    }

    closed spec fn entry_pos(&self) -> int {
        self.pos as int
    }

    fn path(&self) -> (r: String) {
        self.path.clone()
    }

    fn size(&self) -> (r: usize) {
        self.data.len()
    }

    fn read(&mut self, n: usize) -> (r: Vec<u8>) {
        let len = self.data.len();
        let end = if n <= len - self.pos { self.pos + n } else { len };
        let mut out: Vec<u8> = Vec::new();
        let mut i = self.pos;
        while i < end
            invariant
                self.pos <= i <= end <= self.data@.len(),
                self.data@ == old(self).data@,
                self.pos == old(self).pos,
                self.path@ == old(self).path@,
                out@ == self.data@.subrange(self.pos as int, i as int),
            decreases end - i,
        {
            let b = self.data[i];
            out.push(b);
            i = i + 1;
        }
        self.pos = end;
        out
    }
}

/// The sequential cursor over a tape archive's members.
///
/// The underlying header stream was consumed when this cursor was created,
/// so the cursor owns every remaining member outright and each step moves
/// one member out.
pub struct TarEntries {
    members: Vec<(String, Vec<u8>)>,
    failed: bool,
}

impl TarEntries {
    /// The members not yet handed out, in header-stream order.
    pub closed spec fn remaining(&self) -> Directory {
        self.members@.map_values(|m: (String, Vec<u8>)| (m.0@, m.1@))
    }

    /// The walk hit a bad header behind the remaining members: one error
    /// step is still owed before exhaustion.
    pub closed spec fn pending_error(&self) -> bool {
        self.failed
    }
}

impl LendingIterator for TarEntries {
    type Item = Result<TarEntry, Error>;

    /// The cursor owns its members outright; nothing further must hold.
    open spec fn inv(&self) -> bool {
        true
    }

    /// Advance the cursor: hand out the next member; after the last one,
    /// report the bad header the walk stopped at, if any, and then
    /// exhaustion.
    fn next(&mut self) -> (r: Option<Result<TarEntry, Error>>)
        ensures
            old(self).remaining().len() == 0 && !old(self).pending_error() ==> r is None
                && final(self).remaining() == old(self).remaining()
                && !final(self).pending_error(),
            old(self).remaining().len() == 0 && old(self).pending_error() ==> {
                &&& r matches Some(Err(err)) && err == Error::Io
                &&& final(self).remaining() == old(self).remaining()
                &&& !final(self).pending_error()
            },
            old(self).remaining().len() > 0 ==> {
                &&& r matches Some(Ok(e))
                    && e.entry_path() == old(self).remaining()[0].0
                    && e.entry_data() == old(self).remaining()[0].1
                    && e.entry_pos() == 0
                &&& final(self).remaining() == old(self).remaining().drop_first()
                &&& final(self).pending_error() == old(self).pending_error()
            },
    {
        if self.members.len() == 0 {
            if self.failed {
                self.failed = false;
                Some(Err(Error::Io))
            } else {
                None
            }
        } else {
            let (path, data) = self.members.remove(0);
            proof {
                assert(final(self).remaining() =~= old(self).remaining().drop_first());
            }
            Some(Ok(TarEntry { path, data, pos: 0 }))
        }
    }
}

/// A tape archive over an owned byte source.
///
/// Nothing is parsed at construction: the format has no central directory,
/// so members are discovered by the single sequential enumeration, which
/// consumes the header stream and cannot be repeated. Damage in the
/// stream costs only the tail of that walk: the members before it are
/// still handed out, followed by one error step in place of the rest.
pub struct TarArchive {
    bytes: Vec<u8>,
    consumed: bool,
}

impl TarArchive {
    /// The raw bytes of the backing source.
    pub closed spec fn source(&self) -> Seq<u8> {
        self.bytes@
    }

    /// The single sequential enumeration has already been handed out.
    pub closed spec fn is_consumed(&self) -> bool {
        self.consumed
    }

    /// Wrap an owned byte source as a tape archive.
    pub fn new(bytes: Vec<u8>) -> (r: Result<TarArchive, Error>)
        ensures
            r is Ok,
            r->Ok_0.source() == bytes@,
            !r->Ok_0.is_consumed(),
    {
        Ok(TarArchive { bytes, consumed: false })
    }

    /// Hand out the single sequential cursor over the members.
    ///
    /// The header stream is consumed by this call; asking again is rejected,
    /// as re-enumeration would need the source to be reopened.
    pub fn cursor(&mut self) -> (r: Result<TarEntries, Error>)
        ensures
            final(self).source() == old(self).source(),
            old(self).is_consumed() ==> r is Err && r->Err_0 == Error::Io
                && final(self).is_consumed(),
            !old(self).is_consumed() ==> {
                &&& r is Ok
                &&& final(self).is_consumed()
                &&& r->Ok_0.remaining() == tar_members(old(self).source())
                &&& (r->Ok_0.pending_error() <==> !tar_complete(old(self).source()))
            },
    {
        if self.consumed {
            return Err(Error::Io);
        }
        let (members, complete) = tar_list(&self.bytes);
        self.consumed = true;
        Ok(TarEntries { members, failed: !complete })
    }
}

/// A tape archive read through the bzip2 decoder.
pub struct Bzip2TarArchive {
    bytes: Vec<u8>,
    consumed: bool,
}

impl Bzip2TarArchive {
    /// The raw, still compressed bytes of the backing source.
    pub closed spec fn source(&self) -> Seq<u8> {
        self.bytes@
    }

    /// The single sequential enumeration has already been handed out.
    pub closed spec fn is_consumed(&self) -> bool {
        self.consumed
    }

    /// Wrap an owned, bzip2-compressed byte source as a tape archive.
    pub fn new(bytes: Vec<u8>) -> (r: Result<Bzip2TarArchive, Error>)
        ensures
            r is Ok,
            r->Ok_0.source() == bytes@,
            !r->Ok_0.is_consumed(),
    {
        Ok(Bzip2TarArchive { bytes, consumed: false })
    }

    /// Hand out the single sequential cursor over the members of the
    /// decoded archive.
    pub fn cursor(&mut self) -> (r: Result<TarEntries, Error>)
        ensures
            final(self).source() == old(self).source(),
            old(self).is_consumed() ==> r is Err && r->Err_0 == Error::Io
                && final(self).is_consumed(),
            !old(self).is_consumed() ==> {
                &&& (r is Ok <==> bz_plain(old(self).source()) is Some)
                &&& r is Ok ==> final(self).is_consumed()
                &&& r matches Ok(c) ==> {
                    &&& c.remaining() == tar_members(bz_plain(old(self).source())->Some_0)
                    &&& (c.pending_error()
                        <==> !tar_complete(bz_plain(old(self).source())->Some_0))
                }
                &&& r is Err ==> r->Err_0 == Error::Io && !final(self).is_consumed()
            },
    {
        if self.consumed {
            return Err(Error::Io);
        }
        let plain = match bz_decode(&self.bytes) {
            Ok(plain) => plain,
            Err(e) => return Err(e),
        };
        let (members, complete) = tar_list(&plain);
        self.consumed = true;
        Ok(TarEntries { members, failed: !complete })
    }
}

/// A tape archive read through the gzip decoder.
pub struct GzipTarArchive {
    bytes: Vec<u8>,
    consumed: bool,
}

impl GzipTarArchive {
    /// The raw, still compressed bytes of the backing source.
    pub closed spec fn source(&self) -> Seq<u8> {
        self.bytes@
    }

    /// The single sequential enumeration has already been handed out.
    pub closed spec fn is_consumed(&self) -> bool {
        self.consumed
    }

    /// Wrap an owned, gzip-compressed byte source as a tape archive.
    pub fn new(bytes: Vec<u8>) -> (r: Result<GzipTarArchive, Error>)
        ensures
            r is Ok,
            r->Ok_0.source() == bytes@,
            !r->Ok_0.is_consumed(),
    {
        Ok(GzipTarArchive { bytes, consumed: false })
    }

    /// Hand out the single sequential cursor over the members of the
    /// inflated archive.
    pub fn cursor(&mut self) -> (r: Result<TarEntries, Error>)
        ensures
            final(self).source() == old(self).source(),
            old(self).is_consumed() ==> r is Err && r->Err_0 == Error::Io
                && final(self).is_consumed(),
            !old(self).is_consumed() ==> {
                &&& (r is Ok <==> gz_plain(old(self).source()) is Some)
                &&& r is Ok ==> final(self).is_consumed()
                &&& r matches Ok(c) ==> {
                    &&& c.remaining() == tar_members(gz_plain(old(self).source())->Some_0)
                    &&& (c.pending_error()
                        <==> !tar_complete(gz_plain(old(self).source())->Some_0))
                }
                &&& r is Err ==> r->Err_0 == Error::Io && !final(self).is_consumed()
            },
    {
        if self.consumed {
            return Err(Error::Io);
        }
        let plain = match gz_decode(&self.bytes) {
            Ok(plain) => plain,
            Err(e) => return Err(e),
        };
        let (members, complete) = tar_list(&plain);
        self.consumed = true;
        Ok(TarEntries { members, failed: !complete })
    }
}

/// A tape archive read through the xz decoder.
pub struct LzmaTarArchive {
    bytes: Vec<u8>,
    consumed: bool,
}

impl LzmaTarArchive {
    /// The raw, still compressed bytes of the backing source.
    pub closed spec fn source(&self) -> Seq<u8> {
        self.bytes@
    }

    /// The single sequential enumeration has already been handed out.
    pub closed spec fn is_consumed(&self) -> bool {
        self.consumed
    }

    /// Wrap an owned, xz-compressed byte source as a tape archive.
    pub fn new(bytes: Vec<u8>) -> (r: Result<LzmaTarArchive, Error>)
        ensures
            r is Ok,
            r->Ok_0.source() == bytes@,
            !r->Ok_0.is_consumed(),
    {
        Ok(LzmaTarArchive { bytes, consumed: false })
    }

    /// Hand out the single sequential cursor over the members of the
    /// decoded archive.
    pub fn cursor(&mut self) -> (r: Result<TarEntries, Error>)
        ensures
            final(self).source() == old(self).source(),
            old(self).is_consumed() ==> r is Err && r->Err_0 == Error::Io
                && final(self).is_consumed(),
            !old(self).is_consumed() ==> {
                &&& (r is Ok <==> xz_plain(old(self).source()) is Some)
                &&& r is Ok ==> final(self).is_consumed()
                &&& r matches Ok(c) ==> {
                    &&& c.remaining() == tar_members(xz_plain(old(self).source())->Some_0)
                    &&& (c.pending_error()
                        <==> !tar_complete(xz_plain(old(self).source())->Some_0))
                }
                &&& r is Err ==> (r->Err_0 == Error::Io || r->Err_0 == Error::Lzma)
                    && !final(self).is_consumed()
            },
    {
        if self.consumed {
            return Err(Error::Io);
        }
        let plain = match xz_decode(&self.bytes) {
            Ok(plain) => plain,
            Err(e) => return Err(e),
        };
        let (members, complete) = tar_list(&plain);
        self.consumed = true;
        Ok(TarEntries { members, failed: !complete })
    }
}

} // verus!
