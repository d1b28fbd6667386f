use vstd::prelude::*;

use crate::error::Error;
use crate::{Directory, Entry, LendingIterator};

verus! {

/// The open zip reader of the zip crate, held opaquely: Verus sees nothing
/// inside, and every access goes through the trusted wrappers below.
#[verifier::external_body]
struct ZipReader {
    inner: zip::ZipArchive<std::io::Cursor<Vec<u8>>>,
}

/// What parsing a byte source as a zip archive yields: the member paths and
/// contents in central-directory order, or `None` when the bytes are not a
/// well-formed zip archive; a function of the bytes alone.
pub uninterp spec fn zip_directory(b: Seq<u8>) -> Option<Directory>;

/// The members held by an open zip reader, in central-directory order.
pub uninterp spec fn zip_contents(z: ZipReader) -> Directory;

/// The member at central-directory index `i` can be decompressed by the
/// given reader (it is present, not encrypted, compressed by a supported
/// method, and its data decodes). Reading is deterministic, so this is a
/// property of the reader's bytes and the index alone.
pub uninterp spec fn zip_member_decodes(z: ZipReader, i: int) -> bool;

/// Relies on zip::ZipArchive::new: reads the central directory eagerly and
/// rejects anything that is not a well-formed zip archive.
#[verifier::external_body]
fn zip_open(bytes: &Vec<u8>) -> (r: Result<ZipReader, Error>)
    ensures
        r is Ok <==> zip_directory(bytes@) is Some,
        r is Ok ==> zip_contents(r->Ok_0) == zip_directory(bytes@)->Some_0,
        r is Err ==> r->Err_0 == Error::Zip,
{
    match zip::ZipArchive::new(std::io::Cursor::new(bytes.clone())) {
        Ok(archive) => Ok(ZipReader { inner: archive }),
        Err(_) => Err(Error::Zip),
    }
}

/// Relies on zip::ZipArchive::len: the number of members the central
/// directory records.
#[verifier::external_body]
fn zip_member_count(z: &ZipReader) -> (r: usize)
    ensures
        r == zip_contents(*z).len(),
{
    z.inner.len()
}

/// Relies on zip::ZipArchive::by_index: hands out the member at the given
/// central-directory index, whose name and decompressed content are then
/// read in full. An index at or past the end is rejected, and reading
/// never changes what the archive holds.
#[verifier::external_body]
fn zip_read_at(z: &mut ZipReader, i: usize) -> (r: Result<(String, Vec<u8>), Error>)
    ensures
        zip_contents(*final(z)) == zip_contents(*old(z)),
        forall|j: int| #[trigger] zip_member_decodes(*final(z), j)
            == zip_member_decodes(*old(z), j),
        i < zip_contents(*old(z)).len() ==> (r is Ok <==> zip_member_decodes(*old(z), i as int)),
        i < zip_contents(*old(z)).len() ==> (r matches Ok(m)
            ==> m.0@ == zip_contents(*old(z))[i as int].0
                && m.1@ == zip_contents(*old(z))[i as int].1),
        i >= zip_contents(*old(z)).len() ==> r is Err && r->Err_0 == Error::Zip,
        r is Err ==> r->Err_0 == Error::Zip || r->Err_0 == Error::Io,
{
    let mut file = match z.inner.by_index(i) {
        Ok(file) => file,
        Err(_) => return Err(Error::Zip),
    };
    let name = file.name().to_string();
    let mut data = Vec::new();
    match std::io::Read::read_to_end(&mut file, &mut data) {
        Ok(_) => Ok((name, data)),
        Err(_) => Err(Error::Io),
    }
}

/// One member of a zip archive, fully decoded: a readable stream over the
/// member's content plus its logical path.
pub struct ZipEntry {
    path: String,
    data: Vec<u8>,
    pos: usize,
}

impl Entry for ZipEntry {
    closed spec fn entry_path(&self) -> Seq<char> {
        self.path@
    }

    closed spec fn entry_data(&self) -> Seq<u8> {
        self.data@
    }

    closed spec fn entry_pos(&self) -> int {
        self.pos as int
    }

    fn path(&self) -> (r: String) {
        self.path.clone()
    }

    fn size(&self) -> (r: usize) {
        self.data.len()
    }

    fn read(&mut self, n: usize) -> (r: Vec<u8>) {
        let len = self.data.len();
        let end = if n <= len - self.pos { self.pos + n } else { len };
        let mut out: Vec<u8> = Vec::new();
        let mut i = self.pos;
        while i < end
            invariant
                self.pos <= i <= end <= self.data@.len(),
                self.data@ == old(self).data@,
                self.pos == old(self).pos,
                self.path@ == old(self).path@,
                out@ == self.data@.subrange(self.pos as int, i as int),
            decreases end - i,
        {
            let b = self.data[i];
            out.push(b);
            i = i + 1;
        }
        self.pos = end;
        out
    }
}

/// The cursor over a zip archive's members.
///
/// It owns its own backing reader, opened for it by `ZipArchive::cursor`
/// over the archive's immutable buffer, so any number of cursors may
/// coexist; each step decompresses the member at the current
/// central-directory index.
pub struct ZipEntries {
    archive: ZipReader,
    count: usize,
    index: usize,
}

impl ZipEntries {
    /// The members held by the moved-in zip reader.
    pub closed spec fn members(&self) -> Directory {
        zip_contents(self.archive)
    }

    /// How many members have been handed out already.
    pub closed spec fn position(&self) -> int {
        self.index as int
    }

    /// The member at index `i` decompresses under the cursor's reader.
    pub closed spec fn decodes(&self, i: int) -> bool {
        zip_member_decodes(self.archive, i)
    }

    /// The recorded count mirrors the members, and the position stays
    /// inside it.
    pub closed spec fn wf(&self) -> bool {
        &&& self.count == self.members().len()
        &&& 0 <= self.index <= self.count
    }
}

/// What `ZipEntries::wf` guarantees to callers outside this module: the
/// cursor position stays inside the member table.
pub proof fn lemma_zip_entries_bounds(c: ZipEntries)
    requires
        c.wf(),
    ensures
        0 <= c.position() <= c.members().len(),
{
}

impl LendingIterator for ZipEntries {
    type Item = Result<ZipEntry, Error>;

    open spec fn inv(&self) -> bool {
        self.wf()
    }

    /// Advance the cursor: decompress and hand out the member at the
    /// current index, or report exhaustion.
    ///
    /// A step succeeds exactly when the member at the index decompresses;
    /// a member that does not yields an error in its place without ending
    /// the iteration, and the cursor still moves on to the next member.
    fn next(&mut self) -> (r: Option<Result<ZipEntry, Error>>)
        ensures
            final(self).members() == old(self).members(),
            forall|j: int| #[trigger] final(self).decodes(j) == old(self).decodes(j),
            old(self).position() >= old(self).members().len() ==> r is None
                && final(self).position() == old(self).position(),
            old(self).position() < old(self).members().len() ==> {
                &&& final(self).position() == old(self).position() + 1
                &&& r is Some
                &&& (r->Some_0 is Ok <==> old(self).decodes(old(self).position()))
                &&& r->Some_0 matches Ok(e) ==> {
                    &&& e.entry_pos() == 0
                    &&& e.entry_path() == old(self).members()[old(self).position()].0
                    &&& e.entry_data() == old(self).members()[old(self).position()].1
                }
                &&& r->Some_0 matches Err(err) ==> err == Error::Zip || err == Error::Io
            },
    {
        if self.index >= self.count {
            return None;
        }
        let i = self.index;
        self.index = i + 1;
        match zip_read_at(&mut self.archive, i) {
            Ok((name, data)) => Some(Ok(ZipEntry { path: name, data, pos: 0 })),
            Err(e) => Some(Err(e)),
        }
    }
}

/// A zip archive over an owned byte source.
///
/// The central directory is parsed eagerly at construction, so the table
/// of contents is fixed from then on. The buffer is never mutated, and
/// every cursor gets a backing reader of its own opened over it, so
/// enumeration is repeatable and cursors are independent.
pub struct ZipArchive {
    bytes: Vec<u8>,
    count: usize,
}

impl ZipArchive {
    /// The members of the archive, as its central directory records them.
    pub closed spec fn members(&self) -> Directory {
        zip_directory(self.bytes@)->Some_0
    }

    /// The recorded member count, fixed at construction.
    pub closed spec fn spec_len(&self) -> int {
        self.count as int
    }

    /// The buffer parses as a zip archive, and the recorded count mirrors
    /// its members.
    pub closed spec fn wf(&self) -> bool {
        &&& zip_directory(self.bytes@) is Some
        &&& self.count == self.members().len()
    }

    /// Open a byte source as a zip archive: read the central directory
    /// eagerly and record the member count.
    pub fn new(bytes: Vec<u8>) -> (r: Result<ZipArchive, Error>)
        ensures
            r is Ok <==> zip_directory(bytes@) is Some,
            r is Ok ==> {
                &&& r->Ok_0.wf()
                &&& r->Ok_0.members() == zip_directory(bytes@)->Some_0
                &&& r->Ok_0.spec_len() == zip_directory(bytes@)->Some_0.len()
            },
            r is Err ==> r->Err_0 == Error::Zip,
    {
        let archive = match zip_open(&bytes) {
            Ok(archive) => archive,
            Err(e) => return Err(e),
        };
        let count = zip_member_count(&archive);
        Ok(ZipArchive { bytes, count })
    }

    /// Hand out a fresh cursor over the members, with a backing reader of
    /// its own opened over the archive's buffer. The central directory was
    /// already validated at construction, so this always succeeds, and any
    /// number of cursors may be live at once: each reads the immutable
    /// buffer independently.
    pub fn cursor(&self) -> (r: Result<ZipEntries, Error>)
        requires
            self.wf(),
        ensures
            r is Ok,
            r->Ok_0.wf(),
            r->Ok_0.members() == self.members(),
            r->Ok_0.position() == 0,
    {
        let archive = match zip_open(&self.bytes) {
            Ok(archive) => archive,
            Err(e) => return Err(e),
        };
        Ok(ZipEntries { archive, count: self.count, index: 0 })
    }
}

/// Law: enumeration of a zip archive is repeatable. Any two fresh cursors
/// handed out for the same table of contents walk the same members, so the
/// ordered path sequences they will yield are equal.
pub proof fn lemma_zip_enumeration_repeatable(c1: ZipEntries, c2: ZipEntries)
    requires
        c1.wf(),
        c2.wf(),
        c1.members() == c2.members(),
        c1.position() == 0,
        c2.position() == 0,
    ensures
        c1.members().map_values(|m: (Seq<char>, Seq<u8>)| m.0)
            == c2.members().map_values(|m: (Seq<char>, Seq<u8>)| m.0),
{
}

} // verus!
