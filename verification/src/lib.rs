use vstd::prelude::*;

use crate::error::Error;

pub mod cab;
pub mod error;
pub mod sniff;
pub mod tar;
pub mod zip;

verus! {

/// The table of contents of a container, as a mathematical value: each
/// member's logical path paired with its uncompressed content, in the order
/// the container's directory yields them.
pub type Directory = Seq<(Seq<char>, Seq<u8>)>;

/// The protocol for iteration that hands out one item per step.
///
/// Each cursor of this library owns everything its items are derived from,
/// so a step can move data out without a borrow that outlives the call; the
/// exclusive `&mut self` still guarantees that only one step is in flight.
pub trait LendingIterator {
    type Item;

    /// What must hold of the cursor for a step to be asked of it; every
    /// step preserves it.
    spec fn inv(&self) -> bool;

    fn next(&mut self) -> (r: Option<Self::Item>)
        requires
            old(self).inv(),
        ensures
            final(self).inv(),
    ;
}

/// Some member of `d` has the path `name`.
pub open spec fn has_member(d: Directory, name: Seq<char>) -> bool {
    exists|i: int| 0 <= i < d.len() && (#[trigger] d[i]).0 == name
}

/// The model of one read call on an entry stream over content `data`
/// positioned at `pos`: the position after the call, and the bytes handed
/// back. A read never goes past the end, and a read at the end yields no
/// bytes rather than an error.
pub open spec fn stream_read(data: Seq<u8>, pos: int, n: int) -> (int, Seq<u8>)
    recommends
        0 <= pos <= data.len(),
        0 <= n,
{
    let end = if pos + n <= data.len() { pos + n } else { data.len() as int };
    (end, data.subrange(pos, end))
}

/// Law: reads compose. Reading `n` bytes and then `m` bytes hands back, in
/// total, exactly the bytes of one `n + m` byte read, and leaves the stream
/// at the same position. Hence the total of all bytes read from a stream,
/// however the reads are split, is a prefix of the content, and a full pass
/// reads exactly the member's recorded size.
pub proof fn lemma_stream_read_concat(data: Seq<u8>, pos: int, n: int, m: int)
    requires
        0 <= pos <= data.len(),
        0 <= n,
        0 <= m,
    ensures
        stream_read(data, pos, n + m).0 == stream_read(data, stream_read(data, pos, n).0, m).0,
        stream_read(data, pos, n + m).1 == stream_read(data, pos, n).1
            + stream_read(data, stream_read(data, pos, n).0, m).1,
{
    assert(stream_read(data, pos, n + m).1 =~= stream_read(data, pos, n).1
        + stream_read(data, stream_read(data, pos, n).0, m).1);
}

/// Law: a single read as large as the content consumes the whole stream and
/// hands back every byte of the member.
pub proof fn lemma_stream_read_total(data: Seq<u8>, n: int)
    requires
        n >= data.len(),
    ensures
        stream_read(data, 0, n).0 == data.len(),
        stream_read(data, 0, n).1 == data,
{
    assert(stream_read(data, 0, n).1 =~= data);
}

/// Law: reading after exhaustion yields no further bytes, not an error.
pub proof fn lemma_stream_read_exhausted(data: Seq<u8>, n: int)
    requires
        0 <= n,
    ensures
        stream_read(data, data.len() as int, n).0 == data.len(),
        stream_read(data, data.len() as int, n).1 == Seq::<u8>::empty(),
{
    assert(stream_read(data, data.len() as int, n).1 =~= Seq::<u8>::empty());
}

/// One logical member of a container: a byte-readable stream that can also
/// report the member's logical path.
///
/// An entry owns its decoded content, so its lifetime is not tied to the
/// cursor that produced it; the stream semantics over that content are the
/// `stream_read` model above.
pub trait Entry {
    /// The member's logical path.
    spec fn entry_path(&self) -> Seq<char>;

    /// The member's full uncompressed content.
    spec fn entry_data(&self) -> Seq<u8>;

    /// How far the stream has been consumed.
    spec fn entry_pos(&self) -> int;

    /// The stream position always stays inside the content.
    open spec fn wf(&self) -> bool {
        0 <= self.entry_pos() <= self.entry_data().len()
    }

    fn path(&self) -> (r: String)
        ensures
            r@ == self.entry_path(),
    ;

    /// The member's recorded uncompressed size.
    fn size(&self) -> (r: usize)
        ensures
            r == self.entry_data().len(),
    ;

    /// Read up to `n` further bytes of the member's content.
    fn read(&mut self, n: usize) -> (r: Vec<u8>)
        requires
            old(self).wf(),
        ensures
            final(self).wf(),
            final(self).entry_path() == old(self).entry_path(),
            final(self).entry_data() == old(self).entry_data(),
            final(self).entry_pos() == stream_read(
                old(self).entry_data(),
                old(self).entry_pos(),
                n as int,
            ).0,
            r@ == stream_read(old(self).entry_data(), old(self).entry_pos(), n as int).1,
    ;
}

/// An entry of any of the compiled-in container formats, for callers that
/// go through the uniform `Entries` cursor rather than a typed one.
pub enum AnyEntry {
    Cab(crate::cab::CabEntry),
    Tar(crate::tar::TarEntry),
    Zip(crate::zip::ZipEntry),
}

impl Entry for AnyEntry {
    closed spec fn entry_path(&self) -> Seq<char> {
        match self {
            AnyEntry::Cab(e) => e.entry_path(),
            AnyEntry::Tar(e) => e.entry_path(),
            AnyEntry::Zip(e) => e.entry_path(),
        }
    }

    closed spec fn entry_data(&self) -> Seq<u8> {
        match self {
            AnyEntry::Cab(e) => e.entry_data(),
            AnyEntry::Tar(e) => e.entry_data(),
            AnyEntry::Zip(e) => e.entry_data(),
        }
    }

    closed spec fn entry_pos(&self) -> int {
        match self {
            AnyEntry::Cab(e) => e.entry_pos(),
            AnyEntry::Tar(e) => e.entry_pos(),
            AnyEntry::Zip(e) => e.entry_pos(),
        }
    }

    fn path(&self) -> (r: String) {
        match self {
            AnyEntry::Cab(e) => e.path(),
            AnyEntry::Tar(e) => e.path(),
            AnyEntry::Zip(e) => e.path(),
        }
    }

    fn size(&self) -> (r: usize) {
        match self {
            AnyEntry::Cab(e) => e.size(),
            AnyEntry::Tar(e) => e.size(),
            AnyEntry::Zip(e) => e.size(),
        }
    }

    fn read(&mut self, n: usize) -> (r: Vec<u8>) {
        match self {
            AnyEntry::Cab(e) => e.read(n),
            AnyEntry::Tar(e) => e.read(n),
            AnyEntry::Zip(e) => e.read(n),
        }
    }
}

/// The uniform cursor: one variant per (container, compression) pair that
/// is wired together, dispatching each step to the typed cursor inside.
pub enum Entries {
    Cab(crate::cab::CabEntries),
    Tar(crate::tar::TarEntries),
    Bzip2Tar(crate::tar::TarEntries),
    GzipTar(crate::tar::TarEntries),
    LzmaTar(crate::tar::TarEntries),
    Zip(crate::zip::ZipEntries),
}

impl Entries {
    /// A tape-archive walk behind this cursor hit a bad header: after the
    /// remaining members, one error step is still owed before exhaustion.
    /// The random-access cursors never owe one.
    pub open spec fn pending(&self) -> bool {
        match self {
            Entries::Cab(_) => false,
            Entries::Tar(t) => t.pending_error(),
            Entries::Bzip2Tar(t) => t.pending_error(),
            Entries::GzipTar(t) => t.pending_error(),
            Entries::LzmaTar(t) => t.pending_error(),
            Entries::Zip(_) => false,
        }
    }

    /// The members this cursor has yet to hand out, in order.
    pub open spec fn remaining(&self) -> Directory {
        match self {
            Entries::Cab(c) => c.members().skip(c.position()),
            Entries::Tar(t) => t.remaining(),
            Entries::Bzip2Tar(t) => t.remaining(),
            Entries::GzipTar(t) => t.remaining(),
            Entries::LzmaTar(t) => t.remaining(),
            Entries::Zip(z) => z.members().skip(z.position()),
        }
    }
}

impl LendingIterator for Entries {
    type Item = Result<AnyEntry, Error>;

    open spec fn inv(&self) -> bool {
        match self {
            Entries::Cab(c) => c.wf() && c.consistent(),
            Entries::Tar(_) => true,
            Entries::Bzip2Tar(_) => true,
            Entries::GzipTar(_) => true,
            Entries::LzmaTar(_) => true,
            Entries::Zip(z) => z.wf(),
        }
    }

    /// Advance whichever typed cursor is inside.
    ///
    /// Every step either hands out the next member (its stream fresh, its
    /// path the next recorded one), or an error in that member's place, or
    /// reports exhaustion. A cabinet or zip member that fails to decode
    /// costs only its own step; a tape-archive walk that hit a bad header
    /// yields its good members, then one error step for the unreadable
    /// rest, then exhaustion. For the cabinet variant the member is
    /// decoded by name lookup, so the content handed out is that of a
    /// member carrying the step's path (when two members share a path, the
    /// backing reader picks which); the other variants hand out exactly
    /// the next member's content.
    fn next(&mut self) -> (r: Option<Result<AnyEntry, Error>>)
        ensures
            old(self).remaining().len() == 0 && !old(self).pending() ==> r is None
                && final(self).remaining() == old(self).remaining()
                && !final(self).pending(),
            old(self).remaining().len() == 0 && old(self).pending() ==> {
                &&& r matches Some(Err(err)) && err == Error::Io
                &&& final(self).remaining() == old(self).remaining()
                &&& !final(self).pending()
            },
            old(self).remaining().len() > 0 ==> {
                &&& final(self).remaining() == old(self).remaining().drop_first()
                &&& r is Some
                &&& r->Some_0 matches Ok(e) ==> e.wf() && e.entry_pos() == 0
                    && e.entry_path() == old(self).remaining()[0].0
                &&& !(*old(self) is Cab) ==> (r->Some_0 matches Ok(e)
                    ==> e.entry_data() == old(self).remaining()[0].1)
                &&& final(self).pending() == old(self).pending()
                &&& (*old(self) is Tar || *old(self) is Bzip2Tar || *old(self) is GzipTar
                    || *old(self) is LzmaTar) ==> r->Some_0 is Ok
                &&& *old(self) matches Entries::Cab(c0) ==> (r->Some_0 is Ok
                    <==> c0.decodes(c0.members()[c0.position()].0))
                &&& *old(self) matches Entries::Zip(z0) ==> (r->Some_0 is Ok
                    <==> z0.decodes(z0.position()))
                &&& r->Some_0 matches Err(err) ==> (err == Error::Io || err == Error::Zip)
            },
    {
        match self {
            Entries::Cab(c) => {
                proof {
                    crate::cab::lemma_cab_entries_bounds(*c);
                    if c.position() < c.members().len() {
                        assert(c.members().skip(c.position()).drop_first()
                            =~= c.members().skip(c.position() + 1));
                    } else {
                        assert(c.members().skip(c.position()).len() == 0);
                    }
                }
                match c.next() {
                    Some(Ok(e)) => Some(Ok(AnyEntry::Cab(e))),
                    Some(Err(err)) => Some(Err(err)),
                    None => None,
                }
            }
            Entries::Tar(t) => match t.next() {
                Some(Ok(e)) => Some(Ok(AnyEntry::Tar(e))),
                Some(Err(err)) => Some(Err(err)),
                None => None,
            },
            Entries::Bzip2Tar(t) => match t.next() {
                Some(Ok(e)) => Some(Ok(AnyEntry::Tar(e))),
                Some(Err(err)) => Some(Err(err)),
                None => None,
            },
            Entries::GzipTar(t) => match t.next() {
                Some(Ok(e)) => Some(Ok(AnyEntry::Tar(e))),
                Some(Err(err)) => Some(Err(err)),
                None => None,
            },
            Entries::LzmaTar(t) => match t.next() {
                Some(Ok(e)) => Some(Ok(AnyEntry::Tar(e))),
                Some(Err(err)) => Some(Err(err)),
                None => None,
            },
            Entries::Zip(z) => {
                proof {
                    crate::zip::lemma_zip_entries_bounds(*z);
                    if z.position() < z.members().len() {
                        assert(z.members().skip(z.position()).drop_first()
                            =~= z.members().skip(z.position() + 1));
                    } else {
                        assert(z.members().skip(z.position()).len() == 0);
                    }
                }
                match z.next() {
                    Some(Ok(e)) => Some(Ok(AnyEntry::Zip(e))),
                    Some(Err(err)) => Some(Err(err)),
                    None => None,
                }
            }
        }
    }
}

/// The facade surface every archive offers: hand out a cursor over the
/// members. Which concrete cursor comes back, and what its members are, is
/// stated precisely by each implementation.
pub trait Archive {
    /// What must hold of the archive for a cursor to be requested; every
    /// request preserves it.
    spec fn inv(&self) -> bool;

    fn entries(&mut self) -> (r: Result<Entries, Error>)
        requires
            old(self).inv(),
        ensures
            final(self).inv(),
    ;
}

impl Archive for crate::cab::CabArchive {
    open spec fn inv(&self) -> bool {
        self.wf()
    }

    /// Dispatch to the cabinet reader: a fresh cursor over its members,
    /// wrapped in the uniform cursor type. The archive itself is not
    /// changed, so enumeration is repeatable.
    fn entries(&mut self) -> (r: Result<Entries, Error>)
        ensures
            *final(self) == *old(self),
            r matches Ok(c) && c matches Entries::Cab(cc)
                && cc.wf() && cc.members() == old(self).members() && cc.position() == 0,
            old(self).consistent() ==> (r matches Ok(c) && c matches Entries::Cab(cc)
                && cc.consistent()),
    {
        match self.cursor() {
            Ok(cursor) => Ok(Entries::Cab(cursor)),
            Err(e) => Err(e),
        }
    }
}

impl Archive for crate::tar::TarArchive {
    open spec fn inv(&self) -> bool {
        true
    }

    /// Dispatch to the tape-archive reader: the single sequential cursor.
    fn entries(&mut self) -> (r: Result<Entries, Error>)
        ensures
            final(self).source() == old(self).source(),
            old(self).is_consumed() ==> r is Err && final(self).is_consumed(),
            !old(self).is_consumed() ==> {
                &&& r is Ok
                &&& final(self).is_consumed()
                &&& r matches Ok(c) ==> c matches Entries::Tar(tc)
                    && tc.remaining() == crate::tar::tar_members(old(self).source())
                    && (tc.pending_error()
                        <==> !crate::tar::tar_complete(old(self).source()))
            },
    {
        match self.cursor() {
            Ok(cursor) => Ok(Entries::Tar(cursor)),
            Err(e) => Err(e),
        }
    }
}

impl Archive for crate::tar::Bzip2TarArchive {
    open spec fn inv(&self) -> bool {
        true
    }

    /// Dispatch to the tape-archive reader behind the bzip2 adapter.
    fn entries(&mut self) -> (r: Result<Entries, Error>)
        ensures
            final(self).source() == old(self).source(),
            old(self).is_consumed() ==> r is Err && final(self).is_consumed(),
            !old(self).is_consumed() ==> {
                &&& (r is Ok <==> crate::tar::bz_plain(old(self).source()) is Some)
                &&& r is Ok ==> final(self).is_consumed()
                &&& r is Err ==> !final(self).is_consumed()
                &&& r matches Ok(c) ==> c matches Entries::Bzip2Tar(tc)
                    && tc.remaining() == crate::tar::tar_members(
                        crate::tar::bz_plain(old(self).source())->Some_0)
                    && (tc.pending_error() <==> !crate::tar::tar_complete(
                        crate::tar::bz_plain(old(self).source())->Some_0))
                &&& r matches Err(e) ==> e == Error::Io
            },
    {
        match self.cursor() {
            Ok(cursor) => Ok(Entries::Bzip2Tar(cursor)),
            Err(e) => Err(e),
        }
    }
}

impl Archive for crate::tar::GzipTarArchive {
    open spec fn inv(&self) -> bool {
        true
    }

    /// Dispatch to the tape-archive reader behind the gzip adapter.
    fn entries(&mut self) -> (r: Result<Entries, Error>)
        ensures
            final(self).source() == old(self).source(),
            old(self).is_consumed() ==> r is Err && final(self).is_consumed(),
            !old(self).is_consumed() ==> {
                &&& (r is Ok <==> crate::tar::gz_plain(old(self).source()) is Some)
                &&& r is Ok ==> final(self).is_consumed()
                &&& r is Err ==> !final(self).is_consumed()
                &&& r matches Ok(c) ==> c matches Entries::GzipTar(tc)
                    && tc.remaining() == crate::tar::tar_members(
                        crate::tar::gz_plain(old(self).source())->Some_0)
                    && (tc.pending_error() <==> !crate::tar::tar_complete(
                        crate::tar::gz_plain(old(self).source())->Some_0))
                &&& r matches Err(e) ==> e == Error::Io
            },
    {
        match self.cursor() {
            Ok(cursor) => Ok(Entries::GzipTar(cursor)),
            Err(e) => Err(e),
        }
    }
}

impl Archive for crate::tar::LzmaTarArchive {
    open spec fn inv(&self) -> bool {
        true
    }

    /// Dispatch to the tape-archive reader behind the xz adapter.
    fn entries(&mut self) -> (r: Result<Entries, Error>)
        ensures
            final(self).source() == old(self).source(),
            old(self).is_consumed() ==> r is Err && final(self).is_consumed(),
            !old(self).is_consumed() ==> {
                &&& (r is Ok <==> crate::tar::xz_plain(old(self).source()) is Some)
                &&& r is Ok ==> final(self).is_consumed()
                &&& r is Err ==> !final(self).is_consumed()
                &&& r matches Ok(c) ==> c matches Entries::LzmaTar(tc)
                    && tc.remaining() == crate::tar::tar_members(
                        crate::tar::xz_plain(old(self).source())->Some_0)
                    && (tc.pending_error() <==> !crate::tar::tar_complete(
                        crate::tar::xz_plain(old(self).source())->Some_0))
                &&& r matches Err(e) ==> e == Error::Io || e == Error::Lzma
            },
    {
        match self.cursor() {
            Ok(cursor) => Ok(Entries::LzmaTar(cursor)),
            Err(e) => Err(e),
        }
    }
}

impl Archive for crate::zip::ZipArchive {
    open spec fn inv(&self) -> bool {
        self.wf()
    }

    /// Dispatch to the zip reader: a fresh cursor over its members,
    /// wrapped in the uniform cursor type. The archive itself is not
    /// changed, so enumeration is repeatable.
    fn entries(&mut self) -> (r: Result<Entries, Error>)
        ensures
            *final(self) == *old(self),
            r matches Ok(c) && c matches Entries::Zip(zc)
                && zc.wf() && zc.members() == old(self).members() && zc.position() == 0,
    {
        match self.cursor() {
            Ok(cursor) => Ok(Entries::Zip(cursor)),
            Err(e) => Err(e),
        }
    }
}

/// An archive whose (container, compression) pair was classified by
/// signature: one variant per pair that is wired together. Every variant
/// has a real reader behind it; the fallback scanner is a separate type
/// (`ArchiveIter`), so no dead tag exists.
pub enum Archives {
    Cab(crate::cab::CabArchive),
    Tar(crate::tar::TarArchive),
    Bzip2Tar(crate::tar::Bzip2TarArchive),
    GzipTar(crate::tar::GzipTarArchive),
    LzmaTar(crate::tar::LzmaTarArchive),
    Zip(crate::zip::ZipArchive),
}

impl Archive for Archives {
    open spec fn inv(&self) -> bool {
        match self {
            Archives::Cab(a) => a.wf(),
            Archives::Tar(_) => true,
            Archives::Bzip2Tar(_) => true,
            Archives::GzipTar(_) => true,
            Archives::LzmaTar(_) => true,
            Archives::Zip(a) => a.wf(),
        }
    }

    /// Dispatch to whichever reader the classification chose. The match is
    /// exhaustive over the compiled-in pairs: every constructible tag has
    /// an implementation behind it, and the tag never changes — each arm
    /// leaves the same variant in place.
    fn entries(&mut self) -> (r: Result<Entries, Error>)
        ensures
            *old(self) matches Archives::Cab(a) ==> (*final(self) == *old(self)
                && (r matches Ok(c) && c matches Entries::Cab(cc) && cc.wf()
                    && cc.members() == a.members() && cc.position() == 0)),
            *old(self) matches Archives::Tar(t) ==> (*final(self) matches Archives::Tar(t2)
                && t2.source() == t.source()
                && (t.is_consumed() ==> r is Err && t2.is_consumed())
                && (!t.is_consumed() ==> {
                    &&& r is Ok
                    &&& t2.is_consumed()
                    &&& r matches Ok(c) ==> c matches Entries::Tar(tc)
                        && tc.remaining() == crate::tar::tar_members(t.source())
                        && (tc.pending_error()
                            <==> !crate::tar::tar_complete(t.source()))
                })),
            *old(self) matches Archives::Bzip2Tar(t) ==> (*final(self)
                matches Archives::Bzip2Tar(t2)
                && t2.source() == t.source()
                && (t.is_consumed() ==> r is Err && t2.is_consumed())
                && (!t.is_consumed() ==> {
                    &&& (r is Ok <==> crate::tar::bz_plain(t.source()) is Some)
                    &&& r is Ok ==> t2.is_consumed()
                    &&& r is Err ==> !t2.is_consumed()
                    &&& r matches Ok(c) ==> c matches Entries::Bzip2Tar(tc)
                        && tc.remaining() == crate::tar::tar_members(
                            crate::tar::bz_plain(t.source())->Some_0)
                        && (tc.pending_error() <==> !crate::tar::tar_complete(
                            crate::tar::bz_plain(t.source())->Some_0))
                })),
            *old(self) matches Archives::GzipTar(t) ==> (*final(self)
                matches Archives::GzipTar(t2)
                && t2.source() == t.source()
                && (t.is_consumed() ==> r is Err && t2.is_consumed())
                && (!t.is_consumed() ==> {
                    &&& (r is Ok <==> crate::tar::gz_plain(t.source()) is Some)
                    &&& r is Ok ==> t2.is_consumed()
                    &&& r is Err ==> !t2.is_consumed()
                    &&& r matches Ok(c) ==> c matches Entries::GzipTar(tc)
                        && tc.remaining() == crate::tar::tar_members(
                            crate::tar::gz_plain(t.source())->Some_0)
                        && (tc.pending_error() <==> !crate::tar::tar_complete(
                            crate::tar::gz_plain(t.source())->Some_0))
                })),
            *old(self) matches Archives::LzmaTar(t) ==> (*final(self)
                matches Archives::LzmaTar(t2)
                && t2.source() == t.source()
                && (t.is_consumed() ==> r is Err && t2.is_consumed())
                && (!t.is_consumed() ==> {
                    &&& (r is Ok <==> crate::tar::xz_plain(t.source()) is Some)
                    &&& r is Ok ==> t2.is_consumed()
                    &&& r is Err ==> !t2.is_consumed()
                    &&& r matches Ok(c) ==> c matches Entries::LzmaTar(tc)
                        && tc.remaining() == crate::tar::tar_members(
                            crate::tar::xz_plain(t.source())->Some_0)
                        && (tc.pending_error() <==> !crate::tar::tar_complete(
                            crate::tar::xz_plain(t.source())->Some_0))
                })),
            *old(self) matches Archives::Zip(a) ==> (*final(self) == *old(self)
                && (r matches Ok(c) && c matches Entries::Zip(zc) && zc.wf()
                    && zc.members() == a.members() && zc.position() == 0)),
    {
        match self {
            Archives::Cab(a) => Archive::entries(a),
            Archives::Tar(a) => Archive::entries(a),
            Archives::Bzip2Tar(a) => Archive::entries(a),
            Archives::GzipTar(a) => Archive::entries(a),
            Archives::LzmaTar(a) => Archive::entries(a),
            Archives::Zip(a) => Archive::entries(a),
        }
    }
}

/// The first offset at or after `from` where the cabinet magic marker
/// stands in `b`, if any.
pub open spec fn next_signature(b: Seq<u8>, from: int) -> Option<int>
    decreases b.len() - from,
{
    if from + 4 > b.len() {
        None
    } else if crate::sniff::cab_signature_at(b, from) {
        Some(from)
    } else {
        next_signature(b, from + 1)
    }
}

/// Law: `next_signature` finds exactly the first match. A returned offset
/// carries the marker, no earlier offset from the start of the search does,
/// and a `None` means no offset from the start of the search onward does.
pub proof fn lemma_next_signature_first(b: Seq<u8>, from: int)
    ensures
        next_signature(b, from) matches Some(o) ==> from <= o
            && crate::sniff::cab_signature_at(b, o)
            && forall|j: int| from <= j < o ==> !crate::sniff::cab_signature_at(b, j),
        next_signature(b, from) is None ==> forall|j: int|
            from <= j ==> !crate::sniff::cab_signature_at(b, j),
    decreases b.len() - from,
{
    if from + 4 > b.len() {
    } else if crate::sniff::cab_signature_at(b, from) {
    } else {
        lemma_next_signature_first(b, from + 1);
    }
}

/// Law: a search that starts where one match was found, plus the marker's
/// width, never sees an earlier or overlapping offset again: successive
/// scan offsets ascend by at least the marker's width.
pub proof fn lemma_scan_ascending(b: Seq<u8>, from: int, o1: int, o2: int)
    requires
        next_signature(b, from) == Some(o1),
        next_signature(b, o1 + 4) == Some(o2),
    ensures
        o2 >= o1 + 4,
{
    lemma_next_signature_first(b, o1 + 4);
}

/// Helper for the scanner's search loop: an offset that carries the marker
/// and has no match before it (from the search's start) is what
/// `next_signature` returns.
proof fn lemma_next_signature_found(b: Seq<u8>, from: int, o: int)
    requires
        from <= o,
        crate::sniff::cab_signature_at(b, o),
        forall|j: int| from <= j < o ==> !crate::sniff::cab_signature_at(b, j),
    ensures
        next_signature(b, from) == Some(o),
    decreases o - from,
{
    if from < o {
        lemma_next_signature_found(b, from + 1, o);
    }
}

/// Helper for the scanner's search loop: when no offset from the search's
/// start onward carries the marker, `next_signature` returns `None`.
proof fn lemma_next_signature_none(b: Seq<u8>, from: int)
    requires
        forall|j: int| from <= j ==> !crate::sniff::cab_signature_at(b, j),
    ensures
        next_signature(b, from) is None,
    decreases b.len() - from,
{
    if from + 4 <= b.len() {
        lemma_next_signature_none(b, from + 1);
    }
}

/// The embedded-archive scanner: a fallback for sources that no signature
/// classifies.
///
/// It owns the whole byte buffer, which is never mutated, and walks it for
/// cabinet magic markers; each step hands out a cabinet archive opened on
/// the buffer's tail from the next match on, or an error for a match that
/// is not followed by a well-formed cabinet. Match positions are plain
/// offsets into the owned buffer, so nothing borrows across steps.
pub struct ArchiveIter {
    bytes: Vec<u8>,
    pos: usize,
}

impl ArchiveIter {
    /// The owned, immutable byte buffer under scan.
    pub closed spec fn buffer(&self) -> Seq<u8> {
        self.bytes@
    }

    /// The offset the next search starts from.
    pub closed spec fn position(&self) -> int {
        self.pos as int
    }

    /// Own a raw byte blob and scan it lazily from its start.
    pub fn new(bytes: Vec<u8>) -> (r: ArchiveIter)
        ensures
            r.buffer() == bytes@,
            r.position() == 0,
    {
        ArchiveIter { bytes, pos: 0 }
    }
}

impl LendingIterator for ArchiveIter {
    type Item = Result<crate::cab::CabArchive, Error>;

    open spec fn inv(&self) -> bool {
        true
    }

    /// Advance the scan: find the next marker at or after the current
    /// offset, open the buffer's tail there as a cabinet, and move the
    /// offset past the marker. A match whose tail is not a well-formed
    /// cabinet yields an error for that position without ending the scan;
    /// when no further marker exists the scan is exhausted.
    fn next(&mut self) -> (r: Option<Result<crate::cab::CabArchive, Error>>)
        ensures
            final(self).buffer() == old(self).buffer(),
            next_signature(old(self).buffer(), old(self).position()) is None ==> r is None
                && final(self).position() == old(self).position(),
            next_signature(old(self).buffer(), old(self).position()) matches Some(o) ==> {
                &&& final(self).position() == o + 4
                &&& r is Some
                &&& (r->Some_0 is Ok
                    <==> crate::cab::cab_directory(old(self).buffer().skip(o)) is Some)
                &&& r->Some_0 matches Ok(a) ==> a.wf()
                    && a.members() == crate::cab::cab_directory(old(self).buffer().skip(o))->Some_0
                    && (a.consistent()
                        <==> crate::cab::cab_table_consistent(old(self).buffer().skip(o)))
                &&& r->Some_0 matches Err(e) ==> e == Error::Io
            },
    {
        let n = self.bytes.len();
        let ghost b = self.bytes@;
        let ghost start = self.pos as int;
        if n < 4 || self.pos > n - 4 {
            proof {
                assert forall|j: int| start <= j
                    implies !crate::sniff::cab_signature_at(b, j) by {}
                lemma_next_signature_none(b, start);
            }
            return None;
        }
        let mut i = self.pos;
        loop
            invariant
                b == old(self).buffer(),
                start == old(self).position(),
                self.pos <= i <= n - 4,
                n == self.bytes@.len(),
                self.bytes@ == b,
                self.pos == start,
                forall|j: int| start <= j < i ==> !crate::sniff::cab_signature_at(b, j),
            decreases n - i,
        {
            if self.bytes[i] == 0x4d && self.bytes[i + 1] == 0x53 && self.bytes[i + 2] == 0x43
                && self.bytes[i + 3] == 0x46 {
                proof {
                    lemma_next_signature_found(b, start, i as int);
                }
                let mut tail: Vec<u8> = Vec::new();
                let mut k = i;
                while k < n
                    invariant
                        b == old(self).buffer(),
                        start == old(self).position(),
                        i <= k <= n == self.bytes@.len(),
                        self.bytes@ == b,
                        self.pos == start,
                        next_signature(b, start) == Some(i as int),
                        tail@ == b.subrange(i as int, k as int),
                    decreases n - k,
                {
                    let byte = self.bytes[k];
                    tail.push(byte);
                    k = k + 1;
                }
                proof {
                    assert(tail@ =~= b.skip(i as int));
                }
                self.pos = i + 4;
                return match crate::cab::CabArchive::new(tail) {
                    Ok(archive) => Some(Ok(archive)),
                    Err(e) => Some(Err(e)),
                };
            }
            if i == n - 4 {
                proof {
                    assert forall|j: int| start <= j
                        implies !crate::sniff::cab_signature_at(b, j) by {
                        if j < i { } else { assert(j + 4 > b.len() || j == i); }
                    }
                    lemma_next_signature_none(b, start);
                }
                return None;
            }
            i = i + 1;
        }
    }
}

/// What `open_bytes` hands back: a single classified archive, or the lazy
/// scan over an unclassified blob. The two are distinct types, so no tag
/// without an enumeration implementation exists.
pub enum Opened {
    One(Archives),
    Many(ArchiveIter),
}

/// Open an owned byte source: classify it by signature and construct the
/// matching reader (wrapping the source in the matching compression
/// adapter first where one applies), or, when no signature matches, hand
/// the whole blob to the embedded-archive scanner.
pub fn open_bytes(bytes: Vec<u8>) -> (r: Result<Opened, Error>)
    ensures
        ({
            let c = crate::sniff::classification(bytes@);
            &&& c == Some(crate::sniff::Format::Cab) ==> {
                &&& r is Ok <==> crate::cab::cab_directory(bytes@) is Some
                &&& r matches Ok(o) ==> (o matches Opened::One(a)
                    && a matches Archives::Cab(ca) && ca.wf()
                    && ca.members() == crate::cab::cab_directory(bytes@)->Some_0
                    && (ca.consistent() <==> crate::cab::cab_table_consistent(bytes@)))
                &&& r matches Err(e) ==> e == Error::Io
            }
            &&& c == Some(crate::sniff::Format::Tar) ==> (r matches Ok(o)
                && o matches Opened::One(a) && a matches Archives::Tar(t)
                && t.source() == bytes@ && !t.is_consumed())
            &&& c == Some(crate::sniff::Format::Bzip2Tar) ==> (r matches Ok(o)
                && o matches Opened::One(a) && a matches Archives::Bzip2Tar(t)
                && t.source() == bytes@ && !t.is_consumed())
            &&& c == Some(crate::sniff::Format::GzipTar) ==> (r matches Ok(o)
                && o matches Opened::One(a) && a matches Archives::GzipTar(t)
                && t.source() == bytes@ && !t.is_consumed())
            &&& c == Some(crate::sniff::Format::LzmaTar) ==> (r matches Ok(o)
                && o matches Opened::One(a) && a matches Archives::LzmaTar(t)
                && t.source() == bytes@ && !t.is_consumed())
            &&& c == Some(crate::sniff::Format::Zip) ==> {
                &&& r is Ok <==> crate::zip::zip_directory(bytes@) is Some
                &&& r matches Ok(o) ==> (o matches Opened::One(a)
                    && a matches Archives::Zip(za) && za.wf()
                    && za.members() == crate::zip::zip_directory(bytes@)->Some_0)
                &&& r matches Err(e) ==> e == Error::Zip
            }
            &&& c is None ==> (r matches Ok(o) && o matches Opened::Many(s)
                && s.buffer() == bytes@ && s.position() == 0)
        }),
{
    match crate::sniff::sniff(&bytes) {
        Some(crate::sniff::Format::Cab) => match crate::cab::CabArchive::new(bytes) {
            Ok(a) => Ok(Opened::One(Archives::Cab(a))),
            Err(e) => Err(e),
        },
        Some(crate::sniff::Format::Tar) => match crate::tar::TarArchive::new(bytes) {
            Ok(a) => Ok(Opened::One(Archives::Tar(a))),
            Err(e) => Err(e),
        },
        Some(crate::sniff::Format::Bzip2Tar) => match crate::tar::Bzip2TarArchive::new(bytes) {
            Ok(a) => Ok(Opened::One(Archives::Bzip2Tar(a))),
            Err(e) => Err(e),
        },
        Some(crate::sniff::Format::GzipTar) => match crate::tar::GzipTarArchive::new(bytes) {
            Ok(a) => Ok(Opened::One(Archives::GzipTar(a))),
            Err(e) => Err(e),
        },
        Some(crate::sniff::Format::LzmaTar) => match crate::tar::LzmaTarArchive::new(bytes) {
            Ok(a) => Ok(Opened::One(Archives::LzmaTar(a))),
            Err(e) => Err(e),
        },
        Some(crate::sniff::Format::Zip) => match crate::zip::ZipArchive::new(bytes) {
            Ok(a) => Ok(Opened::One(Archives::Zip(a))),
            Err(e) => Err(e),
        },
        None => Ok(Opened::Many(ArchiveIter::new(bytes))),
    }
}

} // verus!

