use vstd::prelude::*;

use crate::error::Error;
use crate::{has_member, Directory, Entry, LendingIterator};

verus! {

#[verifier::external_type_specification]
#[verifier::external_body]
#[verifier::reject_recursive_types(T)]
pub struct ExIoCursor<T>(std::io::Cursor<T>);

#[verifier::external_type_specification]
#[verifier::external_body]
#[verifier::reject_recursive_types(R)]
pub struct ExCabinet<R: ?Sized>(cab::Cabinet<R>);

/// What parsing a byte source as a cabinet yields: the member paths and
/// contents, folder by folder in directory order, or `None` when the bytes
/// are not a well-formed cabinet; a function of the bytes alone.
pub uninterp spec fn cab_directory(b: Seq<u8>) -> Option<Directory>;

/// The members held by an open cabinet reader, in directory order.
pub uninterp spec fn cab_contents(c: cab::Cabinet<std::io::Cursor<Vec<u8>>>) -> Directory;

/// Every file entry of the cabinet parsed from `b` records an offset that
/// lies inside its folder's stored data; a function of the bytes alone.
///
/// The cabinet reader of the cab crate (this version) walks its block
/// table unchecked when asked to seek to a member whose recorded offset
/// lies beyond the folder's data, and faults instead of returning an
/// error, so members are only ever read from cabinets with this property.
pub uninterp spec fn cab_table_consistent(b: Seq<u8>) -> bool;

/// The property above, of the bytes the given reader was opened on.
pub uninterp spec fn cab_consistent(c: cab::Cabinet<std::io::Cursor<Vec<u8>>>) -> bool;

/// The member carrying `name` can be decoded by the given reader: the name
/// is in the file table and its folder's data decompresses over the
/// member's span. Reading is deterministic, so this is a property of the
/// reader's bytes and the name alone.
pub uninterp spec fn cab_member_decodes(
    c: cab::Cabinet<std::io::Cursor<Vec<u8>>>,
    name: Seq<char>,
) -> bool;

/// Relies on cab::Cabinet::new: parses the cabinet header and its folder
/// and file tables eagerly, and rejects anything that is not a well-formed
/// cabinet with an I/O error.
#[verifier::external_body]
fn cab_open(bytes: &Vec<u8>) -> (r: Result<cab::Cabinet<std::io::Cursor<Vec<u8>>>, Error>)
    ensures
        r is Ok <==> cab_directory(bytes@) is Some,
        r is Ok ==> cab_contents(r->Ok_0) == cab_directory(bytes@)->Some_0,
        r is Ok ==> (cab_consistent(r->Ok_0) <==> cab_table_consistent(bytes@)),
        r is Err ==> r->Err_0 == Error::Io,
{
    match cab::Cabinet::new(std::io::Cursor::new(bytes.clone())) {
        Ok(cabinet) => Ok(cabinet),
        Err(_) => Err(Error::Io),
    }
}

/// Relies on cab::Cabinet::folder_entries and FolderEntry::file_entries:
/// together they list every member's name, folder by folder in directory
/// order.
#[verifier::external_body]
fn cab_file_names(c: &cab::Cabinet<std::io::Cursor<Vec<u8>>>) -> (r: Vec<String>)
    ensures
        r@.len() == cab_contents(*c).len(),
        forall|i: int| 0 <= i < r@.len()
            ==> (#[trigger] r@[i])@ == cab_contents(*c)[i].0,
{
    let mut names = Vec::new();
    for folder in c.folder_entries() {
        for file in folder.file_entries() {
            names.push(file.name().to_string());
        }
    }
    names
}

/// Relies on cab::Cabinet::read_file: looks the name up in the file table,
/// decompresses a member carrying it (the table's first), and fails with
/// an I/O error when the name is absent or the folder data cannot be
/// decoded. Reading never changes what the cabinet holds. The consistency
/// precondition keeps the reader's unchecked block-table walk in bounds
/// (see `cab_table_consistent`); the call then returns rather than faults.
#[verifier::external_body]
fn cab_read_member(
    c: &mut cab::Cabinet<std::io::Cursor<Vec<u8>>>,
    name: &String,
) -> (r: Result<Vec<u8>, Error>)
    requires
        cab_consistent(*old(c)),
    ensures
        cab_contents(*final(c)) == cab_contents(*old(c)),
        cab_consistent(*final(c)),
        forall|n: Seq<char>| #[trigger] cab_member_decodes(*final(c), n)
            == cab_member_decodes(*old(c), n),
        r is Ok <==> has_member(cab_contents(*old(c)), name@)
            && cab_member_decodes(*old(c), name@),
        r is Ok ==> exists|i: int| 0 <= i < cab_contents(*old(c)).len()
            && (#[trigger] cab_contents(*old(c))[i]).0 == name@
            && cab_contents(*old(c))[i].1 == r->Ok_0@,
        r is Err ==> r->Err_0 == Error::Io,
{
    let mut reader = match c.read_file(name.as_str()) {
        Ok(reader) => reader,
        Err(_) => return Err(Error::Io),
    };
    let mut data = Vec::new();
    match std::io::Read::read_to_end(&mut reader, &mut data) {
        Ok(_) => Ok(data),
        Err(_) => Err(Error::Io),
    }
}

/// One row of a cabinet's table of contents: the member's logical path and
/// the name key the backing reader looks the member up by. For a cabinet
/// the two carry the same text.
pub struct FileEntry {
    path: String,
    name: String,
}

impl FileEntry {
    /// The path equals the name key: both are the member's stored name.
    pub closed spec fn wf(&self) -> bool {
        self.path@ == self.name@
    }

    /// The member's logical path.
    pub closed spec fn spec_path(&self) -> Seq<char> {
        self.path@
    }
}

/// One member of a cabinet, fully decoded: a readable stream over the
/// member's content plus its logical path.
pub struct CabEntry {
    path: String,
    data: Vec<u8>,
    pos: usize,
}

impl Entry for CabEntry {
    closed spec fn entry_path(&self) -> Seq<char> {
        self.path@
    }

    closed spec fn entry_data(&self) -> Seq<u8> {
        self.data@
    }

    closed spec fn entry_pos(&self) -> int {
        self.pos as int
    }

    fn path(&self) -> (r: String) {
        self.path.clone()
    }

    fn size(&self) -> (r: usize) {
        self.data.len()
    }

    fn read(&mut self, n: usize) -> (r: Vec<u8>) {
        let len = self.data.len();
        let end = if n <= len - self.pos { self.pos + n } else { len };
        let mut out: Vec<u8> = Vec::new();
        let mut i = self.pos;
        while i < end
            invariant
                self.pos <= i <= end <= self.data@.len(),
                self.data@ == old(self).data@,
                self.pos == old(self).pos,
                self.path@ == old(self).path@,
                out@ == self.data@.subrange(self.pos as int, i as int),
            decreases end - i,
        {
            let b = self.data[i];
            out.push(b);
            i = i + 1;
        }
        self.pos = end;
        out
    }
}

/// The cursor over a cabinet's members.
///
/// It owns its own backing reader, opened for it by `CabArchive::cursor`
/// over the archive's immutable buffer, so any number of cursors may
/// coexist and each step decodes one member on demand.
pub struct CabEntries {
    cabinet: cab::Cabinet<std::io::Cursor<Vec<u8>>>,
    names: Vec<String>,
    index: usize,
}

impl CabEntries {
    /// The members held by the cursor's reader.
    pub closed spec fn members(&self) -> Directory {
        cab_contents(self.cabinet)
    }

    /// How many members have been handed out already.
    pub closed spec fn position(&self) -> int {
        self.index as int
    }

    /// The cursor's reader was opened on offset-consistent bytes, so a
    /// step can ask it to seek (see `cab_table_consistent`).
    pub closed spec fn consistent(&self) -> bool {
        cab_consistent(self.cabinet)
    }

    /// The member carrying `name` decodes under the cursor's reader.
    pub closed spec fn decodes(&self, name: Seq<char>) -> bool {
        cab_member_decodes(self.cabinet, name)
    }

    /// The name table mirrors the members, and the position stays inside it.
    pub closed spec fn wf(&self) -> bool {
        &&& self.names@.len() == self.members().len()
        &&& forall|i: int| 0 <= i < self.names@.len()
            ==> (#[trigger] self.names@[i])@ == self.members()[i].0
        &&& 0 <= self.index <= self.names@.len()
    }
}

/// What `CabEntries::wf` guarantees to callers outside this module: the
/// cursor position stays inside the member table.
pub proof fn lemma_cab_entries_bounds(c: CabEntries)
    requires
        c.wf(),
    ensures
        0 <= c.position() <= c.members().len(),
{
}

impl LendingIterator for CabEntries {
    type Item = Result<CabEntry, Error>;

    open spec fn inv(&self) -> bool {
        self.wf() && self.consistent()
    }

    /// Advance the cursor: decode and hand out the member at the current
    /// position, or report exhaustion.
    ///
    /// A step succeeds exactly when the member at the position decodes; a
    /// member that does not yields an error in its place without ending
    /// the iteration, and the cursor still moves on to the next member.
    fn next(&mut self) -> (r: Option<Result<CabEntry, Error>>)
        ensures
            final(self).members() == old(self).members(),
            forall|n: Seq<char>| #[trigger] final(self).decodes(n) == old(self).decodes(n),
            old(self).position() >= old(self).members().len() ==> r is None
                && final(self).position() == old(self).position(),
            old(self).position() < old(self).members().len() ==> {
                &&& final(self).position() == old(self).position() + 1
                &&& r is Some
                &&& (r->Some_0 is Ok
                    <==> old(self).decodes(old(self).members()[old(self).position()].0))
                &&& r->Some_0 matches Ok(e) ==> {
                    &&& e.entry_pos() == 0
                    &&& e.entry_path() == old(self).members()[old(self).position()].0
                    &&& exists|i: int| 0 <= i < old(self).members().len()
                        && (#[trigger] old(self).members()[i]).0 == e.entry_path()
                        && old(self).members()[i].1 == e.entry_data()
                }
                &&& r->Some_0 matches Err(err) ==> err == Error::Io
            },
    {
        if self.index >= self.names.len() {
            return None;
        }
        let i = self.index;
        self.index = i + 1;
        proof {
            assert(has_member(old(self).members(), old(self).members()[i as int].0));
        }
        match cab_read_member(&mut self.cabinet, &self.names[i]) {
            Ok(data) => Some(Ok(CabEntry { path: self.names[i].clone(), data, pos: 0 })),
            Err(e) => Some(Err(e)),
        }
    }
}

/// A cabinet archive over an owned byte source.
///
/// The folder and file tables are parsed eagerly at construction, so the
/// table of contents is fixed from then on. The buffer is never mutated,
/// and every cursor gets a backing reader of its own opened over it, so
/// enumeration is repeatable and cursors are independent.
pub struct CabArchive {
    bytes: Vec<u8>,
    entries: Vec<FileEntry>,
}

impl CabArchive {
    /// The members of the archive, as its directory records them.
    pub closed spec fn members(&self) -> Directory {
        cab_directory(self.bytes@)->Some_0
    }

    /// The logical paths of the table of contents, in directory order.
    pub closed spec fn paths(&self) -> Seq<Seq<char>> {
        Seq::new(self.entries@.len() as nat, |i: int| self.entries@[i].spec_path())
    }

    /// The archive's file entries record offsets inside their folders'
    /// data, so its members can be read (see `cab_table_consistent`).
    pub closed spec fn consistent(&self) -> bool {
        cab_table_consistent(self.bytes@)
    }

    /// The buffer parses as a cabinet, and the recorded table rows mirror
    /// its members.
    pub closed spec fn wf(&self) -> bool {
        &&& cab_directory(self.bytes@) is Some
        &&& forall|i: int| 0 <= i < self.entries@.len() ==> (#[trigger] self.entries@[i]).wf()
        &&& self.entries@.len() == self.members().len()
        &&& forall|i: int| 0 <= i < self.entries@.len()
            ==> (#[trigger] self.entries@[i]).spec_path() == self.members()[i].0
    }

    /// Open a byte source as a cabinet: parse the header and the folder
    /// and file tables eagerly and record the table of contents.
    pub fn new(bytes: Vec<u8>) -> (r: Result<CabArchive, Error>)
        ensures
            r is Ok <==> cab_directory(bytes@) is Some,
            r is Ok ==> {
                &&& r->Ok_0.wf()
                &&& r->Ok_0.members() == cab_directory(bytes@)->Some_0
                &&& r->Ok_0.paths()
                    == cab_directory(bytes@)->Some_0.map_values(|m: (Seq<char>, Seq<u8>)| m.0)
                &&& (r->Ok_0.consistent() <==> cab_table_consistent(bytes@))
            },
            r is Err ==> r->Err_0 == Error::Io,
    {
        let cabinet = match cab_open(&bytes) {
            Ok(cabinet) => cabinet,
            Err(e) => return Err(e),
        };
        let names = cab_file_names(&cabinet);
        let mut entries: Vec<FileEntry> = Vec::new();
        let n = names.len();
        let mut i: usize = 0;
        while i < n
            invariant
                0 <= i <= n == names@.len(),
                entries@.len() == i,
                forall|j: int| 0 <= j < i ==> (#[trigger] entries@[j]).wf(),
                forall|j: int| 0 <= j < i
                    ==> (#[trigger] entries@[j]).spec_path() == names@[j]@,
            decreases n - i,
        {
            let name = names[i].clone();
            let entry = FileEntry { path: name.clone(), name };
            entries.push(entry);
            i = i + 1;
        }
        let archive = CabArchive { bytes, entries };
        proof {
            assert(archive.paths()
                =~= cab_directory(archive.bytes@)->Some_0
                    .map_values(|m: (Seq<char>, Seq<u8>)| m.0));
        }
        Ok(archive)
    }

    /// Hand out a fresh cursor over the members, with a backing reader of
    /// its own opened over the archive's buffer. The directory was already
    /// validated at construction, so this always succeeds, and any number
    /// of cursors may be live at once: each reads the immutable buffer
    /// independently.
    pub fn cursor(&self) -> (r: Result<CabEntries, Error>)
        requires
            self.wf(),
        ensures
            r is Ok,
            r->Ok_0.wf(),
            r->Ok_0.members() == self.members(),
            r->Ok_0.position() == 0,
            r->Ok_0.consistent() <==> self.consistent(),
    {
        let cabinet = match cab_open(&self.bytes) {
            Ok(cabinet) => cabinet,
            Err(e) => return Err(e),
        };
        let mut names: Vec<String> = Vec::new();
        let n = self.entries.len();
        let mut i: usize = 0;
        while i < n
            invariant
                0 <= i <= n == self.entries@.len(),
                names@.len() == i,
                forall|j: int| 0 <= j < self.entries@.len()
                    ==> (#[trigger] self.entries@[j]).wf(),
                forall|j: int| 0 <= j < i
                    ==> (#[trigger] names@[j])@ == self.entries@[j].spec_path(),
            decreases n - i,
        {
            names.push(self.entries[i].name.clone());
            i = i + 1;
        }
        Ok(CabEntries { cabinet, names, index: 0 })
    }
}

/// Law: enumeration of a cabinet is repeatable. Any two fresh cursors
/// handed out for the same table of contents walk the same members: the
/// ordered path sequences they will yield are equal.
pub proof fn lemma_cab_enumeration_repeatable(c1: CabEntries, c2: CabEntries)
    requires
        c1.wf(),
        c2.wf(),
        c1.members() == c2.members(),
        c1.position() == 0,
        c2.position() == 0,
    ensures
        c1.members().map_values(|m: (Seq<char>, Seq<u8>)| m.0)
            == c2.members().map_values(|m: (Seq<char>, Seq<u8>)| m.0),
{
}

} // verus!
