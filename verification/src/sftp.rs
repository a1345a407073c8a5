//! Remote files: what their attributes mean, how a directory is listed, and
//! how a file is opened and read.
use russh_sftp::protocol::{FileAttributes, FileType, OpenFlags};
use vstd::prelude::*;

verus! {

/// The attributes of a remote file, as far as they are looked at. A server
/// may leave out any of them.
#[derive(Debug, Clone, Copy)]
pub struct FileAttrs {
    pub size: Option<u64>,
    /// The mode of the file: its type and its permission bits.
    pub permissions: Option<u32>,
    /// Seconds since the Unix epoch.
    pub mtime: Option<u32>,
}

/// What kind of file a remote file is.
#[derive(Debug, Clone, Copy, PartialEq, Eq)]
pub enum FileKind {
    Dir,
    File,
    Symlink,
    Other,
}

/// The kind of a file by the type bits of its mode, which are all clear where
/// the mode is left out.
pub open spec fn kind_of(permissions: Option<u32>) -> FileKind {
    let mode: u32 = match permissions {
        Some(bits) => bits & 0xF000,
        None => 0,
    };
    if mode == 0x4000 {
        FileKind::Dir
    } else if mode == 0x8000 {
        FileKind::File
    } else if mode == 0xA000 {
        FileKind::Symlink
    } else {
        FileKind::Other
    }
}

/// `FileAttributes::file_type` looks at the four type bits of the mode alone,
/// and takes a mode that is left out for zero.
#[verifier::external_body]
fn file_kind(permissions: Option<u32>) -> (kind: FileKind)
    ensures
        kind == kind_of(permissions),
{
    let attributes = FileAttributes { permissions, ..FileAttributes::default() };
    match attributes.file_type() {
        FileType::Dir => FileKind::Dir,
        FileType::File => FileKind::File,
        FileType::Symlink => FileKind::Symlink,
        FileType::Other => FileKind::Other,
    }
}

/// The length of a file, where a size that is left out counts as zero.
pub open spec fn length_of(size: Option<u64>) -> u64 {
    match size {
        Some(n) => n,
        None => 0,
    }
}

/// `FileAttributes::len` is the size, and 0 where it is left out.
#[verifier::external_body]
fn file_length(size: Option<u64>) -> (length: u64)
    ensures
        length == length_of(size),
{
    FileAttributes { size, ..FileAttributes::default() }.len()
}

/// `FileAttributes::modified` is the modification time, as a point in time
/// that lies `mtime` seconds after the Unix epoch; there is none where it is
/// left out.
#[verifier::external_body]
fn modified_secs(mtime: Option<u32>) -> (secs: Option<u64>)
    ensures
        match mtime {
            Some(n) => secs == Some(n as u64),
            None => secs is None,
        },
{
    match (FileAttributes { mtime, ..FileAttributes::default() }).modified() {
        Ok(time) => match time.duration_since(std::time::UNIX_EPOCH) {
            Ok(since) => Some(since.as_secs()),
            Err(_) => None,
        },
        Err(_) => None,
    }
}

/// File metadata as a file browser shows it.
#[derive(Debug, Clone)]
pub struct SshSpikeFileMeta {
    pub size: u64,
    pub is_dir: bool,
    pub is_file: bool,
    pub is_symlink: bool,
    /// Seconds since the Unix epoch.
    pub mtime_unix: Option<i64>,
    pub permissions: Option<u32>,
}

/// One entry of a directory: its name, and the same metadata.
#[derive(Debug, Clone)]
pub struct SshSpikeDirEntry {
    pub file_name: String,
    pub size: u64,
    pub is_dir: bool,
    pub is_file: bool,
    pub is_symlink: bool,
    /// Seconds since the Unix epoch.
    pub mtime_unix: Option<i64>,
    pub permissions: Option<u32>,
}

/// The metadata that attributes stand for.
pub open spec fn meta_of(attrs: FileAttrs) -> SshSpikeFileMeta {
    SshSpikeFileMeta {
        size: length_of(attrs.size),
        is_dir: kind_of(attrs.permissions) is Dir,
        is_file: kind_of(attrs.permissions) is File,
        is_symlink: kind_of(attrs.permissions) is Symlink,
        mtime_unix: match attrs.mtime {
            Some(secs) => Some(secs as i64),
            None => None,
        },
        permissions: attrs.permissions,
    }
}

/// The metadata of a remote file.
pub fn meta_record(attrs: &FileAttrs) -> (meta: SshSpikeFileMeta)
    ensures
        meta == meta_of(*attrs),
        meta.size == match attrs.size {
            Some(n) => n,
            None => 0,
        },
        meta.is_dir <==> (attrs.permissions matches Some(mode) && mode & 0xF000 == 0x4000),
        meta.is_file <==> (attrs.permissions matches Some(mode) && mode & 0xF000 == 0x8000),
        meta.is_symlink <==> (attrs.permissions matches Some(mode) && mode & 0xF000 == 0xA000),
        match attrs.mtime {
            Some(secs) => meta.mtime_unix matches Some(t) && t == secs,
            None => meta.mtime_unix is None,
        },
        meta.permissions == attrs.permissions,
{
    let kind = file_kind(attrs.permissions);
    SshSpikeFileMeta {
        size: file_length(attrs.size),
        is_dir: matches!(kind, FileKind::Dir),
        is_file: matches!(kind, FileKind::File),
        is_symlink: matches!(kind, FileKind::Symlink),
        mtime_unix: match modified_secs(attrs.mtime) {
            Some(secs) => Some(secs as i64),
            None => None,
        },
        permissions: attrs.permissions,
    }
}

/// The size, the time and the mode are shown as the server reports them, the size
/// as zero where it is left out; and the kind is told by the four type bits of
/// the mode alone.
pub proof fn metadata_is_what_the_server_reports(attrs: FileAttrs)
    ensures
        attrs.size matches Some(n) ==> meta_of(attrs).size == n,
        attrs.size is None ==> meta_of(attrs).size == 0,
        attrs.mtime matches Some(secs) ==> (meta_of(attrs).mtime_unix matches Some(t) && t == secs),
        attrs.mtime is None ==> meta_of(attrs).mtime_unix is None,
        meta_of(attrs).permissions == attrs.permissions,
        meta_of(attrs).is_dir <==> (attrs.permissions matches Some(mode) && mode & 0xF000 == 0x4000),
        meta_of(attrs).is_file <==> (attrs.permissions matches Some(mode) && mode & 0xF000
            == 0x8000),
        meta_of(attrs).is_symlink <==> (attrs.permissions matches Some(mode) && mode & 0xF000
            == 0xA000),
{
}

/// Two files that are shown alike agree in mode and time, and in size where the
/// server reports both sizes.
pub proof fn metadata_tells_files_apart(a: FileAttrs, b: FileAttrs)
    requires
        meta_of(a) == meta_of(b),
    ensures
        a.permissions == b.permissions,
        a.mtime == b.mtime,
        a.size is Some && b.size is Some ==> a.size == b.size,
{
    if a.mtime is Some && b.mtime is Some {
        assert(a.mtime->0 as i64 == b.mtime->0 as i64);
    }
}

/// The kinds and lengths that attributes stand for, by the mode and the size.
pub proof fn kinds_and_lengths(mode: u32, size: u64)
    ensures
        kind_of(Some(mode)) is Dir <==> mode & 0xF000 == 0x4000,
        kind_of(Some(mode)) is File <==> mode & 0xF000 == 0x8000,
        kind_of(Some(mode)) is Symlink <==> mode & 0xF000 == 0xA000,
        kind_of(None) is Other,
        length_of(Some(size)) == size,
        length_of(None) == 0,
{
}

/// A file is a directory, a regular file or a symbolic link, or none of them,
/// but never two of them.
pub proof fn a_file_is_of_one_kind(attrs: FileAttrs)
    ensures
        !(meta_of(attrs).is_dir && meta_of(attrs).is_file),
        !(meta_of(attrs).is_dir && meta_of(attrs).is_symlink),
        !(meta_of(attrs).is_file && meta_of(attrs).is_symlink),
{
}

/// The permission bits of the mode have no say in the kind of the file.
pub proof fn the_kind_ignores_the_permission_bits(a: u32, b: u32)
    requires
        a & 0xF000 == b & 0xF000,
    ensures
        kind_of(Some(a)) == kind_of(Some(b)),
{
}

/// A file that the server reports as regular and of some size is shown as
/// that: of that size, and neither a directory nor a symbolic link.
pub proof fn a_regular_file_is_shown_as_one(attrs: FileAttrs, size: u64, mode: u32)
    requires
        attrs.size == Some(size),
        attrs.permissions == Some(mode),
        mode & 0xF000 == 0x8000,
    ensures
        meta_of(attrs).size == size,
        meta_of(attrs).is_file,
        !meta_of(attrs).is_dir,
        !meta_of(attrs).is_symlink,
{
}

/// A name in a directory with the attributes of the file of that name.
#[derive(Debug)]
pub struct NamedAttrs {
    pub name: String,
    pub attrs: FileAttrs,
}

/// Whether a directory entry shows a name and attributes.
pub open spec fn shows(entry: SshSpikeDirEntry, name: Seq<char>, attrs: FileAttrs) -> bool {
    let meta = meta_of(attrs);
    &&& entry.file_name@ == name
    &&& entry.size == meta.size
    &&& entry.is_dir == meta.is_dir
    &&& entry.is_file == meta.is_file
    &&& entry.is_symlink == meta.is_symlink
    &&& entry.mtime_unix == meta.mtime_unix
    &&& entry.permissions == meta.permissions
}

fn dir_entry(file_name: String, attrs: &FileAttrs) -> (entry: SshSpikeDirEntry)
    ensures
        shows(entry, file_name@, *attrs),
        entry.file_name@ == file_name@,
        entry.size == match attrs.size {
            Some(n) => n,
            None => 0,
        },
        entry.is_dir <==> (attrs.permissions matches Some(mode) && mode & 0xF000 == 0x4000),
        entry.is_file <==> (attrs.permissions matches Some(mode) && mode & 0xF000 == 0x8000),
        entry.is_symlink <==> (attrs.permissions matches Some(mode) && mode & 0xF000 == 0xA000),
        match attrs.mtime {
            Some(secs) => entry.mtime_unix matches Some(t) && t == secs,
            None => entry.mtime_unix is None,
        },
        entry.permissions == attrs.permissions,
{
    let meta = meta_record(attrs);
    SshSpikeDirEntry {
        file_name,
        size: meta.size,
        is_dir: meta.is_dir,
        is_file: meta.is_file,
        is_symlink: meta.is_symlink,
        mtime_unix: meta.mtime_unix,
        permissions: meta.permissions,
    }
}

/// The path of a name in a directory.
pub open spec fn path_in(dir: Seq<char>, name: Seq<char>) -> Seq<char> {
    if dir.len() == 0 {
        name
    } else if dir.last() == '/' {
        dir + name
    } else {
        dir + "/"@ + name
    }
}

/// The path of a name in a directory: the two with a slash between them,
/// unless the directory is empty or ends in one.
pub fn entry_path(dir: &str, name: &str) -> (path: String)
    ensures
        path@ == path_in(dir@, name@),
        dir@.len() == 0 ==> path@ == name@,
        dir@.len() > 0 && dir@.last() == '/' ==> path@ == dir@ + name@,
        dir@.len() > 0 && dir@.last() != '/' ==> path@ == dir@ + seq!['/'] + name@,
{
    proof {
        reveal_strlit("/");
        assert("/"@ =~= seq!['/']);
    }
    let n: usize = dir.unicode_len();
    if n == 0 {
        return String::from_str(name);
    }
    let mut path = String::from_str(dir);
    if dir.get_char(n - 1) != '/' {
        path.append("/");
    }
    path.append(name);
    path
}

/// A path ends in the name, whole, and begins with the directory, whole; between
/// them there is at most one slash, which is there exactly where the directory
/// is not empty and does not end in one.
pub proof fn a_path_is_the_directory_and_the_name(dir: Seq<char>, name: Seq<char>)
    ensures
        dir.is_prefix_of(path_in(dir, name)),
        name.is_suffix_of(path_in(dir, name)),
        path_in(dir, name).len() == dir.len() + name.len() + if dir.len() > 0 && dir.last() != '/' {
            1int
        } else {
            0int
        },
        dir.len() > 0 ==> {
            let n = path_in(dir, name).len() - name.len();
            path_in(dir, name)[n - 1] == '/'
        },
{
    reveal_strlit("/");
    assert("/"@ =~= seq!['/']);
    let path = path_in(dir, name);
    assert(dir =~= path.subrange(0, dir.len() as int));
    assert(name =~= path.subrange(path.len() - name.len(), path.len() as int));
}

/// Different names in a directory have different paths.
pub proof fn paths_tell_names_apart(dir: Seq<char>, a: Seq<char>, b: Seq<char>)
    requires
        path_in(dir, a) == path_in(dir, b),
    ensures
        a == b,
{
    a_path_is_the_directory_and_the_name(dir, a);
    a_path_is_the_directory_and_the_name(dir, b);
    let path = path_in(dir, a);
    assert(a =~= path.subrange(path.len() - a.len(), path.len() as int));
    assert(b =~= path.subrange(path.len() - b.len(), path.len() as int));
}

/// A directory entry shows its own name and what the server reports of the file.
pub proof fn an_entry_shows_its_file(entry: SshSpikeDirEntry, name: Seq<char>, attrs: FileAttrs)
    requires
        shows(entry, name, attrs),
    ensures
        entry.file_name@ == name,
        entry.size == match attrs.size {
            Some(n) => n,
            None => 0,
        },
        entry.is_dir <==> (attrs.permissions matches Some(mode) && mode & 0xF000 == 0x4000),
        entry.is_file <==> (attrs.permissions matches Some(mode) && mode & 0xF000 == 0x8000),
        entry.is_symlink <==> (attrs.permissions matches Some(mode) && mode & 0xF000 == 0xA000),
        match attrs.mtime {
            Some(secs) => entry.mtime_unix matches Some(t) && t == secs,
            None => entry.mtime_unix is None,
        },
        entry.permissions == attrs.permissions,
{
}

/// A name and its attributes, where there are any.
pub open spec fn row(name: Seq<char>, attrs: Option<FileAttrs>) -> Seq<(Seq<char>, FileAttrs)> {
    match attrs {
        Some(a) => seq![(name, a)],
        None => Seq::empty(),
    }
}

/// What a listing shows: the directory itself as `.` and its parent as `..`,
/// each where it could be looked up, and then every entry.
pub open spec fn rows(
    here: Option<FileAttrs>,
    parent: Option<FileAttrs>,
    entries: Seq<NamedAttrs>,
) -> Seq<(Seq<char>, FileAttrs)> {
    row("."@, here) + row(".."@, parent) + Seq::new(
        entries.len(),
        |i: int| (entries[i].name@, entries[i].attrs),
    )
}

/// A listing begins with `.` where the directory could be looked up, goes on with
/// `..` where its parent could, and then holds every entry, in order and once.
pub proof fn a_listing_shows_every_entry_once(
    here: Option<FileAttrs>,
    parent: Option<FileAttrs>,
    entries: Seq<NamedAttrs>,
)
    ensures
        ({
            let all = rows(here, parent, entries);
            let first: int = if here is Some {
                1
            } else {
                0
            };
            let dots: int = if parent is Some {
                first + 1
            } else {
                first
            };
            &&& all.len() == dots + entries.len()
            &&& here matches Some(a) ==> all[0].0 == seq!['.'] && all[0].1 == a
            &&& parent matches Some(a) ==> all[first].0 == seq!['.', '.'] && all[first].1 == a
            &&& forall|i: int|
                0 <= i < entries.len() ==> all[dots + i].0 == #[trigger] entries[i].name@
                    && all[dots + i].1 == entries[i].attrs
        }),
{
    reveal_strlit(".");
    reveal_strlit("..");
    assert("."@ =~= seq!['.']);
    assert(".."@ =~= seq!['.', '.']);
}

/// The listing of a directory: the directory itself as `.` and its parent as
/// `..`, each where it could be looked up, and then every entry in the order
/// given.
pub fn listing(
    here: Option<FileAttrs>,
    parent: Option<FileAttrs>,
    entries: Vec<NamedAttrs>,
) -> (list: Vec<SshSpikeDirEntry>)
    ensures
        list@.len() == rows(here, parent, entries@).len(),
        forall|i: int|
            0 <= i < list@.len() ==> shows(
                #[trigger] list@[i],
                rows(here, parent, entries@)[i].0,
                rows(here, parent, entries@)[i].1,
            ),
        ({
            let first: int = if here is Some {
                1
            } else {
                0
            };
            let dots: int = if parent is Some {
                first + 1
            } else {
                first
            };
            &&& list@.len() == dots + entries@.len()
            &&& here matches Some(a) ==> shows(list@[0], seq!['.'], a)
            &&& parent matches Some(a) ==> shows(list@[first], seq!['.', '.'], a)
            &&& forall|i: int|
                0 <= i < entries@.len() ==> shows(
                    list@[dots + i],
                    #[trigger] entries@[i].name@,
                    entries@[i].attrs,
                )
        }),
{
    proof {
        a_listing_shows_every_entry_once(here, parent, entries@);
    }
    let mut list: Vec<SshSpikeDirEntry> = Vec::new();
    if let Some(attrs) = here {
        list.push(dir_entry(String::from_str("."), &attrs));
    }
    if let Some(attrs) = parent {
        list.push(dir_entry(String::from_str(".."), &attrs));
    }
    let ghost all = rows(here, parent, entries@);
    let ghost dots = list@.len();
    let mut i: usize = 0;
    while i < entries.len()
        invariant
            all == rows(here, parent, entries@),
            dots == row("."@, here).len() + row(".."@, parent).len(),
            i <= entries@.len(),
            list@.len() == dots + i,
            forall|j: int|
                0 <= j < list@.len() ==> shows(#[trigger] list@[j], all[j].0, all[j].1),
        decreases entries@.len() - i,
    {
        list.push(dir_entry(entries[i].name.clone(), &entries[i].attrs));
        assert(all[dots + i] == (entries@[i as int].name@, entries@[i as int].attrs));
        i = i + 1;
    }
    list
}

/// `OpenFlags::READ`.
#[verifier::external_body]
fn read_flag() -> (bits: u32)
    ensures
        bits == 0x1,
{
    OpenFlags::READ.bits()
}

/// `OpenFlags::WRITE`.
#[verifier::external_body]
fn write_flag() -> (bits: u32)
    ensures
        bits == 0x2,
{
    OpenFlags::WRITE.bits()
}

/// `OpenFlags::CREATE`.
#[verifier::external_body]
fn create_flag() -> (bits: u32)
    ensures
        bits == 0x8,
{
    OpenFlags::CREATE.bits()
}

/// `OpenFlags::TRUNCATE`.
#[verifier::external_body]
fn truncate_flag() -> (bits: u32)
    ensures
        bits == 0x10,
{
    OpenFlags::TRUNCATE.bits()
}

/// How a remote file is to be opened.
#[derive(Debug, Clone, Copy, PartialEq, Eq)]
pub struct OpenPlan {
    /// The open flags of the SFTP protocol.
    pub flags: u32,
    /// Where to seek to once the file is open.
    pub seek: Option<u64>,
}

impl OpenPlan {
    /// Whether the file is opened for reading.
    pub open spec fn reads(self) -> bool {
        self.flags & 0x1 != 0
    }

    /// Whether the file is opened for writing.
    pub open spec fn writes(self) -> bool {
        self.flags & 0x2 != 0
    }

    /// Whether a file that is not there is created.
    pub open spec fn creates(self) -> bool {
        self.flags & 0x8 != 0
    }

    /// Whether what a file held is thrown away.
    pub open spec fn truncates(self) -> bool {
        self.flags & 0x10 != 0
    }

    /// The position of the first byte that is read or written.
    pub open spec fn position(self) -> u64 {
        match self.seek {
            Some(offset) => offset,
            None => 0,
        }
    }
}

/// The plan for opening a file: reading alone, or writing to a file that is
/// created where it is not there. There is no seek to the start.
pub open spec fn plan(read_only: bool, truncate: bool, offset: u64) -> OpenPlan {
    OpenPlan {
        flags: if read_only {
            0x1
        } else if truncate {
            0x1A
        } else {
            0xA
        },
        seek: if offset > 0 {
            Some(offset)
        } else {
            None
        },
    }
}

/// The plan for opening a file to read it, or to write to it from an offset.
pub fn open_file(read_only: bool, truncate: bool, offset: u64) -> (p: OpenPlan)
    ensures
        p == plan(read_only, truncate, offset),
        read_only ==> p.flags == 0x1,
        !read_only && truncate ==> p.flags == 0x1A,
        !read_only && !truncate ==> p.flags == 0xA,
        offset == 0 ==> p.seek is None,
        offset > 0 ==> p.seek == Some(offset),
{
    let flags: u32 = if read_only {
        read_flag()
    } else {
        let base: u32 = write_flag() | create_flag();
        assert(0x2u32 | 0x8u32 == 0xAu32) by (bit_vector);
        if truncate {
            assert(0xAu32 | 0x10u32 == 0x1Au32) by (bit_vector);
            base | truncate_flag()
        } else {
            base
        }
    };
    let seek: Option<u64> = if offset > 0 {
        Some(offset)
    } else {
        None
    };
    OpenPlan { flags, seek }
}

/// Opening a file to read all of it.
pub fn open_read() -> (p: OpenPlan)
    ensures
        p == plan(true, false, 0),
        p.flags == 0x1,
        p.seek is None,
{
    open_file(true, false, 0)
}

/// Opening a file to read it from an offset, which resumes a download.
pub fn open_read_at(offset: u64) -> (p: OpenPlan)
    ensures
        p == plan(true, false, offset),
        p.flags == 0x1,
        offset == 0 ==> p.seek is None,
        offset > 0 ==> p.seek == Some(offset),
{
    open_file(true, false, offset)
}

/// Opening a file to write all of it: it is created, or emptied.
pub fn open_write() -> (p: OpenPlan)
    ensures
        p == plan(false, true, 0),
        p.flags == 0x1A,
        p.seek is None,
{
    open_write_at(0, true)
}

/// Opening a file to write to it from an offset. Only a fresh upload, from
/// offset 0, may empty the file: one that is resumed keeps what is there.
pub fn open_write_at(offset: u64, truncate: bool) -> (p: OpenPlan)
    ensures
        p == plan(false, truncate && offset == 0, offset),
        truncate && offset == 0 ==> p.flags == 0x1A,
        !truncate || offset > 0 ==> p.flags == 0xA,
        offset == 0 ==> p.seek is None,
        offset > 0 ==> p.seek == Some(offset),
{
    open_file(false, truncate && offset == 0, offset)
}

/// The flags for writing a whole file in one go: it is created, or emptied.
pub fn whole_file_flags() -> (flags: u32)
    ensures
        flags == plan(false, true, 0).flags,
        flags == 0x1A,
{
    assert(0x8u32 | 0x10u32 | 0x2u32 == 0x1Au32) by (bit_vector);
    create_flag() | truncate_flag() | write_flag()
}

/// What a plan does, in terms of its flags: a reader only reads; a writer
/// writes, creates, and empties the file if it is to; and either starts at
/// the offset.
pub proof fn a_plan_does_what_it_is_for(read_only: bool, truncate: bool, offset: u64)
    ensures
        plan(read_only, truncate, offset).reads() == read_only,
        plan(read_only, truncate, offset).writes() == !read_only,
        plan(read_only, truncate, offset).creates() == !read_only,
        plan(read_only, truncate, offset).truncates() == (!read_only && truncate),
        plan(read_only, truncate, offset).position() == offset,
{
    assert(0x1u32 & 0x1 != 0 && 0x1u32 & 0x2 == 0 && 0x1u32 & 0x8 == 0 && 0x1u32 & 0x10 == 0)
        by (bit_vector);
    assert(0xAu32 & 0x1 == 0 && 0xAu32 & 0x2 != 0 && 0xAu32 & 0x8 != 0 && 0xAu32 & 0x10 == 0)
        by (bit_vector);
    assert(0x1Au32 & 0x1 == 0 && 0x1Au32 & 0x2 != 0 && 0x1Au32 & 0x8 != 0 && 0x1Au32 & 0x10 != 0)
        by (bit_vector);
}

/// A plan has the flags READ, WRITE, CREATE and TRUNCATE and no others: it never
/// appends, and it never asks that the file be new.
pub proof fn a_plan_has_no_other_flags(read_only: bool, truncate: bool, offset: u64)
    ensures
        plan(read_only, truncate, offset).flags & 0x24 == 0,
        plan(read_only, truncate, offset).flags & 0xFFFF_FFE4 == 0,
{
    assert(0x1u32 & 0x24 == 0 && 0xAu32 & 0x24 == 0 && 0x1Au32 & 0x24 == 0) by (bit_vector);
    assert(0x1u32 & 0xFFFF_FFE4 == 0 && 0xAu32 & 0xFFFF_FFE4 == 0 && 0x1Au32 & 0xFFFF_FFE4 == 0)
        by (bit_vector);
}

/// Each flag of a plan, bit for bit: READ for a reader; WRITE and CREATE for a
/// writer; TRUNCATE for a writer that is to empty the file.
pub proof fn the_flags_of_a_plan(read_only: bool, truncate: bool, offset: u64)
    ensures
        plan(read_only, truncate, offset).flags & 0x1 != 0 <==> read_only,
        plan(read_only, truncate, offset).flags & 0x2 != 0 <==> !read_only,
        plan(read_only, truncate, offset).flags & 0x8 != 0 <==> !read_only,
        plan(read_only, truncate, offset).flags & 0x10 != 0 <==> !read_only && truncate,
{
    a_plan_does_what_it_is_for(read_only, truncate, offset);
}

/// The offset has no say in the flags, and the mode of opening none in the seek:
/// there is one exactly for an offset past the start, and it goes there.
pub proof fn flags_and_seek_are_independent(
    read_only: bool,
    truncate: bool,
    reader: bool,
    empties: bool,
    a: u64,
    b: u64,
)
    ensures
        plan(read_only, truncate, a).flags == plan(read_only, truncate, b).flags,
        plan(read_only, truncate, a).seek == plan(reader, empties, a).seek,
        plan(read_only, truncate, a).seek is Some <==> a > 0,
        plan(read_only, truncate, a).seek matches Some(to) ==> to == a,
{
}

/// A resumed upload never empties the file, whatever it is asked.
pub proof fn a_resume_never_truncates(offset: u64, truncate: bool)
    requires
        offset > 0,
    ensures
        !plan(false, truncate && offset == 0, offset).truncates(),
{
    a_plan_does_what_it_is_for(false, truncate && offset == 0, offset);
}

// What the plans and chunks come to on a server that keeps to the protocol:
// an open acts on its flags, a write replaces the bytes from its position on,
// and a read gives the bytes from its position on.

/// What a file holds once it is opened; `held` is what it held, and `None`
/// where there was no file.
pub open spec fn opened(held: Option<Seq<u8>>, p: OpenPlan) -> Option<Seq<u8>> {
    match held {
        Some(content) => Some(
            if p.truncates() {
                Seq::empty()
            } else {
                content
            },
        ),
        None => if p.creates() {
            Some(Seq::empty())
        } else {
            None
        },
    }
}

/// What a file holds once data is written to it at a position within it.
pub open spec fn written(content: Seq<u8>, at: nat, data: Seq<u8>) -> Seq<u8>
    recommends
        at <= content.len(),
{
    let end = at + data.len();
    content.take(at as int) + data + if end < content.len() {
        content.skip(end as int)
    } else {
        Seq::empty()
    }
}

/// What a file holds once chunks are written to it one after the other.
pub open spec fn all_written(content: Seq<u8>, at: nat, chunks: Seq<Seq<u8>>) -> Seq<u8>
    decreases chunks.len(),
{
    if chunks.len() == 0 {
        content
    } else {
        all_written(
            written(content, at, chunks.first()),
            at + chunks.first().len(),
            chunks.drop_first(),
        )
    }
}

/// Chunks that are written from the end of a file on are appended to it.
proof fn lemma_appended(content: Seq<u8>, chunks: Seq<Seq<u8>>)
    ensures
        all_written(content, content.len(), chunks) == content + chunks.flatten(),
    decreases chunks.len(),
{
    if chunks.len() == 0 {
        assert(content + chunks.flatten() =~= content);
    } else {
        let next = written(content, content.len(), chunks.first());
        assert(next =~= content + chunks.first());
        lemma_appended(next, chunks.drop_first());
        assert(content + chunks.flatten() =~= next + chunks.drop_first().flatten());
    }
}

/// A fresh write, in one go or in chunks, leaves exactly its data in the file,
/// whatever the file held before and whether or not it was there.
pub proof fn a_fresh_write_leaves_its_data_alone(held: Option<Seq<u8>>, chunks: Seq<Seq<u8>>)
    ensures
        opened(held, plan(false, true, 0)) == Some(Seq::<u8>::empty()),
        all_written(Seq::empty(), plan(false, true, 0).position() as nat, chunks)
            == chunks.flatten(),
{
    a_plan_does_what_it_is_for(false, true, 0);
    lemma_appended(Seq::empty(), chunks);
    assert(Seq::<u8>::empty() + chunks.flatten() =~= chunks.flatten());
}

/// An upload that is resumed at the end of what is there appends to it.
pub proof fn a_resumed_upload_appends(
    content: Seq<u8>,
    offset: u64,
    truncate: bool,
    chunks: Seq<Seq<u8>>,
)
    requires
        0 < offset == content.len(),
    ensures
        opened(Some(content), plan(false, truncate && offset == 0, offset)) == Some(content),
        all_written(
            content,
            plan(false, truncate && offset == 0, offset).position() as nat,
            chunks,
        ) == content + chunks.flatten(),
{
    a_plan_does_what_it_is_for(false, truncate && offset == 0, offset);
    lemma_appended(content, chunks);
}

/// Whether a chunk is what is read of a file at a position: some of the bytes
/// from there on, and nothing only at the end.
pub open spec fn is_read(content: Seq<u8>, at: nat, chunk: Seq<u8>) -> bool {
    if at >= content.len() {
        chunk.len() == 0
    } else {
        &&& 0 < chunk.len() <= content.len() - at
        &&& chunk == content.subrange(at as int, (at + chunk.len()) as int)
    }
}

/// Whether chunks are what is read of a file one after the other, up to the
/// first empty one.
pub open spec fn all_read(content: Seq<u8>, at: nat, chunks: Seq<Seq<u8>>) -> bool
    decreases chunks.len(),
{
    &&& chunks.len() > 0
    &&& is_read(content, at, chunks.first())
    &&& if chunks.first().len() == 0 {
        chunks.len() == 1
    } else {
        all_read(content, at + chunks.first().len(), chunks.drop_first())
    }
}

proof fn lemma_tail(content: Seq<u8>, at: nat, chunks: Seq<Seq<u8>>)
    requires
        at <= content.len(),
        all_read(content, at, chunks),
    ensures
        chunks.flatten() == content.skip(at as int),
    decreases chunks.len(),
{
    let first = chunks.first();
    let rest = chunks.drop_first();
    if first.len() == 0 {
        assert(rest.flatten() =~= Seq::<u8>::empty());
        assert(chunks.flatten() =~= content.skip(at as int));
    } else {
        lemma_tail(content, at + first.len(), rest);
        assert(first + content.skip((at + first.len()) as int) =~= content.skip(at as int));
    }
}

/// Reading from an offset to the first empty chunk gives exactly the tail of
/// the file, and leaves the file as it is.
pub proof fn a_read_from_an_offset_gives_the_tail(
    content: Seq<u8>,
    offset: u64,
    chunks: Seq<Seq<u8>>,
)
    requires
        offset <= content.len(),
        all_read(content, plan(true, false, offset).position() as nat, chunks),
    ensures
        opened(Some(content), plan(true, false, offset)) == Some(content),
        chunks.flatten() == content.skip(offset as int),
{
    a_plan_does_what_it_is_for(true, false, offset);
    lemma_tail(content, offset as nat, chunks);
}

/// The buffer for reading at most `max` bytes.
pub fn read_buffer(max: u32) -> (buf: Vec<u8>)
    ensures
        buf@ == Seq::new(max as nat, |i: int| 0u8),
        buf@.len() == max,
        forall|i: int| 0 <= i < buf@.len() ==> #[trigger] buf@[i] == 0,
{
    let n: usize = max as usize;
    let buf: Vec<u8> = vec![0u8; n];
    assert(buf@ =~= Seq::new(max as nat, |i: int| 0u8));
    buf
}

/// The chunk that was read: the first `n` bytes of the buffer.
pub fn read_bytes(buf: Vec<u8>, n: usize) -> (chunk: Vec<u8>)
    ensures
        chunk@ == if n <= buf@.len() {
            buf@.take(n as int)
        } else {
            buf@
        },
        n <= buf@.len() ==> chunk@.len() == n,
        n > buf@.len() ==> chunk@.len() == buf@.len(),
        forall|i: int| 0 <= i < chunk@.len() ==> #[trigger] chunk@[i] == buf@[i],
{
    let mut chunk = buf;
    chunk.truncate(n);
    chunk
}

/// An empty chunk means that nothing was left to read, unless nothing was
/// asked for.
pub proof fn an_empty_read_is_the_end_of_the_file(buf: Seq<u8>, n: nat)
    requires
        buf.len() > 0,
        n <= buf.len(),
    ensures
        buf.take(n as int) == Seq::<u8>::empty() <==> n == 0,
{
    if n == 0 {
        assert(buf.take(0) =~= Seq::<u8>::empty());
    } else {
        assert(buf.take(n as int).len() == n);
    }
}

} // verus!
