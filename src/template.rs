//! Reading a packaged project template and deciding, member by member, what
//! is to be written under the destination directory.

use crate::placeholder::{substitute, substitution_for};
use std::io::Cursor;
use vstd::prelude::*;
use vstd::string::StrSliceExecFns;
use vstd::string::StringExecFns;
use vstd::utf8::valid_utf8;
use zip::ZipArchive;

verus! {

#[verifier::external_type_specification]
#[verifier::external_body]
#[verifier::reject_recursive_types(T)]
pub struct ExCursor<T>(Cursor<T>);

#[verifier::external_type_specification]
#[verifier::external_body]
#[verifier::reject_recursive_types(R)]
pub struct ExZipArchive<R>(ZipArchive<R>);

/// What an in-memory zip archive holds, member by member, in archive order:
/// the stored name, the decompressed content and the Unix permission bits.
pub uninterp spec fn archive_members(a: ZipArchive<Cursor<Vec<u8>>>) -> Seq<(Seq<char>, Seq<u8>, Option<u32>)>;

/// The members of the zip archive that `bytes` holds, or none when the
/// bytes hold no well-formed archive.
pub uninterp spec fn archive_of(bytes: Seq<u8>) -> Option<Seq<(Seq<char>, Seq<u8>, Option<u32>)>>;

/// Whether member `i` of an archive can be read: its local header is sound,
/// its compression is supported and its data decompresses.
pub uninterp spec fn member_readable(a: ZipArchive<Cursor<Vec<u8>>>, i: int) -> bool;

/// Why scaffolding a template failed.
#[derive(Debug)]
pub enum ScaffoldError {
    /// The buffer is no well-formed archive, or a member could not be read.
    ArchiveCorrupt,
    /// A file that a member would create exists already (member name).
    FileAlreadyExists(String),
    /// Another filesystem failure, described.
    Io(String),
    /// A name was given but the member's content is no UTF-8 text.
    NonUtf8TextMember(String),
    /// A member index at or past the number of members.
    IndexOutOfRange(usize),
    /// A member name that is absolute or has a `..` component, so that it
    /// would be written outside the destination.
    UnsafeMemberName(String),
}

/// One member of a template, as stored.
#[derive(Debug)]
pub struct Member {
    pub name: String,
    pub content: Vec<u8>,
    pub mode: Option<u32>,
}

impl View for Member {
    type V = (Seq<char>, Seq<u8>, Option<u32>);

    open spec fn view(&self) -> Self::V {
        (self.name@, self.content@, self.mode)
    }
}

/// What a file member is to hold once written.
#[derive(Debug)]
pub enum Contents {
    Bytes(Vec<u8>),
    /// Substitution was asked for, but the content is no UTF-8 text.
    NotUtf8,
}

/// What to do on disk for one member.
#[derive(Debug)]
pub enum MemberPlan {
    /// Create the directory `path` and its ancestors.
    Directory { path: String, mode: Option<u32> },
    /// Create `path` exclusively (its ancestors first) and write `contents`.
    File { member: String, path: String, contents: Contents, mode: Option<u32> },
}

/// Whether a member name marks a directory.
pub open spec fn is_dir_marker(name: Seq<char>) -> bool {
    name.len() > 0 && name.last() == '/'
}

/// `name` joined to `root` as a path is pushed onto another: an absolute
/// name replaces the root, and a separator is put between the two unless the
/// root is empty or ends in one.
pub open spec fn join_path(root: Seq<char>, name: Seq<char>) -> Seq<char> {
    if name.len() > 0 && name[0] == '/' {
        name
    } else if root.len() == 0 || root.last() == '/' {
        root + name
    } else {
        root + seq!['/'] + name
    }
}

/// Whether `name` has a `..` component starting at position `k`.
pub open spec fn parent_component_at(name: Seq<char>, k: int) -> bool {
    &&& 0 <= k && k + 1 < name.len()
    &&& name[k] == '.' && name[k + 1] == '.'
    &&& k == 0 || name[k - 1] == '/'
    &&& k + 2 == name.len() || name[k + 2] == '/'
}

/// Whether a member name would reach outside the destination: it is
/// absolute, or one of its components is `..`.
pub open spec fn escapes_root(name: Seq<char>) -> bool {
    (name.len() > 0 && name[0] == '/') || exists|k: int| parent_component_at(name, k)
}

/// What a file member holds once written, for an optional project name.
pub open spec fn contents_for(content: Seq<u8>, project: Option<Seq<char>>, c: Contents) -> bool {
    match project {
        None => c is Bytes && c->Bytes_0@ == content,
        Some(n) => if valid_utf8(content) {
            c is Bytes && c->Bytes_0@ == substitution_for(content, n)
        } else {
            c is NotUtf8
        },
    }
}

/// Whether `p` is the plan for member `m` under `root`.
pub open spec fn plan_for(
    root: Seq<char>,
    m: (Seq<char>, Seq<u8>, Option<u32>),
    project: Option<Seq<char>>,
    p: MemberPlan,
) -> bool {
    if is_dir_marker(m.0) {
        &&& p is Directory
        &&& p->Directory_path@ == join_path(root, m.0)
        &&& p->Directory_mode == m.2
    } else {
        &&& p is File
        &&& p->File_member@ == m.0
        &&& p->File_path@ == join_path(root, m.0)
        &&& contents_for(m.1, project, p->File_contents)
        &&& p->File_mode == m.2
    }
}

/// The view of an optional string.
pub open spec fn opt_view(s: Option<&str>) -> Option<Seq<char>> {
    match s {
        Some(t) => Some(t@),
        None => None,
    }
}

/// Relies on `std::str::from_utf8`: it accepts exactly the valid UTF-8
/// byte sequences.
#[verifier::external_body]
fn is_utf8(bytes: &[u8]) -> (r: bool)
    ensures
        r == valid_utf8(bytes@),
{
    std::str::from_utf8(bytes).is_ok()
}

/// Joins a member name to the destination root.
pub fn join_path_exec(root: &str, name: &str) -> (r: String)
    ensures
        r@ == join_path(root@, name@),
{
    let name_len = name.unicode_len();
    if name_len > 0 && name.get_char(0) == '/' {
        return name.to_owned();
    }
    let root_len = root.unicode_len();
    let mut out = root.to_owned();
    if root_len > 0 && root.get_char(root_len - 1) != '/' {
        proof {
            reveal_strlit("/");
        }
        out.append("/");
    }
    out.append(name);
    out
}

/// Whether a member name marks a directory.
pub fn is_dir_marker_exec(name: &str) -> (r: bool)
    ensures
        r == is_dir_marker(name@),
{
    let n = name.unicode_len();
    n > 0 && name.get_char(n - 1) == '/'
}

/// Whether a member name would reach outside the destination.
pub fn escapes_root_exec(name: &str) -> (r: bool)
    ensures
        r == escapes_root(name@),
{
    let n = name.unicode_len();
    if n > 0 && name.get_char(0) == '/' {
        return true;
    }
    let mut k: usize = 0;
    while k < n && k + 1 < n
        invariant
            n == name@.len(),
            k <= n,
            forall|j: int| 0 <= j < k ==> !parent_component_at(name@, j),
        decreases n - k,
    {
        if name.get_char(k) == '.' && name.get_char(k + 1) == '.' && (k == 0 || name.get_char(
            k - 1,
        ) == '/') && (k + 2 == n || name.get_char(k + 2) == '/') {
            assert(parent_component_at(name@, k as int));
            return true;
        }
        k = k + 1;
    }
    assert forall|j: int| !parent_component_at(name@, j) by {
        if 0 <= j < k {
        }
    }
    false
}

/// Decides what to write for one member under `root`: a name that would
/// reach outside the destination is refused; a directory marker becomes a
/// directory; any other member becomes a file whose content is copied as it
/// is without a project name, and with one is substituted when it is UTF-8
/// text.
pub fn plan_entry(root: &str, member: Member, project: Option<&str>) -> (r: Result<MemberPlan, ScaffoldError>)
    ensures
        r is Ok <==> !escapes_root(member.name@),
        r matches Ok(p) ==> plan_for(root@, member@, opt_view(project), p),
        r matches Err(e) ==> e is UnsafeMemberName && e->UnsafeMemberName_0@ == member.name@,
{
    if escapes_root_exec(member.name.as_str()) {
        return Err(ScaffoldError::UnsafeMemberName(member.name));
    }
    let path = join_path_exec(root, member.name.as_str());
    if is_dir_marker_exec(member.name.as_str()) {
        return Ok(MemberPlan::Directory { path, mode: member.mode });
    }
    let contents = match project {
        None => Contents::Bytes(member.content),
        Some(n) => {
            if is_utf8(member.content.as_slice()) {
                Contents::Bytes(substitute(member.content.as_slice(), n))
            } else {
                Contents::NotUtf8
            }
        },
    };
    Ok(MemberPlan::File { member: member.name, path, contents, mode: member.mode })
}

/// Relies on `zip::ZipArchive::new` over an in-memory cursor: it fails when
/// the buffer holds no well-formed archive.
#[verifier::external_body]
fn open_archive(bytes: &[u8]) -> (r: Option<ZipArchive<Cursor<Vec<u8>>>>)
    ensures
        r is Some <==> archive_of(bytes@) is Some,
        r matches Some(a) ==> archive_of(bytes@) == Some(archive_members(a)),
{
    ZipArchive::new(Cursor::new(bytes.to_vec())).ok()
}

/// Relies on `zip::ZipArchive::len`: the number of members.
#[verifier::external_body]
fn archive_len(a: &ZipArchive<Cursor<Vec<u8>>>) -> (r: usize)
    ensures
        r == archive_members(*a).len(),
{
    a.len()
}

/// Relies on `zip::ZipArchive::by_index_decrypt` with an empty password and,
/// on the member it gives, `ZipFile::name`, `Read::read_to_end` and
/// `ZipFile::unix_mode`: a member that cannot be opened (among them one that
/// asks for a password) comes back as an error value rather than a panic;
/// reading a member leaves what the archive holds as it was, and may fail on
/// damaged data.
#[verifier::external_body]
fn read_archive_member(a: &mut ZipArchive<Cursor<Vec<u8>>>, i: usize) -> (r: Option<Member>)
    requires
        i < archive_members(*old(a)).len(),
    ensures
        archive_members(*final(a)) == archive_members(*old(a)),
        forall|j: int| member_readable(*final(a), j) == member_readable(*old(a), j),
        r is Some <==> member_readable(*old(a), i as int),
        r matches Some(m) ==> m@ == archive_members(*old(a))[i as int],
{
    let mut file = a.by_index_decrypt(i, &[]).ok()?.ok()?;
    let mut content = Vec::new();
    std::io::Read::read_to_end(&mut file, &mut content).ok()?;
    Some(Member { name: file.name().to_string(), content, mode: file.unix_mode() })
}

/// A project template: an archive read from a byte buffer.
pub struct Template {
    archive: ZipArchive<Cursor<Vec<u8>>>,
}

impl Template {
    /// The members of the template, in archive order.
    pub closed spec fn members(&self) -> Seq<(Seq<char>, Seq<u8>, Option<u32>)> {
        archive_members(self.archive)
    }

    /// Whether member `i` can be read.
    pub closed spec fn readable(&self, i: int) -> bool {
        member_readable(self.archive, i)
    }

    /// Reads a template from the bytes of a zip archive.
    pub fn from_bytes(bytes: &[u8]) -> (r: Result<Template, ScaffoldError>)
        ensures
            r is Ok <==> archive_of(bytes@) is Some,
            r matches Ok(t) ==> archive_of(bytes@) == Some(t.members()),
            r matches Err(e) ==> e is ArchiveCorrupt,
    {
        match open_archive(bytes) {
            Some(archive) => Ok(Template { archive }),
            None => Err(ScaffoldError::ArchiveCorrupt),
        }
    }

    /// The number of members.
    pub fn len(&self) -> (r: usize)
        ensures
            r == self.members().len(),
    {
        archive_len(&self.archive)
    }

    /// Reads member `i` as stored.
    pub fn member(&mut self, i: usize) -> (r: Result<Member, ScaffoldError>)
        ensures
            final(self).members() == old(self).members(),
            forall|j: int| final(self).readable(j) == old(self).readable(j),
            r is Ok <==> i < old(self).members().len() && old(self).readable(i as int),
            r matches Ok(m) ==> m@ == old(self).members()[i as int],
            r matches Err(e) ==> if i < old(self).members().len() {
                e is ArchiveCorrupt
            } else {
                e == ScaffoldError::IndexOutOfRange(i)
            },
    {
        if i >= self.len() {
            return Err(ScaffoldError::IndexOutOfRange(i));
        }
        match read_archive_member(&mut self.archive, i) {
            Some(m) => Ok(m),
            None => Err(ScaffoldError::ArchiveCorrupt),
        }
    }

    /// Reads member `i` and decides what to write for it under `root`, for
    /// an optional project name.
    pub fn plan_member(&mut self, root: &str, i: usize, project: Option<&str>) -> (r: Result<MemberPlan, ScaffoldError>)
        ensures
            final(self).members() == old(self).members(),
            forall|j: int| final(self).readable(j) == old(self).readable(j),
            r is Ok <==> i < old(self).members().len() && old(self).readable(i as int)
                && !escapes_root(old(self).members()[i as int].0),
            r matches Ok(p) ==> plan_for(root@, old(self).members()[i as int], opt_view(project), p),
            r matches Err(e) ==> if i >= old(self).members().len() {
                e == ScaffoldError::IndexOutOfRange(i)
            } else if !old(self).readable(i as int) {
                e is ArchiveCorrupt
            } else {
                e is UnsafeMemberName && e->UnsafeMemberName_0@ == old(self).members()[i as int].0
            },
    {
        let m = self.member(i)?;
        plan_entry(root, m, project)
    }
}

impl ScaffoldError {
    /// The error for a failed exclusive creation of the file of `member`:
    /// `FileAlreadyExists` when the file was there, else `Io` with `detail`.
    pub fn from_open_failure(member: &str, already_exists: bool, detail: String) -> (r: ScaffoldError)
        ensures
            already_exists ==> r is FileAlreadyExists && r->FileAlreadyExists_0@ == member@,
            !already_exists ==> r is Io && r->Io_0@ == detail@,
    {
        if already_exists {
            ScaffoldError::FileAlreadyExists(member.to_owned())
        } else {
            ScaffoldError::Io(detail)
        }
    }
}

/// A template whose members all mark directories is planned as exactly
/// those directories, each under the root, and no file at all.
pub proof fn lemma_directory_markers_plan_directories(
    root: Seq<char>,
    members: Seq<(Seq<char>, Seq<u8>, Option<u32>)>,
    project: Option<Seq<char>>,
    plans: Seq<MemberPlan>,
)
    requires
        plans.len() == members.len(),
        forall|i: int| 0 <= i < members.len() ==> is_dir_marker(#[trigger] members[i].0),
        forall|i: int|
            0 <= i < members.len() ==> plan_for(root, #[trigger] members[i], project, plans[i]),
    ensures
        forall|i: int|
            0 <= i < plans.len() ==> (#[trigger] plans[i]) is Directory
                && plans[i]->Directory_path@ == join_path(root, members[i].0),
        forall|i: int| 0 <= i < plans.len() ==> !((#[trigger] plans[i]) is File),
{
    assert forall|i: int| 0 <= i < plans.len() implies (#[trigger] plans[i]) is Directory
        && plans[i]->Directory_path@ == join_path(root, members[i].0) by {
        assert(is_dir_marker(members[i].0));
        assert(plan_for(root, members[i], project, plans[i]));
    }
}

/// Without a project name a file member is written with exactly the bytes
/// that the archive holds for it.
pub proof fn lemma_no_name_keeps_bytes(
    root: Seq<char>,
    m: (Seq<char>, Seq<u8>, Option<u32>),
    p: MemberPlan,
)
    requires
        !is_dir_marker(m.0),
        plan_for(root, m, None, p),
    ensures
        p is File,
        p->File_contents is Bytes,
        p->File_contents->Bytes_0@ == m.1,
{
}

} // verus!
