//! Mirroring a local working directory into a directory on the server.
//!
//! The mirror is kept cheap: directories that hold build output or version
//! control data are left out, and so are very large files.

use crate::text;
use std::collections::hash_map::DefaultHasher;
use std::hash::BuildHasher;
use std::hash::BuildHasherDefault;
use std::path::Component;
use std::path::PathBuf;
use vstd::arithmetic::div_mod::*;
use vstd::arithmetic::power::*;
use vstd::prelude::*;
use vstd::string::*;

verus! {

/// Files with more bytes than this are not uploaded.
pub const MAX_UPLOAD_FILE_BYTES: u64 = 25 * 1024 * 1024;

/// At most this many directory entries are looked at.
pub const MAX_ENTRIES: usize = 50_000;

/// An owned file system path of the host.
#[verifier::external_type_specification]
#[verifier::external_body]
pub struct ExPath(PathBuf);

/// The hash of `path` under the default hasher of the standard library, which
/// starts with fixed keys.
pub uninterp spec fn path_hash(path: &PathBuf) -> u64;

/// `BuildHasher::hash_one` hashes the path with a fresh `DefaultHasher`. The
/// standard library makes every default `DefaultHasher` the same, so the hash
/// depends on the path alone. It does not say which hash that is, and another
/// release may have another.
#[verifier::external_body]
fn hash_path(path: &PathBuf) -> (hash: u64)
    ensures
        hash == path_hash(path),
{
    BuildHasherDefault::<DefaultHasher>::default().hash_one(path)
}

/// A component of a path. What is not Unicode in a plain name is replaced.
#[derive(Debug)]
pub enum PathPart {
    /// A drive or share, where the host has such.
    Prefix,
    /// The root directory.
    RootDir,
    /// The current directory, `.`.
    CurDir,
    /// The parent directory, `..`.
    ParentDir,
    /// A plain name.
    Normal(String),
}

/// A component of a path as a mathematical value.
pub enum PathPartModel {
    Prefix,
    RootDir,
    CurDir,
    ParentDir,
    Normal(Seq<char>),
}

impl View for PathPart {
    type V = PathPartModel;

    open spec fn view(&self) -> PathPartModel {
        match self {
            PathPart::Prefix => PathPartModel::Prefix,
            PathPart::RootDir => PathPartModel::RootDir,
            PathPart::CurDir => PathPartModel::CurDir,
            PathPart::ParentDir => PathPartModel::ParentDir,
            PathPart::Normal(name) => PathPartModel::Normal(name@),
        }
    }
}

/// The components as mathematical values.
pub open spec fn parts_view(parts: Seq<PathPart>) -> Seq<PathPartModel> {
    parts.map_values(|part: PathPart| part@)
}

/// Whether the plain names among `parts` are what separators can leave: not
/// empty, neither `.` nor `..`, and, unless there is a prefix, without a slash.
pub open spec fn names_are_plain(parts: Seq<PathPartModel>) -> bool {
    forall|i: int|
        0 <= i < parts.len() && (#[trigger] parts[i]) is Normal ==> {
            let name = parts[i]->Normal_0;
            &&& name.len() > 0
            &&& name != "."@
            &&& name != ".."@
            &&& !parts.contains(PathPartModel::Prefix) ==> !name.contains('/')
        }
}

/// The components of `path`, in order.
pub uninterp spec fn path_parts(path: &PathBuf) -> Seq<PathPartModel>;

/// `PathBuf::components` walks over the components of the path, and
/// `OsStr::to_string_lossy` turns a plain name into text. A plain name is never
/// empty, `.` or `..`: those are no components, or components of their own. A
/// slash separates components on Unix and on Windows; only behind a prefix,
/// which can switch that off, may a name hold one.
#[verifier::external_body]
fn components(path: &PathBuf) -> (parts: Vec<PathPart>)
    ensures
        parts_view(parts@) == path_parts(path),
        names_are_plain(parts_view(parts@)),
{
    path.components()
        .map(|component| match component {
            Component::Prefix(_) => PathPart::Prefix,
            Component::RootDir => PathPart::RootDir,
            Component::CurDir => PathPart::CurDir,
            Component::ParentDir => PathPart::ParentDir,
            Component::Normal(name) => PathPart::Normal(name.to_string_lossy().to_string()),
        })
        .collect()
}

/// The last of `parts`, if that is a plain name.
pub open spec fn last_name(parts: Seq<PathPartModel>) -> Option<Seq<char>> {
    if parts.len() > 0 && parts.last() is Normal {
        Some(parts.last()->Normal_0)
    } else {
        None
    }
}

/// `PathBuf::file_name` gives the last component of the path if it is a plain
/// name; `OsStr::to_string_lossy` turns that into text.
#[verifier::external_body]
fn file_name(path: &PathBuf) -> (name: Option<String>)
    ensures
        name.deep_view() == last_name(path_parts(path)),
{
    path.file_name().map(|name| name.to_string_lossy().to_string())
}

/// The path that `text` writes.
pub uninterp spec fn path_of_text(text: Seq<char>) -> PathBuf;

/// Whether `path` is Unicode, and so is what some text writes.
pub open spec fn is_written(path: &PathBuf) -> bool {
    exists|text: Seq<char>| *path == #[trigger] path_of_text(text)
}

/// `PathBuf::from` reads a text as a path. If the text is what the plain names of
/// some path give when slashes are put between them, it is read as those names
/// again, since a slash separates components on Unix and on Windows; and it is
/// read as an equal path, if that path is Unicode and no name was changed to make
/// it text.
#[verifier::external_body]
fn path_from(text: &str) -> (path: PathBuf)
    ensures
        path == path_of_text(text@),
        forall|origin: PathBuf|
            names_are_plain(path_parts(&origin)) && #[trigger] unix_path(path_parts(&origin))
                == Some(text@) ==> path_parts(&path) == path_parts(&origin) && (is_written(&origin)
                ==> path_eq(&path, &origin)),
{
    PathBuf::from(text)
}

/// Whether the standard library holds two paths equal.
pub uninterp spec fn path_eq(a: &PathBuf, b: &PathBuf) -> bool;

/// `==` on `PathBuf` compares the components of two paths. Equal paths have the
/// same components and, as `Hash` asks of every type, the same hash. Paths with
/// the same components are equal, where no component was changed to make it text
/// and no prefix is among them.
#[verifier::external_body]
fn paths_equal(a: &PathBuf, b: &PathBuf) -> (same: bool)
    ensures
        same == path_eq(a, b),
        same ==> path_parts(a) == path_parts(b),
        same ==> path_hash(a) == path_hash(b),
        is_written(a) && is_written(b) && !path_parts(a).contains(PathPartModel::Prefix)
            && path_parts(a) == path_parts(b) ==> same,
{
    a == b
}

/// What is left of `path` below `root`, if it lies there.
pub uninterp spec fn path_below(path: &PathBuf, root: &PathBuf) -> Option<PathBuf>;

/// `Path::strip_prefix` takes the components of `root` off the front of those of
/// `path`. What is left gives `path` when it is joined onto `root`, so the
/// components of `path` are those of `root` and then those left. A prefix, which
/// can change how what follows is split, is not spoken of.
#[verifier::external_body]
fn strip_root(path: &PathBuf, root: &PathBuf) -> (below: Option<PathBuf>)
    ensures
        below == path_below(path, root),
        below matches Some(rest) ==> !path_parts(path).contains(PathPartModel::Prefix)
            && !path_parts(&rest).contains(PathPartModel::Prefix) ==> path_parts(path)
            == path_parts(root) + path_parts(&rest),
{
    match path.strip_prefix(root) {
        Ok(rest) => Some(rest.to_path_buf()),
        Err(_) => None,
    }
}

/// Whether `c` may stand in the name of a remote directory.
pub open spec fn is_safe_char(c: char) -> bool {
    ||| 'a' <= c <= 'z'
    ||| 'A' <= c <= 'Z'
    ||| '0' <= c <= '9'
    ||| c == '-'
    ||| c == '_'
}

/// `c`, or `-` in its place.
pub open spec fn safe_char(c: char) -> char {
    if is_safe_char(c) {
        c
    } else {
        '-'
    }
}

/// The first forty characters of `leaf`, each made safe.
pub open spec fn sanitized(leaf: Seq<char>) -> Seq<char> {
    leaf.take(
        if leaf.len() < 40 {
            leaf.len() as int
        } else {
            40
        },
    ).map_values(|c: char| safe_char(c))
}

/// The last `digits` hexadecimal digits of `value`, in lower case.
pub open spec fn low_hex_digits(value: nat, digits: nat) -> Seq<char>
    decreases digits,
{
    if digits == 0 {
        Seq::empty()
    } else {
        low_hex_digits(value / 16, (digits - 1) as nat).push(text::hex_digit((value % 16) as int))
    }
}

/// The name of the remote directory for a workspace whose last component is
/// `leaf` and whose path has the hash `hash`.
pub open spec fn dir_name(leaf: Seq<char>, hash: u64) -> Seq<char> {
    "codex-workspace-"@ + sanitized(leaf) + "-"@ + low_hex_digits(hash as nat, 16)
}

/// The last component of a local workspace path, or `workspace` where it has
/// none.
pub open spec fn leaf_or_default(leaf: Option<Seq<char>>) -> Seq<char> {
    match leaf {
        Some(leaf) => leaf,
        None => "workspace"@,
    }
}

/// The first forty characters of `leaf`, each made safe.
fn sanitize(leaf: &str) -> (name: String)
    ensures
        name@ == sanitized(leaf@),
{
    let chars = text::chars_of(leaf);
    let mut name = String::new();
    let mut i: usize = 0;
    while i < chars.len() && i < 40
        invariant
            i <= chars.len(),
            i <= 40,
            chars@ == leaf@,
            name@ == leaf@.take(i as int).map_values(|c: char| safe_char(c)),
        decreases chars.len() - i,
    {
        let c = chars[i];
        let safe = ('a' <= c && c <= 'z') || ('A' <= c && c <= 'Z') || ('0' <= c && c <= '9') || c
            == '-' || c == '_';
        name.push(
            if safe {
                c
            } else {
                '-'
            },
        );
        i += 1;
        assert(name@ =~= leaf@.take(i as int).map_values(|c: char| safe_char(c)));
    }
    name
}

/// Writes the last `digits` hexadecimal digits of `value`.
fn hex_digits(value: u64, digits: usize) -> (hex: String)
    ensures
        hex@ == low_hex_digits(value as nat, digits as nat),
    decreases digits,
{
    if digits == 0 {
        String::new()
    } else {
        let mut hex = hex_digits(value / 16, digits - 1);
        hex.push(text::hex_digit_of((value % 16) as u8));
        hex
    }
}

/// Builds the name of the remote directory from the last component of the local
/// path and the hash of the path.
pub fn workspace_dir_name(leaf: Option<String>, hash: u64) -> (name: String)
    ensures
        name@ == dir_name(leaf_or_default(leaf.deep_view()), hash),
{
    let leaf = match leaf {
        Some(leaf) => leaf,
        None => "workspace".to_string(),
    };
    let mut name = "codex-workspace-".to_string();
    name.append(sanitize(leaf.as_str()).as_str());
    name.append("-");
    name.append(hex_digits(hash, 16).as_str());
    name
}

/// The name of the remote directory for the workspace at `local_root`.
pub open spec fn workspace_dir(local_root: &PathBuf) -> Seq<char> {
    dir_name(leaf_or_default(last_name(path_parts(local_root))), path_hash(local_root))
}

/// Builds a stable name, safe on any file system, for the remote directory of
/// the workspace at `local_root`.
pub fn remote_workspace_dir_name(local_root: &PathBuf) -> (name: String)
    ensures
        name@ == workspace_dir(local_root),
{
    let hash: u64 = hash_path(local_root);
    workspace_dir_name(file_name(local_root), hash)
}

/// Whether two local paths are equal, such as `/a/b` and `/a/b/`. Equal paths
/// share one remote directory and have the same relative text. Unicode paths with
/// the same relative text are equal.
pub fn same_workspace(a: &PathBuf, b: &PathBuf) -> (same: bool)
    ensures
        same == path_eq(a, b),
        same ==> workspace_dir(a) == workspace_dir(b),
        same ==> unix_path(path_parts(a)) == unix_path(path_parts(b)),
        is_written(a) && is_written(b) && names_are_plain(path_parts(a)) && names_are_plain(
            path_parts(b),
        ) && unix_path(path_parts(a)) is Some && unix_path(path_parts(a)) == unix_path(
            path_parts(b),
        ) ==> same,
{
    proof {
        if names_are_plain(path_parts(a)) && names_are_plain(path_parts(b)) && unix_path(
            path_parts(a),
        ) is Some && unix_path(path_parts(a)) == unix_path(path_parts(b)) {
            unix_paths_differ_with_the_components(path_parts(a), path_parts(b));
            assert(!path_parts(a).contains(PathPartModel::Prefix));
        }
    }
    paths_equal(a, b)
}

/// `parts` with a slash between each two.
pub open spec fn slash_joined(parts: Seq<Seq<char>>) -> Seq<char>
    decreases parts.len(),
{
    if parts.len() == 0 {
        Seq::empty()
    } else if parts.len() == 1 {
        parts[0]
    } else {
        slash_joined(parts.drop_last()) + "/"@ + parts.last()
    }
}

/// The names in `parts`, all of which are plain names.
pub open spec fn part_names(parts: Seq<PathPartModel>) -> Seq<Seq<char>> {
    parts.map_values(|part: PathPartModel| part->Normal_0)
}

/// The components joined with slashes, if there are any and all are plain names.
pub open spec fn unix_path(parts: Seq<PathPartModel>) -> Option<Seq<char>> {
    if parts.len() > 0 && forall|i: int| 0 <= i < parts.len() ==> #[trigger] parts[i] is Normal {
        Some(slash_joined(part_names(parts)))
    } else {
        None
    }
}

/// Joins components with slashes, if there are any and all are plain names.
pub fn join_components(components: &Vec<PathPart>) -> (joined: Option<String>)
    ensures
        joined.deep_view() == unix_path(parts_view(components@)),
        joined is Some <==> components@.len() > 0 && forall|i: int|
            0 <= i < components@.len() ==> #[trigger] components@[i] is Normal,
{
    let ghost model = parts_view(components@);
    let ghost names = part_names(model);
    let mut joined = String::new();
    let mut i: usize = 0;
    while i < components.len()
        invariant
            i <= components.len(),
            model == parts_view(components@),
            names == part_names(model),
            forall|j: int| 0 <= j < i ==> #[trigger] model[j] is Normal,
            joined@ == slash_joined(names.take(i as int)),
        decreases components.len() - i,
    {
        assert(model[i as int] == components@[i as int]@);
        match &components[i] {
            PathPart::Normal(name) => {
                if i > 0 {
                    joined.append("/");
                }
                joined.append(name.as_str());
                assert(names.take(i + 1).drop_last() =~= names.take(i as int));
                assert(names[i as int] == name@);
                assert(joined@ =~= slash_joined(names.take(i + 1)));
            },
            PathPart::Prefix | PathPart::RootDir | PathPart::CurDir | PathPart::ParentDir => {
                return None;
            },
        }
        i += 1;
    }
    assert(names.take(i as int) =~= names);
    assert forall|j: int| 0 <= j < components@.len() implies #[trigger] components@[j] is Normal by {
        assert(model[j] == components@[j]@);
    }
    if components.len() == 0 {
        None
    } else {
        Some(joined)
    }
}

/// Whether `name` can stand between the slashes of a remote path: it is not
/// empty, leads nowhere else and holds no slash.
pub open spec fn is_plain_name(name: Seq<char>) -> bool {
    &&& name.len() > 0
    &&& name != "."@
    &&& name != ".."@
    &&& !name.contains('/')
}

/// Converts a relative path into a text with slashes between its components.
/// A path with any component that is not a plain name is refused, and so is
/// the empty path. What lies between the slashes of the text are the names of
/// the path.
pub fn relative_to_unix(relative: &PathBuf) -> (joined: Option<String>)
    ensures
        joined.deep_view() == unix_path(path_parts(relative)),
        joined matches Some(text) ==> {
            &&& names_are_plain(path_parts(relative))
            &&& segments(text@) == part_names(path_parts(relative))
            &&& forall|i: int|
                0 <= i < segments(text@).len() ==> is_plain_name(#[trigger] segments(text@)[i])
        },
{
    let parts = components(relative);
    proof {
        if unix_path(path_parts(relative)) is Some {
            joined_names_split_back(path_parts(relative));
        }
    }
    join_components(&parts)
}

/// Reads a text with slashes between its components as a relative path. What
/// [`relative_to_unix`] makes of a path is read as that path again: no component
/// is lost, added or moved, and the text comes back. If the path is Unicode, the
/// two are equal.
pub fn unix_to_relative(unix: &str) -> (path: PathBuf)
    ensures
        path == path_of_text(unix@),
        forall|origin: PathBuf|
            names_are_plain(path_parts(&origin)) && #[trigger] unix_path(path_parts(&origin))
                == Some(unix@) ==> path_parts(&path) == path_parts(&origin) && unix_path(
                path_parts(&path),
            ) == Some(unix@) && (is_written(&origin) ==> path_eq(&path, &origin)),
{
    path_from(unix)
}

/// The path of `path` below `root`, with slashes between its components, if it
/// lies there and only plain names lead to it.
pub fn relative_below(root: &PathBuf, path: &PathBuf) -> (joined: Option<String>)
    ensures
        joined.deep_view() == match path_below(path, root) {
            Some(rest) => unix_path(path_parts(&rest)),
            None => None,
        },
        joined matches Some(text) ==> {
            &&& forall|i: int|
                0 <= i < segments(text@).len() ==> is_plain_name(#[trigger] segments(text@)[i])
            &&& !path_parts(path).contains(PathPartModel::Prefix) ==> path_parts(path)
                == path_parts(root) + segments(text@).map_values(
                |name: Seq<char>| PathPartModel::Normal(name),
            )
        },
{
    match strip_root(path, root) {
        Some(rest) => {
            let joined = relative_to_unix(&rest);
            proof {
                if joined is Some {
                    let parts = path_parts(&rest);
                    assert(segments(joined->0@).map_values(|name: Seq<char>| PathPartModel::Normal(name))
                        =~= parts);
                    assert(!parts.contains(PathPartModel::Prefix));
                }
            }
            joined
        },
        None => None,
    }
}

/// Why a workspace could not be set up on the server.
pub enum WorkspaceError {
    /// The local working directory is not a path.
    InvalidLocalCwd { reason: String },
    /// No path could be formed under the working directory of the server.
    InvalidRemotePath { server_cwd: String, reason: String },
    /// The remote directory could not be created.
    RemoteDirectory { remote_root: String, reason: String },
}

impl WorkspaceError {
    /// The message that the error is shown with.
    pub open spec fn message_text(self) -> Seq<char> {
        match self {
            WorkspaceError::InvalidLocalCwd { reason } => "remote workspace: invalid local cwd: "@
                + reason@,
            WorkspaceError::InvalidRemotePath { server_cwd, reason } =>
            "remote workspace: failed to build remote path under `"@ + server_cwd@ + "`: "@
                + reason@,
            WorkspaceError::RemoteDirectory { remote_root, reason } =>
            "remote workspace: failed to create remote dir `"@ + remote_root@ + "`: "@ + reason@,
        }
    }

    /// The message to show.
    pub fn message(&self) -> (message: String)
        ensures
            message@ == self.message_text(),
    {
        match self {
            WorkspaceError::InvalidLocalCwd { reason } => {
                let mut message = "remote workspace: invalid local cwd: ".to_string();
                message.append(reason.as_str());
                message
            },
            WorkspaceError::InvalidRemotePath { server_cwd, reason } => {
                let mut message = "remote workspace: failed to build remote path under `".to_string();
                message.append(server_cwd.as_str());
                message.append("`: ");
                message.append(reason.as_str());
                message
            },
            WorkspaceError::RemoteDirectory { remote_root, reason } => {
                let mut message = "remote workspace: failed to create remote dir `".to_string();
                message.append(remote_root.as_str());
                message.append("`: ");
                message.append(reason.as_str());
                message
            },
        }
    }
}

/// Whether `joined` is what `join` can make of the text `written`.
pub open spec fn joined_with<P, J: Fn(&str) -> Result<P, String>>(
    join: J,
    written: Seq<char>,
    joined: Result<P, String>,
) -> bool {
    exists|text: &str|
        #![trigger text@]
        text@ == written && call_ensures(join, (text,), joined)
}

/// Finds out where the workspace lies, here and on the server. `local` is the
/// local working directory, or why it is not a path; `join` appends a name to
/// the working directory of the server, which is shown as `server_cwd`.
pub fn place_workspace<P, J: Fn(&str) -> Result<P, String>>(
    local: Result<PathBuf, String>,
    server_cwd: &str,
    join: J,
) -> (placed: Result<(PathBuf, P), WorkspaceError>)
    requires
        forall|text: &str| #[trigger] call_requires(join, (text,)),
    ensures
        match local {
            Ok(root) => match placed {
                Ok((local_root, remote_root)) => local_root == root && joined_with(
                    join,
                    workspace_dir(&root),
                    Ok(remote_root),
                ),
                Err(WorkspaceError::InvalidRemotePath { server_cwd: shown, reason }) => shown@
                    == server_cwd@ && joined_with(join, workspace_dir(&root), Err(reason)),
                Err(_) => false,
            },
            Err(reason) => placed == Err::<(PathBuf, P), _>(
                WorkspaceError::InvalidLocalCwd { reason },
            ),
        },
{
    let local_root = match local {
        Ok(local_root) => local_root,
        Err(reason) => return Err(WorkspaceError::InvalidLocalCwd { reason }),
    };
    let name = remote_workspace_dir_name(&local_root);
    match join(name.as_str()) {
        Ok(remote_root) => Ok((local_root, remote_root)),
        Err(reason) => Err(
            WorkspaceError::InvalidRemotePath { server_cwd: server_cwd.to_string(), reason },
        ),
    }
}

/// The names of directories that are never uploaded.
pub open spec fn skipped_dir_names() -> Seq<Seq<char>> {
    seq![
        ".git"@,
        "node_modules"@,
        "target"@,
        "dist"@,
        "build"@,
        ".venv"@,
        "__pycache__"@,
        ".mypy_cache"@,
        ".pytest_cache"@,
    ]
}

/// Whether directories of this name are left out of the mirror.
pub fn is_skipped_dir_name(name: &str) -> (skipped: bool)
    ensures
        skipped == skipped_dir_names().contains(name@),
{
    let skipped = text::text_eq(name, ".git") || text::text_eq(name, "node_modules")
        || text::text_eq(name, "target") || text::text_eq(name, "dist") || text::text_eq(
        name,
        "build",
    ) || text::text_eq(name, ".venv") || text::text_eq(name, "__pycache__") || text::text_eq(
        name,
        ".mypy_cache",
    ) || text::text_eq(name, ".pytest_cache");
    proof {
        let names = skipped_dir_names();
        assert(names[0] == ".git"@ && names[1] == "node_modules"@ && names[2] == "target"@
            && names[3] == "dist"@ && names[4] == "build"@ && names[5] == ".venv"@ && names[6]
            == "__pycache__"@ && names[7] == ".mypy_cache"@ && names[8] == ".pytest_cache"@);
    }
    skipped
}

proof fn low_hex_digits_are_safe(value: nat, digits: nat)
    ensures
        low_hex_digits(value, digits).len() == digits,
        forall|i: int| 0 <= i < digits ==> is_safe_char(#[trigger] low_hex_digits(value, digits)[i]),
    decreases digits,
{
    if digits > 0 {
        low_hex_digits_are_safe(value / 16, (digits - 1) as nat);
    }
}

/// The name of a remote directory holds only letters, digits, `-` and `_` of
/// ASCII, starts with a fixed prefix, and has at most seventy-three characters.
pub proof fn dir_name_is_safe(leaf: Seq<char>, hash: u64)
    ensures
        forall|i: int|
            0 <= i < dir_name(leaf, hash).len() ==> is_safe_char(#[trigger] dir_name(leaf, hash)[i]),
        "codex-workspace-"@.is_prefix_of(dir_name(leaf, hash)),
        dir_name(leaf, hash).len() <= 73,
{
    reveal_strlit("codex-workspace-");
    reveal_strlit("-");
    low_hex_digits_are_safe(hash as nat, 16);
    let prefix = "codex-workspace-"@;
    let head = prefix + sanitized(leaf);
    let digits = low_hex_digits(hash as nat, 16);
    let name = dir_name(leaf, hash);
    assert(prefix.is_prefix_of(name));
    assert forall|i: int| 0 <= i < name.len() implies is_safe_char(#[trigger] name[i]) by {
        if i < prefix.len() {
            assert(name[i] == prefix[i]);
        } else if i < head.len() {
            assert(name[i] == sanitized(leaf)[i - prefix.len()]);
        } else if i == head.len() {
            assert(name[i] == '-');
        } else {
            assert(name[i] == digits[i - head.len() - 1]);
        }
    }
}

/// The number of values that `digits` hexadecimal digits can write.
spec fn hex_range(digits: nat) -> nat
    decreases digits,
{
    if digits == 0 {
        1
    } else {
        16 * hex_range((digits - 1) as nat)
    }
}

proof fn low_hex_digits_are_injective(a: nat, b: nat, digits: nat)
    requires
        a < hex_range(digits),
        b < hex_range(digits),
        low_hex_digits(a, digits) == low_hex_digits(b, digits),
    ensures
        a == b,
    decreases digits,
{
    if digits > 0 {
        let x = low_hex_digits(a, digits);
        let y = low_hex_digits(b, digits);
        let rest = (digits - 1) as nat;
        assert(x.last() == text::hex_digit((a % 16) as int));
        assert(y.last() == text::hex_digit((b % 16) as int));
        assert(a % 16 == b % 16);
        assert(x.drop_last() =~= low_hex_digits(a / 16, rest));
        assert(y.drop_last() =~= low_hex_digits(b / 16, rest));
        low_hex_digits_are_injective(a / 16, b / 16, rest);
    }
}

/// Workspaces whose paths have different hashes get different directories.
pub proof fn dir_names_differ_with_the_hash(
    leaf: Seq<char>,
    hash: u64,
    other_leaf: Seq<char>,
    other_hash: u64,
)
    requires
        hash != other_hash,
    ensures
        dir_name(leaf, hash) != dir_name(other_leaf, other_hash),
{
    let a = dir_name(leaf, hash);
    let b = dir_name(other_leaf, other_hash);
    low_hex_digits_are_safe(hash as nat, 16);
    low_hex_digits_are_safe(other_hash as nat, 16);
    assert(a.skip(a.len() - 16) =~= low_hex_digits(hash as nat, 16));
    assert(b.skip(b.len() - 16) =~= low_hex_digits(other_hash as nat, 16));
    reveal_with_fuel(hex_range, 17);
    if a == b {
        low_hex_digits_are_injective(hash as nat, other_hash as nat, 16);
    }
}

/// The parts of `path` between its slashes.
pub open spec fn segments(path: Seq<char>) -> Seq<Seq<char>>
    decreases path.len(),
{
    if path.len() == 0 {
        seq![Seq::empty()]
    } else {
        let before = segments(path.drop_last());
        if path.last() == '/' {
            before.push(Seq::empty())
        } else {
            before.drop_last().push(before.last().push(path.last()))
        }
    }
}

proof fn segments_of_extension(path: Seq<char>, part: Seq<char>)
    requires
        !part.contains('/'),
    ensures
        segments(path).len() > 0,
        segments(path + part) == segments(path).drop_last().push(segments(path).last() + part),
    decreases path.len() + part.len(),
{
    if part.len() > 0 {
        assert forall|i: int| 0 <= i < part.len() implies part.drop_last()[i] != '/' || i
            >= part.len() - 1 by {
            assert(part.contains(part[i]));
        }
        segments_of_extension(path, part.drop_last());
        assert((path + part).drop_last() =~= path + part.drop_last());
        assert(part.contains(part.last()));
        assert(segments(path).last() + part =~= (segments(path).last() + part.drop_last()).push(
            part.last(),
        ));
        assert(segments(path + part) =~= segments(path).drop_last().push(
            segments(path).last() + part,
        ));
    } else {
        assert(path + part =~= path);
        if path.len() > 0 {
            segments_of_extension(path.drop_last(), part);
        }
        assert(segments(path).last() + part =~= segments(path).last());
        assert(segments(path) =~= segments(path).drop_last().push(segments(path).last()));
    }
}

/// The slashes of a joined path give back the names that were joined. The names
/// hold no slash.
pub proof fn joined_path_splits_back(names: Seq<Seq<char>>)
    requires
        names.len() > 0,
        forall|i: int| 0 <= i < names.len() ==> !(#[trigger] names[i]).contains('/'),
    ensures
        segments(slash_joined(names)) == names,
    decreases names.len(),
{
    let empty = Seq::<char>::empty();
    if names.len() == 1 {
        segments_of_extension(empty, names[0]);
        assert(empty + names[0] =~= names[0]);
        assert(segments(slash_joined(names)) =~= names);
    } else {
        reveal_strlit("/");
        let head = slash_joined(names.drop_last());
        joined_path_splits_back(names.drop_last());
        let opened = head + "/"@;
        assert(opened.drop_last() =~= head);
        assert(segments(opened) == names.drop_last().push(empty));
        segments_of_extension(opened, names.last());
        assert(empty + names.last() =~= names.last());
        assert(segments(slash_joined(names)) =~= names);
    }
}

/// What lies between the slashes of a relative path are the plain names that it
/// was made of.
pub proof fn joined_names_split_back(parts: Seq<PathPartModel>)
    requires
        names_are_plain(parts),
        unix_path(parts) is Some,
    ensures
        segments(unix_path(parts)->0) == part_names(parts),
        forall|i: int|
            0 <= i < parts.len() ==> is_plain_name(#[trigger] segments(unix_path(parts)->0)[i]),
{
    let names = part_names(parts);
    assert(!parts.contains(PathPartModel::Prefix));
    assert forall|i: int| 0 <= i < names.len() implies is_plain_name(#[trigger] names[i]) by {
        assert(parts[i] is Normal);
    }
    joined_path_splits_back(names);
}

/// Two paths get the same text only if they have the same components.
pub proof fn unix_paths_differ_with_the_components(
    parts: Seq<PathPartModel>,
    other_parts: Seq<PathPartModel>,
)
    requires
        names_are_plain(parts),
        names_are_plain(other_parts),
        unix_path(parts) is Some,
        unix_path(parts) == unix_path(other_parts),
    ensures
        parts == other_parts,
{
    joined_names_split_back(parts);
    joined_names_split_back(other_parts);
    let names = part_names(parts);
    let other_names = part_names(other_parts);
    assert(names.len() == parts.len() && other_names.len() == other_parts.len());
    assert forall|i: int| 0 <= i < parts.len() implies parts[i] == other_parts[i] by {
        assert(parts[i] is Normal && other_parts[i] is Normal);
        assert(names[i] == other_names[i]);
    }
    assert(parts =~= other_parts);
}

/// A path is written with slashes exactly if it has components and all are plain
/// names, whatever the names are: a name on its own is written as it is, and one
/// more name is written behind one more slash.
pub proof fn plain_names_are_always_joined(parts: Seq<PathPartModel>, name: Seq<char>)
    ensures
        unix_path(parts) is Some <==> parts.len() > 0 && forall|i: int|
            0 <= i < parts.len() ==> #[trigger] parts[i] is Normal,
        unix_path(seq![PathPartModel::Normal(name)]) == Some(name),
        unix_path(parts) is Some ==> unix_path(parts.push(PathPartModel::Normal(name))) == Some(
            unix_path(parts)->0 + "/"@ + name,
        ),
{
    let one = seq![PathPartModel::Normal(name)];
    assert(part_names(one)[0] == name);
    if unix_path(parts) is Some {
        let more = parts.push(PathPartModel::Normal(name));
        assert forall|i: int| 0 <= i < more.len() implies #[trigger] more[i] is Normal by {
            if i < parts.len() {
                assert(parts[i] is Normal);
            }
        }
        assert(part_names(more).drop_last() =~= part_names(parts));
        assert(part_names(more).last() == name);
    }
}

/// A component is modelled by its kind and, if it is a plain name, by its name.
pub proof fn components_keep_kind_and_name(parts: Seq<PathPart>, i: int)
    requires
        0 <= i < parts.len(),
    ensures
        parts_view(parts).len() == parts.len(),
        parts_view(parts)[i] == match parts[i] {
            PathPart::Prefix => PathPartModel::Prefix,
            PathPart::RootDir => PathPartModel::RootDir,
            PathPart::CurDir => PathPartModel::CurDir,
            PathPart::ParentDir => PathPartModel::ParentDir,
            PathPart::Normal(name) => PathPartModel::Normal(name@),
        },
{
}

/// The segments of a text hold no slash, and with slashes between them they give
/// the text.
pub proof fn segments_join_back(path: Seq<char>)
    ensures
        segments(path).len() > 0,
        forall|i: int| 0 <= i < segments(path).len() ==> !(#[trigger] segments(path)[i]).contains('/'),
        slash_joined(segments(path)) == path,
    decreases path.len(),
{
    reveal_strlit("/");
    if path.len() == 0 {
        assert(slash_joined(segments(path)) =~= path);
    } else {
        let before = segments(path.drop_last());
        let now = segments(path);
        segments_join_back(path.drop_last());
        assert forall|i: int| 0 <= i < now.len() implies !(#[trigger] now[i]).contains('/') by {
            if i < before.len() - 1 {
                assert(now[i] == before[i]);
            } else if path.last() != '/' {
                assert(now[i] == before.last().push(path.last()));
                assert(!before[before.len() - 1].contains('/'));
                if now[i].contains('/') {
                    let at = choose|k: int| 0 <= k < now[i].len() && now[i][k] == '/';
                    assert(before.last()[at] == '/');
                }
            } else if i < before.len() {
                assert(now[i] == before[i]);
            }
        }
        if path.last() == '/' {
            assert(now.drop_last() =~= before);
            assert(now.last() == Seq::<char>::empty());
            assert(slash_joined(now) == path.drop_last() + "/"@ + Seq::<char>::empty());
            assert(slash_joined(now) =~= path);
        } else if before.len() == 1 {
            assert(now.len() == 1);
            assert(slash_joined(now) =~= path);
        } else {
            assert(now.drop_last() =~= before.drop_last());
            let head = slash_joined(before.drop_last()) + "/"@;
            assert(path.drop_last() == head + before.last());
            assert(slash_joined(now) == head + before.last().push(path.last()));
            assert(slash_joined(now) =~= path.drop_last().push(path.last()));
            assert(path.drop_last().push(path.last()) =~= path);
        }
    }
}

/// Names with slashes between them: a name on its own is left as it is, and one
/// more name stands behind one more slash.
pub proof fn names_are_joined_with_single_slashes(names: Seq<Seq<char>>, name: Seq<char>)
    ensures
        slash_joined(Seq::empty()) == Seq::<char>::empty(),
        slash_joined(seq![name]) == name,
        names.len() > 0 ==> slash_joined(names.push(name)) == slash_joined(names) + "/"@ + name,
{
    if names.len() > 0 {
        assert(names.push(name).drop_last() =~= names);
    }
}

proof fn low_hex_digit_at(value: nat, digits: nat, i: int)
    requires
        0 <= i < digits,
    ensures
        low_hex_digits(value, digits).len() == digits,
        low_hex_digits(value, digits)[i] == text::hex_digit(
            (value as int / pow(16, (digits - 1 - i) as nat)) % 16,
        ),
    decreases digits,
{
    low_hex_digits_are_safe(value, digits);
    let rest = (digits - 1) as nat;
    low_hex_digits_are_safe(value / 16, rest);
    if i == rest {
        lemma_pow0(16);
    } else {
        low_hex_digit_at(value / 16, rest, i);
        let k = (rest - 1 - i) as nat;
        lemma_pow_positive(16, k);
        lemma_pow_adds(16, 1, k);
        lemma_pow1(16);
        lemma_div_denominator(value as int, 16, pow(16, k));
        assert(pow(16, (digits - 1 - i) as nat) == 16 * pow(16, k));
    }
}

/// The name of a remote directory is a fixed prefix, then up to forty characters
/// of the last component, each left as it is if it is an ASCII letter or digit,
/// a hyphen or an underscore and else made a hyphen, then a hyphen, then the hash
/// in sixteen hexadecimal digits.
pub proof fn dir_name_has_four_parts(leaf: Seq<char>, hash: u64)
    ensures
        ({
            let name = dir_name(leaf, hash);
            let kept = if leaf.len() < 40 {
                leaf.len() as int
            } else {
                40
            };
            &&& name.len() == 16 + kept + 1 + 16
            &&& name.take(16) == "codex-workspace-"@
            &&& forall|i: int|
                0 <= i < kept ==> name[16 + i] == if ('a' <= #[trigger] leaf[i] <= 'z') || ('A'
                    <= leaf[i] <= 'Z') || ('0' <= leaf[i] <= '9') || leaf[i] == '-' || leaf[i]
                    == '_' {
                    leaf[i]
                } else {
                    '-'
                }
            &&& name[16 + kept] == '-'
            &&& forall|i: int|
                0 <= i < 16 ==> #[trigger] name[name.len() - 16 + i] == "0123456789abcdef"@[(hash as int
                    / pow(16, (15 - i) as nat)) % 16]
        }),
{
    reveal_strlit("codex-workspace-");
    reveal_strlit("-");
    low_hex_digits_are_safe(hash as nat, 16);
    let name = dir_name(leaf, hash);
    let digits = low_hex_digits(hash as nat, 16);
    let kept = if leaf.len() < 40 {
        leaf.len() as int
    } else {
        40
    };
    assert(sanitized(leaf).len() == kept);
    assert(name.take(16) =~= "codex-workspace-"@);
    assert forall|i: int| 0 <= i < kept implies name[16 + i] == safe_char(#[trigger] leaf[i]) by {
        assert(name[16 + i] == sanitized(leaf)[i]);
    }
    assert forall|i: int| 0 <= i < 16 implies #[trigger] name[name.len() - 16 + i]
        == "0123456789abcdef"@[(hash as int / pow(16, (15 - i) as nat)) % 16] by {
        assert(name[name.len() - 16 + i] == digits[i]);
        low_hex_digit_at(hash as nat, 16, i);
        text::hex_digits_are_tabled((hash as int / pow(16, (15 - i) as nat)) % 16);
    }
}

/// The remote directory of a workspace is named after the last component of its
/// path, if that is a plain name, and else after the word `workspace`; and after
/// the hash of the path.
pub proof fn workspace_dir_is_named_after_the_path(local_root: &PathBuf)
    ensures
        ({
            let parts = path_parts(local_root);
            &&& parts.len() > 0 && parts.last() is Normal ==> workspace_dir(local_root) == dir_name(
                parts.last()->Normal_0,
                path_hash(local_root),
            )
            &&& !(parts.len() > 0 && parts.last() is Normal) ==> workspace_dir(local_root)
                == dir_name("workspace"@, path_hash(local_root))
        }),
        forall|leaf: Seq<char>| #[trigger] leaf_or_default(Some(leaf)) == leaf,
        leaf_or_default(None) == "workspace"@,
{
}

/// Exactly the directories with these nine names are left out.
pub proof fn nine_names_are_skipped(name: Seq<char>)
    ensures
        skipped_dir_names().contains(name) <==> (name == ".git"@ || name == "node_modules"@ || name
            == "target"@ || name == "dist"@ || name == "build"@ || name == ".venv"@ || name
            == "__pycache__"@ || name == ".mypy_cache"@ || name == ".pytest_cache"@),
{
    let names = skipped_dir_names();
    assert(names[0] == ".git"@ && names[1] == "node_modules"@ && names[2] == "target"@ && names[3]
        == "dist"@ && names[4] == "build"@ && names[5] == ".venv"@ && names[6] == "__pycache__"@
        && names[7] == ".mypy_cache"@ && names[8] == ".pytest_cache"@);
}

/// Each error is shown with what failed, then where, if that is known, then why.
pub proof fn workspace_errors_say_what_failed(reason: String, place: String)
    ensures
        (WorkspaceError::InvalidLocalCwd { reason }).message_text()
            == "remote workspace: invalid local cwd: "@ + reason@,
        (WorkspaceError::InvalidRemotePath { server_cwd: place, reason }).message_text()
            == "remote workspace: failed to build remote path under `"@ + place@ + "`: "@ + reason@,
        (WorkspaceError::RemoteDirectory { remote_root: place, reason }).message_text()
            == "remote workspace: failed to create remote dir `"@ + place@ + "`: "@ + reason@,
{
}

/// What was joined is what `join` made of exactly that text.
pub proof fn joins_are_made_of_the_text<P, J: Fn(&str) -> Result<P, String>>(
    join: J,
    written: Seq<char>,
    joined: Result<P, String>,
)
    requires
        joined_with(join, written, joined),
    ensures
        exists|text: &str|
            #![trigger text@]
            text@ == written && call_ensures(join, (text,), joined),
{
}

} // verus!
