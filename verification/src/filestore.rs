//! Files that hold configuration and sessions: where they are and in which
//! format. Reading and writing them is left to the program.
use crate::strings::{last_index_of, str_eq, string_push_str};
use vstd::prelude::*;

verus! {

/// Format a configuration file is read and written in.
#[derive(Debug, Clone, Copy, PartialEq, Eq, Structural)]
pub enum ConfigFormat {
    Json,
    Toml,
    /// Any other extension, or none: loading and saving fail with
    /// "Unsupported file format".
    Unsupported,
}

/// The format chosen for a file extension.
pub open spec fn format_for(extension: Option<Seq<char>>) -> ConfigFormat {
    match extension {
        Some(e) => if e == "json"@ {
            ConfigFormat::Json
        } else if e == "toml"@ {
            ConfigFormat::Toml
        } else {
            ConfigFormat::Unsupported
        },
        None => ConfigFormat::Unsupported,
    }
}

/// The format chosen for a file extension: `json` and `toml` are known.
pub fn config_format(extension: Option<&str>) -> (r: ConfigFormat)
    ensures
        r == format_for(
            match extension {
                Some(e) => Some(e@),
                None => None,
            },
        ),
{
    match extension {
        Some(e) => {
            if str_eq(e, "json") {
                ConfigFormat::Json
            } else if str_eq(e, "toml") {
                ConfigFormat::Toml
            } else {
                ConfigFormat::Unsupported
            }
        },
        None => ConfigFormat::Unsupported,
    }
}

/// `.` and then `e` stand together somewhere in `path`.
pub open spec fn has_dot_extension(path: Seq<char>, e: Seq<char>) -> bool {
    exists|i: int|
        0 <= i && i + 1 + e.len() <= path.len() && path[i] == '.' && #[trigger] path.subrange(
            i + 1,
            i + 1 + e.len(),
        ) == e
}

/// A path that is a bare file name on every platform: no `/`, `\` or `:`
/// in it, and not `..`.
pub open spec fn plain_file_name(path: Seq<char>) -> bool {
    &&& !path.contains('/')
    &&& !path.contains('\\')
    &&& !path.contains(':')
    &&& path != seq!['.', '.']
}

/// The extension of a bare file name: the text after its last `.`, unless
/// there is none or that `.` is the name's first character.
pub open spec fn name_extension(name: Seq<char>) -> Option<Seq<char>> {
    let k = last_index_of(name, '.');
    if k > 0 {
        Some(name.skip(k + 1))
    } else {
        None
    }
}

/// An optional string taken by its text.
pub open spec fn opt_string_text(o: Option<String>) -> Option<Seq<char>> {
    match o {
        Some(s) => Some(s@),
        None => None,
    }
}

/// The extension of a file path, through `std::path::Path::extension`
/// (taken as text where it is valid UTF-8).
///
/// As `Path::extension` documents, an extension is the part of the file
/// name after its final `.`, where that `.` is not the name's first
/// character: so it follows a `.` in the path and holds no `.` itself, and
/// for a bare file name (no separator or prefix character, not `..`) it is
/// exactly `name_extension`. How other paths split into components depends
/// on the platform's separators, and is not stated.
#[verifier::external_body]
fn path_extension(path: &str) -> (r: Option<String>)
    ensures
        r matches Some(e) ==> has_dot_extension(path@, e@) && !e@.contains('.'),
        plain_file_name(path@) ==> opt_string_text(r) == name_extension(path@),
{
    std::path::Path::new(path).extension().and_then(|e| e.to_str()).map(|e| e.to_owned())
}

/// A configuration file, read and written in the format its extension names.
///
/// By default, this supports `.json` and `.toml` files.
pub struct FileStore {
    path: String,
}

impl FileStore {
    /// Create a new [`FileStore`] with the given path.
    pub fn new(path: &str) -> (r: Self)
        ensures
            r.path() == path@,
    {
        FileStore { path: path.to_owned() }
    }

    /// The path of the file.
    pub closed spec fn path(&self) -> Seq<char> {
        self.path@
    }

    /// The path of the file.
    pub fn path_str(&self) -> (r: &str)
        ensures
            r@ == self.path(),
    {
        self.path.as_str()
    }

    /// The format the file is read and written in, from its extension.
    ///
    /// For a bare file name the format is `format_for` its extension. For
    /// other paths, which extension they have is the platform's to say; a
    /// path with no `.` has no supported format, and JSON and TOML are
    /// chosen only for a path with `.json` or `.toml` in it.
    pub fn format(&self) -> (r: ConfigFormat)
        ensures
            plain_file_name(self.path()) ==> r == format_for(name_extension(self.path())),
            r == ConfigFormat::Json ==> has_dot_extension(self.path(), "json"@),
            r == ConfigFormat::Toml ==> has_dot_extension(self.path(), "toml"@),
            !self.path().contains('.') ==> r == ConfigFormat::Unsupported,
    {
        let ext = path_extension(self.path.as_str());
        match &ext {
            Some(e) => {
                proof {
                    let i = choose|i: int|
                        0 <= i && i + 1 + e@.len() <= self.path@.len() && self.path@[i] == '.'
                            && #[trigger] self.path@.subrange(i + 1, i + 1 + e@.len()) == e@;
                    assert(self.path@[i] == '.');
                    assert(self.path@.contains('.'));
                }
                config_format(Some(e.as_str()))
            },
            None => config_format(None),
        }
    }
}

/// Name of the file that holds the OAuth session of `did`.
pub open spec fn session_file_name_of(did: Seq<char>) -> Seq<char> {
    did + "_session.json"@
}

/// Name of the file that holds the OAuth state under `key`.
pub open spec fn state_file_name_of(key: Seq<char>) -> Seq<char> {
    key + "_state.json"@
}

/// Stores OAuth sessions and states as JSON files in one directory.
pub struct SimpleJsonFileSessionStore {
    path: String,
}

impl SimpleJsonFileSessionStore {
    pub fn new(path: &str) -> (r: Self)
        ensures
            r.dir() == path@,
    {
        SimpleJsonFileSessionStore { path: path.to_owned() }
    }

    /// The directory that holds the files.
    pub closed spec fn dir(&self) -> Seq<char> {
        self.path@
    }

    /// The directory that holds the files.
    pub fn dir_str(&self) -> (r: &str)
        ensures
            r@ == self.dir(),
    {
        self.path.as_str()
    }

    /// Name of the file, inside the directory, that holds the session of `did`.
    pub fn session_file_name(did: &str) -> (r: String)
        ensures
            r@ == session_file_name_of(did@),
    {
        let mut s = did.to_owned();
        string_push_str(&mut s, "_session.json");
        s
    }

    /// Name of the file, inside the directory, that holds the state under `key`.
    pub fn state_file_name(key: &str) -> (r: String)
        ensures
            r@ == state_file_name_of(key@),
    {
        let mut s = key.to_owned();
        string_push_str(&mut s, "_state.json");
        s
    }
}

/// Whether a file of the directory holds a session: its name ends in
/// `_session.json`.
pub fn is_session_file(file_name: &str) -> (r: bool)
    ensures
        r == "_session.json"@.is_suffix_of(file_name@),
{
    str_ends_with(file_name, "_session.json")
}

/// Whether a file of the directory holds a state: its name ends in
/// `_state.json`.
pub fn is_state_file(file_name: &str) -> (r: bool)
    ensures
        r == "_state.json"@.is_suffix_of(file_name@),
{
    str_ends_with(file_name, "_state.json")
}

/// Whether `s` ends with `suffix`.
fn str_ends_with(s: &str, suffix: &str) -> (r: bool)
    ensures
        r == suffix@.is_suffix_of(s@),
{
    let n = s.unicode_len();
    let m = suffix.unicode_len();
    if m > n {
        return false;
    }
    let mut i: usize = 0;
    while i < m
        invariant
            i <= m <= n,
            n == s@.len(),
            m == suffix@.len(),
            forall|k: int| 0 <= k < i ==> s@[n - m + k] == suffix@[k],
        decreases m - i,
    {
        if s.get_char(n - m + i) != suffix.get_char(i) {
            proof {
                if suffix@.is_suffix_of(s@) {
                    assert(s@.subrange(n - m, n as int)[i as int] == s@[n - m + i]);
                }
            }
            return false;
        }
        i = i + 1;
    }
    proof {
        assert(suffix@ =~= s@.subrange(n - m, n as int));
    }
    true
}

/// Clearing sessions takes every session file, and only session files:
/// no state file is taken for one.
pub proof fn law_session_files_found(did: Seq<char>, key: Seq<char>)
    ensures
        "_session.json"@.is_suffix_of(session_file_name_of(did)),
        "_state.json"@.is_suffix_of(state_file_name_of(key)),
        !"_session.json"@.is_suffix_of(state_file_name_of(key)),
        !"_state.json"@.is_suffix_of(session_file_name_of(did)),
{
    reveal_strlit("_session.json");
    reveal_strlit("_state.json");
    let a = session_file_name_of(did);
    let b = state_file_name_of(key);
    assert(a.subrange(a.len() - 13, a.len() as int) =~= "_session.json"@);
    assert(b.subrange(b.len() - 11, b.len() as int) =~= "_state.json"@);
    if "_session.json"@.is_suffix_of(b) {
        assert(b[b.len() - 6] == "_session.json"@[7]);
    }
    if "_state.json"@.is_suffix_of(a) {
        assert(a[a.len() - 6] == "_state.json"@[5]);
    }
}

/// Sessions and states never share a file: a session file and a state file
/// have different names whatever their keys.
pub proof fn law_session_and_state_files_differ(did: Seq<char>, key: Seq<char>)
    ensures
        session_file_name_of(did) != state_file_name_of(key),
{
    reveal_strlit("_session.json");
    reveal_strlit("_state.json");
    let a = session_file_name_of(did);
    let b = state_file_name_of(key);
    if a == b {
        // Both end in ".json"; just before that, one has the 'n' of
        // "session" and the other the 'e' of "state".
        assert(a[a.len() - 6] == 'n');
        assert(b[b.len() - 6] == 'e');
    }
}

} // verus!
