//! Where the API key is stored, which key a command uses, and the checks
//! that a stored credential file must pass.
use vstd::prelude::*;

use crate::error::{CliError, credential_error};
use crate::text::{
    concat, decimal, push_char, spec_decimal, spec_is_whitespace, spec_trim, spec_trim_end,
    spec_trim_start, trim,
};

verus! {

// ---------------------------------------------------------------------------
// Paths
/// The operating system the client runs on, as far as paths depend on it.
#[derive(Debug, Clone, Copy, PartialEq, Eq, Structural)]
pub enum Platform {
    Linux,
    MacOs,
    Windows,
    Other,
}

/// Whether `c` separates path components on `platform`.
pub open spec fn is_separator(platform: Platform, c: char) -> bool {
    c == '/' || (platform == Platform::Windows && c == '\\')
}

/// The separator that joining inserts on `platform`.
pub open spec fn separator(platform: Platform) -> char {
    if platform == Platform::Windows {
        '\\'
    } else {
        '/'
    }
}

/// Whether `base` is a bare Windows drive such as `C:`.
pub open spec fn is_bare_drive(platform: Platform, base: Seq<char>) -> bool {
    &&& platform == Platform::Windows
    &&& base.len() == 2
    &&& base[1] == ':'
    &&& (('a' <= base[0] && base[0] <= 'z') || ('A' <= base[0] && base[0] <= 'Z'))
}

/// `base` joined with the relative component `part`, as `Path::join` does:
/// a separator goes between them unless `base` is empty, already ends with
/// one, or is a bare Windows drive (`C:` joined with `x` is `C:x`).
pub open spec fn path_join(platform: Platform, base: Seq<char>, part: Seq<char>) -> Seq<char> {
    if base.len() > 0 && !is_separator(platform, base.last()) && !is_bare_drive(platform, base) {
        base.push(separator(platform)) + part
    } else {
        base + part
    }
}

/// `base` joined with the relative component `part`.
pub fn join_path(platform: Platform, base: &str, part: &str) -> (path: String)
    ensures
        path@ == path_join(platform, base@, part@),
{
    let n = base.unicode_len();
    let mut path = base.to_owned();
    if n > 0 {
        let last = base.get_char(n - 1);
        let is_sep = last == '/' || (platform == Platform::Windows && last == '\\');
        let first = base.get_char(0);
        let letter = ('a' <= first && first <= 'z') || ('A' <= first && first <= 'Z');
        let bare_drive = platform == Platform::Windows && n == 2 && last == ':' && letter;
        if !is_sep && !bare_drive {
            push_char(&mut path, if platform == Platform::Windows { '\\' } else { '/' });
        }
    }
    path.append(part);
    path
}

/// The environment variables that locate the configuration directory.
#[derive(Debug)]
pub struct ConfigEnv {
    pub xdg_config_home: Option<String>,
    pub home: Option<String>,
    pub appdata: Option<String>,
}

/// The per-user configuration directory: `$XDG_CONFIG_HOME` (when set and
/// not empty) or `$HOME/.config` on Linux, `$HOME/Library/Application
/// Support` on macOS, `%APPDATA%` on Windows, `$HOME/.config` elsewhere.
pub open spec fn spec_config_root(platform: Platform, env: ConfigEnv) -> Option<Seq<char>> {
    match platform {
        Platform::Linux => match env.xdg_config_home {
            Some(x) if x@.len() > 0 => Some(x@),
            _ => match env.home {
                Some(h) => Some(path_join(platform, h@, ".config"@)),
                None => None,
            },
        },
        Platform::MacOs => match env.home {
            Some(h) => Some(
                path_join(platform, path_join(platform, h@, "Library"@), "Application Support"@),
            ),
            None => None,
        },
        Platform::Windows => match env.appdata {
            Some(a) => Some(a@),
            None => None,
        },
        Platform::Other => match env.home {
            Some(h) => Some(path_join(platform, h@, ".config"@)),
            None => None,
        },
    }
}

/// The per-user configuration directory.
pub fn config_root(platform: Platform, env: &ConfigEnv) -> (root: Option<String>)
    ensures
        match (root, spec_config_root(platform, *env)) {
            (Some(r), Some(s)) => r@ == s,
            (None, None) => true,
            _ => false,
        },
{
    match platform {
        Platform::Linux => {
            if let Some(x) = &env.xdg_config_home {
                if x.as_str().unicode_len() > 0 {
                    return Some(x.clone());
                }
            }
            match &env.home {
                Some(h) => Some(join_path(platform, h.as_str(), ".config")),
                None => None,
            }
        },
        Platform::MacOs => match &env.home {
            Some(h) => {
                let library = join_path(platform, h.as_str(), "Library");
                Some(join_path(platform, library.as_str(), "Application Support"))
            },
            None => None,
        },
        Platform::Windows => match &env.appdata {
            Some(a) => Some(a.clone()),
            None => None,
        },
        Platform::Other => match &env.home {
            Some(h) => Some(join_path(platform, h.as_str(), ".config")),
            None => None,
        },
    }
}

/// The stored key's file: `pebblehost-cli/api-key` in the configuration
/// directory.
pub open spec fn spec_credential_path(platform: Platform, env: ConfigEnv) -> Option<Seq<char>> {
    match spec_config_root(platform, env) {
        Some(root) => Some(
            path_join(platform, path_join(platform, root, "pebblehost-cli"@), "api-key"@),
        ),
        None => None,
    }
}

/// The stored key's file, when the configuration directory is known.
pub fn credential_path(platform: Platform, env: &ConfigEnv) -> (path: Option<String>)
    ensures
        match (path, spec_credential_path(platform, *env)) {
            (Some(p), Some(s)) => p@ == s,
            (None, None) => true,
            _ => false,
        },
{
    match config_root(platform, env) {
        Some(root) => {
            let dir = join_path(platform, root.as_str(), "pebblehost-cli");
            Some(join_path(platform, dir.as_str(), "api-key"))
        },
        None => None,
    }
}

/// The credential file that `pb login` writes: it cannot go on without one.
pub fn login_credential_path(path: Option<String>) -> (r: Result<String, CliError>)
    ensures
        match path {
            Some(p) => r matches Ok(q) && q@ == p@,
            None => r matches Err(CliError::Credential(m)) && m@ == "cannot determine credential path"@,
        },
{
    match path {
        Some(p) => Ok(p),
        None => Err(CliError::Credential("cannot determine credential path".to_owned())),
    }
}

// ---------------------------------------------------------------------------
// Which key a command uses
/// The `PEBBLEHOST_API_KEY` variable as the process sees it.
#[derive(Debug)]
pub enum EnvToken {
    Absent,
    NotUnicode,
    Value(String),
}

/// The key the environment decides on: `None` when the variable is absent
/// (then the stored key is used); otherwise the trimmed value, and an
/// explicitly empty value is a missing key rather than a reason to fall back.
pub fn token_from_environment(env_token: &EnvToken) -> (r: Option<Result<String, CliError>>)
    ensures
        env_token is Absent <==> r is None,
        env_token is NotUnicode ==> (r matches Some(Err(CliError::Credential(m))) && m@
            == "environment API key is not valid UTF-8"@),
        env_token matches EnvToken::Value(v) ==> (if spec_trim(v@).len() == 0 {
            r matches Some(Err(CliError::MissingToken))
        } else {
            r matches Some(Ok(t)) && t@ == spec_trim(v@)
        }),
{
    match env_token {
        EnvToken::Absent => None,
        EnvToken::NotUnicode => Some(
            Err(CliError::Credential("environment API key is not valid UTF-8".to_owned())),
        ),
        EnvToken::Value(v) => {
            let token = trim(v.as_str());
            if token.as_str().unicode_len() == 0 {
                Some(Err(CliError::MissingToken))
            } else {
                Some(Ok(token))
            }
        },
    }
}

/// The key the store decides on, given what loading it gave.
pub fn token_from_store(loaded: Result<Option<String>, CliError>) -> (r: Result<String, CliError>)
    ensures
        match loaded {
            Ok(Some(t)) => r matches Ok(u) && u@ == t@,
            Ok(None) => r matches Err(CliError::MissingToken),
            Err(e) => r == Err::<String, CliError>(e),
        },
{
    match loaded {
        Ok(Some(t)) => Ok(t),
        Ok(None) => Err(CliError::MissingToken),
        Err(e) => Err(e),
    }
}

// ---------------------------------------------------------------------------
// The stored key file
/// What the credential file holds for `token`: the key and a line break.
pub open spec fn spec_stored_contents(token: Seq<char>) -> Seq<char> {
    token.push('\n')
}

/// What the credential file holds for `token`.
pub fn stored_token_contents(token: &str) -> (contents: String)
    ensures
        contents@ == spec_stored_contents(token@),
{
    let mut contents = token.to_owned();
    push_char(&mut contents, '\n');
    contents
}

/// The key read from the file: `read` is what reading it gave (its text, or
/// the error's text). The key is the trimmed text, which must not be empty.
pub fn token_from_read(read: Result<String, String>) -> (r: Result<Option<String>, CliError>)
    ensures
        match read {
            Err(e) => r matches Err(CliError::Credential(m)) && m@ == "cannot read credential file: "@
                + e@,
            Ok(text) => if spec_trim(text@).len() == 0 {
                r matches Err(CliError::Credential(m)) && m@
                    == "credential file contains an empty token"@
            } else {
                r matches Ok(Some(t)) && t@ == spec_trim(text@)
            },
        },
{
    match read {
        Err(e) => Err(credential_error("cannot read credential file: ", e.as_str())),
        Ok(text) => {
            let token = trim(text.as_str());
            if token.as_str().unicode_len() == 0 {
                Err(CliError::Credential("credential file contains an empty token".to_owned()))
            } else {
                Ok(Some(token))
            }
        },
    }
}

proof fn lemma_trim_end_push_whitespace(s: Seq<char>, c: char)
    requires
        spec_is_whitespace(c),
    ensures
        spec_trim_end(s.push(c)) == spec_trim_end(s),
{
    assert(s.push(c).drop_last() =~= s);
}

proof fn lemma_trim_start_push(s: Seq<char>, c: char)
    ensures
        spec_trim_start(s.push(c)) == if spec_trim_start(s).len() > 0 {
            spec_trim_start(s).push(c)
        } else {
            spec_trim_start(seq![c])
        },
    decreases s.len(),
{
    if s.len() == 0 {
        assert(s.push(c) =~= seq![c]);
    } else if spec_is_whitespace(s[0]) {
        assert(s.push(c).drop_first() =~= s.drop_first().push(c));
        lemma_trim_start_push(s.drop_first(), c);
    } else {
    }
}

/// A stored key reads back as itself, trimmed: the line break that storing
/// adds is not part of the key.
pub proof fn lemma_stored_token_round_trip(token: Seq<char>)
    ensures
        spec_trim(spec_stored_contents(token)) == spec_trim(token),
{
    assert(spec_is_whitespace('\n'));
    lemma_trim_start_push(token, '\n');
    let t = spec_trim_start(token);
    if t.len() > 0 {
        lemma_trim_end_push_whitespace(t, '\n');
    } else {
        assert(seq!['\n'].drop_first() =~= Seq::<char>::empty());
        assert(spec_trim_start(Seq::<char>::empty()) == Seq::<char>::empty());
        assert(spec_trim_start(seq!['\n']) == Seq::<char>::empty());
    }
}

/// The kind of a file system entry.
#[derive(Debug, Clone, Copy, PartialEq, Eq, Structural)]
pub enum FileKind {
    Symlink,
    File,
    Other,
}

/// What the file system says of a credential file: its kind, its Unix
/// permission bits (where there are such), and whether it is a Windows
/// reparse point.
#[derive(Debug, Clone, Copy, PartialEq, Eq, Structural)]
pub struct FileFacts {
    pub kind: FileKind,
    pub mode: Option<u32>,
    pub reparse_point: bool,
}

/// Whether permission bits let the group or others in.
pub open spec fn mode_is_unsafe(mode: Option<u32>) -> bool {
    match mode {
        Some(m) => m & 0o077 != 0,
        None => false,
    }
}

/// Rejects a credential file that the group or others may use.
pub fn validate_credential_metadata(path: &str, mode: Option<u32>) -> (r: Result<(), CliError>)
    ensures
        mode_is_unsafe(mode) ==> (r matches Err(CliError::Credential(m)) && m@
            == "credential file has unsafe permissions: "@ + path@),
        !mode_is_unsafe(mode) ==> r is Ok,
{
    match mode {
        Some(m) => {
            if m & 0o077 != 0 {
                return Err(credential_error("credential file has unsafe permissions: ", path));
            }
            Ok(())
        },
        None => Ok(()),
    }
}

/// What looking at a path without following links found.
#[derive(Debug)]
pub enum Lookup {
    NotFound,
    Failed(String),
    Found(FileFacts),
}

/// Whether a credential file exists that may be replaced: no file is
/// `false`; a symbolic link, anything but a regular file, or a file with
/// unsafe permissions is an error.
pub fn existing_credential(path: &str, lookup: &Lookup) -> (r: Result<bool, CliError>)
    ensures
        match *lookup {
            Lookup::NotFound => r == Ok::<bool, CliError>(false),
            Lookup::Failed(e) => r matches Err(CliError::Credential(m)) && m@
                == "cannot inspect credential file: "@ + e@,
            Lookup::Found(f) => if f.kind == FileKind::Symlink {
                r matches Err(CliError::Credential(m)) && m@ == "credential path is a symlink: "@
                    + path@
            } else if f.kind != FileKind::File {
                r matches Err(CliError::Credential(m)) && m@
                    == "credential path is not a regular file: "@ + path@
            } else if mode_is_unsafe(f.mode) {
                r matches Err(CliError::Credential(m)) && m@
                    == "credential file has unsafe permissions: "@ + path@
            } else {
                r == Ok::<bool, CliError>(true)
            },
        },
{
    match lookup {
        Lookup::NotFound => Ok(false),
        Lookup::Failed(e) => Err(credential_error("cannot inspect credential file: ", e.as_str())),
        Lookup::Found(f) => {
            if f.kind == FileKind::Symlink {
                return Err(credential_error("credential path is a symlink: ", path));
            }
            if f.kind != FileKind::File {
                return Err(credential_error("credential path is not a regular file: ", path));
            }
            match validate_credential_metadata(path, f.mode) {
                Ok(()) => Ok(true),
                Err(e) => Err(e),
            }
        },
    }
}

/// What opening the credential file (without following links) gave.
#[derive(Debug)]
pub enum OpenOutcome {
    Opened,
    NotFound,
    Failed(String),
}

/// Whether to go on reading after opening: a missing file means no stored
/// key (`false`), any other failure is an error.
pub fn open_credential(outcome: &OpenOutcome) -> (r: Result<bool, CliError>)
    ensures
        match *outcome {
            OpenOutcome::Opened => r == Ok::<bool, CliError>(true),
            OpenOutcome::NotFound => r == Ok::<bool, CliError>(false),
            OpenOutcome::Failed(e) => r matches Err(CliError::Credential(m)) && m@
                == "cannot open credential file: "@ + e@,
        },
{
    match outcome {
        OpenOutcome::Opened => Ok(true),
        OpenOutcome::NotFound => Ok(false),
        OpenOutcome::Failed(e) => Err(credential_error("cannot open credential file: ", e.as_str())),
    }
}

/// Checks an opened credential file before reading it: `facts` is what its
/// metadata gave (or the error's text).
pub fn check_opened_credential(path: &str, facts: &Result<FileFacts, String>) -> (r: Result<
    (),
    CliError,
>)
    ensures
        match *facts {
            Err(e) => r matches Err(CliError::Credential(m)) && m@ == "cannot inspect credential file: "@
                + e@,
            Ok(f) => if f.kind == FileKind::Symlink {
                r matches Err(CliError::Credential(m)) && m@ == "credential path is a symlink"@
            } else if f.kind != FileKind::File {
                r matches Err(CliError::Credential(m)) && m@
                    == "credential path is not a regular file"@
            } else if f.reparse_point {
                r matches Err(CliError::Credential(m)) && m@ == "credential path is a reparse point"@
            } else if mode_is_unsafe(f.mode) {
                r matches Err(CliError::Credential(m)) && m@
                    == "credential file has unsafe permissions: "@ + path@
            } else {
                r is Ok
            },
        },
{
    match facts {
        Err(e) => Err(credential_error("cannot inspect credential file: ", e.as_str())),
        Ok(f) => {
            if f.kind == FileKind::Symlink {
                return Err(CliError::Credential("credential path is a symlink".to_owned()));
            }
            if f.kind != FileKind::File {
                return Err(CliError::Credential("credential path is not a regular file".to_owned()));
            }
            if f.reparse_point {
                return Err(CliError::Credential("credential path is a reparse point".to_owned()));
            }
            validate_credential_metadata(path, f.mode)
        },
    }
}

// ---------------------------------------------------------------------------
// Saving a key
/// The directory to create for the credential file: its parent, or `.`
/// when it has none or an empty one.
pub fn credential_directory(parent: Option<String>) -> (dir: String)
    ensures
        match parent {
            Some(p) if p@.len() > 0 => dir@ == p@,
            _ => dir@ == "."@,
        },
{
    match parent {
        Some(p) => {
            if p.as_str().unicode_len() > 0 {
                p
            } else {
                ".".to_owned()
            }
        },
        None => ".".to_owned(),
    }
}

/// The name of a temporary file for writing the credential:
/// `.{name}.tmp-{pid}-{timestamp}-{attempt}`, where the name is the
/// credential file's (or `api-key` without one).
pub open spec fn spec_temporary_name(
    file_name: Option<Seq<char>>,
    pid: u32,
    timestamp: u128,
    attempt: u32,
) -> Seq<char> {
    let name = match file_name {
        Some(n) => n,
        None => "api-key"@,
    };
    "."@ + name + ".tmp-"@ + spec_decimal(pid as nat) + "-"@ + spec_decimal(timestamp as nat) + "-"@
        + spec_decimal(attempt as nat)
}

/// The name of a temporary file for writing the credential.
pub fn temporary_credential_name(file_name: &Option<String>, pid: u32, timestamp: u128, attempt: u32) -> (name: String)
    ensures
        name@ == spec_temporary_name(opt_text(*file_name), pid, timestamp, attempt),
{
    let mut name = ".".to_owned();
    match file_name {
        Some(n) => name.append(n.as_str()),
        None => name.append("api-key"),
    }
    name.append(".tmp-");
    name.append(decimal(pid as u128).as_str());
    name.append("-");
    name.append(decimal(timestamp).as_str());
    name.append("-");
    name.append(decimal(attempt as u128).as_str());
    name
}

/// The model of an optional text.
pub open spec fn opt_text(s: Option<String>) -> Option<Seq<char>> {
    match s {
        Some(t) => Some(t@),
        None => None,
    }
}

/// How many temporary names are tried before giving up.
pub const TEMPORARY_ATTEMPTS: u32 = 100;

/// What creating a new temporary file gave.
#[derive(Debug)]
pub enum CreateOutcome {
    Created,
    AlreadyExists,
    Failed(String),
}

/// What to do after an attempt to create a temporary file.
#[derive(Debug)]
pub enum TemporaryStep {
    /// Write the credential into the file just created.
    Use,
    /// Try again with this attempt number.
    Retry(u32),
    /// Give up with this error.
    Fail(CliError),
}

/// The step after attempt `attempt`: a name that is taken is retried with
/// the next number, up to the limit; other failures end the save.
pub fn next_temporary_step(attempt: u32, outcome: &CreateOutcome) -> (step: TemporaryStep)
    requires
        attempt < TEMPORARY_ATTEMPTS,
    ensures
        match *outcome {
            CreateOutcome::Created => step is Use,
            CreateOutcome::AlreadyExists => if attempt + 1 < TEMPORARY_ATTEMPTS {
                step == TemporaryStep::Retry((attempt + 1) as u32)
            } else {
                step matches TemporaryStep::Fail(CliError::Credential(m)) && m@
                    == "cannot create a unique temporary credential file"@
            },
            CreateOutcome::Failed(e) => step matches TemporaryStep::Fail(CliError::Credential(m))
                && m@ == "cannot create temporary credential file: "@ + e@,
        },
{
    match outcome {
        CreateOutcome::Created => TemporaryStep::Use,
        CreateOutcome::AlreadyExists => {
            if attempt + 1 < TEMPORARY_ATTEMPTS {
                TemporaryStep::Retry(attempt + 1)
            } else {
                TemporaryStep::Fail(
                    CliError::Credential("cannot create a unique temporary credential file".to_owned()),
                )
            }
        },
        CreateOutcome::Failed(e) => TemporaryStep::Fail(
            credential_error("cannot create temporary credential file: ", e.as_str()),
        ),
    }
}

/// The steps of saving a key that can fail after the temporary file exists
/// or before it is made.
#[derive(Debug, Clone, Copy, PartialEq, Eq, Structural)]
pub enum SaveStage {
    CreateDirectory,
    SecureDirectory,
    SecureTemporary,
    Write,
    Flush,
    Sync,
    Replace,
}

/// The text before the failure's own text for each stage.
pub open spec fn save_failure_prefix(stage: SaveStage) -> Seq<char> {
    match stage {
        SaveStage::CreateDirectory => "cannot create credential directory: "@,
        SaveStage::SecureDirectory => "cannot secure credential directory: "@,
        SaveStage::SecureTemporary => "cannot secure temporary credential file: "@,
        SaveStage::Write => "cannot write temporary credential file: "@,
        SaveStage::Flush => "cannot flush temporary credential file: "@,
        SaveStage::Sync => "cannot sync temporary credential file: "@,
        SaveStage::Replace => "cannot replace credential file: "@,
    }
}

/// The error for a failure at `stage` whose own text is `detail`.
pub fn save_failure(stage: SaveStage, detail: &str) -> (e: CliError)
    ensures
        e matches CliError::Credential(m) && m@ == save_failure_prefix(stage) + detail@,
{
    let prefix = match stage {
        SaveStage::CreateDirectory => "cannot create credential directory: ",
        SaveStage::SecureDirectory => "cannot secure credential directory: ",
        SaveStage::SecureTemporary => "cannot secure temporary credential file: ",
        SaveStage::Write => "cannot write temporary credential file: ",
        SaveStage::Flush => "cannot flush temporary credential file: ",
        SaveStage::Sync => "cannot sync temporary credential file: ",
        SaveStage::Replace => "cannot replace credential file: ",
    };
    credential_error(prefix, detail)
}

/// How a save ends once its temporary file exists.
#[derive(Debug)]
pub enum SaveEnd {
    /// The temporary file took the credential's place.
    Saved,
    /// Remove the temporary file, then report this error: a failed save
    /// leaves no temporary file behind.
    RemoveTemporary(CliError),
}

/// How a save ends, given the outcome of the steps after the temporary file
/// was created (securing, writing, flushing, syncing, replacing).
pub fn end_of_save(outcome: Result<(), CliError>) -> (end: SaveEnd)
    ensures
        match outcome {
            Ok(()) => end is Saved,
            Err(e) => end == SaveEnd::RemoveTemporary(e),
        },
{
    match outcome {
        Ok(()) => SaveEnd::Saved,
        Err(e) => SaveEnd::RemoveTemporary(e),
    }
}

/// The owner-only permissions of the credential directory.
pub const CREDENTIAL_DIRECTORY_MODE: u32 = 0o700;

/// The owner-only permissions of the credential file.
pub const CREDENTIAL_FILE_MODE: u32 = 0o600;

/// Saved permissions let no one but the owner in.
pub proof fn lemma_saved_modes_are_owner_only()
    ensures
        !mode_is_unsafe(Some(CREDENTIAL_FILE_MODE)),
        !mode_is_unsafe(Some(CREDENTIAL_DIRECTORY_MODE)),
{
    assert(0o600u32 & 0o077u32 == 0) by (bit_vector);
    assert(0o700u32 & 0o077u32 == 0) by (bit_vector);
}

} // verus!
