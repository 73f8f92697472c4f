//! Where the pool keeps its files.

use std::path::PathBuf;

use vstd::prelude::*;
use vstd::string::*;

use crate::auth;
use crate::text;
use crate::text::{borrowed, digits_of};

verus! {

/// `std::path::PathBuf`: a path, carried through without a look inside.
#[verifier::external_type_specification]
#[verifier::external_body]
pub struct ExPathBuf(std::path::PathBuf);

/// The components of a path, as text.
pub uninterp spec fn path_components(path: PathBuf) -> Seq<Seq<char>>;

/// What `std::path::Path::join` makes of a path and a text.
pub uninterp spec fn joined_path(base: PathBuf, child: Seq<char>) -> PathBuf;

/// The text that `std::path::Path::to_string_lossy` gives for a path.
pub uninterp spec fn shown_path(path: PathBuf) -> Seq<char>;

/// What `std::path::Path::parent` gives for a path.
pub uninterp spec fn path_parent(path: PathBuf) -> Option<PathBuf>;

/// What `std::path::Path::file_name` gives for a path, where it is text.
pub uninterp spec fn path_file_name(path: PathBuf) -> Option<Seq<char>>;

/// What `std::path::Path::extension` gives for a path, where it is text.
pub uninterp spec fn path_extension(path: PathBuf) -> Option<Seq<char>>;

/// Whether a text names an entry of a directory: it holds characters of account
/// keys only and is neither of the dots that stand for directories.
pub open spec fn plain_name(name: Seq<char>) -> bool {
    &&& name.len() > 0
    &&& forall|i: int| 0 <= i < name.len() ==> auth::key_char(#[trigger] name[i])
    &&& name != seq!['.']
    &&& name != seq!['.', '.']
}

/// `std::path::Path::join` puts one path behind another. The name of an entry
/// of a directory becomes the last component.
#[verifier::external_body]
fn join(base: &PathBuf, child: &str) -> (joined: PathBuf)
    ensures
        joined == joined_path(*base, child@),
        plain_name(child@) ==> path_components(joined) == path_components(*base).push(child@),
{
    base.join(child)
}

/// `std::path::PathBuf::clone` gives the same path.
#[verifier::external_body]
fn path_copy(path: &PathBuf) -> (copy: PathBuf)
    ensures
        copy == *path,
{
    path.clone()
}

/// `std::path::Path::to_string_lossy` gives the text of a path. What stands in
/// it for bytes that are not text is not stated.
#[verifier::external_body]
pub(crate) fn show_path(path: &PathBuf) -> (text: String)
    ensures
        text@ == shown_path(*path),
{
    path.to_string_lossy().into_owned()
}

/// `std::path::Path::parent` gives the path without its last component, and
/// nothing for a root.
#[verifier::external_body]
fn parent_of(path: &PathBuf) -> (parent: Option<PathBuf>)
    ensures
        parent == path_parent(*path),
{
    path.parent().map(|parent| parent.to_path_buf())
}

/// `std::path::Path::file_name` gives the last component of a path, if there is
/// one that names an entry; here nothing either where it is not text.
#[verifier::external_body]
fn file_name_of(path: &PathBuf) -> (name: Option<String>)
    ensures
        name.deep_view() == path_file_name(*path),
{
    path.file_name().and_then(|name| name.to_str()).map(|name| name.to_owned())
}

/// `std::path::Path::extension` gives what follows the last dot of the file
/// name, if there is something before the dot; here nothing either where it is
/// not text.
#[verifier::external_body]
pub(crate) fn extension_of(path: &PathBuf) -> (extension: Option<String>)
    ensures
        extension.deep_view() == path_extension(*path),
{
    path.extension().and_then(|extension| extension.to_str()).map(|extension| extension.to_owned())
}

/// The names of the pool's own files and directories are names of entries.
pub proof fn lemma_plain_names()
    ensures
        plain_name(".codex"@),
        plain_name("account-pool-rs"@),
        plain_name("accounts"@),
        plain_name("state.db"@),
        plain_name("locks"@),
        plain_name("auth.json"@),
        plain_name("auth.switch.lock"@),
        plain_name("daemon.lock"@),
        plain_name("account-pool"@),
{
    assert(plain_name("auth.switch.lock"@)) by {
        reveal_strlit("auth.switch.lock");
        let name = "auth.switch.lock"@;
        assert(name.len() == 16);
        assert forall|i: int| 0 <= i < name.len() implies auth::key_char(#[trigger] name[i]) by {
            assert('a' <= name[i] <= 'z' || name[i] == '.');
        }
    }
    assert(plain_name("daemon.lock"@)) by {
        reveal_strlit("daemon.lock");
        let name = "daemon.lock"@;
        assert(name.len() == 11);
        assert forall|i: int| 0 <= i < name.len() implies auth::key_char(#[trigger] name[i]) by {
            assert('a' <= name[i] <= 'z' || name[i] == '.');
        }
    }
    assert(plain_name("account-pool"@)) by {
        reveal_strlit("account-pool");
        let name = "account-pool"@;
        assert(name.len() == 12);
        assert forall|i: int| 0 <= i < name.len() implies auth::key_char(#[trigger] name[i]) by {
            assert('a' <= name[i] <= 'z' || name[i] == '-');
        }
    }
    assert(plain_name(".codex"@)) by {
        reveal_strlit(".codex");
        let name = ".codex"@;
        assert(name.len() == 6);
        assert forall|i: int| 0 <= i < name.len() implies auth::key_char(#[trigger] name[i]) by {
            assert('a' <= name[i] <= 'z' || name[i] == '.');
        }
    }
    assert(plain_name("account-pool-rs"@)) by {
        reveal_strlit("account-pool-rs");
        let name = "account-pool-rs"@;
        assert(name.len() == 15);
        assert forall|i: int| 0 <= i < name.len() implies auth::key_char(#[trigger] name[i]) by {
            assert('a' <= name[i] <= 'z' || name[i] == '-');
        }
    }
    assert(plain_name("accounts"@)) by {
        reveal_strlit("accounts");
        let name = "accounts"@;
        assert(name.len() == 8);
        assert forall|i: int| 0 <= i < name.len() implies auth::key_char(#[trigger] name[i]) by {
            assert('a' <= name[i] <= 'z');
        }
    }
    assert(plain_name("state.db"@)) by {
        reveal_strlit("state.db");
        let name = "state.db"@;
        assert(name.len() == 8);
        assert forall|i: int| 0 <= i < name.len() implies auth::key_char(#[trigger] name[i]) by {
            assert('a' <= name[i] <= 'z' || name[i] == '.');
        }
    }
    assert(plain_name("locks"@)) by {
        reveal_strlit("locks");
        let name = "locks"@;
        assert(name.len() == 5);
        assert forall|i: int| 0 <= i < name.len() implies auth::key_char(#[trigger] name[i]) by {
            assert('a' <= name[i] <= 'z');
        }
    }
    assert(plain_name("auth.json"@)) by {
        reveal_strlit("auth.json");
        let name = "auth.json"@;
        assert(name.len() == 9);
        assert forall|i: int| 0 <= i < name.len() implies auth::key_char(#[trigger] name[i]) by {
            assert('a' <= name[i] <= 'z' || name[i] == '.');
        }
    }
}

/// The files and directories of the pool.
#[derive(Debug)]
pub struct Paths {
    pub global_auth_file: PathBuf,
    pub service_root: PathBuf,
    pub accounts_dir: PathBuf,
    pub db_path: PathBuf,
    pub lock_path: PathBuf,
    pub daemon_lock_path: PathBuf,
    pub locks_dir: PathBuf,
    pub legacy_accounts_dir: PathBuf,
}

impl Clone for Paths {
    fn clone(&self) -> (copy: Self)
        ensures
            copy == *self,
    {
        Paths {
            global_auth_file: path_copy(&self.global_auth_file),
            service_root: path_copy(&self.service_root),
            accounts_dir: path_copy(&self.accounts_dir),
            db_path: path_copy(&self.db_path),
            lock_path: path_copy(&self.lock_path),
            daemon_lock_path: path_copy(&self.daemon_lock_path),
            locks_dir: path_copy(&self.locks_dir),
            legacy_accounts_dir: path_copy(&self.legacy_accounts_dir),
        }
    }
}

/// Why the pool has no place to keep its files.
#[derive(Debug, Clone, Copy, PartialEq, Eq, Structural)]
pub enum ConfigError {
    HomeNotSet,
}

impl ConfigError {
    /// The error in words.
    pub fn message(self) -> (text: &'static str)
        ensures
            text@ == "HOME is not set"@,
    {
        "HOME is not set"
    }
}

/// The files and directories of the pool below a home directory.
pub open spec fn paths_below(home: PathBuf) -> Paths {
    let codex_home = joined_path(home, ".codex"@);
    let service_root = joined_path(codex_home, "account-pool-rs"@);
    Paths {
        global_auth_file: joined_path(codex_home, "auth.json"@),
        service_root,
        accounts_dir: joined_path(service_root, "accounts"@),
        db_path: joined_path(service_root, "state.db"@),
        lock_path: joined_path(service_root, "auth.switch.lock"@),
        daemon_lock_path: joined_path(service_root, "daemon.lock"@),
        locks_dir: joined_path(service_root, "locks"@),
        legacy_accounts_dir: joined_path(joined_path(codex_home, "account-pool"@), "accounts"@),
    }
}

impl Paths {
    /// Lays out the pool below the home directory.
    pub fn discover(home: Option<PathBuf>) -> (paths: Result<Paths, ConfigError>)
        ensures
            home is None ==> paths == Err::<Paths, ConfigError>(ConfigError::HomeNotSet),
            home matches Some(home) ==> paths == Ok::<Paths, ConfigError>(paths_below(home)),
            home matches Some(home) ==> path_components(paths->Ok_0.accounts_dir)
                == path_components(home) + seq![".codex"@, "account-pool-rs"@, "accounts"@],
            home matches Some(home) ==> path_components(paths->Ok_0.locks_dir)
                == path_components(home) + seq![".codex"@, "account-pool-rs"@, "locks"@],
            home matches Some(home) ==> path_components(paths->Ok_0.db_path) == path_components(
                home,
            ) + seq![".codex"@, "account-pool-rs"@, "state.db"@],
            home matches Some(home) ==> path_components(paths->Ok_0.global_auth_file)
                == path_components(home) + seq![".codex"@, "auth.json"@],
            home matches Some(home) ==> path_components(paths->Ok_0.service_root)
                == path_components(home) + seq![".codex"@, "account-pool-rs"@],
            home matches Some(home) ==> path_components(paths->Ok_0.lock_path) == path_components(
                home,
            ) + seq![".codex"@, "account-pool-rs"@, "auth.switch.lock"@],
            home matches Some(home) ==> path_components(paths->Ok_0.daemon_lock_path)
                == path_components(home) + seq![".codex"@, "account-pool-rs"@, "daemon.lock"@],
            home matches Some(home) ==> path_components(paths->Ok_0.legacy_accounts_dir)
                == path_components(home) + seq![".codex"@, "account-pool"@, "accounts"@],
    {
        match home {
            None => Err(ConfigError::HomeNotSet),
            Some(home) => {
                let codex_home = join(&home, ".codex");
                let service_root = join(&codex_home, "account-pool-rs");
                let accounts_dir = join(&service_root, "accounts");
                let db_path = join(&service_root, "state.db");
                let lock_path = join(&service_root, "auth.switch.lock");
                let daemon_lock_path = join(&service_root, "daemon.lock");
                let locks_dir = join(&service_root, "locks");
                let legacy_root = join(&codex_home, "account-pool");
                let legacy_accounts_dir = join(&legacy_root, "accounts");
                let global_auth_file = join(&codex_home, "auth.json");
                proof {
                    lemma_plain_names();
                }
                Ok(
                    Paths {
                        global_auth_file,
                        service_root,
                        accounts_dir,
                        db_path,
                        lock_path,
                        daemon_lock_path,
                        locks_dir,
                        legacy_accounts_dir,
                    },
                )
            },
        }
    }

    /// The directories that have to exist before the pool can be used.
    pub fn layout_dirs(&self) -> (dirs: Vec<&PathBuf>)
        ensures
            dirs@ == seq![&self.service_root, &self.accounts_dir, &self.locks_dir],
    {
        let mut dirs: Vec<&PathBuf> = Vec::new();
        dirs.push(&self.service_root);
        dirs.push(&self.accounts_dir);
        dirs.push(&self.locks_dir);
        dirs
    }

    /// The directory of an account.
    pub fn account_dir(&self, account_key: &str) -> (dir: PathBuf)
        ensures
            dir == joined_path(self.accounts_dir, account_key@),
            plain_name(account_key@) ==> path_components(dir) == path_components(
                self.accounts_dir,
            ).push(account_key@),
    {
        join(&self.accounts_dir, account_key)
    }

    /// The file that holds the credentials of an account.
    pub fn account_auth_file(&self, account_key: &str) -> (file: PathBuf)
        ensures
            file == joined_path(joined_path(self.accounts_dir, account_key@), "auth.json"@),
            plain_name(account_key@) ==> path_components(file) == auth_file_components(
                path_components(self.accounts_dir),
                account_key@,
            ),
    {
        proof {
            lemma_plain_names();
        }
        let dir = self.account_dir(account_key);
        join(&dir, "auth.json")
    }

    /// The file that is locked while an account is refreshed.
    pub fn account_lock_file(&self, account_key: &str) -> (file: PathBuf)
        ensures
            file == joined_path(self.locks_dir, account_key@ + ".lock"@),
            plain_name(account_key@) ==> path_components(file) == lock_file_components(
                path_components(self.locks_dir),
                account_key@,
            ),
    {
        let mut name = account_key.to_owned();
        name.append(".lock");
        proof {
            if plain_name(account_key@) {
                lemma_lock_name(account_key@);
            }
        }
        join(&self.locks_dir, name.as_str())
    }
}

/// How a file is replaced: it is prepared beside the old one, under another
/// name, and then takes its place.
pub struct WritePlan {
    pub parent: PathBuf,
    pub temp: PathBuf,
}

/// The name of the file in which a file is prepared before it takes its place.
pub open spec fn temp_name(file_name: Option<Seq<char>>, process: nat) -> Seq<char> {
    "."@ + text::or_else(file_name, "file"@) + ".tmp."@ + text::digits(process)
}

/// The name of the file in which a file is prepared before it takes its place.
pub fn temp_file_name(file_name: Option<&str>, process: u32) -> (name: String)
    ensures
        name@ == temp_name(file_name.deep_view(), process as nat),
{
    let mut name = ".".to_owned();
    name.append(
        match file_name {
            Some(file_name) => file_name,
            None => "file",
        },
    );
    name.append(".tmp.");
    name.append(digits_of(process as u64).as_str());
    name
}

/// How a file is replaced by a process; nothing where it stands in no
/// directory.
pub open spec fn replacement(path: PathBuf, process: nat) -> Option<WritePlan> {
    match path_parent(path) {
        None => None,
        Some(parent) => Some(
            WritePlan {
                parent,
                temp: joined_path(parent, temp_name(path_file_name(path), process)),
            },
        ),
    }
}

/// How a file is replaced by a process.
pub fn plan_write(path: &PathBuf, process: u32) -> (plan: Option<WritePlan>)
    ensures
        plan == replacement(*path, process as nat),
{
    match parent_of(path) {
        None => None,
        Some(parent) => {
            let file_name = file_name_of(path);
            let name = temp_file_name(borrowed(&file_name), process);
            let temp = join(&parent, name.as_str());
            Some(WritePlan { parent, temp })
        },
    }
}

/// The components of the file that holds the credentials of an account.
pub open spec fn auth_file_components(accounts: Seq<Seq<char>>, key: Seq<char>) -> Seq<Seq<char>> {
    accounts.push(key).push("auth.json"@)
}

/// The components of the file that is locked while an account is refreshed.
pub open spec fn lock_file_components(locks: Seq<Seq<char>>, key: Seq<char>) -> Seq<Seq<char>> {
    locks.push(key + ".lock"@)
}

proof fn lemma_lock_name(key: Seq<char>)
    requires
        plain_name(key),
    ensures
        plain_name(key + ".lock"@),
{
    reveal_strlit(".lock");
    let tail = ".lock"@;
    let name = key + tail;
    assert forall|i: int| 0 <= i < name.len() implies auth::key_char(#[trigger] name[i]) by {
        if i < key.len() {
            assert(name[i] == key[i]);
        } else {
            assert(name[i] == tail[i - key.len()]);
        }
    }
    assert(name.len() > 2);
    assert(seq!['.'].len() == 1);
    assert(seq!['.', '.'].len() == 2);
}

/// The key of an account names an entry of a directory: its credentials stand
/// in a directory of their own, right below that of the accounts.
pub proof fn law_key_is_plain_name(meta: auth::AuthMetaView)
    ensures
        plain_name(auth::key_view(meta)),
{
    let raw = text::or_else(text::first_of(meta.email, meta.account_id), auth::nameless());
    auth::lemma_key_shape(raw);
    let key = auth::key_view(meta);
    assert(seq!['.'][0] == '.');
    assert(seq!['.', '.'][0] == '.');
}

/// Accounts with different keys share neither the file of their credentials
/// nor the file that is locked while they are refreshed.
pub proof fn law_accounts_stay_apart(
    accounts: Seq<Seq<char>>,
    locks: Seq<Seq<char>>,
    one: Seq<char>,
    other: Seq<char>,
)
    requires
        one != other,
    ensures
        auth_file_components(accounts, one) != auth_file_components(accounts, other),
        lock_file_components(locks, one) != lock_file_components(locks, other),
{
    let n = accounts.len() as int;
    assert(auth_file_components(accounts, one)[n] == one);
    assert(auth_file_components(accounts, other)[n] == other);
    let m = locks.len() as int;
    assert(lock_file_components(locks, one)[m] == one + ".lock"@);
    assert(lock_file_components(locks, other)[m] == other + ".lock"@);
    if one + ".lock"@ == other + ".lock"@ {
        assert((one + ".lock"@).len() == (other + ".lock"@).len());
        assert((one + ".lock"@).take(one.len() as int) =~= one);
        assert((other + ".lock"@).take(other.len() as int) =~= other);
    }
}

} // verus!
