//! Where Workroot keeps its files, and the checks on what it reads back.
//!
//! Reading, writing and locking the files is the caller's; this module
//! decides the paths and the names and judges the contents.

use vstd::prelude::*;

use crate::domain::CURRENT_SCHEMA_VERSION;
use crate::error::AppError;
use crate::paths::{file_name, join_path, path_file_name, path_join};
use crate::text::{dec, push_decimal, trim, trimmed};

verus! {

/// The three files Workroot keeps.
#[derive(Debug, PartialEq, Eq)]
pub struct StoragePaths {
    pub config: String,
    pub state: String,
    pub cache: String,
}

/// The environment variables that place the files.
#[derive(Debug, PartialEq, Eq)]
pub struct StorageEnv {
    pub workroot_config_home: Option<String>,
    pub rostrum_config_home: Option<String>,
    pub xdg_config_home: Option<String>,
    pub workroot_state_home: Option<String>,
    pub rostrum_state_home: Option<String>,
    pub xdg_state_home: Option<String>,
    pub workroot_cache_home: Option<String>,
    pub rostrum_cache_home: Option<String>,
    pub xdg_cache_home: Option<String>,
    pub home: Option<String>,
}

pub open spec fn ov(o: Option<String>) -> Option<Seq<char>> {
    match o {
        Some(s) => Some(s@),
        None => None,
    }
}

/// `base` with each of `parts` joined on in turn.
pub open spec fn join_all(base: Seq<char>, parts: Seq<Seq<char>>) -> Seq<char>
    decreases parts.len(),
{
    if parts.len() == 0 {
        base
    } else {
        path_join(join_all(base, parts.drop_last()), parts.last())
    }
}

/// A root directory: the Workroot variable, else the legacy one, else the
/// XDG one, else the home directory with `suffix`.
pub open spec fn spec_root(
    primary: Option<Seq<char>>,
    legacy: Option<Seq<char>>,
    xdg: Option<Seq<char>>,
    home: Option<Seq<char>>,
    suffix: Seq<Seq<char>>,
) -> Option<Seq<char>> {
    match primary {
        Some(p) => Some(p),
        None => match legacy {
            Some(p) => Some(p),
            None => match xdg {
                Some(p) => Some(p),
                None => match home {
                    Some(h) => Some(join_all(h, suffix)),
                    None => None,
                },
            },
        },
    }
}

fn root_from_env(
    primary: &Option<String>,
    legacy: &Option<String>,
    xdg: &Option<String>,
    home: &Option<String>,
    suffix: &Vec<&str>,
) -> (r: Result<String, AppError>)
    ensures
        match spec_root(ov(*primary), ov(*legacy), ov(*xdg), ov(*home), suffix@.map_values(|s: &str| s@)) {
            Some(p) => r matches Ok(x) && x@ == p,
            None => r matches Err(AppError::MissingHome),
        },
{
    if let Some(p) = primary {
        return Ok(p.clone());
    }
    if let Some(p) = legacy {
        return Ok(p.clone());
    }
    if let Some(p) = xdg {
        return Ok(p.clone());
    }
    let h = match home {
        Some(h) => h,
        None => return Err(AppError::MissingHome),
    };
    let ghost parts = suffix@.map_values(|s: &str| s@);
    let mut acc = h.clone();
    let mut i: usize = 0;
    while i < suffix.len()
        invariant
            parts == suffix@.map_values(|s: &str| s@),
            i <= suffix@.len(),
            acc@ == join_all(h@, parts.take(i as int)),
        decreases suffix@.len() - i,
    {
        acc = join_path(acc.as_str(), suffix[i]);
        proof {
            let pre = parts.take(i + 1);
            assert(pre.drop_last() =~= parts.take(i as int));
            assert(pre.last() == suffix@[i as int]@);
        }
        i = i + 1;
    }
    assert(parts.take(parts.len() as int) =~= parts);
    Ok(acc)
}

pub open spec fn config_root(env: StorageEnv) -> Option<Seq<char>> {
    spec_root(ov(env.workroot_config_home), ov(env.rostrum_config_home), ov(env.xdg_config_home), ov(env.home), seq![".config"@])
}

pub open spec fn state_root(env: StorageEnv) -> Option<Seq<char>> {
    spec_root(
        ov(env.workroot_state_home),
        ov(env.rostrum_state_home),
        ov(env.xdg_state_home),
        ov(env.home),
        seq![".local"@, "state"@],
    )
}

pub open spec fn cache_root(env: StorageEnv) -> Option<Seq<char>> {
    spec_root(ov(env.workroot_cache_home), ov(env.rostrum_cache_home), ov(env.xdg_cache_home), ov(env.home), seq![".cache"@])
}

impl StoragePaths {
    /// The files of the current user: `workroot/config.toml` under the
    /// config root, `workroot/state.json` under the state root and
    /// `workroot/index.json` under the cache root.
    pub fn default_for_user(env: &StorageEnv) -> (r: Result<StoragePaths, AppError>)
        ensures
            match (config_root(*env), state_root(*env), cache_root(*env)) {
                (Some(c), Some(s), Some(k)) => r matches Ok(p) && p.config@ == path_join(
                    path_join(c, "workroot"@),
                    "config.toml"@,
                ) && p.state@ == path_join(path_join(s, "workroot"@), "state.json"@) && p.cache@ == path_join(
                    path_join(k, "workroot"@),
                    "index.json"@,
                ),
                _ => r matches Err(AppError::MissingHome),
            },
    {
        let mut cs: Vec<&str> = Vec::new();
        cs.push(".config");
        let mut ss: Vec<&str> = Vec::new();
        ss.push(".local");
        ss.push("state");
        let mut ks: Vec<&str> = Vec::new();
        ks.push(".cache");
        assert(cs@.map_values(|s: &str| s@) =~= seq![".config"@]);
        assert(ss@.map_values(|s: &str| s@) =~= seq![".local"@, "state"@]);
        assert(ks@.map_values(|s: &str| s@) =~= seq![".cache"@]);
        let c = match root_from_env(&env.workroot_config_home, &env.rostrum_config_home, &env.xdg_config_home, &env.home, &cs) {
            Ok(c) => c,
            Err(e) => return Err(e),
        };
        let s = match root_from_env(&env.workroot_state_home, &env.rostrum_state_home, &env.xdg_state_home, &env.home, &ss) {
            Ok(s) => s,
            Err(e) => return Err(e),
        };
        let k = match root_from_env(&env.workroot_cache_home, &env.rostrum_cache_home, &env.xdg_cache_home, &env.home, &ks) {
            Ok(k) => k,
            Err(e) => return Err(e),
        };
        let cw = join_path(c.as_str(), "workroot");
        let sw = join_path(s.as_str(), "workroot");
        let kw = join_path(k.as_str(), "workroot");
        Ok(
            StoragePaths {
                config: join_path(cw.as_str(), "config.toml"),
                state: join_path(sw.as_str(), "state.json"),
                cache: join_path(kw.as_str(), "index.json"),
            },
        )
    }
}

/// The store of Workroot's files.
#[derive(Debug, PartialEq, Eq)]
pub struct FileStorage {
    paths: StoragePaths,
}

impl FileStorage {
    pub closed spec fn spec_paths(&self) -> StoragePaths {
        self.paths
    }

    pub fn new(paths: StoragePaths) -> (r: Self)
        ensures
            r.spec_paths() == paths,
    {
        FileStorage { paths }
    }

    pub fn paths(&self) -> (r: &StoragePaths)
        ensures
            *r == self.spec_paths(),
    {
        &self.paths
    }
}

/// Refuses a file written by a newer Workroot.
pub fn reject_future_schema(found: u32) -> (r: Result<(), AppError>)
    ensures
        found <= CURRENT_SCHEMA_VERSION ==> r is Ok,
        found > CURRENT_SCHEMA_VERSION ==> r == Err::<(), AppError>(
            AppError::FutureSchema { found, supported: CURRENT_SCHEMA_VERSION },
        ),
{
    if found > CURRENT_SCHEMA_VERSION {
        return Err(AppError::FutureSchema { found, supported: CURRENT_SCHEMA_VERSION });
    }
    Ok(())
}

/// Whether a file's contents hold nothing, so the defaults stand.
pub fn is_blank(contents: &str) -> (r: bool)
    ensures
        r == (trim(contents@).len() == 0),
{
    let t = trimmed(contents);
    t.as_str().is_empty()
}

/// The name a file's lock or temporary copy is derived from: the file's
/// own name, or `workroot` when the path has none.
pub open spec fn base_name(path: Seq<char>) -> Seq<char> {
    match file_name(path) {
        Some(n) => n,
        None => "workroot"@,
    }
}

/// The name of the lock file beside a file.
pub fn lock_file_name(path: &str) -> (r: String)
    ensures
        r@ == base_name(path@) + ".lock"@,
{
    let mut n = match path_file_name(path) {
        Some(n) => n,
        None => "workroot".to_owned(),
    };
    n.append(".lock");
    n
}

/// The name of the temporary copy a process writes before renaming it
/// over a file.
pub fn temp_file_name(path: &str, pid: u32) -> (r: String)
    ensures
        r@ == "."@ + base_name(path@) + "."@ + dec(pid as nat) + ".tmp"@,
{
    let mut n = ".".to_owned();
    match path_file_name(path) {
        Some(f) => n.append(f.as_str()),
        None => n.append("workroot"),
    }
    n.append(".");
    push_decimal(&mut n, pid as u64);
    n.append(".tmp");
    n
}

} // verus!
