use vstd::prelude::*;
use crate::text::{lit, owned, push_str, to_chars};

verus! {

broadcast use vstd::string::group_string_axioms;

/// `part` appended to the directory `root` as `Path::join` does for a relative
/// part: nothing is inserted after an empty root or one ending in `/`, a `/`
/// otherwise.
pub open spec fn path_join(root: Seq<char>, part: Seq<char>) -> Seq<char> {
    if root.len() == 0 || root.last() == '/' {
        root + part
    } else {
        root + seq!['/'] + part
    }
}

/// Joins a relative part to a directory path.
pub fn join_path(root: &str, part: &str) -> (r: String)
    ensures
        r@ == path_join(root@, part@),
{
    let cs = to_chars(root);
    let mut out = owned(root);
    if cs.len() > 0 && cs[cs.len() - 1] == '/' {
        push_str(&mut out, part);
    } else if cs.len() == 0 {
        push_str(&mut out, part);
    } else {
        crate::text::push_char(&mut out, '/');
        push_str(&mut out, part);
    }
    out
}

/// The user data directory of minusbot and the paths inside it.
#[derive(Debug, Clone)]
pub struct DataDir {
    pub root: String,
}

impl DataDir {
    /// The settings file.
    pub fn config_path(&self) -> (r: String)
        ensures
            r@ == path_join(self.root@, "config.toml"@),
    {
        join_path(self.root.as_str(), "config.toml")
    }

    /// The private settings file.
    pub fn secrets_env_path(&self) -> (r: String)
        ensures
            r@ == path_join(self.root@, "secrets.env"@),
    {
        join_path(self.root.as_str(), "secrets.env")
    }

    /// The database file.
    pub fn database_path(&self) -> (r: String)
        ensures
            r@ == path_join(self.root@, "data.sqlite"@),
    {
        join_path(self.root.as_str(), "data.sqlite")
    }

    /// The database URL: `sqlite://` and the database file.
    pub fn database_url(&self) -> (r: String)
        ensures
            r@ == "sqlite://"@ + path_join(self.root@, "data.sqlite"@),
    {
        let mut s = lit("sqlite://");
        let p = self.database_path();
        push_str(&mut s, p.as_str());
        s
    }

    /// The skills directory.
    pub fn skills_dir(&self) -> (r: String)
        ensures
            r@ == path_join(self.root@, "skills"@),
    {
        join_path(self.root.as_str(), "skills")
    }

    /// The drive directory.
    pub fn drive_dir(&self) -> (r: String)
        ensures
            r@ == path_join(self.root@, "drive"@),
    {
        join_path(self.root.as_str(), "drive")
    }

    /// The logs directory.
    pub fn logs_dir(&self) -> (r: String)
        ensures
            r@ == path_join(self.root@, "logs"@),
    {
        join_path(self.root.as_str(), "logs")
    }

    /// The vault directory.
    pub fn vault_dir(&self) -> (r: String)
        ensures
            r@ == path_join(self.root@, "vault"@),
    {
        join_path(self.root.as_str(), "vault")
    }

    /// The directory of vault secrets.
    pub fn vault_secrets_dir(&self) -> (r: String)
        ensures
            r@ == path_join(path_join(self.root@, "vault"@), "secrets"@),
    {
        let v = self.vault_dir();
        join_path(v.as_str(), "secrets")
    }

    /// The addons directory.
    pub fn addons_dir(&self) -> (r: String)
        ensures
            r@ == path_join(self.root@, "addons"@),
    {
        join_path(self.root.as_str(), "addons")
    }

    /// The cache directory.
    pub fn cache_dir(&self) -> (r: String)
        ensures
            r@ == path_join(self.root@, "cache"@),
    {
        join_path(self.root.as_str(), "cache")
    }

    /// The log file of a day, named by the date `dd-mm-yyyy`.
    pub fn log_file_for(&self, date: &str) -> (r: String)
        ensures
            r@ == path_join(path_join(self.root@, "logs"@), date@ + ".log"@),
    {
        let mut name = owned(date);
        push_str(&mut name, ".log");
        let l = self.logs_dir();
        join_path(l.as_str(), name.as_str())
    }

    /// Whether this is the first run, given whether the settings file exists.
    pub fn is_first_run(&self, config_exists: bool) -> (r: bool)
        ensures
            r == !config_exists,
    {
        !config_exists
    }
}

} // verus!
