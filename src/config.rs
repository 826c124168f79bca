use vstd::prelude::*;
use vstd::string::StringExecFns;

verus! {

/// Where a finished archive is sent.
#[derive(Debug, Clone, Copy, PartialEq, Eq, Structural)]
pub enum Destination {
    Telegram,
}

/// The persisted settings: the destination, and the paths to back up.
#[derive(Debug, Clone)]
pub struct AppConfig {
    pub destination: Destination,
    pub paths: Vec<String>,
}

impl Default for AppConfig {
    fn default() -> (r: AppConfig)
        ensures
            r.destination == Destination::Telegram,
            r.paths@.len() == 0,
    {
        AppConfig { destination: Destination::Telegram, paths: Vec::new() }
    }
}

/// The persisted credentials: the bot token, and the one user allowed to ask for a backup.
#[derive(Debug, Clone)]
pub struct Secrets {
    pub telegram_bot_token: Option<String>,
    pub authorized_user_id: Option<i64>,
}

impl Default for Secrets {
    fn default() -> (r: Secrets)
        ensures
            r.telegram_bot_token is None,
            r.authorized_user_id is None,
    {
        Secrets { telegram_bot_token: None, authorized_user_id: None }
    }
}

/// The name of the file that holds the credentials.
pub open spec fn secrets_file_name() -> Seq<char> {
    seq!['s', 'e', 'c', 'r', 'e', 't', 's', '.', 't', 'o', 'm', 'l']
}

/// `name` placed in directory `dir`: a separator is added unless `dir` is empty
/// or already ends with one.
pub open spec fn in_dir(dir: Seq<char>, name: Seq<char>) -> Seq<char> {
    if dir.len() == 0 || dir.last() == '/' {
        dir + name
    } else {
        dir + seq!['/'] + name
    }
}

impl Secrets {
    /// Tells whether `user_id` is the user allowed to ask for a backup; nobody is
    /// before one was stored.
    pub fn is_authorized(&self, user_id: i64) -> (r: bool)
        ensures
            r == (self.authorized_user_id == Some(user_id)),
    {
        match self.authorized_user_id {
            Some(id) => id == user_id,
            None => false,
        }
    }

    /// The path of the credentials file within the configuration directory `config_dir`.
    pub fn secrets_path(config_dir: &str) -> (r: String)
        ensures
            r@ == in_dir(config_dir@, secrets_file_name()),
    {
        let mut ends_with_slash = false;
        let mut empty = true;
        for c in it: config_dir.chars()
            invariant
                it.seq() == config_dir@,
                empty <==> it.index() == 0,
                !empty ==> (ends_with_slash <==> config_dir@[it.index() - 1] == '/'),
        {
            proof {
                assert(config_dir@[it.index() as int] == c);
            }
            ends_with_slash = c == '/';
            empty = false;
        }
        let mut r = config_dir.to_owned();
        if !empty && !ends_with_slash {
            r.append("/");
        }
        r.append("secrets.toml");
        proof {
            reveal_strlit("/");
            reveal_strlit("secrets.toml");
            assert("secrets.toml"@ =~= secrets_file_name());
            if config_dir@.len() > 0 {
                assert(config_dir@.last() == config_dir@[config_dir@.len() - 1]);
            }
        }
        r
    }
}

} // verus!
