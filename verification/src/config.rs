//! The configuration of the program and the files that keep it.
use vstd::prelude::*;
use vstd::string::*;

use crate::paths::{join, joined};
use crate::server::PROTOCOL_VERSION;

verus! {

/// The configuration.
#[derive(Debug)]
pub struct Config<S = String> {
    /// The public key that is installed on servers.
    pub pub_key_path: S,
    /// The database of servers.
    pub server_file_path: S,
    pub ssh_client_app_path: S,
    pub scp_app_path: S,
    pub version: Option<u32>,
    /// Which file keeps the configuration: one is the mode of tests.
    pub mode: u8,
}

impl View for Config<String> {
    type V = Config<Seq<char>>;

    open spec fn view(&self) -> Config<Seq<char>> {
        Config {
            pub_key_path: self.pub_key_path@,
            server_file_path: self.server_file_path@,
            ssh_client_app_path: self.ssh_client_app_path@,
            scp_app_path: self.scp_app_path@,
            version: self.version,
            mode: self.mode,
        }
    }
}

impl Clone for Config<String> {
    fn clone(&self) -> (r: Self)
        ensures
            r == *self,
    {
        Config {
            pub_key_path: self.pub_key_path.clone(),
            server_file_path: self.server_file_path.clone(),
            ssh_client_app_path: self.ssh_client_app_path.clone(),
            scp_app_path: self.scp_app_path.clone(),
            version: self.version,
            mode: self.mode,
        }
    }
}

impl Config<Seq<char>> {
    /// The configuration that holds nothing.
    pub open spec fn blank() -> Self {
        Config {
            pub_key_path: Seq::empty(),
            server_file_path: Seq::empty(),
            ssh_client_app_path: Seq::empty(),
            scp_app_path: Seq::empty(),
            version: None,
            mode: 0,
        }
    }

    /// The configuration of a new installation.
    pub open spec fn fresh(home: Seq<char>, dir: Seq<char>, mode: u8) -> Self {
        Config {
            pub_key_path: joined(joined(home, ".ssh"@), "id_rsa.pub"@),
            server_file_path: joined(dir, "server.db"@),
            ssh_client_app_path: "ssh"@,
            scp_app_path: "scp"@,
            version: Some(PROTOCOL_VERSION),
            mode,
        }
    }
}

impl Default for Config<String> {
    fn default() -> (r: Self)
        ensures
            r@ == Config::<Seq<char>>::blank(),
    {
        let r = Config {
            pub_key_path: String::new(),
            server_file_path: String::new(),
            ssh_client_app_path: String::new(),
            scp_app_path: String::new(),
            version: None,
            mode: 0,
        };
        proof {
            assert(r@.pub_key_path =~= Seq::<char>::empty());
            assert(r@.server_file_path =~= Seq::<char>::empty());
            assert(r@.ssh_client_app_path =~= Seq::<char>::empty());
            assert(r@.scp_app_path =~= Seq::<char>::empty());
        }
        r
    }
}

/// The mode in which tests run.
pub const TEST_MODE: u8 = 1;

/// The file that the configuration is read from: in the mode of tests their
/// own where there is one, and the common one otherwise.
pub open spec fn config_file(dir: Seq<char>, mode: u8, has_test_file: bool) -> Seq<char> {
    if mode == TEST_MODE && has_test_file {
        joined(dir, "config_test.json"@)
    } else {
        joined(dir, "config.json"@)
    }
}

impl Config {
    /// The configuration of a run in this mode: what was stored, or nothing
    /// where there is none or it cannot be read.
    pub fn init(stored: Option<Config>, mode: u8) -> (r: Self)
        ensures
            r@ == (Config {
                mode,
                ..match stored {
                    Some(c) => c@,
                    None => Config::<Seq<char>>::blank(),
                }
            }),
    {
        let mut config = match stored {
            Some(c) => c,
            None => Config::default(),
        };
        config.mode = mode;
        config
    }

    /// The configuration of a new installation.
    pub fn initial(home_dir: &str, config_dir: &str, mode: u8) -> (r: Self)
        ensures
            r@ == Config::<Seq<char>>::fresh(home_dir@, config_dir@, mode),
    {
        Config {
            pub_key_path: join(join(home_dir, ".ssh").as_str(), "id_rsa.pub"),
            server_file_path: join(config_dir, "server.db"),
            ssh_client_app_path: "ssh".to_owned(),
            scp_app_path: "scp".to_owned(),
            version: Some(PROTOCOL_VERSION),
            mode,
        }
    }

    /// The file to read the configuration from.
    pub fn chosen_file(config_dir: &str, mode: u8, has_test_file: bool) -> (r: String)
        ensures
            r@ == config_file(config_dir@, mode, has_test_file),
    {
        if mode == TEST_MODE && has_test_file {
            join(config_dir, "config_test.json")
        } else {
            join(config_dir, "config.json")
        }
    }

    /// The file to write this configuration to.
    pub fn save_to_storage(&self, config_dir: &str) -> (r: String)
        ensures
            r@ == config_file(config_dir@, self.mode, true),
    {
        Config::chosen_file(config_dir, self.mode, true)
    }
}

/// What was written is what is read next time: the file that a run in some
/// mode writes to is the one that a run in that mode reads from.
pub proof fn written_file_is_read(dir: Seq<char>, mode: u8)
    ensures
        config_file(dir, mode, true) == config_file(dir, mode, mode == TEST_MODE),
{
}

/// A new installation has its key below the home and its database below the
/// directory of the program, starts the clients by their plain names, carries
/// the present version, and keeps the mode of the run.
pub proof fn new_installation_has_its_places(home: Seq<char>, dir: Seq<char>, mode: u8)
    requires
        home.len() > 0,
        home.last() != '/',
        dir.len() > 0,
        dir.last() != '/',
    ensures
        ({
            let c = Config::<Seq<char>>::fresh(home, dir, mode);
            &&& c.pub_key_path == home + "/.ssh/id_rsa.pub"@
            &&& c.server_file_path == dir + "/server.db"@
            &&& c.ssh_client_app_path == seq!['s', 's', 'h']
            &&& c.scp_app_path == seq!['s', 'c', 'p']
            &&& c.version == Some(2u32)
            &&& c.mode == mode
        }),
{
    reveal_strlit("/.ssh/id_rsa.pub");
    reveal_strlit(".ssh");
    reveal_strlit("id_rsa.pub");
    reveal_strlit("/server.db");
    reveal_strlit("server.db");
    reveal_strlit("ssh");
    reveal_strlit("scp");
    let keys = joined(home, ".ssh"@);
    assert(keys =~= home + seq!['/'] + ".ssh"@);
    assert(keys.last() == 'h');
    assert(joined(keys, "id_rsa.pub"@) =~= home + "/.ssh/id_rsa.pub"@);
    assert(joined(dir, "server.db"@) =~= dir + "/server.db"@);
    assert("ssh"@ =~= seq!['s', 's', 'h']);
    assert("scp"@ =~= seq!['s', 'c', 'p']);
}

/// Where nothing is stored, nothing is set: no path, no version.
pub proof fn blank_configuration_sets_nothing()
    ensures
        ({
            let c = Config::<Seq<char>>::blank();
            &&& c.pub_key_path.len() == 0
            &&& c.server_file_path.len() == 0
            &&& c.ssh_client_app_path.len() == 0
            &&& c.scp_app_path.len() == 0
            &&& c.version is None
        }),
{
}

/// The configuration lies in the directory of the program. Only a run for tests
/// reads another file, and only where there is one.
pub proof fn configuration_lies_in_the_directory(dir: Seq<char>, mode: u8, has_test_file: bool)
    requires
        dir.len() > 0,
        dir.last() != '/',
    ensures
        mode != 1 || !has_test_file ==> config_file(dir, mode, has_test_file) == dir
            + "/config.json"@,
        mode == 1 && has_test_file ==> config_file(dir, mode, has_test_file) == dir
            + "/config_test.json"@,
{
    reveal_strlit("/config.json");
    reveal_strlit("config.json");
    reveal_strlit("/config_test.json");
    reveal_strlit("config_test.json");
    assert(joined(dir, "config.json"@) =~= dir + "/config.json"@);
    assert(joined(dir, "config_test.json"@) =~= dir + "/config_test.json"@);
}

} // verus!
