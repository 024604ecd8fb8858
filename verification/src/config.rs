//! Server configuration.
use crate::text;
use crate::text::{ends_with_char, Line};
use vstd::prelude::*;

verus! {

broadcast use vstd::string::group_string_axioms;

/// The mathematical content of a [`ServerConfig`].
pub struct ServerConfigView {
    pub listen_addr: Seq<char>,
    pub tls_listen_addr: Seq<char>,
    pub tls_cert: Option<Seq<char>>,
    pub tls_key: Option<Seq<char>>,
    pub server_name: Seq<char>,
    pub challenge_timeout_secs: u64,
    pub db_path: Option<Seq<char>>,
    pub web_addr: Option<Seq<char>>,
    pub iroh: bool,
    pub iroh_port: Option<u16>,
    pub s2s_peers: Seq<Seq<char>>,
    pub s2s_allowed_peers: Seq<Seq<char>>,
    pub s2s_peer_trust: Seq<Seq<char>>,
    pub server_did: Option<Seq<char>>,
    pub data_dir: Option<Seq<char>>,
    pub max_messages_per_channel: usize,
    pub motd: Option<Seq<char>>,
    pub motd_file: Option<Seq<char>>,
    pub web_static_dir: Option<Seq<char>>,
    pub plugins: Seq<Seq<char>>,
    pub plugin_dir: Option<Seq<char>>,
    pub require_did_for_ops: bool,
    pub github_client_id: Option<Seq<char>>,
    pub github_client_secret: Option<Seq<char>>,
    pub broker_shared_secret: Option<Seq<char>>,
    pub oper_password: Option<Seq<char>>,
    pub oper_dids: Seq<Seq<char>>,
}

/// freeq IRC server with AT Protocol SASL authentication.
#[derive(Debug)]
pub struct ServerConfig {
    /// Plain TCP listener address.
    pub listen_addr: String,
    /// TLS listener address. Only active if a certificate and a key are set.
    pub tls_listen_addr: String,
    /// Path to TLS certificate PEM file.
    pub tls_cert: Option<String>,
    /// Path to TLS private key PEM file.
    pub tls_key: Option<String>,
    /// Server name used in IRC messages.
    pub server_name: String,
    /// Challenge validity window in seconds.
    pub challenge_timeout_secs: u64,
    /// Path to SQLite database file. If not set, uses in-memory storage (no persistence).
    pub db_path: Option<String>,
    /// HTTP/WebSocket listener address.
    pub web_addr: Option<String>,
    /// Enable iroh transport.
    pub iroh: bool,
    /// UDP port for iroh transport. If not set, a random port is used.
    pub iroh_port: Option<u16>,
    /// S2S peer iroh endpoint IDs to connect to on startup.
    pub s2s_peers: Vec<String>,
    /// Allowed S2S peer endpoint IDs. If empty, any peer can connect.
    pub s2s_allowed_peers: Vec<String>,
    /// S2S peer trust levels: `endpoint_id:level`.
    pub s2s_peer_trust: Vec<String>,
    /// Server DID for federated identity.
    pub server_did: Option<String>,
    /// Data directory for server state files.
    pub data_dir: Option<String>,
    /// Maximum messages to retain per channel in the database. 0 = unlimited.
    pub max_messages_per_channel: usize,
    /// Message of the Day text. If not set, no MOTD is sent.
    pub motd: Option<String>,
    /// Path to a file containing the Message of the Day.
    pub motd_file: Option<String>,
    /// Directory containing web client static files.
    pub web_static_dir: Option<String>,
    /// Plugins to load.
    pub plugins: Vec<String>,
    /// Directory containing plugin config files.
    pub plugin_dir: Option<String>,
    /// Require DID provenance for channel authority operations.
    pub require_did_for_ops: bool,
    /// GitHub OAuth App Client ID.
    pub github_client_id: Option<String>,
    /// GitHub OAuth App Client Secret.
    pub github_client_secret: Option<String>,
    /// Shared secret for the auth broker.
    pub broker_shared_secret: Option<String>,
    /// Server operator password. If set, the OPER command is enabled.
    pub oper_password: Option<String>,
    /// DIDs that are automatically granted server operator status on connect.
    pub oper_dids: Vec<String>,
}

impl DeepView for ServerConfig {
    type V = ServerConfigView;

    open spec fn deep_view(&self) -> ServerConfigView {
        ServerConfigView {
            listen_addr: self.listen_addr.deep_view(),
            tls_listen_addr: self.tls_listen_addr.deep_view(),
            tls_cert: self.tls_cert.deep_view(),
            tls_key: self.tls_key.deep_view(),
            server_name: self.server_name.deep_view(),
            challenge_timeout_secs: self.challenge_timeout_secs.deep_view(),
            db_path: self.db_path.deep_view(),
            web_addr: self.web_addr.deep_view(),
            iroh: self.iroh.deep_view(),
            iroh_port: self.iroh_port.deep_view(),
            s2s_peers: self.s2s_peers.deep_view(),
            s2s_allowed_peers: self.s2s_allowed_peers.deep_view(),
            s2s_peer_trust: self.s2s_peer_trust.deep_view(),
            server_did: self.server_did.deep_view(),
            data_dir: self.data_dir.deep_view(),
            max_messages_per_channel: self.max_messages_per_channel.deep_view(),
            motd: self.motd.deep_view(),
            motd_file: self.motd_file.deep_view(),
            web_static_dir: self.web_static_dir.deep_view(),
            plugins: self.plugins.deep_view(),
            plugin_dir: self.plugin_dir.deep_view(),
            require_did_for_ops: self.require_did_for_ops.deep_view(),
            github_client_id: self.github_client_id.deep_view(),
            github_client_secret: self.github_client_secret.deep_view(),
            broker_shared_secret: self.broker_shared_secret.deep_view(),
            oper_password: self.oper_password.deep_view(),
            oper_dids: self.oper_dids.deep_view(),
        }
    }
}

/// The configuration without any option given.
pub open spec fn default_config() -> ServerConfigView {
    ServerConfigView {
        listen_addr: "127.0.0.1:6667"@,
        tls_listen_addr: "127.0.0.1:6697"@,
        tls_cert: None,
        tls_key: None,
        server_name: "freeq"@,
        challenge_timeout_secs: 60,
        db_path: None,
        web_addr: None,
        iroh: false,
        iroh_port: None,
        s2s_peers: Seq::empty(),
        s2s_allowed_peers: Seq::empty(),
        s2s_peer_trust: Seq::empty(),
        server_did: None,
        data_dir: None,
        max_messages_per_channel: 10000,
        motd: None,
        motd_file: None,
        web_static_dir: None,
        plugins: Seq::empty(),
        plugin_dir: None,
        require_did_for_ops: false,
        github_client_id: None,
        github_client_secret: None,
        broker_shared_secret: None,
        oper_password: None,
        oper_dids: Seq::empty(),
    }
}

/// An empty list.
fn no_entries() -> (r: Vec<String>)
    ensures
        r.deep_view() == Seq::<Seq<char>>::empty(),
{
    let r: Vec<String> = Vec::new();
    assert(r.deep_view() =~= Seq::<Seq<char>>::empty());
    r
}

impl Default for ServerConfig {
    fn default() -> (c: ServerConfig)
        ensures
            c.deep_view() == default_config(),
    {
        ServerConfig {
            listen_addr: "127.0.0.1:6667".to_owned(),
            tls_listen_addr: "127.0.0.1:6697".to_owned(),
            tls_cert: None,
            tls_key: None,
            server_name: "freeq".to_owned(),
            challenge_timeout_secs: 60,
            db_path: None,
            web_addr: None,
            iroh: false,
            iroh_port: None,
            s2s_peers: no_entries(),
            s2s_allowed_peers: no_entries(),
            s2s_peer_trust: no_entries(),
            server_did: None,
            data_dir: None,
            max_messages_per_channel: 10000,
            motd: None,
            motd_file: None,
            web_static_dir: None,
            plugins: no_entries(),
            plugin_dir: None,
            require_did_for_ops: false,
            github_client_id: None,
            github_client_secret: None,
            broker_shared_secret: None,
            oper_password: None,
            oper_dids: no_entries(),
        }
    }
}

/// A path below a directory.
pub open spec fn below(dir: Seq<char>, path: Seq<char>) -> Seq<char> {
    if dir.len() == 0 || dir.last() == '/' {
        dir + path
    } else {
        dir + "/"@ + path
    }
}

/// A path below a directory.
fn join_path(dir: &str, path: &str) -> (r: String)
    ensures
        r@ == below(dir@, path@),
{
    if text::is_empty(dir) || ends_with_char(dir, '/') {
        Line::new(dir).add(path).done()
    } else {
        Line::new(dir).add("/").add(path).done()
    }
}

/// The directory for state files: the one that is set, or that of the database, or the `freeq`
/// directory below the platform's own, or the current one. `db_parent` is the directory part of the
/// path of the database.
pub open spec fn data_dir_spec(
    c: ServerConfigView,
    db_parent: Option<Seq<char>>,
    platform: Option<Seq<char>>,
) -> Seq<char> {
    match c.data_dir {
        Some(dir) => dir,
        None => match c.db_path {
            Some(_) => text::or_default(db_parent, "."@),
            None => match platform {
                Some(p) => below(p, "freeq"@),
                None => "."@,
            },
        },
    }
}

/// The platform's own directory for state: the one that is set, unless it is empty, or
/// `.local/state` below the home directory.
pub open spec fn state_dir_spec(
    xdg_state_home: Option<Seq<char>>,
    home: Option<Seq<char>>,
) -> Option<Seq<char>> {
    if xdg_state_home is Some && xdg_state_home->0.len() > 0 {
        xdg_state_home
    } else {
        match home {
            Some(h) => Some(below(h, ".local/state"@)),
            None => None,
        }
    }
}

/// The platform's own directory for state, from the environment.
pub fn platform_state_dir(xdg_state_home: Option<&str>, home: Option<&str>) -> (r: Option<String>)
    ensures
        r.deep_view() == state_dir_spec(xdg_state_home.deep_view(), home.deep_view()),
{
    if let Some(x) = xdg_state_home {
        if !text::is_empty(x) {
            return Some(x.to_owned());
        }
    }
    match home {
        Some(h) => Some(join_path(h, ".local/state")),
        None => None,
    }
}

impl ServerConfig {
    /// Returns true if TLS is configured.
    pub fn tls_enabled(&self) -> (b: bool)
        ensures
            b == (self.deep_view().tls_cert is Some && self.deep_view().tls_key is Some),
    {
        self.tls_cert.is_some() && self.tls_key.is_some()
    }

    /// Resolve the data directory for state files.
    /// Priority: `data_dir` > parent of `db_path` > platform state dir > CWD.
    pub fn data_dir(&self, db_parent: Option<&str>, platform: Option<&str>) -> (r: String)
        ensures
            r@ == data_dir_spec(self.deep_view(), db_parent.deep_view(), platform.deep_view()),
    {
        match &self.data_dir {
            Some(dir) => dir.clone(),
            None => match &self.db_path {
                Some(_) => match db_parent {
                    Some(p) => p.to_owned(),
                    None => ".".to_owned(),
                },
                None => match platform {
                    Some(p) => join_path(p, "freeq"),
                    None => ".".to_owned(),
                },
            },
        }
    }
}

/// The data directory is the one that is configured, else that of the database, else a directory of
/// its own where the platform keeps such things, else the current one.
pub proof fn law_data_directory_goes_by_what_is_known(
    c: ServerConfigView,
    db_parent: Option<Seq<char>>,
    platform: Option<Seq<char>>,
)
    ensures
        ({
            let d = data_dir_spec(c, db_parent, platform);
            &&& c.data_dir is Some ==> d == c.data_dir->0
            &&& c.data_dir is None && c.db_path is Some && db_parent is Some ==> d == db_parent->0
            &&& c.data_dir is None && c.db_path is Some && db_parent is None ==> d == "."@
            &&& c.data_dir is None && c.db_path is None && platform is None ==> d == "."@
            &&& c.data_dir is None && c.db_path is None && platform is Some && platform->0.len() > 0 && platform->0.last() != '/' ==> d
                == platform->0 + "/"@ + "freeq"@
            &&& c.data_dir is None && c.db_path is None && platform is Some && platform->0.len() > 0 && platform->0.last() == '/' ==> d
                == platform->0 + "freeq"@
        }),
{
}

/// Where state is kept is what the environment says, unless that is empty, else a place below the home
/// directory; without a home it is nowhere.
pub proof fn law_state_directory_goes_by_the_environment(xdg: Option<Seq<char>>, home: Option<Seq<char>>)
    ensures
        ({
            let named = xdg is Some && xdg->0.len() > 0;
            &&& named ==> state_dir_spec(xdg, home) == xdg
            &&& !named && home is None ==> state_dir_spec(xdg, home) is None
            &&& !named && home is Some && home->0.len() > 0 && home->0.last() != '/' ==> state_dir_spec(xdg, home) == Some(
                home->0 + "/"@ + ".local/state"@,
            )
        }),
{
}

} // verus!
