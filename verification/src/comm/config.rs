//! The settings of a component.

use vstd::prelude::*;

use crate::comm::error::{PnosError, SdkError};
use crate::numbers::{decimal, to_decimal};
use crate::text::{
    begins_with, concat, occurs_in, replace_first, replaced_once, starts_with, trim_end_char,
    without_trailing,
};
use crate::time::{secs, Duration};

verus! {

/// The settings of a component.
#[derive(Debug, Clone)]
pub struct SdkConfig {
    /// Where the runtime is.
    pub runtime_url: String,
    /// Id of the component.
    pub app_id: String,
    /// Its version.
    pub version: String,
    /// Port that it listens on.
    pub port: u16,
    /// Path of its health check.
    pub health_check_path: String,
    /// Root path of its web pages, if it has any.
    pub web_path: Option<String>,
    /// Ids of the components that it needs.
    pub dependencies: Vec<String>,
    /// Whether heartbeats are sent by themselves.
    pub auto_heartbeat: bool,
    /// Time between two heartbeats.
    pub heartbeat_interval: Duration,
    /// How long a found address is good.
    pub discovery_cache_ttl: Duration,
    /// How long a request may take.
    pub http_timeout: Duration,
    /// How often a call is made again.
    pub call_retries: u32,
    /// How long a registration is tried.
    pub register_retry_timeout: Duration,
    /// How long the shutdown may take.
    pub graceful_shutdown_timeout: Duration,
}

/// The runtime's port where nothing is said of it.
pub const DEFAULT_RUNTIME_PORT: u16 = 8080;

/// The URL of a runtime on this machine.
pub open spec fn local_url(port: u16) -> Seq<char> {
    "http://127.0.0.1:"@ + decimal(port as nat)
}

/// The base of the runtime's API.
pub open spec fn api_base_of(runtime_url: Seq<char>) -> Seq<char> {
    without_trailing(runtime_url, '/') + "/api/v1"@
}

/// The URL of the runtime's event connection.
pub open spec fn ws_url_of(runtime_url: Seq<char>) -> Seq<char> {
    let base = without_trailing(runtime_url, '/');
    (if begins_with(base, "https://"@) {
        replaced_once(base, "https://"@, "wss://"@)
    } else {
        replaced_once(base, "http://"@, "ws://"@)
    }) + "/api/v1/ws"@
}

impl SdkConfig {
    /// The settings that hold where nothing else is said.
    pub open spec fn is_default_for(self, app_id: Seq<char>, runtime_url: Seq<char>) -> bool {
        &&& self.runtime_url@ == runtime_url
        &&& self.app_id@ == app_id
        &&& self.version@ == "0.1.0"@
        &&& self.port == 18080
        &&& self.health_check_path@ == "/health"@
        &&& self.web_path is Some && self.web_path->0@ == "/"@
        &&& self.dependencies@.len() == 0
        &&& self.auto_heartbeat
        &&& self.heartbeat_interval@ == secs(15)
        &&& self.discovery_cache_ttl@ == secs(30)
        &&& self.http_timeout@ == secs(30)
        &&& self.call_retries == 2
        &&& self.register_retry_timeout@ == secs(30)
        &&& self.graceful_shutdown_timeout@ == secs(10)
    }

    /// The default settings, with the runtime's address that the environment
    /// gives. Without one it is this machine, at the port that the system's own
    /// settings give; where those could not be read, there are no settings.
    pub fn from_env(
        app_id: &str,
        runtime_port: Result<u16, PnosError>,
        runtime_url: Option<String>,
    ) -> (r: Result<Self, SdkError>)
        ensures
            runtime_port is Ok ==> r is Ok && r->Ok_0.runtime_url@ == first_given(
                None,
                runtime_url,
                local_url(runtime_port->Ok_0),
            ),
            match runtime_port {
                Ok(port) => r is Ok && r->Ok_0.is_default_for(
                    app_id@,
                    match runtime_url {
                        Some(u) => u@,
                        None => local_url(port),
                    },
                ),
                Err(e) => r == Err::<SdkConfig, SdkError>(SdkError::Business(e)),
            },
    {
        let port = match runtime_port {
            Ok(port) => port,
            Err(e) => return Err(SdkError::Business(e)),
        };
        Ok(SdkConfig {
            runtime_url: match runtime_url {
                Some(u) => u,
                None => concat("http://127.0.0.1:", to_decimal(port as u64).as_str()),
            },
            app_id: app_id.to_owned(),
            version: "0.1.0".to_owned(),
            port: 18080,
            health_check_path: "/health".to_owned(),
            web_path: Some("/".to_owned()),
            dependencies: Vec::new(),
            auto_heartbeat: true,
            heartbeat_interval: Duration::from_secs(15),
            discovery_cache_ttl: Duration::from_secs(30),
            http_timeout: Duration::from_secs(30),
            call_retries: 2,
            register_retry_timeout: Duration::from_secs(30),
            graceful_shutdown_timeout: Duration::from_secs(10),
        })
    }

    /// The base of the runtime's API.
    pub fn api_base(&self) -> (r: String)
        ensures
            r@ == api_base_of(self.runtime_url@),
    {
        concat(trim_end_char(self.runtime_url.as_str(), '/').as_str(), "/api/v1")
    }

    /// The URL of the runtime's event connection.
    pub fn ws_url(&self) -> (r: String)
        ensures
            r@ == ws_url_of(self.runtime_url@),
    {
        let base = trim_end_char(self.runtime_url.as_str(), '/');
        let ws_base = if starts_with(base.as_str(), "https://") {
            replace_first(base.as_str(), "https://", "wss://")
        } else {
            replace_first(base.as_str(), "http://", "ws://")
        };
        concat(ws_base.as_str(), "/api/v1/ws")
    }
}

/// The directories and the address of the runtime that a process works with.
#[derive(Debug, Clone)]
pub struct Locations {
    pub runtime_url: String,
    pub data_dir: String,
    pub media_dir: String,
}

impl Locations {
    /// The locations, from what the caller and the environment give. What the
    /// caller gives comes first.
    pub fn load(
        runtime_url_override: Option<String>,
        env_runtime_url: Option<String>,
        env_data_dir: Option<String>,
        env_media_dir: Option<String>,
    ) -> (r: Self)
        ensures
            r.runtime_url@ == first_given(
                runtime_url_override,
                env_runtime_url,
                "http://127.0.0.1:8080"@,
            ),
            r.data_dir@ == first_given(None, env_data_dir, "/pnos/data/apps"@),
            r.media_dir@ == first_given(None, env_media_dir, "/pnos/media"@),
            r.runtime_url@ == match (runtime_url_override, env_runtime_url) {
                (Some(u), _) => u@,
                (None, Some(u)) => u@,
                (None, None) => "http://127.0.0.1:8080"@,
            },
            r.data_dir@ == match env_data_dir {
                Some(d) => d@,
                None => "/pnos/data/apps"@,
            },
            r.media_dir@ == match env_media_dir {
                Some(d) => d@,
                None => "/pnos/media"@,
            },
    {
        Locations {
            runtime_url: match runtime_url_override {
                Some(u) => u,
                None => match env_runtime_url {
                    Some(u) => u,
                    None => "http://127.0.0.1:8080".to_owned(),
                },
            },
            data_dir: match env_data_dir {
                Some(d) => d,
                None => "/pnos/data/apps".to_owned(),
            },
            media_dir: match env_media_dir {
                Some(d) => d,
                None => "/pnos/media".to_owned(),
            },
        }
    }
}

/// The part of `s` before the trailing run of `c` does not end with `c`, and `s`
/// begins with it.
pub proof fn lemma_without_trailing(s: Seq<char>, c: char)
    ensures
        without_trailing(s, c).is_prefix_of(s),
        without_trailing(s, c).len() > 0 ==> without_trailing(s, c).last() != c,
    decreases s.len(),
{
    if s.len() > 0 && s.last() == c {
        lemma_without_trailing(s.drop_last(), c);
    }
}

/// Slashes at the end of the runtime's address make no difference.
pub proof fn lemma_trailing_slashes_do_not_matter(url: Seq<char>)
    ensures
        api_base_of(url.push('/')) == api_base_of(url),
        ws_url_of(url.push('/')) == ws_url_of(url),
{
    assert(url.push('/').drop_last() =~= url);
}

/// The event connection is encrypted exactly where the runtime's address is, and
/// leads to the same host.
pub proof fn lemma_ws_url_keeps_host(url: Seq<char>, rest: Seq<char>)
    ensures
        without_trailing(url, '/') == "https://"@ + rest ==> ws_url_of(url) == "wss://"@ + rest
            + "/api/v1/ws"@,
        without_trailing(url, '/') == "http://"@ + rest ==> ws_url_of(url) == "ws://"@ + rest
            + "/api/v1/ws"@,
{
    let base = without_trailing(url, '/');
    let https = "https://"@;
    let http = "http://"@;
    reveal_strlit("https://");
    reveal_strlit("http://");
    if base == https + rest {
        assert(base.take(https.len() as int) =~= https);
        assert(base.skip(https.len() as int) =~= rest);
        assert(ws_url_of(url) =~= "wss://"@ + rest + "/api/v1/ws"@);
    }
    if base == http + rest {
        assert(base.take(http.len() as int) =~= http);
        assert(base.skip(http.len() as int) =~= rest);
        assert(base[4] == ':');
        if begins_with(base, https) {
            assert(base.take(https.len() as int)[4] == https[4]);
        }
        assert(ws_url_of(url) =~= "ws://"@ + rest + "/api/v1/ws"@);
    }
}

/// The first of two texts that is given, or the last resort.
pub open spec fn first_given(
    first: Option<String>,
    second: Option<String>,
    otherwise: Seq<char>,
) -> Seq<char> {
    match (first, second) {
        (Some(t), _) => t@,
        (None, Some(t)) => t@,
        (None, None) => otherwise,
    }
}

/// What is set wins over the environment, and the environment over the default.
pub proof fn lemma_what_is_set_wins(a: String, b: Option<String>, c: String, d: Seq<char>)
    ensures
        first_given(Some(a), b, d) == a@,
        first_given(None, Some(c), d) == c@,
        first_given(None, None, d) == d,
{
}

/// The settings of which nothing was set, with their waits in nanoseconds.
pub proof fn lemma_default_settings(c: SdkConfig, app_id: Seq<char>, url: Seq<char>)
    requires
        c.is_default_for(app_id, url),
    ensures
        c.app_id@ == app_id && c.runtime_url@ == url,
        c.port == 18080 && c.auto_heartbeat && c.call_retries == 2,
        c.version@ == "0.1.0"@ && c.health_check_path@ == "/health"@,
        c.web_path is Some && c.web_path->0@ == "/"@ && c.dependencies@.len() == 0,
        c.heartbeat_interval@ == 15_000_000_000,
        c.discovery_cache_ttl@ == 30_000_000_000,
        c.http_timeout@ == 30_000_000_000,
        c.register_retry_timeout@ == 30_000_000_000,
        c.graceful_shutdown_timeout@ == 10_000_000_000,
{
}

/// An address that ends in no slash has the path of the interface put behind it, and so
/// has one that ends in slashes, without them.
pub proof fn lemma_api_base_is_behind_the_address(url: Seq<char>)
    requires
        url.len() > 0,
        url.last() != '/',
    ensures
        api_base_of(url) == url + "/api/v1"@,
        api_base_of(url.push('/')) == url + "/api/v1"@,
        api_base_of(url.push('/').push('/')) == url + "/api/v1"@,
{
    lemma_trailing_slashes_do_not_matter(url);
    lemma_trailing_slashes_do_not_matter(url.push('/'));
}

/// The address of a runtime on this machine names the port that it is given, and no
/// other port has the same address.
pub proof fn lemma_local_addresses_differ(p: u16, q: u16)
    ensures
        local_url(p) == "http://127.0.0.1:"@ + decimal(p as nat),
        p != q ==> local_url(p) != local_url(q),
{
    if local_url(p) == local_url(q) {
        let n = "http://127.0.0.1:"@.len() as int;
        assert(local_url(p).skip(n) =~= decimal(p as nat));
        assert(local_url(q).skip(n) =~= decimal(q as nat));
        crate::numbers::lemma_decimal_round_trip(p as nat, 65535);
        crate::numbers::lemma_decimal_round_trip(q as nat, 65535);
    }
}

/// An address of neither kind is left as it is before the path of the socket.
pub proof fn lemma_other_addresses_are_kept(url: Seq<char>)
    requires
        url.len() > 0,
        url.last() != '/',
        !occurs_in(url, "http://"@),
        !begins_with(url, "https://"@),
    ensures
        ws_url_of(url) == url + "/api/v1/ws"@,
{
    crate::text::lemma_nothing_to_replace(url, "http://"@, "ws://"@);
}

} // verus!
