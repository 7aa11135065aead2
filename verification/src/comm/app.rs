//! Building and starting a component.

use vstd::prelude::*;

use crate::comm::config::{local_url, SdkConfig};
use crate::comm::error::{PnosError, SdkError};
use crate::comm::registry::{ComponentType, Family};
use crate::text::texts;
use crate::time::{secs, Duration};

verus! {

/// What a component is made of; its routes and handlers are elsewhere, under the
/// positions of their paths and patterns.
#[derive(Debug)]
pub struct PnosAppBuilder {
    /// Under which name the runtime keeps the component.
    pub family: Family,
    pub app_id: String,
    pub version: String,
    pub component_type: ComponentType,
    pub port: u16,
    pub runtime_url: Option<String>,
    pub health_check_path: String,
    pub web_path: Option<String>,
    pub dependencies: Vec<String>,
    pub capabilities: Vec<String>,
    pub region: Option<String>,
    pub hostname: Option<String>,
    pub platform: Option<String>,
    pub arch: Option<String>,
    pub max_concurrent: Option<u32>,
    pub max_bandwidth_bps: Option<u64>,
    pub auto_heartbeat: bool,
    pub graceful_shutdown_timeout: Option<Duration>,
    /// Paths of the routes.
    pub routes: Vec<String>,
    /// Patterns of the event handlers.
    pub event_patterns: Vec<String>,
}

impl PnosAppBuilder {
    /// What a component is made of where nothing else is said.
    pub open spec fn is_default_for(self, family: Family, app_id: Seq<char>) -> bool {
        &&& self.family == family
        &&& self.app_id@ == app_id
        &&& self.version@ == if family is Components {
            "1.0.0"@
        } else {
            "0.1.0"@
        }
        &&& self.component_type is App
        &&& self.port == 18080
        &&& self.runtime_url is None
        &&& self.health_check_path@ == "/health"@
        &&& self.web_path is Some && self.web_path->0@ == "/"@
        &&& self.dependencies@.len() == 0
        &&& self.capabilities@.len() == 0
        &&& self.region is None
        &&& self.hostname is None
        &&& self.platform is None
        &&& self.arch is None
        &&& self.max_concurrent is None
        &&& self.max_bandwidth_bps is None
        &&& self.auto_heartbeat
        &&& self.graceful_shutdown_timeout is None
        &&& self.routes@.len() == 0
        &&& self.event_patterns@.len() == 0
    }

    /// Begins a component with the given id.
    pub fn new(app_id: &str) -> (r: Self)
        ensures
            r.is_default_for(Family::Components, app_id@),
    {
        Self::with_family(Family::Components, app_id)
    }

    /// Begins an app with the given id, which registers among the apps.
    pub fn new_app(app_id: &str) -> (r: Self)
        ensures
            r.is_default_for(Family::Apps, app_id@),
    {
        Self::with_family(Family::Apps, app_id)
    }

    fn with_family(family: Family, app_id: &str) -> (r: Self)
        ensures
            r.is_default_for(family, app_id@),
    {
        PnosAppBuilder {
            family,
            app_id: app_id.to_owned(),
            version: match family {
                Family::Components => "1.0.0".to_owned(),
                Family::Apps => "0.1.0".to_owned(),
            },
            component_type: ComponentType::App,
            port: 18080,
            runtime_url: None,
            health_check_path: "/health".to_owned(),
            web_path: Some("/".to_owned()),
            dependencies: Vec::new(),
            capabilities: Vec::new(),
            region: None,
            hostname: None,
            platform: None,
            arch: None,
            max_concurrent: None,
            max_bandwidth_bps: None,
            auto_heartbeat: true,
            graceful_shutdown_timeout: None,
            routes: Vec::new(),
            event_patterns: Vec::new(),
        }
    }

    /// Sets the version.
    pub fn version(self, v: String) -> (r: Self)
        ensures
            r == (PnosAppBuilder { version: v, ..self }),
    {
        let mut s = self;
        s.version = v;
        s
    }

    /// Sets what the component is.
    pub fn component_type(self, component_type: ComponentType) -> (r: Self)
        ensures
            r == (PnosAppBuilder { component_type, ..self }),
    {
        let mut s = self;
        s.component_type = component_type;
        s
    }

    /// Sets the port that it listens on.
    pub fn port(self, port: u16) -> (r: Self)
        ensures
            r == (PnosAppBuilder { port, ..self }),
    {
        let mut s = self;
        s.port = port;
        s
    }

    /// Sets where the runtime is.
    pub fn runtime_url(self, url: String) -> (r: Self)
        ensures
            r == (PnosAppBuilder { runtime_url: Some(url), ..self }),
    {
        let mut s = self;
        s.runtime_url = Some(url);
        s
    }

    /// Sets the path of the health check.
    pub fn health_check_path(self, path: String) -> (r: Self)
        ensures
            r == (PnosAppBuilder { health_check_path: path, ..self }),
    {
        let mut s = self;
        s.health_check_path = path;
        s
    }

    /// Sets the root path of the web pages.
    pub fn web_path(self, path: String) -> (r: Self)
        ensures
            r == (PnosAppBuilder { web_path: Some(path), ..self }),
    {
        let mut s = self;
        s.web_path = Some(path);
        s
    }

    /// Adds a component that this one needs.
    pub fn dependency(self, dep: String) -> (r: Self)
        ensures
            r.dependencies@ == self.dependencies@.push(dep),
            r == (PnosAppBuilder { dependencies: r.dependencies, ..self }),
    {
        let mut s = self;
        s.dependencies.push(dep);
        s
    }

    /// Adds something that the component can do.
    pub fn capability(self, capability: String) -> (r: Self)
        ensures
            r.capabilities@ == self.capabilities@.push(capability),
            r == (PnosAppBuilder { capabilities: r.capabilities, ..self }),
    {
        let mut s = self;
        s.capabilities.push(capability);
        s
    }

    /// Sets the region.
    pub fn region(self, region: String) -> (r: Self)
        ensures
            r == (PnosAppBuilder { region: Some(region), ..self }),
    {
        let mut s = self;
        s.region = Some(region);
        s
    }

    /// Sets what is known of the host.
    pub fn host_info(self, hostname: String, platform: String, arch: String) -> (r: Self)
        ensures
            r == (PnosAppBuilder {
                hostname: Some(hostname),
                platform: Some(platform),
                arch: Some(arch),
                ..self
            }),
    {
        let mut s = self;
        s.hostname = Some(hostname);
        s.platform = Some(platform);
        s.arch = Some(arch);
        s
    }

    /// Sets the limits of tasks and bandwidth.
    pub fn limits(self, max_concurrent: u32, max_bandwidth_bps: u64) -> (r: Self)
        ensures
            r == (PnosAppBuilder {
                max_concurrent: Some(max_concurrent),
                max_bandwidth_bps: Some(max_bandwidth_bps),
                ..self
            }),
    {
        let mut s = self;
        s.max_concurrent = Some(max_concurrent);
        s.max_bandwidth_bps = Some(max_bandwidth_bps);
        s
    }

    /// Sends no heartbeats by itself.
    pub fn no_auto_heartbeat(self) -> (r: Self)
        ensures
            r == (PnosAppBuilder { auto_heartbeat: false, ..self }),
    {
        let mut s = self;
        s.auto_heartbeat = false;
        s
    }

    /// Sets how long the shutdown may take.
    pub fn graceful_shutdown_timeout(self, timeout: Duration) -> (r: Self)
        ensures
            r == (PnosAppBuilder { graceful_shutdown_timeout: Some(timeout), ..self }),
    {
        let mut s = self;
        s.graceful_shutdown_timeout = Some(timeout);
        s
    }

    /// Adds a route.
    pub fn route(self, path: String) -> (r: Self)
        ensures
            r.routes@ == self.routes@.push(path),
            r == (PnosAppBuilder { routes: r.routes, ..self }),
    {
        let mut s = self;
        s.routes.push(path);
        s
    }

    /// Adds an event handler.
    pub fn on_event(self, pattern: String) -> (r: Self)
        ensures
            r.event_patterns@ == self.event_patterns@.push(pattern),
            r == (PnosAppBuilder { event_patterns: r.event_patterns, ..self }),
    {
        let mut s = self;
        s.event_patterns.push(pattern);
        s
    }

    /// Whether these are the settings of the component: the default ones, what was
    /// set here, and the runtime's address that was set here, that the environment
    /// gives, or that follows from the port.
    pub open spec fn resolves_to(
        self,
        r: SdkConfig,
        port: u16,
        env_runtime_url: Option<String>,
    ) -> bool {
        &&& r.app_id@ == self.app_id@
        &&& r.version@ == self.version@
        &&& r.port == self.port
        &&& r.health_check_path@ == self.health_check_path@
        &&& same_option(r.web_path, self.web_path)
        &&& texts(r.dependencies@) == texts(self.dependencies@)
        &&& r.auto_heartbeat == self.auto_heartbeat
        &&& r.runtime_url@ == match (self.runtime_url, env_runtime_url) {
            (Some(u), _) => u@,
            (None, Some(u)) => u@,
            (None, None) => local_url(port),
        }
        &&& r.heartbeat_interval@ == secs(15)
        &&& r.discovery_cache_ttl@ == secs(30)
        &&& r.http_timeout@ == secs(30)
        &&& r.call_retries == 2
        &&& r.register_retry_timeout@ == secs(30)
        &&& match self.graceful_shutdown_timeout {
            Some(t) => r.graceful_shutdown_timeout == t,
            None => r.graceful_shutdown_timeout@ == secs(10),
        }
    }

    /// The settings of the component; there are none where the system's own could
    /// not be read.
    pub fn resolve_config(
        &self,
        runtime_port: Result<u16, PnosError>,
        env_runtime_url: Option<String>,
    ) -> (r: Result<SdkConfig, SdkError>)
        ensures
            match runtime_port {
                Ok(port) => r is Ok && self.resolves_to(r->Ok_0, port, env_runtime_url),
                Err(e) => r == Err::<SdkConfig, SdkError>(SdkError::Business(e)),
            },
    {
        let mut config = match SdkConfig::from_env(
            self.app_id.as_str(),
            runtime_port,
            env_runtime_url,
        ) {
            Ok(c) => c,
            Err(e) => return Err(e),
        };
        config.version = self.version.clone();
        config.port = self.port;
        config.health_check_path = self.health_check_path.clone();
        config.web_path = copied_option(&self.web_path);
        config.dependencies = copied_strings(&self.dependencies);
        config.auto_heartbeat = self.auto_heartbeat;
        if let Some(url) = &self.runtime_url {
            config.runtime_url = url.clone();
        }
        if let Some(t) = self.graceful_shutdown_timeout {
            config.graceful_shutdown_timeout = t;
        }
        Ok(config)
    }

    /// The id to register under: the one that was kept from an earlier run, or the
    /// one that was given.
    pub fn component_id(&self, kept: Option<&str>) -> (r: String)
        ensures
            r@ == id_for(self.app_id@, match kept {
                Some(k) => Some(k@),
                None => None,
            }),
            r@ == match kept {
                Some(k) => k@,
                None => self.app_id@,
            },
    {
        match kept {
            Some(k) => k.to_owned(),
            None => self.app_id.clone(),
        }
    }

    /// Whether this is the request to register under an id.
    pub open spec fn registers_as(&self, id: Seq<char>, r: RegisterRequest) -> bool {
        &&& r.id@ == id
        &&& r.name@ == id
        &&& r.version@ == self.version@
        &&& r.component_type == self.component_type
        &&& r.port == self.port
        &&& r.health_check_path@ == self.health_check_path@
        &&& same_option(r.web_path, self.web_path)
        &&& texts(r.dependencies@) == texts(self.dependencies@)
        &&& texts(r.capabilities@) == texts(self.capabilities@)
    }

    /// What the runtime is told of the component.
    pub fn register_request(&self, component_id: &str) -> (r: RegisterRequest)
        ensures
            self.registers_as(component_id@, r),
            r.id@ == component_id@,
            r.name@ == component_id@,
            r.version@ == self.version@,
            r.component_type == self.component_type,
            r.port == self.port,
            r.serve_host is None,
            r.serve_port is None,
            r.labels@.len() == 0,
            texts(r.capabilities@) == texts(self.capabilities@),
            same_option(r.region, self.region),
            same_option(r.hostname, self.hostname),
            same_option(r.platform, self.platform),
            same_option(r.arch, self.arch),
            r.max_concurrent == self.max_concurrent,
            r.max_bandwidth_bps == self.max_bandwidth_bps,
            r.health_check_path@ == self.health_check_path@,
            same_option(r.web_path, self.web_path),
            texts(r.dependencies@) == texts(self.dependencies@),
    {
        RegisterRequest {
            id: component_id.to_owned(),
            name: component_id.to_owned(),
            version: self.version.clone(),
            component_type: self.component_type,
            port: self.port,
            serve_host: None,
            serve_port: None,
            labels: Vec::new(),
            capabilities: copied_strings(&self.capabilities),
            region: copied_option(&self.region),
            hostname: copied_option(&self.hostname),
            platform: copied_option(&self.platform),
            arch: copied_option(&self.arch),
            max_concurrent: self.max_concurrent,
            max_bandwidth_bps: self.max_bandwidth_bps,
            health_check_path: self.health_check_path.clone(),
            web_path: copied_option(&self.web_path),
            dependencies: copied_strings(&self.dependencies),
        }
    }

    /// The steps by which the component is started, in order.
    pub fn init(&self) -> (r: Vec<InitStep>)
        ensures
            r@ == init_steps(self.family, self.auto_heartbeat, self.event_patterns@.len()),
    {
        let ghost n = self.event_patterns@.len();
        let ghost head = init_head(self.family) + (if self.auto_heartbeat {
            seq![InitStep::StartHeartbeat]
        } else {
            Seq::empty()
        }) + seq![InitStep::StartWebSocket, InitStep::StartDispatcher];
        let mut out: Vec<InitStep> = Vec::new();
        out.push(InitStep::InitLogging);
        out.push(InitStep::LoadConfig);
        match self.family {
            Family::Components => {
                out.push(InitStep::EnsureDataDir);
                out.push(InitStep::BuildHttpClient);
                out.push(InitStep::OpenCheckpoints);
                out.push(InitStep::LoadComponentId);
                out.push(InitStep::Register);
                out.push(InitStep::KeepToken);
                out.push(InitStep::SetReady);
                out.push(InitStep::SaveComponentId);
            },
            Family::Apps => {
                out.push(InitStep::BuildHttpClient);
                out.push(InitStep::Register);
                out.push(InitStep::KeepToken);
            },
        }
        if self.auto_heartbeat {
            out.push(InitStep::StartHeartbeat);
        }
        out.push(InitStep::StartWebSocket);
        out.push(InitStep::StartDispatcher);
        proof {
            assert(out@ =~= head);
            assert(head + handler_steps(0) =~= head);
        }
        let mut i: usize = 0;
        while i < self.event_patterns.len()
            invariant
                n == self.event_patterns@.len(),
                i <= n,
                out@ == head + handler_steps(i as nat),
            decreases n - i,
        {
            out.push(InitStep::AddHandler(i));
            i = i + 1;
            proof {
                assert(out@ =~= head + handler_steps(i as nat));
            }
        }
        out.push(InitStep::RegisterShutdown);
        proof {
            assert(out@ =~= init_steps(self.family, self.auto_heartbeat, n));
        }
        out
    }
}

/// Whether two optional strings read the same.
pub open spec fn same_option(a: Option<String>, b: Option<String>) -> bool {
    match (a, b) {
        (Some(x), Some(y)) => x@ == y@,
        (None, None) => true,
        _ => false,
    }
}

fn copied_option(s: &Option<String>) -> (r: Option<String>)
    ensures
        same_option(r, *s),
{
    match s {
        Some(x) => Some(x.clone()),
        None => None,
    }
}

fn copied_strings(v: &Vec<String>) -> (r: Vec<String>)
    ensures
        texts(r@) == texts(v@),
{
    let mut out: Vec<String> = Vec::new();
    let mut i: usize = 0;
    while i < v.len()
        invariant
            i <= v@.len(),
            out@.len() == i,
            forall|j: int| 0 <= j < i ==> (#[trigger] out@[j])@ == v@[j]@,
        decreases v@.len() - i,
    {
        out.push(v[i].clone());
        i = i + 1;
    }
    proof {
        assert(texts(out@) =~= texts(v@));
    }
    out
}

/// What the runtime is told of a component.
#[derive(Debug)]
pub struct RegisterRequest {
    pub id: String,
    pub name: String,
    pub version: String,
    pub component_type: ComponentType,
    pub port: u16,
    /// Where it is served, where that is not its own host and port.
    pub serve_host: Option<String>,
    pub serve_port: Option<u16>,
    pub labels: Vec<String>,
    pub capabilities: Vec<String>,
    pub region: Option<String>,
    pub hostname: Option<String>,
    pub platform: Option<String>,
    pub arch: Option<String>,
    pub max_concurrent: Option<u32>,
    pub max_bandwidth_bps: Option<u64>,
    pub health_check_path: String,
    pub web_path: Option<String>,
    pub dependencies: Vec<String>,
}

/// A step by which a component is started.
#[derive(Debug, Clone, Copy, PartialEq, Eq, Structural)]
pub enum InitStep {
    InitLogging,
    /// Read the settings.
    LoadConfig,
    EnsureDataDir,
    BuildHttpClient,
    /// Open the store of checkpoints; where that fails, one in memory.
    OpenCheckpoints,
    /// Read the id that was kept from an earlier run.
    LoadComponentId,
    /// Register: a component again and again until the limit of time, an app once.
    Register,
    /// Keep the token that the registration gave.
    KeepToken,
    /// Answer readiness checks with success.
    SetReady,
    /// Keep the id for later runs.
    SaveComponentId,
    StartHeartbeat,
    StartWebSocket,
    StartDispatcher,
    /// Want the events of the handler at this position, and hand them to it.
    AddHandler(usize),
    /// See to it that the component is unregistered at the end.
    RegisterShutdown,
}

/// The steps up to the heartbeat. A component keeps its id and its checkpoints
/// and answers readiness checks; an app does none of these.
pub open spec fn init_head(family: Family) -> Seq<InitStep> {
    match family {
        Family::Components => seq![
            InitStep::InitLogging,
            InitStep::LoadConfig,
            InitStep::EnsureDataDir,
            InitStep::BuildHttpClient,
            InitStep::OpenCheckpoints,
            InitStep::LoadComponentId,
            InitStep::Register,
            InitStep::KeepToken,
            InitStep::SetReady,
            InitStep::SaveComponentId,
        ],
        Family::Apps => seq![
            InitStep::InitLogging,
            InitStep::LoadConfig,
            InitStep::BuildHttpClient,
            InitStep::Register,
            InitStep::KeepToken,
        ],
    }
}

/// The steps for the first `n` handlers.
pub open spec fn handler_steps(n: nat) -> Seq<InitStep> {
    Seq::new(n, |i: int| InitStep::AddHandler(i as usize))
}

/// The steps by which a component with so many handlers is started.
pub open spec fn init_steps(family: Family, auto_heartbeat: bool, handlers: nat) -> Seq<InitStep> {
    (init_head(family) + (if auto_heartbeat {
        seq![InitStep::StartHeartbeat]
    } else {
        Seq::empty()
    }) + seq![InitStep::StartWebSocket, InitStep::StartDispatcher] + handler_steps(handlers)).push(
        InitStep::RegisterShutdown,
    )
}

/// Whether the start goes on.
#[derive(Debug, Clone, Copy, PartialEq, Eq, Structural)]
pub enum InitVerdict {
    Continue,
    Abort,
}

/// Whether the start goes on after a step: without settings, without a client or
/// without a registration it does not.
pub fn on_init_step(step: InitStep, ok: bool) -> (r: InitVerdict)
    ensures
        r == init_verdict(step, ok),
        r == if !ok && (step is LoadConfig || step is BuildHttpClient || step is Register) {
            InitVerdict::Abort
        } else {
            InitVerdict::Continue
        },
{
    if ok {
        return InitVerdict::Continue;
    }
    match step {
        InitStep::LoadConfig => InitVerdict::Abort,
        InitStep::BuildHttpClient => InitVerdict::Abort,
        InitStep::Register => InitVerdict::Abort,
        _ => InitVerdict::Continue,
    }
}

/// Where the registration stands among the steps.
pub open spec fn register_position(family: Family) -> int {
    match family {
        Family::Components => 6,
        Family::Apps => 3,
    }
}

/// A component is ready, beats and listens only after it was registered.
pub proof fn lemma_registered_before_ready(
    family: Family,
    auto_heartbeat: bool,
    handlers: nat,
    i: int,
)
    requires
        0 <= i < init_steps(family, auto_heartbeat, handlers).len(),
        ({
            let s = init_steps(family, auto_heartbeat, handlers)[i];
            s is SetReady || s is StartHeartbeat || s is StartWebSocket || s is KeepToken
                || s is AddHandler
        }),
    ensures
        i > register_position(family),
        init_steps(family, auto_heartbeat, handlers)[register_position(family)]
            == InitStep::Register,
{
}

/// What is done at the end, in order.
#[derive(Debug, Clone, Copy, PartialEq, Eq, Structural)]
pub enum ShutdownStep {
    /// Answer readiness checks with failure.
    SetNotReady,
    CloseWebSocket,
    Unregister,
}

/// What is done at the end, in order; an app answers no readiness checks.
pub open spec fn shutdown_plan(family: Family) -> Seq<ShutdownStep> {
    (if family is Components {
        seq![ShutdownStep::SetNotReady]
    } else {
        Seq::empty()
    }) + seq![ShutdownStep::CloseWebSocket, ShutdownStep::Unregister]
}

/// What is done at the end, in order.
pub fn shutdown_steps(family: Family) -> (r: Vec<ShutdownStep>)
    ensures
        r@ == shutdown_plan(family),
{
    let mut out: Vec<ShutdownStep> = Vec::new();
    if matches!(family, Family::Components) {
        out.push(ShutdownStep::SetNotReady);
    }
    out.push(ShutdownStep::CloseWebSocket);
    out.push(ShutdownStep::Unregister);
    proof {
        assert(out@ =~= shutdown_plan(family));
    }
    out
}

/// How many heartbeats in a row may fail before the component registers anew.
pub const MAX_HEARTBEAT_FAILURES: u32 = 6;

/// What to do after a heartbeat.
#[derive(Debug, Clone, Copy, PartialEq, Eq, Structural)]
pub enum HeartbeatStep {
    /// Wait for the next one.
    Wait,
    /// Register anew, then wait for the next one.
    Reregister,
}

/// How many heartbeats of a component have failed in a row; those of an app are
/// not counted.
#[derive(Debug, Clone, Copy, PartialEq, Eq, Structural)]
pub struct HeartbeatRun {
    pub family: Family,
    pub failures: u32,
}

impl HeartbeatRun {
    /// None has failed.
    pub fn new(family: Family) -> (r: Self)
        ensures
            r.family == family,
            r.failures == 0,
    {
        HeartbeatRun { family, failures: 0 }
    }

    /// A heartbeat was accepted, or not: not sent, refused and answered with a
    /// refusal are the same. From the sixth failure in a row on a component
    /// registers anew; an app never does.
    pub fn on_beat(&mut self, accepted: bool) -> (r: HeartbeatStep)
        requires
            old(self).family is Components && !accepted ==> old(self).failures < u32::MAX,
        ensures
            (final(self).failures as nat, r) == beat_outcome(
                old(self).family,
                old(self).failures as nat,
                accepted,
            ),
            final(self).family == old(self).family,
            final(self).failures as nat == if old(self).family is Components {
                next_failures(old(self).failures as nat, accepted)
            } else {
                old(self).failures as nat
            },
            r == if old(self).family is Components && final(self).failures
                >= MAX_HEARTBEAT_FAILURES {
                HeartbeatStep::Reregister
            } else {
                HeartbeatStep::Wait
            },
    {
        if matches!(self.family, Family::Apps) {
            return HeartbeatStep::Wait;
        }
        if accepted {
            self.failures = 0;
            return HeartbeatStep::Wait;
        }
        self.failures = self.failures + 1;
        if self.failures >= MAX_HEARTBEAT_FAILURES {
            HeartbeatStep::Reregister
        } else {
            HeartbeatStep::Wait
        }
    }

    /// The component registered anew, or could not.
    pub fn on_reregister(&mut self, ok: bool)
        ensures
            final(self).failures as nat == failures_after_reregister(old(self).failures as nat, ok),
            final(self).family == old(self).family,
            final(self).failures == if ok {
                0
            } else {
                old(self).failures
            },
    {
        if ok {
            self.failures = 0;
        }
    }
}

/// How many heartbeats have failed in a row after one more.
pub open spec fn next_failures(failures: nat, accepted: bool) -> nat {
    if accepted {
        0
    } else {
        failures + 1
    }
}

/// How many heartbeats have failed in a row after all of them, in order.
pub open spec fn failed_in_a_row(beats: Seq<bool>) -> nat
    decreases beats.len(),
{
    if beats.len() == 0 {
        0
    } else {
        next_failures(failed_in_a_row(beats.drop_last()), beats.last())
    }
}

/// Six failures in a row, whatever came before, make the component register anew;
/// with any success among the last six it does not.
pub proof fn lemma_six_failures_reregister(beats: Seq<bool>)
    requires
        beats.len() >= MAX_HEARTBEAT_FAILURES,
    ensures
        failed_in_a_row(beats) >= MAX_HEARTBEAT_FAILURES <==> forall|i: int|
            beats.len() - MAX_HEARTBEAT_FAILURES <= i < beats.len() ==> !#[trigger] beats[i],
{
    lemma_failed_run(beats, MAX_HEARTBEAT_FAILURES as nat);
}

proof fn lemma_failed_run(beats: Seq<bool>, k: nat)
    requires
        k <= beats.len(),
    ensures
        failed_in_a_row(beats) >= k <==> forall|i: int|
            beats.len() - k <= i < beats.len() ==> !#[trigger] beats[i],
    decreases k,
{
    if k > 0 {
        let d = beats.drop_last();
        lemma_failed_run(d, (k - 1) as nat);
        if forall|i: int| beats.len() - k <= i < beats.len() ==> !#[trigger] beats[i] {
            assert(!beats[beats.len() - 1]);
            assert forall|i: int| d.len() - (k - 1) <= i < d.len() implies !#[trigger] d[i] by {
                assert(!beats[i]);
            }
        }
        if failed_in_a_row(beats) >= k {
            assert forall|i: int| beats.len() - k <= i < beats.len() implies !#[trigger] beats[i] by {
                if i < d.len() {
                    assert(!d[i]);
                }
            }
        }
    }
}

/// What a step of the start leads to: the start is given up where the settings, the
/// HTTP client or the registration failed, and goes on after everything else.
pub open spec fn init_verdict(step: InitStep, ok: bool) -> InitVerdict {
    if !ok && (step is LoadConfig || step is BuildHttpClient || step is Register) {
        InitVerdict::Abort
    } else {
        InitVerdict::Continue
    }
}

/// What a heartbeat leaves: the failures in a row, and what to do.
pub open spec fn beat_outcome(family: Family, failures: nat, accepted: bool) -> (
    nat,
    HeartbeatStep,
) {
    if family is Components {
        let n = next_failures(failures, accepted);
        (
            n,
            if n >= MAX_HEARTBEAT_FAILURES {
                HeartbeatStep::Reregister
            } else {
                HeartbeatStep::Wait
            },
        )
    } else {
        (failures, HeartbeatStep::Wait)
    }
}

/// The failures in a row after a registration in place of a lost one.
pub open spec fn failures_after_reregister(failures: nat, ok: bool) -> nat {
    if ok {
        0
    } else {
        failures
    }
}

/// The id to register under: the kept one, or the application's own.
pub open spec fn id_for(app_id: Seq<char>, kept: Option<Seq<char>>) -> Seq<char> {
    match kept {
        Some(k) => k,
        None => app_id,
    }
}

/// A step that went well never ends the start; of those that failed exactly three do.
pub proof fn lemma_start_ends_on_three_failures(step: InitStep, ok: bool)
    ensures
        init_verdict(step, true) is Continue,
        init_verdict(InitStep::LoadConfig, false) is Abort,
        init_verdict(InitStep::BuildHttpClient, false) is Abort,
        init_verdict(InitStep::Register, false) is Abort,
        !(step is LoadConfig) && !(step is BuildHttpClient) && !(step is Register) ==> init_verdict(
            step,
            ok,
        ) is Continue,
{
}

/// A component whose heartbeat is accepted has no failures left and waits; the sixth
/// failure in a row, and each that follows it, registers it again. An app only waits.
pub proof fn lemma_heartbeats(failures: nat)
    ensures
        beat_outcome(Family::Components, failures, true) == (0nat, HeartbeatStep::Wait),
        beat_outcome(Family::Components, failures, false).0 == failures + 1,
        beat_outcome(Family::Components, failures, false).1 is Reregister <==> failures >= 5,
        beat_outcome(Family::Components, failures, false).1 is Wait <==> failures < 5,
        beat_outcome(Family::Apps, failures, true) == (failures, HeartbeatStep::Wait),
        beat_outcome(Family::Apps, failures, false) == (failures, HeartbeatStep::Wait),
{
}

/// Six failures in a row, at the end of any beats, register the component again; five
/// do not.
pub proof fn lemma_sixth_failure_in_a_row(beats: Seq<bool>)
    requires
        beats.len() == 0 || beats.last(),
    ensures
        failed_in_a_row(beats) == 0,
        failed_in_a_row(beats + seq![false, false, false, false, false]) == 5,
        failed_in_a_row(beats + seq![false, false, false, false, false, false]) == 6,
{
    reveal_with_fuel(failed_in_a_row, 2);
    let b1 = beats.push(false);
    let b2 = b1.push(false);
    let b3 = b2.push(false);
    let b4 = b3.push(false);
    let b5 = b4.push(false);
    let b6 = b5.push(false);
    assert(b1.drop_last() =~= beats);
    assert(b2.drop_last() =~= b1);
    assert(b3.drop_last() =~= b2);
    assert(b4.drop_last() =~= b3);
    assert(b5.drop_last() =~= b4);
    assert(b6.drop_last() =~= b5);
    assert(failed_in_a_row(b1) == 1);
    assert(failed_in_a_row(b2) == 2);
    assert(failed_in_a_row(b3) == 3);
    assert(failed_in_a_row(b4) == 4);
    assert(failed_in_a_row(b5) == 5);
    assert(failed_in_a_row(b6) == 6);
    assert(beats + seq![false, false, false, false, false] =~= b5);
    assert(beats + seq![false, false, false, false, false, false] =~= b6);
}

/// A registration that took the place of a lost one starts the count of failures anew;
/// one that failed leaves it, so that the next beat registers again.
pub proof fn lemma_reregistering(failures: nat)
    ensures
        failures_after_reregister(failures, true) == 0,
        failures_after_reregister(failures, false) == failures,
        failures >= 6 ==> beat_outcome(
            Family::Components,
            failures_after_reregister(failures, false),
            false,
        ).1 is Reregister,
{
}

/// The kept id is used again, whatever the application is called.
pub proof fn lemma_kept_id_is_used(app_id: Seq<char>, other: Seq<char>, kept: Seq<char>)
    ensures
        id_for(app_id, Some(kept)) == kept,
        id_for(app_id, Some(kept)) == id_for(other, Some(kept)),
        id_for(app_id, None) == app_id,
{
}

/// The heartbeat is started exactly where it was not switched off, each handler is added
/// once, in order, after the dispatcher was started, and the last step is to arrange for
/// the end.
pub proof fn lemma_start_follows_the_settings(family: Family, auto_heartbeat: bool, handlers: nat)
    requires
        handlers <= usize::MAX,
    ensures
        ({
            let s = init_steps(family, auto_heartbeat, handlers);
            let head = if family is Components {
                10int
            } else {
                5
            };
            let beat = if auto_heartbeat {
                1int
            } else {
                0
            };
            &&& s.len() == head + beat + 2 + handlers + 1
            &&& s.last() is RegisterShutdown
            &&& auto_heartbeat ==> s[head] is StartHeartbeat
            &&& s.contains(InitStep::StartHeartbeat) <==> auto_heartbeat
            &&& s[head + beat] is StartWebSocket
            &&& s[head + beat + 1] is StartDispatcher
            &&& forall|i: int|
                0 <= i < handlers ==> #[trigger] s[head + beat + 2 + i] == InitStep::AddHandler(
                    i as usize,
                )
        }),
{
    let s = init_steps(family, auto_heartbeat, handlers);
    let head = if family is Components {
        10int
    } else {
        5
    };
    if auto_heartbeat {
        assert(s[head] is StartHeartbeat);
    }
}

/// A component makes its data directory before it opens its checkpoints there, reads its
/// kept id before it registers, and is ready and keeps its id only once it is
/// registered; an app does none of these.
pub proof fn lemma_order_of_the_start(auto_heartbeat: bool, handlers: nat, i: int)
    ensures
        ({
            let s = init_steps(Family::Components, auto_heartbeat, handlers);
            s[0] is InitLogging && s[1] is LoadConfig && s[2] is EnsureDataDir && s[3]
                is BuildHttpClient && s[4] is OpenCheckpoints && s[5] is LoadComponentId && s[6]
                is Register && s[7] is KeepToken && s[8] is SetReady && s[9] is SaveComponentId
        }),
        ({
            let s = init_steps(Family::Apps, auto_heartbeat, handlers);
            s[0] is InitLogging && s[1] is LoadConfig && s[2] is BuildHttpClient && s[3]
                is Register && s[4] is KeepToken && (0 <= i < s.len() ==> !(s[i] is EnsureDataDir)
                && !(s[i] is OpenCheckpoints) && !(s[i] is LoadComponentId) && !(s[i] is SetReady)
                && !(s[i] is SaveComponentId))
        }),
{
}

/// Both families close their socket before they unregister, and a component is not ready
/// from the first moment of its end.
pub proof fn lemma_order_of_the_end(family: Family)
    ensures
        shutdown_plan(Family::Components).len() == 3,
        shutdown_plan(Family::Components)[0] is SetNotReady,
        shutdown_plan(Family::Components).skip(1) == shutdown_plan(Family::Apps),
        shutdown_plan(Family::Apps).len() == 2,
        shutdown_plan(Family::Apps)[0] is CloseWebSocket,
        shutdown_plan(Family::Apps)[1] is Unregister,
{
    assert(shutdown_plan(Family::Components).skip(1) =~= shutdown_plan(Family::Apps));
}

/// The runtime's address that was set wins over that of the environment, and both over
/// the one at the runtime's own port; the waits are those documented.
pub proof fn lemma_resolved_settings(
    b: PnosAppBuilder,
    r: SdkConfig,
    port: u16,
    env: Option<String>,
)
    requires
        b.resolves_to(r, port, env),
    ensures
        b.runtime_url is Some ==> r.runtime_url@ == b.runtime_url->0@,
        b.runtime_url is None && env is Some ==> r.runtime_url@ == env->0@,
        b.runtime_url is None && env is None ==> r.runtime_url@ == local_url(port),
        r.heartbeat_interval@ == 15_000_000_000,
        r.discovery_cache_ttl@ == 30_000_000_000,
        r.http_timeout@ == 30_000_000_000,
        r.register_retry_timeout@ == 30_000_000_000,
        r.call_retries == 2,
        b.graceful_shutdown_timeout is None ==> r.graceful_shutdown_timeout@ == 10_000_000_000,
        b.graceful_shutdown_timeout is Some ==> r.graceful_shutdown_timeout
            == b.graceful_shutdown_timeout->0,
        r.app_id@ == b.app_id@ && r.version@ == b.version@ && r.port == b.port,
        r.auto_heartbeat == b.auto_heartbeat,
{
}

/// A builder of which nothing was set, for either family.
pub proof fn lemma_default_builder(b: PnosAppBuilder, family: Family, app_id: Seq<char>)
    requires
        b.is_default_for(family, app_id),
    ensures
        b.app_id@ == app_id && b.family == family && b.component_type is App,
        b.port == 18080 && b.auto_heartbeat,
        family is Components ==> b.version@ == "1.0.0"@,
        family is Apps ==> b.version@ == "0.1.0"@,
        b.health_check_path@ == "/health"@,
        b.web_path is Some && b.web_path->0@ == "/"@,
        b.runtime_url is None && b.graceful_shutdown_timeout is None,
        b.event_patterns@.len() == 0 && b.dependencies@.len() == 0 && b.capabilities@.len() == 0,
{
}

/// Two settings are the same where both are missing or both hold the same text.
pub proof fn lemma_same_settings(a: Option<String>, b: Option<String>)
    ensures
        same_option(a, b) <==> (a is Some <==> b is Some) && (a is Some ==> a->0@ == b->0@),
        same_option(a, b) == same_option(b, a),
{
}

/// Two builders that register alike have the same settings, and a request names the one
/// who sends it twice: as its id and as its name.
pub proof fn lemma_requests_carry_the_settings(
    a: PnosAppBuilder,
    b: PnosAppBuilder,
    id: Seq<char>,
    r: RegisterRequest,
)
    requires
        a.registers_as(id, r),
        b.registers_as(id, r),
    ensures
        r.id@ == id && r.name@ == id,
        a.port == b.port && a.port == r.port,
        a.version@ == b.version@ && a.version@ == r.version@,
        a.component_type == b.component_type && a.component_type == r.component_type,
        a.health_check_path@ == b.health_check_path@ && a.health_check_path@
            == r.health_check_path@,
        a.web_path is Some <==> r.web_path is Some,
        texts(a.dependencies@) == texts(b.dependencies@) && texts(a.dependencies@) == texts(
            r.dependencies@,
        ),
        texts(a.capabilities@) == texts(b.capabilities@) && texts(a.capabilities@) == texts(
            r.capabilities@,
        ),
{
}

} // verus!
