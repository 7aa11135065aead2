use pnos_sdk::comm::app::{
    on_init_step, shutdown_steps, HeartbeatRun, HeartbeatStep, InitStep, InitVerdict,
    PnosAppBuilder, ShutdownStep,
};
use pnos_sdk::comm::app_client::AppClient;
use pnos_sdk::comm::client::{ComponentClient, RequestBuilder, RequestMethod, SendRun, SendStep};
use pnos_sdk::comm::config::{Locations, SdkConfig, DEFAULT_RUNTIME_PORT};
use pnos_sdk::comm::discovery::{DiscoverStep, DiscoveryCache};
use pnos_sdk::comm::error::{ErrorCode, PnosError, SdkError};
use pnos_sdk::comm::events::EventDispatcher;
use pnos_sdk::comm::health::{ready_answer, HealthBuilder, HealthStatus};
use pnos_sdk::comm::lifecycle::LifecycleManager;
use pnos_sdk::comm::middleware::{AuthState, AuthVerdict};
use pnos_sdk::comm::registry::{
    ApiReply, ComponentInfo, ComponentType, Family, HttpReply, RegisterRun, RetryStep, RuntimeClient,
};
use pnos_sdk::comm::ws::{connect_and_run, failure_of, Reconnect, WsAction, WsClient, WsEvent, WsStep};
use pnos_sdk::time::Duration;

fn s(x: &str) -> String {
    x.to_string()
}

fn unreadable() -> PnosError {
    PnosError { code: ErrorCode::InternalError, message: s("no settings") }
}

fn reply<T>(code: u32, message: &str, data: Option<T>) -> ApiReply<T> {
    ApiReply { code, message: s(message), data }
}

// ---- errors ----

#[test]
fn test_error_code_mapping() {
    let err = SdkError::new(ErrorCode::AppNotFound, "test");
    assert_eq!(err.code(), ErrorCode::AppNotFound);
    assert_eq!(err.http_status(404), 404);
}

#[test]
fn test_network_error_code() {
    let err = SdkError::Network("timeout".to_string());
    assert_eq!(err.code(), ErrorCode::NetworkError);
    assert_eq!(err.http_status(0), 502);
}

#[test]
fn test_auth_error_code() {
    let err = SdkError::Auth("no token".to_string());
    assert_eq!(err.code(), ErrorCode::Unauthorized);
    assert_eq!(err.http_status(0), 401);
}

#[test]
fn test_from_reqwest_error() {
    let err = SdkError::check_url("not a url").unwrap_err();
    assert!(matches!(err, SdkError::Other(_)));
    assert_eq!(err.to_string(), "其他错误: URL 解析错误: relative URL without a base");
    assert!(SdkError::check_url("http://127.0.0.1:80/x").is_ok());
}

#[test]
fn test_into_response() {
    let err = SdkError::new(ErrorCode::AppNotFound, "not found");
    let (status, code, message) = err.into_response(404);
    assert_eq!(status, 404);
    assert_eq!(code, ErrorCode::AppNotFound);
    assert_eq!(message, "not found");
}

#[test]
fn fixed_statuses_need_no_hint() {
    assert_eq!(ErrorCode::AppNotFound.http_status(0), 404);
    assert_eq!(ErrorCode::Unauthorized.http_status(0), 401);
    assert_eq!(ErrorCode::TokenInvalid.http_status(500), 401);
    assert_eq!(ErrorCode::ServiceUnavailable.http_status(503), 503);
    assert_eq!(SdkError::new(ErrorCode::AppNotFound, "x").http_status(0), 404);
    let closed = AuthState::new(Some(s("tok")));
    for provided in [None, Some("other")] {
        match closed.auth_middleware("/x", provided) {
            AuthVerdict::Refuse(e) => assert_eq!(e.into_response(0).0, 401),
            AuthVerdict::Pass => panic!("a path that is not open was passed"),
        }
    }
}

#[test]
fn errors_have_codes_and_texts() {
    let cases = vec![
        (SdkError::AppNotFound(s("x")), ErrorCode::AppNotFound, 404, "应用未找到: x"),
        (SdkError::AppUnreachable(s("x")), ErrorCode::ServiceUnavailable, 502, "应用不可达: x"),
        (SdkError::ComponentNotFound(s("x")), ErrorCode::ComponentNotFound, 404, "组件未找到: x"),
        (SdkError::ComponentUnreachable(s("x")), ErrorCode::ServiceUnavailable, 502, "组件不可达: x"),
        (SdkError::WebSocket(s("x")), ErrorCode::InternalError, 500, "WebSocket 错误: x"),
        (SdkError::Serde(s("x")), ErrorCode::InternalError, 500, "序列化错误: x"),
        (SdkError::Io(s("x")), ErrorCode::InternalError, 500, "IO 错误: x"),
        (SdkError::Other(s("x")), ErrorCode::Unknown, 500, "其他错误: x"),
        (SdkError::Network(s("x")), ErrorCode::NetworkError, 502, "网络错误: x"),
        (SdkError::Auth(s("x")), ErrorCode::Unauthorized, 401, "认证失败: x"),
    ];
    for (e, code, status, text) in cases {
        assert_eq!((e.code(), e.http_status(7), e.to_string().as_str()), (code, status, text));
    }
    assert_eq!(SdkError::new(ErrorCode::Unknown, "x").http_status(99), 500);
    assert_eq!(SdkError::new(ErrorCode::Unknown, "x").http_status(1000), 500);
}

// ---- settings ----

#[test]
fn config_urls() {
    let c = SdkConfig::from_env("app", Ok(80), Some(s("https://host:1//"))).unwrap();
    assert_eq!(c.api_base(), "https://host:1/api/v1");
    assert_eq!(c.ws_url(), "wss://host:1/api/v1/ws");
    let d = SdkConfig::from_env("app", Ok(DEFAULT_RUNTIME_PORT), None).unwrap();
    assert_eq!(d.runtime_url, "http://127.0.0.1:8080");
    assert_eq!(d.ws_url(), "ws://127.0.0.1:8080/api/v1/ws");
    assert_eq!((d.port, d.call_retries, d.version.as_str()), (18080, 2, "0.1.0"));
    assert_eq!(d.heartbeat_interval.as_secs(), 15);
    let l = Locations::load(None, Some(s("http://e")), None, Some(s("/m")));
    assert_eq!((l.runtime_url.as_str(), l.data_dir.as_str(), l.media_dir.as_str()), ("http://e", "/pnos/data/apps", "/m"));
    assert_eq!(Locations::load(Some(s("http://o")), Some(s("http://e")), None, None).runtime_url, "http://o");
    assert_eq!(Locations::load(None, None, None, None).runtime_url, "http://127.0.0.1:8080");
    let refused = SdkConfig::from_env("app", Err(unreadable()), None).unwrap_err();
    assert_eq!((refused.code(), refused.to_string()), (ErrorCode::InternalError, s("no settings")));
}

// ---- events ----

fn count(d: &EventDispatcher, events: &[&str]) -> usize {
    events.iter().map(|e| d.dispatch(e).len()).sum()
}

#[test]
fn test_exact_match() {
    let mut d = EventDispatcher::new();
    d.on(s("app.status_changed"));
    assert_eq!(count(&d, &["app.status_changed"]), 1);
    assert_eq!(count(&d, &["system.stats"]), 0);
}

#[test]
fn test_prefix_match() {
    let mut d = EventDispatcher::new();
    d.on(s("app.*"));
    assert_eq!(count(&d, &["app.status_changed", "app.install_progress", "system.stats"]), 2);
}

#[test]
fn test_wildcard_all() {
    let mut d = EventDispatcher::new();
    d.on(s("*"));
    assert_eq!(count(&d, &["app.status_changed", "system.stats", "task.progress"]), 3);
}

#[test]
fn several_listeners() {
    let mut d = EventDispatcher::default();
    assert_eq!(d.on(s("app.*")), 0);
    d.on(s("app.x"));
    d.on(s("sys.*"));
    assert_eq!(d.on(s("*")), 3);
    assert_eq!(d.dispatch("app.x"), vec![0, 1, 3]);
    assert_eq!(d.dispatch("app"), vec![3]);
    assert_eq!(d.dispatch("app.*"), vec![0, 3]);
}

// ---- discovery cache ----

#[test]
fn cache_serves_stale_answers() {
    let mut c: DiscoveryCache<u32> = DiscoveryCache::new(Duration::from_secs(30), true);
    let t = |x: u64| Duration::from_secs(x);
    assert!(matches!(c.discover("a", &t(1)), DiscoverStep::Fetch));
    assert!(c.after_failed_fetch("a").is_none());
    c.store("a", 7, t(10));
    assert!(matches!(c.discover("a", &t(39)), DiscoverStep::Answer(7)));
    assert!(matches!(c.discover("a", &t(40)), DiscoverStep::AnswerAndRefresh(7)));
    assert!(matches!(c.discover("a", &t(1)), DiscoverStep::Answer(7)));
    assert_eq!(c.after_failed_fetch("a"), Some(&7));
    let mut strict: DiscoveryCache<u32> = DiscoveryCache::new(Duration::from_secs(30), false);
    strict.store("a", 7, t(10));
    assert!(matches!(strict.discover("a", &t(40)), DiscoverStep::Fetch));
    assert!(strict.after_failed_fetch("a").is_none());
    c.store("a", 8, t(40));
    assert!(matches!(c.discover("a", &t(41)), DiscoverStep::Answer(8)));
    assert_eq!(c.len(), 1);
    c.invalidate("a");
    assert!(c.is_empty());
    c.store("b", 1, t(1));
    c.clear();
    assert!(c.is_empty());
    assert_eq!(c.ttl().as_secs(), 30);
    let mut strict: DiscoveryCache<u32> = DiscoveryCache::new(Duration::from_secs(30), false);
    strict.store("a", 7, t(10));
    assert!(matches!(strict.discover("a", &t(40)), DiscoverStep::Fetch));
}

// ---- runtime ----

#[test]
fn runtime_urls() {
    let c = RuntimeClient::new(&SdkConfig::from_env("me", Ok(80), Some(s("http://r/"))).unwrap(), Family::Components);
    assert_eq!(c.register_url(), "http://r/api/v1/components/register");
    assert_eq!(c.unregister_url(), "http://r/api/v1/components/unregister");
    assert_eq!(c.heartbeat_url(), "http://r/api/v1/components/heartbeat");
    assert_eq!(c.list_url(), "http://r/api/v1/components");
    assert_eq!(c.detail_url("x"), "http://r/api/v1/components/x");
    assert_eq!(c.discover_url("x"), "http://r/api/v1/components/x/discover");
    assert_eq!(c.system_info_url(), "http://r/api/v1/system/info");
    assert_eq!(c.system_stats_url(), "http://r/api/v1/system/stats");
    assert_eq!(c.component_id, "me");
    let mut t = c;
    assert!(t.token().is_none());
    t.set_token(s("tok"));
    t.set_component_id(s("other"));
    assert_eq!(t.token(), Some(&s("tok")));
    assert_eq!(t.component_id, "other");
}

#[test]
fn runtime_replies() {
    let rt = RuntimeClient::new(&SdkConfig::from_env("me", Ok(80), None).unwrap(), Family::Components);
    assert_eq!(rt.register(HttpReply::Answered(reply(0, "", Some(5)))).unwrap(), 5);
    let e = rt.register::<u8>(HttpReply::Answered(reply(3, "bad", None))).unwrap_err();
    assert_eq!((e.code(), e.to_string()), (ErrorCode::ComponentNotRegistered, s("bad")));
    let e = rt.register::<u8>(HttpReply::BadStatus(s("500 X"), s("t"))).unwrap_err();
    assert_eq!(e.to_string(), "HTTP 500 X: t");
    let e = rt.register::<u8>(HttpReply::Answered(reply(0, "", None))).unwrap_err();
    assert_eq!(e.to_string(), "其他错误: 注册响应 data 为空");
    let e = rt.register::<u8>(HttpReply::Unsent(s("x"))).unwrap_err();
    assert_eq!(e.to_string(), "网络错误: 注册请求失败: x");
    let e = rt.register::<u8>(HttpReply::Unreadable(s("x"))).unwrap_err();
    assert_eq!(e.to_string(), "网络错误: x");
    assert_eq!(RuntimeClient::heartbeat(HttpReply::BadStatus(s(""), s(""))).unwrap(), false);
    assert_eq!(RuntimeClient::heartbeat(HttpReply::Answered(reply(1, "", Some(true)))).unwrap(), true);
    assert_eq!(RuntimeClient::unregister(HttpReply::Answered(reply(0, "", None))).unwrap(), false);
    assert!(RuntimeClient::unregister(HttpReply::Unsent(s("x"))).is_err());
    let e = rt.discover::<u8>(HttpReply::BadStatus(s(""), s("")), "pk").unwrap_err();
    assert!(matches!(&e, SdkError::ComponentNotFound(x) if x == "pk"));
    assert!(matches!(
        rt.component_detail::<u8>(HttpReply::Answered(reply(0, "", None)), "pk"),
        Err(SdkError::ComponentNotFound(_))
    ));
    assert!(rt.list_components(HttpReply::Answered(reply(0, "", None))).unwrap().is_empty());
    let e = rt.list_components(HttpReply::BadStatus(s("404"), s("t"))).unwrap_err();
    assert_eq!(e.to_string(), "HTTP 404");
    assert_eq!(RuntimeClient::system_info(HttpReply::Answered(reply(9, "", Some(1)))).unwrap(), 1);
    let e = RuntimeClient::system_stats::<u8>(HttpReply::Answered(reply(0, "", None))).unwrap_err();
    assert_eq!(e.to_string(), "其他错误: 系统监控数据为空");
    let apps = RuntimeClient::new(&SdkConfig::from_env("me", Ok(80), Some(s("http://r"))).unwrap(), Family::Apps);
    assert_eq!(apps.discover_url("x"), "http://r/api/v1/apps/x/discover");
    let e = apps.register::<u8>(HttpReply::Answered(reply(3, "bad", None))).unwrap_err();
    assert_eq!(e.code(), ErrorCode::AppNotRegistered);
    let e = apps.list_components(HttpReply::BadStatus(s("404"), s("t"))).unwrap_err();
    assert_eq!(e.code(), ErrorCode::AppNotFound);
    let e = apps.component_detail::<u8>(HttpReply::Unsent(s("x")), "id").unwrap_err();
    assert_eq!(e.to_string(), "网络错误: 查询应用详情失败: x");
    let e = apps.discover::<u8>(HttpReply::Answered(reply(0, "", None)), "pk").unwrap_err();
    assert!(matches!(&e, SdkError::AppNotFound(x) if x == "pk"));
    let info = |id: &str, t| ComponentInfo { id: s(id), component_type: t };
    let all = vec![info("a", ComponentType::App), info("b", ComponentType::Agent), info("c", ComponentType::App)];
    let apps = RuntimeClient::list_by_type(all, ComponentType::App);
    assert_eq!(apps.iter().map(|c| c.id.as_str()).collect::<Vec<_>>(), vec!["a", "c"]);
}

#[test]
fn registration_is_repeated() {
    let mut run = RegisterRun::new(Duration::from_secs(30));
    let mut waits = vec![];
    for at in [0u64, 1, 3, 7, 15] {
        match run.register_with_retry(&Duration::from_secs(at)) {
            RetryStep::WaitThenRetry(d) => waits.push(d.as_secs()),
            RetryStep::GiveUp => panic!("too early"),
        }
    }
    assert_eq!(waits, vec![1, 2, 4, 8, 15]);
    assert_eq!(run.register_with_retry(&Duration::from_secs(30)), RetryStep::GiveUp);
}

// ---- calls ----

#[test]
fn call_urls() {
    let c = ComponentClient::new("http://r/", 2, "pk");
    let r = c.clone().get("/api/x").header(s("k"), s("v"));
    assert_eq!(r.target_url("http://h:1/"), "http://h:1/api/x");
    assert_eq!(r.method, RequestMethod::Get);
    assert_eq!(r.headers.len(), 1);
    assert_eq!(c.clone().via_proxy().post("/y").target_url(""), "http://r/component/pk/y");
    assert_eq!(c.clone().put("/y").method, RequestMethod::Put);
    assert_eq!(c.delete("/y").method, RequestMethod::Delete);
}

#[test]
fn call_answers() {
    assert_eq!(RequestBuilder::send(Ok(reply(0, "", Some(1)))).unwrap(), 1);
    let e = RequestBuilder::send::<u8>(Ok(reply(42, "no", None))).unwrap_err();
    assert_eq!(e.to_string(), "code=42, message=no");
    assert_eq!(e.code(), ErrorCode::Unknown);
    let e = RequestBuilder::send::<u8>(Ok(reply(0, "", None))).unwrap_err();
    assert_eq!(e.to_string(), "其他错误: 响应 data 为空");
    let e = RequestBuilder::send_empty::<u8>(Err(s("x"))).unwrap_err();
    assert_eq!(e.to_string(), "其他错误: 解析响应失败: x");
    assert!(RequestBuilder::send_empty::<u8>(Ok(reply(0, "", None))).is_ok());
    assert!(RequestBuilder::send_once(None, None).is_ok());
    let e = RequestBuilder::send_once(None, Some((s("503"), s("b")))).unwrap_err();
    assert_eq!(e.to_string(), "组件不可达: HTTP 503: b");
    let e = RequestBuilder::send_once(Some(s("x")), None).unwrap_err();
    assert_eq!(e.to_string(), "组件不可达: 请求失败: x");
}

#[test]
fn apps_are_called() {
    let c = AppClient::new("http://r/", "pk");
    assert_eq!(c.discover_url(), "http://r/api/v1/apps/pk/discover");
    assert_eq!(c.discovered(HttpReply::Answered(reply(0, "", Some(s("http://h/"))))).unwrap(), "http://h/");
    assert!(matches!(c.discovered(HttpReply::BadStatus(s(""), s(""))), Err(SdkError::AppNotFound(_))));
    let e = c.discovered(HttpReply::Unreadable(s("x"))).unwrap_err();
    assert_eq!(e.to_string(), "其他错误: 解析服务发现响应失败: x");
    assert_eq!(AppClient::target_url("http://h//", "/p"), "http://h/p");
    let e = AppClient::send_raw(None, Some((503, s("503 X"), s("b")))).unwrap_err();
    assert_eq!((e.code(), e.to_string()), (ErrorCode::Other(503), s("HTTP 503 X: b")));
    assert!(AppClient::send_raw(None, None).is_ok());
    let e = AppClient::send::<u8>(Ok(reply(7, "m", None))).unwrap_err();
    assert_eq!((e.code(), e.to_string()), (ErrorCode::Other(7), s("m")));
    assert_eq!(AppClient::send(Ok(reply(0, "", Some(3)))).unwrap(), 3);
    assert!(AppClient::send_empty::<u8>(Ok(reply(0, "", None))).is_ok());
}

#[test]
fn calls_are_repeated() {
    let mut run = SendRun::new(7);
    let mut waits = vec![];
    loop {
        match run.send_with_retry(SdkError::Network(s("x"))) {
            SendStep::WaitThenRetry(ms) => waits.push(ms),
            SendStep::Fail(e) => {
                assert_eq!(e.to_string(), "网络错误: x");
                break;
            }
        }
    }
    assert_eq!(waits, vec![200, 400, 800, 1600, 3200, 3200, 3200]);
    let mut once = SendRun::new(7);
    assert!(matches!(once.send_with_retry(SdkError::Auth(s("x"))), SendStep::Fail(_)));
}

// ---- event connection ----

#[test]
fn subscriptions_are_unique() {
    let mut w = WsClient::new(s("ws://r"));
    w.subscribe(s("a"));
    w.subscribe(s("b"));
    w.subscribe(s("a"));
    assert_eq!(w.subscriptions, vec!["a", "b"]);
    w.unsubscribe("a");
    w.unsubscribe("x");
    assert_eq!(w.subscriptions, vec!["b"]);
    assert_eq!(w.connect_url(Some("t")).unwrap(), "ws://r?token=t");
    assert!(matches!(w.connect_url(None), Err(SdkError::Auth(_))));
}

#[test]
fn reconnects_wait_longer() {
    let mut r = Reconnect::new();
    let mut waits = vec![];
    for _ in 0..7 {
        match r.run(true) {
            WsStep::WaitThenConnect(d) => waits.push(d.as_secs()),
            WsStep::Stop => panic!("a failure is followed by a new connection"),
        }
    }
    assert_eq!(waits, vec![1, 2, 4, 8, 16, 30, 30]);
    assert_eq!(r.run(false), WsStep::Stop);
}

#[test]
fn connection_events() {
    assert_eq!(connect_and_run(WsEvent::Shutdown), WsAction::CloseAndStop);
    assert_eq!(connect_and_run(WsEvent::PingDue), WsAction::SendPing);
    assert_eq!(connect_and_run(WsEvent::BinaryText), WsAction::HandleText);
    assert_eq!(connect_and_run(WsEvent::BinaryOther), WsAction::Ignore);
    assert_eq!(connect_and_run(WsEvent::Close), WsAction::Fail);
    assert_eq!(failure_of(WsEvent::Close, "").to_string(), "WebSocket 错误: 服务端关闭连接");
    assert_eq!(failure_of(WsEvent::ReadError, "x").to_string(), "WebSocket 错误: 读取错误: x");
    assert_eq!(failure_of(WsEvent::PingDue, "x").to_string(), "WebSocket 错误: 发送 Ping 失败: x");
    assert_eq!(failure_of(WsEvent::Ended, "").to_string(), "WebSocket 错误: 连接已关闭");
}

// ---- middleware, health, lifecycle ----

fn refusal(v: AuthVerdict) -> Option<ErrorCode> {
    match v {
        AuthVerdict::Pass => None,
        AuthVerdict::Refuse(e) => Some(e.code()),
    }
}

#[test]
fn requests_need_the_token() {
    let a = AuthState::new(Some(s("tok")));
    assert_eq!(refusal(a.auth_middleware("/health/ready", None)), None);
    assert_eq!(refusal(a.auth_middleware("/api/v1/ws", None)), None);
    assert_eq!(refusal(a.auth_middleware("/api/v1/x", Some("tok"))), None);
    assert_eq!(refusal(a.auth_middleware("/api/v1/x", Some("other"))), Some(ErrorCode::TokenInvalid));
    assert_eq!(refusal(a.auth_middleware("/api/v1/x", None)), Some(ErrorCode::Unauthorized));
    let open = a.add_whitelist(s("/api/v1/x"));
    assert_eq!(refusal(open.auth_middleware("/api/v1/x/y", None)), None);
    let unregistered = AuthState::new(None);
    assert_eq!(refusal(unregistered.auth_middleware("/any", None)), Some(ErrorCode::Unauthorized));
    assert_eq!(refusal(unregistered.auth_middleware("/any", Some(""))), Some(ErrorCode::Unauthorized));
    assert_eq!(refusal(unregistered.auth_middleware("/health", None)), None);
}

#[test]
fn health_is_the_worst() {
    let h = HealthBuilder::new(s("0.1.0")).dependency_ok(s("pk"));
    assert_eq!(h.build().status, HealthStatus::Healthy);
    let h = h.dependency_degraded(s("spde"), s("下载队列积压"));
    assert_eq!(h.build().status, HealthStatus::Degraded);
    let h = h.dependency_down(s("x"), s("gone"));
    let r = h.build_at(12);
    assert_eq!(r.status, HealthStatus::Down);
    assert_eq!((r.uptime, r.version.as_str(), r.dependencies.len()), (12, "0.1.0", 3));
    assert_eq!(r.dependencies[1].message, Some(s("下载队列积压")));
    assert_eq!(ready_answer(true), (200, "ready"));
    assert_eq!(ready_answer(false), (503, "not_ready"));
}

#[test]
fn shutdown_runs_backwards_once() {
    let mut l = LifecycleManager::new().with_timeout(Duration::from_secs(3));
    l.on_shutdown(1);
    l.on_shutdown(2);
    l.on_shutdown(3);
    assert_eq!(l.shutdown(), vec![3, 2, 1]);
    assert!(l.shutdown().is_empty());
    assert_eq!(LifecycleManager::default().timeout.as_secs(), 10);
}

// ---- components ----

#[test]
fn builder_makes_settings_and_a_request() {
    let b = PnosAppBuilder::new("spde-001")
        .version(s("0.6.2"))
        .port(9000)
        .component_type(ComponentType::Agent)
        .capability(s("download.http"))
        .capability(s("download.bt"))
        .dependency(s("pk"))
        .region(s("cn"))
        .host_info(s("h"), s("linux"), s("x86"))
        .limits(4, 1000)
        .health_check_path(s("/hc"))
        .web_path(s("/ui"))
        .route(s("/api"))
        .on_event(s("task.*"))
        .graceful_shutdown_timeout(Duration::from_secs(4))
        .no_auto_heartbeat();
    let c = b.resolve_config(Ok(80), Some(s("http://env"))).unwrap();
    assert_eq!((c.runtime_url.as_str(), c.port, c.version.as_str()), ("http://env", 9000, "0.6.2"));
    assert_eq!(c.dependencies, vec!["pk"]);
    assert!(!c.auto_heartbeat);
    assert_eq!(c.graceful_shutdown_timeout.as_secs(), 4);
    assert_eq!(b.component_id(Some("kept")), "kept");
    assert_eq!(b.component_id(None), "spde-001");
    let r = b.register_request("kept");
    assert_eq!((r.id.as_str(), r.name.as_str(), r.max_concurrent), ("kept", "kept", Some(4)));
    assert_eq!(r.capabilities, vec!["download.http", "download.bt"]);
    assert_eq!((r.region, r.arch, r.web_path), (Some(s("cn")), Some(s("x86")), Some(s("/ui"))));
    assert_eq!(b.runtime_url(s("http://set")).resolve_config(Ok(80), Some(s("http://env"))).unwrap().runtime_url, "http://set");
    assert!(matches!(PnosAppBuilder::new("x").resolve_config(Err(unreadable()), None), Err(SdkError::Business(_))));
    assert_eq!(PnosAppBuilder::new("x").resolve_config(Ok(81), None).unwrap().runtime_url, "http://127.0.0.1:81");
}

#[test]
fn components_start_in_order() {
    let steps = PnosAppBuilder::new("a").on_event(s("x")).on_event(s("y")).init();
    assert_eq!(steps.len(), 16);
    assert_eq!(steps[6], InitStep::Register);
    assert_eq!(steps[10], InitStep::StartHeartbeat);
    assert_eq!(steps[14], InitStep::AddHandler(1));
    assert_eq!(steps[15], InitStep::RegisterShutdown);
    assert_eq!(PnosAppBuilder::new("a").no_auto_heartbeat().init().len(), 13);
    let app = PnosAppBuilder::new_app("a");
    assert_eq!(app.version, "0.1.0");
    assert_eq!(app.init()[3], InitStep::Register);
    assert_eq!(app.init().len(), 9);
    assert_eq!(shutdown_steps(Family::Apps), vec![ShutdownStep::CloseWebSocket, ShutdownStep::Unregister]);
    assert_eq!(on_init_step(InitStep::Register, false), InitVerdict::Abort);
    assert_eq!(on_init_step(InitStep::EnsureDataDir, false), InitVerdict::Continue);
    assert_eq!(
        shutdown_steps(Family::Components),
        vec![ShutdownStep::SetNotReady, ShutdownStep::CloseWebSocket, ShutdownStep::Unregister]
    );
}

#[test]
fn six_failed_heartbeats_register_anew() {
    let mut h = HeartbeatRun::new(Family::Components);
    for _ in 0..5 {
        assert_eq!(h.on_beat(false), HeartbeatStep::Wait);
    }
    assert_eq!(h.on_beat(true), HeartbeatStep::Wait);
    for _ in 0..5 {
        assert_eq!(h.on_beat(false), HeartbeatStep::Wait);
    }
    assert_eq!(h.on_beat(false), HeartbeatStep::Reregister);
    h.on_reregister(false);
    assert_eq!(h.on_beat(false), HeartbeatStep::Reregister);
    h.on_reregister(true);
    assert_eq!(h.on_beat(false), HeartbeatStep::Wait);
    let mut app = HeartbeatRun::new(Family::Apps);
    for _ in 0..20 {
        assert_eq!(app.on_beat(false), HeartbeatStep::Wait);
    }
}
