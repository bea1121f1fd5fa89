use avi_exporter::client::{worker_count, AviClient, Health};
use avi_exporter::collect::{metric_address, plan_tasks, CollectionPass, FetchOutcome};
use avi_exporter::config::{CollectionConfig, ConfigEntry};
use avi_exporter::route::{error_reply, reply_for, route, success_reply, unknown_reply, Route};
use avi_exporter::text::{concat_texts, integer_text, join_commas, natural_text};

fn strings(items: &[&str]) -> Vec<String> {
    items.iter().map(|s| s.to_string()).collect()
}

fn pairs(items: &[(&str, &str)]) -> Vec<(String, String)> {
    items.iter().map(|(k, v)| (k.to_string(), v.to_string())).collect()
}

fn client_with(config: CollectionConfig, threads: u16) -> AviClient {
    AviClient::new(
        "admin".to_string(),
        "secret".to_string(),
        "ctrl.example".to_string(),
        "config.yaml".to_string(),
        threads,
        config,
    )
}

#[test]
fn empty_entry_sends_no_params() {
    let e = ConfigEntry::empty();
    assert!(e.query_params().is_empty());
}

#[test]
fn tenants_joined_into_one_param() {
    let mut e = ConfigEntry::empty();
    e.tenant = strings(&["b", "a", "c"]);
    let q = e.query_params();
    assert_eq!(q, pairs(&[("tenant", "b,a,c")]));
    assert_eq!(q.iter().filter(|p| p.0 == "tenant").count(), 1);
}

#[test]
fn every_filter_in_order() {
    let e = ConfigEntry {
        entity_name: strings(&["vs1", "vs2"]),
        tenant: strings(&["t1"]),
        metric_id: strings(&["cpu", "mem"]),
        description: true,
    };
    assert_eq!(
        e.query_params(),
        pairs(&[
            ("tenant", "t1"),
            ("entity_name", "vs1,vs2"),
            ("metric_id", "cpu,mem"),
            ("description", "true"),
        ])
    );
}

#[test]
fn filters_are_independent() {
    let mut e = ConfigEntry::empty();
    e.metric_id = strings(&["cpu"]);
    assert_eq!(e.query_params(), pairs(&[("metric_id", "cpu")]));
    let mut d = ConfigEntry::empty();
    d.description = true;
    assert_eq!(d.query_params(), pairs(&[("description", "true")]));
}

#[test]
fn entry_without_tenants_uses_placeholder() {
    let e = ConfigEntry::empty();
    assert_eq!(e.tenants(), strings(&["empty"]));
    let mut f = ConfigEntry::empty();
    f.tenant = strings(&["x", "y"]);
    assert_eq!(f.tenants(), strings(&["x", "y"]));
}

#[test]
fn end_to_end_plan_two_tenants() {
    let mut config = CollectionConfig::new();
    let mut e = ConfigEntry::empty();
    e.tenant = strings(&["t1", "t2"]);
    e.metric_id = strings(&["cpu"]);
    config.insert("/api/m".to_string(), e);
    let client = client_with(config, 4);
    let pass = client.metrics();
    assert_eq!(pass.task_count(), 2);
    let first = pass.task(0);
    let second = pass.task(1);
    assert_eq!(first.tenant, "t1");
    assert_eq!(second.tenant, "t2");
    for t in [first, second] {
        assert_eq!(t.uri, "https://ctrl.example/api/m");
        assert_eq!(t.path, "/api/m");
        assert_eq!(t.query, pairs(&[("tenant", "t1,t2"), ("metric_id", "cpu")]));
    }
}

#[test]
fn plan_covers_every_entry() {
    let mut config = CollectionConfig::new();
    config.insert("/a".to_string(), ConfigEntry::empty());
    let mut e = ConfigEntry::empty();
    e.tenant = strings(&["x", "y", "z"]);
    config.insert("/b".to_string(), e);
    let tasks = plan_tasks("c", &config);
    assert_eq!(tasks.len(), 4);
    assert_eq!(tasks[0].tenant, "empty");
    assert!(tasks[0].query.is_empty());
    assert_eq!(tasks[3].tenant, "z");
    assert_eq!(tasks[3].uri, "https://c/b");
}

#[test]
fn insert_replaces_existing_path() {
    let mut config = CollectionConfig::new();
    config.insert("/a".to_string(), ConfigEntry::empty());
    config.insert("/b".to_string(), ConfigEntry::empty());
    let mut e = ConfigEntry::empty();
    e.description = true;
    config.insert("/a".to_string(), e);
    assert_eq!(config.len(), 2);
    assert_eq!(config.path_at(0), "/a");
    assert!(config.entry_at(0).description);
    assert!(!config.entry_at(1).description);
}

#[test]
fn snapshot_survives_reload() {
    let mut config = CollectionConfig::new();
    config.insert("/old".to_string(), ConfigEntry::empty());
    let mut client = client_with(config, 4);
    let pass = client.metrics();
    let mut fresh = CollectionConfig::new();
    fresh.insert("/new1".to_string(), ConfigEntry::empty());
    fresh.insert("/new2".to_string(), ConfigEntry::empty());
    client.update_config(fresh);
    assert_eq!(pass.task_count(), 1);
    assert_eq!(pass.task(0).path, "/old");
    let next = client.metrics();
    assert_eq!(next.task_count(), 2);
    assert_eq!(next.task(0).path, "/new1");
    assert_eq!(next.task(1).path, "/new2");
}

fn tasks_for(paths: &[&str]) -> CollectionConfig {
    let mut config = CollectionConfig::new();
    for p in paths {
        config.insert(p.to_string(), ConfigEntry::empty());
    }
    config
}

#[test]
fn pass_never_exceeds_workers() {
    let tasks = plan_tasks("c", &tasks_for(&["/1", "/2", "/3", "/4", "/5"]));
    let mut pass = CollectionPass::new(tasks, 2);
    assert_eq!(pass.start_next(), Some(0));
    assert_eq!(pass.start_next(), Some(1));
    assert_eq!(pass.start_next(), None);
    assert_eq!(pass.in_flight(), 2);
    assert!(pass.complete(1, FetchOutcome::Fetched("b".to_string())));
    assert_eq!(pass.start_next(), Some(2));
    assert_eq!(pass.start_next(), None);
    let mut finished = 1;
    while !pass.is_done() {
        assert!(pass.in_flight() <= 2);
        let next = (0..5).find(|&i| pass.complete(i, FetchOutcome::Fetched(format!("{}", i))));
        assert!(next.is_some());
        finished += 1;
        while pass.start_next().is_some() {}
    }
    assert_eq!(finished, 5);
    assert_eq!(pass.aggregate(), "b0234");
}

#[test]
fn complete_rejects_task_not_running() {
    let tasks = plan_tasks("c", &tasks_for(&["/1", "/2"]));
    let mut pass = CollectionPass::new(tasks, 4);
    assert!(!pass.complete(0, FetchOutcome::Fetched("x".to_string())));
    assert_eq!(pass.start_next(), Some(0));
    assert!(pass.complete(0, FetchOutcome::Fetched("x".to_string())));
    assert!(!pass.complete(0, FetchOutcome::Fetched("y".to_string())));
    assert!(!pass.complete(7, FetchOutcome::Fetched("y".to_string())));
    assert_eq!(pass.aggregate(), "x");
}

#[test]
fn one_failure_keeps_other_fragments() {
    let tasks = plan_tasks("c", &tasks_for(&["/1", "/2", "/3"]));
    let mut pass = CollectionPass::new(tasks, 4);
    while pass.start_next().is_some() {}
    assert!(pass.complete(2, FetchOutcome::Fetched("{\"c\":3}".to_string())));
    assert!(pass.complete(0, FetchOutcome::Failed("timeout".to_string())));
    assert!(pass.complete(1, FetchOutcome::Fetched("{\"b\":2}".to_string())));
    assert!(pass.is_done());
    assert_eq!(pass.aggregate(), "{\"c\":3}{\"b\":2}");
}

#[test]
fn zero_workers_start_nothing() {
    let tasks = plan_tasks("c", &tasks_for(&["/1"]));
    let mut pass = CollectionPass::new(tasks, 0);
    assert_eq!(pass.start_next(), None);
    assert!(!pass.is_done());
}

#[test]
fn empty_config_pass_is_done_at_once() {
    let client = client_with(CollectionConfig::new(), 4);
    let pass = client.metrics();
    assert!(pass.is_done());
    assert_eq!(pass.aggregate(), "");
}

#[test]
fn health_follows_login() {
    let mut client = client_with(CollectionConfig::new(), 4);
    assert_eq!(client.health(), Health::Unhealthy);
    assert_eq!(client.health().as_text(), "Unhealthy");
    let report = client.login(1_000, Some(300));
    assert_eq!(report, "Login expires in 1300");
    assert_eq!(client.expires, 1300);
    assert_eq!(client.health(), Health::Healthy);
    assert!(client.needs_renewal(5_000));
    assert_eq!(client.health().as_text(), "Healthy");
    let report = client.login(6_000, None);
    assert_eq!(report, "Login expires in 0");
    assert_eq!(client.health(), Health::Unhealthy);
}

#[test]
fn renewal_at_and_after_expiry() {
    let mut client = client_with(CollectionConfig::new(), 4);
    assert!(client.needs_renewal(0));
    client.login(100, Some(50));
    assert!(!client.needs_renewal(149));
    assert!(client.needs_renewal(150));
    assert!(client.needs_renewal(151));
}

#[test]
fn expiry_rendered_in_utc() {
    let mut client = client_with(CollectionConfig::new(), 4);
    assert!(client.expiry_in_range());
    assert_eq!(client.expires(), "1970-01-01 00:00:00");
    client.login(1_600_000_000, Some(3_600));
    assert_eq!(client.expires(), "2020-09-13 13:26:40");
    client.expires = -1;
    assert!(!client.expiry_in_range());
}

#[test]
fn login_request_pieces() {
    let client = client_with(CollectionConfig::new(), 4);
    assert_eq!(client.login_address(), "https://ctrl.example/login");
    assert_eq!(
        client.login_body(),
        "{\"username\": \"admin\", \"password\": \"secret\"}"
    );
    assert_eq!(
        AviClient::headers(),
        pairs(&[
            ("X-Avi-Version", "18.1.2"),
            ("user-agent", "kraken-rs"),
            ("content-type", "application/json"),
            ("accept-encoding", "application/json"),
        ])
    );
}

#[test]
fn session_cookie_found_by_name() {
    let names = strings(&["csrftoken", "avi-sessionid", "avi-sessionid"]);
    assert_eq!(AviClient::find_session_cookie(&names), Some(1));
    assert_eq!(AviClient::find_session_cookie(&strings(&["csrftoken"])), None);
    assert_eq!(AviClient::find_session_cookie(&Vec::new()), None);
}

#[test]
fn worker_count_parsing() {
    assert_eq!(worker_count("8"), 8);
    assert_eq!(worker_count("+5"), 5);
    assert_eq!(worker_count("0007"), 7);
    assert_eq!(worker_count("65535"), 65535);
    assert_eq!(worker_count("65536"), 4);
    assert_eq!(worker_count("-1"), 4);
    assert_eq!(worker_count("four"), 4);
    assert_eq!(worker_count(""), 4);
}

#[test]
fn routes_known_paths() {
    assert_eq!(route("GET", "/metrics"), Route::Metrics);
    assert_eq!(route("GET", "/login"), Route::Login);
    assert_eq!(route("GET", "/expires"), Route::Expires);
    assert_eq!(route("GET", "/config"), Route::Config);
    assert_eq!(route("GET", "/refresh_config"), Route::RefreshConfig);
    assert_eq!(route("GET", "/health"), Route::Health);
    assert_eq!(route("POST", "/metrics"), Route::Unknown);
    assert_eq!(route("GET", "/nothing"), Route::Unknown);
}

#[test]
fn unknown_route_is_ok_with_message() {
    let r = unknown_reply("GET", "/nothing");
    assert_eq!(r.status, 200);
    assert_eq!(r.body, "{ \"msg\" : \"GET /nothing is not a recognized action\" }");
    let r = reply_for(Route::Unknown, "POST", "/metrics", Ok("x".to_string()));
    assert_eq!(r.status, 200);
    assert_eq!(r.body, "{ \"msg\" : \"POST /metrics is not a recognized action\" }");
}

#[test]
fn failure_reply_is_500_envelope() {
    let r = error_reply("boom");
    assert_eq!(r.status, 500);
    assert_eq!(r.body, "{\"error\" : \"boom\"}");
    let r = reply_for(Route::Metrics, "GET", "/metrics", Err("down".to_string()));
    assert_eq!(r.status, 500);
    assert_eq!(r.body, "{\"error\" : \"down\"}");
}

#[test]
fn health_reply_status() {
    assert_eq!(success_reply(Route::Health, "Healthy".to_string()).status, 200);
    assert_eq!(success_reply(Route::Health, "Unhealthy".to_string()).status, 503);
    let r = success_reply(Route::Metrics, "data".to_string());
    assert_eq!(r.status, 200);
    assert_eq!(r.body, "data");
}

#[test]
fn text_helpers() {
    assert_eq!(natural_text(0), "0");
    assert_eq!(natural_text(1234567890), "1234567890");
    assert_eq!(natural_text(u64::MAX), "18446744073709551615");
    assert_eq!(integer_text(-42), "-42");
    assert_eq!(integer_text(i64::MIN), "-9223372036854775808");
    assert_eq!(join_commas(&strings(&[])), "");
    assert_eq!(join_commas(&strings(&["a"])), "a");
    assert_eq!(join_commas(&strings(&["a", "b", ""])), "a,b,");
    assert_eq!(concat_texts(&strings(&["ab", "", "c"])), "abc");
    assert_eq!(metric_address("h", "/p"), "https://h/p");
}
