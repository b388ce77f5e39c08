use trivy_scheduler::host::{parse_host, HostEndpoint};
use trivy_scheduler::image::Image;
use trivy_scheduler::inventory::{
    aggregate_hosts, count_failed_hosts, ContainerRecord, InventorySet,
};
use trivy_scheduler::notify::{notifications_for, render_template, sender_args};
use trivy_scheduler::scan::{
    classify_exit_code, scanner_args, scanner_env, vulnerable_images, EnvEntry, ScanOutcome,
};

fn record(name: &str, digest: &str) -> ContainerRecord {
    ContainerRecord { name: name.to_string(), digest: digest.to_string() }
}

#[test]
fn digest_normalization_strips_prefix() {
    let img = Image::new("app:latest", "sha256:abc123");
    assert_eq!(img.id, "abc123");
    assert_eq!(img.name, "app:latest");
}

#[test]
fn digest_normalization_keeps_all_after_first_colon() {
    let img = Image::new("app", "sha256:abc:def");
    assert_eq!(img.id, "abc:def");
}

#[test]
fn digest_normalization_empty_digest() {
    let img = Image::new("app", "sha256:");
    assert_eq!(img.id, "");
}

#[test]
fn image_identity_is_digest_only() {
    let a = Image::new("app:latest", "sha256:d1");
    let b = Image::new("app:v2", "sha256:d1");
    let c = Image::new("app:latest", "sha256:d2");
    assert!(a == b);
    assert!(a != c);
}

#[test]
fn dedup_same_digest_two_names() {
    let mut inv = InventorySet::new();
    inv.insert(Image::new("app:latest", "sha256:d1"));
    inv.insert(Image::new("app:v2", "sha256:d1"));
    assert_eq!(inv.len(), 1);
    assert!(inv.contains_digest("d1"));
    // first-seen display name is retained
    assert_eq!(inv.images()[0].name, "app:latest");
}

#[test]
fn dedup_distinct_digests_kept() {
    let mut inv = InventorySet::new();
    inv.insert(Image::new("a", "sha256:d1"));
    inv.insert(Image::new("b", "sha256:d2"));
    assert_eq!(inv.len(), 2);
    assert!(inv.contains_digest("d1"));
    assert!(inv.contains_digest("d2"));
    assert!(!inv.contains_digest("d3"));
}

#[test]
fn aggregate_dedups_across_hosts() {
    let hosts = vec![
        Some(vec![record("svc:v1", "sha256:d1")]),
        Some(vec![record("svc:v2", "sha256:d1")]),
    ];
    let inv = aggregate_hosts(&hosts);
    assert_eq!(inv.len(), 1);
    assert_eq!(inv.images()[0].name, "svc:v1");
    assert_eq!(inv.images()[0].id, "d1");
}

#[test]
fn aggregate_isolates_failed_host() {
    let hosts = vec![None, Some(vec![record("x:1", "sha256:dx")])];
    let inv = aggregate_hosts(&hosts);
    assert_eq!(inv.len(), 1);
    assert!(inv.contains_digest("dx"));
}

#[test]
fn aggregate_all_hosts_failed_is_empty() {
    let hosts: Vec<Option<Vec<ContainerRecord>>> = vec![None, None];
    let inv = aggregate_hosts(&hosts);
    assert_eq!(inv.len(), 0);
}

#[test]
fn aggregate_no_hosts_is_empty() {
    let hosts: Vec<Option<Vec<ContainerRecord>>> = Vec::new();
    assert_eq!(aggregate_hosts(&hosts).len(), 0);
}

#[test]
fn failed_host_count_distinguishes_total_failure() {
    let all_failed: Vec<Option<Vec<ContainerRecord>>> = vec![None, None];
    assert_eq!(count_failed_hosts(&all_failed), 2);
    let clean = vec![Some(Vec::new()), None, Some(vec![record("a", "sha256:d")])];
    assert_eq!(count_failed_hosts(&clean), 1);
    assert_eq!(count_failed_hosts(&Vec::new()), 0);
}

#[test]
fn classify_zero_is_clean() {
    assert_eq!(classify_exit_code(0), ScanOutcome::Clean);
}

#[test]
fn classify_nonzero_is_vulnerable() {
    assert_eq!(classify_exit_code(1), ScanOutcome::Vulnerable);
    assert_eq!(classify_exit_code(42), ScanOutcome::Vulnerable);
    assert_eq!(classify_exit_code(-1), ScanOutcome::Vulnerable);
}

#[test]
fn template_substitution_both_placeholders() {
    let img = Image::new("app:latest", "sha256:abc123");
    let msg = render_template("Found: {name} ({id})", &img);
    assert_eq!(msg, "Found: app:latest (abc123)");
}

#[test]
fn template_without_placeholders_unchanged() {
    let img = Image::new("app:latest", "sha256:abc123");
    let msg = render_template("Vulnerabilities found {somewhere}", &img);
    assert_eq!(msg, "Vulnerabilities found {somewhere}");
}

#[test]
fn template_repeated_placeholder_substitutes_all() {
    let img = Image::new("app", "sha256:d");
    let msg = render_template("{name} and {name} again, {id}/{id}", &img);
    assert_eq!(msg, "app and app again, d/d");
}

#[test]
fn template_empty_renders_empty() {
    let img = Image::new("app", "sha256:d");
    assert_eq!(render_template("", &img), "");
}

#[test]
fn default_template_renders() {
    let img = Image::new("db:9", "sha256:feed");
    let msg = render_template("Vulnerabilities found in image '{name}'", &img);
    assert_eq!(msg, "Vulnerabilities found in image 'db:9'");
}

#[test]
fn scanner_env_filters_by_prefix() {
    let vars = vec![
        EnvEntry { key: "TRIVY_SEVERITY".to_string(), value: "HIGH".to_string() },
        EnvEntry { key: "PATH".to_string(), value: "/usr/bin".to_string() },
        EnvEntry { key: "HOME".to_string(), value: "/root".to_string() },
        EnvEntry { key: "TRIVY_DEBUG".to_string(), value: "true".to_string() },
    ];
    let env = scanner_env(&vars);
    assert_eq!(env.len(), 3);
    assert_eq!(env[0].key, "TRIVY_TEMPLATE");
    assert_eq!(env[0].value, "@templates/html.tpl");
    assert_eq!(env[1].key, "TRIVY_SEVERITY");
    assert_eq!(env[1].value, "HIGH");
    assert_eq!(env[2].key, "TRIVY_DEBUG");
    assert_eq!(env[2].value, "true");
}

#[test]
fn scanner_env_empty_vars_keeps_template() {
    let env = scanner_env(&Vec::new());
    assert_eq!(env.len(), 1);
    assert_eq!(env[0].key, "TRIVY_TEMPLATE");
}

#[test]
fn scanner_args_shape() {
    let img = Image::new("web:1", "sha256:beef");
    let args = scanner_args(&img);
    let expect = vec![
        "image",
        "--format",
        "template",
        "--exit-code",
        "1",
        "--output",
        "/output/beef.html",
        "web:1",
    ];
    assert_eq!(args, expect);
}

#[test]
fn vulnerable_selection_keeps_order() {
    let images = vec![
        Image::new("a", "sha256:d1"),
        Image::new("b", "sha256:d2"),
        Image::new("c", "sha256:d3"),
    ];
    let outcomes = vec![ScanOutcome::Vulnerable, ScanOutcome::Clean, ScanOutcome::Vulnerable];
    let v = vulnerable_images(&images, &outcomes);
    assert_eq!(v.len(), 2);
    assert_eq!(v[0].id, "d1");
    assert_eq!(v[1].id, "d3");
}

#[test]
fn vulnerable_selection_none() {
    let images = vec![Image::new("a", "sha256:d1")];
    let outcomes = vec![ScanOutcome::Clean];
    assert_eq!(vulnerable_images(&images, &outcomes).len(), 0);
}

#[test]
fn sender_args_shape() {
    let args = sender_args("telegram://token@chat", "hello");
    let expect = vec!["send", "--url", "telegram://token@chat", "--message", "hello"];
    assert_eq!(args, expect);
}

#[test]
fn parse_host_unix_socket() {
    match parse_host("unix:///var/run/docker.sock") {
        HostEndpoint::UnixSocket(p) => assert_eq!(p, "/var/run/docker.sock"),
        HostEndpoint::Remote(_) => panic!("expected a unix socket"),
    }
}

#[test]
fn parse_host_remote_url() {
    match parse_host("tcp://10.0.0.2:2375") {
        HostEndpoint::Remote(u) => assert_eq!(u, "tcp://10.0.0.2:2375"),
        HostEndpoint::UnixSocket(_) => panic!("expected a remote url"),
    }
}

#[test]
fn end_to_end_two_hosts_one_notification() {
    let hosts = vec![
        Some(vec![record("svc:v1", "sha256:D1")]),
        Some(vec![record("svc:v2", "sha256:D1")]),
    ];
    let inv = aggregate_hosts(&hosts);
    assert_eq!(inv.len(), 1);

    let outcome = classify_exit_code(1);
    assert_eq!(outcome, ScanOutcome::Vulnerable);
    let outcomes = vec![outcome];
    let vulnerable = vulnerable_images(inv.images(), &outcomes);
    assert_eq!(vulnerable.len(), 1);

    let msgs = notifications_for("Found: {name} ({id})", &vulnerable);
    assert_eq!(msgs.len(), 1);
    assert_eq!(msgs[0], "Found: svc:v1 (D1)");
}
