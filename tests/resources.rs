use rust_operator::crd::{default_replicas, default_service_type, HwCondition, RustOperatorSpec};
use rust_operator::resources::{
    desired_configmap, desired_deployment, desired_ingress, desired_service, labels,
    rollout_fingerprint, service_name, upsert_condition, OwnerReference, RolloutInputs,
    FINALIZER, PLACEHOLDER_HTML, ROLLOUT_ANNOTATION,
};

fn owner() -> OwnerReference {
    OwnerReference {
        api_version: "rootster.xyz/v1".to_string(),
        kind: "RustOperator".to_string(),
        name: "web".to_string(),
        uid: "uid-1".to_string(),
        controller: Some(true),
        block_owner_deletion: Some(true),
    }
}

fn spec(html: &str) -> RustOperatorSpec {
    RustOperatorSpec {
        message: "hi".to_string(),
        html: html.to_string(),
        replicas: 1,
        service_type: "ClusterIP".to_string(),
        ingress_host: String::new(),
        tls_secret_name: String::new(),
    }
}

fn cond(t: &str, s: &str) -> HwCondition {
    HwCondition { type_: t.to_string(), status: s.to_string(), reason: None, message: None }
}

#[test]
fn labels_are_name_and_instance() {
    let l = labels("web");
    assert_eq!(
        l,
        vec![
            ("app.kubernetes.io/instance".to_string(), "web".to_string()),
            ("app.kubernetes.io/name".to_string(), "webapp".to_string()),
        ]
    );
}

#[test]
fn naming_constants() {
    assert_eq!(FINALIZER, "rustoperators.rootster.xyz/finalizer");
    assert_eq!(ROLLOUT_ANNOTATION, "rootster.xyz/rollout-hash");
    assert_eq!(service_name("web"), "web-service");
}

#[test]
fn spec_defaults() {
    assert_eq!(default_replicas(), 1);
    assert_eq!(default_service_type(), "ClusterIP");
}

#[test]
fn configmap_uses_placeholder_for_blank_html() {
    for html in ["", "   ", " \t\n "] {
        let cm = desired_configmap("web", &labels("web"), html, owner());
        assert_eq!(cm.data, vec![("index.html".to_string(), PLACEHOLDER_HTML.to_string())]);
    }
    assert_eq!(
        PLACEHOLDER_HTML,
        "<!doctype html><html><body><h1>Hello from Rust operator</h1></body></html>"
    );
}

#[test]
fn configmap_keeps_html_verbatim() {
    let cm = desired_configmap("web", &labels("web"), "  <p>x</p> ", owner());
    assert_eq!(cm.meta.name, "web");
    assert_eq!(cm.meta.labels, labels("web"));
    assert_eq!(cm.meta.owner.uid, "uid-1");
    assert_eq!(cm.data, vec![("index.html".to_string(), "  <p>x</p> ".to_string())]);
}

#[test]
fn fingerprint_exact_values() {
    let empty = rollout_fingerprint(&RolloutInputs { html: String::new() });
    assert_eq!(empty, "bfbab9dd75b6cbfef7580eaef179cc8f67d20f96c9889cb3f2f9939a6096f66f");
    let h1 = rollout_fingerprint(&RolloutInputs { html: "<h1>x</h1>".to_string() });
    assert_eq!(h1, "e39f319626a93e3e280590e981a305df02a9af777a3aee747246c441437ed18e");
    let quoted = rollout_fingerprint(&RolloutInputs { html: "a\"b".to_string() });
    assert_eq!(quoted, "f7a9c444e257fadb1c93dfb17fa6102a77af0de7e514c48c555d514f1bed90ab");
    for fp in [empty, h1, quoted] {
        assert_eq!(fp.len(), 64);
        assert!(fp.chars().all(|c| c.is_ascii_digit() || ('a'..='f').contains(&c)));
    }
}

#[test]
fn fingerprint_follows_html_only() {
    let base = spec("<p>a</p>");
    let d1 = desired_deployment("web", &labels("web"), 1, owner(), &base);
    let mut other = spec("<p>a</p>");
    other.replicas = 5;
    other.service_type = "NodePort".to_string();
    other.ingress_host = "example.com".to_string();
    other.tls_secret_name = "tls".to_string();
    other.message = "changed".to_string();
    let d2 = desired_deployment("web", &labels("web"), 5, owner(), &other);
    assert_eq!(d1.template_annotations, d2.template_annotations);
    let d3 = desired_deployment("web", &labels("web"), 1, owner(), &spec("<p>b</p>"));
    assert_ne!(d1.template_annotations, d3.template_annotations);
}

#[test]
fn deployment_shape() {
    let d = desired_deployment("web", &labels("web"), -3, owner(), &spec(""));
    assert_eq!(d.meta.name, "web");
    assert_eq!(d.replicas, -3);
    assert_eq!(d.selector, labels("web"));
    assert_eq!(d.template_labels, labels("web"));
    assert_eq!(
        d.template_annotations,
        vec![(
            "rootster.xyz/rollout-hash".to_string(),
            "bfbab9dd75b6cbfef7580eaef179cc8f67d20f96c9889cb3f2f9939a6096f66f".to_string()
        )]
    );
    assert_eq!(d.container.name, "nginx");
    assert_eq!(d.container.image, "nginx:latest");
    assert_eq!(d.container.container_port, 80);
    assert_eq!(d.container.mount_name, "html");
    assert_eq!(d.container.mount_path, "/usr/share/nginx/html");
    assert!(d.container.read_only);
    assert_eq!(d.volume_name, "html");
    assert_eq!(d.config_map_name, "web");
}

#[test]
fn manifests_are_deterministic() {
    let a = desired_deployment("web", &labels("web"), 2, owner(), &spec("<b>x</b>"));
    let b = desired_deployment("web", &labels("web"), 2, owner(), &spec("<b>x</b>"));
    assert_eq!(format!("{:?}", a), format!("{:?}", b));
    let a = desired_configmap("web", &labels("web"), "", owner());
    let b = desired_configmap("web", &labels("web"), "", owner());
    assert_eq!(format!("{:?}", a), format!("{:?}", b));
    let a = desired_service("web", &labels("web"), "NodePort", owner());
    let b = desired_service("web", &labels("web"), "NodePort", owner());
    assert_eq!(format!("{:?}", a), format!("{:?}", b));
    let a = desired_ingress("web", &labels("web"), "web-service", "h", "s", owner());
    let b = desired_ingress("web", &labels("web"), "web-service", "h", "s", owner());
    assert_eq!(format!("{:?}", a), format!("{:?}", b));
}

#[test]
fn service_shape() {
    let s = desired_service("web", &labels("web"), "Bogus", owner());
    assert_eq!(s.meta.name, "web-service");
    assert_eq!(s.selector, labels("web"));
    assert_eq!(s.port, 80);
    assert_eq!(s.target_port, 80);
    assert_eq!(s.type_, "Bogus");
}

#[test]
fn ingress_without_tls() {
    let i = desired_ingress("web", &labels("web"), "web-service", "example.com", "", owner());
    assert_eq!(i.meta.name, "web");
    assert_eq!(i.host, "example.com");
    assert_eq!(i.path, "/");
    assert_eq!(i.path_type, "Prefix");
    assert_eq!(i.backend_service, "web-service");
    assert_eq!(i.backend_port, 80);
    assert!(i.tls.is_none());
}

#[test]
fn ingress_with_tls() {
    let i =
        desired_ingress("web", &labels("web"), "web-service", "example.com", "tls-secret", owner());
    let tls = i.tls.expect("tls block");
    assert_eq!(tls.hosts, vec!["example.com".to_string()]);
    assert_eq!(tls.secret_name, "tls-secret");
    let blank = desired_ingress("web", &labels("web"), "web-service", "example.com", " ", owner());
    assert!(blank.tls.is_some());
}

#[test]
fn upsert_appends_new_type() {
    let mut l = vec![cond("A", "x"), cond("B", "y")];
    upsert_condition(&mut l, cond("Ready", "True"));
    assert_eq!(l.len(), 3);
    assert!(l[0] == cond("A", "x"));
    assert!(l[1] == cond("B", "y"));
    assert!(l[2] == cond("Ready", "True"));
}

#[test]
fn upsert_replaces_in_place() {
    let mut l = vec![cond("A", "x"), cond("Ready", "False"), cond("B", "y")];
    upsert_condition(&mut l, cond("Ready", "True"));
    assert_eq!(l.len(), 3);
    assert!(l[0] == cond("A", "x"));
    assert!(l[1] == cond("Ready", "True"));
    assert!(l[2] == cond("B", "y"));
}

#[test]
fn upsert_into_empty() {
    let mut l: Vec<HwCondition> = Vec::new();
    upsert_condition(&mut l, cond("Ready", "False"));
    assert_eq!(l.len(), 1);
    assert!(l[0] == cond("Ready", "False"));
}
