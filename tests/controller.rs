use rust_operator::controller::{
    compute_status, error_policy, finalizer_patch, has_finalizer, ready_condition, status_changed, Action, Next,
    Outcome, Phase, ReconcileError, Reconciler, RustOperator, StoreOp, RESYNC_SECS, RETRY_SECS,
};
use rust_operator::crd::{HwCondition, RustOperatorSpec, RustOperatorStatus};
use rust_operator::resources::{OwnerReference, PLACEHOLDER_HTML};

fn owner() -> OwnerReference {
    OwnerReference {
        api_version: "rootster.xyz/v1".to_string(),
        kind: "RustOperator".to_string(),
        name: "web".to_string(),
        uid: "uid-1".to_string(),
        controller: Some(true),
        block_owner_deletion: Some(true),
    }
}

fn scenario_a() -> RustOperatorSpec {
    RustOperatorSpec {
        message: "hi".to_string(),
        html: String::new(),
        replicas: 1,
        service_type: "ClusterIP".to_string(),
        ingress_host: String::new(),
        tls_secret_name: String::new(),
    }
}

fn resource(spec: RustOperatorSpec) -> RustOperator {
    RustOperator {
        name: "web".to_string(),
        namespace: Some("apps".to_string()),
        deletion_requested: false,
        finalizers: Vec::new(),
        owner: Some(owner()),
        spec,
        status: None,
    }
}

/// Drives a reconcile to its end: every operation succeeds and the workload
/// reports `ready` ready replicas. Returns the operations and the end.
fn drive(res: RustOperator, ready: Option<i32>) -> (Vec<StoreOp>, Result<Action, ReconcileError>) {
    let mut r = Reconciler::start(res);
    let mut ops = Vec::new();
    let mut out = Outcome::Succeeded;
    loop {
        match r.next(out) {
            Next::Perform(op) => {
                out = match op {
                    StoreOp::ApplyDeployment(_) => Outcome::DeploymentApplied(ready),
                    _ => Outcome::Succeeded,
                };
                ops.push(op);
            }
            Next::Finish(end) => return (ops, end),
        }
    }
}

fn ingress_of(ops: &[StoreOp]) -> Option<&rust_operator::resources::IngressManifest> {
    ops.iter().find_map(|o| match o {
        StoreOp::ApplyIngress(i) => Some(i),
        _ => None,
    })
}

fn rollout_hash(ops: &[StoreOp]) -> String {
    for o in ops {
        if let StoreOp::ApplyDeployment(d) = o {
            return d.template_annotations[0].1.clone();
        }
    }
    panic!("no deployment applied");
}

#[test]
fn scenario_a_plain_site() {
    let (ops, end) = drive(resource(scenario_a()), Some(1));
    assert_eq!(end, Ok(Action::RequeueAfter(30)));
    assert_eq!(ops.len(), 6);
    match &ops[0] {
        StoreOp::AddFinalizer(f) => {
            assert_eq!(f, &vec!["rustoperators.rootster.xyz/finalizer".to_string()])
        }
        other => panic!("unexpected {:?}", other),
    }
    match &ops[1] {
        StoreOp::ApplyConfigMap(cm) => assert_eq!(cm.data[0].1, PLACEHOLDER_HTML),
        other => panic!("unexpected {:?}", other),
    }
    match &ops[2] {
        StoreOp::ApplyDeployment(d) => assert_eq!(d.replicas, 1),
        other => panic!("unexpected {:?}", other),
    }
    match &ops[3] {
        StoreOp::ApplyService(s) => assert_eq!(s.meta.name, "web-service"),
        other => panic!("unexpected {:?}", other),
    }
    match &ops[4] {
        StoreOp::DeleteIngress(n) => assert_eq!(n, "web"),
        other => panic!("unexpected {:?}", other),
    }
    assert!(ingress_of(&ops).is_none());
    match &ops[5] {
        StoreOp::PatchStatus(s) => {
            assert_eq!(s.observed_message.as_deref(), Some("hi"));
            assert_eq!(s.ready_replicas, Some(1));
            let c = s.conditions.as_ref().expect("conditions");
            assert_eq!(c.len(), 1);
            assert_eq!(c[0].type_, "Ready");
            assert_eq!(c[0].status, "True");
            assert_eq!(c[0].reason.as_deref(), Some("PodsAvailable"));
            assert_eq!(c[0].message.as_deref(), Some("ready_replicas=1"));
        }
        other => panic!("unexpected {:?}", other),
    }
}

#[test]
fn scenario_b_ingress_without_tls() {
    let mut spec = scenario_a();
    spec.ingress_host = "example.com".to_string();
    let (ops, end) = drive(resource(spec), Some(1));
    assert_eq!(end, Ok(Action::RequeueAfter(30)));
    let ing = ingress_of(&ops).expect("ingress applied");
    assert_eq!(ing.meta.name, "web");
    assert_eq!(ing.host, "example.com");
    assert_eq!(ing.path, "/");
    assert_eq!(ing.path_type, "Prefix");
    assert_eq!(ing.backend_service, "web-service");
    assert_eq!(ing.backend_port, 80);
    assert!(ing.tls.is_none());
    assert!(!ops.iter().any(|o| matches!(o, StoreOp::DeleteIngress(_))));
}

#[test]
fn scenario_c_tls_added() {
    let mut b = scenario_a();
    b.ingress_host = "example.com".to_string();
    let (ops_b, _) = drive(resource(b), Some(1));
    let mut c = scenario_a();
    c.ingress_host = "example.com".to_string();
    c.tls_secret_name = "tls-secret".to_string();
    let (ops_c, _) = drive(resource(c), Some(1));
    let tls = ingress_of(&ops_c).expect("ingress").tls.as_ref().expect("tls block");
    assert_eq!(tls.secret_name, "tls-secret");
    assert_eq!(tls.hosts, vec!["example.com".to_string()]);
    assert_eq!(rollout_hash(&ops_b), rollout_hash(&ops_c));
}

#[test]
fn scenario_d_deletion() {
    let mut res = resource(scenario_a());
    res.deletion_requested = true;
    res.finalizers = vec![
        "example.com/other".to_string(),
        "rustoperators.rootster.xyz/finalizer".to_string(),
    ];
    let mut r = Reconciler::start(res);
    let mut names = Vec::new();
    let mut out = Outcome::Failed;
    let end = loop {
        match r.next(out) {
            Next::Perform(op) => {
                match &op {
                    StoreOp::DeleteDeployment(n) => names.push(format!("deployment/{}", n)),
                    StoreOp::DeleteService(n) => names.push(format!("service/{}", n)),
                    StoreOp::DeleteConfigMap(n) => names.push(format!("configmap/{}", n)),
                    StoreOp::RemoveFinalizer(f) => {
                        assert_eq!(f, &vec!["example.com/other".to_string()]);
                        names.push("finalizers".to_string());
                    }
                    other => panic!("unexpected {:?}", other),
                }
                // deletes fail (not found); the finalizer write succeeds
                out = if matches!(op, StoreOp::RemoveFinalizer(_)) {
                    Outcome::Succeeded
                } else {
                    Outcome::Failed
                };
            }
            Next::Finish(end) => break end,
        }
    };
    assert_eq!(
        names,
        vec!["deployment/web", "service/web-service", "configmap/web", "finalizers"]
    );
    assert_eq!(end, Ok(Action::AwaitChange));
}

#[test]
fn ingress_removed_when_host_turns_blank() {
    let mut spec = scenario_a();
    spec.ingress_host = "   ".to_string();
    let (ops, _) = drive(resource(spec), Some(1));
    assert!(ingress_of(&ops).is_none());
    assert!(ops.iter().any(|o| matches!(o, StoreOp::DeleteIngress(n) if n == "web")));
}

#[test]
fn status_write_skipped_when_unchanged() {
    let (ops, _) = drive(resource(scenario_a()), Some(1));
    let written = match &ops[5] {
        StoreOp::PatchStatus(s) => s.clone(),
        other => panic!("unexpected {:?}", other),
    };
    let mut res = resource(scenario_a());
    res.status = Some(written);
    let (ops2, end) = drive(res, Some(1));
    assert_eq!(end, Ok(Action::RequeueAfter(RESYNC_SECS)));
    assert!(!ops2.iter().any(|o| matches!(o, StoreOp::PatchStatus(_))));
    assert_eq!(ops2.len(), 5);
}

#[test]
fn status_written_when_ready_count_changes() {
    let (ops, _) = drive(resource(scenario_a()), Some(1));
    let written = match &ops[5] {
        StoreOp::PatchStatus(s) => s.clone(),
        other => panic!("unexpected {:?}", other),
    };
    let mut res = resource(scenario_a());
    res.status = Some(written);
    let (ops2, _) = drive(res, Some(0));
    match ops2.last() {
        Some(StoreOp::PatchStatus(s)) => {
            assert_eq!(s.ready_replicas, Some(0));
            let c = s.conditions.as_ref().unwrap();
            assert_eq!(c.len(), 1);
            assert_eq!(c[0].status, "False");
            assert_eq!(c[0].reason.as_deref(), Some("Scaling"));
        }
        other => panic!("unexpected {:?}", other),
    }
}

#[test]
fn status_change_detection() {
    let base = compute_status(&None, "hi", 2);
    assert!(status_changed(&base, &None));
    assert!(!status_changed(&base, &Some(base.clone())));
    let other_msg = compute_status(&None, "bye", 2);
    assert!(status_changed(&other_msg, &Some(base.clone())));
    let other_ready = compute_status(&Some(base.clone()), "hi", 3);
    assert!(status_changed(&other_ready, &Some(base.clone())));
    let empty = RustOperatorStatus { observed_message: None, ready_replicas: None, conditions: None };
    assert!(!status_changed(&empty, &None));
}

#[test]
fn compute_status_keeps_other_conditions() {
    let old = RustOperatorStatus {
        observed_message: Some("old".to_string()),
        ready_replicas: Some(0),
        conditions: Some(vec![
            HwCondition {
                type_: "Other".to_string(),
                status: "True".to_string(),
                reason: None,
                message: None,
            },
            HwCondition {
                type_: "Ready".to_string(),
                status: "False".to_string(),
                reason: Some("Scaling".to_string()),
                message: Some("ready_replicas=0".to_string()),
            },
        ]),
    };
    let s = compute_status(&Some(old), "new", 4);
    assert_eq!(s.observed_message.as_deref(), Some("new"));
    assert_eq!(s.ready_replicas, Some(4));
    let c = s.conditions.unwrap();
    assert_eq!(c.len(), 2);
    assert_eq!(c[0].type_, "Other");
    assert_eq!(c[1].type_, "Ready");
    assert_eq!(c[1].status, "True");
    assert_eq!(c[1].message.as_deref(), Some("ready_replicas=4"));
}

#[test]
fn ready_condition_values() {
    let up = ready_condition(3);
    assert_eq!(up.status, "True");
    assert_eq!(up.reason.as_deref(), Some("PodsAvailable"));
    assert_eq!(up.message.as_deref(), Some("ready_replicas=3"));
    let down = ready_condition(-2);
    assert_eq!(down.status, "False");
    assert_eq!(down.reason.as_deref(), Some("Scaling"));
    assert_eq!(down.message.as_deref(), Some("ready_replicas=-2"));
}

#[test]
fn failed_apply_ends_with_store_error_and_retry() {
    let mut r = Reconciler::start(resource(scenario_a()));
    assert!(matches!(r.next(Outcome::Succeeded), Next::Perform(StoreOp::AddFinalizer(_))));
    assert!(matches!(r.next(Outcome::Succeeded), Next::Perform(StoreOp::ApplyConfigMap(_))));
    match r.next(Outcome::Failed) {
        Next::Finish(Err(e)) => {
            assert_eq!(e, ReconcileError::Store);
            assert_eq!(error_policy(&e), Action::RequeueAfter(10));
        }
        other => panic!("unexpected {:?}", other),
    }
    assert_eq!(r.phase, Phase::Finished);
    assert_eq!(RETRY_SECS, 10);
}

#[test]
fn missing_owner_is_a_typed_error() {
    let mut res = resource(scenario_a());
    res.owner = None;
    let (ops, end) = drive(res, Some(1));
    assert_eq!(ops.len(), 1);
    assert_eq!(end, Err(ReconcileError::MissingOwnerReference));
}

#[test]
fn namespace_defaults() {
    let mut res = resource(scenario_a());
    assert_eq!(Reconciler::start(resource(scenario_a())).namespace(), "apps");
    res.namespace = None;
    assert_eq!(Reconciler::start(res).namespace(), "default");
}

const TOKEN: &str = "rustoperators.rootster.xyz/finalizer";

#[test]
fn finalizer_lists() {
    let none: Vec<String> = Vec::new();
    assert_eq!(finalizer_patch(&none, true), vec![TOKEN.to_string()]);
    assert!(finalizer_patch(&none, false).is_empty());
    let other = vec!["a/b".to_string()];
    assert_eq!(finalizer_patch(&other, true), vec!["a/b".to_string(), TOKEN.to_string()]);
    assert_eq!(finalizer_patch(&other, false), other);
    let both = vec![TOKEN.to_string(), "a/b".to_string(), TOKEN.to_string()];
    assert_eq!(finalizer_patch(&both, true), both);
    assert_eq!(finalizer_patch(&both, false), vec!["a/b".to_string()]);
    assert!(has_finalizer(&both));
    assert!(!has_finalizer(&other));
}

#[test]
fn finalizer_already_present_is_not_rewritten() {
    let mut res = resource(scenario_a());
    res.finalizers = vec!["a/b".to_string(), TOKEN.to_string()];
    let (ops, end) = drive(res, Some(1));
    assert_eq!(end, Ok(Action::RequeueAfter(30)));
    assert_eq!(ops.len(), 5);
    assert!(matches!(ops[0], StoreOp::ApplyConfigMap(_)));
    assert!(!ops
        .iter()
        .any(|o| matches!(o, StoreOp::AddFinalizer(_) | StoreOp::RemoveFinalizer(_))));
}
