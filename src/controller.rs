//! The reconcile engine as a state machine. A runtime starts one
//! `Reconciler` per resource event, performs each store operation it asks
//! for, and hands back the outcome, until the machine finishes with a
//! scheduling directive or an error.
use vstd::prelude::*;

use crate::crd::{
    conditions_view, opt_view, ConditionView, HwCondition, RustOperatorSpec, RustOperatorStatus,
    SpecView, StatusView,
};
use crate::resources::{
    configmap_spec, deployment_spec, desired_configmap, desired_deployment, desired_ingress,
    desired_service, ingress_spec, labels, labels_spec, service_name, service_name_spec,
    service_spec, strings_view, upsert_condition, upserted, ConfigMapManifest, ConfigMapView,
    DeploymentManifest, DeploymentView, IngressManifest, IngressView, OwnerReference,
    ServiceManifest, ServiceView, FINALIZER,
};
use crate::text::{decimal_string, is_blank, is_blank_spec, signed_decimal};

verus! {

/// Seconds until a resource that reconciled cleanly is looked at again.
pub const RESYNC_SECS: u64 = 30;

/// Seconds until a failed reconcile is retried.
pub const RETRY_SECS: u64 = 10;

/// When the runtime should run the reconcile of a resource again.
#[derive(PartialEq, Eq, Structural, Clone, Copy, Debug)]
pub enum Action {
    /// After this many seconds.
    RequeueAfter(u64),
    /// On the next change of the resource or of an object it owns.
    AwaitChange,
}

/// Why a reconcile stopped short.
#[derive(PartialEq, Eq, Structural, Clone, Copy, Debug)]
pub enum ReconcileError {
    /// A store write that the reconcile depends on failed.
    Store,
    /// The resource carries no identity to which its objects could point back.
    MissingOwnerReference,
}

/// The directive after a failed reconcile: a retry after a short fixed delay.
pub fn error_policy(err: &ReconcileError) -> (r: Action)
    ensures
        r == Action::RequeueAfter(RETRY_SECS),
{
    Action::RequeueAfter(RETRY_SECS)
}

/// `s` without any entry equal to `t`, the others in order.
pub open spec fn without_token(s: Seq<Seq<char>>, t: Seq<char>) -> Seq<Seq<char>>
    decreases s.len(),
{
    if s.len() == 0 {
        s
    } else if s.last() == t {
        without_token(s.drop_last(), t)
    } else {
        without_token(s.drop_last(), t).push(s.last())
    }
}

/// The finalizer list to write onto a resource that holds `current`: with
/// the controller's token added where it is missing while the resource is
/// active, and with only that token taken out once its cleanup is done.
pub open spec fn finalizers_spec(current: Seq<Seq<char>>, present: bool) -> Seq<Seq<char>> {
    if present {
        if current.contains(FINALIZER@) {
            current
        } else {
            current.push(FINALIZER@)
        }
    } else {
        without_token(current, FINALIZER@)
    }
}

proof fn lemma_push_contains(s: Seq<Seq<char>>, a: Seq<char>, x: Seq<char>)
    ensures
        s.push(a).contains(x) <==> s.contains(x) || x == a,
{
    if s.push(a).contains(x) {
        let i = choose|i: int| 0 <= i < s.push(a).len() && s.push(a)[i] == x;
        if i < s.len() {
            assert(s[i] == x);
        }
    }
    if s.contains(x) {
        let i = choose|i: int| 0 <= i < s.len() && s[i] == x;
        assert(s.push(a)[i] == x);
    }
    if x == a {
        assert(s.push(a)[s.len() as int] == x);
    }
}

/// Taking `t` out of a list keeps exactly the other entries.
pub proof fn lemma_without_token(s: Seq<Seq<char>>, t: Seq<char>)
    ensures
        forall|x: Seq<char>| #[trigger]
            without_token(s, t).contains(x) <==> s.contains(x) && x != t,
    decreases s.len(),
{
    if s.len() > 0 {
        let p = s.drop_last();
        lemma_without_token(p, t);
        assert(s =~= p.push(s.last()));
        assert forall|x: Seq<char>| #[trigger]
            without_token(s, t).contains(x) <==> s.contains(x) && x != t by {
            lemma_push_contains(p, s.last(), x);
            lemma_push_contains(without_token(p, t), s.last(), x);
        }
    }
}

/// While the resource is active the written list holds the controller's
/// token and every token it held before, and is the same list where the
/// token was there already. Once cleanup is done the written list lacks the
/// token and keeps every other token.
pub proof fn lemma_finalizer_lists(current: Seq<Seq<char>>)
    ensures
        finalizers_spec(current, true).contains(FINALIZER@),
        forall|x: Seq<char>|
            current.contains(x) ==> #[trigger] finalizers_spec(current, true).contains(x),
        current.contains(FINALIZER@) ==> finalizers_spec(current, true) == current,
        !finalizers_spec(current, false).contains(FINALIZER@),
        forall|x: Seq<char>| #[trigger]
            finalizers_spec(current, false).contains(x) <==> current.contains(x) && x
                != FINALIZER@,
{
    lemma_without_token(current, FINALIZER@);
    assert forall|x: Seq<char>|
        current.contains(x) implies #[trigger] finalizers_spec(current, true).contains(x) by {
        lemma_push_contains(current, FINALIZER@, x);
    }
    lemma_push_contains(current, FINALIZER@, FINALIZER@);
}

fn copy_strings(v: &Vec<String>) -> (r: Vec<String>)
    ensures
        strings_view(r@) == strings_view(v@),
{
    let mut r: Vec<String> = Vec::new();
    let mut i: usize = 0;
    while i < v.len()
        invariant
            0 <= i <= v.len(),
            strings_view(r@) == strings_view(v@).subrange(0, i as int),
        decreases v.len() - i,
    {
        let ghost before = r@;
        r.push(v[i].clone());
        assert(strings_view(r@) =~= strings_view(before).push(v@[i as int]@));
        i = i + 1;
        assert(strings_view(r@) =~= strings_view(v@).subrange(0, i as int));
    }
    assert(strings_view(v@).subrange(0, i as int) =~= strings_view(v@));
    r
}

/// Whether the list holds the controller's token.
pub fn has_finalizer(current: &Vec<String>) -> (r: bool)
    ensures
        r == strings_view(current@).contains(FINALIZER@),
{
    let token = String::from_str(FINALIZER);
    let ghost sv = strings_view(current@);
    let mut i: usize = 0;
    while i < current.len()
        invariant
            0 <= i <= current.len(),
            sv == strings_view(current@),
            token@ == FINALIZER@,
            !sv.subrange(0, i as int).contains(FINALIZER@),
        decreases current.len() - i,
    {
        proof {
            assert(sv.subrange(0, i + 1) =~= sv.subrange(0, i as int).push(sv[i as int]));
            lemma_push_contains(sv.subrange(0, i as int), sv[i as int], FINALIZER@);
        }
        if current[i] == token {
            proof {
                assert(sv[i as int] == FINALIZER@);
                assert(sv.contains(FINALIZER@));
            }
            return true;
        }
        i = i + 1;
    }
    assert(sv.subrange(0, i as int) =~= sv);
    false
}

/// The finalizer list to write onto a resource that holds `current`.
pub fn finalizer_patch(current: &Vec<String>, present: bool) -> (r: Vec<String>)
    ensures
        strings_view(r@) == finalizers_spec(strings_view(current@), present),
{
    let token = String::from_str(FINALIZER);
    if present {
        let mut r = copy_strings(current);
        if !has_finalizer(current) {
            r.push(token);
            assert(strings_view(r@) =~= strings_view(current@).push(FINALIZER@));
        }
        return r;
    }
    let ghost sv = strings_view(current@);
    let mut r: Vec<String> = Vec::new();
    let mut i: usize = 0;
    while i < current.len()
        invariant
            0 <= i <= current.len(),
            sv == strings_view(current@),
            token@ == FINALIZER@,
            strings_view(r@) == without_token(sv.subrange(0, i as int), FINALIZER@),
        decreases current.len() - i,
    {
        let ghost before = r@;
        proof {
            let p = sv.subrange(0, i + 1);
            assert(p.drop_last() =~= sv.subrange(0, i as int));
            assert(p.last() == sv[i as int]);
        }
        if !(current[i] == token) {
            r.push(current[i].clone());
            assert(strings_view(r@) =~= strings_view(before).push(sv[i as int]));
        }
        i = i + 1;
    }
    assert(sv.subrange(0, i as int) =~= sv);
    r
}

/// The readiness condition for `ready` ready replicas.
pub open spec fn ready_condition_spec(ready: i32) -> ConditionView {
    ConditionView {
        type_: "Ready"@,
        status: if ready > 0 { "True"@ } else { "False"@ },
        reason: Some(if ready > 0 { "PodsAvailable"@ } else { "Scaling"@ }),
        message: Some("ready_replicas="@ + signed_decimal(ready as int)),
    }
}

/// The readiness condition for `ready` ready replicas.
pub fn ready_condition(ready: i32) -> (r: HwCondition)
    ensures
        r@ == ready_condition_spec(ready),
{
    let positive = ready > 0;
    HwCondition {
        type_: String::from_str("Ready"),
        status: if positive { String::from_str("True") } else { String::from_str("False") },
        reason: Some(
            if positive {
                String::from_str("PodsAvailable")
            } else {
                String::from_str("Scaling")
            },
        ),
        message: Some(String::from_str("ready_replicas=").concat(decimal_string(ready).as_str())),
    }
}

/// A stored status, or the empty one where none is stored.
pub open spec fn status_or_empty(s: Option<StatusView>) -> StatusView {
    match s {
        Some(v) => v,
        None => StatusView { observed_message: None, ready_replicas: None, conditions: None },
    }
}

/// The status after a reconcile: the message echoed, the ready count, and
/// the readiness condition put into the stored conditions.
pub open spec fn new_status_spec(old: Option<StatusView>, message: Seq<char>, ready: i32) -> StatusView {
    let base = status_or_empty(old);
    StatusView {
        observed_message: Some(message),
        ready_replicas: Some(ready),
        conditions: Some(
            upserted(
                match base.conditions {
                    Some(c) => c,
                    None => Seq::empty(),
                },
                ready_condition_spec(ready),
            ),
        ),
    }
}

/// The status to report after a reconcile that observed `ready` ready replicas.
pub fn compute_status(old: &Option<RustOperatorStatus>, message: &str, ready: i32) -> (r:
    RustOperatorStatus)
    ensures
        r@ == new_status_spec(
            match old {
                Some(s) => Some(s@),
                None => None,
            },
            message@,
            ready,
        ),
{
    let mut conditions: Vec<HwCondition> = match old {
        Some(s) => {
            let copy = s.clone();
            match copy.conditions {
                Some(v) => v,
                None => Vec::new(),
            }
        },
        None => Vec::new(),
    };
    proof {
        let base = status_or_empty(
            match old {
                Some(s) => Some(s@),
                None => None,
            },
        );
        assert(conditions_view(conditions@) == match base.conditions {
            Some(c) => c,
            None => Seq::<ConditionView>::empty(),
        }) by {
            if conditions@.len() == 0 {
                assert(conditions_view(conditions@) =~= Seq::<ConditionView>::empty());
            }
        }
    }
    upsert_condition(&mut conditions, ready_condition(ready));
    RustOperatorStatus {
        observed_message: Some(message.to_owned()),
        ready_replicas: Some(ready),
        conditions: Some(conditions),
    }
}

/// Whether `new` differs from the stored status, an absent one counting as empty.
pub fn status_changed(new: &RustOperatorStatus, old: &Option<RustOperatorStatus>) -> (r: bool)
    ensures
        r == (new@ != status_or_empty(
            match old {
                Some(s) => Some(s@),
                None => None,
            },
        )),
{
    match old {
        Some(s) => !new.eq(s),
        None => !new.eq(&RustOperatorStatus::default()),
    }
}

/// One resource as the reconcile sees it.
#[derive(Debug)]
pub struct RustOperator {
    pub name: String,
    pub namespace: Option<String>,
    /// Set once the user asked for the resource's deletion.
    pub deletion_requested: bool,
    /// The finalizer tokens the resource holds.
    pub finalizers: Vec<String>,
    /// The reference its owned objects carry; none where the resource has no identity yet.
    pub owner: Option<OwnerReference>,
    pub spec: RustOperatorSpec,
    pub status: Option<RustOperatorStatus>,
}

pub struct ResourceView {
    pub name: Seq<char>,
    pub namespace: Option<Seq<char>>,
    pub deletion_requested: bool,
    pub finalizers: Seq<Seq<char>>,
    pub owner: Option<OwnerReference>,
    pub spec: SpecView,
    pub status: Option<StatusView>,
}

impl View for RustOperator {
    type V = ResourceView;

    open spec fn view(&self) -> ResourceView {
        ResourceView {
            name: self.name@,
            namespace: opt_view(self.namespace),
            deletion_requested: self.deletion_requested,
            finalizers: strings_view(self.finalizers@),
            owner: self.owner,
            spec: self.spec@,
            status: match self.status {
                Some(s) => Some(s@),
                None => None,
            },
        }
    }
}

/// The namespace a resource's objects live in: its own, or `default`.
pub open spec fn namespace_spec(ns: Option<Seq<char>>) -> Seq<char> {
    match ns {
        Some(n) => n,
        None => "default"@,
    }
}

/// One operation on the store, in the resource's namespace.
#[derive(Debug)]
pub enum StoreOp {
    /// Writes the resource's finalizer list, with the controller's token
    /// added, as an apply patch.
    AddFinalizer(Vec<String>),
    /// Merge-writes the resource's finalizer list, with the controller's
    /// token taken out.
    RemoveFinalizer(Vec<String>),
    ApplyConfigMap(ConfigMapManifest),
    ApplyDeployment(DeploymentManifest),
    ApplyService(ServiceManifest),
    ApplyIngress(IngressManifest),
    /// Deletes the named ingress; its failure is not the reconcile's.
    DeleteIngress(String),
    DeleteDeployment(String),
    DeleteService(String),
    DeleteConfigMap(String),
    /// Merge-writes the resource's status.
    PatchStatus(RustOperatorStatus),
}

pub enum OpView {
    AddFinalizer(Seq<Seq<char>>),
    RemoveFinalizer(Seq<Seq<char>>),
    ApplyConfigMap(ConfigMapView),
    ApplyDeployment(DeploymentView),
    ApplyService(ServiceView),
    ApplyIngress(IngressView),
    DeleteIngress(Seq<char>),
    DeleteDeployment(Seq<char>),
    DeleteService(Seq<char>),
    DeleteConfigMap(Seq<char>),
    PatchStatus(StatusView),
}

impl View for StoreOp {
    type V = OpView;

    open spec fn view(&self) -> OpView {
        match self {
            StoreOp::AddFinalizer(f) => OpView::AddFinalizer(strings_view(f@)),
            StoreOp::RemoveFinalizer(f) => OpView::RemoveFinalizer(strings_view(f@)),
            StoreOp::ApplyConfigMap(m) => OpView::ApplyConfigMap(m@),
            StoreOp::ApplyDeployment(m) => OpView::ApplyDeployment(m@),
            StoreOp::ApplyService(m) => OpView::ApplyService(m@),
            StoreOp::ApplyIngress(m) => OpView::ApplyIngress(m@),
            StoreOp::DeleteIngress(n) => OpView::DeleteIngress(n@),
            StoreOp::DeleteDeployment(n) => OpView::DeleteDeployment(n@),
            StoreOp::DeleteService(n) => OpView::DeleteService(n@),
            StoreOp::DeleteConfigMap(n) => OpView::DeleteConfigMap(n@),
            StoreOp::PatchStatus(s) => OpView::PatchStatus(s@),
        }
    }
}

/// What the runtime does next for a reconcile.
#[derive(Debug)]
pub enum Next {
    /// Performs this operation and reports its outcome.
    Perform(StoreOp),
    /// The reconcile is over.
    Finish(Result<Action, ReconcileError>),
}

pub enum NextView {
    Perform(OpView),
    Finish(Result<Action, ReconcileError>),
}

impl View for Next {
    type V = NextView;

    open spec fn view(&self) -> NextView {
        match self {
            Next::Perform(op) => NextView::Perform(op@),
            Next::Finish(r) => NextView::Finish(*r),
        }
    }
}

/// What came of the last operation.
#[derive(PartialEq, Eq, Structural, Clone, Copy, Debug)]
pub enum Outcome {
    Succeeded,
    Failed,
    /// The workload was applied; the store reports this many ready replicas, if any.
    DeploymentApplied(Option<i32>),
}

/// Where a reconcile stands: the operation last asked for.
#[derive(PartialEq, Eq, Structural, Clone, Copy, Debug)]
pub enum Phase {
    Begin,
    AddingFinalizer,
    ApplyingConfigMap,
    ApplyingDeployment,
    ApplyingService,
    ApplyingIngress,
    DeletingIngress,
    WritingStatus,
    DeletingDeployment,
    DeletingService,
    DeletingConfigMap,
    RemovingFinalizer,
    Finished,
}

/// The ready count that an outcome of the workload's apply reports.
pub open spec fn ready_of(out: Outcome) -> i32 {
    match out {
        Outcome::DeploymentApplied(Some(n)) => n,
        _ => 0,
    }
}

pub open spec fn stop(e: ReconcileError) -> NextView {
    NextView::Finish(Err(e))
}

/// The status step: the status is written only where it changed.
pub open spec fn status_step(res: ResourceView, ready: i32) -> (Phase, i32, NextView) {
    let new = new_status_spec(res.status, res.spec.message, ready);
    if new != status_or_empty(res.status) {
        (Phase::WritingStatus, ready, NextView::Perform(OpView::PatchStatus(new)))
    } else {
        (Phase::Finished, ready, NextView::Finish(Ok(Action::RequeueAfter(RESYNC_SECS))))
    }
}

/// Once the finalizer is in place: the config object is applied, where the
/// resource has an identity to own it.
pub open spec fn after_finalizer(res: ResourceView, ready: i32) -> (Phase, i32, NextView) {
    match res.owner {
        None => (Phase::Finished, ready, stop(ReconcileError::MissingOwnerReference)),
        Some(o) => (
            Phase::ApplyingConfigMap,
            ready,
            NextView::Perform(
                OpView::ApplyConfigMap(configmap_spec(res.name, labels_spec(res.name), res.spec.html, o)),
            ),
        ),
    }
}

/// The next phase, ready count and step after `phase`, whose operation came
/// to `out`.
pub open spec fn transition(res: ResourceView, phase: Phase, ready: i32, out: Outcome) -> (
    Phase,
    i32,
    NextView,
) {
    let name = res.name;
    let lbls = labels_spec(name);
    let failed = out == Outcome::Failed;
    match phase {
        Phase::Begin => if res.deletion_requested {
            (Phase::DeletingDeployment, ready, NextView::Perform(OpView::DeleteDeployment(name)))
        } else if res.finalizers.contains(FINALIZER@) {
            after_finalizer(res, ready)
        } else {
            (
                Phase::AddingFinalizer,
                ready,
                NextView::Perform(OpView::AddFinalizer(finalizers_spec(res.finalizers, true))),
            )
        },
        Phase::DeletingDeployment => (
            Phase::DeletingService,
            ready,
            NextView::Perform(OpView::DeleteService(service_name_spec(name))),
        ),
        Phase::DeletingService => (
            Phase::DeletingConfigMap,
            ready,
            NextView::Perform(OpView::DeleteConfigMap(name)),
        ),
        Phase::DeletingConfigMap => (
            Phase::RemovingFinalizer,
            ready,
            NextView::Perform(OpView::RemoveFinalizer(finalizers_spec(res.finalizers, false))),
        ),
        Phase::RemovingFinalizer => if failed {
            (Phase::Finished, ready, stop(ReconcileError::Store))
        } else {
            (Phase::Finished, ready, NextView::Finish(Ok(Action::AwaitChange)))
        },
        Phase::Finished => (Phase::Finished, ready, NextView::Finish(Ok(Action::AwaitChange))),
        _ => if failed && phase != Phase::DeletingIngress {
            (Phase::Finished, ready, stop(ReconcileError::Store))
        } else {
            match phase {
                Phase::ApplyingIngress => status_step(res, ready),
                Phase::DeletingIngress => status_step(res, ready),
                Phase::AddingFinalizer => after_finalizer(res, ready),
                Phase::WritingStatus => (
                    Phase::Finished,
                    ready,
                    NextView::Finish(Ok(Action::RequeueAfter(RESYNC_SECS))),
                ),
                _ => match res.owner {
                    None => (Phase::Finished, ready, stop(ReconcileError::MissingOwnerReference)),
                    Some(o) => match phase {
                        Phase::ApplyingConfigMap => (
                            Phase::ApplyingDeployment,
                            ready,
                            NextView::Perform(
                                OpView::ApplyDeployment(
                                    deployment_spec(name, lbls, res.spec.replicas, o, res.spec.html),
                                ),
                            ),
                        ),
                        Phase::ApplyingDeployment => (
                            Phase::ApplyingService,
                            ready_of(out),
                            NextView::Perform(
                                OpView::ApplyService(
                                    service_spec(name, lbls, res.spec.service_type, o),
                                ),
                            ),
                        ),
                        _ => if !is_blank_spec(res.spec.ingress_host) {
                            (
                                Phase::ApplyingIngress,
                                ready,
                                NextView::Perform(
                                    OpView::ApplyIngress(
                                        ingress_spec(
                                            name,
                                            lbls,
                                            service_name_spec(name),
                                            res.spec.ingress_host,
                                            res.spec.tls_secret_name,
                                            o,
                                        ),
                                    ),
                                ),
                            )
                        } else {
                            (Phase::DeletingIngress, ready, NextView::Perform(OpView::DeleteIngress(name)))
                        },
                    },
                },
            }
        }
    }
}

/// One reconcile of one resource, from its first store operation to its end.
pub struct Reconciler {
    pub resource: RustOperator,
    pub phase: Phase,
    /// The ready count read back from the applied workload.
    pub ready: i32,
}

impl Reconciler {
    /// A reconcile of `resource` that has asked for nothing yet.
    pub fn start(resource: RustOperator) -> (r: Reconciler)
        ensures
            r.resource@ == resource@,
            r.phase == Phase::Begin,
            r.ready == 0,
    {
        Reconciler { resource, phase: Phase::Begin, ready: 0 }
    }

    /// The namespace of the resource and of every object it owns.
    pub fn namespace(&self) -> (r: String)
        ensures
            r@ == namespace_spec(self.resource@.namespace),
    {
        match &self.resource.namespace {
            Some(n) => n.clone(),
            None => String::from_str("default"),
        }
    }

    fn after_finalizer(&mut self) -> (r: Next)
        ensures
            final(self).resource@ == old(self).resource@,
            (final(self).phase, final(self).ready, r@) == after_finalizer(
                old(self).resource@,
                old(self).ready,
            ),
    {
        let owner = match &self.resource.owner {
            Some(o) => o.clone(),
            None => {
                self.phase = Phase::Finished;
                return Next::Finish(Err(ReconcileError::MissingOwnerReference));
            },
        };
        let name = self.resource.name.as_str();
        let lbls = labels(name);
        self.phase = Phase::ApplyingConfigMap;
        Next::Perform(
            StoreOp::ApplyConfigMap(
                desired_configmap(name, &lbls, self.resource.spec.html.as_str(), owner),
            ),
        )
    }

    fn status_step(&mut self) -> (r: Next)
        ensures
            final(self).resource@ == old(self).resource@,
            (final(self).phase, final(self).ready, r@) == status_step(
                old(self).resource@,
                old(self).ready,
            ),
    {
        let new = compute_status(&self.resource.status, self.resource.spec.message.as_str(), self.ready);
        if status_changed(&new, &self.resource.status) {
            self.phase = Phase::WritingStatus;
            Next::Perform(StoreOp::PatchStatus(new))
        } else {
            self.phase = Phase::Finished;
            Next::Finish(Ok(Action::RequeueAfter(RESYNC_SECS)))
        }
    }

    /// Takes the outcome of the operation last asked for (any outcome at the
    /// start) and says what to do next. A finished reconcile keeps answering
    /// that it waits for the next change.
    pub fn next(&mut self, out: Outcome) -> (r: Next)
        ensures
            final(self).resource@ == old(self).resource@,
            (final(self).phase, final(self).ready, r@) == transition(
                old(self).resource@,
                old(self).phase,
                old(self).ready,
                out,
            ),
    {
        let failed = out == Outcome::Failed;
        let name = self.resource.name.as_str();
        match self.phase {
            Phase::Begin => {
                if self.resource.deletion_requested {
                    self.phase = Phase::DeletingDeployment;
                    Next::Perform(StoreOp::DeleteDeployment(name.to_owned()))
                } else if has_finalizer(&self.resource.finalizers) {
                    self.after_finalizer()
                } else {
                    self.phase = Phase::AddingFinalizer;
                    Next::Perform(StoreOp::AddFinalizer(finalizer_patch(&self.resource.finalizers, true)))
                }
            },
            Phase::DeletingDeployment => {
                self.phase = Phase::DeletingService;
                Next::Perform(StoreOp::DeleteService(service_name(name)))
            },
            Phase::DeletingService => {
                self.phase = Phase::DeletingConfigMap;
                Next::Perform(StoreOp::DeleteConfigMap(name.to_owned()))
            },
            Phase::DeletingConfigMap => {
                self.phase = Phase::RemovingFinalizer;
                Next::Perform(StoreOp::RemoveFinalizer(finalizer_patch(&self.resource.finalizers, false)))
            },
            Phase::RemovingFinalizer => {
                self.phase = Phase::Finished;
                if failed {
                    Next::Finish(Err(ReconcileError::Store))
                } else {
                    Next::Finish(Ok(Action::AwaitChange))
                }
            },
            Phase::Finished => Next::Finish(Ok(Action::AwaitChange)),
            Phase::DeletingIngress => self.status_step(),
            _ => {
                if failed {
                    self.phase = Phase::Finished;
                    return Next::Finish(Err(ReconcileError::Store));
                }
                match self.phase {
                    Phase::ApplyingIngress => self.status_step(),
                    Phase::AddingFinalizer => self.after_finalizer(),
                    Phase::WritingStatus => {
                        self.phase = Phase::Finished;
                        Next::Finish(Ok(Action::RequeueAfter(RESYNC_SECS)))
                    },
                    _ => {
                        let owner = match &self.resource.owner {
                            Some(o) => o.clone(),
                            None => {
                                self.phase = Phase::Finished;
                                return Next::Finish(Err(ReconcileError::MissingOwnerReference));
                            },
                        };
                        let lbls = labels(name);
                        let spec = &self.resource.spec;
                        match self.phase {
                            Phase::ApplyingConfigMap => {
                                self.phase = Phase::ApplyingDeployment;
                                Next::Perform(
                                    StoreOp::ApplyDeployment(
                                        desired_deployment(name, &lbls, spec.replicas, owner, spec),
                                    ),
                                )
                            },
                            Phase::ApplyingDeployment => {
                                self.ready = match out {
                                    Outcome::DeploymentApplied(Some(n)) => n,
                                    _ => 0,
                                };
                                self.phase = Phase::ApplyingService;
                                Next::Perform(
                                    StoreOp::ApplyService(
                                        desired_service(name, &lbls, spec.service_type.as_str(), owner),
                                    ),
                                )
                            },
                            _ => {
                                if !is_blank(spec.ingress_host.as_str()) {
                                    let svc = service_name(name);
                                    self.phase = Phase::ApplyingIngress;
                                    Next::Perform(
                                        StoreOp::ApplyIngress(
                                            desired_ingress(
                                                name,
                                                &lbls,
                                                svc.as_str(),
                                                spec.ingress_host.as_str(),
                                                spec.tls_secret_name.as_str(),
                                                owner,
                                            ),
                                        ),
                                    )
                                } else {
                                    self.phase = Phase::DeletingIngress;
                                    Next::Perform(StoreOp::DeleteIngress(name.to_owned()))
                                }
                            },
                        }
                    },
                }
            },
        }
    }
}

/// The steps a reconcile of `res` asks for from `phase`, given the outcomes
/// of the operations in turn.
pub open spec fn run(res: ResourceView, phase: Phase, ready: i32, outs: Seq<Outcome>) -> Seq<
    NextView,
>
    decreases outs.len(),
{
    if outs.len() == 0 {
        Seq::empty()
    } else {
        let (p, r, n) = transition(res, phase, ready, outs[0]);
        seq![n] + run(res, p, r, outs.drop_first())
    }
}

pub open spec fn applies_ingress(n: NextView) -> bool {
    match n {
        NextView::Perform(OpView::ApplyIngress(_)) => true,
        _ => false,
    }
}

/// An active resource's reconcile first puts the finalizer on, then applies
/// its config object, workload and service in that order, then applies the
/// ingress where the host is not blank and deletes it where it is.
pub proof fn lemma_active_order(res: ResourceView, o: OwnerReference, ready: Option<i32>)
    requires
        !res.deletion_requested,
        !res.finalizers.contains(FINALIZER@),
        res.owner == Some(o),
    ensures
        run(
            res,
            Phase::Begin,
            0,
            seq![
                Outcome::Succeeded,
                Outcome::Succeeded,
                Outcome::Succeeded,
                Outcome::DeploymentApplied(ready),
                Outcome::Succeeded,
            ],
        ) == seq![
            NextView::Perform(OpView::AddFinalizer(finalizers_spec(res.finalizers, true))),
            NextView::Perform(
                OpView::ApplyConfigMap(
                    configmap_spec(res.name, labels_spec(res.name), res.spec.html, o),
                ),
            ),
            NextView::Perform(
                OpView::ApplyDeployment(
                    deployment_spec(
                        res.name,
                        labels_spec(res.name),
                        res.spec.replicas,
                        o,
                        res.spec.html,
                    ),
                ),
            ),
            NextView::Perform(
                OpView::ApplyService(
                    service_spec(res.name, labels_spec(res.name), res.spec.service_type, o),
                ),
            ),
            transition(res, Phase::ApplyingService, 0, Outcome::Succeeded).2,
        ],
{
    reveal_with_fuel(run, 6);
    let outs = seq![
        Outcome::Succeeded,
        Outcome::Succeeded,
        Outcome::Succeeded,
        Outcome::DeploymentApplied(ready),
        Outcome::Succeeded,
    ];
    assert(outs.drop_first().drop_first().drop_first().drop_first().drop_first() =~= Seq::<
        Outcome,
    >::empty());
    assert(run(res, Phase::Begin, 0, outs) =~= seq![
        transition(res, Phase::Begin, 0, outs[0]).2,
        transition(res, Phase::AddingFinalizer, 0, outs[1]).2,
        transition(res, Phase::ApplyingConfigMap, 0, outs[2]).2,
        transition(res, Phase::ApplyingDeployment, 0, outs[3]).2,
        transition(res, Phase::ApplyingService, ready_of(outs[3]), outs[4]).2,
    ]);
}

/// Once the service is applied, an active resource's ingress is applied
/// exactly when its host is not blank, and deleted where it is blank.
pub proof fn lemma_ingress_presence(res: ResourceView, ready: i32, out: Outcome)
    requires
        res.owner is Some,
        out != Outcome::Failed,
    ensures
        applies_ingress(transition(res, Phase::ApplyingService, ready, out).2)
            <==> !is_blank_spec(res.spec.ingress_host),
        !is_blank_spec(res.spec.ingress_host) ==> transition(
            res,
            Phase::ApplyingService,
            ready,
            out,
        ).2 == NextView::Perform(
            OpView::ApplyIngress(
                ingress_spec(
                    res.name,
                    labels_spec(res.name),
                    service_name_spec(res.name),
                    res.spec.ingress_host,
                    res.spec.tls_secret_name,
                    res.owner->0,
                ),
            ),
        ),
        is_blank_spec(res.spec.ingress_host) ==> transition(
            res,
            Phase::ApplyingService,
            ready,
            out,
        ).2 == NextView::Perform(OpView::DeleteIngress(res.name)),
{
}

/// After the ingress step the status is written exactly when the freshly
/// computed status differs from the stored one in its message, ready count
/// or conditions; where it does not, the reconcile ends with the resync delay.
pub proof fn lemma_status_write_iff_changed(res: ResourceView, ready: i32, out: Outcome)
    requires
        out != Outcome::Failed,
    ensures
        transition(res, Phase::ApplyingIngress, ready, out) == status_step(res, ready),
        transition(res, Phase::DeletingIngress, ready, out) == status_step(res, ready),
        status_step(res, ready).2 is Perform <==> new_status_spec(
            res.status,
            res.spec.message,
            ready,
        ) != status_or_empty(res.status),
        status_step(res, ready).2 is Perform ==> status_step(res, ready).2 == NextView::Perform(
            OpView::PatchStatus(new_status_spec(res.status, res.spec.message, ready)),
        ),
        !(status_step(res, ready).2 is Perform) ==> status_step(res, ready).2 == NextView::Finish(
            Ok(Action::RequeueAfter(RESYNC_SECS)),
        ),
{
}

/// A resource marked for deletion has its workload, service and config
/// object deleted, whatever becomes of those deletes, then its finalizer
/// list cleared; once that write succeeds no timed re-run is asked for.
pub proof fn lemma_terminating_run(
    res: ResourceView,
    o0: Outcome,
    o1: Outcome,
    o2: Outcome,
    o3: Outcome,
    o4: Outcome,
)
    requires
        res.deletion_requested,
        o4 != Outcome::Failed,
    ensures
        run(res, Phase::Begin, 0, seq![o0, o1, o2, o3, o4]) == seq![
            NextView::Perform(OpView::DeleteDeployment(res.name)),
            NextView::Perform(OpView::DeleteService(service_name_spec(res.name))),
            NextView::Perform(OpView::DeleteConfigMap(res.name)),
            NextView::Perform(OpView::RemoveFinalizer(without_token(res.finalizers, FINALIZER@))),
            NextView::Finish(Ok(Action::AwaitChange)),
        ],
{
    reveal_with_fuel(run, 6);
    let outs = seq![o0, o1, o2, o3, o4];
    assert(outs.drop_first().drop_first().drop_first().drop_first().drop_first() =~= Seq::<
        Outcome,
    >::empty());
    assert(run(res, Phase::Begin, 0, outs) =~= seq![
        transition(res, Phase::Begin, 0, outs[0]).2,
        transition(res, Phase::DeletingDeployment, 0, outs[1]).2,
        transition(res, Phase::DeletingService, 0, outs[2]).2,
        transition(res, Phase::DeletingConfigMap, 0, outs[3]).2,
        transition(res, Phase::RemovingFinalizer, 0, outs[4]).2,
    ]);
}

/// An active resource that already holds the controller's token gets no
/// finalizer write: its reconcile goes straight on to the config object.
pub proof fn lemma_finalizer_present_no_write(res: ResourceView, ready: i32, out: Outcome)
    requires
        !res.deletion_requested,
        res.finalizers.contains(FINALIZER@),
    ensures
        transition(res, Phase::Begin, ready, out) == after_finalizer(res, ready),
        !(transition(res, Phase::Begin, ready, out).2 is Perform && transition(
            res,
            Phase::Begin,
            ready,
            out,
        ).2->Perform_0 is AddFinalizer),
{
}

/// The ready count an apply of the workload reports, absent counting as none.
pub open spec fn ready_count(ready: Option<i32>) -> i32 {
    match ready {
        Some(n) => n,
        None => 0,
    }
}

/// A whole reconcile of an active resource that has an owner, driven from
/// its start, where the finalizer, config object, workload and service
/// writes succeed and the workload reports `ready`: the fifth step applies
/// the ingress exactly when the host is not blank and deletes it otherwise
/// (a failed delete does not end the reconcile); the sixth writes the new
/// status exactly when it differs from the stored one, and else ends with
/// the resync delay; after a status write that succeeds the reconcile ends
/// with the resync delay.
pub proof fn lemma_active_run(
    res: ResourceView,
    o: OwnerReference,
    ready: Option<i32>,
    ingress_out: Outcome,
)
    requires
        !res.deletion_requested,
        !res.finalizers.contains(FINALIZER@),
        res.owner == Some(o),
        !is_blank_spec(res.spec.ingress_host) ==> ingress_out != Outcome::Failed,
    ensures
        ({
            let steps = run(
                res,
                Phase::Begin,
                0,
                seq![
                    Outcome::Succeeded,
                    Outcome::Succeeded,
                    Outcome::Succeeded,
                    Outcome::DeploymentApplied(ready),
                    Outcome::Succeeded,
                    ingress_out,
                    Outcome::Succeeded,
                ],
            );
            let new = new_status_spec(res.status, res.spec.message, ready_count(ready));
            &&& steps.len() == 7
            &&& steps[0] == NextView::Perform(
                OpView::AddFinalizer(finalizers_spec(res.finalizers, true)),
            )
            &&& !is_blank_spec(res.spec.ingress_host) ==> steps[4] == NextView::Perform(
                OpView::ApplyIngress(
                    ingress_spec(
                        res.name,
                        labels_spec(res.name),
                        service_name_spec(res.name),
                        res.spec.ingress_host,
                        res.spec.tls_secret_name,
                        o,
                    ),
                ),
            )
            &&& is_blank_spec(res.spec.ingress_host) ==> steps[4] == NextView::Perform(
                OpView::DeleteIngress(res.name),
            )
            &&& new != status_or_empty(res.status) ==> steps[5] == NextView::Perform(
                OpView::PatchStatus(new),
            ) && steps[6] == NextView::Finish(Ok(Action::RequeueAfter(RESYNC_SECS)))
            &&& new == status_or_empty(res.status) ==> steps[5] == NextView::Finish(
                Ok(Action::RequeueAfter(RESYNC_SECS)),
            )
        }),
{
    reveal_with_fuel(run, 8);
    let outs = seq![
        Outcome::Succeeded,
        Outcome::Succeeded,
        Outcome::Succeeded,
        Outcome::DeploymentApplied(ready),
        Outcome::Succeeded,
        ingress_out,
        Outcome::Succeeded,
    ];
    let r = ready_count(ready);
    assert(ready_of(outs[3]) == r);
    let p4 = transition(res, Phase::ApplyingService, r, outs[4]).0;
    let p5 = transition(res, p4, r, outs[5]).0;
    assert(outs.drop_first().drop_first().drop_first().drop_first().drop_first().drop_first().drop_first()
        =~= Seq::<Outcome>::empty());
    assert(run(res, Phase::Begin, 0, outs) =~= seq![
        transition(res, Phase::Begin, 0, outs[0]).2,
        transition(res, Phase::AddingFinalizer, 0, outs[1]).2,
        transition(res, Phase::ApplyingConfigMap, 0, outs[2]).2,
        transition(res, Phase::ApplyingDeployment, 0, outs[3]).2,
        transition(res, Phase::ApplyingService, r, outs[4]).2,
        transition(res, p4, r, outs[5]).2,
        transition(res, p5, r, outs[6]).2,
    ]);
}

} // verus!
