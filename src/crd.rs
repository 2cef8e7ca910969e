//! The resource's spec and status, and their mathematical views.
use vstd::prelude::*;

verus! {

/// The view of an optional string.
pub open spec fn opt_view(o: Option<String>) -> Option<Seq<char>> {
    match o {
        Some(s) => Some(s@),
        None => None,
    }
}

/// What a user asks of one resource.
#[derive(Debug)]
pub struct RustOperatorSpec {
    /// Echoed into status.
    pub message: String,
    /// Inline HTML served as `index.html`; blank means a placeholder page.
    pub html: String,
    /// Number of web server replicas, passed through as given.
    pub replicas: i32,
    /// `ClusterIP` or `NodePort`, passed through as given.
    pub service_type: String,
    /// Ingress host; blank means no ingress.
    pub ingress_host: String,
    /// TLS secret for the ingress; empty means no TLS.
    pub tls_secret_name: String,
}

pub struct SpecView {
    pub message: Seq<char>,
    pub html: Seq<char>,
    pub replicas: i32,
    pub service_type: Seq<char>,
    pub ingress_host: Seq<char>,
    pub tls_secret_name: Seq<char>,
}

impl View for RustOperatorSpec {
    type V = SpecView;

    open spec fn view(&self) -> SpecView {
        SpecView {
            message: self.message@,
            html: self.html@,
            replicas: self.replicas,
            service_type: self.service_type@,
            ingress_host: self.ingress_host@,
            tls_secret_name: self.tls_secret_name@,
        }
    }
}

impl Clone for RustOperatorSpec {
    fn clone(&self) -> (r: Self)
        ensures
            r == *self,
    {
        RustOperatorSpec {
            message: self.message.clone(),
            html: self.html.clone(),
            replicas: self.replicas,
            service_type: self.service_type.clone(),
            ingress_host: self.ingress_host.clone(),
            tls_secret_name: self.tls_secret_name.clone(),
        }
    }
}

/// The replica count of a spec that names none.
pub fn default_replicas() -> (r: i32)
    ensures
        r == 1,
{
    1
}

/// The service type of a spec that names none.
pub fn default_service_type() -> (r: String)
    ensures
        r@ == "ClusterIP"@,
{
    String::from_str("ClusterIP")
}

/// One entry of the status's condition list.
#[derive(Debug)]
pub struct HwCondition {
    pub type_: String,
    pub status: String,
    pub reason: Option<String>,
    pub message: Option<String>,
}

pub struct ConditionView {
    pub type_: Seq<char>,
    pub status: Seq<char>,
    pub reason: Option<Seq<char>>,
    pub message: Option<Seq<char>>,
}

impl View for HwCondition {
    type V = ConditionView;

    open spec fn view(&self) -> ConditionView {
        ConditionView {
            type_: self.type_@,
            status: self.status@,
            reason: opt_view(self.reason),
            message: opt_view(self.message),
        }
    }
}

/// The views of a list of conditions.
pub open spec fn conditions_view(s: Seq<HwCondition>) -> Seq<ConditionView> {
    s.map_values(|c: HwCondition| c@)
}

fn opt_string_eq(a: &Option<String>, b: &Option<String>) -> (r: bool)
    ensures
        r == (opt_view(*a) == opt_view(*b)),
{
    match (a, b) {
        (Some(x), Some(y)) => *x == *y,
        (None, None) => true,
        _ => false,
    }
}

fn opt_string_clone(a: &Option<String>) -> (r: Option<String>)
    ensures
        r == *a,
{
    match a {
        Some(x) => Some(x.clone()),
        None => None,
    }
}

impl Clone for HwCondition {
    fn clone(&self) -> (r: Self)
        ensures
            r == *self,
    {
        HwCondition {
            type_: self.type_.clone(),
            status: self.status.clone(),
            reason: opt_string_clone(&self.reason),
            message: opt_string_clone(&self.message),
        }
    }
}

impl PartialEq for HwCondition {
    fn eq(&self, o: &HwCondition) -> (r: bool) {
        self.type_ == o.type_ && self.status == o.status && opt_string_eq(&self.reason, &o.reason)
            && opt_string_eq(&self.message, &o.message)
    }
}

impl vstd::std_specs::cmp::PartialEqSpecImpl for HwCondition {
    open spec fn obeys_eq_spec() -> bool {
        true
    }

    open spec fn eq_spec(&self, o: &HwCondition) -> bool {
        self@ == o@
    }
}

/// Whether two condition lists hold the same conditions in the same order.
pub fn conditions_eq(a: &Vec<HwCondition>, b: &Vec<HwCondition>) -> (r: bool)
    ensures
        r == (conditions_view(a@) == conditions_view(b@)),
{
    if a.len() != b.len() {
        proof {
            assert(conditions_view(a@).len() != conditions_view(b@).len());
        }
        return false;
    }
    let mut i: usize = 0;
    while i < a.len()
        invariant
            a.len() == b.len(),
            0 <= i <= a.len(),
            forall|j: int| 0 <= j < i ==> a@[j]@ == b@[j]@,
        decreases a.len() - i,
    {
        if !(a[i] == b[i]) {
            proof {
                assert(conditions_view(a@)[i as int] != conditions_view(b@)[i as int]);
            }
            return false;
        }
        i = i + 1;
    }
    proof {
        assert(conditions_view(a@) =~= conditions_view(b@));
    }
    true
}

/// What the controller reports on a resource.
#[derive(Debug)]
pub struct RustOperatorStatus {
    pub observed_message: Option<String>,
    pub ready_replicas: Option<i32>,
    pub conditions: Option<Vec<HwCondition>>,
}

pub struct StatusView {
    pub observed_message: Option<Seq<char>>,
    pub ready_replicas: Option<i32>,
    pub conditions: Option<Seq<ConditionView>>,
}

impl View for RustOperatorStatus {
    type V = StatusView;

    open spec fn view(&self) -> StatusView {
        StatusView {
            observed_message: opt_view(self.observed_message),
            ready_replicas: self.ready_replicas,
            conditions: match self.conditions {
                Some(c) => Some(conditions_view(c@)),
                None => None,
            },
        }
    }
}

impl Default for RustOperatorStatus {
    fn default() -> (r: Self)
        ensures
            r.observed_message is None,
            r.ready_replicas is None,
            r.conditions is None,
    {
        RustOperatorStatus { observed_message: None, ready_replicas: None, conditions: None }
    }
}

impl Clone for RustOperatorStatus {
    fn clone(&self) -> (r: Self)
        ensures
            r@ == self@,
    {
        let conditions = match &self.conditions {
            Some(c) => {
                let mut out: Vec<HwCondition> = Vec::new();
                let mut i: usize = 0;
                while i < c.len()
                    invariant
                        0 <= i <= c.len(),
                        out@.len() == i,
                        forall|j: int| 0 <= j < i ==> out@[j]@ == c@[j]@,
                    decreases c.len() - i,
                {
                    out.push(c[i].clone());
                    i = i + 1;
                }
                proof {
                    assert(conditions_view(out@) =~= conditions_view(c@));
                }
                Some(out)
            },
            None => None,
        };
        RustOperatorStatus {
            observed_message: opt_string_clone(&self.observed_message),
            ready_replicas: self.ready_replicas,
            conditions,
        }
    }
}

impl PartialEq for RustOperatorStatus {
    fn eq(&self, o: &RustOperatorStatus) -> (r: bool) {
        let conditions_same = match (&self.conditions, &o.conditions) {
            (Some(x), Some(y)) => conditions_eq(x, y),
            (None, None) => true,
            _ => false,
        };
        opt_string_eq(&self.observed_message, &o.observed_message)
            && self.ready_replicas == o.ready_replicas && conditions_same
    }
}

impl vstd::std_specs::cmp::PartialEqSpecImpl for RustOperatorStatus {
    open spec fn obeys_eq_spec() -> bool {
        true
    }

    open spec fn eq_spec(&self, o: &RustOperatorStatus) -> bool {
        self@ == o@
    }
}

} // verus!
