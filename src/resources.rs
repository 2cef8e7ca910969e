//! The desired manifests of the objects a resource owns, the rollout
//! fingerprint, and the condition list update.
use sha2::Digest;
use vstd::prelude::*;

use crate::crd::{conditions_view, ConditionView, HwCondition, RustOperatorSpec, SpecView};
use crate::text::{hex_lower, hex_lower_spec, is_blank, is_blank_spec, is_lower_hex};

verus! {

/// The token this controller keeps on a resource until its cleanup is done.
pub const FINALIZER: &'static str = "rustoperators.rootster.xyz/finalizer";

/// The pod template annotation that holds the rollout fingerprint.
pub const ROLLOUT_ANNOTATION: &'static str = "rootster.xyz/rollout-hash";

/// The views of a list of key/value pairs.
pub open spec fn pairs_view(s: Seq<(String, String)>) -> Seq<(Seq<char>, Seq<char>)> {
    s.map_values(|p: (String, String)| (p.0@, p.1@))
}

/// The label set of every object owned by the resource `name`, in key order.
pub open spec fn labels_spec(name: Seq<char>) -> Seq<(Seq<char>, Seq<char>)> {
    seq![("app.kubernetes.io/instance"@, name), ("app.kubernetes.io/name"@, "webapp"@)]
}

/// `a` comes before `b` in the order of their characters (a proper prefix first).
pub open spec fn text_lt(a: Seq<char>, b: Seq<char>) -> bool {
    exists|k: int|
        0 <= k <= a.len() && k < b.len() && a.subrange(0, k) == b.subrange(0, k) && (k
            == a.len() || a[k] < b[k])
}

/// The keys of a list of pairs are strictly increasing, so no key repeats:
/// the list is a map in key order.
pub open spec fn keys_in_order(s: Seq<(Seq<char>, Seq<char>)>) -> bool {
    forall|i: int, j: int| 0 <= i < j < s.len() ==> text_lt(#[trigger] s[i].0, #[trigger] s[j].0)
}

/// The label set, and every one-pair list (a config object's data, a pod
/// template's annotations), is a map in key order.
pub proof fn lemma_labels_in_order(name: Seq<char>, k: Seq<char>, v: Seq<char>)
    ensures
        keys_in_order(labels_spec(name)),
        keys_in_order(seq![(k, v)]),
{
    reveal_strlit("app.kubernetes.io/instance");
    reveal_strlit("app.kubernetes.io/name");
    let a = "app.kubernetes.io/instance"@;
    let b = "app.kubernetes.io/name"@;
    assert(a.subrange(0, 18) =~= b.subrange(0, 18));
    assert(a[18] == 'i' && b[18] == 'n');
    assert(text_lt(a, b));
    let s = labels_spec(name);
    assert forall|i: int, j: int| 0 <= i < j < s.len() implies text_lt(
        #[trigger] s[i].0,
        #[trigger] s[j].0,
    ) by {
        assert(i == 0 && j == 1);
    }
}

/// The labels of the objects owned by the resource `name`, sorted by key.
pub fn labels(name: &str) -> (r: Vec<(String, String)>)
    ensures
        pairs_view(r@) == labels_spec(name@),
{
    let mut r: Vec<(String, String)> = Vec::new();
    r.push((String::from_str("app.kubernetes.io/instance"), name.to_owned()));
    r.push((String::from_str("app.kubernetes.io/name"), String::from_str("webapp")));
    assert(pairs_view(r@) =~= labels_spec(name@));
    r
}

fn clone_pairs(v: &Vec<(String, String)>) -> (r: Vec<(String, String)>)
    ensures
        pairs_view(r@) == pairs_view(v@),
{
    let mut r: Vec<(String, String)> = Vec::new();
    let mut i: usize = 0;
    while i < v.len()
        invariant
            0 <= i <= v.len(),
            r@.len() == i,
            forall|j: int| 0 <= j < i ==> r@[j].0@ == v@[j].0@ && r@[j].1@ == v@[j].1@,
        decreases v.len() - i,
    {
        r.push((v[i].0.clone(), v[i].1.clone()));
        i = i + 1;
    }
    assert(pairs_view(r@) =~= pairs_view(v@));
    r
}

fn single_pair(k: &str, v: String) -> (r: Vec<(String, String)>)
    ensures
        pairs_view(r@) == seq![(k@, v@)],
{
    let mut r: Vec<(String, String)> = Vec::new();
    r.push((k.to_owned(), v));
    assert(pairs_view(r@) =~= seq![(k@, v@)]);
    r
}

/// A back reference from an owned object to the resource that owns it.
#[derive(Debug)]
pub struct OwnerReference {
    pub api_version: String,
    pub kind: String,
    pub name: String,
    pub uid: String,
    pub controller: Option<bool>,
    pub block_owner_deletion: Option<bool>,
}

impl Clone for OwnerReference {
    fn clone(&self) -> (r: Self)
        ensures
            r == *self,
    {
        OwnerReference {
            api_version: self.api_version.clone(),
            kind: self.kind.clone(),
            name: self.name.clone(),
            uid: self.uid.clone(),
            controller: self.controller,
            block_owner_deletion: self.block_owner_deletion,
        }
    }
}

/// Name, labels and owner: what every owned object carries.
#[derive(Debug)]
pub struct ObjectMeta {
    pub name: String,
    pub labels: Vec<(String, String)>,
    pub owner: OwnerReference,
}

pub struct MetaView {
    pub name: Seq<char>,
    pub labels: Seq<(Seq<char>, Seq<char>)>,
    pub owner: OwnerReference,
}

impl View for ObjectMeta {
    type V = MetaView;

    open spec fn view(&self) -> MetaView {
        MetaView { name: self.name@, labels: pairs_view(self.labels@), owner: self.owner }
    }
}

fn object_meta(name: String, labels: &Vec<(String, String)>, owner: OwnerReference) -> (r:
    ObjectMeta)
    ensures
        r@ == (MetaView { name: name@, labels: pairs_view(labels@), owner }),
{
    ObjectMeta { name, labels: clone_pairs(labels), owner }
}

/// The page served when the spec gives no HTML.
pub const PLACEHOLDER_HTML: &'static str =
    "<!doctype html><html><body><h1>Hello from Rust operator</h1></body></html>";

/// The content served for `html`: itself unless blank, else the placeholder.
pub open spec fn page_content(html: Seq<char>) -> Seq<char> {
    if is_blank_spec(html) {
        PLACEHOLDER_HTML@
    } else {
        html
    }
}

/// The config object that holds the served page.
#[derive(Debug)]
pub struct ConfigMapManifest {
    pub meta: ObjectMeta,
    pub data: Vec<(String, String)>,
}

pub struct ConfigMapView {
    pub meta: MetaView,
    pub data: Seq<(Seq<char>, Seq<char>)>,
}

impl View for ConfigMapManifest {
    type V = ConfigMapView;

    open spec fn view(&self) -> ConfigMapView {
        ConfigMapView { meta: self.meta@, data: pairs_view(self.data@) }
    }
}

/// The desired config object of the resource `name`.
pub open spec fn configmap_spec(
    name: Seq<char>,
    labels: Seq<(Seq<char>, Seq<char>)>,
    html: Seq<char>,
    owner: OwnerReference,
) -> ConfigMapView {
    ConfigMapView {
        meta: MetaView { name, labels, owner },
        data: seq![("index.html"@, page_content(html))],
    }
}

/// The config object holding `index.html` for the resource `name`.
pub fn desired_configmap(
    name: &str,
    labels: &Vec<(String, String)>,
    html: &str,
    owner: OwnerReference,
) -> (r: ConfigMapManifest)
    ensures
        r@ == configmap_spec(name@, pairs_view(labels@), html@, owner),
{
    let content = if is_blank(html) {
        String::from_str(PLACEHOLDER_HTML)
    } else {
        html.to_owned()
    };
    let meta = object_meta(name.to_owned(), labels, owner);
    ConfigMapManifest { meta, data: single_pair("index.html", content) }
}

/// What the rollout fingerprint is computed over.
#[derive(Debug)]
pub struct RolloutInputs {
    pub html: String,
}

/// The JSON text that serde_json writes for a string.
pub uninterp spec fn json_string_of(s: Seq<char>) -> Seq<u8>;

/// The SHA-256 digest of a byte sequence.
pub uninterp spec fn sha256_of(b: Seq<u8>) -> Seq<u8>;

/// Relies on `serde_json::to_vec` on a `str`: the quoted, escaped JSON string,
/// which depends on the characters alone. Writing a string into a `Vec` does
/// not fail.
#[verifier::external_body]
fn json_string(s: &str) -> (r: Vec<u8>)
    ensures
        r@ == json_string_of(s@),
{
    match serde_json::to_vec(s) {
        Ok(b) => b,
        Err(_) => Vec::new(),
    }
}

/// Relies on `sha2::Sha256::digest`: the 32-byte SHA-256 digest of `b`.
#[verifier::external_body]
fn sha256(b: &[u8]) -> (r: Vec<u8>)
    ensures
        r@ == sha256_of(b@),
        r@.len() == 32,
{
    sha2::Sha256::digest(b).to_vec()
}

/// The canonical JSON object `{"html":...}` over the rollout inputs.
pub open spec fn rollout_bytes(html: Seq<char>) -> Seq<u8> {
    seq![123u8, 34u8, 104u8, 116u8, 109u8, 108u8, 34u8, 58u8] + json_string_of(html) + seq![
        125u8,
    ]
}

/// The fingerprint of the rollout inputs: hex SHA-256 of their JSON object.
pub open spec fn fingerprint_spec(html: Seq<char>) -> Seq<char> {
    hex_lower_spec(sha256_of(rollout_bytes(html)))
}

/// The rollout fingerprint of `inp`.
pub fn rollout_fingerprint(inp: &RolloutInputs) -> (r: String)
    ensures
        r@ == fingerprint_spec(inp.html@),
        r@.len() == 64,
        forall|i: int| 0 <= i < r@.len() ==> is_lower_hex(#[trigger] r@[i]),
{
    let mut bytes: Vec<u8> = vec![123u8, 34u8, 104u8, 116u8, 109u8, 108u8, 34u8, 58u8];
    let ghost head = bytes@;
    let j = json_string(inp.html.as_str());
    let mut k: usize = 0;
    while k < j.len()
        invariant
            0 <= k <= j.len(),
            bytes@ == head + j@.subrange(0, k as int),
        decreases j.len() - k,
    {
        bytes.push(j[k]);
        k = k + 1;
        assert(bytes@ =~= head + j@.subrange(0, k as int));
    }
    bytes.push(125u8);
    assert(bytes@ =~= rollout_bytes(inp.html@));
    let digest = sha256(bytes.as_slice());
    hex_lower(&digest)
}

/// The one container of the web server pod.
#[derive(Debug)]
pub struct ContainerManifest {
    pub name: String,
    pub image: String,
    pub container_port: i32,
    pub mount_name: String,
    pub mount_path: String,
    pub read_only: bool,
}

pub struct ContainerView {
    pub name: Seq<char>,
    pub image: Seq<char>,
    pub container_port: i32,
    pub mount_name: Seq<char>,
    pub mount_path: Seq<char>,
    pub read_only: bool,
}

impl View for ContainerManifest {
    type V = ContainerView;

    open spec fn view(&self) -> ContainerView {
        ContainerView {
            name: self.name@,
            image: self.image@,
            container_port: self.container_port,
            mount_name: self.mount_name@,
            mount_path: self.mount_path@,
            read_only: self.read_only,
        }
    }
}

/// The web server workload.
#[derive(Debug)]
pub struct DeploymentManifest {
    pub meta: ObjectMeta,
    pub replicas: i32,
    pub selector: Vec<(String, String)>,
    pub template_labels: Vec<(String, String)>,
    pub template_annotations: Vec<(String, String)>,
    pub container: ContainerManifest,
    pub volume_name: String,
    pub config_map_name: String,
}

pub struct DeploymentView {
    pub meta: MetaView,
    pub replicas: i32,
    pub selector: Seq<(Seq<char>, Seq<char>)>,
    pub template_labels: Seq<(Seq<char>, Seq<char>)>,
    pub template_annotations: Seq<(Seq<char>, Seq<char>)>,
    pub container: ContainerView,
    pub volume_name: Seq<char>,
    pub config_map_name: Seq<char>,
}

impl View for DeploymentManifest {
    type V = DeploymentView;

    open spec fn view(&self) -> DeploymentView {
        DeploymentView {
            meta: self.meta@,
            replicas: self.replicas,
            selector: pairs_view(self.selector@),
            template_labels: pairs_view(self.template_labels@),
            template_annotations: pairs_view(self.template_annotations@),
            container: self.container@,
            volume_name: self.volume_name@,
            config_map_name: self.config_map_name@,
        }
    }
}

/// The desired workload of the resource `name`: its replica count, and the
/// fingerprint of `html` on its pod template.
pub open spec fn deployment_spec(
    name: Seq<char>,
    labels: Seq<(Seq<char>, Seq<char>)>,
    replicas: i32,
    owner: OwnerReference,
    html: Seq<char>,
) -> DeploymentView {
    DeploymentView {
        meta: MetaView { name, labels, owner },
        replicas,
        selector: labels,
        template_labels: labels,
        template_annotations: seq![(ROLLOUT_ANNOTATION@, fingerprint_spec(html))],
        container: ContainerView {
            name: "nginx"@,
            image: "nginx:latest"@,
            container_port: 80,
            mount_name: "html"@,
            mount_path: "/usr/share/nginx/html"@,
            read_only: true,
        },
        volume_name: "html"@,
        config_map_name: name,
    }
}

/// The workload of the resource `name`, serving its config object's page.
pub fn desired_deployment(
    name: &str,
    labels: &Vec<(String, String)>,
    replicas: i32,
    owner: OwnerReference,
    spec: &RustOperatorSpec,
) -> (r: DeploymentManifest)
    ensures
        r@ == deployment_spec(name@, pairs_view(labels@), replicas, owner, spec.html@),
{
    let fp = rollout_fingerprint(&RolloutInputs { html: spec.html.clone() });
    let container = ContainerManifest {
        name: String::from_str("nginx"),
        image: String::from_str("nginx:latest"),
        container_port: 80,
        mount_name: String::from_str("html"),
        mount_path: String::from_str("/usr/share/nginx/html"),
        read_only: true,
    };
    DeploymentManifest {
        meta: object_meta(name.to_owned(), labels, owner),
        replicas,
        selector: clone_pairs(labels),
        template_labels: clone_pairs(labels),
        template_annotations: single_pair(ROLLOUT_ANNOTATION, fp),
        container,
        volume_name: String::from_str("html"),
        config_map_name: name.to_owned(),
    }
}

/// The name of the service of the resource `name`.
pub open spec fn service_name_spec(name: Seq<char>) -> Seq<char> {
    name + "-service"@
}

/// The name of the service of the resource `name`: `{name}-service`.
pub fn service_name(name: &str) -> (r: String)
    ensures
        r@ == service_name_spec(name@),
{
    name.to_owned().concat("-service")
}

/// The network service in front of the web server pods.
#[derive(Debug)]
pub struct ServiceManifest {
    pub meta: ObjectMeta,
    pub selector: Vec<(String, String)>,
    pub port: i32,
    pub target_port: i32,
    pub type_: String,
}

pub struct ServiceView {
    pub meta: MetaView,
    pub selector: Seq<(Seq<char>, Seq<char>)>,
    pub port: i32,
    pub target_port: i32,
    pub type_: Seq<char>,
}

impl View for ServiceManifest {
    type V = ServiceView;

    open spec fn view(&self) -> ServiceView {
        ServiceView {
            meta: self.meta@,
            selector: pairs_view(self.selector@),
            port: self.port,
            target_port: self.target_port,
            type_: self.type_@,
        }
    }
}

/// The desired service of the resource `name`.
pub open spec fn service_spec(
    name: Seq<char>,
    labels: Seq<(Seq<char>, Seq<char>)>,
    svc_type: Seq<char>,
    owner: OwnerReference,
) -> ServiceView {
    ServiceView {
        meta: MetaView { name: service_name_spec(name), labels, owner },
        selector: labels,
        port: 80,
        target_port: 80,
        type_: svc_type,
    }
}

/// The service of the resource `name`: port 80 to the pods' port 80.
pub fn desired_service(
    name: &str,
    labels: &Vec<(String, String)>,
    svc_type: &str,
    owner: OwnerReference,
) -> (r: ServiceManifest)
    ensures
        r@ == service_spec(name@, pairs_view(labels@), svc_type@, owner),
{
    ServiceManifest {
        meta: object_meta(service_name(name), labels, owner),
        selector: clone_pairs(labels),
        port: 80,
        target_port: 80,
        type_: svc_type.to_owned(),
    }
}

/// The TLS block of an ingress.
#[derive(Debug)]
pub struct IngressTls {
    pub hosts: Vec<String>,
    pub secret_name: String,
}

/// The views of a list of strings.
pub open spec fn strings_view(s: Seq<String>) -> Seq<Seq<char>> {
    s.map_values(|x: String| x@)
}

pub struct TlsView {
    pub hosts: Seq<Seq<char>>,
    pub secret_name: Seq<char>,
}

/// The ingress route: one rule for `host` sending path `/` to a service.
#[derive(Debug)]
pub struct IngressManifest {
    pub meta: ObjectMeta,
    pub host: String,
    pub path: String,
    pub path_type: String,
    pub backend_service: String,
    pub backend_port: i32,
    pub tls: Option<IngressTls>,
}

pub struct IngressView {
    pub meta: MetaView,
    pub host: Seq<char>,
    pub path: Seq<char>,
    pub path_type: Seq<char>,
    pub backend_service: Seq<char>,
    pub backend_port: i32,
    pub tls: Option<TlsView>,
}

impl View for IngressManifest {
    type V = IngressView;

    open spec fn view(&self) -> IngressView {
        IngressView {
            meta: self.meta@,
            host: self.host@,
            path: self.path@,
            path_type: self.path_type@,
            backend_service: self.backend_service@,
            backend_port: self.backend_port,
            tls: match self.tls {
                Some(t) => Some(TlsView { hosts: strings_view(t.hosts@), secret_name: t.secret_name@ }),
                None => None,
            },
        }
    }
}

/// The desired ingress of the resource `name`: TLS exactly when a secret is named.
pub open spec fn ingress_spec(
    name: Seq<char>,
    labels: Seq<(Seq<char>, Seq<char>)>,
    svc_name: Seq<char>,
    host: Seq<char>,
    tls_secret: Seq<char>,
    owner: OwnerReference,
) -> IngressView {
    IngressView {
        meta: MetaView { name, labels, owner },
        host,
        path: "/"@,
        path_type: "Prefix"@,
        backend_service: svc_name,
        backend_port: 80,
        tls: if tls_secret.len() == 0 {
            None
        } else {
            Some(TlsView { hosts: seq![host], secret_name: tls_secret })
        },
    }
}

/// The ingress of the resource `name`, routing `host` to the service `svc_name`.
pub fn desired_ingress(
    name: &str,
    labels: &Vec<(String, String)>,
    svc_name: &str,
    host: &str,
    tls_secret: &str,
    owner: OwnerReference,
) -> (r: IngressManifest)
    ensures
        r@ == ingress_spec(name@, pairs_view(labels@), svc_name@, host@, tls_secret@, owner),
{
    let tls = if tls_secret.is_empty() {
        None
    } else {
        let mut hosts: Vec<String> = Vec::new();
        hosts.push(host.to_owned());
        assert(strings_view(hosts@) =~= seq![host@]);
        Some(IngressTls { hosts, secret_name: tls_secret.to_owned() })
    };
    IngressManifest {
        meta: object_meta(name.to_owned(), labels, owner),
        host: host.to_owned(),
        path: String::from_str("/"),
        path_type: String::from_str("Prefix"),
        backend_service: svc_name.to_owned(),
        backend_port: 80,
        tls,
    }
}

/// The first index in `s` of a condition of type `t`, if any.
pub open spec fn first_of_type(s: Seq<ConditionView>, t: Seq<char>, i: int) -> bool {
    &&& 0 <= i < s.len()
    &&& s[i].type_ == t
    &&& forall|j: int| 0 <= j < i ==> s[j].type_ != t
}

pub open spec fn has_type(s: Seq<ConditionView>, t: Seq<char>) -> bool {
    exists|i: int| 0 <= i < s.len() && s[i].type_ == t
}

/// `s` with `c` in place of the first condition of its type, or `c` appended.
pub open spec fn upserted(s: Seq<ConditionView>, c: ConditionView) -> Seq<ConditionView> {
    if has_type(s, c.type_) {
        s.update(choose|i: int| first_of_type(s, c.type_, i), c)
    } else {
        s.push(c)
    }
}

/// A list has at most one condition of a type where no two share one.
pub proof fn lemma_first_of_type_unique(s: Seq<ConditionView>, t: Seq<char>, i: int, k: int)
    requires
        first_of_type(s, t, i),
        first_of_type(s, t, k),
    ensures
        i == k,
{
    if i < k {
        assert(s[i].type_ != t);
    } else if k < i {
        assert(s[k].type_ != t);
    }
}

/// Replaces the condition of `newc`'s type in `list`, or appends `newc`.
pub fn upsert_condition(list: &mut Vec<HwCondition>, newc: HwCondition)
    ensures
        conditions_view(final(list)@) == upserted(conditions_view(old(list)@), newc@),
{
    let ghost s = conditions_view(list@);
    let mut i: usize = 0;
    while i < list.len()
        invariant
            0 <= i <= list.len(),
            list@ == old(list)@,
            s == conditions_view(list@),
            forall|j: int| 0 <= j < i ==> s[j].type_ != newc@.type_,
        decreases list.len() - i,
    {
        if list[i].type_ == newc.type_ {
            proof {
                assert(first_of_type(s, newc@.type_, i as int));
                assert(has_type(s, newc@.type_));
                let k = choose|k: int| first_of_type(s, newc@.type_, k);
                lemma_first_of_type_unique(s, newc@.type_, i as int, k);
            }
            list.set(i, newc);
            proof {
                assert(conditions_view(list@) =~= s.update(i as int, newc@));
            }
            return;
        }
        i = i + 1;
    }
    list.push(newc);
    proof {
        assert(!has_type(s, newc@.type_));
        assert(conditions_view(list@) =~= s.push(newc@));
    }
}

/// Where some condition of `s` has type `t`, a first one does.
pub proof fn lemma_first_of_type_exists(s: Seq<ConditionView>, t: Seq<char>, k: int)
    requires
        0 <= k < s.len(),
        s[k].type_ == t,
    ensures
        exists|i: int| first_of_type(s, t, i),
    decreases k,
{
    if forall|j: int| 0 <= j < k ==> s[j].type_ != t {
        assert(first_of_type(s, t, k));
    } else {
        let j = choose|j: int| 0 <= j < k && s[j].type_ == t;
        lemma_first_of_type_exists(s, t, j);
    }
}

/// Upserting a condition whose type is new appends it, one entry more and
/// the others untouched. Upserting one whose type is present puts it in
/// place of the first of that type: the length stays, and every other entry
/// stays where it was.
pub proof fn lemma_upsert(s: Seq<ConditionView>, c: ConditionView)
    ensures
        !has_type(s, c.type_) ==> upserted(s, c).len() == s.len() + 1 && upserted(s, c).last()
            == c && upserted(s, c).subrange(0, s.len() as int) == s,
        has_type(s, c.type_) ==> upserted(s, c).len() == s.len() && exists|i: int|
            0 <= i < s.len() && s[i].type_ == c.type_ && upserted(s, c)[i] == c && forall|
                j: int,
            |
                0 <= j < s.len() && j != i ==> upserted(s, c)[j] == s[j],
{
    if has_type(s, c.type_) {
        let k = choose|k: int| 0 <= k < s.len() && s[k].type_ == c.type_;
        lemma_first_of_type_exists(s, c.type_, k);
        let i = choose|i: int| first_of_type(s, c.type_, i);
        assert(upserted(s, c) == s.update(i, c));
        assert(0 <= i < s.len() && s[i].type_ == c.type_ && upserted(s, c)[i] == c);
        assert(forall|j: int| 0 <= j < s.len() && j != i ==> upserted(s, c)[j] == s[j]);
    } else {
        assert(upserted(s, c).subrange(0, s.len() as int) =~= s);
    }
}

/// The ingress has a TLS block exactly when a secret is named, and that block
/// names the secret and the host.
pub proof fn lemma_tls_presence(
    name: Seq<char>,
    labels: Seq<(Seq<char>, Seq<char>)>,
    svc_name: Seq<char>,
    host: Seq<char>,
    tls_secret: Seq<char>,
    owner: OwnerReference,
)
    ensures
        ingress_spec(name, labels, svc_name, host, tls_secret, owner).tls is Some <==> tls_secret
            != Seq::<char>::empty(),
        tls_secret != Seq::<char>::empty() ==> ingress_spec(
            name,
            labels,
            svc_name,
            host,
            tls_secret,
            owner,
        ).tls == Some(TlsView { hosts: seq![host], secret_name: tls_secret }),
{
    if tls_secret.len() == 0 {
        assert(tls_secret =~= Seq::<char>::empty());
    }
}

/// The workload's rollout annotation is the fingerprint of the HTML, so two
/// specs with the same HTML give the same annotation, whatever their
/// message, replica count, service type, ingress host or TLS secret.
pub proof fn lemma_fingerprint_html_only(
    name: Seq<char>,
    labels: Seq<(Seq<char>, Seq<char>)>,
    owner: OwnerReference,
    a: SpecView,
    b: SpecView,
)
    requires
        a.html == b.html,
    ensures
        deployment_spec(name, labels, a.replicas, owner, a.html).template_annotations
            == deployment_spec(name, labels, b.replicas, owner, b.html).template_annotations,
        deployment_spec(name, labels, a.replicas, owner, a.html).template_annotations == seq![
            (ROLLOUT_ANNOTATION@, fingerprint_spec(a.html)),
        ],
{
}

} // verus!
