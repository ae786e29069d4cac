//! The `ApplicationSession` API object and the builders that turn each
//! operation on it into a wire request: method, URL, content type and
//! body, every byte pinned by the contracts.
//!
//! The transport only has to send what a builder hands back; nothing
//! downstream re-interprets the request.

use vstd::prelude::*;

use vstd::utf8::encode_utf8;

use crate::encoding::{
    append_dec_i64, append_form_seq, append_joined, append_json_string, append_pct_seg,
    append_str, dec_int, form_seq, join_sep, json_string, pct_seg, str_bytes,
};

verus! {

/// The verb of a built request.
#[derive(Clone, Copy, Debug, PartialEq, Eq, Structural)]
pub enum Method {
    Get,
    Post,
    Put,
    Delete,
    Patch,
}

/// Why building a request can fail.  The builders of this library
/// assemble every byte themselves and never do fail; the type keeps the
/// callers' shape.
#[derive(Clone, Copy, Debug, PartialEq, Eq, Structural)]
pub enum RequestError {
    Http,
    Json,
}

/// A built wire request: everything the transport must send.
#[derive(Debug, PartialEq)]
pub struct Request {
    pub method: Method,
    pub uri: Vec<u8>,
    pub content_type: Option<Vec<u8>>,
    pub body: Vec<u8>,
}

/// The identifying metadata of an API object.
#[derive(Debug, PartialEq, Default)]
pub struct ObjectMeta {
    pub name: String,
    pub namespace: String,
}

/// The desired state of an application session.
#[derive(Debug, PartialEq, Default)]
pub struct ApplicationSessionSpec {
    pub application_name: String,
    pub session_data: String,
}

/// The observed state of an application session.
#[derive(Debug, PartialEq, Default)]
pub struct ApplicationSessionStatus {
    pub session_status: String,
}

/// ApplicationSession
#[derive(Debug, PartialEq, Default)]
pub struct ApplicationSession {
    pub metadata: ObjectMeta,
    pub spec: Option<ApplicationSessionSpec>,
    pub status: Option<ApplicationSessionStatus>,
}

/// The JSON object for the metadata.
pub open spec fn meta_json(m: ObjectMeta) -> Seq<u8> {
    encode_utf8("{\"name\":"@) + json_string(encode_utf8(m.name@)) + encode_utf8(
        ",\"namespace\":"@,
    ) + json_string(encode_utf8(m.namespace@)) + encode_utf8("}"@)
}

/// The JSON object for the spec.
pub open spec fn spec_json(s: ApplicationSessionSpec) -> Seq<u8> {
    encode_utf8("{\"applicationName\":"@) + json_string(encode_utf8(s.application_name@))
        + encode_utf8(",\"sessionData\":"@) + json_string(encode_utf8(s.session_data@))
        + encode_utf8("}"@)
}

/// The JSON object for the status.
pub open spec fn status_json(s: ApplicationSessionStatus) -> Seq<u8> {
    encode_utf8("{\"sessionStatus\":"@) + json_string(encode_utf8(s.session_status@))
        + encode_utf8("}"@)
}

/// The JSON document for a whole session object: the fixed apiVersion
/// and kind, the metadata, and the spec and status when present.
pub open spec fn session_json(s: ApplicationSession) -> Seq<u8> {
    encode_utf8(
        "{\"apiVersion\":\"core.fornax-serverless.centaurusinfra.io/v1\",\"kind\":\"ApplicationSession\",\"metadata\":"@,
    ) + meta_json(s.metadata) + (match s.spec {
        Some(sp) => encode_utf8(",\"spec\":"@) + spec_json(sp),
        None => Seq::<u8>::empty(),
    }) + (match s.status {
        Some(st) => encode_utf8(",\"status\":"@) + status_json(st),
        None => Seq::<u8>::empty(),
    }) + encode_utf8("}"@)
}

impl ApplicationSession {
    /// The object's metadata.
    pub fn metadata(&self) -> (r: &ObjectMeta)
        ensures
            r == &self.metadata,
    {
        &self.metadata
    }

    /// The object's metadata, for updating in place.
    pub fn metadata_mut(&mut self) -> (r: &mut ObjectMeta)
        ensures
            *r == old(self).metadata,
            *final(self) == (ApplicationSession { metadata: *final(r), ..*old(self) }),
    {
        &mut self.metadata
    }

    /// Fold another object into this one: the metadata is overwritten,
    /// and the spec and status are overwritten where the other object
    /// carries them and kept where it does not.
    pub fn merge_from(&mut self, other: ApplicationSession)
        ensures
            final(self).metadata == other.metadata,
            final(self).spec == (if other.spec is Some {
                other.spec
            } else {
                old(self).spec
            }),
            final(self).status == (if other.status is Some {
                other.status
            } else {
                old(self).status
            }),
    {
        self.metadata = other.metadata;
        if other.spec.is_some() {
            self.spec = other.spec;
        }
        if other.status.is_some() {
            self.status = other.status;
        }
    }

    /// The object's JSON document, byte for byte as [`session_json`]
    /// states it.
    #[verifier::rlimit(100)]
    pub fn to_json(&self) -> (r: Vec<u8>)
        ensures
            r@ == session_json(*self),
    {
        let mut out: Vec<u8> = Vec::new();
        append_str(
            &mut out,
            "{\"apiVersion\":\"core.fornax-serverless.centaurusinfra.io/v1\",\"kind\":\"ApplicationSession\",\"metadata\":",
        );
        append_str(&mut out, "{\"name\":");
        let name = str_bytes(self.metadata.name.as_str());
        append_json_string(&mut out, &name);
        append_str(&mut out, ",\"namespace\":");
        let namespace = str_bytes(self.metadata.namespace.as_str());
        append_json_string(&mut out, &namespace);
        append_str(&mut out, "}");
        match &self.spec {
            Some(sp) => {
                append_str(&mut out, ",\"spec\":");
                append_str(&mut out, "{\"applicationName\":");
                let an = str_bytes(sp.application_name.as_str());
                append_json_string(&mut out, &an);
                append_str(&mut out, ",\"sessionData\":");
                let sd = str_bytes(sp.session_data.as_str());
                append_json_string(&mut out, &sd);
                append_str(&mut out, "}");
            },
            None => {},
        }
        match &self.status {
            Some(st) => {
                append_str(&mut out, ",\"status\":");
                append_str(&mut out, "{\"sessionStatus\":");
                let ss = str_bytes(st.session_status.as_str());
                append_json_string(&mut out, &ss);
                append_str(&mut out, "}");
            },
            None => {},
        }
        append_str(&mut out, "}");
        proof {
            assert(out@ =~= session_json(*self));
        }
        out
    }
}

/// A patch document, with the content type its flavor asks for.
#[derive(Debug, PartialEq)]
pub enum Patch {
    Json(String),
    Merge(String),
    StrategicMerge(String),
}

/// The bytes a patch sends.
pub open spec fn patch_payload(p: Patch) -> Seq<u8> {
    match p {
        Patch::Json(s) => encode_utf8(s@),
        Patch::Merge(s) => encode_utf8(s@),
        Patch::StrategicMerge(s) => encode_utf8(s@),
    }
}

/// The content type a patch flavor announces.
pub open spec fn patch_content_type(p: Patch) -> Seq<u8> {
    match p {
        Patch::Json(_) => encode_utf8("application/json-patch+json"@),
        Patch::Merge(_) => encode_utf8("application/merge-patch+json"@),
        Patch::StrategicMerge(_) => encode_utf8("application/strategic-merge-patch+json"@),
    }
}

/// Optional parameters of a create request.
#[derive(Debug, PartialEq, Default)]
pub struct CreateOptional {
    pub dry_run: Option<String>,
    pub field_manager: Option<String>,
    pub pretty: Option<String>,
}

/// Optional parameters of a replace request.
#[derive(Debug, PartialEq, Default)]
pub struct ReplaceOptional {
    pub dry_run: Option<String>,
    pub field_manager: Option<String>,
    pub pretty: Option<String>,
}

/// Optional parameters of a patch request.
#[derive(Debug, PartialEq, Default)]
pub struct PatchOptional {
    pub dry_run: Option<String>,
    pub field_manager: Option<String>,
    pub force: Option<bool>,
    pub pretty: Option<String>,
}

/// Optional parameters of a list request.
#[derive(Debug, PartialEq, Default)]
pub struct ListOptional {
    pub continue_: Option<String>,
    pub field_selector: Option<String>,
    pub label_selector: Option<String>,
    pub limit: Option<i64>,
    pub resource_version: Option<String>,
    pub timeout_seconds: Option<i64>,
}

/// Optional parameters of a watch request.
#[derive(Debug, PartialEq, Default)]
pub struct WatchOptional {
    pub allow_watch_bookmarks: Option<bool>,
    pub field_selector: Option<String>,
    pub label_selector: Option<String>,
    pub pretty: Option<String>,
    pub resource_version: Option<String>,
    pub timeout_seconds: Option<i64>,
}

/// Delete options, sent as the body of a delete request when any is set.
#[derive(Debug, PartialEq, Default)]
pub struct DeleteOptional {
    pub dry_run: Option<String>,
    pub grace_period_seconds: Option<i64>,
    pub propagation_policy: Option<String>,
}

/// One `key=value` query pair, both sides form-urlencoded.
pub open spec fn qpair(k: Seq<char>, v: Seq<u8>) -> Seq<u8> {
    form_seq(encode_utf8(k)) + seq![0x3du8] + form_seq(v)
}

/// The bytes of a boolean query value.
pub open spec fn bool_bytes(b: bool) -> Seq<u8> {
    if b {
        encode_utf8("true"@)
    } else {
        encode_utf8("false"@)
    }
}

/// The parts so far, extended by a string-valued pair when it is set.
pub open spec fn opt_str_part(parts: Seq<Seq<u8>>, k: Seq<char>, v: Option<String>) -> Seq<
    Seq<u8>,
> {
    match v {
        Some(s) => parts.push(qpair(k, encode_utf8(s@))),
        None => parts,
    }
}

/// The parts so far, extended by a numeric pair when it is set.
pub open spec fn opt_i64_part(parts: Seq<Seq<u8>>, k: Seq<char>, v: Option<i64>) -> Seq<Seq<u8>> {
    match v {
        Some(n) => parts.push(qpair(k, dec_int(n as int))),
        None => parts,
    }
}

/// The parts so far, extended by a boolean pair when it is set.
pub open spec fn opt_bool_part(parts: Seq<Seq<u8>>, k: Seq<char>, v: Option<bool>) -> Seq<
    Seq<u8>,
> {
    match v {
        Some(b) => parts.push(qpair(k, bool_bytes(b))),
        None => parts,
    }
}

/// The query pairs of a create request.
pub open spec fn create_query(o: CreateOptional) -> Seq<Seq<u8>> {
    opt_str_part(
        opt_str_part(
            opt_str_part(Seq::<Seq<u8>>::empty(), "dryRun"@, o.dry_run),
            "fieldManager"@,
            o.field_manager,
        ),
        "pretty"@,
        o.pretty,
    )
}

/// The query pairs of a replace request.
pub open spec fn replace_query(o: ReplaceOptional) -> Seq<Seq<u8>> {
    opt_str_part(
        opt_str_part(
            opt_str_part(Seq::<Seq<u8>>::empty(), "dryRun"@, o.dry_run),
            "fieldManager"@,
            o.field_manager,
        ),
        "pretty"@,
        o.pretty,
    )
}

/// The query pairs of a patch request.
pub open spec fn patch_query(o: PatchOptional) -> Seq<Seq<u8>> {
    opt_str_part(
        opt_bool_part(
            opt_str_part(
                opt_str_part(Seq::<Seq<u8>>::empty(), "dryRun"@, o.dry_run),
                "fieldManager"@,
                o.field_manager,
            ),
            "force"@,
            o.force,
        ),
        "pretty"@,
        o.pretty,
    )
}

/// The query pairs of a list request.
pub open spec fn list_query(o: ListOptional) -> Seq<Seq<u8>> {
    opt_i64_part(
        opt_str_part(
            opt_i64_part(
                opt_str_part(
                    opt_str_part(
                        opt_str_part(Seq::<Seq<u8>>::empty(), "continue"@, o.continue_),
                        "fieldSelector"@,
                        o.field_selector,
                    ),
                    "labelSelector"@,
                    o.label_selector,
                ),
                "limit"@,
                o.limit,
            ),
            "resourceVersion"@,
            o.resource_version,
        ),
        "timeoutSeconds"@,
        o.timeout_seconds,
    )
}

/// The query pairs of a watch request.
pub open spec fn watch_query(o: WatchOptional) -> Seq<Seq<u8>> {
    opt_i64_part(
        opt_str_part(
            opt_str_part(
                opt_str_part(
                    opt_str_part(
                        opt_bool_part(
                            Seq::<Seq<u8>>::empty(),
                            "allowWatchBookmarks"@,
                            o.allow_watch_bookmarks,
                        ),
                        "fieldSelector"@,
                        o.field_selector,
                    ),
                    "labelSelector"@,
                    o.label_selector,
                ),
                "pretty"@,
                o.pretty,
            ),
            "resourceVersion"@,
            o.resource_version,
        ),
        "timeoutSeconds"@,
        o.timeout_seconds,
    )
}

/// Whether no delete option is set, so that the delete body stays empty.
pub open spec fn delete_options_empty(o: DeleteOptional) -> bool {
    &&& o.dry_run is None
    &&& o.grace_period_seconds is None
    &&& o.propagation_policy is None
}

/// The member list of the delete-options JSON object.
pub open spec fn delete_options_parts(o: DeleteOptional) -> Seq<Seq<u8>> {
    let parts = Seq::<Seq<u8>>::empty();
    let parts = match o.dry_run {
        Some(s) => parts.push(
            encode_utf8("\"dryRun\":"@) + json_string(encode_utf8(s@)),
        ),
        None => parts,
    };
    let parts = match o.grace_period_seconds {
        Some(n) => parts.push(encode_utf8("\"gracePeriodSeconds\":"@) + dec_int(n as int)),
        None => parts,
    };
    match o.propagation_policy {
        Some(s) => parts.push(
            encode_utf8("\"propagationPolicy\":"@) + json_string(encode_utf8(s@)),
        ),
        None => parts,
    }
}

/// The body of a delete request: empty with no options set, else the
/// options as one JSON object.
pub open spec fn delete_body(o: DeleteOptional) -> Seq<u8> {
    if delete_options_empty(o) {
        Seq::<u8>::empty()
    } else {
        seq![0x7bu8] + join_sep(delete_options_parts(o), 0x2c) + seq![0x7du8]
    }
}

/// Append one string-valued query pair.
fn push_pair_str(parts: &mut Vec<Vec<u8>>, k: &str, v: &String)
    ensures
        final(parts).deep_view() == old(parts).deep_view().push(qpair(k@, encode_utf8(v@))),
{
    let mut p: Vec<u8> = Vec::new();
    let kb = str_bytes(k);
    append_form_seq(&mut p, &kb);
    p.push(0x3d);
    let vb = str_bytes(v.as_str());
    append_form_seq(&mut p, &vb);
    proof {
        assert(p@ =~= qpair(k@, encode_utf8(v@)));
    }
    parts.push(p);
    proof {
        assert(parts.deep_view() =~~= old(parts).deep_view().push(qpair(k@, encode_utf8(v@))));
    }
}

/// Append one numeric query pair.
fn push_pair_i64(parts: &mut Vec<Vec<u8>>, k: &str, n: i64)
    ensures
        final(parts).deep_view() == old(parts).deep_view().push(qpair(k@, dec_int(n as int))),
{
    let mut p: Vec<u8> = Vec::new();
    let kb = str_bytes(k);
    append_form_seq(&mut p, &kb);
    p.push(0x3d);
    let mut vb: Vec<u8> = Vec::new();
    append_dec_i64(&mut vb, n);
    append_form_seq(&mut p, &vb);
    proof {
        assert(p@ =~= qpair(k@, dec_int(n as int)));
    }
    parts.push(p);
    proof {
        assert(parts.deep_view() =~~= old(parts).deep_view().push(qpair(k@, dec_int(n as int))));
    }
}

/// Append one boolean query pair.
fn push_pair_bool(parts: &mut Vec<Vec<u8>>, k: &str, b: bool)
    ensures
        final(parts).deep_view() == old(parts).deep_view().push(qpair(k@, bool_bytes(b))),
{
    let mut p: Vec<u8> = Vec::new();
    let kb = str_bytes(k);
    append_form_seq(&mut p, &kb);
    p.push(0x3d);
    let vb = if b {
        str_bytes("true")
    } else {
        str_bytes("false")
    };
    append_form_seq(&mut p, &vb);
    proof {
        assert(p@ =~= qpair(k@, bool_bytes(b)));
    }
    parts.push(p);
    proof {
        assert(parts.deep_view() =~~= old(parts).deep_view().push(qpair(k@, bool_bytes(b))));
    }
}

fn create_query_parts(o: &CreateOptional) -> (r: Vec<Vec<u8>>)
    ensures
        r.deep_view() == create_query(*o),
{
    let mut parts: Vec<Vec<u8>> = Vec::new();
    if let Some(s) = &o.dry_run {
        push_pair_str(&mut parts, "dryRun", s);
    }
    if let Some(s) = &o.field_manager {
        push_pair_str(&mut parts, "fieldManager", s);
    }
    if let Some(s) = &o.pretty {
        push_pair_str(&mut parts, "pretty", s);
    }
    parts
}

fn replace_query_parts(o: &ReplaceOptional) -> (r: Vec<Vec<u8>>)
    ensures
        r.deep_view() == replace_query(*o),
{
    let mut parts: Vec<Vec<u8>> = Vec::new();
    if let Some(s) = &o.dry_run {
        push_pair_str(&mut parts, "dryRun", s);
    }
    if let Some(s) = &o.field_manager {
        push_pair_str(&mut parts, "fieldManager", s);
    }
    if let Some(s) = &o.pretty {
        push_pair_str(&mut parts, "pretty", s);
    }
    parts
}

fn patch_query_parts(o: &PatchOptional) -> (r: Vec<Vec<u8>>)
    ensures
        r.deep_view() == patch_query(*o),
{
    let mut parts: Vec<Vec<u8>> = Vec::new();
    if let Some(s) = &o.dry_run {
        push_pair_str(&mut parts, "dryRun", s);
    }
    if let Some(s) = &o.field_manager {
        push_pair_str(&mut parts, "fieldManager", s);
    }
    if let Some(b) = o.force {
        push_pair_bool(&mut parts, "force", b);
    }
    if let Some(s) = &o.pretty {
        push_pair_str(&mut parts, "pretty", s);
    }
    parts
}

fn list_query_parts(o: &ListOptional) -> (r: Vec<Vec<u8>>)
    ensures
        r.deep_view() == list_query(*o),
{
    let mut parts: Vec<Vec<u8>> = Vec::new();
    if let Some(s) = &o.continue_ {
        push_pair_str(&mut parts, "continue", s);
    }
    if let Some(s) = &o.field_selector {
        push_pair_str(&mut parts, "fieldSelector", s);
    }
    if let Some(s) = &o.label_selector {
        push_pair_str(&mut parts, "labelSelector", s);
    }
    if let Some(n) = o.limit {
        push_pair_i64(&mut parts, "limit", n);
    }
    if let Some(s) = &o.resource_version {
        push_pair_str(&mut parts, "resourceVersion", s);
    }
    if let Some(n) = o.timeout_seconds {
        push_pair_i64(&mut parts, "timeoutSeconds", n);
    }
    parts
}

fn watch_query_parts(o: &WatchOptional) -> (r: Vec<Vec<u8>>)
    ensures
        r.deep_view() == watch_query(*o),
{
    let mut parts: Vec<Vec<u8>> = Vec::new();
    if let Some(b) = o.allow_watch_bookmarks {
        push_pair_bool(&mut parts, "allowWatchBookmarks", b);
    }
    if let Some(s) = &o.field_selector {
        push_pair_str(&mut parts, "fieldSelector", s);
    }
    if let Some(s) = &o.label_selector {
        push_pair_str(&mut parts, "labelSelector", s);
    }
    if let Some(s) = &o.pretty {
        push_pair_str(&mut parts, "pretty", s);
    }
    if let Some(s) = &o.resource_version {
        push_pair_str(&mut parts, "resourceVersion", s);
    }
    if let Some(n) = o.timeout_seconds {
        push_pair_i64(&mut parts, "timeoutSeconds", n);
    }
    parts
}

/// The delete-options body, as [`delete_body`] states it.
fn delete_options_body(o: &DeleteOptional) -> (r: Vec<u8>)
    ensures
        r@ == delete_body(*o),
{
    if o.dry_run.is_none() && o.grace_period_seconds.is_none() && o.propagation_policy.is_none() {
        return Vec::new();
    }
    let mut parts: Vec<Vec<u8>> = Vec::new();
    if let Some(s) = &o.dry_run {
        let mut p = str_bytes("\"dryRun\":");
        let sb = str_bytes(s.as_str());
        append_json_string(&mut p, &sb);
        parts.push(p);
    }
    if let Some(n) = o.grace_period_seconds {
        let mut p = str_bytes("\"gracePeriodSeconds\":");
        append_dec_i64(&mut p, n);
        parts.push(p);
    }
    if let Some(s) = &o.propagation_policy {
        let mut p = str_bytes("\"propagationPolicy\":");
        let sb = str_bytes(s.as_str());
        append_json_string(&mut p, &sb);
        parts.push(p);
    }
    proof {
        assert(parts.deep_view() =~~= delete_options_parts(*o));
    }
    let mut out: Vec<u8> = Vec::new();
    out.push(0x7b);
    append_joined(&mut out, &parts, 0x2c);
    out.push(0x7d);
    proof {
        assert(out@ =~= delete_body(*o));
    }
    out
}

/// The collection URL inside one namespace, the namespace
/// percent-encoded as a path segment.
pub open spec fn ns_base(ns: Seq<char>) -> Seq<u8> {
    encode_utf8("/apis/core.fornax-serverless.centaurusinfra.io/v1/namespaces/"@) + pct_seg(
        encode_utf8(ns),
    ) + encode_utf8("/applicationsessions"@)
}

/// The collection URL across all namespaces.
pub open spec fn all_ns_base() -> Seq<u8> {
    encode_utf8("/apis/core.fornax-serverless.centaurusinfra.io/v1/applicationsessions"@)
}

/// The URL of one named object, name and namespace percent-encoded.
pub open spec fn item_url(ns: Seq<char>, name: Seq<char>) -> Seq<u8> {
    ns_base(ns) + seq![0x2fu8] + pct_seg(encode_utf8(name))
}

fn ns_base_url(ns: &str) -> (r: Vec<u8>)
    ensures
        r@ == ns_base(ns@),
{
    let mut out = str_bytes("/apis/core.fornax-serverless.centaurusinfra.io/v1/namespaces/");
    let nb = str_bytes(ns);
    append_pct_seg(&mut out, &nb);
    append_str(&mut out, "/applicationsessions");
    out
}

fn item_url_vec(ns: &str, name: &str) -> (r: Vec<u8>)
    ensures
        r@ == item_url(ns@, name@),
{
    let mut out = ns_base_url(ns);
    out.push(0x2f);
    let nb = str_bytes(name);
    append_pct_seg(&mut out, &nb);
    proof {
        assert(out@ =~= item_url(ns@, name@));
    }
    out
}

fn all_ns_url() -> (r: Vec<u8>)
    ensures
        r@ == all_ns_base(),
{
    str_bytes("/apis/core.fornax-serverless.centaurusinfra.io/v1/applicationsessions")
}

impl ApplicationSession {
    /// Build the request that creates an ApplicationSession.
    pub fn create(namespace: &str, body: &ApplicationSession, optional: CreateOptional) -> (r:
        Result<Request, RequestError>)
        ensures
            r matches Ok(req) && ({
                &&& req.method == Method::Post
                &&& req.uri@ == ns_base(namespace@) + seq![0x3fu8] + join_sep(
                    create_query(optional),
                    0x26,
                )
                &&& req.content_type matches Some(ct) && ct@ == encode_utf8("application/json"@)
                &&& req.body@ == session_json(*body)
            }),
    {
        let mut uri = ns_base_url(namespace);
        uri.push(0x3f);
        let parts = create_query_parts(&optional);
        append_joined(&mut uri, &parts, 0x26);
        proof {
            assert(uri@ =~= ns_base(namespace@) + seq![0x3fu8] + join_sep(
                create_query(optional),
                0x26,
            ));
        }
        Ok(Request {
            method: Method::Post,
            uri,
            content_type: Some(str_bytes("application/json")),
            body: body.to_json(),
        })
    }

    /// Build the request that deletes a whole collection of
    /// ApplicationSessions in one namespace.
    pub fn delete_collection(
        namespace: &str,
        delete_optional: DeleteOptional,
        list_optional: ListOptional,
    ) -> (r: Result<Request, RequestError>)
        ensures
            r matches Ok(req) && ({
                &&& req.method == Method::Delete
                &&& req.uri@ == ns_base(namespace@) + seq![0x3fu8] + join_sep(
                    list_query(list_optional),
                    0x26,
                )
                &&& req.content_type matches Some(ct) && ct@ == encode_utf8("application/json"@)
                &&& req.body@ == delete_body(delete_optional)
            }),
    {
        let mut uri = ns_base_url(namespace);
        uri.push(0x3f);
        let parts = list_query_parts(&list_optional);
        append_joined(&mut uri, &parts, 0x26);
        proof {
            assert(uri@ =~= ns_base(namespace@) + seq![0x3fu8] + join_sep(
                list_query(list_optional),
                0x26,
            ));
        }
        Ok(Request {
            method: Method::Delete,
            uri,
            content_type: Some(str_bytes("application/json")),
            body: delete_options_body(&delete_optional),
        })
    }

    /// Build the request that deletes one named ApplicationSession.
    pub fn delete(name: &str, namespace: &str, optional: DeleteOptional) -> (r: Result<
        Request,
        RequestError,
    >)
        ensures
            r matches Ok(req) && ({
                &&& req.method == Method::Delete
                &&& req.uri@ == item_url(namespace@, name@)
                &&& req.content_type matches Some(ct) && ct@ == encode_utf8("application/json"@)
                &&& req.body@ == delete_body(optional)
            }),
    {
        Ok(Request {
            method: Method::Delete,
            uri: item_url_vec(namespace, name),
            content_type: Some(str_bytes("application/json")),
            body: delete_options_body(&optional),
        })
    }

    /// Build the request that lists ApplicationSessions across all
    /// namespaces.
    pub fn list_for_all_namespaces(optional: ListOptional) -> (r: Result<Request, RequestError>)
        ensures
            r matches Ok(req) && ({
                &&& req.method == Method::Get
                &&& req.uri@ == all_ns_base() + seq![0x3fu8] + join_sep(
                    list_query(optional),
                    0x26,
                )
                &&& req.content_type is None
                &&& req.body@ == Seq::<u8>::empty()
            }),
    {
        let mut uri = all_ns_url();
        uri.push(0x3f);
        let parts = list_query_parts(&optional);
        append_joined(&mut uri, &parts, 0x26);
        proof {
            assert(uri@ =~= all_ns_base() + seq![0x3fu8] + join_sep(list_query(optional), 0x26));
        }
        Ok(Request { method: Method::Get, uri, content_type: None, body: Vec::new() })
    }

    /// Build the request that lists ApplicationSessions in one
    /// namespace.
    pub fn list(namespace: &str, optional: ListOptional) -> (r: Result<Request, RequestError>)
        ensures
            r matches Ok(req) && ({
                &&& req.method == Method::Get
                &&& req.uri@ == ns_base(namespace@) + seq![0x3fu8] + join_sep(
                    list_query(optional),
                    0x26,
                )
                &&& req.content_type is None
                &&& req.body@ == Seq::<u8>::empty()
            }),
    {
        let mut uri = ns_base_url(namespace);
        uri.push(0x3f);
        let parts = list_query_parts(&optional);
        append_joined(&mut uri, &parts, 0x26);
        proof {
            assert(uri@ =~= ns_base(namespace@) + seq![0x3fu8] + join_sep(
                list_query(optional),
                0x26,
            ));
        }
        Ok(Request { method: Method::Get, uri, content_type: None, body: Vec::new() })
    }

    /// Build the request that partially updates one named
    /// ApplicationSession.
    pub fn patch(name: &str, namespace: &str, body: &Patch, optional: PatchOptional) -> (r: Result<
        Request,
        RequestError,
    >)
        ensures
            r matches Ok(req) && ({
                &&& req.method == Method::Patch
                &&& req.uri@ == item_url(namespace@, name@) + seq![0x3fu8] + join_sep(
                    patch_query(optional),
                    0x26,
                )
                &&& req.content_type matches Some(ct) && ct@ == patch_content_type(*body)
                &&& req.body@ == patch_payload(*body)
            }),
    {
        let mut uri = item_url_vec(namespace, name);
        uri.push(0x3f);
        let parts = patch_query_parts(&optional);
        append_joined(&mut uri, &parts, 0x26);
        proof {
            assert(uri@ =~= item_url(namespace@, name@) + seq![0x3fu8] + join_sep(
                patch_query(optional),
                0x26,
            ));
        }
        let ct = match body {
            Patch::Json(_) => str_bytes("application/json-patch+json"),
            Patch::Merge(_) => str_bytes("application/merge-patch+json"),
            Patch::StrategicMerge(_) => str_bytes("application/strategic-merge-patch+json"),
        };
        let payload = match body {
            Patch::Json(s) => str_bytes(s.as_str()),
            Patch::Merge(s) => str_bytes(s.as_str()),
            Patch::StrategicMerge(s) => str_bytes(s.as_str()),
        };
        Ok(Request { method: Method::Patch, uri, content_type: Some(ct), body: payload })
    }

    /// Build the request that partially updates the status of one named
    /// ApplicationSession.
    pub fn patch_status(name: &str, namespace: &str, body: &Patch, optional: PatchOptional) -> (r:
        Result<Request, RequestError>)
        ensures
            r matches Ok(req) && ({
                &&& req.method == Method::Patch
                &&& req.uri@ == item_url(namespace@, name@) + encode_utf8("/status"@) + seq![
                    0x3fu8,
                ] + join_sep(patch_query(optional), 0x26)
                &&& req.content_type matches Some(ct) && ct@ == patch_content_type(*body)
                &&& req.body@ == patch_payload(*body)
            }),
    {
        let mut uri = item_url_vec(namespace, name);
        append_str(&mut uri, "/status");
        uri.push(0x3f);
        let parts = patch_query_parts(&optional);
        append_joined(&mut uri, &parts, 0x26);
        proof {
            assert(uri@ =~= item_url(namespace@, name@) + encode_utf8("/status"@) + seq![0x3fu8]
                + join_sep(patch_query(optional), 0x26));
        }
        let ct = match body {
            Patch::Json(_) => str_bytes("application/json-patch+json"),
            Patch::Merge(_) => str_bytes("application/merge-patch+json"),
            Patch::StrategicMerge(_) => str_bytes("application/strategic-merge-patch+json"),
        };
        let payload = match body {
            Patch::Json(s) => str_bytes(s.as_str()),
            Patch::Merge(s) => str_bytes(s.as_str()),
            Patch::StrategicMerge(s) => str_bytes(s.as_str()),
        };
        Ok(Request { method: Method::Patch, uri, content_type: Some(ct), body: payload })
    }

    /// Build the request that reads one named ApplicationSession.
    pub fn read(name: &str, namespace: &str) -> (r: Result<Request, RequestError>)
        ensures
            r matches Ok(req) && ({
                &&& req.method == Method::Get
                &&& req.uri@ == item_url(namespace@, name@)
                &&& req.content_type is None
                &&& req.body@ == Seq::<u8>::empty()
            }),
    {
        Ok(Request {
            method: Method::Get,
            uri: item_url_vec(namespace, name),
            content_type: None,
            body: Vec::new(),
        })
    }

    /// Build the request that reads the status of one named
    /// ApplicationSession.
    pub fn read_status(name: &str, namespace: &str) -> (r: Result<Request, RequestError>)
        ensures
            r matches Ok(req) && ({
                &&& req.method == Method::Get
                &&& req.uri@ == item_url(namespace@, name@) + encode_utf8("/status"@)
                &&& req.content_type is None
                &&& req.body@ == Seq::<u8>::empty()
            }),
    {
        let mut uri = item_url_vec(namespace, name);
        append_str(&mut uri, "/status");
        Ok(Request { method: Method::Get, uri, content_type: None, body: Vec::new() })
    }

    /// Build the request that replaces one named ApplicationSession.
    pub fn replace(
        name: &str,
        namespace: &str,
        body: &ApplicationSession,
        optional: ReplaceOptional,
    ) -> (r: Result<Request, RequestError>)
        ensures
            r matches Ok(req) && ({
                &&& req.method == Method::Put
                &&& req.uri@ == item_url(namespace@, name@) + seq![0x3fu8] + join_sep(
                    replace_query(optional),
                    0x26,
                )
                &&& req.content_type matches Some(ct) && ct@ == encode_utf8("application/json"@)
                &&& req.body@ == session_json(*body)
            }),
    {
        let mut uri = item_url_vec(namespace, name);
        uri.push(0x3f);
        let parts = replace_query_parts(&optional);
        append_joined(&mut uri, &parts, 0x26);
        proof {
            assert(uri@ =~= item_url(namespace@, name@) + seq![0x3fu8] + join_sep(
                replace_query(optional),
                0x26,
            ));
        }
        Ok(Request {
            method: Method::Put,
            uri,
            content_type: Some(str_bytes("application/json")),
            body: body.to_json(),
        })
    }

    /// Build the request that replaces the status of one named
    /// ApplicationSession.
    pub fn replace_status(
        name: &str,
        namespace: &str,
        body: &ApplicationSession,
        optional: ReplaceOptional,
    ) -> (r: Result<Request, RequestError>)
        ensures
            r matches Ok(req) && ({
                &&& req.method == Method::Put
                &&& req.uri@ == item_url(namespace@, name@) + encode_utf8("/status"@) + seq![
                    0x3fu8,
                ] + join_sep(replace_query(optional), 0x26)
                &&& req.content_type matches Some(ct) && ct@ == encode_utf8("application/json"@)
                &&& req.body@ == session_json(*body)
            }),
    {
        let mut uri = item_url_vec(namespace, name);
        append_str(&mut uri, "/status");
        uri.push(0x3f);
        let parts = replace_query_parts(&optional);
        append_joined(&mut uri, &parts, 0x26);
        proof {
            assert(uri@ =~= item_url(namespace@, name@) + encode_utf8("/status"@) + seq![0x3fu8]
                + join_sep(replace_query(optional), 0x26));
        }
        Ok(Request {
            method: Method::Put,
            uri,
            content_type: Some(str_bytes("application/json")),
            body: body.to_json(),
        })
    }

    /// Build the request that watches ApplicationSessions across all
    /// namespaces.
    pub fn watch_for_all_namespaces(optional: WatchOptional) -> (r: Result<Request, RequestError>)
        ensures
            r matches Ok(req) && ({
                &&& req.method == Method::Get
                &&& req.uri@ == all_ns_base() + seq![0x3fu8] + join_sep(
                    watch_query(optional),
                    0x26,
                )
                &&& req.content_type is None
                &&& req.body@ == Seq::<u8>::empty()
            }),
    {
        let mut uri = all_ns_url();
        uri.push(0x3f);
        let parts = watch_query_parts(&optional);
        append_joined(&mut uri, &parts, 0x26);
        proof {
            assert(uri@ =~= all_ns_base() + seq![0x3fu8] + join_sep(watch_query(optional), 0x26));
        }
        Ok(Request { method: Method::Get, uri, content_type: None, body: Vec::new() })
    }

    /// Build the request that watches ApplicationSessions in one
    /// namespace.
    pub fn watch(namespace: &str, optional: WatchOptional) -> (r: Result<Request, RequestError>)
        ensures
            r matches Ok(req) && ({
                &&& req.method == Method::Get
                &&& req.uri@ == ns_base(namespace@) + seq![0x3fu8] + join_sep(
                    watch_query(optional),
                    0x26,
                )
                &&& req.content_type is None
                &&& req.body@ == Seq::<u8>::empty()
            }),
    {
        let mut uri = ns_base_url(namespace);
        uri.push(0x3f);
        let parts = watch_query_parts(&optional);
        append_joined(&mut uri, &parts, 0x26);
        proof {
            assert(uri@ =~= ns_base(namespace@) + seq![0x3fu8] + join_sep(
                watch_query(optional),
                0x26,
            ));
        }
        Ok(Request { method: Method::Get, uri, content_type: None, body: Vec::new() })
    }
}

} // verus!

