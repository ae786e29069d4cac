//! The request builders: URLs, query strings, bodies and content types,
//! checked byte for byte, with the JSON bodies cross-read by serde_json.

use shim_core::directory::{ServiceDirectoryImpl, TestRequestMessage};
use shim_core::session::{
    ApplicationSession, ApplicationSessionSpec, ApplicationSessionStatus, CreateOptional,
    DeleteOptional, ListOptional, Method, ObjectMeta, Patch, PatchOptional, ReplaceOptional,
    WatchOptional,
};

fn uri_str(v: &[u8]) -> String {
    String::from_utf8(v.to_vec()).unwrap()
}

fn sample_session() -> ApplicationSession {
    ApplicationSession {
        metadata: ObjectMeta {
            name: "sess-1".to_string(),
            namespace: "game".to_string(),
        },
        spec: Some(ApplicationSessionSpec {
            application_name: "nodejs-hw".to_string(),
            session_data: "level=3".to_string(),
        }),
        status: None,
    }
}

#[test]
fn create_builds_post_with_json_body() {
    let req = ApplicationSession::create(
        "game",
        &sample_session(),
        CreateOptional::default(),
    )
    .unwrap();
    assert_eq!(req.method, Method::Post);
    assert_eq!(
        uri_str(&req.uri),
        "/apis/core.fornax-serverless.centaurusinfra.io/v1/namespaces/game/applicationsessions?"
    );
    assert_eq!(
        String::from_utf8(req.content_type.unwrap()).unwrap(),
        "application/json"
    );
    let v: serde_json::Value = serde_json::from_slice(&req.body).unwrap();
    assert_eq!(v["apiVersion"], "core.fornax-serverless.centaurusinfra.io/v1");
    assert_eq!(v["kind"], "ApplicationSession");
    assert_eq!(v["metadata"]["name"], "sess-1");
    assert_eq!(v["metadata"]["namespace"], "game");
    assert_eq!(v["spec"]["applicationName"], "nodejs-hw");
    assert_eq!(v["spec"]["sessionData"], "level=3");
    assert!(v.get("status").is_none());
}

#[test]
fn json_body_escapes_special_characters() {
    let s = ApplicationSession {
        metadata: ObjectMeta {
            name: "a\"b\\c\nd\te\u{1}".to_string(),
            namespace: "ns".to_string(),
        },
        spec: None,
        status: Some(ApplicationSessionStatus {
            session_status: "Available".to_string(),
        }),
    };
    let req = ApplicationSession::create("ns", &s, CreateOptional::default()).unwrap();
    let v: serde_json::Value = serde_json::from_slice(&req.body).unwrap();
    assert_eq!(v["metadata"]["name"], "a\"b\\c\nd\te\u{1}");
    assert_eq!(v["status"]["sessionStatus"], "Available");
}

#[test]
fn namespace_and_name_are_percent_encoded() {
    let req = ApplicationSession::read("se ss/1", "n s#2").unwrap();
    assert_eq!(
        uri_str(&req.uri),
        "/apis/core.fornax-serverless.centaurusinfra.io/v1/namespaces/n%20s%232/applicationsessions/se%20ss%2F1"
    );
    assert_eq!(req.method, Method::Get);
    assert!(req.content_type.is_none());
    assert!(req.body.is_empty());
}

#[test]
fn non_ascii_namespace_is_percent_encoded_bytewise() {
    let req = ApplicationSession::list("über", ListOptional::default()).unwrap();
    assert_eq!(
        uri_str(&req.uri),
        "/apis/core.fornax-serverless.centaurusinfra.io/v1/namespaces/%C3%BCber/applicationsessions?"
    );
}

#[test]
fn list_serializes_query_parameters_in_order() {
    let opt = ListOptional {
        label_selector: Some("app=x y".to_string()),
        limit: Some(500),
        timeout_seconds: Some(-1),
        ..ListOptional::default()
    };
    let req = ApplicationSession::list("ns", opt).unwrap();
    assert_eq!(
        uri_str(&req.uri),
        "/apis/core.fornax-serverless.centaurusinfra.io/v1/namespaces/ns/applicationsessions?labelSelector=app%3Dx+y&limit=500&timeoutSeconds=-1"
    );
}

#[test]
fn numeric_query_values_cover_the_whole_range() {
    let req = ApplicationSession::list(
        "ns",
        ListOptional {
            limit: Some(i64::MAX),
            timeout_seconds: Some(i64::MIN),
            ..ListOptional::default()
        },
    )
    .unwrap();
    assert_eq!(
        uri_str(&req.uri),
        "/apis/core.fornax-serverless.centaurusinfra.io/v1/namespaces/ns/applicationsessions?limit=9223372036854775807&timeoutSeconds=-9223372036854775808"
    );
}

#[test]
fn list_for_all_namespaces_uses_cluster_url() {
    let req = ApplicationSession::list_for_all_namespaces(ListOptional {
        continue_: Some("tok*en".to_string()),
        ..ListOptional::default()
    })
    .unwrap();
    assert_eq!(
        uri_str(&req.uri),
        "/apis/core.fornax-serverless.centaurusinfra.io/v1/applicationsessions?continue=tok*en"
    );
}

#[test]
fn watch_serializes_booleans() {
    let req = ApplicationSession::watch(
        "ns",
        WatchOptional {
            allow_watch_bookmarks: Some(true),
            timeout_seconds: Some(0),
            ..WatchOptional::default()
        },
    )
    .unwrap();
    assert_eq!(
        uri_str(&req.uri),
        "/apis/core.fornax-serverless.centaurusinfra.io/v1/namespaces/ns/applicationsessions?allowWatchBookmarks=true&timeoutSeconds=0"
    );
    let req = ApplicationSession::watch_for_all_namespaces(WatchOptional {
        allow_watch_bookmarks: Some(false),
        ..WatchOptional::default()
    })
    .unwrap();
    assert_eq!(
        uri_str(&req.uri),
        "/apis/core.fornax-serverless.centaurusinfra.io/v1/applicationsessions?allowWatchBookmarks=false"
    );
}

#[test]
fn patch_picks_content_type_by_flavor() {
    let req = ApplicationSession::patch(
        "s1",
        "ns",
        &Patch::Json("[{\"op\":\"remove\",\"path\":\"/spec\"}]".to_string()),
        PatchOptional::default(),
    )
    .unwrap();
    assert_eq!(req.method, Method::Patch);
    assert_eq!(
        String::from_utf8(req.content_type.unwrap()).unwrap(),
        "application/json-patch+json"
    );
    assert_eq!(
        String::from_utf8(req.body).unwrap(),
        "[{\"op\":\"remove\",\"path\":\"/spec\"}]"
    );

    let req = ApplicationSession::patch(
        "s1",
        "ns",
        &Patch::Merge("{\"spec\":null}".to_string()),
        PatchOptional {
            force: Some(true),
            ..PatchOptional::default()
        },
    )
    .unwrap();
    assert_eq!(
        String::from_utf8(req.content_type.unwrap()).unwrap(),
        "application/merge-patch+json"
    );
    assert!(uri_str(&req.uri).ends_with("/applicationsessions/s1?force=true"));

    let req = ApplicationSession::patch_status(
        "s1",
        "ns",
        &Patch::StrategicMerge("{}".to_string()),
        PatchOptional::default(),
    )
    .unwrap();
    assert_eq!(
        String::from_utf8(req.content_type.unwrap()).unwrap(),
        "application/strategic-merge-patch+json"
    );
    assert!(uri_str(&req.uri).ends_with("/applicationsessions/s1/status?"));
}

#[test]
fn delete_sends_options_body_only_when_set() {
    let req = ApplicationSession::delete("s1", "ns", DeleteOptional::default()).unwrap();
    assert_eq!(req.method, Method::Delete);
    assert!(req.body.is_empty());
    assert!(uri_str(&req.uri).ends_with("/applicationsessions/s1"));

    let req = ApplicationSession::delete(
        "s1",
        "ns",
        DeleteOptional {
            grace_period_seconds: Some(30),
            propagation_policy: Some("Foreground".to_string()),
            ..DeleteOptional::default()
        },
    )
    .unwrap();
    let v: serde_json::Value = serde_json::from_slice(&req.body).unwrap();
    assert_eq!(v["gracePeriodSeconds"], 30);
    assert_eq!(v["propagationPolicy"], "Foreground");
}

#[test]
fn delete_collection_takes_list_query_and_delete_body() {
    let req = ApplicationSession::delete_collection(
        "ns",
        DeleteOptional {
            dry_run: Some("All".to_string()),
            ..DeleteOptional::default()
        },
        ListOptional {
            field_selector: Some("status.phase=Done".to_string()),
            ..ListOptional::default()
        },
    )
    .unwrap();
    assert_eq!(req.method, Method::Delete);
    assert_eq!(
        uri_str(&req.uri),
        "/apis/core.fornax-serverless.centaurusinfra.io/v1/namespaces/ns/applicationsessions?fieldSelector=status.phase%3DDone"
    );
    let v: serde_json::Value = serde_json::from_slice(&req.body).unwrap();
    assert_eq!(v["dryRun"], "All");
}

#[test]
fn replace_and_status_urls() {
    let s = sample_session();
    let req = ApplicationSession::replace("s1", "ns", &s, ReplaceOptional::default()).unwrap();
    assert_eq!(req.method, Method::Put);
    assert!(uri_str(&req.uri).ends_with("/applicationsessions/s1?"));
    let v: serde_json::Value = serde_json::from_slice(&req.body).unwrap();
    assert_eq!(v["metadata"]["name"], "sess-1");

    let req = ApplicationSession::replace_status(
        "s1",
        "ns",
        &s,
        ReplaceOptional {
            field_manager: Some("ctl".to_string()),
            ..ReplaceOptional::default()
        },
    )
    .unwrap();
    assert!(uri_str(&req.uri).ends_with("/applicationsessions/s1/status?fieldManager=ctl"));

    let req = ApplicationSession::read_status("s1", "ns").unwrap();
    assert!(uri_str(&req.uri).ends_with("/applicationsessions/s1/status"));
}

#[test]
fn empty_strings_stay_empty_everywhere() {
    let req = ApplicationSession::read("", "").unwrap();
    assert_eq!(
        uri_str(&req.uri),
        "/apis/core.fornax-serverless.centaurusinfra.io/v1/namespaces//applicationsessions/"
    );
    let s = ApplicationSession::default();
    let req = ApplicationSession::create("", &s, CreateOptional::default()).unwrap();
    let v: serde_json::Value = serde_json::from_slice(&req.body).unwrap();
    assert_eq!(v["metadata"]["name"], "");
    assert_eq!(v["metadata"]["namespace"], "");
    assert!(v.get("spec").is_none());
    assert!(v.get("status").is_none());
}

#[test]
fn full_list_query_keeps_field_order() {
    let opt = ListOptional {
        continue_: Some("c".to_string()),
        field_selector: Some("f".to_string()),
        label_selector: Some("l".to_string()),
        limit: Some(1),
        resource_version: Some("rv".to_string()),
        timeout_seconds: Some(2),
    };
    let req = ApplicationSession::list("n", opt).unwrap();
    assert!(uri_str(&req.uri).ends_with(
        "?continue=c&fieldSelector=f&labelSelector=l&limit=1&resourceVersion=rv&timeoutSeconds=2"
    ));
}

#[test]
fn body_carries_spec_and_status_together() {
    let s = ApplicationSession {
        metadata: ObjectMeta {
            name: "n".to_string(),
            namespace: "ns".to_string(),
        },
        spec: Some(ApplicationSessionSpec {
            application_name: "app".to_string(),
            session_data: String::new(),
        }),
        status: Some(ApplicationSessionStatus {
            session_status: "Pending".to_string(),
        }),
    };
    let req = ApplicationSession::replace("n", "ns", &s, ReplaceOptional::default()).unwrap();
    let v: serde_json::Value = serde_json::from_slice(&req.body).unwrap();
    assert_eq!(v["spec"]["applicationName"], "app");
    assert_eq!(v["spec"]["sessionData"], "");
    assert_eq!(v["status"]["sessionStatus"], "Pending");
}

#[test]
fn merge_from_overwrites_metadata_and_present_parts() {
    let mut s = sample_session();
    let other = ApplicationSession {
        metadata: ObjectMeta {
            name: "renamed".to_string(),
            namespace: "game".to_string(),
        },
        spec: None,
        status: Some(ApplicationSessionStatus {
            session_status: "Closed".to_string(),
        }),
    };
    s.merge_from(other);
    assert_eq!(s.metadata().name, "renamed");
    assert_eq!(s.spec.as_ref().unwrap().application_name, "nodejs-hw");
    assert_eq!(s.status.as_ref().unwrap().session_status, "Closed");
}

#[test]
fn ping_answers_with_server_name() {
    let svc = ServiceDirectoryImpl::default();
    let resp = svc.test_ping(TestRequestMessage {
        client_name: "a client".to_string(),
    });
    assert_eq!(resp.server_name, "Server");
}
