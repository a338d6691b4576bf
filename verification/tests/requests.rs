use hap::http::{json_response, status_response, HttpResponse, Method};
use hap::prepare::{answer_prepare, prepare, JsonDocument, JsonValue};
use hap::resource::{image_response, snapshot_response, take_snapshot, SnapshotRequest};
use hap::server::{not_found_response, route, Handlers, Plan, Route, Server};
use std::sync::{Arc, Mutex};

fn put(body: &str) -> HttpResponse {
    prepare(Method::Put, &body.as_bytes().to_vec())
}

fn refused() -> HttpResponse {
    json_response("{\"status\":-70410}", 400)
}

fn header(name: &str, value: &str) -> (String, String) {
    (name.to_string(), value.to_string())
}

fn no_resource() -> HttpResponse {
    HttpResponse {
        status: 500,
        headers: vec![
            header("content-type", "application/hap+json"),
            header("content-length", "17"),
        ],
        body: b"{\"status\":-70409}".to_vec(),
    }
}

#[test]
fn methods_by_name() {
    assert_eq!(Method::from_name("GET"), Method::Get);
    assert_eq!(Method::from_name("POST"), Method::Post);
    assert_eq!(Method::from_name("PUT"), Method::Put);
    assert_eq!(Method::from_name("DELETE"), Method::Other);
    assert_eq!(Method::from_name("put"), Method::Other);
}

#[test]
fn routes() {
    assert_eq!(route(Method::Post, "/pair-setup"), Route::PairSetup);
    assert_eq!(route(Method::Post, "/pair-verify"), Route::PairVerify);
    assert_eq!(route(Method::Get, "/accessories"), Route::Accessories);
    assert_eq!(route(Method::Get, "/characteristics"), Route::GetCharacteristics);
    assert_eq!(route(Method::Put, "/characteristics"), Route::PutCharacteristics);
    assert_eq!(route(Method::Post, "/pairings"), Route::Pairings);
    assert_eq!(route(Method::Post, "/identify"), Route::Identify);
    assert_eq!(route(Method::Post, "/resource"), Route::Snapshot);
    assert_eq!(route(Method::Put, "/prepare"), Route::Prepare);
    assert_eq!(route(Method::Post, "/prepare"), Route::Prepare);
}

#[test]
fn unrouted_requests() {
    assert_eq!(route(Method::Get, "/pair-setup"), Route::Unrouted);
    assert_eq!(route(Method::Post, "/accessories"), Route::Unrouted);
    assert_eq!(route(Method::Post, "/characteristics"), Route::Unrouted);
    assert_eq!(route(Method::Get, "/resource"), Route::Unrouted);
    assert_eq!(route(Method::Other, "/accessories"), Route::Unrouted);
    assert_eq!(route(Method::Get, "/"), Route::Unrouted);
    assert_eq!(route(Method::Get, "/accessories/"), Route::Unrouted);
    assert_eq!(not_found_response(), status_response(404));
    assert_eq!(status_response(404).headers, vec![]);
}

#[test]
fn a_well_formed_preparation_is_accepted() {
    let response = put("{\"ttl\": 5000, \"pid\": 11}");
    assert_eq!(response.status, 200);
    assert_eq!(response.body, b"{\"status\":0}".to_vec());
    assert_eq!(response.headers[0], header("content-type", "application/hap+json"));
    assert_eq!(response.headers[1], header("content-length", "12"));
}

#[test]
fn identifiers_may_exceed_signed_integers() {
    assert_eq!(put("{\"ttl\":1,\"pid\":4953017753974871000}").status, 200);
    assert_eq!(put("{\"ttl\":1,\"pid\":17325996466601334224}").status, 200);
    assert_eq!(put("{\"ttl\":1,\"pid\":-3}").status, 200);
    assert_eq!(put("{\"ttl\":1,\"pid\":1.5,\"more\":[1]}").status, 200);
}

#[test]
fn a_malformed_preparation_is_refused() {
    assert_eq!(put(""), refused());
    assert_eq!(put("not json"), refused());
    assert_eq!(put("[1, 2]"), refused());
    assert_eq!(put("{}"), refused());
    assert_eq!(put("{\"ttl\": 5000}"), refused());
    assert_eq!(put("{\"pid\": 11}"), refused());
    assert_eq!(put("{\"ttl\": 0, \"pid\": 11}"), refused());
    assert_eq!(put("{\"ttl\": -5, \"pid\": 11}"), refused());
    assert_eq!(put("{\"ttl\": 1.5, \"pid\": 11}"), refused());
    assert_eq!(put("{\"ttl\": \"5000\", \"pid\": 11}"), refused());
    assert_eq!(put("{\"ttl\": 5000, \"pid\": \"11\"}"), refused());
    assert_eq!(put("{\"inner\": {\"ttl\": 5000, \"pid\": 11}}"), refused());
    assert_eq!(refused().body, b"{\"status\":-70410}".to_vec());
}

#[test]
fn anything_but_a_put_is_refused() {
    let body = b"{\"ttl\": 5000, \"pid\": 11}".to_vec();
    assert_eq!(prepare(Method::Post, &body), refused());
    assert_eq!(prepare(Method::Get, &body), refused());
    assert_eq!(prepare(Method::Other, &body), refused());
}

#[test]
fn preparations_are_answered_by_their_members() {
    let number = |unsigned: Option<u64>| JsonValue::Number { unsigned };
    let document = |pid: JsonValue, ttl: JsonValue| JsonDocument {
        members: Some(vec![
            ("more".to_string(), JsonValue::Other),
            ("pid".to_string(), pid),
            ("ttl".to_string(), ttl),
        ]),
    };
    let good = document(number(None), number(Some(1)));
    assert_eq!(good.get("ttl"), Some(number(Some(1))));
    assert_eq!(good.get("nothing"), None);
    assert_eq!(answer_prepare(Method::Put, false, &good).status, 200);
    assert_eq!(answer_prepare(Method::Put, true, &good), refused());
    let bad = document(JsonValue::Other, number(Some(1)));
    assert_eq!(answer_prepare(Method::Put, false, &bad), refused());
    let nothing = JsonDocument { members: None };
    assert_eq!(answer_prepare(Method::Put, false, &nothing), refused());
}

#[test]
fn snapshot_sizes_fall_back() {
    let mut request = SnapshotRequest::or_unspecified(None);
    assert_eq!(request.dimensions(), (1920, 1080));
    request.image_width = Some(640);
    assert_eq!(request.dimensions(), (640, 1080));
    request.image_height = Some(360);
    assert_eq!(SnapshotRequest::or_unspecified(Some(request)).dimensions(), (640, 360));
}

#[test]
fn an_image_is_served_with_its_length() {
    let response = image_response(vec![0xff, 0xd8, 0xff]);
    assert_eq!(response.status, 200);
    assert_eq!(
        response.headers,
        vec![header("content-type", "image/jpeg"), header("content-length", "3")]
    );
    assert_eq!(response.body, vec![0xff, 0xd8, 0xff]);
}

#[test]
fn the_provider_is_asked_for_the_size() {
    let request = SnapshotRequest {
        resource_type: Some("image".to_string()),
        image_width: Some(640),
        image_height: None,
    };
    let provider = |width: u16, height: u16| -> Result<Vec<u8>, ()> {
        assert_eq!((width, height), (640, 1080));
        Ok(vec![1, 2])
    };
    assert_eq!(take_snapshot(&request, Some(provider)), image_response(vec![1, 2]));
}

#[test]
fn without_an_image_the_resource_does_not_exist() {
    let request = SnapshotRequest::or_unspecified(None);
    let failing = |_: u16, _: u16| -> Result<Vec<u8>, u8> { Err(3) };
    assert_eq!(take_snapshot(&request, Some(failing)), no_resource());
    let mut absent = Some(failing);
    absent.take();
    assert_eq!(take_snapshot(&request, absent), no_resource());
    assert_eq!(snapshot_response::<u8>(Err(1)), no_resource());
}

#[test]
fn a_clone_of_a_server_shares_its_parts() {
    let snapshot: Arc<Mutex<Option<u8>>> = Arc::new(Mutex::new(None));
    let server = Server::new(1u8, 2u8, 3u8, 4u8, 5u8, snapshot.clone());
    let copy = server.clone();
    *snapshot.lock().expect("the provider") = Some(6);
    assert!(Arc::ptr_eq(&copy.snapshot, &snapshot));
    assert_eq!(*copy.snapshot.lock().expect("the provider"), Some(6));
    assert_eq!((copy.config, copy.storage, copy.accessory_database), (1, 2, 3));
    assert_eq!((copy.event_emitter, copy.mdns_responder), (4, 5));
}

#[test]
fn a_server_keeps_what_it_is_made_of() {
    let server = Server::new(1u8, "storage", 3u16, 'e', 5u32, Some(6u64)).clone();
    assert_eq!(server.config, 1);
    assert_eq!(server.storage, "storage");
    assert_eq!(server.accessory_database, 3);
    assert_eq!(server.event_emitter, 'e');
    assert_eq!(server.mdns_responder, 5);
    assert_eq!(server.snapshot, Some(6));
}

#[test]
fn requests_are_planned_by_their_routes() {
    let handlers = Handlers {
        pair_setup: 1,
        pair_verify: 2,
        accessories: 3,
        get_characteristics: 4,
        put_characteristics: 5,
        pairings: 6,
        identify: 7,
    };
    assert!(matches!(handlers.plan(Method::Post, "/pair-setup"), Plan::Handle(1)));
    assert!(matches!(handlers.plan(Method::Post, "/pair-verify"), Plan::Handle(2)));
    assert!(matches!(handlers.plan(Method::Get, "/accessories"), Plan::Handle(3)));
    assert!(matches!(handlers.plan(Method::Get, "/characteristics"), Plan::Handle(4)));
    assert!(matches!(handlers.plan(Method::Put, "/characteristics"), Plan::Handle(5)));
    assert!(matches!(handlers.plan(Method::Post, "/pairings"), Plan::Handle(6)));
    assert!(matches!(handlers.plan(Method::Post, "/identify"), Plan::Handle(7)));
    assert!(matches!(handlers.plan(Method::Put, "/prepare"), Plan::Prepare));
    assert!(matches!(handlers.plan(Method::Post, "/resource"), Plan::Snapshot));
    match handlers.plan(Method::Get, "/elsewhere") {
        Plan::Respond(response) => assert_eq!(response, status_response(404)),
        _ => panic!("an unknown route was answered"),
    }
}
