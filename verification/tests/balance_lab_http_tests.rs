use brawler_server::balance_lab::http::{
    admit_command, asset_target_path, check_command_headers, check_declared_length,
    check_read_length, check_schema, content_type_for_extension, is_same_origin,
    json_media_type, request_path, route_request, transaction_id_from, ApiRejection,
    HttpMethod, LabCommandKind, LabRoute, MAX_REQUEST_BODY, SNAPSHOT_SCHEMA_VERSION,
};

fn json_headers() -> Vec<String> {
    vec!["application/json".to_string()]
}

#[test]
fn request_path_cuts_the_query() {
    assert_eq!(request_path("/api/v1/state?verbose=1"), "/api/v1/state");
    assert_eq!(request_path("/assets/site.css"), "/assets/site.css");
    assert_eq!(request_path("?only=query"), "");
    assert_eq!(request_path("/a?b?c"), "/a");
}

#[test]
fn routes_follow_method_and_path() {
    assert_eq!(route_request(HttpMethod::Get, "/api/v1/state"), LabRoute::State);
    assert_eq!(route_request(HttpMethod::Get, "/client/route"), LabRoute::Asset);
    assert_eq!(route_request(HttpMethod::Post, "/api/v1/apply"), LabRoute::Apply);
    assert_eq!(
        route_request(HttpMethod::Post, "/api/v1/restore-defaults"),
        LabRoute::RestoreDefaults
    );
    assert_eq!(route_request(HttpMethod::Post, "/api/v1/state"), LabRoute::NotFound);
    assert_eq!(route_request(HttpMethod::Get, "/api/v1/apply"), LabRoute::Asset);
    assert_eq!(route_request(HttpMethod::Other, "/api/v1/apply"), LabRoute::NotFound);
}

#[test]
fn same_origin_needs_the_origin_to_name_the_host() {
    assert!(is_same_origin(None, None));
    assert!(is_same_origin(None, Some("127.0.0.1")));
    assert!(is_same_origin(Some("http://127.0.0.1:7000"), Some("127.0.0.1:7000")));
    assert!(!is_same_origin(Some("http://evil.example"), Some("127.0.0.1:7000")));
    assert!(!is_same_origin(Some("https://127.0.0.1:7000"), Some("127.0.0.1:7000")));
    assert!(!is_same_origin(Some("http://127.0.0.1"), None));
}

#[test]
fn json_media_type_ignores_parameters_case_and_white_space() {
    assert!(json_media_type("application/json"));
    assert!(json_media_type("Application/JSON; charset=utf-8"));
    assert!(json_media_type("  application/json\t;x=1"));
    assert!(json_media_type("\u{3000}application/json\u{a0}"));
    assert!(!json_media_type("application/jsonx"));
    assert!(!json_media_type("text/plain"));
    assert!(!json_media_type("application/x-json"));
    assert!(!json_media_type(""));
}

#[test]
fn command_headers_refuse_foreign_origin_before_content_type() {
    let foreign = check_command_headers(Some("http://evil.example"), Some("127.0.0.1"), &Vec::new());
    assert_eq!(foreign, Err(ApiRejection::CrossOrigin));
    assert_eq!(ApiRejection::CrossOrigin.status(), 403);
    assert_eq!(ApiRejection::CrossOrigin.message(), "cross-origin request rejected");

    let plain = vec!["text/plain".to_string()];
    assert_eq!(check_command_headers(None, Some("127.0.0.1"), &plain), Err(ApiRejection::NotJson));
    assert_eq!(ApiRejection::NotJson.status(), 422);

    let mixed = vec!["text/plain".to_string(), "application/json; charset=utf-8".to_string()];
    assert_eq!(check_command_headers(None, None, &mixed), Ok(()));
    assert_eq!(
        check_command_headers(Some("http://127.0.0.1"), Some("127.0.0.1"), &json_headers()),
        Ok(())
    );
}

#[test]
fn body_limits_answer_413() {
    assert_eq!(MAX_REQUEST_BODY, 65536);
    assert_eq!(check_declared_length(None), Ok(()));
    assert_eq!(check_declared_length(Some(65536)), Ok(()));
    assert_eq!(check_declared_length(Some(65537)), Err(ApiRejection::BodyTooLarge));
    assert_eq!(check_read_length(0), Ok(()));
    assert_eq!(check_read_length(65537), Err(ApiRejection::BodyTooLarge));
    assert_eq!(ApiRejection::BodyTooLarge.status(), 413);
    assert_eq!(ApiRejection::BodyUnreadable.status(), 422);
    assert_eq!(ApiRejection::BodyUnreadable.message(), "request body is too large");
}

#[test]
fn schema_must_be_the_current_snapshot_schema() {
    assert_eq!(SNAPSHOT_SCHEMA_VERSION, 14);
    assert_eq!(check_schema(LabCommandKind::Apply, 14), Ok(()));
    let refused = check_schema(LabCommandKind::Apply, 13);
    assert_eq!(refused, Err(ApiRejection::UnsupportedSchema(LabCommandKind::Apply)));
    assert_eq!(
        ApiRejection::UnsupportedSchema(LabCommandKind::Apply).message(),
        "unsupported apply schema"
    );
    assert_eq!(
        ApiRejection::UnsupportedSchema(LabCommandKind::Restore).message(),
        "unsupported restore schema"
    );
    assert_eq!(ApiRejection::InvalidJson(LabCommandKind::Restore).message(), "invalid restore JSON");
    assert_eq!(ApiRejection::UnsupportedSchema(LabCommandKind::Restore).status(), 422);
}

#[test]
fn stale_revision_or_pending_transaction_answers_409() {
    assert_eq!(admit_command(false, 0, 0), Ok(()));
    assert_eq!(admit_command(false, 0, 99), Err(ApiRejection::StalePending));
    assert_eq!(admit_command(true, 0, 0), Err(ApiRejection::StalePending));
    assert_eq!(admit_command(false, 5, 5), Ok(()));
    assert_eq!(ApiRejection::StalePending.status(), 409);
    assert_eq!(ApiRejection::StalePending.message(), "revision is stale or an apply is pending");
    assert_eq!(ApiRejection::QueueFull.status(), 409);
    assert_eq!(ApiRejection::QueueFull.message(), "another apply is pending");
}

#[test]
fn transaction_ids_start_at_one_and_are_never_zero() {
    assert_eq!(transaction_id_from(0), 1);
    assert_eq!(transaction_id_from(1), 1);
    assert_eq!(transaction_id_from(2), 2);
    assert_eq!(transaction_id_from(u64::MAX), u64::MAX);
}

#[test]
fn asset_paths_stay_below_the_root() {
    assert_eq!(asset_target_path("/assets/site.css"), Some("assets/site.css".to_string()));
    assert_eq!(asset_target_path("/client/route"), Some("client/route".to_string()));
    assert_eq!(asset_target_path("/"), Some("index.html".to_string()));
    assert_eq!(asset_target_path(""), Some("index.html".to_string()));
    assert_eq!(asset_target_path("//assets//a.js"), Some("assets//a.js".to_string()));
    assert_eq!(asset_target_path("/../secret"), None);
    assert_eq!(asset_target_path("/%2e%2e/secret"), None);
    assert_eq!(asset_target_path("/assets\\site.css"), None);
    assert_eq!(asset_target_path("/./index.html"), None);
    assert_eq!(asset_target_path("/."), None);
    assert_eq!(asset_target_path("/assets/.."), None);
    assert_eq!(asset_target_path("/assets/../../etc"), None);
    assert_eq!(asset_target_path("/assets/./site.css"), Some("assets/./site.css".to_string()));
    assert_eq!(asset_target_path("/..hidden"), Some("..hidden".to_string()));
}

#[test]
fn asset_content_types_follow_the_extension() {
    assert_eq!(content_type_for_extension(Some("css")), "text/css; charset=utf-8");
    assert_eq!(content_type_for_extension(Some("html")), "text/html; charset=utf-8");
    assert_eq!(content_type_for_extension(Some("js")), "text/javascript; charset=utf-8");
    assert_eq!(content_type_for_extension(Some("svg")), "image/svg+xml");
    assert_eq!(content_type_for_extension(Some("png")), "image/png");
    assert_eq!(content_type_for_extension(Some("json")), "application/json; charset=utf-8");
    assert_eq!(content_type_for_extension(Some("CSS")), "application/octet-stream");
    assert_eq!(content_type_for_extension(None), "application/octet-stream");
}

#[test]
fn other_rejections_carry_their_status_and_message() {
    assert_eq!(ApiRejection::NotFound.status(), 404);
    assert_eq!(ApiRejection::NotFound.message(), "not found");
    assert_eq!(ApiRejection::StateUnavailable.status(), 503);
    assert_eq!(ApiRejection::StateUnavailable.message(), "state is unavailable");
    let invalid = ApiRejection::InvalidSnapshot("maximum health must be positive".to_string());
    assert_eq!(invalid.status(), 422);
    assert_eq!(invalid.message(), "maximum health must be positive");
    assert_eq!(ApiRejection::InvalidJson(LabCommandKind::Apply).message(), "invalid apply JSON");
}
