use hal_orders::error_map;
use hal_orders::error_map::{AppError, ErrorKind};
use hal_orders::json::{Json, Member};
use hal_orders::link::Link;
use hal_orders::value::StateValue;

#[test]
fn a_bad_request_is_answered_with_400() {
    let (status, document) = error_map::map(ErrorKind::BadRequest, "Invalid order id").unwrap();
    assert_eq!(status, 400);
    assert_eq!(
        document.to_json().render(),
        "{\"message\":\"Invalid order id\",\"_links\":{\"help\":{\"href\":\"/help\"}}}"
    );
    assert_eq!(
        document.to_json(),
        Json::object(vec![
            Member::new("message", Json::text("Invalid order id")),
            Member::new(
                "_links",
                Json::object(vec![Member::new(
                    "help",
                    Json::object(vec![Member::new("href", Json::text("/help"))]),
                )]),
            ),
        ])
    );
}

#[test]
fn a_missing_resource_is_answered_with_404() {
    let (status, document) = error_map::map(ErrorKind::NotFound, "No such order").unwrap();
    assert_eq!(status, 404);
    assert_eq!(document.state("message"), Some(&StateValue::Text("No such order".to_string())));
    assert_eq!(document.links("help"), Some(&vec![Link::new("/help")]));
    assert!(document.self_link().is_none());
    assert_eq!(
        document.to_json().render(),
        "{\"message\":\"No such order\",\"_links\":{\"help\":{\"href\":\"/help\"}}}"
    );
}

#[test]
fn an_internal_error_is_not_answered() {
    assert_eq!(error_map::map(ErrorKind::Internal, "db down"), None);
}

#[test]
fn an_unclassified_error_is_not_answered() {
    assert_eq!(error_map::map(ErrorKind::Unclassified, "who knows"), None);
}

#[test]
fn the_message_is_written_as_a_json_string() {
    let (_, document) = error_map::map(ErrorKind::BadRequest, "bad \"id\"\n").unwrap();
    assert_eq!(
        document.to_json().render(),
        "{\"message\":\"bad \\\"id\\\"\\n\",\"_links\":{\"help\":{\"href\":\"/help\"}}}"
    );
}

#[test]
fn an_error_value_is_mapped_as_its_parts_are() {
    let error = AppError::new(ErrorKind::NotFound, "No such order");
    assert_eq!(error.kind, ErrorKind::NotFound);
    assert_eq!(error.message, "No such order");
    assert_eq!(error.clone().map(), error_map::map(ErrorKind::NotFound, "No such order"));
    assert_eq!(AppError::new(ErrorKind::Internal, "db down").map(), None);
}
