use my_http_server::controllers::{HttpActions, PasswordHttpInputField, PathValue};
use my_http_server::form_data::FormDataItem;
use my_http_server::headers::{AddHttpHeaders, HeaderValue};
use my_http_server::output::{HttpFailResult, HttpOutput, ResponseData};
use my_http_server::result_builder::HttpResultBuilder;
use my_http_server::server_flow::{
    app_is_shutting_down_response, failure_log_text, not_found, panic_response,
    panic_response_data, ChainStep, MiddlewareChain,
};

#[test]
fn routes_are_registered_once_ignoring_case() {
    let mut actions: HttpActions<u32> = HttpActions::new("GET".to_string());
    assert!(actions.register(1, "/api/Items".to_string()).is_ok());
    assert!(actions.register(2, "/api/other".to_string()).is_ok());
    assert_eq!(
        actions.register(3, "/API/items".to_string()).unwrap_err(),
        "Route /API/items is already registered"
    );
    assert_eq!(actions.get_actions(), &vec![1, 2]);
    assert_eq!(actions.action_verb(), "GET");
}

#[test]
fn path_values_and_passwords() {
    let v = PathValue::new("id", "42");
    assert_eq!(v.as_str(), "42");
    let p = PasswordHttpInputField::new("secret".to_string());
    assert_eq!(p.as_str(), "secret");
    assert_eq!(p.into_string(), "secret");
    let s: String = PasswordHttpInputField::from("x".to_string()).into();
    assert_eq!(s, "x");
    let from_header = PasswordHttpInputField::try_from_header(HeaderValue::new("pw", b"hunter2")).unwrap();
    assert_eq!(from_header.as_str(), "hunter2");
    assert!(PasswordHttpInputField::try_from_header(HeaderValue::new("pw", &[0xff])).is_err());
    let item = FormDataItem::ValueAsString { name: "pw", value: Some("v") };
    assert_eq!(PasswordHttpInputField::try_from_form_data(item).unwrap().as_str(), "v");
    let missing = FormDataItem::ValueAsString { name: "pw", value: None };
    assert_eq!(
        PasswordHttpInputField::try_from_form_data(missing).err().unwrap().output.get_text_as_error(),
        "Required parameter [pw] is missing in FormData"
    );
    let file = FormDataItem::File { name: "pw", file_name: "f", content_type: "t", content: b"" };
    assert_eq!(
        PasswordHttpInputField::try_from_form_data(file).err().unwrap().output.get_text_as_error(),
        "Validation error: pw Can not be read from FormData file"
    );
}

#[test]
fn headers_are_added_through_the_trait() {
    let mut b = HttpResultBuilder::new();
    AddHttpHeaders::add_header(&mut b, "X-A".to_string(), "1".to_string());
    match b.build() {
        HttpOutput::Content { headers, status_code, .. } => {
            assert_eq!(status_code, 204);
            assert_eq!(headers.headers, vec![("X-A".to_string(), "1".to_string())]);
        }
        other => panic!("expected Content, got {:?}", other),
    }
}

#[test]
fn the_first_middleware_that_answers_decides() {
    let (mut chain, step) = MiddlewareChain::start(3);
    assert!(matches!(step, ChainStep::Ask(0)));
    assert!(matches!(chain.after(None), ChainStep::Ask(1)));
    let answer = HttpOutput::as_text("ok").into_ok_result(false);
    match chain.after(Some(answer)) {
        ChainStep::Answer(Ok(r)) => assert_eq!(r.get_status_code(), 200),
        _ => panic!("expected an answer"),
    }
}

#[test]
fn when_no_middleware_answers_it_is_not_found() {
    let (_, step) = MiddlewareChain::start(0);
    match step {
        ChainStep::Answer(Err(e)) => assert_eq!(e.output.get_status_code(), 404),
        _ => panic!("expected 404"),
    }
    let (mut chain, _) = MiddlewareChain::start(2);
    assert!(matches!(chain.after(None), ChainStep::Ask(1)));
    match chain.after(None) {
        ChainStep::Answer(Err(e)) => assert_eq!(e.output.get_text_as_error(), "404 - Not Found"),
        _ => panic!("expected 404"),
    }
}

#[test]
fn fixed_answers() {
    let nf = not_found().err().unwrap();
    assert_eq!(nf.output.get_status_code(), 404);
    assert_eq!(nf.output.get_text_as_error(), "404 - Not Found");
    assert!(!nf.write_to_log && !nf.write_telemetry);

    let down = app_is_shutting_down_response();
    assert_eq!(down.status_code, 502);
    assert_eq!(down.body, b"Application is shutting down".to_vec());

    let p = panic_response();
    assert_eq!(p.status_code, 500);
    assert_eq!(p.body, b"Internal server error".to_vec());

    let d = panic_response_data();
    assert_eq!(d.status_code, 500);
    assert_eq!(d.content_type.as_deref(), Some("text/plain"));
    assert!(d.has_error);
}

#[test]
fn only_logged_and_traced_failures_are_logged() {
    let logged = HttpFailResult::as_fatal_error("boom");
    assert_eq!(
        failure_log_text(&logged).as_deref(),
        Some("Http request finished with error: boom")
    );
    let quiet = HttpFailResult::as_not_found("nothing", true);
    assert_eq!(failure_log_text(&quiet), None);
}

#[test]
fn response_data_describes_a_result() {
    let r = HttpOutput::as_text("abc").into_ok_result(true);
    let d = ResponseData::from_result(&r);
    assert_eq!(d.status_code, 200);
    assert_eq!(d.content_length, 3);
    assert!(!d.has_error);
}

#[test]
fn transport_errors_and_text_answers() {
    let err = HttpFailResult::from_transport_error("connection reset");
    assert_eq!(err.output.get_status_code(), 501);
    assert_eq!(err.output.get_text_as_error(), "connection reset");
    assert!(err.write_to_log && err.write_telemetry);
    let ok = my_http_server::output::HttpOkResult::from_text("hello".to_string());
    assert_eq!(ok.get_status_code(), 200);
    assert!(ok.write_telemetry);
}

use my_http_server::controllers::{authorization_answer, AuthorizationAnswer, AuthorizationResult};

#[test]
fn authorization_decides_the_answer() {
    assert!(matches!(
        authorization_answer(AuthorizationResult::Allowed, false),
        AuthorizationAnswer::RunAction
    ));
    match authorization_answer(AuthorizationResult::NotAuthenticated, false) {
        AuthorizationAnswer::Refuse(e) => {
            assert_eq!(e.output.get_status_code(), 401);
            assert_eq!(
                e.output.get_text_as_error(),
                "Unauthorized request: No session credentials are found"
            );
        }
        _ => panic!("expected a refusal"),
    }
    assert!(matches!(
        authorization_answer(AuthorizationResult::NotAuthenticated, true),
        AuthorizationAnswer::FactoryNotAuthenticated
    ));
    match authorization_answer(AuthorizationResult::NotAuthorized("admin".to_string()), true) {
        AuthorizationAnswer::FactoryNotAuthorized(c) => assert_eq!(c, "admin"),
        _ => panic!("expected the factory's answer"),
    }
    match authorization_answer(AuthorizationResult::NotAuthorized("admin".to_string()), false) {
        AuthorizationAnswer::Refuse(e) => assert_eq!(e.output.get_text_as_error(), "Unauthorized request"),
        _ => panic!("expected a refusal"),
    }
}

#[test]
fn the_first_matching_route_takes_the_request() {
    let mut actions: HttpActions<u32> = HttpActions::new("GET".to_string());
    assert!(actions.register(1, "/api/{id}".to_string()).is_ok());
    assert!(actions.register(2, "/api/items".to_string()).is_ok());
    assert!(actions.register(3, "/other".to_string()).is_ok());
    assert_eq!(actions.first_matching_action(&vec![false, true, true]), Some(1));
    assert_eq!(actions.first_matching_action(&vec![true, true, false]), Some(0));
    assert_eq!(actions.first_matching_action(&vec![false, false, false]), None);
    assert_eq!(actions.first_matching_action(&vec![false]), None);
}
