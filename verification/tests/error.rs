use failure::{err_msg, Error};
use safe_authd::error::{ErrorExt, PrettyErr};
use safe_authd::request::{RequestError, Verb};

#[test]
fn shows_one_message() {
    let e = PrettyErr::new("missing GET".to_string());
    assert_eq!(e.to_string(), "missing GET");
}

#[test]
fn shows_context_before_cause() {
    let e = PrettyErr::new("c".to_string())
        .context("b".to_string())
        .context("a".to_string());
    assert_eq!(e.to_string(), "a: b: c");
    assert_eq!(e.message, "a");
    assert_eq!(e.causes, ["b", "c"]);
}

#[test]
fn shows_failures_with_their_causes() {
    let plain: Error = err_msg("no such file");
    assert_eq!(plain.pretty().to_string(), "no such file");

    let e: Error = plain.context("Failed to write certificate").into();
    assert_eq!(
        e.pretty().to_string(),
        "Failed to write certificate: no such file"
    );

    let e: Error = e.context("outermost").into();
    assert_eq!(
        e.pretty().to_string(),
        "outermost: Failed to write certificate: no such file"
    );
}

#[test]
fn shows_request_errors() {
    let shown = |e: RequestError<String>| e.pretty().to_string();
    assert_eq!(shown(RequestError::MissingGet), "missing GET");
    assert_eq!(shown(RequestError::MissingCrLf), "missing \\r\\n");
    let reason = "somewhere".to_string();
    assert_eq!(
        shown(RequestError::MalformedPath { reason }),
        "path is malformed UTF-8: somewhere"
    );
    let action = "dance".to_string();
    assert_eq!(
        shown(RequestError::UnknownAction { action }),
        "Action not supported or unknown"
    );
    for (verb, text) in [
        (Verb::LogIn, "Incorrect number of arguments for 'login' action"),
        (Verb::LogOut, "Incorrect number of arguments for 'logout' action"),
        (Verb::Create, "Incorrect number of arguments for 'create' action"),
        (Verb::Authorise, "Incorrect number of arguments for 'authorise' action"),
        (Verb::AuthedApps, "Incorrect number of arguments for 'authed-apps' action"),
        (Verb::Revoke, "Incorrect number of arguments for 'revoke' action"),
    ] {
        assert_eq!(shown(RequestError::WrongArguments { verb }), text);
    }
}

#[test]
fn shows_the_text_of_a_failure_first() {
    let plain: Error = err_msg("no such file");
    assert_eq!(plain.pretty().message, plain.to_string());
    assert!(plain.pretty().causes.is_empty());

    let e: Error = plain.context("outermost").into();
    let shown = e.pretty();
    assert_eq!(shown.message, "outermost");
    assert_eq!(shown.message, e.to_string());
    assert_eq!(shown.causes, ["no such file"]);
}
