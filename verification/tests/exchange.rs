use safe_authd::exchange::{handle_request, proceed, Action, Event, State, Step};
use safe_authd::request::Request;

type Taken = Step<String, Vec<u8>, Vec<String>>;

fn receive(x: &[u8]) -> Taken {
    let step = handle_request();
    assert!(step.lines.is_empty());
    assert!(matches!(step.action, Action::Read { limit: 65536 }));
    proceed(step.state, Event::Received { request: x.to_vec() })
}

fn written(step: &Taken) -> (String, Option<String>) {
    match &step.action {
        Action::Write { response, refusal } => {
            (String::from_utf8(response.clone()).unwrap(), refusal.clone())
        }
        _ => panic!("nothing is written"),
    }
}

/// Carries a request out, with what the authenticator says, and gives all lines that are printed,
/// the response, and the error that is logged.
fn answer(x: &[u8], said: Result<&str, &str>) -> (Vec<String>, String, Option<String>) {
    let step = receive(x);
    let mut lines = step.lines.clone();
    assert!(matches!(step.action, Action::Execute { .. }));
    let outcome = match said {
        Ok(text) => Ok(text.to_string()),
        Err(reason) => Err(reason.to_string()),
    };
    let step = proceed(step.state, Event::Executed { outcome });
    lines.extend(step.lines.clone());
    let (response, refusal) = written(&step);
    let step = proceed(step.state, Event::Written);
    assert!(step.lines.is_empty());
    assert!(matches!(step.action, Action::Close));
    let step = proceed(step.state, Event::Closed);
    assert!(matches!(step.action, Action::Finish { result: Ok(()) }));
    assert!(matches!(step.state, State::Finished));
    (lines, response, refusal)
}

#[test]
fn answers_successes() {
    for (x, lines, response) in [
        (
            &b"GET /login/s/p\r\n"[..],
            ["Logging in to SAFE account...", "Logged in successfully"],
            "Logged in successfully!",
        ),
        (
            b"GET /logout\r\n",
            ["Logging out...", "Logged out successfully"],
            "Logged out successfully",
        ),
        (
            b"GET /create/s/p/k\r\n",
            ["Creating an account in SAFE...", "Account created successfully"],
            "Account created successfully!",
        ),
        (
            b"GET /authorise/r\r\n",
            ["Authorising application...", "Authorisation response sent"],
            "what it said",
        ),
        (
            b"GET /authed-apps\r\n",
            ["Obtaining list of authorised applications...", "List of authorised apps sent"],
            "what it said",
        ),
        (
            b"GET /revoke/a\r\n",
            ["Revoking application...", "Application revoked successfully"],
            "Application revoked successfully",
        ),
    ] {
        let (printed, sent, refusal) = answer(x, Ok("what it said"));
        assert_eq!(printed, lines);
        assert_eq!(sent, response);
        assert!(refusal.is_none());
    }
}

#[test]
fn answers_failures() {
    for (x, line, error) in [
        (&b"GET /login/s/p\r\n"[..], "Error occurred when trying to log in: oh", "oh"),
        (b"GET /logout\r\n", "Failed to log out: oh", "Failed to log out: oh"),
        (
            b"GET /create/s/p/k\r\n",
            "Error occurred when trying to create SAFE account: oh",
            "oh",
        ),
        (b"GET /authorise/r\r\n", "Failed to authorise: oh", "oh"),
        (b"GET /authed-apps\r\n", "Failed to get list of authorised apps: oh", "oh"),
        (b"GET /revoke/an-app\r\n", "Failed to revoke application 'an-app': oh", "oh"),
    ] {
        let (printed, sent, refusal) = answer(x, Err("oh"));
        assert_eq!(printed[1], line);
        assert_eq!(sent, format!("[AUTHD_ERROR]:SAFE Authenticator: {}", error));
        assert_eq!(refusal.unwrap(), error);
    }
}

#[test]
fn hands_the_request_on() {
    match receive(b"GET /create/s/p/k\r\n").action {
        Action::Execute { request: Request::Create { secret, password, sk } } => {
            assert_eq!((secret.as_str(), password.as_str(), sk.as_str()), ("s", "p", "k"));
        }
        _ => panic!(),
    }
}

#[test]
fn refuses_what_it_does_not_understand() {
    for (x, error) in [
        (&b"PUT /logout\r\n"[..], "missing GET"),
        (b"GET /logout", "missing \\r\\n"),
        (b"GET /logout/now\r\n", "Incorrect number of arguments for 'logout' action"),
        (
            b"GET \xff\r\n",
            "path is malformed UTF-8: invalid utf-8 sequence of 1 bytes from index 0",
        ),
    ] {
        let step = receive(x);
        assert!(step.lines.is_empty());
        let (response, refusal) = written(&step);
        assert_eq!(response, format!("[AUTHD_ERROR]:SAFE Authenticator: {}", error));
        assert_eq!(refusal.unwrap(), error);
    }
}

#[test]
fn refuses_unknown_actions() {
    let step = receive(b"GET /dance\r\n");
    assert_eq!(
        step.lines,
        ["Action 'dance' not supported or unknown by the Authenticator daemon"]
    );
    let (response, _) = written(&step);
    assert_eq!(
        response,
        "[AUTHD_ERROR]:SAFE Authenticator: Action not supported or unknown"
    );
}

fn error_of(step: Taken) -> String {
    match step.action {
        Action::Finish { result: Err(text) } => text,
        _ => panic!("no error"),
    }
}

#[test]
fn ends_where_the_stream_fails() {
    let reason = || "lost".to_string();
    let step = proceed(State::Reading, Event::ReadFailed { reason: reason() });
    assert_eq!(error_of(step), "Failed reading request: lost");
    let step = proceed(State::Writing, Event::WriteFailed { reason: reason() });
    assert_eq!(error_of(step), "Failed to send response: lost");
    let step = proceed(State::Closing, Event::CloseFailed { reason: reason() });
    assert_eq!(error_of(step), "Failed to shutdown stream: lost");
}
