use safe_authd::request::{interpret, names_action, process_get, Request, RequestError, Verb};

fn ok(x: &[u8]) -> Request<String> {
    assert!(names_action(x));
    match process_get(x) {
        Ok(request) => request,
        Err(_) => panic!("not understood"),
    }
}

fn err(x: &[u8]) -> RequestError<String> {
    assert!(names_action(x));
    match process_get(x) {
        Ok(_) => panic!("understood"),
        Err(e) => e,
    }
}

#[test]
fn understands_log_in() {
    match ok(b"GET /login/my-secret/my-password\r\n") {
        Request::LogIn { secret, password } => {
            assert_eq!(secret, "my-secret");
            assert_eq!(password, "my-password");
        }
        _ => panic!(),
    }
}

#[test]
fn understands_create() {
    match ok(b"GET /create/my-secret/my-password/my-key\r\n") {
        Request::Create { secret, password, sk } => {
            assert_eq!(secret, "my-secret");
            assert_eq!(password, "my-password");
            assert_eq!(sk, "my-key");
        }
        _ => panic!(),
    }
}

#[test]
fn understands_the_other_actions() {
    assert!(matches!(ok(b"GET /logout\r\n"), Request::LogOut));
    assert!(matches!(ok(b"GET /authed-apps\r\n"), Request::AuthedApps));
    match ok(b"GET /authorise/req\r\n") {
        Request::Authorise { auth_req } => assert_eq!(auth_req, "req"),
        _ => panic!(),
    }
    match ok("GET /revoke/\u{e9}\u{1f600}\r\n".as_bytes()) {
        Request::Revoke { app_id } => assert_eq!(app_id, "\u{e9}\u{1f600}"),
        _ => panic!(),
    }
}

#[test]
fn ignores_what_stands_around_the_path() {
    assert!(matches!(ok(b"GET /logout HTTP/1.1\r\n"), Request::LogOut));
    assert!(matches!(ok(b"GET /logout \xff\r\n"), Request::LogOut));
    assert!(matches!(ok(b"GET host/logout\r\n"), Request::LogOut));
    match ok(b"GET /login//\r\n") {
        Request::LogIn { secret, password } => assert_eq!((secret + &password), ""),
        _ => panic!(),
    }
}

#[test]
fn wants_get() {
    for x in [&b""[..], b"GET", b"get /logout\r\n", b"POST /logout\r\n", b"GET/logout\r\n"] {
        assert!(matches!(err(x), RequestError::MissingGet));
    }
}

#[test]
fn wants_the_end_of_the_line() {
    for x in [&b"GET "[..], b"GET \r", b"GET /logout", b"GET /logout\n", b"GET /logout\n\r"] {
        assert!(matches!(err(x), RequestError::MissingCrLf));
    }
}

#[test]
fn reports_malformed_paths() {
    let path = b"/logout\xff";
    let reason = std::str::from_utf8(path).unwrap_err().to_string();
    match err(b"GET /logout\xff\r\n") {
        RequestError::MalformedPath { reason: r } => assert_eq!(r, reason),
        _ => panic!(),
    }
}

#[test]
fn counts_arguments() {
    for (x, verb) in [
        (&b"GET /login/a\r\n"[..], Verb::LogIn),
        (b"GET /login/a/b/c\r\n", Verb::LogIn),
        (b"GET /logout/\r\n", Verb::LogOut),
        (b"GET /create/a/b\r\n", Verb::Create),
        (b"GET /authorise\r\n", Verb::Authorise),
        (b"GET /authed-apps/x\r\n", Verb::AuthedApps),
        (b"GET /revoke/a/b\r\n", Verb::Revoke),
    ] {
        match err(x) {
            RequestError::WrongArguments { verb: v } => assert!(v == verb),
            _ => panic!(),
        }
    }
}

#[test]
fn reports_unknown_actions() {
    for (x, name) in [
        (&b"GET /dance/x\r\n"[..], "dance"),
        (b"GET /\r\n", ""),
        (b"GET /Login/a/b\r\n", "Login"),
    ] {
        match err(x) {
            RequestError::UnknownAction { action } => assert_eq!(action, name),
            _ => panic!(),
        }
    }
}

#[test]
fn tells_whether_an_action_is_named() {
    assert!(!names_action(b"GET \r\n"));
    assert!(!names_action(b"GET logout\r\n"));
    assert!(!names_action(b"GET logout /\r\n"));
    assert!(names_action(b"GET /\r\n"));
    assert!(names_action(b"logout"));
    assert!(names_action(b"GET \xff\r\n"));
}

#[test]
fn interprets_decoded_paths() {
    assert!(matches!(interpret(Ok("/logout")), Ok(Request::LogOut)));
    match interpret(Err("why".to_string())) {
        Err(RequestError::MalformedPath { reason }) => assert_eq!(reason, "why"),
        _ => panic!(),
    }
}

#[test]
fn names_of_actions() {
    for (verb, name, parts) in [
        (Verb::LogIn, "login", 4),
        (Verb::LogOut, "logout", 2),
        (Verb::Create, "create", 5),
        (Verb::Authorise, "authorise", 3),
        (Verb::AuthedApps, "authed-apps", 2),
        (Verb::Revoke, "revoke", 3),
    ] {
        assert_eq!(verb.name(), name);
        assert!(Verb::from_name(name) == Some(verb));
        assert_eq!(verb.path_parts(), parts);
    }
    assert!(Verb::from_name("logins").is_none());
}

#[test]
fn refuses_alike_whatever_stands_around_the_path() {
    let around = |path: &[u8]| -> Vec<Vec<u8>> {
        let mut lines = Vec::new();
        for prefix in ["", "x", "http:"] {
            for rest in ["", " ", " HTTP/1.1", " /login/a/b"] {
                let mut line = b"GET ".to_vec();
                line.extend(prefix.as_bytes());
                line.extend(path);
                line.extend(rest.as_bytes());
                line.extend(b"\r\n");
                lines.push(line);
            }
        }
        lines
    };
    for line in around(b"/dance/a") {
        assert!(matches!(err(&line), RequestError::UnknownAction { ref action } if action == "dance"));
    }
    for line in around(b"/") {
        assert!(matches!(err(&line), RequestError::UnknownAction { ref action } if action.is_empty()));
    }
    for line in around(b"/login/a") {
        assert!(matches!(err(&line), RequestError::WrongArguments { verb: Verb::LogIn }));
    }
    for line in around(b"/login/\xff/b") {
        assert!(matches!(err(&line), RequestError::MalformedPath { .. }));
    }
    let reason = |line: &[u8]| match err(line) {
        RequestError::MalformedPath { reason } => reason,
        _ => panic!(),
    };
    assert_eq!(reason(b"GET /\xff\r\n"), reason(b"GET /\xff HTTP/1.1\r\n"));
    assert_ne!(reason(b"GET /\xff\r\n"), reason(b"GET x/\xff\r\n"));
}
