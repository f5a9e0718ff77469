use ktra::error::{not_defined_message, ApiError, Error, ErrorMessage};
use ktra::version::Version;

fn text(s: &str) -> String {
    s.to_owned()
}

fn v(s: &str) -> Version {
    Version::parse(s).unwrap()
}

#[test]
fn what_was_not_found_is_answered_with_404() {
    assert_eq!(Error::CrateNotFoundInDb(text("alpha")).status_code(), 404);
    assert_eq!(Error::VersionNotFoundInDb(v("0.1.0")).status_code(), 404);
}

#[test]
fn what_is_not_allowed_is_answered_with_403() {
    assert_eq!(Error::InvalidToken(text("T")).status_code(), 403);
    assert_eq!(Error::InvalidUser(3).status_code(), 403);
}

#[test]
fn every_other_error_is_answered_with_200() {
    let errors = vec![
        Error::Io(text("x")),
        Error::Git(text("x")),
        Error::Argon2(text("x")),
        Error::UrlParsing(text("x")),
        Error::SamePasswords,
        Error::UserExists(text("x")),
        Error::OverlappedCrateName(text("x")),
        Error::VersionExists(text("x"), v("1.0.0")),
        Error::CrateNameNotDefined,
        Error::LoginsNotDefined,
        Error::AlreadyYanked(text("x"), v("1.0.0")),
        Error::NotYetYanked(text("x"), v("1.0.0")),
        Error::Serialization(text("x")),
        Error::InvalidCrateName(text("x")),
        Error::InvalidUsername(text("x")),
        Error::InvalidLogin(text("x")),
        Error::InvalidPassword,
        Error::InvalidLoginNames(vec![text("x")]),
        Error::InvalidJson(text("x")),
        Error::InvalidUtf8Bytes(text("x")),
        Error::InvalidBodyLength(3),
        Error::Db(text("x")),
        Error::Multiple(vec![Error::InvalidToken(text("T")), Error::InvalidUser(1)]),
        Error::Join(text("x")),
        Error::HttpRequest(text("x")),
        Error::HttpResponseBuilding(text("x")),
        Error::InvalidHttpResponseLength,
        Error::OpenId(text("x")),
        Error::InvalidCsrfToken(text("x")),
    ];
    for error in errors {
        assert_eq!(error.status_code(), 200, "{:?}", error);
    }
}

#[test]
fn errors_say_what_went_wrong() {
    let cases = vec![
        (Error::Io(text("disk full")), "IO error: disk full"),
        (Error::Git(text("no remote")), "git error: no remote"),
        (Error::Argon2(text("Salt is too short")), "argon2 error: Salt is too short"),
        (Error::UrlParsing(text("empty host")), "URL parsing error: empty host"),
        (Error::SamePasswords, "the given passwords are the same"),
        (Error::UserExists(text("p:alice")), "the user identified 'p:alice' already exists"),
        (
            Error::OverlappedCrateName(text("foo-bar")),
            "the crate, foo-bar, is overlapped with the another one because ktra considers '_' and '-' are the same",
        ),
        (Error::VersionExists(text("alpha"), v("0.1.0")), "the crate, alpha v0.1.0, already exists"),
        (Error::CrateNameNotDefined, "crate name is not defined"),
        (Error::LoginsNotDefined, "no logins are defined"),
        (
            Error::AlreadyYanked(text("alpha"), v("0.1.0")),
            "the specified crate, alpha v0.1.0, has already been marked as yanked",
        ),
        (
            Error::NotYetYanked(text("alpha"), v("0.1.0-rc.1")),
            "the specified crate, alpha v0.1.0-rc.1, is not marked as yanked yet",
        ),
        (Error::Serialization(text("bad")), "serialization error: bad"),
        (Error::InvalidCrateName(text("1a")), "invalid crate name: 1a"),
        (Error::InvalidToken(text("T9")), "invalid token: T9"),
        (Error::InvalidUser(0), "invalid user id: 0"),
        (Error::InvalidUser(7), "invalid user id: 7"),
        (Error::InvalidUser(4294967295), "invalid user id: 4294967295"),
        (Error::InvalidUsername(text("bob")), "invalid username: bob"),
        (Error::InvalidLogin(text("p:bob")), "invalid login: p:bob"),
        (Error::InvalidPassword, "invalid password"),
        (
            Error::InvalidLoginNames(vec![text("a"), text("b\"c")]),
            "one or more invalid login names are detected: [\"a\", \"b\\\"c\"]",
        ),
        (Error::InvalidJson(text("eof")), "invalid JSON: eof"),
        (Error::InvalidUtf8Bytes(text("byte 3")), "UTF-8 validation error: byte 3"),
        (Error::InvalidBodyLength(0), "invalid body length: 0"),
        (Error::InvalidBodyLength(1024), "invalid body length: 1024"),
        (Error::InvalidBodyLength(90), "invalid body length: 90"),
        (
            Error::CrateNotFoundInDb(text("alpha")),
            "crate not found in the database which is named alpha",
        ),
        (
            Error::VersionNotFoundInDb(v("0.1.0")),
            "crate is found but the specified version is not found in the database: 0.1.0",
        ),
        (Error::Db(text("closed")), "error by database: closed"),
        (Error::Join(text("cancelled")), "task joinning error: cancelled"),
        (Error::HttpRequest(text("timeout")), "HTTP request error: timeout"),
        (Error::HttpResponseBuilding(text("bad header")), "HTTP response building error: bad header"),
        (Error::InvalidHttpResponseLength, "Invalid HTTP response length"),
        (Error::OpenId(text("No user info endpoint")), "OpenID error: No user info endpoint"),
        (Error::InvalidCsrfToken(text("xyz")), "invalid CSRF token: xyz"),
    ];
    for (error, message) in cases {
        assert_eq!(error.message(), message);
    }
}

#[test]
fn several_errors_are_listed() {
    assert_eq!(Error::multiple(Vec::new()).message(), "multiple errors: []");
    assert_eq!(
        Error::multiple(vec![Error::InvalidPassword]).message(),
        "multiple errors: [invalid password]"
    );
    let nested = Error::multiple(vec![
        Error::InvalidJson(text("eof")),
        Error::multiple(vec![Error::InvalidUser(2), Error::SamePasswords]),
        Error::Db(text("closed")),
    ]);
    assert_eq!(
        nested.message(),
        "multiple errors: [invalid JSON: eof, multiple errors: [invalid user id: 2, the given passwords are the same], error by database: closed]"
    );
    assert!(matches!(Error::multiple(vec![Error::InvalidPassword]), Error::Multiple(errors) if errors.len() == 1));
}

#[test]
fn an_error_is_reported_by_its_message_and_its_status() {
    let (body, status) = Error::InvalidToken(text("T")).to_reply();
    assert_eq!(status, 403);
    assert_eq!(body.errors.len(), 1);
    assert_eq!(body.errors[0].detail, "invalid token: T");
    let (body, status) = Error::SamePasswords.to_reply();
    assert_eq!(status, 200);
    assert_eq!(body.errors[0].detail, "the given passwords are the same");
    let (_, status) = Error::CrateNotFoundInDb(text("a")).to_reply();
    assert_eq!(status, 404);
}

#[test]
fn the_body_of_a_failure_lists_details() {
    let reported = ApiError::from_error(&Error::LoginsNotDefined);
    assert_eq!(reported.detail, "no logins are defined");
    let body = ErrorMessage::new(vec![reported, ApiError { detail: text("second") }]);
    assert_eq!(body.errors.len(), 2);
    assert_eq!(body.errors[1].detail, "second");
    assert_eq!(not_defined_message(), "resource or api is not defined");
}
