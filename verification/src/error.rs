//! The ways in which a registry operation can fail.

use crate::text::{debug_form, debug_list, decimal, decimal_text};
use crate::version::Version;
use vstd::prelude::*;
use vstd::string::StringExecFns;

verus! {

/// A failed registry operation.
///
/// Variants that report a failure of the surroundings (the file system, git,
/// the password hasher, the database and so on) carry that failure's message.
#[derive(Debug)]
pub enum Error {
    Io(String),
    Git(String),
    Argon2(String),
    UrlParsing(String),
    SamePasswords,
    UserExists(String),
    OverlappedCrateName(String),
    VersionExists(String, Version),
    CrateNameNotDefined,
    LoginsNotDefined,
    AlreadyYanked(String, Version),
    NotYetYanked(String, Version),
    Serialization(String),
    InvalidCrateName(String),
    InvalidToken(String),
    InvalidUser(u32),
    InvalidUsername(String),
    InvalidLogin(String),
    InvalidPassword,
    InvalidLoginNames(Vec<String>),
    InvalidJson(String),
    InvalidUtf8Bytes(String),
    InvalidBodyLength(usize),
    CrateNotFoundInDb(String),
    VersionNotFoundInDb(Version),
    Db(String),
    Multiple(Vec<Error>),
    Join(String),
    HttpRequest(String),
    HttpResponseBuilding(String),
    InvalidHttpResponseLength,
    OpenId(String),
    InvalidCsrfToken(String),
}

/// A failed registry operation, as plain values.
pub enum ErrorView {
    Io(Seq<char>),
    Git(Seq<char>),
    Argon2(Seq<char>),
    UrlParsing(Seq<char>),
    SamePasswords,
    UserExists(Seq<char>),
    OverlappedCrateName(Seq<char>),
    VersionExists(Seq<char>, Seq<char>),
    CrateNameNotDefined,
    LoginsNotDefined,
    AlreadyYanked(Seq<char>, Seq<char>),
    NotYetYanked(Seq<char>, Seq<char>),
    Serialization(Seq<char>),
    InvalidCrateName(Seq<char>),
    InvalidToken(Seq<char>),
    InvalidUser(u32),
    InvalidUsername(Seq<char>),
    InvalidLogin(Seq<char>),
    InvalidPassword,
    InvalidLoginNames(Seq<Seq<char>>),
    InvalidJson(Seq<char>),
    InvalidUtf8Bytes(Seq<char>),
    InvalidBodyLength(usize),
    CrateNotFoundInDb(Seq<char>),
    VersionNotFoundInDb(Seq<char>),
    Db(Seq<char>),
    Multiple(Seq<ErrorView>),
    Join(Seq<char>),
    HttpRequest(Seq<char>),
    HttpResponseBuilding(Seq<char>),
    InvalidHttpResponseLength,
    OpenId(Seq<char>),
    InvalidCsrfToken(Seq<char>),
}

/// The views of `errors`, in order.
pub open spec fn error_views(errors: Seq<Error>) -> Seq<ErrorView>
    decreases errors,
{
    if errors.len() == 0 {
        Seq::empty()
    } else {
        error_views(errors.drop_last()).push(error_view(errors.last()))
    }
}

/// The error `e` as plain values.
pub open spec fn error_view(e: Error) -> ErrorView
    decreases e,
{
    match e {
        Error::Io(m) => ErrorView::Io(m@),
        Error::Git(m) => ErrorView::Git(m@),
        Error::Argon2(m) => ErrorView::Argon2(m@),
        Error::UrlParsing(m) => ErrorView::UrlParsing(m@),
        Error::SamePasswords => ErrorView::SamePasswords,
        Error::UserExists(login) => ErrorView::UserExists(login@),
        Error::OverlappedCrateName(name) => ErrorView::OverlappedCrateName(name@),
        Error::VersionExists(name, vers) => ErrorView::VersionExists(name@, vers@),
        Error::CrateNameNotDefined => ErrorView::CrateNameNotDefined,
        Error::LoginsNotDefined => ErrorView::LoginsNotDefined,
        Error::AlreadyYanked(name, vers) => ErrorView::AlreadyYanked(name@, vers@),
        Error::NotYetYanked(name, vers) => ErrorView::NotYetYanked(name@, vers@),
        Error::Serialization(m) => ErrorView::Serialization(m@),
        Error::InvalidCrateName(name) => ErrorView::InvalidCrateName(name@),
        Error::InvalidToken(token) => ErrorView::InvalidToken(token@),
        Error::InvalidUser(id) => ErrorView::InvalidUser(id),
        Error::InvalidUsername(name) => ErrorView::InvalidUsername(name@),
        Error::InvalidLogin(login) => ErrorView::InvalidLogin(login@),
        Error::InvalidPassword => ErrorView::InvalidPassword,
        Error::InvalidLoginNames(logins) => ErrorView::InvalidLoginNames(logins.deep_view()),
        Error::InvalidJson(m) => ErrorView::InvalidJson(m@),
        Error::InvalidUtf8Bytes(m) => ErrorView::InvalidUtf8Bytes(m@),
        Error::InvalidBodyLength(n) => ErrorView::InvalidBodyLength(n),
        Error::CrateNotFoundInDb(name) => ErrorView::CrateNotFoundInDb(name@),
        Error::VersionNotFoundInDb(vers) => ErrorView::VersionNotFoundInDb(vers@),
        Error::Db(m) => ErrorView::Db(m@),
        Error::Multiple(errors) => ErrorView::Multiple(error_views(errors@)),
        Error::Join(m) => ErrorView::Join(m@),
        Error::HttpRequest(m) => ErrorView::HttpRequest(m@),
        Error::HttpResponseBuilding(m) => ErrorView::HttpResponseBuilding(m@),
        Error::InvalidHttpResponseLength => ErrorView::InvalidHttpResponseLength,
        Error::OpenId(m) => ErrorView::OpenId(m@),
        Error::InvalidCsrfToken(state) => ErrorView::InvalidCsrfToken(state@),
    }
}

impl View for Error {
    type V = ErrorView;

    open spec fn view(&self) -> ErrorView {
        error_view(*self)
    }
}

/// There are as many views as errors.
proof fn lemma_views_len(errors: Seq<Error>)
    ensures
        error_views(errors).len() == errors.len(),
    decreases errors.len(),
{
    if errors.len() > 0 {
        lemma_views_len(errors.drop_last());
    }
}

/// The HTTP status that reports `e`: 404 for what was not found, 403 for what
/// the caller may not do, and 200 for everything else, since Cargo reads
/// errors from the body of a successful response.
pub open spec fn status_of(e: Error) -> u16 {
    match e {
        Error::CrateNotFoundInDb(_) | Error::VersionNotFoundInDb(_) => 404,
        Error::InvalidToken(_) | Error::InvalidUser(_) => 403,
        _ => 200,
    }
}

/// The messages of `errors`, with `, ` between each two.
pub open spec fn listed(errors: Seq<ErrorView>) -> Seq<char>
    decreases errors, 0nat,
{
    if errors.len() == 0 {
        Seq::empty()
    } else if errors.len() == 1 {
        message_of(errors[0])
    } else {
        listed(errors.drop_last()) + ", "@ + message_of(errors.last())
    }
}

/// What the error `e` says.
pub open spec fn message_of(e: ErrorView) -> Seq<char>
    decreases e, 1nat,
{
    match e {
        ErrorView::Io(m) => "IO error: "@ + m,
        ErrorView::Git(m) => "git error: "@ + m,
        ErrorView::Argon2(m) => "argon2 error: "@ + m,
        ErrorView::UrlParsing(m) => "URL parsing error: "@ + m,
        ErrorView::SamePasswords => "the given passwords are the same"@,
        ErrorView::UserExists(login) => "the user identified '"@ + login + "' already exists"@,
        ErrorView::OverlappedCrateName(name) => "the crate, "@ + name
            + ", is overlapped with the another one because ktra considers '_' and '-' are the same"@,
        ErrorView::VersionExists(name, vers) => "the crate, "@ + name + " v"@ + vers
            + ", already exists"@,
        ErrorView::CrateNameNotDefined => "crate name is not defined"@,
        ErrorView::LoginsNotDefined => "no logins are defined"@,
        ErrorView::AlreadyYanked(name, vers) => "the specified crate, "@ + name + " v"@ + vers
            + ", has already been marked as yanked"@,
        ErrorView::NotYetYanked(name, vers) => "the specified crate, "@ + name + " v"@ + vers
            + ", is not marked as yanked yet"@,
        ErrorView::Serialization(m) => "serialization error: "@ + m,
        ErrorView::InvalidCrateName(name) => "invalid crate name: "@ + name,
        ErrorView::InvalidToken(token) => "invalid token: "@ + token,
        ErrorView::InvalidUser(id) => "invalid user id: "@ + decimal(id as nat),
        ErrorView::InvalidUsername(name) => "invalid username: "@ + name,
        ErrorView::InvalidLogin(login) => "invalid login: "@ + login,
        ErrorView::InvalidPassword => "invalid password"@,
        ErrorView::InvalidLoginNames(logins) => "one or more invalid login names are detected: "@
            + debug_form(logins),
        ErrorView::InvalidJson(m) => "invalid JSON: "@ + m,
        ErrorView::InvalidUtf8Bytes(m) => "UTF-8 validation error: "@ + m,
        ErrorView::InvalidBodyLength(n) => "invalid body length: "@ + decimal(n as nat),
        ErrorView::CrateNotFoundInDb(name) => "crate not found in the database which is named "@
            + name,
        ErrorView::VersionNotFoundInDb(vers) =>
            "crate is found but the specified version is not found in the database: "@ + vers,
        ErrorView::Db(m) => "error by database: "@ + m,
        ErrorView::Multiple(errors) => "multiple errors: ["@ + listed(errors) + "]"@,
        ErrorView::Join(m) => "task joinning error: "@ + m,
        ErrorView::HttpRequest(m) => "HTTP request error: "@ + m,
        ErrorView::HttpResponseBuilding(m) => "HTTP response building error: "@ + m,
        ErrorView::InvalidHttpResponseLength => "Invalid HTTP response length"@,
        ErrorView::OpenId(m) => "OpenID error: "@ + m,
        ErrorView::InvalidCsrfToken(state) => "invalid CSRF token: "@ + state,
    }
}

fn with_text(prefix: &str, text: &str) -> (out: String)
    ensures
        out@ == prefix@ + text@,
{
    let mut out = prefix.to_owned();
    out.append(text);
    out
}

fn about_version(prefix: &str, name: &str, vers: &Version, suffix: &str) -> (out: String)
    ensures
        out@ == prefix@ + name@ + " v"@ + vers@ + suffix@,
{
    let mut out = prefix.to_owned();
    out.append(name);
    out.append(" v");
    out.append(vers.as_str());
    out.append(suffix);
    out
}

/// One error of the body with which the registry reports a failure.
#[derive(Debug)]
pub struct ApiError {
    pub detail: String,
}

impl ApiError {
    /// The error that reports `error` by what it says.
    pub fn from_error(error: &Error) -> (reported: ApiError)
        ensures
            reported.detail@ == message_of(error@),
    {
        ApiError { detail: error.message() }
    }
}

/// The body with which the registry reports a failure: Cargo reads the
/// errors from a list of details.
#[derive(Debug)]
pub struct ErrorMessage {
    pub errors: Vec<ApiError>,
}

impl ErrorMessage {
    /// The body that reports `reasons`.
    pub fn new(reasons: Vec<ApiError>) -> (body: ErrorMessage)
        ensures
            body.errors == reasons,
    {
        ErrorMessage { errors: reasons }
    }
}

/// What the registry says of a request for which it has no route.
pub fn not_defined_message() -> (message: String)
    ensures
        message@ == "resource or api is not defined"@,
{
    "resource or api is not defined".to_owned()
}

impl Error {
    /// The error that reports all of `errors` at once.
    pub fn multiple(errors: Vec<Error>) -> (e: Error)
        ensures
            e@ == ErrorView::Multiple(error_views(errors@)),
    {
        Error::Multiple(errors)
    }

    /// What this error says.
    pub fn message(&self) -> (out: String)
        ensures
            out@ == message_of(self@),
        decreases self,
    {
        match self {
            Error::Io(m) => with_text("IO error: ", m.as_str()),
            Error::Git(m) => with_text("git error: ", m.as_str()),
            Error::Argon2(m) => with_text("argon2 error: ", m.as_str()),
            Error::UrlParsing(m) => with_text("URL parsing error: ", m.as_str()),
            Error::SamePasswords => "the given passwords are the same".to_owned(),
            Error::UserExists(login) => {
                let mut out = with_text("the user identified '", login.as_str());
                out.append("' already exists");
                out
            },
            Error::OverlappedCrateName(name) => {
                let mut out = with_text("the crate, ", name.as_str());
                out.append(
                    ", is overlapped with the another one because ktra considers '_' and '-' are the same",
                );
                out
            },
            Error::VersionExists(name, vers) => about_version(
                "the crate, ",
                name.as_str(),
                vers,
                ", already exists",
            ),
            Error::CrateNameNotDefined => "crate name is not defined".to_owned(),
            Error::LoginsNotDefined => "no logins are defined".to_owned(),
            Error::AlreadyYanked(name, vers) => about_version(
                "the specified crate, ",
                name.as_str(),
                vers,
                ", has already been marked as yanked",
            ),
            Error::NotYetYanked(name, vers) => about_version(
                "the specified crate, ",
                name.as_str(),
                vers,
                ", is not marked as yanked yet",
            ),
            Error::Serialization(m) => with_text("serialization error: ", m.as_str()),
            Error::InvalidCrateName(name) => with_text("invalid crate name: ", name.as_str()),
            Error::InvalidToken(token) => with_text("invalid token: ", token.as_str()),
            Error::InvalidUser(id) => with_text("invalid user id: ", decimal_text(*id as u64).as_str()),
            Error::InvalidUsername(name) => with_text("invalid username: ", name.as_str()),
            Error::InvalidLogin(login) => with_text("invalid login: ", login.as_str()),
            Error::InvalidPassword => "invalid password".to_owned(),
            Error::InvalidLoginNames(logins) => with_text(
                "one or more invalid login names are detected: ",
                debug_list(logins).as_str(),
            ),
            Error::InvalidJson(m) => with_text("invalid JSON: ", m.as_str()),
            Error::InvalidUtf8Bytes(m) => with_text("UTF-8 validation error: ", m.as_str()),
            Error::InvalidBodyLength(n) => with_text(
                "invalid body length: ",
                decimal_text(*n as u64).as_str(),
            ),
            Error::CrateNotFoundInDb(name) => with_text(
                "crate not found in the database which is named ",
                name.as_str(),
            ),
            Error::VersionNotFoundInDb(vers) => with_text(
                "crate is found but the specified version is not found in the database: ",
                vers.as_str(),
            ),
            Error::Db(m) => with_text("error by database: ", m.as_str()),
            Error::Multiple(errors) => {
                let mut out = "multiple errors: [".to_owned();
                let ghost views = error_views(errors@);
                let ghost head = out@;
                let mut i: usize = 0;
                assert(errors@.take(0) =~= Seq::<Error>::empty());
                assert(out@ =~= head + listed(error_views(errors@.take(0))));
                while i < errors.len()
                    invariant
                        i <= errors.len(),
                        head == "multiple errors: ["@,
                        out@ == head + listed(error_views(errors@.take(i as int))),
                        forall|k: int| 0 <= k < errors.len() ==> decreases_to!(self => errors@[k]),
                    decreases errors.len() - i,
                {
                    let ghost so_far = error_views(errors@.take(i as int));
                    proof {
                        assert(errors@.take(i + 1).drop_last() =~= errors@.take(i as int));
                        assert(errors@.take(i + 1).last() == errors@[i as int]);
                        assert(error_views(errors@.take(i + 1)) == so_far.push(errors@[i as int]@));
                        lemma_views_len(errors@.take(i as int));
                        assert(so_far.push(errors@[i as int]@).drop_last() =~= so_far);
                    }
                    if i > 0 {
                        out.append(", ");
                    } else {
                        assert(so_far.push(errors@[i as int]@)[0] == errors@[i as int]@);
                        assert(out@ + message_of(errors@[i as int]@) =~= head + message_of(
                            errors@[i as int]@,
                        ));
                    }
                    out.append(errors[i].message().as_str());
                    proof {
                        if i > 0 {
                            assert(out@ =~= head + (listed(so_far) + ", "@ + message_of(
                                errors@[i as int]@,
                            )));
                        }
                    }
                    i += 1;
                }
                assert(errors@.take(i as int) =~= errors@);
                out.append("]");
                out
            },
            Error::Join(m) => with_text("task joinning error: ", m.as_str()),
            Error::HttpRequest(m) => with_text("HTTP request error: ", m.as_str()),
            Error::HttpResponseBuilding(m) => with_text("HTTP response building error: ", m.as_str()),
            Error::InvalidHttpResponseLength => "Invalid HTTP response length".to_owned(),
            Error::OpenId(m) => with_text("OpenID error: ", m.as_str()),
            Error::InvalidCsrfToken(state) => with_text("invalid CSRF token: ", state.as_str()),
        }
    }

    /// The answer that reports this error: the status and what the error
    /// says.
    pub fn to_reply(&self) -> (reply: (ErrorMessage, u16))
        ensures
            reply.1 == status_of(*self),
            reply.0.errors@.len() == 1,
            reply.0.errors@[0].detail@ == message_of(self@),
    {
        let mut errors: Vec<ApiError> = Vec::new();
        errors.push(ApiError::from_error(self));
        (ErrorMessage::new(errors), self.status_code())
    }

    /// The HTTP status to answer with when an operation failed with this error.
    pub fn status_code(&self) -> (code: u16)
        ensures
            code == status_of(*self),
    {
        match self {
            Error::CrateNotFoundInDb(_) | Error::VersionNotFoundInDb(_) => 404,
            Error::InvalidToken(_) | Error::InvalidUser(_) => 403,
            _ => 200,
        }
    }
}

} // verus!
