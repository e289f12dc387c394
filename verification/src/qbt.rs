//! The qBittorrent Web API session that sets the listening port.
//!
//! A session cookie is kept between updates.  An update tries the kept cookie
//! first and logs in only if there is none or the server no longer accepts it.

use vstd::prelude::*;

use crate::text;

verus! {

/// The time limit of a request, in seconds.
pub const REQUEST_TIMEOUT_SECS: u64 = 10;

/// The status with which the server refuses a session.
pub const STATUS_FORBIDDEN: u16 = 403;

// ---------------------------------------------------------------------------
// HTTP
// ---------------------------------------------------------------------------

/// A failed request: the HTTP status, if the server gave one, and a
/// description.
#[derive(Debug, PartialEq, Eq)]
pub struct HttpError {
    pub status: Option<u16>,
    pub detail: String,
}

/// What came of a request.
#[derive(Debug, PartialEq, Eq)]
pub enum HttpReply {
    /// A successful response: the raw values of its `Set-Cookie` headers, in
    /// their order, and its body, or the failure to read it.
    Answer { set_cookies: Vec<Vec<u8>>, body: Result<String, HttpError> },
    /// No successful response.
    Failure(HttpError),
}

/// What came of a request.
pub enum Reply {
    Answer { set_cookies: Seq<Seq<u8>>, body: Result<Seq<char>, HttpError> },
    Failure(HttpError),
}

/// The contents of some header values.
pub open spec fn header_values(values: Seq<Vec<u8>>) -> Seq<Seq<u8>> {
    Seq::new(values.len(), |i: int| values[i]@)
}

impl View for HttpReply {
    type V = Reply;

    open spec fn view(&self) -> Reply {
        match self {
            HttpReply::Answer { set_cookies, body } => Reply::Answer {
                set_cookies: header_values(set_cookies@),
                body: match body {
                    Ok(b) => Ok(b@),
                    Err(e) => Err(*e),
                },
            },
            HttpReply::Failure(e) => Reply::Failure(*e),
        }
    }
}

/// A form to post.
#[derive(Debug, PartialEq, Eq)]
pub struct PostRequest {
    pub url: String,
    /// The value of the `Cookie` header, if it is sent.
    pub cookie: Option<String>,
    /// The fields of the form, not yet encoded.
    pub form: Vec<(String, String)>,
    /// Whether the body of the response is read.
    pub reads_body: bool,
}

/// A form to post.
#[verifier::ext_equal]
pub struct Request {
    pub url: Seq<char>,
    pub cookie: Option<Seq<char>>,
    pub form: Seq<(Seq<char>, Seq<char>)>,
    pub reads_body: bool,
}

impl View for PostRequest {
    type V = Request;

    open spec fn view(&self) -> Request {
        Request {
            url: self.url@,
            cookie: match self.cookie {
                Some(c) => Some(c@),
                None => None,
            },
            form: Seq::new(self.form@.len(), |i: int| (self.form@[i].0@, self.form@[i].1@)),
            reads_body: self.reads_body,
        }
    }
}

// ---------------------------------------------------------------------------
// Errors
// ---------------------------------------------------------------------------

/// Why the listening port was not set.
#[derive(Debug, PartialEq, Eq)]
pub enum QbtError {
    /// The login request failed.
    LoginRequest(HttpError),
    /// The login response could not be read.
    LoginBody(HttpError),
    /// The server rejected the credentials.
    BadCredentials,
    /// The server accepted the credentials but opened no session.
    NoCookie,
    /// The request that sets the port failed.
    SetPreferences(HttpError),
}

impl QbtError {
    /// The failed request behind this error, if there is one.
    pub open spec fn cause(self) -> Option<HttpError> {
        match self {
            QbtError::LoginRequest(e) => Some(e),
            QbtError::LoginBody(e) => Some(e),
            QbtError::SetPreferences(e) => Some(e),
            _ => None,
        }
    }

    /// The message for this error.
    pub open spec fn text(self) -> Seq<char> {
        match self {
            QbtError::LoginRequest(e) => "qBittorrent login request: "@ + e.detail@,
            QbtError::LoginBody(e) => "read login response: "@ + e.detail@,
            QbtError::BadCredentials =>
                "qBittorrent rejected the login credentials — check --qbt-user and --qbt-pass"@,
            QbtError::NoCookie =>
                "qBittorrent login succeeded but returned no session cookie (unexpected server response)"@,
            QbtError::SetPreferences(e) => "setPreferences request: "@ + e.detail@,
        }
    }

    /// Renders the message for this error.
    pub fn message(&self) -> (message: String)
        ensures
            message@ == self.text(),
    {
        match self {
            QbtError::LoginRequest(e) => {
                let mut m = "qBittorrent login request: ".to_owned();
                m.append(e.detail.as_str());
                m
            },
            QbtError::LoginBody(e) => {
                let mut m = "read login response: ".to_owned();
                m.append(e.detail.as_str());
                m
            },
            QbtError::BadCredentials =>
                "qBittorrent rejected the login credentials — check --qbt-user and --qbt-pass".to_owned(),
            QbtError::NoCookie =>
                "qBittorrent login succeeded but returned no session cookie (unexpected server response)".to_owned(),
            QbtError::SetPreferences(e) => {
                let mut m = "setPreferences request: ".to_owned();
                m.append(e.detail.as_str());
                m
            },
        }
    }
}

/// Whether an error means that the server does not accept the session.
pub open spec fn auth_error(e: QbtError) -> bool {
    e.cause() matches Some(cause) && cause.status == Some(STATUS_FORBIDDEN)
}

/// Tests whether an error means that the server does not accept the session.
pub fn is_auth_error(e: &QbtError) -> (b: bool)
    ensures
        b == auth_error(*e),
{
    let status: Option<u16> = match e {
        QbtError::LoginRequest(cause) => cause.status,
        QbtError::LoginBody(cause) => cause.status,
        QbtError::SetPreferences(cause) => cause.status,
        QbtError::BadCredentials => None,
        QbtError::NoCookie => None,
    };
    match status {
        Some(code) => code == STATUS_FORBIDDEN,
        None => false,
    }
}

// ---------------------------------------------------------------------------
// Texts
// ---------------------------------------------------------------------------

/// Whether a byte is a visible ASCII character, a space or a tab.
pub open spec fn visible_ascii(b: u8) -> bool {
    32 <= b < 127 || b == 9
}

/// The text of a header value that holds visible ASCII characters only.
pub open spec fn header_chars(value: Seq<u8>) -> Option<Seq<char>> {
    if forall|i: int| 0 <= i < value.len() ==> visible_ascii(#[trigger] value[i]) {
        Some(Seq::new(value.len(), |i: int| value[i] as char))
    } else {
        None
    }
}

/// The text of a raw header value, by `HeaderValue::to_str` of `ureq::http`.
///
/// `HeaderValue::from_bytes` makes the value: it refuses control characters
/// other than the tab.  `to_str` then gives the bytes as text if each of them
/// is a visible ASCII character, a space or a tab, and an error otherwise.
/// Every byte that passes the second test passes the first, so the two
/// together give a text exactly for such bytes.
#[verifier::external_body]
fn header_text(value: &[u8]) -> (text: Option<String>)
    ensures
        match text {
            Some(t) => header_chars(value@) == Some(t@),
            None => header_chars(value@) is None,
        },
{
    match ureq::http::HeaderValue::from_bytes(value) {
        Ok(header) => match header.to_str() {
            Ok(t) => Some(t.to_owned()),
            Err(_) => None,
        },
        Err(_) => None,
    }
}

/// The session cookie in the `Set-Cookie` headers of a response: what stands in
/// the first of them before its first attribute.  The other headers do not
/// count, even if the first is no text.
pub open spec fn session_cookie(set_cookies: Seq<Seq<u8>>) -> Option<Seq<char>> {
    if set_cookies.len() == 0 {
        None
    } else {
        match header_chars(set_cookies[0]) {
            Some(t) => Some(text::trimmed(text::before(t, ';'))),
            None => None,
        }
    }
}

/// Reads the session cookie out of the `Set-Cookie` headers of a response.
pub fn cookie_of(set_cookies: &[Vec<u8>]) -> (cookie: Option<String>)
    ensures
        match cookie {
            Some(c) => session_cookie(header_values(set_cookies@)) == Some(c@),
            None => session_cookie(header_values(set_cookies@)) is None,
        },
{
    if set_cookies.len() == 0 {
        return None;
    }
    assert(header_values(set_cookies@)[0] == set_cookies@[0]@);
    match header_text(set_cookies[0].as_slice()) {
        Some(t) => Some(text::trim(text::text_before(t.as_str(), ';').as_str())),
        None => None,
    }
}

/// Whether the body of a login response rejects the credentials.
pub open spec fn rejects_login(body: Seq<char>) -> bool {
    text::trimmed(body) == "Fails."@
}

/// The preferences that set the listening port, in JSON.
pub open spec fn preferences_text(port: u16) -> Seq<char> {
    "{\"listen_port\":"@ + text::decimal(port as nat) + "}"@
}

/// Renders the preferences that set the listening port.
pub fn preferences(port: u16) -> (json: String)
    ensures
        json@ == preferences_text(port),
{
    let mut json = "{\"listen_port\":".to_owned();
    json.append(text::decimal_text(port as u64).as_str());
    json.append("}");
    json
}

// ---------------------------------------------------------------------------
// Client
// ---------------------------------------------------------------------------

/// What a client knows.
#[verifier::ext_equal]
pub struct Account {
    pub url: Seq<char>,
    pub username: Seq<char>,
    pub password: Seq<char>,
    pub cookie: Option<Seq<char>>,
}

/// What a client knows that was made for the server at `url`.
pub open spec fn opened(url: Seq<char>, username: Seq<char>, password: Seq<char>) -> Account {
    Account { url: text::without_trailing(url, '/'), username, password, cookie: None }
}

/// How far an update has come.
pub enum Stage {
    /// The port is being set with the cookie kept from an earlier update.
    Cached(Seq<char>),
    /// A session is being opened.
    LoggingIn,
    /// The port is being set with the cookie of a new session.
    Fresh(Seq<char>),
}

/// An update under way.
pub struct Update {
    pub prefs: Seq<char>,
    pub stage: Stage,
}

/// What to do after a reply.
pub enum After {
    Send(Update),
    Done(Result<(), QbtError>),
}

/// An update that has just begun.
pub open spec fn begun(a: Account, port: u16) -> Update {
    Update {
        prefs: preferences_text(port),
        stage: match a.cookie {
            Some(c) => Stage::Cached(c),
            None => Stage::LoggingIn,
        },
    }
}

/// The request that logs in.
pub open spec fn login_request(a: Account) -> Request {
    Request {
        url: a.url + "/api/v2/auth/login"@,
        cookie: None,
        form: seq![("username"@, a.username), ("password"@, a.password)],
        reads_body: true,
    }
}

/// The request that sets preferences within the session of `cookie`.
pub open spec fn set_request(a: Account, cookie: Seq<char>, prefs: Seq<char>) -> Request {
    Request {
        url: a.url + "/api/v2/app/setPreferences"@,
        cookie: Some(cookie),
        form: seq![("json"@, prefs)],
        reads_body: false,
    }
}

/// The request that an update is waiting for.
pub open spec fn pending_request(a: Account, u: Update) -> Request {
    match u.stage {
        Stage::Cached(c) => set_request(a, c, u.prefs),
        Stage::LoggingIn => login_request(a),
        Stage::Fresh(c) => set_request(a, c, u.prefs),
    }
}

/// What follows from the reply to a login request.
pub open spec fn login_outcome(r: Reply) -> Result<Seq<char>, QbtError> {
    match r {
        Reply::Failure(e) => Err(QbtError::LoginRequest(e)),
        Reply::Answer { set_cookies, body } => match body {
            Err(e) => Err(QbtError::LoginBody(e)),
            Ok(b) => if rejects_login(b) {
                Err(QbtError::BadCredentials)
            } else {
                match session_cookie(set_cookies) {
                    Some(c) => Ok(c),
                    None => Err(QbtError::NoCookie),
                }
            },
        },
    }
}

/// What follows from a reply: what the client knows then, and what it does.
pub open spec fn replied(a: Account, u: Update, r: Reply) -> (Account, After) {
    match u.stage {
        Stage::Cached(_) => match r {
            Reply::Answer { .. } => (a, After::Done(Ok(()))),
            Reply::Failure(e) => if auth_error(QbtError::SetPreferences(e)) {
                (
                    Account { cookie: None, ..a },
                    After::Send(Update { stage: Stage::LoggingIn, ..u }),
                )
            } else {
                (a, After::Done(Err(QbtError::SetPreferences(e))))
            },
        },
        Stage::LoggingIn => match login_outcome(r) {
            Ok(c) => (a, After::Send(Update { stage: Stage::Fresh(c), ..u })),
            Err(e) => (a, After::Done(Err(e))),
        },
        Stage::Fresh(c) => match r {
            Reply::Answer { .. } => (Account { cookie: Some(c), ..a }, After::Done(Ok(()))),
            Reply::Failure(e) => (a, After::Done(Err(QbtError::SetPreferences(e)))),
        },
    }
}

/// How far an update has come.
#[derive(Debug)]
enum UpdateStage {
    Cached(String),
    LoggingIn,
    Fresh(String),
}

/// An update under way.
#[derive(Debug)]
pub struct PortUpdate {
    prefs: String,
    stage: UpdateStage,
}

impl View for PortUpdate {
    type V = Update;

    closed spec fn view(&self) -> Update {
        Update {
            prefs: self.prefs@,
            stage: match self.stage {
                UpdateStage::Cached(c) => Stage::Cached(c@),
                UpdateStage::LoggingIn => Stage::LoggingIn,
                UpdateStage::Fresh(c) => Stage::Fresh(c@),
            },
        }
    }
}

/// What to do after a reply.
#[derive(Debug)]
pub enum UpdateStep {
    /// Send the request that the update is now waiting for.
    Send(PortUpdate),
    /// The update is over.
    Done(Result<(), QbtError>),
}

impl View for UpdateStep {
    type V = After;

    open spec fn view(&self) -> After {
        match self {
            UpdateStep::Send(u) => After::Send(u@),
            UpdateStep::Done(r) => After::Done(*r),
        }
    }
}

/// A client of one qBittorrent server.
#[derive(Debug)]
pub struct Client {
    url: String,
    username: String,
    password: String,
    cookie: Option<String>,
}

impl View for Client {
    type V = Account;

    closed spec fn view(&self) -> Account {
        Account {
            url: self.url@,
            username: self.username@,
            password: self.password@,
            cookie: match self.cookie {
                Some(c) => Some(c@),
                None => None,
            },
        }
    }
}

/// Reads the session cookie out of the reply to a login request.
pub fn login(reply: HttpReply) -> (r: Result<String, QbtError>)
    ensures
        match r {
            Ok(c) => login_outcome(reply@) == Ok::<Seq<char>, QbtError>(c@),
            Err(e) => login_outcome(reply@) == Err::<Seq<char>, QbtError>(e),
        },
{
    match reply {
        HttpReply::Failure(e) => Err(QbtError::LoginRequest(e)),
        HttpReply::Answer { set_cookies, body } => {
            let cookie = cookie_of(set_cookies.as_slice());
            let body: String = match body {
                Ok(b) => b,
                Err(e) => {
                    return Err(QbtError::LoginBody(e));
                },
            };
            let refusal: String = "Fails.".to_owned();
            if text::trim(body.as_str()) == refusal {
                return Err(QbtError::BadCredentials);
            }
            match cookie {
                Some(c) => Ok(c),
                None => Err(QbtError::NoCookie),
            }
        },
    }
}

impl Client {
    /// A client of the server at `url`, which may end in slashes.
    pub fn new(url: &str, username: &str, password: &str) -> (client: Self)
        ensures
            client@ == (Account {
                url: text::without_trailing(url@, '/'),
                username: username@,
                password: password@,
                cookie: None,
            }),
            client@ == opened(url@, username@, password@),
    {
        Client {
            url: text::trim_trailing(url, '/'),
            username: username.to_owned(),
            password: password.to_owned(),
            cookie: None,
        }
    }

    /// Starts an update that sets the listening port.
    pub fn set_listen_port(&self, port: u16) -> (update: PortUpdate)
        ensures
            update@ == begun(self@, port),
    {
        let stage = match &self.cookie {
            Some(c) => UpdateStage::Cached(c.clone()),
            None => UpdateStage::LoggingIn,
        };
        PortUpdate { prefs: preferences(port), stage }
    }

    /// The request to send next.
    pub fn request(&self, update: &PortUpdate) -> (request: PostRequest)
        ensures
            request@ == pending_request(self@, update@),
    {
        let request = match &update.stage {
            UpdateStage::Cached(c) => self.set_preferences(c.as_str(), update.prefs.as_str()),
            UpdateStage::LoggingIn => {
                let mut url = self.url.clone();
                url.append("/api/v2/auth/login");
                let form: Vec<(String, String)> = vec![
                    ("username".to_owned(), self.username.clone()),
                    ("password".to_owned(), self.password.clone()),
                ];
                PostRequest { url, cookie: None, form, reads_body: true }
            },
            UpdateStage::Fresh(c) => self.set_preferences(c.as_str(), update.prefs.as_str()),
        };
        assert(request@ =~= pending_request(self@, update@));
        request
    }

    /// The request that sets preferences within the session of `cookie`.
    fn set_preferences(&self, cookie: &str, prefs_json: &str) -> (request: PostRequest)
        ensures
            request@ == set_request(self@, cookie@, prefs_json@),
    {
        let mut url = self.url.clone();
        url.append("/api/v2/app/setPreferences");
        let form: Vec<(String, String)> = vec![("json".to_owned(), prefs_json.to_owned())];
        let request = PostRequest { url, cookie: Some(cookie.to_owned()), form, reads_body: false };
        assert(request@ =~= set_request(self@, cookie@, prefs_json@));
        request
    }

    /// Takes in the reply to the request last sent.
    pub fn reply(&mut self, update: PortUpdate, reply: HttpReply) -> (step: UpdateStep)
        ensures
            (final(self)@, step@) == replied(old(self)@, update@, reply@),
    {
        match update.stage {
            UpdateStage::Cached(_) => match reply {
                HttpReply::Answer { .. } => UpdateStep::Done(Ok(())),
                HttpReply::Failure(e) => {
                    let error = QbtError::SetPreferences(e);
                    if is_auth_error(&error) {
                        self.cookie = None;
                        UpdateStep::Send(
                            PortUpdate { prefs: update.prefs, stage: UpdateStage::LoggingIn },
                        )
                    } else {
                        UpdateStep::Done(Err(error))
                    }
                },
            },
            UpdateStage::LoggingIn => match login(reply) {
                Ok(c) => UpdateStep::Send(
                    PortUpdate { prefs: update.prefs, stage: UpdateStage::Fresh(c) },
                ),
                Err(e) => UpdateStep::Done(Err(e)),
            },
            UpdateStage::Fresh(c) => match reply {
                HttpReply::Answer { .. } => {
                    self.cookie = Some(c);
                    UpdateStep::Done(Ok(()))
                },
                HttpReply::Failure(e) => UpdateStep::Done(Err(QbtError::SetPreferences(e))),
            },
        }
    }
}

// ---------------------------------------------------------------------------
// Whole updates
// ---------------------------------------------------------------------------

/// What the client knows after the replies to the requests of an update, and
/// what it does then.  Replies after the end of the update do not come.
pub open spec fn run(a: Account, u: Update, rs: Seq<Reply>) -> (Account, After)
    decreases rs.len(),
{
    if rs.len() == 0 {
        (a, After::Send(u))
    } else {
        match replied(a, u, rs[0]) {
            (b, After::Send(v)) => run(b, v, rs.drop_first()),
            end => end,
        }
    }
}

/// The requests that an update sends if the replies are `rs`.
pub open spec fn requests(a: Account, u: Update, rs: Seq<Reply>) -> Seq<Request>
    decreases rs.len(),
{
    let first = seq![pending_request(a, u)];
    if rs.len() == 0 {
        first
    } else {
        match replied(a, u, rs[0]) {
            (b, After::Send(v)) => first + requests(b, v, rs.drop_first()),
            _ => first,
        }
    }
}

/// Whether a reply is a success.
pub open spec fn succeeds(r: Reply) -> bool {
    r is Answer
}

/// Whether a reply refuses the session.
pub open spec fn forbidden(r: Reply) -> bool {
    r matches Reply::Failure(e) && e.status == Some(STATUS_FORBIDDEN)
}

/// Without a cookie, an update logs in and then sets the port within the new
/// session, whose cookie is kept.
pub proof fn law_login_then_set(a: Account, port: u16, login: Reply, set: Reply)
    requires
        a.cookie is None,
        login_outcome(login) is Ok,
        succeeds(set),
    ensures
        ({
            let c = login_outcome(login)->Ok_0;
            &&& requests(a, begun(a, port), seq![login, set]) == seq![
                login_request(a),
                set_request(a, c, preferences_text(port)),
            ]
            &&& run(a, begun(a, port), seq![login, set]) == (
                Account { cookie: Some(c), ..a },
                After::Done(Ok(())),
            )
        }),
{
    let rs = seq![login, set];
    let c = login_outcome(login)->Ok_0;
    let v = Update { prefs: preferences_text(port), stage: Stage::Fresh(c) };
    assert(rs.drop_first() =~= seq![set]);
    assert(replied(a, begun(a, port), rs[0]) == (a, After::Send(v)));
    assert(seq![set][0] == set);
    assert(replied(a, v, seq![set][0]).1 == After::Done(Ok(())));
    assert(run(a, v, seq![set]) == replied(a, v, set));
    assert(requests(a, v, seq![set]) == seq![pending_request(a, v)]);
    assert(requests(a, begun(a, port), rs) =~= seq![login_request(a)] + seq![
        pending_request(a, v),
    ]);
}

/// With a cookie, an update sets the port at once; if that succeeds it sends
/// nothing else and keeps the cookie.
pub proof fn law_cached_cookie_skips_login(a: Account, port: u16, set: Reply)
    requires
        a.cookie is Some,
        succeeds(set),
    ensures
        requests(a, begun(a, port), seq![set]) == seq![
            set_request(a, a.cookie->0, preferences_text(port)),
        ],
        run(a, begun(a, port), seq![set]) == (a, After::Done(Ok(()))),
{
    assert(seq![set][0] == set);
}

/// An update that succeeds leaves a cookie, so the next one does not log in.
pub proof fn law_success_keeps_a_cookie(
    a: Account,
    port: u16,
    rs: Seq<Reply>,
    next_port: u16,
)
    requires
        run(a, begun(a, port), rs).1 == After::Done(Ok(())),
    ensures
        run(a, begun(a, port), rs).0.cookie is Some,
        begun(run(a, begun(a, port), rs).0, next_port).stage is Cached,
{
    lemma_success_keeps_a_cookie(a, begun(a, port), rs);
}

proof fn lemma_success_keeps_a_cookie(a: Account, u: Update, rs: Seq<Reply>)
    requires
        run(a, u, rs).1 == After::Done(Ok(())),
        u.stage matches Stage::Cached(c) ==> a.cookie == Some(c),
    ensures
        run(a, u, rs).0.cookie is Some,
    decreases rs.len(),
{
    match replied(a, u, rs[0]) {
        (b, After::Send(v)) => lemma_success_keeps_a_cookie(b, v, rs.drop_first()),
        _ => {},
    }
}

/// A refused cookie is forgotten, and the update goes on with a login and then
/// sets the port within the new session.
pub proof fn law_forbidden_logs_in_again(
    a: Account,
    port: u16,
    refused: Reply,
    login: Reply,
    set: Reply,
)
    requires
        a.cookie is Some,
        forbidden(refused),
        login_outcome(login) is Ok,
        succeeds(set),
    ensures
        ({
            let c = login_outcome(login)->Ok_0;
            let rs = seq![refused, login, set];
            &&& replied(a, begun(a, port), refused).0.cookie is None
            &&& requests(a, begun(a, port), rs) == seq![
                set_request(a, a.cookie->0, preferences_text(port)),
                login_request(a),
                set_request(a, c, preferences_text(port)),
            ]
            &&& run(a, begun(a, port), rs) == (
                Account { cookie: Some(c), ..a },
                After::Done(Ok(())),
            )
        }),
{
    let rs = seq![refused, login, set];
    let b = Account { cookie: None, ..a };
    let c = login_outcome(login)->Ok_0;
    assert(rs.drop_first() =~= seq![login, set]);
    assert(replied(a, begun(a, port), rs[0]) == (b, After::Send(begun(b, port))));
    law_login_then_set(b, port, login, set);
    assert(login_request(b) == login_request(a));
    assert(set_request(b, c, preferences_text(port)) == set_request(a, c, preferences_text(port)));
    assert(requests(a, begun(a, port), rs) =~= seq![
        set_request(a, a.cookie->0, preferences_text(port)),
    ] + requests(b, begun(b, port), seq![login, set]));
}

/// Any other failure to set the port with a kept cookie is the outcome: there
/// is no login, and the cookie stays.
pub proof fn law_other_failures_propagate(a: Account, port: u16, e: HttpError, rs: Seq<Reply>)
    requires
        a.cookie is Some,
        e.status != Some(STATUS_FORBIDDEN),
    ensures
        run(a, begun(a, port), seq![Reply::Failure(e)] + rs) == (
            a,
            After::Done(Err(QbtError::SetPreferences(e))),
        ),
        requests(a, begun(a, port), seq![Reply::Failure(e)] + rs).len() == 1,
{
    assert((seq![Reply::Failure(e)] + rs)[0] == Reply::Failure(e));
}

/// Rejected credentials end an update after the login request: the port is not
/// set and no cookie is kept.
pub proof fn law_bad_credentials_end_the_update(
    a: Account,
    port: u16,
    set_cookies: Seq<Seq<u8>>,
    body: Seq<char>,
    rs: Seq<Reply>,
)
    requires
        a.cookie is None,
        rejects_login(body),
    ensures
        ({
            let r = Reply::Answer { set_cookies, body: Ok(body) };
            &&& run(a, begun(a, port), seq![r] + rs) == (
                a,
                After::Done(Err(QbtError::BadCredentials)),
            )
            &&& requests(a, begun(a, port), seq![r] + rs) == seq![login_request(a)]
        }),
{
    let r = Reply::Answer { set_cookies, body: Ok(body) };
    assert((seq![r] + rs)[0] == r);
}

/// The number of requests that an update can still send, this one included.
pub open spec fn requests_left(u: Update) -> nat {
    match u.stage {
        Stage::Cached(_) => 3,
        Stage::LoggingIn => 2,
        Stage::Fresh(_) => 1,
    }
}

proof fn lemma_requests_left(a: Account, u: Update, rs: Seq<Reply>)
    ensures
        requests(a, u, rs).len() <= requests_left(u),
        rs.len() >= requests_left(u) ==> run(a, u, rs).1 is Done,
    decreases rs.len(),
{
    if rs.len() > 0 {
        match replied(a, u, rs[0]) {
            (b, After::Send(v)) => lemma_requests_left(b, v, rs.drop_first()),
            _ => {},
        }
    }
}

/// Whatever the server replies, an update sends at most three requests, and is
/// over when those are answered.
pub proof fn law_updates_are_short(a: Account, port: u16, rs: Seq<Reply>)
    ensures
        requests(a, begun(a, port), rs).len() <= 3,
        rs.len() >= 3 ==> run(a, begun(a, port), rs).1 is Done,
{
    lemma_requests_left(a, begun(a, port), rs);
}

proof fn lemma_requests_carry_prefs(a: Account, u: Update, rs: Seq<Reply>, i: int)
    requires
        0 <= i < requests(a, u, rs).len(),
    ensures
        ({
            let request = requests(a, u, rs)[i];
            request == login_request(a) || exists|c: Seq<char>|
                request == #[trigger] set_request(a, c, u.prefs)
        }),
    decreases rs.len(),
{
    if i == 0 {
        match u.stage {
            Stage::Cached(c) => assert(requests(a, u, rs)[0] == set_request(a, c, u.prefs)),
            Stage::LoggingIn => assert(requests(a, u, rs)[0] == login_request(a)),
            Stage::Fresh(c) => assert(requests(a, u, rs)[0] == set_request(a, c, u.prefs)),
        }
    } else {
        match replied(a, u, rs[0]) {
            (b, After::Send(v)) => {
                lemma_requests_carry_prefs(b, v, rs.drop_first(), i - 1);
                let request = requests(b, v, rs.drop_first())[i - 1];
                assert(requests(a, u, rs)[i] == request);
                assert(login_request(b) == login_request(a));
                if request != login_request(b) {
                    let c = choose|c: Seq<char>| request == #[trigger] set_request(b, c, v.prefs);
                    assert(set_request(b, c, v.prefs) == set_request(a, c, u.prefs));
                }
            },
            _ => {},
        }
    }
}

/// Every request of an update but the login carries the port to set, as a
/// decimal number.
pub proof fn law_requests_carry_the_port(a: Account, port: u16, rs: Seq<Reply>, i: int)
    requires
        0 <= i < requests(a, begun(a, port), rs).len(),
    ensures
        ({
            let request = requests(a, begun(a, port), rs)[i];
            request == login_request(a) || (request.form.len() == 1 && request.form[0] == (
                "json"@,
                "{\"listen_port\":"@ + text::decimal(port as nat) + "}"@,
            ))
        }),
{
    lemma_requests_carry_prefs(a, begun(a, port), rs, i);
}

/// Different ports make different preferences.
pub proof fn law_preferences_tell_ports_apart(p: u16, q: u16)
    requires
        preferences_text(p) == preferences_text(q),
    ensures
        p == q,
{
    let head = "{\"listen_port\":"@;
    let tail = "}"@;
    let n = head.len() as int;
    let x = text::decimal(p as nat);
    let y = text::decimal(q as nat);
    assert(preferences_text(p).len() == n + x.len() + tail.len());
    assert(preferences_text(q).len() == n + y.len() + tail.len());
    assert(x == preferences_text(p).subrange(n, n + x.len()));
    assert(y == preferences_text(q).subrange(n, n + y.len()));
    text::law_decimal_reads_back(p as nat);
    text::law_decimal_reads_back(q as nat);
}

/// The server's address never ends in a slash, whatever it was given as, and
/// one without a slash at its end is taken as it is.
pub proof fn law_url_has_no_trailing_slash(url: Seq<char>)
    ensures
        text::without_trailing(url, '/').len() > 0 ==> text::without_trailing(url, '/').last()
            != '/',
        url.len() == 0 || url.last() != '/' ==> text::without_trailing(url, '/') == url,
        text::without_trailing(url.push('/'), '/') == text::without_trailing(url, '/'),
    decreases url.len(),
{
    assert(url.push('/').drop_last() == url);
    if url.len() > 0 && url.last() == '/' {
        law_url_has_no_trailing_slash(url.drop_last());
    }
}

/// A session cookie holds no attributes.
pub proof fn law_cookie_has_no_attributes(set_cookies: Seq<Seq<u8>>)
    ensures
        session_cookie(set_cookies) matches Some(c) ==> !c.contains(';'),
{
    if set_cookies.len() > 0 {
        if let Some(t) = header_chars(set_cookies[0]) {
            text::lemma_position_is_first(t, ';');
            text::lemma_trimmed_is_part(text::before(t, ';'), ';');
        }
    }
}

/// Only the first `Set-Cookie` header of a login response counts.
pub proof fn law_first_cookie_counts(
    first: Seq<u8>,
    more: Seq<Seq<u8>>,
    body: Result<Seq<char>, HttpError>,
)
    ensures
        login_outcome(Reply::Answer { set_cookies: seq![first] + more, body }) == login_outcome(
            Reply::Answer { set_cookies: seq![first], body },
        ),
{
    assert((seq![first] + more)[0] == first);
}

/// The first request of a new client is a login with the user name and the
/// password that it was made with.
pub proof fn law_login_carries_the_credentials(
    url: Seq<char>,
    username: Seq<char>,
    password: Seq<char>,
    port: u16,
)
    ensures
        ({
            let a = opened(url, username, password);
            let r = pending_request(a, begun(a, port));
            &&& r.url == text::without_trailing(url, '/') + "/api/v2/auth/login"@
            &&& r.cookie is None
            &&& r.form.len() == 2
            &&& r.form[0].0 == "username"@
            &&& r.form[0].1 == username
            &&& r.form[1].0 == "password"@
            &&& r.form[1].1 == password
            &&& r.reads_body
        }),
{
}

/// A request either logs in with the credentials or sets preferences with a
/// cookie, which it carries; the address is that of the server.
pub proof fn law_requests_of_every_stage(a: Account, u: Update)
    ensures
        ({
            let r = pending_request(a, u);
            match u.stage {
                Stage::LoggingIn => {
                    &&& r.url == a.url + "/api/v2/auth/login"@
                    &&& r.cookie is None
                    &&& r.form.len() == 2
                    &&& r.form[0].0 == "username"@ && r.form[0].1 == a.username
                    &&& r.form[1].0 == "password"@ && r.form[1].1 == a.password
                    &&& r.reads_body
                },
                Stage::Cached(c) | Stage::Fresh(c) => {
                    &&& r.url == a.url + "/api/v2/app/setPreferences"@
                    &&& r.cookie == Some(c)
                    &&& r.form.len() == 1
                    &&& r.form[0].0 == "json"@ && r.form[0].1 == u.prefs
                    &&& !r.reads_body
                },
            }
        }),
{
}

/// Whatever the server replies, a client keeps its server, its user name and
/// its password.
pub proof fn law_account_is_kept(a: Account, u: Update, rs: Seq<Reply>)
    ensures
        ({
            let b = run(a, u, rs).0;
            b.url == a.url && b.username == a.username && b.password == a.password
        }),
    decreases rs.len(),
{
    if rs.len() > 0 {
        match replied(a, u, rs[0]) {
            (b, After::Send(v)) => law_account_is_kept(b, v, rs.drop_first()),
            _ => {},
        }
    }
}

proof fn lemma_success_is_the_last_reply(a: Account, u: Update, rs: Seq<Reply>)
    requires
        run(a, u, rs).1 == After::Done(Ok(())),
        u.stage matches Stage::Cached(c) ==> a.cookie == Some(c),
    ensures
        ({
            let sent = requests(a, u, rs);
            &&& 1 <= sent.len() <= rs.len()
            &&& rs[sent.len() - 1] is Answer
            &&& sent.last().url == a.url + "/api/v2/app/setPreferences"@
            &&& sent.last().form == seq![("json"@, u.prefs)]
            &&& run(a, u, rs).0.cookie == sent.last().cookie
        }),
    decreases rs.len(),
{
    match replied(a, u, rs[0]) {
        (b, After::Send(v)) => {
            let rest = rs.drop_first();
            lemma_success_is_the_last_reply(b, v, rest);
            let sent = requests(a, u, rs);
            let later = requests(b, v, rest);
            assert(sent.last() == later.last());
            assert(rs[sent.len() - 1] == rest[later.len() - 1]);
        },
        _ => {},
    }
}

/// An update succeeds only if the server accepted the port: the last request
/// sets it, and its reply is a success.  The cookie of that request is kept.
pub proof fn law_success_means_the_port_is_set(a: Account, port: u16, rs: Seq<Reply>)
    requires
        run(a, begun(a, port), rs).1 == After::Done(Ok(())),
    ensures
        ({
            let sent = requests(a, begun(a, port), rs);
            &&& 1 <= sent.len() <= rs.len()
            &&& rs[sent.len() - 1] is Answer
            &&& sent.last().url == a.url + "/api/v2/app/setPreferences"@
            &&& sent.last().form.len() == 1
            &&& sent.last().form[0].0 == "json"@
            &&& sent.last().form[0].1 == "{\"listen_port\":"@ + text::decimal(port as nat) + "}"@
            &&& run(a, begun(a, port), rs).0.cookie == sent.last().cookie
        }),
{
    lemma_success_is_the_last_reply(a, begun(a, port), rs);
}

/// A failure to set the port with the cookie of a new login is the outcome,
/// whatever it is, and that cookie is not kept.  A success is the outcome too,
/// and the cookie is kept.
pub proof fn law_new_session_decides(a: Account, u: Update, c: Seq<char>, r: Reply)
    requires
        u.stage == Stage::Fresh(c),
    ensures
        r matches Reply::Failure(e) ==> replied(a, u, r).0 == a && replied(a, u, r).1
            == After::Done(Err(QbtError::SetPreferences(e))),
        r is Answer ==> replied(a, u, r).1 == After::Done(Ok(())) && replied(a, u, r).0.cookie
            == Some(c),
{
}

/// The reply to a kept cookie decides: a success ends the update and keeps the
/// cookie, the status 403 forgets it and logs in for the same port, and any
/// other failure is the outcome and keeps it.
pub proof fn law_kept_cookie_decides(a: Account, u: Update, c: Seq<char>, r: Reply)
    requires
        u.stage == Stage::Cached(c),
    ensures
        r is Answer ==> replied(a, u, r).0 == a && replied(a, u, r).1 == After::Done(Ok(())),
        r matches Reply::Failure(e) ==> e.status == Some(403u16) ==> {
            &&& replied(a, u, r).0.cookie is None
            &&& replied(a, u, r).1 matches After::Send(v) && v.stage is LoggingIn && v.prefs
                == u.prefs
        },
        r matches Reply::Failure(e) ==> e.status != Some(403u16) ==> replied(a, u, r).0 == a
            && replied(a, u, r).1 == After::Done(Err(QbtError::SetPreferences(e))),
{
}

/// The reply to a login decides: the update goes on, for the same port, with
/// the cookie that the reply gives, and ends with an error if there is none.
/// Nothing is kept yet.
pub proof fn law_login_decides(a: Account, u: Update, r: Reply)
    requires
        u.stage is LoggingIn,
    ensures
        replied(a, u, r).0 == a,
        login_outcome(r) matches Ok(c) ==> (replied(a, u, r).1 matches After::Send(v) && v.stage
            == Stage::Fresh(c) && v.prefs == u.prefs),
        login_outcome(r) matches Err(e) ==> replied(a, u, r).1 == After::Done(Err(e)),
{
}

/// A login fails if the request fails, if its response cannot be read, if the
/// response rejects the credentials, whatever cookie comes with it, and if no
/// cookie comes; otherwise it gives that cookie.
pub proof fn law_outcomes_of_a_login(
    e: HttpError,
    set_cookies: Seq<Seq<u8>>,
    body: Seq<char>,
)
    ensures
        login_outcome(Reply::Failure(e)) == Err::<Seq<char>, QbtError>(QbtError::LoginRequest(e)),
        login_outcome((Reply::Answer { set_cookies, body: Err(e) })) == Err::<Seq<char>, QbtError>(
            QbtError::LoginBody(e),
        ),
        ({
            let outcome = login_outcome(Reply::Answer { set_cookies, body: Ok(body) });
            if text::trimmed(body) == "Fails."@ {
                outcome == Err::<Seq<char>, QbtError>(QbtError::BadCredentials)
            } else {
                match session_cookie(set_cookies) {
                    Some(c) => outcome == Ok::<Seq<char>, QbtError>(c),
                    None => outcome == Err::<Seq<char>, QbtError>(QbtError::NoCookie),
                }
            }
        }),
{
}

/// A body rejects the credentials if it says `Fails.`, with white space around
/// it or not.
pub proof fn law_rejections_may_be_padded(pre: Seq<char>, post: Seq<char>)
    requires
        forall|i: int| 0 <= i < pre.len() ==> text::white(#[trigger] pre[i]),
        forall|i: int| 0 <= i < post.len() ==> text::white(#[trigger] post[i]),
    ensures
        rejects_login(pre + "Fails."@ + post),
{
    reveal_strlit("Fails.");
    text::law_trimming_finds_the_text(pre, "Fails."@, post);
}

/// The cookie of a header is what stands before its first semicolon, without
/// white space around it; a header without text gives none, and neither do no
/// headers.
pub proof fn law_cookie_stands_before_the_attributes(cookie: Seq<u8>, attributes: Seq<u8>)
    requires
        cookie.len() > 0,
        forall|i: int| 0 <= i < cookie.len() ==> 32 < #[trigger] cookie[i] < 127 && cookie[i] != 59,
        forall|i: int| 0 <= i < attributes.len() ==> 32 <= #[trigger] attributes[i] < 127,
    ensures
        session_cookie(Seq::empty()) is None,
        session_cookie(seq![cookie]) == Some(Seq::new(cookie.len(), |i: int| cookie[i] as char)),
        session_cookie(seq![cookie + seq![59u8] + attributes]) == Some(
            Seq::new(cookie.len(), |i: int| cookie[i] as char),
        ),
{
    let text = Seq::new(cookie.len(), |i: int| cookie[i] as char);
    let n = cookie.len() as int;
    let empty = Seq::<char>::empty();
    assert forall|i: int| 0 <= i < n implies !text::white(#[trigger] text[i]) && text[i] != ';' by {
        assert(32 < cookie[i] < 127);
        assert(text[i] as int == cookie[i] as int);
    }
    text::law_trimming_finds_the_text(empty, text, empty);
    assert(empty + text + empty == text);

    let alone = seq![cookie];
    assert forall|i: int| 0 <= i < cookie.len() implies visible_ascii(#[trigger] cookie[i]) by {}
    assert(header_chars(alone[0]) == Some(text));
    text::lemma_position(text, ';', n);
    assert(text::before(text, ';') == text);

    let header = cookie + seq![59u8] + attributes;
    let chars = Seq::new(header.len(), |i: int| header[i] as char);
    assert forall|i: int| 0 <= i < header.len() implies visible_ascii(#[trigger] header[i]) by {
        if i < n {
            assert(header[i] == cookie[i]);
        } else if i > n {
            assert(header[i] == attributes[i - n - 1]);
        }
    }
    assert(seq![header][0] == header);
    assert(header_chars(header) == Some(chars));
    assert forall|i: int| 0 <= i < n implies #[trigger] chars[i] != ';' by {
        assert(chars[i] == text[i]);
    }
    assert(header[n] == 59u8);
    assert(chars[n] == ';');
    text::lemma_position(chars, ';', n);
    assert(text::before(chars, ';') == text);
}

/// Header values are texts character by character, unless a byte is neither
/// visible nor a space nor a tab; all values are kept, in their order.
pub proof fn law_header_values_are_texts(value: Seq<u8>, values: Seq<Vec<u8>>, i: int)
    requires
        0 <= i < value.len(),
        0 <= i < values.len(),
    ensures
        header_chars(value) matches Some(t) ==> t.len() == value.len() && t[i] as int
            == value[i] as int && (32 <= value[i] < 127 || value[i] == 9),
        header_values(values).len() == values.len(),
        header_values(values)[i] == values[i]@,
{
    if header_chars(value) is Some {
        assert(visible_ascii(value[i]));
    }
}

/// Only the status 403 means that the server does not accept the session.
pub proof fn law_only_forbidden_is_an_auth_error(e: HttpError)
    ensures
        auth_error(QbtError::SetPreferences(e)) <==> e.status == Some(403u16),
        auth_error(QbtError::LoginRequest(e)) <==> e.status == Some(403u16),
        auth_error(QbtError::LoginBody(e)) <==> e.status == Some(403u16),
        !auth_error(QbtError::BadCredentials),
        !auth_error(QbtError::NoCookie),
{
}

/// A failed update keeps no new cookie: the client has the one it had, or none.
pub proof fn law_failure_keeps_no_new_cookie(a: Account, u: Update, rs: Seq<Reply>)
    requires
        run(a, u, rs).1 is Done,
        run(a, u, rs).1->Done_0 is Err,
    ensures
        run(a, u, rs).0.cookie == a.cookie || run(a, u, rs).0.cookie is None,
    decreases rs.len(),
{
    match replied(a, u, rs[0]) {
        (b, After::Send(v)) => law_failure_keeps_no_new_cookie(b, v, rs.drop_first()),
        _ => {},
    }
}

/// The messages say which request failed and why.
pub proof fn law_messages_say_why(e: HttpError)
    ensures
        QbtError::LoginRequest(e).text() == "qBittorrent login request: "@ + e.detail@,
        QbtError::LoginBody(e).text() == "read login response: "@ + e.detail@,
        QbtError::SetPreferences(e).text() == "setPreferences request: "@ + e.detail@,
{
}

} // verus!
