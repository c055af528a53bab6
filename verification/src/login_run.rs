//! The steps of `vise login`, one after another: what is asked for next, given
//! what came of the step before.

use vstd::prelude::*;
use vstd::string::*;

use crate::follow_up::optional_text;
use crate::host::{path_joined, Paths};
use crate::login::{
    authorize_address, authorize_url, base_url, check_exchange, check_platform, check_token,
    classified, logged_in, no_platform, override_warning, plaintext_remote, plaintext_warning,
    report_saved, response, save_credentials, saved, serve_callback, token_in, CallbackView,
    ListenStep, TokenError,
};
use crate::text::{lemma_concat_empty, without_trailing};

verus! {

/// Where a login stands.
#[derive(Debug)]
pub enum LoginStage {
    /// The key is being pasted.
    Pasting,
    /// A loopback port is being bound.
    Binding,
    /// The server is being asked for the page.
    Probing { page: String, state: String },
    /// The browser is being opened.
    Opening { state: String },
    /// The browser is being waited for.
    Waiting { state: String },
    /// The code is being exchanged.
    Exchanging,
    /// The answer to the exchange is being read.
    Parsing,
    /// The saved variables are being read.
    Reading { token: String, greeting: String },
    /// The new ones are being written.
    Writing { token: String, greeting: String },
    /// The login is over.
    Ended,
}

/// A stage as a mathematical value.
pub enum LoginStageView {
    Pasting,
    Binding,
    Probing { page: Seq<char>, state: Seq<char> },
    Opening { state: Seq<char> },
    Waiting { state: Seq<char> },
    Exchanging,
    Parsing,
    Reading { token: Seq<char>, greeting: Seq<char> },
    Writing { token: Seq<char>, greeting: Seq<char> },
    Ended,
}

impl View for LoginStage {
    type V = LoginStageView;

    open spec fn view(&self) -> LoginStageView {
        match self {
            LoginStage::Pasting => LoginStageView::Pasting,
            LoginStage::Binding => LoginStageView::Binding,
            LoginStage::Probing { page, state } => LoginStageView::Probing {
                page: page@,
                state: state@,
            },
            LoginStage::Opening { state } => LoginStageView::Opening { state: state@ },
            LoginStage::Waiting { state } => LoginStageView::Waiting { state: state@ },
            LoginStage::Exchanging => LoginStageView::Exchanging,
            LoginStage::Parsing => LoginStageView::Parsing,
            LoginStage::Reading { token, greeting } => LoginStageView::Reading {
                token: token@,
                greeting: greeting@,
            },
            LoginStage::Writing { token, greeting } => LoginStageView::Writing {
                token: token@,
                greeting: greeting@,
            },
            LoginStage::Ended => LoginStageView::Ended,
        }
    }
}

/// What came of a step.
#[derive(Debug)]
pub enum LoginEvent {
    /// This line was pasted.
    Pasted(String),
    /// The port is bound. The state is a nonce.
    Bound { port: u16, state: String, hostname: Option<String> },
    /// The server answered with this status.
    Probed(u16),
    /// Whether a browser opened.
    Opened(bool),
    /// A connection came, with this request line if it sent one.
    Request(Option<String>),
    /// No code came in time.
    TimedOut,
    /// The exchange was answered.
    Exchanged { status: u16, status_text: String, body: String },
    /// The answer to the exchange holds this.
    Parsed { token: String, workspace: Option<String> },
    /// The saved variables, if there are any.
    EnvRead(Option<String>),
    /// The new ones are in place. These are what the shell exports, each the
    /// empty text when it exports none.
    Written { exported_url: String, exported_token: String },
    /// The step failed.
    Failed(String),
}

/// What a login asks for.
#[derive(Debug)]
pub enum LoginAction {
    /// Show the prompt and read a line.
    Paste { prompt: String },
    /// Bind a loopback port and make up a state.
    Bind,
    /// Ask the server for the page.
    Probe { page: String },
    /// Show the notice and open the browser at the page.
    Open { page: String, notice: String },
    /// Answer the last connection, if there is an answer, show the notice and
    /// take the next connection.
    Listen { answer: Option<String>, notice: String },
    /// Answer the last connection and exchange the code.
    Exchange { reply: String, code: String },
    /// Read the answer to the exchange.
    Parse { body: String },
    /// Read the saved variables.
    ReadEnv,
    /// Write these.
    Write { contents: String },
    /// Show the message; the login went through.
    Done { message: String },
    /// Answer the last connection, if there is an answer; the login failed.
    Fail { answer: Option<String>, error: String },
}

/// An action as a mathematical value.
pub enum LoginActionView {
    Paste { prompt: Seq<char> },
    Bind,
    Probe { page: Seq<char> },
    Open { page: Seq<char>, notice: Seq<char> },
    Listen { answer: Option<Seq<char>>, notice: Seq<char> },
    Exchange { reply: Seq<char>, code: Seq<char> },
    Parse { body: Seq<char> },
    ReadEnv,
    Write { contents: Seq<char> },
    Done { message: Seq<char> },
    Fail { answer: Option<Seq<char>>, error: Seq<char> },
}

impl View for LoginAction {
    type V = LoginActionView;

    open spec fn view(&self) -> LoginActionView {
        match self {
            LoginAction::Paste { prompt } => LoginActionView::Paste { prompt: prompt@ },
            LoginAction::Bind => LoginActionView::Bind,
            LoginAction::Probe { page } => LoginActionView::Probe { page: page@ },
            LoginAction::Open { page, notice } => LoginActionView::Open {
                page: page@,
                notice: notice@,
            },
            LoginAction::Listen { answer, notice } => LoginActionView::Listen {
                answer: optional_text(*answer),
                notice: notice@,
            },
            LoginAction::Exchange { reply, code } => LoginActionView::Exchange {
                reply: reply@,
                code: code@,
            },
            LoginAction::Parse { body } => LoginActionView::Parse { body: body@ },
            LoginAction::ReadEnv => LoginActionView::ReadEnv,
            LoginAction::Write { contents } => LoginActionView::Write { contents: contents@ },
            LoginAction::Done { message } => LoginActionView::Done { message: message@ },
            LoginAction::Fail { answer, error } => LoginActionView::Fail {
                answer: optional_text(*answer),
                error: error@,
            },
        }
    }
}

/// A login to a server, whose address has no slash at its end.
#[derive(Debug)]
pub struct LoginRun {
    pub url: String,
    pub stage: LoginStage,
}

/// The stage waits for this event.
pub open spec fn login_expects(stage: LoginStageView, event: LoginEvent) -> bool {
    match stage {
        LoginStageView::Pasting => event is Pasted || event is Failed,
        LoginStageView::Binding => event is Bound || event is Failed,
        LoginStageView::Probing { .. } => event is Probed || event is Failed,
        LoginStageView::Opening { .. } => event is Opened,
        LoginStageView::Waiting { .. } => event is Request || event is TimedOut || event is Failed,
        LoginStageView::Exchanging => event is Exchanged || event is Failed,
        LoginStageView::Parsing => event is Parsed || event is Failed,
        LoginStageView::Reading { .. } => event is EnvRead || event is Failed,
        LoginStageView::Writing { .. } => event is Written || event is Failed,
        LoginStageView::Ended => false,
    }
}

/// How far a login is from its end.
pub open spec fn login_rank(stage: LoginStageView) -> int {
    match stage {
        LoginStageView::Binding => 8,
        LoginStageView::Probing { .. } => 7,
        LoginStageView::Opening { .. } => 6,
        LoginStageView::Waiting { .. } => 5,
        LoginStageView::Exchanging => 4,
        LoginStageView::Parsing => 3,
        LoginStageView::Pasting => 3,
        LoginStageView::Reading { .. } => 2,
        LoginStageView::Writing { .. } => 1,
        LoginStageView::Ended => 0,
    }
}

/// What the user is asked for with `--paste`.
pub open spec fn paste_prompt(url: Seq<char>) -> Seq<char> {
    "Open the dashboard, create an API key, and paste it here:\n\n  "@ + url
        + "/  (Settings → API keys)\n\nAPI key (vk_...): "@
}

/// What the user is told before the browser opens.
pub open spec fn opening_notice(url: Seq<char>, page: Seq<char>) -> Seq<char> {
    (if plaintext_remote(url) {
        "Warning: "@ + url
            + " uses plain http on a non-local host; the API key will travel over the network unencrypted.\n"@
    } else {
        Seq::empty()
    }) + "Opening your browser to authorize this machine:\n\n  "@ + page + "\n\n"@
}

/// What the user is told once the browser was tried.
pub open spec fn waiting_notice(opened: bool) -> Seq<char> {
    (if opened {
        Seq::empty()
    } else {
        "Could not open a browser. Open the URL above on this machine,\nor run `vise login --paste` to paste a key from the dashboard.\n"@
    }) + "Waiting for the browser (Ctrl-C to abort)...\n"@
}

/// What is said about a key that is not accepted.
pub open spec fn refusal(error: TokenError) -> Seq<char> {
    match error {
        TokenError::NotAKey => "that does not look like a vise API key (expected vk_...)"@,
        TokenError::Unstorable =>
            "the API key contains characters that cannot be stored in .env"@,
    }
}

/// What is said on success.
pub open spec fn greeting_for(url: Seq<char>, workspace: Option<Seq<char>>) -> Seq<char> {
    "Logged in to "@ + url + match workspace {
        Some(name) => " (workspace: "@ + name + ")\n"@,
        None => "\n"@,
    }
}

/// The login is over, without success.
pub open spec fn failed(answer: Option<Seq<char>>, error: Seq<char>) -> (
    LoginStageView,
    LoginActionView,
) {
    (LoginStageView::Ended, LoginActionView::Fail { answer, error })
}

/// Goes on with a key that came, or fails when it is not accepted; `context`
/// stands before what is said about it.
pub open spec fn with_key(raw: Seq<char>, greeting: Seq<char>, context: Seq<char>) -> (
    LoginStageView,
    LoginActionView,
) {
    match token_in(raw) {
        Ok(token) => (LoginStageView::Reading { token, greeting }, LoginActionView::ReadEnv),
        Err(error) => failed(None, context + refusal(error)),
    }
}

/// What a connection leads to.
pub open spec fn after_request(state: Seq<char>, line: Option<Seq<char>>) -> (
    LoginStageView,
    LoginActionView,
) {
    match line {
        None => (
            LoginStageView::Waiting { state },
            LoginActionView::Listen { answer: None, notice: Seq::empty() },
        ),
        Some(line) => match classified(line, state) {
            CallbackView::Code(code) => (
                LoginStageView::Exchanging,
                LoginActionView::Exchange {
                    reply: response(
                        "200 OK"@,
                        "vise login complete - you can close this tab and return to your terminal."@,
                    ),
                    code,
                },
            ),
            CallbackView::Broken => failed(
                Some(
                    response("400 Bad Request"@, "vise login failed - return to your terminal."@),
                ),
                "receiving the login callback: the login callback carried no code"@,
            ),
            CallbackView::Stray => (
                LoginStageView::Waiting { state },
                LoginActionView::Listen {
                    answer: Some(response("404 Not Found"@, "not found"@)),
                    notice: Seq::empty(),
                },
            ),
        },
    }
}

/// What the answer to the exchange leads to.
pub open spec fn after_exchange(
    url: Seq<char>,
    status: u16,
    status_text: Seq<char>,
    body: Seq<char>,
) -> (LoginStageView, LoginActionView) {
    if 200 <= status < 300 {
        (LoginStageView::Parsing, LoginActionView::Parse { body })
    } else if status == 404 {
        failed(None, no_platform(url, "/platform/cli/exchange"@))
    } else {
        failed(None, "login exchange failed: "@ + status_text + " "@ + body)
    }
}

/// What a step of a login leads to, with `home` the directory of the saved
/// variables.
pub open spec fn login_next(
    url: Seq<char>,
    home: Seq<char>,
    stage: LoginStageView,
    event: LoginEvent,
) -> (LoginStageView, LoginActionView) {
    match (stage, event) {
        (_, LoginEvent::Failed(error)) => failed(None, error@),
        (LoginStageView::Pasting, LoginEvent::Pasted(line)) => with_key(
            line@,
            Seq::empty(),
            Seq::empty(),
        ),
        (LoginStageView::Binding, LoginEvent::Bound { port, state, hostname }) => {
            let page = authorize_address(url, port, state@, optional_text(hostname));
            (
                LoginStageView::Probing { page, state: state@ },
                LoginActionView::Probe { page },
            )
        },
        (LoginStageView::Probing { page, state }, LoginEvent::Probed(status)) => if status
            == 404 {
            failed(None, no_platform(url, "/platform/cli/authorize"@))
        } else {
            (
                LoginStageView::Opening { state },
                LoginActionView::Open { page, notice: opening_notice(url, page) },
            )
        },
        (LoginStageView::Opening { state }, LoginEvent::Opened(opened)) => (
            LoginStageView::Waiting { state },
            LoginActionView::Listen { answer: None, notice: waiting_notice(opened) },
        ),
        (LoginStageView::Waiting { state }, LoginEvent::Request(line)) => after_request(
            state,
            optional_text(line),
        ),
        (LoginStageView::Waiting { .. }, LoginEvent::TimedOut) => failed(
            None,
            "timed out waiting for the browser; run `vise login` again"@,
        ),
        (LoginStageView::Exchanging, LoginEvent::Exchanged { status, status_text, body }) => {
            after_exchange(url, status, status_text@, body@)
        },
        (LoginStageView::Parsing, LoginEvent::Parsed { token, workspace }) => with_key(
            token@,
            greeting_for(url, optional_text(workspace)),
            "the exchange response: "@,
        ),
        (LoginStageView::Reading { token, greeting }, LoginEvent::EnvRead(existing)) => (
            LoginStageView::Writing { token, greeting },
            LoginActionView::Write {
                contents: saved(
                    match existing {
                        Some(text) => text@,
                        None => Seq::empty(),
                    },
                    url,
                    token,
                ),
            },
        ),
        (
            LoginStageView::Writing { token, greeting },
            LoginEvent::Written { exported_url, exported_token },
        ) => (
            LoginStageView::Ended,
            LoginActionView::Done {
                message: greeting + ("Saved VISE_URL and VISE_API_TOKEN to "@ + path_joined(
                    home,
                    ".env"@,
                ) + ".\n"@ + override_warning("VISE_URL"@, exported_url@, url)
                    + override_warning("VISE_API_TOKEN"@, exported_token@, token)),
            },
        ),
        _ => failed(None, Seq::empty()),
    }
}

/// Text, or none.
fn as_text(text: &Option<String>) -> (r: Option<&str>)
    ensures
        match r {
            Some(t) => optional_text(*text) == Some(t@),
            None => optional_text(*text) is None,
        },
{
    match text {
        Some(t) => Some(t.as_str()),
        None => None,
    }
}

fn fail(error: String) -> (r: (LoginStage, LoginAction))
    ensures
        (r.0@, r.1@) == failed(None, error@),
{
    (LoginStage::Ended, LoginAction::Fail { answer: None, error })
}

fn take_key(raw: String, greeting: String, context: &str) -> (r: (LoginStage, LoginAction))
    ensures
        (r.0@, r.1@) == with_key(raw@, greeting@, context@),
{
    match check_token(raw.as_str()) {
        Ok(token) => (
            LoginStage::Reading { token: token.to_owned(), greeting },
            LoginAction::ReadEnv,
        ),
        Err(refused) => {
            let mut error = context.to_owned();
            error.append(refused.message());
            fail(error)
        },
    }
}

fn open_page(url: &str, page: String, state: String) -> (r: (LoginStage, LoginAction))
    ensures
        r.0@ == (LoginStageView::Opening { state: state@ }),
        r.1@ == (LoginActionView::Open { page: page@, notice: opening_notice(url@, page@) }),
{
    let mut notice: String = match plaintext_warning(url) {
        Some(warning) => warning,
        None => String::new(),
    };
    notice.append("Opening your browser to authorize this machine:\n\n  ");
    notice.append(page.as_str());
    notice.append("\n\n");
    (LoginStage::Opening { state }, LoginAction::Open { page, notice })
}

fn wait(state: String, opened: bool) -> (r: (LoginStage, LoginAction))
    ensures
        r.0@ == (LoginStageView::Waiting { state: state@ }),
        r.1@ == (LoginActionView::Listen { answer: None, notice: waiting_notice(opened) }),
{
    broadcast use lemma_concat_empty;

    let mut notice = String::new();
    if !opened {
        notice.append(
            "Could not open a browser. Open the URL above on this machine,\nor run `vise login --paste` to paste a key from the dashboard.\n",
        );
    }
    notice.append("Waiting for the browser (Ctrl-C to abort)...\n");
    (LoginStage::Waiting { state }, LoginAction::Listen { answer: None, notice })
}

fn take_request(state: String, line: Option<String>) -> (r: (LoginStage, LoginAction))
    ensures
        (r.0@, r.1@) == after_request(state@, optional_text(line)),
{
    match serve_callback(as_text(&line), state.as_str()) {
        ListenStep::Ignore => (
            LoginStage::Waiting { state },
            LoginAction::Listen { answer: None, notice: String::new() },
        ),
        ListenStep::Answer(answer) => (
            LoginStage::Waiting { state },
            LoginAction::Listen { answer: Some(answer), notice: String::new() },
        ),
        ListenStep::Done { answer, code } => (
            LoginStage::Exchanging,
            LoginAction::Exchange { reply: answer, code },
        ),
        ListenStep::Fail { answer, .. } => (
            LoginStage::Ended,
            LoginAction::Fail {
                answer: Some(answer),
                error: "receiving the login callback: the login callback carried no code".to_owned(),
            },
        ),
    }
}

impl LoginRun {
    /// Begins a login: with a pasted key, or by the browser.
    pub fn begin(url: &str, paste: bool) -> (r: (LoginRun, LoginAction))
        ensures
            r.0.url@ == without_trailing(url@, '/'),
            (r.0.stage@, r.1@) == if paste {
                (
                    LoginStageView::Pasting,
                    LoginActionView::Paste {
                        prompt: paste_prompt(without_trailing(url@, '/')),
                    },
                )
            } else {
                (LoginStageView::Binding, LoginActionView::Bind)
            },
    {
        let url: String = base_url(url);
        if paste {
            let mut prompt =
                "Open the dashboard, create an API key, and paste it here:\n\n  ".to_owned();
            prompt.append(url.as_str());
            prompt.append("/  (Settings → API keys)\n\nAPI key (vk_...): ");
            (LoginRun { url, stage: LoginStage::Pasting }, LoginAction::Paste { prompt })
        } else {
            (LoginRun { url, stage: LoginStage::Binding }, LoginAction::Bind)
        }
    }

    /// Goes on after an event.
    pub fn step(self, paths: &Paths, event: LoginEvent) -> (r: (LoginRun, LoginAction))
        requires
            login_expects(self.stage@, event),
        ensures
            r.0.url == self.url,
            (r.0.stage@, r.1@) == login_next(self.url@, paths@, self.stage@, event),
    {
        let url: String = self.url;
        let (stage, action): (LoginStage, LoginAction) = match (self.stage, event) {
            (_, LoginEvent::Failed(error)) => fail(error),
            (LoginStage::Pasting, LoginEvent::Pasted(line)) => {
                proof {
                    reveal_strlit("");
                    assert(""@ =~= Seq::<char>::empty());
                }
                take_key(line, String::new(), "")
            },
            (LoginStage::Binding, LoginEvent::Bound { port, state, hostname }) => {
                let page: String = authorize_url(
                    url.as_str(),
                    port,
                    state.as_str(),
                    as_text(&hostname),
                );
                let probed: String = page.clone();
                (LoginStage::Probing { page, state }, LoginAction::Probe { page: probed })
            },
            (LoginStage::Probing { page, state }, LoginEvent::Probed(status)) => {
                match check_platform(url.as_str(), status) {
                    Ok(_) => open_page(url.as_str(), page, state),
                    Err(error) => fail(error),
                }
            },
            (LoginStage::Opening { state }, LoginEvent::Opened(opened)) => wait(state, opened),
            (LoginStage::Waiting { state }, LoginEvent::Request(line)) => take_request(
                state,
                line,
            ),
            (LoginStage::Waiting { .. }, LoginEvent::TimedOut) => fail(
                "timed out waiting for the browser; run `vise login` again".to_owned(),
            ),
            (LoginStage::Exchanging, LoginEvent::Exchanged { status, status_text, body }) => {
                match check_exchange(
                    url.as_str(),
                    status,
                    status_text.as_str(),
                    body.as_str(),
                ) {
                    Ok(_) => (LoginStage::Parsing, LoginAction::Parse { body }),
                    Err(error) => fail(error),
                }
            },
            (LoginStage::Parsing, LoginEvent::Parsed { token, workspace }) => {
                let greeting: String = logged_in(url.as_str(), as_text(&workspace));
                take_key(token, greeting, "the exchange response: ")
            },
            (LoginStage::Reading { token, greeting }, LoginEvent::EnvRead(existing)) => {
                let contents: String = save_credentials(
                    as_text(&existing),
                    url.as_str(),
                    token.as_str(),
                );
                (LoginStage::Writing { token, greeting }, LoginAction::Write { contents })
            },
            (
                LoginStage::Writing { token, greeting },
                LoginEvent::Written { exported_url, exported_token },
            ) => {
                let mut message: String = greeting;
                let report: String = report_saved(
                    paths,
                    url.as_str(),
                    token.as_str(),
                    exported_url.as_str(),
                    exported_token.as_str(),
                );
                message.append(report.as_str());
                (LoginStage::Ended, LoginAction::Done { message })
            },
            _ => fail(String::new()),
        };
        (LoginRun { url, stage }, action)
    }
}

/// A login ends: every event brings it nearer to its end, but for a connection
/// that is not the browser's, after which it waits as before.
pub proof fn logins_end(url: Seq<char>, home: Seq<char>, stage: LoginStageView, event: LoginEvent)
    requires
        login_expects(stage, event),
    ensures
        ({
            let after = login_next(url, home, stage, event).0;
            0 <= login_rank(after) < login_rank(stage) || (stage is Waiting && after == stage)
        }),
{
}

/// Only the browser that was sent to the server delivers a code: a code is
/// exchanged exactly when a request for the callback carries it together with
/// the state.
pub proof fn codes_need_the_state(
    url: Seq<char>,
    home: Seq<char>,
    stage: LoginStageView,
    event: LoginEvent,
)
    requires
        login_expects(stage, event),
    ensures
        login_next(url, home, stage, event).1 matches LoginActionView::Exchange { code, .. } ==> (
        stage matches LoginStageView::Waiting { state } && event matches LoginEvent::Request(
            Some(line),
        ) && classified(line@, state) == CallbackView::Code(code)),
        (stage matches LoginStageView::Waiting { state } && event matches LoginEvent::Request(
            Some(line),
        ) && classified(line@, state) is Code) ==> login_next(url, home, stage, event).1
            is Exchange,
{
}

/// Nothing but an accepted key is saved, and it is saved with the server's
/// address: a key that is not one, pasted or exchanged, ends the login before
/// the saved variables are even read.
pub proof fn only_accepted_keys_are_saved(
    url: Seq<char>,
    home: Seq<char>,
    stage: LoginStageView,
    event: LoginEvent,
)
    requires
        login_expects(stage, event),
    ensures
        login_next(url, home, stage, event).0 matches LoginStageView::Reading { token, .. } ==> ((
        event matches LoginEvent::Pasted(raw) && token_in(raw@) == Ok::<Seq<char>, TokenError>(
            token,
        )) || (event matches LoginEvent::Parsed { token: raw, .. } && token_in(raw@) == Ok::<
            Seq<char>,
            TokenError,
        >(token))),
        login_next(url, home, stage, event).1 matches LoginActionView::Write { contents } ==> (
        stage matches LoginStageView::Reading { token, .. } && event matches LoginEvent::EnvRead(
            existing,
        ) && contents == saved(
            match existing {
                Some(text) => text@,
                None => Seq::empty(),
            },
            url,
            token,
        )),
{
}

/// A server without the browser login fails the login before a browser opens:
/// one opens exactly when the server knows the page.
pub proof fn browsers_open_on_known_pages(
    url: Seq<char>,
    home: Seq<char>,
    stage: LoginStageView,
    event: LoginEvent,
)
    requires
        login_expects(stage, event),
    ensures
        login_next(url, home, stage, event).1 is Open <==> stage is Probing && (
        event matches LoginEvent::Probed(status) && status != 404),
{
}

// --- what callers see -----------------------------------------------------------

/// A login begins with the server's address without the slashes at its end,
/// and asks for a pasted key or for a port.
pub proof fn logins_begin_as_asked(url: &str, paste: bool, base: String, r: (LoginRun, LoginAction))
    requires
        call_ensures(base_url, (url,), base),
        call_ensures(LoginRun::begin, (url, paste), r),
    ensures
        r.0.url@ == base@,
        paste ==> r.0.stage is Pasting && (r.1 matches LoginAction::Paste { prompt } && prompt@
            == "Open the dashboard, create an API key, and paste it here:\n\n  "@ + base@
            + "/  (Settings → API keys)\n\nAPI key (vk_...): "@),
        !paste ==> r.0.stage is Binding && r.1 is Bind,
{
}

/// A step that failed ends the login with its error, whichever it was, and so
/// does a browser that never comes.
pub proof fn failed_steps_end_the_login(
    run: LoginRun,
    paths: &Paths,
    event: LoginEvent,
    r: (LoginRun, LoginAction),
)
    requires
        call_ensures(LoginRun::step, (run, paths, event), r),
        login_expects(run.stage@, event),
    ensures
        r.0.url == run.url,
        event matches LoginEvent::Failed(error) ==> r.0.stage is Ended && (r.1
            matches LoginAction::Fail { answer, error: e } && answer is None && e@ == error@),
        event is TimedOut ==> r.0.stage is Ended && (r.1 matches LoginAction::Fail { answer, error }
            && answer is None && error@
            == "timed out waiting for the browser; run `vise login` again"@),
{
}

/// With a port and a state the login asks the server for its page, and opens
/// the browser there, with a warning when the key would travel unencrypted,
/// once the server knows it.
pub proof fn logins_probe_before_they_open(
    run: LoginRun,
    paths: &Paths,
    url: &str,
    port: u16,
    state: String,
    state_text: &str,
    hostname: Option<String>,
    name: Option<&str>,
    address: String,
    probing: (LoginRun, LoginAction),
    status: u16,
    judged: Result<(), String>,
    warning: Option<String>,
    opening: (LoginRun, LoginAction),
)
    requires
        run.stage is Binding,
        url@ == run.url@,
        state_text@ == state@,
        name is Some <==> hostname is Some,
        name matches Some(n) ==> n@ == hostname->0@,
        call_ensures(authorize_url, (url, port, state_text, name), address),
        call_ensures(
            LoginRun::step,
            (run, paths, LoginEvent::Bound { port, state, hostname }),
            probing,
        ),
        call_ensures(check_platform, (url, status), judged),
        call_ensures(plaintext_warning, (url,), warning),
        call_ensures(LoginRun::step, (probing.0, paths, LoginEvent::Probed(status)), opening),
    ensures
        probing.1 matches LoginAction::Probe { page } && page@ == address@,
        judged is Ok ==> (opening.1 matches LoginAction::Open { page, notice } && page@ == address@
            && notice@ == (match warning {
            Some(w) => w@,
            None => Seq::empty(),
        }) + "Opening your browser to authorize this machine:\n\n  "@ + address@ + "\n\n"@),
        judged is Ok ==> (opening.0.stage matches LoginStage::Opening { state: s } && s@ == state@),
        judged matches Err(e) ==> opening.0.stage is Ended && (opening.1 matches LoginAction::Fail {
            answer,
            error,
        } && answer is None && error@ == e@),
{
}

/// Once the browser was tried the login waits for it, under the same state,
/// and says so; when none opened it also says what to do.
pub proof fn logins_wait_for_the_browser(
    run: LoginRun,
    paths: &Paths,
    opened: bool,
    r: (LoginRun, LoginAction),
)
    requires
        run.stage is Opening,
        call_ensures(LoginRun::step, (run, paths, LoginEvent::Opened(opened)), r),
    ensures
        run.stage matches LoginStage::Opening { state } && (r.0.stage matches LoginStage::Waiting {
            state: s,
        } && s@ == state@),
        r.1 matches LoginAction::Listen { answer, notice } && answer is None && notice@ == (
        if opened {
            "Waiting for the browser (Ctrl-C to abort)...\n"@
        } else {
            "Could not open a browser. Open the URL above on this machine,\nor run `vise login --paste` to paste a key from the dashboard.\n"@
                + "Waiting for the browser (Ctrl-C to abort)...\n"@
        }),
{
    lemma_empty_first("Waiting for the browser (Ctrl-C to abort)...\n"@);
}

proof fn lemma_empty_first(s: Seq<char>)
    ensures
        Seq::<char>::empty() + s == s,
{
    assert(Seq::<char>::empty() + s =~= s);
}

/// A connection is served as the listener says: its code is exchanged, a
/// broken redirect fails the login, and after anything else the login waits on
/// under the same state.
pub proof fn connections_are_served(
    run: LoginRun,
    paths: &Paths,
    line: Option<String>,
    line_text: Option<&str>,
    state_text: &str,
    served: ListenStep,
    r: (LoginRun, LoginAction),
)
    requires
        run.stage matches LoginStage::Waiting { state } && state@ == state_text@,
        line_text is Some <==> line is Some,
        line_text matches Some(t) ==> t@ == line->0@,
        call_ensures(serve_callback, (line_text, state_text), served),
        call_ensures(LoginRun::step, (run, paths, LoginEvent::Request(line)), r),
    ensures
        match served {
            ListenStep::Done { answer, code } => r.0.stage is Exchanging && (r.1
                matches LoginAction::Exchange { reply, code: c } && reply@ == answer@ && c@
                == code@),
            ListenStep::Fail { answer, error } => r.0.stage is Ended && (r.1
                matches LoginAction::Fail { answer: a, error: e } && (a matches Some(t) && t@
                == answer@) && e@ == "receiving the login callback: the login callback carried no code"@),
            ListenStep::Answer(answer) => (r.0.stage matches LoginStage::Waiting { state } && state@
                == state_text@) && (r.1 matches LoginAction::Listen { answer: a, notice } && (a
                matches Some(t) && t@ == answer@) && notice@.len() == 0),
            ListenStep::Ignore => (r.0.stage matches LoginStage::Waiting { state } && state@
                == state_text@) && (r.1 matches LoginAction::Listen { answer: a, notice } && a
                is None && notice@.len() == 0),
        },
{
}

/// The answer to the exchange is read when the server gave one, and fails the
/// login with what is said of it otherwise.
pub proof fn exchanges_are_judged(
    run: LoginRun,
    paths: &Paths,
    url: &str,
    status: u16,
    status_text: String,
    text: &str,
    body: String,
    body_text: &str,
    judged: Result<(), String>,
    r: (LoginRun, LoginAction),
)
    requires
        run.stage is Exchanging,
        url@ == run.url@,
        text@ == status_text@,
        body_text@ == body@,
        call_ensures(check_exchange, (url, status, text, body_text), judged),
        call_ensures(
            LoginRun::step,
            (run, paths, LoginEvent::Exchanged { status, status_text, body }),
            r,
        ),
    ensures
        judged is Ok ==> r.0.stage is Parsing && (r.1 matches LoginAction::Parse { body: b } && b@
            == body@),
        judged matches Err(e) ==> r.0.stage is Ended && (r.1 matches LoginAction::Fail {
            answer,
            error,
        } && answer is None && error@ == e@),
{
}

/// A key that came, pasted or exchanged, is gone on with as it was accepted,
/// and fails the login with what is said of it when it was not.
pub proof fn keys_are_checked_before_they_are_saved(
    pasting: LoginRun,
    parsing: LoginRun,
    paths: &Paths,
    url: &str,
    raw: String,
    raw_text: &str,
    checked: Result<&str, TokenError>,
    error: TokenError,
    refusal_text: &'static str,
    workspace: Option<String>,
    workspace_text: Option<&str>,
    hello: String,
    pasted: (LoginRun, LoginAction),
    parsed: (LoginRun, LoginAction),
)
    requires
        pasting.stage is Pasting,
        parsing.stage is Parsing,
        url@ == parsing.url@,
        raw_text@ == raw@,
        call_ensures(check_token, (raw_text,), checked),
        checked matches Err(e) ==> e == error,
        call_ensures(TokenError::message, (&error,), refusal_text),
        workspace_text is Some <==> workspace is Some,
        workspace_text matches Some(w) ==> w@ == workspace->0@,
        call_ensures(logged_in, (url, workspace_text), hello),
        call_ensures(LoginRun::step, (pasting, paths, LoginEvent::Pasted(raw)), pasted),
        call_ensures(
            LoginRun::step,
            (parsing, paths, LoginEvent::Parsed { token: raw, workspace }),
            parsed,
        ),
    ensures
        checked matches Ok(key) ==> pasted.1 is ReadEnv && parsed.1 is ReadEnv && (pasted.0.stage
            matches LoginStage::Reading { token, greeting } && token@ == key@ && greeting@.len()
            == 0) && (parsed.0.stage matches LoginStage::Reading { token, greeting } && token@
            == key@ && greeting@ == hello@),
        checked is Err ==> pasted.0.stage is Ended && parsed.0.stage is Ended && (pasted.1
            matches LoginAction::Fail { answer, error: e } && answer is None && e@
            == refusal_text@) && (parsed.1 matches LoginAction::Fail { answer, error: e } && answer
            is None && e@ == "the exchange response: "@ + refusal_text@),
{
    lemma_empty_first(refusal_text@);
}

/// The accepted key is saved with the server's address into what was there,
/// and the login ends with its greeting and the report of where it went.
pub proof fn logins_end_with_the_key_saved(
    reading: LoginRun,
    paths: &Paths,
    url: &str,
    existing: Option<String>,
    existing_text: Option<&str>,
    token_text: &str,
    contents: String,
    writing: (LoginRun, LoginAction),
    exported_url: String,
    exported_token: String,
    url_set: &str,
    token_set: &str,
    report: String,
    ended: (LoginRun, LoginAction),
)
    requires
        reading.stage matches LoginStage::Reading { token, .. } && token@ == token_text@,
        url@ == reading.url@,
        existing_text is Some <==> existing is Some,
        existing_text matches Some(t) ==> t@ == existing->0@,
        call_ensures(save_credentials, (existing_text, url, token_text), contents),
        call_ensures(LoginRun::step, (reading, paths, LoginEvent::EnvRead(existing)), writing),
        url_set@ == exported_url@,
        token_set@ == exported_token@,
        call_ensures(report_saved, (paths, url, token_text, url_set, token_set), report),
        call_ensures(
            LoginRun::step,
            (writing.0, paths, LoginEvent::Written { exported_url, exported_token }),
            ended,
        ),
    ensures
        writing.1 matches LoginAction::Write { contents: c } && c@ == contents@,
        ended.0.stage is Ended,
        reading.stage matches LoginStage::Reading { greeting, .. } && (ended.1
            matches LoginAction::Done { message } && message@ == greeting@ + report@),
{
}

} // verus!
