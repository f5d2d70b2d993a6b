//! Getting a local LM Studio server and model ready.
//!
//! Only loopback HTTP endpoints are managed: a remote or HTTPS address is rejected, so enabling
//! auto-start can never alter another host.

use vstd::prelude::*;
use vstd::string::*;

use crate::text::{
    decimal, decimal_of, decimals_read_back, lists, number_in, opt_view, same_text, signed_decimal,
    signed_decimal_of, signed_decimals_read_back, trim, trim_end_of, trimmed, views, without_trailing,
};

verus! {

/// How long a started server may take to answer, in seconds.
pub const SERVER_START_TIMEOUT: u64 = 20;

/// How long a loaded model may take to be listed, in seconds.
pub const MODEL_READY_TIMEOUT: u64 = 30;

/// Nanoseconds in a second.
pub const SECOND: u64 = 1_000_000_000;

/// What to start, and where it is expected.
pub struct AutoStartConfig {
    pub base_url: String,
    pub api_model: String,
    pub local_model: String,
    pub context_length: Option<u32>,
}

// ── The address ──────────────────────────────────────────────────────────────

/// The parts of an address that decide whether it is local.
pub struct UrlParts {
    pub scheme: String,
    pub host: Option<String>,
    pub path: String,
    pub query: Option<String>,
    pub fragment: Option<String>,
    /// The port, or the scheme's usual one.
    pub port: Option<u16>,
}

/// What the parts of an address hold: scheme, host, path, query, fragment and port.
pub open spec fn parts_view(p: UrlParts) -> (
    Seq<char>,
    Option<Seq<char>>,
    Seq<char>,
    Option<Seq<char>>,
    Option<Seq<char>>,
    Option<u16>,
) {
    (p.scheme@, opt_view(p.host), p.path@, opt_view(p.query), opt_view(p.fragment), p.port)
}

/// What `Url::parse` makes of a text: `None` where it is no URL, else its scheme, host, path,
/// query, fragment and port.
pub uninterp spec fn parsed_url(text: Seq<char>) -> Option<
    (
        Seq<char>,
        Option<Seq<char>>,
        Seq<char>,
        Option<Seq<char>>,
        Option<Seq<char>>,
        Option<u16>,
    ),
>;

/// Parses an address with `reqwest::Url::parse`, the URL parser of the WHATWG standard, and reads
/// off its parts. Trusted: the outcome depends on the text alone. Which texts parse, and into
/// what, is left to the parser.
#[verifier::external_body]
fn parse_url(text: &str) -> (r: Option<UrlParts>)
    ensures
        match r {
            Some(p) => parsed_url(text@) == Some(parts_view(p)),
            None => parsed_url(text@) is None,
        },
{
    let url = reqwest::Url::parse(text).ok()?;
    Some(UrlParts {
        scheme: url.scheme().to_string(),
        host: url.host_str().map(str::to_string),
        path: url.path().to_string(),
        query: url.query().map(str::to_string),
        fragment: url.fragment().map(str::to_string),
        port: url.port_or_known_default(),
    })
}

/// The names of this machine.
pub open spec fn is_loopback(host: Seq<char>) -> bool {
    host == "localhost"@ || host == "127.0.0.1"@ || host == "::1"@ || host == "[::1]"@
}

/// Whether an address names a plain HTTP server on this machine and nothing below it.
pub open spec fn is_local_root(
    parts: (
        Seq<char>,
        Option<Seq<char>>,
        Seq<char>,
        Option<Seq<char>>,
        Option<Seq<char>>,
        Option<u16>,
    ),
) -> bool {
    &&& parts.0 == "http"@
    &&& parts.1 matches Some(host) && is_loopback(host)
    &&& parts.2 == "/"@ || parts.2.len() == 0
    &&& parts.3 is None
    &&& parts.4 is None
}

/// The port to manage, for an address that may be managed.
pub open spec fn managed_port(
    parts: Option<
        (
            Seq<char>,
            Option<Seq<char>>,
            Seq<char>,
            Option<Seq<char>>,
            Option<Seq<char>>,
            Option<u16>,
        ),
    >,
) -> Option<u16> {
    match parts {
        Some(p) => if is_local_root(p) {
            p.5
        } else {
            None
        },
        None => None,
    }
}

/// The port to manage, given the parts of the address.
pub fn port_of_parts(parts: &UrlParts) -> (r: Option<u16>)
    ensures
        r == managed_port(Some(parts_view(*parts))),
{
    let local = match &parts.host {
        Some(host) => {
            let h = host.as_str();
            same_text(h, "localhost") || same_text(h, "127.0.0.1") || same_text(h, "::1")
                || same_text(h, "[::1]")
        },
        None => false,
    };
    let root = same_text(parts.path.as_str(), "/") || same_text(parts.path.as_str(), "");
    proof {
        reveal_strlit("");
        assert(parts.path@.len() == 0 ==> parts.path@ == ""@);
    }
    if same_text(parts.scheme.as_str(), "http") && local && root && parts.query.is_none()
        && parts.fragment.is_none() {
        parts.port
    } else {
        None
    }
}

/// The port of a local server that may be managed.
pub fn local_server_port(base_url: &str) -> (r: Option<u16>)
    ensures
        r == managed_port(parsed_url(base_url@)),
{
    match parse_url(base_url) {
        Some(parts) => port_of_parts(&parts),
        None => None,
    }
}

/// The address a server lists its models at.
pub open spec fn models_address(base_url: Seq<char>) -> Seq<char> {
    trim_end_of(base_url, '/') + "/v1/models"@
}

/// The address a server lists its models at.
pub fn models_url(base_url: &str) -> (r: String)
    ensures
        r@ == models_address(base_url@),
{
    let mut url = without_trailing(base_url, '/');
    url.append("/v1/models");
    url
}

/// Whether one of the listed models bears the identifier.
pub fn has_model(ids: &Vec<String>, identifier: &str) -> (r: bool)
    ensures
        r == views(ids@).contains(identifier@),
{
    lists(ids, identifier)
}

// ── The steps ────────────────────────────────────────────────────────────────

/// What a server says of itself.
pub struct ServerStatus {
    pub running: bool,
    pub port: Option<u16>,
}

/// What to do next on the way to a ready model.
pub enum LmStep {
    /// Ask whether the model is listed already.
    ProbeModel,
    /// Run the command that starts the daemon.
    StartDaemon,
    /// Run the command that prints the server's status.
    QueryServer,
    /// Run the command that starts the server.
    StartServer,
    /// Poll until the server answers.
    AwaitServer,
    /// Ask again whether the model is listed.
    ProbeAgain,
    /// Run the command that loads the model.
    LoadModel,
    /// Poll until the model is listed.
    AwaitModel,
    /// Nothing is left to do.
    Ready,
    /// Give up, with this message.
    Failed(String),
}

/// The texts of an [`LmStep`].
#[verifier::ext_equal]
pub enum LmStepView {
    ProbeModel,
    StartDaemon,
    QueryServer,
    StartServer,
    AwaitServer,
    ProbeAgain,
    LoadModel,
    AwaitModel,
    Ready,
    Failed(Seq<char>),
}

impl View for LmStep {
    type V = LmStepView;

    open spec fn view(&self) -> LmStepView {
        match self {
            LmStep::ProbeModel => LmStepView::ProbeModel,
            LmStep::StartDaemon => LmStepView::StartDaemon,
            LmStep::QueryServer => LmStepView::QueryServer,
            LmStep::StartServer => LmStepView::StartServer,
            LmStep::AwaitServer => LmStepView::AwaitServer,
            LmStep::ProbeAgain => LmStepView::ProbeAgain,
            LmStep::LoadModel => LmStepView::LoadModel,
            LmStep::AwaitModel => LmStepView::AwaitModel,
            LmStep::Ready => LmStepView::Ready,
            LmStep::Failed(m) => LmStepView::Failed(m@),
        }
    }
}

/// What a step led to.
pub enum LmEvent {
    /// Whether the model is listed.
    Listed(bool),
    /// A command ran, or failed with this message.
    Ran(Option<String>),
    /// The status command's answer.
    Answered(ServerStatus),
    /// The status command's answer made no sense, for this reason.
    Garbled(String),
    /// Polling ended, with what was waited for or without.
    Waited(bool),
}

/// Whether an event can come of a step.
pub open spec fn answers(step: LmStepView, event: LmEvent) -> bool {
    match step {
        LmStepView::ProbeModel | LmStepView::ProbeAgain => event is Listed,
        LmStepView::StartDaemon | LmStepView::StartServer | LmStepView::LoadModel => event is Ran,
        LmStepView::QueryServer => {
            ||| event matches LmEvent::Ran(Some(_))
            ||| event is Answered
            ||| event is Garbled
        },
        LmStepView::AwaitServer | LmStepView::AwaitModel => event is Waited,
        LmStepView::Ready | LmStepView::Failed(_) => false,
    }
}

/// A failure's message: what was attempted, then the reason.
pub open spec fn because(attempt: Seq<char>, reason: Seq<char>) -> Seq<char> {
    attempt + ": "@ + reason
}

fn explained(attempt: String, reason: &str) -> (r: String)
    ensures
        r@ == because(attempt@, reason@),
{
    let mut m = attempt;
    m.append(": ");
    m.append(reason);
    m
}

/// What polling in vain is answered.
pub open spec fn timed_out(seconds: u64) -> Seq<char> {
    "timed out after "@ + decimal(seconds as nat) + " seconds"@
}

fn timeout_text(seconds: u64) -> (r: String)
    ensures
        r@ == timed_out(seconds),
{
    let mut m = "timed out after ".to_owned();
    m.append(decimal_of(seconds).as_str());
    m.append(" seconds");
    m
}

/// The message on a server that runs on another port.
pub open spec fn wrong_port(actual: Option<u16>, wanted: u16) -> Seq<char> {
    "LM Studio server is already running on port "@ + (match actual {
        Some(p) => decimal(p as nat),
        None => "unknown"@,
    }) + ", but lm_url uses port "@ + decimal(wanted as nat)
}

fn wrong_port_text(actual: Option<u16>, wanted: u16) -> (r: String)
    ensures
        r@ == wrong_port(actual, wanted),
{
    let mut m = "LM Studio server is already running on port ".to_owned();
    match actual {
        Some(p) => {
            m.append(decimal_of(p as u64).as_str());
        },
        None => {
            m.append("unknown");
        },
    }
    m.append(", but lm_url uses port ");
    m.append(decimal_of(wanted as u64).as_str());
    m
}

/// The step after a command: the next one, or failure with the command's reason.
pub open spec fn after_run(
    failure: Option<String>,
    attempt: Seq<char>,
    next: LmStepView,
) -> LmStepView {
    match failure {
        Some(reason) => LmStepView::Failed(because(attempt, reason@)),
        None => next,
    }
}

/// The step that follows on an event.
pub open spec fn step_after(
    cfg: AutoStartConfig,
    port: u16,
    step: LmStepView,
    event: LmEvent,
) -> LmStepView {
    match (step, event) {
        (LmStepView::ProbeModel, LmEvent::Listed(listed)) => if listed {
            LmStepView::Ready
        } else {
            LmStepView::StartDaemon
        },
        (LmStepView::StartDaemon, LmEvent::Ran(failure)) => after_run(
            failure,
            "Failed to start the LM Studio headless daemon"@,
            LmStepView::QueryServer,
        ),
        (LmStepView::QueryServer, LmEvent::Ran(Some(reason))) => LmStepView::Failed(
            because("Failed to query the LM Studio server"@, reason@),
        ),
        (LmStepView::QueryServer, LmEvent::Garbled(reason)) => LmStepView::Failed(
            because("LM Studio returned an invalid server status"@, reason@),
        ),
        (LmStepView::QueryServer, LmEvent::Answered(status)) => if !status.running {
            LmStepView::StartServer
        } else if status.port == Some(port) {
            LmStepView::AwaitServer
        } else {
            LmStepView::Failed(wrong_port(status.port, port))
        },
        (LmStepView::StartServer, LmEvent::Ran(failure)) => after_run(
            failure,
            "Failed to start the LM Studio server on port "@ + decimal(port as nat),
            LmStepView::AwaitServer,
        ),
        (LmStepView::AwaitServer, LmEvent::Waited(came)) => if came {
            LmStepView::ProbeAgain
        } else {
            LmStepView::Failed(
                because(
                    "LM Studio server did not become reachable"@,
                    timed_out(SERVER_START_TIMEOUT),
                ),
            )
        },
        (LmStepView::ProbeAgain, LmEvent::Listed(listed)) => if listed {
            LmStepView::AwaitModel
        } else {
            LmStepView::LoadModel
        },
        (LmStepView::LoadModel, LmEvent::Ran(failure)) => after_run(
            failure,
            "Failed to load LM Studio model "@ + cfg.local_model@,
            LmStepView::AwaitModel,
        ),
        (LmStepView::AwaitModel, LmEvent::Waited(came)) => if came {
            LmStepView::Ready
        } else {
            LmStepView::Failed(
                because(
                    "LM Studio model "@ + cfg.api_model@ + " did not become ready"@,
                    timed_out(MODEL_READY_TIMEOUT),
                ),
            )
        },
        _ => step,
    }
}

/// The message on an address that must not be managed.
pub open spec fn not_local(base_url: Seq<char>) -> Seq<char> {
    "LM Studio auto-start only supports a loopback HTTP URL without a path: "@ + base_url
}

/// A server and model on their way to readiness.
pub struct LmSession {
    pub port: u16,
    pub step: LmStep,
}

/// Begin to make the configured local server and model ready. An address that is not a loopback
/// HTTP server is refused before anything is touched.
pub fn ensure_ready(cfg: &AutoStartConfig) -> (r: Result<LmSession, String>)
    ensures
        match (r, managed_port(parsed_url(cfg.base_url@))) {
            (Ok(session), Some(port)) => session.port == port && session.step is ProbeModel,
            (Err(message), None) => message@ == not_local(cfg.base_url@),
            _ => false,
        },
{
    match local_server_port(cfg.base_url.as_str()) {
        Some(port) => Ok(LmSession { port, step: LmStep::ProbeModel }),
        None => {
            let mut m = "LM Studio auto-start only supports a loopback HTTP URL without a path: ".to_owned();
            m.append(cfg.base_url.as_str());
            Err(m)
        },
    }
}

impl LmSession {
    /// Take the step that follows on an event.
    pub fn advance(&mut self, cfg: &AutoStartConfig, event: LmEvent)
        requires
            answers(old(self).step@, event),
        ensures
            final(self).port == old(self).port,
            final(self).step@ == step_after(*cfg, old(self).port, old(self).step@, event),
    {
        let port: u16 = self.port;
        let next = match (&self.step, event) {
            (LmStep::ProbeModel, LmEvent::Listed(listed)) => if listed {
                LmStep::Ready
            } else {
                LmStep::StartDaemon
            },
            (LmStep::StartDaemon, LmEvent::Ran(failure)) => match failure {
                Some(reason) => LmStep::Failed(
                    explained(
                        "Failed to start the LM Studio headless daemon".to_owned(),
                        reason.as_str(),
                    ),
                ),
                None => LmStep::QueryServer,
            },
            (LmStep::QueryServer, LmEvent::Ran(Some(reason))) => LmStep::Failed(
                explained("Failed to query the LM Studio server".to_owned(), reason.as_str()),
            ),
            (LmStep::QueryServer, LmEvent::Garbled(reason)) => LmStep::Failed(
                explained("LM Studio returned an invalid server status".to_owned(), reason.as_str()),
            ),
            (LmStep::QueryServer, LmEvent::Answered(status)) => if !status.running {
                LmStep::StartServer
            } else {
                let same = match status.port {
                    Some(p) => p == port,
                    None => false,
                };
                if same {
                    LmStep::AwaitServer
                } else {
                    LmStep::Failed(wrong_port_text(status.port, port))
                }
            },
            (LmStep::StartServer, LmEvent::Ran(failure)) => match failure {
                Some(reason) => {
                    let mut m = "Failed to start the LM Studio server on port ".to_owned();
                    m.append(decimal_of(port as u64).as_str());
                    LmStep::Failed(explained(m, reason.as_str()))
                },
                None => LmStep::AwaitServer,
            },
            (LmStep::AwaitServer, LmEvent::Waited(came)) => if came {
                LmStep::ProbeAgain
            } else {
                LmStep::Failed(
                    explained(
                        "LM Studio server did not become reachable".to_owned(),
                        timeout_text(SERVER_START_TIMEOUT).as_str(),
                    ),
                )
            },
            (LmStep::ProbeAgain, LmEvent::Listed(listed)) => if listed {
                LmStep::AwaitModel
            } else {
                LmStep::LoadModel
            },
            (LmStep::LoadModel, LmEvent::Ran(failure)) => match failure {
                Some(reason) => {
                    let mut m = "Failed to load LM Studio model ".to_owned();
                    m.append(cfg.local_model.as_str());
                    LmStep::Failed(explained(m, reason.as_str()))
                },
                None => LmStep::AwaitModel,
            },
            (LmStep::AwaitModel, LmEvent::Waited(came)) => if came {
                LmStep::Ready
            } else {
                let mut m = "LM Studio model ".to_owned();
                m.append(cfg.api_model.as_str());
                m.append(" did not become ready");
                LmStep::Failed(explained(m, timeout_text(MODEL_READY_TIMEOUT).as_str()))
            },
            _ => {
                return;
            },
        };
        self.step = next;
    }
}

/// The command of a step that runs one.
pub open spec fn command(cfg: AutoStartConfig, port: u16, step: LmStepView) -> Option<
    Seq<Seq<char>>,
> {
    match step {
        LmStepView::StartDaemon => Some(seq!["daemon"@, "up"@, "--json"@]),
        LmStepView::QueryServer => Some(seq!["server"@, "status"@, "--json"@]),
        LmStepView::StartServer => Some(
            seq!["server"@, "start"@, "--port"@, decimal(port as nat)],
        ),
        LmStepView::LoadModel => Some(
            seq!["load"@, cfg.local_model@, "--identifier"@, cfg.api_model@, "--yes"@] + (
            match cfg.context_length {
                Some(n) => seq!["--context-length"@, decimal(n as nat)],
                None => seq![],
            }),
        ),
        _ => None,
    }
}

/// The arguments to hand to the `lms` program at a step, where the step runs it.
pub fn command_args(cfg: &AutoStartConfig, session: &LmSession) -> (r: Option<Vec<String>>)
    ensures
        match r {
            Some(args) => command(*cfg, session.port, session.step@) == Some(views(args@)),
            None => command(*cfg, session.port, session.step@) is None,
        },
{
    let mut args: Vec<String> = Vec::new();
    let ghost wanted = command(*cfg, session.port, session.step@);
    match &session.step {
        LmStep::StartDaemon => {
            args.push("daemon".to_owned());
            args.push("up".to_owned());
            args.push("--json".to_owned());
        },
        LmStep::QueryServer => {
            args.push("server".to_owned());
            args.push("status".to_owned());
            args.push("--json".to_owned());
        },
        LmStep::StartServer => {
            args.push("server".to_owned());
            args.push("start".to_owned());
            args.push("--port".to_owned());
            args.push(decimal_of(session.port as u64));
        },
        LmStep::LoadModel => {
            args.push("load".to_owned());
            args.push(cfg.local_model.clone());
            args.push("--identifier".to_owned());
            args.push(cfg.api_model.clone());
            args.push("--yes".to_owned());
            if let Some(n) = cfg.context_length {
                args.push("--context-length".to_owned());
                args.push(decimal_of(n as u64));
            }
        },
        _ => {
            return None;
        },
    }
    proof {
        assert(views(args@) =~= wanted->0);
    }
    Some(args)
}

/// How far along a step is.
pub open spec fn progress(step: LmStepView) -> int {
    match step {
        LmStepView::ProbeModel => 0,
        LmStepView::StartDaemon => 1,
        LmStepView::QueryServer => 2,
        LmStepView::StartServer => 3,
        LmStepView::AwaitServer => 4,
        LmStepView::ProbeAgain => 5,
        LmStepView::LoadModel => 6,
        LmStepView::AwaitModel => 7,
        LmStepView::Ready | LmStepView::Failed(_) => 8,
    }
}

/// Every event leads on: no step comes twice, so after at most eight the matter is settled.
pub proof fn every_event_leads_on(
    cfg: AutoStartConfig,
    port: u16,
    step: LmStepView,
    event: LmEvent,
)
    requires
        answers(step, event),
    ensures
        progress(step) < progress(step_after(cfg, port, step, event)) <= 8,
{
}

/// Readiness is only ever reported after the model was seen in the list.
pub proof fn ready_means_listed(cfg: AutoStartConfig, port: u16, step: LmStepView, event: LmEvent)
    requires
        answers(step, event),
        step_after(cfg, port, step, event) is Ready,
    ensures
        event == LmEvent::Listed(true) || (step is AwaitModel && event == LmEvent::Waited(true)),
{
}

/// A model that is listed at the first look is left alone: no command is ever run.
pub proof fn a_ready_model_is_left_alone(cfg: AutoStartConfig, port: u16)
    ensures
        command(cfg, port, LmStepView::ProbeModel) is None,
        command(
            cfg,
            port,
            step_after(cfg, port, LmStepView::ProbeModel, LmEvent::Listed(true)),
        ) is None,
        step_after(cfg, port, LmStepView::ProbeModel, LmEvent::Listed(true)) is Ready,
{
}

/// Only plain HTTP servers on this machine are managed: an address with another scheme, a host
/// that is not one of this machine's names, a path, a query or a fragment has no managed port.
pub proof fn only_loopback_is_managed(
    parts: (
        Seq<char>,
        Option<Seq<char>>,
        Seq<char>,
        Option<Seq<char>>,
        Option<Seq<char>>,
        Option<u16>,
    ),
)
    requires
        parts.0 != "http"@ || parts.1 is None || !is_loopback(parts.1->0) || (parts.2 != "/"@
            && parts.2.len() != 0) || parts.3 is Some || parts.4 is Some,
    ensures
        managed_port(Some(parts)) is None,
{
}

// ── Polling and running ──────────────────────────────────────────────────────

/// What to do after a look at what is waited for.
#[derive(Clone, Copy, Debug, PartialEq, Eq, Structural)]
pub enum WaitStep {
    Come,
    TimedOut,
    Sleep,
}

/// How long to sleep between two looks, in nanoseconds.
pub const POLL_INTERVAL: u64 = 250_000_000;

/// What to do after a look: stop when it has come, give up when the time is over, else sleep.
pub fn wait_until(come: bool, elapsed: u64, timeout: u64) -> (r: WaitStep)
    ensures
        r == (if come {
            WaitStep::Come
        } else if elapsed >= timeout {
            WaitStep::TimedOut
        } else {
            WaitStep::Sleep
        }),
{
    if come {
        WaitStep::Come
    } else if elapsed >= timeout {
        WaitStep::TimedOut
    } else {
        WaitStep::Sleep
    }
}

/// The program to run: on Windows the one in the user's profile where it is installed there,
/// else whatever the search path finds.
pub fn find_lms_executable(windows: bool, installed: Option<String>) -> (r: String)
    ensures
        r@ == (if !windows {
            "lms"@
        } else {
            match installed {
                Some(path) => path@,
                None => "lms.exe"@,
            }
        }),
{
    if !windows {
        return "lms".to_owned();
    }
    match installed {
        Some(path) => path,
        None => "lms.exe".to_owned(),
    }
}

/// The message on a program that could not be run.
pub fn cannot_run(executable: &str) -> (r: String)
    ensures
        r@ == "Could not run "@ + executable@
            + "; install LM Studio and launch it once so the lms CLI is available"@,
{
    let mut m = "Could not run ".to_owned();
    m.append(executable);
    m.append("; install LM Studio and launch it once so the lms CLI is available");
    m
}

/// The message on a program that ran and failed: its exit code, then what it wrote to its error
/// output or, where that is blank, to its output.
pub open spec fn run_failure(
    executable: Seq<char>,
    code: Option<i32>,
    stdout: Seq<char>,
    stderr: Seq<char>,
) -> Seq<char> {
    executable + " failed (exit "@ + (match code {
        Some(c) => signed_decimal(c as int),
        None => "terminated"@,
    }) + "): "@ + (if trim(stderr).len() == 0 {
        trim(stdout)
    } else {
        trim(stderr)
    })
}

/// What came of running the program.
pub fn run_lms(executable: &str, success: bool, code: Option<i32>, stdout: &str, stderr: &str) -> (r:
    Option<String>)
    ensures
        match r {
            Some(m) => !success && m@ == run_failure(executable@, code, stdout@, stderr@),
            None => success,
        },
{
    if success {
        return None;
    }
    let mut m = executable.to_owned();
    m.append(" failed (exit ");
    match code {
        Some(c) => {
            m.append(signed_decimal_of(c as i64).as_str());
        },
        None => {
            m.append("terminated");
        },
    }
    m.append("): ");
    let told = trimmed(stderr);
    proof {
        reveal_strlit("");
        assert(told@.len() == 0 ==> told@ == ""@);
    }
    if same_text(told.as_str(), "") {
        m.append(trimmed(stdout).as_str());
    } else {
        m.append(told.as_str());
    }
    Some(m)
}

// ── What is promised of it all ───────────────────────────────────────────────

/// A port is managed exactly where the address is that of a plain HTTP server, on a host that goes by
/// one of the four names of this machine, with nothing behind the host; it is the port the address
/// gives.
pub proof fn a_local_server_is_managed_at_its_port(
    scheme: Seq<char>,
    host: Option<Seq<char>>,
    path: Seq<char>,
    query: Option<Seq<char>>,
    fragment: Option<Seq<char>>,
    port: Option<u16>,
)
    ensures
        ({
            let local = scheme == "http"@ && (host == Some("localhost"@) || host == Some(
                "127.0.0.1"@,
            ) || host == Some("::1"@) || host == Some("[::1]"@)) && (path == "/"@ || path.len()
                == 0) && query is None && fragment is None;
            &&& local ==> managed_port(Some((scheme, host, path, query, fragment, port))) == port
            &&& !local ==> managed_port(Some((scheme, host, path, query, fragment, port))) is None
        }),
        managed_port(None) is None,
{
}

/// The parts of an address are read off as they are.
pub proof fn parts_are_read_off(p: UrlParts)
    ensures
        parts_view(p).0 == p.scheme@,
        parts_view(p).1 == opt_view(p.host),
        parts_view(p).2 == p.path@,
        parts_view(p).3 == opt_view(p.query),
        parts_view(p).4 == opt_view(p.fragment),
        parts_view(p).5 == p.port,
{
}

/// Models are listed right below the address: however many slashes it ends with, one stands before
/// the rest.
pub proof fn models_are_listed_below_the_address(base_url: Seq<char>)
    ensures
        models_address(base_url.push('/')) == models_address(base_url),
        base_url.len() == 0 || base_url.last() != '/' ==> models_address(base_url) == base_url
            + "/v1/models"@,
{
    assert(base_url.push('/').drop_last() =~= base_url);
}

/// The way to a ready model, where everything goes well: a model that is listed is ready; else the
/// daemon is started and the server asked, started where it does not run, and waited for; then the
/// model is loaded unless it is listed by now, and waited for.
pub proof fn the_way_to_readiness(cfg: AutoStartConfig, port: u16, status: ServerStatus)
    ensures
        step_after(cfg, port, LmStepView::ProbeModel, LmEvent::Listed(true)) is Ready,
        step_after(cfg, port, LmStepView::ProbeModel, LmEvent::Listed(false)) is StartDaemon,
        step_after(cfg, port, LmStepView::StartDaemon, LmEvent::Ran(None)) is QueryServer,
        !status.running ==> step_after(
            cfg,
            port,
            LmStepView::QueryServer,
            LmEvent::Answered(status),
        ) is StartServer,
        status.running && status.port == Some(port) ==> step_after(
            cfg,
            port,
            LmStepView::QueryServer,
            LmEvent::Answered(status),
        ) is AwaitServer,
        status.running && status.port != Some(port) ==> step_after(
            cfg,
            port,
            LmStepView::QueryServer,
            LmEvent::Answered(status),
        ) is Failed,
        step_after(cfg, port, LmStepView::StartServer, LmEvent::Ran(None)) is AwaitServer,
        step_after(cfg, port, LmStepView::AwaitServer, LmEvent::Waited(true)) is ProbeAgain,
        step_after(cfg, port, LmStepView::ProbeAgain, LmEvent::Listed(true)) is AwaitModel,
        step_after(cfg, port, LmStepView::ProbeAgain, LmEvent::Listed(false)) is LoadModel,
        step_after(cfg, port, LmStepView::LoadModel, LmEvent::Ran(None)) is AwaitModel,
        step_after(cfg, port, LmStepView::AwaitModel, LmEvent::Waited(true)) is Ready,
{
}

/// Whatever goes wrong ends the way, and is told: what failed first, then the reason as it was given,
/// or for how many seconds was waited in vain.
pub proof fn failures_are_told_with_their_reason(
    cfg: AutoStartConfig,
    port: u16,
    step: LmStepView,
    reason: String,
)
    ensures
        step is StartDaemon || step is QueryServer || step is StartServer || step is LoadModel ==> (
        step_after(cfg, port, step, LmEvent::Ran(Some(reason))) matches LmStepView::Failed(m)
            && exists|what: Seq<char>| m == #[trigger] (what + ": "@ + reason@)),
        step_after(cfg, port, LmStepView::QueryServer, LmEvent::Garbled(reason))
            == LmStepView::Failed(
            "LM Studio returned an invalid server status"@ + ": "@ + reason@,
        ),
        step_after(cfg, port, LmStepView::StartDaemon, LmEvent::Ran(Some(reason)))
            == LmStepView::Failed(
            "Failed to start the LM Studio headless daemon"@ + ": "@ + reason@,
        ),
        step_after(cfg, port, LmStepView::QueryServer, LmEvent::Ran(Some(reason)))
            == LmStepView::Failed("Failed to query the LM Studio server"@ + ": "@ + reason@),
        step_after(cfg, port, LmStepView::LoadModel, LmEvent::Ran(Some(reason)))
            == LmStepView::Failed(
            "Failed to load LM Studio model "@ + cfg.local_model@ + ": "@ + reason@,
        ),
        step_after(cfg, port, LmStepView::AwaitServer, LmEvent::Waited(false)) matches
            LmStepView::Failed(m) && exists|n: Seq<char>| #[trigger]
            number_in(n) == 20 && m == "LM Studio server did not become reachable"@ + ": "@ + (
            "timed out after "@ + n + " seconds"@),
        step_after(cfg, port, LmStepView::AwaitModel, LmEvent::Waited(false)) matches
            LmStepView::Failed(m) && exists|n: Seq<char>| #[trigger]
            number_in(n) == 30 && m == "LM Studio model "@ + cfg.api_model@
                + " did not become ready"@ + ": "@ + ("timed out after "@ + n + " seconds"@),
        step_after(cfg, port, LmStepView::StartServer, LmEvent::Ran(Some(reason))) matches
            LmStepView::Failed(m) && exists|n: Seq<char>| #[trigger]
            number_in(n) == port && m == "Failed to start the LM Studio server on port "@ + n + ": "@
                + reason@,
{
    decimals_read_back(20);
    decimals_read_back(30);
    decimals_read_back(port as nat);
    assert(number_in(decimal(20)) == 20);
    assert(number_in(decimal(30)) == 30);
    assert(number_in(decimal(port as nat)) == port);
    let step = if step is StartDaemon || step is QueryServer || step is StartServer
        || step is LoadModel {
        step
    } else {
        LmStepView::StartDaemon
    };
    let what = match step {
        LmStepView::StartDaemon => "Failed to start the LM Studio headless daemon"@,
        LmStepView::QueryServer => "Failed to query the LM Studio server"@,
        LmStepView::StartServer => "Failed to start the LM Studio server on port "@ + decimal(
            port as nat,
        ),
        _ => "Failed to load LM Studio model "@ + cfg.local_model@,
    };
    assert(step_after(cfg, port, step, LmEvent::Ran(Some(reason))) == LmStepView::Failed(
        what + ": "@ + reason@,
    ));
}

/// The message on a server that runs elsewhere names both ports.
pub proof fn both_ports_are_named(actual: Option<u16>, wanted: u16)
    ensures
        exists|a: Seq<char>, w: Seq<char>|
            wrong_port(actual, wanted) == "LM Studio server is already running on port "@ + a
                + ", but lm_url uses port "@ + w && #[trigger] number_in(w) == wanted && (
            match actual {
                Some(p) => #[trigger] number_in(a) == p,
                None => a == "unknown"@,
            }),
{
    decimals_read_back(wanted as nat);
    let w = decimal(wanted as nat);
    assert(number_in(w) == wanted);
    let a = match actual {
        Some(p) => decimal(p as nat),
        None => "unknown"@,
    };
    if let Some(p) = actual {
        decimals_read_back(p as nat);
    }
    let n = number_in(a);
    assert(wrong_port(actual, wanted) == "LM Studio server is already running on port "@ + a
        + ", but lm_url uses port "@ + w);
}

/// The commands say what is to be done: the server is started on the port that is waited for, and the
/// model on disk is loaded under the name it is asked for by, with the context it is to have.
pub proof fn commands_say_what_is_to_be_done(cfg: AutoStartConfig, port: u16, step: LmStepView)
    ensures
        command(cfg, port, LmStepView::StartDaemon) == Some(seq!["daemon"@, "up"@, "--json"@]),
        command(cfg, port, LmStepView::QueryServer) == Some(seq!["server"@, "status"@, "--json"@]),
        command(cfg, port, LmStepView::StartServer) matches Some(args) && args.len() == 4 && args[0]
            == "server"@ && args[1] == "start"@ && args[2] == "--port"@ && number_in(args[3])
            == port,
        command(cfg, port, LmStepView::LoadModel) matches Some(args) && args.take(5) == seq![
            "load"@,
            cfg.local_model@,
            "--identifier"@,
            cfg.api_model@,
            "--yes"@,
        ] && (match cfg.context_length {
            Some(n) => args.len() == 7 && args[5] == "--context-length"@ && number_in(args[6]) == n,
            None => args.len() == 5,
        }),
        command(cfg, port, step) is Some <==> step is StartDaemon || step is QueryServer
            || step is StartServer || step is LoadModel,
{
    decimals_read_back(port as nat);
    if let Some(n) = cfg.context_length {
        decimals_read_back(n as nat);
    }
    let args = command(cfg, port, LmStepView::LoadModel)->0;
    assert(args.take(5) =~= seq![
        "load"@,
        cfg.local_model@,
        "--identifier"@,
        cfg.api_model@,
        "--yes"@,
    ]);
}

/// A program's failure is told in its own words: those of its error output, and those of its output
/// only where the other is blank; its exit code can be read off.
pub proof fn a_failed_program_is_quoted(
    executable: Seq<char>,
    code: Option<i32>,
    stdout: Seq<char>,
    stderr: Seq<char>,
)
    ensures
        exists|c: Seq<char>, told: Seq<char>|
            run_failure(executable, code, stdout, stderr) == #[trigger] (executable
                + " failed (exit "@ + c + "): "@ + told) && (trim(stderr).len() > 0 ==> told == trim(
                stderr,
            )) && (trim(stderr).len() == 0 ==> told == trim(stdout)) && (match code {
                Some(n) => if n < 0 {
                    c.len() > 0 && c[0] == '-' && number_in(c.skip(1)) == -n
                } else {
                    number_in(c) == n
                },
                None => c == "terminated"@,
            }),
{
    let c = match code {
        Some(n) => signed_decimal(n as int),
        None => "terminated"@,
    };
    let told = if trim(stderr).len() == 0 {
        trim(stdout)
    } else {
        trim(stderr)
    };
    if let Some(n) = code {
        signed_decimals_read_back(n as int);
    }
    assert(run_failure(executable, code, stdout, stderr) == executable + " failed (exit "@ + c
        + "): "@ + told);
}

/// A step is told from the others, and a failure's message with it.
pub proof fn steps_are_told_apart(a: LmStep)
    ensures
        a@ is ProbeModel <==> a is ProbeModel,
        a@ is StartDaemon <==> a is StartDaemon,
        a@ is QueryServer <==> a is QueryServer,
        a@ is StartServer <==> a is StartServer,
        a@ is AwaitServer <==> a is AwaitServer,
        a@ is ProbeAgain <==> a is ProbeAgain,
        a@ is LoadModel <==> a is LoadModel,
        a@ is AwaitModel <==> a is AwaitModel,
        a@ is Ready <==> a is Ready,
        a matches LmStep::Failed(m) ==> a@ == LmStepView::Failed(m@),
{
}

/// What is refused is named.
pub proof fn a_refused_address_is_named(base_url: Seq<char>)
    ensures
        not_local(base_url)
            == "LM Studio auto-start only supports a loopback HTTP URL without a path: "@ + base_url,
{
}

}
