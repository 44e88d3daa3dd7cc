//! What the webhook is set up with.
use rand::distributions::{Alphanumeric, DistString};
use vstd::prelude::*;

use crate::collections::{StringMap, StringSet};
use crate::registration::{
    eventsub_register, is_round, new_subscription, request_views, Request, RequestView, TransportView,
};
use crate::text::{optional_text, port, port_number};
use crate::webhook::{next, twitch_eventsub, Action, Progress};

verus! {

/// How many characters a signing secret has.
pub const SIGN_SECRET_LENGTH: usize = 64;

/// A variable of the environment.
#[derive(Debug, Clone, Copy, PartialEq, Eq, Structural)]
pub enum Variable {
    WebhookPort,
    WebhookPath,
    WebhookUrl,
    ClientId,
    ClientSecret,
}

impl Variable {
    /// The name of the variable.
    pub open spec fn spec_name(self) -> Seq<char> {
        match self {
            Variable::WebhookPort => "TWITCH_WEBHOOK_PORT"@,
            Variable::WebhookPath => "TWITCH_WEBHOOK_PATH"@,
            Variable::WebhookUrl => "TWITCH_WEBHOOK_URL"@,
            Variable::ClientId => "TWITCH_CLIENT_ID"@,
            Variable::ClientSecret => "TWITCH_CLIENT_SECRET"@,
        }
    }

    /// The name of the variable.
    pub fn name(self) -> (name: &'static str)
        ensures
            name@ == self.spec_name(),
    {
        match self {
            Variable::WebhookPort => "TWITCH_WEBHOOK_PORT",
            Variable::WebhookPath => "TWITCH_WEBHOOK_PATH",
            Variable::WebhookUrl => "TWITCH_WEBHOOK_URL",
            Variable::ClientId => "TWITCH_CLIENT_ID",
            Variable::ClientSecret => "TWITCH_CLIENT_SECRET",
        }
    }

    /// What to say where the webhook misses the variable.
    pub fn message(self) -> (message: String)
        ensures
            message@ == "getting $"@ + self.spec_name(),
    {
        "getting $".to_string().concat(self.name())
    }
}

/// The variables that are set.
pub struct Environment {
    pub webhook_port: Option<String>,
    pub webhook_path: Option<String>,
    pub webhook_url: Option<String>,
    pub client_id: Option<String>,
    pub client_secret: Option<String>,
}

impl Environment {
    /// The first variable that is not set, if there is one.
    pub open spec fn first_missing(self) -> Option<Variable> {
        if self.webhook_port is None {
            Some(Variable::WebhookPort)
        } else if self.webhook_path is None {
            Some(Variable::WebhookPath)
        } else if self.webhook_url is None {
            Some(Variable::WebhookUrl)
        } else if self.client_id is None {
            Some(Variable::ClientId)
        } else if self.client_secret is None {
            Some(Variable::ClientSecret)
        } else {
            None
        }
    }
}

/// What the webhook needs to know.
pub struct Settings {
    /// The port to listen on.
    pub port: String,
    /// The path at which requests come in.
    pub path: String,
    /// The URL under which Twitch reaches the webhook.
    pub url: String,
    /// The id that Twitch knows this program by.
    pub client_id: String,
    /// The secret that this program proves its id with.
    pub client_secret: String,
}

/// What [`Settings`] say.
pub struct SettingsView {
    pub port: Seq<char>,
    pub path: Seq<char>,
    pub url: Seq<char>,
    pub client_id: Seq<char>,
    pub client_secret: Seq<char>,
}

impl SettingsView {
    /// Whether the settings are what the variables hold.
    pub open spec fn are_set(self, environment: Environment) -> bool {
        &&& optional_text(environment.webhook_port) == Some(self.port)
        &&& optional_text(environment.webhook_path) == Some(self.path)
        &&& optional_text(environment.webhook_url) == Some(self.url)
        &&& optional_text(environment.client_id) == Some(self.client_id)
        &&& optional_text(environment.client_secret) == Some(self.client_secret)
    }
}

impl View for Settings {
    type V = SettingsView;

    open spec fn view(&self) -> SettingsView {
        SettingsView {
            port: self.port@,
            path: self.path@,
            url: self.url@,
            client_id: self.client_id@,
            client_secret: self.client_secret@,
        }
    }
}

impl Settings {
    /// The settings that the variables hold, or the first variable that is not set.
    pub fn read(environment: Environment) -> (settings: Result<Settings, Variable>)
        ensures
            match settings {
                Ok(settings) => settings@.are_set(environment),
                Err(variable) => environment.first_missing() == Some(variable),
            },
            settings is Ok <==> environment.first_missing() is None,
    {
        let port = match environment.webhook_port {
            Some(port) => port,
            None => return Err(Variable::WebhookPort),
        };
        let path = match environment.webhook_path {
            Some(path) => path,
            None => return Err(Variable::WebhookPath),
        };
        let url = match environment.webhook_url {
            Some(url) => url,
            None => return Err(Variable::WebhookUrl),
        };
        let client_id = match environment.client_id {
            Some(client_id) => client_id,
            None => return Err(Variable::ClientId),
        };
        let client_secret = match environment.client_secret {
            Some(client_secret) => client_secret,
            None => return Err(Variable::ClientSecret),
        };
        Ok(Settings { port, path, url, client_id, client_secret })
    }
}

/// Whether `c` is an ASCII letter or a decimal digit.
pub open spec fn is_alphanumeric(c: char) -> bool {
    ||| 'a' <= c <= 'z'
    ||| 'A' <= c <= 'Z'
    ||| '0' <= c <= '9'
}

/// Whether `text` can be a signing secret.
pub open spec fn is_sign_secret(text: Seq<char>) -> bool {
    &&& text.len() == SIGN_SECRET_LENGTH
    &&& forall|i: int| 0 <= i < text.len() ==> is_alphanumeric(#[trigger] text[i])
}

/// Calls `rand::distributions::Alphanumeric::sample_string` with `rand::thread_rng`. Trusted: the text
/// has `length` characters, each an ASCII letter or a decimal digit. Which they are is left to
/// chance, so nothing is said of it.
#[verifier::external_body]
fn sample_string(length: usize) -> (text: String)
    requires
        length <= isize::MAX,
    ensures
        text@.len() == length,
        forall|i: int| 0 <= i < text@.len() ==> is_alphanumeric(#[trigger] text@[i]),
{
    Alphanumeric.sample_string(&mut rand::thread_rng(), length)
}

/// What one run of the webhook goes by: its settings, and its secret for Twitch to sign requests with.
pub struct Webhook {
    settings: Settings,
    sign_secret: String,
}

/// What a [`Webhook`] holds.
pub struct WebhookView {
    pub settings: SettingsView,
    pub sign_secret: Seq<char>,
}

impl View for Webhook {
    type V = WebhookView;

    closed spec fn view(&self) -> WebhookView {
        WebhookView { settings: self.settings@, sign_secret: self.sign_secret@ }
    }
}

impl WebhookView {
    /// How Twitch is to deliver events to the webhook.
    pub open spec fn transport(self) -> TransportView {
        TransportView::Webhook { callback: self.settings.url, secret: self.sign_secret }
    }
}

impl Webhook {
    #[verifier::type_invariant]
    spec fn secretive(self) -> bool {
        is_sign_secret(self.sign_secret@)
    }

    /// What the webhook is set to.
    pub fn settings(&self) -> (settings: &Settings)
        ensures
            settings@ == self@.settings,
            is_sign_secret(self@.sign_secret),
    {
        proof {
            use_type_invariant(self);
        }
        &self.settings
    }

    /// What to do next with a request to the webhook.
    pub fn answer(&self, progress: Progress) -> (action: Action)
        ensures
            action@ == next(self@.sign_secret, progress@),
    {
        twitch_eventsub(self.sign_secret.as_str(), progress)
    }

    /// What to ask of Twitch when a user subscribes to a broadcaster.
    pub fn subscribe(&self, broadcaster_user_id: String) -> (request: Request)
        ensures
            request@ == (RequestView::Create {
                broadcaster_user_id: broadcaster_user_id@,
                transport: self@.transport(),
            }),
    {
        new_subscription(broadcaster_user_id, self.settings.url.as_str(), self.sign_secret.as_str())
    }

    /// What a check asks of Twitch.
    pub fn register(&self, existing: &StringMap, expected: &StringSet) -> (requests: Vec<Request>)
        ensures
            is_round(request_views(requests@), existing@, expected@, self@.transport()),
    {
        eventsub_register(existing, expected, self.settings.url.as_str(), self.sign_secret.as_str())
    }
}

/// A task of the webhook that has ended.
#[derive(Debug, Clone, Copy, PartialEq, Eq, Structural)]
pub enum Ended {
    /// The server; `well` is whether without an error.
    Server { well: bool },
    /// The task that replaces the token, which ends only with an error.
    Refresher,
    /// The task that checks what is registered, which ends only with an error.
    Register,
    /// The task that passes on new subscriptions; `well` is whether without an error.
    NewSubscriptions { well: bool },
}

impl Ended {
    /// Whether the task ended without an error.
    pub open spec fn is_well(self) -> bool {
        match self {
            Ended::Server { well } => well,
            Ended::Refresher => false,
            Ended::Register => false,
            Ended::NewSubscriptions { well } => well,
        }
    }
}

/// How far a run of the webhook has come.
pub enum Running {
    /// It begins, with these variables set.
    Begun { environment: Environment },
    /// Twitch was asked for a token; `granted` is whether it gave one.
    Asked { webhook: Webhook, granted: bool },
    /// Of the tasks that run, one has ended.
    First { ended: Ended },
}

/// What a [`Running`] says.
pub enum RunningView {
    Begun { environment: Environment },
    Asked { webhook: WebhookView, granted: bool },
    First { ended: Ended },
}

impl View for Running {
    type V = RunningView;

    open spec fn view(&self) -> RunningView {
        match self {
            Running::Begun { environment } => RunningView::Begun { environment: *environment },
            Running::Asked { webhook, granted } => RunningView::Asked { webhook: webhook@, granted: *granted },
            Running::First { ended } => RunningView::First { ended: *ended },
        }
    }
}

/// Why a run of the webhook fails.
#[derive(Debug, Clone, Copy, PartialEq, Eq, Structural)]
pub enum RunFailure {
    /// A variable is not set.
    Missing(Variable),
    /// Twitch gave no token.
    Unauthorized,
    /// The port is not a number, or too big.
    InvalidPort,
    /// A task ended with an error.
    Ended(Ended),
}

impl RunFailure {
    /// What to say went wrong, where it is not for someone else to say.
    pub open spec fn spec_message(self) -> Option<Seq<char>> {
        match self {
            RunFailure::Missing(variable) => Some("getting $"@ + variable.spec_name()),
            RunFailure::InvalidPort => Some("parsing $WEBHOOK_PORT"@),
            _ => None,
        }
    }

    /// What to say went wrong, where it is not for someone else to say.
    pub fn message(self) -> (message: Option<String>)
        ensures
            optional_text(message) == self.spec_message(),
    {
        match self {
            RunFailure::Missing(variable) => Some(variable.message()),
            RunFailure::InvalidPort => Some("parsing $WEBHOOK_PORT".to_string()),
            _ => None,
        }
    }
}

/// What to do next in a run of the webhook.
pub enum RunAction {
    /// Ask Twitch for a token without any scopes, with the client id and secret of the settings.
    Authorize { webhook: Webhook },
    /// Listen on this port of every interface; serve requests at the path of the settings, replace
    /// the token, check what is registered and pass on new subscriptions, all at once, until the
    /// first of these tasks ends.
    Serve { webhook: Webhook, port: u16 },
    /// End, with this result.
    Return { result: Result<(), RunFailure> },
}

/// What a [`RunAction`] says.
pub enum RunActionView {
    Authorize { webhook: WebhookView },
    Serve { webhook: WebhookView, port: u16 },
    Return { result: Result<(), RunFailure> },
}

impl View for RunAction {
    type V = RunActionView;

    open spec fn view(&self) -> RunActionView {
        match self {
            RunAction::Authorize { webhook } => RunActionView::Authorize { webhook: webhook@ },
            RunAction::Serve { webhook, port } => RunActionView::Serve { webhook: webhook@, port: *port },
            RunAction::Return { result } => RunActionView::Return { result: *result },
        }
    }
}

/// Ending a run with a failure.
pub open spec fn failure(failure: RunFailure) -> RunActionView {
    RunActionView::Return { result: Err(failure) }
}

/// What a run returns: the result of `ended`, the first of its tasks to end.
pub open spec fn ending(ended: Ended) -> RunActionView {
    if ended.is_well() {
        RunActionView::Return { result: Ok(()) }
    } else {
        failure(RunFailure::Ended(ended))
    }
}

/// Whether `action` is what to do next in a run that has come so far: with all variables set, ask for
/// a token, with a secret that is left to chance; with a token and a port, serve; and return what the
/// first task to end returns.
pub open spec fn runs(progress: RunningView, action: RunActionView) -> bool {
    match progress {
        RunningView::Begun { environment } => match environment.first_missing() {
            Some(variable) => action == failure(RunFailure::Missing(variable)),
            None => action matches RunActionView::Authorize { webhook } && webhook.settings.are_set(environment)
                && is_sign_secret(webhook.sign_secret),
        },
        RunningView::Asked { webhook, granted: false } => action == failure(RunFailure::Unauthorized),
        RunningView::Asked { webhook, granted: true } => action == match port_number(webhook.settings.port) {
            Some(port) => RunActionView::Serve { webhook, port },
            None => failure(RunFailure::InvalidPort),
        },
        RunningView::First { ended } => action == ending(ended),
    }
}

/// What to do next in a run of the webhook.
pub fn run(progress: Running) -> (action: RunAction)
    ensures
        runs(progress@, action@),
{
    match progress {
        Running::Begun { environment } => match Settings::read(environment) {
            Ok(settings) => RunAction::Authorize {
                webhook: Webhook { settings, sign_secret: sample_string(SIGN_SECRET_LENGTH) },
            },
            Err(variable) => RunAction::Return { result: Err(RunFailure::Missing(variable)) },
        },
        Running::Asked { webhook, granted } => if granted {
            match port(webhook.settings.port.as_str()) {
                Some(port) => RunAction::Serve { webhook, port },
                None => RunAction::Return { result: Err(RunFailure::InvalidPort) },
            }
        } else {
            RunAction::Return { result: Err(RunFailure::Unauthorized) }
        },
        Running::First { ended } => {
            let well = match ended {
                Ended::Server { well } => well,
                Ended::Refresher => false,
                Ended::Register => false,
                Ended::NewSubscriptions { well } => well,
            };
            if well {
                RunAction::Return { result: Ok(()) }
            } else {
                RunAction::Return { result: Err(RunFailure::Ended(ended)) }
            }
        },
    }
}

/// Whether a run can have come so far once an action is done.
pub open spec fn continues(action: RunActionView, progress: RunningView) -> bool {
    match action {
        RunActionView::Authorize { webhook } => progress matches RunningView::Asked { webhook: asked, granted }
            && asked == webhook,
        RunActionView::Serve { webhook, port } => progress is First,
        RunActionView::Return { result } => false,
    }
}

/// Whether `actions` is all that is done in a run that comes so far: it begins with `environment`, and
/// ends by returning.
pub open spec fn is_whole_run(
    environment: Environment,
    progress: Seq<RunningView>,
    actions: Seq<RunActionView>,
) -> bool {
    &&& progress.len() == actions.len() > 0
    &&& progress[0] == RunningView::Begun { environment }
    &&& forall|i: int| 0 <= i < actions.len() ==> runs(#[trigger] progress[i], actions[i])
    &&& forall|i: int| 0 < i < actions.len() ==> continues(actions[i - 1], #[trigger] progress[i])
    &&& actions.last() is Return
}

/// A run asks for a token if all variables are set, serves if it gets one and the port is a number,
/// and then returns the result of the first task to end; otherwise it fails before it serves. There
/// is one secret to a run.
pub proof fn law_runs_end_with_the_first_task(
    environment: Environment,
    progress: Seq<RunningView>,
    actions: Seq<RunActionView>,
)
    requires
        is_whole_run(environment, progress, actions),
    ensures
        match environment.first_missing() {
            Some(variable) => actions == seq![failure(RunFailure::Missing(variable))],
            None => {
                &&& actions.len() > 1
                &&& actions[0] matches RunActionView::Authorize { webhook }
                &&& webhook.settings.are_set(environment)
                &&& is_sign_secret(webhook.sign_secret)
                &&& progress[1] matches RunningView::Asked { webhook: asked, granted }
                &&& if !granted {
                    actions == seq![actions[0], failure(RunFailure::Unauthorized)]
                } else {
                    match port_number(webhook.settings.port) {
                        None => actions == seq![actions[0], failure(RunFailure::InvalidPort)],
                        Some(port) => {
                            &&& actions.len() == 3
                            &&& actions[1] == RunActionView::Serve { webhook, port }
                            &&& progress[2] matches RunningView::First { ended }
                            &&& actions[2] == ending(ended)
                        },
                    }
                }
            },
        },
{
    assert(runs(progress[0], actions[0]));
    if actions.len() > 1 {
        assert(continues(actions[0], progress[1]));
        assert(runs(progress[1], actions[1]));
    }
    if actions.len() > 2 {
        assert(continues(actions[1], progress[2]));
        assert(runs(progress[2], actions[2]));
    }
    if actions.len() > 3 {
        assert(continues(actions[2], progress[3]));
    }
}

/// The first variable that is missing is the first, in the order of port, path, URL, client id and
/// client secret, that is not set; whatever the others hold, and also if that is nothing.
pub proof fn law_missing_variables_are_named_in_order(environment: Environment)
    ensures
        environment.first_missing() is None <==> environment.webhook_port is Some
            && environment.webhook_path is Some && environment.webhook_url is Some && environment.client_id is Some
            && environment.client_secret is Some,
        environment.webhook_port is None ==> environment.first_missing() == Some(Variable::WebhookPort),
        environment.webhook_port is Some && environment.webhook_path is None ==> environment.first_missing()
            == Some(Variable::WebhookPath),
        environment.webhook_port is Some && environment.webhook_path is Some && environment.webhook_url is None
            ==> environment.first_missing() == Some(Variable::WebhookUrl),
        environment.webhook_port is Some && environment.webhook_path is Some && environment.webhook_url is Some
            && environment.client_id is None ==> environment.first_missing() == Some(Variable::ClientId),
        environment.webhook_port is Some && environment.webhook_path is Some && environment.webhook_url is Some
            && environment.client_id is Some && environment.client_secret is None ==> environment.first_missing()
            == Some(Variable::ClientSecret),
{
}

/// Settings are from the environment exactly when each is what its variable holds; and what is said of
/// them is what they hold.
pub proof fn law_settings_are_their_variables(settings: Settings, environment: Environment)
    ensures
        settings@.are_set(environment) <==> {
            &&& environment.webhook_port matches Some(port)
            &&& port@ == settings.port@
            &&& environment.webhook_path matches Some(path)
            &&& path@ == settings.path@
            &&& environment.webhook_url matches Some(url)
            &&& url@ == settings.url@
            &&& environment.client_id matches Some(client_id)
            &&& client_id@ == settings.client_id@
            &&& environment.client_secret matches Some(client_secret)
            &&& client_secret@ == settings.client_secret@
        },
        settings@.port == settings.port@,
        settings@.path == settings.path@,
        settings@.url == settings.url@,
        settings@.client_id == settings.client_id@,
        settings@.client_secret == settings.client_secret@,
{
}

/// A signing secret has 64 characters, all of them ASCII letters and digits.
pub proof fn law_secrets_are_alphanumeric(text: Seq<char>)
    ensures
        is_sign_secret(text) <==> text.len() == 64 && forall|i: int|
            0 <= i < text.len() ==> ('a' <= #[trigger] text[i] <= 'z' || 'A' <= text[i] <= 'Z' || '0' <= text[i]
                <= '9'),
{
    assert(is_sign_secret(text) ==> forall|i: int|
        0 <= i < text.len() ==> is_alphanumeric(#[trigger] text[i]));
}

/// Events are delivered to the URL of the settings, signed with the secret of the run.
pub proof fn law_events_come_to_the_webhook(webhook: WebhookView)
    ensures
        webhook.transport() matches TransportView::Webhook { callback, secret } && callback
            == webhook.settings.url && secret == webhook.sign_secret,
{
}

/// A run asks for a token exactly when all variables are set; it serves exactly when it gets one and
/// its port is a number, with the same settings and secret, and on that port; and what the first task
/// to end returns is what it returns.
pub proof fn law_runs_go_step_by_step(progress: RunningView, action: RunActionView)
    requires
        runs(progress, action),
    ensures
        match progress {
            RunningView::Begun { environment } => if environment.first_missing() is None {
                action matches RunActionView::Authorize { webhook } && webhook.settings.are_set(environment)
                    && webhook.sign_secret.len() == 64
            } else {
                action matches RunActionView::Return { result: Err(RunFailure::Missing(variable)) }
                    && environment.first_missing() == Some(variable)
            },
            RunningView::Asked { webhook, granted } => if !granted {
                action matches RunActionView::Return { result: Err(failure) } && failure is Unauthorized
            } else if port_number(webhook.settings.port) is None {
                action matches RunActionView::Return { result: Err(failure) } && failure is InvalidPort
            } else {
                action matches RunActionView::Serve { webhook: served, port } && served == webhook
                    && port_number(webhook.settings.port) == Some(port)
            },
            RunningView::First { ended } => match ended {
                Ended::Server { well } => action matches RunActionView::Return { result } && (result is Ok
                    <==> well) && (!well ==> result == Err::<(), RunFailure>(RunFailure::Ended(ended))),
                Ended::NewSubscriptions { well } => action matches RunActionView::Return { result } && (
                result is Ok <==> well) && (!well ==> result == Err::<(), RunFailure>(RunFailure::Ended(ended))),
                _ => action matches RunActionView::Return { result } && result == Err::<(), RunFailure>(
                    RunFailure::Ended(ended),
                ),
            },
        },
{
}

/// What is said of a run, and of what to do in it, is what it holds.
pub proof fn law_runs_say_what_they_hold(progress: Running, action: RunAction)
    ensures
        match progress {
            Running::Begun { environment } => progress@ matches RunningView::Begun { environment: e } && e
                == environment,
            Running::Asked { webhook, granted } => progress@ matches RunningView::Asked {
                webhook: w,
                granted: g,
            } && w == webhook@ && g == granted,
            Running::First { ended } => progress@ matches RunningView::First { ended: e } && e == ended,
        },
        match action {
            RunAction::Authorize { webhook } => action@ matches RunActionView::Authorize { webhook: w } && w
                == webhook@,
            RunAction::Serve { webhook, port } => action@ matches RunActionView::Serve { webhook: w, port: p }
                && w == webhook@ && p == port,
            RunAction::Return { result } => action@ matches RunActionView::Return { result: r } && r == result,
        },
{
}

} // verus!
