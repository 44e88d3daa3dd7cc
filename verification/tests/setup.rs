//! Setting up the webhook.
use discord_twitch_notif::collections::{StringMap, StringSet};
use discord_twitch_notif::registration::{Request, Transport};
use discord_twitch_notif::setup::{
    run, Ended, Environment, RunAction, RunFailure, Running, Settings, Variable, Webhook,
};
use discord_twitch_notif::webhook::{Action, Progress};

fn environment() -> Environment {
    Environment {
        webhook_port: Some("8000".to_string()),
        webhook_path: Some("/twitch-events".to_string()),
        webhook_url: Some("https://dtn.example.com/twitch-events".to_string()),
        client_id: Some("id".to_string()),
        client_secret: Some("secret".to_string()),
    }
}

fn webhook(environment: Environment) -> Webhook {
    match run(Running::Begun { environment }) {
        RunAction::Authorize { webhook } => webhook,
        _ => panic!("all variables are set"),
    }
}

fn failure(action: RunAction) -> RunFailure {
    match action {
        RunAction::Return { result: Err(failure) } => failure,
        _ => panic!("the run should fail"),
    }
}

fn missing(environment: Environment) -> Variable {
    match failure(run(Running::Begun { environment })) {
        RunFailure::Missing(variable) => variable,
        _ => panic!("a variable is missing"),
    }
}

/// The secret that Twitch is to sign requests with.
fn secret(webhook: &Webhook) -> String {
    match webhook.subscribe("1".to_string()) {
        Request::Create { transport: Transport::Webhook { secret, .. }, .. } => secret,
        _ => panic!("events should come through the webhook"),
    }
}

#[test]
fn settings_are_what_the_variables_hold() {
    let webhook = webhook(environment());
    let settings = webhook.settings();
    assert_eq!(settings.port, "8000");
    assert_eq!(settings.path, "/twitch-events");
    assert_eq!(settings.url, "https://dtn.example.com/twitch-events");
    assert_eq!(settings.client_id, "id");
    assert_eq!(settings.client_secret, "secret");
}

#[test]
fn secrets_are_alphanumeric() {
    let secret = secret(&webhook(environment()));
    assert_eq!(secret.len(), 64);
    assert!(secret.chars().all(|c| c.is_ascii_alphanumeric()));
}

#[test]
fn secrets_are_fresh() {
    assert_ne!(secret(&webhook(environment())), secret(&webhook(environment())));
}

#[test]
fn one_secret_registers() {
    let webhook = webhook(environment());
    let expected = StringSet::collect(vec!["7".to_string()]);
    let requests = webhook.register(&StringMap::new(), &expected);
    assert_eq!(requests.len(), 1);
    for request in requests {
        let Request::Create { broadcaster_user_id, transport: Transport::Webhook { callback, secret: used } } =
            request
        else {
            panic!("a subscription should be asked for")
        };
        assert_eq!(broadcaster_user_id, "7");
        assert_eq!(callback, "https://dtn.example.com/twitch-events");
        assert_eq!(used, secret(&webhook));
    }
}

#[test]
fn webhooks_answer_requests() {
    let action = webhook(environment()).answer(Progress::Head { size: None });
    let Action::Answer { answer } = action else { panic!("the request is too big") };
    assert_eq!(answer, Err((400, "too big data given".to_string())));
}

#[test]
fn missing_variables_are_named() {
    let port = missing(Environment { webhook_port: None, ..environment() });
    assert_eq!((port, port.message().as_str()), (Variable::WebhookPort, "getting $TWITCH_WEBHOOK_PORT"));
    let path = missing(Environment { webhook_path: None, ..environment() });
    assert_eq!((path, path.message().as_str()), (Variable::WebhookPath, "getting $TWITCH_WEBHOOK_PATH"));
    let url = missing(Environment { webhook_url: None, ..environment() });
    assert_eq!((url, url.message().as_str()), (Variable::WebhookUrl, "getting $TWITCH_WEBHOOK_URL"));
    let id = missing(Environment { client_id: None, ..environment() });
    assert_eq!((id, id.message().as_str()), (Variable::ClientId, "getting $TWITCH_CLIENT_ID"));
    let secret = missing(Environment { client_secret: None, ..environment() });
    assert_eq!((secret, secret.message().as_str()), (Variable::ClientSecret, "getting $TWITCH_CLIENT_SECRET"));
}

#[test]
fn first_missing_variable_is_named() {
    assert_eq!(
        missing(Environment { webhook_url: None, client_id: None, ..environment() }),
        Variable::WebhookUrl
    );
}

#[test]
fn settings_name_the_first_missing_variable() {
    let settings = Settings::read(Environment { webhook_path: None, client_id: None, ..environment() });
    assert!(matches!(settings, Err(Variable::WebhookPath)));
}

fn asked(port: &str, granted: bool) -> RunAction {
    let environment = Environment { webhook_port: Some(port.to_string()), ..environment() };
    run(Running::Asked { webhook: webhook(environment), granted })
}

#[test]
fn nothing_is_served_without_a_token() {
    assert_eq!(failure(asked("8000", false)), RunFailure::Unauthorized);
    assert_eq!(failure(asked("http", false)), RunFailure::Unauthorized);
    assert_eq!(RunFailure::Unauthorized.message(), None);
}

#[test]
fn ports_are_numbers() {
    for (text, number) in [("8000", 8000), ("+080", 80), ("65535", 65535)] {
        let RunAction::Serve { webhook, port } = asked(text, true) else { panic!("there is a port") };
        assert_eq!(port, number);
        assert_eq!(webhook.settings().path, "/twitch-events");
    }
    for text in ["", "+", "-1", "65536", "99999999999999999999", "80 ", "http"] {
        let failure = failure(asked(text, true));
        assert_eq!(failure, RunFailure::InvalidPort);
        assert_eq!(failure.message(), Some("parsing $WEBHOOK_PORT".to_string()));
    }
}

#[test]
fn runs_end_with_the_first_task() {
    for ended in [Ended::Server { well: true }, Ended::NewSubscriptions { well: true }] {
        assert!(matches!(run(Running::First { ended }), RunAction::Return { result: Ok(()) }));
    }
    for ended in [
        Ended::Server { well: false },
        Ended::Refresher,
        Ended::Register,
        Ended::NewSubscriptions { well: false },
    ] {
        assert_eq!(failure(run(Running::First { ended })), RunFailure::Ended(ended));
    }
}

#[test]
fn missing_variables_fail_the_run() {
    let failure = RunFailure::Missing(Variable::WebhookUrl);
    assert_eq!(failure.message(), Some("getting $TWITCH_WEBHOOK_URL".to_string()));
}
