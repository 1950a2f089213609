use hmac::{Hmac, Mac};
use multihook::action::{outcome, Action, MAX_CONCURRENCY};
use multihook::endpoint::{Admission, HookEndpoint, Stage};
use multihook::json::body_json;
use multihook::error::MultihookError;
use multihook::http::{executed_message, route_key, status_for};
use multihook::secret_validation::{Header, SecretFormat};
use multihook::settings::{EndpointSettings, Hooks, SecretSettings, ServerSettings, Settings};
use std::collections::HashMap;

fn some(s: &str) -> Option<String> {
    Some(String::from(s))
}

fn settings(hooks: Option<Hooks>) -> Settings {
    Settings {
        server: ServerSettings { address: None },
        hooks,
        endpoints: HashMap::new(),
    }
}

fn endpoint(action: &str, hooks: Option<Hooks>, detached: bool, secret: Option<&str>) -> EndpointSettings {
    EndpointSettings {
        path: String::from("deploy"),
        action: String::from(action),
        hooks,
        allow_parallel: false,
        run_detached: detached,
        secret: secret.map(|s| SecretSettings {
            value: String::from(s),
            format: SecretFormat::HMac,
        }),
    }
}

fn env_pairs(env: &Vec<(String, String)>) -> Vec<(&str, &str)> {
    env.iter().map(|(k, v)| (k.as_str(), v.as_str())).collect()
}

fn all_hooks() -> HookEndpoint {
    let global = settings(Some(Hooks {
        pre_action: some("echo G"),
        post_action: some("echo GP"),
        err_action: some("echo GE"),
    }));
    let local = endpoint(
        "exit 1",
        Some(Hooks {
            pre_action: some("echo L"),
            post_action: some("echo LP"),
            err_action: some("echo LE"),
        }),
        false,
        None,
    );
    HookEndpoint::from_config("deploy", &global, &local)
}

#[test]
fn failing_main_runs_error_hooks_in_order() {
    let ep = all_hooks();
    let mut run = ep.start_run("{}");
    let mut order = Vec::new();
    ep.advance(&mut run, Ok(()));
    while run.stage() != Stage::Done {
        order.push(run.stage());
        let result = if run.stage() == Stage::Main {
            outcome(false, b"main broke\n")
        } else if run.stage() == Stage::GlobalError {
            Err(MultihookError::ActionError(String::from("hook broke")))
        } else {
            outcome(true, b"")
        };
        ep.advance(&mut run, result);
    }
    assert_eq!(
        order,
        vec![
            Stage::GlobalPre,
            Stage::LocalPre,
            Stage::Main,
            Stage::GlobalError,
            Stage::LocalError
        ]
    );
    assert_eq!(
        env_pairs(run.env()),
        vec![
            ("HOOK_NAME", "deploy"),
            ("HOOK_BODY", "{}"),
            ("HOOK_ERROR", "Action failed: main broke\n")
        ]
    );
    match run.into_result() {
        Err(MultihookError::ActionError(m)) => assert_eq!(m, "main broke\n"),
        other => panic!("unexpected {:?}", other),
    }
}

#[test]
fn succeeding_main_runs_post_hooks_in_order() {
    let ep = all_hooks();
    let mut run = ep.start_run("b");
    let mut order = Vec::new();
    ep.advance(&mut run, Ok(()));
    while run.stage() != Stage::Done {
        order.push(run.stage());
        let result = if run.stage() == Stage::LocalPre {
            Err(MultihookError::ActionError(String::from("pre broke")))
        } else {
            Ok(())
        };
        ep.advance(&mut run, result);
    }
    assert_eq!(
        order,
        vec![
            Stage::GlobalPre,
            Stage::LocalPre,
            Stage::Main,
            Stage::GlobalPost,
            Stage::LocalPost
        ]
    );
    assert_eq!(env_pairs(run.env()), vec![("HOOK_NAME", "deploy"), ("HOOK_BODY", "b")]);
    assert!(run.into_result().is_ok());
}

#[test]
fn absent_hooks_are_skipped() {
    let ep = HookEndpoint::from_config("solo", &settings(None), &endpoint("true", None, false, None));
    let mut run = ep.start_run("");
    ep.advance(&mut run, Ok(()));
    assert_eq!(run.stage(), Stage::Main);
    assert!(ep.action_at(Stage::GlobalPre).is_none());
    assert!(ep.action_at(Stage::Main).is_some());
    ep.advance(&mut run, outcome(false, b"x"));
    assert_eq!(run.stage(), Stage::Done);
    assert!(run.into_result().is_err());
}

#[test]
fn open_endpoint_accepts_unsigned_request() {
    let ep = HookEndpoint::from_config("open", &settings(None), &endpoint("true", None, false, None));
    let headers: Vec<Header> = vec![];
    match ep.accept_request(&headers, b"{\"a\":1}".to_vec()) {
        Ok(Admission::Attached(text)) => assert_eq!(text, "{\"a\":1}"),
        _ => panic!("request refused"),
    }
}

#[test]
fn secret_endpoint_refuses_unsigned_request() {
    let ep = HookEndpoint::from_config("closed", &settings(None), &endpoint("true", None, false, Some("k")));
    let headers: Vec<Header> = vec![];
    assert!(matches!(
        ep.accept_request(&headers, b"{}".to_vec()),
        Err(MultihookError::InvalidSecret)
    ));
    assert!(matches!(
        ep.validate_secret(&headers, &b"{}".to_vec()),
        Err(MultihookError::InvalidSecret)
    ));
}

#[test]
fn secret_endpoint_accepts_signed_request() {
    let ep = HookEndpoint::from_config("closed", &settings(None), &endpoint("true", None, false, Some("k")));
    let mut mac = <Hmac<sha2::Sha256> as Mac>::new_from_slice(b"k").unwrap();
    mac.update(b"{}");
    let sig = format!("sha256={}", hex::encode(mac.finalize().into_bytes()));
    let headers: Vec<Header> = vec![(String::from("x-hub-signature-256"), sig.into_bytes())];
    assert!(ep.validate_secret(&headers, &b"{}".to_vec()).is_ok());
    assert!(matches!(
        ep.accept_request(&headers, b"{}".to_vec()),
        Ok(Admission::Attached(_))
    ));
}

#[test]
fn non_utf8_body_is_refused() {
    let ep = HookEndpoint::from_config("open", &settings(None), &endpoint("true", None, false, None));
    match ep.accept_request(&vec![], vec![0x66, 0xff]) {
        Err(MultihookError::UTF8Error(m)) => assert!(!m.is_empty()),
        _ => panic!("body accepted"),
    }
}

#[test]
fn detached_endpoint_answers_before_running() {
    let ep = HookEndpoint::from_config("bg", &settings(None), &endpoint("exit 1", None, true, None));
    match ep.accept_request(&vec![], b"x".to_vec()) {
        Ok(Admission::Detached(text)) => assert_eq!(text, "x"),
        _ => panic!("not detached"),
    }
}

#[test]
fn gate_sizes_follow_parallel_flag() {
    let serial = Action::new("true", false);
    let parallel = Action::new("true", true);
    assert_eq!(serial.permits(), 1);
    assert_eq!(parallel.permits(), MAX_CONCURRENCY);
    assert_eq!(MAX_CONCURRENCY, 256);
}

#[test]
fn serial_gate_admits_one_run_at_a_time() {
    let serial = Action::new("true", false);
    let first = serial.gate().try_acquire().unwrap();
    assert!(serial.gate().try_acquire().is_err());
    drop(first);
    assert!(serial.gate().try_acquire().is_ok());
}

#[test]
fn parallel_gate_admits_up_to_its_size() {
    let parallel = Action::new("true", true);
    let mut held = Vec::new();
    for _ in 0..256 {
        held.push(parallel.gate().try_acquire().unwrap());
    }
    assert!(parallel.gate().try_acquire().is_err());
    held.pop();
    assert!(parallel.gate().try_acquire().is_ok());
}

#[test]
fn gates_are_not_shared_between_actions() {
    let a = Action::new("true", false);
    let b = Action::new("true", false);
    let _held = a.gate().try_acquire().unwrap();
    assert!(b.gate().try_acquire().is_ok());
}

#[test]
fn outcome_classifies_exit_status() {
    assert!(outcome(true, b"warning").is_ok());
    match outcome(false, b"oops") {
        Err(MultihookError::ActionError(m)) => assert_eq!(m, "oops"),
        _ => panic!(),
    }
    match outcome(false, b"") {
        Err(MultihookError::ActionError(m)) => assert_eq!(m, ""),
        _ => panic!(),
    }
    match outcome(false, &[0x61, 0xff]) {
        Err(MultihookError::ActionError(m)) => assert_eq!(m, "a\u{FFFD}"),
        _ => panic!(),
    }
}

#[test]
fn command_for_fills_template_from_body() {
    let a = Action::new("echo {{$.who}}", true);
    assert_eq!(a.command_for(&body_json(r#"{"who":"me"}"#)), "echo me");
    assert_eq!(a.command_for(&body_json("not json")), "echo ");
}

#[test]
fn error_messages() {
    assert_eq!(MultihookError::InvalidSecret.message(), "Secret validation failed.");
    assert_eq!(
        MultihookError::ActionError(String::from("e")).message(),
        "Action failed: e"
    );
    assert_eq!(
        MultihookError::UTF8Error(String::from("bad")).message(),
        "Failed to parse body as utf8 string bad"
    );
    assert_eq!(MultihookError::IoError(String::from("no sh")).message(), "no sh");
}

#[test]
fn http_answers() {
    assert_eq!(route_key("/deploy"), "deploy");
    assert_eq!(route_key("/"), "");
    assert_eq!(route_key("x"), "x");
    assert_eq!(executed_message("deploy"), "Hook 'deploy' executed.");
    assert_eq!(status_for(&Ok(())), 200);
    assert_eq!(status_for(&Err(MultihookError::InvalidSecret)), 500);
}
