//! An endpoint: one main action, the hooks around it, its signature check and
//! its execution mode, and the state machine that runs one request through them.
//!
//! A request goes through validation and body decoding (`accept_request`), then the
//! stages `GlobalPre`, `LocalPre`, `Main`, and either `GlobalPost`, `LocalPost`
//! or, when the main action failed, `GlobalError`, `LocalError`, up to `Done`.
//! Stages without a configured hook are skipped. The caller runs each stage's
//! action and reports its outcome to `advance`; hook failures change nothing.

use crate::action::{permits_for, Action};
use crate::error::{MultihookError, MultihookResult};
use crate::secret_validation::{HMacSecretValidator, Header, SecretValidator};
use crate::settings::{EndpointSettings, Hooks, SecretSettings, Settings};
use vstd::prelude::*;
use vstd::utf8::{decode_utf8, encode_utf8, valid_utf8};

verus! {

/// The optional actions of one scope, global or of one endpoint.
pub struct ActionHooks {
    pre: Option<Action>,
    post: Option<Action>,
    error: Option<Action>,
}

/// A point in the run of one request.
#[derive(Clone, Copy, Debug, PartialEq, Eq, Structural)]
pub enum Stage {
    Start,
    GlobalPre,
    LocalPre,
    Main,
    GlobalPost,
    LocalPost,
    GlobalError,
    LocalError,
    Done,
}

/// The stage after `st` in the fixed order, before skipping absent hooks.
pub open spec fn successor(st: Stage, failed: bool) -> Stage {
    match st {
        Stage::Start => Stage::GlobalPre,
        Stage::GlobalPre => Stage::LocalPre,
        Stage::LocalPre => Stage::Main,
        Stage::Main => if failed {
            Stage::GlobalError
        } else {
            Stage::GlobalPost
        },
        Stage::GlobalPost => Stage::LocalPost,
        Stage::GlobalError => Stage::LocalError,
        _ => Stage::Done,
    }
}

/// How many stages at most are still to come after `st`.
pub open spec fn rank(st: Stage) -> nat {
    match st {
        Stage::Start => 6,
        Stage::GlobalPre => 5,
        Stage::LocalPre => 4,
        Stage::Main => 3,
        Stage::GlobalPost => 2,
        Stage::GlobalError => 2,
        Stage::LocalPost => 1,
        Stage::LocalError => 1,
        Stage::Done => 0,
    }
}

/// Whether a hook is configured in a slot: the configured command, gated as
/// `parallel` says.
pub open spec fn slot_matches(a: Option<Action>, cfg: Option<String>, parallel: bool) -> bool {
    match cfg {
        None => a is None,
        Some(c) => a matches Some(x) && x.command() == c@ && x.gate_size() == permits_for(parallel),
    }
}

pub open spec fn cfg_pre(h: Option<Hooks>) -> Option<String> {
    match h {
        Some(h) => h.pre_action,
        None => None,
    }
}

pub open spec fn cfg_post(h: Option<Hooks>) -> Option<String> {
    match h {
        Some(h) => h.post_action,
        None => None,
    }
}

pub open spec fn cfg_err(h: Option<Hooks>) -> Option<String> {
    match h {
        Some(h) => h.err_action,
        None => None,
    }
}

pub open spec fn env_view(env: Seq<(String, String)>) -> Seq<(Seq<char>, Seq<char>)> {
    env.map_values(|p: (String, String)| (p.0@, p.1@))
}

/// A request that passed validation and body decoding, with its body text.
pub enum Admission {
    /// The run goes on in the background; the caller is answered at once.
    Detached(String),
    /// The caller waits for the run's result.
    Attached(String),
}

/// The state of one request's run.
pub struct Run {
    stage: Stage,
    failure: Option<MultihookError>,
    env: Vec<(String, String)>,
}

impl Run {
    pub closed spec fn stage_spec(&self) -> Stage {
        self.stage
    }

    /// The main action's failure, once it has failed.
    pub closed spec fn failure(&self) -> Option<MultihookError> {
        self.failure
    }

    /// The environment for the processes of the current stage.
    pub closed spec fn env_spec(&self) -> Seq<(Seq<char>, Seq<char>)> {
        env_view(self.env@)
    }

    pub fn stage(&self) -> (r: Stage)
        ensures
            r == self.stage_spec(),
    {
        self.stage
    }

    /// The environment variables for the processes of the current stage.
    pub fn env(&self) -> (r: &Vec<(String, String)>)
        ensures
            env_view(r@) == self.env_spec(),
    {
        &self.env
    }

    /// The result of the request: the main action's failure, if it failed;
    /// hook failures never show here.
    pub fn into_result(self) -> (r: MultihookResult<()>)
        ensures
            match self.failure() {
                Some(e) => r == Err::<(), MultihookError>(e),
                None => r is Ok,
            },
    {
        match self.failure {
            Some(e) => Err(e),
            None => Ok(()),
        }
    }
}

/// Relies on `String::from_utf8`: it succeeds exactly on valid UTF-8, with the
/// characters encoded; its error is kept as its message.
#[verifier::external_body]
fn utf8_string(bytes: Vec<u8>) -> (r: Result<String, String>)
    ensures
        r is Ok <==> valid_utf8(bytes@),
        r matches Ok(s) ==> s@ == decode_utf8(bytes@),
{
    String::from_utf8(bytes).map_err(|e| e.to_string())
}

fn copy_secret(s: &SecretSettings) -> (r: SecretSettings)
    ensures
        r == *s,
{
    SecretSettings { value: s.value.clone(), format: s.format }
}

fn hook_action(cfg: &Option<String>, parallel: bool) -> (r: Option<Action>)
    ensures
        slot_matches(r, *cfg, parallel),
{
    match cfg {
        Some(c) => Some(Action::new(c.as_str(), parallel)),
        None => None,
    }
}

impl ActionHooks {
    fn from_config(cfg: &Option<Hooks>, parallel: bool) -> (r: Self)
        ensures
            slot_matches(r.pre, cfg_pre(*cfg), parallel),
            slot_matches(r.post, cfg_post(*cfg), parallel),
            slot_matches(r.error, cfg_err(*cfg), parallel),
    {
        match cfg {
            Some(h) => ActionHooks {
                pre: hook_action(&h.pre_action, parallel),
                post: hook_action(&h.post_action, parallel),
                error: hook_action(&h.err_action, parallel),
            },
            None => ActionHooks { pre: None, post: None, error: None },
        }
    }
}

/// An endpoint and everything that runs for a request to it.
pub struct HookEndpoint {
    name: String,
    action: Action,
    global_hooks: ActionHooks,
    hooks: ActionHooks,
    run_detached: bool,
    secret: Option<SecretSettings>,
}

impl HookEndpoint {
    pub closed spec fn name(&self) -> Seq<char> {
        self.name@
    }

    pub closed spec fn detached(&self) -> bool {
        self.run_detached
    }

    pub closed spec fn secret(&self) -> Option<SecretSettings> {
        self.secret
    }

    /// The action that runs at stage `st`, if any.
    pub closed spec fn action_of(&self, st: Stage) -> Option<Action> {
        match st {
            Stage::GlobalPre => self.global_hooks.pre,
            Stage::LocalPre => self.hooks.pre,
            Stage::Main => Some(self.action),
            Stage::GlobalPost => self.global_hooks.post,
            Stage::LocalPost => self.hooks.post,
            Stage::GlobalError => self.global_hooks.error,
            Stage::LocalError => self.hooks.error,
            _ => None,
        }
    }

    /// Whether a run stops at `st`: the end, or a stage with an action.
    pub open spec fn has_stage(&self, st: Stage) -> bool {
        st == Stage::Done || self.action_of(st) is Some
    }

    /// The stage that follows `st`, skipping the stages without an action.
    pub open spec fn next_stage(&self, st: Stage, failed: bool) -> Stage
        decreases rank(st),
    {
        if st == Stage::Done {
            Stage::Done
        } else {
            let n = successor(st, failed);
            if self.has_stage(n) {
                n
            } else {
                self.next_stage(n, failed)
            }
        }
    }

    /// Whether the request passes the endpoint's signature check: always where
    /// no secret is configured.
    pub open spec fn admits_secret(&self, headers: Seq<Header>, body: Seq<u8>) -> bool {
        match self.secret() {
            None => true,
            Some(s) => HMacSecretValidator.accepts(headers, body, encode_utf8(s.value@)),
        }
    }

    /// Builds the endpoint `name` from its settings and the global ones. Global
    /// hooks may always run in parallel; the endpoint's own hooks and its
    /// action follow its "allow parallel" flag.
    pub fn from_config(name: &str, global: &Settings, endpoint: &EndpointSettings) -> (r: Self)
        ensures
            r.name() == name@,
            r.detached() == endpoint.run_detached,
            r.secret() == endpoint.secret,
            r.action_of(Stage::Main) matches Some(a) && a.command() == endpoint.action@
                && a.gate_size() == permits_for(endpoint.allow_parallel),
            slot_matches(r.action_of(Stage::GlobalPre), cfg_pre(global.hooks), true),
            slot_matches(r.action_of(Stage::GlobalPost), cfg_post(global.hooks), true),
            slot_matches(r.action_of(Stage::GlobalError), cfg_err(global.hooks), true),
            slot_matches(r.action_of(Stage::LocalPre), cfg_pre(endpoint.hooks), endpoint.allow_parallel),
            slot_matches(r.action_of(Stage::LocalPost), cfg_post(endpoint.hooks), endpoint.allow_parallel),
            slot_matches(r.action_of(Stage::LocalError), cfg_err(endpoint.hooks), endpoint.allow_parallel),
    {
        let secret = match &endpoint.secret {
            Some(s) => Some(copy_secret(s)),
            None => None,
        };
        HookEndpoint {
            name: String::from_str(name),
            action: Action::new(endpoint.action.as_str(), endpoint.allow_parallel),
            global_hooks: ActionHooks::from_config(&global.hooks, true),
            hooks: ActionHooks::from_config(&endpoint.hooks, endpoint.allow_parallel),
            run_detached: endpoint.run_detached,
            secret,
        }
    }

    /// Checks the request's signature where the endpoint has a secret.
    pub fn validate_secret(&self, headers: &Vec<Header>, body: &Vec<u8>) -> (r: MultihookResult<()>)
        ensures
            r is Ok <==> self.admits_secret(headers@, body@),
            r is Err ==> r == Err::<(), MultihookError>(MultihookError::InvalidSecret),
    {
        match &self.secret {
            None => Ok(()),
            Some(secret) => {
                let validator = secret.format.validator();
                if validator.validate(headers, body.as_slice(), secret.value.as_str().as_bytes()) {
                    Ok(())
                } else {
                    Err(MultihookError::InvalidSecret)
                }
            },
        }
    }

    /// Validation and body decoding: the first two steps of every request,
    /// before any hook runs.
    pub fn accept_request(&self, headers: &Vec<Header>, body: Vec<u8>) -> (r: MultihookResult<Admission>)
        ensures
            !self.admits_secret(headers@, body@) ==> r matches Err(MultihookError::InvalidSecret),
            self.admits_secret(headers@, body@) && !valid_utf8(body@) ==> r matches Err(
                MultihookError::UTF8Error(_),
            ),
            self.admits_secret(headers@, body@) && valid_utf8(body@) ==> match r {
                Ok(Admission::Detached(text)) => self.detached() && text@ == decode_utf8(body@),
                Ok(Admission::Attached(text)) => !self.detached() && text@ == decode_utf8(body@),
                Err(_) => false,
            },
    {
        match self.validate_secret(headers, &body) {
            Err(e) => Err(e),
            Ok(()) => match utf8_string(body) {
                Err(m) => Err(MultihookError::UTF8Error(m)),
                Ok(text) => if self.run_detached {
                    Ok(Admission::Detached(text))
                } else {
                    Ok(Admission::Attached(text))
                },
            },
        }
    }

    /// A new run for a request with body `body`: its environment names the
    /// endpoint and holds the body.
    pub fn start_run(&self, body: &str) -> (r: Run)
        ensures
            r.stage_spec() == Stage::Start,
            r.failure() is None,
            r.env_spec() == seq![("HOOK_NAME"@, self.name()), ("HOOK_BODY"@, body@)],
    {
        let mut env: Vec<(String, String)> = Vec::new();
        env.push((String::from_str("HOOK_NAME"), self.name.clone()));
        env.push((String::from_str("HOOK_BODY"), String::from_str(body)));
        assert(env_view(env@) =~= seq![("HOOK_NAME"@, self.name()), ("HOOK_BODY"@, body@)]);
        Run { stage: Stage::Start, failure: None, env }
    }

    /// The action to run at stage `st`.
    pub fn action_at(&self, st: Stage) -> (r: Option<&Action>)
        ensures
            match r {
                Some(a) => self.action_of(st) == Some(*a),
                None => self.action_of(st) is None,
            },
    {
        match st {
            Stage::GlobalPre => self.global_hooks.pre.as_ref(),
            Stage::LocalPre => self.hooks.pre.as_ref(),
            Stage::Main => Some(&self.action),
            Stage::GlobalPost => self.global_hooks.post.as_ref(),
            Stage::LocalPost => self.hooks.post.as_ref(),
            Stage::GlobalError => self.global_hooks.error.as_ref(),
            Stage::LocalError => self.hooks.error.as_ref(),
            _ => None,
        }
    }

    fn has_stage_exec(&self, st: Stage) -> (r: bool)
        ensures
            r == self.has_stage(st),
    {
        match st {
            Stage::Done => true,
            _ => self.action_at(st).is_some(),
        }
    }

    fn next_stage_exec(&self, st: Stage, failed: bool) -> (r: Stage)
        ensures
            r == self.next_stage(st, failed),
    {
        let mut cur = st;
        while cur != Stage::Done
            invariant
                self.next_stage(st, failed) == self.next_stage(cur, failed),
                cur != st ==> self.has_stage(cur) ==> cur == self.next_stage(st, failed),
            decreases rank(cur),
        {
            let n = match cur {
                Stage::Start => Stage::GlobalPre,
                Stage::GlobalPre => Stage::LocalPre,
                Stage::LocalPre => Stage::Main,
                Stage::Main => if failed {
                    Stage::GlobalError
                } else {
                    Stage::GlobalPost
                },
                Stage::GlobalPost => Stage::LocalPost,
                Stage::GlobalError => Stage::LocalError,
                _ => Stage::Done,
            };
            if self.has_stage_exec(n) {
                return n;
            }
            cur = n;
        }
        Stage::Done
    }

    /// Records the outcome of the current stage's action and moves the run on.
    /// A failure of the main action is kept as the run's result and its message
    /// goes into the environment of the error hooks as `HOOK_ERROR`; the
    /// outcome of a hook changes nothing.
    pub fn advance(&self, run: &mut Run, outcome: MultihookResult<()>)
        requires
            old(run).stage_spec() != Stage::Done,
        ensures
            ({
                let main_failed = old(run).stage_spec() == Stage::Main && outcome is Err;
                &&& final(run).failure() == if main_failed {
                    Some(outcome->Err_0)
                } else {
                    old(run).failure()
                }
                &&& final(run).env_spec() == if main_failed {
                    old(run).env_spec().push(("HOOK_ERROR"@, outcome->Err_0.message_spec()))
                } else {
                    old(run).env_spec()
                }
                &&& final(run).stage_spec() == self.next_stage(
                    old(run).stage_spec(),
                    final(run).failure() is Some,
                )
            }),
    {
        if run.stage == Stage::Main {
            if let Err(e) = outcome {
                let message = e.message();
                let ghost old_env = run.env@;
                run.env.push((String::from_str("HOOK_ERROR"), message));
                assert(env_view(run.env@) =~= env_view(old_env).push(("HOOK_ERROR"@, e.message_spec())));
                run.failure = Some(e);
            }
        }
        let failed = run.failure.is_some();
        run.stage = self.next_stage_exec(run.stage, failed);
    }
}

/// The stages a run stops at after `st`, up to `Done`, when the main action
/// fails (`failed`) or succeeds.
pub open spec fn visits(ep: &HookEndpoint, st: Stage, failed: bool) -> Seq<Stage>
    decreases rank(st),
{
    if st == Stage::Done {
        Seq::empty()
    } else {
        let n = ep.next_stage(st, failed);
        if rank(n) < rank(st) {
            seq![n] + visits(ep, n, failed)
        } else {
            Seq::empty()
        }
    }
}

/// `st` where the endpoint has an action for it, else nothing.
pub open spec fn if_present(ep: &HookEndpoint, st: Stage) -> Seq<Stage> {
    if ep.has_stage(st) {
        seq![st]
    } else {
        Seq::empty()
    }
}

/// The hooks in their fixed order around the main action: global before local,
/// pre-hooks before it, then post-hooks after a success or error hooks after a
/// failure, each only where configured.
pub open spec fn hook_order(ep: &HookEndpoint, failed: bool) -> Seq<Stage> {
    if_present(ep, Stage::GlobalPre) + if_present(ep, Stage::LocalPre) + seq![Stage::Main] + (
    if failed {
        if_present(ep, Stage::GlobalError) + if_present(ep, Stage::LocalError)
    } else {
        if_present(ep, Stage::GlobalPost) + if_present(ep, Stage::LocalPost)
    }) + seq![Stage::Done]
}

/// A run visits the configured hooks in their fixed order: global pre-hook,
/// local pre-hook, the main action, then global and local post-hooks after a
/// success or global and local error hooks after a failure.
pub proof fn lemma_hook_order(ep: &HookEndpoint, failed: bool)
    ensures
        visits(ep, Stage::Start, failed) == hook_order(ep, failed),
{
    reveal_with_fuel(HookEndpoint::next_stage, 8);
    reveal_with_fuel(visits, 8);
    assert(visits(ep, Stage::Start, failed) =~= hook_order(ep, failed));
}

/// Every endpoint has a main action.
pub proof fn lemma_main_stage_present(ep: &HookEndpoint)
    ensures
        ep.action_of(Stage::Main) is Some,
        ep.has_stage(Stage::Main),
{
}

/// An endpoint without a secret admits every request, whatever its headers.
pub proof fn lemma_open_endpoint_admits(ep: &HookEndpoint, headers: Seq<Header>, body: Seq<u8>)
    requires
        ep.secret() is None,
    ensures
        ep.admits_secret(headers, body),
{
}

} // verus!
