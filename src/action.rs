//! An action: a command template with the semaphore that bounds how many runs of it
//! may be in flight at once.

use crate::error::{MultihookError, MultihookResult};
use crate::json::JsonValue;
use crate::template::{scan, splice, substitutions, CommandTemplate};
use std::sync::Arc;
use tokio::sync::Semaphore;
use vstd::prelude::*;

verus! {

/// tokio's semaphore, carried through opaquely: each action's concurrency limit.
#[verifier::external_type_specification]
#[verifier::external_body]
pub struct ExSemaphore(tokio::sync::Semaphore);

/// How many runs of an action that may run in parallel with itself can be in flight.
pub const MAX_CONCURRENCY: usize = 256;

/// The permit count for the "allow parallel" flag.
pub open spec fn permits_for(allow_parallel: bool) -> nat {
    if allow_parallel {
        MAX_CONCURRENCY as nat
    } else {
        1
    }
}

/// The number of permits that a semaphore was created with: the bound on how
/// many holders it admits at once.
pub uninterp spec fn semaphore_capacity(s: Semaphore) -> nat;

/// Relies on tokio's `Semaphore::new`: a semaphore with exactly `permits`
/// permits; it panics only above `MAX_PERMITS` (at least 2^29).
#[verifier::external_body]
fn new_gate(permits: usize) -> (r: Arc<Semaphore>)
    requires
        permits <= MAX_CONCURRENCY,
    ensures
        semaphore_capacity(*r) == permits,
{
    Arc::new(Semaphore::new(permits))
}

pub struct Action {
    template: CommandTemplate,
    semaphore: Arc<Semaphore>,
    permits: usize,
}

impl Action {
    #[verifier::type_invariant]
    spec fn well_formed(&self) -> bool {
        self.permits as nat == semaphore_capacity(*self.semaphore)
    }

    /// The command source.
    pub closed spec fn command(&self) -> Seq<char> {
        self.template.source()
    }

    /// How many runs of this action may be in flight at once.
    pub closed spec fn gate_size(&self) -> nat {
        semaphore_capacity(*self.semaphore)
    }

    /// An action running `command`, serialised unless `allow_parallel`.
    pub fn new(command: &str, allow_parallel: bool) -> (r: Self)
        ensures
            r.command() == command@,
            r.gate_size() == permits_for(allow_parallel),
    {
        let permits = if allow_parallel {
            MAX_CONCURRENCY
        } else {
            1
        };
        Action { template: CommandTemplate::new(command), semaphore: new_gate(permits), permits }
    }

    /// How many runs may be in flight at once.
    pub fn permits(&self) -> (r: usize)
        ensures
            r == self.gate_size(),
    {
        proof {
            use_type_invariant(self);
        }
        self.permits
    }

    /// The semaphore: one permit is held for the lifetime of each run's process.
    pub fn gate(&self) -> (r: &Arc<Semaphore>)
        ensures
            semaphore_capacity(**r) == self.gate_size(),
    {
        &self.semaphore
    }

    /// The shell command that this action runs for a request body.
    pub fn command_for(&self, body: &JsonValue) -> (r: String)
        ensures
            r@ == splice(
                self.command(),
                scan(self.command(), 0),
                substitutions(self.command(), scan(self.command(), 0), *body),
            ),
    {
        self.template.evaluate(body)
    }
}

/// The characters that `bytes` decode to, with each invalid sequence replaced
/// by U+FFFD.
pub uninterp spec fn lossy_text(bytes: Seq<u8>) -> Seq<char>;

/// Relies on `String::from_utf8_lossy`: valid UTF-8 decodes unchanged.
#[verifier::external_body]
fn utf8_lossy(bytes: &[u8]) -> (r: String)
    ensures
        r@ == lossy_text(bytes@),
        vstd::utf8::valid_utf8(bytes@) ==> r@ == vstd::utf8::decode_utf8(bytes@),
{
    String::from_utf8_lossy(bytes).into_owned()
}

/// The outcome of a run whose process has exited: success on a zero exit
/// status, else an action failure carrying the process's standard error.
pub fn outcome(success: bool, stderr: &[u8]) -> (r: MultihookResult<()>)
    ensures
        success ==> r is Ok,
        !success ==> (r matches Err(MultihookError::ActionError(m)) && m@ == lossy_text(stderr@)),
        !success && vstd::utf8::valid_utf8(stderr@) ==> (r matches Err(MultihookError::ActionError(m))
            && m@ == vstd::utf8::decode_utf8(stderr@)),
{
    if success {
        Ok(())
    } else {
        Err(MultihookError::ActionError(utf8_lossy(stderr)))
    }
}

} // verus!
