//! Registration of one advertised service.
//!
//! A registration is a little state machine: `Created`, then `Registering`
//! once the native request is issued, then exactly one terminal transition to
//! `Registered`, `NameCollision` or `Failed` when the native layer signals
//! the outcome.  The user callback fires exactly once per attempt, on that
//! terminal transition — never once per poll iteration — and a success
//! carries the name and domain the daemon actually accepted, which may
//! differ from the request when the daemon renamed on a conflict.
//!
//! For a platform whose native service does not rename on conflicts itself,
//! the configurable policy here appends `-2`, `-3`, … to the requested
//! instance name; the accepted name then always differs from a taken request.

use vstd::prelude::*;

use crate::error::Error;
use crate::service_type::ServiceType;

verus! {

/// The result value of a successful registration: the name, type and domain
/// the native daemon actually assigned.
#[derive(Debug, Clone)]
pub struct ServiceRegistration {
    name: String,
    service_type: ServiceType,
    domain: String,
}

impl ServiceRegistration {
    pub closed spec fn spec_name(self) -> Seq<char> {
        self.name@
    }

    pub closed spec fn spec_service_type(self) -> ServiceType {
        self.service_type
    }

    pub closed spec fn spec_domain(self) -> Seq<char> {
        self.domain@
    }

    /// Bundles what the daemon assigned.
    pub fn new(name: String, service_type: ServiceType, domain: String) -> (r: ServiceRegistration)
        ensures
            r.spec_name() == name@,
            r.spec_service_type() == service_type,
            r.spec_domain() == domain@,
    {
        ServiceRegistration { name, service_type, domain }
    }

    /// The instance name the daemon accepted (possibly renamed).
    pub fn name(&self) -> (r: &String)
        ensures
            r@ == self.spec_name(),
    {
        &self.name
    }

    /// The registered service type.
    pub fn service_type(&self) -> (r: &ServiceType)
        ensures
            *r == self.spec_service_type(),
    {
        &self.service_type
    }

    /// The domain the registration landed in.
    pub fn domain(&self) -> (r: &String)
        ensures
            r@ == self.spec_domain(),
    {
        &self.domain
    }
}

/// The lifecycle of one registration attempt.
#[derive(Debug, Copy, Clone, PartialEq, Eq, Structural)]
pub enum RegistrationState {
    /// Built, not yet handed to the native layer.
    Created,
    /// The native request is outstanding; the outcome will arrive during a
    /// poll iteration.
    Registering,
    /// The daemon accepted the service (under the accepted name).
    Registered,
    /// The daemon gave the name up as colliding and could not rename.
    NameCollision,
    /// The daemon rejected the registration.
    Failed,
}

impl RegistrationState {
    /// The states a registration attempt ends in.
    pub open spec fn is_terminal(self) -> bool {
        self is Registered || self is NameCollision || self is Failed
    }
}

/// What the native layer reports about an outstanding registration.
#[derive(Debug, Clone)]
pub enum RegistrationEvent {
    /// Accepted, under this (possibly renamed) name and domain.
    Success { name: String, domain: String },
    /// The name collided and renaming was exhausted.
    Collision { message: String },
    /// The daemon rejected the registration.
    Failure { message: String },
}

/// The state a registration moves to on a native event: an outstanding
/// attempt takes its one terminal transition, any other state ignores the
/// event.
pub open spec fn spec_next_state(s: RegistrationState, e: RegistrationEvent) -> RegistrationState {
    if s is Registering {
        match e {
            RegistrationEvent::Success { .. } => RegistrationState::Registered,
            RegistrationEvent::Collision { .. } => RegistrationState::NameCollision,
            RegistrationEvent::Failure { .. } => RegistrationState::Failed,
        }
    } else {
        s
    }
}

/// The user callback fires exactly on the terminal transition.
pub open spec fn spec_fires(s: RegistrationState, e: RegistrationEvent) -> bool {
    s is Registering
}

/// The callback fires exactly once per registration attempt: the first
/// native event takes the outstanding attempt to a terminal state and fires,
/// and whatever arrives after that fires nothing and moves nothing.
pub proof fn lemma_callback_fires_once(
    s: RegistrationState,
    e1: RegistrationEvent,
    e2: RegistrationEvent,
)
    requires
        s is Registering,
    ensures
        spec_fires(s, e1),
        spec_next_state(s, e1).is_terminal(),
        !spec_fires(spec_next_state(s, e1), e2),
        spec_next_state(spec_next_state(s, e1), e2) == spec_next_state(s, e1),
{
}

/// Hands the built registration to the native layer: the attempt becomes
/// outstanding.
pub fn start_registration(state: RegistrationState) -> (r: RegistrationState)
    requires
        state is Created,
    ensures
        r is Registering,
{
    RegistrationState::Registering
}

/// Feeds one native event to a registration: yields the next state and, on
/// the one terminal transition, the outcome for the user callback — a
/// success carries the accepted name and domain, a collision or rejection a
/// `RegistrationError`.  In a terminal state (or before starting) the event
/// is ignored, so the callback never fires twice for one attempt.
pub fn registration_step(
    state: RegistrationState,
    event: RegistrationEvent,
    service_type: ServiceType,
) -> (r: (RegistrationState, Option<Result<ServiceRegistration, Error>>))
    ensures
        r.0 == spec_next_state(state, event),
        (r.1 is Some) == spec_fires(state, event),
        state is Registering ==> match event {
            RegistrationEvent::Success { name, domain } => r.1 matches Some(Ok(reg))
                && reg.spec_name() == name@ && reg.spec_domain() == domain@
                && reg.spec_service_type() == service_type,
            RegistrationEvent::Collision { message } => r.1 matches Some(
                Err(Error::RegistrationError { message: m }),
            ) && m@ == message@,
            RegistrationEvent::Failure { message } => r.1 matches Some(
                Err(Error::RegistrationError { message: m }),
            ) && m@ == message@,
        },
{
    match state {
        RegistrationState::Registering => match event {
            RegistrationEvent::Success { name, domain } => (
                RegistrationState::Registered,
                Some(Ok(ServiceRegistration::new(name, service_type, domain))),
            ),
            RegistrationEvent::Collision { message } => (
                RegistrationState::NameCollision,
                Some(Err(Error::RegistrationError { message })),
            ),
            RegistrationEvent::Failure { message } => (
                RegistrationState::Failed,
                Some(Err(Error::RegistrationError { message })),
            ),
        },
        _ => (state, None),
    }
}

/// Interprets the daemon's answer to re-committing an updated TXT record to
/// a registration's native group handle: a non-zero code means the daemon
/// rejected the commit (a record too large, say), surfaced with the native
/// diagnostic.
pub fn commit_txt_outcome(code: i32, diagnostic: String) -> (r: Result<(), Error>)
    ensures
        code == 0 ==> r == Ok::<(), Error>(()),
        code != 0 ==> (r matches Err(Error::RegistrationError { message }) && message@
            == diagnostic@),
{
    if code == 0 {
        Ok(())
    } else {
        Err(Error::RegistrationError { message: diagnostic })
    }
}

/// The decimal digit characters.
pub open spec fn digit_char_spec(d: nat) -> char {
    if d == 0 {
        '0'
    } else if d == 1 {
        '1'
    } else if d == 2 {
        '2'
    } else if d == 3 {
        '3'
    } else if d == 4 {
        '4'
    } else if d == 5 {
        '5'
    } else if d == 6 {
        '6'
    } else if d == 7 {
        '7'
    } else if d == 8 {
        '8'
    } else {
        '9'
    }
}

/// The decimal writing of a number, most significant digit first.
pub open spec fn spec_decimal(n: nat) -> Seq<char>
    decreases n,
{
    if n < 10 {
        seq![digit_char_spec(n)]
    } else {
        spec_decimal(n / 10) + seq![digit_char_spec(n % 10)]
    }
}

/// A decimal writing is never empty.
proof fn lemma_decimal_len(n: nat)
    ensures
        spec_decimal(n).len() >= 1,
    decreases n,
{
    if n >= 10 {
        lemma_decimal_len(n / 10);
    }
}

/// One decimal digit as a string.
fn digit_str(d: u32) -> (r: &'static str)
    requires
        d < 10,
    ensures
        r@ == seq![digit_char_spec(d as nat)],
{
    proof {
        reveal_strlit("0");
        reveal_strlit("1");
        reveal_strlit("2");
        reveal_strlit("3");
        reveal_strlit("4");
        reveal_strlit("5");
        reveal_strlit("6");
        reveal_strlit("7");
        reveal_strlit("8");
        reveal_strlit("9");
    }
    let r = if d == 0 {
        "0"
    } else if d == 1 {
        "1"
    } else if d == 2 {
        "2"
    } else if d == 3 {
        "3"
    } else if d == 4 {
        "4"
    } else if d == 5 {
        "5"
    } else if d == 6 {
        "6"
    } else if d == 7 {
        "7"
    } else if d == 8 {
        "8"
    } else {
        "9"
    };
    proof {
        assert(r@ =~= seq![digit_char_spec(d as nat)]);
    }
    r
}

/// Appends the decimal writing of a number.
pub fn push_decimal(n: u32, out: &mut String)
    ensures
        final(out)@ == old(out)@ + spec_decimal(n as nat),
    decreases n,
{
    let ghost prefix = out@;
    if n >= 10 {
        push_decimal(n / 10, out);
    }
    out.append(digit_str(n % 10));
    proof {
        if n < 10 {
            assert(n % 10 == n);
            assert(final(out)@ =~= prefix + spec_decimal(n as nat));
        } else {
            assert(final(out)@ =~= prefix + (spec_decimal((n / 10) as nat) + seq![
                digit_char_spec((n % 10) as nat),
            ]));
        }
    }
}

/// The conflict-rename policy's accepted name: the request with `-n`
/// appended, `n` numbering the attempt.
pub open spec fn spec_renamed(requested: Seq<char>, attempt: nat) -> Seq<char> {
    requested + seq!['-'] + spec_decimal(attempt)
}

/// The name the daemonless policy accepts: the request itself when no active
/// service holds it, otherwise the request renamed for this attempt.
pub open spec fn spec_assign(requested: Seq<char>, taken: Seq<Seq<char>>, attempt: nat) -> Seq<
    char,
> {
    if taken.contains(requested) {
        spec_renamed(requested, attempt)
    } else {
        requested
    }
}

/// Registering under a requested name another active service already holds
/// yields an accepted name that differs from the request — surfaced in the
/// registration result's name, not as an error.
pub proof fn lemma_second_registration_renamed(
    requested: Seq<char>,
    taken: Seq<Seq<char>>,
    attempt: nat,
)
    requires
        taken.contains(requested),
    ensures
        spec_assign(requested, taken, attempt) != requested,
{
    lemma_decimal_len(attempt);
    assert(spec_renamed(requested, attempt).len() > requested.len());
}

/// The request with the rename suffix for this attempt.
pub fn renamed_instance(requested: &str, attempt: u32) -> (r: String)
    ensures
        r@ == spec_renamed(requested@, attempt as nat),
        r@ != requested@,
{
    proof {
        reveal_strlit("-");
    }
    let mut r = requested.to_owned();
    r.append("-");
    push_decimal(attempt, &mut r);
    proof {
        assert(r@ =~= spec_renamed(requested@, attempt as nat));
        lemma_decimal_len(attempt as nat);
    }
    r
}

/// Picks the accepted instance name against the names active on this host:
/// an untaken request is accepted as it stands, a taken one is renamed by
/// the policy and so always differs from the request.
pub fn assign_instance_name(requested: &str, taken: &Vec<String>, attempt: u32) -> (r: String)
    ensures
        r@ == spec_assign(requested@, taken@.map_values(|s: String| s@), attempt as nat),
        taken@.map_values(|s: String| s@).contains(requested@) ==> r@ != requested@,
{
    let req = requested.to_owned();
    let n = taken.len();
    let ghost names = taken@.map_values(|s: String| s@);
    let mut i: usize = 0;
    while i < n
        invariant
            n == taken@.len(),
            0 <= i <= n,
            names == taken@.map_values(|s: String| s@),
            req@ == requested@,
            forall|m: int| 0 <= m < i ==> names[m] != requested@,
        decreases n - i,
    {
        if taken[i] == req {
            assert(names[i as int] == requested@);
            assert(names.contains(requested@));
            return renamed_instance(requested, attempt);
        }
        i = i + 1;
    }
    assert(!names.contains(requested@));
    req
}

} // verus!
