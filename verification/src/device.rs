//! The device-flow polling state machine: how each token-endpoint response is
//! classified, how the attempt budget evolves, and what outcome a whole run
//! of responses produces.

use vstd::prelude::*;

use crate::errors::{ProtocolFault, SwitchError};
use crate::models::AccessTokenResponse;

verus! {

/// How one token-endpoint response is read.
pub enum TokenClass {
    /// A non-empty access token: short-circuits regardless of error fields.
    Granted(Seq<char>),
    /// `authorization_pending`, or a response with neither token nor error:
    /// wait one interval, the attempt counter advances.
    Pending,
    /// `slow_down`: wait five seconds longer, the attempt counter stands.
    SlowDown,
    /// `expired_token`: the window is over.
    ExpiredCode,
    /// `access_denied`: the user declined.
    Denied,
    /// Any other error code.
    Faulted(Seq<char>),
}

pub open spec fn classify_error(e: Option<String>) -> TokenClass {
    match e {
        Some(c) => if c@ == "authorization_pending"@ {
            TokenClass::Pending
        } else if c@ == "slow_down"@ {
            TokenClass::SlowDown
        } else if c@ == "expired_token"@ {
            TokenClass::ExpiredCode
        } else if c@ == "access_denied"@ {
            TokenClass::Denied
        } else {
            TokenClass::Faulted(c@)
        },
        None => TokenClass::Pending,
    }
}

/// How a response is read: a non-empty token wins; otherwise the error code
/// decides; no token and no error counts as pending.
pub open spec fn classify(r: AccessTokenResponse) -> TokenClass {
    match r.access_token {
        Some(t) => if t@.len() > 0 {
            TokenClass::Granted(t@)
        } else {
            classify_error(r.error)
        },
        None => classify_error(r.error),
    }
}

/// The poll loop's state: how many interval waits were spent against the
/// budget of floor(expires_in / interval).
#[derive(Clone, Copy)]
pub struct PollState {
    pub attempts_used: u64,
    pub max_attempts: u64,
    pub interval_secs: u64,
}

impl PollState {
    pub open spec fn wf(&self) -> bool {
        &&& 1 <= self.interval_secs
        &&& self.interval_secs <= u64::MAX - 5
        &&& self.attempts_used <= self.max_attempts
    }

    /// The state at the start of a poll.
    pub fn new(interval: u64, expires_in: u64) -> (r: PollState)
        requires
            1 <= interval <= u64::MAX - 5,
        ensures
            r.attempts_used == 0,
            r.max_attempts == expires_in / interval,
            r.interval_secs == interval,
            r.wf(),
    {
        PollState { attempts_used: 0, max_attempts: expires_in / interval, interval_secs: interval }
    }

    /// Whether the validity window is exhausted: polled once per interval,
    /// the budget spent so far covers the whole window.
    pub fn budget_exhausted(&self) -> (r: bool)
        ensures
            r == (self.attempts_used >= self.max_attempts),
    {
        self.attempts_used >= self.max_attempts
    }

    /// One step of the machine on a token-endpoint response.
    pub fn on_response(self, resp: &AccessTokenResponse) -> (r: PollStep)
        requires
            self.wf(),
            self.attempts_used < self.max_attempts,
        ensures
            (match classify(*resp) {
                TokenClass::Granted(t) => r matches PollStep::Granted(tok) && tok@ == t,
                TokenClass::Pending => r == PollStep::Wait(
                    (PollState {
                        attempts_used: (self.attempts_used + 1) as u64,
                        max_attempts: self.max_attempts,
                        interval_secs: self.interval_secs,
                    }),
                    self.interval_secs,
                ),
                TokenClass::SlowDown => r == PollStep::Wait(
                    self,
                    (self.interval_secs + 5) as u64,
                ),
                TokenClass::ExpiredCode => r == PollStep::Refused(SwitchError::Expired),
                TokenClass::Denied => r == PollStep::Refused(SwitchError::AccessDenied),
                TokenClass::Faulted(c) => r matches PollStep::Refused(
                    SwitchError::Protocol(ProtocolFault::ErrorCode(code)),
                ) && code@ == c,
            }),
    {
        match &resp.access_token {
            Some(t) => {
                if !t.as_str().is_empty() {
                    return PollStep::Granted(t.clone());
                }
            },
            None => {},
        }
        let pending = PollStep::Wait(
            PollState {
                attempts_used: self.attempts_used + 1,
                max_attempts: self.max_attempts,
                interval_secs: self.interval_secs,
            },
            self.interval_secs,
        );
        match &resp.error {
            Some(e) => {
                if *e == "authorization_pending".to_owned() {
                    pending
                } else if *e == "slow_down".to_owned() {
                    PollStep::Wait(self, self.interval_secs + 5)
                } else if *e == "expired_token".to_owned() {
                    PollStep::Refused(SwitchError::Expired)
                } else if *e == "access_denied".to_owned() {
                    PollStep::Refused(SwitchError::AccessDenied)
                } else {
                    PollStep::Refused(SwitchError::Protocol(ProtocolFault::ErrorCode(e.clone())))
                }
            },
            None => pending,
        }
    }
}

/// What one step asks the driver to do next.
pub enum PollStep {
    /// The token was granted.
    Granted(String),
    /// A terminal failure.
    Refused(SwitchError),
    /// Sleep this many seconds, then poll again from the new state.
    Wait(PollState, u64),
}

/// The terminal reading of a run of responses.
pub enum PollVerdict {
    Granted(Seq<char>),
    Expired,
    Denied,
    Faulted(Seq<char>),
    NeedMore,
}

/// What a run of the poll loop returns when it is driven over a sequence of
/// responses: the budget is checked before each poll, a granted token or a
/// terminal error stops the run, pending spends budget, slow_down does not.
pub open spec fn spec_poll(rs: Seq<AccessTokenResponse>, used: nat, budget: nat) -> PollVerdict
    decreases rs.len(),
{
    if used >= budget {
        PollVerdict::Expired
    } else if rs.len() == 0 {
        PollVerdict::NeedMore
    } else {
        match classify(rs[0]) {
            TokenClass::Granted(t) => PollVerdict::Granted(t),
            TokenClass::Pending => spec_poll(rs.drop_first(), used + 1, budget),
            TokenClass::SlowDown => spec_poll(rs.drop_first(), used, budget),
            TokenClass::ExpiredCode => PollVerdict::Expired,
            TokenClass::Denied => PollVerdict::Denied,
            TokenClass::Faulted(c) => PollVerdict::Faulted(c),
        }
    }
}

/// The outcome of driving the machine over a recorded sequence of responses.
pub enum PollResult {
    Granted(String),
    Failed(SwitchError),
    /// The responses ran out while the flow was still pending.
    NeedMore,
}

/// Drives the polling machine over a sequence of responses, as the live loop
/// would, without the waits.
#[verifier::loop_isolation(false)]
pub fn run_poll(responses: &Vec<AccessTokenResponse>, interval: u64, expires_in: u64) -> (r:
    PollResult)
    requires
        1 <= interval <= u64::MAX - 5,
    ensures
        (match spec_poll(responses@, 0, (expires_in / interval) as nat) {
            PollVerdict::Granted(t) => r matches PollResult::Granted(tok) && tok@ == t,
            PollVerdict::Expired => r == PollResult::Failed(SwitchError::Expired),
            PollVerdict::Denied => r == PollResult::Failed(SwitchError::AccessDenied),
            PollVerdict::Faulted(c) => r matches PollResult::Failed(
                SwitchError::Protocol(ProtocolFault::ErrorCode(code)),
            ) && code@ == c,
            PollVerdict::NeedMore => r == PollResult::NeedMore,
        }),
{
    let ghost budget = (expires_in / interval) as nat;
    let mut st = PollState::new(interval, expires_in);
    let n = responses.len();
    let mut i: usize = 0;
    proof {
        assert(responses@.skip(0) =~= responses@);
    }
    while i < n
        invariant
            i <= n,
            st.wf(),
            st.max_attempts == expires_in / interval,
            spec_poll(responses@.skip(i as int), st.attempts_used as nat, budget) == spec_poll(
                responses@,
                0,
                budget,
            ),
        decreases n - i,
    {
        if st.budget_exhausted() {
            return PollResult::Failed(SwitchError::Expired);
        }
        proof {
            assert(responses@.skip(i as int)[0] == responses@[i as int]);
            assert(responses@.skip(i as int).drop_first() =~= responses@.skip(i as int + 1));
        }
        match st.on_response(&responses[i]) {
            PollStep::Granted(tok) => {
                return PollResult::Granted(tok);
            },
            PollStep::Refused(e) => {
                return PollResult::Failed(e);
            },
            PollStep::Wait(st2, _sleep) => {
                st = st2;
            },
        }
        i += 1;
    }
    proof {
        assert(responses@.skip(i as int) =~= Seq::<AccessTokenResponse>::empty());
    }
    if st.budget_exhausted() {
        PollResult::Failed(SwitchError::Expired)
    } else {
        PollResult::NeedMore
    }
}

/// A granted verdict always carries a non-empty token.
pub proof fn lemma_granted_nonempty(rs: Seq<AccessTokenResponse>, used: nat, budget: nat)
    ensures
        (match spec_poll(rs, used, budget) {
            PollVerdict::Granted(t) => t.len() > 0,
            _ => true,
        }),
    decreases rs.len(),
{
    if used >= budget {
    } else if rs.len() == 0 {
    } else {
        match classify(rs[0]) {
            TokenClass::Pending => lemma_granted_nonempty(rs.drop_first(), used + 1, budget),
            TokenClass::SlowDown => lemma_granted_nonempty(rs.drop_first(), used, budget),
            _ => {},
        }
    }
}

/// Holds when every response in a run keeps the flow waiting.
pub open spec fn waiting_only(rs: Seq<AccessTokenResponse>) -> bool {
    forall|i: int|
        0 <= i < rs.len() ==> (classify(rs[i]) is Pending || classify(rs[i]) is SlowDown)
}

/// How many responses of a run spend the attempt budget.
pub open spec fn count_pending(rs: Seq<AccessTokenResponse>) -> nat
    decreases rs.len(),
{
    if rs.len() == 0 {
        0
    } else {
        (if classify(rs[0]) is Pending {
            1nat
        } else {
            0nat
        }) + count_pending(rs.drop_first())
    }
}

/// The budget law: over responses that only keep the flow waiting, the run
/// expires exactly when the pending responses spent on top of those already
/// used reach the budget of floor(expires_in / interval); slow_down responses
/// never count against it.
pub proof fn lemma_pending_budget(rs: Seq<AccessTokenResponse>, used: nat, budget: nat)
    requires
        waiting_only(rs),
    ensures
        spec_poll(rs, used, budget) == (if count_pending(rs) + used >= budget {
            PollVerdict::Expired
        } else {
            PollVerdict::NeedMore
        }),
    decreases rs.len(),
{
    if used >= budget {
    } else if rs.len() == 0 {
    } else {
        assert forall|i: int|
            0 <= i < rs.drop_first().len() implies (classify(rs.drop_first()[i]) is Pending
            || classify(rs.drop_first()[i]) is SlowDown) by {
            assert(rs.drop_first()[i] == rs[i + 1]);
        }
        if classify(rs[0]) is Pending {
            lemma_pending_budget(rs.drop_first(), used + 1, budget);
        } else {
            lemma_pending_budget(rs.drop_first(), used, budget);
        }
    }
}

} // verus!
