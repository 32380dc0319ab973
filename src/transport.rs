use vstd::prelude::*;
use crate::auth::{AuthError, GoogleAuth};

verus! {

/// Where one authorized call stands in its retry-once policy.
#[derive(Debug, Clone, Copy, PartialEq, Eq, Structural)]
pub enum CallPhase {
    /// No reply has been seen yet.
    FirstAttempt,
    /// The first reply signalled an authorization failure and a refresh was asked for.
    AfterRefresh,
    /// The call has delivered a reply or failed: nothing more is sent.
    Finished,
}

/// What the caller does next with one authorized call.
#[derive(Debug, Clone, Copy, PartialEq, Eq, Structural)]
pub enum CallStep {
    /// Refresh the credential, then send the same request once more.
    Refresh,
    /// The reply is the answer: hand it on.
    Deliver,
    /// Give up on the operation with this error.
    Fail(AuthError),
}

/// The transition of the retry-once policy: the next phase and the step to
/// take, given the current phase and whether the reply signalled an
/// authorization failure.
pub open spec fn call_transition(phase: CallPhase, auth_failed: bool) -> (CallPhase, CallStep) {
    match phase {
        CallPhase::FirstAttempt => if auth_failed {
            (CallPhase::AfterRefresh, CallStep::Refresh)
        } else {
            (CallPhase::Finished, CallStep::Deliver)
        },
        CallPhase::AfterRefresh => if auth_failed {
            (CallPhase::Finished, CallStep::Fail(AuthError::RefreshFailed))
        } else {
            (CallPhase::Finished, CallStep::Deliver)
        },
        CallPhase::Finished => (CallPhase::Finished, CallStep::Fail(AuthError::RefreshFailed)),
    }
}

/// The phase reached after feeding the replies, in order, from `phase`.
pub open spec fn phase_after(phase: CallPhase, replies: Seq<bool>) -> CallPhase
    decreases replies.len(),
{
    if replies.len() == 0 {
        phase
    } else {
        call_transition(phase_after(phase, replies.drop_last()), replies.last()).0
    }
}

/// The steps taken for the replies, in order, from `phase`.
pub open spec fn steps_after(phase: CallPhase, replies: Seq<bool>) -> Seq<CallStep>
    decreases replies.len(),
{
    if replies.len() == 0 {
        Seq::empty()
    } else {
        steps_after(phase, replies.drop_last()).push(
            call_transition(phase_after(phase, replies.drop_last()), replies.last()).1,
        )
    }
}

/// The number of refresh steps in a sequence of steps.
pub open spec fn refresh_count(steps: Seq<CallStep>) -> nat
    decreases steps.len(),
{
    if steps.len() == 0 {
        0
    } else {
        refresh_count(steps.drop_last()) + if steps.last() == CallStep::Refresh {
            1nat
        } else {
            0nat
        }
    }
}

/// One outbound call under the retry-once-after-reauthorization policy.
#[derive(Debug)]
pub struct AuthorizedCall {
    phase: CallPhase,
}

impl AuthorizedCall {
    pub closed spec fn phase(&self) -> CallPhase {
        self.phase
    }

    /// A call that has not been sent yet.
    pub fn new() -> (r: AuthorizedCall)
        ensures
            r.phase() == CallPhase::FirstAttempt,
    {
        AuthorizedCall { phase: CallPhase::FirstAttempt }
    }

    /// Records a reply and says what to do next.
    pub fn on_reply(&mut self, auth_failed: bool) -> (step: CallStep)
        ensures
            (final(self).phase(), step) == call_transition(old(self).phase(), auth_failed),
    {
        let (phase, step) = match self.phase {
            CallPhase::FirstAttempt => if auth_failed {
                (CallPhase::AfterRefresh, CallStep::Refresh)
            } else {
                (CallPhase::Finished, CallStep::Deliver)
            },
            CallPhase::AfterRefresh => if auth_failed {
                (CallPhase::Finished, CallStep::Fail(AuthError::RefreshFailed))
            } else {
                (CallPhase::Finished, CallStep::Deliver)
            },
            CallPhase::Finished => (CallPhase::Finished, CallStep::Fail(AuthError::RefreshFailed)),
        };
        self.phase = phase;
        step
    }

    /// Records a reply by the error code of its envelope and says what to do next.
    pub fn on_envelope(&mut self, error_code: Option<i64>) -> (step: CallStep)
        ensures
            (final(self).phase(), step) == call_transition(
                old(self).phase(),
                error_code == Some(401i64),
            ),
    {
        self.on_reply(GoogleAuth::needs_refresh(error_code))
    }

    /// Whether the call has delivered or failed.
    pub fn is_finished(&self) -> (r: bool)
        ensures
            r == (self.phase() == CallPhase::Finished),
    {
        self.phase == CallPhase::Finished
    }
}

proof fn lemma_refresh_count_push(steps: Seq<CallStep>, s: CallStep)
    ensures
        refresh_count(steps.push(s)) == refresh_count(steps) + if s == CallStep::Refresh {
            1nat
        } else {
            0nat
        },
{
    assert(steps.push(s).drop_last() =~= steps);
}

/// From a fresh call, whatever the replies, at most one refresh is asked
/// for, and once a refresh was asked for the phase is past the first attempt.
pub proof fn at_most_one_refresh(replies: Seq<bool>)
    ensures
        refresh_count(steps_after(CallPhase::FirstAttempt, replies)) <= 1,
        refresh_count(steps_after(CallPhase::FirstAttempt, replies)) == 1 ==> phase_after(
            CallPhase::FirstAttempt,
            replies,
        ) != CallPhase::FirstAttempt,
        refresh_count(steps_after(CallPhase::FirstAttempt, replies)) == 0 ==> (phase_after(
            CallPhase::FirstAttempt,
            replies,
        ) == CallPhase::FirstAttempt || phase_after(CallPhase::FirstAttempt, replies)
            == CallPhase::Finished),
    decreases replies.len(),
{
    if replies.len() > 0 {
        let prev = replies.drop_last();
        at_most_one_refresh(prev);
        let p = phase_after(CallPhase::FirstAttempt, prev);
        lemma_refresh_count_push(
            steps_after(CallPhase::FirstAttempt, prev),
            call_transition(p, replies.last()).1,
        );
    }
}

proof fn lemma_failed_then(replies: Seq<bool>)
    requires
        replies.len() == 2,
        replies[0],
    ensures
        steps_after(CallPhase::FirstAttempt, replies) == seq![
            CallStep::Refresh,
            call_transition(CallPhase::AfterRefresh, replies[1]).1,
        ],
        refresh_count(steps_after(CallPhase::FirstAttempt, replies)) == 1,
        phase_after(CallPhase::FirstAttempt, replies) == CallPhase::Finished,
{
    let one = replies.drop_last();
    let second = call_transition(CallPhase::AfterRefresh, replies[1]).1;
    assert(one.drop_last() =~= Seq::<bool>::empty());
    assert(phase_after(CallPhase::FirstAttempt, one.drop_last()) == CallPhase::FirstAttempt);
    assert(steps_after(CallPhase::FirstAttempt, one.drop_last()) =~= Seq::<CallStep>::empty());
    assert(one.last() == replies[0]);
    assert(phase_after(CallPhase::FirstAttempt, one) == CallPhase::AfterRefresh);
    assert(steps_after(CallPhase::FirstAttempt, one) =~= seq![CallStep::Refresh]);
    assert(steps_after(CallPhase::FirstAttempt, replies) =~= seq![CallStep::Refresh, second]);
    lemma_refresh_count_push(seq![], CallStep::Refresh);
    assert(seq![CallStep::Refresh] =~= Seq::<CallStep>::empty().push(CallStep::Refresh));
    lemma_refresh_count_push(seq![CallStep::Refresh], second);
}

/// Self-healing: when the first reply signals an authorization failure and
/// the reply after the refresh does not, exactly one refresh is asked for,
/// the second reply is delivered, and the call is finished.
pub proof fn auth_self_heal(replies: Seq<bool>)
    requires
        replies.len() == 2,
        replies[0],
        !replies[1],
    ensures
        steps_after(CallPhase::FirstAttempt, replies) == seq![CallStep::Refresh, CallStep::Deliver],
        refresh_count(steps_after(CallPhase::FirstAttempt, replies)) == 1,
        phase_after(CallPhase::FirstAttempt, replies) == CallPhase::Finished,
{
    lemma_failed_then(replies);
}

/// Authorization failure is fatal: when the first two replies both signal
/// an authorization failure, the second step is a failure with
/// `RefreshFailed`, and no later reply ever leads to another refresh or
/// another delivery.
pub proof fn auth_failure_is_fatal(replies: Seq<bool>)
    requires
        replies.len() >= 2,
        replies[0],
        replies[1],
    ensures
        steps_after(CallPhase::FirstAttempt, replies)[1] == CallStep::Fail(AuthError::RefreshFailed),
        forall|i: int|
            2 <= i < replies.len() ==> steps_after(CallPhase::FirstAttempt, replies)[i]
                == CallStep::Fail(AuthError::RefreshFailed),
        refresh_count(steps_after(CallPhase::FirstAttempt, replies)) == 1,
    decreases replies.len(),
{
    lemma_steps_len(CallPhase::FirstAttempt, replies);
    if replies.len() == 2 {
        lemma_failed_then(replies);
    } else {
        let prev = replies.drop_last();
        auth_failure_is_fatal(prev);
        lemma_finished_after_two(prev);
        lemma_steps_len(CallPhase::FirstAttempt, prev);
        lemma_refresh_count_push(
            steps_after(CallPhase::FirstAttempt, prev),
            CallStep::Fail(AuthError::RefreshFailed),
        );
    }
}

proof fn lemma_steps_len(phase: CallPhase, replies: Seq<bool>)
    ensures
        steps_after(phase, replies).len() == replies.len(),
    decreases replies.len(),
{
    if replies.len() > 0 {
        lemma_steps_len(phase, replies.drop_last());
    }
}

proof fn lemma_finished_after_two(replies: Seq<bool>)
    requires
        replies.len() >= 2,
    ensures
        phase_after(CallPhase::FirstAttempt, replies) == CallPhase::Finished,
    decreases replies.len(),
{
    if replies.len() > 2 {
        lemma_finished_after_two(replies.drop_last());
    } else {
        let one = replies.drop_last();
        assert(one.drop_last() =~= Seq::<bool>::empty());
    assert(phase_after(CallPhase::FirstAttempt, one.drop_last()) == CallPhase::FirstAttempt);
    assert(steps_after(CallPhase::FirstAttempt, one.drop_last()) =~= Seq::<CallStep>::empty());
        let p = phase_after(CallPhase::FirstAttempt, one);
        assert(p == call_transition(CallPhase::FirstAttempt, one.last()).0);
        assert(p == CallPhase::AfterRefresh || p == CallPhase::Finished);
    }
}

} // verus!
