//! What the hook does for the session that runs it.

use vstd::prelude::*;

use crate::hook::{
    hook_step, output, HookActionView, HookEventView, HookInputView, HookStateView,
    SpecResponseView,
};
use crate::protocol::RequestView;

verus! {

/// In the default mode every tool call is asked about, whatever the tool and whatever else the
/// session says or leaves out: the hook connects, with the request for that call in hand.
pub proof fn every_call_is_asked_about(input: HookInputView)
    requires
        input.permission_mode == Some("default"@),
    ensures
        input.asks(),
        hook_step(HookStateView::Idle, HookEventView::Payload(input)) == (
            HookStateView::Connecting(input.request()),
            HookActionView::Connect,
        ),
{
}

/// Only the default mode is asked about.
pub proof fn only_the_default_mode_asks(input: HookInputView)
    requires
        input.asks(),
    ensures
        input.permission_mode matches Some(mode) && mode == "default"@,
{
}

/// A request says of the call what the session said of it; what the session left out is empty.
pub proof fn the_request_says_what_the_session_said(input: HookInputView)
    ensures
        input.request().msg_type == "request"@,
        input.request().tool_input == input.tool_input,
        input.tool_name matches Some(name) ==> input.request().tool_name == name,
        input.tool_name is None ==> input.request().tool_name.len() == 0,
        input.session_id matches Some(id) ==> input.request().session_id == id,
        input.session_id is None ==> input.request().session_id.len() == 0,
        input.cwd matches Some(dir) ==> input.request().cwd == dir,
        input.cwd is None ==> input.request().cwd.len() == 0,
{
    reveal_strlit("");
}

/// A request has the name of the call; without one, that of the prompt; without either, one made
/// of the session and the tool.
pub proof fn the_request_is_named_after_the_call(input: HookInputView)
    ensures
        input.tool_use_id matches Some(id) ==> input.request().request_id == id,
        input.tool_use_id is None ==> (input.prompt_id matches Some(id)
            ==> input.request().request_id == id),
        input.tool_use_id is None && input.prompt_id is None ==> input.request().request_id
            == input.request().session_id.push('-') + input.request().tool_name,
{
    reveal_strlit("-");
    assert(input.request().session_id + "-"@ == input.request().session_id.push('-'));
}

/// From the question to the answer: the hook connects, sends the request of the call, waits a
/// moment for the acknowledgement and long for the decision, and prints that decision, with the
/// reason that came with it or, without one, a stock reason that fits the decision.
pub proof fn an_answered_call_is_decided(
    input: HookInputView,
    ack: SpecResponseView,
    answer: SpecResponseView,
    decision: Seq<char>,
)
    requires
        input.permission_mode == Some("default"@),
        ack.msg_type == "ack"@,
        answer.msg_type == "decision"@,
        answer.decision == Some(decision),
        decision == "allow"@ || decision == "deny"@,
    ensures
        ({
            let (connecting, first) = hook_step(HookStateView::Idle, HookEventView::Payload(input));
            let (sending, second) = hook_step(connecting, HookEventView::Connected);
            let (awaiting_ack, third) = hook_step(sending, HookEventView::Sent);
            let (awaiting_decision, fourth) = hook_step(awaiting_ack, HookEventView::Received(ack));
            let (done, fifth) = hook_step(awaiting_decision, HookEventView::Received(answer));
            &&& first == HookActionView::Connect
            &&& second == HookActionView::Send(input.request())
            &&& third == HookActionView::Receive { timeout_ms: 300 }
            &&& fourth == HookActionView::Receive { timeout_ms: 55_000 }
            &&& fifth matches HookActionView::Print(out)
            &&& out.hook_event_name == "PreToolUse"@
            &&& out.permission_decision == decision
            &&& answer.reason matches Some(reason) ==> out.permission_decision_reason == reason
            &&& answer.reason is None && decision == "allow"@ ==> out.permission_decision_reason
                == "Aprovado pela bandeja do Spec"@
            &&& answer.reason is None && decision == "deny"@ ==> out.permission_decision_reason
                == "Negado pela bandeja do Spec"@
            &&& done == HookStateView::Done
        }),
{
    reveal_strlit("allow");
    reveal_strlit("deny");
    assert("allow"@[0] != "deny"@[0]);
}

/// Whatever request the hook carries, it goes out as it is once the daemon is reached; and each
/// thing that went well leads on to the next.
pub proof fn what_goes_well_leads_on(request: RequestView, ack: SpecResponseView)
    requires
        ack.msg_type == "ack"@,
    ensures
        hook_step(HookStateView::Connecting(request), HookEventView::Connected) == (
            HookStateView::Sending,
            HookActionView::Send(request),
        ),
        hook_step(HookStateView::Sending, HookEventView::Sent) == (
            HookStateView::AwaitingAck,
            HookActionView::Receive { timeout_ms: 300 },
        ),
        hook_step(HookStateView::AwaitingAck, HookEventView::Received(ack)) == (
            HookStateView::AwaitingDecision,
            HookActionView::Receive { timeout_ms: 55_000 },
        ),
{
}

/// Anything but the next thing that was waited for ends the hook without a word.
pub proof fn anything_else_is_silent(state: HookStateView, event: HookEventView)
    requires
        !(state is Idle && (event matches HookEventView::Payload(input) && input.permission_mode
            == Some("default"@))),
        !(state is Connecting && event is Connected),
        !(state is Sending && event is Sent),
        !(state is AwaitingAck && (event matches HookEventView::Received(message)
            && message.msg_type == "ack"@)),
        !(state is AwaitingDecision && (event matches HookEventView::Received(message)
            && message.msg_type == "decision"@ && (message.decision == Some("allow"@)
            || message.decision == Some("deny"@)))),
    ensures
        hook_step(state, event) == (HookStateView::Done, HookActionView::Exit),
{
}

/// What is printed repeats the decision: there is something to print exactly for a decision to
/// allow or to deny, with the reason that was given, or a stock one for that decision.
pub proof fn the_output_repeats_the_decision(
    decision: Option<Seq<char>>,
    reason: Option<Seq<char>>,
)
    ensures
        output(decision, reason) is Some <==> decision == Some("allow"@) || decision == Some(
            "deny"@,
        ),
        output(decision, reason) matches Some(out) ==> {
            &&& out.hook_event_name == "PreToolUse"@
            &&& decision == Some(out.permission_decision)
            &&& reason matches Some(given) ==> out.permission_decision_reason == given
            &&& reason is None && decision == Some("allow"@) ==> out.permission_decision_reason
                == "Aprovado pela bandeja do Spec"@
            &&& reason is None && decision == Some("deny"@) ==> out.permission_decision_reason
                == "Negado pela bandeja do Spec"@
        },
{
    reveal_strlit("allow");
    reveal_strlit("deny");
    assert("allow"@[0] != "deny"@[0]);
}

} // verus!
