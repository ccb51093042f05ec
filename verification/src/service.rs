//! The decisions of one `Synthesize` call: which monitor events to report as
//! the audio of a request is relayed to the client, and when the relay ends.
use std::time::Duration;
use vstd::prelude::*;

use crate::tui::state::TuiEvent;

verus! {

/// The message reported when the client stops listening.
pub open spec fn client_disconnected() -> Seq<char> {
    "Client disconnected"@
}

/// Where the relay of one request stands: the monitor's id for the request
/// (none when no monitor runs), and the sequence number the next audio
/// piece will carry.
#[derive(Debug)]
pub struct Relay {
    pub stream_id: Option<u64>,
    pub sequence: u32,
}

/// What happened to the relay: a piece of audio reached the client (with
/// the time since the request came in), the client went away, or the
/// synthesis failed with a message.
#[derive(Debug)]
pub enum RelayEvent {
    Delivered { is_final: bool, elapsed: Duration },
    ClientGone,
    UpstreamFailed { message: String },
}

/// What the relay does in answer: the events to report to the monitor, in
/// order; whether the relay is over; and the message of an internal error
/// to send to the client, if any.
#[derive(Debug)]
pub struct RelayStep {
    pub notices: Vec<TuiEvent>,
    pub finished: bool,
    pub reply_error: Option<String>,
}

/// What failed before any audio: finding the voice, or starting synthesis.
#[derive(Debug, Clone, Copy, PartialEq, Eq)]
pub enum SetupFailure {
    VoiceLookup,
    SynthesisStart,
}

/// The gRPC status a failed call answers with.
#[derive(Debug, Clone, Copy, PartialEq, Eq)]
pub enum ReplyCode {
    NotFound,
    Internal,
}

/// The answer to a call that failed before any audio: the event to report
/// to the monitor (when one runs), and the status code and message to
/// answer the client with.
#[derive(Debug)]
pub struct SetupReply {
    pub notice: Option<TuiEvent>,
    pub code: ReplyCode,
    pub message: String,
}

/// `post` and `out` are the relay and its answer after `pre` takes
/// `event` (see `Relay::step`).
pub open spec fn relay_step(pre: Relay, event: RelayEvent, post: Relay, out: RelayStep) -> bool {
    &&& pre.accepts(event)
    &&& post.stream_id == pre.stream_id
    &&& match event {
        RelayEvent::Delivered { is_final, elapsed } => {
            &&& out.finished == is_final
            &&& out.reply_error is None
            &&& post.sequence == if is_final {
                pre.sequence
            } else {
                (pre.sequence + 1) as u32
            }
            &&& match pre.stream_id {
                None => out.notices@.len() == 0,
                Some(id) => {
                    let n = (pre.sequence + 1) as u32;
                    &&& out.notices@.len() == if is_final { 2int } else { 1int }
                    &&& out.notices@[0] matches TuiEvent::StreamProgress { id: i, chunks_sent }
                        && i == id && chunks_sent == n
                    &&& is_final ==> (out.notices@[1] matches TuiEvent::StreamCompleted {
                        id: i,
                        duration,
                        chunks,
                    } && i == id && duration == elapsed && chunks == n)
                },
            }
        },
        RelayEvent::ClientGone => {
            &&& out.finished
            &&& out.reply_error is None
            &&& post.sequence == pre.sequence
            &&& match pre.stream_id {
                None => out.notices@.len() == 0,
                Some(id) => out.notices@.len() == 1 && (out.notices@[0] matches TuiEvent::StreamFailed {
                    id: i,
                    error,
                } && i == id && error@ == client_disconnected()),
            }
        },
        RelayEvent::UpstreamFailed { message } => {
            &&& out.finished
            &&& out.reply_error matches Some(m) && m@ == message@
            &&& post.sequence == pre.sequence
            &&& match pre.stream_id {
                None => out.notices@.len() == 0,
                Some(id) => out.notices@.len() == 1 && (out.notices@[0] matches TuiEvent::StreamFailed {
                    id: i,
                    error,
                } && i == id && error@ == message@),
            }
        },
    }
}

impl Relay {
    /// The relay of a request, before any audio.
    pub fn new(stream_id: Option<u64>) -> (r: Self)
        ensures
            r.stream_id == stream_id,
            r.sequence == 0,
    {
        Relay { stream_id, sequence: 0 }
    }

    /// Whether `event` can be taken without overflowing the sequence number:
    /// a delivered piece counts one more piece when it is reported to the
    /// monitor or when more pieces follow.
    pub open spec fn accepts(&self, event: RelayEvent) -> bool {
        match event {
            RelayEvent::Delivered { is_final, .. } => (self.stream_id is Some || !is_final)
                ==> self.sequence < u32::MAX,
            _ => true,
        }
    }

    /// Whether `event` can be taken (see `accepts`).
    pub fn accepts_event(&self, event: &RelayEvent) -> (b: bool)
        ensures
            b == self.accepts(*event),
    {
        match event {
            RelayEvent::Delivered { is_final, .. } => !(self.stream_id.is_some() || !*is_final)
                || self.sequence < u32::MAX,
            _ => true,
        }
    }

    /// The monitor event for a request that starts, when a monitor runs.
    pub fn start_notice(&self, voice_id: String, text: String) -> (notice: Option<TuiEvent>)
        ensures
            match self.stream_id {
                Some(id) => notice == Some(TuiEvent::StreamStarted { id, voice_id, text }),
                None => notice is None,
            },
    {
        match self.stream_id {
            Some(id) => Some(TuiEvent::StreamStarted { id, voice_id, text }),
            None => None,
        }
    }

    /// The answer to a call that failed before any audio with `message`: a
    /// voice that cannot be found is answered `NotFound`, a synthesis that
    /// cannot start `Internal`; either way the failure is reported to the
    /// monitor when one runs, with the same message.
    pub fn setup_failed(&self, failure: SetupFailure, message: String) -> (reply: SetupReply)
        ensures
            reply.code == match failure {
                SetupFailure::VoiceLookup => ReplyCode::NotFound,
                SetupFailure::SynthesisStart => ReplyCode::Internal,
            },
            reply.message@ == message@,
            match self.stream_id {
                Some(id) => reply.notice matches Some(TuiEvent::StreamFailed { id: i, error }) && i
                    == id && error@ == message@,
                None => reply.notice is None,
            },
    {
        let code = match failure {
            SetupFailure::VoiceLookup => ReplyCode::NotFound,
            SetupFailure::SynthesisStart => ReplyCode::Internal,
        };
        let answer = message.clone();
        SetupReply { notice: self.failure_notice(message), code, message: answer }
    }

    /// The monitor event for a request that failed with `message`, when a
    /// monitor runs.
    pub fn failure_notice(&self, message: String) -> (notice: Option<TuiEvent>)
        ensures
            match self.stream_id {
                Some(id) => notice matches Some(TuiEvent::StreamFailed { id: i, error }) && i == id
                    && error == message,
                None => notice is None,
            },
    {
        match self.stream_id {
            Some(id) => Some(TuiEvent::StreamFailed { id, error: message }),
            None => None,
        }
    }

    /// Takes what happened next. A delivered piece is reported as progress
    /// (pieces so far); the final piece is also reported as completion and
    /// ends the relay, other pieces advance the sequence. A client that went
    /// away, or a failed synthesis, is reported as a failure and ends the
    /// relay; a failed synthesis is also answered to the client with its
    /// message. Nothing is reported when no monitor runs.
    pub fn step(&mut self, event: RelayEvent) -> (out: RelayStep)
        requires
            old(self).accepts(event),
        ensures
            relay_step(*old(self), event, *final(self), out),
            match event {
                RelayEvent::UpstreamFailed { message } => {
                    &&& out.finished
                    &&& out.reply_error is Some && out.reply_error->0@ == message@
                    &&& match old(self).stream_id {
                        Some(id) => out.notices@.len() == 1 && (out.notices@[0] matches TuiEvent::StreamFailed {
                            id: i,
                            error,
                        } && i == id && error@ == message@),
                        None => out.notices@.len() == 0,
                    }
                },
                _ => true,
            },
    {
        let mut notices: Vec<TuiEvent> = Vec::new();
        match event {
            RelayEvent::Delivered { is_final, elapsed } => {
                if let Some(id) = self.stream_id {
                    notices.push(TuiEvent::StreamProgress { id, chunks_sent: self.sequence + 1 });
                }
                if is_final {
                    if let Some(id) = self.stream_id {
                        notices.push(
                            TuiEvent::StreamCompleted { id, duration: elapsed, chunks: self.sequence + 1 },
                        );
                    }
                    RelayStep { notices, finished: true, reply_error: None }
                } else {
                    self.sequence = self.sequence + 1;
                    RelayStep { notices, finished: false, reply_error: None }
                }
            },
            RelayEvent::ClientGone => {
                if let Some(id) = self.stream_id {
                    notices.push(TuiEvent::StreamFailed { id, error: "Client disconnected".to_owned() });
                }
                RelayStep { notices, finished: true, reply_error: None }
            },
            RelayEvent::UpstreamFailed { message } => {
                let reply = message.clone();
                if let Some(id) = self.stream_id {
                    notices.push(TuiEvent::StreamFailed { id, error: message });
                }
                RelayStep { notices, finished: true, reply_error: Some(reply) }
            },
        }
    }
}

/// The monitor events of a relay, step by step: a relay of request `id`
/// that starts at sequence 0 and takes `events` (`relays[i]` before the
/// `i`-th, `outs[i]` its answer), and is not over before the last one.
/// Every step but the last reports exactly the progress `1, 2, 3, ...`; the
/// pieces sent carry the sequence numbers `0, 1, 2, ...`; completion or
/// failure can only come at the last step, where a completion reports the
/// number of pieces delivered.
pub proof fn lemma_relay_run(id: u64, relays: Seq<Relay>, events: Seq<RelayEvent>, outs: Seq<RelayStep>)
    requires
        events.len() > 0,
        relays.len() == events.len() + 1,
        outs.len() == events.len(),
        relays[0].stream_id == Some(id),
        relays[0].sequence == 0,
        forall|i: int|
            0 <= i < events.len() ==> #[trigger] relay_step(relays[i], events[i], relays[i + 1], outs[i]),
        forall|i: int| 0 <= i < events.len() - 1 ==> !(#[trigger] outs[i]).finished,
    ensures
        forall|i: int|
            0 <= i < events.len() ==> (#[trigger] relays[i]).sequence == i && relays[i].stream_id
                == Some(id),
        forall|i: int|
            0 <= i < events.len() - 1 ==> (#[trigger] outs[i]).notices@ == seq![
                TuiEvent::StreamProgress { id, chunks_sent: (i + 1) as u32 },
            ],
        ({
            let last = outs[events.len() - 1];
            let n = events.len();
            &&& last.notices@.len() >= 1
            &&& last.notices@[0] == TuiEvent::StreamProgress { id, chunks_sent: n as u32 }
                || last.notices@[0] is StreamFailed
            &&& last.notices@[last.notices@.len() - 1] matches TuiEvent::StreamCompleted {
                chunks,
                ..
            } ==> chunks == n
        }),
    decreases events.len(),
{
    let n = events.len() as int;
    if n > 1 {
        lemma_relay_run(id, relays.drop_last(), events.drop_last(), outs.drop_last());
        assert(relays.drop_last()[n - 1] == relays[n - 1]);
        let j = n - 2;
        assert(relay_step(relays[j], events[j], relays[j + 1], outs[j]));
        assert(relays.drop_last()[n - 2].sequence == n - 2);
        assert(!outs[n - 2].finished);
        assert(relays[n - 1].sequence == n - 1);
        assert forall|i: int| 0 <= i < n implies (#[trigger] relays[i]).sequence == i
            && relays[i].stream_id == Some(id) by {
            if i < n - 1 {
                assert(relays.drop_last()[i] == relays[i]);
            }
        }
        assert forall|i: int| 0 <= i < n - 1 implies (#[trigger] outs[i]).notices@ == seq![
            TuiEvent::StreamProgress { id, chunks_sent: (i + 1) as u32 },
        ] by {
            assert(relay_step(relays[i], events[i], relays[i + 1], outs[i]));
            assert(relays[i].sequence == i);
            assert(!outs[i].finished);
            assert(outs[i].notices@ =~= seq![TuiEvent::StreamProgress { id, chunks_sent: (i + 1) as u32 }]);
        }
    }
    let k = n - 1;
    assert(relay_step(relays[k], events[k], relays[k + 1], outs[k]));
}

/// Whether a monitor runs changes nothing for the client: two relays at the
/// same sequence number, one with a monitor and one without, taking the same
/// event, end at the same sequence number, end or go on alike, and answer
/// the client alike; the one without a monitor reports nothing.
pub proof fn lemma_relay_monitor_independent(
    with: Relay,
    without: Relay,
    event: RelayEvent,
    with_post: Relay,
    without_post: Relay,
    with_out: RelayStep,
    without_out: RelayStep,
)
    requires
        with.sequence == without.sequence,
        without.stream_id is None,
        relay_step(with, event, with_post, with_out),
        relay_step(without, event, without_post, without_out),
    ensures
        with_post.sequence == without_post.sequence,
        with_out.finished == without_out.finished,
        with_out.reply_error is Some <==> without_out.reply_error is Some,
        with_out.reply_error is Some ==> with_out.reply_error->0@ == without_out.reply_error->0@,
        without_out.notices@.len() == 0,
        without_post.stream_id is None,
{
}

/// A failed synthesis ends the relay and is reported as exactly one
/// failure of the relay's request, with the synthesis's message; the client
/// is answered with the same message. It is never reported as progress or
/// completion.
pub proof fn lemma_upstream_failure_reported(
    pre: Relay,
    message: String,
    post: Relay,
    out: RelayStep,
    id: u64,
)
    requires
        pre.stream_id == Some(id),
        relay_step(pre, RelayEvent::UpstreamFailed { message }, post, out),
    ensures
        out.finished,
        out.reply_error is Some && out.reply_error->0@ == message@,
        out.notices@.len() == 1,
        out.notices@[0] is StreamFailed,
        !(out.notices@[0] is StreamProgress),
        !(out.notices@[0] is StreamCompleted),
        out.notices@[0] matches TuiEvent::StreamFailed { id: i, error } && i == id && error@ == message@,
        post.sequence == pre.sequence,
{
}

/// A client that went away ends the relay and is reported as exactly one
/// failure of the relay's request, "Client disconnected"; the client gets
/// no answer.
pub proof fn lemma_client_gone_reported(pre: Relay, post: Relay, out: RelayStep, id: u64)
    requires
        pre.stream_id == Some(id),
        relay_step(pre, RelayEvent::ClientGone, post, out),
    ensures
        out.finished,
        out.reply_error is None,
        out.notices@.len() == 1,
        out.notices@[0] matches TuiEvent::StreamFailed { id: i, error } && i == id && error@
            == "Client disconnected"@,
{
}

/// A delivered piece is reported as progress (and, when it is the last, as
/// completion), never as a failure.
pub proof fn lemma_delivery_never_fails(
    pre: Relay,
    is_final: bool,
    elapsed: Duration,
    post: Relay,
    out: RelayStep,
    id: u64,
)
    requires
        pre.stream_id == Some(id),
        relay_step(pre, RelayEvent::Delivered { is_final, elapsed }, post, out),
    ensures
        out.finished == is_final,
        out.reply_error is None,
        forall|k: int| 0 <= k < out.notices@.len() ==> !(#[trigger] out.notices@[k] is StreamFailed),
        out.notices@.len() >= 1,
        out.notices@[0] matches TuiEvent::StreamProgress { id: i, chunks_sent } && i == id
            && chunks_sent == pre.sequence + 1,
{
}

} // verus!
