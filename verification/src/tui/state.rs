//! What the terminal monitor knows: the streams in progress, the most recent
//! finished requests and running totals, kept up to date from the events the
//! service reports.
use std::collections::HashMap;
use std::time::Duration;
use std::time::Instant;
use vstd::prelude::*;

use crate::clock::{elapsed_between, elapsed_since, now};
use crate::tui::text::{preview, preview_defined, preview_possible, spaced, truncate_text};

verus! {

broadcast use vstd::std_specs::hash::group_hash_axioms;

/// How many finished requests the log keeps, newest first.
pub const MAX_LOG_ENTRIES: usize = 100;

/// How many bytes of a request's text the monitor previews.
pub const PREVIEW_BYTES: usize = 40;

/// The audio time one chunk is reckoned to hold, in milliseconds.
pub const CHUNK_AUDIO_MS: u128 = 100;

/// A synthesis stream in progress.
#[derive(Debug, Clone)]
pub struct ActiveStream {
    pub id: u64,
    pub voice_id: String,
    pub text_preview: String,
    pub chunks_sent: u32,
    pub started_at: Instant,
}

/// A finished request, as the log shows it.
#[derive(Debug, Clone)]
pub struct RequestLog {
    pub timestamp: Instant,
    pub voice_id: String,
    pub text_preview: String,
    pub success: bool,
    pub duration: Option<Duration>,
    pub chunks: Option<u32>,
    pub error: Option<String>,
}

/// Running totals over all requests. The audio produced is counted in
/// milliseconds.
#[derive(Debug, Clone)]
pub struct Stats {
    pub total_requests: u64,
    pub successful_requests: u64,
    pub failed_requests: u64,
    pub total_audio_duration_ms: u128,
}

impl Default for Stats {
    fn default() -> (stats: Self)
        ensures
            stats.total_requests == 0,
            stats.successful_requests == 0,
            stats.failed_requests == 0,
            stats.total_audio_duration_ms == 0,
    {
        Stats {
            total_requests: 0,
            successful_requests: 0,
            failed_requests: 0,
            total_audio_duration_ms: 0,
        }
    }
}

/// What the service reports about a stream.
#[derive(Debug, Clone)]
pub enum TuiEvent {
    StreamStarted { id: u64, voice_id: String, text: String },
    StreamProgress { id: u64, chunks_sent: u32 },
    StreamCompleted { id: u64, duration: Duration, chunks: u32 },
    StreamFailed { id: u64, error: String },
}

/// A voice as the monitor lists it.
#[derive(Debug)]
pub struct VoiceInfo {
    pub id: String,
    pub display_name: String,
}

/// Everything the monitor shows.
pub struct AppState {
    pub started_at: Instant,
    pub listen_addr: String,
    pub voices: Vec<VoiceInfo>,
    pub default_voice: Option<String>,
    pub active_streams: HashMap<u64, ActiveStream>,
    pub request_log: Vec<RequestLog>,
    pub stats: Stats,
    /// The id the next stream will get.
    pub next_stream_id: u64,
}

/// The log after a new entry: `log` cut to its `MAX_LOG_ENTRIES` first
/// entries.
pub open spec fn keep_recent(log: Seq<RequestLog>) -> Seq<RequestLog> {
    if log.len() <= MAX_LOG_ENTRIES {
        log
    } else {
        log.take(MAX_LOG_ENTRIES as int)
    }
}

/// The log entry for a stream that finished.
pub open spec fn log_entry(
    stream: ActiveStream,
    success: bool,
    duration: Option<Duration>,
    chunks: Option<u32>,
    error: Option<String>,
) -> RequestLog {
    RequestLog {
        timestamp: stream.started_at,
        voice_id: stream.voice_id,
        text_preview: stream.text_preview,
        success,
        duration,
        chunks,
        error,
    }
}

/// The total audio time, in milliseconds, still fits a `Duration`, whose
/// whole seconds are a `u64`.
pub open spec fn audio_total_fits(ms: int) -> bool {
    ms / 1000 <= u64::MAX
}

impl AppState {
    /// The state is one the monitor can reach: the log holds at most
    /// `MAX_LOG_ENTRIES` entries, each active stream is filed under its own
    /// id, every request that ended or is in progress was counted when it
    /// started, and the audio total fits a `Duration`.
    pub open spec fn wf(&self) -> bool {
        &&& self.request_log@.len() <= MAX_LOG_ENTRIES
        &&& forall|k: u64| #[trigger]
            self.active_streams@.contains_key(k) ==> self.active_streams@[k].id == k
        &&& self.stats.successful_requests + self.stats.failed_requests
            + self.active_streams@.len() <= self.stats.total_requests
        &&& audio_total_fits(self.stats.total_audio_duration_ms as int)
    }

    /// The parts that no event changes.
    pub open spec fn same_setting(&self, other: &AppState) -> bool {
        &&& other.started_at == self.started_at
        &&& other.listen_addr == self.listen_addr
        &&& other.voices == self.voices
        &&& other.default_voice == self.default_voice
        &&& other.next_stream_id == self.next_stream_id
    }

    /// Applying `event` to this state cannot overflow a counter, and a
    /// started stream's text can be previewed.
    pub open spec fn admits(&self, event: TuiEvent) -> bool {
        match event {
            TuiEvent::StreamStarted { text, .. } => {
                &&& self.stats.total_requests < u64::MAX
                &&& preview_defined(spaced(text@), PREVIEW_BYTES as int)
            },
            TuiEvent::StreamProgress { .. } => true,
            TuiEvent::StreamCompleted { id, chunks, .. } => self.active_streams@.contains_key(id)
                ==> {
                &&& self.stats.successful_requests < u64::MAX
                &&& audio_total_fits(
                    self.stats.total_audio_duration_ms + chunks * CHUNK_AUDIO_MS,
                )
            },
            TuiEvent::StreamFailed { id, .. } => self.active_streams@.contains_key(id)
                ==> self.stats.failed_requests < u64::MAX,
        }
    }

    /// `post` is this state after `event`, where a stream that starts is
    /// stamped with the clock reading `now`.
    pub open spec fn after_event(&self, event: TuiEvent, now: Instant, post: &AppState) -> bool {
        &&& self.same_setting(post)
        &&& match event {
            TuiEvent::StreamStarted { id, voice_id, text } => {
                let s = post.active_streams@[id];
                &&& post.active_streams@ == self.active_streams@.insert(id, s)
                &&& s.id == id
                &&& s.voice_id == voice_id
                &&& s.text_preview@ == preview(spaced(text@), PREVIEW_BYTES as int)
                &&& s.chunks_sent == 0
                &&& s.started_at == now
                &&& post.request_log@ == self.request_log@
                &&& post.stats.total_requests == self.stats.total_requests + 1
                &&& post.stats.successful_requests == self.stats.successful_requests
                &&& post.stats.failed_requests == self.stats.failed_requests
                &&& post.stats.total_audio_duration_ms == self.stats.total_audio_duration_ms
            },
            TuiEvent::StreamProgress { id, chunks_sent } => {
                &&& post.active_streams@ == if self.active_streams@.contains_key(id) {
                    self.active_streams@.insert(
                        id,
                        ActiveStream { chunks_sent, ..self.active_streams@[id] },
                    )
                } else {
                    self.active_streams@
                }
                &&& post.request_log@ == self.request_log@
                &&& post.stats == self.stats
            },
            TuiEvent::StreamCompleted { id, duration, chunks } => if self.active_streams@.contains_key(
                id,
            ) {
                let s = self.active_streams@[id];
                &&& post.active_streams@ == self.active_streams@.remove(id)
                &&& post.request_log@ == keep_recent(
                    seq![log_entry(s, true, Some(duration), Some(chunks), None)]
                        + self.request_log@,
                )
                &&& post.stats.total_requests == self.stats.total_requests
                &&& post.stats.successful_requests == self.stats.successful_requests + 1
                &&& post.stats.failed_requests == self.stats.failed_requests
                &&& post.stats.total_audio_duration_ms == self.stats.total_audio_duration_ms
                    + chunks * CHUNK_AUDIO_MS
            } else {
                &&& post.active_streams@ == self.active_streams@
                &&& post.request_log@ == keep_recent(self.request_log@)
                &&& post.stats == self.stats
            },
            TuiEvent::StreamFailed { id, error } => if self.active_streams@.contains_key(id) {
                let s = self.active_streams@[id];
                &&& post.active_streams@ == self.active_streams@.remove(id)
                &&& post.request_log@ == keep_recent(
                    seq![log_entry(s, false, None, None, Some(error))] + self.request_log@,
                )
                &&& post.stats.total_requests == self.stats.total_requests
                &&& post.stats.successful_requests == self.stats.successful_requests
                &&& post.stats.failed_requests == self.stats.failed_requests + 1
                &&& post.stats.total_audio_duration_ms == self.stats.total_audio_duration_ms
            } else {
                &&& post.active_streams@ == self.active_streams@
                &&& post.request_log@ == keep_recent(self.request_log@)
                &&& post.stats == self.stats
            },
        }
    }

    /// A fresh state: no streams, an empty log, zero totals, and stream ids
    /// counting from 1.
    pub fn new(listen_addr: String, voices: Vec<VoiceInfo>, default_voice: Option<String>) -> (state: Self)
        ensures
            state.listen_addr == listen_addr,
            state.voices == voices,
            state.default_voice == default_voice,
            state.active_streams@ == Map::<u64, ActiveStream>::empty(),
            state.request_log@ == Seq::<RequestLog>::empty(),
            state.stats.total_requests == 0,
            state.stats.successful_requests == 0,
            state.stats.failed_requests == 0,
            state.stats.total_audio_duration_ms == 0,
            state.next_stream_id == 1,
            state.wf(),
    {
        AppState {
            started_at: now(),
            listen_addr,
            voices,
            default_voice,
            active_streams: HashMap::new(),
            request_log: Vec::new(),
            stats: Stats::default(),
            next_stream_id: 1,
        }
    }

    /// Hands out the next stream id; ids count up by one from 1.
    pub fn next_stream_id(&mut self) -> (id: u64)
        requires
            old(self).next_stream_id < u64::MAX,
        ensures
            id == old(self).next_stream_id,
            final(self).next_stream_id == id + 1,
            final(self).started_at == old(self).started_at,
            final(self).listen_addr == old(self).listen_addr,
            final(self).voices == old(self).voices,
            final(self).default_voice == old(self).default_voice,
            final(self).active_streams == old(self).active_streams,
            final(self).request_log == old(self).request_log,
            final(self).stats == old(self).stats,
    {
        let id = self.next_stream_id;
        self.next_stream_id = self.next_stream_id + 1;
        id
    }

    /// Whether `event` can be applied to this state (see `admits`).
    pub fn admits_event(&self, event: &TuiEvent) -> (b: bool)
        ensures
            b == self.admits(*event),
    {
        match event {
            TuiEvent::StreamStarted { text, .. } => self.stats.total_requests < u64::MAX
                && preview_possible(text.as_str(), PREVIEW_BYTES),
            TuiEvent::StreamProgress { .. } => true,
            TuiEvent::StreamCompleted { id, chunks, .. } => {
                if self.active_streams.contains_key(id) {
                    let added = (*chunks as u128) * CHUNK_AUDIO_MS;
                    self.stats.successful_requests < u64::MAX && match self.stats.total_audio_duration_ms.checked_add(added) {
                        Some(total) => total / 1000 <= u64::MAX as u128,
                        None => false,
                    }
                } else {
                    true
                }
            },
            TuiEvent::StreamFailed { id, .. } => !self.active_streams.contains_key(id)
                || self.stats.failed_requests < u64::MAX,
        }
    }

    /// Applies a reported event, stamping a stream that starts with the
    /// clock reading `now`.
    pub fn apply_event(&mut self, event: TuiEvent, now: Instant)
        requires
            old(self).admits(event),
        ensures
            old(self).after_event(event, now, final(self)),
            old(self).wf() ==> final(self).wf(),
            match event {
                TuiEvent::StreamProgress { id, chunks_sent } => old(self).active_streams@.contains_key(id)
                    ==> final(self).active_streams@.contains_key(id)
                    && final(self).active_streams@[id].chunks_sent == chunks_sent,
                _ => true,
            },
    {
        let ghost pre = *self;
        match event {
            TuiEvent::StreamStarted { id, voice_id, text } => {
                let text_preview = truncate_text(text.as_str(), PREVIEW_BYTES);
                self.active_streams.insert(
                    id,
                    ActiveStream { id, voice_id, text_preview, chunks_sent: 0, started_at: now },
                );
                self.stats.total_requests = self.stats.total_requests + 1;
                proof {
                    if !pre.active_streams@.contains_key(id) {
                        assert(self.active_streams@.dom() =~= pre.active_streams@.dom().insert(id));
                    } else {
                        assert(self.active_streams@.dom() =~= pre.active_streams@.dom());
                    }
                }
            },
            TuiEvent::StreamProgress { id, chunks_sent } => {
                match self.active_streams.remove(&id) {
                    Some(stream) => {
                        let mut stream = stream;
                        stream.chunks_sent = chunks_sent;
                        self.active_streams.insert(id, stream);
                        proof {
                            assert(self.active_streams@ =~= pre.active_streams@.insert(
                                id,
                                ActiveStream { chunks_sent, ..pre.active_streams@[id] },
                            ));
                        }
                    },
                    None => {
                        proof {
                            assert(self.active_streams@ =~= pre.active_streams@);
                        }
                    },
                }
            },
            TuiEvent::StreamCompleted { id, duration, chunks } => {
                match self.active_streams.remove(&id) {
                    Some(stream) => {
                        self.request_log.insert(
                            0,
                            RequestLog {
                                timestamp: stream.started_at,
                                voice_id: stream.voice_id,
                                text_preview: stream.text_preview,
                                success: true,
                                duration: Some(duration),
                                chunks: Some(chunks),
                                error: None,
                            },
                        );
                        assert(self.request_log@ =~= seq![
                            log_entry(pre.active_streams@[id], true, Some(duration), Some(chunks), None),
                        ] + pre.request_log@);
                        self.stats.successful_requests = self.stats.successful_requests + 1;
                        self.stats.total_audio_duration_ms = self.stats.total_audio_duration_ms
                            + (chunks as u128) * CHUNK_AUDIO_MS;
                        proof {
                            assert(self.active_streams@.dom() =~= pre.active_streams@.dom().remove(id));
                        }
                    },
                    None => {
                        proof {
                            assert(self.active_streams@ =~= pre.active_streams@);
                        }
                    },
                }
                let ghost before = self.request_log@;
                self.request_log.truncate(MAX_LOG_ENTRIES);
                assert(self.request_log@ =~= keep_recent(before));
            },
            TuiEvent::StreamFailed { id, error } => {
                match self.active_streams.remove(&id) {
                    Some(stream) => {
                        self.request_log.insert(
                            0,
                            RequestLog {
                                timestamp: stream.started_at,
                                voice_id: stream.voice_id,
                                text_preview: stream.text_preview,
                                success: false,
                                duration: None,
                                chunks: None,
                                error: Some(error),
                            },
                        );
                        assert(self.request_log@ =~= seq![
                            log_entry(pre.active_streams@[id], false, None, None, Some(error)),
                        ] + pre.request_log@);
                        self.stats.failed_requests = self.stats.failed_requests + 1;
                        proof {
                            assert(self.active_streams@.dom() =~= pre.active_streams@.dom().remove(id));
                        }
                    },
                    None => {
                        proof {
                            assert(self.active_streams@ =~= pre.active_streams@);
                        }
                    },
                }
                let ghost before = self.request_log@;
                self.request_log.truncate(MAX_LOG_ENTRIES);
                assert(self.request_log@ =~= keep_recent(before));
            },
        }
    }

    /// Applies a reported event; a stream that starts is stamped with the
    /// time of the call (the clock is read for starts only).
    pub fn handle_event(&mut self, event: TuiEvent)
        requires
            old(self).admits(event),
        ensures
            exists|t: Instant| #[trigger] old(self).after_event(event, t, final(self)),
            old(self).wf() ==> final(self).wf(),
    {
        let t = match &event {
            TuiEvent::StreamStarted { .. } => now(),
            _ => self.started_at,
        };
        self.apply_event(event, t);
    }

    /// How long the monitor has been running: the time from `started_at` to
    /// a clock reading taken during the call.
    pub fn uptime(&self) -> (d: Duration)
        ensures
            exists|t: Instant| d == #[trigger] elapsed_between(self.started_at, t),
    {
        elapsed_since(&self.started_at)
    }

    /// Empties the request log and leaves everything else as it was.
    pub fn clear_log(&mut self)
        ensures
            final(self).request_log@ == Seq::<RequestLog>::empty(),
            old(self).same_setting(final(self)),
            final(self).active_streams == old(self).active_streams,
            final(self).stats == old(self).stats,
            old(self).wf() ==> final(self).wf(),
    {
        self.request_log.clear();
    }
}

/// In a reachable state, a report that a stream failed or made progress can
/// always be applied: every stream in progress was counted when it started,
/// so the failure count has room.
pub proof fn lemma_reachable_admits_failure(s: AppState, id: u64, error: String, chunks_sent: u32)
    requires
        s.wf(),
    ensures
        s.admits(TuiEvent::StreamFailed { id, error }),
        s.admits(TuiEvent::StreamProgress { id, chunks_sent }),
{
    if s.active_streams@.contains_key(id) {
        assert(s.active_streams@.dom().contains(id));
        vstd::set_lib::lemma_set_empty_equivalency_len(s.active_streams@.dom());
    }
}

/// In a reachable state, a report that a stream completed can be applied
/// whenever the audio it adds still fits the total: the success count has
/// room.
pub proof fn lemma_reachable_admits_completion(s: AppState, id: u64, duration: Duration, chunks: u32)
    requires
        s.wf(),
        audio_total_fits(s.stats.total_audio_duration_ms + chunks * CHUNK_AUDIO_MS),
    ensures
        s.admits(TuiEvent::StreamCompleted { id, duration, chunks }),
{
    if s.active_streams@.contains_key(id) {
        assert(s.active_streams@.dom().contains(id));
        vstd::set_lib::lemma_set_empty_equivalency_len(s.active_streams@.dom());
    }
}

/// A stream that starts and then fails leaves the streams in progress as
/// they were, counts one more request and one more failure, and puts a
/// failed entry with the stream's voice and error at the head of the log.
pub proof fn lemma_start_then_fail(
    s0: AppState,
    s1: AppState,
    s2: AppState,
    id: u64,
    voice_id: String,
    text: String,
    error: String,
    t1: Instant,
    t2: Instant,
)
    requires
        !s0.active_streams@.contains_key(id),
        s0.after_event(TuiEvent::StreamStarted { id, voice_id, text }, t1, &s1),
        s1.after_event(TuiEvent::StreamFailed { id, error }, t2, &s2),
    ensures
        s2.active_streams@ == s0.active_streams@,
        s2.stats.total_requests == s0.stats.total_requests + 1,
        s2.stats.successful_requests == s0.stats.successful_requests,
        s2.stats.failed_requests == s0.stats.failed_requests + 1,
        s2.stats.total_audio_duration_ms == s0.stats.total_audio_duration_ms,
        s2.request_log@.len() > 0,
        s2.request_log@[0].success == false,
        s2.request_log@[0].voice_id == voice_id,
        s2.request_log@[0].timestamp == t1,
        s2.request_log@[0].error == Some(error),
        s2.request_log@[0].text_preview@ == preview(spaced(text@), PREVIEW_BYTES as int),
        s2.request_log@.skip(1) == keep_recent(s0.request_log@).take(
            (s2.request_log@.len() - 1) as int,
        ),
{
    assert(s1.active_streams@.contains_key(id));
    assert(s2.active_streams@ =~= s0.active_streams@);
    let e = log_entry(s1.active_streams@[id], false, None, None, Some(error));
    let l = seq![e] + s0.request_log@;
    assert(l[0] == e);
    assert(s2.request_log@.skip(1) =~= keep_recent(s0.request_log@).take(
        (s2.request_log@.len() - 1) as int,
    ));
}

/// A stream that starts and then completes leaves the streams in progress
/// as they were, counts one more request and one more success, adds a
/// hundred milliseconds of audio per chunk, and puts a successful entry with
/// the stream's voice, duration and chunk count at the head of the log.
pub proof fn lemma_start_then_complete(
    s0: AppState,
    s1: AppState,
    s2: AppState,
    id: u64,
    voice_id: String,
    text: String,
    duration: Duration,
    chunks: u32,
    t1: Instant,
    t2: Instant,
)
    requires
        !s0.active_streams@.contains_key(id),
        s0.after_event(TuiEvent::StreamStarted { id, voice_id, text }, t1, &s1),
        s1.after_event(TuiEvent::StreamCompleted { id, duration, chunks }, t2, &s2),
    ensures
        s2.active_streams@ == s0.active_streams@,
        s2.stats.total_requests == s0.stats.total_requests + 1,
        s2.stats.successful_requests == s0.stats.successful_requests + 1,
        s2.stats.failed_requests == s0.stats.failed_requests,
        s2.stats.total_audio_duration_ms == s0.stats.total_audio_duration_ms + 100 * chunks,
        s2.request_log@.len() > 0,
        s2.request_log@[0].success == true,
        s2.request_log@[0].voice_id == voice_id,
        s2.request_log@[0].timestamp == t1,
        s2.request_log@[0].duration == Some(duration),
        s2.request_log@[0].chunks == Some(chunks),
        s2.request_log@[0].error.is_none(),
{
    assert(s1.active_streams@.contains_key(id));
    assert(s2.active_streams@ =~= s0.active_streams@);
    let e = log_entry(s1.active_streams@[id], true, Some(duration), Some(chunks), None);
    let l = seq![e] + s0.request_log@;
    assert(l[0] == e);
}

/// Events about a stream that is not in progress change nothing (beyond
/// cutting an over-long log to `MAX_LOG_ENTRIES` entries).
pub proof fn lemma_unknown_stream_ignored(s0: AppState, s1: AppState, event: TuiEvent, t: Instant)
    requires
        !(event is StreamStarted),
        !s0.active_streams@.contains_key(
            match event {
                TuiEvent::StreamStarted { id, .. } => id,
                TuiEvent::StreamProgress { id, .. } => id,
                TuiEvent::StreamCompleted { id, .. } => id,
                TuiEvent::StreamFailed { id, .. } => id,
            },
        ),
        s0.after_event(event, t, &s1),
    ensures
        s1.active_streams@ == s0.active_streams@,
        s1.stats == s0.stats,
        s0.request_log@.len() <= MAX_LOG_ENTRIES ==> s1.request_log@ == s0.request_log@,
{
}

/// Every request is accounted for: the successes, the failures and the
/// streams in progress add up to the requests counted.
pub open spec fn counts_balance(s: AppState) -> bool {
    s.stats.successful_requests + s.stats.failed_requests + s.active_streams@.len()
        == s.stats.total_requests
}

/// The event starts a stream under an id that is already in progress.
pub open spec fn restarts_active(s: AppState, event: TuiEvent) -> bool {
    match event {
        TuiEvent::StreamStarted { id, .. } => s.active_streams@.contains_key(id),
        _ => false,
    }
}

/// Requests stay accounted for under every event but the start of a stream
/// under an id already in progress, and no counter ever goes down.
pub proof fn lemma_counts_stay_balanced(s0: AppState, s1: AppState, event: TuiEvent, t: Instant)
    requires
        counts_balance(s0),
        !restarts_active(s0, event),
        s0.after_event(event, t, &s1),
    ensures
        counts_balance(s1),
        s1.stats.total_requests >= s0.stats.total_requests,
        s1.stats.successful_requests >= s0.stats.successful_requests,
        s1.stats.failed_requests >= s0.stats.failed_requests,
        s1.stats.total_audio_duration_ms >= s0.stats.total_audio_duration_ms,
{
    broadcast use vstd::std_specs::hash::group_hash_axioms;

    let m0 = s0.active_streams@;
    let m1 = s1.active_streams@;
    assert(m0.dom().finite());
    match event {
        TuiEvent::StreamStarted { id, .. } => {
            assert(m1.dom() =~= m0.dom().insert(id));
        },
        TuiEvent::StreamProgress { id, .. } => {
            if m0.contains_key(id) {
                assert(m1.dom() =~= m0.dom());
            }
        },
        TuiEvent::StreamCompleted { id, .. } => {
            if m0.contains_key(id) {
                assert(m1.dom() =~= m0.dom().remove(id));
            }
        },
        TuiEvent::StreamFailed { id, .. } => {
            if m0.contains_key(id) {
                assert(m1.dom() =~= m0.dom().remove(id));
            }
        },
    }
}

/// A fresh state is balanced.
pub proof fn lemma_new_state_balanced(s: AppState)
    requires
        s.active_streams@ == Map::<u64, ActiveStream>::empty(),
        s.stats.total_requests == 0,
        s.stats.successful_requests == 0,
        s.stats.failed_requests == 0,
    ensures
        counts_balance(s),
{
    assert(s.active_streams@.dom() =~= Set::<u64>::empty());
}

/// The ids handed out from a fresh state, one by one, with any other
/// operations in between (which keep the next id, see `after_event` and
/// `clear_log`): `nexts[i]` is the next id before the `i`-th call and
/// `ids[i]` what the call hands out. Then the ids are 1, 2, 3, ...; no id is
/// handed out twice.
pub proof fn lemma_stream_ids_count_up(ids: Seq<u64>, nexts: Seq<u64>)
    requires
        nexts.len() == ids.len(),
        ids.len() > 0 ==> nexts[0] == 1,
        forall|i: int| 0 <= i < ids.len() ==> #[trigger] ids[i] == nexts[i],
        forall|i: int| 0 <= i < ids.len() - 1 ==> #[trigger] nexts[i + 1] == ids[i] + 1,
    ensures
        forall|i: int| 0 <= i < ids.len() ==> #[trigger] ids[i] == i + 1,
        forall|i: int, j: int| 0 <= i < j < ids.len() ==> ids[i] < ids[j],
    decreases ids.len(),
{
    if ids.len() > 1 {
        let n = ids.len() - 1;
        lemma_stream_ids_count_up(ids.drop_last(), nexts.drop_last());
        assert(ids.drop_last()[n - 1] == n);
        assert(nexts[n] == ids[n - 1] + 1);
        assert forall|i: int| 0 <= i < ids.len() implies #[trigger] ids[i] == i + 1 by {
            if i < n {
                assert(ids.drop_last()[i] == i + 1);
            }
        }
    }
}

/// A progress report replaces the stream's count by the reported count
/// (counts are running totals, not increments), and changes nothing else
/// about that stream or any other.
pub proof fn lemma_progress_sets_count(s0: AppState, s1: AppState, id: u64, n: u32, t: Instant)
    requires
        s0.after_event(TuiEvent::StreamProgress { id, chunks_sent: n }, t, &s1),
        s0.active_streams@.contains_key(id),
    ensures
        s1.active_streams@.contains_key(id),
        s1.active_streams@[id].chunks_sent == n,
        s1.active_streams@[id].id == s0.active_streams@[id].id,
        s1.active_streams@[id].voice_id == s0.active_streams@[id].voice_id,
        s1.active_streams@[id].text_preview == s0.active_streams@[id].text_preview,
        s1.active_streams@[id].started_at == s0.active_streams@[id].started_at,
        s1.active_streams@.dom() == s0.active_streams@.dom(),
        forall|k: u64| k != id && #[trigger] s0.active_streams@.contains_key(k) ==> s1.active_streams@[k]
            == s0.active_streams@[k],
        s1.stats == s0.stats,
        s1.request_log@ == s0.request_log@,
{
    assert(s1.active_streams@.dom() =~= s0.active_streams@.dom());
}

/// Two progress reports in a row leave the second count, whatever the
/// first was.
pub proof fn lemma_last_progress_wins(
    s0: AppState,
    s1: AppState,
    s2: AppState,
    id: u64,
    n1: u32,
    n2: u32,
    t1: Instant,
    t2: Instant,
)
    requires
        s0.active_streams@.contains_key(id),
        s0.after_event(TuiEvent::StreamProgress { id, chunks_sent: n1 }, t1, &s1),
        s1.after_event(TuiEvent::StreamProgress { id, chunks_sent: n2 }, t2, &s2),
    ensures
        s2.active_streams@[id].chunks_sent == n2,
{
    lemma_progress_sets_count(s0, s1, id, n1, t1);
    lemma_progress_sets_count(s1, s2, id, n2, t2);
}

} // verus!
