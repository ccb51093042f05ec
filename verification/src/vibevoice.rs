//! The exchange with the VibeVoice server: the speech request, the answer's
//! status, and what each decoded event of the answer's stream means for the
//! audio relayed to the client.
use base64::Engine;
use vstd::prelude::*;
use vstd::string::*;
use vstd::utf8::{decode_utf8, encode_utf8, valid_utf8};

use crate::config::VibeVoiceConfig;
use crate::sse::{after_text, frame_view, lemma_split_text, DecoderView, FrameView, SseDecoder, SseFrame};
use crate::strings::{chars_of, lemma_encode_utf8_concat, same_chars};

verus! {

/// An error of the HTTP client (`reqwest::Error`), carried as it is.
#[verifier::external_type_specification]
#[verifier::external_body]
pub struct ExReqwestError(reqwest::Error);

/// A JSON error (`serde_json::Error`), carried as it is.
#[verifier::external_type_specification]
#[verifier::external_body]
pub struct ExJsonError(serde_json::Error);

/// Why standard Base64 text could not be decoded; the variants of
/// `base64::DecodeError`, with the same fields.
#[derive(Debug, Clone, Copy, PartialEq, Eq)]
pub enum Base64DecodeError {
    InvalidByte(usize, u8),
    InvalidLength(usize),
    InvalidLastSymbol(usize, u8),
    InvalidPadding,
}

/// Why synthesis failed.
#[derive(Debug)]
pub enum VibeVoiceError {
    RequestError(reqwest::Error),
    ApiStatus(u16),
    JsonError(serde_json::Error),
    Base64Error(Base64DecodeError),
    ApiError(String),
    ChannelError,
}

/// A piece of synthesized audio: 16-bit PCM samples at `sample_rate` Hz;
/// the last piece of a stream is marked final.
#[derive(Debug)]
pub struct AudioChunk {
    pub samples: Vec<i16>,
    pub sample_rate: u32,
    pub is_final: bool,
}

/// The body of a speech request. The guidance scale is the bit pattern of a
/// 32-bit float.
#[derive(Debug)]
pub struct SpeechRequest {
    pub model: String,
    pub voice: String,
    pub input: String,
    pub response_format: String,
    pub voice_path: String,
    pub stream_format: String,
    pub ddpm_steps: u32,
    pub cfg_scale_bits: u32,
}

/// What standard Base64 decoding (padding required) of `input` gives: the
/// decoded bytes, or why it fails.
pub uninterp spec fn base64_standard_decoded(input: Seq<u8>) -> Result<Seq<u8>, Base64DecodeError>;

/// Decodes standard Base64 with the `base64` crate's
/// `general_purpose::STANDARD` engine (`Engine::decode`). The result is what
/// `base64_standard_decoded` names for the input; each error variant is
/// carried over with its fields.
#[verifier::external_body]
fn decode_base64(input: &[u8]) -> (res: Result<Vec<u8>, Base64DecodeError>)
    ensures
        match (res, base64_standard_decoded(input@)) {
            (Ok(v), Ok(w)) => v@ == w,
            (Err(e), Err(f)) => e == f,
            _ => false,
        },
{
    match base64::engine::general_purpose::STANDARD.decode(input) {
        Ok(v) => Ok(v),
        Err(base64::DecodeError::InvalidByte(at, b)) => Err(Base64DecodeError::InvalidByte(at, b)),
        Err(base64::DecodeError::InvalidLength(n)) => Err(Base64DecodeError::InvalidLength(n)),
        Err(base64::DecodeError::InvalidLastSymbol(at, b)) => Err(Base64DecodeError::InvalidLastSymbol(at, b)),
        Err(base64::DecodeError::InvalidPadding) => Err(Base64DecodeError::InvalidPadding),
    }
}

/// The text std's `String::from_utf8_lossy` makes of `bytes`: invalid
/// sequences become U+FFFD.
pub uninterp spec fn utf8_lossy_text(bytes: Seq<u8>) -> Seq<char>;

/// Decodes bytes as UTF-8 with std's `String::from_utf8_lossy`. The result
/// is what `utf8_lossy_text` names for the bytes, and, as std documents, the
/// decoded text itself when the bytes are valid UTF-8.
#[verifier::external_body]
fn utf8_lossy(bytes: &[u8]) -> (s: String)
    ensures
        s@ == utf8_lossy_text(bytes@),
        valid_utf8(bytes@) ==> s@ == decode_utf8(bytes@),
{
    String::from_utf8_lossy(bytes).into_owned()
}

/// The sample that two little-endian bytes encode.
pub open spec fn le_i16(lo: u8, hi: u8) -> i16 {
    let v = lo as int + 256 * hi as int;
    (if v >= 32768 { v - 65536 } else { v }) as i16
}

/// The samples of 16-bit little-endian PCM: one per whole pair of bytes; an
/// odd last byte is dropped.
pub open spec fn pcm_samples(bytes: Seq<u8>) -> Seq<i16> {
    Seq::new(bytes.len() / 2, |i: int| le_i16(bytes[2 * i], bytes[2 * i + 1]))
}

/// Reads 16-bit little-endian PCM samples.
pub fn decode_pcm(bytes: &[u8]) -> (samples: Vec<i16>)
    ensures
        samples@ == pcm_samples(bytes@),
{
    let n = bytes.len() / 2;
    let mut samples: Vec<i16> = Vec::new();
    let mut i: usize = 0;
    while i < n
        invariant
            n == bytes@.len() / 2,
            bytes@.len() <= usize::MAX,
            i <= n,
            samples@.len() == i,
            forall|j: int| 0 <= j < i ==> samples@[j] == le_i16(bytes@[2 * j], bytes@[2 * j + 1]),
        decreases n - i,
    {
        assert(2 * i + 1 < bytes@.len());
        let lo = bytes[2 * i];
        let hi = bytes[2 * i + 1];
        let v: u32 = lo as u32 + 256 * (hi as u32);
        let s: i16 = if v >= 32768 {
            (v as i32 - 65536) as i16
        } else {
            v as i16
        };
        samples.push(s);
        i = i + 1;
    }
    assert(samples@ =~= pcm_samples(bytes@));
    samples
}

/// The status of the answer is a success (2xx); any other status is the
/// error `ApiStatus` with that code.
pub fn check_status(code: u16) -> (res: Result<(), VibeVoiceError>)
    ensures
        res is Ok <==> 200 <= code < 300,
        res matches Err(e) ==> e matches VibeVoiceError::ApiStatus(c) && c == code,
{
    if 200 <= code && code < 300 {
        Ok(())
    } else {
        Err(VibeVoiceError::ApiStatus(code))
    }
}

/// The URL speech is asked for at: the API base followed by `/audio/speech`.
pub fn speech_url(config: &VibeVoiceConfig) -> (url: String)
    ensures
        url@ == config.api_url@ + "/audio/speech"@,
{
    let mut url = config.api_url.clone();
    url.append("/audio/speech");
    url
}

/// The request for speech of `text` in the voice cloned from `voice_path`:
/// the configured model, steps and guidance scale, the `default` voice slot,
/// raw PCM audio streamed as server-sent events.
pub fn speech_request(config: &VibeVoiceConfig, text: &str, voice_path: &str) -> (req: SpeechRequest)
    ensures
        req.model@ == config.model@,
        req.voice@ == "default"@,
        req.input@ == text@,
        req.response_format@ == "pcm"@,
        req.voice_path@ == voice_path@,
        req.stream_format@ == "sse"@,
        req.ddpm_steps == config.ddpm_steps,
        req.cfg_scale_bits == config.cfg_scale_bits,
{
    SpeechRequest {
        model: config.model.clone(),
        voice: "default".to_owned(),
        input: text.to_owned(),
        response_format: "pcm".to_owned(),
        voice_path: voice_path.to_owned(),
        stream_format: "sse".to_owned(),
        ddpm_steps: config.ddpm_steps,
        cfg_scale_bits: config.cfg_scale_bits,
    }
}

impl SseDecoder {
    /// Reads a chunk of the answer's bytes, decoded as UTF-8 with invalid
    /// sequences replaced; returns the events it completes, in order. A chunk
    /// of whole UTF-8 is read as the text it encodes.
    pub fn feed_bytes(&mut self, chunk: &[u8]) -> (frames: Vec<SseFrame>)
        ensures
            final(self)@ == after_text(old(self)@, utf8_lossy_text(chunk@)).0,
            frames@.map_values(|f: SseFrame| frame_view(f)) == after_text(
                old(self)@,
                utf8_lossy_text(chunk@),
            ).1,
            valid_utf8(chunk@) ==> final(self)@ == after_text(old(self)@, decode_utf8(chunk@)).0
                && frames@.map_values(|f: SseFrame| frame_view(f)) == after_text(
                old(self)@,
                decode_utf8(chunk@),
            ).1,
    {
        let text = utf8_lossy(chunk);
        self.feed(text.as_str())
    }
}

/// The sample rate assumed until the server announces one.
pub const DEFAULT_SAMPLE_RATE: u32 = 24000;

/// The types of event the server sends.
#[derive(Debug, Clone, Copy, PartialEq, Eq)]
pub enum FrameKind {
    Start,
    Chunk,
    End,
    Error,
    Other,
}

/// The type of an event named `event`.
pub open spec fn frame_kind(event: Seq<char>) -> FrameKind {
    if event == seq!['s', 't', 'a', 'r', 't'] {
        FrameKind::Start
    } else if event == seq!['c', 'h', 'u', 'n', 'k'] {
        FrameKind::Chunk
    } else if event == seq!['e', 'n', 'd'] {
        FrameKind::End
    } else if event == seq!['e', 'r', 'r', 'o', 'r'] {
        FrameKind::Error
    } else {
        FrameKind::Other
    }
}

impl SseFrame {
    /// The type of this event.
    pub fn kind(&self) -> (k: FrameKind)
        ensures
            k == frame_kind(self.event@),
    {
        let e = chars_of(self.event.as_str());
        let start = ['s', 't', 'a', 'r', 't'];
        let chunk = ['c', 'h', 'u', 'n', 'k'];
        let end = ['e', 'n', 'd'];
        let error = ['e', 'r', 'r', 'o', 'r'];
        assert(start@ =~= seq!['s', 't', 'a', 'r', 't']);
        assert(chunk@ =~= seq!['c', 'h', 'u', 'n', 'k']);
        assert(end@ =~= seq!['e', 'n', 'd']);
        assert(error@ =~= seq!['e', 'r', 'r', 'o', 'r']);
        if same_chars(e.as_slice(), start.as_slice()) {
            FrameKind::Start
        } else if same_chars(e.as_slice(), chunk.as_slice()) {
            FrameKind::Chunk
        } else if same_chars(e.as_slice(), end.as_slice()) {
            FrameKind::End
        } else if same_chars(e.as_slice(), error.as_slice()) {
            FrameKind::Error
        } else {
            FrameKind::Other
        }
    }
}

/// The JSON data of an event, as read for its type: a `start` event's
/// optional sample rate, a `chunk` event's Base64 audio, an `error` event's
/// message; `Unparsed` when the data does not hold what the type calls for.
#[derive(Debug)]
pub enum EventPayload {
    Start { sample_rate: Option<u32> },
    Chunk { data: String },
    Error { error: String },
    Unparsed,
}

/// An event that is skipped: of another type, or with data that could not
/// be read as its type calls for (an `end` event needs no data).
pub open spec fn skipped(kind: FrameKind, payload: EventPayload) -> bool {
    match kind {
        FrameKind::Start => !(payload is Start),
        FrameKind::Chunk => !(payload is Chunk),
        FrameKind::End => false,
        FrameKind::Error => !(payload is Error),
        FrameKind::Other => true,
    }
}

/// What to do after an event: go on reading, send audio to the client and go
/// on, send the final (empty) piece and stop, or stop with an error. When the
/// client is gone, a `Send` ends the stream with `ChannelError`; a `Finish`
/// ends it normally either way.
#[derive(Debug)]
pub enum FrameAction {
    Continue,
    Send(AudioChunk),
    Finish(AudioChunk),
    Fail(VibeVoiceError),
}

/// How the stream goes on after a piece of audio was handed to the client
/// (`delivered` is whether the client took it): after the final piece it
/// ends normally, whether or not the client took it (`Some(Ok)`); after any
/// other piece it goes on (`None`), unless the client is gone, which ends it
/// with `ChannelError`.
pub fn after_delivery(is_final: bool, delivered: bool) -> (next: Option<Result<(), VibeVoiceError>>)
    ensures
        is_final ==> next matches Some(Ok(())),
        !is_final && delivered ==> next is None,
        !is_final && !delivered ==> next matches Some(Err(VibeVoiceError::ChannelError)),
{
    if is_final {
        Some(Ok(()))
    } else if delivered {
        None
    } else {
        Some(Err(VibeVoiceError::ChannelError))
    }
}

/// What a synthesis stream remembers between events: the sample rate last
/// announced.
#[derive(Debug)]
pub struct SynthesisSession {
    pub sample_rate: u32,
}

impl SynthesisSession {
    /// A stream that has seen no event yet.
    pub fn new() -> (s: Self)
        ensures
            s.sample_rate == DEFAULT_SAMPLE_RATE,
    {
        SynthesisSession { sample_rate: DEFAULT_SAMPLE_RATE }
    }

    /// Acts on one event of the stream, given its data as read for its type.
    /// A `start` event sets the sample rate (24000 Hz when it names none); a
    /// `chunk` event yields its Base64-decoded PCM audio at the current rate,
    /// or fails when the Base64 is bad; an `end` event yields the final empty
    /// piece; an `error` event fails with its message. Events whose data could
    /// not be read, and events of other types, are skipped.
    pub fn on_frame(&mut self, frame: &SseFrame, payload: EventPayload) -> (action: FrameAction)
        ensures
            match frame_kind(frame.event@) {
                FrameKind::Start => match payload {
                    EventPayload::Start { sample_rate } => {
                        &&& final(self).sample_rate == match sample_rate {
                            Some(r) => r,
                            None => DEFAULT_SAMPLE_RATE,
                        }
                        &&& action is Continue
                    },
                    _ => final(self).sample_rate == old(self).sample_rate && action is Continue,
                },
                FrameKind::Chunk => final(self).sample_rate == old(self).sample_rate && match payload {
                    EventPayload::Chunk { data } => match base64_standard_decoded(encode_utf8(data@)) {
                        Ok(bytes) => action matches FrameAction::Send(c) && c.samples@ == pcm_samples(
                            bytes,
                        ) && c.sample_rate == old(self).sample_rate && !c.is_final,
                        Err(e) => action matches FrameAction::Fail(err) && err
                            matches VibeVoiceError::Base64Error(e2) && e2 == e,
                    },
                    _ => action is Continue,
                },
                FrameKind::End => {
                    &&& final(self).sample_rate == old(self).sample_rate
                    &&& action matches FrameAction::Finish(c) && c.samples@.len() == 0
                        && c.sample_rate == old(self).sample_rate && c.is_final
                },
                FrameKind::Error => final(self).sample_rate == old(self).sample_rate && match payload {
                    EventPayload::Error { error } => action matches FrameAction::Fail(err) && err
                        matches VibeVoiceError::ApiError(m) && m == error,
                    _ => action is Continue,
                },
                FrameKind::Other => final(self).sample_rate == old(self).sample_rate
                    && action is Continue,
            },
            skipped(frame_kind(frame.event@), payload) ==> final(self).sample_rate == old(
                self,
            ).sample_rate && action is Continue,
    {
        match frame.kind() {
            FrameKind::Start => {
                if let EventPayload::Start { sample_rate } = payload {
                    self.sample_rate = match sample_rate {
                        Some(r) => r,
                        None => DEFAULT_SAMPLE_RATE,
                    };
                }
                FrameAction::Continue
            },
            FrameKind::Chunk => {
                if let EventPayload::Chunk { data } = payload {
                    match decode_base64(data.as_str().as_bytes()) {
                        Ok(bytes) => FrameAction::Send(
                            AudioChunk {
                                samples: decode_pcm(bytes.as_slice()),
                                sample_rate: self.sample_rate,
                                is_final: false,
                            },
                        ),
                        Err(e) => FrameAction::Fail(VibeVoiceError::Base64Error(e)),
                    }
                } else {
                    FrameAction::Continue
                }
            },
            FrameKind::End => FrameAction::Finish(
                AudioChunk { samples: Vec::new(), sample_rate: self.sample_rate, is_final: true },
            ),
            FrameKind::Error => {
                if let EventPayload::Error { error } = payload {
                    FrameAction::Fail(VibeVoiceError::ApiError(error))
                } else {
                    FrameAction::Continue
                }
            },
            FrameKind::Other => FrameAction::Continue,
        }
    }
}

/// How the bytes of a stream are cut into chunks does not change what is
/// decoded, as long as each chunk is whole UTF-8 (every cut falls between
/// characters): reading `a` and then `b` ends in the same decoder, with the
/// same events in the same order, as reading `a + b` at once.
pub proof fn lemma_split_bytes(v: DecoderView, a: Seq<u8>, b: Seq<u8>)
    requires
        valid_utf8(a),
        valid_utf8(b),
    ensures
        valid_utf8(a + b),
        ({
            let (va, fa) = after_text(v, decode_utf8(a));
            let (vb, fb) = after_text(va, decode_utf8(b));
            after_text(v, decode_utf8(a + b)) == (vb, fa + fb)
        }),
{
    broadcast use vstd::utf8::decode_utf8_encode_utf8, vstd::utf8::encode_utf8_decode_utf8,
        vstd::utf8::encode_utf8_valid_utf8;

    let da = decode_utf8(a);
    let db = decode_utf8(b);
    lemma_encode_utf8_concat(da, db);
    assert(encode_utf8(da) == a);
    assert(encode_utf8(db) == b);
    assert(a + b == encode_utf8(da + db));
    assert(decode_utf8(a + b) == da + db);
    lemma_split_text(v, da, db);
}

} // verus!
