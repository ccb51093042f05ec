//! What the monitor's screen shows, apart from drawing it: the keys it
//! answers to, the uptime clock, how old a log entry is, and the last column
//! of the log.
use vstd::prelude::*;

use crate::tui::state::{AppState, RequestLog, VoiceInfo};

verus! {

/// What a key press asks of the monitor.
#[derive(Debug, Clone, Copy, PartialEq, Eq)]
pub enum KeyAction {
    Quit,
    ClearLog,
    Ignore,
}

/// `q` or `Q` quits; `c` or `C` clears the log; other keys do nothing.
pub fn key_action(c: char) -> (a: KeyAction)
    ensures
        a == if c == 'q' || c == 'Q' {
            KeyAction::Quit
        } else if c == 'c' || c == 'C' {
            KeyAction::ClearLog
        } else {
            KeyAction::Ignore
        },
{
    if c == 'q' || c == 'Q' {
        KeyAction::Quit
    } else if c == 'c' || c == 'C' {
        KeyAction::ClearLog
    } else {
        KeyAction::Ignore
    }
}

/// A number of seconds as hours, minutes and seconds of the clock.
pub fn clock_parts(secs: u64) -> (hms: (u64, u64, u64))
    ensures
        hms.0 == secs / 3600,
        hms.1 == (secs % 3600) / 60,
        hms.2 == secs % 60,
        hms.1 < 60,
        hms.2 < 60,
        hms.0 * 3600 + hms.1 * 60 + hms.2 == secs,
{
    let h = secs / 3600;
    let m = (secs % 3600) / 60;
    let s = secs % 60;
    assert(h * 3600 + m * 60 + s == secs) by (nonlinear_arith)
        requires
            h == secs / 3600,
            m == (secs % 3600) / 60,
            s == secs % 60,
    ;
    (h, m, s)
}

/// How long ago something happened, as the log shows it.
#[derive(Debug, Clone, Copy, PartialEq, Eq)]
pub enum Age {
    Seconds(u64),
    Minutes(u64),
}

/// Under a minute ago is shown in seconds, else in whole minutes.
pub fn age(secs: u64) -> (a: Age)
    ensures
        a == if secs < 60 {
            Age::Seconds(secs)
        } else {
            Age::Minutes(secs / 60)
        },
{
    if secs < 60 {
        Age::Seconds(secs)
    } else {
        Age::Minutes(secs / 60)
    }
}

/// The last column of a log entry: the number of chunks, else the error,
/// else nothing.
#[derive(Debug)]
pub enum Detail {
    Chunks(u32),
    Error(String),
    Nothing,
}

impl RequestLog {
    /// What the log's last column shows for this entry.
    pub fn detail(&self) -> (d: Detail)
        ensures
            match self.chunks {
                Some(c) => d == Detail::Chunks(c),
                None => match self.error {
                    Some(e) => d matches Detail::Error(f) && f@ == e@,
                    None => d is Nothing,
                },
            },
    {
        match self.chunks {
            Some(c) => Detail::Chunks(c),
            None => match &self.error {
                Some(e) => Detail::Error(e.clone()),
                None => Detail::Nothing,
            },
        }
    }
}

impl AppState {
    /// Whether `voice` is the default voice.
    pub fn is_default_voice(&self, voice: &VoiceInfo) -> (b: bool)
        ensures
            b == (self.default_voice matches Some(d) && d@ == voice.id@),
    {
        match &self.default_voice {
            Some(d) => *d == voice.id,
            None => false,
        }
    }
}

} // verus!
