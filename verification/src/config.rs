use vstd::prelude::*;
use vstd::string::*;

use crate::tui::state::VoiceInfo;

verus! {

/// Where the gRPC server listens.
#[derive(Debug)]
pub struct ServerConfig {
    pub listen_addr: String,
}

/// How to reach the VibeVoice server and how to ask it for speech.
///
/// The guidance scale is a 32-bit float that the library only passes on; it is
/// held here as its IEEE-754 bit pattern (`f32::to_bits`).
#[derive(Debug, Clone)]
pub struct VibeVoiceConfig {
    pub api_url: String,
    pub model: String,
    pub ddpm_steps: u32,
    pub cfg_scale_bits: u32,
}

/// The configured voices, in the order the configuration lists them, and the
/// voice used when a request names none.
#[derive(Debug)]
pub struct VoicesConfig {
    pub default: Option<String>,
    pub voices: Vec<(String, VoiceEntry)>,
}

/// One voice: the sample file the server clones it from, and an optional
/// name to show for it.
#[derive(Debug, Clone)]
pub struct VoiceEntry {
    pub path: String,
    pub display_name: Option<String>,
}

/// The whole configuration file.
#[derive(Debug)]
pub struct Config {
    pub server: ServerConfig,
    pub vibevoice: VibeVoiceConfig,
    pub voices: VoicesConfig,
}

/// Why a configuration could not be loaded or a voice could not be chosen.
#[derive(Debug)]
pub enum ConfigError {
    ReadError(String),
    ParseError(String),
    VoiceNotFound(String),
    NoDefaultVoice,
}

/// The address the gRPC server listens on when the configuration names none.
pub fn default_listen_addr() -> (addr: String)
    ensures
        addr@ == "[::1]:50051"@,
{
    "[::1]:50051".to_owned()
}

/// The VibeVoice API base URL used when the configuration names none.
pub fn default_api_url() -> (url: String)
    ensures
        url@ == "http://127.0.0.1:8000/v1"@,
{
    "http://127.0.0.1:8000/v1".to_owned()
}

/// The model asked for when the configuration names none.
pub fn default_model() -> (model: String)
    ensures
        model@ == "vibevoice/VibeVoice-7B"@,
{
    "vibevoice/VibeVoice-7B".to_owned()
}

/// The number of diffusion steps used when the configuration names none.
pub fn default_ddpm_steps() -> (steps: u32)
    ensures
        steps == 20,
{
    20
}

/// The voice a request for `voice_id` resolves to: the id itself, or the
/// configured default when the id is empty; `None` when the id is empty and
/// there is no default.
pub open spec fn requested_voice(voices: VoicesConfig, voice_id: Seq<char>) -> Option<Seq<char>> {
    if voice_id.len() == 0 {
        match voices.default {
            Some(d) => Some(d@),
            None => None,
        }
    } else {
        Some(voice_id)
    }
}

/// The first position at or after `from` of the voice list whose id is `id`,
/// or the length of the list when no voice there has that id.
pub open spec fn voice_index_from(voices: Seq<(String, VoiceEntry)>, id: Seq<char>, from: int) -> int
    decreases voices.len() - from,
{
    if from < 0 || from >= voices.len() {
        voices.len() as int
    } else if voices[from].0@ == id {
        from
    } else {
        voice_index_from(voices, id, from + 1)
    }
}

/// The first position of the voice list whose id is `id`, or the length of
/// the list when there is none.
pub open spec fn voice_index(voices: Seq<(String, VoiceEntry)>, id: Seq<char>) -> int {
    voice_index_from(voices, id, 0)
}

/// The lookup position is the first voice with the id: every voice before
/// it has another id, and it has the id unless it is past the end.
pub proof fn lemma_voice_index(voices: Seq<(String, VoiceEntry)>, id: Seq<char>, from: int)
    requires
        0 <= from <= voices.len(),
    ensures
        from <= voice_index_from(voices, id, from) <= voices.len(),
        voice_index_from(voices, id, from) < voices.len() ==> voices[voice_index_from(
            voices,
            id,
            from,
        )].0@ == id,
        forall|j: int| from <= j < voice_index_from(voices, id, from) ==> voices[j].0@ != id,
    decreases voices.len() - from,
{
    if from < voices.len() && voices[from].0@ != id {
        lemma_voice_index(voices, id, from + 1);
    }
}

/// A voice is found exactly when some configured voice has the id.
pub proof fn lemma_voice_found_iff_present(voices: Seq<(String, VoiceEntry)>, id: Seq<char>)
    ensures
        (voice_index(voices, id) < voices.len()) <==> (exists|i: int|
            0 <= i < voices.len() && #[trigger] voices[i].0@ == id),
{
    lemma_voice_index(voices, id, 0);
    if voice_index(voices, id) < voices.len() {
        assert(voices[voice_index(voices, id)].0@ == id);
    }
}

/// No two configured voices share an id, as in the configuration file,
/// where voices are the keys of a table.
pub open spec fn voice_ids_distinct(voices: Seq<(String, VoiceEntry)>) -> bool {
    forall|i: int, j: int|
        0 <= i < voices.len() && 0 <= j < voices.len() && i != j ==> #[trigger] voices[i].0@
            != #[trigger] voices[j].0@
}

/// When voice ids are distinct, the voice a lookup finds is the only voice
/// with that id.
pub proof fn lemma_found_voice_unique(voices: Seq<(String, VoiceEntry)>, id: Seq<char>, i: int)
    requires
        voice_ids_distinct(voices),
        0 <= i < voices.len(),
        voices[i].0@ == id,
    ensures
        voice_index(voices, id) == i,
{
    lemma_voice_index(voices, id, 0);
    let k = voice_index(voices, id);
    if k != i {
        if k < voices.len() {
            assert(voices[k].0@ == id);
        } else {
            assert(voices[i].0@ != id);
        }
    }
}

/// The last position of `entries` whose id is `id`, or -1 when there is
/// none: the entry a map built from `entries` keeps for `id`.
pub open spec fn last_index(entries: Seq<(String, VoiceEntry)>, id: Seq<char>) -> int
    decreases entries.len(),
{
    if entries.len() == 0 {
        -1
    } else if entries.last().0@ == id {
        entries.len() - 1
    } else {
        last_index(entries.drop_last(), id)
    }
}

/// `last_index` is the last position with the id, and there is one exactly
/// when some entry has the id.
pub proof fn lemma_last_index(entries: Seq<(String, VoiceEntry)>, id: Seq<char>)
    ensures
        -1 <= last_index(entries, id) < entries.len(),
        last_index(entries, id) >= 0 ==> entries[last_index(entries, id)].0@ == id,
        forall|j: int|
            last_index(entries, id) < j < entries.len() ==> #[trigger] entries[j].0@ != id,
        (exists|j: int| 0 <= j < entries.len() && #[trigger] entries[j].0@ == id) ==> last_index(
            entries,
            id,
        ) >= 0,
    decreases entries.len(),
{
    if entries.len() > 0 && entries.last().0@ != id {
        let rest = entries.drop_last();
        lemma_last_index(rest, id);
        assert forall|j: int| last_index(entries, id) < j < entries.len() implies #[trigger] entries[j].0@
            != id by {
            if j < entries.len() - 1 {
                assert(rest[j] == entries[j]);
            }
        }
        if exists|j: int| 0 <= j < entries.len() && #[trigger] entries[j].0@ == id {
            let j = choose|j: int| 0 <= j < entries.len() && #[trigger] entries[j].0@ == id;
            assert(rest[j] == entries[j]);
        }
    }
}

/// Some voice of the list has the id `id`.
pub open spec fn has_voice(voices: Seq<(String, VoiceEntry)>, id: Seq<char>) -> bool {
    exists|i: int| 0 <= i < voices.len() && #[trigger] voices[i].0@ == id
}

/// The voice list of `entries` read as a map: ids are distinct, every id of
/// `entries` is there, and each id keeps its last entry.
pub open spec fn voices_as_map(voices: Seq<(String, VoiceEntry)>, entries: Seq<(String, VoiceEntry)>) -> bool {
    &&& voice_ids_distinct(voices)
    &&& forall|i: int|
        0 <= i < voices.len() ==> 0 <= #[trigger] last_index(entries, voices[i].0@) && voices[i]
            == entries[last_index(entries, voices[i].0@)]
    &&& forall|j: int| 0 <= j < entries.len() ==> has_voice(voices, #[trigger] entries[j].0@)
}

/// On voices read as a map, a lookup is a map lookup: it finds a voice
/// exactly when some entry has the id, and then the last such entry.
pub proof fn lemma_lookup_is_map_lookup(
    voices: Seq<(String, VoiceEntry)>,
    entries: Seq<(String, VoiceEntry)>,
    id: Seq<char>,
)
    requires
        voices_as_map(voices, entries),
    ensures
        (voice_index(voices, id) < voices.len()) <==> (last_index(entries, id) >= 0),
        voice_index(voices, id) < voices.len() ==> voices[voice_index(voices, id)] == entries[last_index(
            entries,
            id,
        )],
{
    lemma_voice_index(voices, id, 0);
    lemma_last_index(entries, id);
    let k = voice_index(voices, id);
    if k < voices.len() {
        assert(voices[k].0@ == id);
        assert(0 <= last_index(entries, voices[k].0@));
    }
    if last_index(entries, id) >= 0 {
        let j = last_index(entries, id);
        assert(has_voice(voices, entries[j].0@));
        let i = choose|i: int| 0 <= i < voices.len() && #[trigger] voices[i].0@ == entries[j].0@;
        lemma_found_voice_unique(voices, id, i);
    }
}

impl VoicesConfig {
    /// The voices of a configuration whose voice table lists `entries`: as
    /// in a map, a later entry for an id replaces an earlier one, so no two
    /// voices share an id.
    pub fn from_entries(default: Option<String>, entries: Vec<(String, VoiceEntry)>) -> (v: Self)
        ensures
            v.default == default,
            voices_as_map(v.voices@, entries@),
    {
        let ghost all = entries@;
        let mut rest = entries;
        let mut voices: Vec<(String, VoiceEntry)> = Vec::new();
        while rest.len() > 0
            invariant
                rest@ == all.take(rest@.len() as int),
                rest@.len() <= all.len(),
                voice_ids_distinct(voices@),
                forall|i: int|
                    0 <= i < voices@.len() ==> rest@.len() <= #[trigger] last_index(all, voices@[i].0@)
                        && voices@[i] == all[last_index(all, voices@[i].0@)],
                forall|j: int| rest@.len() <= j < all.len() ==> has_voice(voices@, #[trigger] all[j].0@),
            decreases rest@.len(),
        {
            let ghost k = rest@.len() - 1;
            let (id, entry) = rest.pop().unwrap();
            assert(all[k] == (id, entry));
            assert(rest@ =~= all.take(k));
            proof {
                lemma_last_index(all, id@);
            }
            let mut present = false;
            let mut i: usize = 0;
            while i < voices.len()
                invariant
                    i <= voices@.len(),
                    present <==> exists|m: int| 0 <= m < i && #[trigger] voices@[m].0@ == id@,
                decreases voices@.len() - i,
            {
                if voices[i].0 == id {
                    present = true;
                }
                i = i + 1;
            }
            if !present {
                assert forall|j: int| k < j < all.len() implies #[trigger] all[j].0@ != id@ by {
                    if all[j].0@ == id@ {
                        assert(has_voice(voices@, all[j].0@));
                        let m = choose|m: int| 0 <= m < voices@.len() && #[trigger] voices@[m].0@ == all[j].0@;
                        assert(voices@[m].0@ == id@);
                    }
                }
                assert(last_index(all, id@) == k);
                let ghost before = voices@;
                voices.push((id, entry));
                assert forall|j: int| k <= j < all.len() implies has_voice(voices@, #[trigger] all[j].0@) by {
                    if j == k {
                        assert(voices@[before.len() as int].0@ == all[j].0@);
                    } else {
                        assert(has_voice(before, all[j].0@));
                        let m = choose|m: int| 0 <= m < before.len() && #[trigger] before[m].0@ == all[j].0@;
                        assert(voices@[m] == before[m]);
                    }
                }
                assert forall|i: int| 0 <= i < voices@.len() implies k <= #[trigger] last_index(
                    all,
                    voices@[i].0@,
                ) && voices@[i] == all[last_index(all, voices@[i].0@)] by {
                    if i < before.len() {
                        assert(voices@[i] == before[i]);
                    }
                }
                assert forall|a: int, b: int|
                    0 <= a < voices@.len() && 0 <= b < voices@.len() && a != b implies #[trigger] voices@[a].0@
                    != #[trigger] voices@[b].0@ by {
                    if a < before.len() && b < before.len() {
                        assert(voices@[a] == before[a]);
                        assert(voices@[b] == before[b]);
                    } else if a < before.len() {
                        assert(voices@[a] == before[a]);
                    } else if b < before.len() {
                        assert(voices@[b] == before[b]);
                    }
                }
            } else {
                proof {
                    let m = choose|m: int| 0 <= m < i && #[trigger] voices@[m].0@ == id@;
                    assert(voices@[m].0@ == all[k].0@);
                    assert(has_voice(voices@, all[k].0@));
                }
            }
        }
        VoicesConfig { default, voices }
    }
}

/// Asking for no voice in particular is asking for the default voice.
pub proof fn lemma_empty_id_is_default(voices: VoicesConfig, d: String)
    requires
        voices.default == Some(d),
        d@.len() > 0,
    ensures
        requested_voice(voices, Seq::empty()) == requested_voice(voices, d@),
{
}

impl Config {
    /// Looks up the voice for a request: an empty `voice_id` stands for the
    /// configured default voice.
    pub fn get_voice(&self, voice_id: &str) -> (res: Result<&VoiceEntry, ConfigError>)
        ensures
            match requested_voice(self.voices, voice_id@) {
                None => res matches Err(ConfigError::NoDefaultVoice),
                Some(id) => match res {
                    Ok(entry) => voice_index(self.voices.voices@, id) < self.voices.voices@.len()
                        && *entry == self.voices.voices@[voice_index(self.voices.voices@, id)].1,
                    Err(ConfigError::VoiceNotFound(missing)) => missing@ == id && voice_index(
                        self.voices.voices@,
                        id,
                    ) == self.voices.voices@.len(),
                    Err(_) => false,
                },
            },
    {
        let id: String = if voice_id.is_empty() {
            match &self.voices.default {
                Some(d) => d.clone(),
                None => {
                    return Err(ConfigError::NoDefaultVoice);
                },
            }
        } else {
            voice_id.to_owned()
        };
        let n = self.voices.voices.len();
        let mut i: usize = 0;
        while i < n
            invariant
                n == self.voices.voices@.len(),
                i <= n,
                Some(id@) == requested_voice(self.voices, voice_id@),
                voice_index(self.voices.voices@, id@) == voice_index_from(
                    self.voices.voices@,
                    id@,
                    i as int,
                ),
            decreases n - i,
        {
            if self.voices.voices[i].0 == id {
                let entry: &VoiceEntry = &self.voices.voices[i].1;
                assert(*entry == self.voices.voices@[i as int].1);
                return Ok(entry);
            }
            i = i + 1;
        }
        Err(ConfigError::VoiceNotFound(id))
    }
}

impl ConfigError {
    /// The text that describes this error to a person.
    pub fn message(&self) -> (text: String)
        ensures
            text@ == match self {
                ConfigError::ReadError(e) => "failed to read config file: "@ + e@,
                ConfigError::ParseError(e) => "failed to parse config: "@ + e@,
                ConfigError::VoiceNotFound(id) => "voice not found: "@ + id@,
                ConfigError::NoDefaultVoice => "no default voice configured and voice_id is empty"@,
            },
    {
        match self {
            ConfigError::ReadError(e) => {
                let mut text = "failed to read config file: ".to_owned();
                text.append(e.as_str());
                text
            },
            ConfigError::ParseError(e) => {
                let mut text = "failed to parse config: ".to_owned();
                text.append(e.as_str());
                text
            },
            ConfigError::VoiceNotFound(id) => {
                let mut text = "voice not found: ".to_owned();
                text.append(id.as_str());
                text
            },
            ConfigError::NoDefaultVoice => "no default voice configured and voice_id is empty".to_owned(),
        }
    }
}

/// The name shown for a voice: its display name, or its id when it has none.
pub open spec fn shown_name(id: Seq<char>, entry: VoiceEntry) -> Seq<char> {
    match entry.display_name {
        Some(name) => name@,
        None => id,
    }
}

/// `info` lists the voice `voice`: its id, and the name shown for it.
pub open spec fn lists_voice(info: VoiceInfo, voice: (String, VoiceEntry)) -> bool {
    info.id@ == voice.0@ && info.display_name@ == shown_name(voice.0@, voice.1)
}

impl VoicesConfig {
    /// The voices as the monitor lists them, in the configured order.
    pub fn voice_infos(&self) -> (infos: Vec<VoiceInfo>)
        ensures
            infos@.len() == self.voices@.len(),
            forall|i: int| 0 <= i < infos@.len() ==> lists_voice(#[trigger] infos@[i], self.voices@[i]),
    {
        let mut infos: Vec<VoiceInfo> = Vec::new();
        let n = self.voices.len();
        let mut i: usize = 0;
        while i < n
            invariant
                n == self.voices@.len(),
                i <= n,
                infos@.len() == i,
                forall|j: int| 0 <= j < i ==> lists_voice(#[trigger] infos@[j], self.voices@[j]),
            decreases n - i,
        {
            let (id, entry) = &self.voices[i];
            let display_name = match &entry.display_name {
                Some(name) => name.clone(),
                None => id.clone(),
            };
            let ghost before = infos@;
            infos.push(VoiceInfo { id: id.clone(), display_name });
            assert(lists_voice(infos@[i as int], self.voices@[i as int]));
            assert forall|j: int| 0 <= j < i + 1 implies lists_voice(#[trigger] infos@[j], self.voices@[j]) by {
                if j < i {
                    assert(infos@[j] == before[j]);
                }
            }
            i = i + 1;
        }
        infos
    }
}

} // verus!
