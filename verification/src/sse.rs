//! Decoding of the server-sent-event stream in which the VibeVoice server
//! answers: text is cut into lines; `event:` and `data:` lines fill the event
//! being read, and a blank line ends it.
use vstd::prelude::*;

use crate::strings::{has_prefix, same_chars, string_of, trim, trimmed};

verus! {

/// One complete event: its type and its data lines, joined.
#[derive(Debug)]
pub struct SseFrame {
    pub event: String,
    pub data: String,
}

/// What the decoder holds between characters: the type of the event being
/// read (if an `event:` line was seen), its data so far, and the current
/// line.
pub struct DecoderView {
    pub event: Option<Seq<char>>,
    pub data: Seq<char>,
    pub line: Seq<char>,
}

/// A complete event as a pair of character sequences: type and data.
pub type FrameView = (Seq<char>, Seq<char>);

/// The frame's type and data.
pub open spec fn frame_view(f: SseFrame) -> FrameView {
    (f.event@, f.data@)
}

/// The decoder that reads the stream.
pub struct SseDecoder {
    current_event: Option<Vec<char>>,
    data_buffer: Vec<char>,
    line_buffer: Vec<char>,
}

/// `event:`
pub open spec fn event_field() -> Seq<char> {
    seq!['e', 'v', 'e', 'n', 't', ':']
}

/// `data:`
pub open spec fn data_field() -> Seq<char> {
    seq!['d', 'a', 't', 'a', ':']
}

/// The decoder after a complete line (without its line feed), and the event
/// that the line ends, if any. Lines are trimmed; a blank line ends the
/// event being read (an event without an `event:` line is dropped); an
/// `event:` line sets the type; a `data:` line appends its trimmed value to
/// the data; any other line is ignored.
pub open spec fn after_line(v: DecoderView, line: Seq<char>) -> (DecoderView, Option<FrameView>) {
    let l = trim(line);
    if l.len() == 0 {
        (
            DecoderView { event: None, data: Seq::empty(), line: Seq::empty() },
            match v.event {
                Some(e) => Some((e, v.data)),
                None => None,
            },
        )
    } else if l.len() >= 6 && l.take(6) == event_field() {
        (DecoderView { event: Some(trim(l.skip(6))), data: v.data, line: Seq::empty() }, None)
    } else if l.len() >= 5 && l.take(5) == data_field() {
        (DecoderView { event: v.event, data: v.data + trim(l.skip(5)), line: Seq::empty() }, None)
    } else {
        (DecoderView { event: v.event, data: v.data, line: Seq::empty() }, None)
    }
}

/// The decoder after one character, and the event it completes, if any.
pub open spec fn after_char(v: DecoderView, c: char) -> (DecoderView, Option<FrameView>) {
    if c == '\n' {
        after_line(v, v.line)
    } else {
        (DecoderView { event: v.event, data: v.data, line: v.line.push(c) }, None)
    }
}

/// The frames an optional frame stands for.
pub open spec fn frames_of(f: Option<FrameView>) -> Seq<FrameView> {
    match f {
        Some(x) => seq![x],
        None => Seq::empty(),
    }
}

/// The decoder after the characters `cs`, and the events they complete, in
/// order.
pub open spec fn after_text(v: DecoderView, cs: Seq<char>) -> (DecoderView, Seq<FrameView>)
    decreases cs.len(),
{
    if cs.len() == 0 {
        (v, Seq::empty())
    } else {
        let (v1, fs) = after_text(v, cs.drop_last());
        let (v2, f) = after_char(v1, cs.last());
        (v2, fs + frames_of(f))
    }
}

impl View for SseDecoder {
    type V = DecoderView;

    closed spec fn view(&self) -> DecoderView {
        DecoderView {
            event: match self.current_event {
                Some(e) => Some(e@),
                None => None,
            },
            data: self.data_buffer@,
            line: self.line_buffer@,
        }
    }
}

impl SseDecoder {
    /// A decoder at the start of a stream.
    pub fn new() -> (d: Self)
        ensures
            d@ == (DecoderView { event: None, data: Seq::empty(), line: Seq::empty() }),
    {
        let d = SseDecoder { current_event: None, data_buffer: Vec::new(), line_buffer: Vec::new() };
        assert(d@.data =~= Seq::<char>::empty());
        assert(d@.line =~= Seq::<char>::empty());
        d
    }

    /// Takes the line that just ended.
    fn end_line(&mut self) -> (f: Option<SseFrame>)
        ensures
            final(self)@ == after_line(old(self)@, old(self)@.line).0,
            match f {
                Some(x) => after_line(old(self)@, old(self)@.line).1 == Some(frame_view(x)),
                None => after_line(old(self)@, old(self)@.line).1 is None,
            },
    {
        let line = trimmed(self.line_buffer.as_slice(), 0);
        assert(self.line_buffer@.skip(0) =~= self.line_buffer@);
        self.line_buffer = Vec::new();
        assert(self.line_buffer@ =~= Seq::<char>::empty());
        let ghost l = line@;
        let event_prefix = ['e', 'v', 'e', 'n', 't', ':'];
        let data_prefix = ['d', 'a', 't', 'a', ':'];
        assert(event_prefix@ =~= event_field());
        assert(data_prefix@ =~= data_field());
        if line.len() == 0 {
            let frame = match self.current_event.take() {
                Some(e) => Some(
                    SseFrame {
                        event: string_of(e.as_slice()),
                        data: string_of(self.data_buffer.as_slice()),
                    },
                ),
                None => None,
            };
            self.data_buffer = Vec::new();
            assert(self@.data =~= Seq::<char>::empty());
            assert(self@.line =~= Seq::<char>::empty());
            frame
        } else if has_prefix(line.as_slice(), event_prefix.as_slice()) {
            let name = trimmed(line.as_slice(), 6);
            self.current_event = Some(name);
            assert(self@.line =~= Seq::<char>::empty());
            None
        } else if has_prefix(line.as_slice(), data_prefix.as_slice()) {
            let value = trimmed(line.as_slice(), 5);
            let ghost before = self.data_buffer@;
            let ghost ev = self.current_event;
            let mut k: usize = 0;
            while k < value.len()
                invariant
                    k <= value@.len(),
                    self.data_buffer@ == before + value@.take(k as int),
                    self.line_buffer@ == Seq::<char>::empty(),
                    self.current_event == ev,
                decreases value@.len() - k,
            {
                self.data_buffer.push(value[k]);
                assert(value@.take(k + 1) =~= value@.take(k as int).push(value@[k as int]));
                k = k + 1;
            }
            assert(value@.take(value@.len() as int) =~= value@);
            assert(self@.line =~= Seq::<char>::empty());
            None
        } else {
            assert(!(l.len() >= 6 && l.take(6) == event_field()));
            assert(!(l.len() >= 5 && l.take(5) == data_field()));
            assert(self@.line =~= Seq::<char>::empty());
            None
        }
    }

    /// Reads one character; returns the event it completes, if any.
    pub fn push_char(&mut self, c: char) -> (f: Option<SseFrame>)
        ensures
            final(self)@ == after_char(old(self)@, c).0,
            match f {
                Some(x) => after_char(old(self)@, c).1 == Some(frame_view(x)),
                None => after_char(old(self)@, c).1 is None,
            },
            c != '\n' ==> f is None && final(self)@.event == old(self)@.event && final(self)@.data
                == old(self)@.data && final(self)@.line == old(self)@.line.push(c),
            ({
                let l = trim(old(self)@.line);
                c == '\n' && l.len() > 0 && !(l.len() >= 6 && l.take(6) == seq!['e', 'v', 'e', 'n', 't', ':'])
                    && !(l.len() >= 5 && l.take(5) == seq!['d', 'a', 't', 'a', ':'])
            }) ==> f is None && final(self)@.event == old(self)@.event && final(self)@.data == old(self)@.data
                && final(self)@.line == Seq::<char>::empty(),
    {
        proof {
            assert(event_field() =~= seq!['e', 'v', 'e', 'n', 't', ':']);
            assert(data_field() =~= seq!['d', 'a', 't', 'a', ':']);
        }
        if c == '\n' {
            self.end_line()
        } else {
            self.line_buffer.push(c);
            None
        }
    }

    /// Reads the characters of `text`; returns the events they complete, in
    /// order.
    pub fn feed(&mut self, text: &str) -> (frames: Vec<SseFrame>)
        ensures
            final(self)@ == after_text(old(self)@, text@).0,
            frames@.map_values(|f: SseFrame| frame_view(f)) == after_text(old(self)@, text@).1,
    {
        let cs = crate::strings::chars_of(text);
        let mut frames: Vec<SseFrame> = Vec::new();
        let mut i: usize = 0;
        assert(cs@.take(0) =~= Seq::<char>::empty());
        while i < cs.len()
            invariant
                i <= cs@.len(),
                cs@ == text@,
                self@ == after_text(old(self)@, cs@.take(i as int)).0,
                frames@.map_values(|f: SseFrame| frame_view(f)) == after_text(
                    old(self)@,
                    cs@.take(i as int),
                ).1,
            decreases cs@.len() - i,
        {
            let ghost prefix = cs@.take(i + 1);
            assert(prefix.drop_last() =~= cs@.take(i as int));
            assert(prefix.last() == cs@[i as int]);
            let ghost before = frames@.map_values(|f: SseFrame| frame_view(f));
            match self.push_char(cs[i]) {
                Some(f) => {
                    frames.push(f);
                    assert(frames@.map_values(|f: SseFrame| frame_view(f)) =~= before
                        + frames_of(after_char(after_text(old(self)@, cs@.take(i as int)).0, cs@[i as int]).1));
                },
                None => {
                    assert(frames@.map_values(|f: SseFrame| frame_view(f)) =~= before
                        + frames_of(after_char(after_text(old(self)@, cs@.take(i as int)).0, cs@[i as int]).1));
                },
            }
            i = i + 1;
        }
        assert(cs@.take(cs@.len() as int) =~= cs@);
        frames
    }
}

/// Splitting the text of a stream in two does not change what is decoded:
/// reading `a` and then `b` ends in the same decoder, with the same events in
/// the same order, as reading `a + b` at once.
pub proof fn lemma_split_text(v: DecoderView, a: Seq<char>, b: Seq<char>)
    ensures
        ({
            let (va, fa) = after_text(v, a);
            let (vb, fb) = after_text(va, b);
            after_text(v, a + b) == (vb, fa + fb)
        }),
    decreases b.len(),
{
    if b.len() == 0 {
        assert(a + b =~= a);
        let (va, fa) = after_text(v, a);
        assert(fa + Seq::<FrameView>::empty() =~= fa);
    } else {
        assert((a + b).drop_last() =~= a + b.drop_last());
        assert((a + b).last() == b.last());
        lemma_split_text(v, a, b.drop_last());
        let (va, fa) = after_text(v, a);
        let (vb1, fb1) = after_text(va, b.drop_last());
        let (vb, f) = after_char(vb1, b.last());
        assert(fa + fb1 + frames_of(f) =~= fa + (fb1 + frames_of(f)));
    }
}

/// The decoder is between events: no type, no data, no partial line.
pub open spec fn at_event_start(v: DecoderView) -> bool {
    &&& v.event is None
    &&& v.data == Seq::<char>::empty()
    &&& v.line == Seq::<char>::empty()
}

/// Text without a line feed only extends the current line.
pub proof fn lemma_text_within_line(v: DecoderView, cs: Seq<char>)
    requires
        !cs.contains('\n'),
    ensures
        after_text(v, cs) == (DecoderView { event: v.event, data: v.data, line: v.line + cs }, Seq::<FrameView>::empty()),
    decreases cs.len(),
{
    if cs.len() == 0 {
        assert(v.line + cs =~= v.line);
    } else {
        assert(!cs.drop_last().contains('\n')) by {
            if cs.drop_last().contains('\n') {
                let j = choose|j: int| 0 <= j < cs.drop_last().len() && cs.drop_last()[j] == '\n';
                assert(cs[j] == '\n');
            }
        }
        assert(cs.last() != '\n') by {
            if cs.last() == '\n' {
                assert(cs[cs.len() - 1] == '\n');
            }
        }
        lemma_text_within_line(v, cs.drop_last());
        assert((v.line + cs.drop_last()).push(cs.last()) =~= v.line + cs);
        assert(Seq::<FrameView>::empty() + frames_of(None) =~= Seq::<FrameView>::empty());
    }
}

/// An event without an `event:` line is dropped: between events, a single
/// line that is not an `event:` line, followed by a blank line, leaves the
/// decoder as it was and completes no event.
pub proof fn lemma_untyped_event_dropped(v: DecoderView, l: Seq<char>)
    requires
        at_event_start(v),
        !l.contains('\n'),
        !(trim(l).len() >= 6 && trim(l).take(6) == event_field()),
    ensures
        after_text(v, l + seq!['\n', '\n']) == (v, Seq::<FrameView>::empty()),
{
    let nl = seq!['\n', '\n'];
    lemma_split_text(v, l, nl);
    lemma_text_within_line(v, l);
    let v1 = DecoderView { event: v.event, data: v.data, line: v.line + l };
    assert(v.line + l =~= l);
    let (v2, f2) = after_char(v1, '\n');
    assert(v2.event is None);
    assert(v2.line == Seq::<char>::empty());
    assert(f2 is None);
    let (v3, f3) = after_char(v2, '\n');
    assert(trim(Seq::<char>::empty()) =~= Seq::<char>::empty());
    assert(f3 is None);
    assert(v3.data =~= Seq::<char>::empty());
    assert(v3 == v);
    assert(nl.drop_last() =~= seq!['\n']);
    assert(seq!['\n'].drop_last() =~= Seq::<char>::empty());
    let one = seq!['\n'];
    assert(one.last() == '\n');
    assert(nl.last() == '\n');
    assert(after_text(v1, Seq::<char>::empty()) == (v1, Seq::<FrameView>::empty()));
    assert(after_text(v1, one) == (v2, Seq::<FrameView>::empty() + frames_of(f2)));
    assert(after_text(v1, nl) == (v3, Seq::<FrameView>::empty() + frames_of(f2) + frames_of(f3)));
    assert(Seq::<FrameView>::empty() + frames_of(f2) + frames_of(f3) =~= Seq::<FrameView>::empty());
}

/// Removing an event without an `event:` line from the stream changes
/// nothing that is decoded: when the text before it ends between events,
/// reading `a`, the dropped event, then `b` gives what reading `a + b` gives.
pub proof fn lemma_untyped_event_removable(v: DecoderView, a: Seq<char>, l: Seq<char>, b: Seq<char>)
    requires
        at_event_start(after_text(v, a).0),
        !l.contains('\n'),
        !(trim(l).len() >= 6 && trim(l).take(6) == event_field()),
    ensures
        after_text(v, a + (l + seq!['\n', '\n']) + b) == after_text(v, a + b),
{
    let blk = l + seq!['\n', '\n'];
    let (va, fa) = after_text(v, a);
    lemma_untyped_event_dropped(va, l);
    lemma_split_text(v, a, blk);
    assert(fa + Seq::<FrameView>::empty() =~= fa);
    lemma_split_text(v, a + blk, b);
    lemma_split_text(v, a, b);
}

/// Reading one character is one step.
pub proof fn lemma_one_char(v: DecoderView, c: char)
    ensures
        after_text(v, seq![c]) == (after_char(v, c).0, frames_of(after_char(v, c).1)),
{
    let one = seq![c];
    assert(one.drop_last() =~= Seq::<char>::empty());
    assert(one.last() == c);
    assert(after_text(v, Seq::<char>::empty()) == (v, Seq::<FrameView>::empty()));
    assert(Seq::<FrameView>::empty() + frames_of(after_char(v, c).1) =~= frames_of(after_char(v, c).1));
}

/// A typed event between events: an `event:` line, one `data:` line and a
/// blank line complete exactly that one event and leave the decoder between
/// events again.
pub proof fn lemma_typed_event_read(v: DecoderView, e: Seq<char>, d: Seq<char>)
    requires
        at_event_start(v),
        !e.contains('\n'),
        !d.contains('\n'),
        trim(e).len() >= 6 && trim(e).take(6) == event_field(),
        trim(d).len() >= 5 && trim(d).take(5) == data_field(),
    ensures
        after_text(v, e + seq!['\n'] + d + seq!['\n'] + seq!['\n']) == (
            v,
            seq![(trim(trim(e).skip(6)), trim(trim(d).skip(5)))],
        ),
{
    let nl = seq!['\n'];
    let name = trim(trim(e).skip(6));
    let value = trim(trim(d).skip(5));
    // the event line
    lemma_text_within_line(v, e);
    let v1 = DecoderView { event: v.event, data: v.data, line: v.line + e };
    assert(v.line + e =~= e);
    lemma_one_char(v1, '\n');
    let v2 = DecoderView { event: Some(name), data: v.data, line: Seq::empty() };
    assert(after_char(v1, '\n') == (v2, None::<FrameView>));
    lemma_split_text(v, e, nl);
    assert(Seq::<FrameView>::empty() + frames_of(None) =~= Seq::<FrameView>::empty());
    // the data line
    lemma_text_within_line(v2, d);
    let v3 = DecoderView { event: Some(name), data: v.data, line: v2.line + d };
    assert(v2.line + d =~= d);
    lemma_split_text(v, e + nl, d);
    assert(!(trim(d).len() >= 6 && trim(d).take(6) == event_field())) by {
        assert(trim(d).take(5)[0] == 'd');
        assert(trim(d).take(5)[0] == trim(d)[0]);
        assert(event_field()[0] == 'e');
        if trim(d).len() >= 6 && trim(d).take(6) == event_field() {
            assert(trim(d).take(6)[0] == trim(d)[0]);
        }
    }
    lemma_one_char(v3, '\n');
    let v4 = DecoderView { event: Some(name), data: v.data + value, line: Seq::empty() };
    assert(after_char(v3, '\n') == (v4, None::<FrameView>));
    lemma_split_text(v, e + nl + d, nl);
    // the blank line
    lemma_one_char(v4, '\n');
    assert(trim(Seq::<char>::empty()) =~= Seq::<char>::empty());
    assert(v.data + value =~= value);
    assert(after_char(v4, '\n').1 == Some((name, value)));
    assert(after_char(v4, '\n').0 == v);
    lemma_split_text(v, e + nl + d + nl, nl);
    assert(Seq::<FrameView>::empty() + Seq::<FrameView>::empty() =~= Seq::<FrameView>::empty());
    assert(Seq::<FrameView>::empty() + Seq::<FrameView>::empty() + Seq::<FrameView>::empty() + frames_of(
        Some((name, value)),
    ) =~= seq![(name, value)]);
}

/// Adding a typed event to a stream, where the text before it ends between
/// events, adds exactly that event to what is decoded, at that place, and
/// changes nothing else: the decoder ends the same, and the other events
/// are the same, in the same order.
pub proof fn lemma_typed_event_inserted(
    v: DecoderView,
    a: Seq<char>,
    e: Seq<char>,
    d: Seq<char>,
    b: Seq<char>,
)
    requires
        at_event_start(after_text(v, a).0),
        !e.contains('\n'),
        !d.contains('\n'),
        trim(e).len() >= 6 && trim(e).take(6) == event_field(),
        trim(d).len() >= 5 && trim(d).take(5) == data_field(),
    ensures
        ({
            let blk = e + seq!['\n'] + d + seq!['\n'] + seq!['\n'];
            let (va, fa) = after_text(v, a);
            let (vb, fb) = after_text(va, b);
            &&& after_text(v, a + b) == (vb, fa + fb)
            &&& after_text(v, a + blk + b) == (
                vb,
                fa + seq![(trim(trim(e).skip(6)), trim(trim(d).skip(5)))] + fb,
            )
        }),
{
    let blk = e + seq!['\n'] + d + seq!['\n'] + seq!['\n'];
    let (va, fa) = after_text(v, a);
    lemma_typed_event_read(va, e, d);
    lemma_split_text(v, a, blk);
    lemma_split_text(v, a + blk, b);
    lemma_split_text(v, a, b);
}

/// A complete line that is neither blank nor an `event:` or `data:` line
/// (such as `id: 7` or a `:` comment) is ignored, in any state: the event
/// being read keeps its type and its data, and no event is completed.
pub proof fn lemma_other_line_ignored(v: DecoderView, line: Seq<char>)
    requires
        trim(line).len() > 0,
        !(trim(line).len() >= 6 && trim(line).take(6) == seq!['e', 'v', 'e', 'n', 't', ':']),
        !(trim(line).len() >= 5 && trim(line).take(5) == seq!['d', 'a', 't', 'a', ':']),
    ensures
        after_line(v, line).0.event == v.event,
        after_line(v, line).0.data == v.data,
        after_line(v, line).0.line == Seq::<char>::empty(),
        after_line(v, line).1 is None,
{
    assert(event_field() =~= seq!['e', 'v', 'e', 'n', 't', ':']);
    assert(data_field() =~= seq!['d', 'a', 't', 'a', ':']);
}

/// Such an ignored line can be taken out of the stream anywhere a line
/// starts, also in the middle of an event, without changing what is
/// decoded.
pub proof fn lemma_other_line_removable(v: DecoderView, a: Seq<char>, l: Seq<char>, b: Seq<char>)
    requires
        after_text(v, a).0.line == Seq::<char>::empty(),
        !l.contains('\n'),
        trim(l).len() > 0,
        !(trim(l).len() >= 6 && trim(l).take(6) == seq!['e', 'v', 'e', 'n', 't', ':']),
        !(trim(l).len() >= 5 && trim(l).take(5) == seq!['d', 'a', 't', 'a', ':']),
    ensures
        after_text(v, a + (l + seq!['\n']) + b) == after_text(v, a + b),
{
    let nl = seq!['\n'];
    let (va, fa) = after_text(v, a);
    lemma_text_within_line(va, l);
    let v1 = DecoderView { event: va.event, data: va.data, line: va.line + l };
    assert(va.line + l =~= l);
    lemma_one_char(v1, '\n');
    lemma_other_line_ignored(v1, l);
    assert(after_line(v1, l).0 == va);
    lemma_split_text(va, l, nl);
    assert(Seq::<FrameView>::empty() + frames_of(None) =~= Seq::<FrameView>::empty());
    assert(after_text(va, l + nl) == (va, Seq::<FrameView>::empty()));
    lemma_split_text(v, a, l + nl);
    assert(fa + Seq::<FrameView>::empty() =~= fa);
    lemma_split_text(v, a + (l + nl), b);
    lemma_split_text(v, a, b);
}

} // verus!
