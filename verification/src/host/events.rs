//! Host event transport and state, without callbacks.
//!
//! A [`HostEvents`] handle queues events for the host and holds the state that
//! the host has pushed. Logs and media or UI commands come from code that knows
//! no handle: an [`EventRouter`] sends them to the handle that is enabled.
use crate::codec::{lossy_text, native_order, text_from_utf8, text_lossy, ByteOrder};
use crate::json::{
    envelope, envelope_text, json_members, json_reprinted, members, object_members,
};
use crate::name_map::{text_map, NameMap};
use crate::strs::{
    copy_bytes, copy_text, copy_texts, lemma_texts_push, lines, opt_text, split_lines, texts, trim, trimmed,
};
use std::collections::VecDeque;
use vstd::bytes::*;
use vstd::prelude::*;
use vstd::string::*;
use vstd::utf8::*;

verus! {

pub const EVENT_KIND_LOG: u32 = 1;

pub const EVENT_KIND_MEDIA: u32 = 2;

pub const EVENT_KIND_UI: u32 = 3;

pub const EVENT_VERSION: u32 = 1;

pub const EVENT_HEADER_SIZE: usize = 24;

pub const MAX_EVENTS: usize = 16_384;

pub const MAX_EVENT_PAYLOAD: usize = 4_194_304;

/// One queued event.
pub struct HostEvent {
    kind: u32,
    aux: u32,
    sequence: u64,
    payload: Vec<u8>,
}

/// What an event holds.
pub struct EventRecord {
    pub kind: u32,
    pub aux: u32,
    pub sequence: u64,
    pub payload: Seq<u8>,
}

impl View for HostEvent {
    type V = EventRecord;

    closed spec fn view(&self) -> EventRecord {
        EventRecord {
            kind: self.kind,
            aux: self.aux,
            sequence: self.sequence,
            payload: self.payload@,
        }
    }
}

/// The font families that the host has pushed, by monospace and vertical.
struct FontLists {
    normal: Option<Vec<String>>,
    monospace: Option<Vec<String>>,
    vertical: Option<Vec<String>>,
    monospace_vertical: Option<Vec<String>>,
}

/// The view of an optional list of strings.
pub open spec fn opt_texts(names: Option<Vec<String>>) -> Option<Seq<Seq<char>>> {
    match names {
        Some(list) => Some(texts(list@)),
        None => None,
    }
}

impl FontLists {
    spec fn slot(self, monospace: bool, vertical: bool) -> Option<Seq<Seq<char>>> {
        if monospace && vertical {
            opt_texts(self.monospace_vertical)
        } else if monospace {
            opt_texts(self.monospace)
        } else if vertical {
            opt_texts(self.vertical)
        } else {
            opt_texts(self.normal)
        }
    }

    fn new() -> (out: Self)
        ensures
            forall|m: bool, v: bool| (#[trigger] out.slot(m, v)) is None,
    {
        FontLists { normal: None, monospace: None, vertical: None, monospace_vertical: None }
    }
}

/// A handle to an event queue and to the state pushed by the host.
pub struct HostEvents {
    enabled: bool,
    window_state: i32,
    translation_enabled: bool,
    events: VecDeque<HostEvent>,
    next_sequence: u64,
    dropped: u64,
    fonts: FontLists,
    replacements: Option<NameMap<String>>,
}

/// What a handle holds.
#[verifier::ext_equal]
pub struct HostState {
    pub enabled: bool,
    pub window_state: i32,
    pub translation_enabled: bool,
    pub queue: Seq<EventRecord>,
    pub next_sequence: u64,
    pub dropped: u64,
    pub fonts: spec_fn(bool, bool) -> Option<Seq<Seq<char>>>,
    pub replacements: Option<Map<Seq<char>, Seq<char>>>,
}

/// A handle that is not enabled, with an empty queue and nothing set.
pub open spec fn fresh_handle() -> HostState {
    HostState {
        enabled: false,
        window_state: 0,
        translation_enabled: false,
        queue: Seq::empty(),
        next_sequence: 1,
        dropped: 0,
        fonts: |m: bool, v: bool| None,
        replacements: None,
    }
}

/// The records of a sequence of events.
pub open spec fn records(events: Seq<HostEvent>) -> Seq<EventRecord> {
    Seq::new(events.len(), |i: int| events[i]@)
}

/// The size of an event on the wire.
pub open spec fn event_size(event: EventRecord) -> nat {
    EVENT_HEADER_SIZE as nat + event.payload.len()
}

/// The size of a whole queue on the wire.
pub open spec fn queue_size(queue: Seq<EventRecord>) -> nat
    decreases queue.len(),
{
    if queue.len() == 0 {
        0
    } else {
        queue_size(queue.drop_last()) + event_size(queue.last())
    }
}

/// `n` capped at the largest size of the machine.
pub open spec fn capped(n: nat) -> nat {
    if n > usize::MAX {
        usize::MAX as nat
    } else {
        n
    }
}

/// `n + 1`, or `n` where that is the largest 64-bit number.
pub open spec fn next_number(n: u64) -> u64 {
    if n == u64::MAX {
        n
    } else {
        (n + 1) as u64
    }
}

/// The place of the first log event, or the length where there is none.
pub open spec fn first_log(queue: Seq<EventRecord>) -> int
    decreases queue.len(),
{
    if queue.len() == 0 || queue[0].kind == EVENT_KIND_LOG {
        0
    } else {
        1 + first_log(queue.skip(1))
    }
}

/// A full queue with room for one more event: without its oldest log event, or
/// without its oldest event where it holds no log.
pub open spec fn with_room(queue: Seq<EventRecord>) -> Seq<EventRecord> {
    if queue.len() < MAX_EVENTS {
        queue
    } else if first_log(queue) < queue.len() {
        queue.remove(first_log(queue))
    } else {
        queue.remove(0)
    }
}

/// A handle after an event was pushed. A handle that is not enabled takes none,
/// and a payload that is too long is not taken.
pub open spec fn pushed(state: HostState, kind: u32, aux: u32, payload: Seq<u8>) -> HostState {
    if !state.enabled || payload.len() > MAX_EVENT_PAYLOAD {
        state
    } else {
        let event = EventRecord { kind, aux, sequence: state.next_sequence, payload };
        HostState {
            queue: with_room(state.queue).push(event),
            next_sequence: next_number(state.next_sequence),
            dropped: if state.queue.len() < MAX_EVENTS {
                state.dropped
            } else {
                next_number(state.dropped)
            },
            ..state
        }
    }
}

/// The byte that marks the level of a log event.
pub open spec fn log_aux(level: Seq<char>) -> u32 {
    let bytes = encode_utf8(level);
    if bytes.len() == 0 {
        'I' as u32
    } else {
        bytes[0] as u32
    }
}

pub open spec fn bytes_of_u32(order: ByteOrder, value: u32) -> Seq<u8> {
    match order {
        ByteOrder::Little => spec_u32_to_le_bytes(value),
        ByteOrder::Big => spec_u32_to_le_bytes(value).reverse(),
    }
}

pub open spec fn bytes_of_u64(order: ByteOrder, value: u64) -> Seq<u8> {
    match order {
        ByteOrder::Little => spec_u64_to_le_bytes(value),
        ByteOrder::Big => spec_u64_to_le_bytes(value).reverse(),
    }
}

/// The header of an event: version, kind, sequence number, payload length and
/// auxiliary value.
pub open spec fn event_header(order: ByteOrder, event: EventRecord) -> Seq<u8> {
    bytes_of_u32(order, EVENT_VERSION) + bytes_of_u32(order, event.kind) + bytes_of_u64(
        order,
        event.sequence,
    ) + bytes_of_u32(order, event.payload.len() as u32) + bytes_of_u32(order, event.aux)
}

/// An event on the wire: its header, then its payload.
pub open spec fn event_bytes(order: ByteOrder, event: EventRecord) -> Seq<u8> {
    event_header(order, event) + event.payload
}

/// Events on the wire, one after the other.
pub open spec fn queue_bytes(order: ByteOrder, queue: Seq<EventRecord>) -> Seq<u8>
    decreases queue.len(),
{
    if queue.len() == 0 {
        Seq::empty()
    } else {
        queue_bytes(order, queue.drop_last()) + event_bytes(order, queue.last())
    }
}

/// How many of the first events fit whole into `capacity` bytes.
pub open spec fn fitting(queue: Seq<EventRecord>, capacity: int) -> nat
    decreases queue.len(),
{
    if queue.len() == 0 || event_size(queue[0]) > capacity {
        0
    } else {
        1 + fitting(queue.skip(1), capacity - event_size(queue[0]))
    }
}

proof fn lemma_first_log(queue: Seq<EventRecord>)
    ensures
        0 <= first_log(queue) <= queue.len(),
        first_log(queue) < queue.len() ==> queue[first_log(queue)].kind == EVENT_KIND_LOG,
        forall|j: int| 0 <= j < first_log(queue) ==> (#[trigger] queue[j]).kind != EVENT_KIND_LOG,
    decreases queue.len(),
{
    if queue.len() > 0 && queue[0].kind != EVENT_KIND_LOG {
        lemma_first_log(queue.skip(1));
        assert forall|j: int| 0 <= j < first_log(queue) implies (#[trigger] queue[j]).kind
            != EVENT_KIND_LOG by {
            if j > 0 {
                assert(queue.skip(1)[j - 1] == queue[j]);
            }
        }
    }
}

proof fn lemma_first_log_is(queue: Seq<EventRecord>, at: int)
    requires
        0 <= at <= queue.len(),
        at < queue.len() ==> queue[at].kind == EVENT_KIND_LOG,
        forall|j: int| 0 <= j < at ==> (#[trigger] queue[j]).kind != EVENT_KIND_LOG,
    ensures
        first_log(queue) == at,
{
    lemma_first_log(queue);
    if first_log(queue) < at {
        assert(queue[first_log(queue)].kind != EVENT_KIND_LOG);
    }
}

proof fn lemma_fitting_len(queue: Seq<EventRecord>, capacity: int)
    ensures
        fitting(queue, capacity) <= queue.len(),
    decreases queue.len(),
{
    if queue.len() > 0 && event_size(queue[0]) <= capacity {
        lemma_fitting_len(queue.skip(1), capacity - event_size(queue[0]));
    }
}

impl View for HostEvents {
    type V = HostState;

    closed spec fn view(&self) -> HostState {
        HostState {
            enabled: self.enabled,
            window_state: self.window_state,
            translation_enabled: self.translation_enabled,
            queue: records(self.events@),
            next_sequence: self.next_sequence,
            dropped: self.dropped,
            fonts: |monospace: bool, vertical: bool| self.fonts.slot(monospace, vertical),
            replacements: match self.replacements {
                Some(map) => Some(text_map(map)),
                None => None,
            },
        }
    }
}

impl HostEvents {
    /// The queue never grows past its limit, no payload is longer than the
    /// limit, and the replacement table has no key twice.
    pub closed spec fn wf(self) -> bool {
        &&& self@.queue.len() <= MAX_EVENTS
        &&& forall|i: int|
            0 <= i < self@.queue.len() ==> (#[trigger] self@.queue[i]).payload.len()
                <= MAX_EVENT_PAYLOAD
        &&& (self.replacements matches Some(map) ==> map.wf())
    }

    /// A handle that is not enabled, with an empty queue and nothing pushed.
    pub fn new() -> (out: Self)
        ensures
            out.wf(),
            out@ == fresh_handle(),
    {
        let out = HostEvents {
            enabled: false,
            window_state: 0,
            translation_enabled: false,
            events: VecDeque::new(),
            next_sequence: 1,
            dropped: 0,
            fonts: FontLists::new(),
            replacements: None,
        };
        proof {
            let empty: spec_fn(bool, bool) -> Option<Seq<Seq<char>>> = |m: bool, v: bool| None;
            assert(out@.queue =~= Seq::empty());
            assert(out@.fonts =~= empty);
        }
        out
    }

    pub fn enabled(&self) -> (out: bool)
        ensures
            out == self@.enabled,
    {
        self.enabled
    }

    /// Enables or disables the handle. Enabling empties the queue and restarts
    /// its numbering.
    pub fn set_enabled(&mut self, enabled: bool)
        requires
            old(self).wf(),
        ensures
            final(self).wf(),
            final(self)@ == with_enabled(old(self)@, enabled),
    {
        self.enabled = enabled;
        if enabled {
            self.events.clear();
            self.next_sequence = 1;
            self.dropped = 0;
            assert(self@.queue =~= Seq::empty());
        }
    }

    /// Queues an event.
    fn push(&mut self, kind: u32, aux: u32, payload: Vec<u8>)
        requires
            old(self).wf(),
        ensures
            final(self).wf(),
            final(self)@ == pushed(old(self)@, kind, aux, payload@),
    {
        if !self.enabled || payload.len() > MAX_EVENT_PAYLOAD {
            return;
        }
        if self.events.len() >= MAX_EVENTS {
            let mut at: usize = 0;
            while at < self.events.len() && self.events[at].kind != EVENT_KIND_LOG
                invariant
                    at <= self.events.len(),
                    forall|j: int|
                        0 <= j < at ==> (#[trigger] records(self.events@)[j]).kind
                            != EVENT_KIND_LOG,
                decreases self.events.len() - at,
            {
                at += 1;
            }
            proof {
                lemma_first_log_is(self@.queue, at as int);
            }
            if at == self.events.len() {
                at = 0;
            }
            let ghost before = self.events@;
            let _ = self.events.remove(at);
            proof {
                assert(records(self.events@) =~= records(before).remove(at as int));
            }
            self.dropped = self.dropped.saturating_add(1);
        }
        let sequence: u64 = self.next_sequence;
        self.next_sequence = self.next_sequence.saturating_add(1);
        let event = HostEvent { kind, aux, sequence, payload };
        let ghost before = self.events@;
        self.events.push_back(event);
        proof {
            assert(records(self.events@) =~= records(before).push(event@));
        }
    }

    /// Queues a log line. The first byte of the level marks the event.
    pub fn push_log(&mut self, level: &str, message: &str)
        requires
            old(self).wf(),
        ensures
            final(self).wf(),
            final(self)@ == pushed(
                old(self)@,
                EVENT_KIND_LOG,
                log_aux(level@),
                encode_utf8(message@),
            ),
    {
        let level_bytes = level.as_bytes();
        let aux: u32 = if level_bytes.len() > 0 {
            level_bytes[0] as u32
        } else {
            'I' as u32
        };
        self.push(EVENT_KIND_LOG, aux, message.as_bytes_vec());
    }

    /// Queues a media command in its envelope.
    pub fn push_media(&mut self, kind: &str, payload_json: &str)
        requires
            old(self).wf(),
        ensures
            final(self).wf(),
            final(self)@ == pushed(
                old(self)@,
                EVENT_KIND_MEDIA,
                0,
                encode_utf8(envelope_text(kind@, json_reprinted(payload_json@))),
            ),
    {
        let text = envelope(kind, payload_json);
        self.push(EVENT_KIND_MEDIA, 0, text.as_str().as_bytes_vec());
    }

    /// Queues a UI command in its envelope.
    pub fn push_ui(&mut self, kind: &str, payload_json: &str)
        requires
            old(self).wf(),
        ensures
            final(self).wf(),
            final(self)@ == pushed(
                old(self)@,
                EVENT_KIND_UI,
                0,
                encode_utf8(envelope_text(kind@, json_reprinted(payload_json@))),
            ),
    {
        let text = envelope(kind, payload_json);
        self.push(EVENT_KIND_UI, 0, text.as_str().as_bytes_vec());
    }

    /// The number of bytes that the whole queue takes on the wire.
    pub fn queued_bytes(&self) -> (out: usize)
        requires
            self.wf(),
        ensures
            out == capped(queue_size(self@.queue)),
    {
        let mut total: usize = 0;
        let mut i: usize = 0;
        while i < self.events.len()
            invariant
                i <= self.events.len(),
                self.wf(),
                total == capped(queue_size(self@.queue.take(i as int))),
            decreases self.events.len() - i,
        {
            proof {
                let next = self@.queue.take(i + 1);
                assert(next.drop_last() =~= self@.queue.take(i as int));
                assert(next.last() == self.events@[i as int]@);
                assert(self@.queue[i as int].payload.len() <= MAX_EVENT_PAYLOAD);
            }
            let size = EVENT_HEADER_SIZE.saturating_add(self.events[i].payload.len());
            total = total.saturating_add(size);
            i += 1;
        }
        assert(self@.queue.take(i as int) =~= self@.queue);
        total
    }

    /// The number of bytes that the next event takes on the wire.
    pub fn next_event_bytes(&self) -> (out: usize)
        requires
            self.wf(),
        ensures
            out == (if self@.queue.len() == 0 {
                0
            } else {
                event_size(self@.queue[0])
            }),
    {
        if self.events.len() == 0 {
            0
        } else {
            proof {
                assert(self@.queue[0].payload.len() <= MAX_EVENT_PAYLOAD);
            }
            EVENT_HEADER_SIZE.saturating_add(self.events[0].payload.len())
        }
    }

    pub fn dropped_events(&self) -> (out: u64)
        ensures
            out == self@.dropped,
    {
        self.dropped
    }

    /// The font families that the host pushed for this kind of text.
    pub fn query_font_list(&self, monospace: bool, vertical: bool) -> (out: Option<Vec<String>>)
        ensures
            opt_texts(out) == (self@.fonts)(monospace, vertical),
    {
        let slot = if monospace && vertical {
            &self.fonts.monospace_vertical
        } else if monospace {
            &self.fonts.monospace
        } else if vertical {
            &self.fonts.vertical
        } else {
            &self.fonts.normal
        };
        match slot {
            Some(names) => Some(copy_texts(names)),
            None => None,
        }
    }

    /// Whether the window is full-screen, and whether it is minimised.
    pub fn query_window_state(&self) -> (out: Option<(bool, bool)>)
        ensures
            out == (if self@.enabled {
                Some((self@.window_state & 1 != 0, self@.window_state & 2 != 0))
            } else {
                None
            }),
    {
        if !self.enabled {
            return None;
        }
        let flags: i32 = self.window_state;
        Some((flags & 1 != 0, flags & 2 != 0))
    }

    /// The replacement for a text, where the host pushed one.
    pub fn text_replacement(&self, source: &str) -> (out: Option<String>)
        ensures
            opt_text(out) == replacement_of(self@, source@),
    {
        match &self.replacements {
            Some(map) => match map.get(source) {
                Some(text) => Some(copy_text(text.as_str())),
                None => None,
            },
            None => None,
        }
    }

    pub fn text_translation_enabled(&self) -> (out: bool)
        ensures
            out == (self@.enabled && self@.translation_enabled),
    {
        self.enabled && self.translation_enabled
    }

    /// Stores the two window flags.
    pub fn set_window_state(&mut self, flags: i32)
        requires
            old(self).wf(),
        ensures
            final(self).wf(),
            final(self)@ == (HostState { window_state: flags & 3, ..old(self)@ }),
    {
        self.window_state = flags & 3;
    }

    /// Installs a table of exact replacements, or removes it.
    pub fn set_text_replacements(&mut self, replacements: Option<NameMap<String>>)
        requires
            old(self).wf(),
            replacements matches Some(map) ==> map.wf(),
        ensures
            final(self).wf(),
            final(self)@ == (HostState {
                replacements: match replacements {
                    Some(map) => Some(text_map(map)),
                    None => None,
                },
                ..old(self)@
            }),
    {
        self.replacements = replacements;
    }

    pub fn set_text_translation_enabled(&mut self, enabled: bool)
        requires
            old(self).wf(),
        ensures
            final(self).wf(),
            final(self)@ == (HostState { translation_enabled: enabled, ..old(self)@ }),
    {
        self.translation_enabled = enabled;
    }

    /// Stores the font families for one kind of text.
    pub fn set_font_list(&mut self, monospace: bool, vertical: bool, names: Vec<String>)
        requires
            old(self).wf(),
        ensures
            final(self).wf(),
            final(self)@ == (HostState {
                fonts: |m: bool, v: bool|
                    if m == monospace && v == vertical {
                        Some(texts(names@))
                    } else {
                        (old(self)@.fonts)(m, v)
                    },
                ..old(self)@
            }),
    {
        if monospace && vertical {
            self.fonts.monospace_vertical = Some(names);
        } else if monospace {
            self.fonts.monospace = Some(names);
        } else if vertical {
            self.fonts.vertical = Some(names);
        } else {
            self.fonts.normal = Some(names);
        }
        proof {
            let expected: spec_fn(bool, bool) -> Option<Seq<Seq<char>>> = |m: bool, v: bool|
                if m == monospace && v == vertical {
                    Some(texts(names@))
                } else {
                    (old(self)@.fonts)(m, v)
                };
            assert(self@.fonts =~= expected);
        }
    }

    /// Forgets everything that the host pushed. The queue stays.
    pub fn clear_host_state(&mut self)
        requires
            old(self).wf(),
        ensures
            final(self).wf(),
            final(self)@ == (HostState {
                window_state: 0,
                translation_enabled: false,
                fonts: |m: bool, v: bool| None,
                replacements: None,
                ..old(self)@
            }),
    {
        self.fonts = FontLists::new();
        self.window_state = 0;
        self.replacements = None;
        self.translation_enabled = false;
        proof {
            let empty: spec_fn(bool, bool) -> Option<Seq<Seq<char>>> = |m: bool, v: bool| None;
            assert(self@.fonts =~= empty);
        }
    }

    /// Takes from the queue the first events that fit whole into `capacity`
    /// bytes and writes them one after the other, with their number.
    pub fn poll_in_order(&mut self, capacity: usize, order: ByteOrder) -> (out: (Vec<u8>, u32))
        requires
            old(self).wf(),
        ensures
            final(self).wf(),
            out.1 == fitting(old(self)@.queue, capacity as int),
            out.0@ == queue_bytes(order, old(self)@.queue.take(out.1 as int)),
            out.0@.len() <= capacity,
            final(self)@ == (HostState {
                queue: old(self)@.queue.skip(out.1 as int),
                ..old(self)@
            }),
    {
        let mut out: Vec<u8> = Vec::new();
        let mut count: u32 = 0;
        let ghost queue = self@.queue;
        assert(queue.skip(0) =~= queue);
        assert(queue.take(0) =~= Seq::empty());
        while self.events.len() > 0 && self.events[0].payload.len() <= MAX_EVENT_PAYLOAD
            && EVENT_HEADER_SIZE + self.events[0].payload.len() <= capacity - out.len()
            invariant
                self.wf(),
                queue == old(self)@.queue,
                queue.len() <= MAX_EVENTS,
                count <= queue.len(),
                self@ == (HostState { queue: queue.skip(count as int), ..old(self)@ }),
                out@ == queue_bytes(order, queue.take(count as int)),
                out@.len() <= capacity,
                count + fitting(queue.skip(count as int), capacity - out@.len()) == fitting(
                    queue,
                    capacity as int,
                ),
            decreases self.events.len(),
        {
            let ghost rest = queue.skip(count as int);
            let ghost before = self.events@;
            let ghost written = out@;
            proof {
                assert(rest[0] == before[0]@);
                assert(rest.skip(1) =~= queue.skip(count + 1));
                assert(queue.take(count + 1).drop_last() =~= queue.take(count as int));
                assert(queue.take(count + 1).last() == rest[0]);
            }
            if let Some(event) = self.events.pop_front() {
                let mut bytes = bytes_for(&event, order);
                out.append(&mut bytes);
                count = count + 1;
                proof {
                    assert(records(self.events@) =~= records(before).skip(1));
                    assert(self@.queue =~= queue.skip(count as int));
                    assert(out@ =~= written + event_bytes(order, rest[0]));
                }
            }
        }
        proof {
            let rest = queue.skip(count as int);
            if rest.len() > 0 {
                assert(rest[0] == self.events@[0]@);
                assert(rest[0].payload.len() <= MAX_EVENT_PAYLOAD);
            }
        }
        (out, count)
    }

    /// Polls with numbers in the machine's own byte order.
    pub fn poll_events(&mut self, capacity: usize) -> (out: (Vec<u8>, u32))
        requires
            old(self).wf(),
        ensures
            final(self).wf(),
            out.1 == fitting(old(self)@.queue, capacity as int),
            exists|order: ByteOrder|
                out.0@ == #[trigger] queue_bytes(order, old(self)@.queue.take(out.1 as int)),
            out.0@.len() <= capacity,
            final(self)@ == (HostState {
                queue: old(self)@.queue.skip(out.1 as int),
                ..old(self)@
            }),
    {
        let order = native_order();
        self.poll_in_order(capacity, order)
    }

    /// Stores the font families of a list with one name to a line.
    pub fn load_font_list(&mut self, monospace: bool, vertical: bool, data: &[u8]) -> (out: bool)
        requires
            old(self).wf(),
        ensures
            final(self).wf(),
            out,
            final(self)@ == (HostState {
                fonts: |m: bool, v: bool|
                    if m == monospace && v == vertical {
                        Some(font_names(lossy_text(data@)))
                    } else {
                        (old(self)@.fonts)(m, v)
                    },
                ..old(self)@
            }),
    {
        let names = parse_font_list(data);
        self.set_font_list(monospace, vertical, names);
        true
    }

    /// Installs the replacements of a JSON object, whose string values replace
    /// their keys. No data is an empty table. Returns whether a table was
    /// installed: not where the data is no UTF-8 or holds no object.
    pub fn load_text_replacements(&mut self, data: &[u8]) -> (out: bool)
        requires
            old(self).wf(),
        ensures
            final(self).wf(),
            out == (replacement_table(data@) is Some),
            final(self)@ == (if out {
                HostState { replacements: replacement_table(data@), ..old(self)@ }
            } else {
                old(self)@
            }),
    {
        if data.len() == 0 {
            let empty: NameMap<String> = NameMap::new();
            assert(text_map(empty) =~= Map::empty());
            self.set_text_replacements(Some(empty));
            return true;
        }
        match text_from_utf8(data) {
            Some(text) => match object_members(text.as_str()) {
                Some(pairs) => {
                    let table = string_members(&pairs);
                    self.set_text_replacements(Some(table));
                    true
                },
                None => false,
            },
            None => false,
        }
    }
}

/// The replacement of a text in a handle's table.
pub open spec fn replacement_of(state: HostState, source: Seq<char>) -> Option<Seq<char>> {
    match state.replacements {
        Some(map) => if map.contains_key(source) {
            Some(map[source])
        } else {
            None
        },
        None => None,
    }
}

/// The non-empty trimmed lines of a text.
pub open spec fn font_names(text: Seq<char>) -> Seq<Seq<char>> {
    named_lines(lines(text))
}

/// The lines that are not empty once trimmed, trimmed.
pub open spec fn named_lines(all: Seq<Seq<char>>) -> Seq<Seq<char>>
    decreases all.len(),
{
    if all.len() == 0 {
        Seq::empty()
    } else {
        let before = named_lines(all.drop_last());
        let name = trim(all.last());
        if name.len() == 0 {
            before
        } else {
            before.push(name)
        }
    }
}

/// Reads a list with one font family to a line.
pub fn parse_font_list(bytes: &[u8]) -> (out: Vec<String>)
    ensures
        texts(out@) == font_names(lossy_text(bytes@)),
{
    let text = text_lossy(bytes);
    let all = split_lines(text.as_str());
    let mut out: Vec<String> = Vec::new();
    let mut i: usize = 0;
    let ghost views = lines(text@);
    assert(texts(out@) =~= named_lines(views.take(0)));
    while i < all.len()
        invariant
            i <= all.len(),
            texts(all@) == views,
            texts(out@) == named_lines(views.take(i as int)),
        decreases all.len() - i,
    {
        let name = trimmed(all[i].as_str());
        proof {
            assert(views.take(i + 1).drop_last() =~= views.take(i as int));
            assert(texts(all@)[i as int] == all@[i as int]@);
            assert(views.take(i + 1).last() == all@[i as int]@);
            lemma_texts_push(out@, name);
        }
        if !name.as_str().is_empty() {
            out.push(name);
        }
        i += 1;
    }
    assert(views.take(i as int) =~= views);
    out
}

/// The members whose value is a string, as a map.
pub open spec fn string_table(pairs: Seq<(Seq<char>, Option<Seq<char>>)>) -> Map<
    Seq<char>,
    Seq<char>,
>
    decreases pairs.len(),
{
    if pairs.len() == 0 {
        Map::empty()
    } else {
        let before = string_table(pairs.drop_last());
        match pairs.last().1 {
            Some(value) => before.insert(pairs.last().0, value),
            None => before,
        }
    }
}

/// The table that the host's data stands for.
pub open spec fn replacement_table(data: Seq<u8>) -> Option<Map<Seq<char>, Seq<char>>> {
    if data.len() == 0 {
        Some(Map::empty())
    } else if !valid_utf8(data) {
        None
    } else {
        match json_members(decode_utf8(data)) {
            Some(pairs) => Some(string_table(pairs)),
            None => None,
        }
    }
}

/// Collects the members whose value is a string.
pub fn string_members(pairs: &Vec<(String, Option<String>)>) -> (out: NameMap<String>)
    ensures
        out.wf(),
        text_map(out) == string_table(members(pairs@)),
{
    let mut out: NameMap<String> = NameMap::new();
    let mut i: usize = 0;
    let ghost all = members(pairs@);
    assert(text_map(out) =~= string_table(all.take(0)));
    while i < pairs.len()
        invariant
            i <= pairs.len(),
            all == members(pairs@),
            out.wf(),
            text_map(out) == string_table(all.take(i as int)),
        decreases pairs.len() - i,
    {
        proof {
            assert(all.take(i + 1).drop_last() =~= all.take(i as int));
            assert(all.take(i + 1).last() == all[i as int]);
        }
        if let Some(value) = &pairs[i].1 {
            let ghost before = out;
            let owned = copy_text(value.as_str());
            out.insert(pairs[i].0.as_str(), owned);
            proof {
                assert(text_map(out) =~= text_map(before).insert(pairs@[i as int].0@, owned@));
            }
        }
        i += 1;
    }
    assert(all.take(i as int) =~= all);
    out
}

/// The bytes of a number in an order.
fn u32_bytes(order: ByteOrder, value: u32) -> (out: Vec<u8>)
    ensures
        out@ == bytes_of_u32(order, value),
        out@.len() == 4,
{
    let bytes = u32_to_le_bytes(value);
    match order {
        ByteOrder::Little => bytes,
        ByteOrder::Big => reversed(&bytes),
    }
}

fn u64_bytes(order: ByteOrder, value: u64) -> (out: Vec<u8>)
    ensures
        out@ == bytes_of_u64(order, value),
        out@.len() == 8,
{
    let bytes = u64_to_le_bytes(value);
    match order {
        ByteOrder::Little => bytes,
        ByteOrder::Big => reversed(&bytes),
    }
}

fn reversed(bytes: &Vec<u8>) -> (out: Vec<u8>)
    ensures
        out@ == bytes@.reverse(),
{
    let mut out: Vec<u8> = Vec::new();
    let mut i: usize = bytes.len();
    while i > 0
        invariant
            i <= bytes.len(),
            out@ == bytes@.reverse().take(bytes.len() - i),
        decreases i,
    {
        i -= 1;
        out.push(bytes[i]);
        assert(out@ =~= bytes@.reverse().take(bytes.len() - i));
    }
    assert(out@ =~= bytes@.reverse());
    out
}

/// Writes one event.
fn bytes_for(event: &HostEvent, order: ByteOrder) -> (out: Vec<u8>)
    requires
        event@.payload.len() <= MAX_EVENT_PAYLOAD,
    ensures
        out@ == event_bytes(order, event@),
        out@.len() == event_size(event@),
{
    let mut out = u32_bytes(order, EVENT_VERSION);
    let mut kind = u32_bytes(order, event.kind);
    let mut sequence = u64_bytes(order, event.sequence);
    let mut length = u32_bytes(order, event.payload.len() as u32);
    let mut aux = u32_bytes(order, event.aux);
    let mut payload = copy_bytes(&event.payload);
    out.append(&mut kind);
    out.append(&mut sequence);
    out.append(&mut length);
    out.append(&mut aux);
    out.append(&mut payload);
    out
}

/// Sends the events of code that knows no handle to the enabled handle.
///
/// Handles are numbered from zero in the order of their creation; a number is
/// not used again.
pub struct EventRouter {
    handles: Vec<Option<HostEvents>>,
    active: Option<usize>,
}

/// What a router holds: its live handles and the one that is active.
#[verifier::ext_equal]
pub struct RouterState {
    pub handles: Seq<Option<HostState>>,
    pub active: Option<int>,
}

impl RouterState {
    /// The state of the active handle.
    pub open spec fn current(self) -> Option<HostState> {
        match self.active {
            Some(id) => self.handles[id],
            None => None,
        }
    }

    /// Whether `id` is a live handle.
    pub open spec fn live(self, id: int) -> bool {
        0 <= id < self.handles.len() && self.handles[id] is Some
    }

    /// The router with another state in the active handle.
    pub open spec fn with_current(self, state: HostState) -> RouterState {
        match self.active {
            Some(id) => RouterState { handles: self.handles.update(id, Some(state)), ..self },
            None => self,
        }
    }
}

pub open spec fn handle_states(handles: Seq<Option<HostEvents>>) -> Seq<Option<HostState>> {
    Seq::new(
        handles.len(),
        |i: int|
            match handles[i] {
                Some(events) => Some(events@),
                None => None,
            },
    )
}

impl View for EventRouter {
    type V = RouterState;

    closed spec fn view(&self) -> RouterState {
        RouterState {
            handles: handle_states(self.handles@),
            active: match self.active {
                Some(id) => Some(id as int),
                None => None,
            },
        }
    }
}

impl EventRouter {
    /// Every handle is well formed, and the active one is live.
    pub closed spec fn wf(self) -> bool {
        &&& forall|i: int|
            0 <= i < self.handles@.len() ==> ((#[trigger] self.handles@[i]) matches Some(events)
                ==> events.wf())
        &&& (self@.active matches Some(id) ==> self@.live(id))
    }

    /// The active handle of a well-formed router is live.
    pub proof fn law_active_handle_is_live(self)
        requires
            self.wf(),
        ensures
            self@.active matches Some(id) ==> self@.live(id),
            self@.active is Some <==> self@.current() is Some,
    {
    }

    /// A router without handles.
    pub fn new() -> (out: Self)
        ensures
            out.wf(),
            out@ == (RouterState { handles: Seq::empty(), active: None }),
    {
        let out = EventRouter { handles: Vec::new(), active: None };
        assert(out@.handles =~= Seq::empty());
        out
    }

    /// Adds a new handle and returns its number.
    pub fn create(&mut self) -> (id: usize)
        requires
            old(self).wf(),
        ensures
            final(self).wf(),
            id == old(self)@.handles.len(),
            final(self)@ == (RouterState {
                handles: old(self)@.handles.push(Some(fresh_handle())),
                ..old(self)@
            }),
    {
        let id: usize = self.handles.len();
        self.handles.push(Some(HostEvents::new()));
        proof {
            assert(self@.handles =~= old(self)@.handles.push(Some(fresh_handle())));
            assert forall|i: int| 0 <= i < self.handles@.len() implies ((
            #[trigger] self.handles@[i]) matches Some(events) ==> events.wf()) by {
                if i < id {
                    assert(self.handles@[i] == old(self).handles@[i]);
                }
            }
            match self@.active {
                Some(k) => {
                    assert(old(self)@.live(k));
                    assert(self@.handles[k] == old(self)@.handles[k]);
                },
                None => {},
            }
        }
        id
    }

    /// The handle with this number.
    pub fn handle(&self, id: usize) -> (out: Option<&HostEvents>)
        requires
            self.wf(),
        ensures
            out is Some <==> self@.live(id as int),
            out matches Some(events) ==> events.wf() && Some(events@) == self@.handles[id as int],
    {
        if id < self.handles.len() {
            self.handles[id].as_ref()
        } else {
            None
        }
    }

    /// The handle with this number, to be changed in place.
    pub fn handle_mut(&mut self, id: usize) -> (out: Option<&mut HostEvents>)
        requires
            old(self).wf(),
        ensures
            out is Some <==> old(self)@.live(id as int),
            out is None ==> final(self)@ == old(self)@ && final(self).wf(),
            out matches Some(events) ==> {
                &&& (*events).wf()
                &&& Some((*events)@) == old(self)@.handles[id as int]
                &&& (*final(events)).wf() ==> final(self).wf()
                &&& final(self)@ == (RouterState {
                    handles: old(self)@.handles.update(id as int, Some((*final(events))@)),
                    ..old(self)@
                })
            },
    {
        if id >= self.handles.len() {
            return None;
        }
        match &mut self.handles[id] {
            Some(events) => Some(events),
            None => None,
        }
    }

    /// Enables or disables a handle. The handle that was enabled last is the
    /// active one; disabling the active handle leaves none active.
    pub fn set_enabled(&mut self, id: usize, enabled: bool)
        requires
            old(self).wf(),
        ensures
            final(self).wf(),
            final(self)@ == (if !old(self)@.live(id as int) {
                old(self)@
            } else {
                RouterState {
                    handles: old(self)@.handles.update(
                        id as int,
                        Some(with_enabled(old(self)@.handles[id as int]->0, enabled)),
                    ),
                    active: if enabled {
                        Some(id as int)
                    } else if old(self)@.active == Some(id as int) {
                        None
                    } else {
                        old(self)@.active
                    },
                }
            }),
    {
        match self.handle_mut(id) {
            Some(events) => {
                events.set_enabled(enabled);
            },
            None => {
                return;
            },
        }
        if enabled {
            self.active = Some(id);
        } else {
            self.deactivate(id);
        }
    }

    /// Leaves no handle active where `id` was.
    fn deactivate(&mut self, id: usize)
        requires
            old(self).wf(),
        ensures
            final(self).wf(),
            final(self).handles == old(self).handles,
            final(self)@ == (RouterState {
                active: if old(self)@.active == Some(id as int) {
                    None
                } else {
                    old(self)@.active
                },
                ..old(self)@
            }),
    {
        if let Some(active) = self.active {
            if active == id {
                self.active = None;
            }
        }
    }

    /// Removes a handle. An unknown number is ignored.
    pub fn destroy(&mut self, id: usize)
        requires
            old(self).wf(),
        ensures
            final(self).wf(),
            final(self)@ == (if !old(self)@.live(id as int) {
                old(self)@
            } else {
                RouterState {
                    handles: old(self)@.handles.update(id as int, None),
                    active: if old(self)@.active == Some(id as int) {
                        None
                    } else {
                        old(self)@.active
                    },
                }
            }),
    {
        if id < self.handles.len() && self.handles[id].is_some() {
            self.deactivate(id);
            self.handles.set(id, None);
            proof {
                assert(self@.handles =~= old(self)@.handles.update(id as int, None));
            }
        }
    }

    /// The active handle.
    fn active_events(&self) -> (out: Option<&HostEvents>)
        requires
            self.wf(),
        ensures
            out matches Some(events) ==> events.wf() && Some(events@) == self@.current(),
            out is None ==> self@.current() is None,
    {
        match self.active {
            Some(id) => self.handle(id),
            None => None,
        }
    }
}

/// A handle after it was enabled or disabled.
pub open spec fn with_enabled(state: HostState, enabled: bool) -> HostState {
    if enabled {
        HostState { enabled: true, queue: Seq::empty(), next_sequence: 1, dropped: 0, ..state }
    } else {
        HostState { enabled: false, ..state }
    }
}

/// A router after an event was sent to its active handle.
pub open spec fn routed(state: RouterState, kind: u32, aux: u32, payload: Seq<u8>) -> RouterState {
    match state.current() {
        Some(current) => state.with_current(pushed(current, kind, aux, payload)),
        None => state,
    }
}

/// Whether the active handle takes events.
pub fn enabled(router: &EventRouter) -> (out: bool)
    requires
        router.wf(),
    ensures
        out == (router@.current() matches Some(state) && state.enabled),
{
    match router.active_events() {
        Some(events) => events.enabled(),
        None => false,
    }
}

/// Sends a log line to the active handle.
pub fn push_log(router: &mut EventRouter, level: &str, message: &str)
    requires
        old(router).wf(),
    ensures
        final(router).wf(),
        final(router)@ == routed(
            old(router)@,
            EVENT_KIND_LOG,
            log_aux(level@),
            encode_utf8(message@),
        ),
{
    if let Some(id) = router.active {
        if let Some(events) = router.handle_mut(id) {
            events.push_log(level, message);
        }
    }
}

/// Sends a media command to the active handle.
pub fn push_media(router: &mut EventRouter, kind: &str, payload_json: &str)
    requires
        old(router).wf(),
    ensures
        final(router).wf(),
        final(router)@ == routed(
            old(router)@,
            EVENT_KIND_MEDIA,
            0,
            encode_utf8(envelope_text(kind@, json_reprinted(payload_json@))),
        ),
{
    if let Some(id) = router.active {
        if let Some(events) = router.handle_mut(id) {
            events.push_media(kind, payload_json);
        }
    }
}

/// Sends a UI command to the active handle.
pub fn push_ui(router: &mut EventRouter, kind: &str, payload_json: &str)
    requires
        old(router).wf(),
    ensures
        final(router).wf(),
        final(router)@ == routed(
            old(router)@,
            EVENT_KIND_UI,
            0,
            encode_utf8(envelope_text(kind@, json_reprinted(payload_json@))),
        ),
{
    if let Some(id) = router.active {
        if let Some(events) = router.handle_mut(id) {
            events.push_ui(kind, payload_json);
        }
    }
}

/// The font families of the active handle.
pub fn query_font_list(router: &EventRouter, monospace: bool, vertical: bool) -> (out: Option<
    Vec<String>,
>)
    requires
        router.wf(),
    ensures
        opt_texts(out) == (match router@.current() {
            Some(state) => (state.fonts)(monospace, vertical),
            None => None,
        }),
{
    match router.active_events() {
        Some(events) => events.query_font_list(monospace, vertical),
        None => None,
    }
}

/// The window flags of the active handle.
pub fn query_window_state(router: &EventRouter) -> (out: Option<(bool, bool)>)
    requires
        router.wf(),
    ensures
        out == (match router@.current() {
            Some(state) => if state.enabled {
                Some((state.window_state & 1 != 0, state.window_state & 2 != 0))
            } else {
                None
            },
            None => None,
        }),
{
    match router.active_events() {
        Some(events) => events.query_window_state(),
        None => None,
    }
}

/// The replacement of a text in the active handle.
pub fn text_replacement(router: &EventRouter, source: &str) -> (out: Option<String>)
    requires
        router.wf(),
    ensures
        opt_text(out) == (match router@.current() {
            Some(state) => replacement_of(state, source@),
            None => None,
        }),
{
    match router.active_events() {
        Some(events) => events.text_replacement(source),
        None => None,
    }
}

/// Whether the active handle asks for translations.
pub fn text_translation_enabled(router: &EventRouter) -> (out: bool)
    requires
        router.wf(),
    ensures
        out == (router@.current() matches Some(state) && state.enabled
            && state.translation_enabled),
{
    match router.active_events() {
        Some(events) => events.text_translation_enabled(),
        None => false,
    }
}

// ── What holds of the transport as a whole ─────────────────────

/// Polling a queue in two parts gives the same bytes as polling it at once.
pub proof fn law_polling_in_parts(order: ByteOrder, queue: Seq<EventRecord>, n: int)
    requires
        0 <= n <= queue.len(),
    ensures
        queue_bytes(order, queue.take(n)) + queue_bytes(order, queue.skip(n)) == queue_bytes(
            order,
            queue,
        ),
    decreases queue.len() - n,
{
    if n == queue.len() {
        assert(queue.take(n) =~= queue);
        assert(queue.skip(n) =~= Seq::empty());
        assert(queue_bytes(order, queue.take(n)) + queue_bytes(order, queue.skip(n))
            =~= queue_bytes(order, queue));
    } else {
        let short = queue.drop_last();
        law_polling_in_parts(order, short, n);
        assert(short.take(n) =~= queue.take(n));
        assert(short.skip(n) =~= queue.skip(n).drop_last());
        assert(queue.skip(n).last() == queue.last());
        assert(queue_bytes(order, queue.take(n)) + queue_bytes(order, queue.skip(n))
            =~= queue_bytes(order, short) + event_bytes(order, queue.last()));
    }
}

/// A buffer of the queued size takes the whole queue.
pub proof fn law_queued_bytes_suffice(queue: Seq<EventRecord>, capacity: int)
    requires
        capacity >= queue_size(queue),
    ensures
        fitting(queue, capacity) == queue.len(),
    decreases queue.len(),
{
    if queue.len() > 0 {
        lemma_size_of_first(queue);
        law_queued_bytes_suffice(queue.skip(1), capacity - event_size(queue[0]));
    }
}

proof fn lemma_size_of_first(queue: Seq<EventRecord>)
    requires
        queue.len() > 0,
    ensures
        queue_size(queue) == event_size(queue[0]) + queue_size(queue.skip(1)),
    decreases queue.len(),
{
    if queue.len() == 1 {
        assert(queue.drop_last() =~= Seq::empty());
        assert(queue.skip(1) =~= Seq::empty());
    } else {
        lemma_size_of_first(queue.drop_last());
        assert(queue.drop_last().skip(1) =~= queue.skip(1).drop_last());
        assert(queue.skip(1).last() == queue.last());
    }
}

/// The number that four bytes stand for.
pub open spec fn u32_of_bytes(order: ByteOrder, bytes: Seq<u8>) -> u32 {
    match order {
        ByteOrder::Little => spec_u32_from_le_bytes(bytes),
        ByteOrder::Big => spec_u32_from_le_bytes(bytes.reverse()),
    }
}

/// The number that eight bytes stand for.
pub open spec fn u64_of_bytes(order: ByteOrder, bytes: Seq<u8>) -> u64 {
    match order {
        ByteOrder::Little => spec_u64_from_le_bytes(bytes),
        ByteOrder::Big => spec_u64_from_le_bytes(bytes.reverse()),
    }
}

/// The first event of a byte stream, as a host reads it by the header's fields.
pub open spec fn first_event(order: ByteOrder, bytes: Seq<u8>) -> Option<EventRecord> {
    if bytes.len() < EVENT_HEADER_SIZE || u32_of_bytes(order, bytes.subrange(0, 4))
        != EVENT_VERSION {
        None
    } else {
        let length = u32_of_bytes(order, bytes.subrange(16, 20));
        if bytes.len() < EVENT_HEADER_SIZE + length {
            None
        } else {
            Some(
                EventRecord {
                    kind: u32_of_bytes(order, bytes.subrange(4, 8)),
                    aux: u32_of_bytes(order, bytes.subrange(20, 24)),
                    sequence: u64_of_bytes(order, bytes.subrange(8, 16)),
                    payload: bytes.subrange(24, 24 + length),
                },
            )
        }
    }
}

/// All events of a byte stream, as a host reads them.
pub open spec fn all_events(order: ByteOrder, bytes: Seq<u8>) -> Option<Seq<EventRecord>>
    decreases bytes.len(),
{
    if bytes.len() == 0 {
        Some(Seq::empty())
    } else {
        match first_event(order, bytes) {
            Some(event) => match all_events(order, bytes.skip(event_size(event) as int)) {
                Some(rest) => Some(seq![event] + rest),
                None => None,
            },
            None => None,
        }
    }
}

proof fn lemma_u32_bytes(order: ByteOrder, value: u32)
    ensures
        bytes_of_u32(order, value).len() == 4,
        u32_of_bytes(order, bytes_of_u32(order, value)) == value,
{
    lemma_auto_spec_u32_to_from_le_bytes();
    let le = spec_u32_to_le_bytes(value);
    assert(le.reverse().reverse() =~= le);
}

proof fn lemma_u64_bytes(order: ByteOrder, value: u64)
    ensures
        bytes_of_u64(order, value).len() == 8,
        u64_of_bytes(order, bytes_of_u64(order, value)) == value,
{
    lemma_auto_spec_u64_to_from_le_bytes();
    let le = spec_u64_to_le_bytes(value);
    assert(le.reverse().reverse() =~= le);
}

/// A host that reads an event by its header gets the event that was pushed,
/// whatever follows it on the wire.
pub proof fn law_event_reads_back(order: ByteOrder, event: EventRecord, rest: Seq<u8>)
    requires
        event.payload.len() <= MAX_EVENT_PAYLOAD,
    ensures
        first_event(order, event_bytes(order, event) + rest) == Some(event),
        event_bytes(order, event).len() == event_size(event),
{
    let length = event.payload.len() as u32;
    lemma_u32_bytes(order, EVENT_VERSION);
    lemma_u32_bytes(order, event.kind);
    lemma_u64_bytes(order, event.sequence);
    lemma_u32_bytes(order, length);
    lemma_u32_bytes(order, event.aux);
    let all = event_bytes(order, event) + rest;
    assert(all.subrange(0, 4) =~= bytes_of_u32(order, EVENT_VERSION));
    assert(all.subrange(4, 8) =~= bytes_of_u32(order, event.kind));
    assert(all.subrange(8, 16) =~= bytes_of_u64(order, event.sequence));
    assert(all.subrange(16, 20) =~= bytes_of_u32(order, length));
    assert(all.subrange(20, 24) =~= bytes_of_u32(order, event.aux));
    assert(all.subrange(24, 24 + length) =~= event.payload);
}

/// A host that reads what polling wrote gets the queued events, in order and
/// with their payloads.
pub proof fn law_queue_reads_back(order: ByteOrder, queue: Seq<EventRecord>)
    requires
        forall|i: int|
            0 <= i < queue.len() ==> (#[trigger] queue[i]).payload.len() <= MAX_EVENT_PAYLOAD,
    ensures
        all_events(order, queue_bytes(order, queue)) == Some(queue),
    decreases queue.len(),
{
    if queue.len() == 0 {
        assert(queue =~= Seq::empty());
    } else {
        let first = queue[0];
        let rest = queue.skip(1);
        law_polling_in_parts(order, queue, 1);
        let bytes = queue_bytes(order, queue);
        assert(queue_bytes(order, queue.take(1)) =~= event_bytes(order, first)) by {
            reveal_with_fuel(queue_bytes, 2);
            assert(queue.take(1).drop_last() =~= Seq::empty());
            assert(queue.take(1).last() == first);
        }
        assert forall|i: int| 0 <= i < rest.len() implies (#[trigger] rest[i]).payload.len()
            <= MAX_EVENT_PAYLOAD by {
            assert(rest[i] == queue[i + 1]);
        }
        law_queue_reads_back(order, rest);
        law_event_reads_back(order, first, queue_bytes(order, rest));
        assert(bytes.skip(event_size(first) as int) =~= queue_bytes(order, rest));
        assert(seq![first] + rest =~= queue);
    }
}

/// Events are numbered in the order in which they were pushed.
pub open spec fn in_sequence(state: HostState) -> bool {
    &&& forall|i: int, j: int|
        0 <= i < j < state.queue.len() ==> (#[trigger] state.queue[i]).sequence < (
        #[trigger] state.queue[j]).sequence
    &&& forall|i: int|
        0 <= i < state.queue.len() ==> (#[trigger] state.queue[i]).sequence < state.next_sequence
}

/// Pushing keeps the numbers of the queued events ascending, as long as the
/// numbers last.
pub proof fn law_push_keeps_sequence(state: HostState, kind: u32, aux: u32, payload: Seq<u8>)
    requires
        in_sequence(state),
        state.next_sequence < u64::MAX,
    ensures
        in_sequence(pushed(state, kind, aux, payload)),
{
    lemma_first_log(state.queue);
    let room = with_room(state.queue);
    let at = if first_log(state.queue) < state.queue.len() {
        first_log(state.queue)
    } else {
        0
    };
    if state.queue.len() >= MAX_EVENTS {
        assert forall|i: int, j: int| 0 <= i < j < room.len() implies (#[trigger] room[i]).sequence
            < (#[trigger] room[j]).sequence by {
            let i2 = if i < at {
                i
            } else {
                i + 1
            };
            let j2 = if j < at {
                j
            } else {
                j + 1
            };
            assert(state.queue[i2].sequence < state.queue[j2].sequence);
        }
        assert forall|i: int| 0 <= i < room.len() implies (#[trigger] room[i]).sequence
            < state.next_sequence by {
            let i2 = if i < at {
                i
            } else {
                i + 1
            };
            assert(state.queue[i2].sequence < state.next_sequence);
        }
    }
}

/// Enabling, disabling and polling keep the numbers ascending.
pub proof fn law_state_changes_keep_sequence(state: HostState, enabled: bool, n: int)
    requires
        in_sequence(state),
        0 <= n <= state.queue.len(),
    ensures
        in_sequence(with_enabled(state, enabled)),
        in_sequence(HostState { queue: state.queue.skip(n), ..state }),
{
    let rest = state.queue.skip(n);
    assert forall|i: int, j: int| 0 <= i < j < rest.len() implies (#[trigger] rest[i]).sequence < (
    #[trigger] rest[j]).sequence by {
        assert(state.queue[i + n].sequence < state.queue[j + n].sequence);
    }
    assert forall|i: int| 0 <= i < rest.len() implies (#[trigger] rest[i]).sequence
        < state.next_sequence by {
        assert(state.queue[i + n].sequence < state.next_sequence);
    }
}

/// A full queue gives up a log line before any media or UI command.
pub proof fn law_logs_make_room_first(queue: Seq<EventRecord>, i: int)
    requires
        0 <= i < queue.len(),
        queue[i].kind != EVENT_KIND_LOG,
        exists|k: int| 0 <= k < queue.len() && (#[trigger] queue[k]).kind == EVENT_KIND_LOG,
    ensures
        with_room(queue).contains(queue[i]),
{
    lemma_first_log(queue);
    let at = first_log(queue);
    let k = choose|k: int| 0 <= k < queue.len() && (#[trigger] queue[k]).kind == EVENT_KIND_LOG;
    if at == queue.len() {
        assert(queue[k].kind != EVENT_KIND_LOG);
    }
    let room = with_room(queue);
    if queue.len() >= MAX_EVENTS {
        let i2 = if i < at {
            i
        } else {
            i - 1
        };
        assert(room[i2] == queue[i]);
    } else {
        assert(room[i] == queue[i]);
    }
}

/// An enabled handle reports the window flags that were set last.
pub proof fn law_window_flags_read_back(flags: i32)
    ensures
        ((flags & 3) & 1 != 0) == (flags & 1 != 0),
        ((flags & 3) & 2 != 0) == (flags & 2 != 0),
{
    assert(((flags & 3) & 1 != 0) == (flags & 1 != 0)) by (bit_vector);
    assert(((flags & 3) & 2 != 0) == (flags & 2 != 0)) by (bit_vector);
}

/// An event that is routed changes no handle but the active one.
pub proof fn law_routing_isolates_handles(
    state: RouterState,
    kind: u32,
    aux: u32,
    payload: Seq<u8>,
    other: int,
)
    requires
        state.active matches Some(id) ==> 0 <= id < state.handles.len(),
        0 <= other < state.handles.len(),
        state.active != Some(other),
    ensures
        routed(state, kind, aux, payload).handles[other] == state.handles[other],
        routed(state, kind, aux, payload).active == state.active,
{
}

// ── What reaches the host ──────────────────────────────────────

/// An event that is pushed to an enabled handle stands last in the queue, with its
/// kind, its value and its payload and with the next number. A queue of fewer than
/// 16384 events keeps all its events; a full one gives up one event, which is
/// counted. A handle that is not enabled takes nothing, and neither is a payload
/// of more than four mebibytes taken.
pub proof fn law_events_are_queued(state: HostState, kind: u32, aux: u32, payload: Seq<u8>)
    ensures
        ({
            let after = pushed(state, kind, aux, payload);
            let takes = state.enabled && payload.len() <= 4194304;
            let event = EventRecord { kind, aux, sequence: state.next_sequence, payload };
            &&& !takes ==> after == state
            &&& takes ==> {
                &&& after == (HostState {
                    queue: after.queue,
                    next_sequence: after.next_sequence,
                    dropped: after.dropped,
                    ..state
                })
                &&& after.queue.len() > 0
                &&& after.queue.last() == event
                &&& state.next_sequence < u64::MAX ==> after.next_sequence == state.next_sequence
                    + 1
                &&& state.queue.len() < 16384 ==> after.queue == state.queue.push(event)
                    && after.dropped == state.dropped
                &&& state.queue.len() >= 16384 ==> after.queue.len() == state.queue.len() && (
                state.dropped < u64::MAX ==> after.dropped == state.dropped + 1)
            }
        }),
{
    lemma_first_log(state.queue);
}

/// The event that a full queue gives up is its oldest log line, and its oldest
/// event where it holds no log line; the others stay in their order.
pub proof fn law_full_queues_give_up_one_event(queue: Seq<EventRecord>, at: int)
    requires
        queue.len() >= 16384,
        0 <= at < queue.len(),
        (queue[at].kind == 1 && (forall|j: int| 0 <= j < at ==> (#[trigger] queue[j]).kind != 1))
            || (at == 0 && (forall|j: int|
            0 <= j < queue.len() ==> (#[trigger] queue[j]).kind != 1)),
    ensures
        with_room(queue) == queue.take(at) + queue.skip(at + 1),
{
    lemma_first_log(queue);
    let found = first_log(queue);
    if queue[at].kind == 1 {
        if found < at {
            assert(queue[found].kind == 1);
        }
        if found > at {
            assert(queue[at].kind != EVENT_KIND_LOG);
        }
    } else if found < queue.len() {
        assert(queue[found].kind == 1);
    }
    assert(queue.remove(at) =~= queue.take(at) + queue.skip(at + 1));
}

/// Bytes with the low one first.
pub open spec fn low_first(order: ByteOrder, bytes: Seq<u8>) -> Seq<u8> {
    if order == ByteOrder::Little {
        bytes
    } else {
        bytes.reverse()
    }
}

/// On the wire an event has 24 bytes of header before its payload: the version 1,
/// its kind, its number in eight bytes, the length of the payload and its value,
/// each in the order of the machine.
pub proof fn law_events_have_a_layout(order: ByteOrder, event: EventRecord)
    requires
        event.payload.len() <= 4194304,
    ensures
        ({
            let bytes = event_bytes(order, event);
            &&& bytes.len() == 24 + event.payload.len()
            &&& event_size(event) == 24 + event.payload.len()
            &&& spec_u32_from_le_bytes(low_first(order, bytes.subrange(0, 4))) == 1
            &&& spec_u32_from_le_bytes(low_first(order, bytes.subrange(4, 8))) == event.kind
            &&& spec_u64_from_le_bytes(low_first(order, bytes.subrange(8, 16))) == event.sequence
            &&& spec_u32_from_le_bytes(low_first(order, bytes.subrange(16, 20))) == event.payload.len()
            &&& spec_u32_from_le_bytes(low_first(order, bytes.subrange(20, 24))) == event.aux
            &&& bytes.skip(24) == event.payload
        }),
{
    let length = event.payload.len() as u32;
    lemma_u32_bytes(order, EVENT_VERSION);
    lemma_u32_bytes(order, event.kind);
    lemma_u64_bytes(order, event.sequence);
    lemma_u32_bytes(order, length);
    lemma_u32_bytes(order, event.aux);
    let bytes = event_bytes(order, event);
    assert(bytes.subrange(0, 4) =~= bytes_of_u32(order, EVENT_VERSION));
    assert(bytes.subrange(4, 8) =~= bytes_of_u32(order, event.kind));
    assert(bytes.subrange(8, 16) =~= bytes_of_u64(order, event.sequence));
    assert(bytes.subrange(16, 20) =~= bytes_of_u32(order, length));
    assert(bytes.subrange(20, 24) =~= bytes_of_u32(order, event.aux));
    assert(bytes.skip(24) =~= event.payload);
}

/// The kinds of events are numbered: log lines, media commands and UI commands.
pub proof fn law_kinds_are_numbered()
    ensures
        EVENT_KIND_LOG == 1,
        EVENT_KIND_MEDIA == 2,
        EVENT_KIND_UI == 3,
        EVENT_HEADER_SIZE == 24,
{
}

/// As many events are handed out as fit whole, from the first on: those that are
/// handed out fit, and one more would not.
pub proof fn law_whole_events_are_handed_out(queue: Seq<EventRecord>, capacity: int)
    requires
        capacity >= 0,
    ensures
        ({
            let n = fitting(queue, capacity) as int;
            &&& n <= queue.len()
            &&& queue_size(queue.take(n)) <= capacity
            &&& n < queue.len() ==> queue_size(queue.take(n + 1)) > capacity
        }),
    decreases queue.len(),
{
    let n = fitting(queue, capacity) as int;
    if queue.len() > 0 && event_size(queue[0]) <= capacity {
        let rest = queue.skip(1);
        let left = capacity - event_size(queue[0]);
        law_whole_events_are_handed_out(rest, left);
        let m = fitting(rest, left) as int;
        lemma_size_of_first(queue.take(n));
        assert(queue.take(n).skip(1) =~= rest.take(m));
        if n < queue.len() {
            lemma_size_of_first(queue.take(n + 1));
            assert(queue.take(n + 1).skip(1) =~= rest.take(m + 1));
        }
    } else {
        assert(queue.take(0) =~= Seq::empty());
        if queue.len() > 0 {
            lemma_size_of_first(queue.take(1));
            assert(queue.take(1).skip(1) =~= Seq::empty());
        }
    }
}

/// Enabling a handle begins anew: its queue is empty, its events are numbered from
/// 1, and nothing was dropped. What the host pushed to it stays, and disabling it
/// takes nothing away.
pub proof fn law_enabling_begins_anew(state: HostState)
    ensures
        with_enabled(state, true).enabled,
        with_enabled(state, true).queue.len() == 0,
        with_enabled(state, true).next_sequence == 1,
        with_enabled(state, true).dropped == 0,
        with_enabled(state, true).window_state == state.window_state,
        with_enabled(state, true).translation_enabled == state.translation_enabled,
        with_enabled(state, true).fonts == state.fonts,
        with_enabled(state, true).replacements == state.replacements,
        with_enabled(state, false) == (HostState { enabled: false, ..state }),
{
}

/// A handle is new: not enabled, with nothing queued and nothing pushed to it.
pub proof fn law_new_handles_know_nothing(monospace: bool, vertical: bool)
    ensures
        !fresh_handle().enabled,
        fresh_handle().window_state == 0,
        !fresh_handle().translation_enabled,
        fresh_handle().queue.len() == 0,
        fresh_handle().next_sequence == 1,
        fresh_handle().dropped == 0,
        (fresh_handle().fonts)(monospace, vertical) is None,
        fresh_handle().replacements is None,
{
}

/// The mark of a log line is the first byte of its level, and that of information
/// where it has none.
pub proof fn law_levels_mark_log_lines(level: Seq<char>)
    ensures
        encode_utf8(level).len() > 0 ==> log_aux(level) == encode_utf8(level)[0],
        encode_utf8(level).len() == 0 ==> log_aux(level) == 73,
{
}

/// An event goes to the active handle, as pushing it there does; where there is
/// none it goes nowhere.
pub proof fn law_events_go_to_the_active_handle(
    state: RouterState,
    kind: u32,
    aux: u32,
    payload: Seq<u8>,
)
    requires
        state.active matches Some(id) ==> 0 <= id < state.handles.len(),
    ensures
        state.active is None ==> routed(state, kind, aux, payload) == state,
        state.active matches Some(id) ==> (state.handles[id] matches Some(current) ==> routed(
            state,
            kind,
            aux,
            payload,
        ).handles[id] == Some(pushed(current, kind, aux, payload))),
        state.active matches Some(id) ==> state.current() == state.handles[id],
        state.active is None ==> state.current() is None,
        routed(state, kind, aux, payload).handles.len() == state.handles.len(),
        forall|id: int| #[trigger]
            state.live(id) <==> 0 <= id < state.handles.len() && state.handles[id] is Some,
{
}

/// A text is replaced by what the table holds for exactly that text.
pub proof fn law_texts_are_replaced(state: HostState, source: Seq<char>)
    ensures
        state.replacements is None ==> replacement_of(state, source) is None,
        state.replacements matches Some(map) ==> (map.contains_key(source) ==> replacement_of(
            state,
            source,
        ) == Some(map[source])) && (!map.contains_key(source) ==> replacement_of(state, source)
            is None),
{
}

/// The table of replacements holds the members that are texts, the last one of a
/// name; others are left out. No data is an empty table, and what is no UTF-8 or
/// no object is none.
pub proof fn law_tables_hold_texts(
    data: Seq<u8>,
    pairs: Seq<(Seq<char>, Option<Seq<char>>)>,
    key: Seq<char>,
    value: Option<Seq<char>>,
)
    ensures
        string_table(Seq::empty()) == Map::<Seq<char>, Seq<char>>::empty(),
        value matches Some(text) ==> string_table(pairs.push((key, value))) == string_table(
            pairs,
        ).insert(key, text),
        value is None ==> string_table(pairs.push((key, value))) == string_table(pairs),
        data.len() == 0 ==> replacement_table(data) == Some(Map::<Seq<char>, Seq<char>>::empty()),
        data.len() > 0 && !valid_utf8(data) ==> replacement_table(data) is None,
        data.len() > 0 && valid_utf8(data) ==> (match json_members(decode_utf8(data)) {
            Some(found) => replacement_table(data) == Some(string_table(found)),
            None => replacement_table(data) is None,
        }),
{
    assert(pairs.push((key, value)).drop_last() =~= pairs);
}

/// The fonts of a list are its lines without white space around them, but for the
/// blank ones, in their order.
pub proof fn law_fonts_are_lines(all: Seq<Seq<char>>, line: Seq<char>, text: Seq<char>)
    ensures
        font_names(text) == named_lines(lines(text)),
        named_lines(Seq::empty()).len() == 0,
        trim(line).len() > 0 ==> named_lines(all.push(line)) == named_lines(all).push(trim(line)),
        trim(line).len() == 0 ==> named_lines(all.push(line)) == named_lines(all),
{
    assert(all.push(line).drop_last() =~= all);
}

} // verus!
