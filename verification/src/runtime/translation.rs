//! Translations that come after their text was shown.
use crate::json::{
    bool_of, bool_text, field_views, object, object_text, opt_quote, opt_quoted, quote, quoted,
};
use crate::strs::{copy_text, decimal_of, decimal_text, opt_text, same_text};
use crate::text::state::{FontState, StateRecord};
use vstd::prelude::*;

verus! {

/// A piece of the text on a page.
pub struct TextSpanToken {
    pub layer_id: String,
    /// The number of the page.
    pub generation: u64,
    pub start: usize,
    pub end: usize,
}

/// What a piece of text holds.
pub struct SpanRecord {
    pub layer_id: Seq<char>,
    pub generation: u64,
    pub start: usize,
    pub end: usize,
}

impl View for TextSpanToken {
    type V = SpanRecord;

    open spec fn view(&self) -> SpanRecord {
        SpanRecord {
            layer_id: self.layer_id@,
            generation: self.generation,
            start: self.start,
            end: self.end,
        }
    }
}

/// Whether a piece can be replaced: once its text has appeared. There is no
/// answer once its page is gone.
pub open spec fn span_ready(state: StateRecord, span: SpanRecord) -> Option<bool> {
    if state.layers.contains_key(span.layer_id) && state.layers[span.layer_id].generation
        == span.generation {
        Some(!state.layers[span.layer_id].progress.pending)
    } else {
        None
    }
}

/// Whether a piece can be replaced.
pub fn text_span_ready(state: &FontState, span: &TextSpanToken) -> (out: Option<bool>)
    ensures
        out == span_ready(state@, span@),
{
    match state.layers.get(span.layer_id.as_str()) {
        Some(layer) => if layer.generation == span.generation {
            Some(!layer.reveal_pending)
        } else {
            None
        },
        None => None,
    }
}

/// A text that was shown while its translation is asked for.
pub struct PendingScenarioText {
    pub source: String,
    pub ruby: Option<String>,
    pub span: Option<TextSpanToken>,
}

/// A translation that is asked for.
pub struct PendingTextTranslation {
    pub serial: u64,
    pub span: Option<TextSpanToken>,
    pub translated: Option<String>,
}

/// What an asked translation holds.
pub struct PendingRecord {
    pub serial: u64,
    pub span: Option<SpanRecord>,
    pub translated: Option<Seq<char>>,
}

pub open spec fn opt_span(span: Option<TextSpanToken>) -> Option<SpanRecord> {
    match span {
        Some(s) => Some(s@),
        None => None,
    }
}

impl View for PendingTextTranslation {
    type V = PendingRecord;

    open spec fn view(&self) -> PendingRecord {
        PendingRecord {
            serial: self.serial,
            span: opt_span(self.span),
            translated: opt_text(self.translated),
        }
    }
}

/// The translations that are asked for, in the order of asking.
pub struct Translations {
    serial: u64,
    pending: Vec<PendingTextTranslation>,
}

/// What the asked translations hold.
#[verifier::ext_equal]
pub struct TranslationsRecord {
    pub serial: u64,
    pub pending: Seq<PendingRecord>,
}

/// The records of asked translations.
pub open spec fn pending_records(pending: Seq<PendingTextTranslation>) -> Seq<PendingRecord> {
    Seq::new(pending.len(), |i: int| pending[i]@)
}

impl View for Translations {
    type V = TranslationsRecord;

    closed spec fn view(&self) -> TranslationsRecord {
        TranslationsRecord { serial: self.serial, pending: pending_records(self.pending@) }
    }
}

/// The number of the next question.
pub open spec fn next_serial(serial: u64) -> u64 {
    if serial == u64::MAX {
        0
    } else {
        (serial + 1) as u64
    }
}

/// The questions but for one.
pub open spec fn without(pending: Seq<PendingRecord>, serial: u64) -> Seq<PendingRecord>
    decreases pending.len(),
{
    if pending.len() == 0 {
        Seq::empty()
    } else {
        let before = without(pending.drop_last(), serial);
        if pending.last().serial == serial {
            before
        } else {
            before.push(pending.last())
        }
    }
}

/// Whether a question is open.
pub open spec fn is_open(pending: Seq<PendingRecord>, serial: u64) -> bool {
    exists|i: int| 0 <= i < pending.len() && (#[trigger] pending[i]).serial == serial
}

/// The questions with an answer to one of them.
pub open spec fn answered(pending: Seq<PendingRecord>, serial: u64, text: Seq<char>) -> Seq<
    PendingRecord,
> {
    pending.map_values(
        |p: PendingRecord|
            if p.serial == serial {
                PendingRecord { translated: Some(text), ..p }
            } else {
                p
            },
    )
}

/// What becomes of an answered question.
#[derive(Clone, Copy, Debug, PartialEq, Eq, Structural)]
pub enum Fate {
    /// It waits, for its answer or for its text to appear.
    Waits,
    /// Its answer can be shown.
    Ready,
    /// Its page is gone.
    Expired,
}

/// What becomes of a question.
pub open spec fn fate(state: StateRecord, p: PendingRecord) -> Fate {
    if p.translated is None {
        Fate::Waits
    } else {
        match p.span {
            None => Fate::Expired,
            Some(span) => match span_ready(state, span) {
                Some(true) => Fate::Ready,
                Some(false) => Fate::Waits,
                None => Fate::Expired,
            },
        }
    }
}

/// The questions whose pages are still there.
pub open spec fn unexpired(state: StateRecord, pending: Seq<PendingRecord>) -> Seq<PendingRecord>
    decreases pending.len(),
{
    if pending.len() == 0 {
        Seq::empty()
    } else {
        let before = unexpired(state, pending.drop_last());
        if fate(state, pending.last()) == Fate::Expired {
            before
        } else {
            before.push(pending.last())
        }
    }
}

/// The questions whose answers can be shown.
pub open spec fn ready_serials(state: StateRecord, pending: Seq<PendingRecord>) -> Seq<u64>
    decreases pending.len(),
{
    if pending.len() == 0 {
        Seq::empty()
    } else {
        let before = ready_serials(state, pending.drop_last());
        if fate(state, pending.last()) == Fate::Ready {
            before.push(pending.last().serial)
        } else {
            before
        }
    }
}

/// A place moved by a distance, held to what can be counted.
pub open spec fn moved(at: usize, delta: int) -> usize {
    if at + delta < 0 {
        0
    } else if at + delta > usize::MAX {
        usize::MAX
    } else {
        (at + delta) as usize
    }
}

/// A piece after the text before it changed its length. Pieces of other pages
/// and pieces before that text stay.
pub open spec fn shifted_span(
    span: SpanRecord,
    layer_id: Seq<char>,
    generation: u64,
    old_end: usize,
    delta: int,
) -> SpanRecord {
    if span.layer_id == layer_id && span.generation == generation && span.start >= old_end {
        SpanRecord { start: moved(span.start, delta), end: moved(span.end, delta), ..span }
    } else {
        span
    }
}

/// A question after the text before its piece changed its length.
pub open spec fn shifted(
    p: PendingRecord,
    layer_id: Seq<char>,
    generation: u64,
    old_end: usize,
    delta: int,
) -> PendingRecord {
    PendingRecord {
        span: match p.span {
            Some(span) => Some(shifted_span(span, layer_id, generation, old_end, delta)),
            None => None,
        },
        ..p
    }
}

fn move_place(at: usize, delta: i64) -> (out: usize)
    ensures
        out == moved(at, delta as int),
{
    let sum: i128 = at as i128 + delta as i128;
    if sum < 0 {
        0
    } else if sum > usize::MAX as i128 {
        usize::MAX
    } else {
        sum as usize
    }
}

/// The members of the command that asks for a translation.
pub open spec fn translate_fields(ruby: Option<Seq<char>>, serial: u64, text: Seq<char>) -> Seq<
    (Seq<char>, Seq<char>),
> {
    seq![
        ("blocking"@, bool_text(false)),
        ("ruby"@, opt_quoted(ruby)),
        ("serial"@, decimal_text(serial as nat)),
        ("text"@, quoted(text)),
    ]
}

proof fn lemma_removed(
    before: Seq<PendingTextTranslation>,
    kept: Seq<PendingRecord>,
    rest: Seq<PendingRecord>,
)
    requires
        pending_records(before) == kept + rest,
        rest.len() > 0,
    ensures
        pending_records(before.remove(kept.len() as int)) == kept + rest.skip(1),
{
    let at = kept.len() as int;
    let after = before.remove(at);
    assert(pending_records(before).len() == before.len());
    assert forall|j: int| 0 <= j < after.len() implies #[trigger] after[j]@ == (kept + rest.skip(
        1,
    ))[j] by {
        let k: int = if j < at { j } else { j + 1 };
        assert(after[j] == before[k]);
        assert(pending_records(before)[k] == before[k]@);
    }
    assert(pending_records(after) =~= kept + rest.skip(1));
}

impl Translations {
    /// Nothing is asked.
    pub fn new() -> (out: Self)
        ensures
            out@ == (TranslationsRecord { serial: 0, pending: Seq::empty() }),
    {
        let out = Translations { serial: 0, pending: Vec::new() };
        assert(pending_records(out.pending@) =~= Seq::empty());
        out
    }

    fn drop_serial(&mut self, serial: u64)
        ensures
            final(self)@ == (TranslationsRecord {
                pending: without(old(self)@.pending, serial),
                ..old(self)@
            }),
    {
        let ghost all = pending_records(self.pending@);
        let ghost done: int = 0;
        let mut i: usize = 0;
        proof {
            assert(all.take(0) =~= Seq::empty());
            assert(without(all.take(0), serial) + all.skip(0) =~= all);
        }
        while i < self.pending.len()
            invariant
                0 <= done <= all.len(),
                i <= self.pending@.len(),
                i == without(all.take(done), serial).len(),
                pending_records(self.pending@) == without(all.take(done), serial) + all.skip(done),
                self.serial == old(self).serial,
            decreases self.pending@.len() - i,
        {
            let ghost kept = without(all.take(done), serial);
            let ghost before = self.pending@;
            proof {
                assert(pending_records(before).len() == before.len());
                assert(done < all.len());
                assert(pending_records(before)[i as int] == all.skip(done)[0]);
                assert(before[i as int]@ == all[done]);
                assert(all.take(done + 1).drop_last() =~= all.take(done));
                assert(all.take(done + 1).last() == all[done]);
            }
            if self.pending[i].serial == serial {
                let _gone = self.pending.remove(i);
                proof {
                    lemma_removed(before, kept, all.skip(done));
                    assert(all.skip(done).skip(1) =~= all.skip(done + 1));
                }
            } else {
                i += 1;
                assert(kept + all.skip(done) =~= kept.push(all[done]) + all.skip(done + 1));
            }
            proof {
                done = done + 1;
            }
        }
        proof {
            assert(pending_records(self.pending@).len() == self.pending@.len());
            assert(all.take(done) =~= all);
            assert(pending_records(self.pending@) =~= without(all, serial));
        }
    }

    /// Asks for a translation. The payload of the question is handed out.
    pub fn begin_text_translation(&mut self, pending: PendingScenarioText) -> (out: String)
        ensures
            final(self)@ == ({
                let serial = next_serial(old(self)@.serial);
                TranslationsRecord {
                    serial,
                    pending: without(old(self)@.pending, serial).push(
                        PendingRecord {
                            serial,
                            span: opt_span(pending.span),
                            translated: None,
                        },
                    ),
                }
            }),
            out@ == object_text(
                translate_fields(
                    opt_text(pending.ruby),
                    next_serial(old(self)@.serial),
                    pending.source@,
                ),
            ),
    {
        self.serial = self.serial.wrapping_add(1);
        let serial: u64 = self.serial;
        self.drop_serial(serial);
        let mut fields: Vec<(&'static str, String)> = Vec::new();
        fields.push(("blocking", bool_of(false)));
        fields.push(("ruby", opt_quote(&pending.ruby)));
        fields.push(("serial", decimal_of(serial)));
        fields.push(("text", quote(pending.source.as_str())));
        proof {
            assert(field_views(fields@) =~= translate_fields(
                opt_text(pending.ruby),
                serial,
                pending.source@,
            ));
        }
        let ghost before = self.pending@;
        let asked = PendingTextTranslation { serial, span: pending.span, translated: None };
        let ghost record = asked@;
        self.pending.push(asked);
        assert(pending_records(self.pending@) =~= pending_records(before).push(record));
        object(&fields)
    }

    /// Takes an answer; without a text the question is dropped. An answer to a
    /// question that is not open is refused.
    pub fn submit_text_translation(&mut self, serial: u64, translated: Option<&str>) -> (out: bool)
        ensures
            out == is_open(old(self)@.pending, serial),
            !out ==> final(self)@ == old(self)@,
            out ==> final(self)@ == (TranslationsRecord {
                pending: match translated {
                    Some(text) => answered(old(self)@.pending, serial, text@),
                    None => without(old(self)@.pending, serial),
                },
                ..old(self)@
            }),
    {
        let ghost all = pending_records(self.pending@);
        let mut open = false;
        let mut i: usize = 0;
        while i < self.pending.len()
            invariant
                i <= self.pending.len(),
                all == pending_records(self.pending@),
                *self == *old(self),
                open == (exists|j: int| 0 <= j < i && (#[trigger] all[j]).serial == serial),
            decreases self.pending.len() - i,
        {
            assert(all[i as int] == self.pending@[i as int]@);
            if self.pending[i].serial == serial {
                open = true;
            }
            i += 1;
        }
        if !open {
            return false;
        }
        match translated {
            None => self.drop_serial(serial),
            Some(text) => {
                let mut k: usize = 0;
                let ghost target = answered(all, serial, text@);
                while k < self.pending.len()
                    invariant
                        k <= self.pending.len(),
                        self.pending@.len() == all.len(),
                        target == answered(all, serial, text@),
                        self.serial == old(self).serial,
                        forall|j: int| 0 <= j < k ==> (#[trigger] self.pending@[j])@ == target[j],
                        forall|j: int|
                            k <= j < all.len() ==> (#[trigger] self.pending@[j])@ == all[j],
                    decreases self.pending.len() - k,
                {
                    assert(self.pending@[k as int]@ == all[k as int]);
                    if self.pending[k].serial == serial {
                        self.pending[k].translated = Some(copy_text(text));
                    }
                    k += 1;
                }
                assert(pending_records(self.pending@) =~= target);
            },
        }
        true
    }

    /// Drops the questions whose pages are gone, and lists those whose answers
    /// can be shown.
    pub fn apply_ready_text_translations(&mut self, state: &FontState) -> (out: Vec<u64>)
        ensures
            final(self)@ == (TranslationsRecord {
                pending: unexpired(state@, old(self)@.pending),
                ..old(self)@
            }),
            out@ == ready_serials(state@, old(self)@.pending),
    {
        let ghost all = pending_records(self.pending@);
        let ghost done: int = 0;
        let mut ready: Vec<u64> = Vec::new();
        let mut i: usize = 0;
        proof {
            assert(all.take(0) =~= Seq::empty());
            assert(unexpired(state@, all.take(0)) + all.skip(0) =~= all);
        }
        while i < self.pending.len()
            invariant
                0 <= done <= all.len(),
                i <= self.pending@.len(),
                i == unexpired(state@, all.take(done)).len(),
                pending_records(self.pending@) == unexpired(state@, all.take(done)) + all.skip(
                    done,
                ),
                ready@ == ready_serials(state@, all.take(done)),
                self.serial == old(self).serial,
            decreases self.pending@.len() - i,
        {
            let ghost kept = unexpired(state@, all.take(done));
            let ghost before = self.pending@;
            proof {
                assert(pending_records(before).len() == before.len());
                assert(done < all.len());
                assert(pending_records(before)[i as int] == all.skip(done)[0]);
                assert(before[i as int]@ == all[done]);
                assert(all.take(done + 1).drop_last() =~= all.take(done));
                assert(all.take(done + 1).last() == all[done]);
            }
            let p = &self.pending[i];
            let what = if p.translated.is_none() {
                Fate::Waits
            } else {
                match &p.span {
                    None => Fate::Expired,
                    Some(span) => match text_span_ready(state, span) {
                        Some(true) => Fate::Ready,
                        Some(false) => Fate::Waits,
                        None => Fate::Expired,
                    },
                }
            };
            assert(what == fate(state@, all[done]));
            match what {
                Fate::Expired => {
                    let _gone = self.pending.remove(i);
                    proof {
                        lemma_removed(before, kept, all.skip(done));
                        assert(all.skip(done).skip(1) =~= all.skip(done + 1));
                    }
                },
                Fate::Ready => {
                    ready.push(p.serial);
                    i += 1;
                    assert(kept + all.skip(done) =~= kept.push(all[done]) + all.skip(done + 1));
                },
                Fate::Waits => {
                    i += 1;
                    assert(kept + all.skip(done) =~= kept.push(all[done]) + all.skip(done + 1));
                },
            }
            proof {
                done = done + 1;
            }
        }
        proof {
            assert(pending_records(self.pending@).len() == self.pending@.len());
            assert(all.take(done) =~= all);
            assert(pending_records(self.pending@) =~= unexpired(state@, all));
        }
        ready
    }

    /// Closes a question and hands out its answer and its piece, where it has
    /// both.
    pub fn take(&mut self, serial: u64) -> (out: Option<(String, TextSpanToken)>)
        ensures
            final(self)@ == (TranslationsRecord {
                pending: without(old(self)@.pending, serial),
                ..old(self)@
            }),
            match out {
                Some((text, span)) => exists|i: int|
                    0 <= i < old(self)@.pending.len() && #[trigger] old(self)@.pending[i] == (
                    PendingRecord {
                        serial,
                        span: Some(span@),
                        translated: Some(text@),
                    }),
                None => forall|i: int|
                    0 <= i < old(self)@.pending.len() && (#[trigger] old(
                        self,
                    )@.pending[i]).serial == serial ==> old(self)@.pending[i].span is None || old(
                        self,
                    )@.pending[i].translated is None,
            },
    {
        let ghost all = pending_records(self.pending@);
        let mut out: Option<(String, TextSpanToken)> = None;
        let mut i: usize = 0;
        while i < self.pending.len()
            invariant
                i <= self.pending.len(),
                all == pending_records(self.pending@),
                *self == *old(self),
                match out {
                    Some((text, span)) => exists|j: int|
                        0 <= j < all.len() && #[trigger] all[j] == (PendingRecord {
                            serial,
                            span: Some(span@),
                            translated: Some(text@),
                        }),
                    None => forall|j: int|
                        0 <= j < i && (#[trigger] all[j]).serial == serial ==> all[j].span is None
                            || all[j].translated is None,
                },
            decreases self.pending.len() - i,
        {
            let p = &self.pending[i];
            assert(all[i as int] == p@);
            if p.serial == serial {
                if let (Some(text), Some(span)) = (&p.translated, &p.span) {
                    let copy = TextSpanToken {
                        layer_id: copy_text(span.layer_id.as_str()),
                        generation: span.generation,
                        start: span.start,
                        end: span.end,
                    };
                    out = Some((copy_text(text.as_str()), copy));
                }
            }
            i += 1;
        }
        self.drop_serial(serial);
        out
    }

    /// Moves the pieces behind a text that changed its length.
    pub fn shift_spans(&mut self, replaced: &TextSpanToken, delta: i64)
        ensures
            final(self)@.serial == old(self)@.serial,
            final(self)@.pending == old(self)@.pending.map_values(
                |p: PendingRecord|
                    shifted(
                        p,
                        replaced.layer_id@,
                        replaced.generation,
                        replaced.end,
                        delta as int,
                    ),
            ),
    {
        let ghost all = pending_records(self.pending@);
        let ghost target = all.map_values(
            |p: PendingRecord|
                shifted(p, replaced.layer_id@, replaced.generation, replaced.end, delta as int),
        );
        let mut k: usize = 0;
        while k < self.pending.len()
            invariant
                k <= self.pending.len(),
                self.pending@.len() == all.len(),
                self.serial == old(self).serial,
                target == all.map_values(
                    |p: PendingRecord|
                        shifted(
                            p,
                            replaced.layer_id@,
                            replaced.generation,
                            replaced.end,
                            delta as int,
                        ),
                ),
                forall|j: int| 0 <= j < k ==> (#[trigger] self.pending@[j])@ == target[j],
                forall|j: int| k <= j < all.len() ==> (#[trigger] self.pending@[j])@ == all[j],
            decreases self.pending.len() - k,
        {
            assert(self.pending@[k as int]@ == all[k as int]);
            let p = &mut self.pending[k];
            if let Some(span) = &mut p.span {
                if same_text(span.layer_id.as_str(), replaced.layer_id.as_str())
                    && span.generation == replaced.generation && span.start >= replaced.end {
                    span.start = move_place(span.start, delta);
                    span.end = move_place(span.end, delta);
                }
            }
            k += 1;
        }
        assert(pending_records(self.pending@) =~= target);
    }

    /// Drops every question.
    pub fn clear_pending_text_translation(&mut self)
        ensures
            final(self)@ == (TranslationsRecord { pending: Seq::empty(), ..old(self)@ }),
    {
        self.pending.clear();
        assert(pending_records(self.pending@) =~= Seq::empty());
    }
}

/// An answer does not come twice: once its question is closed, it is refused.
pub proof fn law_closed_questions_stay_closed(pending: Seq<PendingRecord>, serial: u64)
    ensures
        !is_open(without(pending, serial), serial),
    decreases pending.len(),
{
    if pending.len() > 0 {
        law_closed_questions_stay_closed(pending.drop_last(), serial);
        let rest = without(pending, serial);
        let before = without(pending.drop_last(), serial);
        assert forall|i: int| 0 <= i < rest.len() implies (#[trigger] rest[i]).serial != serial by {
            if i < before.len() {
                assert(before[i].serial != serial);
            }
        }
    }
}

/// Pieces behind a changed text keep their length and their distance to it.
pub proof fn law_shifting_keeps_length(
    span: SpanRecord,
    layer_id: Seq<char>,
    generation: u64,
    old_end: usize,
    delta: int,
)
    requires
        span.start >= old_end,
        span.start <= span.end,
        span.layer_id == layer_id,
        span.generation == generation,
        0 <= span.start + delta,
        span.end + delta <= usize::MAX,
    ensures
        ({
            let after = shifted_span(span, layer_id, generation, old_end, delta);
            after.end - after.start == span.end - span.start && after.start - (old_end + delta)
                == span.start - old_end
        }),
{
}

/// Text on a page is ready when nothing of its layer is left to appear; where the
/// layer is gone, or has another page, that is not known.
pub proof fn law_spans_are_ready_on_their_page(state: StateRecord, span: SpanRecord)
    ensures
        span_ready(state, span) is Some <==> state.layers.contains_key(span.layer_id)
            && state.layers[span.layer_id].generation == span.generation,
        span_ready(state, span) matches Some(ready) ==> (ready
            <==> !state.layers[span.layer_id].progress.pending),
{
}

/// The numbers of questions follow each other, and 0 follows the last.
pub proof fn law_questions_are_numbered(serial: u64)
    ensures
        serial < u64::MAX ==> next_serial(serial) == serial + 1,
        next_serial(u64::MAX) == 0,
{
}

/// Closing a question takes away those of its number and leaves the others in
/// their order.
pub proof fn law_closing_leaves_the_others(
    pending: Seq<PendingRecord>,
    last: PendingRecord,
    serial: u64,
)
    ensures
        without(Seq::empty(), serial).len() == 0,
        last.serial == serial ==> without(pending.push(last), serial) == without(pending, serial),
        last.serial != serial ==> without(pending.push(last), serial) == without(
            pending,
            serial,
        ).push(last),
        is_open(pending.push(last), last.serial),
        !is_open(Seq::empty(), serial),
{
    assert(pending.push(last).drop_last() =~= pending);
    assert(pending.push(last)[pending.len() as int] == last);
}

/// An answer goes to the questions of its number, and to nothing else of them.
pub proof fn law_answers_go_to_their_question(
    pending: Seq<PendingRecord>,
    serial: u64,
    text: Seq<char>,
    i: int,
)
    requires
        0 <= i < pending.len(),
    ensures
        answered(pending, serial, text).len() == pending.len(),
        pending[i].serial == serial ==> answered(pending, serial, text)[i] == (PendingRecord {
            translated: Some(text),
            ..pending[i]
        }),
        pending[i].serial != serial ==> answered(pending, serial, text)[i] == pending[i],
{
}

/// A question waits for its answer, and then for its text to appear; it has expired
/// where its text or its page is gone.
pub proof fn law_questions_have_fates(state: StateRecord, p: PendingRecord)
    ensures
        p.translated is None ==> fate(state, p) is Waits,
        p.translated is Some && p.span is None ==> fate(state, p) is Expired,
        p.translated is Some ==> (p.span matches Some(span) ==> {
            let there = state.layers.contains_key(span.layer_id)
                && state.layers[span.layer_id].generation == span.generation;
            &&& !there ==> fate(state, p) is Expired
            &&& there && state.layers[span.layer_id].progress.pending ==> fate(state, p) is Waits
            &&& there && !state.layers[span.layer_id].progress.pending ==> fate(state, p) is Ready
        }),
{
}

/// Expired questions go, and the others stay in their order; those that are ready
/// are named in that order.
pub proof fn law_questions_are_sorted_by_fate(
    state: StateRecord,
    pending: Seq<PendingRecord>,
    last: PendingRecord,
)
    ensures
        unexpired(state, Seq::empty()).len() == 0,
        ready_serials(state, Seq::empty()).len() == 0,
        fate(state, last) is Expired ==> unexpired(state, pending.push(last)) == unexpired(
            state,
            pending,
        ),
        !(fate(state, last) is Expired) ==> unexpired(state, pending.push(last)) == unexpired(
            state,
            pending,
        ).push(last),
        fate(state, last) is Ready ==> ready_serials(state, pending.push(last)) == ready_serials(
            state,
            pending,
        ).push(last.serial),
        !(fate(state, last) is Ready) ==> ready_serials(state, pending.push(last))
            == ready_serials(state, pending),
{
    assert(pending.push(last).drop_last() =~= pending);
}

/// Text behind what changed its length on the same page moves with it, and no other
/// text does. No place goes below 0, nor beyond what a place can be.
pub proof fn law_text_behind_a_change_moves(
    p: PendingRecord,
    layer_id: Seq<char>,
    generation: u64,
    old_end: usize,
    delta: int,
)
    ensures
        ({
            let after = shifted(p, layer_id, generation, old_end, delta);
            &&& after.serial == p.serial
            &&& after.translated == p.translated
            &&& p.span is None ==> after.span is None
            &&& p.span matches Some(span) ==> {
                let behind = span.layer_id == layer_id && span.generation == generation
                    && span.start >= old_end;
                &&& !behind ==> after.span == Some(span)
                &&& behind && 0 <= span.start + delta && span.start + delta <= usize::MAX && 0
                    <= span.end + delta && span.end + delta <= usize::MAX ==> after.span == Some(
                    SpanRecord {
                        layer_id,
                        generation,
                        start: (span.start + delta) as usize,
                        end: (span.end + delta) as usize,
                    },
                )
                &&& behind && span.start + delta < 0 ==> after.span->0.start == 0
                &&& behind && span.start + delta > usize::MAX ==> after.span->0.start == usize::MAX
                &&& behind && span.end + delta < 0 ==> after.span->0.end == 0
                &&& behind && span.end + delta > usize::MAX ==> after.span->0.end == usize::MAX
            }
        }),
{
}

/// A question is told with its text, its number and what stands above the text, by
/// names in their order; it does not hold up the game.
pub proof fn law_questions_are_told(ruby: Option<Seq<char>>, serial: u64, text: Seq<char>)
    ensures
        ({
            let fields = translate_fields(ruby, serial, text);
            &&& fields.len() == 4
            &&& fields[0] == ("blocking"@, "false"@)
            &&& fields[1] == ("ruby"@, opt_quoted(ruby))
            &&& fields[2] == ("serial"@, decimal_text(serial as nat))
            &&& fields[3] == ("text"@, quoted(text))
        }),
{
}

} // verus!
