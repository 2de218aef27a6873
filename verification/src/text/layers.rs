//! Message layers: the text on them, its fonts, and how much of it has
//! appeared.
use crate::name_map::{text_map, NameMap};
use crate::strs::{opt_text, same_text};
use crate::text::font::{merged_font, plain_font, FontDesc, FontRecord};
use crate::text::render::{is_entrance_mode, ScetweenConfig, ScetweenMode, ScetweenSetMode};
use vstd::prelude::*;

verus! {

/// How much of a text has appeared.
#[derive(Clone, Copy, Debug, PartialEq, Eq, Structural)]
pub struct Progress {
    /// The number of characters that have appeared.
    pub index: usize,
    /// Whether characters are still to appear or to move.
    pub pending: bool,
    pub clock_ms: u64,
    /// Whether the text goes rather than appears.
    pub hidden: bool,
}

/// Nothing has appeared, and nothing is to.
pub open spec fn at_rest(hidden: bool) -> Progress {
    Progress { index: 0, pending: false, clock_ms: 0, hidden }
}

/// Nothing has appeared yet.
pub open spec fn from_start(hidden: bool) -> Progress {
    Progress { index: 0, pending: true, clock_ms: 0, hidden }
}

/// A sum that stays within 64 bits.
pub open spec fn capped(n: int) -> u64 {
    if n > u64::MAX {
        u64::MAX
    } else {
        n as u64
    }
}

fn capped_product(a: u64, b: u64) -> (out: u64)
    ensures
        out == capped(a * b),
{
    match a.checked_mul(b) {
        Some(n) => n,
        None => u64::MAX,
    }
}

/// Whether a setting bears on the text as it is: one that makes text appear on
/// shown text, one that makes it go on hidden text.
pub open spec fn bears(config: ScetweenConfig, hidden: bool) -> bool {
    is_entrance_mode(config.mode) != hidden
}

/// Whether no setting bears on the text.
pub open spec fn none_bears(configs: Seq<ScetweenConfig>, hidden: bool) -> bool {
    forall|i: int| 0 <= i < configs.len() ==> !bears(#[trigger] configs[i], hidden)
}

/// How long a setting takes for a number of characters.
pub open spec fn total_time(config: ScetweenConfig, count: nat) -> u64 {
    let steps = if count == 0 {
        0
    } else {
        count - 1
    };
    capped(capped(steps * config.delay_per_char) + config.time_per_char)
}

/// The longest wait between characters.
pub open spec fn longest_delay(configs: Seq<ScetweenConfig>, hidden: bool) -> u64
    decreases configs.len(),
{
    if configs.len() == 0 {
        0
    } else {
        let before = longest_delay(configs.drop_last(), hidden);
        let last = configs.last();
        if bears(last, hidden) && last.delay_per_char > before {
            last.delay_per_char
        } else {
            before
        }
    }
}

/// The longest time that a setting takes.
pub open spec fn longest_time(configs: Seq<ScetweenConfig>, hidden: bool, count: nat) -> u64
    decreases configs.len(),
{
    if configs.len() == 0 {
        0
    } else {
        let before = longest_time(configs.drop_last(), hidden, count);
        let last = configs.last();
        if bears(last, hidden) && total_time(last, count) > before {
            total_time(last, count)
        } else {
            before
        }
    }
}

/// How many characters have appeared at a time.
pub open spec fn appeared(clock_ms: u64, delay: u64, count: nat) -> int {
    if clock_ms / delay + 1 < count {
        clock_ms / delay + 1
    } else {
        count as int
    }
}

/// The progress of `count` characters after some time.
pub open spec fn advanced(
    p: Progress,
    configs: Seq<ScetweenConfig>,
    count: usize,
    delta_ms: u64,
) -> Progress {
    if !p.pending || count == 0 {
        p
    } else {
        let clock_ms = capped(p.clock_ms + delta_ms);
        let delay = longest_delay(configs, p.hidden);
        let total = longest_time(configs, p.hidden, count as nat);
        if none_bears(configs, p.hidden) || (delay == 0 && total == 0) {
            Progress { index: count, pending: false, clock_ms, hidden: p.hidden }
        } else if delay == 0 {
            Progress { index: count, pending: clock_ms < total, clock_ms, hidden: p.hidden }
        } else {
            let now = appeared(clock_ms, delay, count as nat);
            let index = if now > p.index {
                now as usize
            } else {
                p.index
            };
            Progress {
                index,
                pending: !(index >= count && clock_ms >= total),
                clock_ms,
                hidden: p.hidden,
            }
        }
    }
}

/// The progress once the whole text was made to appear.
pub open spec fn revealed(p: Progress, configs: Seq<ScetweenConfig>, count: usize) -> Progress {
    if count == 0 {
        p
    } else {
        let total = longest_time(configs, p.hidden, count as nat);
        Progress {
            index: count,
            pending: false,
            clock_ms: if p.clock_ms < total {
                total
            } else {
                p.clock_ms
            },
            hidden: p.hidden,
        }
    }
}

/// Whether the whole text has appeared.
pub open spec fn complete(p: Progress, count: nat) -> bool {
    count == 0 || (!p.pending && p.index >= count)
}

/// Making the whole text appear completes it.
pub proof fn law_revealing_completes(p: Progress, configs: Seq<ScetweenConfig>, count: usize)
    ensures
        complete(revealed(p, configs, count), count as nat),
{
}

/// Text that has appeared stays: time takes no character back.
pub proof fn law_text_does_not_go_back(
    p: Progress,
    configs: Seq<ScetweenConfig>,
    count: usize,
    delta_ms: u64,
)
    requires
        p.index <= count,
    ensures
        p.index <= advanced(p, configs, count, delta_ms).index <= count,
{
}

/// Complete text stays complete as time passes.
pub proof fn law_complete_text_stays(
    p: Progress,
    configs: Seq<ScetweenConfig>,
    count: usize,
    delta_ms: u64,
)
    requires
        complete(p, count as nat),
    ensures
        advanced(p, configs, count, delta_ms) == p,
{
}

proof fn lemma_appeared_grows(a: u64, b: u64, delay: u64, count: nat)
    requires
        a <= b,
        delay > 0,
    ensures
        appeared(a, delay, count) <= appeared(b, delay, count),
{
    assert(a / delay <= b / delay) by (nonlinear_arith)
        requires
            a <= b,
            delay > 0,
    ;
}

/// How much has appeared does not depend on how time is cut into frames.
pub proof fn law_frames_do_not_matter(
    p: Progress,
    configs: Seq<ScetweenConfig>,
    count: usize,
    first_ms: u64,
    second_ms: u64,
)
    requires
        first_ms + second_ms <= u64::MAX,
    ensures
        ({
            let once = advanced(p, configs, count, (first_ms + second_ms) as u64);
            let twice = advanced(
                advanced(p, configs, count, first_ms),
                configs,
                count,
                second_ms,
            );
            once.index == twice.index && once.pending == twice.pending
        }),
{
    let half = advanced(p, configs, count, first_ms);
    let delay = longest_delay(configs, p.hidden);
    let clock_a = capped(p.clock_ms + first_ms);
    let clock_b = capped(p.clock_ms + first_ms + second_ms);
    assert(capped(clock_a + second_ms) == clock_b);
    if delay > 0 {
        lemma_appeared_grows(clock_a, clock_b, delay, count as nat);
    }
}

/// What a message layer shows.
pub struct MessageLayer {
    pub id: String,
    /// Whether the text belongs to the picture layer of the same name.
    pub layered: bool,
    /// Counts the pages: a page that was cleared has another number.
    pub generation: u64,
    pub font: FontDesc,
    pub font_stack: Vec<FontDesc>,
    pub text_buffer: Vec<char>,
    pub scetween: Vec<ScetweenConfig>,
    pub reveal_index: usize,
    pub reveal_pending: bool,
    pub reveal_clock_ms: u64,
    pub text_hidden: bool,
    /// The ruby text of the span that is open.
    pub open_ruby: Option<String>,
}

/// What a message layer holds.
#[verifier::ext_equal]
pub struct LayerRecord {
    pub id: Seq<char>,
    pub layered: bool,
    pub generation: u64,
    pub font: FontRecord,
    pub font_stack: Seq<FontRecord>,
    pub text: Seq<char>,
    pub scetween: Seq<ScetweenConfig>,
    pub progress: Progress,
    pub open_ruby: Option<Seq<char>>,
}

/// The records of saved fonts.
pub open spec fn font_records(stack: Seq<FontDesc>) -> Seq<FontRecord> {
    Seq::new(stack.len(), |i: int| stack[i]@)
}

impl View for MessageLayer {
    type V = LayerRecord;

    open spec fn view(&self) -> LayerRecord {
        LayerRecord {
            id: self.id@,
            layered: self.layered,
            generation: self.generation,
            font: self.font@,
            font_stack: font_records(self.font_stack@),
            text: self.text_buffer@,
            scetween: self.scetween@,
            progress: Progress {
                index: self.reveal_index,
                pending: self.reveal_pending,
                clock_ms: self.reveal_clock_ms,
                hidden: self.text_hidden,
            },
            open_ruby: opt_text(self.open_ruby),
        }
    }
}

/// A layer that nothing was written on.
pub open spec fn fresh_layer(id: Seq<char>) -> LayerRecord {
    LayerRecord {
        id,
        layered: false,
        generation: 0,
        font: plain_font(),
        font_stack: Seq::empty(),
        text: Seq::empty(),
        scetween: Seq::empty(),
        progress: at_rest(false),
        open_ruby: None,
    }
}

/// Whether font settings save the font that they change.
pub open spec fn saves_font(raw: Map<Seq<char>, Seq<char>>) -> bool {
    !raw.contains_key("stack"@) || raw["stack"@] == "1"@ || raw["stack"@] == "true"@
}

/// A layer after font settings.
pub open spec fn with_settings(l: LayerRecord, raw: Map<Seq<char>, Seq<char>>) -> LayerRecord {
    LayerRecord {
        font_stack: if saves_font(raw) {
            l.font_stack.push(l.font)
        } else {
            l.font_stack
        },
        font: merged_font(l.font, raw),
        ..l
    }
}

/// A layer after the font before the last settings came back.
pub open spec fn with_popped_font(l: LayerRecord) -> LayerRecord {
    if l.font_stack.len() > 0 {
        LayerRecord { font: l.font_stack.last(), font_stack: l.font_stack.drop_last(), ..l }
    } else {
        l
    }
}

/// A layer without text.
pub open spec fn without_text(l: LayerRecord) -> LayerRecord {
    LayerRecord { text: Seq::empty(), progress: at_rest(l.progress.hidden), ..l }
}

/// A layer after more text, which makes it appear anew.
pub open spec fn with_text(l: LayerRecord, more: Seq<char>) -> LayerRecord {
    LayerRecord {
        text: l.text + more,
        progress: from_start(l.progress.hidden),
        ..l
    }
}

/// The settings of other modes.
pub open spec fn other_modes(configs: Seq<ScetweenConfig>, mode: ScetweenMode) -> Seq<
    ScetweenConfig,
>
    decreases configs.len(),
{
    if configs.len() == 0 {
        Seq::empty()
    } else {
        let before = other_modes(configs.drop_last(), mode);
        if configs.last().mode != mode {
            before.push(configs.last())
        } else {
            before
        }
    }
}

/// A layer after a setting of how text appears.
pub open spec fn with_scetween(l: LayerRecord, config: ScetweenConfig) -> LayerRecord {
    LayerRecord {
        scetween: match config.set_mode {
            ScetweenSetMode::Init => other_modes(l.scetween, config.mode).push(config),
            ScetweenSetMode::Add => l.scetween.push(config),
        },
        ..l
    }
}

/// A layer whose text is to appear, or to go.
pub open spec fn restarted(l: LayerRecord, hidden: bool) -> LayerRecord {
    LayerRecord { progress: from_start(hidden), ..l }
}

/// A layer after its line ended, which makes it appear anew.
pub open spec fn with_line_break(l: LayerRecord) -> LayerRecord {
    LayerRecord { text: l.text.push('\n'), progress: from_start(l.progress.hidden), ..l }
}

impl MessageLayer {
    /// The fonts are well formed.
    pub open spec fn wf(self) -> bool {
        &&& self.font.wf()
        &&& forall|i: int|
            0 <= i < self.font_stack@.len() ==> (#[trigger] self.font_stack@[i]).wf()
    }

    /// A layer that nothing was written on.
    pub fn new(id: String) -> (out: Self)
        ensures
            out.wf(),
            out@ == fresh_layer(id@),
    {
        let out = MessageLayer {
            id,
            layered: false,
            generation: 0,
            font: FontDesc::new(),
            font_stack: Vec::new(),
            text_buffer: Vec::new(),
            scetween: Vec::new(),
            reveal_index: 0,
            reveal_pending: false,
            reveal_clock_ms: 0,
            text_hidden: false,
            open_ruby: None,
        };
        assert(out@ =~= fresh_layer(id@));
        out
    }

    /// Takes font settings, and saves the font before them unless they say
    /// otherwise.
    pub fn apply_settings(&mut self, raw: &NameMap<String>)
        requires
            old(self).wf(),
            raw.wf(),
        ensures
            (*final(self)).wf(),
            final(self)@ == with_settings(old(self)@, text_map(*raw)),
    {
        let saves = match raw.get("stack") {
            Some(text) => same_text(text.as_str(), "1") || same_text(text.as_str(), "true"),
            None => true,
        };
        if saves {
            self.font_stack.push(self.font.copy());
        }
        self.font.merge_raw(raw);
        assert(self@ =~= with_settings(old(self)@, text_map(*raw)));
    }

    /// Brings back the font that was saved last.
    pub fn pop_font(&mut self)
        requires
            old(self).wf(),
        ensures
            (*final(self)).wf(),
            final(self)@ == with_popped_font(old(self)@),
    {
        if let Some(font) = self.font_stack.pop() {
            self.font = font;
        }
        assert(self@ =~= with_popped_font(old(self)@));
    }

    /// Takes a font.
    pub fn set_font(&mut self, font: FontDesc)
        requires
            old(self).wf(),
            font.wf(),
        ensures
            (*final(self)).wf(),
            final(self)@ == (LayerRecord { font: font@, ..old(self)@ }),
    {
        self.font = font;
        assert(self@ =~= (LayerRecord { font: font@, ..old(self)@ }));
    }

    /// Takes the text away.
    pub fn clear_text(&mut self)
        requires
            old(self).wf(),
        ensures
            (*final(self)).wf(),
            final(self)@ == without_text(old(self)@),
    {
        self.text_buffer.clear();
        self.reveal_index = 0;
        self.reveal_pending = false;
        self.reveal_clock_ms = 0;
        assert(self@ =~= without_text(old(self)@));
    }

    /// Begins another page.
    pub fn clear_page(&mut self)
        requires
            old(self).wf(),
        ensures
            (*final(self)).wf(),
            final(self)@ == (LayerRecord {
                generation: next_generation(old(self).generation),
                ..without_text(old(self)@)
            }),
    {
        self.clear_text();
        self.generation = self.generation.wrapping_add(1);
    }

    /// Writes more text. The layer appears anew.
    pub fn push_text(&mut self, more: &Vec<char>)
        requires
            old(self).wf(),
        ensures
            (*final(self)).wf(),
            final(self)@ == with_text(old(self)@, more@),
    {
        let hidden = self.text_hidden;
        self.restart(hidden);
        let mut i: usize = 0;
        let ghost start = self.text_buffer@;
        let ghost before = *self;
        assert(start + more@.take(0) =~= start);
        while i < more.len()
            invariant
                i <= more.len(),
                self.text_buffer@ == start + more@.take(i as int),
                *self == (MessageLayer { text_buffer: self.text_buffer, ..before }),
            decreases more.len() - i,
        {
            self.text_buffer.push(more[i]);
            assert(start + more@.take(i + 1) =~= (start + more@.take(i as int)).push(
                more@[i as int],
            ));
            i += 1;
        }
        assert(more@.take(i as int) =~= more@);
        assert(self@ =~= with_text(old(self)@, more@));
    }

    /// Ends the line. The layer appears anew.
    pub fn push_line_break(&mut self)
        requires
            old(self).wf(),
        ensures
            (*final(self)).wf(),
            final(self)@ == with_line_break(old(self)@),
    {
        let hidden = self.text_hidden;
        self.restart(hidden);
        self.text_buffer.push('\n');
        assert(self@ =~= with_line_break(old(self)@));
    }

    /// Takes a setting of how text appears.
    pub fn set_scetween(&mut self, config: ScetweenConfig)
        requires
            old(self).wf(),
        ensures
            (*final(self)).wf(),
            final(self)@ == with_scetween(old(self)@, config),
    {
        match config.set_mode {
            ScetweenSetMode::Init => {
                let mut kept: Vec<ScetweenConfig> = Vec::new();
                let mut i: usize = 0;
                let ghost all = self.scetween@;
                assert(all.take(0) =~= Seq::empty());
                while i < self.scetween.len()
                    invariant
                        i <= self.scetween.len(),
                        all == self.scetween@,
                        kept@ == other_modes(all.take(i as int), config.mode),
                    decreases self.scetween.len() - i,
                {
                    assert(all.take(i + 1).drop_last() =~= all.take(i as int));
                    if self.scetween[i].mode != config.mode {
                        kept.push(self.scetween[i]);
                    }
                    i += 1;
                }
                assert(all.take(i as int) =~= all);
                kept.push(config);
                self.scetween = kept;
            },
            ScetweenSetMode::Add => {
                self.scetween.push(config);
            },
        }
        assert(self@ =~= with_scetween(old(self)@, config));
    }

    /// Makes the text appear from the start, or go where `hidden` says so.
    pub fn restart(&mut self, hidden: bool)
        requires
            old(self).wf(),
        ensures
            (*final(self)).wf(),
            final(self)@ == restarted(old(self)@, hidden),
    {
        self.text_hidden = hidden;
        self.reveal_index = 0;
        self.reveal_clock_ms = 0;
        self.reveal_pending = true;
    }

    /// The longest wait and the longest time of the settings that bear on the
    /// text, and whether there are any.
    fn longest(&self) -> (out: (bool, u64, u64))
        ensures
            out.0 == !none_bears(self.scetween@, self.text_hidden),
            out.1 == longest_delay(self.scetween@, self.text_hidden),
            out.2 == longest_time(self.scetween@, self.text_hidden, self.text_buffer@.len()),
    {
        let mut any = false;
        let mut delay: u64 = 0;
        let mut total: u64 = 0;
        let mut i: usize = 0;
        let count: u64 = self.text_buffer.len() as u64;
        let steps: u64 = if count == 0 {
            0
        } else {
            count - 1
        };
        let ghost all = self.scetween@;
        assert(all.take(0) =~= Seq::empty());
        while i < self.scetween.len()
            invariant
                i <= self.scetween.len(),
                all == self.scetween@,
                count == self.text_buffer@.len(),
                steps == (if count == 0 {
                    0
                } else {
                    count - 1
                }),
                any == !none_bears(all.take(i as int), self.text_hidden),
                delay == longest_delay(all.take(i as int), self.text_hidden),
                total == longest_time(all.take(i as int), self.text_hidden, count as nat),
            decreases self.scetween.len() - i,
        {
            let config = self.scetween[i];
            let ghost here = all.take(i as int);
            let ghost next = all.take(i + 1);
            proof {
                assert(next.drop_last() =~= here);
                assert(next.last() == config);
                assert forall|j: int| 0 <= j < here.len() implies here[j] == next[j] by {}
                assert(steps * config.delay_per_char >= 0) by (nonlinear_arith)
                    requires
                        steps >= 0,
                        config.delay_per_char >= 0,
                ;
            }
            if config.mode.is_entrance() != self.text_hidden {
                any = true;
                if config.delay_per_char > delay {
                    delay = config.delay_per_char;
                }
                let time: u64 = capped_product(steps, config.delay_per_char).saturating_add(
                    config.time_per_char,
                );
                assert(time == total_time(config, count as nat));
                if time > total {
                    total = time;
                }
                assert(bears(next[i as int], self.text_hidden));
            }
            proof {
                if none_bears(next, self.text_hidden) {
                    assert forall|j: int| 0 <= j < here.len() implies !bears(
                        #[trigger] here[j],
                        self.text_hidden,
                    ) by {
                        assert(here[j] == next[j]);
                    }
                }
            }
            i += 1;
        }
        assert(all.take(i as int) =~= all);
        (any, delay, total)
    }

    /// Lets time pass for the text.
    pub fn advance(&mut self, delta_ms: u64)
        requires
            old(self).wf(),
        ensures
            (*final(self)).wf(),
            final(self)@ == (LayerRecord {
                progress: advanced(
                    old(self)@.progress,
                    old(self).scetween@,
                    old(self).text_buffer.len(),
                    delta_ms,
                ),
                ..old(self)@
            }),
    {
        let count: usize = self.text_buffer.len();
        if !self.reveal_pending || count == 0 {
            return;
        }
        let (any, delay, total) = self.longest();
        self.reveal_clock_ms = self.reveal_clock_ms.saturating_add(delta_ms);
        if !any || (delay == 0 && total == 0) {
            self.reveal_index = count;
            self.reveal_pending = false;
            return;
        }
        if delay == 0 {
            self.reveal_index = count;
            if self.reveal_clock_ms >= total {
                self.reveal_pending = false;
            }
            return;
        }
        let whole: u64 = self.reveal_clock_ms / delay;
        let now: usize = if whole < count as u64 {
            whole as usize + 1
        } else {
            count
        };
        if now > self.reveal_index {
            self.reveal_index = now;
        }
        if self.reveal_index >= count && self.reveal_clock_ms >= total {
            self.reveal_pending = false;
        }
    }

    /// Makes the whole text appear, with every movement at its end.
    pub fn reveal_now(&mut self)
        requires
            old(self).wf(),
        ensures
            (*final(self)).wf(),
            final(self)@ == (LayerRecord {
                progress: revealed(
                    old(self)@.progress,
                    old(self).scetween@,
                    old(self).text_buffer.len(),
                ),
                ..old(self)@
            }),
    {
        let count: usize = self.text_buffer.len();
        if count == 0 {
            return;
        }
        let (_any, _delay, total) = self.longest();
        self.reveal_index = count;
        self.reveal_pending = false;
        if self.reveal_clock_ms < total {
            self.reveal_clock_ms = total;
        }
    }

    /// Whether the whole text has appeared.
    pub fn is_complete(&self) -> (out: bool)
        ensures
            out == complete(self@.progress, self.text_buffer@.len()),
    {
        self.text_buffer.len() == 0 || (!self.reveal_pending && self.reveal_index
            >= self.text_buffer.len())
    }
}

/// The number of the next page.
pub open spec fn next_generation(generation: u64) -> u64 {
    if generation == u64::MAX {
        0
    } else {
        (generation + 1) as u64
    }
}

/// Text appears by the tweens that are for appearing, and goes by the others.
pub proof fn law_tweens_bear_on_one_way(config: ScetweenConfig)
    ensures
        bears(config, false) <==> is_entrance_mode(config.mode),
        bears(config, true) <==> !is_entrance_mode(config.mode),
{
}

/// Among tweens the longest delay decides, and the longest time: both are those of
/// a tween that bears on the text, no such tween has a longer one, and without
/// such a tween they are 0.
pub proof fn law_the_longest_tween_decides(
    configs: Seq<ScetweenConfig>,
    hidden: bool,
    count: nat,
    i: int,
)
    ensures
        0 <= i < configs.len() && bears(configs[i], hidden) ==> configs[i].delay_per_char
            <= longest_delay(configs, hidden) && total_time(configs[i], count) <= longest_time(
            configs,
            hidden,
            count,
        ),
        longest_delay(configs, hidden) > 0 ==> exists|j: int|
            0 <= j < configs.len() && bears(configs[j], hidden) && (
            #[trigger] configs[j]).delay_per_char == longest_delay(configs, hidden),
        longest_time(configs, hidden, count) > 0 ==> exists|j: int|
            0 <= j < configs.len() && bears(configs[j], hidden) && total_time(
                #[trigger] configs[j],
                count,
            ) == longest_time(configs, hidden, count),
    decreases configs.len(),
{
    if configs.len() > 0 {
        let rest = configs.drop_last();
        law_the_longest_tween_decides(rest, hidden, count, i);
        if longest_delay(rest, hidden) > 0 {
            let j = choose|j: int|
                0 <= j < rest.len() && bears(rest[j], hidden) && (
                #[trigger] rest[j]).delay_per_char == longest_delay(rest, hidden);
            assert(configs[j] == rest[j]);
        }
        if longest_time(rest, hidden, count) > 0 {
            let j = choose|j: int|
                0 <= j < rest.len() && bears(rest[j], hidden) && total_time(
                    #[trigger] rest[j],
                    count,
                ) == longest_time(rest, hidden, count);
            assert(configs[j] == rest[j]);
        }
        assert(configs[configs.len() - 1] == configs.last());
        if 0 <= i < rest.len() {
            assert(configs[i] == rest[i]);
        }
    }
}

/// A tween lasts until its last character, which starts after one delay for each
/// character before it, has had its time; beyond what 64 bits hold it is cut off
/// there.
pub proof fn law_tweens_last_for_every_character(config: ScetweenConfig, count: nat)
    ensures
        total_time(config, 0) == config.time_per_char,
        count > 0 && (count - 1) * config.delay_per_char + config.time_per_char <= u64::MAX
            ==> total_time(config, count) == (count - 1) * config.delay_per_char
            + config.time_per_char,
        count > 0 && (count - 1) * config.delay_per_char + config.time_per_char > u64::MAX
            ==> total_time(config, count) == u64::MAX,
{
    assert(0 * config.delay_per_char == 0);
    if count > 0 {
        assert((count - 1) * config.delay_per_char >= 0) by (nonlinear_arith)
            requires
                count >= 1,
        ;
    }
}

/// Character `k` has appeared as soon as `k` delays have passed, counting from 0,
/// and not before. The text is done when all have appeared and the longest time
/// has passed.
pub proof fn law_characters_appear_in_turn(
    p: Progress,
    configs: Seq<ScetweenConfig>,
    count: usize,
    delta_ms: u64,
    k: int,
)
    requires
        p.pending,
        0 <= k < count,
        p.clock_ms + delta_ms <= u64::MAX,
        longest_delay(configs, p.hidden) > 0,
    ensures
        ({
            let next = advanced(p, configs, count, delta_ms);
            let delay = longest_delay(configs, p.hidden);
            &&& next.clock_ms == p.clock_ms + delta_ms
            &&& next.hidden == p.hidden
            &&& k < next.index <==> k < p.index || k * delay <= next.clock_ms
            &&& next.index <= count || next.index == p.index
            &&& next.pending <==> next.index < count || next.clock_ms < longest_time(
                configs,
                p.hidden,
                count as nat,
            )
        }),
{
    let delay = longest_delay(configs, p.hidden) as int;
    let clock = p.clock_ms + delta_ms;
    law_the_longest_tween_decides(configs, p.hidden, count as nat, 0);
    vstd::arithmetic::div_mod::lemma_fundamental_div_mod(clock, delay);
    vstd::arithmetic::div_mod::lemma_mod_bound(clock, delay);
    let q = clock / delay;
    assert(k * delay <= clock <==> k <= q) by (nonlinear_arith)
        requires
            clock == delay * q + clock % delay,
            0 <= clock % delay < delay,
    ;
    assert(q >= 0) by (nonlinear_arith)
        requires
            clock == delay * q + clock % delay,
            0 <= clock % delay < delay,
            clock >= 0,
    ;
}

/// Text that no tween delays appears at once, and is done when the longest time
/// has passed; text that no tween bears on is done at once. Text that waits for
/// nothing, and text without characters, stays as it is.
pub proof fn law_undelayed_text_appears_at_once(
    p: Progress,
    configs: Seq<ScetweenConfig>,
    count: usize,
    delta_ms: u64,
)
    ensures
        !p.pending || count == 0 ==> advanced(p, configs, count, delta_ms) == p,
        p.pending && count > 0 && longest_delay(configs, p.hidden) == 0 ==> ({
            let next = advanced(p, configs, count, delta_ms);
            &&& next.index == count
            &&& next.hidden == p.hidden
            &&& next.clock_ms >= p.clock_ms
            &&& p.clock_ms + delta_ms <= u64::MAX ==> next.clock_ms == p.clock_ms + delta_ms
            &&& p.clock_ms + delta_ms > u64::MAX ==> next.clock_ms == u64::MAX
            &&& next.pending <==> next.clock_ms < longest_time(configs, p.hidden, count as nat)
        }),
        (forall|i: int| 0 <= i < configs.len() ==> !bears(#[trigger] configs[i], p.hidden))
            ==> longest_delay(configs, p.hidden) == 0 && longest_time(
            configs,
            p.hidden,
            count as nat,
        ) == 0,
{
    if none_bears(configs, p.hidden) {
        law_the_longest_tween_decides(configs, p.hidden, count as nat, 0);
    }
}

/// Revealing shows every character and lets the longest time pass, but turns no
/// clock back; an empty text stays as it is.
pub proof fn law_revealing_shows_everything(
    p: Progress,
    configs: Seq<ScetweenConfig>,
    count: usize,
)
    ensures
        count == 0 ==> revealed(p, configs, count) == p,
        count > 0 ==> ({
            let next = revealed(p, configs, count);
            &&& next.index == count
            &&& !next.pending
            &&& next.hidden == p.hidden
            &&& next.clock_ms >= p.clock_ms
            &&& next.clock_ms >= longest_time(configs, p.hidden, count as nat)
            &&& next.clock_ms == p.clock_ms || next.clock_ms == longest_time(
                configs,
                p.hidden,
                count as nat,
            )
        }),
        complete(p, count as nat) <==> count == 0 || (!p.pending && p.index >= count),
{
}

/// Writing goes behind the text and starts its appearing anew; clearing leaves no
/// text and nothing to appear. Whether the text is hidden, and all else, stays.
pub proof fn law_writing_goes_behind_the_text(l: LayerRecord, more: Seq<char>, hidden: bool)
    ensures
        with_text(l, more).text == l.text + more,
        with_line_break(l).text == l.text + seq!['\n'],
        without_text(l).text.len() == 0,
        with_text(l, more) == (LayerRecord {
            text: l.text + more,
            ..restarted(l, l.progress.hidden)
        }),
        with_line_break(l) == with_text(l, seq!['\n']),
        without_text(l) == (LayerRecord {
            text: Seq::empty(),
            progress: without_text(l).progress,
            ..l
        }),
        without_text(l).progress == (Progress {
            index: 0,
            pending: false,
            clock_ms: 0,
            hidden: l.progress.hidden,
        }),
        restarted(l, hidden) == (LayerRecord {
            progress: Progress { index: 0, pending: true, clock_ms: 0, hidden },
            ..l
        }),
{
}

/// Settings are put over the font. The font before them is kept on top of the
/// others unless they say otherwise, and comes back when it is taken off; where
/// none is kept, nothing changes.
pub proof fn law_fonts_are_kept(l: LayerRecord, raw: Map<Seq<char>, Seq<char>>)
    ensures
        with_settings(l, raw).font == merged_font(l.font, raw),
        !raw.contains_key("stack"@) || raw["stack"@] == "1"@ || raw["stack"@] == "true"@
            ==> with_settings(l, raw).font_stack == l.font_stack.push(l.font),
        raw.contains_key("stack"@) && raw["stack"@] != "1"@ && raw["stack"@] != "true"@
            ==> with_settings(l, raw).font_stack == l.font_stack,
        with_settings(l, raw) == (LayerRecord {
            font: with_settings(l, raw).font,
            font_stack: with_settings(l, raw).font_stack,
            ..l
        }),
        l.font_stack.len() == 0 ==> with_popped_font(l) == l,
        l.font_stack.len() > 0 ==> with_popped_font(l) == (LayerRecord {
            font: l.font_stack.last(),
            font_stack: l.font_stack.drop_last(),
            ..l
        }),
{
}

/// A tween that is added comes behind the others. One that begins anew first takes
/// away those of its own mode, and leaves the rest in their order.
pub proof fn law_tweens_are_set(
    l: LayerRecord,
    config: ScetweenConfig,
    before: Seq<ScetweenConfig>,
    mode: ScetweenMode,
)
    ensures
        other_modes(Seq::empty(), mode).len() == 0,
        config.mode == mode ==> other_modes(before.push(config), mode) == other_modes(before, mode),
        config.mode != mode ==> other_modes(before.push(config), mode) == other_modes(
            before,
            mode,
        ).push(config),
        config.set_mode is Add ==> with_scetween(l, config) == (LayerRecord {
            scetween: l.scetween.push(config),
            ..l
        }),
        config.set_mode is Init ==> with_scetween(l, config) == (LayerRecord {
            scetween: other_modes(l.scetween, config.mode).push(config),
            ..l
        }),
{
    assert(before.push(config).drop_last() =~= before);
}

/// A fresh layer has its name, the plain font and nothing else; the number of a
/// page is followed by the next one, and the last by 0.
pub proof fn law_fresh_layers_are_empty(id: Seq<char>, generation: u64)
    ensures
        ({
            let l = fresh_layer(id);
            &&& l.id == id
            &&& !l.layered
            &&& l.generation == 0
            &&& l.font == plain_font()
            &&& l.font_stack.len() == 0
            &&& l.text.len() == 0
            &&& l.scetween.len() == 0
            &&& !l.progress.pending && !l.progress.hidden && l.progress.index == 0
                && l.progress.clock_ms == 0
            &&& l.open_ruby is None
        }),
        generation < u64::MAX ==> next_generation(generation) == generation + 1,
        next_generation(u64::MAX) == 0,
{
}

} // verus!
