//! The font that a host puts in place of the fonts of scripts.
use crate::strs::{concat, copy_bytes};
use vstd::prelude::*;

verus! {

/// Whether bytes are a font file.
pub uninterp spec fn valid_font(bytes: Seq<u8>) -> bool;

/// What is said of bytes that are no font file.
///
/// Calls `ab_glyph::FontRef::try_from_slice`: whether it takes the bytes depends
/// on them alone, and its error has one text.
#[verifier::external_body]
fn font_error(bytes: &[u8]) -> (out: Option<String>)
    ensures
        (out is None) == valid_font(bytes@),
        out matches Some(text) ==> text@ == "InvalidFont"@,
{
    ab_glyph::FontRef::try_from_slice(bytes).err().map(|error| error.to_string())
}

/// Refuses bytes that are no font file.
pub fn check_font(bytes: &[u8]) -> (out: Result<(), String>)
    ensures
        out is Ok <==> valid_font(bytes@),
        out matches Err(message) ==> message@ == "InvalidFont"@,
{
    match font_error(bytes) {
        Some(text) => Err(text),
        None => Ok(()),
    }
}

/// A font with the number of its installation.
pub struct FontOverride {
    pub generation: u64,
    pub bytes: Vec<u8>,
}

/// The font that is installed, and how often one was.
pub struct FontSlot {
    current: Option<FontOverride>,
    generation: u64,
}

/// What the slot holds.
pub struct SlotRecord {
    pub current: Option<(u64, Seq<u8>)>,
    pub generation: u64,
}

impl View for FontSlot {
    type V = SlotRecord;

    closed spec fn view(&self) -> SlotRecord {
        SlotRecord {
            current: match self.current {
                Some(font) => Some((font.generation, font.bytes@)),
                None => None,
            },
            generation: self.generation,
        }
    }
}

/// The number of the next installation.
pub open spec fn next_number(generation: u64) -> u64 {
    if generation == u64::MAX {
        0
    } else {
        (generation + 1) as u64
    }
}

/// The slot after a font was installed; bytes that are no font change nothing.
pub open spec fn installed(slot: SlotRecord, bytes: Seq<u8>, valid: bool) -> SlotRecord {
    if valid {
        SlotRecord {
            current: Some((next_number(slot.generation), bytes)),
            generation: next_number(slot.generation),
        }
    } else {
        slot
    }
}

impl FontSlot {
    /// No font.
    pub fn new() -> (out: Self)
        ensures
            out@ == (SlotRecord { current: None, generation: 0 }),
    {
        FontSlot { current: None, generation: 0 }
    }

    /// Installs a font that was found to be valid, or refuses bytes with what
    /// was said of them.
    pub fn install(&mut self, bytes: Vec<u8>, error: Option<String>) -> (out: Result<(), String>)
        ensures
            final(self)@ == installed(old(self)@, bytes@, error is None),
            out is Ok <==> error is None,
            out matches Err(message) ==> message@ == "覆盖字体不是合法的 sfnt 字体: "@ + error->0@,
    {
        match error {
            Some(text) => Err(concat("覆盖字体不是合法的 sfnt 字体: ", text.as_str())),
            None => {
                self.generation = self.generation.wrapping_add(1);
                self.current = Some(FontOverride { generation: self.generation, bytes });
                Ok(())
            },
        }
    }

    /// Installs a font in place of the fonts of scripts. Bytes that are no font
    /// are refused and leave everything as it was.
    pub fn set_font_override(&mut self, bytes: Vec<u8>) -> (out: Result<(), String>)
        ensures
            final(self)@ == installed(old(self)@, bytes@, valid_font(bytes@)),
            out is Ok <==> valid_font(bytes@),
            out matches Err(message) ==> message@ == "覆盖字体不是合法的 sfnt 字体: "@
                + "InvalidFont"@,
    {
        let error = font_error(bytes.as_slice());
        self.install(bytes, error)
    }

    /// Takes the font away. Its number is not given again.
    pub fn clear_font_override(&mut self)
        ensures
            final(self)@ == (SlotRecord { current: None, ..old(self)@ }),
    {
        self.current = None;
    }

    /// The font and its number.
    pub fn font_override(&self) -> (out: Option<(u64, Vec<u8>)>)
        ensures
            match out {
                Some((generation, bytes)) => self@.current == Some((generation, bytes@)),
                None => self@.current is None,
            },
    {
        match &self.current {
            Some(font) => Some((font.generation, copy_bytes(font.bytes.as_slice()))),
            None => None,
        }
    }
}

/// No number above the count of installations was given: the font that is
/// installed has at most that number.
pub open spec fn counted(slot: SlotRecord) -> bool {
    slot.current matches Some((number, _)) ==> number <= slot.generation
}

/// Numbers grow as long as they last: an installation has a greater number than
/// every one before it, even where the font was taken away between them, and
/// that stays so.
pub proof fn law_numbers_grow(slot: SlotRecord, earlier: u64, bytes: Seq<u8>)
    requires
        counted(slot),
        earlier <= slot.generation < u64::MAX,
    ensures
        ({
            let cleared = SlotRecord { current: None, ..slot };
            let next = installed(cleared, bytes, true);
            &&& counted(cleared)
            &&& counted(next)
            &&& earlier <= cleared.generation
            &&& next.current == Some((next.generation, bytes))
            &&& next.generation > earlier
            &&& next == installed(slot, bytes, true)
        }),
{
}

/// Taking the font away twice is taking it away once, and what is refused
/// changes nothing.
pub proof fn law_clearing_again_changes_nothing(slot: SlotRecord, bytes: Seq<u8>)
    ensures
        ({
            let cleared = SlotRecord { current: None, ..slot };
            SlotRecord { current: None, ..cleared } == cleared && installed(slot, bytes, false)
                == slot
        }),
{
}

/// Two installations in a row have different numbers, even where the font was
/// taken away between them.
pub proof fn law_installations_are_told_apart(slot: SlotRecord, a: Seq<u8>, b: Seq<u8>)
    ensures
        ({
            let first = installed(slot, a, true);
            let cleared = SlotRecord { current: None, ..first };
            let second = installed(cleared, b, true);
            first.current matches Some((m, _)) && second.current matches Some((n, _)) && m != n
        }),
{
}

/// A valid font takes the place of the one before, under the next number; an invalid
/// one changes nothing.
pub proof fn law_valid_fonts_are_installed(slot: SlotRecord, bytes: Seq<u8>)
    ensures
        slot.generation < u64::MAX ==> installed(slot, bytes, true) == (SlotRecord {
            current: Some(((slot.generation + 1) as u64, bytes)),
            generation: (slot.generation + 1) as u64,
        }),
        slot.generation == u64::MAX ==> installed(slot, bytes, true) == (SlotRecord {
            current: Some((0u64, bytes)),
            generation: 0,
        }),
        installed(slot, bytes, false) == slot,
{
}

} // verus!
