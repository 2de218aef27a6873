//! Commands to the host and answers from the state that it sent.
use crate::host::events::{
    enabled, push_media, push_ui, replacement_of, routed, text_replacement,
    text_translation_enabled, EventRouter, RouterState, EVENT_KIND_MEDIA, EVENT_KIND_UI,
};
use crate::json::{envelope_text, json_reprinted, one_member, one_member_text};
use crate::strs::{opt_text, texts};
use vstd::prelude::*;
use vstd::utf8::*;

verus! {

/// What becomes of a text before it is shown.
#[derive(Debug)]
pub enum TextInjectResult {
    Unchanged,
    Replaced(String),
    /// The text is shown as it is; a translation may follow.
    Pending,
}

/// What the host's state says of a text: its replacement first, then whether
/// translations are asked for.
pub open spec fn injection_of(state: RouterState, text: Seq<char>) -> (Option<Seq<char>>, bool) {
    match state.current() {
        Some(s) => (replacement_of(s, text), s.enabled && s.translation_enabled),
        None => (None, false),
    }
}

/// Asks what becomes of a text.
pub fn request_text_injection(router: &EventRouter, text: &str) -> (out: TextInjectResult)
    requires
        router.wf(),
    ensures
        match injection_of(router@, text@) {
            (Some(replaced), _) => out matches TextInjectResult::Replaced(s) && s@ == replaced,
            (None, true) => out is Pending,
            (None, false) => out is Unchanged,
        },
{
    match text_replacement(router, text) {
        Some(replaced) => TextInjectResult::Replaced(replaced),
        None => if text_translation_enabled(router) {
            TextInjectResult::Pending
        } else {
            TextInjectResult::Unchanged
        },
    }
}

/// The replacement of a text; a translation that may follow counts as none.
pub fn inject_text(router: &EventRouter, text: &str) -> (out: Option<String>)
    requires
        router.wf(),
    ensures
        opt_text(out) == injection_of(router@, text@).0,
{
    match request_text_injection(router, text) {
        TextInjectResult::Replaced(replaced) => Some(replaced),
        _ => None,
    }
}

/// Sends a command of a kind to the host; an unknown kind sends nothing.
pub fn emit_json_command(router: &mut EventRouter, event_kind: u32, kind: &str, payload: &str)
    requires
        old(router).wf(),
    ensures
        (*final(router)).wf(),
        final(router)@ == (if event_kind == EVENT_KIND_MEDIA || event_kind == EVENT_KIND_UI {
            routed(
                old(router)@,
                event_kind,
                0,
                encode_utf8(envelope_text(kind@, json_reprinted(payload@))),
            )
        } else {
            old(router)@
        }),
{
    if event_kind == EVENT_KIND_MEDIA {
        push_media(router, kind, payload);
    } else if event_kind == EVENT_KIND_UI {
        push_ui(router, kind, payload);
    }
}

/// Sends a media command to the host.
pub fn emit_media_command(router: &mut EventRouter, kind: &str, payload: &str)
    requires
        old(router).wf(),
    ensures
        (*final(router)).wf(),
        final(router)@ == routed(
            old(router)@,
            EVENT_KIND_MEDIA,
            0,
            encode_utf8(envelope_text(kind@, json_reprinted(payload@))),
        ),
{
    emit_json_command(router, EVENT_KIND_MEDIA, kind, payload);
}

/// Sends a UI command to the host.
pub fn emit_ui_command(router: &mut EventRouter, kind: &str, payload: &str)
    requires
        old(router).wf(),
    ensures
        (*final(router)).wf(),
        final(router)@ == routed(
            old(router)@,
            EVENT_KIND_UI,
            0,
            encode_utf8(envelope_text(kind@, json_reprinted(payload@))),
        ),
{
    emit_json_command(router, EVENT_KIND_UI, kind, payload);
}

/// Whether the host takes media commands.
pub fn media_command_callback_registered(router: &EventRouter) -> (out: bool)
    requires
        router.wf(),
    ensures
        out == (router@.current() matches Some(state) && state.enabled),
{
    enabled(router)
}

/// Whether the host takes UI commands.
pub fn ui_command_callback_registered(router: &EventRouter) -> (out: bool)
    requires
        router.wf(),
    ensures
        out == (router@.current() matches Some(state) && state.enabled),
{
    enabled(router)
}

/// Asks the host to put a text on the clipboard.
pub fn write_clipboard(router: &mut EventRouter, text: &str)
    requires
        old(router).wf(),
    ensures
        (*final(router)).wf(),
        final(router)@ == routed(
            old(router)@,
            EVENT_KIND_UI,
            0,
            encode_utf8(
                envelope_text(
                    "write_clipboard"@,
                    json_reprinted(one_member_text("string"@, text@)),
                ),
            ),
        ),
{
    let payload = one_member("string", text);
    emit_json_command(router, EVENT_KIND_UI, "write_clipboard", payload.as_str());
}

/// The font families that the host named; none where it named none.
pub fn query_font_list(router: &EventRouter, monospace: bool, vertical: bool) -> (out: Vec<String>)
    requires
        router.wf(),
    ensures
        texts(out@) == (match router@.current() {
            Some(state) => match (state.fonts)(monospace, vertical) {
                Some(names) => names,
                None => Seq::empty(),
            },
            None => Seq::empty(),
        }),
{
    match crate::host::events::query_font_list(router, monospace, vertical) {
        Some(names) => names,
        None => {
            let none: Vec<String> = Vec::new();
            assert(texts(none@) =~= Seq::empty());
            none
        },
    }
}

/// Whether the window fills the screen and whether it is minimised; neither
/// where the host did not say.
pub fn query_window_state(router: &EventRouter) -> (out: (bool, bool))
    requires
        router.wf(),
    ensures
        out == (match router@.current() {
            Some(state) => if state.enabled {
                (state.window_state & 1 != 0, state.window_state & 2 != 0)
            } else {
                (false, false)
            },
            None => (false, false),
        }),
{
    match crate::host::events::query_window_state(router) {
        Some(state) => state,
        None => (false, false),
    }
}

/// Text is replaced as the current session says, and a translation may follow where
/// the session and its translation are both on; without a session neither happens.
pub proof fn law_text_is_replaced_by_the_session(state: RouterState, text: Seq<char>)
    ensures
        state.current() is None ==> injection_of(state, text).0 is None && !injection_of(
            state,
            text,
        ).1,
        state.current() matches Some(s) ==> injection_of(state, text).0 == replacement_of(s, text)
            && (injection_of(state, text).1 <==> s.enabled && s.translation_enabled),
{
}

} // verus!
