//! The host interface of the Siglus engine, as plain values.
use crate::strs::copy_text;
use vstd::prelude::*;
use vstd::string::*;
use vstd::utf8::*;

verus! {

pub const ABI_VERSION: u32 = 1;

pub const ABI_MAGIC: u32 = 0x5349_4731;

pub const STATUS_OK: i32 = 0;

pub const STATUS_ARGUMENT: i32 = -1;

pub const STATUS_HANDLE: i32 = -2;

pub const STATUS_ENGINE: i32 = -3;

/// The handles of a process. All tables draw theirs from one counter.
pub struct HandleCounter {
    next: u64,
}

impl View for HandleCounter {
    type V = u64;

    /// The handle that is given next.
    closed spec fn view(&self) -> u64 {
        self.next
    }
}

impl HandleCounter {
    /// No handle was given.
    pub fn new() -> (out: Self)
        ensures
            out@ == 1,
    {
        HandleCounter { next: 1 }
    }

    /// Gives a handle that was not given before; none once the handles are used
    /// up.
    pub fn draw(&mut self) -> (out: Option<u64>)
        ensures
            old(self)@ == 0 || old(self)@ == u64::MAX ==> out is None && final(self)@ == old(self)@,
            0 < old(self)@ < u64::MAX ==> out == Some(old(self)@) && final(self)@ == old(self)@ + 1,
    {
        let handle: u64 = self.next;
        if handle == 0 || handle == u64::MAX {
            return None;
        }
        self.next = handle + 1;
        Some(handle)
    }
}

/// The runtimes of a thread by their handles.
pub struct HandleTable<R> {
    runtimes: Vec<(u64, R)>,
}

impl<R> HandleTable<R> {
    /// The runtimes that are there.
    pub closed spec fn view(self) -> Map<u64, R> {
        Map::new(
            |h: u64|
                exists|i: int|
                    0 <= i < self.runtimes@.len() && (#[trigger] self.runtimes@[i]).0 == h,
            |h: u64|
                self.runtimes@[choose|i: int|
                    0 <= i < self.runtimes@.len() && (#[trigger] self.runtimes@[i]).0 == h].1,
        )
    }

    /// No handle is there twice.
    pub closed spec fn wf(self) -> bool {
        forall|i: int, j: int|
            0 <= i < j < self.runtimes@.len() ==> (#[trigger] self.runtimes@[i]).0 != (
            #[trigger] self.runtimes@[j]).0
    }

    /// The place of a handle.
    spec fn at(self, handle: u64, i: int) -> bool {
        0 <= i < self.runtimes@.len() && self.runtimes@[i].0 == handle
    }

    proof fn lemma_at(self, handle: u64, i: int)
        requires
            self.wf(),
            self.at(handle, i),
        ensures
            self@.contains_key(handle),
            self@[handle] == self.runtimes@[i].1,
    {
        let k = choose|k: int|
            0 <= k < self.runtimes@.len() && (#[trigger] self.runtimes@[k]).0 == handle;
        assert(self.runtimes@[i].0 == handle);
        if k < i {
            assert(self.runtimes@[k].0 != self.runtimes@[i].0);
        } else if i < k {
            assert(self.runtimes@[i].0 != self.runtimes@[k].0);
        }
    }

    /// No runtime.
    pub fn new() -> (out: Self)
        ensures
            out.wf(),
            out@ == Map::<u64, R>::empty(),
    {
        let out = HandleTable { runtimes: Vec::new() };
        assert(out@ =~= Map::empty());
        out
    }

    fn find(&self, handle: u64) -> (out: Option<usize>)
        requires
            self.wf(),
        ensures
            match out {
                Some(i) => self.at(handle, i as int),
                None => !self@.contains_key(handle),
            },
    {
        let mut i: usize = 0;
        while i < self.runtimes.len()
            invariant
                i <= self.runtimes.len(),
                forall|j: int| 0 <= j < i ==> (#[trigger] self.runtimes@[j]).0 != handle,
            decreases self.runtimes.len() - i,
        {
            if self.runtimes[i].0 == handle {
                return Some(i);
            }
            i += 1;
        }
        None
    }

    /// Keeps a runtime under a handle that was drawn for it.
    pub fn insert(&mut self, handle: u64, runtime: R)
        requires
            old(self).wf(),
        ensures
            (*final(self)).wf(),
            final(self)@ == old(self)@.insert(handle, runtime),
    {
        let _ = self.remove(handle);
        let ghost before = *self;
        self.runtimes.push((handle, runtime));
        proof {
            let n = before.runtimes@.len() as int;
            assert(!before@.contains_key(handle));
            assert forall|i: int, j: int| 0 <= i < j < self.runtimes@.len() implies (
            #[trigger] self.runtimes@[i]).0 != (#[trigger] self.runtimes@[j]).0 by {
                assert(self.runtimes@[i] == before.runtimes@[i]);
                if j < n {
                    assert(self.runtimes@[j] == before.runtimes@[j]);
                } else {
                    assert(before.runtimes@[i].0 != handle);
                }
            }
            assert forall|h: u64| #[trigger] self@.contains_key(h) == before@.insert(
                handle,
                runtime,
            ).contains_key(h) by {
                if self@.contains_key(h) && h != handle {
                    let i = choose|i: int|
                        0 <= i < self.runtimes@.len() && (#[trigger] self.runtimes@[i]).0 == h;
                    assert(before.runtimes@[i].0 == h);
                }
                if before@.contains_key(h) {
                    let i = choose|i: int|
                        0 <= i < before.runtimes@.len() && (#[trigger] before.runtimes@[i]).0
                            == h;
                    assert(self.runtimes@[i].0 == h);
                }
                assert(self.runtimes@[n].0 == handle);
            }
            assert forall|h: u64| #[trigger] self@.contains_key(h) implies self@[h]
                == before@.insert(handle, runtime)[h] by {
                let i = choose|i: int|
                    0 <= i < self.runtimes@.len() && (#[trigger] self.runtimes@[i]).0 == h;
                self.lemma_at(h, i);
                if h == handle {
                    self.lemma_at(h, n);
                } else {
                    before.lemma_at(h, i);
                }
            }
            assert(self@ =~= before@.insert(handle, runtime));
            assert(self@ =~= old(self)@.insert(handle, runtime));
        }
    }

    /// Keeps a runtime under a handle of its own; none once the handles are used
    /// up.
    pub fn register(&mut self, counter: &mut HandleCounter, runtime: R) -> (out: Option<u64>)
        requires
            old(self).wf(),
        ensures
            (*final(self)).wf(),
            ({
                let next = old(counter)@;
                if next == 0 || next == u64::MAX {
                    out is None && final(counter)@ == next && *final(self) == *old(self)
                } else {
                    out == Some(next) && (final(counter)@, final(self)@) == registered(
                        next,
                        old(self)@,
                        runtime,
                    )
                }
            }),
    {
        match counter.draw() {
            Some(handle) => {
                self.insert(handle, runtime);
                Some(handle)
            },
            None => None,
        }
    }

    /// The runtime of a handle.
    pub fn get(&self, handle: u64) -> (out: Option<&R>)
        requires
            self.wf(),
        ensures
            out == (if self@.contains_key(handle) {
                Some(&self@[handle])
            } else {
                None
            }),
    {
        match self.find(handle) {
            Some(i) => {
                proof {
                    self.lemma_at(handle, i as int);
                }
                Some(&self.runtimes[i].1)
            },
            None => None,
        }
    }

    /// Takes a runtime away. Its handle is not given again.
    pub fn remove(&mut self, handle: u64) -> (out: Option<R>)
        requires
            old(self).wf(),
        ensures
            (*final(self)).wf(),
            final(self)@ == old(self)@.remove(handle),
            out == (if old(self)@.contains_key(handle) {
                Some(old(self)@[handle])
            } else {
                None
            }),
    {
        let ghost before = *self;
        match self.find(handle) {
            Some(at) => {
                proof {
                    before.lemma_at(handle, at as int);
                }
                let (_handle, runtime) = self.runtimes.remove(at);
                proof {
                    assert forall|h: u64| #[trigger] self@.contains_key(h) == before@.remove(
                        handle,
                    ).contains_key(h) by {
                        if self@.contains_key(h) {
                            let i = choose|i: int|
                                0 <= i < self.runtimes@.len() && (#[trigger] self.runtimes@[i]).0
                                    == h;
                            let k: int = if i < at { i } else { i + 1 };
                            assert(before.runtimes@[k].0 == h);
                            assert(before.runtimes@[at as int].0 == handle);
                        }
                        if before@.contains_key(h) && h != handle {
                            let i = choose|i: int|
                                0 <= i < before.runtimes@.len() && (
                                #[trigger] before.runtimes@[i]).0 == h;
                            let k: int = if i < at { i } else { i - 1 };
                            assert(self.runtimes@[k].0 == h);
                        }
                    }
                    assert forall|h: u64| #[trigger] self@.contains_key(h) implies self@[h]
                        == before@.remove(handle)[h] by {
                        let i = choose|i: int|
                            0 <= i < self.runtimes@.len() && (#[trigger] self.runtimes@[i]).0 == h;
                        let k: int = if i < at { i } else { i + 1 };
                        self.lemma_at(h, i);
                        assert(before.at(h, k));
                        before.lemma_at(h, k);
                    }
                    assert(self@ =~= before@.remove(handle));
                }
                Some(runtime)
            },
            None => {
                assert(before@.remove(handle) =~= before@);
                None
            },
        }
    }
}

/// The next handle and the runtimes of a thread after it registered one.
pub open spec fn registered<R>(next: u64, runtimes: Map<u64, R>, runtime: R) -> (u64, Map<u64, R>) {
    ((next + 1) as u64, runtimes.insert(next, runtime))
}

/// Whether every runtime that is there has a handle that was given.
pub open spec fn all_given<R>(next: u64, runtimes: Map<u64, R>) -> bool {
    forall|handle: u64| #[trigger] runtimes.contains_key(handle) ==> 0 < handle < next
}

/// A handle is unique in the process: the one that a thread is given is known to
/// no thread, and what a thread registers is never found by another one. That
/// stays so whichever thread registers next.
pub proof fn law_handles_are_unique<R>(
    next: u64,
    runtimes: Map<u64, R>,
    others: Map<u64, R>,
    runtime: R,
)
    requires
        0 < next < u64::MAX,
        all_given(next, runtimes),
        all_given(next, others),
        runtimes.dom().disjoint(others.dom()),
    ensures
        !runtimes.contains_key(next),
        !others.contains_key(next),
        ({
            let (later, more) = registered(next, runtimes, runtime);
            &&& more.contains_key(next)
            &&& all_given(later, more)
            &&& all_given(later, others)
            &&& more.dom().disjoint(others.dom())
        }),
{
}

/// A handle that was taken away is not given again.
pub proof fn law_handles_are_not_given_again<R>(next: u64, runtimes: Map<u64, R>, handle: u64)
    requires
        all_given(next, runtimes),
        runtimes.contains_key(handle),
    ensures
        all_given(next, runtimes.remove(handle)),
        handle != next,
{
}

/// What a tick does with the picture.
#[derive(Clone, Copy, Debug, PartialEq, Eq, Structural)]
pub enum TickMode {
    /// The picture stays with the engine.
    Advance,
    /// The picture is read into the host's buffer.
    Read,
    /// The picture goes to the attached surface.
    Present,
}

/// What a tick does; none where the host cannot take the picture.
pub open spec fn tick_mode_of(
    mode: i32,
    has_buffer: bool,
    capacity: usize,
    width: u32,
    height: u32,
    surface_attached: bool,
) -> Option<TickMode> {
    if mode == 0 {
        Some(TickMode::Advance)
    } else if mode == 1 && has_buffer && capacity >= width * height * 4 {
        Some(TickMode::Read)
    } else if mode == 2 && surface_attached {
        Some(TickMode::Present)
    } else {
        None
    }
}

/// Checks the arguments of a tick.
pub fn tick_mode(
    mode: i32,
    has_buffer: bool,
    capacity: usize,
    width: u32,
    height: u32,
    surface_attached: bool,
) -> (out: Result<TickMode, i32>)
    requires
        width * height * 4 <= usize::MAX,
    ensures
        match tick_mode_of(mode, has_buffer, capacity, width, height, surface_attached) {
            Some(m) => out == Ok::<TickMode, i32>(m),
            None => out == Err::<TickMode, i32>(STATUS_ARGUMENT),
        },
{
    assert(width * height >= 0) by (nonlinear_arith)
        requires
            width >= 0,
            height >= 0,
    ;
    if mode == 1 && (!has_buffer || capacity < width as usize * height as usize * 4) {
        return Err(STATUS_ARGUMENT);
    }
    if mode == 2 && !surface_attached {
        return Err(STATUS_ARGUMENT);
    }
    match mode {
        0 => Ok(TickMode::Advance),
        1 => Ok(TickMode::Read),
        2 => Ok(TickMode::Present),
        _ => Err(STATUS_ARGUMENT),
    }
}

/// How many bytes a tick wrote: those of the picture that was read, where the
/// buffer holds them. A tick that read none wrote none.
pub fn tick_written(mode: TickMode, pixels: usize, capacity: usize) -> (out: Result<usize, i32>)
    ensures
        out == (if mode == TickMode::Read {
            if pixels > capacity {
                Err::<usize, i32>(STATUS_ARGUMENT)
            } else {
                Ok::<usize, i32>(pixels)
            }
        } else {
            Ok::<usize, i32>(0)
        }),
{
    match mode {
        TickMode::Read => if pixels > capacity {
            Err(STATUS_ARGUMENT)
        } else {
            Ok(pixels)
        },
        _ => Ok(0),
    }
}

/// What the engine is told of an input.
#[derive(Clone, Copy, Debug, PartialEq, Eq, Structural)]
pub enum EngineInput {
    Move { x: i32, y: i32 },
    /// The pointer is there, and the button changed.
    Button { x: i32, y: i32, button: i32, pressed: bool },
    Touch { phase: i32, x: i32, y: i32 },
    Key { code: i32, pressed: bool },
    Wheel { delta: i32 },
}

/// The input of a kind.
pub open spec fn input_of(kind: i32, code: i32, x: i32, y: i32, value: i32) -> Option<EngineInput> {
    if kind == 0 {
        Some(EngineInput::Move { x, y })
    } else if kind == 1 {
        Some(EngineInput::Button { x, y, button: code, pressed: value != 0 })
    } else if kind == 2 {
        Some(EngineInput::Touch { phase: code, x, y })
    } else if kind == 3 {
        Some(EngineInput::Key { code, pressed: value != 0 })
    } else if kind == 4 {
        Some(EngineInput::Wheel { delta: value })
    } else {
        None
    }
}

/// Makes an input for the engine.
pub fn runtime_input(kind: i32, code: i32, x: i32, y: i32, value: i32) -> (out: Result<
    EngineInput,
    i32,
>)
    ensures
        match input_of(kind, code, x, y, value) {
            Some(input) => out == Ok::<EngineInput, i32>(input),
            None => out == Err::<EngineInput, i32>(STATUS_ARGUMENT),
        },
{
    match kind {
        0 => Ok(EngineInput::Move { x, y }),
        1 => Ok(EngineInput::Button { x, y, button: code, pressed: value != 0 }),
        2 => Ok(EngineInput::Touch { phase: code, x, y }),
        3 => Ok(EngineInput::Key { code, pressed: value != 0 }),
        4 => Ok(EngineInput::Wheel { delta: value }),
        _ => Err(STATUS_ARGUMENT),
    }
}

/// Whether a stage has pixels that can be counted.
pub fn stage_valid(width: u32, height: u32) -> (out: bool)
    ensures
        out == (width != 0 && height != 0 && width * height * 4 <= usize::MAX),
{
    width != 0 && height != 0 && crate::ffi::abi::expected_rgba_len(width, height).is_some()
}

/// The path of a project; none that is missing, not UTF-8 or empty.
pub fn project_path(bytes: Option<&[u8]>) -> (out: Result<String, i32>)
    ensures
        out is Ok <==> (bytes matches Some(b) && valid_utf8(b@) && decode_utf8(b@).len() > 0),
        out matches Ok(path) ==> path@ == decode_utf8(bytes->0@),
        out matches Err(status) ==> status == STATUS_ARGUMENT,
{
    match bytes {
        Some(b) => match crate::codec::text_from_utf8(b) {
            Some(path) => if path.as_str().is_empty() {
                Err(STATUS_ARGUMENT)
            } else {
                Ok(path)
            },
            None => Err(STATUS_ARGUMENT),
        },
        None => Err(STATUS_ARGUMENT),
    }
}

/// The last error.
pub struct LastError {
    pub text: String,
}

impl LastError {
    pub fn new() -> (out: Self)
        ensures
            out.text@.len() == 0,
    {
        LastError { text: String::new() }
    }

    /// Notes an error.
    pub fn fail(&mut self, message: &str) -> (out: i32)
        ensures
            final(self).text@ == message@,
            out == STATUS_ENGINE,
    {
        self.text = copy_text(message);
        STATUS_ENGINE
    }

    /// The bytes of the last error that fit, and how many there are in all.
    pub fn last_error(&self, capacity: usize) -> (out: (Vec<u8>, usize))
        ensures
            out.1 == encode_utf8(self.text@).len(),
            out.0@ == (if capacity < encode_utf8(self.text@).len() {
                encode_utf8(self.text@).take(capacity as int)
            } else {
                encode_utf8(self.text@)
            }),
    {
        let bytes = crate::strs::copy_bytes(self.text.as_str().as_bytes());
        let len: usize = bytes.len();
        let mut out = bytes;
        if capacity < len {
            out.truncate(capacity);
        }
        (out, len)
    }
}

/// A runtime gets the next handle, and the one after it comes next; the others keep
/// theirs.
pub proof fn law_runtimes_get_the_next_handle<R>(
    next: u64,
    runtimes: Map<u64, R>,
    runtime: R,
    other: u64,
)
    requires
        next < u64::MAX,
    ensures
        ({
            let (later, more) = registered(next, runtimes, runtime);
            &&& later == next + 1
            &&& more.contains_key(next) && more[next] == runtime
            &&& other != next ==> more.contains_key(other) == runtimes.contains_key(other)
                && more[other] == runtimes[other]
        }),
{
}

/// A tick leaves the picture with the engine in mode 0, reads it in mode 1 where
/// there is a buffer with four bytes for each pixel, and shows it in mode 2 where
/// there is a surface. Anything else is refused.
pub proof fn law_ticks_have_modes(
    mode: i32,
    has_buffer: bool,
    capacity: usize,
    width: u32,
    height: u32,
    attached: bool,
)
    ensures
        ({
            let out = tick_mode_of(mode, has_buffer, capacity, width, height, attached);
            &&& out == Some(TickMode::Advance) <==> mode == 0
            &&& out == Some(TickMode::Read) <==> mode == 1 && has_buffer && capacity >= 4 * width
                * height
            &&& out == Some(TickMode::Present) <==> mode == 2 && attached
        }),
{
    assert(width * height * 4 == 4 * width * height) by (nonlinear_arith);
}

/// Input says by its kind which of its numbers mean what; a button and a key are
/// pressed by any value but 0. Other kinds are none.
pub proof fn law_inputs_have_kinds(kind: i32, code: i32, x: i32, y: i32, value: i32)
    ensures
        input_of(0, code, x, y, value) == Some(EngineInput::Move { x, y }),
        input_of(1, code, x, y, value) == Some(
            EngineInput::Button { x, y, button: code, pressed: value != 0 },
        ),
        input_of(2, code, x, y, value) == Some(EngineInput::Touch { phase: code, x, y }),
        input_of(3, code, x, y, value) == Some(EngineInput::Key { code, pressed: value != 0 }),
        input_of(4, code, x, y, value) == Some(EngineInput::Wheel { delta: value }),
        input_of(kind, code, x, y, value) is Some <==> 0 <= kind <= 4,
{
}

} // verus!
