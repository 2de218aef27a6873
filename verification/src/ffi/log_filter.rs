//! Log lines on their way to the host, and the filter that may stop them.
use crate::host::events::{log_aux, push_log, routed, EventRouter, EVENT_KIND_LOG};
use vstd::prelude::*;
use vstd::utf8::*;

verus! {

/// Whether a thread runs a filter. The lines that it writes meanwhile are not
/// filtered.
pub struct LogThread {
    in_filter: bool,
}

impl LogThread {
    /// Whether the thread runs a filter.
    pub closed spec fn in_filter(self) -> bool {
        self.in_filter
    }

    /// A thread that runs none.
    pub fn new() -> (out: Self)
        ensures
            !out.in_filter(),
    {
        LogThread { in_filter: false }
    }
}

/// A filter that sees log lines before the host does. All threads share it;
/// while one of them runs it, it is out of its place.
pub struct LogFilter<F> {
    hook: Option<F>,
}

impl<F> LogFilter<F> {
    /// The filter in its place.
    pub closed spec fn hook(self) -> Option<F> {
        self.hook
    }

    /// No filter.
    pub fn new() -> (out: Self)
        ensures
            out.hook() is None,
    {
        LogFilter { hook: None }
    }

    /// Installs a filter, or takes it away.
    pub fn set_log_filter(&mut self, hook: Option<F>)
        ensures
            final(self).hook() == hook,
    {
        self.hook = hook;
    }

    /// Takes the filter out for a thread to run it. There is none to run for a
    /// thread that runs one already.
    pub fn begin(&mut self, thread: &mut LogThread) -> (out: Option<F>)
        ensures
            old(thread).in_filter() ==> out is None && *final(self) == *old(self)
                && *final(thread) == *old(thread),
            !old(thread).in_filter() ==> out == old(self).hook() && final(self).hook() is None
                && final(thread).in_filter() == (out is Some),
    {
        if thread.in_filter {
            return None;
        }
        let mut out: Option<F> = None;
        std::mem::swap(&mut out, &mut self.hook);
        if out.is_some() {
            thread.in_filter = true;
        }
        out
    }

    /// Puts a filter back after a thread ran it, unless another one was installed
    /// meanwhile.
    pub fn end(&mut self, thread: &mut LogThread, hook: F)
        ensures
            !final(thread).in_filter(),
            final(self).hook() == (match old(self).hook() {
                Some(newer) => Some(newer),
                None => Some(hook),
            }),
    {
        thread.in_filter = false;
        if self.hook.is_none() {
            self.hook = Some(hook);
        }
    }
}

impl<F: Fn(&str, &str) -> bool> LogFilter<F> {
    /// Whether the filter stops a line of a thread.
    pub fn log_suppressed_by_filter(&mut self, thread: &mut LogThread, level: &str, msg: &str) -> (
        out: bool)
        requires
            old(self).hook() matches Some(hook) ==> call_requires(hook, (level, msg)),
        ensures
            final(self).hook() == old(self).hook(),
            final(thread).in_filter() == old(thread).in_filter(),
            old(thread).in_filter() || old(self).hook() is None ==> !out,
            !old(thread).in_filter() ==> (old(self).hook() matches Some(hook) ==> call_ensures(
                hook,
                (level, msg),
                out,
            )),
    {
        match self.begin(thread) {
            None => false,
            Some(hook) => {
                let out = hook(level, msg);
                self.end(thread, hook);
                out
            },
        }
    }
}

/// Hands a line of a thread to the host, unless the filter stops it. Returns
/// whether it does.
pub fn log<F: Fn(&str, &str) -> bool>(
    filter: &mut LogFilter<F>,
    thread: &mut LogThread,
    router: &mut EventRouter,
    level: &str,
    msg: &str,
) -> (stopped: bool)
    requires
        old(filter).hook() matches Some(hook) ==> call_requires(hook, (level, msg)),
        old(router).wf(),
    ensures
        (*final(router)).wf(),
        final(filter).hook() == old(filter).hook(),
        final(thread).in_filter() == old(thread).in_filter(),
        old(thread).in_filter() || old(filter).hook() is None ==> !stopped,
        !old(thread).in_filter() ==> (old(filter).hook() matches Some(hook) ==> call_ensures(
            hook,
            (level, msg),
            stopped,
        )),
        stopped ==> *final(router) == *old(router),
        !stopped ==> final(router)@ == routed(
            old(router)@,
            EVENT_KIND_LOG,
            log_aux(level@),
            encode_utf8(msg@),
        ),
{
    let stopped = filter.log_suppressed_by_filter(thread, level, msg);
    log_unless(stopped, router, level, msg);
    stopped
}

/// Hands a line to the host, unless the filter stopped it.
pub fn log_unless(suppressed: bool, router: &mut EventRouter, level: &str, msg: &str)
    requires
        old(router).wf(),
    ensures
        (*final(router)).wf(),
        suppressed ==> *final(router) == *old(router),
        !suppressed ==> final(router)@ == routed(
            old(router)@,
            EVENT_KIND_LOG,
            log_aux(level@),
            encode_utf8(msg@),
        ),
{
    if !suppressed {
        push_log(router, level, msg);
    }
}

} // verus!
