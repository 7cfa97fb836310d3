use vstd::prelude::*;

verus! {

/// Names a sleep object that a source can signal: a signalable reference.
pub type SleeperId = u64;

/// Names one unit of follow-up work to run when a wait completes.
pub type ActionId = u64;

/// What an [`EventSource`] holds, as a mathematical value.
pub ghost struct SourceView {
    pub id: u64,
    pub ready: bool,
    pub waiter: Option<SleeperId>,
}

impl SourceView {
    /// The source after a trigger: ready, with the same registration.
    pub open spec fn triggered(self) -> SourceView {
        SourceView { ready: true, ..self }
    }

    /// The source after a waiter is bound to it: the last binding wins.
    pub open spec fn bound(self, sleeper: SleeperId) -> SourceView {
        SourceView { waiter: Some(sleeper), ..self }
    }
}

/// What an [`EventWait`] holds, as a mathematical value.
///
/// `callback` is `Some(actions)` while the wait is armed, and `None` once its
/// completion has run.
pub ghost struct WaitView {
    pub source: u64,
    pub callback: Option<Seq<ActionId>>,
}

impl WaitView {
    pub open spec fn valid(self) -> bool {
        self.callback is Some
    }

    /// The wait reports ready against the state `s` of its source.
    pub open spec fn ready_in(self, s: SourceView) -> bool {
        self.valid() && s.ready
    }

    /// The actions that completing this wait runs, in order.
    pub open spec fn actions(self) -> Seq<ActionId> {
        match self.callback {
            Some(a) => a,
            None => Seq::empty(),
        }
    }

    /// The wait with `f` appended after its own actions.
    pub open spec fn chained(self, f: ActionId) -> WaitView {
        WaitView { source: self.source, callback: Some(self.actions().push(f)) }
    }

    /// The wait once its completion has run.
    pub open spec fn completed(self) -> WaitView {
        WaitView { source: self.source, callback: None }
    }
}

/// A general-purpose wait event: once its flag is set, its waiter is told.
pub struct EventSource {
    id: u64,
    flag: bool,
    waiter: Option<SleeperId>,
}

impl View for EventSource {
    type V = SourceView;

    closed spec fn view(&self) -> SourceView {
        SourceView { id: self.id, ready: self.flag, waiter: self.waiter }
    }
}

/// A single-use binding of completion work to one source.
pub struct EventWait {
    source: u64,
    callback: Option<Vec<ActionId>>,
}

impl View for EventWait {
    type V = WaitView;

    closed spec fn view(&self) -> WaitView {
        WaitView {
            source: self.source,
            callback: match self.callback {
                Some(v) => Some(v@),
                None => None,
            },
        }
    }
}

impl EventSource {
    /// A fresh source under the identifier `id`: not ready, nobody registered.
    pub fn new(id: u64) -> (r: EventSource)
        ensures
            r@ == (SourceView { id, ready: false, waiter: None }),
    {
        EventSource { id, flag: false, waiter: None }
    }

    pub fn id(&self) -> (r: u64)
        ensures
            r == self@.id,
    {
        self.id
    }

    /// The sleep object currently registered to be told of a trigger.
    pub fn waiter(&self) -> (r: Option<SleeperId>)
        ensures
            r == self@.waiter,
    {
        self.waiter
    }

    /// A wait on this source that runs `f` on completion. Registers nothing.
    pub fn wait_on(&self, f: ActionId) -> (r: EventWait)
        ensures
            r@ == (WaitView { source: self@.id, callback: Some(seq![f]) }),
    {
        let mut actions: Vec<ActionId> = Vec::new();
        actions.push(f);
        proof {
            assert(actions@ =~= seq![f]);
        }
        EventWait { source: self.id, callback: Some(actions) }
    }

    /// Sets the flag. Returns the sleep object to signal, when one is
    /// registered; a repeated trigger leaves the flag set and signals again.
    pub fn trigger(&mut self) -> (r: Option<SleeperId>)
        ensures
            final(self)@ == old(self)@.triggered(),
            r == old(self)@.waiter,
    {
        self.flag = true;
        self.waiter
    }
}

impl EventWait {
    /// The identifier of the source this wait is bound to.
    pub fn source(&self) -> (r: u64)
        ensures
            r == self@.source,
    {
        self.source
    }

    /// True while the completion has not run.
    pub fn is_valid(&self) -> (r: bool)
        ensures
            r == self@.valid(),
    {
        self.callback.is_some()
    }

    /// True when the wait is valid and its source `src` has been triggered.
    pub fn is_ready(&self, src: &EventSource) -> (r: bool)
        requires
            src@.id == self@.source,
        ensures
            r == self@.ready_in(src@),
    {
        self.is_valid() && src.flag
    }

    /// Registers `sleeper` as the one to tell when `src` triggers, displacing
    /// any earlier registration.
    pub fn bind_signal(&self, src: &mut EventSource, sleeper: SleeperId)
        requires
            old(src)@.id == self@.source,
        ensures
            final(src)@ == old(src)@.bound(sleeper),
    {
        src.waiter = Some(sleeper);
    }

    /// Takes the completion work out of the wait and returns its actions, in
    /// the order they run. The wait is then spent.
    pub fn run_completion(&mut self) -> (r: Vec<ActionId>)
        requires
            old(self)@.valid(),
        ensures
            r@ == old(self)@.actions(),
            final(self)@ == old(self)@.completed(),
            !final(self)@.valid(),
    {
        let cb = self.callback.take();
        match cb {
            Some(actions) => actions,
            None => Vec::new(),
        }
    }

    /// A wait on the same source whose completion runs this wait's actions,
    /// then `f`.
    pub fn chain(self, f: ActionId) -> (r: EventWait)
        requires
            self@.valid(),
        ensures
            r@ == self@.chained(f),
    {
        let EventWait { source, callback } = self;
        let mut actions = match callback {
            Some(a) => a,
            None => Vec::new(),
        };
        actions.push(f);
        EventWait { source, callback: Some(actions) }
    }
}

/// Once a source is triggered, every armed wait on it reports ready, whether it
/// was made before or after the trigger.
pub proof fn trigger_makes_waits_ready(s: EventSource, w: EventWait)
    requires
        w@.source == s@.id,
        w@.valid(),
    ensures
        w@.ready_in(s@.triggered()),
{
}

/// Triggering twice leaves the source as one trigger does: ready, and still
/// naming the same waiter to signal. A trigger touches no wait, so no
/// completion runs because of it.
pub proof fn trigger_is_idempotent(s: EventSource, w: EventWait)
    requires
        w@.source == s@.id,
    ensures
        s@.triggered().triggered() == s@.triggered(),
        s@.triggered().ready,
        s@.triggered().waiter == s@.waiter,
        w@.valid() ==> w@.ready_in(s@.triggered().triggered()),
{
}

/// Completing a chained wait runs the wait's own actions, in their order, and
/// then the added action, once.
pub proof fn chain_runs_own_actions_first(w: EventWait, f: ActionId)
    requires
        w@.valid(),
    ensures
        w@.chained(f).actions() == w@.actions().push(f),
        w@.chained(f).actions().len() == w@.actions().len() + 1,
        forall|i: int|
            0 <= i < w@.actions().len() ==> w@.chained(f).actions()[i] == w@.actions()[i],
        w@.chained(f).actions().last() == f,
        w@.chained(f).source == w@.source,
{
}

/// A trigger that races with a bind loses no wakeup. If the trigger comes
/// first, the wait is seen ready when readiness is checked after binding, so
/// the binder does not block. If the bind comes first, the trigger names the
/// binder's sleep object to signal.
pub proof fn racing_trigger_is_never_lost(s: EventSource, w: EventWait, sleeper: SleeperId)
    requires
        w@.source == s@.id,
        w@.valid(),
    ensures
        w@.ready_in(s@.triggered().bound(sleeper)),
        s@.bound(sleeper).triggered().waiter == Some(sleeper),
        s@.bound(sleeper).triggered().ready,
{
}

} // verus!
