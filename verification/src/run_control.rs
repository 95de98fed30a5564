//! The registry of runs in flight: which generations are running for which
//! chat, how they are told to stop, and which inbound messages were
//! already stopped.

use crate::chars::str_eq;
use std::sync::atomic::AtomicBool;
use std::sync::atomic::Ordering;
use std::sync::Arc;
use tokio::sync::Notify;
use vstd::prelude::*;
use vstd::string::*;

verus! {

/// What is answered in place of a reply when a run was stopped.
pub const STOPPED_TEXT: &'static str = "Current run aborted.";

/// `tokio::sync::Notify`, a condition on which tasks wait to be woken.
#[verifier::external_type_specification]
#[verifier::external_body]
pub struct ExNotify(Notify);

/// `Notify::new` makes a condition with no waiter and no stored wake-up.
/// Nothing is claimed of the value.
pub assume_specification[ Notify::new ]() -> Notify
;

/// `Notify::notify_waiters` wakes every task that waits on the condition
/// at this moment; it returns nothing and stores no wake-up. Nothing is
/// claimed of its effect.
pub assume_specification[ Notify::notify_waiters ](notify: &Notify)
;

/// `Arc::clone`: another handle to the value that `a` points to. The
/// claim is that both handles stand for the same value.
#[verifier::external_body]
fn share<T>(a: &Arc<T>) -> (r: Arc<T>)
    ensures
        r == *a,
{
    Arc::clone(a)
}

/// A run in flight.
#[derive(Debug)]
pub struct ActiveRun {
    channel: String,
    chat_id: i64,
    run_id: u64,
    source_message_id: Option<String>,
    cancelled: Arc<AtomicBool>,
    notify: Arc<Notify>,
}

/// View of an [`ActiveRun`]: under which chat it runs, its number, and the
/// inbound message that caused it.
pub struct RunView {
    pub channel: Seq<char>,
    pub chat_id: i64,
    pub run_id: u64,
    pub source_message_id: Option<Seq<char>>,
}

impl View for ActiveRun {
    type V = RunView;

    closed spec fn view(&self) -> RunView {
        RunView {
            channel: self.channel@,
            chat_id: self.chat_id,
            run_id: self.run_id,
            source_message_id: match self.source_message_id {
                Some(s) => Some(s@),
                None => None,
            },
        }
    }
}

/// An inbound message whose run was stopped.
#[derive(Debug)]
pub struct AbortedId {
    channel: String,
    chat_id: i64,
    message_id: String,
}

/// View of an [`AbortedId`].
pub struct AbortedView {
    pub channel: Seq<char>,
    pub chat_id: i64,
    pub message_id: Seq<char>,
}

impl View for AbortedId {
    type V = AbortedView;

    closed spec fn view(&self) -> AbortedView {
        AbortedView { channel: self.channel@, chat_id: self.chat_id, message_id: self.message_id@ }
    }
}

/// The registry of runs in flight.
#[derive(Debug)]
pub struct RunRegistry {
    next_run_id: u64,
    max_aborted: usize,
    active: Vec<ActiveRun>,
    aborted: Vec<AbortedId>,
}

/// View of a [`RunRegistry`]: the runs in flight in the order in which
/// they were registered, and the stopped inbound messages from the
/// oldest to the newest.
pub struct RegistryView {
    pub next_run_id: u64,
    pub max_aborted: nat,
    pub active: Seq<RunView>,
    pub aborted: Seq<AbortedView>,
}

impl View for RunRegistry {
    type V = RegistryView;

    closed spec fn view(&self) -> RegistryView {
        RegistryView {
            next_run_id: self.next_run_id,
            max_aborted: self.max_aborted as nat,
            active: Seq::new(self.active@.len(), |i: int| self.active@[i]@),
            aborted: Seq::new(self.aborted@.len(), |i: int| self.aborted@[i]@),
        }
    }
}

/// The run belongs to the chat `chat_id` of `channel`.
pub open spec fn under_key(r: RunView, channel: Seq<char>, chat_id: i64) -> bool {
    r.channel == channel && r.chat_id == chat_id
}

/// The runs of the chat, in the order in which they were registered.
pub open spec fn runs_under(active: Seq<RunView>, channel: Seq<char>, chat_id: i64) -> Seq<RunView>
    decreases active.len(),
{
    if active.len() == 0 {
        Seq::empty()
    } else {
        let prev = runs_under(active.drop_last(), channel, chat_id);
        if under_key(active.last(), channel, chat_id) {
            prev.push(active.last())
        } else {
            prev
        }
    }
}

/// The runs of all other chats.
pub open spec fn runs_elsewhere(active: Seq<RunView>, channel: Seq<char>, chat_id: i64) -> Seq<
    RunView,
>
    decreases active.len(),
{
    if active.len() == 0 {
        Seq::empty()
    } else {
        let prev = runs_elsewhere(active.drop_last(), channel, chat_id);
        if under_key(active.last(), channel, chat_id) {
            prev
        } else {
            prev.push(active.last())
        }
    }
}

/// The runs without the run `run_id` of the chat.
pub open spec fn without_run(
    active: Seq<RunView>,
    channel: Seq<char>,
    chat_id: i64,
    run_id: u64,
) -> Seq<RunView>
    decreases active.len(),
{
    if active.len() == 0 {
        Seq::empty()
    } else {
        let prev = without_run(active.drop_last(), channel, chat_id, run_id);
        if under_key(active.last(), channel, chat_id) && active.last().run_id == run_id {
            prev
        } else {
            prev.push(active.last())
        }
    }
}

/// At most the `max` newest entries.
pub open spec fn newest(aborted: Seq<AbortedView>, max: nat) -> Seq<AbortedView> {
    if aborted.len() > max {
        aborted.skip(aborted.len() - max)
    } else {
        aborted
    }
}

/// The record with the inbound message of a stopped run added, unless the
/// run has none or it is recorded already; the oldest entries give way
/// once there are more than `max`.
pub open spec fn with_aborted(aborted: Seq<AbortedView>, run: RunView, max: nat) -> Seq<
    AbortedView,
> {
    match run.source_message_id {
        Some(id) => {
            let entry = AbortedView { channel: run.channel, chat_id: run.chat_id, message_id: id };
            if aborted.contains(entry) {
                aborted
            } else {
                newest(aborted.push(entry), max)
            }
        },
        None => aborted,
    }
}

/// The record after the runs `stopped` were stopped, one after the other.
pub open spec fn recorded(aborted: Seq<AbortedView>, stopped: Seq<RunView>, max: nat) -> Seq<
    AbortedView,
>
    decreases stopped.len(),
{
    if stopped.len() == 0 {
        aborted
    } else {
        with_aborted(recorded(aborted, stopped.drop_last(), max), stopped.last(), max)
    }
}

/// Recording a stopped run brings no message into the record twice.
pub proof fn lemma_with_aborted_keeps_unique(aborted: Seq<AbortedView>, run: RunView, max: nat)
    requires
        aborted.no_duplicates(),
    ensures
        with_aborted(aborted, run, max).no_duplicates(),
        aborted.len() <= max ==> with_aborted(aborted, run, max).len() <= max,
{
    match run.source_message_id {
        Some(id) => {
            let entry = AbortedView { channel: run.channel, chat_id: run.chat_id, message_id: id };
            if !aborted.contains(entry) {
                let grown = aborted.push(entry);
                assert forall|i: int, j: int|
                    0 <= i < grown.len() && 0 <= j < grown.len() && i != j implies grown[i]
                    != grown[j] by {
                    if i == aborted.len() {
                        assert(aborted[j] == grown[j]);
                    } else if j == aborted.len() {
                        assert(aborted[i] == grown[i]);
                    }
                }
                let kept = newest(grown, max);
                if grown.len() > max {
                    let k = grown.len() - max;
                    assert forall|i: int, j: int|
                        0 <= i < kept.len() && 0 <= j < kept.len() && i != j implies kept[i]
                        != kept[j] by {
                        assert(kept[i] == grown[i + k]);
                        assert(kept[j] == grown[j + k]);
                    }
                }
            }
        },
        None => {},
    }
}

/// The number that follows `id`; after the largest comes 0.
pub open spec fn following(id: u64) -> u64 {
    if id == u64::MAX {
        0
    } else {
        (id + 1) as u64
    }
}

impl RunRegistry {
    /// What holds of every registry: the record of stopped messages is
    /// within its bound and holds no message twice.
    pub open spec fn well_formed(&self) -> bool {
        self@.aborted.len() <= self@.max_aborted && self@.aborted.no_duplicates()
    }

    /// An empty registry whose first run gets the number 1 and which
    /// remembers at most `max_aborted` stopped inbound messages.
    pub fn new(max_aborted: usize) -> (r: RunRegistry)
        ensures
            r@ == (RegistryView {
                next_run_id: 1,
                max_aborted: max_aborted as nat,
                active: Seq::empty(),
                aborted: Seq::empty(),
            }),
            r.well_formed(),
    {
        let r = RunRegistry {
            next_run_id: 1,
            max_aborted,
            active: Vec::new(),
            aborted: Vec::new(),
        };
        assert(r@.active =~= Seq::<RunView>::empty());
        assert(r@.aborted =~= Seq::<AbortedView>::empty());
        r
    }

    /// How many runs are in flight.
    pub fn active_count(&self) -> (r: usize)
        ensures
            r == self@.active.len(),
    {
        self.active.len()
    }

    fn is_recorded(&self, channel: &str, chat_id: i64, message_id: &str) -> (r: bool)
        ensures
            r == self@.aborted.contains(
                AbortedView { channel: channel@, chat_id, message_id: message_id@ },
            ),
    {
        let ghost wanted = AbortedView { channel: channel@, chat_id, message_id: message_id@ };
        let mut i: usize = 0;
        while i < self.aborted.len()
            invariant
                i <= self.aborted.len(),
                wanted == (AbortedView { channel: channel@, chat_id, message_id: message_id@ }),
                forall|k: int| 0 <= k < i ==> self@.aborted[k] != wanted,
            decreases self.aborted.len() - i,
        {
            let e = &self.aborted[i];
            if e.chat_id == chat_id && str_eq(e.channel.as_str(), channel) && str_eq(
                e.message_id.as_str(),
                message_id,
            ) {
                assert(self@.aborted[i as int] == wanted);
                return true;
            }
            i += 1;
        }
        false
    }

    fn record(&mut self, channel: &str, chat_id: i64, source: &Option<String>)
        ensures
            final(self)@ == (RegistryView {
                aborted: with_aborted(
                    old(self)@.aborted,
                    RunView {
                        channel: channel@,
                        chat_id,
                        run_id: 0,
                        source_message_id: match source {
                            Some(s) => Some(s@),
                            None => None,
                        },
                    },
                    old(self)@.max_aborted,
                ),
                ..old(self)@
            }),
            old(self).well_formed() ==> final(self).well_formed(),
    {
        proof {
            if self.well_formed() {
                lemma_with_aborted_keeps_unique(
                    self@.aborted,
                    RunView {
                        channel: channel@,
                        chat_id,
                        run_id: 0,
                        source_message_id: match source {
                            Some(s) => Some(s@),
                            None => None,
                        },
                    },
                    self@.max_aborted,
                );
            }
        }
        match source {
            Some(id) => {
                if !self.is_recorded(channel, chat_id, id.as_str()) {
                    let ghost before = self@.aborted;
                    let entry = AbortedId {
                        channel: channel.to_owned(),
                        chat_id,
                        message_id: id.clone(),
                    };
                    self.aborted.push(entry);
                    let ghost grown = self@.aborted;
                    assert(grown =~= before.push(entry@));
                    assert(grown.skip(0) =~= grown);
                    while self.aborted.len() > self.max_aborted
                        invariant
                            self.aborted.len() <= grown.len(),
                            self.aborted.len() >= self.max_aborted || self.aborted.len()
                                == grown.len(),
                            self@.aborted == grown.skip(grown.len() - self.aborted.len()),
                            self@.active == old(self)@.active,
                            self@.next_run_id == old(self)@.next_run_id,
                            self@.max_aborted == old(self)@.max_aborted,
                        decreases self.aborted.len(),
                    {
                        let ghost now = self@.aborted;
                        self.aborted.remove(0);
                        assert(self@.aborted =~= now.skip(1));
                        assert(now.skip(1) =~= grown.skip(grown.len() - self.aborted.len()));
                    }
                    assert(self@.active =~= old(self)@.active);
                }
            },
            None => {},
        }
    }
}

/// Sets the run's flag and wakes whoever waits for it.
fn tell_to_stop(run: &ActiveRun) {
    run.cancelled.store(true, Ordering::SeqCst);
    run.notify.notify_waiters();
}

/// Registers a run for the chat `chat_id` of `channel`, caused by the
/// inbound message `source_message_id`. Returns the run's number, the flag
/// that tells it to stop, and the condition on which it can wait for that.
pub fn register_run(
    registry: &mut RunRegistry,
    channel: &str,
    chat_id: i64,
    source_message_id: Option<String>,
) -> (r: (u64, Arc<AtomicBool>, Arc<Notify>))
    ensures
        r.0 == old(registry)@.next_run_id,
        final(registry)@ == (RegistryView {
            next_run_id: following(old(registry)@.next_run_id),
            active: old(registry)@.active.push(
                RunView {
                    channel: channel@,
                    chat_id,
                    run_id: r.0,
                    source_message_id: match source_message_id {
                        Some(s) => Some(s@),
                        None => None,
                    },
                },
            ),
            ..old(registry)@
        }),
{
    let run_id = registry.next_run_id;
    registry.next_run_id = if run_id == u64::MAX {
        0
    } else {
        run_id + 1
    };
    let cancelled = Arc::new(AtomicBool::new(false));
    let notify = Arc::new(Notify::new());
    let run = ActiveRun {
        channel: channel.to_owned(),
        chat_id,
        run_id,
        source_message_id,
        cancelled: share(&cancelled),
        notify: share(&notify),
    };
    let ghost before = registry@.active;
    registry.active.push(run);
    assert(registry@.active =~= before.push(run@));
    assert(registry@.aborted =~= old(registry)@.aborted);
    (run_id, cancelled, notify)
}

/// Takes the run `run_id` of the chat out of the registry; every other run
/// stays.
pub fn unregister_run(registry: &mut RunRegistry, channel: &str, chat_id: i64, run_id: u64)
    ensures
        final(registry)@ == (RegistryView {
            active: without_run(old(registry)@.active, channel@, chat_id, run_id),
            ..old(registry)@
        }),
{
    let ghost start = registry@.active;
    let ghost mut done: int = 0;
    let mut i: usize = 0;
    while i < registry.active.len()
        invariant
            0 <= done <= start.len(),
            i <= registry.active.len(),
            registry.active.len() - i == start.len() - done,
            registry@.active.take(i as int) == without_run(
                start.take(done),
                channel@,
                chat_id,
                run_id,
            ),
            registry@.active.skip(i as int) == start.skip(done),
            registry@.next_run_id == old(registry)@.next_run_id,
            registry@.max_aborted == old(registry)@.max_aborted,
            registry@.aborted == old(registry)@.aborted,
        decreases registry.active.len() - i,
    {
        let ghost now = registry@.active;
        proof {
            assert(start.take(done + 1).drop_last() =~= start.take(done));
            assert(start.take(done + 1).last() == start[done]);
            assert(now.skip(i as int)[0] == start.skip(done)[0]);
        }
        let run = &registry.active[i];
        if run.run_id == run_id && run.chat_id == chat_id && str_eq(run.channel.as_str(), channel) {
            registry.active.remove(i);
            proof {
                assert(registry@.active.take(i as int) =~= now.take(i as int));
                assert(registry@.active.skip(i as int) =~= now.skip(i as int).skip(1));
                assert(start.skip(done).skip(1) =~= start.skip(done + 1));
                assert(registry@.aborted =~= old(registry)@.aborted);
                done = done + 1;
            }
        } else {
            proof {
                assert(now.take(i + 1) =~= now.take(i as int).push(now[i as int]));
                assert(now.skip(i as int).skip(1) =~= now.skip(i + 1));
                assert(start.skip(done).skip(1) =~= start.skip(done + 1));
                done = done + 1;
            }
            i += 1;
        }
    }
    proof {
        assert(start.take(done) =~= start);
        assert(registry@.active.take(i as int) =~= registry@.active);
    }
}

/// Stops every run of the chat: takes them out of the registry, sets each
/// run's flag, wakes whoever waits for it, and records the inbound
/// messages that caused them. Returns how many runs were stopped.
pub fn abort_runs(registry: &mut RunRegistry, channel: &str, chat_id: i64) -> (count: usize)
    ensures
        count == runs_under(old(registry)@.active, channel@, chat_id).len(),
        final(registry)@ == (RegistryView {
            active: runs_elsewhere(old(registry)@.active, channel@, chat_id),
            aborted: recorded(
                old(registry)@.aborted,
                runs_under(old(registry)@.active, channel@, chat_id),
                old(registry)@.max_aborted,
            ),
            ..old(registry)@
        }),
        old(registry).well_formed() ==> final(registry).well_formed(),
{
    let ghost start = registry@.active;
    let ghost mut done: int = 0;
    assert(start.len() == registry.active.len());
    let mut count: usize = 0;
    let mut i: usize = 0;
    while i < registry.active.len()
        invariant
            0 <= done <= start.len(),
            i <= registry.active.len(),
            registry.active.len() - i == start.len() - done,
            count == runs_under(start.take(done), channel@, chat_id).len(),
            count <= done,
            start.len() <= usize::MAX,
            registry@.active.take(i as int) == runs_elsewhere(start.take(done), channel@, chat_id),
            registry@.active.skip(i as int) == start.skip(done),
            registry@.next_run_id == old(registry)@.next_run_id,
            registry@.max_aborted == old(registry)@.max_aborted,
            registry@.aborted == recorded(
                old(registry)@.aborted,
                runs_under(start.take(done), channel@, chat_id),
                old(registry)@.max_aborted,
            ),
            old(registry).well_formed() ==> registry.well_formed(),
        decreases registry.active.len() - i,
    {
        let ghost now = registry@.active;
        proof {
            assert(start.take(done + 1).drop_last() =~= start.take(done));
            assert(start.take(done + 1).last() == start[done]);
            assert(now.skip(i as int)[0] == start.skip(done)[0]);
        }
        let matches = registry.active[i].chat_id == chat_id && str_eq(
            registry.active[i].channel.as_str(),
            channel,
        );
        if matches {
            let run = registry.active.remove(i);
            proof {
                assert(registry@.active.take(i as int) =~= now.take(i as int));
                assert(registry@.active.skip(i as int) =~= now.skip(i as int).skip(1));
                assert(start.skip(done).skip(1) =~= start.skip(done + 1));
                assert(registry@.aborted =~= recorded(
                    old(registry)@.aborted,
                    runs_under(start.take(done), channel@, chat_id),
                    old(registry)@.max_aborted,
                ));
            }
            tell_to_stop(&run);
            let ghost kept = registry@.active;
            registry.record(channel, chat_id, &run.source_message_id);
            proof {
                assert(runs_under(start.take(done + 1), channel@, chat_id).drop_last()
                    =~= runs_under(start.take(done), channel@, chat_id));
                done = done + 1;
            }
            count += 1;
        } else {
            proof {
                assert(now.take(i + 1) =~= now.take(i as int).push(now[i as int]));
                assert(now.skip(i as int).skip(1) =~= now.skip(i + 1));
                assert(start.skip(done).skip(1) =~= start.skip(done + 1));
                done = done + 1;
            }
            i += 1;
        }
    }
    proof {
        assert(start.take(done) =~= start);
        assert(registry@.active.take(i as int) =~= registry@.active);
    }
    count
}

/// Whether the run that holds `flag` was told to stop. To be asked at
/// every point at which a run can stop without leaving anything half done.
pub fn is_cancelled(flag: &AtomicBool) -> bool {
    flag.load(Ordering::SeqCst)
}

/// Whether the inbound message `message_id` of the chat caused a run that
/// was stopped, as far as the registry remembers.
pub fn is_aborted_source_message(
    registry: &RunRegistry,
    channel: &str,
    chat_id: i64,
    message_id: &str,
) -> (r: bool)
    ensures
        r == registry@.aborted.contains(
            AbortedView { channel: channel@, chat_id, message_id: message_id@ },
        ),
{
    registry.is_recorded(channel, chat_id, message_id)
}

/// After the runs of a chat were stopped none of them is left, and the
/// runs of every other chat are as before.
pub proof fn lemma_abort_removes_exactly(
    active: Seq<RunView>,
    channel: Seq<char>,
    chat_id: i64,
    other_channel: Seq<char>,
    other_chat_id: i64,
)
    ensures
        runs_under(runs_elsewhere(active, channel, chat_id), channel, chat_id).len() == 0,
        (other_channel != channel || other_chat_id != chat_id) ==> runs_under(
            runs_elsewhere(active, channel, chat_id),
            other_channel,
            other_chat_id,
        ) == runs_under(active, other_channel, other_chat_id),
    decreases active.len(),
{
    if active.len() > 0 {
        lemma_abort_removes_exactly(
            active.drop_last(),
            channel,
            chat_id,
            other_channel,
            other_chat_id,
        );
        let prev = runs_elsewhere(active.drop_last(), channel, chat_id);
        if !under_key(active.last(), channel, chat_id) {
            assert(prev.push(active.last()).drop_last() =~= prev);
        }
    }
}

/// Recording stopped runs keeps the record within its bound, adds at most
/// one entry for each run, and, while the bound is not reached, forgets
/// nothing.
pub proof fn lemma_recorded_keeps(aborted: Seq<AbortedView>, stopped: Seq<RunView>, max: nat)
    requires
        aborted.len() <= max,
    ensures
        recorded(aborted, stopped, max).len() <= max,
        recorded(aborted, stopped, max).len() <= aborted.len() + stopped.len(),
        aborted.len() + stopped.len() <= max ==> forall|e: AbortedView|
            aborted.contains(e) ==> #[trigger] recorded(aborted, stopped, max).contains(e),
    decreases stopped.len(),
{
    if stopped.len() > 0 {
        lemma_recorded_keeps(aborted, stopped.drop_last(), max);
        let prev = recorded(aborted, stopped.drop_last(), max);
        let next = recorded(aborted, stopped, max);
        if aborted.len() + stopped.len() <= max {
            assert forall|e: AbortedView| aborted.contains(e) implies #[trigger] next.contains(
                e,
            ) by {
                assert(prev.contains(e));
                let i = choose|i: int| 0 <= i < prev.len() && prev[i] == e;
                if next != prev {
                    assert(next[i] == e);
                }
            }
        }
    }
}

/// While the bound of the record is not reached, the inbound message of
/// every stopped run is found in it afterwards.
pub proof fn lemma_stopped_runs_are_recorded(
    aborted: Seq<AbortedView>,
    stopped: Seq<RunView>,
    max: nat,
    i: int,
)
    requires
        aborted.len() + stopped.len() <= max,
        0 <= i < stopped.len(),
        stopped[i].source_message_id is Some,
    ensures
        recorded(aborted, stopped, max).contains(
            AbortedView {
                channel: stopped[i].channel,
                chat_id: stopped[i].chat_id,
                message_id: stopped[i].source_message_id->Some_0,
            },
        ),
    decreases stopped.len(),
{
    let wanted = AbortedView {
        channel: stopped[i].channel,
        chat_id: stopped[i].chat_id,
        message_id: stopped[i].source_message_id->Some_0,
    };
    let prev = recorded(aborted, stopped.drop_last(), max);
    let next = recorded(aborted, stopped, max);
    lemma_recorded_keeps(aborted, stopped.drop_last(), max);
    if i == stopped.len() - 1 {
        if !prev.contains(wanted) {
            assert(prev.push(wanted)[prev.len() as int] == wanted);
        }
    } else {
        lemma_stopped_runs_are_recorded(aborted, stopped.drop_last(), max, i);
        let k = choose|k: int| 0 <= k < prev.len() && prev[k] == wanted;
        if next != prev {
            assert(next[k] == wanted);
        }
    }
}

/// Taking a run out of the registry takes out no run of another number
/// and no run of another chat.
pub proof fn lemma_unregister_keeps_others(
    active: Seq<RunView>,
    channel: Seq<char>,
    chat_id: i64,
    run_id: u64,
    i: int,
)
    requires
        0 <= i < active.len(),
        !(under_key(active[i], channel, chat_id) && active[i].run_id == run_id),
    ensures
        without_run(active, channel, chat_id, run_id).contains(active[i]),
        forall|r: RunView|
            #[trigger] without_run(active, channel, chat_id, run_id).contains(r) ==> !(under_key(
                r,
                channel,
                chat_id,
            ) && r.run_id == run_id),
    decreases active.len(),
{
    let prev = without_run(active.drop_last(), channel, chat_id, run_id);
    let next = without_run(active, channel, chat_id, run_id);
    lemma_without_run_holds_none(active, channel, chat_id, run_id);
    if i == active.len() - 1 {
        assert(next[next.len() - 1] == active[i]);
    } else {
        lemma_unregister_keeps_others(active.drop_last(), channel, chat_id, run_id, i);
        let k = choose|k: int| 0 <= k < prev.len() && prev[k] == active.drop_last()[i];
        assert(next[k] == active[i]);
    }
}

proof fn lemma_without_run_holds_none(
    active: Seq<RunView>,
    channel: Seq<char>,
    chat_id: i64,
    run_id: u64,
)
    ensures
        forall|r: RunView|
            #[trigger] without_run(active, channel, chat_id, run_id).contains(r) ==> !(under_key(
                r,
                channel,
                chat_id,
            ) && r.run_id == run_id),
    decreases active.len(),
{
    if active.len() > 0 {
        lemma_without_run_holds_none(active.drop_last(), channel, chat_id, run_id);
        let prev = without_run(active.drop_last(), channel, chat_id, run_id);
        let next = without_run(active, channel, chat_id, run_id);
        assert forall|r: RunView| #[trigger] next.contains(r) implies !(under_key(
            r,
            channel,
            chat_id,
        ) && r.run_id == run_id) by {
            let k = choose|k: int| 0 <= k < next.len() && next[k] == r;
            if k < prev.len() {
                assert(prev[k] == r);
                assert(prev.contains(r));
            }
        }
    }
}

} // verus!
