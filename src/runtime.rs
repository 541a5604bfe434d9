//! The runtime's bookkeeping: the reactor's subscriptions and the tasks
//! waiting on them, the FIFO ready list, and the decisions of the
//! `block_on` driver.

use vstd::prelude::*;
use std::collections::VecDeque;

verus! {

/// A registered pollable and the tasks waiting on it.
#[derive(Clone, Debug)]
pub struct Subscription {
    pub key: u64,
    pub waiters: Vec<u64>,
}

/// The reactor: subscriptions by key, and the list of tasks ready to run.
#[derive(Debug)]
pub struct Reactor {
    next_key: u64,
    subscriptions: Vec<Subscription>,
    ready: VecDeque<u64>,
}

pub open spec fn sub_view(s: Subscription) -> (u64, Seq<u64>) {
    (s.key, s.waiters@)
}

/// The tasks woken when the subscription `key` is ready: its waiters are
/// appended to the ready list, in the order they registered, and cleared.
pub open spec fn wake_spec(subs: Seq<(u64, Seq<u64>)>, ready: Seq<u64>, key: u64) -> (Seq<(u64, Seq<u64>)>, Seq<u64>) {
    let i = index_of(subs, key);
    if i >= 0 {
        (subs.update(i, (key, Seq::empty())), ready + subs[i].1)
    } else {
        (subs, ready)
    }
}

/// The state after the subscriptions `keys` report ready, in that order.
pub open spec fn wake_all_spec(subs: Seq<(u64, Seq<u64>)>, ready: Seq<u64>, keys: Seq<u64>) -> (Seq<(u64, Seq<u64>)>, Seq<u64>)
    decreases keys.len(),
{
    if keys.len() == 0 {
        (subs, ready)
    } else {
        let (s, r) = wake_all_spec(subs, ready, keys.drop_last());
        wake_spec(s, r, keys.last())
    }
}

/// The position of the subscription `key`, or -1.
pub open spec fn index_of(subs: Seq<(u64, Seq<u64>)>, key: u64) -> int
    decreases subs.len(),
{
    if subs.len() == 0 {
        -1
    } else if subs.last().0 == key {
        subs.len() - 1
    } else {
        index_of(subs.drop_last(), key)
    }
}

proof fn lemma_index_of(subs: Seq<(u64, Seq<u64>)>, key: u64)
    ensures
        -1 <= index_of(subs, key) < subs.len(),
        index_of(subs, key) >= 0 ==> subs[index_of(subs, key)].0 == key,
        index_of(subs, key) < 0 ==> forall|k: int| 0 <= k < subs.len() ==> (#[trigger] subs[k]).0 != key,
    decreases subs.len(),
{
    if subs.len() > 0 {
        lemma_index_of(subs.drop_last(), key);
        assert forall|k: int| 0 <= k < subs.len() - 1 implies #[trigger] subs[k] == subs.drop_last()[k] by {}
    }
}

proof fn lemma_index_of_unique(subs: Seq<(u64, Seq<u64>)>, key: u64, i: int)
    requires
        0 <= i < subs.len(),
        subs[i].0 == key,
        forall|a: int, b: int| 0 <= a < b < subs.len() ==> (#[trigger] subs[a]).0 < (#[trigger] subs[b]).0,
    ensures
        index_of(subs, key) == i,
    decreases subs.len(),
{
    if i < subs.len() - 1 {
        assert(subs[i].0 < subs[subs.len() - 1].0);
        let d = subs.drop_last();
        assert forall|a: int, b: int| 0 <= a < b < d.len() implies (#[trigger] d[a]).0 < (#[trigger] d[b]).0 by {
            assert(d[a] == subs[a] && d[b] == subs[b]);
        }
        lemma_index_of_unique(d, key, i);
    }
}

/// The keys of the subscriptions some task waits on, in order.
pub open spec fn pending_spec(subs: Seq<(u64, Seq<u64>)>) -> Seq<u64>
    decreases subs.len(),
{
    if subs.len() == 0 {
        seq![]
    } else if subs.last().1.len() > 0 {
        pending_spec(subs.drop_last()).push(subs.last().0)
    } else {
        pending_spec(subs.drop_last())
    }
}

/// Which step the `block_on` driver takes next.
#[derive(Clone, Copy, Debug, PartialEq, Eq, Structural)]
pub enum DriverAction {
    /// Execute the task with this id.
    Run(u64),
    /// No task is ready but some wait on pollables: block on the host
    /// until one is ready.
    BlockOnPollables,
    /// Nothing is ready and nothing waits: the root task has completed.
    Finish,
}

impl Reactor {
    pub closed spec fn subs(&self) -> Seq<(u64, Seq<u64>)> {
        self.subscriptions@.map_values(|s: Subscription| sub_view(s))
    }

    pub closed spec fn ready_list(&self) -> Seq<u64> {
        self.ready@
    }

    pub closed spec fn next(&self) -> u64 {
        self.next_key
    }

    /// Keys are below the next key and strictly increasing, hence unique.
    pub open spec fn wf(&self) -> bool {
        &&& forall|k: int| 0 <= k < self.subs().len() ==> (#[trigger] self.subs()[k]).0 < self.next()
        &&& forall|a: int, b: int|
            0 <= a < b < self.subs().len() ==> (#[trigger] self.subs()[a]).0 < (
            #[trigger] self.subs()[b]).0
    }

    /// Whether some task waits on a pollable.
    pub open spec fn has_pending(&self) -> bool {
        exists|k: int| 0 <= k < self.subs().len() && (#[trigger] self.subs()[k]).1.len() > 0
    }

    pub fn new() -> (r: Reactor)
        ensures
            r.wf(),
            r.subs() == Seq::<(u64, Seq<u64>)>::empty(),
            r.ready_list() == Seq::<u64>::empty(),
            r.next() == 0,
    {
        let r = Reactor { next_key: 0, subscriptions: Vec::new(), ready: VecDeque::new() };
        assert(r.subs() =~= Seq::<(u64, Seq<u64>)>::empty());
        r
    }

    /// Registers a new pollable, under a key no live subscription has.
    pub fn schedule(&mut self) -> (key: u64)
        requires
            old(self).wf(),
            old(self).next() < u64::MAX,
        ensures
            final(self).wf(),
            key == old(self).next(),
            final(self).next() == key + 1,
            forall|k: int| 0 <= k < old(self).subs().len() ==> (#[trigger] old(self).subs()[k]).0 != key,
            final(self).subs() == old(self).subs().push((key, Seq::<u64>::empty())),
            final(self).ready_list() == old(self).ready_list(),
    {
        let key = self.next_key;
        self.subscriptions.push(Subscription { key, waiters: Vec::new() });
        self.next_key = key + 1;
        assert(self.subs() =~= old(self).subs().push((key, Seq::<u64>::empty())));
        key
    }

    fn find(&self, key: u64) -> (r: Option<usize>)
        requires
            self.wf(),
        ensures
            r.is_some() <==> index_of(self.subs(), key) >= 0,
            r.is_some() ==> r.unwrap() == index_of(self.subs(), key),
    {
        let mut i: usize = 0;
        while i < self.subscriptions.len()
            invariant
                self.wf(),
                i <= self.subscriptions@.len(),
                forall|k: int| 0 <= k < i ==> (#[trigger] self.subs()[k]).0 != key,
            decreases self.subscriptions@.len() - i,
        {
            if self.subscriptions[i].key == key {
                proof {
                    lemma_index_of_unique(self.subs(), key, i as int);
                }
                return Some(i);
            }
            i = i + 1;
        }
        proof {
            lemma_index_of(self.subs(), key);
        }
        None
    }

    /// Registers `task` as waiting on the subscription `key`.
    pub fn register_waiter(&mut self, key: u64, task: u64)
        requires
            old(self).wf(),
        ensures
            final(self).wf(),
            final(self).next() == old(self).next(),
            final(self).ready_list() == old(self).ready_list(),
            final(self).subs() == ({
                let i = index_of(old(self).subs(), key);
                if i >= 0 {
                    old(self).subs().update(i, (key, old(self).subs()[i].1.push(task)))
                } else {
                    old(self).subs()
                }
            }),
    {
        proof {
            lemma_index_of(self.subs(), key);
        }
        match self.find(key) {
            Some(i) => {
                let mut w = self.subscriptions[i].waiters.clone();
                w.push(task);
                self.subscriptions.set(i, Subscription { key, waiters: w });
                assert(self.subs() =~= old(self).subs().update(
                    i as int,
                    (key, old(self).subs()[i as int].1.push(task)),
                ));
            },
            None => {},
        }
    }

    /// Drops the subscription `key`: its pollable is no longer polled.
    pub fn deregister(&mut self, key: u64)
        requires
            old(self).wf(),
        ensures
            final(self).wf(),
            final(self).next() == old(self).next(),
            final(self).ready_list() == old(self).ready_list(),
            final(self).subs() == ({
                let i = index_of(old(self).subs(), key);
                if i >= 0 {
                    old(self).subs().remove(i)
                } else {
                    old(self).subs()
                }
            }),
    {
        proof {
            lemma_index_of(self.subs(), key);
        }
        match self.find(key) {
            Some(i) => {
                self.subscriptions.remove(i);
                assert(self.subs() =~= old(self).subs().remove(i as int));
                assert forall|a: int, b: int| 0 <= a < b < self.subs().len() implies (
                #[trigger] self.subs()[a]).0 < (#[trigger] self.subs()[b]).0 by {
                    let o = old(self).subs();
                    let ia = if a < i { a } else { a + 1 };
                    let ib = if b < i { b } else { b + 1 };
                    assert(self.subs()[a] == o[ia] && self.subs()[b] == o[ib]);
                }
                assert forall|k: int| 0 <= k < self.subs().len() implies (
                #[trigger] self.subs()[k]).0 < self.next() by {
                    let o = old(self).subs();
                    let ik = if k < i { k } else { k + 1 };
                    assert(self.subs()[k] == o[ik]);
                }
            },
            None => {},
        }
    }

    /// Wakes the tasks waiting on the subscription `key`.
    pub fn wake(&mut self, key: u64)
        requires
            old(self).wf(),
        ensures
            final(self).wf(),
            final(self).next() == old(self).next(),
            (final(self).subs(), final(self).ready_list()) == wake_spec(
                old(self).subs(),
                old(self).ready_list(),
                key,
            ),
    {
        proof {
            lemma_index_of(self.subs(), key);
        }
        match self.find(key) {
            Some(i) => {
                let waiters = self.subscriptions[i].waiters.clone();
                let mut j: usize = 0;
                while j < waiters.len()
                    invariant
                        j <= waiters@.len(),
                        waiters@ == old(self).subs()[i as int].1,
                        self.ready@ == old(self).ready@ + waiters@.subrange(0, j as int),
                        self.subscriptions@ == old(self).subscriptions@,
                        self.next_key == old(self).next_key,
                    decreases waiters@.len() - j,
                {
                    self.ready.push_back(waiters[j]);
                    j = j + 1;
                    assert(self.ready@ =~= old(self).ready@ + waiters@.subrange(0, j as int));
                }
                assert(waiters@.subrange(0, j as int) =~= waiters@);
                self.subscriptions.set(i, Subscription { key, waiters: Vec::new() });
                assert(self.subs() =~= old(self).subs().update(i as int, (key, Seq::<u64>::empty())));
            },
            None => {},
        }
    }

    /// Wakes the tasks waiting on each subscription the host reported ready,
    /// in the order it reported them.
    pub fn wake_ready(&mut self, keys: &Vec<u64>)
        requires
            old(self).wf(),
        ensures
            final(self).wf(),
            final(self).next() == old(self).next(),
            (final(self).subs(), final(self).ready_list()) == wake_all_spec(
                old(self).subs(),
                old(self).ready_list(),
                keys@,
            ),
    {
        let mut i: usize = 0;
        while i < keys.len()
            invariant
                self.wf(),
                i <= keys@.len(),
                self.next() == old(self).next(),
                (self.subs(), self.ready_list()) == wake_all_spec(
                    old(self).subs(),
                    old(self).ready_list(),
                    keys@.subrange(0, i as int),
                ),
            decreases keys@.len() - i,
        {
            self.wake(keys[i]);
            assert(keys@.subrange(0, i + 1).drop_last() =~= keys@.subrange(0, i as int));
            i = i + 1;
        }
        assert(keys@.subrange(0, i as int) =~= keys@);
    }

    /// The keys of the subscriptions some task waits on, in key order: the
    /// pollables the host is asked about.
    pub fn pending_keys(&self) -> (r: Vec<u64>)
        ensures
            r@ == pending_spec(self.subs()),
    {
        let mut r: Vec<u64> = Vec::new();
        let mut i: usize = 0;
        while i < self.subscriptions.len()
            invariant
                i <= self.subscriptions@.len(),
                r@ == pending_spec(self.subs().subrange(0, i as int)),
            decreases self.subscriptions@.len() - i,
        {
            assert(self.subs().subrange(0, i + 1).drop_last() =~= self.subs().subrange(0, i as int));
            if self.subscriptions[i].waiters.len() > 0 {
                r.push(self.subscriptions[i].key);
            }
            i = i + 1;
        }
        assert(self.subs().subrange(0, i as int) =~= self.subs());
        r
    }

    /// Takes the task at the front of the ready list.
    pub fn pop_ready(&mut self) -> (r: Option<u64>)
        requires
            old(self).wf(),
        ensures
            final(self).wf(),
            final(self).subs() == old(self).subs(),
            final(self).next() == old(self).next(),
            old(self).ready_list().len() == 0 ==> r.is_none() && final(self).ready_list() == old(self).ready_list(),
            old(self).ready_list().len() > 0 ==> r == Some(old(self).ready_list()[0])
                && final(self).ready_list() == old(self).ready_list().subrange(1, old(self).ready_list().len() as int),
    {
        let r = self.ready.pop_front();
        assert(self.subs() =~= old(self).subs());
        r
    }

    /// Puts a task at the back of the ready list.
    pub fn push_ready(&mut self, task: u64)
        requires
            old(self).wf(),
        ensures
            final(self).wf(),
            final(self).subs() == old(self).subs(),
            final(self).next() == old(self).next(),
            final(self).ready_list() == old(self).ready_list().push(task),
    {
        self.ready.push_back(task);
        assert(self.subs() =~= old(self).subs());
    }

    pub fn ready_list_is_empty(&self) -> (r: bool)
        ensures
            r == (self.ready_list().len() == 0),
    {
        self.ready.len() == 0
    }

    /// Whether no task waits on any pollable.
    pub fn pending_pollables_is_empty(&self) -> (r: bool)
        ensures
            r == !self.has_pending(),
    {
        let mut i: usize = 0;
        while i < self.subscriptions.len()
            invariant
                i <= self.subscriptions@.len(),
                forall|k: int| 0 <= k < i ==> (#[trigger] self.subs()[k]).1.len() == 0,
            decreases self.subscriptions@.len() - i,
        {
            if self.subscriptions[i].waiters.len() > 0 {
                assert(self.subs()[i as int].1.len() > 0);
                return false;
            }
            i = i + 1;
        }
        true
    }

    /// The driver's next step: run the task at the front of the ready list;
    /// with none ready, block on the host while tasks wait on pollables,
    /// else finish.
    pub fn next_action(&mut self) -> (r: DriverAction)
        requires
            old(self).wf(),
        ensures
            final(self).wf(),
            final(self).subs() == old(self).subs(),
            final(self).next() == old(self).next(),
            old(self).ready_list().len() > 0 ==> r == DriverAction::Run(old(self).ready_list()[0])
                && final(self).ready_list() == old(self).ready_list().subrange(1, old(self).ready_list().len() as int),
            old(self).ready_list().len() == 0 ==> final(self).ready_list() == old(self).ready_list() && (
                if old(self).has_pending() { r == DriverAction::BlockOnPollables } else { r == DriverAction::Finish }),
    {
        match self.pop_ready() {
            Some(task) => DriverAction::Run(task),
            None => {
                if self.pending_pollables_is_empty() {
                    DriverAction::Finish
                } else {
                    DriverAction::BlockOnPollables
                }
            },
        }
    }

    /// Whether, after a task ran, the driver checks the pollables without
    /// blocking: when the task woke itself or others are ready, so that
    /// tasks waiting on I/O are not starved.
    pub fn should_check_pollables(&self, last_run_awake: bool) -> (r: bool)
        ensures
            r == (last_run_awake || self.ready_list().len() > 0),
    {
        last_run_awake || !self.ready_list_is_empty()
    }
}

/// Whether a `block_on` is running: a second one inside it is refused.
#[derive(Clone, Copy, Debug, PartialEq, Eq, Structural)]
pub struct BlockOnGuard {
    pub active: bool,
}

impl BlockOnGuard {
    pub fn new() -> (r: BlockOnGuard)
        ensures
            !r.active,
    {
        BlockOnGuard { active: false }
    }

    /// Enters a `block_on`; `false` where one is already running, which is
    /// a programming error the caller reports by panicking.
    pub fn enter(&mut self) -> (r: bool)
        ensures
            r == !old(self).active,
            final(self).active,
    {
        if self.active {
            false
        } else {
            self.active = true;
            true
        }
    }

    /// Leaves the running `block_on`.
    pub fn exit(&mut self)
        ensures
            !final(self).active,
    {
        self.active = false;
    }
}

} // verus!
