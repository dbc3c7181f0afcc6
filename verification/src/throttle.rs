//! Notices of modified files, kept from following each other too closely.
//!
//! A path is known here by a number: equal paths have equal numbers. Times are in nanoseconds since
//! some fixed moment.
use std::collections::HashMap;
use vstd::prelude::*;

verus! {

broadcast use vstd::std_specs::hash::group_hash_axioms;

/// The shortest time in milliseconds between two notices of one path.
pub const MIN_INTERVAL_MILLIS: u64 = 500;

/// Lets a notice of a path pass where the last one that passed is long enough ago.
pub struct Throttle {
    min_interval: u64,
    last_sent: HashMap<u64, u64>,
}

/// What a [`Throttle`] holds: the shortest time between two notices of one path, and when the last
/// notice of each path passed.
pub ghost struct ThrottleView {
    pub min_interval: u64,
    pub last_sent: Map<u64, u64>,
}

impl View for Throttle {
    type V = ThrottleView;

    closed spec fn view(&self) -> ThrottleView {
        ThrottleView { min_interval: self.min_interval, last_sent: self.last_sent@ }
    }
}

/// Whether a notice passes: no notice of its path has passed before, or the last one is at least
/// the shortest time ago. A clock that has gone back counts as one that has stood still.
pub open spec fn passes(state: ThrottleView, path: u64, now: u64) -> bool {
    !state.last_sent.contains_key(path) || {
        let last = state.last_sent[path];
        let ago = if now >= last {
            now - last
        } else {
            0
        };
        ago >= state.min_interval
    }
}

/// What is known after a notice.
pub open spec fn after_notice(state: ThrottleView, path: u64, now: u64) -> ThrottleView {
    if passes(state, path, now) {
        ThrottleView { last_sent: state.last_sent.insert(path, now), ..state }
    } else {
        state
    }
}

impl Throttle {
    /// A throttle that has seen no notice yet.
    pub fn new(min_interval: u64) -> (r: Throttle)
        ensures
            r@ == (ThrottleView { min_interval, last_sent: Map::empty() }),
    {
        Throttle { min_interval, last_sent: HashMap::new() }
    }

    /// Whether a notice of a path passes now.
    pub fn lets_pass(&mut self, path: u64, now: u64) -> (r: bool)
        ensures
            r == passes(old(self)@, path, now),
            final(self)@ == after_notice(old(self)@, path, now),
            r <==> {
                ||| !old(self)@.last_sent.contains_key(path)
                ||| now - old(self)@.last_sent[path] >= old(self)@.min_interval
                ||| old(self)@.min_interval == 0
            },
            final(self)@.min_interval == old(self)@.min_interval,
            r ==> final(self)@.last_sent == old(self)@.last_sent.insert(path, now),
            !r ==> final(self)@ == old(self)@,
    {
        let passes = match self.last_sent.get(&path) {
            Some(last) => now.saturating_sub(*last) >= self.min_interval,
            None => true,
        };
        if passes {
            self.last_sent.insert(path, now);
        }
        passes
    }
}

/// A notice: the number of a path, and the time.
pub type Notice = (u64, u64);

/// What is known after the first `n` of some notices.
pub open spec fn state_after(min_interval: u64, notices: Seq<Notice>, n: int) -> ThrottleView
    decreases n,
{
    if n <= 0 {
        ThrottleView { min_interval, last_sent: Map::empty() }
    } else {
        after_notice(
            state_after(min_interval, notices, n - 1),
            notices[n - 1].0,
            notices[n - 1].1,
        )
    }
}

/// Whether the `i`-th of some notices passes.
pub open spec fn passed(min_interval: u64, notices: Seq<Notice>, i: int) -> bool {
    passes(state_after(min_interval, notices, i), notices[i].0, notices[i].1)
}

/// Whether the times of notices never go back.
pub open spec fn in_order(notices: Seq<Notice>) -> bool {
    forall|i: int, j: int|
        0 <= i <= j < notices.len() ==> (#[trigger] notices[i]).1 <= (#[trigger] notices[j]).1
}

/// What is known of a path is the time of the last notice of it that passed.
proof fn lemma_last_sent(min_interval: u64, notices: Seq<Notice>, n: int, path: u64)
    requires
        0 <= n <= notices.len(),
    ensures
        state_after(min_interval, notices, n).min_interval == min_interval,
        ({
            let last_sent = state_after(min_interval, notices, n).last_sent;
            if last_sent.contains_key(path) {
                exists|i: int|
                    0 <= i < n && (#[trigger] notices[i]) == (path, last_sent[path]) && passed(
                        min_interval,
                        notices,
                        i,
                    ) && forall|k: int|
                        i < k < n && (#[trigger] notices[k]).0 == path ==> !passed(
                            min_interval,
                            notices,
                            k,
                        )
            } else {
                forall|k: int| 0 <= k < n ==> (#[trigger] notices[k]).0 != path
            }
        }),
    decreases n,
{
    if n > 0 {
        lemma_last_sent(min_interval, notices, n - 1, path);
        let before = state_after(min_interval, notices, n - 1);
        let last_sent = state_after(min_interval, notices, n).last_sent;
        if notices[n - 1].0 == path && passed(min_interval, notices, n - 1) {
            assert(notices[n - 1] == (path, last_sent[path]));
        } else if before.last_sent.contains_key(path) {
            let i = choose|i: int|
                0 <= i < n - 1 && (#[trigger] notices[i]) == (path, before.last_sent[path])
                    && passed(min_interval, notices, i) && forall|k: int|
                    i < k < n - 1 && (#[trigger] notices[k]).0 == path ==> !passed(
                        min_interval,
                        notices,
                        k,
                    );
            assert(notices[i] == (path, last_sent[path]));
        }
    }
}

/// The first notice of a path passes, whatever came before of other paths and whatever the times.
pub proof fn law_first_passes(min_interval: u64, notices: Seq<Notice>, j: int)
    requires
        0 <= j < notices.len(),
        forall|k: int| 0 <= k < j ==> (#[trigger] notices[k]).0 != notices[j].0,
    ensures
        passed(min_interval, notices, j),
{
    lemma_last_sent(min_interval, notices, j, notices[j].0);
}

/// Whether a notice passes is decided by how long ago the last one of its path passed that did, and
/// by nothing else: it passes exactly where that is the shortest time ago or more.
pub proof fn law_passes_after(state: ThrottleView, path: u64, last: u64, now: u64)
    requires
        last <= now,
    ensures
        passes(
            ThrottleView { last_sent: state.last_sent.insert(path, last), ..state },
            path,
            now,
        ) <==> last + state.min_interval <= now,
        passes(ThrottleView { last_sent: state.last_sent.remove(path), ..state }, path, now),
{
}

/// A notice that passes is remembered with its time, one that does not leaves nothing behind, and
/// neither touches what is known of other paths.
pub proof fn law_remembered(state: ThrottleView, path: u64, now: u64, other: u64)
    requires
        other != path,
    ensures
        ({
            let after = after_notice(state, path, now);
            &&& after.min_interval == state.min_interval
            &&& passes(state, path, now) ==> after.last_sent.contains_key(path)
                && after.last_sent[path] == now
            &&& !passes(state, path, now) ==> after == state
            &&& after.last_sent.contains_key(other) == state.last_sent.contains_key(other)
            &&& after.last_sent.contains_key(other) ==> after.last_sent[other]
                == state.last_sent[other]
        }),
{
}

/// Two notices of one path are let through from half a second on.
pub proof fn law_interval()
    ensures
        2 * MIN_INTERVAL_MILLIS == 1000,
{
}

/// Two notices of one path that pass are at least the shortest time apart.
pub proof fn law_spaced(min_interval: u64, notices: Seq<Notice>, i: int, j: int)
    requires
        in_order(notices),
        0 <= i < j < notices.len(),
        notices[i].0 == notices[j].0,
        passed(min_interval, notices, i),
        passed(min_interval, notices, j),
    ensures
        notices[j].1 - notices[i].1 >= min_interval,
{
    let path = notices[j].0;
    lemma_last_sent(min_interval, notices, j, path);
    let last_sent = state_after(min_interval, notices, j).last_sent;
    assert(notices[i].0 == path);
    let last = choose|last: int|
        0 <= last < j && (#[trigger] notices[last]) == (path, last_sent[path]) && passed(
            min_interval,
            notices,
            last,
        ) && forall|k: int|
            last < k < j && (#[trigger] notices[k]).0 == path ==> !passed(min_interval, notices, k);
    assert(i <= last);
    assert(notices[i].1 <= notices[last].1 <= notices[j].1);
}

/// A notice is held back only where another of its path has passed less than the shortest time
/// before.
pub proof fn law_held_back(min_interval: u64, notices: Seq<Notice>, j: int)
    requires
        in_order(notices),
        0 <= j < notices.len(),
        !passed(min_interval, notices, j),
    ensures
        exists|i: int|
            0 <= i < j && (#[trigger] notices[i]).0 == notices[j].0 && passed(
                min_interval,
                notices,
                i,
            ) && notices[j].1 - notices[i].1 < min_interval,
{
    let path = notices[j].0;
    lemma_last_sent(min_interval, notices, j, path);
    let last_sent = state_after(min_interval, notices, j).last_sent;
    let last = choose|last: int|
        0 <= last < j && (#[trigger] notices[last]) == (path, last_sent[path]) && passed(
            min_interval,
            notices,
            last,
        ) && forall|k: int|
            last < k < j && (#[trigger] notices[k]).0 == path ==> !passed(min_interval, notices, k);
    assert(notices[last].1 <= notices[j].1);
}

} // verus!
