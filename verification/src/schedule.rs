//! The scheduler: owns the emitters, derives a frame-indexed event table
//! from each emitter's window and interval, advances the global frame
//! cursor around the cycle, and dispatches fire calls to the emitters
//! whose events fall on the current frame.
use vstd::prelude::*;
use crate::event::Event;
use crate::event_thread::EventThread;
use crate::disk::Disk;
use crate::pool::pool_wf;
use crate::pool::occupied_count;
use crate::pool::min_int;
use crate::pool::lemma_occ_bounds;
use crate::convert_interval_to_frame;
use vstd::arithmetic::div_mod::lemma_add_mod_noop;

verus! {

/// A frame period fires on a frame when the frame is a multiple of it; a
/// period of zero fires on every frame.
pub open spec fn fires(frame: int, period: int) -> bool {
    period == 0 || frame % period == 0
}

/// The frame period of a setting: its interval quantized to frames,
/// with nonzero intervals lifted to at least one frame.
pub open spec fn period_of(s: crate::setting::Setting) -> int {
    crate::frame_period(s.shot_interval as int)
}

/// The events of one emitter over the frames `[start, frame]`, in frame
/// order.
pub open spec fn events_upto(id: u32, start: int, frame: int, period: int) -> Seq<Event>
    decreases frame - start + 1,
{
    if frame < start {
        Seq::empty()
    } else {
        events_upto(id, start, frame - 1, period) + (if fires(frame, period) {
            seq![Event { thread_id: id, start_at: frame as u32, end_at: frame as u32 }]
        } else {
            Seq::empty()
        })
    }
}

/// The events of one emitter over its whole window.
pub open spec fn thread_events(t: EventThread) -> Seq<Event> {
    events_upto(t.id, t.setting.start_at as int, t.setting.end_at as int, period_of(t.setting))
}

/// The event table of the first `k` emitters, one emitter's window after
/// the other.
pub open spec fn all_events(threads: Seq<EventThread>, k: int) -> Seq<Event>
    decreases k,
{
    if k <= 0 {
        Seq::empty()
    } else {
        all_events(threads, k - 1) + thread_events(threads[k - 1])
    }
}

/// The cycle length: the largest window end over the first `k` emitters.
pub open spec fn max_end(threads: Seq<EventThread>, k: int) -> u32
    decreases k,
{
    if k <= 0 {
        0
    } else if threads[k - 1].setting.end_at > max_end(threads, k - 1) {
        threads[k - 1].setting.end_at
    } else {
        max_end(threads, k - 1)
    }
}

/// The first index whose emitter has the id, or the length when none
/// does.
pub open spec fn find_thread_from(threads: Seq<EventThread>, id: u32, i: int) -> int
    decreases threads.len() - i,
{
    if i < 0 || i >= threads.len() {
        threads.len() as int
    } else if threads[i].id == id {
        i
    } else {
        find_thread_from(threads, id, i + 1)
    }
}

/// The first index whose emitter has the id, or the length when none
/// does.
pub open spec fn find_thread(threads: Seq<EventThread>, id: u32) -> int {
    find_thread_from(threads, id, 0)
}

/// How many of the first `k` events fire the emitter at index `j` on
/// frame `frame`: those on that frame whose id resolves, first match
/// wins, to index `j`.
pub open spec fn fire_count(
    events: Seq<Event>,
    frame: u32,
    threads: Seq<EventThread>,
    j: int,
    k: int,
) -> int
    decreases k,
{
    if k <= 0 {
        0
    } else {
        fire_count(events, frame, threads, j, k - 1) + (if events[k - 1].start_at == frame
            && find_thread(threads, events[k - 1].thread_id) == j {
            1int
        } else {
            0int
        })
    }
}

/// How many entities the first `k` events ask to spawn on frame
/// `frame`: the way count of the first emitter matching each event's id,
/// for the events on that frame.
pub open spec fn spawn_total(
    events: Seq<Event>,
    frame: u32,
    threads: Seq<EventThread>,
    k: int,
) -> int
    decreases k,
{
    if k <= 0 {
        0
    } else {
        spawn_total(events, frame, threads, k - 1) + (if events[k - 1].start_at == frame
            && find_thread(threads, events[k - 1].thread_id) < threads.len() {
            threads[find_thread(threads, events[k - 1].thread_id)].setting.shot_way_num as int
        } else {
            0int
        })
    }
}

/// The pool after one dispatch of frame `frame` under this scheduler's
/// event table and emitters: as many entities added as the frame's
/// events ask for, capped at the capacity; occupied slots untouched;
/// every entity well-formed.
pub open spec fn dispatched(
    sch: Schedule,
    frame: u32,
    pool0: Seq<Option<Disk>>,
    mid: Seq<Option<Disk>>,
) -> bool {
    &&& mid.len() == pool0.len()
    &&& pool_wf(mid)
    &&& occupied_count(mid) == min_int(
        occupied_count(pool0) + spawn_total(
            sch.events@,
            frame,
            sch.threads@,
            sch.events@.len() as int,
        ),
        pool0.len() as int,
    )
    &&& forall|k: int| 0 <= k < pool0.len() && pool0[k] is Some ==> mid[k] == pool0[k]
}

/// The frame cursor after one tick: one frame on, wrapped to zero when
/// it reaches the cycle length.
pub open spec fn advance_spec(iter: int, cycle: int) -> int {
    let nxt = (iter + 1) % 0x100000000;
    if nxt == cycle {
        0
    } else {
        nxt
    }
}

/// The set of emitters with their shared event table and frame cursor.
#[derive(Debug)]
pub struct Schedule {
    /// Source of fresh emitter ids.
    pub gen_id: u32,
    /// The cycle length: the largest window end over all emitters.
    pub end_at: u32,
    /// The global frame cursor.
    pub iter: u32,
    /// The event table, rebuilt in full whenever an emitter changes.
    pub events: Vec<Event>,
    pub threads: Vec<EventThread>,
}

impl Schedule {
    /// Every emitter's setting is within the fixed-point bounds.
    pub open spec fn wf(self) -> bool {
        forall|j: int| 0 <= j < self.threads@.len() ==> (#[trigger] self.threads@[j]).wf()
    }

    /// An idle scheduler: no emitters, no events, cursor at zero.
    pub fn new() -> (s: Schedule)
        ensures
            s.gen_id == 0,
            s.end_at == 0,
            s.iter == 0,
            s.events@ == Seq::<Event>::empty(),
            s.threads@ == Seq::<EventThread>::empty(),
            s.wf(),
    {
        Schedule { gen_id: 0, end_at: 0, iter: 0, events: Vec::new(), threads: Vec::new() }
    }

    /// Advances the frame cursor by one frame, wrapping back to zero
    /// when it reaches the cycle length. The wrap lands on zero exactly
    /// where the cursor would have reached the cycle length, so an
    /// event registered on the cycle's final frame never coincides with
    /// the cursor.
    pub fn iterate(&mut self)
        ensures
            final(self).iter == advance_spec(old(self).iter as int, old(self).end_at as int),
            final(self).gen_id == old(self).gen_id,
            final(self).end_at == old(self).end_at,
            final(self).events == old(self).events,
            final(self).threads == old(self).threads,
    {
        let nxt: u32 = ((self.iter as u64 + 1) % 0x100000000) as u32;
        self.iter = if nxt == self.end_at {
            0
        } else {
            nxt
        };
    }

    /// Rewinds the frame cursor to the start of the cycle.
    pub fn reset_iteration(&mut self)
        ensures
            final(self).iter == 0,
            final(self).gen_id == old(self).gen_id,
            final(self).end_at == old(self).end_at,
            final(self).events == old(self).events,
            final(self).threads == old(self).threads,
    {
        self.iter = 0;
    }

    /// Hands out the next emitter id.
    pub fn generate_id(&mut self) -> (id: u32)
        requires
            old(self).gen_id < u32::MAX,
        ensures
            id == old(self).gen_id + 1,
            final(self).gen_id == old(self).gen_id + 1,
            final(self).end_at == old(self).end_at,
            final(self).iter == old(self).iter,
            final(self).events == old(self).events,
            final(self).threads == old(self).threads,
    {
        self.gen_id = self.gen_id + 1;
        self.gen_id
    }

    /// Adds an emitter, or, when one with the same id is already
    /// subscribed, hands that one the new setting while keeping its
    /// burst counter.
    pub fn subscribe_thread(&mut self, thread: EventThread) -> (r: Option<()>)
        ensures
            r is Some,
            final(self).gen_id == old(self).gen_id,
            final(self).end_at == old(self).end_at,
            final(self).iter == old(self).iter,
            final(self).events == old(self).events,
            ({
                let j = find_thread(old(self).threads@, thread.id);
                if j < old(self).threads@.len() {
                    final(self).threads@ =~= old(self).threads@.update(
                        j,
                        EventThread {
                            id: old(self).threads@[j].id,
                            iter: old(self).threads@[j].iter,
                            setting: thread.setting,
                        },
                    )
                } else {
                    final(self).threads@ =~= old(self).threads@.push(thread)
                }
            }),
    {
        let n = self.threads.len();
        let mut i: usize = 0;
        while i < n && self.threads[i].id != thread.id
            invariant
                n == self.threads@.len(),
                0 <= i <= n,
                *self == *old(self),
                forall|k: int| 0 <= k < i ==> (#[trigger] self.threads@[k]).id != thread.id,
            decreases n - i,
        {
            i = i + 1;
        }
        proof {
            lemma_find_thread_at(self.threads@, thread.id, 0, i as int);
        }
        if i < n {
            let mut found = self.threads.remove(i);
            found.update_setting(thread.setting);
            self.threads.insert(i, found);
            proof {
                assert(self.threads@ =~= old(self).threads@.update(
                    i as int,
                    EventThread {
                        id: old(self).threads@[i as int].id,
                        iter: old(self).threads@[i as int].iter,
                        setting: thread.setting,
                    },
                ));
            }
        } else {
            self.threads.push(thread);
        }
        Some(())
    }

    /// Rebuilds the event table from every emitter's window and
    /// interval, and the cycle length as the largest window end: for
    /// each frame of a window that is a multiple of the emitter's frame
    /// period, one event. A period of zero fires on every frame.
    pub fn refresh_events(&mut self)
        ensures
            final(self).gen_id == old(self).gen_id,
            final(self).iter == old(self).iter,
            final(self).threads == old(self).threads,
            final(self).events@ == all_events(
                old(self).threads@,
                old(self).threads@.len() as int,
            ),
            final(self).end_at == max_end(old(self).threads@, old(self).threads@.len() as int),
    {
        let mut events: Vec<Event> = Vec::new();
        let mut end_at: u32 = 0;
        let n = self.threads.len();
        let mut t: usize = 0;
        while t < n
            invariant
                n == self.threads@.len(),
                0 <= t <= n,
                *self == *old(self),
                events@ == all_events(self.threads@, t as int),
                end_at == max_end(self.threads@, t as int),
            decreases n - t,
        {
            let id = self.threads[t].id;
            let start = self.threads[t].setting.start_at;
            let end = self.threads[t].setting.end_at;
            let period: u64 = convert_interval_to_frame(self.threads[t].setting.shot_interval);
            let ghost before = events@;
            let mut frame: u64 = start as u64;
            if start <= end {
            while frame <= end as u64
                invariant
                    start <= frame <= end as u64 + 1,
                    id == self.threads@[t as int].id,
                    start == self.threads@[t as int].setting.start_at,
                    end == self.threads@[t as int].setting.end_at,
                    t < self.threads@.len(),
                    period == period_of(self.threads@[t as int].setting),
                    events@ == before + events_upto(id, start as int, frame - 1, period as int),
                decreases end as u64 + 1 - frame,
            {
                if period == 0 || frame % period == 0 {
                    events.push(Event::new(id, frame as u32, frame as u32));
                    proof {
                        assert(events@ =~= before + events_upto(
                            id,
                            start as int,
                            frame as int,
                            period as int,
                        ));
                    }
                } else {
                    proof {
                        assert(events@ =~= before + events_upto(
                            id,
                            start as int,
                            frame as int,
                            period as int,
                        ));
                    }
                }
                frame = frame + 1;
            }
            }
            if end > end_at {
                end_at = end;
            }
            proof {
                assert(events@ =~= all_events(self.threads@, t as int + 1));
            }
            t = t + 1;
        }
        self.events = events;
        self.end_at = end_at;
    }

    /// Dispatches the current frame: every event on the frame cursor
    /// fires the first emitter that carries its id; events whose id no
    /// emitter carries are skipped. Each fire spawns one burst into the
    /// pool; occupied slots are never disturbed.
    pub fn walkthrough_events(&mut self, disks: &mut Vec<Option<Disk>>) -> (r: Option<()>)
        requires
            old(self).wf(),
            pool_wf(old(disks)@),
        ensures
            r is Some,
            final(self).gen_id == old(self).gen_id,
            final(self).end_at == old(self).end_at,
            final(self).iter == old(self).iter,
            final(self).events == old(self).events,
            final(self).threads@.len() == old(self).threads@.len(),
            final(self).wf(),
            forall|j: int|
                0 <= j < old(self).threads@.len() ==> (#[trigger] final(self).threads@[j]).id
                    == old(self).threads@[j].id && final(self).threads@[j].setting == old(
                    self,
                ).threads@[j].setting,
            forall|j: int|
                0 <= j < old(self).threads@.len() ==> (#[trigger] final(self).threads@[j]).iter
                    == (old(self).threads@[j].iter + fire_count(
                    old(self).events@,
                    old(self).iter,
                    old(self).threads@,
                    j,
                    old(self).events@.len() as int,
                )) % 0x100000000,
            final(disks)@.len() == old(disks)@.len(),
            pool_wf(final(disks)@),
            occupied_count(final(disks)@) == min_int(
                occupied_count(old(disks)@) + spawn_total(
                    old(self).events@,
                    old(self).iter,
                    old(self).threads@,
                    old(self).events@.len() as int,
                ),
                old(disks)@.len() as int,
            ),
            forall|k: int|
                0 <= k < old(disks)@.len() && old(disks)@[k] is Some ==> final(disks)@[k] == old(
                    disks,
                )@[k],
    {
        proof {
            lemma_occ_bounds(old(disks)@, 0);
        }
        let cur = self.iter;
        let n_events = self.events.len();
        let mut e: usize = 0;
        while e < n_events
            invariant
                n_events == self.events@.len(),
                0 <= e <= n_events,
                self.gen_id == old(self).gen_id,
                self.end_at == old(self).end_at,
                self.iter == old(self).iter,
                cur == old(self).iter,
                self.events == old(self).events,
                self.threads@.len() == old(self).threads@.len(),
                self.wf(),
                forall|j: int|
                    0 <= j < old(self).threads@.len() ==> (#[trigger] self.threads@[j]).id == old(
                        self,
                    ).threads@[j].id && self.threads@[j].setting == old(self).threads@[j].setting,
                forall|j: int|
                    0 <= j < old(self).threads@.len() ==> (#[trigger] self.threads@[j]).iter == (
                    old(self).threads@[j].iter + fire_count(
                        old(self).events@,
                        cur,
                        old(self).threads@,
                        j,
                        e as int,
                    )) % 0x100000000,
                disks@.len() == old(disks)@.len(),
                pool_wf(disks@),
                occupied_count(disks@) == min_int(
                    occupied_count(old(disks)@) + spawn_total(
                        old(self).events@,
                        cur,
                        old(self).threads@,
                        e as int,
                    ),
                    old(disks)@.len() as int,
                ),
                0 <= occupied_count(old(disks)@) <= old(disks)@.len(),
                forall|k: int|
                    0 <= k < old(disks)@.len() && old(disks)@[k] is Some ==> disks@[k] == old(
                        disks,
                    )@[k],
            decreases n_events - e,
        {
            let ev = self.events[e];
            proof {
                lemma_find_thread_same(old(self).threads@, self.threads@, ev.thread_id, 0);
            }
            if ev.start_at == cur {
                let n_threads = self.threads.len();
                let mut j: usize = 0;
                let ghost entry_threads = self.threads@;
                let ghost entry_disks = disks@;
                while j < n_threads && self.threads[j].id != ev.thread_id
                    invariant
                        n_threads == self.threads@.len(),
                        0 <= j <= n_threads,
                        self.threads@ == entry_threads,
                        disks@ == entry_disks,
                        self.gen_id == old(self).gen_id,
                        self.end_at == old(self).end_at,
                        self.iter == old(self).iter,
                        self.events == old(self).events,
                        forall|k: int|
                            0 <= k < j ==> (#[trigger] self.threads@[k]).id != ev.thread_id,
                    decreases n_threads - j,
                {
                    j = j + 1;
                }
                proof {
                    lemma_find_thread_at(self.threads@, ev.thread_id, 0, j as int);
                }
                if j < n_threads {
                    let mut th = self.threads.remove(j);
                    th.spawn_disks(disks);
                    self.threads.insert(j, th);
                    proof {
                        assert(self.threads@ =~= entry_threads.update(
                            j as int,
                            self.threads@[j as int],
                        ));
                    }
                }
            }
            proof {
                assert forall|q: int|
                    0 <= q < old(self).threads@.len() implies (#[trigger] self.threads@[q]).iter
                    == (old(self).threads@[q].iter + fire_count(
                    old(self).events@,
                    cur,
                    old(self).threads@,
                    q,
                    e as int + 1,
                )) % 0x100000000 by {
                    lemma_add_mod_noop(
                        old(self).threads@[q].iter as int,
                        fire_count(old(self).events@, cur, old(self).threads@, q, e as int),
                        0x100000000,
                    );
                    lemma_add_mod_noop(
                        old(self).threads@[q].iter as int + fire_count(
                            old(self).events@,
                            cur,
                            old(self).threads@,
                            q,
                            e as int,
                        ),
                        1,
                        0x100000000,
                    );
                }
            }
            e = e + 1;
        }
        Some(())
    }
}

/// The search by id lands at or after `i`, on an emitter that carries
/// the id, and on none earlier.
pub proof fn lemma_find_thread_shape(threads: Seq<EventThread>, id: u32, i: int)
    requires
        0 <= i <= threads.len(),
    ensures
        i <= find_thread_from(threads, id, i) <= threads.len(),
        find_thread_from(threads, id, i) < threads.len() ==> threads[find_thread_from(
            threads,
            id,
            i,
        )].id == id,
        forall|k: int| i <= k < find_thread_from(threads, id, i) ==> (#[trigger] threads[k]).id != id,
    decreases threads.len() - i,
{
    if i < threads.len() && threads[i].id != id {
        lemma_find_thread_shape(threads, id, i + 1);
    }
}

/// When no emitter before index `j` carries the id, and `j` either does
/// or is the length, `j` is where the search lands.
pub proof fn lemma_find_thread_at(threads: Seq<EventThread>, id: u32, i: int, j: int)
    requires
        0 <= i <= j <= threads.len(),
        forall|k: int| i <= k < j ==> (#[trigger] threads[k]).id != id,
        j < threads.len() ==> threads[j].id == id,
    ensures
        find_thread_from(threads, id, i) == j,
    decreases j - i,
{
    if i < j {
        lemma_find_thread_at(threads, id, i + 1, j);
    }
}

/// The search by id lands on the same index in two thread lists of equal
/// length and equal ids.
proof fn lemma_find_thread_same(t1: Seq<EventThread>, t2: Seq<EventThread>, id: u32, i: int)
    requires
        t1.len() == t2.len(),
        0 <= i,
        forall|k: int| 0 <= k < t1.len() ==> (#[trigger] t1[k]).id == t2[k].id,
    ensures
        find_thread_from(t1, id, i) == find_thread_from(t2, id, i),
    decreases t1.len() - i,
{
    if i < t1.len() {
        lemma_find_thread_same(t1, t2, id, i + 1);
    }
}

} // verus!
