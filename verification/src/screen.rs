//! The top of the simulation: the world with its entity pool and
//! scheduler. One frame is one `do_frame` call: advance the cursor,
//! dispatch due emitters, then move every live entity.
use vstd::prelude::*;
use crate::DISK_NUM;
use crate::num::FULL_TURN;
use crate::disk::Disk;
use crate::pool::pool_wf;
use crate::setting::Setting;
use crate::setting::SettingOptions;
use crate::setting::resolves;
use crate::schedule::Schedule;
use crate::schedule::advance_spec;
use crate::schedule::all_events;
use crate::schedule::max_end;
use crate::schedule::find_thread;
use crate::schedule::dispatched;
use crate::schedule::fire_count;
use crate::event_thread::EventThread;
use crate::sim::step_spec;
use crate::sim::stepped_pool;
use crate::sim::step_disk;
use crate::sim::bounds_spec;
use crate::sim::resolve_bounds;

verus! {

/// The simulation world: a fixed-size plane, the entity pool, and the
/// emission scheduler. Rendering is not its business: a host draws from
/// the pool snapshot after each frame.
#[derive(Debug)]
pub struct Screen {
    pub width: i64,
    pub height: i64,
    pub disks: Vec<Option<Disk>>,
    pub schedule: Schedule,
}

impl Screen {
    /// The world is non-degenerate and everything in it is within the
    /// fixed-point bounds.
    pub open spec fn wf(self) -> bool {
        &&& 0 <= self.width
        &&& 0 <= self.height
        &&& pool_wf(self.disks@)
        &&& self.schedule.wf()
    }

    /// One frame: advance the cursor around the cycle, fire the
    /// emitters whose events fall on it, then age, move and cull every
    /// live entity. The pool afterwards is exactly a dispatch of the
    /// advanced frame followed by one simulation pass, and each fired
    /// emitter's burst counter has moved on.
    pub fn do_frame(&mut self)
        requires
            old(self).wf(),
        ensures
            final(self).wf(),
            final(self).width == old(self).width,
            final(self).height == old(self).height,
            final(self).disks@.len() == old(self).disks@.len(),
            final(self).schedule.gen_id == old(self).schedule.gen_id,
            final(self).schedule.end_at == old(self).schedule.end_at,
            final(self).schedule.events == old(self).schedule.events,
            final(self).schedule.iter == advance_spec(
                old(self).schedule.iter as int,
                old(self).schedule.end_at as int,
            ),
            final(self).schedule.threads@.len() == old(self).schedule.threads@.len(),
            forall|j: int|
                0 <= j < old(self).schedule.threads@.len() ==> {
                    &&& (#[trigger] final(self).schedule.threads@[j]).id == old(
                        self,
                    ).schedule.threads@[j].id
                    &&& final(self).schedule.threads@[j].setting == old(self).schedule.threads@[j].setting
                },
            forall|j: int|
                0 <= j < old(self).schedule.threads@.len() ==> (#[trigger] final(self).schedule.threads@[j]).iter
                    == (old(self).schedule.threads@[j].iter + fire_count(
                    old(self).schedule.events@,
                    advance_spec(
                        old(self).schedule.iter as int,
                        old(self).schedule.end_at as int,
                    ) as u32,
                    old(self).schedule.threads@,
                    j,
                    old(self).schedule.events@.len() as int,
                )) % 0x100000000,
            exists|mid: Seq<Option<Disk>>|
                #![auto]
                dispatched(
                    old(self).schedule,
                    advance_spec(
                        old(self).schedule.iter as int,
                        old(self).schedule.end_at as int,
                    ) as u32,
                    old(self).disks@,
                    mid,
                ) && stepped_pool(
                    mid,
                    final(self).disks@,
                    old(self).width as int,
                    old(self).height as int,
                ),
    {
        self.schedule.iterate();
        proof {
            assert(self.schedule.iter as int == advance_spec(
                old(self).schedule.iter as int,
                old(self).schedule.end_at as int,
            ));
        }
        self.schedule.walkthrough_events(&mut self.disks);
        let ghost mid = self.disks@;
        proof {
            assert(dispatched(
                old(self).schedule,
                self.schedule.iter,
                old(self).disks@,
                mid,
            ));
        }
        self.update_disks();
        proof {
            assert(stepped_pool(mid, self.disks@, self.width as int, self.height as int));
            assert(dispatched(
                old(self).schedule,
                advance_spec(
                    old(self).schedule.iter as int,
                    old(self).schedule.end_at as int,
                ) as u32,
                old(self).disks@,
                mid,
            ) && stepped_pool(
                mid,
                self.disks@,
                old(self).width as int,
                old(self).height as int,
            ));
        }
    }

    /// The ids of all subscribed emitters, in subscription order.
    pub fn get_thread_ids(&self) -> (ids: Vec<u32>)
        ensures
            ids@.len() == self.schedule.threads@.len(),
            forall|j: int|
                0 <= j < ids@.len() ==> ids@[j] == (#[trigger] self.schedule.threads@[j]).id,
    {
        let n = self.schedule.threads.len();
        let mut ids: Vec<u32> = Vec::new();
        let mut i: usize = 0;
        while i < n
            invariant
                n == self.schedule.threads@.len(),
                0 <= i <= n,
                ids@.len() == i,
                forall|j: int|
                    0 <= j < i ==> ids@[j] == (#[trigger] self.schedule.threads@[j]).id,
            decreases n - i,
        {
            ids.push(self.schedule.threads[i].id);
            i = i + 1;
        }
        ids
    }

    /// Creates or updates an emitter from a raw configuration record.
    /// With an id, the emitter carrying it gets the new setting, or a
    /// new emitter is created under that id when none does; without an
    /// id a fresh one is handed out. The event table is rebuilt either
    /// way, and the id is returned.
    pub fn upsert_thread_setting(&mut self, thread_id: Option<u32>, options: &SettingOptions) -> (r:
        Option<u32>)
        requires
            old(self).wf(),
            thread_id is None ==> old(self).schedule.gen_id < u32::MAX,
        ensures
            final(self).wf(),
            final(self).width == old(self).width,
            final(self).height == old(self).height,
            final(self).disks == old(self).disks,
            final(self).schedule.iter == old(self).schedule.iter,
            r matches Some(id) && id == (match thread_id {
                Some(given) => given,
                None => (old(self).schedule.gen_id + 1) as u32,
            }),
            final(self).schedule.gen_id == (match thread_id {
                Some(_) => old(self).schedule.gen_id as int,
                None => old(self).schedule.gen_id + 1,
            }),
            ({
                let id = (match thread_id {
                    Some(given) => given,
                    None => (old(self).schedule.gen_id + 1) as u32,
                });
                let threads = final(self).schedule.threads@;
                let j = find_thread(threads, id);
                &&& j < threads.len()
                &&& resolves(*options, threads[j].setting)
                &&& final(self).schedule.events@ == all_events(threads, threads.len() as int)
                &&& final(self).schedule.end_at == max_end(threads, threads.len() as int)
            }),
            ({
                let id = (match thread_id {
                    Some(given) => given,
                    None => (old(self).schedule.gen_id + 1) as u32,
                });
                let before = old(self).schedule.threads@;
                let after = final(self).schedule.threads@;
                let j0 = find_thread(before, id);
                if j0 < before.len() {
                    &&& after.len() == before.len()
                    &&& (forall|k: int| 0 <= k < before.len() && k != j0 ==> after[k] == before[k])
                    &&& after[j0].id == before[j0].id
                    &&& after[j0].iter == before[j0].iter
                } else {
                    &&& after.len() == before.len() + 1
                    &&& (forall|k: int| 0 <= k < before.len() ==> after[k] == before[k])
                    &&& after[before.len() as int].id == id
                    &&& after[before.len() as int].iter == 0
                }
            }),
    {
        let setting = Setting::new(options);
        let id: u32 = match thread_id {
            Some(given) => given,
            None => self.schedule.generate_id(),
        };
        let thread = EventThread::new(id, setting);
        let ghost sub_threads = self.schedule.threads@;
        self.schedule.subscribe_thread(thread);
        proof {
            let j = find_thread(sub_threads, id);
            crate::schedule::lemma_find_thread_shape(sub_threads, id, 0);
            crate::schedule::lemma_find_thread_at(self.schedule.threads@, id, 0, j);
        }
        self.schedule.refresh_events();
        Some(id)
    }

    /// One simulation pass over the pool: every live entity ages, obeys
    /// its behaviors, moves and faces the bounds; empty slots stay
    /// empty. Slot order is kept.
    #[verifier::rlimit(100)]
    pub fn update_disks(&mut self)
        requires
            old(self).wf(),
        ensures
            final(self).width == old(self).width,
            final(self).height == old(self).height,
            final(self).schedule == old(self).schedule,
            final(self).wf(),
            final(self).disks@.len() == old(self).disks@.len(),
            stepped_pool(
                old(self).disks@,
                final(self).disks@,
                old(self).width as int,
                old(self).height as int,
            ),
    {
        let ghost orig = self.disks@;
        let mut src: Vec<Option<Disk>> = Vec::new();
        core::mem::swap(&mut src, &mut self.disks);
        let n = src.len();
        proof {
            assert(orig.take(n as int) =~= orig);
        }
        let mut rev: Vec<Option<Disk>> = Vec::new();
        let mut left = n;
        while left > 0
            invariant
                n == orig.len(),
                src@ == orig.take(left as int),
                0 <= left <= n,
                rev@.len() == n - left,
                forall|k: int| 0 <= k < n - left ==> rev@[k] == orig[n - 1 - k],
            decreases left,
        {
            let x = match src.pop() {
                Some(x) => x,
                None => None,
            };
            proof {
                assert(orig.take(left as int).last() == orig[left as int - 1]);
                assert(orig.take(left as int).drop_last() =~= orig.take(left as int - 1));
            }
            rev.push(x);
            left = left - 1;
        }
        let mut i: usize = 0;
        while i < n
            invariant
                n == orig.len(),
                0 <= i <= n,
                pool_wf(orig),
                0 <= self.width,
                0 <= self.height,
                self.width == old(self).width,
                self.height == old(self).height,
                self.schedule == old(self).schedule,
                rev@.len() == n - i,
                forall|k: int| 0 <= k < n - i ==> rev@[k] == orig[n - 1 - k],
                self.disks@.len() == i,
                pool_wf(self.disks@),
                forall|k: int| 0 <= k < i && orig[k] is None ==> self.disks@[k] is None,
                forall|k: int|
                    0 <= k < i ==> ((#[trigger] orig[k]) matches Some(d) ==> exists|r: int|
                        0 <= r < FULL_TURN && self.disks@[k] == step_spec(
                            d,
                            self.width as int,
                            self.height as int,
                            r,
                        )),
            decreases n - i,
        {
            let ghost prev_rev = rev@;
            let slot = match rev.pop() {
                Some(x) => x,
                None => None,
            };
            proof {
                assert(slot == prev_rev[n - i - 1]);
                assert(slot == orig[i as int]);
            }
            let ghost pre = self.disks@;
            match slot {
                Some(d) => {
                    let stepped = step_disk(d, self.width, self.height);
                    self.disks.push(stepped);
                    proof {
                        assert(orig[i as int] == Some(d));
                        assert forall|k: int|
                            0 <= k < i + 1 implies ((#[trigger] orig[k]) matches Some(dd)
                            ==> exists|r: int|
                            0 <= r < FULL_TURN && self.disks@[k] == step_spec(
                                dd,
                                self.width as int,
                                self.height as int,
                                r,
                            )) by {
                            if orig[k] is Some {
                                let dd = orig[k]->0;
                                if k == i {
                                    assert(self.disks@[k] == stepped);
                                    let r0 = choose|r: int|
                                        0 <= r < FULL_TURN && stepped == step_spec(
                                            d,
                                            self.width as int,
                                            self.height as int,
                                            r,
                                        );
                                    assert(0 <= r0 < FULL_TURN && self.disks@[k] == step_spec(
                                        dd,
                                        self.width as int,
                                        self.height as int,
                                        r0,
                                    ));
                                } else {
                                    assert(self.disks@[k] == pre[k]);
                                    let r0 = choose|r: int|
                                        0 <= r < FULL_TURN && pre[k] == step_spec(
                                            dd,
                                            self.width as int,
                                            self.height as int,
                                            r,
                                        );
                                    assert(0 <= r0 < FULL_TURN && self.disks@[k] == step_spec(
                                        dd,
                                        self.width as int,
                                        self.height as int,
                                        r0,
                                    ));
                                }
                            }
                        }
                    }
                },
                None => {
                    self.disks.push(None);
                    proof {
                        assert forall|k: int|
                            0 <= k < i + 1 implies ((#[trigger] orig[k]) matches Some(dd)
                            ==> exists|r: int|
                            0 <= r < FULL_TURN && self.disks@[k] == step_spec(
                                dd,
                                self.width as int,
                                self.height as int,
                                r,
                            )) by {
                            if orig[k] is Some && k < i {
                                let dd = orig[k]->0;
                                assert(self.disks@[k] == pre[k]);
                                let r0 = choose|r: int|
                                    0 <= r < FULL_TURN && pre[k] == step_spec(
                                        dd,
                                        self.width as int,
                                        self.height as int,
                                        r,
                                    );
                                assert(0 <= r0 < FULL_TURN && self.disks@[k] == step_spec(
                                    dd,
                                    self.width as int,
                                    self.height as int,
                                    r0,
                                ));
                            }
                        }
                    }
                },
            }
            i = i + 1;
        }
    }

    /// Boundary resolution for one displaced entity against this world.
    pub fn on_reflect(&self, disk: Disk) -> (res: Option<Disk>)
        ensures
            res == bounds_spec(disk, self.width as int, self.height as int),
            disk.wf() ==> (res matches Some(u) ==> u.wf()),
    {
        resolve_bounds(disk, self.width, self.height)
    }
}

/// Builds a fresh world from one raw configuration record: an empty
/// pool at full capacity and a scheduler with that record as its first
/// emitter, its event table built.
pub fn init_screen(options: &SettingOptions) -> (screen: Screen)
    ensures
        screen.wf(),
        screen.width == (if options.width >= 0 {
            options.width as int
        } else {
            0int
        }),
        screen.height == (if options.height >= 0 {
            options.height as int
        } else {
            0int
        }),
        screen.disks@.len() == DISK_NUM,
        forall|k: int| 0 <= k < screen.disks@.len() ==> screen.disks@[k] is None,
        screen.schedule.iter == 0,
        screen.schedule.threads@.len() == 1,
        screen.schedule.threads@[0].id == 1,
        screen.schedule.threads@[0].iter == 0,
        resolves(*options, screen.schedule.threads@[0].setting),
        screen.schedule.events@ == all_events(screen.schedule.threads@, 1),
        screen.schedule.end_at == max_end(screen.schedule.threads@, 1),
{
    let setting = Setting::new(options);
    let width: i64 = if options.width >= 0 {
        options.width
    } else {
        0
    };
    let height: i64 = if options.height >= 0 {
        options.height
    } else {
        0
    };
    let disks = init_disks(DISK_NUM);
    let mut schedule = Schedule::new();
    let thread_id = schedule.generate_id();
    let thread = EventThread::new(thread_id, setting);
    schedule.subscribe_thread(thread);
    schedule.refresh_events();
    Screen { width, height, disks, schedule }
}

/// An empty pool of the given capacity.
fn init_disks(disk_num: u32) -> (disks: Vec<Option<Disk>>)
    ensures
        disks@.len() == disk_num,
        forall|k: int| 0 <= k < disks@.len() ==> disks@[k] is None,
{
    let mut disks_buffer: Vec<Option<Disk>> = Vec::new();
    let mut i: u32 = 0;
    while i < disk_num
        invariant
            0 <= i <= disk_num,
            disks_buffer@.len() == i,
            forall|k: int| 0 <= k < i ==> disks_buffer@[k] is None,
        decreases disk_num - i,
    {
        disks_buffer.push(None);
        i = i + 1;
    }
    disks_buffer
}

} // verus!
