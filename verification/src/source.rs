//! Fan-out from the capture callback to the destinations.
//!
//! The capture callback is the only producer: it writes the same block into
//! every destination's ring. Adding or removing a destination while audio flows
//! therefore means mutating a list this callback walks, without ever allocating
//! or freeing memory inside it.
//!
//! The arrangement rests on two bounded, pre-allocated queues (crossbeam's
//! `ArrayQueue`): the engine drops its orders into one, the callback hands
//! retired taps back through the other. The list itself is reserved at maximum
//! size once and for all, so an attachment is just a write and a detachment
//! just a swap.
//!
//! Both queues are shared with another thread, which may push or pop at any
//! moment; nothing is claimed about their contents, only about what this side
//! does with what it gets.

use vstd::prelude::*;
use std::sync::Arc;
use crossbeam_queue::ArrayQueue;
use crate::model::TargetTelemetry;
use crate::ring::{write_took, RingWriter};

verus! {

#[verifier::external_type_specification]
#[verifier::external_body]
#[verifier::reject_recursive_types(T)]
pub struct ExArrayQueue<T>(ArrayQueue<T>);

/// `ArrayQueue::new`. crossbeam panics on a zero capacity; `requires` keeps it
/// out.
#[verifier::external_body]
fn new_queue<T>(capacity: usize) -> ArrayQueue<T>
    requires
        capacity > 0,
{
    ArrayQueue::new(capacity)
}

/// `ArrayQueue::push`: enqueues `value`, or hands it back when the queue is
/// full.
#[verifier::external_body]
fn queue_push<T>(queue: &ArrayQueue<T>, value: T) -> (result: Result<(), T>)
    ensures
        result matches Err(back) ==> back == value,
{
    queue.push(value)
}

/// `ArrayQueue::pop`: the oldest element, if any. Another thread may push at
/// any moment, so nothing is stated.
#[verifier::external_body]
fn queue_pop<T>(queue: &ArrayQueue<T>) -> Option<T> {
    queue.pop()
}

/// How many destinations can be fed at once. Far beyond any real use, but
/// bounded: the callback must never have to grow its list.
pub const MAX_TARGETS: usize = 64;

/// Capacity of each of the two queues between the engine and the callback.
pub const QUEUE_CAPACITY: usize = 128;

/// A connection from capture to one destination.
pub struct Tap {
    pub key: u64,
    pub writer: RingWriter,
    pub telemetry: Arc<TargetTelemetry>,
}

/// An order left by the engine for the capture callback.
pub enum TapOrder {
    Attach(Box<Tap>),
    Detach(u64),
}

/// Index of the first tap with this key, if any.
pub open spec fn tap_position(taps: Seq<Box<Tap>>, key: u64) -> Option<int> {
    if exists|i: int| 0 <= i < taps.len() && #[trigger] taps[i].key == key {
        Some(choose|i: int|
            0 <= i < taps.len() && #[trigger] taps[i].key == key && forall|j: int|
                0 <= j < i ==> #[trigger] taps[j].key != key)
    } else {
        None
    }
}

/// The two queues between the engine and the capture callback: orders one
/// way, retired taps the other, each pre-allocated to [`QUEUE_CAPACITY`].
pub fn tap_queues() -> (ArrayQueue<TapOrder>, ArrayQueue<Box<Tap>>) {
    (new_queue(QUEUE_CAPACITY), new_queue(QUEUE_CAPACITY))
}

/// Leaves an order with the capture callback; false when the queue is full.
pub fn post_order(orders: &ArrayQueue<TapOrder>, order: TapOrder) -> bool {
    queue_push(orders, order).is_ok()
}

fn find_tap(taps: &Vec<Box<Tap>>, key: u64) -> (position: Option<usize>)
    ensures
        match position {
            Some(i) => i < taps@.len() && taps@[i as int].key == key && forall|j: int|
                0 <= j < i ==> #[trigger] taps@[j].key != key,
            None => forall|j: int| 0 <= j < taps@.len() ==> #[trigger] taps@[j].key != key,
        },
{
    let mut index: usize = 0;
    while index < taps.len()
        invariant
            0 <= index <= taps@.len(),
            forall|j: int| 0 <= j < index ==> #[trigger] taps@[j].key != key,
        decreases taps@.len() - index,
    {
        if taps[index].key == key {
            return Some(index);
        }
        index = index + 1;
    }
    None
}

/// Applies one order to the callback's list and returns the tap that leaves
/// it, which must travel back to be freed off the audio thread.
///
/// An attachment joins the end of the list while there is room for it, and is
/// handed straight back otherwise. A detachment takes out the first tap with
/// that key, the last tap taking its place; an unknown key changes nothing.
pub fn apply_order(taps: &mut Vec<Box<Tap>>, order: TapOrder) -> (retired: Option<Box<Tap>>)
    requires
        old(taps)@.len() <= MAX_TARGETS,
    ensures
        final(taps)@.len() <= MAX_TARGETS,
        match order {
            TapOrder::Attach(tap) => if old(taps)@.len() < MAX_TARGETS {
                &&& final(taps)@ == old(taps)@.push(tap)
                &&& retired is None
            } else {
                &&& final(taps)@ == old(taps)@
                &&& retired == Some(tap)
            },
            TapOrder::Detach(key) => match tap_position(old(taps)@, key) {
                Some(i) => {
                    &&& retired == Some(old(taps)@[i])
                    &&& final(taps)@ == old(taps)@.update(i, old(taps)@.last()).drop_last()
                },
                None => {
                    &&& retired is None
                    &&& final(taps)@ == old(taps)@
                },
            },
        },
{
    match order {
        TapOrder::Attach(tap) => {
            if taps.len() < MAX_TARGETS {
                taps.push(tap);
                None
            } else {
                Some(tap)
            }
        },
        TapOrder::Detach(key) => {
            match find_tap(taps, key) {
                Some(index) => {
                    proof {
                        let i = index as int;
                        assert(exists|k: int| 0 <= k < old(taps)@.len() && #[trigger] old(taps)@[k].key == key) by {
                            assert(old(taps)@[i].key == key);
                        }
                        let c = tap_position(old(taps)@, key)->0;
                        assert(c == i) by {
                            if c < i {
                                assert(old(taps)@[c].key != key);
                            } else if c > i {
                                assert(old(taps)@[i].key != key);
                            }
                        }
                    }
                    let ghost before = taps@;
                    let removed = taps.swap_remove(index);
                    proof {
                        assert(taps@ =~= before.update(index as int, before.last()).drop_last());
                    }
                    Some(removed)
                },
                None => None,
            }
        },
    }
}

/// The list after one order: an attachment joins the end while there is
/// room; a detachment swaps the last tap into the place of the first tap with
/// that key; an unknown key changes nothing.
pub open spec fn after_order(taps: Seq<Box<Tap>>, order: TapOrder) -> Seq<Box<Tap>> {
    match order {
        TapOrder::Attach(tap) => if taps.len() < MAX_TARGETS {
            taps.push(tap)
        } else {
            taps
        },
        TapOrder::Detach(key) => match tap_position(taps, key) {
            Some(i) => taps.update(i, taps.last()).drop_last(),
            None => taps,
        },
    }
}

/// The list after a run of orders, applied in turn.
pub open spec fn after_orders(taps: Seq<Box<Tap>>, orders: Seq<TapOrder>) -> Seq<Box<Tap>>
    decreases orders.len(),
{
    if orders.len() == 0 {
        taps
    } else {
        after_order(after_orders(taps, orders.drop_last()), orders.last())
    }
}

/// Applies every pending order. Nothing allocates: the list was reserved to
/// [`MAX_TARGETS`], and retired taps travel to the return queue instead of
/// being dropped here. The list never outgrows its reservation.
///
/// Which orders were pending is up to the engine's thread; whatever they
/// were, the list is what applying them in turn makes of it.
pub fn apply_orders(orders: &ArrayQueue<TapOrder>, released: &ArrayQueue<Box<Tap>>, taps: &mut Vec<Box<Tap>>)
    requires
        old(taps)@.len() <= MAX_TARGETS,
    ensures
        final(taps)@.len() <= MAX_TARGETS,
        exists|applied: Seq<TapOrder>| final(taps)@ == #[trigger] after_orders(old(taps)@, applied),
{
    let ghost start = taps@;
    let ghost mut applied: Seq<TapOrder> = Seq::empty();
    let mut drained: usize = 0;
    loop
        invariant
            taps@.len() <= MAX_TARGETS,
            taps@ == after_orders(start, applied),
        decreases usize::MAX - drained,
    {
        let order = match queue_pop(orders) {
            Some(order) => order,
            None => {
                break;
            },
        };
        let ghost taken = order;
        let ghost before = taps@;
        if let Some(retired) = apply_order(taps, order) {
            let _ = queue_push(released, retired);
        }
        proof {
            assert(taps@ == after_order(before, taken));
            assert(applied.push(taken).drop_last() =~= applied);
            applied = applied.push(taken);
        }
        if drained == usize::MAX {
            break;
        }
        drained = drained + 1;
    }
    proof {
        assert(taps@ == after_orders(start, applied));
    }
}

/// Collects the taps handed back by the callback, so they are freed by the
/// caller rather than on the audio thread.
pub fn collect_released(retired: &ArrayQueue<Box<Tap>>) -> Vec<Box<Tap>> {
    let mut released: Vec<Box<Tap>> = Vec::new();
    let mut drained: usize = 0;
    loop
        decreases usize::MAX - drained,
    {
        match queue_pop(retired) {
            Some(tap) => released.push(tap),
            None => {
                break;
            },
        }
        if drained == usize::MAX {
            break;
        }
        drained = drained + 1;
    }
    released
}

/// One tap's turn in the fan-out, once its writer has said whether the
/// destination behind it is gone: a gone tap leaves the list, the last tap
/// taking its place, and is handed back to travel to the return queue; any
/// other tap stays where it is.
pub fn settle_tap(taps: &mut Vec<Box<Tap>>, index: usize, abandoned: bool) -> (retired: Option<Box<Tap>>)
    requires
        index < old(taps)@.len(),
    ensures
        abandoned ==> retired == Some(old(taps)@[index as int]),
        abandoned ==> final(taps)@ == old(taps)@.update(index as int, old(taps)@.last()).drop_last(),
        !abandoned ==> retired is None && final(taps)@ == old(taps)@,
{
    if abandoned {
        let ghost before = taps@;
        let retired = taps.swap_remove(index);
        proof {
            assert(taps@ =~= before.update(index as int, before.last()).drop_last());
        }
        Some(retired)
    } else {
        None
    }
}

/// A tap after the block went through it: same destination, same ring (the
/// same stream its destination reads), with
/// a leading part of the block appended to what its writer has written, as
/// much as the room its write measured took ([`write_took`]).
pub open spec fn fed(before: Box<Tap>, after: Box<Tap>, block: Seq<u32>) -> bool {
    &&& after.key == before.key
    &&& after.telemetry == before.telemetry
    &&& after.writer.wf()
    &&& after.writer.spec_channels() == before.writer.spec_channels()
    &&& after.writer.capacity() == before.writer.capacity()
    &&& after.writer.stream() == before.writer.stream()
    &&& exists|accepted: int|
        #![trigger block.subrange(0, accepted)]
        {
            &&& 0 <= accepted <= block.len()
            &&& after.writer.written() == before.writer.written() + block.subrange(0, accepted)
            &&& write_took(
                accepted,
                block.len() as int,
                before.writer.written().len() as int,
                before.writer.capacity() as int,
                before.writer.spec_channels() as int,
            )
        }
}

/// `origin` tells, for each tap now in the list, where it stood before: each
/// earlier tap at most once, every one of them fed the block.
pub open spec fn traced(before: Seq<Box<Tap>>, after: Seq<Box<Tap>>, block: Seq<u32>, origin: Seq<int>) -> bool {
    &&& origin.len() == after.len()
    &&& forall|i: int| 0 <= i < origin.len() ==> 0 <= #[trigger] origin[i] < before.len()
    &&& forall|i: int, j: int| 0 <= i < j < origin.len() ==> #[trigger] origin[i] != #[trigger] origin[j]
    &&& forall|i: int| 0 <= i < origin.len() ==> fed(before[#[trigger] origin[i]], after[i], block)
}

pub open spec fn taps_wf(taps: Seq<Box<Tap>>) -> bool {
    forall|i: int| 0 <= i < taps.len() ==> (#[trigger] taps[i]).writer.wf()
}

/// Writes the block into every destination's ring, counting what each turns
/// away as overruns. A destination whose stream has ended abandons its ring;
/// it is let go without waiting for the engine to say so, the last tap taking
/// its place in the list.
///
/// Every tap left in the list was in it before, each at most once, and has
/// been fed the block.
pub fn distribute(block: &[u32], taps: &mut Vec<Box<Tap>>, released: &ArrayQueue<Box<Tap>>)
    requires
        taps_wf(old(taps)@),
    ensures
        final(taps)@.len() <= old(taps)@.len(),
        taps_wf(final(taps)@),
        exists|origin: Seq<int>| #[trigger] traced(old(taps)@, final(taps)@, block@, origin),
{
    let ghost start = taps@;
    let ghost mut origin: Seq<int> = Seq::new(taps@.len(), |i: int| i);
    let mut index: usize = 0;
    while index < taps.len()
        invariant
            taps@.len() <= start.len(),
            origin.len() == taps@.len(),
            0 <= index <= taps@.len(),
            forall|i: int| 0 <= i < origin.len() ==> 0 <= #[trigger] origin[i] < start.len(),
            forall|i: int, j: int| 0 <= i < j < origin.len() ==> #[trigger] origin[i] != #[trigger] origin[j],
            forall|i: int| 0 <= i < index ==> fed(start[#[trigger] origin[i]], taps@[i], block@),
            forall|i: int| index <= i < taps@.len() ==> start[#[trigger] origin[i]] == taps@[i],
            taps_wf(start),
            forall|i: int| 0 <= i < index ==> (#[trigger] taps@[i]).writer.wf(),
        decreases taps@.len() - index,
    {
        let abandoned = taps[index].writer.is_abandoned();
        if abandoned {
            let ghost before = taps@;
            let ghost before_origin = origin;
            let retired = settle_tap(taps, index, abandoned);
            proof {
                origin = before_origin.update(index as int, before_origin.last()).drop_last();
                assert forall|i: int, j: int| 0 <= i < j < origin.len() implies #[trigger] origin[i]
                    != #[trigger] origin[j] by {
                    if j == index {
                        assert(before_origin[i] != before_origin[before_origin.len() - 1]);
                    } else if i == index {
                        assert(before_origin[j] != before_origin[before_origin.len() - 1]);
                    } else {
                        assert(before_origin[i] != before_origin[j]);
                    }
                }
                assert forall|i: int| index <= i < taps@.len() implies start[#[trigger] origin[i]] == taps@[i] by {
                    if i == index {
                        assert(start[before_origin[before_origin.len() - 1]] == before[before.len() - 1]);
                    } else {
                        assert(start[before_origin[i]] == before[i]);
                    }
                }
                assert forall|i: int| 0 <= i < index implies fed(start[#[trigger] origin[i]], taps@[i], block@) by {
                    assert(fed(start[before_origin[i]], before[i], block@));
                }
                assert forall|i: int| 0 <= i < origin.len() implies 0 <= #[trigger] origin[i] < start.len() by {
                    if i == index {
                        assert(0 <= before_origin[before_origin.len() - 1] < start.len());
                    } else {
                        assert(0 <= before_origin[i] < start.len());
                    }
                }
                assert forall|i: int| 0 <= i < index implies (#[trigger] taps@[i]).writer.wf() by {
                    assert(before[i].writer.wf());
                }
            }
            if let Some(tap) = retired {
                let _ = queue_push(released, tap);
            }
            continue;
        }

        let ghost before = taps@;
        let mut tap = taps.remove(index);
        proof {
            assert(tap == start[origin[index as int]]);
        }
        let rejected = tap.writer.write(block);
        if rejected > 0 {
            tap.telemetry.add_overruns(rejected as u64);
        }
        taps.insert(index, tap);
        proof {
            assert(taps@ =~= before.update(index as int, tap));
            let accepted = choose|accepted: int|
                #![trigger block@.subrange(0, accepted)]
                {
                    &&& 0 <= accepted <= block@.len()
                    &&& accepted <= start[origin[index as int]].writer.capacity()
                    &&& (block@.len() as int) % (start[origin[index as int]].writer.spec_channels() as int) == 0
                        ==> accepted % (start[origin[index as int]].writer.spec_channels() as int) == 0
                    &&& rejected == (block@.len() - accepted) / (start[origin[index as int]].writer.spec_channels() as int)
                    &&& tap.writer.written() == start[origin[index as int]].writer.written() + block@.subrange(0, accepted)
                    &&& write_took(
                        accepted,
                        block@.len() as int,
                        start[origin[index as int]].writer.written().len() as int,
                        start[origin[index as int]].writer.capacity() as int,
                        start[origin[index as int]].writer.spec_channels() as int,
                    )
                };
            assert(fed(start[origin[index as int]], tap, block@));
        }
        index = index + 1;
    }
    proof {
        assert(traced(start, taps@, block@, origin));
    }
}

} // verus!
