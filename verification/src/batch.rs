//! Applying queued runners in the order in which they were queued.
//!
//! A batch is a `Vec` of runners; pushing onto it queues a runner. What a
//! batch does to a world is told by a trace: the sequence of worlds that
//! starts with the world before the first callback, ends with the world
//! after the last, and in which each step is one callback's effect.
use vstd::prelude::*;
use bevy::ecs::entity::Entity;
use bevy::ecs::world::World;
use crate::runner::RunEntityCallback;

verus! {

/// Applies the queued runners to `world`, first queued first, each once,
/// and leaves the queue empty.
///
/// Each runner must accept the world that the runners before it leave.
#[verifier::loop_isolation(false)]
pub fn apply_batch<F: Fn(Entity, &mut World) + Copy>(
    batch: &mut Vec<RunEntityCallback<F>>,
    world: &mut World,
)
    requires
        forall|k: int, trace: Seq<World>|
            0 <= k < old(batch)@.len() && trace.len() == k + 1 && trace[0] == *old(world) && (
            forall|i: int|
                #![trigger trace[i]]
                0 <= i < k ==> exists|w: &mut World|
                    *w == trace[i] && *final(w) == trace[i + 1] && call_ensures(
                        old(batch)@[i].func,
                        (old(batch)@[i].entity, w),
                        (),
                    )) ==> #[trigger] old(batch)@[k].accepts(trace[k]),
    ensures
        final(batch)@.len() == 0,
        exists|trace: Seq<World>|
            trace.len() == old(batch)@.len() + 1 && trace[0] == *old(world) && trace[old(
                batch,
            )@.len() as int] == *final(world) && (forall|i: int|
                #![trigger trace[i]]
                0 <= i < old(batch)@.len() ==> exists|w: &mut World|
                    *w == trace[i] && *final(w) == trace[i + 1] && call_ensures(
                        old(batch)@[i].func,
                        (old(batch)@[i].entity, w),
                        (),
                    )),
{
    let ghost mut trace: Seq<World> = seq![*world];
    let mut done: usize = 0;
    while done < batch.len()
        invariant
            batch@ == old(batch)@,
            done <= batch@.len(),
            trace.len() == done + 1,
            trace[0] == *old(world),
            trace[done as int] == *world,
            forall|i: int|
                #![trigger trace[i]]
                0 <= i < done ==> exists|w: &mut World|
                    *w == trace[i] && *final(w) == trace[i + 1] && call_ensures(
                        batch@[i].func,
                        (batch@[i].entity, w),
                        (),
                    ),
        decreases batch@.len() - done,
    {
        let runner = batch[done];
        assert(batch@[done as int].accepts(trace[done as int]));
        runner.apply(world);
        proof {
            trace = trace.push(*world);
        }
        done += 1;
    }
    batch.clear();
}

/// Two batches applied one after the other act as the one batch that holds
/// the runners of the first followed by those of the second: every callback
/// of the earlier batch runs before any callback of the later one.
pub proof fn lemma_batches_in_sequence<F: Fn(Entity, &mut World)>(
    first: Seq<RunEntityCallback<F>>,
    second: Seq<RunEntityCallback<F>>,
    start: World,
    middle: World,
    end: World,
)
    requires
        exists|trace: Seq<World>|
            trace.len() == first.len() + 1 && trace[0] == start && trace[first.len() as int]
                == middle && (forall|i: int|
                #![trigger trace[i]]
                0 <= i < first.len() ==> exists|w: &mut World|
                    *w == trace[i] && *final(w) == trace[i + 1] && call_ensures(
                        first[i].func,
                        (first[i].entity, w),
                        (),
                    )),
        exists|trace: Seq<World>|
            trace.len() == second.len() + 1 && trace[0] == middle && trace[second.len() as int]
                == end && (forall|i: int|
                #![trigger trace[i]]
                0 <= i < second.len() ==> exists|w: &mut World|
                    *w == trace[i] && *final(w) == trace[i + 1] && call_ensures(
                        second[i].func,
                        (second[i].entity, w),
                        (),
                    )),
    ensures
        exists|trace: Seq<World>|
            trace.len() == (first + second).len() + 1 && trace[0] == start && trace[(first
                + second).len() as int] == end && (forall|i: int|
                #![trigger trace[i]]
                0 <= i < (first + second).len() ==> exists|w: &mut World|
                    *w == trace[i] && *final(w) == trace[i + 1] && call_ensures(
                        (first + second)[i].func,
                        ((first + second)[i].entity, w),
                        (),
                    )),
{
    let head = choose|trace: Seq<World>|
        trace.len() == first.len() + 1 && trace[0] == start && trace[first.len() as int] == middle
            && (forall|i: int|
            #![trigger trace[i]]
            0 <= i < first.len() ==> exists|w: &mut World|
                *w == trace[i] && *final(w) == trace[i + 1] && call_ensures(
                    first[i].func,
                    (first[i].entity, w),
                    (),
                ));
    let tail = choose|trace: Seq<World>|
        trace.len() == second.len() + 1 && trace[0] == middle && trace[second.len() as int] == end
            && (forall|i: int|
            #![trigger trace[i]]
            0 <= i < second.len() ==> exists|w: &mut World|
                *w == trace[i] && *final(w) == trace[i + 1] && call_ensures(
                    second[i].func,
                    (second[i].entity, w),
                    (),
                ));
    let whole = head + tail.skip(1);
    let both = first + second;
    assert forall|i: int| #![trigger whole[i]] 0 <= i < both.len() implies exists|w: &mut World|
        *w == whole[i] && *final(w) == whole[i + 1] && call_ensures(
            both[i].func,
            (both[i].entity, w),
            (),
        ) by {
        if i < first.len() {
            assert(whole[i] == head[i]);
            assert(whole[i + 1] == head[i + 1]);
            assert(both[i] == first[i]);
        } else {
            let j = i - first.len();
            assert(whole[i] == tail[j]);
            assert(whole[i + 1] == tail[j + 1]);
            assert(both[i] == second[j]);
        }
    }
    assert(whole.len() == both.len() + 1);
    assert(whole[0] == start);
    assert(whole[both.len() as int] == end);
}

} // verus!
