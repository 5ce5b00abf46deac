//! The runner: one callback, bound to one entity, waiting to be applied.
use vstd::prelude::*;
use bevy::ecs::entity::Entity;
use bevy::ecs::world::World;

verus! {

/// The plain function form of a callback.
pub type EntityCallback = fn(Entity, &mut World);

/// A callback together with the entity that it is to run for.
///
/// Building one runs nothing; the callback runs when the runner is applied.
pub struct RunEntityCallback<F = EntityCallback> {
    pub entity: Entity,
    pub func: F,
}

impl<F: Copy> Clone for RunEntityCallback<F> {
    fn clone(&self) -> (copy: Self)
        ensures
            copy == *self,
    {
        *self
    }
}

impl<F: Copy> Copy for RunEntityCallback<F> {

}

impl<F: Fn(Entity, &mut World)> RunEntityCallback<F> {
    /// The callback may be called for the stored entity on a world that
    /// currently is `world`.
    ///
    /// A callback that cannot run on some worlds, for one because it looks
    /// its entity up and the entity is gone, says so in its precondition;
    /// this is that precondition, with nothing added.
    pub open spec fn accepts(self, world: World) -> bool {
        forall|w: &mut World| *w == world ==> call_requires(self.func, (self.entity, w))
    }

    /// Calls the stored callback once, with the stored entity and `world`.
    ///
    /// The world is left as a direct call of the callback with the same
    /// entity on the same world leaves it: the step from `old(world)` to
    /// `final(world)` is one that the callback's own contract allows, and
    /// nothing else touches the world.
    pub fn apply(self, world: &mut World)
        requires
            self.accepts(*old(world)),
        ensures
            exists|w: &mut World|
                *w == *old(world) && *final(w) == *final(world) && call_ensures(
                    self.func,
                    (self.entity, w),
                    (),
                ),
    {
        (self.func)(self.entity, world)
    }
}

/// A callback that never changes the world makes a runner that leaves every
/// world as it found it.
pub proof fn lemma_inert_callback_keeps_world<F: Fn(Entity, &mut World)>(
    runner: RunEntityCallback<F>,
    before: World,
    after: World,
)
    requires
        forall|w: &mut World|
            call_ensures(runner.func, (runner.entity, w), ()) ==> *final(w) == *w,
        exists|w: &mut World|
            *w == before && *final(w) == after && call_ensures(
                runner.func,
                (runner.entity, w),
                (),
            ),
    ensures
        after == before,
{
}

} // verus!
