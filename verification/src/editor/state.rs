//! Edit and play: the simulation runs on a copy of the authored world.

use crate::ecs::world::World;
use vstd::prelude::*;

verus! {

/// What the editor is doing.
#[derive(Clone, Copy, PartialEq, Eq, Structural, Debug)]
pub enum EditorMode {
    /// Authoring.
    Edit,
    /// Simulating a copy of the authored world.
    Playing,
    /// The simulation is frozen.
    Paused,
}

/// The authored world and, while playing, the copy that is simulated.
pub struct EditorState {
    /// What the editor is doing.
    pub mode: EditorMode,
    /// The authored world.
    pub edit_world: World,
    /// The simulated copy; `None` while authoring.
    pub play_world: Option<World>,
}

/// `after` plays: the copy that was there, or a fresh one of the authored world.
pub open spec fn began(before: EditorState, after: EditorState) -> bool {
    &&& after.mode == EditorMode::Playing
    &&& after.edit_world == before.edit_world
    &&& before.mode == EditorMode::Playing ==> after.play_world == before.play_world
    &&& before.mode != EditorMode::Playing ==> after.play_world is Some && after.play_world->0@
        == before.edit_world@
}

/// `after` is paused if `before` played, and else the same.
pub open spec fn paused(before: EditorState, after: EditorState) -> bool {
    &&& after.edit_world == before.edit_world
    &&& after.play_world == before.play_world
    &&& after.mode == if before.mode == EditorMode::Playing {
        EditorMode::Paused
    } else {
        before.mode
    }
}

/// `after` plays if `before` was paused, and else is the same.
pub open spec fn resumed(before: EditorState, after: EditorState) -> bool {
    &&& after.edit_world == before.edit_world
    &&& after.play_world == before.play_world
    &&& after.mode == if before.mode == EditorMode::Paused {
        EditorMode::Playing
    } else {
        before.mode
    }
}

/// `after` authors, without a copy.
pub open spec fn stopped(before: EditorState, after: EditorState) -> bool {
    &&& after.mode == EditorMode::Edit
    &&& after.edit_world == before.edit_world
    &&& after.play_world is None
}

/// `after` is `before` with the authored world replaced.
pub open spec fn authored(before: EditorState, after: EditorState, w: World) -> bool {
    &&& after.mode == before.mode
    &&& after.edit_world == w
    &&& after.play_world == before.play_world
}

/// `after` is `before` with the simulated copy replaced.
pub open spec fn simulated(before: EditorState, after: EditorState, w: World) -> bool {
    &&& after.mode == before.mode
    &&& after.edit_world == before.edit_world
    &&& after.play_world == Some(w)
}

impl EditorState {
    /// Both worlds are well-formed, and there is a copy exactly while playing
    /// or paused.
    pub open spec fn wf(&self) -> bool {
        &&& self.edit_world.wf()
        &&& self.play_world is Some ==> self.play_world->0.wf()
        &&& self.play_world is Some <==> self.mode != EditorMode::Edit
    }

    /// An editor over a world.
    pub fn new(edit_world: World) -> (r: Self)
        requires
            edit_world.wf(),
        ensures
            r.wf(),
            r.mode == EditorMode::Edit,
            r.edit_world == edit_world,
            r.play_world is None,
    {
        EditorState { mode: EditorMode::Edit, edit_world, play_world: None }
    }

    /// Starts to play a copy of the authored world. While playing this does
    /// nothing; from a pause it starts afresh.
    pub fn play(&mut self)
        requires
            old(self).wf(),
        ensures
            final(self).wf(),
            began(*old(self), *final(self)),
    {
        if self.mode == EditorMode::Playing {
            return;
        }
        self.play_world = Some(self.edit_world.clone_state());
        self.mode = EditorMode::Playing;
    }

    /// Freezes the simulation.
    pub fn pause(&mut self)
        requires
            old(self).wf(),
        ensures
            final(self).wf(),
            paused(*old(self), *final(self)),
    {
        if self.mode == EditorMode::Playing {
            self.mode = EditorMode::Paused;
        }
    }

    /// Goes on after a pause.
    pub fn resume(&mut self)
        requires
            old(self).wf(),
        ensures
            final(self).wf(),
            resumed(*old(self), *final(self)),
    {
        if self.mode == EditorMode::Paused {
            self.mode = EditorMode::Playing;
        }
    }

    /// Drops the copy and goes back to authoring.
    pub fn stop(&mut self)
        requires
            old(self).wf(),
        ensures
            final(self).wf(),
            stopped(*old(self), *final(self)),
    {
        self.play_world = None;
        self.mode = EditorMode::Edit;
    }

    /// The world on display: the copy while there is one, else the authored
    /// world.
    pub fn active_world(&self) -> (r: &World)
        ensures
            *r == match self.play_world {
                Some(w) => w,
                None => self.edit_world,
            },
    {
        match &self.play_world {
            Some(w) => w,
            None => &self.edit_world,
        }
    }

    /// The world that may be changed now: the authored world while authoring,
    /// else the copy. What is done with it changes nothing else.
    pub fn mutable_world(&mut self) -> (r: Option<&mut World>)
        requires
            old(self).wf(),
        ensures
            r is Some,
            old(self).mode == EditorMode::Edit ==> *r->0 == old(self).edit_world && authored(
                *old(self),
                *final(self),
                *final(r->0),
            ),
            old(self).mode != EditorMode::Edit ==> Some(*r->0) == old(self).play_world
                && simulated(*old(self), *final(self), *final(r->0)),
    {
        match self.mode {
            EditorMode::Edit => Some(&mut self.edit_world),
            EditorMode::Playing | EditorMode::Paused => self.play_world.as_mut(),
        }
    }

    /// Whether edits are allowed.
    pub fn can_edit(&self) -> (r: bool)
        ensures
            r == (self.mode == EditorMode::Edit),
    {
        self.mode == EditorMode::Edit
    }
}

/// One step of an editor that does not author: starting, pausing, resuming or
/// stopping to play, or a change made to the simulated copy.
pub open spec fn session_step(before: EditorState, after: EditorState) -> bool {
    ||| began(before, after)
    ||| paused(before, after)
    ||| resumed(before, after)
    ||| stopped(before, after)
    ||| exists|w: World| simulated(before, after, w)
}

/// However long an editor plays, pauses, simulates and stops, the authored world
/// stays as it was.
pub proof fn law_play_never_touches_edit(states: Seq<EditorState>, n: int)
    requires
        0 <= n < states.len(),
        forall|i: int|
            0 <= i < states.len() - 1 ==> session_step(#[trigger] states[i], states[i + 1]),
    ensures
        states[n].edit_world == states[0].edit_world,
    decreases n,
{
    if n > 0 {
        law_play_never_touches_edit(states, n - 1);
        assert(session_step(states[n - 1], states[n - 1 + 1]));
    }
}

/// A session begins with the authored world, and nothing of it is left when it
/// ends.
pub proof fn law_play_starts_from_edit(before: EditorState, begun: EditorState, end: EditorState)
    requires
        before.mode == EditorMode::Edit,
        began(before, begun),
        stopped(begun, end),
    ensures
        begun.play_world is Some,
        begun.play_world->0@ == before.edit_world@,
        end.play_world is None,
        end.mode == EditorMode::Edit,
        end.edit_world == before.edit_world,
{
}

/// A pause keeps the copy as it is, and going on after it plays that same copy.
pub proof fn law_pause_and_resume(a: EditorState, b: EditorState, c: EditorState)
    requires
        a.mode == EditorMode::Playing,
        paused(a, b),
        resumed(b, c),
    ensures
        b.mode == EditorMode::Paused,
        b.play_world == a.play_world,
        c == a,
{
}

/// Playing again from a pause starts afresh from the authored world; while playing
/// it changes nothing.
pub proof fn law_play_again(a: EditorState, b: EditorState)
    requires
        began(a, b),
    ensures
        b.mode == EditorMode::Playing,
        a.mode == EditorMode::Playing ==> b == a,
        a.mode == EditorMode::Paused ==> b.play_world is Some && b.play_world->0@
            == a.edit_world@,
{
}

/// Pausing while nothing plays and going on while nothing is paused change nothing.
pub proof fn law_nothing_to_pause(a: EditorState, b: EditorState, c: EditorState)
    requires
        paused(a, b),
        resumed(a, c),
    ensures
        a.mode != EditorMode::Playing ==> b == a,
        a.mode != EditorMode::Paused ==> c == a,
        a.mode == EditorMode::Paused ==> c.mode == EditorMode::Playing,
{
}

/// A change to the authored world leaves the copy alone, and a change to the copy
/// the authored world.
pub proof fn law_worlds_are_apart(
    a: EditorState,
    b: EditorState,
    c: EditorState,
    v: World,
    w: World,
)
    requires
        authored(a, b, v),
        simulated(a, c, w),
    ensures
        b.edit_world == v,
        b.play_world == a.play_world,
        c.edit_world == a.edit_world,
        c.play_world == Some(w),
        b.mode == a.mode,
        c.mode == a.mode,
{
}

} // verus!
