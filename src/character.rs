//! The movement and walk-cycle state machine of the controlled actor.
use vstd::prelude::*;

use crate::input::Orientation;
use crate::TILE_SIZE;

verus! {

/// Number of ticks that one tile-to-tile transit takes.
pub const TILE_MOVEMENT_DURATION_IN_LOOP: u8 = 16;

/// Number of ticks during which one walk-cycle frame is shown.
pub const TICKS_PER_FRAME: u8 = 4;

/// Translation of the actor for one tick, in world units; `y` grows upwards.
#[derive(Clone, Copy, Debug, PartialEq, Eq, Structural)]
pub struct Movement {
    pub x: i32,
    pub y: i32,
}

/// What one tick of a transit asks the caller to apply to the actor.
#[derive(Clone, Copy, Debug, PartialEq, Eq, Structural)]
pub struct TickOutput {
    pub movement: Movement,
    pub sprite_number: usize,
}

/// The movement state of the actor, as plain values.
pub struct MovementState {
    pub is_moving: bool,
    pub orientation: Orientation,
    pub frame_counter: nat,
    pub next_frame: nat,
    pub timer_movement: Option<nat>,
}

/// Movement and walk-cycle animation of one actor, advanced once per tick.
pub struct CharacterSystem {
    is_moving: bool,
    next_frame: usize,
    frame_counter: u8,
    orientation: Orientation,
    timer_movement: Option<u8>,
}

/// First sprite of the four-frame walk cycle of each orientation.
pub open spec fn base_frame(o: Orientation) -> nat {
    match o {
        Orientation::Right => 12,
        Orientation::Left => 8,
        Orientation::Down => 0,
        Orientation::Up => 4,
    }
}

/// Position within the walk cycle while `frame_counter` ticks of the transit
/// remain: each frame is shown for four ticks, and the transit ends back on
/// the first frame.
pub open spec fn cycle_phase(frame_counter: nat) -> nat {
    if 1 <= frame_counter <= 15 {
        ((15 - frame_counter) / 4) as nat
    } else {
        0
    }
}

pub open spec fn frame_of(o: Orientation, frame_counter: nat) -> nat {
    base_frame(o) + cycle_phase(frame_counter)
}

/// Distance covered in one tick of a transit.
pub open spec fn step_length() -> int {
    TILE_SIZE as int / TILE_MOVEMENT_DURATION_IN_LOOP as int
}

/// The translation of magnitude `m` towards `o`.
pub open spec fn translation(o: Orientation, m: int) -> (int, int) {
    match o {
        Orientation::Right => (m, 0),
        Orientation::Left => (-m, 0),
        Orientation::Down => (0, -m),
        Orientation::Up => (0, m),
    }
}

/// Whether the walk cycle moves one frame on at a tick begun with
/// `frame_counter` ticks left: every fourth sub-step, the first aside.
pub open spec fn sprite_advances(frame_counter: nat) -> bool {
    frame_counter % TICKS_PER_FRAME as nat == 0 && frame_counter < TILE_MOVEMENT_DURATION_IN_LOOP
}

/// The frame shown after a tick begun with `frame_counter` ticks left and
/// frame `next_frame`: one further on every fourth sub-step, back three
/// on the last sub-step, else the same.
pub open spec fn sprite_after(frame_counter: nat, next_frame: nat) -> nat {
    if sprite_advances(frame_counter) {
        next_frame + 1
    } else if frame_counter == 1 {
        (next_frame - 3) as nat
    } else {
        next_frame
    }
}

/// Stepping the frame of a transit by the walk-cycle rule keeps it the
/// frame of the ticks then left: it stays within the four frames of the
/// orientation and comes back to the first on the last sub-step.
pub proof fn lemma_sprite_step(o: Orientation, frame_counter: nat)
    requires
        1 <= frame_counter <= TILE_MOVEMENT_DURATION_IN_LOOP,
    ensures
        sprite_after(frame_counter, frame_of(o, frame_counter)) == frame_of(
            o,
            (frame_counter - 1) as nat,
        ),
        base_frame(o) <= frame_of(o, (frame_counter - 1) as nat) <= base_frame(o) + 3,
        base_frame(o) + 3 < 16,
{
}

impl MovementState {
    /// The state holds together: a transit in progress has between 1 and
    /// `TILE_MOVEMENT_DURATION_IN_LOOP` ticks left, with the timer and the
    /// walk-cycle frame in step with them; an idle actor has no ticks left
    /// and shows the first frame of its orientation.
    pub open spec fn wf(self) -> bool {
        if self.is_moving {
            &&& 1 <= self.frame_counter <= TILE_MOVEMENT_DURATION_IN_LOOP
            &&& self.timer_movement == Some(self.frame_counter)
            &&& self.next_frame == frame_of(self.orientation, self.frame_counter)
        } else {
            &&& self.frame_counter == 0
            &&& self.next_frame == base_frame(self.orientation)
            &&& (self.timer_movement is None || self.timer_movement == Some(
                TILE_MOVEMENT_DURATION_IN_LOOP as nat,
            ))
        }
    }

    /// The state right after a transit towards `o` has been begun.
    pub open spec fn transit_begun(o: Orientation) -> MovementState {
        MovementState {
            is_moving: true,
            orientation: o,
            frame_counter: TILE_MOVEMENT_DURATION_IN_LOOP as nat,
            next_frame: base_frame(o),
            timer_movement: Some(TILE_MOVEMENT_DURATION_IN_LOOP as nat),
        }
    }

    /// One tick of a transit already in progress: one sub-step is consumed,
    /// the orientation is kept and the frame follows the walk cycle.
    pub open spec fn advanced(self) -> MovementState {
        let left = (self.frame_counter - 1) as nat;
        MovementState {
            is_moving: left > 0,
            orientation: self.orientation,
            frame_counter: left,
            next_frame: frame_of(self.orientation, left),
            timer_movement: Some(
                if left > 0 {
                    left
                } else {
                    TILE_MOVEMENT_DURATION_IN_LOOP as nat
                },
            ),
        }
    }

    /// The state after one tick on which `requested` is the resolved input:
    /// an idle actor begins a transit when a direction is requested, and a
    /// moving one goes on whatever is requested.
    pub open spec fn tick(self, requested: Option<Orientation>) -> MovementState {
        if self.is_moving {
            self.advanced()
        } else {
            match requested {
                Some(o) => MovementState::transit_begun(o).advanced(),
                None => self,
            }
        }
    }

    /// What the caller is asked to apply on that tick: nothing when the actor
    /// stays idle, else one step towards its orientation and the frame after
    /// the tick.
    pub open spec fn tick_output(self, requested: Option<Orientation>) -> Option<(int, int, nat)> {
        let next = self.tick(requested);
        if !self.is_moving && requested is None {
            None
        } else {
            let (dx, dy) = translation(next.orientation, step_length());
            Some((dx, dy, next.next_frame))
        }
    }
}

impl TickOutput {
    pub open spec fn view(self) -> (int, int, nat) {
        (self.movement.x as int, self.movement.y as int, self.sprite_number as nat)
    }
}

impl View for CharacterSystem {
    type V = MovementState;

    closed spec fn view(&self) -> MovementState {
        MovementState {
            is_moving: self.is_moving,
            orientation: self.orientation,
            frame_counter: self.frame_counter as nat,
            next_frame: self.next_frame as nat,
            timer_movement: match self.timer_movement {
                Some(t) => Some(t as nat),
                None => None,
            },
        }
    }
}

impl CharacterSystem {
    /// An idle actor facing down, showing the first frame of that direction.
    pub fn new() -> (r: CharacterSystem)
        ensures
            r@.wf(),
            !r@.is_moving,
            r@.orientation == Orientation::Down,
            r@.next_frame == 0,
            r@.frame_counter == 0,
            r@.timer_movement is None,
    {
        CharacterSystem {
            is_moving: false,
            next_frame: 0,
            frame_counter: 0,
            orientation: Orientation::Down,
            timer_movement: None,
        }
    }

    pub fn is_moving(&self) -> (r: bool)
        ensures
            r == self@.is_moving,
    {
        self.is_moving
    }

    pub fn orientation(&self) -> (r: Orientation)
        ensures
            r == self@.orientation,
    {
        self.orientation
    }

    pub fn frame_counter(&self) -> (r: u8)
        ensures
            r as nat == self@.frame_counter,
    {
        self.frame_counter
    }

    pub fn next_frame(&self) -> (r: usize)
        ensures
            r as nat == self@.next_frame,
    {
        self.next_frame
    }

    /// Begins a transit towards `orientation`, whatever the state before.
    pub fn init_movement(&mut self, orientation: Orientation)
        ensures
            final(self)@ == MovementState::transit_begun(orientation),
            final(self)@.wf(),
    {
        self.frame_counter = TILE_MOVEMENT_DURATION_IN_LOOP;
        self.orientation = orientation;
        self.is_moving = true;
        self.timer_movement = Some(TILE_MOVEMENT_DURATION_IN_LOOP);
        self.next_frame = match self.orientation {
            Orientation::Right => 12,
            Orientation::Left => 8,
            Orientation::Down => 0,
            Orientation::Up => 4,
        };
    }

    /// Moves the walk cycle on by one tick, seen from the ticks left before
    /// this one is consumed: one frame further on every fourth sub-step of
    /// the transit, back three frames on its last one.
    fn handle_sprite_update(&mut self)
        requires
            old(self)@.frame_counter == 1 ==> old(self)@.next_frame >= 3,
            sprite_advances(old(self)@.frame_counter) ==> old(self)@.next_frame < usize::MAX,
        ensures
            final(self)@ == (MovementState {
                next_frame: sprite_after(old(self)@.frame_counter, old(self)@.next_frame),
                ..old(self)@
            }),
    {
        if self.frame_counter % TICKS_PER_FRAME == 0
            && self.frame_counter < TILE_MOVEMENT_DURATION_IN_LOOP
        {
            self.next_frame = self.next_frame + 1;
        } else if self.frame_counter == 1 {
            self.next_frame = self.next_frame - 3;
        }
    }

    /// Consumes one tick of the transit and gives the distance covered in it;
    /// the transit ends when its timer runs out. Without a timer nothing
    /// moves and nothing changes.
    fn calculate_smooth_movement(&mut self) -> (r: i32)
        requires
            old(self)@.timer_movement is Some ==> 1 <= old(self)@.frame_counter,
        ensures
            match old(self)@.timer_movement {
                Some(t) => {
                    &&& r == step_length()
                    &&& final(self)@ == (MovementState {
                        is_moving: t > 1 && old(self)@.is_moving,
                        frame_counter: (old(self)@.frame_counter - 1) as nat,
                        timer_movement: Some(
                            if t > 1 {
                                (t - 1) as nat
                            } else {
                                TILE_MOVEMENT_DURATION_IN_LOOP as nat
                            },
                        ),
                        ..old(self)@
                    })
                },
                None => r == 0 && final(self)@ == old(self)@,
            },
    {
        match self.timer_movement {
            Some(val) => {
                self.frame_counter = self.frame_counter - 1;
                if val <= 1 {
                    self.timer_movement = Some(TILE_MOVEMENT_DURATION_IN_LOOP);
                    self.is_moving = false;
                } else {
                    self.timer_movement = Some(val - 1);
                }
                TILE_SIZE / (TILE_MOVEMENT_DURATION_IN_LOOP as i32)
            },
            None => 0,
        }
    }

    /// The translation of magnitude `multiplier` towards the orientation.
    fn calculate_translation(&self, multiplier: i32) -> (r: Movement)
        requires
            multiplier > i32::MIN,
        ensures
            (r.x as int, r.y as int) == translation(self@.orientation, multiplier as int),
    {
        match self.orientation {
            Orientation::Right => Movement { x: multiplier, y: 0 },
            Orientation::Left => Movement { x: -multiplier, y: 0 },
            Orientation::Down => Movement { x: 0, y: -multiplier },
            Orientation::Up => Movement { x: 0, y: multiplier },
        }
    }

    /// Advances the actor by one tick on which `requested` is the resolved
    /// input. An idle actor begins a transit when a direction is requested; a
    /// transit in progress runs on whatever is requested. Gives the
    /// translation and sprite for the tick, or `None` when the actor stays
    /// idle.
    pub fn run(&mut self, requested: Option<Orientation>) -> (r: Option<TickOutput>)
        requires
            old(self)@.wf(),
        ensures
            final(self)@.wf(),
            final(self)@ == old(self)@.tick(requested),
            old(self)@.is_moving ==> final(self)@.orientation == old(self)@.orientation,
            match r {
                Some(out) => old(self)@.tick_output(requested) == Some(out.view()),
                None => old(self)@.tick_output(requested) is None,
            },
    {
        if self.is_moving && self.frame_counter == 0 {
            self.is_moving = false;
        }
        if !self.is_moving {
            if let Some(orientation) = requested {
                self.init_movement(orientation);
            }
        }
        if self.is_moving {
            proof {
                lemma_sprite_step(self.orientation, self.frame_counter as nat);
            }
            self.handle_sprite_update();
            let multiplier: i32 = self.calculate_smooth_movement();
            let movement = self.calculate_translation(multiplier);
            Some(TickOutput { movement, sprite_number: self.next_frame })
        } else {
            None
        }
    }
}

/// What a run of ticks asks the caller to apply, tick by tick.
pub type TickOutputs = Seq<Option<(int, int, nat)>>;

/// The state after each of `requests` in turn, and the output of each tick.
pub open spec fn run_ticks(s: MovementState, requests: Seq<Option<Orientation>>) -> (
    MovementState,
    TickOutputs,
)
    decreases requests.len(),
{
    if requests.len() == 0 {
        (s, Seq::empty())
    } else {
        let rest = run_ticks(s.tick(requests[0]), requests.drop_first());
        (rest.0, seq![s.tick_output(requests[0])] + rest.1)
    }
}

/// Sum of the translations in `outputs`.
pub open spec fn total_translation(outputs: TickOutputs) -> (int, int)
    decreases outputs.len(),
{
    if outputs.len() == 0 {
        (0, 0)
    } else {
        let rest = total_translation(outputs.drop_first());
        match outputs[0] {
            Some((dx, dy, _)) => (dx + rest.0, dy + rest.1),
            None => rest,
        }
    }
}

/// A transit with `n` ticks left runs to its end in exactly `n` ticks,
/// whatever is requested meanwhile: each tick moves one step towards the
/// orientation and shows the walk-cycle frame of the ticks then left.
proof fn lemma_transit_rest(s: MovementState, requests: Seq<Option<Orientation>>)
    requires
        s.wf(),
        s.is_moving,
        requests.len() == s.frame_counter,
    ensures
        ({
            let (last, outputs) = run_ticks(s, requests);
            &&& !last.is_moving
            &&& last.wf()
            &&& last.orientation == s.orientation
            &&& outputs.len() == requests.len()
            &&& total_translation(outputs) == translation(
                s.orientation,
                step_length() * s.frame_counter,
            )
            &&& forall|k: int|
                0 <= k < outputs.len() ==> #[trigger] outputs[k] == Some(
                    (
                        translation(s.orientation, step_length()).0,
                        translation(s.orientation, step_length()).1,
                        frame_of(s.orientation, (s.frame_counter - 1 - k) as nat),
                    ),
                )
        }),
    decreases s.frame_counter,
{
    let next = s.tick(requests[0]);
    let rest = run_ticks(next, requests.drop_first());
    let (last, outputs) = run_ticks(s, requests);
    if s.frame_counter > 1 {
        lemma_transit_rest(next, requests.drop_first());
    } else {
        assert(requests.drop_first().len() == 0);
    }
    assert(outputs.drop_first() == rest.1);
    assert(total_translation(rest.1) == translation(
        s.orientation,
        step_length() * (s.frame_counter - 1),
    ));
    let step = translation(s.orientation, step_length());
    assert(outputs[0] == Some((step.0, step.1, next.next_frame)));
    assert(total_translation(outputs) == (
        step.0 + total_translation(rest.1).0,
        step.1 + total_translation(rest.1).1,
    ));
    assert(step_length() * s.frame_counter == step_length() * (s.frame_counter - 1)
        + step_length()) by (nonlinear_arith);
    assert forall|k: int| 0 <= k < outputs.len() implies #[trigger] outputs[k] == Some(
        (
            translation(s.orientation, step_length()).0,
            translation(s.orientation, step_length()).1,
            frame_of(s.orientation, (s.frame_counter - 1 - k) as nat),
        ),
    ) by {
        if k > 0 {
            assert(outputs[k] == rest.1[k - 1]);
        }
    }
}

/// A transit begun from an idle actor covers exactly one tile towards the
/// requested orientation in `TILE_MOVEMENT_DURATION_IN_LOOP` ticks, whatever
/// is requested after the first of them, and leaves the actor idle again,
/// facing that way. Frame by frame it shows the first frame of the walk
/// cycle for four ticks, the second for four, the third for four, the fourth
/// for three, and the first again on its last tick.
pub proof fn lemma_transit_covers_one_tile(
    s: MovementState,
    o: Orientation,
    requests: Seq<Option<Orientation>>,
)
    requires
        s.wf(),
        !s.is_moving,
        requests.len() == TILE_MOVEMENT_DURATION_IN_LOOP,
        requests[0] == Some(o),
    ensures
        ({
            let (last, outputs) = run_ticks(s, requests);
            &&& !last.is_moving
            &&& last.wf()
            &&& last.orientation == o
            &&& last.next_frame == base_frame(o)
            &&& outputs.len() == TILE_MOVEMENT_DURATION_IN_LOOP
            &&& total_translation(outputs) == translation(o, TILE_SIZE as int)
            &&& forall|k: int|
                0 <= k < outputs.len() ==> #[trigger] outputs[k] == Some(
                    (
                        translation(o, step_length()).0,
                        translation(o, step_length()).1,
                        (base_frame(o) + (if k == 15 { 0int } else { k / 4 })) as nat,
                    ),
                )
        }),
{
    let first = s.tick(requests[0]);
    let rest = run_ticks(first, requests.drop_first());
    let (last, outputs) = run_ticks(s, requests);
    lemma_transit_rest(first, requests.drop_first());
    assert(outputs.drop_first() == rest.1);
    assert forall|k: int| 0 <= k < outputs.len() implies #[trigger] outputs[k] == Some(
        (
            translation(o, step_length()).0,
            translation(o, step_length()).1,
            (base_frame(o) + (if k == 15 { 0int } else { k / 4 })) as nat,
        ),
    ) by {
        if k > 0 {
            assert(outputs[k] == rest.1[k - 1]);
        }
    }
}

/// The frame shown is always one of the four frames of the walk cycle of
/// the orientation, all within a sheet of sixteen; all four of them are
/// reached in a transit, and an idle actor shows the first.
pub proof fn lemma_walk_cycle_frames(s: MovementState)
    requires
        s.wf(),
    ensures
        base_frame(s.orientation) <= s.next_frame <= base_frame(s.orientation) + 3,
        s.next_frame < 16,
        !s.is_moving ==> s.next_frame == base_frame(s.orientation),
        forall|fc: nat|
            fc <= TILE_MOVEMENT_DURATION_IN_LOOP ==> base_frame(s.orientation) <= #[trigger] frame_of(
                s.orientation,
                fc,
            ) <= base_frame(s.orientation) + 3,
        frame_of(s.orientation, 15) == base_frame(s.orientation),
        frame_of(s.orientation, 11) == base_frame(s.orientation) + 1,
        frame_of(s.orientation, 7) == base_frame(s.orientation) + 2,
        frame_of(s.orientation, 3) == base_frame(s.orientation) + 3,
        frame_of(s.orientation, 0) == base_frame(s.orientation),
{
}

/// A transit in progress keeps its orientation, whatever is requested.
pub proof fn lemma_orientation_kept_while_moving(
    s: MovementState,
    requested: Option<Orientation>,
)
    requires
        s.wf(),
        s.is_moving,
    ensures
        s.tick(requested).orientation == s.orientation,
        s.tick(requested).is_moving ==> s.tick(requested).frame_counter == s.frame_counter - 1,
{
}

} // verus!
