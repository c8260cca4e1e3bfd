use vstd::prelude::*;

use crate::map::GameMap;
use crate::ray::CollidableObject;

verus! {

/// Which way the player walks.
#[derive(Debug, Clone, Copy, PartialEq, Eq, Structural)]
pub enum WalkState {
    Forward,
    Reverse,
}

impl WalkState {
    /// The sign of the walking direction: 1 forward, -1 in reverse.
    pub fn sign(self) -> (r: i32)
        ensures
            r == (match self {
                WalkState::Forward => 1int,
                WalkState::Reverse => -1int,
            }),
    {
        match self {
            WalkState::Forward => 1,
            WalkState::Reverse => -1,
        }
    }
}

/// Which way the player turns.
#[derive(Debug, Clone, Copy, PartialEq, Eq, Structural)]
pub enum TurnState {
    Left,
    Stop,
    Right,
}

impl TurnState {
    /// The sign of the turning direction: -1 left, 0 none, 1 right.
    pub fn sign(self) -> (r: i32)
        ensures
            r == (match self {
                TurnState::Left => -1int,
                TurnState::Stop => 0int,
                TurnState::Right => 1int,
            }),
    {
        match self {
            TurnState::Left => -1,
            TurnState::Stop => 0,
            TurnState::Right => 1,
        }
    }
}

/// The movement keys as seen in one frame: released this frame, or held down.
#[derive(Debug, Clone, Copy, PartialEq, Eq, Structural)]
pub struct KeyInput {
    pub released_a: bool,
    pub released_d: bool,
    pub released_w: bool,
    pub down_w: bool,
    pub down_a: bool,
    pub down_s: bool,
    pub down_d: bool,
}

/// A change of the player's acceleration.
#[derive(Debug, Clone, Copy, PartialEq, Eq, Structural)]
pub enum Accel {
    /// Forward key released: slow down.
    Release,
    /// Forward key held: speed up.
    Forward,
    /// Reverse key held: speed up backwards.
    Reverse,
    /// Every frame: friction.
    Drag,
}

/// What one frame of input does to the player's controls: the new walking
/// and turning states, and the acceleration changes to apply, in order.
#[derive(Debug, Clone, PartialEq, Eq)]
pub struct ControlStep {
    pub walk: WalkState,
    pub turn: TurnState,
    pub accels: Vec<Accel>,
}

/// The turning state after a frame: releasing a turn key stops turning,
/// a held turn key turns that way, and right wins over left.
pub open spec fn next_turn(input: KeyInput, turn: TurnState) -> TurnState {
    if input.down_d {
        TurnState::Right
    } else if input.down_a {
        TurnState::Left
    } else if input.released_a || input.released_d {
        TurnState::Stop
    } else {
        turn
    }
}

/// The walking state after a frame: a held direction key sets it, and
/// reverse wins over forward.
pub open spec fn next_walk(input: KeyInput, walk: WalkState) -> WalkState {
    if input.down_s {
        WalkState::Reverse
    } else if input.down_w {
        WalkState::Forward
    } else {
        walk
    }
}

/// The acceleration changes of a frame, in order: slow down when the forward
/// key is released, speed up for each held direction key, then friction.
pub open spec fn frame_accels(input: KeyInput) -> Seq<Accel> {
    (if input.released_w { seq![Accel::Release] } else { Seq::empty() }) + (if input.down_w {
        seq![Accel::Forward]
    } else {
        Seq::empty()
    }) + (if input.down_s { seq![Accel::Reverse] } else { Seq::empty() }) + seq![Accel::Drag]
}

/// The decisions of one frame of player control.
pub fn update_controls(input: KeyInput, walk: WalkState, turn: TurnState) -> (r: ControlStep)
    ensures
        r.walk == next_walk(input, walk),
        r.turn == next_turn(input, turn),
        r.accels@ == frame_accels(input),
        // holding S backs up; otherwise holding W walks forward
        input.down_s ==> r.walk == WalkState::Reverse,
        !input.down_s && input.down_w ==> r.walk == WalkState::Forward,
        // releasing A or D, with neither held, stops turning
        (input.released_a || input.released_d) && !input.down_a && !input.down_d ==> r.turn
            == TurnState::Stop,
        input.down_d ==> r.turn == TurnState::Right,
        input.down_a && !input.down_d ==> r.turn == TurnState::Left,
{
    let mut walk = walk;
    let mut turn = turn;
    let mut accels: Vec<Accel> = Vec::new();
    // Stop walking and turning
    if input.released_a || input.released_d {
        turn = TurnState::Stop;
    }
    if input.released_w {
        accels.push(Accel::Release);
    }
    if input.down_w {
        walk = WalkState::Forward;
        accels.push(Accel::Forward);
    }
    if input.down_a {
        turn = TurnState::Left;
    }
    if input.down_s {
        walk = WalkState::Reverse;
        accels.push(Accel::Reverse);
    }
    if input.down_d {
        turn = TurnState::Right;
    }
    accels.push(Accel::Drag);
    assert(accels@ =~= frame_accels(input));
    ControlStep { walk, turn, accels }
}

/// Holding S makes the player back up, whatever else is held and whatever
/// the walking state was; holding W alone makes it walk forward; with
/// neither held the walking state stays.
pub proof fn walk_follows_keys(input: KeyInput, walk: WalkState)
    ensures
        input.down_s ==> next_walk(input, walk) == WalkState::Reverse,
        !input.down_s && input.down_w ==> next_walk(input, walk) == WalkState::Forward,
        !input.down_s && !input.down_w ==> next_walk(input, walk) == walk,
{
}

/// Releasing A or D stops turning unless a turn key is still held; a held D
/// turns right, a held A alone turns left; with no turn key pressed or
/// released the turning state stays.
pub proof fn turn_follows_keys(input: KeyInput, turn: TurnState)
    ensures
        (input.released_a || input.released_d) && !input.down_a && !input.down_d ==> next_turn(
            input,
            turn,
        ) == TurnState::Stop,
        input.down_d ==> next_turn(input, turn) == TurnState::Right,
        input.down_a && !input.down_d ==> next_turn(input, turn) == TurnState::Left,
        !input.released_a && !input.released_d && !input.down_a && !input.down_d ==> next_turn(
            input,
            turn,
        ) == turn,
{
}

/// Every frame ends with friction; speeding up backwards happens exactly when
/// S is held, forwards exactly when W is held, and slowing down exactly when
/// W is released.
pub proof fn accels_follow_keys(input: KeyInput)
    ensures
        frame_accels(input).len() > 0,
        frame_accels(input).last() == Accel::Drag,
        frame_accels(input).contains(Accel::Reverse) <==> input.down_s,
        frame_accels(input).contains(Accel::Forward) <==> input.down_w,
        frame_accels(input).contains(Accel::Release) <==> input.released_w,
{
    let a = frame_accels(input);
    if input.down_s {
        assert(a[a.len() - 2] == Accel::Reverse);
    }
    if input.down_w {
        let k = if input.released_w { 1int } else { 0int };
        assert(a[k] == Accel::Forward);
    }
    if input.released_w {
        assert(a[0] == Accel::Release);
    }
}

/// One step of the ray that checks a walk: whether to stop, and what was hit.
/// A tile in the ray's cell stops it there; otherwise it stops, hitting
/// nothing, once it has gone farther than the walk.
pub fn walk_probe(map: &GameMap, cell_x: usize, cell_y: usize, exceeds_dst: bool) -> (r: (
    bool,
    Option<CollidableObject>,
))
    ensures
        r == (if map.tiles@.contains_key((cell_x, cell_y)) {
            (true, Some(CollidableObject::Tile(map.tiles@[(cell_x, cell_y)])))
        } else if exceeds_dst {
            (true, None)
        } else {
            (false, None)
        }),
{
    let htile = map.get_tile_id(cell_x, cell_y);
    if let Some(htile_id) = htile {
        return (true, Some(CollidableObject::Tile(*htile_id)));
    }
    if exceeds_dst {
        return (true, None);
    };
    (false, None)
}

} // verus!
