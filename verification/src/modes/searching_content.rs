//! Searching for content: wandering around, collecting what is worth
//! collecting, and heading for a bank when the backpack fills up with coins.
use vstd::prelude::*;
use crate::geometry::{Coord, Direction, perpendicular, spec_opposite, opposite_direction};
use crate::random::{is_direction_order, random_coins, random_direction_order};
use crate::robot::{CapitalistRobot, Mode, RobotModel};
use crate::world::{Content, Grid, Tile, get_cell, quantity, spec_cell, spec_quantity, view_ok};

verus! {

/// Every this many ticks of searching, the robot turns to a random side so
/// that it does not get stuck.
pub const TURN_EVERY: usize = 124;

/// Contents that draw the robot towards a corner of its view: rocks, garbage,
/// coins, banks and fish.
pub open spec fn attracts(c: Content) -> bool {
    let i = c.spec_index();
    i == 0 || i == 2 || i == 4 || i == 7 || i == 10
}

/// Whether a content draws the robot towards it.
pub fn is_attractive(c: &Content) -> (res: bool)
    ensures
        res == attracts(*c),
{
    let i = c.index();
    i == 0 || i == 2 || i == 4 || i == 7 || i == 10
}

/// The corners of the 3x3 view: top left, top right, bottom left, bottom right.
pub open spec fn spec_corner(k: int) -> Coord {
    if k == 0 {
        (0, 0)
    } else if k == 1 {
        (0, 2)
    } else if k == 2 {
        (2, 0)
    } else {
        (2, 2)
    }
}

/// The two directions that lead towards corner `k` of the view, or, while the
/// robot pauses from exploring, away from it.
pub open spec fn spec_corner_dirs(k: int, away: bool) -> (Direction, Direction) {
    if !away {
        if k == 0 {
            (Direction::Up, Direction::Left)
        } else if k == 1 {
            (Direction::Up, Direction::Right)
        } else if k == 2 {
            (Direction::Down, Direction::Left)
        } else {
            (Direction::Down, Direction::Right)
        }
    } else {
        if k == 0 {
            (Direction::Down, Direction::Right)
        } else if k == 1 {
            (Direction::Down, Direction::Left)
        } else if k == 2 {
            (Direction::Up, Direction::Right)
        } else {
            (Direction::Up, Direction::Left)
        }
    }
}

/// Corner `k` of the view holds content that draws the robot, on a tile it may
/// go to (streets are off limits while it avoids them).
pub open spec fn corner_hit(view: Seq<Vec<Option<Tile>>>, k: int, avoid_street: bool) -> bool {
    spec_cell(view, spec_corner(k)) matches Some(t) && attracts(t.content) && (!t.is_street
        || !avoid_street)
}

/// The direction after looking at corners `k` to 3 of the view, starting from
/// `dir`: each corner that draws the robot sets the direction to one of its two
/// directions, the first when its coin shows true, so the last such corner wins.
pub open spec fn spec_steer_corners(
    view: Seq<Vec<Option<Tile>>>,
    away: bool,
    avoid_street: bool,
    coins: Seq<bool>,
    dir: Direction,
    k: int,
) -> Direction
    decreases 4 - k,
{
    if k < 0 || k >= 4 {
        dir
    } else {
        let next = if corner_hit(view, k, avoid_street) {
            if coins[k] {
                spec_corner_dirs(k, away).0
            } else {
                spec_corner_dirs(k, away).1
            }
        } else {
            dir
        };
        spec_steer_corners(view, away, avoid_street, coins, next, k + 1)
    }
}

/// The first direction of `order` perpendicular to `dir`, if any.
pub open spec fn first_perpendicular(order: Seq<Direction>, dir: Direction, i: int) -> Option<Direction>
    decreases order.len() - i,
{
    if i < 0 || i >= order.len() {
        None
    } else if perpendicular(order[i], dir) {
        Some(order[i])
    } else {
        first_perpendicular(order, dir, i + 1)
    }
}

/// How the robot chooses its direction while searching (in any other mode it
/// keeps it). Every `TURN_EVERY` ticks it turns to the first direction of
/// `turn_order` that neither continues nor reverses its way. Then it looks at
/// the corners of its view: one that holds content worth collecting draws the
/// robot towards it (away from it while it pauses from exploring).
pub open spec fn spec_steer(m: RobotModel, view: Seq<Vec<Option<Tile>>>, turn_order: Seq<Direction>, coins: Seq<bool>) -> RobotModel {
    if m.mode != Mode::SearchingContent {
        m
    } else {
        let d1 = if m.count_tick % TURN_EVERY == 0 {
            match first_perpendicular(turn_order, m.direction, 0) {
                Some(d) => d,
                None => m.direction,
            }
        } else {
            m.direction
        };
        RobotModel {
            direction: spec_steer_corners(view, m.explorer_pause, m.avoid_street, coins, d1, 0),
            ..m
        }
    }
}

/// The first direction of `order` perpendicular to `dir`, if any.
pub fn turn_perpendicular(order: &Vec<Direction>, dir: Direction) -> (res: Option<Direction>)
    ensures
        res == first_perpendicular(order@, dir, 0),
        res matches Some(d) ==> perpendicular(d, dir),
{
    let back = opposite_direction(&dir);
    let mut i: usize = 0;
    while i < order.len()
        invariant
            i <= order@.len(),
            back == spec_opposite(dir),
            first_perpendicular(order@, dir, 0) == first_perpendicular(order@, dir, i as int),
        decreases order.len() - i,
    {
        let d = order[i];
        if d != dir && d != back {
            return Some(d);
        }
        i = i + 1;
    }
    None
}

/// What recycling the backpack's content into coins gave back.
#[derive(Clone, Copy, Debug, PartialEq, Eq, Structural)]
pub enum RecycleOutcome {
    Recycled,
    NotEnoughEnergy,
    Failed,
}

/// What the robot does after recycling.
#[derive(Clone, Copy, Debug, PartialEq, Eq, Structural)]
pub enum RecycleReaction {
    /// Enough coins: stop looking around and head for a bank.
    GoToBank,
    /// Recharge the robot's energy.
    Recharge,
    /// Go on looking around.
    Continue,
}

impl CapitalistRobot {
    /// Starts a tick of searching: while the robot pauses from exploring, the
    /// pause lasts one tick longer.
    pub fn begin_searching_content(&mut self)
        requires
            old(self).wf(),
            old(self).explorer_pause ==> old(self).expl_pause_tick_time < usize::MAX,
        ensures
            final(self).wf(),
            final(self)@ == (RobotModel {
                expl_pause_tick_time: if old(self)@.explorer_pause {
                    (old(self)@.expl_pause_tick_time + 1) as usize
                } else {
                    old(self)@.expl_pause_tick_time
                },
                ..old(self)@
            }),
    {
        if self.explorer_pause {
            self.expl_pause_tick_time = self.expl_pause_tick_time + 1;
        }
    }

    /// Whether the robot recycles: its backpack, holding `contents`, is full at
    /// `size` items, and it does not pause from exploring.
    pub fn wants_recycling(&self, contents: &Vec<(Content, usize)>, size: usize) -> (res: bool)
        requires
            spec_quantity(contents@) <= usize::MAX,
        ensures
            res == (spec_quantity(contents@) == size && !self.explorer_pause),
    {
        quantity(contents) == size && !self.explorer_pause
    }

    /// Reacts to the outcome of recycling, with `coins` coins in the backpack
    /// afterwards: with at least `threshold` coins the robot heads for a bank
    /// (also when recycling failed for a reason other than energy); without
    /// energy it recharges.
    pub fn after_recycle(&mut self, outcome: RecycleOutcome, coins: usize, threshold: usize) -> (reaction: RecycleReaction)
        requires
            old(self).wf(),
        ensures
            final(self).wf(),
            reaction == (if outcome == RecycleOutcome::NotEnoughEnergy {
                RecycleReaction::Recharge
            } else if coins >= threshold {
                RecycleReaction::GoToBank
            } else {
                RecycleReaction::Continue
            }),
            final(self)@ == (if reaction == RecycleReaction::GoToBank {
                RobotModel { mode: Mode::SearchingBank, ..old(self)@ }
            } else {
                old(self)@
            }),
    {
        match outcome {
            RecycleOutcome::NotEnoughEnergy => RecycleReaction::Recharge,
            _ => {
                if coins >= threshold {
                    self.mode = Mode::SearchingBank;
                    RecycleReaction::GoToBank
                } else {
                    RecycleReaction::Continue
                }
            },
        }
    }

    /// Chooses the direction to search in (see `spec_steer`), with the given
    /// order of directions to turn to and coins for the corners.
    pub fn steer(&mut self, view: &Grid, turn_order: &Vec<Direction>, coins: &Vec<bool>)
        requires
            old(self).wf(),
            view_ok(view@),
            coins@.len() >= 4,
        ensures
            final(self).wf(),
            final(self)@ == spec_steer(old(self)@, view@, turn_order@, coins@),
            (forall|j: int| 0 <= j < 4 ==> !#[trigger] corner_hit(view@, j, old(self).avoid_street))
                && old(self).count_tick % TURN_EVERY != 0 ==> final(self).direction == old(self).direction,
    {
        proof {
            lemma_steer_keeps_course(old(self)@, view@, turn_order@, coins@);
        }
        if self.mode != Mode::SearchingContent {
            return;
        }
        if self.count_tick % TURN_EVERY == 0 {
            if let Some(d) = turn_perpendicular(turn_order, self.direction) {
                self.direction = d;
            }
        }
        let away = self.explorer_pause;
        let ghost d1 = self.direction;
        let mut k: usize = 0;
        while k < 4
            invariant
                k <= 4,
                view_ok(view@),
                coins@.len() >= 4,
                away == old(self)@.explorer_pause,
                self@ == (RobotModel { direction: self.direction, ..old(self)@ }),
                old(self).wf(),
                spec_steer_corners(view@, away, self.avoid_street, coins@, d1, 0) == spec_steer_corners(
                    view@,
                    away,
                    self.avoid_street,
                    coins@,
                    self.direction,
                    k as int,
                ),
            decreases 4 - k,
        {
            let corner: Coord = if k == 0 {
                (0, 0)
            } else if k == 1 {
                (0, 2)
            } else if k == 2 {
                (2, 0)
            } else {
                (2, 2)
            };
            let (first, second): (Direction, Direction) = if !away {
                if k == 0 {
                    (Direction::Up, Direction::Left)
                } else if k == 1 {
                    (Direction::Up, Direction::Right)
                } else if k == 2 {
                    (Direction::Down, Direction::Left)
                } else {
                    (Direction::Down, Direction::Right)
                }
            } else {
                if k == 0 {
                    (Direction::Down, Direction::Right)
                } else if k == 1 {
                    (Direction::Down, Direction::Left)
                } else if k == 2 {
                    (Direction::Up, Direction::Right)
                } else {
                    (Direction::Up, Direction::Left)
                }
            };
            assert(corner == spec_corner(k as int));
            assert((first, second) == spec_corner_dirs(k as int, away));
            if let Some(t) = get_cell(view, corner) {
                if is_attractive(&t.content) && (!t.is_street || !self.avoid_street) {
                    if coins[k] {
                        self.direction = first;
                    } else {
                        self.direction = second;
                    }
                }
            }
            k = k + 1;
        }
    }

    /// Chooses the direction to search in (see `spec_steer`), turning to a
    /// random side and flipping a coin for each corner.
    pub fn plan_search_move(&mut self, view: &Grid)
        requires
            old(self).wf(),
            view_ok(view@),
        ensures
            final(self).wf(),
            exists|turn_order: Seq<Direction>, coins: Seq<bool>|
                is_direction_order(turn_order) && coins.len() == 4 && final(self)@ == spec_steer(
                    old(self)@,
                    view@,
                    turn_order,
                    coins,
                ),
    {
        let turn_order = random_direction_order();
        let coins = random_coins(4);
        self.steer(view, &turn_order, &coins);
        assert(is_direction_order(turn_order@) && coins@.len() == 4);
    }
}


/// If some direction of `order` from position `k` on is perpendicular to `dir`,
/// `first_perpendicular` finds a perpendicular one.
proof fn lemma_first_perpendicular_found(order: Seq<Direction>, dir: Direction, k: int, i: int)
    requires
        0 <= k <= i < order.len(),
        perpendicular(order[i], dir),
    ensures
        first_perpendicular(order, dir, k) matches Some(d) && perpendicular(d, dir),
    decreases i - k,
{
    if !perpendicular(order[k], dir) {
        lemma_first_perpendicular_found(order, dir, k + 1, i);
    }
}

/// With the four directions in any order, the periodic turn always finds a
/// direction, and that direction neither continues nor reverses the robot's way.
pub proof fn lemma_turn_is_perpendicular(order: Seq<Direction>, dir: Direction)
    requires
        is_direction_order(order),
    ensures
        first_perpendicular(order, dir, 0) matches Some(d) && perpendicular(d, dir),
{
    let p = match dir {
        Direction::Up | Direction::Down => Direction::Left,
        _ => Direction::Up,
    };
    assert(order.contains(p));
    let i = choose|i: int| 0 <= i < order.len() && order[i] == p;
    lemma_first_perpendicular_found(order, dir, 0, i);
}


/// With no corner drawing the robot, looking at the corners keeps the direction.
proof fn lemma_no_corner_keeps(
    view: Seq<Vec<Option<Tile>>>,
    away: bool,
    avoid_street: bool,
    coins: Seq<bool>,
    dir: Direction,
    k: int,
)
    requires
        forall|j: int| k <= j < 4 ==> !#[trigger] corner_hit(view, j, avoid_street),
    ensures
        spec_steer_corners(view, away, avoid_street, coins, dir, k) == dir,
    decreases 4 - k,
{
    if 0 <= k < 4 {
        lemma_no_corner_keeps(view, away, avoid_street, coins, dir, k + 1);
    }
}

/// Steering changes only the direction, and only while searching content. With
/// no corner drawing the robot, the direction stays unless the tick counter is
/// a multiple of `TURN_EVERY`; then, with the four directions as turn order,
/// the robot turns sideways.
pub proof fn lemma_steer_keeps_course(m: RobotModel, view: Seq<Vec<Option<Tile>>>, turn_order: Seq<Direction>, coins: Seq<bool>)
    ensures
        ({
            let r = spec_steer(m, view, turn_order, coins);
            let quiet = forall|j: int| 0 <= j < 4 ==> !#[trigger] corner_hit(view, j, m.avoid_street);
            &&& r == (RobotModel { direction: r.direction, ..m })
            &&& m.mode != Mode::SearchingContent ==> r == m
            &&& quiet && m.count_tick % TURN_EVERY != 0 ==> r.direction == m.direction
            &&& quiet && m.count_tick % TURN_EVERY == 0 && m.mode == Mode::SearchingContent
                && is_direction_order(turn_order) ==> perpendicular(r.direction, m.direction)
        }),
{
    let quiet = forall|j: int| 0 <= j < 4 ==> !#[trigger] corner_hit(view, j, m.avoid_street);
    if quiet && m.mode == Mode::SearchingContent {
        let d1 = if m.count_tick % TURN_EVERY == 0 {
            match first_perpendicular(turn_order, m.direction, 0) {
                Some(d) => d,
                None => m.direction,
            }
        } else {
            m.direction
        };
        lemma_no_corner_keeps(view, m.explorer_pause, m.avoid_street, coins, d1, 0);
        if m.count_tick % TURN_EVERY == 0 && is_direction_order(turn_order) {
            lemma_turn_is_perpendicular(turn_order, m.direction);
        }
    }
}


/// The last corner that draws the robot decides its direction: one of that
/// corner's two directions, the first when its coin shows true.
proof fn lemma_last_corner_decides(
    view: Seq<Vec<Option<Tile>>>,
    away: bool,
    avoid_street: bool,
    coins: Seq<bool>,
    dir: Direction,
    i: int,
    k: int,
)
    requires
        0 <= i <= k < 4,
        corner_hit(view, k, avoid_street),
        forall|j: int| k < j < 4 ==> !#[trigger] corner_hit(view, j, avoid_street),
    ensures
        spec_steer_corners(view, away, avoid_street, coins, dir, i) == if coins[k] {
            spec_corner_dirs(k, away).0
        } else {
            spec_corner_dirs(k, away).1
        },
    decreases k - i,
{
    let next = if corner_hit(view, i, avoid_street) {
        if coins[i] {
            spec_corner_dirs(i, away).0
        } else {
            spec_corner_dirs(i, away).1
        }
    } else {
        dir
    };
    if i < k {
        lemma_last_corner_decides(view, away, avoid_street, coins, next, i + 1, k);
    } else {
        lemma_no_corner_keeps(view, away, avoid_street, coins, next, i + 1);
    }
}

/// While searching, a corner of the view that draws the robot, with no later
/// corner doing so, sets the direction towards it (away from it while the robot
/// pauses from exploring): the first of its two directions when its coin shows
/// true, the second otherwise, whatever the turn.
pub proof fn lemma_steer_towards_corner(m: RobotModel, view: Seq<Vec<Option<Tile>>>, turn_order: Seq<Direction>, coins: Seq<bool>, k: int)
    requires
        m.mode == Mode::SearchingContent,
        0 <= k < 4,
        corner_hit(view, k, m.avoid_street),
        forall|j: int| k < j < 4 ==> !#[trigger] corner_hit(view, j, m.avoid_street),
    ensures
        spec_steer(m, view, turn_order, coins).direction == if coins[k] {
            spec_corner_dirs(k, m.explorer_pause).0
        } else {
            spec_corner_dirs(k, m.explorer_pause).1
        },
{
    let d1 = if m.count_tick % TURN_EVERY == 0 {
        match first_perpendicular(turn_order, m.direction, 0) {
            Some(d) => d,
            None => m.direction,
        }
    } else {
        m.direction
    };
    lemma_last_corner_decides(view, m.explorer_pause, m.avoid_street, coins, d1, 0, k);
}

} // verus!
