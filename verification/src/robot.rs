//! The robot's decision state and the rules it applies at the start of every
//! tick and to the tiles next to it.
use vstd::prelude::*;
use crate::geometry::{Coord, Direction, get_coords_row_col, neighbor, step_ok};
use crate::chart::{Chart, ChartEntry, chart_wf, enough_distant, enough_distant_defined, spec_enough_distant, spec_save};
use crate::world::{Content, Tile};

verus! {

/// What the robot is busy with.
#[derive(Clone, Copy, Debug, PartialEq, Eq, Structural)]
pub enum Mode {
    /// Wandering around and collecting rocks, garbage, fish and coins.
    SearchingContent,
    /// Collecting everything in a cross around the robot.
    ScanContent,
    /// Carrying coins to the nearest bank, or exploring to find one.
    SearchingBank,
    /// Following a street, which usually leads to a city.
    FollowStreet,
    /// Looking around a city for banks.
    ScanBank,
}

/// Every this many ticks of searching, the robot scans for content.
pub const SCAN_EVERY: usize = 50;

/// After this many ticks of pause from exploring, the robot looks for a bank again.
pub const PAUSE_TICKS: usize = 50;

/// Below this energy level the robot recharges.
pub const LOW_ENERGY: usize = 300;

/// The decision state of the robot: its chart and the fields that choose what
/// it does next. The robot's body (energy, position, backpack) lives in the
/// world.
pub struct CapitalistRobot {
    pub chart: Chart,
    pub mode: Mode,
    pub direction: Direction,
    pub count_tick: usize,
    pub rounds: usize,
    pub avoid_street: bool,
    pub no_more_discovery: bool,
    pub expl_pause_tick_time: usize,
    pub explorer_pause: bool,
    pub terminated: bool,
    pub first_tick: bool,
}

/// The mathematical state of the robot, with the chart as a sequence of entries.
pub struct RobotModel {
    pub chart: Seq<ChartEntry>,
    pub mode: Mode,
    pub direction: Direction,
    pub count_tick: usize,
    pub rounds: usize,
    pub avoid_street: bool,
    pub no_more_discovery: bool,
    pub expl_pause_tick_time: usize,
    pub explorer_pause: bool,
    pub terminated: bool,
    pub first_tick: bool,
}

impl View for CapitalistRobot {
    type V = RobotModel;

    open spec fn view(&self) -> RobotModel {
        RobotModel {
            chart: self.chart@,
            mode: self.mode,
            direction: self.direction,
            count_tick: self.count_tick,
            rounds: self.rounds,
            avoid_street: self.avoid_street,
            no_more_discovery: self.no_more_discovery,
            expl_pause_tick_time: self.expl_pause_tick_time,
            explorer_pause: self.explorer_pause,
            terminated: self.terminated,
            first_tick: self.first_tick,
        }
    }
}

/// A well-formed state: a well-formed chart, and a tick counter below its wrap-around value.
pub open spec fn model_wf(m: RobotModel) -> bool {
    chart_wf(m.chart) && m.count_tick < usize::MAX
}

/// What the world has to do for the robot at the start of a tick.
#[derive(Clone, Copy, Debug, PartialEq, Eq, Structural)]
pub struct TickActions {
    /// Hand the world to the display (done on the first tick only).
    pub refresh_display: bool,
    /// Recharge the robot's energy.
    pub recharge: bool,
    /// Step off the street the robot is following.
    pub leave_street: bool,
}

/// The start-of-tick rules.
///
/// While searching (and not pausing from exploring) the tick counter advances,
/// wrapping around below `usize::MAX`, and every `SCAN_EVERY` ticks the robot
/// switches to scanning. A pause from exploring that lasted more than
/// `PAUSE_TICKS` ticks ends and the robot searches a bank again. Low energy asks
/// for a recharge. Near a saved bank or marked place, or when discovery is
/// exhausted, the robot avoids streets, forgets its street rounds and stops
/// following a street.
pub open spec fn spec_tick_init(m: RobotModel, energy_level: usize, position: Coord) -> (
    RobotModel,
    TickActions,
) {
    let counting = m.mode == Mode::SearchingContent && !m.explorer_pause;
    let count = if counting {
        ((m.count_tick + 1) % (usize::MAX as int)) as usize
    } else {
        m.count_tick
    };
    let mode1 = if counting && count % SCAN_EVERY == 0 {
        Mode::ScanContent
    } else {
        m.mode
    };
    let resume = m.explorer_pause && m.expl_pause_tick_time > PAUSE_TICKS;
    let mode2 = if resume {
        Mode::SearchingBank
    } else {
        mode1
    };
    let distant = spec_enough_distant(m.chart, position) && !m.no_more_discovery;
    let leave = !distant && mode2 == Mode::FollowStreet;
    let next = RobotModel {
        count_tick: count,
        mode: if leave {
            Mode::SearchingContent
        } else {
            mode2
        },
        explorer_pause: if resume {
            false
        } else {
            m.explorer_pause
        },
        expl_pause_tick_time: if resume {
            0
        } else {
            m.expl_pause_tick_time
        },
        avoid_street: !distant,
        rounds: if distant {
            m.rounds
        } else {
            0
        },
        first_tick: false,
        ..m
    };
    (
        next,
        TickActions {
            refresh_display: m.first_tick,
            recharge: energy_level < LOW_ENERGY,
            leave_street: leave,
        },
    )
}


/// Only ticks spent searching content count towards a scan: in any other mode
/// the start-of-tick rules leave the tick counter alone and never switch to
/// scanning (a robot that was scanning may stay so). While searching without a
/// pause, the counter advances by one, wrapping to 0 at `usize::MAX`.
pub proof fn lemma_tick_counts_only_searching(m: RobotModel, energy_level: usize, position: Coord)
    requires
        model_wf(m),
    ensures
        ({
            let next = spec_tick_init(m, energy_level, position).0;
            &&& m.mode != Mode::SearchingContent ==> next.count_tick == m.count_tick
            &&& m.mode != Mode::SearchingContent && m.mode != Mode::ScanContent ==> next.mode
                != Mode::ScanContent
            &&& next.mode == Mode::ScanContent ==> m.mode == Mode::ScanContent || (m.mode
                == Mode::SearchingContent && !m.explorer_pause && next.count_tick % SCAN_EVERY == 0)
            &&& m.mode == Mode::SearchingContent && !m.explorer_pause ==> (next.count_tick == m.count_tick + 1
                || (next.count_tick == 0 && m.count_tick + 1 == usize::MAX))
            &&& m.explorer_pause ==> next.count_tick == m.count_tick
            &&& next.chart == m.chart && next.direction == m.direction && next.terminated == m.terminated
        }),
{
}


/// The other start-of-tick rules, each on its own: a recharge is asked exactly
/// below `LOW_ENERGY`; the display is refreshed on the first tick only; a pause
/// from exploring that lasted more than `PAUSE_TICKS` ends in a bank search; the
/// robot avoids streets exactly when it is close to a remembered bank or marked
/// place, or discovery is over, and then forgets its street rounds; it leaves a
/// street only while following one, and then searches content.
pub proof fn lemma_tick_rules(m: RobotModel, energy_level: usize, position: Coord)
    requires
        model_wf(m),
    ensures
        ({
            let (next, a) = spec_tick_init(m, energy_level, position);
            let near = !spec_enough_distant(m.chart, position) || m.no_more_discovery;
            &&& a.recharge <==> energy_level < LOW_ENERGY
            &&& a.refresh_display == m.first_tick && !next.first_tick
            &&& m.explorer_pause && m.expl_pause_tick_time > PAUSE_TICKS ==> !next.explorer_pause
                && next.expl_pause_tick_time == 0 && next.mode == Mode::SearchingBank
            &&& !(m.explorer_pause && m.expl_pause_tick_time > PAUSE_TICKS) ==> next.explorer_pause
                == m.explorer_pause && next.expl_pause_tick_time == m.expl_pause_tick_time
            &&& next.avoid_street == near
            &&& near ==> next.rounds == 0
            &&& !near ==> next.rounds == m.rounds
            &&& a.leave_street ==> near && m.mode == Mode::FollowStreet && next.mode == Mode::SearchingContent
            &&& next.mode == Mode::FollowStreet ==> !near && m.mode == Mode::FollowStreet
            &&& m.mode == Mode::FollowStreet && near && !(m.explorer_pause && m.expl_pause_tick_time
                > PAUSE_TICKS) ==> a.leave_street
        }),
{
}

/// Rocks, garbage, coins and fish: the contents the robot destroys to collect them.
pub open spec fn is_collectable(c: Content) -> bool {
    let i = c.spec_index();
    i == 0 || i == 2 || i == 4 || i == 10
}

impl CapitalistRobot {
    /// The state is well formed.
    pub open spec fn wf(&self) -> bool {
        model_wf(self@)
    }

    /// A robot that searches for content, heading right, with an empty chart.
    pub fn new() -> (res: CapitalistRobot)
        ensures
            res.wf(),
            res@ == (RobotModel {
                chart: Seq::<ChartEntry>::empty(),
                mode: Mode::SearchingContent,
                direction: Direction::Right,
                count_tick: 0,
                rounds: 0,
                avoid_street: false,
                no_more_discovery: false,
                expl_pause_tick_time: 0,
                explorer_pause: false,
                terminated: false,
                first_tick: true,
            }),
    {
        CapitalistRobot {
            chart: Chart::new(),
            mode: Mode::SearchingContent,
            direction: Direction::Right,
            count_tick: 0,
            rounds: 0,
            avoid_street: false,
            no_more_discovery: false,
            expl_pause_tick_time: 0,
            explorer_pause: false,
            terminated: false,
            first_tick: true,
        }
    }

    /// Applies the start-of-tick rules, given the robot's energy level and
    /// position, and tells what the world has to do.
    pub fn tick_init(&mut self, energy_level: usize, position: Coord) -> (actions: TickActions)
        requires
            old(self).wf(),
            enough_distant_defined(old(self)@.chart, position),
        ensures
            final(self).wf(),
            (final(self)@, actions) == spec_tick_init(old(self)@, energy_level, position),
            old(self).mode != Mode::SearchingContent ==> final(self).count_tick == old(self).count_tick,
            old(self).mode != Mode::SearchingContent && old(self).mode != Mode::ScanContent
                ==> final(self).mode != Mode::ScanContent,
    {
        proof {
            lemma_tick_counts_only_searching(old(self)@, energy_level, position);
        }
        let refresh_display = self.first_tick;
        if self.first_tick {
            self.first_tick = false;
        }
        if self.mode == Mode::SearchingContent {
            if !self.explorer_pause {
                self.count_tick = (self.count_tick + 1) % usize::MAX;
                if self.count_tick % SCAN_EVERY == 0 {
                    self.mode = Mode::ScanContent;
                }
            }
        }
        if self.explorer_pause {
            if self.expl_pause_tick_time > PAUSE_TICKS {
                self.mode = Mode::SearchingBank;
                self.explorer_pause = false;
                self.expl_pause_tick_time = 0;
            }
        }
        let recharge = energy_level < LOW_ENERGY;
        let mut leave_street = false;
        if enough_distant(position, &self.chart) && !self.no_more_discovery {
            self.avoid_street = false;
        } else {
            self.avoid_street = true;
            self.rounds = 0;
            if self.mode == Mode::FollowStreet {
                leave_street = true;
                self.mode = Mode::SearchingContent;
            }
        }
        TickActions { refresh_display, recharge, leave_street }
    }

    /// Saves `content` in the chart at the cell next to `position` towards `direction`.
    pub fn save_tile(&mut self, position: Coord, direction: &Direction, content: &Content)
        requires
            old(self).wf(),
            step_ok(position, *direction),
        ensures
            final(self).wf(),
            final(self)@ == (RobotModel {
                chart: spec_save(old(self)@.chart, *content, neighbor(position, *direction)),
                ..old(self)@
            }),
    {
        let direction_coord = get_coords_row_col(position.0, position.1, direction);
        self.chart.save(content, direction_coord);
    }

    /// Looks at the tile towards `direction`: tells whether its content is worth
    /// destroying to collect it, and starts following it if it is a street and
    /// streets are not being avoided.
    pub fn check_content(&mut self, direction: &Direction, t: &Tile) -> (destroy: bool)
        requires
            old(self).wf(),
        ensures
            final(self).wf(),
            destroy == is_collectable(t.content),
            final(self)@ == (if t.is_street && !old(self)@.avoid_street {
                RobotModel { direction: *direction, mode: Mode::FollowStreet, ..old(self)@ }
            } else {
                old(self)@
            }),
    {
        let i = t.content.index();
        let destroy = i == 0 || i == 2 || i == 4 || i == 10;
        if t.is_street && !self.avoid_street {
            self.direction = *direction;
            self.mode = Mode::FollowStreet;
        }
        destroy
    }
}

/// The events that the world reports to the robot.
#[derive(Clone, Copy, Debug, PartialEq, Eq, Structural)]
pub enum EventKind {
    Ready,
    Terminated,
    TimeChanged,
    DayChanged,
    EnergyRecharged,
    EnergyConsumed,
    Moved,
    TileContentUpdated,
    AddedToBackpack,
    RemovedFromBackpack,
}

/// Whether the robot passes an event on to the shared state that the display
/// reads: every event but `Ready` and `Terminated`.
pub fn shares_event(event: &EventKind) -> (res: bool)
    ensures
        res == !(*event == EventKind::Ready || *event == EventKind::Terminated),
{
    match event {
        EventKind::Ready => false,
        EventKind::Terminated => false,
        _ => true,
    }
}

} // verus!
