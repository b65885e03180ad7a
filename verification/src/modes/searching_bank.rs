//! Searching a bank: carrying the coins to the nearest saved bank with free
//! slots, or exploring to find one.
use vstd::prelude::*;
use crate::chart::{ChartEntry, SavedQuantity, chart_wf, spec_entries_of, spec_remove, spec_save, lemma_save_wf, lemma_remove_wf, lemma_remove_listing_subset, lemma_remove_then_read, lemma_save_keeps_other_kinds, lemma_save_then_read};
use crate::geometry::{Coord, Direction, check_range, get_coords_row_col, manhattan_distance, neighbor, spec_manhattan, square, square_coords, step_ok, lemma_square_coords_member, lemma_square_coords_distinct};
use crate::modes::scan_bank::{fitted, is_open_bank_tile, save_open_banks, spec_save_open_banks, lemma_save_open_banks_complete};
use crate::robot::{CapitalistRobot, Mode, RobotModel, model_wf};
use crate::world::{BANK_KIND, JOLLY_KIND, Content, Grid, SlotRange, Tile, in_map, region_tiles, spec_region_tiles};

verus! {

/// A saved bank with free slots.
pub open spec fn is_open(e: (Coord, SavedQuantity)) -> bool {
    e.1 matches SavedQuantity::ContentRange(r) && r.start != r.end
}

/// A saved bank without free slots.
pub open spec fn is_full(e: (Coord, SavedQuantity)) -> bool {
    e.1 matches SavedQuantity::ContentRange(r) && r.start == r.end
}

/// The distance from `position` to the saved bank.
pub open spec fn dist(e: (Coord, SavedQuantity), position: Coord) -> nat {
    spec_manhattan(e.0, position)
}

/// Among the first `n` saved banks, the one at `k` is the nearest with free
/// slots (the first of the nearest), at a distance below `usize::MAX`.
pub open spec fn nearest_among(banks: Seq<(Coord, SavedQuantity)>, position: Coord, k: int, n: int) -> bool {
    &&& 0 <= k < n <= banks.len()
    &&& is_open(banks[k])
    &&& dist(banks[k], position) < usize::MAX
    &&& forall|j: int| 0 <= j < n && is_open(#[trigger] banks[j]) ==> dist(banks[j], position) >= dist(banks[k], position)
    &&& forall|j: int| 0 <= j < k && is_open(#[trigger] banks[j]) ==> dist(banks[j], position) > dist(banks[k], position)
}

/// Some of the first `n` saved banks has free slots and lies at a distance below `usize::MAX`.
pub open spec fn some_open_among(banks: Seq<(Coord, SavedQuantity)>, position: Coord, n: int) -> bool {
    exists|j: int| 0 <= j < n && is_open(#[trigger] banks[j]) && dist(banks[j], position) < usize::MAX
}

/// The places of the saved banks without free slots, in order.
pub open spec fn spec_full_banks(banks: Seq<(Coord, SavedQuantity)>) -> Seq<Coord>
    decreases banks.len(),
{
    if banks.len() == 0 {
        seq![]
    } else if is_full(banks.last()) {
        spec_full_banks(banks.drop_last()).push(banks.last().0)
    } else {
        spec_full_banks(banks.drop_last())
    }
}

/// The nearest saved bank with free slots, and the saved banks without.
pub struct BankSelection {
    pub closest: Option<(Coord, SlotRange)>,
    pub full: Vec<Coord>,
}

/// The distances that `select_bank` computes fit in a `usize`.
pub open spec fn open_distances_fit(banks: Seq<(Coord, SavedQuantity)>, position: Coord) -> bool {
    forall|j: int| 0 <= j < banks.len() && is_open(#[trigger] banks[j]) ==> dist(banks[j], position) <= usize::MAX
}

/// Finds the nearest saved bank with free slots (the first of the nearest; a
/// bank at distance `usize::MAX` is never chosen) and lists the saved banks
/// without free slots.
pub fn select_bank(position: Coord, banks: &Vec<(Coord, SavedQuantity)>) -> (sel: BankSelection)
    requires
        open_distances_fit(banks@, position),
    ensures
        sel.closest is None <==> !some_open_among(banks@, position, banks@.len() as int),
        sel.closest matches Some((c, r)) ==> exists|k: int|
            nearest_among(banks@, position, k, banks@.len() as int) && #[trigger] banks@[k]
                == (c, SavedQuantity::ContentRange(r)),
        sel.full@ == spec_full_banks(banks@),
{
    let mut min_distance: usize = usize::MAX;
    let mut best: Option<usize> = None;
    let mut full: Vec<Coord> = Vec::new();
    let mut i: usize = 0;
    while i < banks.len()
        invariant
            i <= banks.len(),
            open_distances_fit(banks@, position),
            full@ == spec_full_banks(banks@.take(i as int)),
            best is None <==> !some_open_among(banks@, position, i as int),
            best is None ==> min_distance == usize::MAX,
            best matches Some(k) ==> nearest_among(banks@, position, k as int, i as int)
                && min_distance == dist(banks@[k as int], position),
        decreases banks.len() - i,
    {
        let (coord, saved) = banks[i];
        assert(banks@.take(i + 1).drop_last() =~= banks@.take(i as int));
        assert(banks@.take(i + 1).last() == banks@[i as int]);
        match saved {
            SavedQuantity::ContentRange(range) => {
                if range.start != range.end {
                    assert(is_open(banks@[i as int]));
                    let current_distance = manhattan_distance(position, coord);
                    if current_distance < min_distance {
                        min_distance = current_distance;
                        best = Some(i);
                        assert forall|j: int| 0 <= j < i + 1 && is_open(#[trigger] banks@[j]) implies dist(banks@[j], position) >= dist(banks@[i as int], position) by {
                            if j < i {
                                if !some_open_among(banks@, position, i as int) {
                                    if dist(banks@[j], position) < usize::MAX {
                                        assert(some_open_among(banks@, position, i as int));
                                    }
                                }
                            }
                        }
                        assert forall|j: int| 0 <= j < i && is_open(#[trigger] banks@[j]) implies dist(banks@[j], position) > dist(banks@[i as int], position) by {
                            if !some_open_among(banks@, position, i as int) {
                                if dist(banks@[j], position) < usize::MAX {
                                    assert(some_open_among(banks@, position, i as int));
                                }
                            }
                        }
                        assert(some_open_among(banks@, position, i + 1));
                    } else {
                        proof {
                            if best is None {
                                assert(!some_open_among(banks@, position, i + 1)) by {
                                    if some_open_among(banks@, position, i + 1) {
                                        let j = choose|j: int| 0 <= j < i + 1 && is_open(#[trigger] banks@[j]) && dist(banks@[j], position) < usize::MAX;
                                        if j < i {
                                            assert(some_open_among(banks@, position, i as int));
                                        }
                                    }
                                }
                            }
                        }
                    }
                } else {
                    full.push(coord);
                    proof {
                        if best is None {
                            assert(!some_open_among(banks@, position, i + 1)) by {
                                if some_open_among(banks@, position, i + 1) {
                                    let j = choose|j: int| 0 <= j < i + 1 && is_open(#[trigger] banks@[j]) && dist(banks@[j], position) < usize::MAX;
                                    if j < i {
                                        assert(some_open_among(banks@, position, i as int));
                                    }
                                }
                            }
                        }
                    }
                }
            },
            SavedQuantity::Quantity(_) => {
                proof {
                    if best is None {
                        assert(!some_open_among(banks@, position, i + 1)) by {
                            if some_open_among(banks@, position, i + 1) {
                                let j = choose|j: int| 0 <= j < i + 1 && is_open(#[trigger] banks@[j]) && dist(banks@[j], position) < usize::MAX;
                                if j < i {
                                    assert(some_open_among(banks@, position, i as int));
                                }
                            }
                        }
                    }
                }
            },
        }
        proof {
            if best is Some && !(best == Some(i)) {
                assert(some_open_among(banks@, position, i + 1)) by {
                    let j = choose|j: int| 0 <= j < i && is_open(#[trigger] banks@[j]) && dist(banks@[j], position) < usize::MAX;
                }
            }
        }
        i = i + 1;
    }
    assert(banks@.take(i as int) =~= banks@);
    let closest = match best {
        Some(k) => match banks[k].1 {
            SavedQuantity::ContentRange(r) => Some((banks[k].0, r)),
            SavedQuantity::Quantity(_) => None,
        },
        None => None,
    };
    proof {
        if let Some(k) = best {
            assert(is_open(banks@[k as int]));
        }
    }
    BankSelection { closest, full }
}


/// Turns a full bank at `c` into a place to keep away from.
pub open spec fn spec_retire(s: Seq<ChartEntry>, c: Coord) -> Seq<ChartEntry> {
    spec_save(spec_remove(s, BANK_KIND, c), Content::JollyBlock(0), c)
}

/// Turns each full bank of `cs`, in order, into a place to keep away from.
pub open spec fn spec_retire_all(s: Seq<ChartEntry>, cs: Seq<Coord>) -> Seq<ChartEntry>
    decreases cs.len(),
{
    if cs.len() == 0 {
        s
    } else {
        spec_retire(spec_retire_all(s, cs.drop_last()), cs.last())
    }
}

/// The bank the robot heads for from `position`: the nearest saved bank with
/// free slots, unless the robot stands on it.
pub open spec fn spec_trip_target(banks: Seq<(Coord, SavedQuantity)>, position: Coord, target: Option<(Coord, SlotRange)>) -> bool {
    match target {
        Some((c, r)) => c != position && exists|k: int|
            nearest_among(banks, position, k, banks.len() as int) && #[trigger] banks[k]
                == (c, SavedQuantity::ContentRange(r)),
        None => !some_open_among(banks, position, banks.len() as int) || exists|k: int|
            nearest_among(banks, position, k, banks.len() as int) && (#[trigger] banks[k]).0
                == position,
    }
}

/// The nearest bank is unique.
pub proof fn lemma_nearest_unique(banks: Seq<(Coord, SavedQuantity)>, position: Coord, k1: int, k2: int)
    requires
        nearest_among(banks, position, k1, banks.len() as int),
        nearest_among(banks, position, k2, banks.len() as int),
    ensures
        k1 == k2,
{
    if k1 < k2 {
        assert(is_open(banks[k1]));
    } else if k2 < k1 {
        assert(is_open(banks[k2]));
    }
}

/// One action of a path planned to a bank.
#[derive(Clone, Copy, Debug, PartialEq, Eq)]
pub enum PathAction {
    /// Move one cell in a direction.
    Move(Direction),
    /// Teleport to a cell.
    Teleport(Coord),
}

/// What the robot does for one action of a planned path.
#[derive(Clone, Copy, Debug, PartialEq, Eq)]
pub enum PathStep {
    /// The next cell is the bank: stop here, facing it.
    Arrived(Direction),
    /// Walk one cell in this direction.
    Walk(Direction),
    /// Teleport to this cell.
    Teleport(Coord),
}

/// Decides one action of a path to the bank at `bank`, from `position`: a move
/// whose next cell is the bank ends the path facing the bank (the robot deposits
/// from the neighbouring cell); other moves and teleports are carried out.
pub fn path_step(position: Coord, action: &PathAction, bank: Coord) -> (res: PathStep)
    requires
        *action matches PathAction::Move(d) ==> step_ok(position, d),
    ensures
        res == match *action {
            PathAction::Move(d) => if neighbor(position, d) == bank {
                PathStep::Arrived(d)
            } else {
                PathStep::Walk(d)
            },
            PathAction::Teleport(c) => PathStep::Teleport(c),
        },
{
    match action {
        PathAction::Move(d) => {
            let next = get_coords_row_col(position.0, position.1, d);
            if next.0 == bank.0 && next.1 == bank.1 {
                PathStep::Arrived(*d)
            } else {
                PathStep::Walk(*d)
            }
        },
        PathAction::Teleport(c) => PathStep::Teleport(*c),
    }
}

/// What putting coins into the bank gave back.
#[derive(Clone, Copy, Debug, PartialEq, Eq, Structural)]
pub enum PutOutcome {
    /// This many coins went into the bank.
    Deposited(usize),
    /// The backpack holds no coins.
    NoContent,
    /// The robot lacked the energy.
    NotEnoughEnergy,
    /// Some other failure.
    Failed,
}

/// The state of depositing coins at a bank: the coins still carried, the
/// bank's free slots, and why depositing stopped, if it did.
#[derive(Clone, Copy, Debug, PartialEq, Eq, Structural)]
pub struct Deposit {
    pub coins: usize,
    pub bank: SlotRange,
    pub is_full: bool,
    pub no_more_coins: bool,
    pub errors: bool,
}

impl Deposit {
    /// Starts depositing `coins` coins into a bank with free slots `bank`.
    pub fn new(coins: usize, bank: SlotRange) -> (res: Deposit)
        ensures
            res == (Deposit { coins, bank, is_full: false, no_more_coins: false, errors: false }),
    {
        Deposit { coins, bank, is_full: false, no_more_coins: false, errors: false }
    }

    /// Depositing goes on until the bank is full, the coins run out or an error occurs.
    pub open spec fn active(self) -> bool {
        !self.is_full && !self.no_more_coins && !self.errors
    }

    /// Whether depositing goes on.
    pub fn is_active(&self) -> (res: bool)
        ensures
            res == self.active(),
    {
        !self.is_full && !self.no_more_coins && !self.errors
    }

    /// Takes in the outcome of one attempt to put all carried coins into the
    /// bank, and tells whether the robot has to recharge first.
    ///
    /// Deposited coins leave the backpack and fill the bank's slots from the
    /// start; a deposit of none means the bank is full. No coins to put ends
    /// depositing, lacking energy asks for a recharge, other failures end it.
    pub fn step(&mut self, outcome: PutOutcome) -> (recharge: bool)
        requires
            old(self).active(),
            outcome matches PutOutcome::Deposited(n) ==> n <= old(self).coins && old(self).bank.start
                + n <= usize::MAX,
        ensures
            final(self).coins + final(self).bank.start == old(self).coins + old(self).bank.start,
            final(self).bank.end == old(self).bank.end,
            recharge == (outcome == PutOutcome::NotEnoughEnergy),
            *final(self) == match outcome {
                PutOutcome::Deposited(n) => Deposit {
                    coins: (old(self).coins - n) as usize,
                    bank: SlotRange { start: (old(self).bank.start + n) as usize, end: old(self).bank.end },
                    is_full: n == 0,
                    ..*old(self)
                },
                PutOutcome::NoContent => Deposit { no_more_coins: true, ..*old(self) },
                PutOutcome::NotEnoughEnergy => *old(self),
                PutOutcome::Failed => Deposit { errors: true, ..*old(self) },
            },
    {
        match outcome {
            PutOutcome::Deposited(deposited_coins) => {
                self.coins = self.coins - deposited_coins;
                self.bank.start = self.bank.start + deposited_coins;
                if deposited_coins == 0 {
                    self.is_full = true;
                }
                false
            },
            PutOutcome::NoContent => {
                self.no_more_coins = true;
                false
            },
            PutOutcome::NotEnoughEnergy => true,
            PutOutcome::Failed => {
                self.errors = true;
                false
            },
        }
    }
}

/// How far the robot explores when it looks for a bank.
pub const EXPLORE_RANGE: usize = 30;

/// What the exploring planner gave back.
#[derive(Clone, Copy, Debug, PartialEq, Eq, Structural)]
pub enum ExploreOutcome {
    /// The area around the robot has been explored.
    RadiusExplored,
    /// The whole map has been explored.
    MapAllExplored,
    /// Some other result.
    OtherResult,
    /// The planner would need more energy than the robot can have.
    MaxEnergyReached,
    /// The robot lacked the energy.
    NotEnoughEnergy,
    /// Some other failure of the world.
    OtherLibError,
    /// Some other failure of the planner.
    Failed,
}

/// The map is a square of rows as long as the map is high.
pub open spec fn map_square(map: Seq<Vec<Option<Tile>>>) -> bool {
    forall|i: int| 0 <= i < map.len() ==> (#[trigger] map[i])@.len() == map.len()
}

/// The cells the robot looks at for banks after exploring from `center`: rows
/// from `center.0 - range` up to `center.1 + range` and columns from
/// `center.1 - range` up to `center.1 + range`, with `range` the exploring range
/// shrunk to fit in the world.
pub open spec fn spec_explored_region(center: Coord, world_size: usize) -> Seq<Coord> {
    let r = fitted(EXPLORE_RANGE, center, world_size);
    square_coords(
        (center.0 - r) as usize,
        (center.1 + r) as usize,
        (center.1 - r) as usize,
        (center.1 + r) as usize,
    )
}

/// The rules after exploring from `center` to `position`.
///
/// When the area was explored but the robot did not move, it gives up for a
/// while: it pauses from exploring and searches content. When it moved, every
/// bank with free slots in the explored region of the map is saved. A fully
/// explored map ends the robot's work. Too little energy asks for a recharge;
/// other planner failures make the robot pause and search content.
pub open spec fn spec_after_explore(
    m: RobotModel,
    outcome: ExploreOutcome,
    center: Coord,
    position: Coord,
    map: Seq<Vec<Option<Tile>>>,
) -> (RobotModel, bool) {
    match outcome {
        ExploreOutcome::RadiusExplored => if position == center {
            (RobotModel { mode: Mode::SearchingContent, explorer_pause: true, ..m }, false)
        } else {
            let region = spec_explored_region(center, map.len() as usize);
            (
                RobotModel {
                    chart: spec_save_open_banks(m.chart, spec_region_tiles(map, region)),
                    ..m
                },
                false,
            )
        },
        ExploreOutcome::MapAllExplored => (RobotModel { terminated: true, ..m }, false),
        ExploreOutcome::OtherResult => (m, false),
        ExploreOutcome::MaxEnergyReached => (m, true),
        ExploreOutcome::NotEnoughEnergy => (m, true),
        ExploreOutcome::OtherLibError => (m, false),
        ExploreOutcome::Failed => (
            RobotModel { mode: Mode::SearchingContent, explorer_pause: true, ..m },
            false,
        ),
    }
}


/// After a deposit the chart tells the bank's state: a bank with free slots is
/// listed at its place with exactly those slots; a full bank is no longer listed
/// and its place is marked to keep away from.
pub proof fn lemma_record_deposit(s: Seq<ChartEntry>, bank: Coord, range: SlotRange, q: SavedQuantity)
    requires
        chart_wf(s),
    ensures
        ({
            let u = spec_remove(s, BANK_KIND, bank);
            let open = spec_save(u, Content::Bank(range), bank);
            let full = spec_save(u, Content::JollyBlock(0), bank);
            &&& range.start != range.end ==> spec_entries_of(open, BANK_KIND).contains((bank, SavedQuantity::ContentRange(range)))
                && (spec_entries_of(open, BANK_KIND).contains((bank, q)) ==> q == SavedQuantity::ContentRange(range))
            &&& !spec_entries_of(full, BANK_KIND).contains((bank, q))
            &&& spec_entries_of(full, JOLLY_KIND).contains((bank, SavedQuantity::Quantity(0)))
        }),
{
    let u = spec_remove(s, BANK_KIND, bank);
    lemma_remove_wf(s, BANK_KIND, bank);
    lemma_save_then_read(u, Content::Bank(range), bank, q);
    lemma_remove_then_read(s, BANK_KIND, bank, q);
    lemma_save_keeps_other_kinds(u, Content::JollyBlock(0), bank, BANK_KIND);
    lemma_save_then_read(u, Content::JollyBlock(0), bank, SavedQuantity::Quantity(0));
}

/// After exploring in which the robot moved, every bank with free slots on the
/// map inside the explored region is listed at its place with its free slots.
pub proof fn lemma_explore_saves_region_banks(
    m: RobotModel,
    center: Coord,
    position: Coord,
    map: Seq<Vec<Option<Tile>>>,
    cell: Coord,
)
    requires
        chart_wf(m.chart),
        position != center,
        spec_explored_region(center, map.len() as usize).contains(cell),
        is_open_bank_tile(map[cell.0 as int]@[cell.1 as int]),
    ensures
        map[cell.0 as int]@[cell.1 as int]->0.content matches Content::Bank(r) && spec_entries_of(
            spec_after_explore(m, ExploreOutcome::RadiusExplored, center, position, map).0.chart,
            BANK_KIND,
        ).contains((cell, SavedQuantity::ContentRange(r))),
{
    let rg = fitted(EXPLORE_RANGE, center, map.len() as usize);
    let lo0 = (center.0 - rg) as usize;
    let hi0 = (center.1 + rg) as usize;
    let lo1 = (center.1 - rg) as usize;
    let hi1 = (center.1 + rg) as usize;
    let region = spec_explored_region(center, map.len() as usize);
    lemma_square_coords_distinct(lo0, hi0, lo1, hi1);
    let tiles = spec_region_tiles(map, region);
    let k = choose|k: int| 0 <= k < region.len() && region[k] == cell;
    assert(tiles[k] == (cell, map[cell.0 as int]@[cell.1 as int]));
    assert forall|a: int, b: int|
        0 <= a < tiles.len() && 0 <= b < tiles.len() && a != b implies (#[trigger] tiles[a]).0
        != (#[trigger] tiles[b]).0 by {
        assert(tiles[a].0 == region[a] && tiles[b].0 == region[b]);
    }
    lemma_save_open_banks_complete(m.chart, tiles, k);
}

/// When the robot moved while exploring and the area was explored, it keeps its
/// mode (so it goes on searching a bank), its pause, its direction and its
/// counters; only the chart may change, and no recharge is asked.
pub proof fn lemma_explore_moved_keeps_mode(m: RobotModel, center: Coord, position: Coord, map: Seq<Vec<Option<Tile>>>)
    requires
        position != center,
    ensures
        ({
            let (r, recharge) = spec_after_explore(m, ExploreOutcome::RadiusExplored, center, position, map);
            &&& r.mode == m.mode
            &&& r.explorer_pause == m.explorer_pause
            &&& r.terminated == m.terminated
            &&& r.direction == m.direction
            &&& r.count_tick == m.count_tick
            &&& r.rounds == m.rounds
            &&& !recharge
        }),
{
}

/// Exploring changes the mode only to searching content, and only when the
/// robot did not move after exploring its area or the planner failed.
pub proof fn lemma_explore_mode_changes(m: RobotModel, outcome: ExploreOutcome, center: Coord, position: Coord, map: Seq<Vec<Option<Tile>>>)
    ensures
        ({
            let r = spec_after_explore(m, outcome, center, position, map).0;
            r.mode != m.mode ==> r.mode == Mode::SearchingContent && ((outcome
                == ExploreOutcome::RadiusExplored && position == center) || outcome
                == ExploreOutcome::Failed)
        }),
{
}

impl CapitalistRobot {
    /// Chooses the bank to carry the coins to from `position`, and turns every
    /// saved bank without free slots into a place to keep away from.
    pub fn plan_bank_trip(&mut self, position: Coord) -> (target: Option<(Coord, SlotRange)>)
        requires
            old(self).wf(),
            open_distances_fit(spec_entries_of(old(self)@.chart, BANK_KIND), position),
        ensures
            final(self).wf(),
            spec_trip_target(spec_entries_of(old(self)@.chart, BANK_KIND), position, target),
            final(self)@ == (RobotModel {
                chart: spec_retire_all(
                    old(self)@.chart,
                    spec_full_banks(spec_entries_of(old(self)@.chart, BANK_KIND)),
                ),
                ..old(self)@
            }),
    {
        let bank_list = self.chart.entries_of(BANK_KIND);
        let sel = select_bank(position, &bank_list);
        let ghost start = self.chart@;
        let ghost before = self@;
        let mut i: usize = 0;
        while i < sel.full.len()
            invariant
                i <= sel.full@.len(),
                self.chart.wf(),
                self@ == (RobotModel { chart: self@.chart, ..before }),
                before == old(self)@,
                model_wf(before),
                self.chart@ == spec_retire_all(start, sel.full@.take(i as int)),
            decreases sel.full.len() - i,
        {
            let coord = sel.full[i];
            assert(sel.full@.take(i + 1).drop_last() =~= sel.full@.take(i as int));
            let _ = self.chart.remove(BANK_KIND, coord);
            self.chart.save(&Content::JollyBlock(0), coord);
            i = i + 1;
        }
        assert(sel.full@.take(i as int) =~= sel.full@);
        match sel.closest {
            Some((c, r)) => {
                if c.0 != position.0 || c.1 != position.1 {
                    Some((c, r))
                } else {
                    None
                }
            },
            None => None,
        }
    }

    /// Records the state of the bank at `bank` after a deposit: a full bank
    /// becomes a place to keep away from, otherwise its free slots are updated.
    pub fn record_deposit(&mut self, bank: Coord, range: SlotRange)
        requires
            old(self).wf(),
        ensures
            final(self).wf(),
            final(self)@ == (RobotModel {
                chart: if range.start == range.end {
                    spec_save(spec_remove(old(self)@.chart, BANK_KIND, bank), Content::JollyBlock(0), bank)
                } else {
                    spec_save(spec_remove(old(self)@.chart, BANK_KIND, bank), Content::Bank(range), bank)
                },
                ..old(self)@
            }),
    {
        let _ = self.chart.remove(BANK_KIND, bank);
        if range.start == range.end {
            self.chart.save(&Content::JollyBlock(0), bank);
        } else {
            self.chart.save(&Content::Bank(range), bank);
        }
    }

    /// Ends a trip to a bank: the robot goes back to searching content, pausing
    /// from exploring if no way to the bank was found.
    pub fn finish_bank_trip(&mut self, planner_failed: bool)
        requires
            old(self).wf(),
        ensures
            final(self).wf(),
            final(self)@ == (RobotModel {
                mode: Mode::SearchingContent,
                explorer_pause: old(self)@.explorer_pause || planner_failed,
                ..old(self)@
            }),
    {
        if planner_failed {
            self.explorer_pause = true;
        }
        self.mode = Mode::SearchingContent;
    }

    /// Applies the rules after exploring from `center` to `position`, with the
    /// map as the robot now knows it, and tells whether the robot has to recharge.
    pub fn after_explore(&mut self, outcome: ExploreOutcome, center: Coord, position: Coord, map: &Grid) -> (recharge: bool)
        requires
            old(self).wf(),
            outcome == ExploreOutcome::RadiusExplored && position != center ==> {
                &&& map_square(map@)
                &&& center.0 <= map@.len()
                &&& center.1 <= map@.len()
            },
        ensures
            final(self).wf(),
            (final(self)@, recharge) == spec_after_explore(old(self)@, outcome, center, position, map@),
            outcome == ExploreOutcome::RadiusExplored && position != center ==> final(self).mode
                == old(self).mode && final(self).explorer_pause == old(self).explorer_pause,
    {
        match outcome {
            ExploreOutcome::RadiusExplored => {
                if position.0 == center.0 && position.1 == center.1 {
                    self.mode = Mode::SearchingContent;
                    self.explorer_pause = true;
                } else {
                    let world_size = map.len();
                    let mut range: usize = EXPLORE_RANGE;
                    check_range(&mut range, center, world_size);
                    let coords = square(center.0 - range, center.1 + range, center.1 - range, center.1 + range);
                    assert forall|k: int| 0 <= k < coords@.len() implies in_map(map@, #[trigger] coords@[k]) by {
                        lemma_square_coords_member(
                            (center.0 - range) as usize,
                            (center.1 + range) as usize,
                            (center.1 - range) as usize,
                            (center.1 + range) as usize,
                            coords@[k],
                        );
                        assert(coords@.contains(coords@[k]));
                        assert(map@[coords@[k].0 as int]@.len() == map@.len());
                    }
                    let tiles = region_tiles(map, &coords);
                    let _ = save_open_banks(&mut self.chart, &tiles);
                }
                false
            },
            ExploreOutcome::MapAllExplored => {
                self.terminated = true;
                false
            },
            ExploreOutcome::OtherResult => false,
            ExploreOutcome::MaxEnergyReached => true,
            ExploreOutcome::NotEnoughEnergy => true,
            ExploreOutcome::OtherLibError => false,
            ExploreOutcome::Failed => {
                self.mode = Mode::SearchingContent;
                self.explorer_pause = true;
                false
            },
        }
    }

    /// Ends exploring: the robot stops for good once it has discovered more
    /// tiles than `threshold` (half the world).
    pub fn finish_exploring(&mut self, discoverable: usize, threshold: usize)
        requires
            old(self).wf(),
        ensures
            final(self).wf(),
            final(self)@ == (RobotModel {
                terminated: old(self)@.terminated || discoverable > threshold,
                ..old(self)@
            }),
    {
        if discoverable > threshold {
            self.terminated = true;
        }
    }
}


/// Every saved bank without free slots has its place among the full banks.
proof fn lemma_full_banks_complete(banks: Seq<(Coord, SavedQuantity)>, e: (Coord, SavedQuantity))
    requires
        banks.contains(e),
        is_full(e),
    ensures
        spec_full_banks(banks).contains(e.0),
    decreases banks.len(),
{
    let i = choose|i: int| 0 <= i < banks.len() && banks[i] == e;
    if i == banks.len() - 1 {
        let r = spec_full_banks(banks.drop_last());
        assert(r.push(e.0)[r.len() as int] == e.0);
    } else {
        assert(banks.drop_last()[i] == e);
        lemma_full_banks_complete(banks.drop_last(), e);
        let r = spec_full_banks(banks.drop_last());
        let k = choose|k: int| 0 <= k < r.len() && r[k] == e.0;
        if is_full(banks.last()) {
            assert(r.push(banks.last().0)[k] == e.0);
        }
    }
}

/// Retiring banks keeps the chart well formed, and a bank listed afterwards was
/// listed before and is not among the retired places.
proof fn lemma_retire_all_listing(s: Seq<ChartEntry>, cs: Seq<Coord>, c: Coord, q: SavedQuantity)
    requires
        chart_wf(s),
    ensures
        chart_wf(spec_retire_all(s, cs)),
        spec_entries_of(spec_retire_all(s, cs), BANK_KIND).contains((c, q)) ==> spec_entries_of(
            s,
            BANK_KIND,
        ).contains((c, q)) && !cs.contains(c),
    decreases cs.len(),
{
    if cs.len() > 0 {
        let prev = cs.drop_last();
        let x = cs.last();
        lemma_retire_all_listing(s, prev, c, q);
        let t = spec_retire_all(s, prev);
        let u = spec_remove(t, BANK_KIND, x);
        lemma_remove_wf(t, BANK_KIND, x);
        lemma_save_wf(u, Content::JollyBlock(0), x);
        lemma_save_keeps_other_kinds(u, Content::JollyBlock(0), x, BANK_KIND);
        if spec_entries_of(spec_retire_all(s, cs), BANK_KIND).contains((c, q)) {
            lemma_remove_listing_subset(t, BANK_KIND, x, BANK_KIND, c, q);
            lemma_remove_then_read(t, BANK_KIND, x, q);
            assert(c != x);
            if cs.contains(c) {
                let k = choose|k: int| 0 <= k < cs.len() && cs[k] == c;
                assert(prev[k] == c);
            }
        }
    }
}

/// After the robot plans a trip, no saved bank without free slots remains:
/// each has become a place to keep away from.
pub proof fn lemma_trip_leaves_no_full_bank(s: Seq<ChartEntry>, c: Coord, q: SavedQuantity)
    requires
        chart_wf(s),
        spec_entries_of(
            spec_retire_all(s, spec_full_banks(spec_entries_of(s, BANK_KIND))),
            BANK_KIND,
        ).contains((c, q)),
    ensures
        !is_full((c, q)),
{
    let banks = spec_entries_of(s, BANK_KIND);
    lemma_retire_all_listing(s, spec_full_banks(banks), c, q);
    if is_full((c, q)) {
        lemma_full_banks_complete(banks, (c, q));
    }
}

} // verus!
