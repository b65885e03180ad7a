//! Following a street: streets usually lead to cities, and cities have banks.
use vstd::prelude::*;
use crate::chart::{SavedQuantity, chart_wf, spec_entries_of, spec_save, spec_saved_quantity, lemma_save_then_read};
use crate::world::BANK_KIND;
use crate::geometry::{Coord, Direction, neighbor, opposite_direction, spec_opposite, step_ok};
use crate::random::{all_directions, is_direction_order, random_direction_order};
use crate::robot::{CapitalistRobot, Mode, RobotModel};
use crate::world::{Content, Grid, Tile, get_cell, spec_dir_tile, view_cell, view_ok};

verus! {

/// The first direction of `s`, from position `i` on, that satisfies `p`.
pub open spec fn first_from(s: Seq<Direction>, p: spec_fn(Direction) -> bool, i: int) -> Option<
    Direction,
>
    decreases s.len() - i,
{
    if i < 0 || i >= s.len() {
        None
    } else if p(s[i]) {
        Some(s[i])
    } else {
        first_from(s, p, i + 1)
    }
}

/// What `first_from` finds satisfies the predicate and belongs to the sequence.
pub proof fn lemma_first_from_found(s: Seq<Direction>, p: spec_fn(Direction) -> bool, i: int)
    ensures
        first_from(s, p, i) matches Some(d) ==> p(d) && s.contains(d),
    decreases s.len() - i,
{
    if 0 <= i < s.len() && !p(s[i]) {
        lemma_first_from_found(s, p, i + 1);
    }
}

/// The tile towards `d` holds a bank with free slots.
pub open spec fn open_bank_at(view: Seq<Vec<Option<Tile>>>, d: Direction) -> bool {
    spec_dir_tile(view, d) matches Some(t) && t.content.spec_is_open_bank()
}

/// The tile towards `d` holds a building or a market.
pub open spec fn city_at(view: Seq<Vec<Option<Tile>>>, d: Direction) -> bool {
    spec_dir_tile(view, d) matches Some(t) && t.content.spec_is_city()
}

/// The tile towards `d` is a street and `d` does not turn back.
pub open spec fn street_ahead(view: Seq<Vec<Option<Tile>>>, back: Direction, d: Direction) -> bool {
    &&& d != back
    &&& spec_dir_tile(view, d) matches Some(t) && t.is_street
}

/// The first direction, in the order up, right, down, left, towards a bank with free slots.
pub open spec fn spec_first_open_bank(view: Seq<Vec<Option<Tile>>>) -> Option<Direction> {
    first_from(all_directions(), |d: Direction| open_bank_at(view, d), 0)
}

/// Some neighbouring tile holds a building or a market.
pub open spec fn spec_near_city(view: Seq<Vec<Option<Tile>>>) -> bool {
    exists|d: Direction| #[trigger] city_at(view, d)
}

/// The first direction of `order` that continues along a street without turning back.
pub open spec fn spec_next_street(view: Seq<Vec<Option<Tile>>>, back: Direction, order: Seq<Direction>) -> Option<Direction> {
    first_from(order, |d: Direction| street_ahead(view, back, d), 0)
}

/// The robot has just moved along the street to `position` and sees `view`.
///
/// A bank with free slots next to it (the first in the order up, right, down,
/// left) is saved in the chart and the robot goes back to searching. Otherwise,
/// a building or a market next to it means a city: the robot scans it for banks.
/// Otherwise, still following the street, it takes the first direction of
/// `order` that continues along a street without turning back. With none, the
/// robot counts a round; at the second round it marks its position as a place
/// to keep away from and goes back to searching, otherwise it turns around.
pub open spec fn spec_follow_street(
    m: RobotModel,
    view: Seq<Vec<Option<Tile>>>,
    position: Coord,
    order: Seq<Direction>,
) -> RobotModel {
    let m1 = match spec_first_open_bank(view) {
        Some(d) => RobotModel {
            chart: spec_save(m.chart, spec_dir_tile(view, d)->0.content, neighbor(position, d)),
            mode: Mode::SearchingContent,
            ..m
        },
        None => if spec_near_city(view) {
            RobotModel { mode: Mode::ScanBank, ..m }
        } else {
            m
        },
    };
    if m1.mode == Mode::FollowStreet {
        match spec_next_street(view, spec_opposite(m.direction), order) {
            Some(d) => RobotModel { direction: d, ..m1 },
            None => {
                let rounds = (m1.rounds + 1) as usize;
                if rounds == 2 {
                    RobotModel {
                        rounds,
                        chart: spec_save(m1.chart, Content::JollyBlock(0), position),
                        mode: Mode::SearchingContent,
                        ..m1
                    }
                } else {
                    RobotModel { rounds, direction: spec_opposite(m1.direction), ..m1 }
                }
            },
        }
    } else {
        m1
    }
}


/// The dead-end round counter only moves at a dead end, and then by one: while
/// following a street that continues (no bank, no city next to the robot), the
/// robot keeps its rounds and its mode, leaves the chart alone, and takes a
/// street direction that does not turn back.
pub proof fn lemma_follow_street_rounds(m: RobotModel, view: Seq<Vec<Option<Tile>>>, position: Coord, order: Seq<Direction>)
    requires
        m.rounds < usize::MAX,
    ensures
        ({
            let r = spec_follow_street(m, view, position, order);
            let plain = m.mode == Mode::FollowStreet && spec_first_open_bank(view) is None
                && !spec_near_city(view);
            let next = spec_next_street(view, spec_opposite(m.direction), order);
            &&& r.rounds == m.rounds || (r.rounds == m.rounds + 1 && plain && next is None)
            &&& plain && next is Some ==> r.rounds == m.rounds && r.mode == Mode::FollowStreet
                && r.chart == m.chart && r.direction == next->0 && r.direction != spec_opposite(m.direction)
                && street_ahead(view, spec_opposite(m.direction), r.direction)
            &&& plain && next is None && m.rounds + 1 != 2 ==> r.direction == spec_opposite(m.direction)
                && r.mode == Mode::FollowStreet
        }),
{
    lemma_first_from_found(order, |d: Direction| street_ahead(view, spec_opposite(m.direction), d), 0);
    lemma_first_from_found(all_directions(), |d: Direction| open_bank_at(view, d), 0);
}


/// A bank with free slots next to the robot is saved at its place with its free
/// slots and ends the street following; without one, a building or a market
/// next to the robot makes it scan the city.
pub proof fn lemma_follow_street_finds(m: RobotModel, view: Seq<Vec<Option<Tile>>>, position: Coord, order: Seq<Direction>)
    requires
        chart_wf(m.chart),
        m.rounds < usize::MAX,
        forall|d: Direction| #[trigger] spec_dir_tile(view, d) is Some ==> step_ok(position, d),
    ensures
        ({
            let r = spec_follow_street(m, view, position, order);
            &&& spec_first_open_bank(view) matches Some(d) ==> (r.mode == Mode::SearchingContent
                && open_bank_at(view, d) && (spec_dir_tile(view, d)->0.content matches Content::Bank(range)
                && spec_entries_of(r.chart, BANK_KIND).contains((neighbor(position, d), SavedQuantity::ContentRange(range)))))
            &&& spec_first_open_bank(view) is None ==> forall|d: Direction| !#[trigger] open_bank_at(view, d)
            &&& spec_first_open_bank(view) is None && spec_near_city(view) ==> r.mode == Mode::ScanBank
                && r.chart == m.chart && r.direction == m.direction && r.rounds == m.rounds
        }),
{
    lemma_first_from_found(all_directions(), |d: Direction| open_bank_at(view, d), 0);
    if let Some(d) = spec_first_open_bank(view) {
        let content = spec_dir_tile(view, d)->0.content;
        lemma_save_then_read(m.chart, content, neighbor(position, d), spec_saved_quantity(content));
    } else {
        assert forall|d: Direction| !#[trigger] open_bank_at(view, d) by {
            if open_bank_at(view, d) {
                lemma_first_from_none(all_directions(), |d: Direction| open_bank_at(view, d), 0, d);
            }
        }
    }
}

/// When `first_from` finds nothing, no element from position `i` on satisfies the predicate.
proof fn lemma_first_from_none(s: Seq<Direction>, p: spec_fn(Direction) -> bool, i: int, d: Direction)
    requires
        0 <= i,
        first_from(s, p, i) is None,
        p(d),
    ensures
        forall|k: int| i <= k < s.len() ==> s[k] != d,
    decreases s.len() - i,
{
    if i < s.len() {
        lemma_first_from_none(s, p, i + 1, d);
    }
}

/// The first direction, in the order up, right, down, left, towards a bank with free slots.
pub fn first_open_bank(view: &Grid) -> (res: Option<Direction>)
    requires
        view_ok(view@),
    ensures
        res == spec_first_open_bank(view@),
{
    let dirs: [Direction; 4] = [Direction::Up, Direction::Right, Direction::Down, Direction::Left];
    let ghost p = |d: Direction| open_bank_at(view@, d);
    let mut i: usize = 0;
    while i < 4
        invariant
            view_ok(view@),
            i <= 4,
            dirs@ == all_directions(),
            p == (|d: Direction| open_bank_at(view@, d)),
            first_from(all_directions(), p, 0) == first_from(all_directions(), p, i as int),
        decreases 4 - i,
    {
        let d = dirs[i];
        let t = get_cell(view, view_cell(d));
        if let Some(tile) = t {
            if tile.content.is_open_bank() {
                assert(p(d));
                return Some(d);
            }
        }
        assert(!p(d));
        i = i + 1;
    }
    None
}

/// Whether some neighbouring tile holds a building or a market.
pub fn near_city(view: &Grid) -> (res: bool)
    requires
        view_ok(view@),
    ensures
        res == spec_near_city(view@),
{
    let dirs: [Direction; 4] = [Direction::Up, Direction::Right, Direction::Down, Direction::Left];
    let mut i: usize = 0;
    while i < 4
        invariant
            view_ok(view@),
            i <= 4,
            dirs@ == all_directions(),
            forall|j: int| 0 <= j < i ==> !city_at(view@, #[trigger] dirs@[j]),
        decreases 4 - i,
    {
        let d = dirs[i];
        let t = get_cell(view, view_cell(d));
        if let Some(tile) = t {
            if tile.content.is_city() {
                assert(city_at(view@, d));
                return true;
            }
        }
        i = i + 1;
    }
    assert forall|d: Direction| !#[trigger] city_at(view@, d) by {
        let k: int = match d {
            Direction::Up => 0,
            Direction::Right => 1,
            Direction::Down => 2,
            Direction::Left => 3,
        };
        assert(dirs@[k] == d);
    }
    false
}

/// The first direction of `order` that continues along a street without turning back.
pub fn next_street(view: &Grid, back: Direction, order: &Vec<Direction>) -> (res: Option<Direction>)
    requires
        view_ok(view@),
    ensures
        res == spec_next_street(view@, back, order@),
{
    let ghost p = |d: Direction| street_ahead(view@, back, d);
    let mut i: usize = 0;
    while i < order.len()
        invariant
            view_ok(view@),
            i <= order.len(),
            p == (|d: Direction| street_ahead(view@, back, d)),
            first_from(order@, p, 0) == first_from(order@, p, i as int),
        decreases order.len() - i,
    {
        let d = order[i];
        if d != back {
            let t = get_cell(view, view_cell(d));
            if let Some(tile) = t {
                if tile.is_street {
                    assert(p(d));
                    return Some(d);
                }
            }
        }
        assert(!p(d));
        i = i + 1;
    }
    None
}

impl CapitalistRobot {
    /// The street-following rules after a move to `position` with the view
    /// `view`, trying street directions in the given `order`.
    pub fn follow_street_with_order(&mut self, view: &Grid, position: Coord, order: &Vec<Direction>)
        requires
            old(self).wf(),
            view_ok(view@),
            old(self).rounds < usize::MAX,
            forall|d: Direction| #[trigger] spec_dir_tile(view@, d) is Some ==> step_ok(position, d),
        ensures
            final(self).wf(),
            final(self)@ == spec_follow_street(old(self)@, view@, position, order@),
    {
        let back = opposite_direction(&self.direction);
        match first_open_bank(view) {
            Some(d) => {
                proof {
                    lemma_first_from_found(all_directions(), |d: Direction| open_bank_at(view@, d), 0);
                }
                let t = get_cell(view, view_cell(d));
                let tile = t.unwrap();
                self.save_tile(position, &d, &tile.content);
                self.mode = Mode::SearchingContent;
            },
            None => {
                if near_city(view) {
                    self.mode = Mode::ScanBank;
                }
            },
        }
        if self.mode == Mode::FollowStreet {
            match next_street(view, back, order) {
                Some(d) => {
                    self.direction = d;
                },
                None => {
                    self.rounds = self.rounds + 1;
                    if self.rounds == 2 {
                        self.chart.save(&Content::JollyBlock(0), position);
                        self.mode = Mode::SearchingContent;
                    } else {
                        self.direction = opposite_direction(&self.direction);
                    }
                },
            }
        }
    }

    /// The street-following rules after a move to `position` with the view
    /// `view`, trying street directions in a random order.
    pub fn run_follow_street_mode(&mut self, view: &Grid, position: Coord)
        requires
            old(self).wf(),
            view_ok(view@),
            old(self).rounds < usize::MAX,
            forall|d: Direction| #[trigger] spec_dir_tile(view@, d) is Some ==> step_ok(position, d),
        ensures
            final(self).wf(),
            exists|order: Seq<Direction>|
                is_direction_order(order) && final(self)@ == spec_follow_street(
                    old(self)@,
                    view@,
                    position,
                    order,
                ),
    {
        let order = random_direction_order();
        self.follow_street_with_order(view, position, &order);
        assert(is_direction_order(order@));
    }
}

} // verus!
