//! Scanning a city for banks.
use vstd::prelude::*;
use crate::chart::{Chart, ChartEntry, SavedQuantity, chart_wf, spec_entries_of, spec_save, spec_saved_quantity, lemma_save_wf, lemma_save_then_read, lemma_save_keeps_other_places};
use crate::world::{BANK_KIND, JOLLY_KIND};
use crate::geometry::{Coord, check_range, fitting_range, range_exceeds, square, square_coords, lemma_square_coords_member};
use crate::robot::{CapitalistRobot, Mode, RobotModel};
use crate::world::{Content, Tile};

verus! {

/// How far around itself the robot discovers tiles when it scans a city.
pub const SCAN_BANK_RANGE: usize = 9;

/// The half-width of the square that the robot scans: `range`, shrunk so that
/// the square around `center` fits in the world.
pub open spec fn fitted(range: usize, center: Coord, world_size: usize) -> usize {
    if range_exceeds(range, center, world_size) {
        fitting_range(center, world_size) as usize
    } else {
        range
    }
}

/// The cells the robot discovers when it scans a city from `center`.
pub open spec fn spec_scan_bank_coordinates(center: Coord, world_size: usize) -> Seq<Coord> {
    let r = fitted(SCAN_BANK_RANGE, center, world_size);
    square_coords(
        (center.0 - r) as usize,
        (center.0 + r) as usize,
        (center.1 - r) as usize,
        (center.1 + r) as usize,
    )
}

/// The cells to discover around `center`: the square of half-width
/// `SCAN_BANK_RANGE`, shrunk to fit in the world, row by row (the last row
/// and column of the square, `center + range`, are left out).
pub fn scan_bank_coordinates(center: Coord, world_size: usize) -> (res: Vec<Coord>)
    requires
        center.0 <= world_size,
        center.1 <= world_size,
    ensures
        res@ == spec_scan_bank_coordinates(center, world_size),
        forall|k: int| 0 <= k < res@.len() ==> (#[trigger] res@[k]).0 < world_size && res@[k].1 < world_size,
{
    let mut range: usize = SCAN_BANK_RANGE;
    check_range(&mut range, center, world_size);
    let res = square(center.0 - range, center.0 + range, center.1 - range, center.1 + range);
    assert forall|k: int| 0 <= k < res@.len() implies (#[trigger] res@[k]).0 < world_size && res@[k].1 < world_size by {
        lemma_square_coords_member(
            (center.0 - range) as usize,
            (center.0 + range) as usize,
            (center.1 - range) as usize,
            (center.1 + range) as usize,
            res@[k],
        );
        assert(res@.contains(res@[k]));
    }
    res
}

/// The tile holds a bank with free slots.
pub open spec fn is_open_bank_tile(t: Option<Tile>) -> bool {
    t matches Some(tile) && tile.content.spec_is_open_bank()
}

/// The chart after saving, in order, every bank with free slots among `tiles`
/// at its place.
pub open spec fn spec_save_open_banks(chart: Seq<ChartEntry>, tiles: Seq<(Coord, Option<Tile>)>) -> Seq<ChartEntry>
    decreases tiles.len(),
{
    if tiles.len() == 0 {
        chart
    } else {
        let prev = spec_save_open_banks(chart, tiles.drop_last());
        let (c, t) = tiles.last();
        if is_open_bank_tile(t) {
            spec_save(prev, t->0.content, c)
        } else {
            prev
        }
    }
}

/// Some of `tiles` holds a bank with free slots.
pub open spec fn any_open_bank(tiles: Seq<(Coord, Option<Tile>)>) -> bool {
    exists|i: int| 0 <= i < tiles.len() && is_open_bank_tile(#[trigger] tiles[i].1)
}

/// Saves every bank with free slots among `tiles` in the chart; tells whether
/// there was one.
pub fn save_open_banks(chart: &mut Chart, tiles: &Vec<(Coord, Option<Tile>)>) -> (found: bool)
    requires
        old(chart).wf(),
    ensures
        final(chart).wf(),
        final(chart)@ == spec_save_open_banks(old(chart)@, tiles@),
        found == any_open_bank(tiles@),
        distinct_places(tiles@) ==> forall|i: int|
            0 <= i < tiles@.len() && is_open_bank_tile(#[trigger] tiles@[i].1) ==> (tiles@[i].1->0.content matches Content::Bank(r)
                && spec_entries_of(final(chart)@, BANK_KIND).contains((tiles@[i].0, SavedQuantity::ContentRange(r)))),
{
    proof {
        if distinct_places(tiles@) {
            assert forall|i: int|
                0 <= i < tiles@.len() && is_open_bank_tile(#[trigger] tiles@[i].1) implies (tiles@[i].1->0.content matches Content::Bank(r)
                    && spec_entries_of(spec_save_open_banks(chart@, tiles@), BANK_KIND).contains((tiles@[i].0, SavedQuantity::ContentRange(r)))) by {
                lemma_save_open_banks_complete(chart@, tiles@, i);
            }
        }
    }
    let ghost start = chart@;
    let mut found = false;
    let mut i: usize = 0;
    while i < tiles.len()
        invariant
            i <= tiles.len(),
            chart.wf(),
            chart@ == spec_save_open_banks(start, tiles@.take(i as int)),
            found == any_open_bank(tiles@.take(i as int)),
        decreases tiles.len() - i,
    {
        let (c, t) = tiles[i];
        assert(tiles@.take(i + 1).drop_last() =~= tiles@.take(i as int));
        assert(tiles@.take(i + 1).last() == tiles@[i as int]);
        let mut here = false;
        if let Some(tile) = t {
            if tile.content.is_open_bank() {
                chart.save(&tile.content, c);
                here = true;
            }
        }
        proof {
            let pre = tiles@.take(i as int);
            let post = tiles@.take(i + 1);
            if here {
                assert(is_open_bank_tile(post[i as int].1));
            }
            if any_open_bank(post) && !here {
                let k = choose|k: int| 0 <= k < post.len() && is_open_bank_tile(#[trigger] post[k].1);
                assert(pre[k] == post[k]);
            }
            if any_open_bank(pre) {
                let k = choose|k: int| 0 <= k < pre.len() && is_open_bank_tile(#[trigger] pre[k].1);
                assert(pre[k] == post[k]);
            }
        }
        found = found || here;
        i = i + 1;
    }
    assert(tiles@.take(i as int) =~= tiles@);
    found
}

/// What the discovery of the tiles around the robot gave back.
pub enum DiscoveryOutcome {
    /// The discovered tiles, each with its place.
    Discovered(Vec<(Coord, Option<Tile>)>),
    /// The robot lacked the energy to discover them.
    NotEnoughEnergy,
    /// The robot may discover no more tiles.
    NoMoreDiscovery,
    /// Some other failure.
    Failed,
}

/// What the world has to do after a city scan.
#[derive(Clone, Copy, Debug, PartialEq, Eq, Structural)]
pub enum ScanBankAction {
    /// Step off the street and go back to searching.
    LeaveStreet,
    /// Recharge the robot's energy.
    Recharge,
    /// Nothing.
    Nothing,
}

/// The rules after a city scan from `position`.
///
/// With discovered tiles, every bank with free slots is saved; with none, the
/// robot's position is marked as a place to keep away from; either way the robot
/// leaves the street and goes back to searching. Without energy it recharges.
/// When it may discover no more, it leaves the street, goes back to searching
/// and remembers that discovery is over. Other failures change nothing.
pub open spec fn spec_after_scan_bank(m: RobotModel, outcome: DiscoveryOutcome, position: Coord) -> (
    RobotModel,
    ScanBankAction,
) {
    match outcome {
        DiscoveryOutcome::Discovered(tiles) => {
            let saved = spec_save_open_banks(m.chart, tiles@);
            let chart = if any_open_bank(tiles@) {
                saved
            } else {
                spec_save(saved, Content::JollyBlock(0), position)
            };
            (RobotModel { chart, mode: Mode::SearchingContent, ..m }, ScanBankAction::LeaveStreet)
        },
        DiscoveryOutcome::NotEnoughEnergy => (m, ScanBankAction::Recharge),
        DiscoveryOutcome::NoMoreDiscovery => (
            RobotModel { mode: Mode::SearchingContent, no_more_discovery: true, ..m },
            ScanBankAction::LeaveStreet,
        ),
        DiscoveryOutcome::Failed => (m, ScanBankAction::Nothing),
    }
}

impl CapitalistRobot {
    /// Applies the rules after a city scan from `position`, and tells what the
    /// world has to do.
    pub fn after_scan_bank(&mut self, outcome: &DiscoveryOutcome, position: Coord) -> (action: ScanBankAction)
        requires
            old(self).wf(),
        ensures
            final(self).wf(),
            (final(self)@, action) == spec_after_scan_bank(old(self)@, *outcome, position),
    {
        match outcome {
            DiscoveryOutcome::Discovered(tiles) => {
                let bank_found = save_open_banks(&mut self.chart, tiles);
                if !bank_found {
                    self.chart.save(&Content::JollyBlock(0), position);
                }
                self.mode = Mode::SearchingContent;
                ScanBankAction::LeaveStreet
            },
            DiscoveryOutcome::NotEnoughEnergy => ScanBankAction::Recharge,
            DiscoveryOutcome::NoMoreDiscovery => {
                self.mode = Mode::SearchingContent;
                self.no_more_discovery = true;
                ScanBankAction::LeaveStreet
            },
            DiscoveryOutcome::Failed => ScanBankAction::Nothing,
        }
    }
}


/// No two of `tiles` share a place.
pub open spec fn distinct_places(tiles: Seq<(Coord, Option<Tile>)>) -> bool {
    forall|i: int, j: int|
        0 <= i < tiles.len() && 0 <= j < tiles.len() && i != j ==> (#[trigger] tiles[i]).0
            != (#[trigger] tiles[j]).0
}

/// Saving open banks keeps the chart well formed.
pub proof fn lemma_save_open_banks_wf(chart: Seq<ChartEntry>, tiles: Seq<(Coord, Option<Tile>)>)
    requires
        chart_wf(chart),
    ensures
        chart_wf(spec_save_open_banks(chart, tiles)),
    decreases tiles.len(),
{
    if tiles.len() > 0 {
        lemma_save_open_banks_wf(chart, tiles.drop_last());
        let prev = spec_save_open_banks(chart, tiles.drop_last());
        let (c, t) = tiles.last();
        if is_open_bank_tile(t) {
            lemma_save_wf(prev, t->0.content, c);
        }
    }
}

/// Every bank with free slots among tiles at distinct places ends up listed
/// among the chart's banks, at its place, with its free slots.
pub proof fn lemma_save_open_banks_complete(chart: Seq<ChartEntry>, tiles: Seq<(Coord, Option<Tile>)>, i: int)
    requires
        chart_wf(chart),
        distinct_places(tiles),
        0 <= i < tiles.len(),
        is_open_bank_tile(tiles[i].1),
    ensures
        tiles[i].1->0.content matches Content::Bank(r) && spec_entries_of(
            spec_save_open_banks(chart, tiles),
            BANK_KIND,
        ).contains((tiles[i].0, SavedQuantity::ContentRange(r))),
    decreases tiles.len(),
{
    let n = tiles.len() - 1;
    let prevt = tiles.drop_last();
    let prev = spec_save_open_banks(chart, prevt);
    lemma_save_open_banks_wf(chart, prevt);
    let content = tiles[i].1->0.content;
    if i == n {
        lemma_save_then_read(prev, content, tiles[i].0, spec_saved_quantity(content));
    } else {
        assert forall|a: int, b: int|
            0 <= a < prevt.len() && 0 <= b < prevt.len() && a != b implies (#[trigger] prevt[a]).0
            != (#[trigger] prevt[b]).0 by {
            assert(prevt[a] == tiles[a] && prevt[b] == tiles[b]);
        }
        assert(prevt[i] == tiles[i]);
        lemma_save_open_banks_complete(chart, prevt, i);
        let (c, t) = tiles.last();
        if is_open_bank_tile(t) {
            assert(tiles[n] == tiles.last());
            assert(c != tiles[i].0);
            match content {
                Content::Bank(r) => {
                    lemma_save_keeps_other_places(
                        prev,
                        t->0.content,
                        c,
                        BANK_KIND,
                        tiles[i].0,
                        SavedQuantity::ContentRange(r),
                    );
                },
                _ => {},
            }
        }
    }
}



/// After a city scan: with discovered tiles the robot searches content again and
/// leaves the street, every bank with free slots found (at distinct places) is
/// listed, and when none was found its position is marked as a place to keep
/// away from. Without energy nothing changes but a recharge is asked; when
/// discovery is over the robot remembers it and searches content; other
/// failures change nothing. Only the chart, the mode and the end of discovery
/// ever change.
pub proof fn lemma_after_scan_bank(m: RobotModel, outcome: DiscoveryOutcome, position: Coord)
    requires
        chart_wf(m.chart),
    ensures
        ({
            let (r, a) = spec_after_scan_bank(m, outcome, position);
            &&& r == (RobotModel { chart: r.chart, mode: r.mode, no_more_discovery: r.no_more_discovery, ..m })
            &&& chart_wf(r.chart)
            &&& outcome matches DiscoveryOutcome::Discovered(tiles) ==> (a == ScanBankAction::LeaveStreet
                && r.mode == Mode::SearchingContent && r.no_more_discovery == m.no_more_discovery
                && (!any_open_bank(tiles@) ==> spec_entries_of(r.chart, JOLLY_KIND).contains((position, SavedQuantity::Quantity(0)))))
            &&& outcome is NotEnoughEnergy ==> r == m && a == ScanBankAction::Recharge
            &&& outcome is NoMoreDiscovery ==> a == ScanBankAction::LeaveStreet && r.mode == Mode::SearchingContent
                && r.no_more_discovery && r.chart == m.chart
            &&& outcome is Failed ==> r == m && a == ScanBankAction::Nothing
        }),
{
    if let DiscoveryOutcome::Discovered(tiles) = outcome {
        lemma_save_open_banks_wf(m.chart, tiles@);
        let saved = spec_save_open_banks(m.chart, tiles@);
        lemma_save_wf(saved, Content::JollyBlock(0), position);
        lemma_save_then_read(saved, Content::JollyBlock(0), position, SavedQuantity::Quantity(0));
    }
}

} // verus!
