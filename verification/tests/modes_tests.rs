use capitalist_robot::chart::SavedQuantity;
use capitalist_robot::geometry::Direction;
use capitalist_robot::modes::follow_street::{first_open_bank, near_city, next_street};
use capitalist_robot::modes::scan_bank::{
    save_open_banks, scan_bank_coordinates, DiscoveryOutcome, ScanBankAction,
};
use capitalist_robot::modes::searching_bank::{
    path_step, select_bank, Deposit, ExploreOutcome, PathAction, PathStep, PutOutcome,
};
use capitalist_robot::modes::searching_content::{
    is_attractive, turn_perpendicular, RecycleOutcome, RecycleReaction,
};
use capitalist_robot::robot::{CapitalistRobot, Mode};
use capitalist_robot::world::{Content, SlotRange, Tile, BANK_KIND, JOLLY_KIND};

fn tile(is_street: bool, content: Content) -> Option<Tile> {
    Some(Tile { is_street, walkable: true, content })
}

fn empty_view() -> Vec<Vec<Option<Tile>>> {
    vec![vec![None, None, None], vec![None, None, None], vec![None, None, None]]
}

fn bank(start: usize, end: usize) -> Content {
    Content::Bank(SlotRange { start, end })
}

fn range(start: usize, end: usize) -> SavedQuantity {
    SavedQuantity::ContentRange(SlotRange { start, end })
}

const ORDER: [Direction; 4] = [Direction::Up, Direction::Right, Direction::Down, Direction::Left];

#[test]
fn street_view_helpers() {
    let mut view = empty_view();
    view[1][2] = tile(false, Content::Building);
    view[2][1] = tile(true, bank(0, 2));
    view[1][0] = tile(true, bank(1, 1));
    assert_eq!(first_open_bank(&view), Some(Direction::Down));
    assert!(near_city(&view));
    assert_eq!(next_street(&view, Direction::Down, &ORDER.to_vec()), Some(Direction::Left));
    assert_eq!(next_street(&view, Direction::Up, &ORDER.to_vec()), Some(Direction::Down));
    assert!(!near_city(&empty_view()));
}

#[test]
fn follow_street_saves_a_bank_next_to_it() {
    let mut robot = CapitalistRobot::new();
    robot.mode = Mode::FollowStreet;
    let mut view = empty_view();
    view[0][1] = tile(false, Content::Market(1));
    view[1][2] = tile(false, bank(2, 6));
    robot.follow_street_with_order(&view, (10, 10), &ORDER.to_vec());
    assert_eq!(robot.mode, Mode::SearchingContent);
    assert_eq!(robot.chart.entries_of(BANK_KIND), vec![((10, 11), range(2, 6))]);
}

#[test]
fn follow_street_into_a_city() {
    let mut robot = CapitalistRobot::new();
    robot.mode = Mode::FollowStreet;
    let mut view = empty_view();
    view[2][1] = tile(false, Content::Building);
    view[1][2] = tile(true, Content::NoContent);
    robot.follow_street_with_order(&view, (10, 10), &ORDER.to_vec());
    assert_eq!(robot.mode, Mode::ScanBank);
    assert_eq!(robot.direction, Direction::Right);
}

#[test]
fn follow_street_continues_without_turning_back() {
    let mut robot = CapitalistRobot::new();
    robot.mode = Mode::FollowStreet;
    robot.direction = Direction::Right;
    let mut view = empty_view();
    view[1][0] = tile(true, Content::NoContent);
    view[2][1] = tile(true, Content::NoContent);
    robot.follow_street_with_order(&view, (10, 10), &ORDER.to_vec());
    assert_eq!(robot.mode, Mode::FollowStreet);
    assert_eq!(robot.direction, Direction::Down);
}

#[test]
fn dead_end_streets_turn_around_then_give_up() {
    let mut robot = CapitalistRobot::new();
    robot.mode = Mode::FollowStreet;
    robot.direction = Direction::Up;
    let mut view = empty_view();
    view[2][1] = tile(true, Content::NoContent);
    robot.follow_street_with_order(&view, (10, 10), &ORDER.to_vec());
    assert_eq!(robot.rounds, 1);
    assert_eq!(robot.direction, Direction::Down);
    assert_eq!(robot.mode, Mode::FollowStreet);
    view = empty_view();
    view[0][1] = tile(true, Content::NoContent);
    robot.follow_street_with_order(&view, (12, 10), &ORDER.to_vec());
    assert_eq!(robot.rounds, 2);
    assert_eq!(robot.mode, Mode::SearchingContent);
    assert_eq!(robot.chart.entries_of(JOLLY_KIND), vec![((12, 10), SavedQuantity::Quantity(0))]);
}

#[test]
fn random_street_following_takes_the_only_street() {
    let mut robot = CapitalistRobot::new();
    robot.mode = Mode::FollowStreet;
    robot.direction = Direction::Left;
    let mut view = empty_view();
    view[0][1] = tile(true, Content::NoContent);
    view[1][2] = tile(true, Content::NoContent);
    robot.run_follow_street_mode(&view, (10, 10));
    assert_eq!(robot.direction, Direction::Up);
}

#[test]
fn scan_bank_coordinates_fit_the_world() {
    let coords = scan_bank_coordinates((50, 50), 100);
    assert_eq!(coords.len(), 18 * 18);
    assert_eq!(coords[0], (41, 41));
    assert_eq!(coords[coords.len() - 1], (58, 58));
    let near_border = scan_bank_coordinates((2, 50), 100);
    assert_eq!(near_border.len(), 4 * 4);
    assert_eq!(near_border[0], (0, 48));
    assert!(near_border.iter().all(|c| c.0 < 100 && c.1 < 100));
}

#[test]
fn scan_bank_saves_open_banks() {
    let mut robot = CapitalistRobot::new();
    robot.mode = Mode::ScanBank;
    let tiles = vec![
        ((3, 3), tile(false, bank(0, 4))),
        ((3, 4), tile(false, bank(4, 4))),
        ((3, 5), None),
        ((3, 6), tile(false, Content::Rock(1))),
    ];
    let action = robot.after_scan_bank(&DiscoveryOutcome::Discovered(tiles), (9, 9));
    assert_eq!(action, ScanBankAction::LeaveStreet);
    assert_eq!(robot.mode, Mode::SearchingContent);
    assert_eq!(robot.chart.entries_of(BANK_KIND), vec![((3, 3), range(0, 4))]);
    assert!(robot.chart.entries_of(JOLLY_KIND).is_empty());
}

#[test]
fn scan_bank_without_banks_marks_the_place() {
    let mut robot = CapitalistRobot::new();
    robot.mode = Mode::ScanBank;
    let tiles = vec![((3, 3), tile(false, Content::Building))];
    robot.after_scan_bank(&DiscoveryOutcome::Discovered(tiles), (9, 9));
    assert_eq!(robot.chart.entries_of(JOLLY_KIND), vec![((9, 9), SavedQuantity::Quantity(0))]);
    let mut tired = CapitalistRobot::new();
    tired.mode = Mode::ScanBank;
    assert_eq!(
        tired.after_scan_bank(&DiscoveryOutcome::NotEnoughEnergy, (9, 9)),
        ScanBankAction::Recharge
    );
    assert_eq!(tired.mode, Mode::ScanBank);
    assert_eq!(
        tired.after_scan_bank(&DiscoveryOutcome::NoMoreDiscovery, (9, 9)),
        ScanBankAction::LeaveStreet
    );
    assert!(tired.no_more_discovery);
    assert_eq!(tired.mode, Mode::SearchingContent);
    assert_eq!(
        tired.after_scan_bank(&DiscoveryOutcome::Failed, (9, 9)),
        ScanBankAction::Nothing
    );
}

#[test]
fn save_open_banks_reports_finding() {
    let mut robot = CapitalistRobot::new();
    assert!(!save_open_banks(&mut robot.chart, &vec![((1, 1), None)]));
    assert!(save_open_banks(&mut robot.chart, &vec![((1, 1), tile(false, bank(1, 2)))]));
}

#[test]
fn nearest_open_bank_is_selected() {
    let banks = vec![
        ((0, 0), range(0, 5)),
        ((9, 9), range(3, 3)),
        ((5, 6), range(1, 2)),
        ((6, 5), range(0, 9)),
        ((2, 2), SavedQuantity::Quantity(4)),
    ];
    let sel = select_bank((5, 5), &banks);
    assert_eq!(sel.closest, Some(((5, 6), SlotRange { start: 1, end: 2 })));
    assert_eq!(sel.full, vec![(9, 9)]);
    let none = select_bank((5, 5), &vec![((9, 9), range(3, 3))]);
    assert_eq!(none.closest, None);
    assert_eq!(none.full, vec![(9, 9)]);
}

#[test]
fn bank_trip_retires_full_banks() {
    let mut robot = CapitalistRobot::new();
    robot.chart.save(&bank(2, 2), (1, 1));
    robot.chart.save(&bank(0, 3), (20, 20));
    let target = robot.plan_bank_trip((18, 20));
    assert_eq!(target, Some(((20, 20), SlotRange { start: 0, end: 3 })));
    assert_eq!(robot.chart.entries_of(BANK_KIND), vec![((20, 20), range(0, 3))]);
    assert_eq!(robot.chart.entries_of(JOLLY_KIND), vec![((1, 1), SavedQuantity::Quantity(0))]);
    assert_eq!(robot.plan_bank_trip((20, 20)), None);
    let mut empty = CapitalistRobot::new();
    assert_eq!(empty.plan_bank_trip((0, 0)), None);
}

#[test]
fn path_steps_stop_next_to_the_bank() {
    assert_eq!(path_step((5, 5), &PathAction::Move(Direction::Up), (4, 5)), PathStep::Arrived(Direction::Up));
    assert_eq!(path_step((5, 5), &PathAction::Move(Direction::Left), (4, 5)), PathStep::Walk(Direction::Left));
    assert_eq!(path_step((5, 5), &PathAction::Teleport((1, 2)), (4, 5)), PathStep::Teleport((1, 2)));
}

#[test]
fn depositing_conserves_coins() {
    let mut dep = Deposit::new(10, SlotRange { start: 2, end: 8 });
    assert!(dep.is_active());
    assert!(!dep.step(PutOutcome::Deposited(6)));
    assert_eq!(dep.coins, 4);
    assert_eq!(dep.bank, SlotRange { start: 8, end: 8 });
    assert!(dep.step(PutOutcome::NotEnoughEnergy));
    assert!(dep.is_active());
    assert!(!dep.step(PutOutcome::Deposited(0)));
    assert!(dep.is_full);
    assert!(!dep.is_active());
    assert_eq!(dep.coins + dep.bank.start, 12);
    let mut empty = Deposit::new(0, SlotRange { start: 0, end: 3 });
    empty.step(PutOutcome::NoContent);
    assert!(empty.no_more_coins);
    let mut broken = Deposit::new(3, SlotRange { start: 0, end: 3 });
    broken.step(PutOutcome::Failed);
    assert!(broken.errors);
    assert!(!broken.is_active());
}

#[test]
fn deposits_update_the_chart() {
    let mut robot = CapitalistRobot::new();
    robot.chart.save(&bank(0, 5), (4, 4));
    robot.record_deposit((4, 4), SlotRange { start: 3, end: 5 });
    assert_eq!(robot.chart.entries_of(BANK_KIND), vec![((4, 4), range(3, 5))]);
    robot.record_deposit((4, 4), SlotRange { start: 5, end: 5 });
    assert!(robot.chart.entries_of(BANK_KIND).is_empty());
    assert_eq!(robot.chart.entries_of(JOLLY_KIND), vec![((4, 4), SavedQuantity::Quantity(0))]);
    robot.mode = Mode::SearchingBank;
    robot.finish_bank_trip(true);
    assert_eq!(robot.mode, Mode::SearchingContent);
    assert!(robot.explorer_pause);
}

#[test]
fn exploring_outcomes() {
    let map: Vec<Vec<Option<Tile>>> = vec![vec![None; 100]; 100];
    let mut robot = CapitalistRobot::new();
    robot.mode = Mode::SearchingBank;
    assert!(!robot.after_explore(ExploreOutcome::RadiusExplored, (50, 50), (50, 50), &map));
    assert_eq!(robot.mode, Mode::SearchingContent);
    assert!(robot.explorer_pause);
    let mut r2 = CapitalistRobot::new();
    assert!(r2.after_explore(ExploreOutcome::NotEnoughEnergy, (5, 5), (5, 5), &map));
    assert!(r2.after_explore(ExploreOutcome::MaxEnergyReached, (5, 5), (5, 5), &map));
    assert!(!r2.after_explore(ExploreOutcome::OtherLibError, (5, 5), (5, 5), &map));
    assert!(!r2.explorer_pause);
    r2.after_explore(ExploreOutcome::MapAllExplored, (5, 5), (5, 5), &map);
    assert!(r2.terminated);
    let mut r3 = CapitalistRobot::new();
    r3.mode = Mode::SearchingBank;
    r3.after_explore(ExploreOutcome::Failed, (5, 5), (5, 5), &map);
    assert_eq!(r3.mode, Mode::SearchingContent);
    assert!(r3.explorer_pause);
    r3.finish_exploring(50, 50);
    assert!(!r3.terminated);
    r3.finish_exploring(51, 50);
    assert!(r3.terminated);
}

#[test]
fn exploring_saves_banks_in_the_region() {
    let mut map: Vec<Vec<Option<Tile>>> = vec![vec![None; 100]; 100];
    map[40][45] = tile(false, bank(0, 7));
    map[40][46] = tile(false, bank(7, 7));
    map[90][45] = tile(false, bank(0, 7));
    let mut robot = CapitalistRobot::new();
    robot.after_explore(ExploreOutcome::RadiusExplored, (50, 50), (51, 50), &map);
    assert_eq!(robot.chart.entries_of(BANK_KIND), vec![((40, 45), range(0, 7))]);
}

#[test]
fn searching_content_helpers() {
    assert!(is_attractive(&Content::Coin(1)));
    assert!(is_attractive(&bank(0, 1)));
    assert!(!is_attractive(&Content::Tree(1)));
    let t = turn_perpendicular(&ORDER.to_vec(), Direction::Up);
    assert_eq!(t, Some(Direction::Right));
    let t2 = turn_perpendicular(&vec![Direction::Down, Direction::Up, Direction::Left], Direction::Up);
    assert_eq!(t2, Some(Direction::Left));
    let mut robot = CapitalistRobot::new();
    robot.explorer_pause = true;
    robot.begin_searching_content();
    assert_eq!(robot.expl_pause_tick_time, 1);
    let contents = vec![(Content::Rock(0), 10), (Content::Coin(0), 10)];
    assert!(!robot.wants_recycling(&contents, 20));
    robot.explorer_pause = false;
    assert!(robot.wants_recycling(&contents, 20));
    assert!(!robot.wants_recycling(&contents, 21));
}

#[test]
fn recycling_reactions() {
    let mut robot = CapitalistRobot::new();
    assert_eq!(robot.after_recycle(RecycleOutcome::Recycled, 13, 14), RecycleReaction::Continue);
    assert_eq!(robot.mode, Mode::SearchingContent);
    assert_eq!(robot.after_recycle(RecycleOutcome::NotEnoughEnergy, 20, 14), RecycleReaction::Recharge);
    assert_eq!(robot.mode, Mode::SearchingContent);
    assert_eq!(robot.after_recycle(RecycleOutcome::Failed, 14, 14), RecycleReaction::GoToBank);
    assert_eq!(robot.mode, Mode::SearchingBank);
}

#[test]
fn steering_towards_corners() {
    let mut robot = CapitalistRobot::new();
    robot.count_tick = 1;
    let mut view = empty_view();
    view[2][2] = tile(false, Content::Coin(3));
    robot.steer(&view, &ORDER.to_vec(), &vec![true, true, true, true]);
    assert_eq!(robot.direction, Direction::Down);
    robot.steer(&view, &ORDER.to_vec(), &vec![true, true, true, false]);
    assert_eq!(robot.direction, Direction::Right);
    robot.explorer_pause = true;
    robot.steer(&view, &ORDER.to_vec(), &vec![true, true, true, true]);
    assert_eq!(robot.direction, Direction::Up);
    view[0][0] = tile(true, Content::Rock(1));
    robot.explorer_pause = false;
    robot.avoid_street = true;
    robot.direction = Direction::Left;
    robot.steer(&view, &ORDER.to_vec(), &vec![true, true, true, true]);
    assert_eq!(robot.direction, Direction::Down);
}

#[test]
fn periodic_turn_is_sideways() {
    let mut robot = CapitalistRobot::new();
    robot.count_tick = 124;
    robot.direction = Direction::Up;
    robot.steer(&empty_view(), &ORDER.to_vec(), &vec![true; 4]);
    assert_eq!(robot.direction, Direction::Right);
    for _ in 0..20 {
        let mut r = CapitalistRobot::new();
        r.count_tick = 248;
        r.direction = Direction::Left;
        r.plan_search_move(&empty_view());
        assert!(r.direction == Direction::Up || r.direction == Direction::Down);
    }
    let mut busy = CapitalistRobot::new();
    busy.mode = Mode::FollowStreet;
    busy.count_tick = 124;
    busy.steer(&empty_view(), &ORDER.to_vec(), &vec![true; 4]);
    assert_eq!(busy.direction, Direction::Right);
}
