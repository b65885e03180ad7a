use capitalist_robot::chart::SavedQuantity;
use capitalist_robot::geometry::Direction;
use capitalist_robot::modes::scan_content::SCAN_CONTENT_RANGE;
use capitalist_robot::robot::{shares_event, CapitalistRobot, EventKind, Mode};
use capitalist_robot::world::{Content, SlotRange, Tile, BANK_KIND, JOLLY_KIND};

#[test]
fn new_robot_searches_rightwards() {
    let robot = CapitalistRobot::new();
    assert_eq!(robot.mode, Mode::SearchingContent);
    assert_eq!(robot.direction, Direction::Right);
    assert_eq!(robot.count_tick, 0);
    assert!(robot.first_tick);
    assert!(!robot.terminated);
    assert!(robot.chart.entries_of(BANK_KIND).is_empty());
}

#[test]
fn first_tick_refreshes_display_once() {
    let mut robot = CapitalistRobot::new();
    let a = robot.tick_init(1000, (50, 50));
    assert!(a.refresh_display);
    assert!(!a.recharge);
    assert!(!a.leave_street);
    assert!(!robot.first_tick);
    let b = robot.tick_init(299, (50, 50));
    assert!(!b.refresh_display);
    assert!(b.recharge);
    assert_eq!(robot.count_tick, 2);
}

#[test]
fn scan_every_fifty_ticks() {
    let mut robot = CapitalistRobot::new();
    for _ in 0..49 {
        robot.tick_init(1000, (50, 50));
        assert_eq!(robot.mode, Mode::SearchingContent);
    }
    robot.tick_init(1000, (50, 50));
    assert_eq!(robot.count_tick, 50);
    assert_eq!(robot.mode, Mode::ScanContent);
    robot.tick_init(1000, (50, 50));
    assert_eq!(robot.count_tick, 50);
}

#[test]
fn tick_counter_wraps_below_max() {
    let mut robot = CapitalistRobot::new();
    robot.count_tick = usize::MAX - 1;
    robot.tick_init(1000, (50, 50));
    assert_eq!(robot.count_tick, 0);
    assert_eq!(robot.mode, Mode::ScanContent);
}

#[test]
fn long_exploring_pause_ends_in_bank_search() {
    let mut robot = CapitalistRobot::new();
    robot.explorer_pause = true;
    robot.expl_pause_tick_time = 50;
    robot.tick_init(1000, (50, 50));
    assert!(robot.explorer_pause);
    assert_eq!(robot.count_tick, 0);
    robot.expl_pause_tick_time = 51;
    robot.tick_init(1000, (50, 50));
    assert!(!robot.explorer_pause);
    assert_eq!(robot.expl_pause_tick_time, 0);
    assert_eq!(robot.mode, Mode::SearchingBank);
}

#[test]
fn near_a_bank_the_robot_leaves_streets() {
    let mut robot = CapitalistRobot::new();
    robot.chart.save(&Content::Bank(SlotRange { start: 0, end: 4 }), (10, 10));
    robot.mode = Mode::FollowStreet;
    robot.rounds = 1;
    let a = robot.tick_init(1000, (12, 12));
    assert!(a.leave_street);
    assert!(robot.avoid_street);
    assert_eq!(robot.rounds, 0);
    assert_eq!(robot.mode, Mode::SearchingContent);
    let b = robot.tick_init(1000, (60, 60));
    assert!(!b.leave_street);
    assert!(!robot.avoid_street);
    robot.no_more_discovery = true;
    robot.tick_init(1000, (60, 60));
    assert!(robot.avoid_street);
}

#[test]
fn check_content_destroys_and_follows_streets() {
    let mut robot = CapitalistRobot::new();
    let rock = Tile { is_street: false, walkable: true, content: Content::Rock(1) };
    assert!(robot.check_content(&Direction::Up, &rock));
    assert_eq!(robot.mode, Mode::SearchingContent);
    let tree = Tile { is_street: true, walkable: true, content: Content::Tree(1) };
    assert!(!robot.check_content(&Direction::Down, &tree));
    assert_eq!(robot.mode, Mode::FollowStreet);
    assert_eq!(robot.direction, Direction::Down);
    let mut careful = CapitalistRobot::new();
    careful.avoid_street = true;
    let fish = Tile { is_street: true, walkable: true, content: Content::Fish(2) };
    assert!(careful.check_content(&Direction::Left, &fish));
    assert_eq!(careful.mode, Mode::SearchingContent);
    assert_eq!(careful.direction, Direction::Right);
    let coin = Tile { is_street: false, walkable: true, content: Content::Coin(2) };
    assert!(careful.check_content(&Direction::Left, &coin));
    let bank = Tile {
        is_street: false,
        walkable: true,
        content: Content::Bank(SlotRange { start: 0, end: 1 }),
    };
    assert!(!careful.check_content(&Direction::Left, &bank));
}

#[test]
fn save_tile_saves_the_neighbour_cell() {
    let mut robot = CapitalistRobot::new();
    robot.save_tile((5, 5), &Direction::Left, &Content::Bank(SlotRange { start: 1, end: 3 }));
    assert_eq!(
        robot.chart.entries_of(BANK_KIND),
        vec![((5, 4), SavedQuantity::ContentRange(SlotRange { start: 1, end: 3 }))]
    );
    assert!(robot.chart.entries_of(JOLLY_KIND).is_empty());
}

#[test]
fn scan_content_returns_to_searching() {
    let mut robot = CapitalistRobot::new();
    robot.mode = Mode::ScanContent;
    let req = robot.run_scan_content_mode();
    assert_eq!(robot.mode, Mode::SearchingContent);
    assert_eq!(req.range, SCAN_CONTENT_RANGE);
    assert_eq!(req.range, 5);
    assert_eq!(
        req.targets,
        vec![
            (Content::Rock(0), 0),
            (Content::Fish(0), 0),
            (Content::Garbage(0), 0),
            (Content::Coin(0), 0)
        ]
    );
}

#[test]
fn events_shared_with_display() {
    assert!(!shares_event(&EventKind::Ready));
    assert!(!shares_event(&EventKind::Terminated));
    assert!(shares_event(&EventKind::Moved));
    assert!(shares_event(&EventKind::EnergyConsumed));
    assert!(shares_event(&EventKind::AddedToBackpack));
}
