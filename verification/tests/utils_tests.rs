use capitalist_robot::geometry::{
    check_range, check_range_test_invalid_range, get_coords_row_col, manhattan_distance,
    opposite_direction, square, Direction,
};
use capitalist_robot::random::{random_coins, random_direction_order};
use capitalist_robot::world::{
    amount_of, coins_in, look_around, quantity, region_tiles, undiscovered_tiles, Content,
    SlotRange, Tile,
};

#[test]
fn opposite_direction_test() {
    assert_eq!(opposite_direction(&Direction::Right), Direction::Left);
    assert_eq!(opposite_direction(&Direction::Left), Direction::Right);
    assert_eq!(opposite_direction(&Direction::Up), Direction::Down);
    assert_eq!(opposite_direction(&Direction::Down), Direction::Up);
}

#[test]
fn quantity_test() {
    let mut content_list: Vec<(Content, usize)> = Vec::new();
    content_list.push((Content::Coin(0), 1));
    content_list.push((Content::Rock(0), 2));
    content_list.push((Content::Garbage(0), 3));
    assert_eq!(quantity(&content_list), 6);
}

#[test]
fn check_range_test_valid_range() {
    let mut range = 1;
    let old_range = range;
    let center = (3, 3);
    let world_size = 5;
    check_range(&mut range, center, world_size);
    assert_eq!(range, old_range);
}

#[test]
fn check_range_invalid_range_shrinks() {
    let mut range = 5;
    let center = (1, 3);
    let world_size: usize = 5;
    check_range(&mut range, center, world_size);
    assert_eq!(
        range,
        std::cmp::min(
            std::cmp::min(center.0, world_size - center.0),
            std::cmp::min(center.1, world_size - center.1)
        )
    );
    assert_eq!(range, 1);
    check_range_test_invalid_range();
}

#[test]
fn check_range_shrinks_near_far_border() {
    let mut range = 9;
    check_range(&mut range, (50, 95), 100);
    assert_eq!(range, 5);
    let mut range2 = 9;
    check_range(&mut range2, (50, 50), 100);
    assert_eq!(range2, 9);
    let mut range3 = 3;
    check_range(&mut range3, (0, 0), 10);
    assert_eq!(range3, 0);
}

#[test]
fn opposite_direction_twice_is_identity() {
    for d in [Direction::Up, Direction::Right, Direction::Down, Direction::Left] {
        assert_eq!(opposite_direction(&opposite_direction(&d)), d);
        assert_ne!(opposite_direction(&d), d);
    }
}

#[test]
fn coords_next_to_robot() {
    assert_eq!(get_coords_row_col(4, 7, &Direction::Up), (3, 7));
    assert_eq!(get_coords_row_col(4, 7, &Direction::Down), (5, 7));
    assert_eq!(get_coords_row_col(4, 7, &Direction::Left), (4, 6));
    assert_eq!(get_coords_row_col(4, 7, &Direction::Right), (4, 8));
    let p = get_coords_row_col(4, 7, &Direction::Up);
    let back = get_coords_row_col(p.0, p.1, &opposite_direction(&Direction::Up));
    assert_eq!(back, (4, 7));
}

#[test]
fn manhattan_distance_values() {
    assert_eq!(manhattan_distance((1, 2), (4, 6)), 7);
    assert_eq!(manhattan_distance((4, 6), (1, 2)), 7);
    assert_eq!(manhattan_distance((3, 3), (3, 3)), 0);
    assert_eq!(manhattan_distance((10, 0), (0, 10)), 20);
}

#[test]
fn square_lists_cells_row_by_row() {
    assert_eq!(square(1, 3, 5, 7), vec![(1, 5), (1, 6), (2, 5), (2, 6)]);
    assert!(square(3, 3, 0, 4).is_empty());
    assert!(square(4, 2, 0, 4).is_empty());
}

fn tile(is_street: bool, walkable: bool, content: Content) -> Option<Tile> {
    Some(Tile { is_street, walkable, content })
}

fn empty_view() -> Vec<Vec<Option<Tile>>> {
    vec![vec![None, None, None], vec![None, None, None], vec![None, None, None]]
}

#[test]
fn look_around_prefers_up_right_down_left() {
    let mut view = empty_view();
    assert_eq!(look_around(&view), None);
    view[1][0] = tile(false, true, Content::NoContent);
    assert_eq!(look_around(&view), Some(Direction::Left));
    view[2][1] = tile(false, true, Content::NoContent);
    assert_eq!(look_around(&view), Some(Direction::Down));
    view[1][2] = tile(true, true, Content::NoContent);
    assert_eq!(look_around(&view), Some(Direction::Down));
    view[0][1] = tile(false, false, Content::NoContent);
    assert_eq!(look_around(&view), Some(Direction::Down));
    view[0][1] = tile(false, true, Content::Rock(2));
    assert_eq!(look_around(&view), Some(Direction::Up));
}

#[test]
fn backpack_amounts() {
    let contents: Vec<(Content, usize)> = vec![(Content::Rock(0), 4), (Content::Coin(0), 9)];
    assert_eq!(coins_in(&contents), 9);
    assert_eq!(amount_of(&contents, &Content::Rock(0)), 4);
    assert_eq!(amount_of(&contents, &Content::Fish(0)), 0);
    let none: Vec<(Content, usize)> = Vec::new();
    assert_eq!(coins_in(&none), 0);
    assert_eq!(quantity(&none), 0);
}

#[test]
fn only_undiscovered_tiles_are_kept() {
    let mut map: Vec<Vec<Option<Tile>>> = vec![vec![None; 3]; 3];
    map[0][1] = tile(false, true, Content::NoContent);
    map[2][2] = tile(true, true, Content::Coin(1));
    let tiles = vec![(0, 0), (0, 1), (2, 2), (1, 1)];
    assert_eq!(undiscovered_tiles(&map, &tiles), vec![(0, 0), (1, 1)]);
    let region = region_tiles(&map, &vec![(2, 2), (0, 0)]);
    assert_eq!(region, vec![((2, 2), tile(true, true, Content::Coin(1))), ((0, 0), None)]);
}

#[test]
fn content_kinds() {
    assert_eq!(Content::Rock(1).index(), 0);
    assert_eq!(Content::Coin(1).index(), 4);
    assert_eq!(Content::Bank(SlotRange { start: 0, end: 3 }).index(), 7);
    assert_eq!(Content::Fish(1).index(), 10);
    assert_eq!(Content::JollyBlock(0).index(), 13);
    assert!(Content::Bank(SlotRange { start: 0, end: 3 }).is_open_bank());
    assert!(!Content::Bank(SlotRange { start: 3, end: 3 }).is_open_bank());
    assert!(Content::Building.is_city());
    assert!(Content::Market(2).is_city());
    assert!(!Content::Rock(2).is_city());
}

#[test]
fn random_order_is_a_permutation_and_varies() {
    let base = vec![Direction::Up, Direction::Right, Direction::Down, Direction::Left];
    let mut saw_other = false;
    for _ in 0..200 {
        let order = random_direction_order();
        assert_eq!(order.len(), 4);
        for d in base.iter() {
            assert!(order.contains(d));
        }
        if order != base {
            saw_other = true;
        }
    }
    assert!(saw_other);
    assert_eq!(random_coins(4).len(), 4);
    assert_eq!(random_coins(0).len(), 0);
}

#[test]
fn check_range_is_idempotent() {
    for (center, size) in [((1, 3), 5), ((50, 95), 100), ((0, 7), 7), ((4, 4), 8)] {
        let mut r = 9;
        check_range(&mut r, center, size);
        let once = r;
        check_range(&mut r, center, size);
        assert_eq!(r, once);
        assert!(r <= center.0 && center.0 + r <= size);
        assert!(r <= center.1 && center.1 + r <= size);
    }
}
