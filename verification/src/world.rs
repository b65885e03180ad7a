//! Plain-value models of what the robot reads from the world: tile contents,
//! tiles, the 3x3 view around the robot and the backpack.
use vstd::prelude::*;
use crate::geometry::{Coord, Direction};

verus! {

/// A half-open range of free slots `start..end`, as carried by banks, bins and crates.
#[derive(Clone, Copy, Debug, PartialEq, Eq, Structural)]
pub struct SlotRange {
    pub start: usize,
    pub end: usize,
}

/// What lies on a tile, with the amount or the slot range it carries.
#[derive(Clone, Copy, Debug, PartialEq, Eq, Structural)]
pub enum Content {
    Rock(usize),
    Tree(usize),
    Garbage(usize),
    Fire,
    Coin(usize),
    Bin(SlotRange),
    Crate(SlotRange),
    Bank(SlotRange),
    Water(usize),
    Market(usize),
    Fish(usize),
    Building,
    Bush(usize),
    JollyBlock(usize),
    Scarecrow,
    NoContent,
}

/// The kind number of a bank.
pub const BANK_KIND: usize = 7;

/// The kind number of a jolly block, which the robot uses to mark places it
/// should keep away from.
pub const JOLLY_KIND: usize = 13;

impl Content {
    /// The kind number of the content, in declaration order.
    pub open spec fn spec_index(self) -> usize {
        match self {
            Content::Rock(_) => 0,
            Content::Tree(_) => 1,
            Content::Garbage(_) => 2,
            Content::Fire => 3,
            Content::Coin(_) => 4,
            Content::Bin(_) => 5,
            Content::Crate(_) => 6,
            Content::Bank(_) => 7,
            Content::Water(_) => 8,
            Content::Market(_) => 9,
            Content::Fish(_) => 10,
            Content::Building => 11,
            Content::Bush(_) => 12,
            Content::JollyBlock(_) => 13,
            Content::Scarecrow => 14,
            Content::NoContent => 15,
        }
    }

    /// The kind number of the content.
    pub fn index(&self) -> (res: usize)
        ensures
            res == self.spec_index(),
    {
        match self {
            Content::Rock(_) => 0,
            Content::Tree(_) => 1,
            Content::Garbage(_) => 2,
            Content::Fire => 3,
            Content::Coin(_) => 4,
            Content::Bin(_) => 5,
            Content::Crate(_) => 6,
            Content::Bank(_) => 7,
            Content::Water(_) => 8,
            Content::Market(_) => 9,
            Content::Fish(_) => 10,
            Content::Building => 11,
            Content::Bush(_) => 12,
            Content::JollyBlock(_) => 13,
            Content::Scarecrow => 14,
            Content::NoContent => 15,
        }
    }

    /// A bank that still has free slots.
    pub open spec fn spec_is_open_bank(self) -> bool {
        match self {
            Content::Bank(r) => r.start != r.end,
            _ => false,
        }
    }

    /// Whether the content is a bank that still has free slots.
    pub fn is_open_bank(&self) -> (res: bool)
        ensures
            res == self.spec_is_open_bank(),
    {
        match self {
            Content::Bank(r) => r.start != r.end,
            _ => false,
        }
    }

    /// Buildings and markets are signs that the robot has reached a city.
    pub open spec fn spec_is_city(self) -> bool {
        self.spec_index() == 11 || self.spec_index() == 9
    }

    /// Whether the content is a building or a market.
    pub fn is_city(&self) -> (res: bool)
        ensures
            res == self.spec_is_city(),
    {
        let i = self.index();
        i == 11 || i == 9
    }
}

/// What the robot knows of a tile: whether it is a street, whether it can be
/// walked on, and what lies on it.
#[derive(Clone, Copy, Debug, PartialEq, Eq, Structural)]
pub struct Tile {
    pub is_street: bool,
    pub walkable: bool,
    pub content: Content,
}

/// The cell of the 3x3 view around the robot that lies towards `dir`
/// (the robot stands in the centre cell `(1, 1)`).
pub open spec fn spec_view_cell(dir: Direction) -> Coord {
    match dir {
        Direction::Up => (0, 1),
        Direction::Right => (1, 2),
        Direction::Down => (2, 1),
        Direction::Left => (1, 0),
    }
}

/// The cell of the 3x3 view around the robot that lies towards `dir`.
pub fn view_cell(dir: Direction) -> (res: Coord)
    ensures
        res == spec_view_cell(dir),
{
    match dir {
        Direction::Up => (0, 1),
        Direction::Right => (1, 2),
        Direction::Down => (2, 1),
        Direction::Left => (1, 0),
    }
}

/// A view of the world around the robot, indexed as `view[row][col]`.
pub type Grid = Vec<Vec<Option<Tile>>>;

/// The view has at least three rows of at least three cells.
pub open spec fn view_ok(view: Seq<Vec<Option<Tile>>>) -> bool {
    &&& view.len() >= 3
    &&& forall|i: int| 0 <= i < 3 ==> #[trigger] view[i]@.len() >= 3
}

/// The tile of the view at `(row, col)`.
pub open spec fn spec_cell(view: Seq<Vec<Option<Tile>>>, c: Coord) -> Option<Tile> {
    view[c.0 as int]@[c.1 as int]
}

/// The tile of the view towards `dir`.
pub open spec fn spec_dir_tile(view: Seq<Vec<Option<Tile>>>, dir: Direction) -> Option<Tile> {
    spec_cell(view, spec_view_cell(dir))
}

/// Reads the tile of the view at `c`.
pub fn get_cell(view: &Grid, c: Coord) -> (res: Option<Tile>)
    requires
        view_ok(view@),
        c.0 < 3,
        c.1 < 3,
    ensures
        res == spec_cell(view@, c),
{
    let row = &view[c.0];
    row[c.1]
}

/// A neighbouring tile that the robot can leave a street towards: known, not a
/// street, and walkable.
pub open spec fn leaves_street(t: Option<Tile>) -> bool {
    match t {
        Some(tile) => !tile.is_street && tile.walkable,
        None => false,
    }
}

/// The first direction, in the order up, right, down, left, whose tile is
/// known, walkable and not a street.
pub open spec fn spec_look_around(view: Seq<Vec<Option<Tile>>>) -> Option<Direction> {
    if leaves_street(spec_dir_tile(view, Direction::Up)) {
        Some(Direction::Up)
    } else if leaves_street(spec_dir_tile(view, Direction::Right)) {
        Some(Direction::Right)
    } else if leaves_street(spec_dir_tile(view, Direction::Down)) {
        Some(Direction::Down)
    } else if leaves_street(spec_dir_tile(view, Direction::Left)) {
        Some(Direction::Left)
    } else {
        None
    }
}

/// Returns the direction to a neighbouring tile that is walkable and not a
/// street, trying up, right, down and left in that order.
pub fn look_around(view: &Grid) -> (res: Option<Direction>)
    requires
        view_ok(view@),
    ensures
        res == spec_look_around(view@),
{
    let dirs: [Direction; 4] = [Direction::Up, Direction::Right, Direction::Down, Direction::Left];
    let mut i: usize = 0;
    while i < 4
        invariant
            view_ok(view@),
            i <= 4,
            dirs@ == seq![Direction::Up, Direction::Right, Direction::Down, Direction::Left],
            forall|j: int| 0 <= j < i ==> !leaves_street(#[trigger] spec_dir_tile(view@, dirs@[j])),
        decreases 4 - i,
    {
        let d = dirs[i];
        let t = get_cell(view, view_cell(d));
        match t {
            Some(tile) => {
                if !tile.is_street && tile.walkable {
                    return Some(d);
                }
            },
            None => {},
        }
        i = i + 1;
    }
    assert(!leaves_street(spec_dir_tile(view@, dirs@[0])));
    assert(!leaves_street(spec_dir_tile(view@, dirs@[1])));
    assert(!leaves_street(spec_dir_tile(view@, dirs@[2])));
    assert(!leaves_street(spec_dir_tile(view@, dirs@[3])));
    None
}


/// The total number of items over the backpack's entries.
pub open spec fn spec_quantity(contents: Seq<(Content, usize)>) -> nat
    decreases contents.len(),
{
    if contents.len() == 0 {
        0
    } else {
        spec_quantity(contents.drop_last()) + contents.last().1 as nat
    }
}

/// Sums over longer prefixes are never smaller.
pub proof fn lemma_quantity_prefix_monotone(contents: Seq<(Content, usize)>, i: int)
    requires
        0 <= i <= contents.len(),
    ensures
        spec_quantity(contents.take(i)) <= spec_quantity(contents),
    decreases contents.len() - i,
{
    if i < contents.len() {
        lemma_quantity_prefix_monotone(contents, i + 1);
        assert(contents.take(i + 1).drop_last() =~= contents.take(i));
    } else {
        assert(contents.take(i) =~= contents);
    }
}

/// The number of items in the backpack: the sum of the amounts of all its entries.
pub fn quantity(contents: &Vec<(Content, usize)>) -> (res: usize)
    requires
        spec_quantity(contents@) <= usize::MAX,
    ensures
        res == spec_quantity(contents@),
{
    let mut res: usize = 0;
    let mut i: usize = 0;
    while i < contents.len()
        invariant
            i <= contents.len(),
            res == spec_quantity(contents@.take(i as int)),
            spec_quantity(contents@) <= usize::MAX,
        decreases contents.len() - i,
    {
        proof {
            lemma_quantity_prefix_monotone(contents@, i + 1);
            assert(contents@.take(i + 1).drop_last() =~= contents@.take(i as int));
        }
        res = res + contents[i].1;
        i = i + 1;
    }
    assert(contents@.take(i as int) =~= contents@);
    res
}

/// No content appears twice among the backpack's entries.
pub open spec fn keys_unique(contents: Seq<(Content, usize)>) -> bool {
    forall|i: int, j: int|
        0 <= i < contents.len() && 0 <= j < contents.len() && i != j ==> #[trigger] contents[i].0
            != #[trigger] contents[j].0
}

/// The amount stored under `key` in the backpack, 0 if there is no such entry.
pub open spec fn spec_amount_of(contents: Seq<(Content, usize)>, key: Content) -> usize {
    if exists|i: int| 0 <= i < contents.len() && contents[i].0 == key {
        contents[choose|i: int| 0 <= i < contents.len() && contents[i].0 == key].1
    } else {
        0
    }
}

/// The amount the backpack holds under `key`, or 0 when it has no such entry.
pub fn amount_of(contents: &Vec<(Content, usize)>, key: &Content) -> (res: usize)
    requires
        keys_unique(contents@),
    ensures
        res == spec_amount_of(contents@, *key),
{
    let mut i: usize = 0;
    while i < contents.len()
        invariant
            i <= contents.len(),
            keys_unique(contents@),
            forall|j: int| 0 <= j < i ==> contents@[j].0 != *key,
        decreases contents.len() - i,
    {
        if contents[i].0 == *key {
            assert(contents@[i as int].0 == *key);
            let ghost k = choose|j: int| 0 <= j < contents@.len() && contents@[j].0 == *key;
            assert(k == i);
            return contents[i].1;
        }
        i = i + 1;
    }
    0
}

/// The number of coins in the backpack.
pub fn coins_in(contents: &Vec<(Content, usize)>) -> (res: usize)
    requires
        keys_unique(contents@),
    ensures
        res == spec_amount_of(contents@, Content::Coin(0)),
{
    amount_of(contents, &Content::Coin(0))
}

/// The world map as far as the robot has discovered it, indexed as `map[row][col]`.
pub open spec fn in_map(map: Seq<Vec<Option<Tile>>>, c: Coord) -> bool {
    c.0 < map.len() && c.1 < map[c.0 as int]@.len()
}

/// Whether the tile at `c` has not been discovered yet.
pub open spec fn undiscovered(map: Seq<Vec<Option<Tile>>>, c: Coord) -> bool {
    map[c.0 as int]@[c.1 as int] is None
}

/// The coordinates of `tiles` that the map does not know yet, in order.
pub open spec fn spec_undiscovered_tiles(map: Seq<Vec<Option<Tile>>>, tiles: Seq<Coord>) -> Seq<Coord>
    decreases tiles.len(),
{
    if tiles.len() == 0 {
        seq![]
    } else if undiscovered(map, tiles.last()) {
        spec_undiscovered_tiles(map, tiles.drop_last()).push(tiles.last())
    } else {
        spec_undiscovered_tiles(map, tiles.drop_last())
    }
}

/// Keeps only the coordinates whose tiles are still undiscovered, so that the
/// robot spends no energy discovering tiles again.
pub fn undiscovered_tiles(map: &Grid, tiles: &Vec<Coord>) -> (res: Vec<Coord>)
    requires
        forall|i: int| 0 <= i < tiles.len() ==> in_map(map@, #[trigger] tiles@[i]),
    ensures
        res@ == spec_undiscovered_tiles(map@, tiles@),
{
    let mut res: Vec<Coord> = Vec::new();
    let mut i: usize = 0;
    while i < tiles.len()
        invariant
            i <= tiles.len(),
            forall|k: int| 0 <= k < tiles.len() ==> in_map(map@, #[trigger] tiles@[k]),
            res@ == spec_undiscovered_tiles(map@, tiles@.take(i as int)),
        decreases tiles.len() - i,
    {
        let (x, y) = tiles[i];
        assert(in_map(map@, tiles@[i as int]));
        assert(tiles@.take(i + 1).drop_last() =~= tiles@.take(i as int));
        assert(tiles@.take(i + 1).last() == tiles@[i as int]);
        let row = &map[x];
        if row[y].is_none() {
            res.push((x, y));
        }
        i = i + 1;
    }
    assert(tiles@.take(i as int) =~= tiles@);
    res
}


/// The cells `coords` with their tiles on the map.
pub open spec fn spec_region_tiles(map: Seq<Vec<Option<Tile>>>, coords: Seq<Coord>) -> Seq<(Coord, Option<Tile>)> {
    coords.map_values(|c: Coord| (c, map[c.0 as int]@[c.1 as int]))
}

/// Pairs each of `coords` with its tile on the map.
pub fn region_tiles(map: &Grid, coords: &Vec<Coord>) -> (res: Vec<(Coord, Option<Tile>)>)
    requires
        forall|i: int| 0 <= i < coords.len() ==> in_map(map@, #[trigger] coords@[i]),
    ensures
        res@ == spec_region_tiles(map@, coords@),
{
    let mut res: Vec<(Coord, Option<Tile>)> = Vec::new();
    let mut i: usize = 0;
    while i < coords.len()
        invariant
            i <= coords.len(),
            forall|k: int| 0 <= k < coords.len() ==> in_map(map@, #[trigger] coords@[k]),
            res@ == spec_region_tiles(map@, coords@.take(i as int)),
        decreases coords.len() - i,
    {
        let (x, y) = coords[i];
        assert(in_map(map@, coords@[i as int]));
        let row = &map[x];
        res.push(((x, y), row[y]));
        assert(spec_region_tiles(map@, coords@.take(i + 1)) =~= spec_region_tiles(
            map@,
            coords@.take(i as int),
        ).push(((x, y), row@[y as int])));
        i = i + 1;
    }
    assert(coords@.take(i as int) =~= coords@);
    res
}

} // verus!
