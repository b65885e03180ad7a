//! The robot's chart: the places where it saw contents worth remembering,
//! such as banks, and the places it marks to keep away from.
use vstd::prelude::*;
use crate::geometry::{Coord, spec_manhattan, manhattan_distance};
use crate::world::{BANK_KIND, JOLLY_KIND};
use crate::world::{Content, SlotRange};

verus! {

/// What the chart remembers about a saved content: an amount, or the slot
/// range of a bank, bin or crate.
#[derive(Clone, Copy, Debug, PartialEq, Eq, Structural)]
pub enum SavedQuantity {
    Quantity(usize),
    ContentRange(SlotRange),
}

/// What the chart records about a content.
pub open spec fn spec_saved_quantity(c: Content) -> SavedQuantity {
    match c {
        Content::Rock(n) => SavedQuantity::Quantity(n),
        Content::Tree(n) => SavedQuantity::Quantity(n),
        Content::Garbage(n) => SavedQuantity::Quantity(n),
        Content::Coin(n) => SavedQuantity::Quantity(n),
        Content::Water(n) => SavedQuantity::Quantity(n),
        Content::Market(n) => SavedQuantity::Quantity(n),
        Content::Fish(n) => SavedQuantity::Quantity(n),
        Content::Bush(n) => SavedQuantity::Quantity(n),
        Content::JollyBlock(n) => SavedQuantity::Quantity(n),
        Content::Bin(r) => SavedQuantity::ContentRange(r),
        Content::Crate(r) => SavedQuantity::ContentRange(r),
        Content::Bank(r) => SavedQuantity::ContentRange(r),
        _ => SavedQuantity::Quantity(0),
    }
}

/// What the chart records about a content: its slot range for banks, bins and
/// crates, its amount otherwise (0 for contents without one).
pub fn saved_quantity(c: &Content) -> (res: SavedQuantity)
    ensures
        res == spec_saved_quantity(*c),
{
    match c {
        Content::Rock(n) => SavedQuantity::Quantity(*n),
        Content::Tree(n) => SavedQuantity::Quantity(*n),
        Content::Garbage(n) => SavedQuantity::Quantity(*n),
        Content::Coin(n) => SavedQuantity::Quantity(*n),
        Content::Water(n) => SavedQuantity::Quantity(*n),
        Content::Market(n) => SavedQuantity::Quantity(*n),
        Content::Fish(n) => SavedQuantity::Quantity(*n),
        Content::Bush(n) => SavedQuantity::Quantity(*n),
        Content::JollyBlock(n) => SavedQuantity::Quantity(*n),
        Content::Bin(r) => SavedQuantity::ContentRange(*r),
        Content::Crate(r) => SavedQuantity::ContentRange(*r),
        Content::Bank(r) => SavedQuantity::ContentRange(*r),
        _ => SavedQuantity::Quantity(0),
    }
}

/// One remembered place: the kind of content, where it is and what was seen there.
#[derive(Clone, Copy, Debug, PartialEq, Eq)]
pub struct ChartEntry {
    pub kind: usize,
    pub coord: Coord,
    pub quantity: SavedQuantity,
}

/// The entries of a chart, in the order in which their places were first saved.
pub struct Chart {
    entries: Vec<ChartEntry>,
}

impl View for Chart {
    type V = Seq<ChartEntry>;

    closed spec fn view(&self) -> Seq<ChartEntry> {
        self.entries@
    }
}

/// Whether `e` records content of kind `kind` at `coord`.
pub open spec fn at(e: ChartEntry, kind: usize, coord: Coord) -> bool {
    e.kind == kind && e.coord == coord
}

/// A chart holds at most one entry per kind and place.
pub open spec fn chart_wf(s: Seq<ChartEntry>) -> bool {
    forall|i: int, j: int|
        0 <= i < s.len() && 0 <= j < s.len() && i != j ==> !at(
            #[trigger] s[i],
            (#[trigger] s[j]).kind,
            s[j].coord,
        )
}

/// The chart has an entry of kind `kind` at `coord`.
pub open spec fn has_entry(s: Seq<ChartEntry>, kind: usize, coord: Coord) -> bool {
    exists|i: int| 0 <= i < s.len() && at(#[trigger] s[i], kind, coord)
}

/// The position of the entry of kind `kind` at `coord`.
pub open spec fn entry_index(s: Seq<ChartEntry>, kind: usize, coord: Coord) -> int {
    choose|i: int| 0 <= i < s.len() && at(#[trigger] s[i], kind, coord)
}

/// The entry that saving content `c` at `coord` records.
pub open spec fn entry_for(c: Content, coord: Coord) -> ChartEntry {
    ChartEntry { kind: c.spec_index(), coord, quantity: spec_saved_quantity(c) }
}

/// Saving a content at a place: an entry of the same kind at that place is
/// overwritten where it stands, otherwise the new entry goes last.
pub open spec fn spec_save(s: Seq<ChartEntry>, c: Content, coord: Coord) -> Seq<ChartEntry> {
    let e = entry_for(c, coord);
    if has_entry(s, e.kind, coord) {
        s.update(entry_index(s, e.kind, coord), e)
    } else {
        s.push(e)
    }
}

/// Removing the entry of a kind at a place, if there is one.
pub open spec fn spec_remove(s: Seq<ChartEntry>, kind: usize, coord: Coord) -> Seq<ChartEntry> {
    if has_entry(s, kind, coord) {
        s.remove(entry_index(s, kind, coord))
    } else {
        s
    }
}

/// The places and records of all entries of one kind, in chart order.
pub open spec fn spec_entries_of(s: Seq<ChartEntry>, kind: usize) -> Seq<(Coord, SavedQuantity)>
    decreases s.len(),
{
    if s.len() == 0 {
        seq![]
    } else if s.last().kind == kind {
        spec_entries_of(s.drop_last(), kind).push((s.last().coord, s.last().quantity))
    } else {
        spec_entries_of(s.drop_last(), kind)
    }
}

impl Chart {
    /// The chart's well-formedness: one entry per kind and place.
    pub open spec fn wf(&self) -> bool {
        chart_wf(self@)
    }

    /// An empty chart.
    pub fn new() -> (res: Chart)
        ensures
            res@ == Seq::<ChartEntry>::empty(),
            res.wf(),
    {
        Chart { entries: Vec::new() }
    }

    /// The position of the entry of kind `kind` at `coord`, if any.
    fn find(&self, kind: usize, coord: Coord) -> (res: Option<usize>)
        requires
            self.wf(),
        ensures
            res is None <==> !has_entry(self@, kind, coord),
            res matches Some(i) ==> i == entry_index(self@, kind, coord) && i < self@.len(),
    {
        let mut i: usize = 0;
        while i < self.entries.len()
            invariant
                i <= self.entries@.len(),
                chart_wf(self@),
                forall|j: int| 0 <= j < i ==> !at(#[trigger] self.entries@[j], kind, coord),
            decreases self.entries.len() - i,
        {
            let e = self.entries[i];
            if e.kind == kind && e.coord.0 == coord.0 && e.coord.1 == coord.1 {
                assert(at(self@[i as int], kind, coord));
                let ghost k = entry_index(self@, kind, coord);
                assert(at(self@[k], kind, coord));
                assert(k == i);
                return Some(i);
            }
            i = i + 1;
        }
        None
    }

    /// Saves content `content` at `coord`: overwrites the entry of the same kind
    /// at that place, or adds one at the end.
    pub fn save(&mut self, content: &Content, coord: Coord)
        requires
            old(self).wf(),
        ensures
            final(self).wf(),
            final(self)@ == spec_save(old(self)@, *content, coord),
    {
        let e = ChartEntry { kind: content.index(), coord, quantity: saved_quantity(content) };
        proof {
            lemma_save_wf(self@, *content, coord);
        }
        match self.find(e.kind, coord) {
            Some(i) => {
                self.entries.set(i, e);
            },
            None => {
                self.entries.push(e);
            },
        }
    }

    /// Removes the entry of kind `kind` at `coord`; tells whether there was one.
    pub fn remove(&mut self, kind: usize, coord: Coord) -> (found: bool)
        requires
            old(self).wf(),
        ensures
            final(self).wf(),
            found == has_entry(old(self)@, kind, coord),
            final(self)@ == spec_remove(old(self)@, kind, coord),
    {
        proof {
            lemma_remove_wf(self@, kind, coord);
        }
        match self.find(kind, coord) {
            Some(i) => {
                self.entries.remove(i);
                true
            },
            None => false,
        }
    }

    /// The places and records of all entries of kind `kind`, in chart order.
    pub fn entries_of(&self, kind: usize) -> (res: Vec<(Coord, SavedQuantity)>)
        ensures
            res@ == spec_entries_of(self@, kind),
    {
        let mut res: Vec<(Coord, SavedQuantity)> = Vec::new();
        let mut i: usize = 0;
        while i < self.entries.len()
            invariant
                i <= self.entries@.len(),
                res@ == spec_entries_of(self@.take(i as int), kind),
            decreases self.entries.len() - i,
        {
            let e = self.entries[i];
            assert(self@.take(i + 1).drop_last() =~= self@.take(i as int));
            assert(self@.take(i + 1).last() == e);
            if e.kind == kind {
                res.push((e.coord, e.quantity));
            }
            i = i + 1;
        }
        assert(self@.take(i as int) =~= self@);
        res
    }
}


/// An entry of kind `kind` at `coord` with record `q`.
pub open spec fn records(e: ChartEntry, kind: usize, coord: Coord, q: SavedQuantity) -> bool {
    e.kind == kind && e.coord == coord && e.quantity == q
}

/// The listing of a kind holds exactly the places and records of the entries of that kind.
pub proof fn lemma_entries_member(s: Seq<ChartEntry>, kind: usize, coord: Coord, q: SavedQuantity)
    ensures
        spec_entries_of(s, kind).contains((coord, q)) <==> exists|i: int|
            0 <= i < s.len() && records(#[trigger] s[i], kind, coord, q),
    decreases s.len(),
{
    if s.len() > 0 {
        let t = s.drop_last();
        lemma_entries_member(t, kind, coord, q);
        let r = spec_entries_of(t, kind);
        if spec_entries_of(s, kind).contains((coord, q)) {
            if s.last().kind == kind {
                let k = choose|k: int|
                    0 <= k < r.push((s.last().coord, s.last().quantity)).len() && r.push(
                        (s.last().coord, s.last().quantity),
                    )[k] == (coord, q);
                if k == r.len() {
                    assert(records(s[s.len() - 1], kind, coord, q));
                } else {
                    assert(r[k] == (coord, q));
                    let i = choose|i: int| 0 <= i < t.len() && records(#[trigger] t[i], kind, coord, q);
                    assert(records(s[i], kind, coord, q));
                }
            } else {
                let i = choose|i: int| 0 <= i < t.len() && records(#[trigger] t[i], kind, coord, q);
                assert(records(s[i], kind, coord, q));
            }
        }
        if exists|i: int| 0 <= i < s.len() && records(#[trigger] s[i], kind, coord, q) {
            let i = choose|i: int| 0 <= i < s.len() && records(#[trigger] s[i], kind, coord, q);
            if i == s.len() - 1 {
                let r2 = r.push((s.last().coord, s.last().quantity));
                assert(r2[r.len() as int] == (coord, q));
            } else {
                assert(records(t[i], kind, coord, q));
                let k = choose|k: int| 0 <= k < r.len() && r[k] == (coord, q);
                if s.last().kind == kind {
                    let r2 = r.push((s.last().coord, s.last().quantity));
                    assert(r2[k] == (coord, q));
                }
            }
        }
    }
}

/// Overwriting an entry of another kind with an entry of another kind leaves a
/// kind's listing unchanged.
pub proof fn lemma_entries_update_other(s: Seq<ChartEntry>, i: int, e: ChartEntry, kind: usize)
    requires
        0 <= i < s.len(),
        s[i].kind != kind,
        e.kind != kind,
    ensures
        spec_entries_of(s.update(i, e), kind) == spec_entries_of(s, kind),
    decreases s.len(),
{
    let u = s.update(i, e);
    if i == s.len() - 1 {
        assert(u.drop_last() =~= s.drop_last());
    } else {
        assert(u.drop_last() =~= s.drop_last().update(i, e));
        lemma_entries_update_other(s.drop_last(), i, e, kind);
    }
}

/// Removing an entry of another kind leaves a kind's listing unchanged.
pub proof fn lemma_entries_remove_other(s: Seq<ChartEntry>, i: int, kind: usize)
    requires
        0 <= i < s.len(),
        s[i].kind != kind,
    ensures
        spec_entries_of(s.remove(i), kind) == spec_entries_of(s, kind),
    decreases s.len(),
{
    let u = s.remove(i);
    if i == s.len() - 1 {
        assert(u =~= s.drop_last());
    } else {
        assert(u.drop_last() =~= s.drop_last().remove(i));
        assert(u.last() == s.last());
        lemma_entries_remove_other(s.drop_last(), i, kind);
    }
}

/// What a save writes is what a read gives back: after saving `c` at `coord`,
/// the listing of its kind shows `coord` with the record of `c`, and with no
/// other record.
pub proof fn lemma_save_then_read(s: Seq<ChartEntry>, c: Content, coord: Coord, q: SavedQuantity)
    requires
        chart_wf(s),
    ensures
        spec_entries_of(spec_save(s, c, coord), c.spec_index()).contains(
            (coord, spec_saved_quantity(c)),
        ),
        spec_entries_of(spec_save(s, c, coord), c.spec_index()).contains((coord, q)) ==> q
            == spec_saved_quantity(c),
{
    let e = entry_for(c, coord);
    let k = e.kind;
    let t = spec_save(s, c, coord);
    lemma_entries_member(t, k, coord, spec_saved_quantity(c));
    lemma_entries_member(t, k, coord, q);
    if has_entry(s, k, coord) {
        let idx = entry_index(s, k, coord);
        assert(records(t[idx], k, coord, spec_saved_quantity(c)));
        if spec_entries_of(t, k).contains((coord, q)) {
            let j = choose|j: int| 0 <= j < t.len() && records(#[trigger] t[j], k, coord, q);
            if j != idx {
                assert(t[j] == s[j]);
                assert(at(s[idx], s[j].kind, s[j].coord));
            }
        }
    } else {
        assert(records(t[s.len() as int], k, coord, spec_saved_quantity(c)));
        if spec_entries_of(t, k).contains((coord, q)) {
            let j = choose|j: int| 0 <= j < t.len() && records(#[trigger] t[j], k, coord, q);
            if j < s.len() {
                assert(t[j] == s[j]);
                assert(at(s[j], k, coord));
            }
        }
    }
}

/// Saving content of one kind leaves the listing of every other kind unchanged.
pub proof fn lemma_save_keeps_other_kinds(s: Seq<ChartEntry>, c: Content, coord: Coord, kind: usize)
    requires
        kind != c.spec_index(),
    ensures
        spec_entries_of(spec_save(s, c, coord), kind) == spec_entries_of(s, kind),
{
    let e = entry_for(c, coord);
    if has_entry(s, e.kind, coord) {
        let idx = entry_index(s, e.kind, coord);
        lemma_entries_update_other(s, idx, e, kind);
    } else {
        assert(s.push(e).drop_last() =~= s);
    }
}

/// After removing the entry of a kind at a place, the listing of that kind no
/// longer shows the place.
pub proof fn lemma_remove_then_read(s: Seq<ChartEntry>, kind: usize, coord: Coord, q: SavedQuantity)
    requires
        chart_wf(s),
    ensures
        !spec_entries_of(spec_remove(s, kind, coord), kind).contains((coord, q)),
{
    let t = spec_remove(s, kind, coord);
    lemma_entries_member(t, kind, coord, q);
    if spec_entries_of(t, kind).contains((coord, q)) {
        let j = choose|j: int| 0 <= j < t.len() && records(#[trigger] t[j], kind, coord, q);
        if has_entry(s, kind, coord) {
            let idx = entry_index(s, kind, coord);
            let j0 = if j < idx { j } else { j + 1 };
            assert(t[j] == s[j0]);
            assert(at(s[idx], s[j0].kind, s[j0].coord));
        } else {
            assert(at(s[j], kind, coord));
        }
    }
}

/// Removing an entry of one kind leaves the listing of every other kind unchanged.
pub proof fn lemma_remove_keeps_other_kinds(s: Seq<ChartEntry>, kind: usize, coord: Coord, other: usize)
    requires
        other != kind,
    ensures
        spec_entries_of(spec_remove(s, kind, coord), other) == spec_entries_of(s, other),
{
    if has_entry(s, kind, coord) {
        let idx = entry_index(s, kind, coord);
        lemma_entries_remove_other(s, idx, other);
    }
}


/// How far, in grid steps, the robot wants to stay from saved banks and marked
/// places before it looks for streets again.
pub const KEEP_AWAY_DISTANCE: usize = 30;

/// Every entry before position `i` lies at least the keep-away distance from `rob`.
pub open spec fn far_before(list: Seq<(Coord, SavedQuantity)>, rob: Coord, i: int) -> bool {
    forall|j: int| 0 <= j < i ==> spec_manhattan(#[trigger] list[j].0, rob) >= KEEP_AWAY_DISTANCE
}

/// Every listed place lies at least the keep-away distance from `rob`.
pub open spec fn all_far(list: Seq<(Coord, SavedQuantity)>, rob: Coord) -> bool {
    far_before(list, rob, list.len() as int)
}

/// The distances that `check_distance` computes fit in a `usize`: it computes
/// them in order and stops at the first place that is too close.
pub open spec fn distances_defined(list: Seq<(Coord, SavedQuantity)>, rob: Coord) -> bool {
    forall|i: int|
        0 <= i < list.len() && #[trigger] far_before(list, rob, i) ==> spec_manhattan(list[i].0, rob)
            <= usize::MAX
}

/// Whether every listed place lies at least the keep-away distance from the robot.
pub fn check_distance(list: &Vec<(Coord, SavedQuantity)>, rob_coord: Coord) -> (res: bool)
    requires
        distances_defined(list@, rob_coord),
    ensures
        res == all_far(list@, rob_coord),
{
    let mut i: usize = 0;
    while i < list.len()
        invariant
            i <= list.len(),
            distances_defined(list@, rob_coord),
            far_before(list@, rob_coord, i as int),
        decreases list.len() - i,
    {
        let (c, _) = list[i];
        assert(far_before(list@, rob_coord, i as int));
        if manhattan_distance(c, rob_coord) < KEEP_AWAY_DISTANCE {
            assert(!all_far(list@, rob_coord)) by {
                assert(spec_manhattan(list@[i as int].0, rob_coord) < KEEP_AWAY_DISTANCE);
            }
            return false;
        }
        i = i + 1;
        assert forall|j: int| 0 <= j < i implies spec_manhattan(
            #[trigger] list@[j].0,
            rob_coord,
        ) >= KEEP_AWAY_DISTANCE by {
            if j < i - 1 {
                assert(far_before(list@, rob_coord, i - 1));
            }
        }
    }
    true
}

/// The robot is far enough from every saved bank and every marked place.
pub open spec fn spec_enough_distant(s: Seq<ChartEntry>, rob: Coord) -> bool {
    all_far(spec_entries_of(s, BANK_KIND), rob) && all_far(spec_entries_of(s, JOLLY_KIND), rob)
}

/// The distances that `enough_distant` computes fit in a `usize`.
pub open spec fn enough_distant_defined(s: Seq<ChartEntry>, rob: Coord) -> bool {
    &&& distances_defined(spec_entries_of(s, BANK_KIND), rob)
    &&& all_far(spec_entries_of(s, BANK_KIND), rob) ==> distances_defined(
        spec_entries_of(s, JOLLY_KIND),
        rob,
    )
}

/// Whether the robot is far enough from all the banks and marked places that it
/// has saved.
pub fn enough_distant(rob_coord: Coord, map: &Chart) -> (res: bool)
    requires
        enough_distant_defined(map@, rob_coord),
    ensures
        res == spec_enough_distant(map@, rob_coord),
{
    let banks = map.entries_of(BANK_KIND);
    let closed_streets = map.entries_of(JOLLY_KIND);
    check_distance(&banks, rob_coord) && check_distance(&closed_streets, rob_coord)
}


/// Saving keeps a chart well formed.
pub proof fn lemma_save_wf(s: Seq<ChartEntry>, c: Content, coord: Coord)
    requires
        chart_wf(s),
    ensures
        chart_wf(spec_save(s, c, coord)),
{
    let e = entry_for(c, coord);
    let t = spec_save(s, c, coord);
    if has_entry(s, e.kind, coord) {
        let i = entry_index(s, e.kind, coord);
        assert forall|a: int, b: int|
            0 <= a < t.len() && 0 <= b < t.len() && a != b implies !at(
            #[trigger] t[a],
            (#[trigger] t[b]).kind,
            t[b].coord,
        ) by {
            if a == i {
                assert(at(s[a], e.kind, coord));
            } else if b == i {
                assert(at(s[b], e.kind, coord));
            }
        }
    } else {
        assert forall|a: int, b: int|
            0 <= a < t.len() && 0 <= b < t.len() && a != b implies !at(
            #[trigger] t[a],
            (#[trigger] t[b]).kind,
            t[b].coord,
        ) by {
            if a == s.len() {
                assert(!at(s[b], e.kind, coord));
            } else if b == s.len() {
                assert(!at(s[a], e.kind, coord));
            }
        }
    }
}

/// Removing keeps a chart well formed.
pub proof fn lemma_remove_wf(s: Seq<ChartEntry>, kind: usize, coord: Coord)
    requires
        chart_wf(s),
    ensures
        chart_wf(spec_remove(s, kind, coord)),
{
    if has_entry(s, kind, coord) {
        let i = entry_index(s, kind, coord);
        let t = s.remove(i);
        assert forall|a: int, b: int|
            0 <= a < t.len() && 0 <= b < t.len() && a != b implies !at(
            #[trigger] t[a],
            (#[trigger] t[b]).kind,
            t[b].coord,
        ) by {
            let a0 = if a < i { a } else { a + 1 };
            let b0 = if b < i { b } else { b + 1 };
            assert(t[a] == s[a0]);
            assert(t[b] == s[b0]);
        }
    }
}

/// Removing an entry only takes places away from a listing.
pub proof fn lemma_remove_listing_subset(s: Seq<ChartEntry>, kind: usize, coord: Coord, k: usize, c: Coord, q: SavedQuantity)
    ensures
        spec_entries_of(spec_remove(s, kind, coord), k).contains((c, q)) ==> spec_entries_of(s, k).contains(
            (c, q),
        ),
{
    let t = spec_remove(s, kind, coord);
    lemma_entries_member(t, k, c, q);
    lemma_entries_member(s, k, c, q);
    if spec_entries_of(t, k).contains((c, q)) && has_entry(s, kind, coord) {
        let i = entry_index(s, kind, coord);
        let j = choose|j: int| 0 <= j < t.len() && records(#[trigger] t[j], k, c, q);
        let j0 = if j < i { j } else { j + 1 };
        assert(t[j] == s[j0]);
        assert(records(s[j0], k, c, q));
    }
}


/// Saving at another place keeps every listed place of every kind: a save only
/// writes its own place.
pub proof fn lemma_save_keeps_other_places(
    s: Seq<ChartEntry>,
    c: Content,
    coord: Coord,
    kind: usize,
    p: Coord,
    q: SavedQuantity,
)
    requires
        p != coord,
        spec_entries_of(s, kind).contains((p, q)),
    ensures
        spec_entries_of(spec_save(s, c, coord), kind).contains((p, q)),
{
    let t = spec_save(s, c, coord);
    lemma_entries_member(s, kind, p, q);
    lemma_entries_member(t, kind, p, q);
    let j = choose|j: int| 0 <= j < s.len() && records(#[trigger] s[j], kind, p, q);
    let e = entry_for(c, coord);
    if has_entry(s, e.kind, coord) {
        let idx = entry_index(s, e.kind, coord);
        assert(at(s[idx], e.kind, coord));
        assert(idx != j);
        assert(t[j] == s[j]);
        assert(records(t[j], kind, p, q));
    } else {
        assert(t[j] == s[j]);
        assert(records(t[j], kind, p, q));
    }
}

} // verus!
