//! The robot's random choices: the order in which it tries directions and the
//! coin it flips between two directions.
use vstd::prelude::*;
use rand::seq::SliceRandom;
use rand::Rng;
use crate::geometry::Direction;

verus! {

/// The four directions in the order up, right, down, left.
pub open spec fn all_directions() -> Seq<Direction> {
    seq![Direction::Up, Direction::Right, Direction::Down, Direction::Left]
}

/// `order` lists each of the four directions once.
pub open spec fn is_direction_order(order: Seq<Direction>) -> bool {
    &&& order.len() == 4
    &&& forall|d: Direction| #[trigger] order.contains(d)
}

/// Shuffles the vector in place with `rand`'s `SliceRandom::shuffle` on the
/// thread-local generator. The contract claims only that the result is a
/// rearrangement of the input: same length, same elements with the same
/// multiplicities. Which rearrangement comes out is left unsaid: it is random.
#[verifier::external_body]
fn shuffle_directions(v: &mut Vec<Direction>)
    ensures
        final(v)@.len() == old(v)@.len(),
        final(v)@.to_multiset() == old(v)@.to_multiset(),
{
    v.shuffle(&mut rand::thread_rng());
}

/// A fair coin from `rand`'s `Rng::gen::<bool>` on the thread-local generator.
/// Nothing is claimed of the result: it is random.
#[verifier::external_body]
fn coin_flip() -> bool {
    rand::thread_rng().gen::<bool>()
}

/// The four directions in a random order.
pub fn random_direction_order() -> (order: Vec<Direction>)
    ensures
        is_direction_order(order@),
{
    let mut v: Vec<Direction> = Vec::new();
    v.push(Direction::Up);
    v.push(Direction::Right);
    v.push(Direction::Down);
    v.push(Direction::Left);
    let ghost before = v@;
    assert(before =~= all_directions());
    shuffle_directions(&mut v);
    proof {
        before.to_multiset_ensures();
        v@.to_multiset_ensures();
        assert forall|d: Direction| #[trigger] v@.contains(d) by {
            let k: int = match d {
                Direction::Up => 0,
                Direction::Right => 1,
                Direction::Down => 2,
                Direction::Left => 3,
            };
            assert(before[k] == d);
            assert(before.contains(d));
            assert(before.to_multiset().count(d) > 0);
        }
    }
    v
}

/// `n` independent fair coin flips.
pub fn random_coins(n: usize) -> (coins: Vec<bool>)
    ensures
        coins@.len() == n,
{
    let mut coins: Vec<bool> = Vec::new();
    let mut i: usize = 0;
    while i < n
        invariant
            i <= n,
            coins@.len() == i,
        decreases n - i,
    {
        coins.push(coin_flip());
        i = i + 1;
    }
    coins
}

} // verus!
