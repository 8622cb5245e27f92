//! The snake's body and the walls, kept in the `heapless` crate's `Deque`
//! and `Vec`, with capacity for every cell of the largest terrain.

use vstd::prelude::*;

use crate::eadk::Point;

verus! {

/// `heapless::Deque`, a double-ended queue stored inline with capacity `N`.
#[verifier::external_type_specification]
#[verifier::external_body]
#[verifier::reject_recursive_types(T)]
pub struct ExHeaplessDeque<T, const N: usize>(heapless::Deque<T, N>);

/// The cells of the snake, head first.
pub uninterp spec fn snake_view(d: heapless::Deque<Point, 735>) -> Seq<Point>;

/// The walls, in the order they appeared.
pub uninterp spec fn walls_view(w: heapless::Vec<Point, 735>) -> Seq<Point>;

/// `heapless::Deque::new`: no cell.
#[verifier::external_body]
pub(crate) fn snake_new() -> (d: heapless::Deque<Point, 735>)
    ensures
        snake_view(d) == Seq::<Point>::empty(),
{
    heapless::Deque::new()
}

/// `heapless::Deque::push_front`: adds a head when the capacity (735)
/// allows, else hands the cell back and leaves the queue unchanged.
#[verifier::external_body]
pub(crate) fn snake_push_front(d: &mut heapless::Deque<Point, 735>, p: Point) -> (r: Result<(), Point>)
    ensures
        r is Ok <==> snake_view(*old(d)).len() < 735,
        r is Ok ==> snake_view(*final(d)) == seq![p] + snake_view(*old(d)),
        r is Err ==> snake_view(*final(d)) == snake_view(*old(d)),
{
    d.push_front(p)
}

/// `heapless::Deque::pop_back`: removes and gives the last cell, `None` when empty.
#[verifier::external_body]
pub(crate) fn snake_pop_back(d: &mut heapless::Deque<Point, 735>) -> (r: Option<Point>)
    ensures
        snake_view(*old(d)).len() == 0 ==> r is None && snake_view(*final(d)) == snake_view(*old(d)),
        snake_view(*old(d)).len() > 0 ==> r == Some(snake_view(*old(d)).last()) && snake_view(*final(d)) == snake_view(*old(d)).drop_last(),
{
    d.pop_back()
}

/// `heapless::Deque::len`.
#[verifier::external_body]
pub(crate) fn snake_len(d: &heapless::Deque<Point, 735>) -> (n: usize)
    ensures
        n == snake_view(*d).len(),
{
    d.len()
}

/// Cell `i` from the head, read through `heapless::Deque::iter`.
#[verifier::external_body]
pub(crate) fn snake_get(d: &heapless::Deque<Point, 735>, i: usize) -> (p: Point)
    requires
        i < snake_view(*d).len(),
    ensures
        p == snake_view(*d)[i as int],
{
    *d.iter().nth(i).unwrap()
}

/// `heapless::Vec::new` for walls: none.
#[verifier::external_body]
pub(crate) fn walls_new() -> (w: heapless::Vec<Point, 735>)
    ensures
        walls_view(w) == Seq::<Point>::empty(),
{
    heapless::Vec::new()
}

/// `heapless::Vec::push` for walls: appends when the capacity (735) allows,
/// else hands the cell back and leaves the walls unchanged.
#[verifier::external_body]
pub(crate) fn walls_push(w: &mut heapless::Vec<Point, 735>, p: Point) -> (r: Result<(), Point>)
    ensures
        r is Ok <==> walls_view(*old(w)).len() < 735,
        r is Ok ==> walls_view(*final(w)) == walls_view(*old(w)).push(p),
        r is Err ==> walls_view(*final(w)) == walls_view(*old(w)),
{
    w.push(p)
}

/// The number of walls.
#[verifier::external_body]
pub(crate) fn walls_len(w: &heapless::Vec<Point, 735>) -> (n: usize)
    ensures
        n == walls_view(*w).len(),
{
    w.len()
}

/// Wall `i`.
#[verifier::external_body]
pub(crate) fn walls_get(w: &heapless::Vec<Point, 735>, i: usize) -> (p: Point)
    requires
        i < walls_view(*w).len(),
    ensures
        p == walls_view(*w)[i as int],
{
    w[i]
}

} // verus!
