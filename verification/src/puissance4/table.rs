//! The board: a fixed-capacity vector of columns, each a fixed-capacity
//! vector of cells, kept in the `heapless` crate's `Vec`; and lists of
//! columns, kept the same way.

use vstd::prelude::*;

verus! {

/// `heapless::Vec`, a vector stored inline with capacity `N`.
#[verifier::external_type_specification]
#[verifier::external_body]
#[verifier::reject_recursive_types(T)]
pub struct ExHeaplessVec<T, const N: usize>(heapless::Vec<T, N>);

/// The cells of a column, bottom first.
pub uninterp spec fn column_view(c: heapless::Vec<u8, 6>) -> Seq<u8>;

/// The columns of a board, left first, each given by its cells.
pub uninterp spec fn board_view(b: heapless::Vec<heapless::Vec<u8, 6>, 8>) -> Seq<Seq<u8>>;

/// The entries of a list of columns.
pub uninterp spec fn moves_view(m: heapless::Vec<u8, 8>) -> Seq<u8>;

/// `heapless::Vec::new` for a column: an empty vector.
#[verifier::external_body]
pub(crate) fn column_new() -> (c: heapless::Vec<u8, 6>)
    ensures
        column_view(c) == Seq::<u8>::empty(),
{
    heapless::Vec::new()
}

/// `heapless::Vec::push` on a column: appends when the capacity (6) allows,
/// else hands the value back and leaves the column unchanged.
#[verifier::external_body]
pub(crate) fn column_push(c: &mut heapless::Vec<u8, 6>, v: u8) -> (r: Result<(), u8>)
    ensures
        r is Ok <==> column_view(*old(c)).len() < 6,
        r is Ok ==> column_view(*final(c)) == column_view(*old(c)).push(v),
        r is Err ==> column_view(*final(c)) == column_view(*old(c)),
{
    c.push(v)
}

/// `heapless::Vec::new` for a board: no column.
#[verifier::external_body]
pub(crate) fn board_new() -> (b: heapless::Vec<heapless::Vec<u8, 6>, 8>)
    ensures
        board_view(b) == Seq::<Seq<u8>>::empty(),
{
    heapless::Vec::new()
}

/// `heapless::Vec::push` on a board: appends the column when the capacity
/// (8) allows, else hands it back and leaves the board unchanged.
#[verifier::external_body]
pub(crate) fn board_push(b: &mut heapless::Vec<heapless::Vec<u8, 6>, 8>, c: heapless::Vec<u8, 6>) -> (r: Result<(), heapless::Vec<u8, 6>>)
    ensures
        r is Ok <==> board_view(*old(b)).len() < 8,
        r is Ok ==> board_view(*final(b)) == board_view(*old(b)).push(column_view(c)),
        r is Err ==> board_view(*final(b)) == board_view(*old(b)),
{
    b.push(c)
}

/// The number of columns (`len`, through the slice).
#[verifier::external_body]
pub(crate) fn board_len(b: &heapless::Vec<heapless::Vec<u8, 6>, 8>) -> (n: usize)
    ensures
        n == board_view(*b).len(),
{
    b.len()
}

/// The number of cells of column `x` (`len` of the column at index `x`).
#[verifier::external_body]
pub(crate) fn board_column_len(b: &heapless::Vec<heapless::Vec<u8, 6>, 8>, x: usize) -> (n: usize)
    requires
        x < board_view(*b).len(),
    ensures
        n == board_view(*b)[x as int].len(),
{
    b[x].len()
}

/// The cell `y` of column `x`, by indexing the board and the column.
#[verifier::external_body]
pub(crate) fn board_cell(b: &heapless::Vec<heapless::Vec<u8, 6>, 8>, x: usize, y: usize) -> (v: u8)
    requires
        x < board_view(*b).len(),
        y < board_view(*b)[x as int].len(),
    ensures
        v == board_view(*b)[x as int][y as int],
{
    b[x][y]
}

/// Writes cell `y` of column `x`, by mutable indexing of the board and the column.
#[verifier::external_body]
pub(crate) fn board_set(b: &mut heapless::Vec<heapless::Vec<u8, 6>, 8>, x: usize, y: usize, v: u8)
    requires
        x < board_view(*old(b)).len(),
        y < board_view(*old(b))[x as int].len(),
    ensures
        board_view(*final(b)) == board_view(*old(b)).update(x as int, board_view(*old(b))[x as int].update(y as int, v)),
{
    b[x][y] = v;
}

/// `Clone` of a board: each column is cloned cell by cell.
#[verifier::external_body]
pub(crate) fn board_clone(b: &heapless::Vec<heapless::Vec<u8, 6>, 8>) -> (c: heapless::Vec<heapless::Vec<u8, 6>, 8>)
    ensures
        board_view(c) == board_view(*b),
{
    b.clone()
}

/// `heapless::Vec::new` for a list of columns: empty.
#[verifier::external_body]
pub(crate) fn moves_new() -> (m: heapless::Vec<u8, 8>)
    ensures
        moves_view(m) == Seq::<u8>::empty(),
{
    heapless::Vec::new()
}

/// `heapless::Vec::push` on a list of columns: appends when the capacity
/// (8) allows, else hands the value back and leaves the list unchanged.
#[verifier::external_body]
pub(crate) fn moves_push(m: &mut heapless::Vec<u8, 8>, v: u8) -> (r: Result<(), u8>)
    ensures
        r is Ok <==> moves_view(*old(m)).len() < 8,
        r is Ok ==> moves_view(*final(m)) == moves_view(*old(m)).push(v),
        r is Err ==> moves_view(*final(m)) == moves_view(*old(m)),
{
    m.push(v)
}

/// The number of entries of a list of columns.
#[verifier::external_body]
pub(crate) fn moves_len(m: &heapless::Vec<u8, 8>) -> (n: usize)
    ensures
        n == moves_view(*m).len(),
{
    m.len()
}

/// Entry `i` of a list of columns.
#[verifier::external_body]
pub(crate) fn moves_get(m: &heapless::Vec<u8, 8>, i: usize) -> (v: u8)
    requires
        i < moves_view(*m).len(),
    ensures
        v == moves_view(*m)[i as int],
{
    m[i]
}

} // verus!
