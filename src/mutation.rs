//! Interior mutability: cells written through aliases without borrow
//! tracking, and a cell that hands out at most one writer at a time.

use vstd::prelude::*;

verus! {

/// Names one cell of a [`CellArena`]. Handles are plain copies: two equal
/// handles are aliases of the same cell.
#[derive(Clone, Copy, Debug, PartialEq, Eq, Structural)]
pub struct CellRef {
    pub slot: usize,
}

/// Integer cells reached through [`CellRef`] handles. Nothing tracks how
/// many handles to a cell are live: a write through one handle is seen
/// through every alias of it.
pub struct CellArena {
    cells: Vec<i32>,
}

impl View for CellArena {
    type V = Seq<i32>;

    closed spec fn view(&self) -> Seq<i32> {
        self.cells@
    }
}

impl CellArena {
    /// Whether `h` names a cell of this arena.
    pub open spec fn holds(&self, h: CellRef) -> bool {
        h.slot < self@.len()
    }

    pub fn new() -> (r: CellArena)
        ensures
            r@ == Seq::<i32>::empty(),
    {
        CellArena { cells: Vec::new() }
    }

    /// Adds a cell holding `value` and returns the handle to it.
    pub fn add_cell(&mut self, value: i32) -> (h: CellRef)
        ensures
            final(self)@ == old(self)@.push(value),
            h.slot == old(self)@.len(),
    {
        let slot = self.cells.len();
        self.cells.push(value);
        CellRef { slot }
    }

    pub fn get(&self, h: CellRef) -> (r: i32)
        requires
            self.holds(h),
        ensures
            r == self@[h.slot as int],
    {
        self.cells[h.slot]
    }

    pub fn set(&mut self, h: CellRef, value: i32)
        requires
            old(self).holds(h),
        ensures
            final(self)@ == old(self)@.update(h.slot as int, value),
    {
        self.cells.set(h.slot, value);
    }
}

/// Reads the cell behind `a`, writes one more than the value behind `b`
/// through `b`, and reads `a` again. Returns whether the second read differs
/// from the first, which is so exactly when `a` and `b` are aliases.
pub fn l_cell(cells: &mut CellArena, a: CellRef, b: CellRef) -> (seen: bool)
    requires
        old(cells).holds(a),
        old(cells).holds(b),
        old(cells)@[b.slot as int] < i32::MAX,
    ensures
        final(cells)@ == old(cells)@.update(b.slot as int, (old(cells)@[b.slot as int] + 1) as i32),
        seen == (a == b),
{
    let before = cells.get(a);
    let current = cells.get(b);
    cells.set(b, current + 1);
    let after = cells.get(a);
    before != after
}

/// A write of `n + 1` through one handle is read back as `n + 1` through any
/// alias of it, whatever the cell held before.
pub proof fn lemma_alias_sees_write(s: Seq<i32>, a: CellRef, b: CellRef, n: int)
    requires
        a == b,
        a.slot < s.len(),
        s[a.slot as int] == n,
        n < i32::MAX,
    ensures
        s.update(b.slot as int, (s[b.slot as int] + 1) as i32)[a.slot as int] == n + 1,
{
}

/// Why a request for a writer was refused.
#[derive(Clone, Copy, Debug, PartialEq, Eq, Structural)]
pub enum BorrowError {
    AlreadyMutablyBorrowed,
}

/// The abstract state of a [`CheckedCell`]: its value, and whether a writer
/// is out.
pub struct CellState {
    pub value: i32,
    pub borrowed: bool,
}

/// The state after a request for a writer, and whether it was granted: it is
/// granted exactly when no writer is out.
pub open spec fn request(s: CellState) -> (CellState, bool) {
    if s.borrowed {
        (s, false)
    } else {
        (CellState { value: s.value, borrowed: true }, true)
    }
}

/// The state after the writer that is out has been handed back.
pub open spec fn release(s: CellState) -> CellState {
    CellState { value: s.value, borrowed: false }
}

/// Proof that a writer is out, handed out by [`CheckedCell::try_borrow_mut`]
/// and consumed by [`CheckedCell::release`].
pub struct MutView {
    token: (),
}

/// An integer cell that tracks at run time whether a writer is out, and
/// refuses a second writer while the first is held.
pub struct CheckedCell {
    value: i32,
    borrowed: bool,
}

impl View for CheckedCell {
    type V = CellState;

    closed spec fn view(&self) -> CellState {
        CellState { value: self.value, borrowed: self.borrowed }
    }
}

impl CheckedCell {
    pub fn new(value: i32) -> (r: CheckedCell)
        ensures
            r@ == (CellState { value, borrowed: false }),
    {
        CheckedCell { value, borrowed: false }
    }

    pub fn get(&self) -> (r: i32)
        ensures
            r == self@.value,
    {
        self.value
    }

    pub fn is_borrowed(&self) -> (r: bool)
        ensures
            r == self@.borrowed,
    {
        self.borrowed
    }

    /// Hands out the writer if none is out, and refuses otherwise.
    pub fn try_borrow_mut(&mut self) -> (r: Result<MutView, BorrowError>)
        ensures
            final(self)@ == request(old(self)@).0,
            r is Ok == request(old(self)@).1,
            r matches Err(e) ==> e == BorrowError::AlreadyMutablyBorrowed,
    {
        if self.borrowed {
            Err(BorrowError::AlreadyMutablyBorrowed)
        } else {
            self.borrowed = true;
            Ok(MutView { token: () })
        }
    }

    /// Writes `value` while the writer is out.
    pub fn write(&mut self, view: &MutView, value: i32)
        requires
            old(self)@.borrowed,
        ensures
            final(self)@ == (CellState { value, borrowed: true }),
    {
        self.value = value;
    }

    /// Hands the writer back.
    pub fn release(&mut self, view: MutView)
        requires
            old(self)@.borrowed,
        ensures
            final(self)@ == release(old(self)@),
    {
        self.borrowed = false;
    }
}

/// Once a writer has been handed out, a second request is refused; once it
/// has been handed back, the next request is granted.
pub proof fn lemma_single_writer(s: CellState)
    requires
        !s.borrowed,
    ensures
        request(s).1,
        !request(request(s).0).1,
        request(release(request(s).0)).1,
        release(request(s).0) == s,
{
}

/// Requests a writer for `cell` twice without handing the first back. The
/// second request is refused (the first too, if a writer was already out),
/// so the result is always the borrow error; a writer that was granted is
/// handed back before returning.
pub fn l_ref_cell(cell: &mut CheckedCell) -> (r: Result<(), BorrowError>)
    ensures
        r == Err::<(), BorrowError>(BorrowError::AlreadyMutablyBorrowed),
        final(cell)@ == old(cell)@,
{
    let first = cell.try_borrow_mut();
    match first {
        Err(e) => Err(e),
        Ok(view) => {
            let second = cell.try_borrow_mut();
            let r = match second {
                Err(e) => Err(e),
                Ok(other) => {
                    cell.release(other);
                    Ok(())
                },
            };
            cell.release(view);
            r
        },
    }
}

/// What the interior-mutability demonstration observed.
pub struct InteriorOutcome {
    /// Whether a write through one alias was seen through the other.
    pub write_seen: bool,
    /// The result of requesting a second writer of a checked cell.
    pub second_writer: Result<(), BorrowError>,
}

/// Writes through one alias of a cell holding 10 and reads through the other,
/// then requests two writers of a checked cell holding 100.
pub fn l_interior_mut() -> (r: InteriorOutcome)
    ensures
        r.write_seen,
        r.second_writer == Err::<(), BorrowError>(BorrowError::AlreadyMutablyBorrowed),
{
    let mut cells = CellArena::new();
    let a = cells.add_cell(10);
    let write_seen = l_cell(&mut cells, a, a);
    let mut checked = CheckedCell::new(100);
    let second_writer = l_ref_cell(&mut checked);
    InteriorOutcome { write_seen, second_writer }
}

} // verus!
