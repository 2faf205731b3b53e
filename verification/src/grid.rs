//! Faces, the Grid, its Cells, and the Assignment of Faces onto them.

use crate::text::{decimal, push_decimal, push_str};
use vstd::prelude::*;

verus! {

/// Smallest Grid the piece is designed to show.
pub const MIN_CELLS: u32 = 10;

/// Largest Grid the piece is designed to show.
pub const MAX_CELLS: u32 = 1000;

/// Identifies one Face: one captured portrait of one Visitor at one moment.
///
/// A Visitor who returns twice produces two Faces with two different ids; the
/// system measures similarity and never identifies anyone.
#[derive(Debug, Clone, Copy, PartialEq, Eq, Structural, PartialOrd, Ord, Hash)]
pub struct FaceId(pub u64);

/// One position in the Grid. A Cell holds exactly one Face, never a stack.
#[derive(Debug, Clone, Copy, PartialEq, Eq, Structural, PartialOrd, Ord, Hash)]
pub struct CellIndex(pub u32);

/// Ways a [`GridSpec`] can be invalid.
#[derive(Debug, Clone, Copy, PartialEq, Eq, Structural)]
pub enum GridSpecError {
    /// Neither dimension may be zero.
    ZeroDimension { cols: u32, rows: u32 },
    /// The Grid is outside the range the piece is designed for.
    OutOfRange { cells: u32 },
}

/// The sentence an operator reads for a refused Grid.
pub open spec fn grid_error_text(error: GridSpecError) -> Seq<char> {
    match error {
        GridSpecError::ZeroDimension { cols, rows } => "grid dimensions must be non-zero, got "@
            + decimal(cols as nat) + "x"@ + decimal(rows as nat),
        GridSpecError::OutOfRange { cells } => "grid of "@ + decimal(cells as nat)
            + " cells is outside the supported range "@ + decimal(MIN_CELLS as nat) + "..="@
            + decimal(MAX_CELLS as nat),
    }
}

impl GridSpecError {
    /// The refusal as an operator reads it.
    pub fn to_string(&self) -> (r: String)
        ensures
            r@ == grid_error_text(*self),
    {
        let mut s = String::new();
        match self {
            GridSpecError::ZeroDimension { cols, rows } => {
                push_str(&mut s, "grid dimensions must be non-zero, got ");
                push_decimal(&mut s, *cols as u128);
                push_str(&mut s, "x");
                push_decimal(&mut s, *rows as u128);
            },
            GridSpecError::OutOfRange { cells } => {
                push_str(&mut s, "grid of ");
                push_decimal(&mut s, *cells as u128);
                push_str(&mut s, " cells is outside the supported range ");
                push_decimal(&mut s, MIN_CELLS as u128);
                push_str(&mut s, "..=");
                push_decimal(&mut s, MAX_CELLS as u128);
            },
        }
        assert(s@ =~= grid_error_text(*self));
        s
    }
}

/// Whether `cols` by `rows` is a Grid the piece shows.
pub open spec fn valid_grid(cols: int, rows: int) -> bool {
    &&& cols > 0
    &&& rows > 0
    &&& MIN_CELLS <= cols * rows <= MAX_CELLS
}

/// The dimensions of the Grid currently on screen.
#[derive(Debug, Clone, Copy, PartialEq, Eq)]
pub struct GridSpec {
    cols: u32,
    rows: u32,
}

impl GridSpec {
    #[verifier::type_invariant]
    closed spec fn inv(self) -> bool {
        valid_grid(self.cols as int, self.rows as int)
    }

    /// Number of columns, as a specification value.
    pub closed spec fn spec_cols(self) -> u32 {
        self.cols
    }

    /// Number of rows, as a specification value.
    pub closed spec fn spec_rows(self) -> u32 {
        self.rows
    }

    /// Total number of Cells, as a specification value.
    pub open spec fn spec_cell_count(self) -> int {
        self.spec_cols() * self.spec_rows()
    }

    /// Creates a Grid specification.
    ///
    /// Refuses a zero dimension first, then any Grid whose cell count falls
    /// outside [`MIN_CELLS`]..=[`MAX_CELLS`]; a product that does not even fit
    /// a `u32` is reported as `u32::MAX` cells.
    pub fn new(cols: u32, rows: u32) -> (r: Result<Self, GridSpecError>)
        ensures
            match r {
                Ok(g) => {
                    &&& valid_grid(cols as int, rows as int)
                    &&& g.spec_cols() == cols
                    &&& g.spec_rows() == rows
                },
                Err(GridSpecError::ZeroDimension { cols: c, rows: w }) => {
                    &&& cols == 0 || rows == 0
                    &&& c == cols
                    &&& w == rows
                },
                Err(GridSpecError::OutOfRange { cells }) => {
                    &&& cols != 0 && rows != 0
                    &&& !valid_grid(cols as int, rows as int)
                    &&& cells == if cols * rows > u32::MAX {
                        u32::MAX as int
                    } else {
                        cols * rows
                    }
                },
            },
            r is Ok <==> valid_grid(cols as int, rows as int),
    {
        if cols == 0 || rows == 0 {
            return Err(GridSpecError::ZeroDimension { cols, rows });
        }
        let cells = match cols.checked_mul(rows) {
            Some(c) => c,
            None => {
                assert(cols * rows >= MIN_CELLS) by (nonlinear_arith)
                    requires
                        cols >= 1,
                        rows >= 1,
                        cols * rows > u32::MAX,
                ;
                return Err(GridSpecError::OutOfRange { cells: u32::MAX });
            },
        };
        if cells < MIN_CELLS || cells > MAX_CELLS {
            return Err(GridSpecError::OutOfRange { cells });
        }
        Ok(GridSpec { cols, rows })
    }

    /// Number of columns.
    pub fn cols(&self) -> (r: u32)
        ensures
            r == self.spec_cols(),
            r > 0,
            valid_grid(self.spec_cols() as int, self.spec_rows() as int),
    {
        proof {
            use_type_invariant(self);
        }
        self.cols
    }

    /// Number of rows.
    pub fn rows(&self) -> (r: u32)
        ensures
            r == self.spec_rows(),
            r > 0,
            valid_grid(self.spec_cols() as int, self.spec_rows() as int),
    {
        proof {
            use_type_invariant(self);
        }
        self.rows
    }

    /// Total number of Cells, which is also the size of the Window.
    pub fn cell_count(&self) -> (r: u32)
        ensures
            r == self.spec_cell_count(),
            MIN_CELLS <= r <= MAX_CELLS,
            valid_grid(self.spec_cols() as int, self.spec_rows() as int),
    {
        proof {
            use_type_invariant(self);
        }
        self.cols * self.rows
    }

    /// The column and row of `cell`, or `None` if it is outside this Grid.
    ///
    /// Cells are numbered in row-major order.
    pub fn position_of(&self, cell: CellIndex) -> (r: Option<(u32, u32)>)
        ensures
            r == if cell.0 < self.spec_cell_count() {
                Some(((cell.0 % self.spec_cols()) as u32, (cell.0 / self.spec_cols()) as u32))
            } else {
                None::<(u32, u32)>
            },
    {
        let count = self.cell_count();
        let cols = self.cols();
        if cell.0 < count {
            Some((cell.0 % cols, cell.0 / cols))
        } else {
            None
        }
    }
}

/// Row-major positions cover the Grid exactly: every Cell inside the Grid has
/// a column and row inside it, and the Cell is recovered from them.
pub proof fn lemma_position_round_trip(cols: int, rows: int, cell: int)
    requires
        valid_grid(cols, rows),
        0 <= cell < cols * rows,
    ensures
        0 <= cell % cols < cols,
        0 <= cell / cols < rows,
        (cell / cols) * cols + cell % cols == cell,
{
    vstd::arithmetic::div_mod::lemma_fundamental_div_mod(cell, cols);
    vstd::arithmetic::div_mod::lemma_mod_bound(cell, cols);
    vstd::arithmetic::div_mod::lemma_div_pos_is_pos(cell, cols);
    let q = cell / cols;
    let m = cell % cols;
    vstd::arithmetic::mul::lemma_mul_is_commutative(cols, q);
    assert(q < rows) by (nonlinear_arith)
        requires
            cell == q * cols + m,
            0 <= m,
            cell < cols * rows,
            cols > 0,
    ;
}

/// Ways an [`Assignment`] can be violated.
#[derive(Debug, Clone, Copy, PartialEq, Eq, Structural)]
pub enum AssignmentError {
    /// The Cell does not exist in this Grid.
    CellOutOfRange { cell: u32, cells: u32 },
    /// Placement is bijective: a Face may occupy at most one Cell.
    FaceAlreadyPlaced { face: FaceId, existing: u32 },
}

/// No Face appears in two Cells.
pub open spec fn placed_once(cells: Seq<Option<FaceId>>) -> bool {
    forall|i: int, j: int|
        0 <= i < cells.len() && 0 <= j < cells.len() && #[trigger] cells[i] is Some && cells[i]
            == #[trigger] cells[j] ==> i == j
}

/// The Cell `face` occupies in `cells`, if any.
pub open spec fn holds(cells: Seq<Option<FaceId>>, i: int, face: FaceId) -> bool {
    0 <= i < cells.len() && cells[i] == Some(face)
}

/// How many Cells hold a Face.
pub open spec fn occupied_count(cells: Seq<Option<FaceId>>) -> nat
    decreases cells.len(),
{
    if cells.len() == 0 {
        0
    } else {
        occupied_count(cells.drop_last()) + if cells.last() is Some {
            1nat
        } else {
            0nat
        }
    }
}

/// A copy of a row of Cells.
fn copy_cells(cells: &Vec<Option<FaceId>>) -> (r: Vec<Option<FaceId>>)
    ensures
        r@ == cells@,
{
    let mut r: Vec<Option<FaceId>> = Vec::new();
    let mut i: usize = 0;
    while i < cells.len()
        invariant
            i <= cells@.len(),
            r@ == cells@.take(i as int),
        decreases cells@.len() - i,
    {
        r.push(cells[i]);
        i = i + 1;
        assert(r@ =~= cells@.take(i as int));
    }
    assert(cells@.take(cells@.len() as int) =~= cells@);
    r
}

/// A bijective placement of Faces onto Grid Cells.
#[derive(Debug, PartialEq)]
pub struct Assignment {
    spec: GridSpec,
    cells: Vec<Option<FaceId>>,
}

impl View for Assignment {
    type V = Seq<Option<FaceId>>;

    closed spec fn view(&self) -> Seq<Option<FaceId>> {
        self.cells@
    }
}

impl Assignment {
    #[verifier::type_invariant]
    closed spec fn inv(self) -> bool {
        &&& self.cells@.len() == self.spec.spec_cell_count()
        &&& placed_once(self.cells@)
    }

    /// The Grid this Assignment places Faces onto, as a specification value.
    pub closed spec fn spec_grid(self) -> GridSpec {
        self.spec
    }

    /// Creates an empty Assignment for `spec`.
    pub fn new(spec: GridSpec) -> (r: Self)
        ensures
            r.spec_grid() == spec,
            r@ == Seq::new(spec.spec_cell_count() as nat, |i: int| None::<FaceId>),
    {
        let count = spec.cell_count();
        let mut cells: Vec<Option<FaceId>> = Vec::new();
        let mut i: u32 = 0;
        while i < count
            invariant
                i <= count,
                cells@ == Seq::new(i as nat, |k: int| None::<FaceId>),
            decreases count - i,
        {
            cells.push(None);
            i = i + 1;
        }
        Assignment { spec, cells }
    }

    /// The Grid this Assignment places Faces onto.
    ///
    /// Every Assignment keeps one entry per Cell of this Grid and never holds
    /// a Face twice.
    pub fn spec(&self) -> (r: GridSpec)
        ensures
            r == self.spec_grid(),
            self@.len() == r.spec_cell_count(),
            placed_once(self@),
    {
        proof {
            use_type_invariant(self);
        }
        self.spec
    }

    /// Places `face` in `cell`, replacing whatever Face was there.
    ///
    /// Refuses a Cell outside the Grid, and a Face that already occupies a
    /// different Cell: a Face may appear on the wall only once.
    pub fn place(&mut self, cell: CellIndex, face: FaceId) -> (r: Result<(), AssignmentError>)
        ensures
            final(self).spec_grid() == old(self).spec_grid(),
            r is Ok <==> (cell.0 < old(self)@.len() && forall|i: int|
                #![trigger old(self)@[i]]
                holds(old(self)@, i, face) ==> i == cell.0),
            match r {
                Ok(()) => final(self)@ == old(self)@.update(cell.0 as int, Some(face)),
                Err(AssignmentError::CellOutOfRange { cell: c, cells }) => {
                    &&& cell.0 >= old(self)@.len()
                    &&& c == cell.0
                    &&& cells == old(self)@.len()
                    &&& final(self)@ == old(self)@
                },
                Err(AssignmentError::FaceAlreadyPlaced { face: f, existing }) => {
                    &&& cell.0 < old(self)@.len()
                    &&& f == face
                    &&& existing != cell.0
                    &&& holds(old(self)@, existing as int, face)
                    &&& final(self)@ == old(self)@
                },
            },
    {
        proof {
            use_type_invariant(&*self);
        }
        let cells = self.spec.cell_count();
        if cell.0 >= cells {
            return Err(AssignmentError::CellOutOfRange { cell: cell.0, cells });
        }
        match self.cell_of(face) {
            Some(existing) => {
                if existing.0 != cell.0 {
                    return Err(AssignmentError::FaceAlreadyPlaced { face, existing: existing.0 });
                }
            },
            None => {},
        }
        let ghost before = self.cells@;
        let mut taken = copy_cells(&self.cells);
        taken.set(cell.0 as usize, Some(face));
        proof {
            assert forall|i: int, j: int|
                0 <= i < taken@.len() && 0 <= j < taken@.len() && #[trigger] taken@[i] is Some
                    && taken@[i] == #[trigger] taken@[j] implies i == j by {
                if i != cell.0 && j != cell.0 {
                    assert(before[i] == taken@[i] && before[j] == taken@[j]);
                } else if i == cell.0 && j != cell.0 {
                    assert(holds(before, j, face));
                } else if i != cell.0 && j == cell.0 {
                    assert(holds(before, i, face));
                }
            }
        }
        self.cells = taken;
        Ok(())
    }

    /// The Face in `cell`, if any.
    pub fn face_at(&self, cell: CellIndex) -> (r: Option<FaceId>)
        ensures
            r == if cell.0 < self@.len() {
                self@[cell.0 as int]
            } else {
                None::<FaceId>
            },
    {
        if (cell.0 as usize) < self.cells.len() {
            self.cells[cell.0 as usize]
        } else {
            None
        }
    }

    /// The Cell `face` occupies, if it is on the Grid.
    pub fn cell_of(&self, face: FaceId) -> (r: Option<CellIndex>)
        ensures
            match r {
                Some(c) => holds(self@, c.0 as int, face),
                None => forall|i: int| #![trigger self@[i]] !holds(self@, i, face),
            },
    {
        proof {
            use_type_invariant(self);
            use_type_invariant(&self.spec);
        }
        let n = self.cells.len();
        let mut i: usize = 0;
        while i < n
            invariant
                n == self@.len(),
                n <= MAX_CELLS,
                i <= n,
                forall|k: int| #![trigger self@[k]] 0 <= k < i ==> !holds(self@, k, face),
            decreases n - i,
        {
            match self.cells[i] {
                Some(f) => {
                    if f.0 == face.0 {
                        return Some(CellIndex(i as u32));
                    }
                },
                None => {},
            }
            i = i + 1;
        }
        None
    }

    /// Number of occupied Cells.
    pub fn occupied(&self) -> (r: usize)
        ensures
            r == occupied_count(self@),
    {
        let n = self.cells.len();
        let mut count: usize = 0;
        let mut i: usize = 0;
        while i < n
            invariant
                n == self@.len(),
                i <= n,
                count == occupied_count(self@.take(i as int)),
                count <= i,
            decreases n - i,
        {
            assert(self@.take(i + 1).drop_last() =~= self@.take(i as int));
            if self.cells[i].is_some() {
                count = count + 1;
            }
            i = i + 1;
        }
        assert(self@.take(n as int) =~= self@);
        count
    }
}

impl Clone for Assignment {
    fn clone(&self) -> (r: Self)
        ensures
            r@ == self@,
            r.spec_grid() == self.spec_grid(),
    {
        proof {
            use_type_invariant(self);
        }
        Assignment { spec: self.spec, cells: copy_cells(&self.cells) }
    }
}

} // verus!
