//! Which Faces the Grid is currently showing.
//!
//! The Corpus grows without bound and the Grid does not, so the Grid is a
//! Window onto it. There is no Drift yet: the Window is the first Cell-count
//! distinct Faces it is offered, in the order they arrive.

use crate::grid::{holds, placed_once, Assignment, CellIndex, FaceId, GridSpec, occupied_count};
use vstd::prelude::*;

verus! {

/// The Faces a Window of `limit` Cells shows when offered `faces`: each Face
/// at its first offer, skipping repeats, until the Cells run out.
pub open spec fn first_distinct(faces: Seq<FaceId>, limit: nat) -> Seq<FaceId>
    decreases faces.len(),
{
    if faces.len() == 0 {
        Seq::empty()
    } else {
        let shown = first_distinct(faces.drop_last(), limit);
        if shown.len() < limit && !shown.contains(faces.last()) {
            shown.push(faces.last())
        } else {
            shown
        }
    }
}

/// `shown` laid out over `cells` Cells: one Face per Cell in order, the rest
/// empty.
pub open spec fn laid_out(shown: Seq<FaceId>, cells: nat) -> Seq<Option<FaceId>> {
    Seq::new(cells, |i: int| if i < shown.len() { Some(shown[i]) } else { None })
}

/// The Faces held by `cells`, in Cell order.
pub open spec fn present(cells: Seq<Option<FaceId>>) -> Seq<FaceId>
    decreases cells.len(),
{
    if cells.len() == 0 {
        Seq::empty()
    } else {
        match cells.last() {
            Some(f) => present(cells.drop_last()).push(f),
            None => present(cells.drop_last()),
        }
    }
}

/// No Face occurs twice in `faces`.
pub open spec fn no_repeats(faces: Seq<FaceId>) -> bool {
    forall|i: int, j: int|
        0 <= i < faces.len() && 0 <= j < faces.len() && #[trigger] faces[i] == #[trigger] faces[j]
            ==> i == j
}

/// What a Window shows never repeats a Face, never exceeds its Cells, and
/// only holds Faces it was offered.
pub proof fn lemma_first_distinct(faces: Seq<FaceId>, limit: nat)
    ensures
        no_repeats(first_distinct(faces, limit)),
        first_distinct(faces, limit).len() <= limit,
        first_distinct(faces, limit).len() <= faces.len(),
        forall|f: FaceId| #[trigger] first_distinct(faces, limit).contains(f) ==> faces.contains(f),
    decreases faces.len(),
{
    if faces.len() > 0 {
        let rest = faces.drop_last();
        lemma_first_distinct(rest, limit);
        let shown = first_distinct(rest, limit);
        let f = faces.last();
        assert forall|g: FaceId| #[trigger] first_distinct(faces, limit).contains(g) implies faces.contains(g) by {
            if shown.contains(g) {
                let k = choose|k: int| 0 <= k < rest.len() && rest[k] == g;
                assert(faces[k] == g);
            } else {
                assert(faces[faces.len() - 1] == g);
            }
        }
        if shown.len() < limit && !shown.contains(f) {
            let next = shown.push(f);
            assert forall|i: int, j: int|
                0 <= i < next.len() && 0 <= j < next.len() && #[trigger] next[i] == #[trigger] next[j]
                    implies i == j by {
                if i < shown.len() && j == shown.len() {
                    assert(shown.contains(next[i]));
                }
                if j < shown.len() && i == shown.len() {
                    assert(shown.contains(next[j]));
                }
            }
        }
    }
}

/// Once a Window is full, further offers change nothing.
pub proof fn lemma_first_distinct_full(faces: Seq<FaceId>, more: Seq<FaceId>, limit: nat)
    requires
        first_distinct(faces, limit).len() >= limit,
    ensures
        first_distinct(faces + more, limit) == first_distinct(faces, limit),
    decreases more.len(),
{
    if more.len() == 0 {
        assert(faces + more =~= faces);
    } else {
        lemma_first_distinct_full(faces, more.drop_last(), limit);
        assert((faces + more).drop_last() =~= faces + more.drop_last());
    }
}

/// Laid-out Faces read back in Cell order are the Faces laid out, and each
/// occupies one Cell.
proof fn lemma_laid_out_prefix(shown: Seq<FaceId>, cells: nat, m: int)
    requires
        shown.len() <= cells,
        0 <= m <= cells,
    ensures
        present(laid_out(shown, cells).take(m)) == shown.take(if m < shown.len() { m } else { shown.len() as int }),
        occupied_count(laid_out(shown, cells).take(m)) == (if m < shown.len() { m } else { shown.len() as int }),
    decreases m,
{
    let cells_seq = laid_out(shown, cells);
    if m == 0 {
        assert(cells_seq.take(0) =~= Seq::<Option<FaceId>>::empty());
        assert(shown.take(0) =~= Seq::<FaceId>::empty());
    } else {
        lemma_laid_out_prefix(shown, cells, m - 1);
        assert(cells_seq.take(m).drop_last() =~= cells_seq.take(m - 1));
        if m <= shown.len() {
            assert(shown.take(m).drop_last() =~= shown.take(m - 1));
        }
    }
}

/// A Window shows the Faces it was offered, each at most once, one per
/// occupied Cell and in the order they were offered: reading it back in Cell
/// order gives exactly the first Cell-count distinct Faces.
pub proof fn law_window_shows_each_offered_face_once(faces: Seq<FaceId>, cells: nat)
    ensures
        present(laid_out(first_distinct(faces, cells), cells)) == first_distinct(faces, cells),
        occupied_count(laid_out(first_distinct(faces, cells), cells)) == first_distinct(faces, cells).len(),
        placed_once(laid_out(first_distinct(faces, cells), cells)),
        no_repeats(first_distinct(faces, cells)),
{
    let shown = first_distinct(faces, cells);
    lemma_first_distinct(faces, cells);
    lemma_laid_out_prefix(shown, cells, cells as int);
    let laid = laid_out(shown, cells);
    assert(laid.take(cells as int) =~= laid);
    assert(shown.take(shown.len() as int) =~= shown);
    assert forall|i: int, j: int|
        0 <= i < laid.len() && 0 <= j < laid.len() && #[trigger] laid[i] is Some && laid[i] == #[trigger] laid[j] implies i == j by {
        assert(shown[i] == shown[j]);
    }
}

/// The Faces on screen, one per Cell.
///
/// Built on an [`Assignment`], so a Face occupying two Cells is refused by
/// construction. Faces beyond the Cell count stay in the Corpus, unseen;
/// Cells beyond the Face count stay empty.
#[derive(Debug, PartialEq)]
pub struct Window {
    assignment: Assignment,
}

impl View for Window {
    type V = Seq<Option<FaceId>>;

    closed spec fn view(&self) -> Seq<Option<FaceId>> {
        self.assignment@
    }
}

impl Window {
    /// The Grid this Window fills, as a specification value.
    pub closed spec fn spec_grid(self) -> GridSpec {
        self.assignment.spec_grid()
    }

    /// Opens a Window of `spec`'s size onto `faces`, filling Cells in order.
    ///
    /// Faces past the last Cell are not shown, and a Face offered twice is
    /// placed once: the wall never shows one Visitor's Face in two Cells.
    pub fn onto(spec: GridSpec, faces: Vec<FaceId>) -> (r: Self)
        ensures
            r.spec_grid() == spec,
            r@ == laid_out(
                first_distinct(faces@, spec.spec_cell_count() as nat),
                spec.spec_cell_count() as nat,
            ),
    {
        let mut assignment = Assignment::new(spec);
        let count = spec.cell_count();
        let ghost limit = spec.spec_cell_count() as nat;
        let mut next: u32 = 0;
        let mut i: usize = 0;
        proof {
            assert(faces@.take(0) =~= Seq::<FaceId>::empty());
            assert(assignment@ =~= laid_out(Seq::empty(), limit));
            assert(faces@.take(faces@.len() as int) =~= faces@);
        }
        while i < faces.len()
            invariant
                i <= faces@.len(),
                faces@.take(faces@.len() as int) == faces@,
                count == limit,
                assignment.spec_grid() == spec,
                next as int == first_distinct(faces@.take(i as int), limit).len(),
                next <= count,
                assignment@ == laid_out(first_distinct(faces@.take(i as int), limit), limit),
            ensures
                assignment.spec_grid() == spec,
                assignment@ == laid_out(first_distinct(faces@, limit), limit),
            decreases faces@.len() - i,
        {
            let ghost before = first_distinct(faces@.take(i as int), limit);
            proof {
                lemma_first_distinct(faces@.take(i as int), limit);
            }
            if next >= count {
                proof {
                    lemma_first_distinct_full(faces@.take(i as int), faces@.skip(i as int), limit);
                    assert(faces@.take(i as int) + faces@.skip(i as int) =~= faces@);
                    }
                break;
            }
            let face = faces[i];
            proof {
                assert(faces@.take(i + 1).drop_last() =~= faces@.take(i as int));
                assert(faces@.take(i + 1).last() == face);
            }
            let placed = assignment.place(CellIndex(next), face);
            proof {
                let after = first_distinct(faces@.take(i + 1), limit);
                if before.contains(face) {
                    let k = choose|k: int| 0 <= k < before.len() && before[k] == face;
                    assert(holds(laid_out(before, limit), k, face));
                    assert(placed is Err);
                } else {
                    assert forall|c: int| #![trigger laid_out(before, limit)[c]]
                        holds(laid_out(before, limit), c, face) implies c == next by {
                        assert(before[c] == face);
                    }
                    assert(placed is Ok);
                    assert(assignment@ =~= laid_out(after, limit));
                }
            }
            if placed.is_ok() {
                next = next + 1;
            }
            i = i + 1;
        }
        Window { assignment }
    }

    /// The Grid this Window fills.
    pub fn spec(&self) -> (r: GridSpec)
        ensures
            r == self.spec_grid(),
            self@.len() == r.spec_cell_count(),
            placed_once(self@),
    {
        self.assignment.spec()
    }

    /// The Face in `cell`, if the Window reaches that far.
    pub fn face_at(&self, cell: CellIndex) -> (r: Option<FaceId>)
        ensures
            r == if cell.0 < self@.len() {
                self@[cell.0 as int]
            } else {
                None::<FaceId>
            },
    {
        self.assignment.face_at(cell)
    }

    /// How many Cells hold a Face.
    pub fn occupied(&self) -> (r: usize)
        ensures
            r == occupied_count(self@),
    {
        self.assignment.occupied()
    }

    /// Every Face on screen, in Cell order.
    ///
    /// This is the set that needs a decoded texture, and nothing else does:
    /// the texture budget follows Grid size, not Corpus size.
    pub fn resident(&self) -> (r: Vec<FaceId>)
        ensures
            r@ == present(self@),
    {
        let spec = self.spec();
        let count = spec.cell_count();
        let mut r: Vec<FaceId> = Vec::new();
        let mut cell: u32 = 0;
        while cell < count
            invariant
                cell <= count,
                count == self@.len(),
                r@ == present(self@.take(cell as int)),
            decreases count - cell,
        {
            assert(self@.take(cell + 1).drop_last() =~= self@.take(cell as int));
            match self.face_at(CellIndex(cell)) {
                Some(face) => r.push(face),
                None => {},
            }
            cell = cell + 1;
        }
        assert(self@.take(count as int) =~= self@);
        r
    }
}

impl Clone for Window {
    fn clone(&self) -> (r: Self)
        ensures
            r@ == self@,
            r.spec_grid() == self.spec_grid(),
    {
        Window { assignment: self.assignment.clone() }
    }
}

} // verus!
