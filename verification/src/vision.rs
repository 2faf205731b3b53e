//! What the vision models are allowed to look like, and what a frame held.
//!
//! The detector and the embedder are ONNX graphs fetched from elsewhere; each
//! declares its input shape, and a shape this code was not written against is
//! refused at load rather than discovered as nonsense at inference. The face
//! count of a frame is a result, not a detail: none, one and several are three
//! outcomes, and nothing here picks "the" face out of a crowd.

use crate::text::{decimal, push_decimal, push_signed_decimal, push_str, signed_decimal};
use vstd::prelude::*;

verus! {

/// Square input side assumed for the detector when its graph does not fix one.
pub const DETECTOR_INPUT_SIZE: u32 = 640;

/// DINOv2 sees the image in square patches of this many pixels.
pub const PATCH_SIZE: u32 = 14;

/// Square input side assumed for the embedder when its graph leaves it open.
pub const EMBEDDER_INPUT_SIZE: u32 = 224;

/// A graph whose input is not the shape this code was written against.
#[derive(Debug, Clone, PartialEq, Eq)]
pub enum GraphError {
    /// What was expected, and what was found.
    UnexpectedGraph { detail: String },
}

/// The items of `dims` in decimal, separated by a comma and a space.
pub open spec fn list_text(dims: Seq<i64>) -> Seq<char>
    decreases dims.len(),
{
    if dims.len() == 0 {
        Seq::empty()
    } else if dims.len() == 1 {
        signed_decimal(dims[0] as int)
    } else {
        list_text(dims.drop_last()) + ", "@ + signed_decimal(dims.last() as int)
    }
}

/// A shape written the way Rust's `Debug` writes a slice of integers.
pub open spec fn shape_text(dims: Seq<i64>) -> Seq<char> {
    "["@ + list_text(dims) + "]"@
}

/// The complaint about a shape that is not a four-dimensional image tensor.
pub open spec fn wrong_shape_detail(dims: Seq<i64>) -> Seq<char> {
    "input shape is "@ + shape_text(dims) + ", expected [1, 3, size, size]"@
}

/// The complaint about an input that is not square.
pub open spec fn not_square_detail(width: i64, height: i64) -> Seq<char> {
    "input is "@ + signed_decimal(width as int) + "x"@ + signed_decimal(height as int)
        + "; a square input is expected"@
}

/// The complaint about a side that is not a whole number of patches.
pub open spec fn ragged_detail(side: u32) -> Seq<char> {
    "input side "@ + decimal(side as nat) + " is not a whole number of "@ + decimal(
        PATCH_SIZE as nat,
    ) + "px patches"@
}

/// Whether `r` is the refusal carrying `detail`.
pub open spec fn refused_with<T>(r: Result<T, GraphError>, detail: Seq<char>) -> bool {
    match r {
        Err(GraphError::UnexpectedGraph { detail: d }) => d@ == detail,
        Ok(_) => false,
    }
}

/// Writes `dims` the way `Debug` writes a slice of integers.
fn shape_string(dims: &[i64]) -> (r: String)
    ensures
        r@ == shape_text(dims@),
{
    let mut s = String::new();
    push_str(&mut s, "[");
    let ghost start = s@;
    let mut i: usize = 0;
    while i < dims.len()
        invariant
            i <= dims@.len(),
            start == "["@,
            s@ == start + list_text(dims@.take(i as int)),
        decreases dims@.len() - i,
    {
        assert(dims@.take(i + 1).drop_last() =~= dims@.take(i as int));
        if i > 0 {
            push_str(&mut s, ", ");
        }
        push_signed_decimal(&mut s, dims[i]);
        i = i + 1;
        assert(s@ =~= start + list_text(dims@.take(i as int)));
    }
    assert(dims@.take(dims@.len() as int) =~= dims@);
    push_str(&mut s, "]");
    assert(s@ =~= shape_text(dims@));
    s
}

/// Refuses a shape that is not a four-dimensional image tensor.
fn wrong_shape(dims: &[i64]) -> (r: GraphError)
    ensures
        refused_with(Err::<u32, GraphError>(r), wrong_shape_detail(dims@)),
{
    let mut s = String::new();
    push_str(&mut s, "input shape is ");
    let shape = shape_string(dims);
    push_str(&mut s, shape.as_str());
    push_str(&mut s, ", expected [1, 3, size, size]");
    assert(s@ =~= wrong_shape_detail(dims@));
    GraphError::UnexpectedGraph { detail: s }
}

/// Refuses an input that is not square.
fn not_square(width: i64, height: i64) -> (r: GraphError)
    ensures
        refused_with(Err::<u32, GraphError>(r), not_square_detail(width, height)),
{
    let mut s = String::new();
    push_str(&mut s, "input is ");
    push_signed_decimal(&mut s, width);
    push_str(&mut s, "x");
    push_signed_decimal(&mut s, height);
    push_str(&mut s, "; a square input is expected");
    assert(s@ =~= not_square_detail(width, height));
    GraphError::UnexpectedGraph { detail: s }
}

/// The detector's square input side, as its graph declares it.
///
/// A dynamic dimension is reported as -1 and leaves the default in place; a
/// rectangular input would invalidate the square-grid decode and is refused,
/// as is anything that is not `[batch, 3, size, size]`.
pub open spec fn detector_side(dims: Option<Seq<i64>>) -> Option<u32> {
    match dims {
        None => Some(DETECTOR_INPUT_SIZE),
        Some(d) => if d.len() == 4 && d[1] == 3 {
            if d[2] <= 0 || d[3] <= 0 {
                Some(DETECTOR_INPUT_SIZE)
            } else if d[2] == d[3] {
                Some(d[2] as u32)
            } else {
                None
            }
        } else {
            None
        },
    }
}

/// The characters of an optional shape.
pub open spec fn dims_of(shape: Option<&[i64]>) -> Option<Seq<i64>> {
    match shape {
        Some(d) => Some(d@),
        None => None,
    }
}

/// The detector graph's square input side.
pub fn detector_input_size(shape: Option<&[i64]>) -> (r: Result<u32, GraphError>)
    ensures
        match detector_side(dims_of(shape)) {
            Some(side) => r == Ok::<u32, GraphError>(side),
            None => match shape {
                Some(d) => if d@.len() == 4 && d@[1] == 3 {
                    refused_with(r, not_square_detail(d@[3], d@[2]))
                } else {
                    refused_with(r, wrong_shape_detail(d@))
                },
                None => false,
            },
        },
{
    let dims = match shape {
        None => return Ok(DETECTOR_INPUT_SIZE),
        Some(dims) => dims,
    };
    if dims.len() == 4 && dims[1] == 3 {
        let height = dims[2];
        let width = dims[3];
        if height <= 0 || width <= 0 {
            Ok(DETECTOR_INPUT_SIZE)
        } else if height == width {
            Ok(height as u32)
        } else {
            Err(not_square(width, height))
        }
    } else {
        Err(wrong_shape(dims))
    }
}

/// A detector graph that fixes a square input of side `side` runs at that
/// side, whatever its batch dimension.
pub proof fn law_detector_takes_a_fixed_square_side(batch: i64, side: i64)
    requires
        0 < side <= u32::MAX,
    ensures
        detector_side(Some(seq![batch, 3, side, side])) matches Some(s) && s == side,
{
}

/// The default side is used only when the graph leaves a spatial dimension
/// dynamic or declares no shape: whenever the side comes out as something
/// other than what a fixed square input declares, a spatial dimension was
/// dynamic.
pub proof fn law_detector_default_only_when_dynamic(dims: Seq<i64>)
    requires
        dims.len() == 4,
        detector_side(Some(dims)) is Some,
    ensures
        dims[2] > 0 && dims[3] > 0 ==> dims[2] == dims[3] && detector_side(Some(dims))->0 == dims[2]
            as u32,
        detector_side(Some(dims))->0 != dims[2] as u32 ==> dims[2] <= 0 || dims[3] <= 0,
{
}

/// An embedder graph that fixes a square input of a whole number of patches
/// runs at that side.
pub proof fn law_embedder_takes_a_fixed_square_side(batch: i64, side: i64)
    requires
        0 < side <= u32::MAX,
        (side as int) % (PATCH_SIZE as int) == 0,
    ensures
        embedder_side(Some(seq![batch, 3, side, side])) matches Some(s) && s == side,
{
}

/// The embedder's square input side, as its graph declares it.
///
/// The onnx-community exports leave every dimension symbolic, channels
/// included, so a symbolic channel count is accepted; a fixed one other than
/// three is not an RGB ViT. The ViT accepts any whole number of patches, so a
/// dynamic spatial dimension is the ordinary case, and a fixed side must be a
/// whole number of patches.
pub open spec fn embedder_side(dims: Option<Seq<i64>>) -> Option<u32> {
    match dims {
        None => Some(EMBEDDER_INPUT_SIZE),
        Some(d) => if d.len() == 4 && (d[1] == 3 || d[1] <= 0) {
            if d[2] <= 0 || d[3] <= 0 {
                Some(EMBEDDER_INPUT_SIZE)
            } else if d[2] == d[3] && (d[2] as u32) % PATCH_SIZE == 0 {
                Some(d[2] as u32)
            } else {
                None
            }
        } else {
            None
        },
    }
}

/// The embedder graph's square input side.
pub fn embedder_input_size(shape: Option<&[i64]>) -> (r: Result<u32, GraphError>)
    ensures
        match embedder_side(dims_of(shape)) {
            Some(side) => r == Ok::<u32, GraphError>(side),
            None => match shape {
                Some(d) => if d@.len() == 4 && (d@[1] == 3 || d@[1] <= 0) {
                    if d@[2] == d@[3] {
                        refused_with(r, ragged_detail(d@[2] as u32))
                    } else {
                        refused_with(r, not_square_detail(d@[3], d@[2]))
                    }
                } else {
                    refused_with(r, wrong_shape_detail(d@))
                },
                None => false,
            },
        },
{
    let dims = match shape {
        None => return Ok(EMBEDDER_INPUT_SIZE),
        Some(dims) => dims,
    };
    if dims.len() == 4 && (dims[1] == 3 || dims[1] <= 0) {
        let height = dims[2];
        let width = dims[3];
        if height <= 0 || width <= 0 {
            Ok(EMBEDDER_INPUT_SIZE)
        } else if height == width {
            let side = height as u32;
            if side % PATCH_SIZE != 0 {
                let mut s = String::new();
                push_str(&mut s, "input side ");
                push_decimal(&mut s, side as u128);
                push_str(&mut s, " is not a whole number of ");
                push_decimal(&mut s, PATCH_SIZE as u128);
                push_str(&mut s, "px patches");
                assert(s@ =~= ragged_detail(side));
                return Err(GraphError::UnexpectedGraph { detail: s });
            }
            Ok(side)
        } else {
            Err(not_square(width, height))
        }
    } else {
        Err(wrong_shape(dims))
    }
}

/// The embedder's default side is itself a whole number of patches.
pub proof fn lemma_default_side_is_whole_patches()
    ensures
        EMBEDDER_INPUT_SIZE % PATCH_SIZE == 0,
        embedder_side(None) == Some(EMBEDDER_INPUT_SIZE),
{
}

/// The strides YuNet's three heads predict at.
pub open spec fn strides() -> Seq<u32> {
    seq![8u32, 16u32, 32u32]
}

/// The four tensors each head has.
pub open spec fn head_parts() -> Seq<Seq<char>> {
    seq!["cls"@, "obj"@, "bbox"@, "kps"@]
}

/// The name of one head tensor: its part, an underscore, its stride.
pub open spec fn output_name(part: Seq<char>, stride: u32) -> Seq<char> {
    part + "_"@ + decimal(stride as nat)
}

/// Every output the detector decodes, stride by stride, part by part.
pub open spec fn detector_outputs() -> Seq<Seq<char>> {
    Seq::new(12, |k: int| output_name(head_parts()[k % 4], strides()[k / 4]))
}

/// Whether `names` holds `name`.
pub open spec fn names_hold(names: Seq<String>, name: Seq<char>) -> bool {
    exists|i: int| 0 <= i < names.len() && #[trigger] names[i]@ == name
}

/// Whether two strings hold the same characters.
fn same_text(a: &str, b: &str) -> (r: bool)
    ensures
        r == (a@ == b@),
{
    let x = crate::text::chars_of(a);
    let y = crate::text::chars_of(b);
    if x.len() != y.len() {
        return false;
    }
    let mut i: usize = 0;
    while i < x.len()
        invariant
            i <= x@.len(),
            x@ == a@,
            y@ == b@,
            x@.len() == y@.len(),
            forall|k: int| 0 <= k < i ==> x@[k] == y@[k],
        decreases x@.len() - i,
    {
        if x[i] != y[i] {
            return false;
        }
        i = i + 1;
    }
    assert(x@ =~= y@);
    true
}

/// Whether `names` holds `name`.
fn holds_name(names: &[String], name: &str) -> (r: bool)
    ensures
        r == names_hold(names@, name@),
{
    let mut i: usize = 0;
    while i < names.len()
        invariant
            i <= names@.len(),
            forall|k: int| 0 <= k < i ==> names@[k]@ != name@,
        decreases names@.len() - i,
    {
        if same_text(names[i].as_str(), name) {
            return true;
        }
        i = i + 1;
    }
    false
}

/// Checks the detector graph declares every head output the decoder reads.
///
/// Refuses with the first one missing, stride by stride and part by part, so
/// a graph that is not the three-head YuNet export says which tensor it lacks.
pub fn check_detector_outputs(names: &[String]) -> (r: Result<(), GraphError>)
    ensures
        r is Ok <==> forall|k: int| 0 <= k < 12 ==> names_hold(names@, #[trigger] detector_outputs()[k]),
        r is Err ==> exists|k: int|
            0 <= k < 12 && !names_hold(names@, #[trigger] detector_outputs()[k]) && refused_with(
                r,
                "no output named "@ + detector_outputs()[k],
            ) && forall|j: int| 0 <= j < k ==> names_hold(names@, detector_outputs()[j]),
{
    let stride_list: [u32; 3] = [8, 16, 32];
    let parts: [&'static str; 4] = ["cls", "obj", "bbox", "kps"];
    assert(stride_list@ =~= strides());
    let mut k: usize = 0;
    while k < 12
        invariant
            k <= 12,
            stride_list@ == strides(),
            forall|j: int| 0 <= j < 4 ==> (#[trigger] parts@[j])@ == head_parts()[j],
            forall|j: int| 0 <= j < k ==> names_hold(names@, #[trigger] detector_outputs()[j]),
        decreases 12 - k,
    {
        let mut name = String::new();
        push_str(&mut name, parts[k % 4]);
        push_str(&mut name, "_");
        push_decimal(&mut name, stride_list[k / 4] as u128);
        proof {
            assert(parts@[(k % 4) as int]@ == head_parts()[(k % 4) as int]);
            assert(name@ =~= detector_outputs()[k as int]);
        }
        if !holds_name(names, name.as_str()) {
            let mut detail = String::new();
            push_str(&mut detail, "no output named ");
            push_str(&mut detail, name.as_str());
            return Err(GraphError::UnexpectedGraph { detail });
        }
        k = k + 1;
    }
    Ok(())
}

/// The complaint about a head tensor that does not cover its grid.
pub open spec fn short_head_detail(
    part: Seq<char>,
    stride: u32,
    actual: usize,
    expected: int,
    cols: u32,
) -> Seq<char> {
    "output "@ + output_name(part, stride) + " holds "@ + decimal(actual as nat) + " values, expected "@
        + decimal(expected as nat) + " for a "@ + decimal(cols as nat) + "x"@ + decimal(cols as nat)
        + " grid"@
}

/// Values per grid cell in each of a head's four tensors.
pub open spec fn part_width(k: int) -> int {
    if k == 2 {
        4
    } else if k == 3 {
        10
    } else {
        1
    }
}

/// Checks one head's four tensors against the `cols` by `cols` grid they
/// claim to cover: one class score and one objectness per cell, four box
/// offsets and ten landmark offsets.
///
/// A short tensor would otherwise lose cells silently; a graph that is not
/// the one the decoder was written against says so instead of quietly
/// finding fewer faces. `lens` holds the lengths of the class, objectness,
/// box and landmark tensors, in that order.
pub fn check_head(stride: u32, cols: u32, lens: [usize; 4]) -> (r: Result<(), GraphError>)
    requires
        cols * cols <= u32::MAX,
        cols * cols * 10 <= usize::MAX,
    ensures
        r is Ok <==> forall|k: int| 0 <= k < 4 ==> lens@[k] == cols * cols * #[trigger] part_width(k),
        r is Err ==> exists|k: int|
            0 <= k < 4 && lens@[k] != cols * cols * #[trigger] part_width(k) && refused_with(
                r,
                short_head_detail(head_parts()[k], stride, lens@[k], cols * cols * part_width(k), cols),
            ) && forall|j: int| 0 <= j < k ==> lens@[j] == cols * cols * part_width(j),
{
    let cells = (cols * cols) as usize;
    let parts: [&'static str; 4] = ["cls", "obj", "bbox", "kps"];
    let widths: [usize; 4] = [1, 1, 4, 10];
    let mut k: usize = 0;
    while k < 4
        invariant
            k <= 4,
            cells == cols * cols,
            cells * 10 <= usize::MAX,
            forall|j: int| 0 <= j < 4 ==> (#[trigger] parts@[j])@ == head_parts()[j],
            forall|j: int| 0 <= j < 4 ==> widths@[j] == #[trigger] part_width(j),
            forall|j: int| 0 <= j < k ==> lens@[j] == cols * cols * #[trigger] part_width(j),
        decreases 4 - k,
    {
        assert(widths@[k as int] == part_width(k as int));
        let expected = cells * widths[k];
        if lens[k] != expected {
            let mut detail = String::new();
            push_str(&mut detail, "output ");
            push_str(&mut detail, parts[k]);
            push_str(&mut detail, "_");
            push_decimal(&mut detail, stride as u128);
            push_str(&mut detail, " holds ");
            push_decimal(&mut detail, lens[k] as u128);
            push_str(&mut detail, " values, expected ");
            push_decimal(&mut detail, expected as u128);
            push_str(&mut detail, " for a ");
            push_decimal(&mut detail, cols as u128);
            push_str(&mut detail, "x");
            push_decimal(&mut detail, cols as u128);
            push_str(&mut detail, " grid");
            proof {
                assert(parts@[k as int]@ == head_parts()[k as int]);
                assert(detail@ =~= short_head_detail(
                    head_parts()[k as int],
                    stride,
                    lens@[k as int],
                    cols * cols * part_width(k as int),
                    cols,
                ));
            }
            return Err(GraphError::UnexpectedGraph { detail });
        }
        k = k + 1;
    }
    Ok(())
}

/// The width of the summary token, read off the embedder's output shape:
/// `[1, tokens, width]` with both positive, the leading token being the CLS
/// summary.
pub open spec fn token_width(shape: Seq<i64>) -> Option<int> {
    if shape.len() == 3 && shape[0] == 1 && shape[1] > 0 && shape[2] > 0 {
        Some(shape[2] as int)
    } else {
        None
    }
}

/// How many leading values of the embedder's output are the Embedding.
///
/// The width is whatever the loaded graph produced, read off its output
/// shape and never assumed; an output too short to hold one token of that
/// width is refused.
pub fn summary_width(shape: &[i64], values: usize) -> (r: Result<usize, GraphError>)
    ensures
        match token_width(shape@) {
            Some(width) => if width <= values {
                r == Ok::<usize, GraphError>(width as usize)
            } else {
                refused_with(
                    r,
                    "output holds "@ + decimal(values as nat) + " values, too few for a "@ + decimal(
                        width as nat,
                    ) + "-wide token"@,
                )
            },
            None => refused_with(
                r,
                "output shape is "@ + shape_text(shape@) + ", expected [1, tokens, width]"@,
            ),
        },
{
    if shape.len() == 3 && shape[0] == 1 && shape[1] > 0 && shape[2] > 0 {
        let width = shape[2];
        if (width as u64) <= (values as u64) {
            Ok(width as usize)
        } else {
            let mut detail = String::new();
            push_str(&mut detail, "output holds ");
            push_decimal(&mut detail, values as u128);
            push_str(&mut detail, " values, too few for a ");
            push_decimal(&mut detail, width as u128);
            push_str(&mut detail, "-wide token");
            Err(GraphError::UnexpectedGraph { detail })
        }
    } else {
        let mut detail = String::new();
        push_str(&mut detail, "output shape is ");
        let text = shape_string(shape);
        push_str(&mut detail, text.as_str());
        push_str(&mut detail, ", expected [1, tokens, width]");
        Err(GraphError::UnexpectedGraph { detail })
    }
}

/// Checks an Embedding has the width the embedder settled on when it was
/// opened.
pub fn same_width(produced: usize, opened: usize) -> (r: Result<(), GraphError>)
    ensures
        produced == opened <==> r is Ok,
        produced != opened ==> refused_with(
            r,
            "the graph produced "@ + decimal(produced as nat) + " dimensions, having produced "@
                + decimal(opened as nat) + " when it was opened"@,
        ),
{
    if produced == opened {
        return Ok(());
    }
    let mut detail = String::new();
    push_str(&mut detail, "the graph produced ");
    push_decimal(&mut detail, produced as u128);
    push_str(&mut detail, " dimensions, having produced ");
    push_decimal(&mut detail, opened as u128);
    push_str(&mut detail, " when it was opened");
    Err(GraphError::UnexpectedGraph { detail })
}

/// Why a frame did not yield exactly one face.
#[derive(Debug, Clone, Copy, PartialEq, Eq, Structural)]
pub enum FaceCountError {
    /// Nothing that looked like a face was in the frame.
    NoFace,
    /// More than one face. The policy for this at the Shutter is still open;
    /// nothing here decides it.
    SeveralFaces { count: usize },
}

/// What a face-count refusal says.
pub open spec fn face_count_text(error: FaceCountError) -> Seq<char> {
    match error {
        FaceCountError::NoFace => "no face in the frame"@,
        FaceCountError::SeveralFaces { count } => decimal(count as nat)
            + " faces in the frame; which one the Capture belongs to is not decided here"@,
    }
}

impl FaceCountError {
    /// What went wrong, in a sentence.
    pub fn to_string(&self) -> (r: String)
        ensures
            r@ == face_count_text(*self),
    {
        let mut s = String::new();
        match self {
            FaceCountError::NoFace => push_str(&mut s, "no face in the frame"),
            FaceCountError::SeveralFaces { count } => {
                push_decimal(&mut s, *count as u128);
                push_str(
                    &mut s,
                    " faces in the frame; which one the Capture belongs to is not decided here",
                );
            },
        }
        assert(s@ =~= face_count_text(*self));
        s
    }
}

/// What was in the frame.
///
/// Three outcomes, all of them nameable. A caller that wants exactly one face
/// says so with [`Faces::into_sole`]; a caller with a policy for crowds matches
/// on [`Faces::Many`] and applies it.
#[derive(Debug, Clone, PartialEq)]
pub enum Faces<D> {
    /// Nobody was found.
    Nobody,
    /// Exactly one face.
    One(D),
    /// Several faces, strongest first.
    Many(Vec<D>),
}

/// A one-element slice holding `item`.
///
/// Calls `std::slice::from_ref`, which the standard library documents as
/// turning a reference into a slice of length one, without copying.
#[verifier::external_body]
fn single<D>(item: &D) -> (r: &[D])
    ensures
        r@ == seq![*item],
{
    std::slice::from_ref(item)
}

impl<D> Faces<D> {
    /// The detections, strongest first.
    pub open spec fn spec_detections(self) -> Seq<D> {
        match self {
            Faces::Nobody => Seq::empty(),
            Faces::One(d) => seq![d],
            Faces::Many(v) => v@,
        }
    }

    /// Whether the three cases mean what they say: `Many` holds several.
    pub open spec fn well_counted(self) -> bool {
        self matches Faces::Many(v) ==> v@.len() >= 2
    }

    /// Classifies detections already ranked strongest first.
    pub fn from_ranked(detections: Vec<D>) -> (r: Self)
        ensures
            r.spec_detections() == detections@,
            r.well_counted(),
    {
        let mut detections = detections;
        let n = detections.len();
        if n == 0 {
            Faces::Nobody
        } else if n == 1 {
            let d = detections.remove(0);
            assert(detections@.len() == 0);
            Faces::One(d)
        } else {
            Faces::Many(detections)
        }
    }

    /// How many faces were found.
    pub fn count(&self) -> (r: usize)
        ensures
            r == self.spec_detections().len(),
    {
        match self {
            Faces::Nobody => 0,
            Faces::One(_) => 1,
            Faces::Many(detections) => detections.len(),
        }
    }

    /// Every detection, strongest first.
    pub fn detections(&self) -> (r: &[D])
        ensures
            r@ == self.spec_detections(),
    {
        match self {
            Faces::Nobody => &[],
            Faces::One(detection) => single(detection),
            Faces::Many(detections) => detections.as_slice(),
        }
    }

    /// The single face in the frame.
    ///
    /// Refuses with [`FaceCountError`] when the frame held none or several.
    /// Both are ordinary outcomes at a booth, and both are the caller's to
    /// handle.
    pub fn into_sole(self) -> (r: Result<D, FaceCountError>)
        ensures
            match self {
                Faces::Nobody => r == Err::<D, FaceCountError>(FaceCountError::NoFace),
                Faces::One(d) => r == Ok::<D, FaceCountError>(d),
                Faces::Many(v) => r == Err::<D, FaceCountError>(
                    FaceCountError::SeveralFaces { count: v@.len() as usize },
                ),
            },
    {
        match self {
            Faces::Nobody => Err(FaceCountError::NoFace),
            Faces::One(detection) => Ok(detection),
            Faces::Many(detections) => Err(FaceCountError::SeveralFaces { count: detections.len() }),
        }
    }
}

} // verus!
