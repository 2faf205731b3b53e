//! The booth: what one press produced, what the startup self-check found,
//! and how the configuration file's entries settle into paths, models, a Grid
//! and a camera.
//!
//! Every stage of a press is timed: the numbers a press prints are what one
//! candidate machine is compared against another with. A frame with nobody in
//! it, or a crowd, is an outcome rather than a failure, and leaves the Corpus
//! as it was.

use crate::camera::CameraSelector;
use crate::grid::{valid_grid, FaceId, GridSpec, GridSpecError};
use crate::model::{
    is_missing, join_path, joined, missing_model_text, model_error_text, role_name, settled_id,
    text_of, ModelError, ModelRole, ModelSpec,
};
use crate::text::{padded_right, push_padded, push_str, string_of};
use crate::vision::Faces;
use vstd::prelude::*;

verus! {

/// The longest span a `std::time::Duration` holds, in nanoseconds.
pub const DURATION_MAX_NANOS: u128 = 18446744073709551615999999999;

/// What one Capture cost, stage by stage, in nanoseconds.
///
/// Wall-clock per stage, because that is what an operator comparing two
/// machines can act on.
#[derive(Debug, Clone, Copy, PartialEq, Eq, Structural)]
pub struct Timings {
    /// Grabbing the frame off the camera.
    pub capture: u128,
    /// Finding the face and its landmarks.
    pub detect: u128,
    /// Warping to the aligned crop and cutting the display crop.
    pub align: u128,
    /// Inference.
    pub embed: u128,
    /// Writing the row and the three images.
    pub store: u128,
}

impl Timings {
    /// The sum of every stage.
    pub open spec fn spec_total(self) -> int {
        self.capture + self.detect + self.align + self.embed + self.store
    }

    /// Everything the press cost.
    ///
    /// The stages of one press always fit a `Duration` together; a sum that
    /// would not is outside what a press can produce.
    pub fn total(&self) -> (r: u128)
        requires
            self.spec_total() <= DURATION_MAX_NANOS,
        ensures
            r == self.spec_total(),
    {
        self.capture + self.detect + self.align + self.embed + self.store
    }
}

/// What one Shutter press produced.
///
/// No face and several faces are reported rather than raised: a Visitor who
/// stepped out of frame, or two friends leaning in together, must leave the
/// Corpus unchanged and the piece running.
#[derive(Debug, Clone, Copy, PartialEq, Eq, Structural)]
pub enum Captured {
    /// One face, now in the Corpus.
    Face {
        /// The Face the Corpus assigned.
        id: FaceId,
        /// What each stage cost.
        timings: Timings,
    },
    /// Nobody was in the frame.
    NoFace,
    /// More than one person was in the frame.
    ///
    /// Which face the booth would embed is an open question, so a crowd is
    /// declined rather than resolved by accident here.
    Several(usize),
}

/// The face a press goes on with, or the outcome that ends it.
///
/// Exactly one face carries on to alignment, embedding and storage; an empty
/// frame ends the press as [`Captured::NoFace`], a crowd as
/// [`Captured::Several`] with the head count.
pub fn sole_face<D>(faces: Faces<D>) -> (r: Result<D, Captured>)
    ensures
        match faces {
            Faces::Nobody => r == Err::<D, Captured>(Captured::NoFace),
            Faces::One(d) => r == Ok::<D, Captured>(d),
            Faces::Many(v) => r == Err::<D, Captured>(Captured::Several(v@.len() as usize)),
        },
{
    match faces {
        Faces::Nobody => Err(Captured::NoFace),
        Faces::One(face) => Ok(face),
        Faces::Many(several) => Err(Captured::Several(several.len())),
    }
}

/// Where a Window of `cells` Cells sits when it is pinned to the newest Faces.
///
/// The Window sits at the end of the archive rather than its start, because
/// the Visitor who just pressed the Shutter must find themselves on the wall.
/// A Corpus smaller than the Grid starts at zero: every Face is on the wall
/// and the spare Cells stay empty.
pub fn newest_window(held: u64, cells: u32) -> (r: u64)
    ensures
        r == if held > cells {
            held - cells
        } else {
            0
        },
{
    held.saturating_sub(cells as u64)
}

/// The newest Face is always on the wall: the Window starting at
/// `newest_window(held, cells)` reaches the last Face held, and shows a full
/// Grid whenever there are enough Faces to fill one.
pub proof fn lemma_newest_window_shows_the_newest(held: u64, cells: u32, offset: u64)
    requires
        cells > 0,
        offset == (if held > cells { held - cells } else { 0 }),
    ensures
        held > 0 ==> offset <= held - 1 < offset + cells,
        held >= cells ==> offset + cells == held,
        offset <= held,
{
}

/// What the operator is told when no GPU adapter can draw the wall.
pub open spec fn no_adapter_text() -> Seq<char> {
    "no GPU adapter this build can draw on \u{2014} the wall cannot open"@
}

/// The messages of the failed checks, in order.
pub open spec fn failures(checks: Seq<Result<(), ModelError>>) -> Seq<Seq<char>>
    decreases checks.len(),
{
    if checks.len() == 0 {
        Seq::empty()
    } else {
        let earlier = failures(checks.drop_last());
        match checks.last() {
            Ok(()) => earlier,
            Err(e) => earlier.push(model_error_text(e)),
        }
    }
}

/// Everything that keeps the booth from starting: the missing adapter first,
/// if it is missing, then each model message in order.
pub open spec fn blockers(adapter_found: bool, model_messages: Seq<Seq<char>>) -> Seq<Seq<char>> {
    if adapter_found {
        model_messages
    } else {
        seq![no_adapter_text()] + model_messages
    }
}

/// The messages of the models found absent, in order.
pub open spec fn absences(models: Seq<ModelSpec>, present: Seq<bool>) -> Seq<Seq<char>>
    decreases models.len(),
{
    if models.len() == 0 {
        Seq::empty()
    } else {
        let earlier = absences(models.drop_last(), present.drop_last());
        if present.last() {
            earlier
        } else {
            earlier.push(missing_model_text(models.last().spec_role(), models.last().spec_path()))
        }
    }
}

/// The characters of each message.
pub open spec fn texts(messages: Seq<String>) -> Seq<Seq<char>> {
    messages.map_values(|m: String| m@)
}

/// What the self-check found.
///
/// Only the problems are carried forward; the machine's provider and runtime
/// have already been reported by the time this exists. The model files and
/// the GPU adapter are kept apart: readiness is about the models, and the
/// adapter is a problem of its own that the booth reports beside them.
pub struct SelfCheck {
    adapter_found: bool,
    missing: Vec<String>,
}

impl View for SelfCheck {
    type V = Seq<Seq<char>>;

    /// One message per model check that failed.
    closed spec fn view(&self) -> Seq<Seq<char>> {
        texts(self.missing@)
    }
}

impl SelfCheck {
    /// Whether a GPU adapter that can draw the wall was found.
    pub closed spec fn spec_adapter_found(&self) -> bool {
        self.adapter_found
    }

    /// The self-check's findings from what was checked: whether a GPU adapter
    /// was found, and how each model's presence check came out.
    pub fn from_checks(adapter_found: bool, checks: &Vec<Result<(), ModelError>>) -> (r: Self)
        ensures
            r@ == failures(checks@),
            r.spec_adapter_found() == adapter_found,
    {
        let mut missing: Vec<String> = Vec::new();
        let mut i: usize = 0;
        while i < checks.len()
            invariant
                i <= checks@.len(),
                texts(missing@) == failures(checks@.take(i as int)),
            decreases checks@.len() - i,
        {
            assert(checks@.take(i + 1).drop_last() =~= checks@.take(i as int));
            let ghost before = missing@;
            match &checks[i] {
                Ok(()) => {},
                Err(error) => {
                    let text = error.to_string();
                    missing.push(text);
                    assert(texts(missing@) =~= texts(before).push(model_error_text(*error)));
                },
            }
            i = i + 1;
            assert(texts(missing@) =~= failures(checks@.take(i as int)));
        }
        assert(checks@.take(checks@.len() as int) =~= checks@);
        SelfCheck { adapter_found, missing }
    }

    /// Checks every configured model for its file.
    ///
    /// Nothing here panics or stops early: a booth with a missing model
    /// should still tell the operator everything it knows. Which files are
    /// on disk is the disk's answer; whatever it is, each model found absent
    /// is reported, in order.
    pub fn assess(adapter_found: bool, models: &Vec<ModelSpec>) -> (r: Self)
        ensures
            r.spec_adapter_found() == adapter_found,
            exists|present: Seq<bool>|
                #![trigger absences(models@, present)]
                present.len() == models@.len() && r@ == absences(models@, present),
    {
        let mut checks: Vec<Result<(), ModelError>> = Vec::new();
        let ghost mut present: Seq<bool> = Seq::empty();
        let mut i: usize = 0;
        while i < models.len()
            invariant
                i <= models@.len(),
                present.len() == i,
                checks@.len() == i,
                failures(checks@) == absences(models@.take(i as int), present),
            decreases models@.len() - i,
        {
            let check = models[i].ensure_present();
            let ghost old_present = present;
            let ghost before = checks@;
            let ghost c = check;
            proof {
                assert(models@.take(i + 1).drop_last() =~= models@.take(i as int));
                present = present.push(c is Ok);
                assert(present.drop_last() =~= old_present);
            }
            checks.push(check);
            proof {
                assert(checks@.drop_last() =~= before);
                assert(models@.take(i + 1).last() == models@[i as int]);
                match c {
                    Ok(()) => {},
                    Err(e) => {
                        match e {
                            ModelError::Missing { role, path } => {
                                assert(model_error_text(e) == missing_model_text(
                                    models@[i as int].spec_role(),
                                    models@[i as int].spec_path(),
                                ));
                            },
                            _ => {},
                        }
                    },
                }
            }
            i = i + 1;
        }
        assert(models@.take(models@.len() as int) =~= models@);
        SelfCheck::from_checks(adapter_found, &checks)
    }

    /// Whether every configured model file is on disk.
    pub fn is_ready(&self) -> (r: bool)
        ensures
            r == (self@.len() == 0),
    {
        self.missing.len() == 0
    }

    /// One actionable message per absent model file.
    pub fn missing(&self) -> (r: &[String])
        ensures
            texts(r@) == self@,
    {
        self.missing.as_slice()
    }

    /// Whether a GPU adapter that can draw the wall was found.
    pub fn adapter_found(&self) -> (r: bool)
        ensures
            r == self.spec_adapter_found(),
    {
        self.adapter_found
    }

    /// Everything that keeps the booth from starting, in the order the
    /// operator is told it: the missing adapter first, then each absent model.
    /// Empty exactly when the booth can start.
    pub fn blockers(&self) -> (r: Vec<String>)
        ensures
            texts(r@) == blockers(self.spec_adapter_found(), self@),
    {
        let mut r: Vec<String> = Vec::new();
        if !self.adapter_found {
            r.push(
                string_of("no GPU adapter this build can draw on \u{2014} the wall cannot open"),
            );
        }
        let ghost head = texts(r@);
        assert(head =~= blockers(self.adapter_found, Seq::empty()));
        let mut i: usize = 0;
        while i < self.missing.len()
            invariant
                i <= self.missing@.len(),
                texts(r@) == head + texts(self.missing@.take(i as int)),
            decreases self.missing@.len() - i,
        {
            let ghost before = r@;
            let text = string_of(self.missing[i].as_str());
            r.push(text);
            assert(texts(r@) =~= texts(before).push(self.missing@[i as int]@));
            i = i + 1;
            assert(texts(self.missing@.take(i as int)) =~= texts(self.missing@.take(i - 1)).push(
                self.missing@[i - 1]@,
            ));
        }
        assert(self.missing@.take(self.missing@.len() as int) =~= self.missing@);
        assert(texts(r@) =~= blockers(self.adapter_found, self@));
        r
    }
}

/// One model's line in the self-check report: role and presence, each in a
/// column of its own, then path and identifier.
pub open spec fn describe_text(model: ModelSpec, present: bool) -> Seq<char> {
    padded_right(role_name(model.spec_role()), 8) + " "@ + padded_right(
        if present {
            "present"@
        } else {
            "MISSING"@
        },
        7,
    ) + " "@ + model.spec_path() + " (model id: "@ + model.spec_id() + ")"@
}

/// One model's report line, given whether its file was found.
pub fn describe_line(model: &ModelSpec, present: bool) -> (r: String)
    ensures
        r@ == describe_text(*model, present),
{
    let mut s = String::new();
    push_padded(&mut s, model.role().as_str(), 8);
    push_str(&mut s, " ");
    push_padded(&mut s, if present { "present" } else { "MISSING" }, 7);
    push_str(&mut s, " ");
    push_str(&mut s, model.path());
    push_str(&mut s, " (model id: ");
    push_str(&mut s, model.id().as_str());
    push_str(&mut s, ")");
    assert(s@ =~= describe_text(*model, present));
    s
}

/// One model's line in the report, looking on disk for its file.
pub fn describe(model: &ModelSpec) -> (r: String)
    ensures
        r@ == describe_text(*model, true) || r@ == describe_text(*model, false),
{
    let present = model.exists_on_disk();
    describe_line(model, present)
}

/// The models directory when configuration names none.
pub fn default_models_dir() -> (r: String)
    ensures
        r@ == "models"@,
{
    string_of("models")
}

/// The Corpus directory when configuration names none.
pub fn default_corpus_dir() -> (r: String)
    ensures
        r@ == "corpus"@,
{
    string_of("corpus")
}

/// Grid columns when configuration names none.
pub fn default_cols() -> (r: u32)
    ensures
        r == 5,
{
    5
}

/// Grid rows when configuration names none.
///
/// Twenty Cells with the default columns: above the smallest Grid the piece
/// shows, and small enough that a booth on an unknown machine comes up
/// without asking it for a thousand textures.
pub fn default_rows() -> (r: u32)
    ensures
        r == 4,
{
    4
}

/// The default Grid is one the piece shows.
pub proof fn lemma_default_grid_is_valid()
    ensures
        valid_grid(5, 4),
{
}

/// Resolves a configured directory, which may be absolute, against the
/// configuration file's own directory.
pub fn beside(base: &str, dir: &str) -> (r: String)
    ensures
        r@ == joined(base@, dir@),
{
    join_path(base, dir)
}

/// What `Path::parent` gives for `path`: everything before its last
/// component, or nothing when the path ends in a root or is empty.
pub uninterp spec fn parent_of(path: Seq<char>) -> Option<Seq<char>>;

/// The parent of `path`.
///
/// Calls `Path::parent` and converts the parent back into text, which is
/// always possible for a parent of UTF-8 text. Claims only that the result
/// depends on `path` alone.
#[verifier::external_body]
fn parent(path: &str) -> (r: Option<String>)
    ensures
        match r {
            Some(p) => parent_of(path@) == Some(p@),
            None => parent_of(path@) is None,
        },
{
    match std::path::Path::new(path).parent() {
        Some(dir) => match dir.to_str() {
            Some(text) => Some(text.to_owned()),
            None => None,
        },
        None => None,
    }
}

/// The directory relative paths in a configuration file resolve against:
/// the file's own directory, or the working directory when it has none.
pub open spec fn base_of(source: Seq<char>) -> Seq<char> {
    match parent_of(source) {
        Some(p) => p,
        None => "."@,
    }
}

/// The directory a configuration file's relative paths resolve against.
pub fn config_base(source: &str) -> (r: String)
    ensures
        r@ == base_of(source@),
{
    match parent(source) {
        Some(p) => p,
        None => string_of("."),
    }
}

/// Ways the configuration's entries fail to settle.
#[derive(Debug, Clone, PartialEq, Eq)]
pub enum SettingsError {
    /// A model entry is unusable.
    Model(ModelError),
    /// The Grid asked for is not one the piece shows.
    Grid(GridSpecError),
}

/// The configuration file's entries, resolved: directories against the
/// file's own directory, models against the models directory, the Grid
/// checked, the camera chosen.
#[derive(Debug, Clone, PartialEq, Eq)]
pub struct Settings {
    /// Where the fetched ONNX files are expected.
    pub models_dir: String,
    /// Where the Corpus lives.
    pub corpus_dir: String,
    /// The detector model.
    pub detector: ModelSpec,
    /// The embedder model.
    pub embedder: ModelSpec,
    /// The Grid the wall shows.
    pub grid: GridSpec,
    /// The camera the Shutter opens.
    pub camera: CameraSelector,
}

/// One model entry of the configuration file.
pub struct ModelEntry<'a> {
    /// ONNX file name, relative to the models directory unless absolute.
    pub file: &'a str,
    /// Overrides the identifier derived from the file name.
    pub id: Option<&'a str>,
}

/// The camera a configured device index asks for.
pub open spec fn selected_camera(index: Option<u32>) -> CameraSelector {
    match index {
        Some(i) => CameraSelector::Index(i),
        None => CameraSelector::Default,
    }
}

/// Whether a model settled as configuration says.
pub open spec fn settled_model(
    spec: ModelSpec,
    role: ModelRole,
    dir: Seq<char>,
    entry: ModelEntry,
) -> bool {
    &&& spec.spec_role() == role
    &&& spec.spec_path() == joined(dir, entry.file@)
    &&& Some(spec.spec_id()) == settled_id(entry.file@, text_of(entry.id))
}

/// Settles the configuration file's entries as if it had been read from
/// `source`.
///
/// Relative directories resolve against `source`'s own directory. The Grid is
/// checked first, then the detector, then the embedder; the first refusal is
/// the answer.
pub fn settle(
    source: &str,
    models_dir: &str,
    corpus_dir: &str,
    cols: u32,
    rows: u32,
    camera_index: Option<u32>,
    detector: ModelEntry,
    embedder: ModelEntry,
) -> (r: Result<Settings, SettingsError>)
    ensures
        ({
            let models = joined(base_of(source@), models_dir@);
            match r {
                Ok(settings) => {
                    &&& valid_grid(cols as int, rows as int)
                    &&& settings.grid.spec_cols() == cols
                    &&& settings.grid.spec_rows() == rows
                    &&& settings.models_dir@ == models
                    &&& settings.corpus_dir@ == joined(base_of(source@), corpus_dir@)
                    &&& settings.camera == selected_camera(camera_index)
                    &&& settled_model(settings.detector, ModelRole::Detector, models, detector)
                    &&& settled_model(settings.embedder, ModelRole::Embedder, models, embedder)
                },
                Err(SettingsError::Grid(_)) => !valid_grid(cols as int, rows as int),
                Err(SettingsError::Model(e)) => {
                    &&& valid_grid(cols as int, rows as int)
                    &&& if settled_id(detector.file@, text_of(detector.id)) is None {
                        match detector.id {
                            Some(_) => e == ModelError::EmptyModelId { role: ModelRole::Detector },
                            None => crate::model::is_unnamed_file(e, ModelRole::Detector, detector.file@),
                        }
                    } else {
                        &&& settled_id(embedder.file@, text_of(embedder.id)) is None
                        &&& match embedder.id {
                            Some(_) => e == ModelError::EmptyModelId { role: ModelRole::Embedder },
                            None => crate::model::is_unnamed_file(e, ModelRole::Embedder, embedder.file@),
                        }
                    }
                },
            }
        }),
{
    let base = config_base(source);
    let models = beside(base.as_str(), models_dir);
    let corpus = beside(base.as_str(), corpus_dir);
    let grid = match GridSpec::new(cols, rows) {
        Ok(grid) => grid,
        Err(e) => return Err(SettingsError::Grid(e)),
    };
    let camera = match camera_index {
        Some(index) => CameraSelector::Index(index),
        None => CameraSelector::Default,
    };
    let detector_spec = match ModelSpec::new(
        ModelRole::Detector,
        models.as_str(),
        detector.file,
        detector.id,
    ) {
        Ok(spec) => spec,
        Err(e) => return Err(SettingsError::Model(e)),
    };
    let embedder_spec = match ModelSpec::new(
        ModelRole::Embedder,
        models.as_str(),
        embedder.file,
        embedder.id,
    ) {
        Ok(spec) => spec,
        Err(e) => return Err(SettingsError::Model(e)),
    };
    Ok(
        Settings {
            models_dir: models,
            corpus_dir: corpus,
            detector: detector_spec,
            embedder: embedder_spec,
            grid,
            camera,
        },
    )
}

} // verus!
