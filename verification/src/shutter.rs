//! The Shutter: one press, one Capture.
//!
//! The Shutter is the consent gesture, so it never grabs a frame on its own
//! initiative: every frame comes from an explicit exposure, and one exposure
//! is exactly one grab. Writing a pressed frame to disk is the application's
//! part; which directory it goes to, and the name it is written under, are
//! decided here.

use crate::camera::{Camera, CameraError};
use crate::frame::Frame;
use crate::text::{
    first_smaller_at, lemma_first_smaller_in_context, lemma_first_smaller_sorts_before,
    lemma_zero_padded_order, pow10, push_zero_padded, text_before, zero_padded,
};
use vstd::prelude::*;

verus! {

/// The standard library's I/O error, carried through unchanged.
#[verifier::external_type_specification]
#[verifier::external_body]
pub struct ExIoError(std::io::Error);

/// The image codec's error, carried through unchanged.
#[verifier::external_type_specification]
#[verifier::external_body]
pub struct ExImageError(image::ImageError);

/// A point in wall-clock time, carried through unchanged.
#[verifier::external_type_specification]
#[verifier::external_body]
pub struct ExSystemTime(std::time::SystemTime);

/// Cloning a wall-clock time copies it: `SystemTime` is `Copy`, and its
/// `Clone` is the copy.
pub assume_specification[ <std::time::SystemTime as Clone>::clone ](t: &std::time::SystemTime) -> (r: std::time::SystemTime)
    ensures
        r == *t,
;

/// Ways a Shutter press fails.
#[derive(Debug)]
#[non_exhaustive]
pub enum ShutterError {
    /// The camera could not be opened, or the frame never arrived.
    Camera(CameraError),
    /// The directory captures are written to could not be created.
    Directory { path: String, source: std::io::Error },
    /// A Shutter built to expose only was asked to write.
    NoDirectory,
    /// The frame arrived but could not be written.
    Write { path: String, source: image::ImageError },
}

/// One Capture that landed on disk.
#[derive(Debug, Clone, PartialEq, Eq)]
pub struct Capture {
    /// Where the original frame was written.
    pub path: String,
    /// Frame width in pixels.
    pub width: u32,
    /// Frame height in pixels.
    pub height: u32,
    /// When the Shutter was pressed.
    pub captured_at: std::time::SystemTime,
}

/// The name a Capture is written under: wall-clock milliseconds, then the
/// press's sequence number, so two presses in one millisecond never collide.
pub open spec fn capture_name(millis: nat, sequence: nat) -> Seq<char> {
    "capture-"@ + zero_padded(millis, 13) + "-"@ + zero_padded(sequence, 4) + ".png"@
}

/// Two presses in the same millisecond never collide: their names differ
/// whenever their sequence numbers do.
pub proof fn law_capture_names_differ(millis: nat, first: nat, second: nat)
    requires
        first != second,
    ensures
        capture_name(millis, first) != capture_name(millis, second),
{
    let prefix = "capture-"@ + zero_padded(millis, 13) + "-"@;
    let a = zero_padded(first, 4);
    let b = zero_padded(second, 4);
    crate::text::lemma_zero_padded_value(first, 4);
    crate::text::lemma_zero_padded_value(second, 4);
    if capture_name(millis, first) == capture_name(millis, second) {
        assert(capture_name(millis, first) =~= prefix + (a + ".png"@));
        assert(capture_name(millis, second) =~= prefix + (b + ".png"@));
        assert((prefix + (a + ".png"@)).skip(prefix.len() as int) =~= a + ".png"@);
        assert((prefix + (b + ".png"@)).skip(prefix.len() as int) =~= b + ".png"@);
        assert((a + ".png"@).take(a.len() as int) =~= a);
        assert((b + ".png"@).take(b.len() as int) =~= b);
        assert(a == b);
    }
}

/// Capture names sort in the order of the presses: a later millisecond, or
/// the same millisecond and a later sequence number, sorts after, as long as
/// the millisecond count fits its thirteen digits and the sequence number its
/// four.
pub proof fn law_capture_names_sort_by_press(
    millis: nat,
    sequence: nat,
    later_millis: nat,
    later_sequence: nat,
)
    requires
        millis < pow10(13),
        later_millis < pow10(13),
        sequence < pow10(4),
        later_sequence < pow10(4),
        millis < later_millis || (millis == later_millis && sequence < later_sequence),
    ensures
        text_before(
            capture_name(millis, sequence),
            capture_name(later_millis, later_sequence),
        ),
{
    let head = "capture-"@;
    let dash = "-"@;
    let png = ".png"@;
    let first = capture_name(millis, sequence);
    let second = capture_name(later_millis, later_sequence);
    if millis < later_millis {
        lemma_zero_padded_order(millis, later_millis, 13);
        let a = zero_padded(millis, 13);
        let b = zero_padded(later_millis, 13);
        let k = choose|k: int| first_smaller_at(a, b, k);
        let a_back = dash + zero_padded(sequence, 4) + png;
        let b_back = dash + zero_padded(later_sequence, 4) + png;
        lemma_first_smaller_in_context(a, b, k, head, a_back, b_back);
        assert(first =~= head + a + a_back);
        assert(second =~= head + b + b_back);
        lemma_first_smaller_sorts_before(first, second, head.len() + k);
    } else {
        lemma_zero_padded_order(sequence, later_sequence, 4);
        let a = zero_padded(sequence, 4);
        let b = zero_padded(later_sequence, 4);
        let k = choose|k: int| first_smaller_at(a, b, k);
        let front = head + zero_padded(millis, 13) + dash;
        lemma_first_smaller_in_context(a, b, k, front, png, png);
        assert(first =~= front + a + png);
        assert(second =~= front + b + png);
        lemma_first_smaller_sorts_before(first, second, front.len() + k);
    }
}

/// Names a Capture file.
pub fn capture_file_name(millis: u128, sequence: u64) -> (r: String)
    ensures
        r@ == capture_name(millis as nat, sequence as nat),
{
    let mut name = String::from_str("capture-");
    push_zero_padded(&mut name, millis, 13);
    name.append("-");
    push_zero_padded(&mut name, sequence as u128, 4);
    name.append(".png");
    name
}

/// The control a Visitor presses to consent to and trigger a Capture.
#[derive(Debug)]
pub struct Shutter<C: Camera> {
    camera: C,
    /// Where presses write; `None` for a Shutter that only exposes.
    directory: Option<String>,
    sequence: u64,
}

/// The camera's own answer inside a Shutter's result.
pub open spec fn camera_answer<T>(r: Result<T, ShutterError>) -> Result<T, CameraError> {
    match r {
        Ok(value) => Ok(value),
        Err(ShutterError::Camera(e)) => Err(e),
        Err(_) => Err(CameraError::NotOpen),
    }
}

/// The camera's own answer inside the first half of a press.
pub open spec fn press_answer(r: Result<(String, Frame), ShutterError>) -> Result<Frame, CameraError> {
    match r {
        Ok((_, frame)) => Ok(frame),
        Err(ShutterError::Camera(e)) => Err(e),
        Err(_) => Err(CameraError::NotOpen),
    }
}

/// Whether an error is the camera's own failure, passed through.
pub open spec fn from_camera<T>(r: Result<T, ShutterError>) -> bool {
    r matches Err(e) ==> e is Camera
}

impl<C: Camera> Shutter<C> {
    /// The camera behind this Shutter, as a specification value.
    pub closed spec fn spec_camera(self) -> C {
        self.camera
    }

    /// Where presses write, as a specification value.
    pub closed spec fn spec_directory(self) -> Option<Seq<char>> {
        match self.directory {
            Some(d) => Some(d@),
            None => None,
        }
    }

    /// How many Captures have been named so far.
    pub closed spec fn spec_sequence(self) -> nat {
        self.sequence as nat
    }

    /// Builds a Shutter over `camera`, writing Captures into `directory`.
    ///
    /// The directory is created on the first press, not here.
    pub fn new(camera: C, directory: String) -> (r: Self)
        ensures
            r.spec_camera() == camera,
            r.spec_directory() == Some(directory@),
            r.spec_sequence() == 0,
    {
        Shutter { camera, directory: Some(directory), sequence: 0 }
    }

    /// Builds a Shutter that only ever exposes; pressing it is
    /// [`ShutterError::NoDirectory`].
    pub fn over(camera: C) -> (r: Self)
        ensures
            r.spec_camera() == camera,
            r.spec_directory() == None::<Seq<char>>,
            r.spec_sequence() == 0,
    {
        Shutter { camera, directory: None, sequence: 0 }
    }

    /// Opens the camera, so the first press is not also the first exposure.
    ///
    /// The answer is the camera's own open, a failure passed through
    /// unchanged, and the camera is left as that one open leaves it.
    pub fn open(&mut self) -> (r: Result<(), ShutterError>)
        ensures
            from_camera(r),
            old(self).spec_camera().opens(final(self).spec_camera().status(), camera_answer(r)),
            final(self).spec_directory() == old(self).spec_directory(),
            final(self).spec_sequence() == old(self).spec_sequence(),
    {
        match self.camera.open() {
            Ok(done) => Ok(done),
            Err(e) => Err(ShutterError::Camera(e)),
        }
    }

    /// Grabs exactly one frame and hands it back, writing nothing.
    ///
    /// The answer is the camera's own single grab, a failure passed through
    /// unchanged, and the camera is left as that one grab leaves it.
    pub fn expose(&mut self) -> (r: Result<Frame, ShutterError>)
        ensures
            from_camera(r),
            old(self).spec_camera().grabs(final(self).spec_camera().status(), camera_answer(r)),
            final(self).spec_directory() == old(self).spec_directory(),
            final(self).spec_sequence() == old(self).spec_sequence(),
    {
        match self.camera.grab() {
            Ok(frame) => Ok(frame),
            Err(e) => Err(ShutterError::Camera(e)),
        }
    }

    /// The first half of a press: where it writes, then the one frame it
    /// writes. A Shutter that only exposes refuses with `NoDirectory` before
    /// any grab, leaving the camera untouched; otherwise the answer is the
    /// camera's own single grab, a failure passed through unchanged, with the
    /// directory beside the frame. Naming the Capture waits until the
    /// directory exists, so a press that fails before then uses up no
    /// sequence number.
    pub fn expose_for_press(&mut self) -> (r: Result<(String, Frame), ShutterError>)
        ensures
            final(self).spec_directory() == old(self).spec_directory(),
            final(self).spec_sequence() == old(self).spec_sequence(),
            old(self).spec_directory() is None ==> {
                &&& r matches Err(ShutterError::NoDirectory)
                &&& final(self).spec_camera() == old(self).spec_camera()
            },
            old(self).spec_directory() matches Some(d) ==> {
                &&& r matches Err(e) ==> e is Camera
                &&& old(self).spec_camera().grabs(
                    final(self).spec_camera().status(),
                    press_answer(r),
                )
                &&& r matches Ok((directory, _)) ==> directory@ == d
            },
    {
        let directory = match self.press_directory() {
            Ok(d) => d,
            Err(e) => {
                return Err(e);
            },
        };
        match self.camera.grab() {
            Ok(frame) => Ok((directory, frame)),
            Err(e) => Err(ShutterError::Camera(e)),
        }
    }

    /// Releases the camera.
    ///
    /// The answer is the camera's own close, a failure passed through
    /// unchanged, and the camera is left as that one close leaves it.
    pub fn close(&mut self) -> (r: Result<(), ShutterError>)
        ensures
            from_camera(r),
            old(self).spec_camera().closes(final(self).spec_camera().status(), camera_answer(r)),
            final(self).spec_directory() == old(self).spec_directory(),
            final(self).spec_sequence() == old(self).spec_sequence(),
    {
        match self.camera.close() {
            Ok(done) => Ok(done),
            Err(e) => Err(ShutterError::Camera(e)),
        }
    }

    /// The camera behind this Shutter, for the startup self-check.
    pub fn camera(&self) -> (r: &C)
        ensures
            *r == self.spec_camera(),
    {
        &self.camera
    }

    /// Where Captures are written, if this Shutter writes them at all.
    pub fn directory(&self) -> (r: Option<&str>)
        ensures
            match r {
                Some(d) => self.spec_directory() == Some(d@),
                None => self.spec_directory() is None,
            },
    {
        match &self.directory {
            Some(d) => Some(d.as_str()),
            None => None,
        }
    }

    /// Where the next press writes: `NoDirectory` for a Shutter that only
    /// exposes. Checked before any frame is grabbed, so a refused press
    /// costs no exposure.
    pub fn press_directory(&self) -> (r: Result<String, ShutterError>)
        ensures
            match r {
                Ok(d) => self.spec_directory() == Some(d@),
                Err(e) => self.spec_directory() is None && e is NoDirectory,
            },
    {
        match &self.directory {
            Some(d) => Ok(String::from_str(d.as_str())),
            None => Err(ShutterError::NoDirectory),
        }
    }

    /// Names the Capture being written now and counts it, so the next press
    /// gets the next sequence number.
    pub fn take_capture_name(&mut self, millis: u128) -> (r: String)
        requires
            old(self).spec_sequence() < u64::MAX,
        ensures
            r@ == capture_name(millis as nat, old(self).spec_sequence()),
            final(self).spec_sequence() == old(self).spec_sequence() + 1,
            final(self).spec_directory() == old(self).spec_directory(),
            final(self).spec_camera() == old(self).spec_camera(),
    {
        let name = capture_file_name(millis, self.sequence);
        self.sequence = self.sequence + 1;
        name
    }

    /// Whether another Capture can still be named.
    pub fn can_name_another(&self) -> (r: bool)
        ensures
            r == (self.spec_sequence() < u64::MAX),
    {
        self.sequence < u64::MAX
    }
}

} // verus!
