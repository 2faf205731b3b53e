//! A [`Camera`] that needs no camera.
//!
//! Every later stage has to be exercisable on a machine with no webcam, so the
//! fake is part of the deliverable. Its failure modes are scripted rather
//! than simulated by luck: a camera that refuses to open, one that vanishes
//! after a number of frames, and a sensor that hands out black frames while
//! it settles.
//!
//! Photographs are read by the caller and handed over decoded, each with the
//! reason it could not be read where that happened; which entry a grab
//! replays, and what it does with a failure, is decided here.

use crate::camera::{owned, same_error, Camera, CameraDescription, CameraError, CameraStatus};
use crate::frame::{filled, rgb8_len, Frame, FrameError};
use crate::text::{decimal, push_decimal};
use vstd::prelude::*;

verus! {

/// Where a [`FakeCamera`]'s frames come from.
#[derive(Debug)]
pub enum Replay {
    /// Photographs, already read from disk, cycled through in order; an
    /// entry that could not be read carries the reason.
    Files(Vec<Result<Frame, String>>),
    /// A flat mid-grey frame, for tests that only care about the plumbing.
    Synthetic { width: u32, height: u32 },
}

/// What reading the fake sensor once yields.
pub enum Shot {
    /// A frame of this size and these pixels.
    Picture { width: u32, height: u32, pixels: Seq<u8> },
    /// The frame's dimensions describe no image.
    Malformed(FrameError),
    /// The entry could not be read; the backend failure carries this text.
    Unreadable(Seq<char>),
}

/// The grey a synthetic frame is filled with.
pub const SYNTHETIC_GREY: u8 = 128;

/// Positions on the fake sensor wrap at `2^32`, as a `u32` counter does.
pub open spec fn advance(position: nat, by: nat) -> nat {
    (position + by) % 0x1_0000_0000
}

/// Grab counts wrap at the width of `usize`.
pub open spec fn bump(count: nat) -> nat {
    if count + 1 > usize::MAX {
        0
    } else {
        count + 1
    }
}

/// The shot a synthetic sensor of this size yields.
pub open spec fn synthetic_shot(width: u32, height: u32) -> Shot {
    if width > 0 && height > 0 {
        Shot::Picture {
            width,
            height,
            pixels: Seq::new(rgb8_len(width as int, height as int) as nat, |i: int| SYNTHETIC_GREY),
        }
    } else {
        Shot::Malformed(FrameError::ZeroDimension { width, height })
    }
}

/// The shot a list of read photographs yields for entry `index`.
pub open spec fn files_shot(files: Seq<Result<Frame, String>>, index: nat) -> Shot {
    if files.len() == 0 {
        Shot::Unreadable("fake camera has no frames to replay"@)
    } else {
        match files[(index % files.len()) as int] {
            Ok(frame) => Shot::Picture {
                width: frame.spec_width(),
                height: frame.spec_height(),
                pixels: frame.spec_pixels(),
            },
            Err(reason) => Shot::Unreadable(reason@),
        }
    }
}

/// A replayed list wraps around: once every photograph has been handed out,
/// the next grab is the first one again, whatever the list holds.
pub proof fn law_replay_wraps_around(files: Seq<Result<Frame, String>>, index: nat)
    ensures
        files_shot(files, index + files.len()) == files_shot(files, index),
{
    if files.len() > 0 {
        vstd::arithmetic::div_mod::lemma_mod_add_multiples_vanish(index as int, files.len() as int);
    }
}

/// Whether a frame outcome is the one a shot describes.
pub open spec fn shot_matches(r: Result<Frame, CameraError>, shot: Shot) -> bool {
    match shot {
        Shot::Picture { width, height, pixels } => r matches Ok(f) && f.spec_width() == width
            && f.spec_height() == height && f.spec_pixels() == pixels,
        Shot::Malformed(e) => r matches Err(CameraError::MalformedFrame(got)) && got == e,
        Shot::Unreadable(text) => r matches Err(CameraError::Backend { operation, message })
            && operation == "grab" && message@ == text,
    }
}

/// A [`Camera`] that replays frames.
#[derive(Debug)]
pub struct FakeCamera {
    replay: Replay,
    open_result: Option<CameraError>,
    disconnect_after: Option<usize>,
    black_frames: u32,
    warmup_frames: u32,
    open: bool,
    grabs: usize,
    position: u32,
}

/// The observable state of a [`FakeCamera`].
pub struct FakeCameraState {
    /// Whether the camera is open.
    pub open: bool,
    /// How many frames have been handed out.
    pub grabs: nat,
    /// How many times the fake sensor has been read, for a grab or a warm-up.
    pub position: nat,
    /// Whether opening is scripted to fail.
    pub refuses_to_open: bool,
    /// After how many handed-out frames the camera disconnects.
    pub disconnect_after: Option<nat>,
    /// How many black frames the sensor hands out first.
    pub black_frames: nat,
    /// How many frames opening discards.
    pub warmup_frames: nat,
}

/// A closed camera with nothing scripted.
pub open spec fn fresh_state() -> FakeCameraState {
    FakeCameraState {
        open: false,
        grabs: 0,
        position: 0,
        refuses_to_open: false,
        disconnect_after: None,
        black_frames: 0,
        warmup_frames: 0,
    }
}

impl FakeCamera {
    #[verifier::type_invariant]
    closed spec fn inv(self) -> bool {
        match self.replay {
            Replay::Synthetic { width, height } => rgb8_len(width as int, height as int)
                <= usize::MAX,
            Replay::Files(_) => true,
        }
    }

    /// The camera's observable state.
    pub closed spec fn state(self) -> FakeCameraState {
        FakeCameraState {
            open: self.open,
            grabs: self.grabs as nat,
            position: self.position as nat,
            refuses_to_open: self.open_result is Some,
            disconnect_after: match self.disconnect_after {
                Some(n) => Some(n as nat),
                None => None,
            },
            black_frames: self.black_frames as nat,
            warmup_frames: self.warmup_frames as nat,
        }
    }

    /// The error opening is scripted to fail with, if any.
    pub closed spec fn scripted_open_error(self) -> Option<CameraError> {
        self.open_result
    }

    /// What the sensor yields for source entry `index`.
    pub closed spec fn source_shot(self, index: nat) -> Shot {
        match self.replay {
            Replay::Synthetic { width, height } => synthetic_shot(width, height),
            Replay::Files(files) => files_shot(files@, index),
        }
    }

    /// What the sensor yields the time it is read at `position`: the black
    /// frames first, in the shape of the frame each stands in for, then the
    /// source entries in order.
    pub open spec fn shot_at(self, position: nat) -> Shot {
        let black = self.state().black_frames;
        let source = self.source_shot(
            if position >= black {
                (position - black) as nat
            } else {
                0
            },
        );
        if position >= black {
            source
        } else {
            match source {
                Shot::Picture { width, height, pixels } => Shot::Picture {
                    width,
                    height,
                    pixels: Seq::new(pixels.len(), |i: int| 0u8),
                },
                other => other,
            }
        }
    }

    /// How many of the `count` reads starting at position `from` yield a
    /// picture.
    pub open spec fn pictures_from(self, from: nat, count: nat) -> nat
        decreases count,
    {
        if count == 0 {
            0
        } else {
            self.pictures_from(from, (count - 1) as nat) + if self.shot_at(
                advance(from, (count - 1) as nat),
            ) is Picture {
                1nat
            } else {
                0nat
            }
        }
    }

    /// Whether `other` reads the same sensor as `self`.
    pub open spec fn same_sensor(self, other: Self) -> bool {
        &&& forall|i: nat| #[trigger] self.source_shot(i) == other.source_shot(i)
        &&& self.state().black_frames == other.state().black_frames
    }

    /// Two cameras over the same replay and black frames read the same sensor.
    proof fn lemma_same_sensor(a: Self, b: Self)
        requires
            a.replay == b.replay,
            a.black_frames == b.black_frames,
        ensures
            a.same_sensor(b),
    {
    }

    /// Reading the same sensor is transitive.
    proof fn lemma_same_sensor_trans(a: Self, b: Self, c: Self)
        requires
            a.same_sensor(b),
            b.same_sensor(c),
        ensures
            a.same_sensor(c),
    {
        assert forall|i: nat| #[trigger] a.source_shot(i) == c.source_shot(i) by {
            assert(a.source_shot(i) == b.source_shot(i));
        }
    }

    /// Cameras reading the same sensor yield the same pictures.
    pub proof fn lemma_same_pictures(a: Self, b: Self, from: nat, count: nat)
        requires
            a.same_sensor(b),
        ensures
            a.pictures_from(from, count) == b.pictures_from(from, count),
        decreases count,
    {
        if count > 0 {
            Self::lemma_same_pictures(a, b, from, (count - 1) as nat);
            let p = advance(from, (count - 1) as nat);
            let black = a.state().black_frames;
            let index = if p >= black {
                (p - black) as nat
            } else {
                0
            };
            assert(a.source_shot(index) == b.source_shot(index));
        }
    }

    /// A camera over `replay`, closed, with nothing scripted.
    fn with_replay(replay: Replay) -> (r: Self)
        requires
            replay matches Replay::Synthetic { width, height } ==> rgb8_len(
                width as int,
                height as int,
            ) <= usize::MAX,
        ensures
            r.replay == replay,
            r.state() == fresh_state(),
    {
        FakeCamera {
            replay,
            open_result: None,
            disconnect_after: None,
            black_frames: 0,
            warmup_frames: 0,
            open: false,
            grabs: 0,
            position: 0,
        }
    }

    /// Replays the given photographs in order, cycling when they run out.
    ///
    /// Each entry is a decoded photograph, or the reason it could not be
    /// read; a real camera never runs out of frames, so neither does this one.
    pub fn replaying(files: Vec<Result<Frame, String>>) -> (r: Self)
        ensures
            r.state() == fresh_state(),
            forall|i: nat| #[trigger] r.source_shot(i) == files_shot(files@, i),
    {
        Self::with_replay(Replay::Files(files))
    }

    /// Returns the same flat mid-grey frame every time.
    pub fn still(width: u32, height: u32) -> (r: Self)
        requires
            rgb8_len(width as int, height as int) <= usize::MAX,
        ensures
            r.state() == fresh_state(),
            forall|i: nat| #[trigger] r.source_shot(i) == synthetic_shot(width, height),
    {
        Self::with_replay(Replay::Synthetic { width, height })
    }

    /// A camera that refuses to open, with the error of your choosing.
    pub fn failing_to_open(error: CameraError) -> (r: Self)
        ensures
            r.state() == (FakeCameraState { refuses_to_open: true, ..fresh_state() }),
            r.scripted_open_error() == Some(error),
            forall|i: nat| #[trigger] r.source_shot(i) == synthetic_shot(1, 1),
    {
        let camera = Self::still(1, 1);
        proof {
            use_type_invariant(&camera);
        }
        let r = FakeCamera { open_result: Some(error), ..camera };
        assert forall|i: nat| #[trigger] r.source_shot(i) == synthetic_shot(1, 1) by {
            assert(camera.source_shot(i) == synthetic_shot(1, 1));
        }
        r
    }

    /// Reports a disconnection once `grabs` frames have been handed out.
    pub fn disconnecting_after(self, grabs: usize) -> (r: Self)
        ensures
            r.state() == (FakeCameraState { disconnect_after: Some(grabs as nat), ..self.state() }),
            r.scripted_open_error() == self.scripted_open_error(),
            r.same_sensor(self),
    {
        proof {
            use_type_invariant(&self);
        }
        FakeCamera { disconnect_after: Some(grabs), ..self }
    }

    /// Hands out `count` pure-black frames before any real one, the way a
    /// real sensor does while auto-exposure converges.
    pub fn with_black_frames(self, count: u32) -> (r: Self)
        ensures
            r.state() == (FakeCameraState { black_frames: count as nat, ..self.state() }),
            r.scripted_open_error() == self.scripted_open_error(),
            forall|i: nat| #[trigger] r.source_shot(i) == self.source_shot(i),
    {
        proof {
            use_type_invariant(&self);
        }
        FakeCamera { black_frames: count, ..self }
    }

    /// Discards `count` frames when opened, as a real backend does.
    pub fn with_warmup_frames(self, count: u32) -> (r: Self)
        ensures
            r.state() == (FakeCameraState { warmup_frames: count as nat, ..self.state() }),
            r.scripted_open_error() == self.scripted_open_error(),
            r.same_sensor(self),
    {
        proof {
            use_type_invariant(&self);
        }
        FakeCamera { warmup_frames: count, ..self }
    }

    /// How many frames this camera has handed out.
    pub fn grabs(&self) -> (r: usize)
        ensures
            r == self.state().grabs,
            r == self.status().grabs,
    {
        self.grabs
    }

    /// Whether [`Camera::open`] has succeeded and [`Camera::close`] has not
    /// run since.
    pub fn is_open(&self) -> (r: bool)
        ensures
            r == self.state().open,
            r == self.status().open,
    {
        self.open
    }

    /// The frame for source entry `index`.
    fn source_frame(&self, index: u32) -> (r: Result<Frame, CameraError>)
        ensures
            shot_matches(r, self.source_shot(index as nat)),
    {
        proof {
            use_type_invariant(self);
        }
        match &self.replay {
            Replay::Synthetic { width, height } => {
                assert((*width as int) * (*height as int) <= rgb8_len(*width as int, *height as int))
                    by (nonlinear_arith);
                let count = (*width as usize) * (*height as usize) * 3;
                match Frame::from_rgb8(*width, *height, filled(SYNTHETIC_GREY, count)) {
                    Ok(frame) => Ok(frame),
                    Err(e) => Err(CameraError::MalformedFrame(e)),
                }
            },
            Replay::Files(files) => {
                if files.len() == 0 {
                    return Err(
                        CameraError::Backend {
                            operation: "grab",
                            message: owned("fake camera has no frames to replay"),
                        },
                    );
                }
                let at = (index as usize) % files.len();
                match &files[at] {
                    Ok(frame) => Ok(frame.clone()),
                    Err(reason) => Err(
                        CameraError::Backend { operation: "grab", message: owned(reason.as_str()) },
                    ),
                }
            },
        }
    }

    /// Pulls the next frame off the fake sensor, black ones first.
    fn replay_one(&mut self) -> (r: Result<Frame, CameraError>)
        ensures
            shot_matches(r, old(self).shot_at(old(self).state().position)),
            final(self).state() == (FakeCameraState {
                position: advance(old(self).state().position, 1),
                ..old(self).state()
            }),
            final(self).scripted_open_error() == old(self).scripted_open_error(),
            final(self).same_sensor(*old(self)),
    {
        proof {
            use_type_invariant(&*self);
        }
        let position = self.position;
        self.position = self.position.wrapping_add(1);
        let source_index = position.saturating_sub(self.black_frames);
        let frame = self.source_frame(source_index)?;
        if position >= self.black_frames {
            return Ok(frame);
        }
        Ok(frame.flooded(0))
    }
}

/// Whether the scripted disconnection has come due.
pub open spec fn disconnect_due(state: FakeCameraState) -> bool {
    match state.disconnect_after {
        Some(limit) => state.grabs >= limit,
        None => false,
    }
}

/// The text a scripted disconnection reports.
pub open spec fn disconnect_text(limit: nat) -> Seq<char> {
    "scripted disconnect after "@ + decimal(limit) + " frames"@
}

/// The text an unproductive warm-up reports.
pub open spec fn warmup_text(attempts: nat) -> Seq<char> {
    "no frame in "@ + decimal(attempts) + " warm-up attempts"@
}

impl FakeCamera {
    /// The name a fake camera reports for its replay.
    pub closed spec fn describe_name(self) -> Seq<char> {
        match self.replay {
            Replay::Files(files) => "replay of "@ + decimal(files@.len()) + " file(s)"@,
            Replay::Synthetic { width, height } => "synthetic "@ + decimal(width as nat) + "x"@
                + decimal(height as nat),
        }
    }

    /// Reads the sensor `count` times, as opening a real camera does while it
    /// settles, and reports how many of those reads yielded a frame.
    fn warm_up(&mut self, count: u32) -> (discarded: u32)
        ensures
            discarded == old(self).pictures_from(old(self).state().position, count as nat),
            final(self).state() == (FakeCameraState {
                position: advance(old(self).state().position, count as nat),
                ..old(self).state()
            }),
            final(self).scripted_open_error() == old(self).scripted_open_error(),
            final(self).same_sensor(*old(self)),
    {
        let ghost start = *self;
        let mut discarded: u32 = 0;
        let mut attempt: u32 = 0;
        while attempt < count
            invariant
                attempt <= count,
                discarded <= attempt,
                discarded == start.pictures_from(start.state().position, attempt as nat),
                self.state() == (FakeCameraState {
                    position: advance(start.state().position, attempt as nat),
                    ..start.state()
                }),
                self.scripted_open_error() == start.scripted_open_error(),
                self.same_sensor(start),
            decreases count - attempt,
        {
            let ghost before = *self;
            let shot = self.replay_one();
            proof {
                assert(before.shot_at(before.state().position) == start.shot_at(
                    advance(start.state().position, attempt as nat),
                ));
                assert(advance(advance(start.state().position, attempt as nat), 1) == advance(
                    start.state().position,
                    (attempt + 1) as nat,
                ));
            }
            if shot.is_ok() {
                discarded = discarded + 1;
            }
            attempt = attempt + 1;
        }
        discarded
    }
}

impl Camera for FakeCamera {
    /// Whether the camera is open, and how many frames it has handed out.
    open spec fn status(&self) -> CameraStatus {
        CameraStatus { open: self.state().open, grabs: self.state().grabs as usize }
    }

    /// Opening answers with the scripted error, if there is one, and leaves
    /// the camera as it was; otherwise it reads the warm-up frames, and fails,
    /// leaving the camera closed, only when a warm-up asked for frames and
    /// got none.
    open spec fn opens(&self, after: CameraStatus, r: Result<(), CameraError>) -> bool {
        if self.state().refuses_to_open {
            &&& r matches Err(e) && same_error(e, self.scripted_open_error()->0)
            &&& after == self.status()
        } else {
            let warmup = self.state().warmup_frames;
            let yielded = self.pictures_from(self.state().position, warmup);
            let fails = warmup > 0 && yielded == 0;
            &&& after == (CameraStatus { open: !fails, ..self.status() })
            &&& if fails {
                r matches Err(CameraError::NoFrames { device, message }) && device@ == "fake"@
                    && message@ == warmup_text(warmup)
            } else {
                r is Ok
            }
        }
    }

    /// A closed camera refuses; a scripted disconnection that has come due
    /// reports it; otherwise the grab is the next shot on the sensor, and a
    /// frame handed out is counted. Only a frame handed out changes what the
    /// camera shows.
    open spec fn grabs(&self, after: CameraStatus, r: Result<Frame, CameraError>) -> bool {
        if !self.state().open {
            &&& r matches Err(CameraError::NotOpen)
            &&& after == self.status()
        } else if disconnect_due(self.state()) {
            &&& r matches Err(CameraError::Disconnected { device, message }) && device@ == "fake"@
                && message@ == disconnect_text(self.state().disconnect_after->0)
            &&& after == self.status()
        } else {
            &&& shot_matches(r, self.shot_at(self.state().position))
            &&& after == (CameraStatus {
                grabs: if r is Ok {
                    bump(self.state().grabs) as usize
                } else {
                    self.status().grabs
                },
                ..self.status()
            })
        }
    }

    /// Closing always succeeds and leaves the camera closed.
    open spec fn closes(&self, after: CameraStatus, r: Result<(), CameraError>) -> bool {
        &&& r is Ok
        &&& after == (CameraStatus { open: false, ..self.status() })
    }

    /// `replay of N file(s)` or `synthetic WxH`, from the `fake` backend.
    open spec fn describes(&self, description: CameraDescription) -> bool {
        &&& description.name@ == self.describe_name()
        &&& description.backend@ == "fake"@
    }

    /// Opens the fake camera, unless it is scripted to refuse, and discards
    /// the warm-up frames. A camera scripted to refuse refuses every time and
    /// stays as it was; a warm-up that yields no frame at all leaves the
    /// camera closed.
    fn open(&mut self) -> (r: Result<(), CameraError>)
        ensures
            old(self).state().refuses_to_open ==> {
                &&& r matches Err(e) && same_error(e, old(self).scripted_open_error()->0)
                &&& final(self).state() == old(self).state()
            },
            !old(self).state().refuses_to_open ==> {
                let warmup = old(self).state().warmup_frames;
                let yielded = old(self).pictures_from(old(self).state().position, warmup);
                let fails = warmup > 0 && yielded == 0;
                &&& final(self).state() == (FakeCameraState {
                    open: !fails,
                    position: advance(old(self).state().position, warmup),
                    ..old(self).state()
                })
                &&& if fails {
                    r matches Err(CameraError::NoFrames { device, message }) && device@ == "fake"@
                        && message@ == warmup_text(warmup)
                } else {
                    r is Ok
                }
            },
            final(self).same_sensor(*old(self)),
            final(self).scripted_open_error() == old(self).scripted_open_error(),
    {
        proof {
            use_type_invariant(&*self);
        }
        match &self.open_result {
            Some(error) => {
                return Err(error.duplicate());
            },
            None => {},
        }
        self.open = true;
        let warmup = self.warmup_frames;
        let ghost opened = *self;
        let discarded = self.warm_up(warmup);
        proof {
            use_type_invariant(&*self);
            Self::lemma_same_sensor(opened, *old(self));
            Self::lemma_same_sensor_trans(*self, opened, *old(self));
            Self::lemma_same_pictures(opened, *old(self), old(self).state().position, warmup as nat);
        }
        if warmup > 0 && discarded == 0 {
            let ghost settled = *self;
            self.open = false;
            proof {
                Self::lemma_same_sensor(*self, settled);
                Self::lemma_same_sensor_trans(*self, settled, *old(self));
            }
            let mut message = owned("no frame in ");
            push_decimal(&mut message, warmup as u128);
            message.append(" warm-up attempts");
            return Err(CameraError::NoFrames { device: owned("fake"), message });
        }
        Ok(())
    }

    /// Hands out the next frame, unless the camera is closed or its scripted
    /// disconnection has come due.
    fn grab(&mut self) -> (r: Result<Frame, CameraError>)
        ensures
            final(self).same_sensor(*old(self)),
            final(self).scripted_open_error() == old(self).scripted_open_error(),
            !old(self).state().open ==> {
                &&& r matches Err(CameraError::NotOpen)
                &&& final(self).state() == old(self).state()
            },
            old(self).state().open && disconnect_due(old(self).state()) ==> {
                &&& r matches Err(CameraError::Disconnected { device, message }) && device@
                    == "fake"@ && message@ == disconnect_text(
                    old(self).state().disconnect_after->0,
                )
                &&& final(self).state() == old(self).state()
            },
            old(self).state().open && !disconnect_due(old(self).state()) ==> {
                &&& shot_matches(r, old(self).shot_at(old(self).state().position))
                &&& final(self).state() == (FakeCameraState {
                    position: advance(old(self).state().position, 1),
                    grabs: if r is Ok {
                        bump(old(self).state().grabs)
                    } else {
                        old(self).state().grabs
                    },
                    ..old(self).state()
                })
            },
    {
        proof {
            use_type_invariant(&*self);
        }
        if !self.open {
            return Err(CameraError::NotOpen);
        }
        match self.disconnect_after {
            Some(limit) => {
                if self.grabs >= limit {
                    let mut message = owned("scripted disconnect after ");
                    push_decimal(&mut message, limit as u128);
                    message.append(" frames");
                    return Err(CameraError::Disconnected { device: owned("fake"), message });
                }
            },
            None => {},
        }
        let ghost before = *self;
        let frame = self.replay_one()?;
        proof {
            use_type_invariant(&*self);
        }
        let ghost read = *self;
        self.grabs = self.grabs.wrapping_add(1);
        proof {
            Self::lemma_same_sensor(*self, read);
            Self::lemma_same_sensor_trans(*self, read, before);
        }
        Ok(frame)
    }

    /// Closes the fake camera; closing a closed one is not an error.
    fn close(&mut self) -> (r: Result<(), CameraError>)
        ensures
            r is Ok,
            final(self).state() == (FakeCameraState { open: false, ..old(self).state() }),
            final(self).same_sensor(*old(self)),
            final(self).scripted_open_error() == old(self).scripted_open_error(),
    {
        proof {
            use_type_invariant(&*self);
        }
        self.open = false;
        Ok(())
    }

    /// `replay of N file(s)` or `synthetic WxH`, from the `fake` backend.
    fn describe(&self) -> (r: CameraDescription)
        ensures
            r.name@ == self.describe_name(),
            r.backend@ == "fake"@,
    {
        let name = match &self.replay {
            Replay::Files(files) => {
                let mut s = owned("replay of ");
                push_decimal(&mut s, files.len() as u128);
                s.append(" file(s)");
                s
            },
            Replay::Synthetic { width, height } => {
                let mut s = owned("synthetic ");
                push_decimal(&mut s, *width as u128);
                s.append("x");
                push_decimal(&mut s, *height as u128);
                s
            },
        };
        CameraDescription { name, backend: owned("fake") }
    }
}

/// One call made on a camera, with its answer.
pub enum Step {
    /// `open` answered `r`.
    Opened(Result<(), CameraError>),
    /// `grab` answered `r`.
    Grabbed(Result<Frame, CameraError>),
    /// `close` answered `r`.
    Closed(Result<(), CameraError>),
}

/// Whether `step` is a call that takes `before` to `after`, as the camera's
/// own contract for that call states it: the answer and the status it leaves,
/// with the scripted open error kept.
pub open spec fn takes_step(before: FakeCamera, after: FakeCamera, step: Step) -> bool {
    &&& after.scripted_open_error() == before.scripted_open_error()
    &&& match step {
        Step::Opened(r) => before.opens(after.status(), r),
        Step::Grabbed(r) => Camera::grabs(&before, after.status(), r),
        Step::Closed(r) => before.closes(after.status(), r),
    }
}

/// Whether `cameras` is a run of calls: each camera is the one before it
/// after the matching step.
pub open spec fn run_of(cameras: Seq<FakeCamera>, steps: Seq<Step>) -> bool {
    &&& cameras.len() == steps.len() + 1
    &&& forall|i: int|
        0 <= i < steps.len() ==> #[trigger] takes_step(cameras[i], cameras[i + 1], steps[i])
}

/// A shorter run is a run too.
proof fn lemma_run_prefix(cameras: Seq<FakeCamera>, steps: Seq<Step>)
    requires
        run_of(cameras, steps),
        steps.len() > 0,
    ensures
        run_of(cameras.drop_last(), steps.drop_last()),
        takes_step(cameras[steps.len() - 1], cameras[steps.len() - 1 + 1], steps[steps.len() - 1]),
{
    let earlier = cameras.drop_last();
    assert forall|i: int| 0 <= i < steps.drop_last().len() implies #[trigger] takes_step(
        earlier[i],
        earlier[i + 1],
        steps.drop_last()[i],
    ) by {
        assert(takes_step(cameras[i], cameras[i + 1], steps[i]));
    }
    let n = steps.len() - 1;
    assert(takes_step(cameras[n], cameras[n + 1], steps[n]));
}

/// How many of `steps` handed out a frame.
pub open spec fn frames_handed_out(steps: Seq<Step>) -> nat
    decreases steps.len(),
{
    if steps.len() == 0 {
        0
    } else {
        frames_handed_out(steps.drop_last()) + if steps.last() matches Step::Grabbed(Ok(_)) {
            1nat
        } else {
            0nat
        }
    }
}

/// A fake camera counts exactly the frames it hands out: after any run of
/// calls, its count has grown by the number of grabs that answered with a
/// frame, wrapping at the width of `usize` as the counter does. Opening, with
/// its warm-up frames, closing, and grabs that fail leave the count alone.
pub proof fn law_grabs_count_frames_handed_out(cameras: Seq<FakeCamera>, steps: Seq<Step>)
    requires
        run_of(cameras, steps),
    ensures
        cameras.last().state().grabs == (cameras[0].state().grabs + frames_handed_out(steps)) as int
            % (usize::MAX as int + 1),
    decreases steps.len(),
{
    let m: int = usize::MAX as int + 1;
    if steps.len() == 0 {
        assert(cameras[0].state().grabs < m);
        vstd::arithmetic::div_mod::lemma_small_mod(cameras[0].state().grabs, m as nat);
    } else {
        let n = steps.len() - 1;
        lemma_run_prefix(cameras, steps);
        law_grabs_count_frames_handed_out(cameras.drop_last(), steps.drop_last());
        let before = cameras[n];
        let after = cameras[n + 1];
        let start = cameras[0].state().grabs;
        let earlier = frames_handed_out(steps.drop_last());
        assert(before.state().grabs == (start + earlier) as int % m);
        assert(before.state().grabs <= usize::MAX);
        assert(after.state().grabs <= usize::MAX);
        if steps.last() matches Step::Grabbed(Ok(_)) {
            assert(after.state().grabs == bump(before.state().grabs));
            vstd::arithmetic::div_mod::lemma_add_mod_noop((start + earlier) as int, 1, m);
            vstd::arithmetic::div_mod::lemma_small_mod(1, m as nat);
            if before.state().grabs + 1 < m {
                vstd::arithmetic::div_mod::lemma_small_mod((before.state().grabs + 1) as nat, m as nat);
            } else {
                vstd::arithmetic::div_mod::lemma_mod_self_0(m);
            }
        } else {
            assert(after.state().grabs == before.state().grabs);
        }
    }
}

/// Whether the last open or close among `steps` was an open that succeeded.
pub open spec fn opened_last(steps: Seq<Step>) -> bool
    decreases steps.len(),
{
    if steps.len() == 0 {
        false
    } else {
        match steps.last() {
            Step::Opened(r) => r is Ok,
            Step::Closed(_) => false,
            Step::Grabbed(_) => opened_last(steps.drop_last()),
        }
    }
}

/// A fake camera is open exactly when its most recent `open` succeeded and
/// `close` has not run since: after any run of calls from a closed camera,
/// grabs, failed ones and scripted disconnections included, leave it as the
/// last open or close did. A camera scripted to refuse never opens.
pub proof fn law_open_until_closed(cameras: Seq<FakeCamera>, steps: Seq<Step>)
    requires
        run_of(cameras, steps),
        !cameras[0].state().open,
    ensures
        cameras.last().state().open == opened_last(steps),
        cameras.last().state().refuses_to_open == cameras[0].state().refuses_to_open,
        cameras[0].state().refuses_to_open ==> !cameras.last().state().open,
    decreases steps.len(),
{
    if steps.len() > 0 {
        let n = steps.len() - 1;
        lemma_run_prefix(cameras, steps);
        law_open_until_closed(cameras.drop_last(), steps.drop_last());
        let before = cameras[n];
        let after = cameras[n + 1];
        assert(before.state().refuses_to_open == (before.scripted_open_error() is Some));
        assert(after.state().refuses_to_open == (after.scripted_open_error() is Some));
    }
}

/// A sample photograph in the repository at `repository`: the `samples`
/// directory at its root.
pub fn sample_path(repository: &str, file_name: &str) -> (r: String)
    ensures
        r@ == crate::model::joined(crate::model::joined(repository@, "samples"@), file_name@),
{
    let samples = crate::model::join_path(repository, "samples");
    crate::model::join_path(samples.as_str(), file_name)
}

} // verus!
