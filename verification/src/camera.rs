//! The seam that keeps the hardware decision open.

use crate::frame::{Frame, FrameError};
use crate::text::{chars_of, decimal, occurs, occurs_in, push_decimal};
use vstd::prelude::*;

verus! {

/// Which camera to open.
#[derive(Debug, Clone, PartialEq, Eq, Default)]
pub enum CameraSelector {
    /// Whatever the platform considers the first camera.
    #[default]
    Default,
    /// A specific device index as the platform enumerates them.
    Index(u32),
}

/// How a selector reads in a report.
pub open spec fn selector_text(selector: CameraSelector) -> Seq<char> {
    match selector {
        CameraSelector::Default => "default camera"@,
        CameraSelector::Index(index) => "camera index "@ + decimal(index as nat),
    }
}

/// A fresh string holding a literal's text.
pub fn owned(text: &str) -> (r: String)
    ensures
        r@ == text@,
{
    String::from_str(text)
}

impl CameraSelector {
    /// The selector as an operator reads it.
    pub fn to_string(&self) -> (r: String)
        ensures
            r@ == selector_text(*self),
    {
        match self {
            CameraSelector::Default => owned("default camera"),
            CameraSelector::Index(index) => {
                let mut s = owned("camera index ");
                push_decimal(&mut s, *index as u128);
                s
            },
        }
    }

    /// An independent copy.
    pub fn duplicate(&self) -> (r: CameraSelector)
        ensures
            r == *self,
    {
        match self {
            CameraSelector::Default => CameraSelector::Default,
            CameraSelector::Index(index) => CameraSelector::Index(*index),
        }
    }
}

/// What resolved when a camera was opened.
#[derive(Debug, Clone, PartialEq, Eq)]
pub struct CameraDescription {
    /// Human-readable device name, or a stand-in when the backend has none.
    pub name: String,
    /// Which backend produced this camera: `"nokhwa/avfoundation"`, `"fake"`, ...
    pub backend: String,
}

impl CameraDescription {
    /// `name (backend)`, as the startup self-check prints it.
    pub fn to_string(&self) -> (r: String)
        ensures
            r@ == self.name@ + " ("@ + self.backend@ + ")"@,
    {
        let mut s = owned(self.name.as_str());
        s.append(" (");
        s.append(self.backend.as_str());
        s.append(")");
        s
    }
}

/// Ways camera access fails.
///
/// The field failures the booth actually suffers — no camera, a camera held
/// by something else, a camera yanked mid-run — are separate variants.
#[derive(Debug)]
#[non_exhaustive]
pub enum CameraError {
    /// No such device.
    NotFound { requested: CameraSelector },
    /// The device exists but is held by another process.
    Busy { device: String, message: String },
    /// The device went away after it had been opened.
    Disconnected { device: String, message: String },
    /// The operating system refused access.
    PermissionDenied { device: String, message: String },
    /// A frame was requested from a camera that is not open.
    NotOpen,
    /// A camera asked for warm-up frames produced none at all.
    NoFrames { device: String, message: String },
    /// The frame arrived but could not be turned into a [`Frame`].
    MalformedFrame(FrameError),
    /// Anything the backend reported that does not map to the cases above.
    Backend { operation: &'static str, message: String },
}

/// The sentence an operator reads for `error`.
pub open spec fn camera_error_text(error: CameraError) -> Seq<char> {
    match error {
        CameraError::NotFound { requested } => "no camera matching "@ + selector_text(requested),
        CameraError::Busy { device, message } => "camera "@ + device@ + " is busy: "@ + message@,
        CameraError::Disconnected { device, message } => "camera "@ + device@
            + " disconnected: "@ + message@,
        CameraError::PermissionDenied { device, message } => "camera access denied for "@
            + device@ + ": "@ + message@,
        CameraError::NotOpen => "camera is not open"@,
        CameraError::NoFrames { device, message } => "camera "@ + device@
            + " produced no frames: "@ + message@,
        CameraError::MalformedFrame(_) => "camera frame was malformed"@,
        CameraError::Backend { operation, message } => "camera backend failed during "@
            + operation@ + ": "@ + message@,
    }
}

/// Whether two errors are the same failure: the same variant, with the same
/// text in every field.
pub open spec fn same_error(a: CameraError, b: CameraError) -> bool {
    match (a, b) {
        (CameraError::NotFound { requested: x }, CameraError::NotFound { requested: y }) => x == y,
        (
            CameraError::Busy { device: d, message: m },
            CameraError::Busy { device: e, message: n },
        ) => d@ == e@ && m@ == n@,
        (
            CameraError::Disconnected { device: d, message: m },
            CameraError::Disconnected { device: e, message: n },
        ) => d@ == e@ && m@ == n@,
        (
            CameraError::PermissionDenied { device: d, message: m },
            CameraError::PermissionDenied { device: e, message: n },
        ) => d@ == e@ && m@ == n@,
        (CameraError::NotOpen, CameraError::NotOpen) => true,
        (
            CameraError::NoFrames { device: d, message: m },
            CameraError::NoFrames { device: e, message: n },
        ) => d@ == e@ && m@ == n@,
        (CameraError::MalformedFrame(x), CameraError::MalformedFrame(y)) => x == y,
        (
            CameraError::Backend { operation: o, message: m },
            CameraError::Backend { operation: p, message: n },
        ) => o == p && m@ == n@,
        _ => false,
    }
}

impl CameraError {
    /// An independent copy of the same failure.
    pub fn duplicate(&self) -> (r: CameraError)
        ensures
            same_error(r, *self),
    {
        match self {
            CameraError::NotFound { requested } => CameraError::NotFound {
                requested: requested.duplicate(),
            },
            CameraError::Busy { device, message } => CameraError::Busy {
                device: owned(device.as_str()),
                message: owned(message.as_str()),
            },
            CameraError::Disconnected { device, message } => CameraError::Disconnected {
                device: owned(device.as_str()),
                message: owned(message.as_str()),
            },
            CameraError::PermissionDenied { device, message } => CameraError::PermissionDenied {
                device: owned(device.as_str()),
                message: owned(message.as_str()),
            },
            CameraError::NotOpen => CameraError::NotOpen,
            CameraError::NoFrames { device, message } => CameraError::NoFrames {
                device: owned(device.as_str()),
                message: owned(message.as_str()),
            },
            CameraError::MalformedFrame(e) => CameraError::MalformedFrame(*e),
            CameraError::Backend { operation, message } => CameraError::Backend {
                operation: *operation,
                message: owned(message.as_str()),
            },
        }
    }

    /// The error as an operator reads it.
    pub fn to_string(&self) -> (r: String)
        ensures
            r@ == camera_error_text(*self),
    {
        match self {
            CameraError::NotFound { requested } => {
                let mut s = owned("no camera matching ");
                let what = requested.to_string();
                s.append(what.as_str());
                s
            },
            CameraError::Busy { device, message } => {
                let mut s = owned("camera ");
                s.append(device.as_str());
                s.append(" is busy: ");
                s.append(message.as_str());
                s
            },
            CameraError::Disconnected { device, message } => {
                let mut s = owned("camera ");
                s.append(device.as_str());
                s.append(" disconnected: ");
                s.append(message.as_str());
                s
            },
            CameraError::PermissionDenied { device, message } => {
                let mut s = owned("camera access denied for ");
                s.append(device.as_str());
                s.append(": ");
                s.append(message.as_str());
                s
            },
            CameraError::NotOpen => owned("camera is not open"),
            CameraError::NoFrames { device, message } => {
                let mut s = owned("camera ");
                s.append(device.as_str());
                s.append(" produced no frames: ");
                s.append(message.as_str());
                s
            },
            CameraError::MalformedFrame(_) => owned("camera frame was malformed"),
            CameraError::Backend { operation, message } => {
                let mut s = owned("camera backend failed during ");
                s.append(operation);
                s.append(": ");
                s.append(message.as_str());
                s
            },
        }
    }
}

/// What a caller can see of a camera between calls: whether it is open, and
/// how many frames it has handed out.
pub struct CameraStatus {
    /// Whether the stream is open.
    pub open: bool,
    /// How many frames the camera has handed out.
    pub grabs: usize,
}

/// A camera, with the platform API contained behind it.
///
/// This is how the rest of the system asks for a frame; implementations are
/// the application's (the real device) and [`crate::fake_camera::FakeCamera`].
/// Each call is one step: what it may answer, and the status it leaves the
/// camera in, are what the implementation says of that step.
pub trait Camera {
    /// What the camera shows between calls.
    spec fn status(&self) -> CameraStatus;

    /// Whether opening this camera may answer `r` and leave it at `after`.
    spec fn opens(&self, after: CameraStatus, r: Result<(), CameraError>) -> bool;

    /// Whether one grab from this camera may answer `r` and leave it at `after`.
    spec fn grabs(&self, after: CameraStatus, r: Result<Frame, CameraError>) -> bool;

    /// Whether closing this camera may answer `r` and leave it at `after`.
    spec fn closes(&self, after: CameraStatus, r: Result<(), CameraError>) -> bool;

    /// Whether `description` is what this camera says it is.
    spec fn describes(&self, description: CameraDescription) -> bool;

    /// Opens the device and starts its stream.
    fn open(&mut self) -> (r: Result<(), CameraError>)
        ensures
            old(self).opens(final(self).status(), r),
    ;

    /// Grabs exactly one frame.
    fn grab(&mut self) -> (r: Result<Frame, CameraError>)
        ensures
            old(self).grabs(final(self).status(), r),
    ;

    /// Stops the stream and releases the device. Closing a closed camera is
    /// not an error.
    fn close(&mut self) -> (r: Result<(), CameraError>)
        ensures
            old(self).closes(final(self).status(), r),
    ;

    /// What this camera is, for the startup self-check.
    fn describe(&self) -> (r: CameraDescription)
        ensures
            self.describes(r),
    ;
}

/// A boxed camera is still a camera, so the backend can be chosen at runtime:
/// each call is the boxed camera's own.
impl<C: Camera + ?Sized> Camera for Box<C> {
    open spec fn status(&self) -> CameraStatus {
        (**self).status()
    }

    open spec fn opens(&self, after: CameraStatus, r: Result<(), CameraError>) -> bool {
        (**self).opens(after, r)
    }

    open spec fn grabs(&self, after: CameraStatus, r: Result<Frame, CameraError>) -> bool {
        (**self).grabs(after, r)
    }

    open spec fn closes(&self, after: CameraStatus, r: Result<(), CameraError>) -> bool {
        (**self).closes(after, r)
    }

    open spec fn describes(&self, description: CameraDescription) -> bool {
        (**self).describes(description)
    }

    fn open(&mut self) -> (r: Result<(), CameraError>) {
        (**self).open()
    }

    fn grab(&mut self) -> (r: Result<Frame, CameraError>) {
        (**self).grab()
    }

    fn close(&mut self) -> (r: Result<(), CameraError>) {
        (**self).close()
    }

    fn describe(&self) -> (r: CameraDescription) {
        (**self).describe()
    }
}

/// Words a platform uses when a device is held by something else.
pub open spec fn busy_words() -> Seq<Seq<char>> {
    seq!["busy"@, "in use"@, "already open"@, "already in use"@]
}

/// Words a platform uses when access was refused.
pub open spec fn refusal_words() -> Seq<Seq<char>> {
    seq!["permission"@, "denied"@, "not authorized"@, "unauthorized"@, "authorization"@]
}

/// Words a platform uses when there is no such device.
pub open spec fn absence_words() -> Seq<Seq<char>> {
    seq!["no such"@, "not found"@, "does not exist"@, "nonexistent"@, "no device"@, "no camera"@]
}

/// Whether any of `words` occurs in `haystack`.
pub open spec fn mentions_any(haystack: Seq<char>, words: Seq<Seq<char>>) -> bool {
    exists|i: int| 0 <= i < words.len() && occurs_in(haystack, #[trigger] words[i])
}

/// The lower-case form of a string.
pub uninterp spec fn lowercase(s: Seq<char>) -> Seq<char>;

/// Whether a lower-cased platform message says the device is held elsewhere.
pub open spec fn says_busy(hay: Seq<char>) -> bool {
    occurs_in(hay, "busy"@) || occurs_in(hay, "in use"@) || occurs_in(hay, "already open"@)
        || occurs_in(hay, "already in use"@)
}

/// Whether a lower-cased platform message says access was refused.
pub open spec fn says_refused(hay: Seq<char>) -> bool {
    occurs_in(hay, "permission"@) || occurs_in(hay, "denied"@) || occurs_in(hay, "not authorized"@)
        || occurs_in(hay, "unauthorized"@) || occurs_in(hay, "authorization"@)
}

/// Whether a lower-cased platform message says there is no such device.
pub open spec fn says_absent(hay: Seq<char>) -> bool {
    occurs_in(hay, "no such"@) || occurs_in(hay, "not found"@) || occurs_in(hay, "does not exist"@)
        || occurs_in(hay, "nonexistent"@) || occurs_in(hay, "no device"@) || occurs_in(
        hay,
        "no camera"@,
    )
}

/// Every word a platform uses for a busy, refused or absent device is
/// recognised: a message that says one of them mentions the matching list.
pub proof fn law_platform_words_are_recognised(hay: Seq<char>)
    ensures
        says_busy(hay) ==> mentions_any(hay, busy_words()),
        says_refused(hay) ==> mentions_any(hay, refusal_words()),
        says_absent(hay) ==> mentions_any(hay, absence_words()),
        mentions_any(hay, busy_words()) ==> says_busy(hay),
        mentions_any(hay, refusal_words()) ==> says_refused(hay),
        mentions_any(hay, absence_words()) ==> says_absent(hay),
{
    let b = busy_words();
    assert(b[0] == "busy"@ && b[1] == "in use"@ && b[2] == "already open"@ && b[3]
        == "already in use"@);
    let f = refusal_words();
    assert(f[0] == "permission"@ && f[1] == "denied"@ && f[2] == "not authorized"@ && f[3]
        == "unauthorized"@ && f[4] == "authorization"@);
    let a = absence_words();
    assert(a[0] == "no such"@ && a[1] == "not found"@ && a[2] == "does not exist"@ && a[3]
        == "nonexistent"@ && a[4] == "no device"@ && a[5] == "no camera"@);
}

/// Lower-cases `s`.
///
/// Calls `str::to_lowercase`; the result is named [`lowercase`] of the input
/// and nothing more is claimed about the Unicode mapping it applies.
#[verifier::external_body]
fn to_lowercase(s: &str) -> (r: String)
    ensures
        r@ == lowercase(s@),
{
    s.to_lowercase()
}

/// Whether any word in `words` occurs in `haystack`.
fn mentions(haystack: &Vec<char>, words: &Vec<&'static str>) -> (r: bool)
    ensures
        r == (exists|i: int| 0 <= i < words@.len() && occurs_in(haystack@, #[trigger] words@[i]@)),
{
    let mut i: usize = 0;
    while i < words.len()
        invariant
            i <= words@.len(),
            forall|k: int| 0 <= k < i ==> !occurs_in(haystack@, #[trigger] words@[k]@),
        decreases words@.len() - i,
    {
        let word = chars_of(words[i]);
        if occurs(haystack, &word) {
            return true;
        }
        i = i + 1;
    }
    false
}

/// What an error message from a camera backend means to an operator.
///
/// Backends flatten every platform failure into a message string, so busy,
/// refused and absent devices are recognised by what the platform wrote, in
/// that order of precedence; anything else stays a backend failure carrying
/// the backend's own words.
pub fn classify_message(
    message: String,
    operation: &'static str,
    selector: &CameraSelector,
    device: &str,
) -> (r: CameraError)
    ensures
        ({
            let hay = lowercase(message@);
            if mentions_any(hay, busy_words()) {
                r matches CameraError::Busy { device: d, message: m } && d@ == device@ && m@
                    == message@
            } else if mentions_any(hay, refusal_words()) {
                r matches CameraError::PermissionDenied { device: d, message: m } && d@
                    == device@ && m@ == message@
            } else if mentions_any(hay, absence_words()) {
                r == CameraError::NotFound { requested: *selector }
            } else {
                r matches CameraError::Backend { operation: o, message: m } && o == operation
                    && m@ == message@
            }
        }),
        ({
            let hay = lowercase(message@);
            &&& says_busy(hay) ==> (r matches CameraError::Busy { device: d, message: m } && d@
                == device@ && m@ == message@)
            &&& !says_busy(hay) && says_refused(hay) ==> (
            r matches CameraError::PermissionDenied { device: d, message: m } && d@ == device@
                && m@ == message@)
            &&& !says_busy(hay) && !says_refused(hay) && says_absent(hay) ==> (r
                == CameraError::NotFound { requested: *selector })
            &&& !says_busy(hay) && !says_refused(hay) && !says_absent(hay) ==> (
            r matches CameraError::Backend { operation: o, message: m } && o == operation && m@
                == message@)
        }),
{
    proof {
        law_platform_words_are_recognised(lowercase(message@));
    }
    let lower = to_lowercase(message.as_str());
    let hay = chars_of(lower.as_str());
    let busy: Vec<&'static str> = vec!["busy", "in use", "already open", "already in use"];
    let refusal: Vec<&'static str> = vec![
        "permission",
        "denied",
        "not authorized",
        "unauthorized",
        "authorization",
    ];
    let absence: Vec<&'static str> = vec![
        "no such",
        "not found",
        "does not exist",
        "nonexistent",
        "no device",
        "no camera",
    ];
    proof {
        assert(busy@.map_values(|w: &str| w@) =~= busy_words());
        assert(refusal@.map_values(|w: &str| w@) =~= refusal_words());
        assert(absence@.map_values(|w: &str| w@) =~= absence_words());
    }
    let is_busy = mentions(&hay, &busy);
    proof {
        if is_busy {
            let i = choose|i: int| 0 <= i < busy@.len() && occurs_in(hay@, #[trigger] busy@[i]@);
            assert(busy_words()[i] == busy@[i]@);
        } else {
            assert forall|i: int| 0 <= i < busy_words().len() implies !occurs_in(
                hay@,
                #[trigger] busy_words()[i],
            ) by {
                assert(busy_words()[i] == busy@[i]@);
            }
        }
    }
    if is_busy {
        return CameraError::Busy { device: owned(device), message };
    }
    let is_refused = mentions(&hay, &refusal);
    proof {
        if is_refused {
            let i = choose|i: int|
                0 <= i < refusal@.len() && occurs_in(hay@, #[trigger] refusal@[i]@);
            assert(refusal_words()[i] == refusal@[i]@);
        } else {
            assert forall|i: int| 0 <= i < refusal_words().len() implies !occurs_in(
                hay@,
                #[trigger] refusal_words()[i],
            ) by {
                assert(refusal_words()[i] == refusal@[i]@);
            }
        }
    }
    if is_refused {
        return CameraError::PermissionDenied { device: owned(device), message };
    }
    let is_absent = mentions(&hay, &absence);
    proof {
        if is_absent {
            let i = choose|i: int|
                0 <= i < absence@.len() && occurs_in(hay@, #[trigger] absence@[i]@);
            assert(absence_words()[i] == absence@[i]@);
        } else {
            assert forall|i: int| 0 <= i < absence_words().len() implies !occurs_in(
                hay@,
                #[trigger] absence_words()[i],
            ) by {
                assert(absence_words()[i] == absence@[i]@);
            }
        }
    }
    if is_absent {
        return CameraError::NotFound { requested: selector.duplicate() };
    }
    CameraError::Backend { operation, message }
}

} // verus!
