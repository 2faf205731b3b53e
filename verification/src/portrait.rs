//! A Face's display crop, named by path.
//!
//! One Face, one portrait, one texture slot. The wall decodes on its own
//! schedule, and only for Faces the Window actually reaches, so a portrait is
//! the path of a file rather than its pixels.

use crate::grid::FaceId;
use crate::text::string_of;
use vstd::prelude::*;

verus! {

/// The width of one texture slot, in texels.
///
/// Large enough that a ten-Cell Grid on a 4K wall is not visibly soft, small
/// enough that a thousand of them is a few hundred megabytes rather than a few
/// gigabytes. It follows the 4:5 framing portraits are cropped at.
pub const SLOT_WIDTH: u32 = 256;

/// The height of one texture slot, in texels. See [`SLOT_WIDTH`].
pub const SLOT_HEIGHT: u32 = 320;

/// A Face's display crop, on disk.
#[derive(Debug, Clone, PartialEq, Eq)]
pub struct Portrait {
    face: FaceId,
    display_crop: String,
}

impl Portrait {
    /// Which Face this portrait shows, as a specification value.
    pub closed spec fn spec_face(self) -> FaceId {
        self.face
    }

    /// Where the display crop is, as a specification value.
    pub closed spec fn spec_display_crop(self) -> Seq<char> {
        self.display_crop@
    }

    /// Names the display crop belonging to `face`.
    pub fn new(face: FaceId, display_crop: &str) -> (r: Self)
        ensures
            r.spec_face() == face,
            r.spec_display_crop() == display_crop@,
    {
        Portrait { face, display_crop: string_of(display_crop) }
    }

    /// Which Face this portrait shows.
    pub fn face(&self) -> (r: FaceId)
        ensures
            r == self.spec_face(),
    {
        self.face
    }

    /// Where the display crop is on disk.
    pub fn display_crop(&self) -> (r: &str)
        ensures
            r@ == self.spec_display_crop(),
    {
        self.display_crop.as_str()
    }
}

} // verus!
