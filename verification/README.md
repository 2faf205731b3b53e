# aboutface

About:Face is a photo booth and a wall: a Visitor presses the Shutter, their
face is detected, aligned, embedded and stored in the Corpus, and the wall of
portraits is redrawn with them on it.

This crate is the verified core of the piece, written in Verus.

- `src/` is the library. Every function in it carries a `requires`/`ensures`
  contract that Verus proves: the Grid and the bijective Assignment of Faces
  onto it, the Window the wall shows, which portrait sits in which texture
  slot, the camera seam with a scriptable fake camera and the Shutter, the
  Corpus's on-disk layout, blob encoding and migration plan, model assets and
  execution providers, the shapes the vision graphs must have, the startup
  self-check and the settling of the configuration file. Laws that relate
  several calls (a second sync of the same crowd uploads nothing, a staying
  Face keeps its slot, a blob reads back what was written, two presses never
  share a name) are public proof functions beside the code they speak of.
- `tests/` exercises the library from outside.
- `app/` is the booth binary around the library: the camera driver, the ONNX
  models and the floating-point vision code, SQLite and the filesystem, the
  GPU wall, and configuration parsing.
