//! Where the ONNX files live and which model identifier each one carries.
//!
//! The files are fetched, never committed. Which DINOv2 ViT size the piece
//! runs is still open, so neither the file name nor the identifier may be a
//! constant: both come from configuration, and the identifier is derived from
//! the file name when configuration does not state one.

use crate::text::{push_str, string_of};
use vstd::prelude::*;

verus! {

/// Identifies the model that produced an Embedding.
///
/// Embeddings from different models live in different spaces and are never
/// compared, so this travels with every Embedding and every stored row.
#[derive(Debug, Clone, PartialEq, Eq, Hash)]
pub struct ModelId(String);

impl View for ModelId {
    type V = Seq<char>;

    closed spec fn view(&self) -> Seq<char> {
        self.0@
    }
}

impl ModelId {
    /// Names a model.
    pub fn new(id: &str) -> (r: Self)
        ensures
            r@ == id@,
    {
        ModelId(string_of(id))
    }

    /// The identifier as text.
    pub fn as_str(&self) -> (r: &str)
        ensures
            r@ == self@,
    {
        self.0.as_str()
    }

    /// A second copy of this identifier.
    pub fn duplicate(&self) -> (r: Self)
        ensures
            r@ == self@,
    {
        ModelId(string_of(self.0.as_str()))
    }
}

/// What a model does in the pipeline: YuNet detects and aligns, DINOv2 embeds.
#[derive(Debug, Clone, Copy, PartialEq, Eq, Structural, PartialOrd, Ord, Hash)]
pub enum ModelRole {
    /// Finds the face and the five landmarks alignment needs.
    Detector,
    /// Turns an aligned crop into an Embedding.
    Embedder,
}

/// A role's name as configuration and the self-check write it.
pub open spec fn role_name(role: ModelRole) -> Seq<char> {
    match role {
        ModelRole::Detector => "detector"@,
        ModelRole::Embedder => "embedder"@,
    }
}

impl ModelRole {
    /// The role's name as it appears in configuration and in the self-check.
    pub fn as_str(self) -> (r: &'static str)
        ensures
            r@ == role_name(self),
    {
        match self {
            ModelRole::Detector => "detector",
            ModelRole::Embedder => "embedder",
        }
    }

    /// The role's name, as a string of its own.
    pub fn to_string(&self) -> (r: String)
        ensures
            r@ == role_name(*self),
    {
        string_of(self.as_str())
    }
}

/// Ways a model asset can be unusable.
#[derive(Debug, Clone, PartialEq, Eq)]
pub enum ModelError {
    /// The configured file name carries no stem to derive an identifier from.
    UnnamedFile {
        /// Role whose file name is unusable.
        role: ModelRole,
        /// The offending file name.
        path: String,
    },
    /// Configuration supplied a blank model identifier.
    EmptyModelId {
        /// Role whose configured identifier is blank.
        role: ModelRole,
    },
    /// The ONNX file is not on disk. Fetching it is a documented procedure.
    Missing {
        /// Role whose file is absent.
        role: ModelRole,
        /// Where the file was expected.
        path: String,
    },
}

/// How the path `s` reads when written with Rust's `Debug` formatting for
/// paths: in double quotes, with double quotes, backslashes and control
/// characters escaped.
pub uninterp spec fn debug_path(s: Seq<char>) -> Seq<char>;

/// The path `s` in double quotes with Rust's escapes for paths.
///
/// Formats `Path::new(s)` with `{:?}`, the standard library's `Debug` for
/// `Path`. Claims only that the result is a function of the characters of
/// `s`.
#[verifier::external_body]
fn quoted_path(s: &str) -> (r: String)
    ensures
        r@ == debug_path(s@),
{
    format!("{:?}", std::path::Path::new(s))
}

/// The operator-facing sentence for a model error.
pub open spec fn model_error_text(error: ModelError) -> Seq<char> {
    match error {
        ModelError::UnnamedFile { role, path } => "the "@ + role_name(role) + " model file name "@
            + debug_path(path@) + " has no stem to derive a model id from"@,
        ModelError::EmptyModelId { role } => "the "@ + role_name(role)
            + " model id is empty; remove it to derive one from the file name"@,
        ModelError::Missing { role, path } => missing_model_text(role, path@),
    }
}

/// What the operator is told about a model file that is not on disk, and how
/// to fetch it.
pub open spec fn missing_model_text(role: ModelRole, path: Seq<char>) -> Seq<char> {
    "the "@ + role_name(role) + " model is missing: "@ + path
        + " does not exist \u{2014} fetch it with `scripts/fetch-models.sh` (see docs/models.md)"@
}

impl ModelError {
    /// What went wrong, and for missing files how to fix it.
    pub fn to_string(&self) -> (r: String)
        ensures
            r@ == model_error_text(*self),
    {
        let mut s = String::new();
        match self {
            ModelError::UnnamedFile { role, path } => {
                push_str(&mut s, "the ");
                push_str(&mut s, role.as_str());
                push_str(&mut s, " model file name ");
                let q = quoted_path(path.as_str());
                push_str(&mut s, q.as_str());
                push_str(&mut s, " has no stem to derive a model id from");
            },
            ModelError::EmptyModelId { role } => {
                push_str(&mut s, "the ");
                push_str(&mut s, role.as_str());
                push_str(&mut s, " model id is empty; remove it to derive one from the file name");
            },
            ModelError::Missing { role, path } => {
                push_str(&mut s, "the ");
                push_str(&mut s, role.as_str());
                push_str(&mut s, " model is missing: ");
                push_str(&mut s, path.as_str());
                push_str(
                    &mut s,
                    " does not exist \u{2014} fetch it with `scripts/fetch-models.sh` (see docs/models.md)",
                );
            },
        }
        assert(s@ =~= model_error_text(*self));
        s
    }
}

/// Whether a Unix path is absolute: it starts at the root.
pub open spec fn is_absolute(path: Seq<char>) -> bool {
    path.len() > 0 && path[0] == '/'
}

/// `file` resolved against `dir` the way `Path::join` does on Unix: an
/// absolute `file` replaces `dir`; otherwise one separator joins them unless
/// `dir` is empty or already ends in one.
pub open spec fn joined(dir: Seq<char>, file: Seq<char>) -> Seq<char> {
    if is_absolute(file) {
        file
    } else if dir.len() > 0 && dir.last() != '/' {
        dir + seq!['/'] + file
    } else {
        dir + file
    }
}

/// Joining onto an empty directory gives the file unchanged.
pub proof fn law_join_onto_empty_is_the_file(file: Seq<char>)
    ensures
        joined(Seq::empty(), file) == file,
{
    assert(Seq::<char>::empty() + file =~= file);
}

/// Joining a relative file keeps the directory in front and the file at the
/// end, with at most one separator between them, and only where the
/// directory neither is empty nor already ends in one; so a relative file
/// joined onto a relative directory stays relative.
pub proof fn law_join_relative(dir: Seq<char>, file: Seq<char>)
    requires
        !(file.len() > 0 && file[0] == '/'),
    ensures
        joined(dir, file).take(dir.len() as int) == dir,
        joined(dir, file).skip(joined(dir, file).len() - file.len()) == file,
        joined(dir, file).len() == dir.len() + file.len() || (joined(dir, file).len() == dir.len()
            + file.len() + 1 && dir.len() > 0 && dir.last() != '/' && joined(dir, file)[dir.len() as int]
            == '/'),
        dir.len() == 0 || dir.last() == '/' ==> joined(dir, file) == dir + file,
        !(dir.len() > 0 && dir[0] == '/') && !(file.len() > 0 && file[0] == '/') ==> !(joined(
            dir,
            file,
        ).len() > 0 && joined(dir, file)[0] == '/'),
{
    let j = joined(dir, file);
    if dir.len() > 0 && dir.last() != '/' {
        assert(j.take(dir.len() as int) =~= dir);
        assert(j.skip(j.len() - file.len()) =~= file);
    } else {
        assert(j.take(dir.len() as int) =~= dir);
        assert(j.skip(j.len() - file.len()) =~= file);
        if dir.len() == 0 {
            assert(j =~= file);
        }
    }
}

/// An absolute file replaces the directory.
pub proof fn law_join_absolute(dir: Seq<char>, file: Seq<char>)
    requires
        file.len() > 0 && file[0] == '/',
    ensures
        joined(dir, file) == file,
{
}

/// Resolves `file` against `dir`, as `Path::join` does on Unix.
pub fn join_path(dir: &str, file: &str) -> (r: String)
    ensures
        r@ == joined(dir@, file@),
{
    let file_len = file.unicode_len();
    if file_len > 0 && file.get_char(0) == '/' {
        return string_of(file);
    }
    let mut s = string_of(dir);
    let dir_len = dir.unicode_len();
    if dir_len > 0 && dir.get_char(dir_len - 1) != '/' {
        crate::text::push_char(&mut s, '/');
    }
    push_str(&mut s, file);
    assert(s@ =~= joined(dir@, file@));
    s
}

/// Whether `c` has the Unicode `White_Space` property: the tab, line-feed,
/// vertical-tab, form-feed and carriage-return controls, the space, the next
/// line control, the no-break space, the Ogham space mark, the en quad
/// through the hair space, the line and paragraph separators, the narrow
/// no-break space, the medium mathematical space and the ideographic space.
pub open spec fn white_space(c: char) -> bool {
    let code = c as u32;
    ||| 0x9 <= code <= 0xd
    ||| code == 0x20
    ||| code == 0x85
    ||| code == 0xa0
    ||| code == 0x1680
    ||| 0x2000 <= code <= 0x200a
    ||| code == 0x2028
    ||| code == 0x2029
    ||| code == 0x202f
    ||| code == 0x205f
    ||| code == 0x3000
}

/// Whether `c` is white space: the characters `char::is_whitespace` holds of.
fn is_whitespace(c: char) -> (r: bool)
    ensures
        r == white_space(c),
{
    let code = c as u32;
    (0x9 <= code && code <= 0xd) || code == 0x20 || code == 0x85 || code == 0xa0 || code
        == 0x1680 || (0x2000 <= code && code <= 0x200a) || code == 0x2028 || code == 0x2029
        || code == 0x202f || code == 0x205f || code == 0x3000
}

/// `s` without its leading white space.
pub open spec fn trim_start(s: Seq<char>) -> Seq<char>
    decreases s.len(),
{
    if s.len() > 0 && white_space(s[0]) {
        trim_start(s.drop_first())
    } else {
        s
    }
}

/// `s` without its trailing white space.
pub open spec fn trim_end(s: Seq<char>) -> Seq<char>
    decreases s.len(),
{
    if s.len() > 0 && white_space(s.last()) {
        trim_end(s.drop_last())
    } else {
        s
    }
}

/// `s` without white space at either end, as `str::trim` leaves it.
pub open spec fn trimmed(s: Seq<char>) -> Seq<char> {
    trim_end(trim_start(s))
}

/// `s` with the white space at both ends removed.
pub fn trim(s: &str) -> (r: String)
    ensures
        r@ == trimmed(s@),
{
    let chars = crate::text::chars_of(s);
    let n = chars.len();
    let mut i: usize = 0;
    assert(s@.subrange(0, n as int) =~= s@);
    while i < n && is_whitespace(chars[i])
        invariant
            i <= n,
            n == s@.len(),
            chars@ == s@,
            trim_start(s@) == trim_start(s@.subrange(i as int, n as int)),
        decreases n - i,
    {
        assert(s@.subrange(i as int, n as int).drop_first() =~= s@.subrange(i + 1, n as int));
        i = i + 1;
    }
    let ghost front = s@.subrange(i as int, n as int);
    assert(trim_start(front) == front);
    let mut j: usize = n;
    while j > i && is_whitespace(chars[j - 1])
        invariant
            i <= j <= n,
            n == s@.len(),
            chars@ == s@,
            front == s@.subrange(i as int, n as int),
            trim_end(front) == trim_end(s@.subrange(i as int, j as int)),
        decreases j - i,
    {
        assert(s@.subrange(i as int, j as int).drop_last() =~= s@.subrange(i as int, j - 1));
        j = j - 1;
    }
    assert(trim_end(s@.subrange(i as int, j as int)) == s@.subrange(i as int, j as int));
    let mut r = String::new();
    let mut k: usize = i;
    while k < j
        invariant
            i <= k <= j,
            j <= n,
            n == s@.len(),
            chars@ == s@,
            r@ == s@.subrange(i as int, k as int),
        decreases j - k,
    {
        crate::text::push_char(&mut r, chars[k]);
        k = k + 1;
        assert(r@ =~= s@.subrange(i as int, k as int));
    }
    r
}

/// What `Path::file_stem` gives for `path`: the last component's name
/// without its final extension, or nothing when there is no file name.
pub uninterp spec fn stem_of(path: Seq<char>) -> Option<Seq<char>>;

/// The file stem of `path`.
///
/// Calls `Path::file_stem` and converts the stem back into text, which is
/// always possible for a stem of UTF-8 text. Claims only that the result
/// depends on `path` alone.
#[verifier::external_body]
fn file_stem(path: &str) -> (r: Option<String>)
    ensures
        match r {
            Some(stem) => stem_of(path@) == Some(stem@),
            None => stem_of(path@) is None,
        },
{
    match std::path::Path::new(path).file_stem() {
        Some(stem) => match stem.to_str() {
            Some(text) => Some(text.to_owned()),
            None => None,
        },
        None => None,
    }
}

/// The identifier derived from a model file name: its trimmed stem, where it
/// has a non-blank one.
pub open spec fn derived_id(file: Seq<char>) -> Option<Seq<char>> {
    match stem_of(file) {
        Some(stem) => if trimmed(stem).len() > 0 {
            Some(trimmed(stem))
        } else {
            None
        },
        None => None,
    }
}

/// Whether `error` is the unnamed-file error for `role` and `file`.
pub open spec fn is_unnamed_file(error: ModelError, role: ModelRole, file: Seq<char>) -> bool {
    match error {
        ModelError::UnnamedFile { role: r, path } => r == role && path@ == file,
        _ => false,
    }
}

/// Whether `error` is the missing-file error for `role` and `path`.
pub open spec fn is_missing(error: ModelError, role: ModelRole, path: Seq<char>) -> bool {
    match error {
        ModelError::Missing { role: r, path: p } => r == role && p@ == path,
        _ => false,
    }
}

/// Derives a model identifier from a model file name: its stem, trimmed.
///
/// Deliberately mechanical. The ViT size lives in the file name and therefore
/// in the identifier, and nothing in the code has to know which sizes exist.
pub fn derive_model_id(role: ModelRole, file: &str) -> (r: Result<ModelId, ModelError>)
    ensures
        match r {
            Ok(id) => derived_id(file@) == Some(id@),
            Err(e) => derived_id(file@) is None && is_unnamed_file(e, role, file@),
        },
{
    match file_stem(file) {
        Some(stem) => {
            let id = trim(stem.as_str());
            if id.unicode_len() > 0 {
                return Ok(ModelId(id));
            }
        },
        None => {},
    }
    Err(ModelError::UnnamedFile { role, path: string_of(file) })
}

/// The identifier a model gets: the configured one, trimmed, or else the one
/// derived from its file name. `None` where neither is usable.
pub open spec fn settled_id(file: Seq<char>, id: Option<Seq<char>>) -> Option<Seq<char>> {
    match id {
        Some(given) => if trimmed(given).len() > 0 {
            Some(trimmed(given))
        } else {
            None
        },
        None => derived_id(file),
    }
}

/// The characters of an optional piece of text.
pub open spec fn text_of(text: Option<&str>) -> Option<Seq<char>> {
    match text {
        Some(t) => Some(t@),
        None => None,
    }
}

/// Whether `path` names a regular file on disk.
///
/// Calls `Path::is_file`. What is on disk can change between two calls, so
/// nothing is claimed about the answer.
#[verifier::external_body]
fn is_file(path: &str) -> bool {
    std::path::Path::new(path).is_file()
}

/// One model asset: where its ONNX file is and which identifier it carries.
///
/// The identifier is part of the store schema, not a runtime detail: changing
/// models invalidates every Embedding in the Corpus.
#[derive(Debug, Clone, PartialEq, Eq)]
pub struct ModelSpec {
    role: ModelRole,
    path: String,
    id: ModelId,
}

impl ModelSpec {
    /// What this model does, as a specification value.
    pub closed spec fn spec_role(self) -> ModelRole {
        self.role
    }

    /// Where the ONNX file is, as a specification value.
    pub closed spec fn spec_path(self) -> Seq<char> {
        self.path@
    }

    /// The model identifier, as a specification value.
    pub closed spec fn spec_id(self) -> Seq<char> {
        self.id@
    }

    /// Resolves a model's file against `dir` and settles its identifier.
    ///
    /// An absolute `file` is used as given; a relative one is joined onto
    /// `dir`. `id` overrides the derived identifier, which otherwise comes
    /// from the file's stem, so swapping `dinov2-small.onnx` for
    /// `dinov2-large.onnx` changes the identifier too.
    ///
    /// Refuses a blank `id`, and, where `id` is absent, a `file` with no stem
    /// to derive from.
    pub fn new(role: ModelRole, dir: &str, file: &str, id: Option<&str>) -> (r: Result<
        Self,
        ModelError,
    >)
        ensures
            r is Ok <==> settled_id(file@, text_of(id)) is Some,
            match r {
                Ok(spec) => {
                    &&& spec.spec_role() == role
                    &&& spec.spec_path() == joined(dir@, file@)
                    &&& Some(spec.spec_id()) == settled_id(file@, text_of(id))
                },
                Err(e) => match id {
                    Some(given) => e == ModelError::EmptyModelId { role },
                    None => is_unnamed_file(e, role, file@),
                },
            },
    {
        let path = join_path(dir, file);
        let id = match id {
            Some(given) => {
                let trimmed_id = trim(given);
                if trimmed_id.unicode_len() == 0 {
                    return Err(ModelError::EmptyModelId { role });
                }
                ModelId(trimmed_id)
            },
            None => derive_model_id(role, file)?,
        };
        Ok(ModelSpec { role, path, id })
    }

    /// What this model does in the pipeline.
    pub fn role(&self) -> (r: ModelRole)
        ensures
            r == self.spec_role(),
    {
        self.role
    }

    /// The resolved path to the ONNX file.
    pub fn path(&self) -> (r: &str)
        ensures
            r@ == self.spec_path(),
    {
        self.path.as_str()
    }

    /// The identifier stored alongside every Embedding this model produces.
    pub fn id(&self) -> (r: &ModelId)
        ensures
            r@ == self.spec_id(),
    {
        &self.id
    }

    /// Whether the ONNX file is on disk.
    pub fn exists_on_disk(&self) -> bool {
        is_file(self.path.as_str())
    }

    /// Checks the file is present.
    ///
    /// Refuses with [`ModelError::Missing`], which carries the fetch
    /// instructions, when the file is absent: a missing model is an
    /// operator's problem to fix, not a reason to panic.
    pub fn ensure_present(&self) -> (r: Result<(), ModelError>)
        ensures
            match r {
                Ok(()) => true,
                Err(e) => is_missing(e, self.spec_role(), self.spec_path()),
            },
    {
        if self.exists_on_disk() {
            Ok(())
        } else {
            Err(ModelError::Missing { role: self.role, path: string_of(self.path.as_str()) })
        }
    }
}

} // verus!
