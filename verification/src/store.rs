//! How the Corpus lays a Face out on disk and in its database.
//!
//! One directory per Face, sharded a thousand Faces to a shard, so a path is
//! a pure function of a Face's identifier and nothing needs to record it. An
//! Embedding's values sit in one column as a blob of little-endian 32-bit
//! words, with the width stored beside it so a truncated blob is detectable
//! rather than silently a narrower Embedding. The schema is versioned from the
//! first row, and a database written by a newer build is refused.

use crate::grid::FaceId;
use crate::model::{join_path, joined};
use crate::text::{
    all_digits, decimal, decimal_value, lemma_zero_padded_digits, lemma_zero_padded_value,
    push_decimal, push_signed_decimal, push_str, push_zero_padded, signed_decimal, zero_padded,
};
use vstd::arithmetic::power::pow;
use vstd::prelude::*;

verus! {

/// The directory holding every Face's images.
pub const FACES_DIR: &'static str = "faces";

/// Faces per shard directory.
pub const SHARD_SIZE: u64 = 1000;

/// Which image a path refers to.
///
/// The aligned crop and the display crop are not interchangeable and never
/// become so: one is what the model saw, the other is what the wall shows.
#[derive(Debug, Clone, Copy, PartialEq, Eq, Structural)]
pub enum ImageKind {
    /// The full-quality frame the Capture produced. Re-embedding reads this.
    Original,
    /// The 112 by 112 crop the embedder saw.
    Aligned,
    /// The portrait the wall shows.
    Display,
}

/// The file name an image is stored under.
///
/// PNG throughout, including the original: a lossy re-encode would change
/// what a re-embed after a model change sees.
pub open spec fn image_file_name(kind: ImageKind) -> Seq<char> {
    match kind {
        ImageKind::Original => "original.png"@,
        ImageKind::Aligned => "aligned.png"@,
        ImageKind::Display => "display.png"@,
    }
}

impl ImageKind {
    /// The file name this image is stored under.
    pub fn file_name(self) -> (r: &'static str)
        ensures
            r@ == image_file_name(self),
    {
        match self {
            ImageKind::Original => "original.png",
            ImageKind::Aligned => "aligned.png",
            ImageKind::Display => "display.png",
        }
    }
}

/// The directory holding `face`'s images inside the Corpus at `root`:
/// `faces/`, then the shard (the identifier divided by a thousand, at least
/// four digits), then the identifier itself (at least six digits).
pub open spec fn face_dir_path(root: Seq<char>, face: FaceId) -> Seq<char> {
    joined(
        joined(joined(root, FACES_DIR@), zero_padded((face.0 / SHARD_SIZE) as nat, 4)),
        zero_padded(face.0 as nat, 6),
    )
}

/// A Face's directory is three components below the Corpus root: `faces`,
/// then a shard of digits spelling the identifier divided by a thousand, then
/// digits spelling the identifier itself.
pub proof fn law_face_dir_is_sharded_by_thousands(root: Seq<char>, face: FaceId)
    ensures
        exists|shard: Seq<char>, leaf: Seq<char>|
            {
                &&& face_dir_path(root, face) == joined(joined(joined(root, "faces"@), shard), leaf)
                &&& all_digits(shard) && shard.len() >= 4
                &&& decimal_value(shard) == face.0 / 1000
                &&& all_digits(leaf) && leaf.len() >= 6
                &&& decimal_value(leaf) == face.0
            },
{
    reveal_strlit("faces");
    let shard = zero_padded((face.0 / SHARD_SIZE) as nat, 4);
    let leaf = zero_padded(face.0 as nat, 6);
    lemma_zero_padded_value((face.0 / SHARD_SIZE) as nat, 4);
    lemma_zero_padded_value(face.0 as nat, 6);
    lemma_zero_padded_digits((face.0 / SHARD_SIZE) as nat, 4);
    lemma_zero_padded_digits(face.0 as nat, 6);
    assert(FACES_DIR@ == "faces"@);
    assert(face_dir_path(root, face) == joined(joined(joined(root, "faces"@), shard), leaf));
}

/// The directory holding `face`'s images, inside the Corpus at `root`.
pub fn face_dir(root: &str, face: FaceId) -> (r: String)
    ensures
        r@ == face_dir_path(root@, face),
{
    let faces = join_path(root, FACES_DIR);
    let mut shard = String::new();
    push_zero_padded(&mut shard, (face.0 / SHARD_SIZE) as u128, 4);
    assert(shard@ =~= zero_padded((face.0 / SHARD_SIZE) as nat, 4));
    let sharded = join_path(faces.as_str(), shard.as_str());
    let mut leaf = String::new();
    push_zero_padded(&mut leaf, face.0 as u128, 6);
    assert(leaf@ =~= zero_padded(face.0 as nat, 6));
    join_path(sharded.as_str(), leaf.as_str())
}

/// The path of one image inside a Face's directory.
///
/// The one place a file name is joined to a directory: writing and reading
/// agree because they call the same function.
pub fn in_dir(dir: &str, kind: ImageKind) -> (r: String)
    ensures
        r@ == joined(dir@, image_file_name(kind)),
{
    join_path(dir, kind.file_name())
}

/// A Face's identifier as SQLite stores it.
///
/// SQLite has no unsigned integer: a rowid is an `i64`, always positive, and
/// the round trip through `u64` is why every identifier crossing this
/// boundary goes through these two functions.
pub fn rowid(face: FaceId) -> (r: i64)
    ensures
        r == face.0 as i64,
        face.0 <= i64::MAX ==> r == face.0,
{
    face.0 as i64
}

/// A rowid as a Face's identifier.
pub fn face_id(rowid: i64) -> (r: FaceId)
    ensures
        r == FaceId(rowid as u64),
        rowid >= 0 ==> r.0 == rowid,
{
    FaceId(rowid as u64)
}

/// Every identifier SQLite can hand out comes back unchanged from a rowid.
pub proof fn lemma_rowid_round_trip(id: i64)
    requires
        id >= 0,
    ensures
        (FaceId(id as u64).0 as i64) == id,
{
}

/// The span between the Unix epoch and `time`, as `SystemTime::duration_since`
/// with the epoch reports it: `Ok` with the span for a time at or after the
/// epoch, `Err` with the span its error carries for a time before it.
pub uninterp spec fn since_epoch(time: std::time::SystemTime) -> Result<
    std::time::Duration,
    std::time::Duration,
>;

/// The whole milliseconds in `span`, as `Duration::as_millis` reports them.
pub uninterp spec fn millis_in(span: std::time::Duration) -> u128;

/// Where `time` lies relative to the Unix epoch: whether at or after it, and
/// by how many whole milliseconds.
pub open spec fn offset_from_epoch(time: std::time::SystemTime) -> (bool, u128) {
    match since_epoch(time) {
        Ok(span) => (true, millis_in(span)),
        Err(span) => (false, millis_in(span)),
    }
}

/// The span between the Unix epoch and `time`, on whichever side it falls.
///
/// Calls `SystemTime::duration_since` with the epoch; a time before the
/// epoch comes back as the span its error carries. Claims only that the
/// answer depends on `time` alone.
#[verifier::external_body]
fn span_since_epoch(time: &std::time::SystemTime) -> (r: Result<
    std::time::Duration,
    std::time::Duration,
>)
    ensures
        r == since_epoch(*time),
{
    match time.duration_since(std::time::UNIX_EPOCH) {
        Ok(span) => Ok(span),
        Err(before) => Err(before.duration()),
    }
}

/// The whole milliseconds in `span`.
///
/// Calls `Duration::as_millis`; claims only that the answer depends on
/// `span` alone.
#[verifier::external_body]
fn whole_millis(span: &std::time::Duration) -> (r: u128)
    ensures
        r == millis_in(*span),
{
    span.as_millis()
}

/// Where a wall-clock time lies relative to the Unix epoch: whether at or
/// after it, and by how many whole milliseconds.
fn epoch_offset(time: &std::time::SystemTime) -> (r: (bool, u128))
    ensures
        r == offset_from_epoch(*time),
{
    match span_since_epoch(time) {
        Ok(span) => (true, whole_millis(&span)),
        Err(span) => (false, whole_millis(&span)),
    }
}

/// Milliseconds on one side of the epoch as a signed count: the magnitude
/// truncated to 64 bits, negated for a time before the epoch.
pub fn signed_millis(after: bool, millis: u128) -> (r: i64)
    ensures
        r == if after {
            millis as i64
        } else {
            0i64.wrapping_sub(millis as i64)
        },
{
    let magnitude = millis as i64;
    if after {
        magnitude
    } else {
        0i64.wrapping_sub(magnitude)
    }
}

/// The signed millisecond count a wall-clock time is stored as: the
/// magnitude of its offset from the epoch truncated to 64 bits, negated for a
/// time before the epoch.
pub open spec fn unix_millis(time: std::time::SystemTime) -> i64 {
    let (after, millis) = offset_from_epoch(time);
    if after {
        millis as i64
    } else {
        0i64.wrapping_sub(millis as i64)
    }
}

/// Milliseconds since the Unix epoch, negative before it.
///
/// The Corpus records when a Visitor pressed the Shutter, and an installation
/// machine whose clock is wrong is not a reason to refuse the Capture, so a
/// time before the epoch round-trips rather than erroring.
pub fn to_unix_millis(time: std::time::SystemTime) -> (r: i64)
    ensures
        r == unix_millis(time),
{
    let (after, millis) = epoch_offset(&time);
    signed_millis(after, millis)
}

/// The time `UNIX_EPOCH + Duration::from_millis(millis)` gives.
pub uninterp spec fn epoch_plus(millis: u64) -> std::time::SystemTime;

/// The time `UNIX_EPOCH - Duration::from_millis(millis)` gives.
pub uninterp spec fn epoch_minus(millis: u64) -> std::time::SystemTime;

/// The time `millis` milliseconds after the epoch.
///
/// Adds `Duration::from_millis(millis)` to `UNIX_EPOCH`; on the Unix targets
/// this library is built for every such time is representable. The result
/// depends on `millis` alone, and lies that many whole milliseconds after the
/// epoch.
#[verifier::external_body]
fn after_epoch(millis: u64) -> (r: std::time::SystemTime)
    ensures
        r == epoch_plus(millis),
        offset_from_epoch(r) == (true, millis as u128),
{
    std::time::UNIX_EPOCH + std::time::Duration::from_millis(millis)
}

/// The time `millis` milliseconds before the epoch.
///
/// Subtracts `Duration::from_millis(millis)` from `UNIX_EPOCH`; on the Unix
/// targets this library is built for every such time is representable. The
/// result depends on `millis` alone and lies that many whole milliseconds
/// before the epoch; zero milliseconds before it is the epoch itself.
#[verifier::external_body]
fn before_epoch(millis: u64) -> (r: std::time::SystemTime)
    ensures
        r == epoch_minus(millis),
        offset_from_epoch(r) == (millis == 0, millis as u128),
{
    std::time::UNIX_EPOCH - std::time::Duration::from_millis(millis)
}

/// The inverse of [`to_unix_millis`]: the time it reads back is the count
/// it was given, on either side of the epoch.
pub fn from_unix_millis(millis: i64) -> (r: std::time::SystemTime)
    ensures
        r == if millis >= 0 {
            epoch_plus(millis as u64)
        } else {
            epoch_minus((0 - millis) as u64)
        },
        unix_millis(r) == millis,
{
    if millis >= 0 {
        let r = after_epoch(millis as u64);
        assert(((millis as u64) as u128) as i64 == millis) by (bit_vector)
            requires
                millis >= 0,
        ;
        r
    } else {
        let magnitude = (0i128 - millis as i128) as u64;
        let r = before_epoch(magnitude);
        assert(0i64.wrapping_sub((magnitude as u128) as i64) == millis) by (bit_vector)
            requires
                millis < 0,
                magnitude == (0i128 - millis as i128) as u64,
        ;
        r
    }
}

/// Bytes per stored value.
pub const VALUE_BYTES: usize = 4;

/// One 32-bit word as four little-endian bytes.
pub open spec fn le_bytes(word: u32) -> Seq<u8> {
    seq![
        (word % 256) as u8,
        ((word / 256) % 256) as u8,
        ((word / 65536) % 256) as u8,
        (word / 16777216) as u8,
    ]
}

/// The word four little-endian bytes spell.
pub open spec fn le_word(bytes: Seq<u8>) -> u32 {
    (bytes[0] + 256 * bytes[1] + 65536 * bytes[2] + 16777216 * bytes[3]) as u32
}

/// Words laid end to end as little-endian bytes.
pub open spec fn blob_of(words: Seq<u32>) -> Seq<u8>
    decreases words.len(),
{
    if words.len() == 0 {
        Seq::empty()
    } else {
        blob_of(words.drop_last()) + le_bytes(words.last())
    }
}

/// The words a blob of whole words spells.
pub open spec fn words_of(blob: Seq<u8>) -> Seq<u32> {
    Seq::new(blob.len() / 4, |i: int| le_word(blob.subrange(4 * i, 4 * i + 4)))
}

/// The four bytes of a word spell the word again.
pub proof fn lemma_le_round_trip(word: u32)
    ensures
        le_word(le_bytes(word)) == word,
{
    assert((word % 256) + 256 * ((word / 256) % 256) + 65536 * ((word / 65536) % 256) + 16777216 * (
    word / 16777216) == word) by (bit_vector);
}

/// A blob is four bytes per word, each word's bytes where its index says.
pub proof fn lemma_blob_layout(words: Seq<u32>)
    ensures
        blob_of(words).len() == 4 * words.len(),
        forall|i: int, k: int|
            0 <= i < words.len() && 0 <= k < 4 ==> #[trigger] blob_of(words)[4 * i + k]
                == le_bytes(words[i])[k],
    decreases words.len(),
{
    if words.len() > 0 {
        lemma_blob_layout(words.drop_last());
        let front = words.drop_last();
        assert forall|i: int, k: int|
            0 <= i < words.len() && 0 <= k < 4 implies #[trigger] blob_of(words)[4 * i + k]
                == le_bytes(words[i])[k] by {
            if i < words.len() - 1 {
                assert(blob_of(front)[4 * i + k] == le_bytes(front[i])[k]);
            }
        }
    }
}

/// Packing words and reading them back gives the same words.
pub proof fn lemma_blob_round_trip(words: Seq<u32>)
    ensures
        blob_of(words).len() == 4 * words.len(),
        words_of(blob_of(words)) == words,
{
    lemma_blob_layout(words);
    let blob = blob_of(words);
    assert forall|i: int| 0 <= i < words.len() implies #[trigger] words_of(blob)[i] == words[i] by {
        let bytes = blob.subrange(4 * i, 4 * i + 4);
        assert(bytes[0] == blob[4 * i + 0]);
        assert(bytes[1] == blob[4 * i + 1]);
        assert(bytes[2] == blob[4 * i + 2]);
        assert(bytes[3] == blob[4 * i + 3]);
        assert(bytes =~= le_bytes(words[i]));
        lemma_le_round_trip(words[i]);
    }
    assert(words_of(blob) =~= words);
}

/// Each word is stored as its little-endian bytes: byte `k` of word `i`
/// sits at `4 * i + k` and holds the word's `k`-th base-256 digit, least
/// significant first.
pub proof fn law_blob_is_little_endian(words: Seq<u32>)
    ensures
        blob_of(words).len() == 4 * words.len(),
        forall|i: int, k: int|
            0 <= i < words.len() && 0 <= k < 4 ==> #[trigger] blob_of(words)[4 * i + k] as int == (
            words[i] as int / pow(256, k as nat)) % 256,
{
    lemma_blob_layout(words);
    assert(pow(256, 0) == 1 && pow(256, 1) == 256 && pow(256, 2) == 65536 && pow(256, 3)
        == 16777216) by {
        reveal_with_fuel(pow, 4);
    }
    assert forall|i: int, k: int| 0 <= i < words.len() && 0 <= k < 4 implies #[trigger] blob_of(
        words,
    )[4 * i + k] as int == (words[i] as int / pow(256, k as nat)) % 256 by {
        assert(blob_of(words)[4 * i + k] == le_bytes(words[i])[k]);
        let w = words[i];
        assert(w / 16777216 < 256) by (bit_vector);
    }
}

/// A blob is read back word by word, each word the sum of its four bytes
/// weighted least significant first.
pub proof fn law_blob_is_read_little_endian(blob: Seq<u8>)
    ensures
        words_of(blob).len() == blob.len() / 4,
        forall|i: int|
            0 <= i < blob.len() / 4 ==> #[trigger] words_of(blob)[i] as int == blob[4 * i] * pow(
                256,
                0,
            ) + blob[4 * i + 1] * pow(256, 1) + blob[4 * i + 2] * pow(256, 2) + blob[4 * i + 3]
                * pow(256, 3),
{
    assert(pow(256, 0) == 1 && pow(256, 1) == 256 && pow(256, 2) == 65536 && pow(256, 3)
        == 16777216) by {
        reveal_with_fuel(pow, 4);
    }
    assert forall|i: int| 0 <= i < blob.len() / 4 implies #[trigger] words_of(blob)[i] as int
        == blob[4 * i] * pow(256, 0) + blob[4 * i + 1] * pow(256, 1) + blob[4 * i + 2] * pow(256, 2)
        + blob[4 * i + 3] * pow(256, 3) by {
        assert(4 * i + 4 <= blob.len()) by (nonlinear_arith)
            requires
                0 <= i < blob.len() / 4,
        ;
        let bytes = blob.subrange(4 * i, 4 * i + 4);
        assert(bytes[0] == blob[4 * i] && bytes[1] == blob[4 * i + 1] && bytes[2] == blob[4 * i + 2]
            && bytes[3] == blob[4 * i + 3]);
        let (b0, b1, b2, b3) = (bytes[0], bytes[1], bytes[2], bytes[3]);
        assert(b0 + 256 * b1 + 65536 * b2 + 16777216 * b3 <= u32::MAX) by (nonlinear_arith)
            requires
                b0 < 256,
                b1 < 256,
                b2 < 256,
                b3 < 256,
        ;
    }
}

/// Packs `words` into a blob, four little-endian bytes each.
///
/// The words are the bit patterns of an Embedding's 32-bit floats, so a
/// Corpus copied between machines reads the same on both.
pub fn encode(words: &[u32]) -> (r: Vec<u8>)
    ensures
        r@ == blob_of(words@),
{
    let mut blob: Vec<u8> = Vec::new();
    let mut i: usize = 0;
    while i < words.len()
        invariant
            i <= words@.len(),
            blob@ == blob_of(words@.take(i as int)),
        decreases words@.len() - i,
    {
        let word = words[i];
        assert(words@.take(i + 1).drop_last() =~= words@.take(i as int));
        blob.push((word % 256) as u8);
        blob.push(((word / 256) % 256) as u8);
        blob.push(((word / 65536) % 256) as u8);
        blob.push((word / 16777216) as u8);
        i = i + 1;
        assert(blob@ =~= blob_of(words@.take(i as int)));
    }
    assert(words@.take(words@.len() as int) =~= words@);
    blob
}

/// Unpacks a blob of exactly `dim` words.
///
/// `None` when the blob's length disagrees with `dim`: that is a corrupt row,
/// not an Embedding.
pub fn decode(blob: &[u8], dim: usize) -> (r: Option<Vec<u32>>)
    requires
        dim * VALUE_BYTES <= usize::MAX,
    ensures
        blob@.len() == dim * VALUE_BYTES <==> r is Some,
        r matches Some(words) ==> words@ == words_of(blob@),
{
    if blob.len() != dim * VALUE_BYTES {
        return None;
    }
    let mut words: Vec<u32> = Vec::new();
    let mut i: usize = 0;
    while i < dim
        invariant
            i <= dim,
            blob@.len() == 4 * dim,
            4 * dim <= usize::MAX,
            words@ == words_of(blob@).take(i as int),
        decreases dim - i,
    {
        let at = 4 * i;
        let word: u32 = blob[at] as u32 + 256 * (blob[at + 1] as u32) + 65536 * (blob[at + 2] as u32)
            + 16777216 * (blob[at + 3] as u32);
        proof {
            let bytes = blob@.subrange(at as int, at + 4);
            assert(bytes[0] == blob@[at as int] && bytes[1] == blob@[at + 1] && bytes[2] == blob@[at
                + 2] && bytes[3] == blob@[at + 3]);
            assert(words_of(blob@)[i as int] == word);
        }
        words.push(word);
        i = i + 1;
        assert(words@ =~= words_of(blob@).take(i as int));
    }
    assert(words_of(blob@).take(dim as int) =~= words_of(blob@));
    Some(words)
}

/// The schema version this build migrates to.
pub const SCHEMA_VERSION: u32 = 1;

/// The statements of the one migration so far: Faces and their Embeddings.
///
/// Embedding values are a blob rather than a table of rows: they are read
/// whole or not at all, and the layout stage loads every one of them at once.
/// The model identifier and the width are stored beside the blob because
/// changing models invalidates every Embedding and the width follows the ViT
/// size; neither may be inferred. A Face has no consent columns: Consent
/// Records arrive as their own table keyed on the Face.
pub const FACES_TABLE: &'static str = "CREATE TABLE face (
        id           INTEGER PRIMARY KEY,
        captured_at  INTEGER NOT NULL,
        model_id     TEXT    NOT NULL,
        dim          INTEGER NOT NULL,
        values_le    BLOB    NOT NULL
    );
    CREATE INDEX face_model_id ON face (model_id);";

/// Every migration, in order. Index `n` moves the schema from version `n` to
/// `n + 1`. Migrations are append-only: an existing entry is never edited,
/// because some installation's Corpus has already run it.
pub open spec fn migration_list() -> Seq<&'static str> {
    seq![FACES_TABLE]
}

/// Every migration, in order.
pub fn migrations() -> (r: Vec<&'static str>)
    ensures
        r@ == migration_list(),
{
    let r = vec![FACES_TABLE];
    assert(r@ =~= migration_list());
    r
}

/// There is exactly one migration per schema version.
pub proof fn lemma_migration_for_every_version()
    ensures
        migration_list().len() == SCHEMA_VERSION,
{
}

/// One migration to run: its statements, and the version it leaves behind.
#[derive(Debug, Clone, Copy, PartialEq, Eq)]
pub struct Migration {
    /// The version the database is at once the statements have run.
    pub to_version: u32,
    /// The statements, run in one transaction with the version bump.
    pub sql: &'static str,
}

/// The database was written by a newer build of the piece.
///
/// Migrations only go forwards. An older binary pointed at a newer Corpus
/// stops rather than writing rows the newer schema cannot read.
#[derive(Debug, Clone, Copy, PartialEq, Eq, Structural)]
pub struct SchemaTooNew {
    /// The version stamped in the database.
    pub found: u32,
    /// The version this build migrates to.
    pub understood: u32,
}

/// What brings a database at `version` up to [`SCHEMA_VERSION`]: every
/// migration from index `version` on, in order, each with the version it
/// leaves behind. Refused when the database is newer than this build.
///
/// Idempotent in effect: a database already at the current version has
/// nothing to run.
pub fn migration_plan(version: u32) -> (r: Result<Vec<Migration>, SchemaTooNew>)
    ensures
        version > SCHEMA_VERSION <==> r is Err,
        match r {
            Ok(plan) => {
                &&& plan@.len() == SCHEMA_VERSION - version
                &&& forall|k: int|
                    0 <= k < plan@.len() ==> (#[trigger] plan@[k]).to_version == version + k + 1
                        && plan@[k].sql == migration_list()[version + k]
            },
            Err(e) => e == SchemaTooNew { found: version, understood: SCHEMA_VERSION },
        },
{
    if version > SCHEMA_VERSION {
        return Err(SchemaTooNew { found: version, understood: SCHEMA_VERSION });
    }
    let all = migrations();
    let mut plan: Vec<Migration> = Vec::new();
    let mut index: usize = version as usize;
    while index < all.len()
        invariant
            version <= index <= all@.len(),
            all@ == migration_list(),
            plan@.len() == index - version,
            forall|k: int|
                0 <= k < plan@.len() ==> (#[trigger] plan@[k]).to_version == version + k + 1
                    && plan@[k].sql == migration_list()[version + k],
        decreases all@.len() - index,
    {
        plan.push(Migration { to_version: (index + 1) as u32, sql: all[index] });
        index = index + 1;
    }
    Ok(plan)
}

/// A stored row that no longer describes an Embedding.
#[derive(Debug, Clone, PartialEq, Eq)]
pub struct CorruptRow {
    /// The Face the inconsistency was found under.
    pub face: FaceId,
    /// What disagreed.
    pub detail: String,
}

/// The complaint about a recorded width that is not a width.
pub open spec fn bad_width_detail(dim: i64) -> Seq<char> {
    "recorded width "@ + signed_decimal(dim as int) + " is not a width"@
}

/// The complaint about a blob whose length disagrees with its width.
pub open spec fn bad_blob_detail(len: nat, dim: nat) -> Seq<char> {
    "embedding blob is "@ + decimal(len) + " bytes, expected "@ + decimal(dim * 4)
        + " for width "@ + decimal(dim)
}

/// The words of a stored Embedding, checked against its recorded width.
///
/// Refuses a negative width, or one this machine cannot hold, and a blob
/// whose length is not four bytes per recorded value. The words are the bit
/// patterns of the Embedding's values, which the caller checks are still a
/// unit vector.
pub fn stored_words(face: FaceId, dim: i64, values: &[u8]) -> (r: Result<Vec<u32>, CorruptRow>)
    requires
        0 <= dim <= usize::MAX ==> dim * 4 <= usize::MAX,
    ensures
        match r {
            Ok(words) => {
                &&& 0 <= dim <= usize::MAX
                &&& values@.len() == dim * 4
                &&& words@ == words_of(values@)
            },
            Err(e) => {
                &&& e.face == face
                &&& if dim < 0 || dim > usize::MAX {
                    e.detail@ == bad_width_detail(dim)
                } else {
                    &&& values@.len() != dim * 4
                    &&& e.detail@ == bad_blob_detail(values@.len(), dim as nat)
                }
            },
        },
{
    if dim < 0 || dim as u64 > usize::MAX as u64 {
        let mut s = String::new();
        push_str(&mut s, "recorded width ");
        push_signed_decimal(&mut s, dim);
        push_str(&mut s, " is not a width");
        assert(s@ =~= bad_width_detail(dim));
        return Err(CorruptRow { face, detail: s });
    }
    let width = dim as usize;
    match decode(values, width) {
        Some(words) => Ok(words),
        None => {
            let mut s = String::new();
            push_str(&mut s, "embedding blob is ");
            push_decimal(&mut s, values.len() as u128);
            push_str(&mut s, " bytes, expected ");
            push_decimal(&mut s, (width * VALUE_BYTES) as u128);
            push_str(&mut s, " for width ");
            push_decimal(&mut s, width as u128);
            assert(s@ =~= bad_blob_detail(values@.len(), dim as nat));
            Err(CorruptRow { face, detail: s })
        },
    }
}

} // verus!
