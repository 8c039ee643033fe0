//! Catalog records and the scanner's per-file logic: media type detection,
//! stable identifiers, and attributes folded from filename tags.
use vstd::prelude::*;
use crate::tags::{opt_str_view, parse_filename_tokens, parse_spec, tags_view, Tag, TagKind, TagView};
use crate::text::{chars_of, copy_range, last_index_of, rfind_char, string_from_chars};

verus! {

/// Supported media types.
#[derive(Clone, Copy, Debug, PartialEq, Eq, Structural)]
pub enum MediaType {
    Image,
    Gif,
    Video,
    Audio,
    Pdf,
    Unknown,
}

impl Default for MediaType {
    fn default() -> (r: Self)
        ensures
            r == MediaType::Unknown,
    {
        MediaType::Unknown
    }
}

/// Pixel dimensions of an image or video.
#[derive(Clone, Copy, Debug, PartialEq, Eq, Structural)]
pub struct Dimensions {
    pub width: u32,
    pub height: u32,
}

/// An instant as seconds and nanoseconds since the Unix epoch, in UTC.
#[derive(Clone, Copy, Debug, PartialEq, Eq, Structural)]
pub struct Timestamp {
    pub seconds: i64,
    pub nanos: u32,
}

impl Timestamp {
    pub open spec fn wf(&self) -> bool {
        self.nanos < 1_000_000_000
    }
}

/// One catalog entry: a media file discovered on disk.
#[derive(Debug)]
pub struct MediaFile {
    pub id: String,
    pub relative_path: String,
    pub media_type: MediaType,
    pub tags: Vec<Tag>,
    /// Attribute name to value, folded from key/value tags; names are unique.
    pub attributes: Vec<(String, String)>,
    pub filesize: u64,
    pub dimensions: Option<Dimensions>,
    pub duration_ms: Option<u64>,
    pub thumbnail_path: Option<String>,
    pub hash: Option<String>,
    pub indexed_at: Timestamp,
}

fn clone_opt_string(o: &Option<String>) -> (r: Option<String>)
    ensures
        r == *o,
{
    match o {
        Some(v) => Some(v.clone()),
        None => None,
    }
}

fn clone_pairs(v: &Vec<(String, String)>) -> (r: Vec<(String, String)>)
    ensures
        r@ == v@,
{
    let mut out: Vec<(String, String)> = Vec::new();
    let mut i: usize = 0;
    while i < v.len()
        invariant
            i <= v.len(),
            out@ == v@.subrange(0, i as int),
        decreases v.len() - i,
    {
        let (a, b) = &v[i];
        out.push((a.clone(), b.clone()));
        i += 1;
        assert(out@ =~= v@.subrange(0, i as int));
    }
    assert(v@.subrange(0, v.len() as int) =~= v@);
    out
}

/// What a [`MediaFile`] holds, as mathematical values.
pub struct MediaFileView {
    pub id: Seq<char>,
    pub relative_path: Seq<char>,
    pub media_type: MediaType,
    pub tags: Seq<TagView>,
    pub attributes: Seq<(Seq<char>, Seq<char>)>,
    pub filesize: u64,
    pub dimensions: Option<Dimensions>,
    pub duration_ms: Option<u64>,
    pub thumbnail_path: Option<Seq<char>>,
    pub hash: Option<Seq<char>>,
    pub indexed_at: Timestamp,
}

impl View for MediaFile {
    type V = MediaFileView;

    open spec fn view(&self) -> MediaFileView {
        MediaFileView {
            id: self.id@,
            relative_path: self.relative_path@,
            media_type: self.media_type,
            tags: tags_view(self.tags@),
            attributes: pairs_view(self.attributes@),
            filesize: self.filesize,
            dimensions: self.dimensions,
            duration_ms: self.duration_ms,
            thumbnail_path: opt_str_view(self.thumbnail_path),
            hash: opt_str_view(self.hash),
            indexed_at: self.indexed_at,
        }
    }
}

/// The views of a sequence of records.
pub open spec fn media_view(v: Seq<MediaFile>) -> Seq<MediaFileView> {
    v.map_values(|m: MediaFile| m@)
}

impl Clone for MediaFile {
    fn clone(&self) -> (r: Self)
        ensures
            r@ == self@,
    {
        let tags = self.tags.clone();
        assert forall|i: int| 0 <= i < tags.len() implies tags@[i] == self.tags@[i] by {
            assert(cloned::<Tag>(self.tags[i], tags[i]));
        }
        assert(tags_view(tags@) =~= tags_view(self.tags@));
        MediaFile {
            id: self.id.clone(),
            relative_path: self.relative_path.clone(),
            media_type: self.media_type,
            tags,
            attributes: clone_pairs(&self.attributes),
            filesize: self.filesize,
            dimensions: self.dimensions,
            duration_ms: self.duration_ms,
            thumbnail_path: clone_opt_string(&self.thumbnail_path),
            hash: clone_opt_string(&self.hash),
            indexed_at: self.indexed_at,
        }
    }
}

pub open spec fn pairs_view(v: Seq<(String, String)>) -> Seq<(Seq<char>, Seq<char>)> {
    v.map_values(|p: (String, String)| (p.0@, p.1@))
}

/// The value of the first entry named `key`.
pub open spec fn attr_lookup(attrs: Seq<(Seq<char>, Seq<char>)>, key: Seq<char>) -> Option<
    Seq<char>,
>
    decreases attrs.len(),
{
    if attrs.len() == 0 {
        None
    } else if attrs[0].0 == key {
        Some(attrs[0].1)
    } else {
        attr_lookup(attrs.drop_first(), key)
    }
}

/// Attributes folded from key/value tags in order; the first value of a name wins.
pub open spec fn fold_attributes(tags: Seq<TagView>) -> Seq<(Seq<char>, Seq<char>)>
    decreases tags.len(),
{
    if tags.len() == 0 {
        seq![]
    } else {
        let prev = fold_attributes(tags.drop_last());
        let t = tags.last();
        if t.kind == TagKind::KeyValue && t.value is Some && attr_lookup(prev, t.name) is None {
            prev.push((t.name, t.value->0))
        } else {
            prev
        }
    }
}

/// No two entries share a name.
pub open spec fn unique_names(attrs: Seq<(Seq<char>, Seq<char>)>) -> bool {
    forall|i: int, j: int| 0 <= i < j < attrs.len() ==> attrs[i].0 != attrs[j].0
}

proof fn lemma_attr_lookup_push(attrs: Seq<(Seq<char>, Seq<char>)>, e: (Seq<char>, Seq<char>), key: Seq<char>)
    ensures
        attr_lookup(attrs.push(e), key) == (if attr_lookup(attrs, key) is Some {
            attr_lookup(attrs, key)
        } else if e.0 == key {
            Some(e.1)
        } else {
            None
        }),
    decreases attrs.len(),
{
    if attrs.len() > 0 {
        assert(attrs.push(e)[0] == attrs[0]);
        assert(attrs.push(e).drop_first() =~= attrs.drop_first().push(e));
        lemma_attr_lookup_push(attrs.drop_first(), e, key);
    } else {
        assert(attrs.push(e).drop_first() =~= attrs);
    }
}

proof fn lemma_attr_lookup_none(attrs: Seq<(Seq<char>, Seq<char>)>, key: Seq<char>)
    ensures
        attr_lookup(attrs, key) is None <==> forall|i: int| 0 <= i < attrs.len() ==> attrs[i].0 != key,
    decreases attrs.len(),
{
    if attrs.len() > 0 {
        lemma_attr_lookup_none(attrs.drop_first(), key);
        if attr_lookup(attrs, key) is None {
            assert forall|i: int| 0 <= i < attrs.len() implies attrs[i].0 != key by {
                if i > 0 {
                    assert(attrs[i] == attrs.drop_first()[i - 1]);
                }
            }
        }
    }
}

proof fn lemma_fold_unique(tags: Seq<TagView>)
    ensures
        unique_names(fold_attributes(tags)),
    decreases tags.len(),
{
    if tags.len() > 0 {
        let prev = fold_attributes(tags.drop_last());
        lemma_fold_unique(tags.drop_last());
        lemma_attr_lookup_none(prev, tags.last().name);
    }
}

/// Position of the first entry of `attrs` named `key`.
fn find_attribute(attrs: &Vec<(String, String)>, key: &String) -> (r: Option<usize>)
    ensures
        match r {
            Some(i) => i < attrs.len() && attr_lookup(pairs_view(attrs@), key@) == Some(
                attrs@[i as int].1@,
            ),
            None => attr_lookup(pairs_view(attrs@), key@) is None,
        },
{
    let ghost pv = pairs_view(attrs@);
    let mut i: usize = 0;
    assert(pv.subrange(0, pv.len() as int) =~= pv);
    while i < attrs.len()
        invariant
            i <= attrs.len(),
            pv == pairs_view(attrs@),
            attr_lookup(pv, key@) == attr_lookup(pv.subrange(i as int, pv.len() as int), key@),
        decreases attrs.len() - i,
    {
        let ghost rest = pv.subrange(i as int, pv.len() as int);
        assert(rest.drop_first() =~= pv.subrange(i + 1, pv.len() as int));
        if attrs[i].0 == *key {
            return Some(i);
        }
        i += 1;
    }
    None
}

/// Folds the key/value tags into an attribute list; the first value given
/// for a name wins.
pub fn attributes_from_tags(tags: &Vec<Tag>) -> (r: Vec<(String, String)>)
    ensures
        pairs_view(r@) == fold_attributes(tags_view(tags@)),
        unique_names(pairs_view(r@)),
{
    let ghost tv = tags_view(tags@);
    let mut out: Vec<(String, String)> = Vec::new();
    let mut i: usize = 0;
    assert(tv.subrange(0, 0) =~= Seq::<TagView>::empty());
    assert(pairs_view(out@) =~= seq![]);
    while i < tags.len()
        invariant
            i <= tags.len(),
            tv == tags_view(tags@),
            pairs_view(out@) == fold_attributes(tv.subrange(0, i as int)),
        decreases tags.len() - i,
    {
        let tag = &tags[i];
        assert(tv.subrange(0, i + 1).drop_last() =~= tv.subrange(0, i as int));
        assert(tv.subrange(0, i + 1).last() == tag@);
        if tag.kind == TagKind::KeyValue {
            match &tag.value {
                Some(v) => {
                    if find_attribute(&out, &tag.name).is_none() {
                        let ghost before = out@;
                        out.push((tag.name.clone(), v.clone()));
                        assert(pairs_view(out@) =~= pairs_view(before).push((tag.name@, v@)));
                    }
                },
                None => {},
            }
        }
        i += 1;
    }
    assert(tv.subrange(0, tags.len() as int) =~= tv);
    proof {
        lemma_fold_unique(tv);
    }
    out
}

/// Name for the SHA-1 digest of a byte string, as the `sha1` crate computes it.
pub uninterp spec fn sha1_of(data: Seq<u8>) -> Seq<u8>;

/// Relies on `sha1::Sha1` through `Digest::digest`: the 20-byte SHA-1 digest
/// of `data`.
#[verifier::external_body]
fn sha1_digest(data: &[u8]) -> (r: Vec<u8>)
    ensures
        r@ == sha1_of(data@),
        r@.len() == 20,
{
    <sha1::Sha1 as sha1::Digest>::digest(data).to_vec()
}

pub open spec fn hex_digits() -> Seq<char> {
    seq!['0', '1', '2', '3', '4', '5', '6', '7', '8', '9', 'a', 'b', 'c', 'd', 'e', 'f']
}

/// Lowercase hexadecimal, two digits per byte, high nibble first.
pub open spec fn hex_of(bytes: Seq<u8>) -> Seq<char>
    decreases bytes.len(),
{
    if bytes.len() == 0 {
        seq![]
    } else {
        let b = bytes.last();
        hex_of(bytes.drop_last()) + seq![hex_digits()[(b / 16) as int], hex_digits()[(b % 16) as int]]
    }
}

/// Lowercase hexadecimal encoding of `bytes`.
pub fn hex_encode(bytes: &[u8]) -> (r: String)
    ensures
        r@ == hex_of(bytes@),
{
    let digits = vec!['0', '1', '2', '3', '4', '5', '6', '7', '8', '9', 'a', 'b', 'c', 'd', 'e', 'f'];
    assert(digits@ =~= hex_digits());
    let mut out: Vec<char> = Vec::new();
    let mut i: usize = 0;
    assert(bytes@.subrange(0, 0) =~= Seq::<u8>::empty());
    while i < bytes.len()
        invariant
            i <= bytes.len(),
            digits@ == hex_digits(),
            out@ == hex_of(bytes@.subrange(0, i as int)),
        decreases bytes.len() - i,
    {
        let b = bytes[i];
        assert(bytes@.subrange(0, i + 1).drop_last() =~= bytes@.subrange(0, i as int));
        out.push(digits[(b / 16) as usize]);
        out.push(digits[(b % 16) as usize]);
        i += 1;
        assert(out@ =~= hex_of(bytes@.subrange(0, i as int)));
    }
    assert(bytes@.subrange(0, bytes.len() as int) =~= bytes@);
    string_from_chars(out.as_slice())
}

/// The identifier of a record: the hex SHA-1 of its relative path's UTF-8
/// bytes, so it is stable across rescans of an unmoved file.
pub open spec fn stable_id_spec(relative: Seq<char>) -> Seq<char> {
    hex_of(sha1_of(vstd::utf8::encode_utf8(relative)))
}

/// Stable identifier of a relative path.
pub fn stable_id(relative: &str) -> (r: String)
    ensures
        r@ == stable_id_spec(relative@),
{
    let digest = sha1_digest(relative.as_bytes());
    hex_encode(digest.as_slice())
}

/// `path` with every `separator` replaced by `/`.
pub open spec fn with_forward_slashes(path: Seq<char>, separator: char) -> Seq<char> {
    path.map_values(|c: char| if c == separator { '/' } else { c })
}

/// Normalizes a relative path to forward slashes, whatever the host's
/// separator.
pub fn relative_to_string(path: &str, separator: char) -> (r: String)
    ensures
        r@ == with_forward_slashes(path@, separator),
{
    let chars = chars_of(path);
    let mut out: Vec<char> = Vec::new();
    let mut i: usize = 0;
    while i < chars.len()
        invariant
            i <= chars.len(),
            out@ == with_forward_slashes(chars@.subrange(0, i as int), separator),
        decreases chars.len() - i,
    {
        let c = chars[i];
        if c == separator {
            out.push('/');
        } else {
            out.push(c);
        }
        i += 1;
        assert(out@ =~= with_forward_slashes(chars@.subrange(0, i as int), separator));
    }
    assert(chars@.subrange(0, chars.len() as int) =~= chars@);
    string_from_chars(out.as_slice())
}

/// The last component of a `/`-separated path.
pub open spec fn file_name_of(path: Seq<char>) -> Seq<char> {
    path.subrange(last_index_of(path, '/') + 1, path.len() as int)
}

/// The extension of the last path component: what follows its last `.`,
/// unless that `.` is its first character or it has none.
pub open spec fn extension_of(path: Seq<char>) -> Option<Seq<char>> {
    let name = file_name_of(path);
    let dot = last_index_of(name, '.');
    if dot <= 0 {
        None
    } else {
        Some(name.subrange(dot + 1, name.len() as int))
    }
}

/// A character code with ASCII upper case folded to lower case.
pub open spec fn ascii_fold(c: char) -> u32 {
    if 'A' <= c && c <= 'Z' {
        (c as u32 + 32) as u32
    } else {
        c as u32
    }
}

/// `ext` equals the lowercase ASCII `word`, ignoring ASCII case.
pub open spec fn ext_is(ext: Seq<char>, word: Seq<char>) -> bool {
    ext.len() == word.len() && forall|i: int| 0 <= i < ext.len() ==> ascii_fold(ext[i]) == word[i] as u32
}

/// The fixed, case-insensitive extension table.
pub open spec fn media_type_of_extension(ext: Seq<char>) -> MediaType {
    if ext_is(ext, "jpg"@) || ext_is(ext, "jpeg"@) || ext_is(ext, "png"@) || ext_is(ext, "webp"@)
        || ext_is(ext, "bmp"@) || ext_is(ext, "heic"@) || ext_is(ext, "tiff"@) {
        MediaType::Image
    } else if ext_is(ext, "gif"@) {
        MediaType::Gif
    } else if ext_is(ext, "mp4"@) || ext_is(ext, "mov"@) || ext_is(ext, "mkv"@) || ext_is(
        ext,
        "webm"@,
    ) || ext_is(ext, "avi"@) {
        MediaType::Video
    } else if ext_is(ext, "mp3"@) || ext_is(ext, "wav"@) || ext_is(ext, "flac"@) || ext_is(
        ext,
        "aac"@,
    ) || ext_is(ext, "ogg"@) {
        MediaType::Audio
    } else if ext_is(ext, "pdf"@) {
        MediaType::Pdf
    } else {
        MediaType::Unknown
    }
}

pub open spec fn media_type_for(path: Seq<char>) -> MediaType {
    match extension_of(path) {
        Some(ext) => media_type_of_extension(ext),
        None => MediaType::Unknown,
    }
}

fn ext_matches(ext: &Vec<char>, word: &str) -> (r: bool)
    ensures
        r == ext_is(ext@, word@),
{
    let w = chars_of(word);
    if ext.len() != w.len() {
        return false;
    }
    let mut i: usize = 0;
    while i < ext.len()
        invariant
            i <= ext.len() == w.len(),
            w@ == word@,
            forall|j: int| 0 <= j < i ==> ascii_fold(ext@[j]) == w@[j] as u32,
        decreases ext.len() - i,
    {
        let c = ext[i];
        let folded: u32 = if 'A' <= c && c <= 'Z' {
            c as u32 + 32
        } else {
            c as u32
        };
        if folded != w[i] as u32 {
            return false;
        }
        i += 1;
    }
    true
}

/// The last component of `path`.
fn file_name(path: &Vec<char>) -> (r: Vec<char>)
    ensures
        r@ == file_name_of(path@),
{
    let start = match rfind_char(path, '/') {
        Some(i) => i + 1,
        None => 0,
    };
    copy_range(path, start, path.len())
}

/// Infers the media type from the extension of the path's last component,
/// ignoring ASCII case.
pub fn detect_media_type(path: &str) -> (r: MediaType)
    ensures
        r == media_type_for(path@),
{
    let name = file_name(&chars_of(path));
    let dot = match rfind_char(&name, '.') {
        Some(d) => d,
        None => {
            return MediaType::Unknown;
        },
    };
    if dot == 0 {
        return MediaType::Unknown;
    }
    let ext = copy_range(&name, dot + 1, name.len());
    if ext_matches(&ext, "jpg") || ext_matches(&ext, "jpeg") || ext_matches(&ext, "png")
        || ext_matches(&ext, "webp") || ext_matches(&ext, "bmp") || ext_matches(&ext, "heic")
        || ext_matches(&ext, "tiff") {
        MediaType::Image
    } else if ext_matches(&ext, "gif") {
        MediaType::Gif
    } else if ext_matches(&ext, "mp4") || ext_matches(&ext, "mov") || ext_matches(&ext, "mkv")
        || ext_matches(&ext, "webm") || ext_matches(&ext, "avi") {
        MediaType::Video
    } else if ext_matches(&ext, "mp3") || ext_matches(&ext, "wav") || ext_matches(&ext, "flac")
        || ext_matches(&ext, "aac") || ext_matches(&ext, "ogg") {
        MediaType::Audio
    } else if ext_matches(&ext, "pdf") {
        MediaType::Pdf
    } else {
        MediaType::Unknown
    }
}

/// The record the scanner builds for the file at `relative_path` (already
/// `/`-separated): its stable id, media type, and the tags and attributes
/// parsed from its file name.
pub open spec fn media_record_spec(relative_path: Seq<char>, filesize: u64, indexed_at: Timestamp) -> MediaFileView {
    let tags = parse_spec(file_name_of(relative_path)).tags;
    MediaFileView {
        id: stable_id_spec(relative_path),
        relative_path,
        media_type: media_type_for(relative_path),
        tags,
        attributes: fold_attributes(tags),
        filesize,
        dimensions: None,
        duration_ms: None,
        thumbnail_path: None,
        hash: None,
        indexed_at,
    }
}

/// Builds the catalog record of one scanned file.
pub fn build_media_file(relative_path: &str, filesize: u64, indexed_at: Timestamp) -> (r: MediaFile)
    ensures
        r@ == media_record_spec(relative_path@, filesize, indexed_at),
{
    let name = string_from_chars(file_name(&chars_of(relative_path)).as_slice());
    let parsed = parse_filename_tokens(name.as_str());
    let attributes = attributes_from_tags(&parsed.tags);
    MediaFile {
        id: stable_id(relative_path),
        relative_path: string_from_chars(chars_of(relative_path).as_slice()),
        media_type: detect_media_type(relative_path),
        tags: parsed.tags,
        attributes,
        filesize,
        dimensions: None,
        duration_ms: None,
        thumbnail_path: None,
        hash: None,
        indexed_at,
    }
}

/// Snapshot and error events emitted by the indexer loop.
#[derive(Debug)]
pub enum IndexEvent {
    Snapshot { files: Vec<MediaFile>, scanned_at: Timestamp, duration_ms: u64 },
    Error { message: String },
}

/// Configuration of the polling indexer.
#[derive(Debug, Clone)]
pub struct IndexerConfig {
    pub root: String,
    pub poll_interval_ms: u64,
}

/// Poll interval used unless configured otherwise: thirty seconds.
pub const DEFAULT_POLL_INTERVAL_MS: u64 = 30_000;

impl IndexerConfig {
    /// Polls `root` at the default interval.
    pub fn new(root: &str) -> (r: IndexerConfig)
        ensures
            r.root@ == root@,
            r.poll_interval_ms == DEFAULT_POLL_INTERVAL_MS,
    {
        IndexerConfig {
            root: string_from_chars(chars_of(root).as_slice()),
            poll_interval_ms: DEFAULT_POLL_INTERVAL_MS,
        }
    }

    /// The same configuration polling every `interval_ms` milliseconds.
    pub fn with_poll_interval(self, interval_ms: u64) -> (r: IndexerConfig)
        ensures
            r.root == self.root,
            r.poll_interval_ms == interval_ms,
    {
        IndexerConfig { poll_interval_ms: interval_ms, ..self }
    }
}

/// What the indexer loop does at a tick.
#[derive(Debug, Clone, Copy, PartialEq, Eq, Structural)]
pub enum TickAction {
    Scan,
    Stop,
}

/// Decisions of the polling indexer: when to scan and what each scan emits.
pub struct Indexer;

impl Indexer {
    /// At each tick the loop scans, unless nobody listens any more.
    pub fn on_tick(receiver_gone: bool) -> (r: TickAction)
        ensures
            r == (if receiver_gone {
                TickAction::Stop
            } else {
                TickAction::Scan
            }),
    {
        if receiver_gone {
            TickAction::Stop
        } else {
            TickAction::Scan
        }
    }

    /// The event one scan attempt emits: its records, or its error. A failed
    /// scan does not stop the loop.
    pub fn event_for(
        outcome: Result<Vec<MediaFile>, String>,
        scanned_at: Timestamp,
        duration_ms: u64,
    ) -> (r: IndexEvent)
        ensures
            match outcome {
                Ok(files) => r == IndexEvent::Snapshot { files, scanned_at, duration_ms },
                Err(message) => r == IndexEvent::Error { message },
            },
    {
        match outcome {
            Ok(files) => IndexEvent::Snapshot { files, scanned_at, duration_ms },
            Err(message) => IndexEvent::Error { message },
        }
    }
}

} // verus!
