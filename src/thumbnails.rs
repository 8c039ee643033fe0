//! Thumbnail planning: sizes, where each thumbnail lives in the cache, which
//! generator a media type needs, and the arguments of the external tools.
use vstd::prelude::*;
use crate::cache::join_path;
use crate::indexer::MediaType;
use crate::text::concat;

verus! {

/// Thumbnail sizes served by the backend.
#[derive(Clone, Copy, Debug, PartialEq, Eq, Structural)]
pub enum ThumbnailSize {
    Small,
    Medium,
    Large,
}

pub open spec fn edge_of(size: ThumbnailSize) -> u32 {
    match size {
        ThumbnailSize::Small => 160,
        ThumbnailSize::Medium => 320,
        ThumbnailSize::Large => 640,
    }
}

pub open spec fn dir_of(size: ThumbnailSize) -> Seq<char> {
    match size {
        ThumbnailSize::Small => "small"@,
        ThumbnailSize::Medium => "medium"@,
        ThumbnailSize::Large => "large"@,
    }
}

/// `WxH` of a size, as the resize tools take it.
pub open spec fn geometry_of(size: ThumbnailSize) -> Seq<char> {
    match size {
        ThumbnailSize::Small => "160x160"@,
        ThumbnailSize::Medium => "320x320"@,
        ThumbnailSize::Large => "640x640"@,
    }
}

/// The video filter that scales into the box and pads to its size.
pub open spec fn video_filter_of(size: ThumbnailSize) -> Seq<char> {
    match size {
        ThumbnailSize::Small => "scale=w=160:h=160:force_original_aspect_ratio=decrease,pad=160:160:(ow-iw)/2:(oh-ih)/2"@,
        ThumbnailSize::Medium => "scale=w=320:h=320:force_original_aspect_ratio=decrease,pad=320:320:(ow-iw)/2:(oh-ih)/2"@,
        ThumbnailSize::Large => "scale=w=640:h=640:force_original_aspect_ratio=decrease,pad=640:640:(ow-iw)/2:(oh-ih)/2"@,
    }
}

impl ThumbnailSize {
    /// Width and height of the bounding box.
    pub fn as_dimensions(self) -> (r: (u32, u32))
        ensures
            r == (edge_of(self), edge_of(self)),
    {
        match self {
            ThumbnailSize::Small => (160, 160),
            ThumbnailSize::Medium => (320, 320),
            ThumbnailSize::Large => (640, 640),
        }
    }

    /// Directory name of the size in the cache.
    pub fn as_dir(self) -> (r: &'static str)
        ensures
            r@ == dir_of(self),
    {
        match self {
            ThumbnailSize::Small => "small",
            ThumbnailSize::Medium => "medium",
            ThumbnailSize::Large => "large",
        }
    }

    fn geometry(self) -> (r: &'static str)
        ensures
            r@ == geometry_of(self),
    {
        match self {
            ThumbnailSize::Small => "160x160",
            ThumbnailSize::Medium => "320x320",
            ThumbnailSize::Large => "640x640",
        }
    }

    fn video_filter(self) -> (r: &'static str)
        ensures
            r@ == video_filter_of(self),
    {
        match self {
            ThumbnailSize::Small => "scale=w=160:h=160:force_original_aspect_ratio=decrease,pad=160:160:(ow-iw)/2:(oh-ih)/2",
            ThumbnailSize::Medium => "scale=w=320:h=320:force_original_aspect_ratio=decrease,pad=320:320:(ow-iw)/2:(oh-ih)/2",
            ThumbnailSize::Large => "scale=w=640:h=640:force_original_aspect_ratio=decrease,pad=640:640:(ow-iw)/2:(oh-ih)/2",
        }
    }
}

/// Describes the thumbnail generated for a media file.
#[derive(Debug)]
pub struct ThumbnailArtifact {
    /// Path relative to the cache directory.
    pub relative_path: String,
    pub media_type: String,
    pub width: u32,
    pub height: u32,
}

/// The media file to generate a thumbnail for.
#[derive(Debug)]
pub struct ThumbnailSpec {
    pub media_id: String,
    pub source_path: String,
    pub media_type: MediaType,
}

/// How a thumbnail is produced.
#[derive(Clone, Copy, Debug, PartialEq, Eq, Structural)]
pub enum ThumbnailMethod {
    /// Decode the image and resize it.
    Static,
    /// Resize with gifsicle, then treat the result as a static image.
    Gif,
    /// Extract a poster frame with ffmpeg.
    Video,
}

pub open spec fn method_spec(media_type: MediaType) -> ThumbnailMethod {
    match media_type {
        MediaType::Gif => ThumbnailMethod::Gif,
        MediaType::Video => ThumbnailMethod::Video,
        _ => ThumbnailMethod::Static,
    }
}

/// Directory of all thumbnails inside the cache directory.
pub const THUMBNAIL_ROOT: &'static str = "thumbnails";

/// Extension of every thumbnail file.
pub const THUMBNAIL_EXT: &'static str = ".jpg";

/// Content type of every thumbnail.
pub const THUMBNAIL_MIME: &'static str = "image/jpeg";

/// Default time allowed to an external tool: twenty seconds.
pub const DEFAULT_TIMEOUT_MS: u64 = 20_000;

/// `thumbnails/<size>/<id>.jpg`.
pub open spec fn thumbnail_relative(media_id: Seq<char>, size: ThumbnailSize) -> Seq<char> {
    THUMBNAIL_ROOT@ + seq!['/'] + dir_of(size) + seq!['/'] + media_id + THUMBNAIL_EXT@
}

/// Coordinates thumbnail generation for images, GIFs, and videos.
#[derive(Debug)]
pub struct ThumbnailGenerator {
    cache_dir: String,
    ffmpeg_path: String,
    gifsicle_path: String,
    timeout_ms: u64,
}

impl ThumbnailGenerator {
    pub closed spec fn cache_dir_view(&self) -> Seq<char> {
        self.cache_dir@
    }

    pub closed spec fn ffmpeg_view(&self) -> Seq<char> {
        self.ffmpeg_path@
    }

    pub closed spec fn gifsicle_view(&self) -> Seq<char> {
        self.gifsicle_path@
    }

    pub closed spec fn timeout_view(&self) -> u64 {
        self.timeout_ms
    }

    /// A generator writing under `cache_dir`, with the tools found by name
    /// and the default timeout.
    pub fn new(cache_dir: &str) -> (r: ThumbnailGenerator)
        ensures
            r.cache_dir_view() == cache_dir@,
            r.ffmpeg_view() == "ffmpeg"@,
            r.gifsicle_view() == "gifsicle"@,
            r.timeout_view() == DEFAULT_TIMEOUT_MS,
    {
        ThumbnailGenerator {
            cache_dir: cache_dir.to_owned(),
            ffmpeg_path: "ffmpeg".to_owned(),
            gifsicle_path: "gifsicle".to_owned(),
            timeout_ms: DEFAULT_TIMEOUT_MS,
        }
    }

    /// The same generator with explicit tool paths.
    pub fn with_tools(self, ffmpeg_path: &str, gifsicle_path: &str) -> (r: ThumbnailGenerator)
        ensures
            r.cache_dir_view() == self.cache_dir_view(),
            r.ffmpeg_view() == ffmpeg_path@,
            r.gifsicle_view() == gifsicle_path@,
            r.timeout_view() == self.timeout_view(),
    {
        ThumbnailGenerator {
            ffmpeg_path: ffmpeg_path.to_owned(),
            gifsicle_path: gifsicle_path.to_owned(),
            ..self
        }
    }

    /// The same generator with another timeout for the tools.
    pub fn with_timeout(self, timeout_ms: u64) -> (r: ThumbnailGenerator)
        ensures
            r.cache_dir_view() == self.cache_dir_view(),
            r.ffmpeg_view() == self.ffmpeg_view(),
            r.gifsicle_view() == self.gifsicle_view(),
            r.timeout_view() == timeout_ms,
    {
        ThumbnailGenerator { timeout_ms, ..self }
    }

    /// The cache directory.
    pub fn cache_dir(&self) -> (r: &str)
        ensures
            r@ == self.cache_dir_view(),
    {
        self.cache_dir.as_str()
    }

    /// The ffmpeg executable.
    pub fn ffmpeg_path(&self) -> (r: &str)
        ensures
            r@ == self.ffmpeg_view(),
    {
        self.ffmpeg_path.as_str()
    }

    /// The gifsicle executable.
    pub fn gifsicle_path(&self) -> (r: &str)
        ensures
            r@ == self.gifsicle_view(),
    {
        self.gifsicle_path.as_str()
    }

    /// Time allowed to each tool run, in milliseconds.
    pub fn timeout_ms(&self) -> (r: u64)
        ensures
            r == self.timeout_view(),
    {
        self.timeout_ms
    }

    /// The thumbnail's absolute path and its path relative to the cache.
    pub fn thumbnail_paths(&self, media_id: &str, size: ThumbnailSize) -> (r: (String, String))
        ensures
            r.1@ == thumbnail_relative(media_id@, size),
            r.0@ == join_path(self.cache_dir_view(), thumbnail_relative(media_id@, size)),
    {
        let a = concat(THUMBNAIL_ROOT, "/");
        let b = concat(a.as_str(), size.as_dir());
        let c = concat(b.as_str(), "/");
        let d = concat(c.as_str(), media_id);
        let relative = concat(d.as_str(), THUMBNAIL_EXT);
        assert(relative@ == thumbnail_relative(media_id@, size)) by {
            reveal_strlit("/");
        }
        let absolute = join_str(self.cache_dir.as_str(), relative.as_str());
        (absolute, relative)
    }

    /// How a thumbnail of `media_type` is produced: GIFs and videos have
    /// their own tools, everything else is decoded as an image.
    pub fn method_for(media_type: MediaType) -> (r: ThumbnailMethod)
        ensures
            r == method_spec(media_type),
    {
        match media_type {
            MediaType::Gif => ThumbnailMethod::Gif,
            MediaType::Video => ThumbnailMethod::Video,
            _ => ThumbnailMethod::Static,
        }
    }

    /// What a generated (or already present) thumbnail is.
    pub fn artifact(relative_path: String, size: ThumbnailSize) -> (r: ThumbnailArtifact)
        ensures
            r.relative_path@ == relative_path@,
            r.media_type@ == THUMBNAIL_MIME@,
            r.width == edge_of(size),
            r.height == edge_of(size),
    {
        let (width, height) = size.as_dimensions();
        ThumbnailArtifact { relative_path, media_type: THUMBNAIL_MIME.to_owned(), width, height }
    }

    /// Arguments of gifsicle: fit `source` into the size's box, into `output`.
    pub fn gifsicle_args(source: &str, output: &str, size: ThumbnailSize) -> (r: Vec<String>)
        ensures
            r@.map_values(|s: String| s@) == seq![
                "--resize-fit"@,
                geometry_of(size),
                "--no-warnings"@,
                source@,
                "--output"@,
                output@,
            ],
    {
        let r = vec![
            "--resize-fit".to_owned(),
            size.geometry().to_owned(),
            "--no-warnings".to_owned(),
            source.to_owned(),
            "--output".to_owned(),
            output.to_owned(),
        ];
        assert(r@.map_values(|s: String| s@) =~= seq![
            "--resize-fit"@,
            geometry_of(size),
            "--no-warnings"@,
            source@,
            "--output"@,
            output@,
        ]);
        r
    }

    /// Arguments of ffmpeg: one frame of `source`, scaled and padded to the
    /// size's box, written to `output`.
    pub fn ffmpeg_args(source: &str, output: &str, size: ThumbnailSize) -> (r: Vec<String>)
        ensures
            r@.map_values(|s: String| s@) == seq![
                "-hide_banner"@,
                "-loglevel"@,
                "error"@,
                "-y"@,
                "-i"@,
                source@,
                "-frames:v"@,
                "1"@,
                "-vf"@,
                video_filter_of(size),
                output@,
            ],
    {
        let r = vec![
            "-hide_banner".to_owned(),
            "-loglevel".to_owned(),
            "error".to_owned(),
            "-y".to_owned(),
            "-i".to_owned(),
            source.to_owned(),
            "-frames:v".to_owned(),
            "1".to_owned(),
            "-vf".to_owned(),
            size.video_filter().to_owned(),
            output.to_owned(),
        ];
        assert(r@.map_values(|s: String| s@) =~= seq![
            "-hide_banner"@,
            "-loglevel"@,
            "error"@,
            "-y"@,
            "-i"@,
            source@,
            "-frames:v"@,
            "1"@,
            "-vf"@,
            video_filter_of(size),
            output@,
        ]);
        r
    }
}

/// `dir` joined with `name` by one `/`.
pub fn join_str(dir: &str, name: &str) -> (r: String)
    ensures
        r@ == join_path(dir@, name@),
{
    let d = crate::text::chars_of(dir);
    if d.len() == 0 || d[d.len() - 1] == '/' {
        concat(dir, name)
    } else {
        let with_slash = concat(dir, "/");
        proof {
            reveal_strlit("/");
        }
        concat(with_slash.as_str(), name)
    }
}

} // verus!
