use galarie::config::non_empty_origins;
use galarie::indexer::{
    attributes_from_tags, build_media_file, detect_media_type, hex_encode, relative_to_string,
    stable_id, IndexEvent, Indexer, IndexerConfig, MediaType, TickAction, Timestamp,
};
use galarie::tags::parse_filename_tokens;
use galarie::thumbnails::{ThumbnailGenerator, ThumbnailMethod, ThumbnailSize};

#[test]
fn scanned_file_record_carries_path_type_and_tags() {
    let at = Timestamp { seconds: 10, nanos: 0 };
    let record = build_media_file("nested/example.jpg", 5, at);
    assert_eq!(record.relative_path, "nested/example.jpg");
    assert_eq!(record.media_type, MediaType::Image);
    assert_eq!(record.filesize, 5);
    assert_eq!(record.indexed_at, at);
    assert_eq!(record.id, stable_id("nested/example.jpg"));
    assert_eq!(record.tags.len(), 1);
    assert_eq!(record.tags[0].normalized, "example");

    let tagged = build_media_file("a/sunset_rating-5_rating-4.png", 1, at);
    assert_eq!(
        tagged.attributes,
        vec![("rating".to_string(), "5".to_string())]
    );
}

#[test]
fn stable_id_is_the_sha1_of_the_relative_path() {
    assert_eq!(stable_id("foo"), "0beec7b5ea3f0fdbc95d0dd47f3c5bc275da8a33");
    assert_eq!(stable_id(""), "da39a3ee5e6b4b0d3255bfef95601890afd80709");
    assert_eq!(stable_id("a/b.jpg"), stable_id("a/b.jpg"));
    assert_ne!(stable_id("a/b.jpg"), stable_id("a/c.jpg"));
    assert_eq!(hex_encode(&[0x00, 0xff, 0x1a]), "00ff1a");
}

#[test]
fn media_types_follow_the_extension_table() {
    assert_eq!(detect_media_type("x/photo.JPG"), MediaType::Image);
    assert_eq!(detect_media_type("anim.gif"), MediaType::Gif);
    assert_eq!(detect_media_type("clip.mkv"), MediaType::Video);
    assert_eq!(detect_media_type("song.Flac"), MediaType::Audio);
    assert_eq!(detect_media_type("doc.pdf"), MediaType::Pdf);
    assert_eq!(detect_media_type("notes.txt"), MediaType::Unknown);
    assert_eq!(detect_media_type("noext"), MediaType::Unknown);
    assert_eq!(detect_media_type(".gif"), MediaType::Unknown);
    assert_eq!(detect_media_type("dir.gif/readme"), MediaType::Unknown);
    assert_eq!(detect_media_type("archive.tar.png"), MediaType::Image);
}

#[test]
fn relative_paths_use_forward_slashes() {
    assert_eq!(relative_to_string("a\\b\\c.png", '\\'), "a/b/c.png");
    assert_eq!(relative_to_string("a/b.png", '/'), "a/b.png");
}

#[test]
fn first_attribute_value_wins() {
    let parsed = parse_filename_tokens("x_rating-5_camera-a_rating-3");
    let attrs = attributes_from_tags(&parsed.tags);
    assert_eq!(
        attrs,
        vec![
            ("rating".to_string(), "5".to_string()),
            ("camera".to_string(), "a".to_string())
        ]
    );
}

#[test]
fn indexer_config_and_loop_decisions() {
    let config = IndexerConfig::new("/media");
    assert_eq!(config.root, "/media");
    assert_eq!(config.poll_interval_ms, 30_000);
    let fast = config.with_poll_interval(10);
    assert_eq!(fast.poll_interval_ms, 10);
    assert_eq!(fast.root, "/media");
    assert_eq!(Indexer::on_tick(false), TickAction::Scan);
    assert_eq!(Indexer::on_tick(true), TickAction::Stop);
    let at = Timestamp { seconds: 1, nanos: 0 };
    match Indexer::event_for(Err("root missing".into()), at, 7) {
        IndexEvent::Error { message } => assert_eq!(message, "root missing"),
        IndexEvent::Snapshot { .. } => panic!("expected error"),
    }
    match Indexer::event_for(Ok(vec![build_media_file("foo.gif", 5, at)]), at, 7) {
        IndexEvent::Snapshot { files, duration_ms, .. } => {
            assert_eq!(files.len(), 1);
            assert_eq!(files[0].media_type, MediaType::Gif);
            assert_eq!(duration_ms, 7);
        }
        IndexEvent::Error { .. } => panic!("expected snapshot"),
    }
}

#[test]
fn thumbnail_sizes_paths_and_tools() {
    assert_eq!(ThumbnailSize::Small.as_dimensions(), (160, 160));
    assert_eq!(ThumbnailSize::Large.as_dimensions(), (640, 640));
    assert_eq!(ThumbnailSize::Medium.as_dir(), "medium");
    let generator = ThumbnailGenerator::new("/cache").with_tools("/bin/ffmpeg", "/bin/gifsicle");
    assert_eq!(generator.ffmpeg_path(), "/bin/ffmpeg");
    assert_eq!(generator.gifsicle_path(), "/bin/gifsicle");
    assert_eq!(generator.timeout_ms(), 20_000);
    assert_eq!(generator.with_timeout(10).timeout_ms(), 10);
    let generator = ThumbnailGenerator::new("/cache");
    let (absolute, relative) = generator.thumbnail_paths("img-1", ThumbnailSize::Small);
    assert_eq!(relative, "thumbnails/small/img-1.jpg");
    assert_eq!(absolute, "/cache/thumbnails/small/img-1.jpg");
    assert_eq!(ThumbnailGenerator::method_for(MediaType::Pdf), ThumbnailMethod::Static);
    assert_eq!(ThumbnailGenerator::method_for(MediaType::Gif), ThumbnailMethod::Gif);
    assert_eq!(ThumbnailGenerator::method_for(MediaType::Video), ThumbnailMethod::Video);
    let artifact = ThumbnailGenerator::artifact(relative, ThumbnailSize::Small);
    assert_eq!(artifact.media_type, "image/jpeg");
    assert_eq!((artifact.width, artifact.height), (160, 160));
    assert_eq!(
        ThumbnailGenerator::gifsicle_args("in.gif", "out.tmp", ThumbnailSize::Medium),
        vec!["--resize-fit", "320x320", "--no-warnings", "in.gif", "--output", "out.tmp"]
    );
    let ffmpeg = ThumbnailGenerator::ffmpeg_args("in.mp4", "out.jpg", ThumbnailSize::Large);
    assert_eq!(ffmpeg.len(), 11);
    assert_eq!(
        ffmpeg[9],
        "scale=w=640:h=640:force_original_aspect_ratio=decrease,pad=640:640:(ow-iw)/2:(oh-ih)/2"
    );
}

#[test]
fn empty_cors_origins_are_dropped() {
    assert_eq!(
        non_empty_origins(vec!["".into(), "https://a".into(), "".into()]),
        vec!["https://a".to_string()]
    );
}
