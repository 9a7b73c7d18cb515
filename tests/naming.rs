use hls_grab::error::PipelineError;
use hls_grab::job::{deliverable_path, merged_file, plan_transcode, scratch_dir, segment_file, segment_url};
use hls_grab::naming::{api_url, sanitize_author, sanitize_title, split_pieces, VideoInfo};

#[test]
fn sanitize_author_strips_hostile_characters() {
    assert_eq!(sanitize_author("Alice/Bob?"), "AliceBob");
    assert_eq!(sanitize_author("a\\b[c]d'e\"f:g.h i"), "abcdefgh i");
    assert_eq!(sanitize_author(""), "");
}

#[test]
fn sanitize_title_strips_and_underscores() {
    assert_eq!(sanitize_title("My Video: Part 1"), "My_Video_Part_1");
    assert_eq!(sanitize_title("../etc/passwd"), "etcpasswd");
    assert_eq!(sanitize_title("Видео  2"), "Видео__2");
}

#[test]
fn video_info_sanitizes_fields() {
    let v = VideoInfo::from_fields(Some("Alice/Bob?"), Some("My Video: Part 1"), Some("https://x/y.m3u8")).unwrap();
    assert_eq!(v.author, "AliceBob");
    assert_eq!(v.title, "My_Video_Part_1");
    assert_eq!(v.playlist_url, "https://x/y.m3u8");
}

#[test]
fn video_info_rejects_missing_fields() {
    assert!(matches!(VideoInfo::from_fields(None, None, None), Err(PipelineError::Resolution)));
    assert!(matches!(VideoInfo::from_fields(None, Some("t"), Some("u")), Err(PipelineError::Resolution)));
    assert!(matches!(VideoInfo::from_fields(Some("a"), None, Some("u")), Err(PipelineError::Resolution)));
    assert!(matches!(VideoInfo::from_fields(Some("a"), Some("t"), None), Err(PipelineError::Resolution)));
}

#[test]
fn split_pieces_matches_std_split() {
    for text in ["", "/", "a/b", "https://rutube.ru/video/abc/", "//x//"] {
        let expected: Vec<String> = text.split('/').map(|p| p.to_string()).collect();
        assert_eq!(split_pieces(text, '/'), expected);
    }
}

#[test]
fn api_url_uses_second_to_last_piece() {
    assert_eq!(
        api_url("https://rutube.ru/video/0123abcd/"),
        Ok("https://rutube.ru/api/play/options/0123abcd/?no_404=true&referer=https%3A%2F%2Frutube.ru".to_string())
    );
    assert_eq!(api_url("no-separator"), Err(PipelineError::Resolution));
}

#[test]
fn segment_url_follows_the_pattern() {
    assert_eq!(
        segment_url("https://cdn.example.com/path/stream/", 12),
        "https://cdn.example.com/path/stream/segment-12-v1-a1.ts"
    );
    assert_eq!(segment_url("b/", 0), "b/segment-0-v1-a1.ts");
}

#[test]
fn scratch_paths_are_job_scoped() {
    assert_eq!(scratch_dir(7), "seg-7");
    assert_eq!(segment_file(7, 3), "seg-7/segment-3-v1-a1.ts");
    assert_eq!(merged_file(42, "My_Video"), "seg-42/My_Video.ts");
}

#[test]
fn concurrent_jobs_do_not_share_scratch_files() {
    assert_ne!(scratch_dir(1), scratch_dir(11));
    for i in 1..=12 {
        for j in 1..=12 {
            assert_ne!(segment_file(1, i), segment_file(11, j));
            assert_ne!(segment_file(1, i), segment_file(2, j));
        }
    }
    assert_ne!(merged_file(1, "t"), merged_file(2, "t"));
}

#[test]
fn deliverable_and_transcode_plan() {
    assert_eq!(deliverable_path("AliceBob", "My_Video_Part_1"), "AliceBob/My_Video_Part_1.mp4");
    let p = plan_transcode(5, "AliceBob", "My_Video_Part_1");
    assert_eq!(p.output_dir, "AliceBob");
    assert_eq!(p.input, "seg-5/My_Video_Part_1.ts");
    assert_eq!(p.output, "AliceBob/My_Video_Part_1.mp4");
    assert_eq!(
        p.args,
        vec!["-i", "seg-5/My_Video_Part_1.ts", "-c", "copy", "AliceBob/My_Video_Part_1.mp4"]
    );
}
