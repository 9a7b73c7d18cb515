use hls_grab::error::PipelineError;
use hls_grab::playlist::{get_download_link, get_link_from_m3u8, get_segment_count, split_lines};

const FIVE_LINES: &str = "https://cdn.example.com/v/segment-1-v1-a1.ts\nhttps://cdn.example.com/v/segment-2-v1-a1.ts\nhttps://cdn.example.com/v/segment-3-v1-a1.ts\nhttps://cdn.example.com/v/stream.m3u8?i=1\n#EXT-X-ENDLIST\n";

#[test]
fn split_lines_matches_std_lines() {
    for text in ["", "a", "a\n", "a\n\n", "a\r\nb", "a\rb\n", "x\r", "\n\n", "one\ntwo\r\nthree"] {
        let expected: Vec<String> = text.lines().map(|l| l.to_string()).collect();
        assert_eq!(split_lines(text), expected, "text {:?}", text);
    }
}

#[test]
fn segment_count_is_lines_minus_two() {
    assert_eq!(get_segment_count(FIVE_LINES), Ok(3));
    assert_eq!(get_segment_count("a\nb\nc"), Ok(1));
    assert_eq!(get_segment_count("a\r\nb\r\nc\r\nd\r\n"), Ok(2));
}

#[test]
fn segment_count_rejects_short_playlists() {
    assert_eq!(get_segment_count(""), Err(PipelineError::ManifestFormat));
    assert_eq!(get_segment_count("only\n"), Err(PipelineError::ManifestFormat));
    assert_eq!(get_segment_count("a\nb\n"), Err(PipelineError::ManifestFormat));
}

#[test]
fn link_is_second_to_last_line() {
    assert_eq!(
        get_link_from_m3u8(FIVE_LINES),
        Ok("https://cdn.example.com/v/stream.m3u8?i=1".to_string())
    );
    assert_eq!(get_link_from_m3u8("a\r\nb\r\n"), Ok("a".to_string()));
    assert_eq!(get_link_from_m3u8("single"), Err(PipelineError::ManifestFormat));
    assert_eq!(get_link_from_m3u8(""), Err(PipelineError::ManifestFormat));
}

#[test]
fn base_url_drops_extension_and_query() {
    assert_eq!(
        get_download_link("https://cdn.example.com/path/stream.m3u8?token=abc"),
        Ok("https://cdn.example.com/path/stream/".to_string())
    );
}

#[test]
fn base_url_cuts_at_first_marker() {
    assert_eq!(get_download_link("a.m3u8b.m3u8"), Ok("a/".to_string()));
    assert_eq!(get_download_link(".m3u8"), Ok("/".to_string()));
}

#[test]
fn base_url_without_marker_is_rejected() {
    assert_eq!(
        get_download_link("https://cdn.example.com/path/stream.mp4"),
        Err(PipelineError::ManifestFormat)
    );
    assert_eq!(get_download_link(".m3u"), Err(PipelineError::ManifestFormat));
    assert_eq!(get_download_link(""), Err(PipelineError::ManifestFormat));
}
