use tubecast::parse::{
    looks_like_playlist_id, looks_like_video_id, parse_target, require_video, single_video, Target,
    TargetError, VideoError, ADD_NEEDS_VIDEO,
};
use tubecast::web::ip_from_url;

#[test]
fn parses_common_forms() {
    let v = Target::Video("dQw4w9WgXcQ".into());
    assert_eq!(parse_target("dQw4w9WgXcQ").unwrap(), v);
    assert_eq!(parse_target("https://youtu.be/dQw4w9WgXcQ").unwrap(), v);
    assert_eq!(
        parse_target("https://www.youtube.com/watch?v=dQw4w9WgXcQ&t=10s").unwrap(),
        v
    );
    assert_eq!(
        parse_target("https://www.youtube.com/shorts/dQw4w9WgXcQ").unwrap(),
        v
    );
    assert_eq!(
        parse_target("https://www.youtube.com/playlist?list=PLabc123def456").unwrap(),
        Target::Playlist("PLabc123def456".into())
    );
    // watch URL with both v and list prefers the single video
    assert_eq!(
        parse_target("https://youtube.com/watch?v=dQw4w9WgXcQ&list=PLxyz987654321").unwrap(),
        v
    );
}

#[test]
fn rejects_garbage() {
    assert!(parse_target("not a video").is_err());
}

#[test]
fn pages_that_name_a_video() {
    for page in ["shorts", "embed", "live", "v"] {
        for host in ["youtube.com", "www.youtube.com", "m.youtube.com", "music.youtube.com"] {
            assert_eq!(
                parse_target(&format!("https://{host}/{page}/abc")).unwrap(),
                Target::Video("abc".into())
            );
        }
    }
}

#[test]
fn list_without_video_names_a_playlist() {
    assert_eq!(
        parse_target("https://www.youtube.com/watch?list=PLx").unwrap(),
        Target::Playlist("PLx".into())
    );
}

#[test]
fn bare_playlist_ids() {
    assert_eq!(parse_target(" PLabc123def456 ").unwrap(), Target::Playlist("PLabc123def456".into()));
    assert!(looks_like_playlist_id("RDabc123def456"));
    assert!(!looks_like_playlist_id("PLabcdefghi"));
    assert!(looks_like_video_id("PLabcdefghi"));
    assert!(!looks_like_video_id("dQw4w9WgXc"));
    assert!(!looks_like_video_id("dQw4w9WgXc!"));
}

#[test]
fn errors_name_what_was_given() {
    assert_eq!(
        parse_target(" not a video "),
        Err(TargetError::Unrecognized("not a video".into()))
    );
    assert_eq!(
        parse_target("not a video").unwrap_err().message(),
        "could not recognize 'not a video' as a YouTube URL, video id, or playlist id"
    );
    assert_eq!(
        parse_target("https://example.com/watch?v=x"),
        Err(TargetError::Unsupported("https://example.com/watch?v=x".into()))
    );
    assert_eq!(
        parse_target("HTTPS://Example.com").unwrap_err().message(),
        "unsupported YouTube URL: https://example.com/"
    );
}

#[test]
fn single_videos() {
    assert_eq!(single_video("dQw4w9WgXcQ").unwrap(), "dQw4w9WgXcQ");
    assert!(matches!(single_video("PLabc123def456"), Err(VideoError::Playlist)));
    let e = single_video("PLabc123def456").unwrap_err();
    assert_eq!(e.message(ADD_NEEDS_VIDEO), "`add` takes a single video; use `play` for a playlist");
    let e = single_video("nope").unwrap_err();
    assert!(e.message(ADD_NEEDS_VIDEO).starts_with("could not recognize 'nope'"));
    assert_eq!(require_video(Ok(Target::Video("x".into()))).unwrap(), "x");
}

#[test]
fn hosts_of_addresses() {
    assert_eq!(ip_from_url("http://192.168.1.209:8888/x"), Some("192.168.1.209".into()));
    assert_eq!(ip_from_url("https://Example.com/"), Some("example.com".into()));
    assert_eq!(ip_from_url("192.168.1.209"), None);
    assert_eq!(ip_from_url("mailto:a@b"), None);
}
