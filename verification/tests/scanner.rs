use kugou_music::greet;
use kugou_music::music_library::{
    begin_scan, extract_song_info, is_music_file, scan_failure_message, Scan, ScanError,
};

#[test]
fn greeting_names_the_caller() {
    assert_eq!(greet("World"), "Hello, World! You've been greeted from Rust!");
}

#[test]
fn recognises_each_audio_extension() {
    assert!(is_music_file("a.mp3"));
    assert!(is_music_file("a.flac"));
    assert!(is_music_file("a.wav"));
    assert!(is_music_file("a.ogg"));
    assert!(is_music_file("a.m4a"));
    assert!(is_music_file("a.aac"));
}

#[test]
fn extension_match_is_case_insensitive() {
    assert!(is_music_file("a.MP3"));
    assert!(is_music_file("x/y/z.FlAc"));
    assert!(is_music_file("b.Wav"));
}

#[test]
fn rejects_other_files() {
    assert!(!is_music_file("notes.txt"));
    assert!(!is_music_file("noextension"));
    assert!(!is_music_file("archive.mp33"));
    assert!(!is_music_file("dir.mp3/readme"));
}

#[test]
fn a_leading_dot_alone_is_no_extension() {
    assert!(!is_music_file(".mp3"));
    assert!(is_music_file(".hidden.mp3"));
}

#[test]
fn artist_and_title_come_from_the_separator() {
    let song = extract_song_info("Artist - Title.mp3").unwrap();
    assert_eq!(song.artist, "Artist");
    assert_eq!(song.title, "Title");
    assert_eq!(song.album, "unknown album");
}

#[test]
fn no_separator_falls_back_to_placeholder_artist() {
    let song = extract_song_info("SingleName.flac").unwrap();
    assert_eq!(song.title, "SingleName");
    assert_eq!(song.artist, "unknown artist");
    assert_eq!(song.album, "unknown album");
}

#[test]
fn extra_separator_parts_are_ignored() {
    let song = extract_song_info("A - B - C.mp3").unwrap();
    assert_eq!(song.artist, "A");
    assert_eq!(song.title, "B");
}

#[test]
fn id_is_the_wrapping_byte_sum_of_the_path() {
    // 'a' + 'b' + '.' + 'm' + 'p' + '3' = 97 + 98 + 46 + 109 + 112 + 51
    let song = extract_song_info("ab.mp3").unwrap();
    assert_eq!(song.id, "song-513");
    assert_eq!(song.path, "ab.mp3");
    assert_eq!(song.duration, 0);
    assert!(song.cover.is_none());
}

#[test]
fn empty_file_name_yields_no_record() {
    assert!(extract_song_info("music/").is_none());
    assert!(extract_song_info("").is_none());
}

#[test]
fn missing_root_is_an_invalid_directory() {
    let err = begin_scan("nope", false, false).unwrap_err();
    match &err {
        ScanError::InvalidDirectory { path } => assert_eq!(path, "nope"),
        other => panic!("unexpected error: {:?}", other),
    }
    assert_eq!(err.message(), "Invalid directory path: nope");
    assert_eq!(
        scan_failure_message(&err),
        "Error scanning directory: Invalid directory path: nope"
    );
}

#[test]
fn a_regular_file_is_an_invalid_directory() {
    let err = begin_scan("some/file.txt", true, false).unwrap_err();
    assert!(matches!(err, ScanError::InvalidDirectory { .. }));
}

#[test]
fn traversal_io_error_message_names_the_cause() {
    let err = ScanError::TraversalIo {
        detail: "permission denied".to_string(),
    };
    assert_eq!(
        err.message(),
        "Directory traversal failed: permission denied"
    );
}

#[test]
fn non_audio_files_yield_an_empty_scan() {
    let mut scan = begin_scan("root", true, true).unwrap();
    let dir = scan.next_dir().unwrap();
    assert_eq!(dir, "root");
    scan.visit_entry("root/notes.txt", false);
    scan.visit_entry("root/image.png", false);
    assert!(scan.next_dir().is_none());
    assert!(scan.into_songs().is_empty());
}

#[test]
fn three_records() {
    let mut scan = Scan::new("library");
    assert_eq!(scan.next_dir().unwrap(), "library");
    scan.visit_entry("library/One - First.mp3", false);
    scan.visit_entry("library/Two - Second.flac", false);
    scan.visit_entry("library/Third.wav", false);
    assert!(scan.next_dir().is_none());
    let songs = scan.into_songs();
    assert_eq!(songs.len(), 3);
    assert_eq!(songs[0].artist, "One");
    assert_eq!(songs[1].title, "Second");
    assert_eq!(songs[2].artist, "unknown artist");
}

#[test]
fn nested_scan_collects_exactly_the_audio_file() {
    let mut scan = Scan::new("root");
    assert!(!scan.done());
    assert_eq!(scan.next_dir().unwrap(), "root");
    scan.visit_entry("root/sub", true);
    scan.visit_entry("root/ignore.txt", false);
    assert_eq!(scan.next_dir().unwrap(), "root/sub");
    scan.visit_entry("root/sub/A - B.mp3", false);
    assert!(scan.next_dir().is_none());
    let songs = scan.into_songs();
    assert_eq!(songs.len(), 1);
    assert_eq!(songs[0].title, "B");
    assert_eq!(songs[0].artist, "A");
    assert!(songs[0].path.ends_with("A - B.mp3"));
    assert_eq!(songs[0].duration, 0);
    assert!(songs[0].cover.is_none());
}

#[test]
fn directories_are_visited_depth_first() {
    let mut scan = Scan::new("r");
    assert_eq!(scan.next_dir().unwrap(), "r");
    scan.visit_entry("r/a", true);
    scan.visit_entry("r/b", true);
    // the work stack pops the most recently discovered directory first
    assert_eq!(scan.next_dir().unwrap(), "r/b");
    scan.visit_entry("r/b/deep.ogg", false);
    assert_eq!(scan.next_dir().unwrap(), "r/a");
    assert_eq!(scan.next_dir(), None);
    let songs = scan.into_songs();
    assert_eq!(songs.len(), 1);
    assert_eq!(songs[0].title, "deep");
}
