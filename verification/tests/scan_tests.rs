use n_player::persist::PersistedSnapshot;
use n_player::scan::build_file_tracks;
use n_player::scan::plan_durations;
use n_player::scan::select_audio_tracks;
use n_player::scan::ScanEntry;

fn mp3_head() -> Vec<u8> {
    // an ID3v2 tag header, which file-type detection reads as audio/mpeg
    let mut v = vec![0x49, 0x44, 0x33, 0x04, 0x00, 0x00];
    v.extend(std::iter::repeat(0u8).take(32));
    v
}

fn jpeg_head() -> Vec<u8> {
    let mut v = vec![0xFF, 0xD8, 0xFF, 0xAA];
    v.extend(std::iter::repeat(0u8).take(32));
    v
}

#[test]
fn scan_keeps_audio_files_in_scan_order() {
    let entries = vec![
        ScanEntry { name: String::from("cover.jpg"), is_file: true, head: jpeg_head() },
        ScanEntry { name: String::from("b.mp3"), is_file: true, head: mp3_head() },
        ScanEntry { name: String::from("subdir"), is_file: false, head: mp3_head() },
        ScanEntry { name: String::from("a.mp3"), is_file: true, head: mp3_head() },
        ScanEntry { name: String::from("notes.txt"), is_file: true, head: vec![0x68, 0x69] },
    ];
    let names = select_audio_tracks(&entries);
    assert_eq!(names, vec![String::from("b.mp3"), String::from("a.mp3")]);
}

#[test]
fn saved_durations_are_reused_and_missing_ones_marked_for_probing() {
    let saved = PersistedSnapshot {
        path: String::from("/m"),
        volume: 1000,
        durations: vec![(String::from("known.mp3"), 245)],
    };
    let names = vec![String::from("known.mp3"), String::from("new.mp3")];
    let plan = plan_durations(&names, &saved);
    assert_eq!(plan, vec![Some(245), None]);
}

#[test]
fn track_table_is_titled_by_name_without_extension() {
    let names = vec![String::from("01 Intro.mp3"), String::from("plain")];
    let durations = vec![61, 0];
    let tracks = build_file_tracks(&names, &durations);
    assert_eq!(tracks.len(), 2);
    assert_eq!(tracks[0].name, String::from("01 Intro"));
    assert_eq!(tracks[0].length, 61);
    assert_eq!(tracks[0].title, String::new());
    assert_eq!(tracks[1].name, String::from("plain"));
}
