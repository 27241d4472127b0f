use n_player::persist::encode_snapshot;
use n_player::persist::parse_snapshot;
use n_player::persist::saved_duration;
use n_player::persist::PersistedSnapshot;

fn sample() -> PersistedSnapshot {
    PersistedSnapshot {
        path: String::from("/home/me/Music"),
        volume: 650,
        durations: vec![
            (String::from("A Song.mp3"), 245),
            (String::from("B.ogg"), 0),
            (String::from("weird name = with : and \n newline"), 3601),
        ],
    }
}

#[test]
fn snapshot_round_trips_exactly() {
    let snap = sample();
    let text = encode_snapshot(&snap);
    let back = parse_snapshot(text.as_str()).unwrap();
    assert_eq!(back, snap);
}

#[test]
fn empty_snapshot_round_trips() {
    let snap = PersistedSnapshot { path: String::new(), volume: 0, durations: vec![] };
    let text = encode_snapshot(&snap);
    let back = parse_snapshot(text.as_str()).unwrap();
    assert_eq!(back, snap);
}

#[test]
fn reload_reuses_durations_for_unchanged_names() {
    let snap = sample();
    let text = encode_snapshot(&snap);
    let back = parse_snapshot(text.as_str()).unwrap();
    assert_eq!(saved_duration(&back, "A Song.mp3"), Some(245));
    assert_eq!(saved_duration(&back, "B.ogg"), Some(0));
    assert_eq!(saved_duration(&back, "never seen"), None);
}

#[test]
fn damaged_text_is_rejected() {
    assert!(parse_snapshot("").is_none());
    assert!(parse_snapshot("not a snapshot").is_none());
    let snap = sample();
    let text = encode_snapshot(&snap);
    // trailing garbage after a complete snapshot is rejected
    let mut longer = text.clone();
    longer.push('x');
    assert!(parse_snapshot(longer.as_str()).is_none());
    // a truncated snapshot is rejected
    let cut: String = text.chars().take(text.chars().count() - 1).collect();
    assert!(parse_snapshot(cut.as_str()).is_none());
}

#[test]
fn duplicate_names_keep_the_first_duration() {
    let snap = PersistedSnapshot {
        path: String::from("/m"),
        volume: 1000,
        durations: vec![(String::from("x"), 10), (String::from("x"), 20)],
    };
    assert_eq!(saved_duration(&snap, "x"), Some(10));
}
