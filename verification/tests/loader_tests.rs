use n_player::apply_loader_message;
use n_player::loader_messages;
use n_player::loader_stream;
use n_player::FileTrack;
use n_player::LoaderProbe;
use n_player::Message;

#[test]
fn probe_fields_become_independent_messages() {
    let probe = LoaderProbe {
        length: Some(245),
        artist: Some(String::from("Somebody")),
        title: Some(String::from("Real Title")),
    };
    let msgs = loader_messages(4, probe);
    assert_eq!(
        msgs,
        vec![
            Message::Length(4, 245),
            Message::Artist(4, String::from("Somebody")),
            Message::Title(4, String::from("Real Title")),
        ]
    );
}

#[test]
fn partial_probe_emits_only_what_became_known() {
    let probe = LoaderProbe { length: Some(90), artist: None, title: None };
    let msgs = loader_messages(0, probe);
    assert_eq!(msgs, vec![Message::Length(0, 90)]);
}

#[test]
fn failed_decode_emits_nothing_and_the_scan_goes_on() {
    // a track that fails to decode yields no Length, Artist or Title
    let probe = LoaderProbe { length: None, artist: None, title: None };
    let msgs = loader_messages(7, probe);
    assert!(msgs.is_empty());
    // the table keeps its file-name fallback untouched
    let mut tracks = vec![FileTrack::new(String::from("X"), String::new(), 0)];
    for m in msgs {
        apply_loader_message(&mut tracks, m);
    }
    assert_eq!(tracks[0].name, String::from("X"));
    assert_eq!(tracks[0].title, String::new());
    assert_eq!(tracks[0].length, 0);
}

#[test]
fn one_bad_file_never_halts_the_rest_of_the_scan() {
    let probes = vec![
        LoaderProbe { length: None, artist: None, title: None },
        LoaderProbe { length: Some(200), artist: None, title: Some(String::from("Second")) },
        LoaderProbe { length: Some(30), artist: Some(String::from("Trio")), title: None },
    ];
    let msgs = loader_stream(probes);
    assert_eq!(
        msgs,
        vec![
            Message::Length(1, 200),
            Message::Title(1, String::from("Second")),
            Message::Length(2, 30),
            Message::Artist(2, String::from("Trio")),
        ]
    );
}

#[test]
fn messages_update_the_named_entry_only() {
    let mut tracks = vec![
        FileTrack::new(String::from("A"), String::new(), 0),
        FileTrack::new(String::from("B"), String::new(), 0),
    ];
    apply_loader_message(&mut tracks, Message::Length(1, 123));
    apply_loader_message(&mut tracks, Message::Title(1, String::from("B side")));
    apply_loader_message(&mut tracks, Message::Artist(0, String::from("Anon")));
    assert_eq!(tracks[0].artist, String::from("Anon"));
    assert_eq!(tracks[0].length, 0);
    assert_eq!(tracks[1].length, 123);
    assert_eq!(tracks[1].title, String::from("B side"));
}

#[test]
fn message_past_the_table_end_changes_nothing() {
    let mut tracks = vec![FileTrack::new(String::from("A"), String::new(), 5)];
    let before = tracks.clone();
    apply_loader_message(&mut tracks, Message::Length(9, 1));
    assert_eq!(tracks, before);
}
