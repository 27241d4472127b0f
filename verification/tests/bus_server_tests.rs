use n_player::bus_server::assemble_properties;
use n_player::bus_server::build_metadata;
use n_player::bus_server::diff_observation;
use n_player::bus_server::observe;
use n_player::bus_server::Observation;
use n_player::bus_server::Property;
use n_player::bus_server::TrackMeta;
use n_player::runner::Runner;
use n_player::runner::RunnerMessage;

#[test]
fn unchanged_tick_emits_nothing() {
    let prev = Observation { playing: true, volume: 500, index: 1 };
    let cur = prev;
    let plan = diff_observation(&prev, &cur);
    assert_eq!(plan.playing, None);
    assert_eq!(plan.volume, None);
    assert_eq!(plan.new_index, None);
    let batch = assemble_properties(&plan, None);
    assert!(batch.is_empty());
}

#[test]
fn volume_only_change_emits_exactly_one_volume_property() {
    // queue = [A], SetVolume(half scale): one Volume delta on the next tick
    let mut r = Runner::new(String::from("/m"), vec![String::from("A.mp3")], 1000);
    let prev = observe(&r);
    r.apply(RunnerMessage::SetVolume(500), false).unwrap();
    assert_eq!(r.volume(), 500);
    let cur = observe(&r);
    let plan = diff_observation(&prev, &cur);
    let batch = assemble_properties(&plan, None);
    assert_eq!(batch, vec![Property::Volume(500)]);
}

#[test]
fn index_change_is_staged_with_metadata() {
    let mut r = Runner::new(
        String::from("/m"),
        vec![String::from("A.mp3"), String::from("B.mp3")],
        1000,
    );
    r.apply(RunnerMessage::Play, false).unwrap();
    let prev = observe(&r);
    r.apply(RunnerMessage::PlayNext, false).unwrap();
    let cur = observe(&r);
    let plan = diff_observation(&prev, &cur);
    assert_eq!(plan.playing, None);
    assert_eq!(plan.new_index, Some(1));
    let meta = build_metadata("B.mp3", &TrackMeta::none(), None);
    let batch = assemble_properties(&plan, Some(meta.clone()));
    assert_eq!(batch, vec![Property::Metadata(meta)]);
}

#[test]
fn metadata_falls_back_to_file_name_on_a_failed_decode() {
    // a track that fails to decode shows its file name, no artist, no art
    let meta = build_metadata("03 Some Song.mp3", &TrackMeta::none(), None);
    assert_eq!(meta.title, Some(String::from("03 Some Song")));
    assert_eq!(meta.artists, None);
    assert_eq!(meta.length, 0);
    assert_eq!(meta.image_path, None);
    assert_eq!(meta.id, String::from("/n_music"));
}

#[test]
fn metadata_uses_decoded_fields_when_present() {
    let decoded = TrackMeta {
        title: String::from("Real Title"),
        artist: String::from("Somebody"),
        length_secs: 245,
    };
    let meta = build_metadata("file.ogg", &decoded, Some(String::from("/tmp/art")));
    assert_eq!(meta.title, Some(String::from("Real Title")));
    assert_eq!(meta.artists, Some(vec![String::from("Somebody")]));
    assert_eq!(meta.length, 245);
    assert_eq!(meta.image_path, Some(String::from("/tmp/art")));
}

#[test]
fn full_change_keeps_the_staging_order() {
    let prev = Observation { playing: false, volume: 1000, index: 0 };
    let cur = Observation { playing: true, volume: 250, index: 2 };
    let plan = diff_observation(&prev, &cur);
    let meta = build_metadata("C.mp3", &TrackMeta::none(), None);
    let batch = assemble_properties(&plan, Some(meta.clone()));
    assert_eq!(
        batch,
        vec![Property::Playing(true), Property::Volume(250), Property::Metadata(meta)]
    );
}
