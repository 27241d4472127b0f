use n_player::runner::previous_intent;
use n_player::runner::EngineAction;
use n_player::runner::Playback;
use n_player::runner::Runner;
use n_player::runner::RunnerError;
use n_player::runner::RunnerMessage;
use n_player::runner::Seek;
use n_player::runner::TrackTime;

fn queue_abc() -> Vec<String> {
    vec![String::from("A.mp3"), String::from("B.mp3"), String::from("C.mp3")]
}

#[test]
fn new_session_is_stopped_at_first_track() {
    let r = Runner::new(String::from("/music"), queue_abc(), 800);
    assert_eq!(r.index(), 0);
    assert_eq!(r.len(), 3);
    assert_eq!(r.playback(), Playback::Stopped);
    assert!(!r.playing());
    assert_eq!(r.volume(), 800);
    assert_eq!(r.path(), String::from("/music"));
    assert_eq!(r.queue(), queue_abc());
}

#[test]
fn play_next_from_last_wraps_to_zero_and_drives_engine() {
    // queue = [A, B, C], index = 2, playing
    let mut r = Runner::new(String::from("/music"), queue_abc(), 1000);
    let a = r.apply(RunnerMessage::PlayTrack(2), false).unwrap();
    assert_eq!(a, vec![EngineAction::EndCurrent, EngineAction::Play(2)]);
    assert_eq!(r.playback(), Playback::Playing);
    // PlayNext -> index = 0, engine receives end-current then play(0)
    let a = r.apply(RunnerMessage::PlayNext, false).unwrap();
    assert_eq!(a, vec![EngineAction::EndCurrent, EngineAction::Play(0)]);
    assert_eq!(r.index(), 0);
    assert_eq!(r.playback(), Playback::Playing);
}

#[test]
fn play_previous_from_zero_wraps_to_last() {
    let mut r = Runner::new(String::from("/music"), queue_abc(), 1000);
    assert_eq!(r.index(), 0);
    let a = r.apply(RunnerMessage::PlayPrevious, false).unwrap();
    assert_eq!(a, vec![EngineAction::EndCurrent, EngineAction::Play(2)]);
    assert_eq!(r.index(), 2);
}

#[test]
fn play_track_out_of_range_is_rejected_and_state_unchanged() {
    let mut r = Runner::new(String::from("/music"), queue_abc(), 700);
    let e = r.apply(RunnerMessage::PlayTrack(3), false).unwrap_err();
    assert_eq!(e, RunnerError::IndexOutOfRange);
    assert_eq!(r.index(), 0);
    assert_eq!(r.playback(), Playback::Stopped);
    assert_eq!(r.volume(), 700);
}

#[test]
fn set_volume_in_range_is_taken_as_is() {
    // queue = [A], SetVolume(half scale) -> snapshot volume is half scale
    let mut r = Runner::new(String::from("/m"), vec![String::from("A.flac")], 1000);
    let a = r.apply(RunnerMessage::SetVolume(500), false).unwrap();
    assert_eq!(a, vec![EngineAction::SetVolume(500)]);
    assert_eq!(r.volume(), 500);
}

#[test]
fn set_volume_out_of_range_is_clamped_to_full_scale() {
    let mut r = Runner::new(String::from("/m"), queue_abc(), 300);
    let a = r.apply(RunnerMessage::SetVolume(4321), false).unwrap();
    assert_eq!(a, vec![EngineAction::SetVolume(1000)]);
    assert_eq!(r.volume(), 1000);
}

#[test]
fn toggle_pause_twice_from_playing_returns_to_playing() {
    let mut r = Runner::new(String::from("/m"), queue_abc(), 1000);
    r.apply(RunnerMessage::Play, false).unwrap();
    assert_eq!(r.playback(), Playback::Playing);
    r.apply(RunnerMessage::TogglePause, false).unwrap();
    assert_eq!(r.playback(), Playback::Paused);
    r.apply(RunnerMessage::TogglePause, false).unwrap();
    assert_eq!(r.playback(), Playback::Playing);
}

#[test]
fn toggle_pause_twice_from_paused_returns_to_paused() {
    let mut r = Runner::new(String::from("/m"), queue_abc(), 1000);
    r.apply(RunnerMessage::Play, false).unwrap();
    r.apply(RunnerMessage::Pause, false).unwrap();
    assert_eq!(r.playback(), Playback::Paused);
    r.apply(RunnerMessage::TogglePause, false).unwrap();
    assert_eq!(r.playback(), Playback::Playing);
    r.apply(RunnerMessage::TogglePause, false).unwrap();
    assert_eq!(r.playback(), Playback::Paused);
}

#[test]
fn resuming_after_engine_ended_advances_to_next_track() {
    let mut r = Runner::new(String::from("/m"), queue_abc(), 1000);
    r.apply(RunnerMessage::Play, false).unwrap();
    r.apply(RunnerMessage::Pause, false).unwrap();
    let a = r.apply(RunnerMessage::TogglePause, true).unwrap();
    assert_eq!(a, vec![EngineAction::EndCurrent, EngineAction::Play(1)]);
    assert_eq!(r.index(), 1);
    assert_eq!(r.playback(), Playback::Playing);
}

#[test]
fn commands_needing_a_track_fail_on_empty_or_stopped() {
    let mut empty = Runner::new(String::from("/m"), Vec::new(), 1000);
    assert_eq!(empty.apply(RunnerMessage::PlayNext, false).unwrap_err(), RunnerError::EmptyQueue);
    assert_eq!(
        empty.apply(RunnerMessage::PlayPrevious, false).unwrap_err(),
        RunnerError::EmptyQueue
    );
    assert_eq!(empty.apply(RunnerMessage::Play, false).unwrap_err(), RunnerError::EmptyQueue);
    assert_eq!(
        empty.apply(RunnerMessage::TogglePause, false).unwrap_err(),
        RunnerError::EmptyQueue
    );

    let mut stopped = Runner::new(String::from("/m"), queue_abc(), 1000);
    assert_eq!(stopped.apply(RunnerMessage::Pause, false).unwrap_err(), RunnerError::NoTrackLoaded);
    assert_eq!(
        stopped.apply(RunnerMessage::Seek(Seek::Absolute(1000)), false).unwrap_err(),
        RunnerError::NoTrackLoaded
    );
}

#[test]
fn seek_pauses_moves_and_resumes_only_if_playing() {
    let mut r = Runner::new(String::from("/m"), queue_abc(), 1000);
    r.apply(RunnerMessage::Play, false).unwrap();
    // the engine reported a 200 s track, play head at 60 s
    r.update_time(TrackTime { pos_secs: 60, pos_millis: 0, len_secs: 200, len_millis: 0 });
    let a = r.apply(RunnerMessage::Seek(Seek::Relative(-30_500)), false).unwrap();
    assert_eq!(
        a,
        vec![EngineAction::Pause, EngineAction::SeekTo(29, 500), EngineAction::Unpause]
    );
    assert_eq!(r.time().pos_secs, 29);
    assert_eq!(r.time().pos_millis, 500);
    assert_eq!(r.playback(), Playback::Playing);

    // while paused, no unpause is demanded and the clamp holds at the end
    r.apply(RunnerMessage::Pause, false).unwrap();
    let a = r.apply(RunnerMessage::Seek(Seek::Absolute(999_999_999)), false).unwrap();
    assert_eq!(a, vec![EngineAction::Pause, EngineAction::SeekTo(200, 0)]);
    assert_eq!(r.playback(), Playback::Paused);

    // a large backwards offset clamps at the start
    let a = r.apply(RunnerMessage::Seek(Seek::Relative(-9_000_000)), false).unwrap();
    assert_eq!(a, vec![EngineAction::Pause, EngineAction::SeekTo(0, 0)]);
}

#[test]
fn natural_end_of_track_advances_or_stops() {
    let mut r = Runner::new(String::from("/m"), queue_abc(), 1000);
    r.apply(RunnerMessage::PlayTrack(2), false).unwrap();
    let a = r.on_track_end();
    assert_eq!(a, vec![EngineAction::EndCurrent, EngineAction::Play(0)]);
    assert_eq!(r.index(), 0);
    assert_eq!(r.playback(), Playback::Playing);

    let mut empty = Runner::new(String::from("/m"), Vec::new(), 1000);
    let a = empty.on_track_end();
    assert!(a.is_empty());
    assert_eq!(empty.playback(), Playback::Stopped);
}

#[test]
fn get_path_for_file_joins_folder_and_name() {
    let r = Runner::new(String::from("/music"), queue_abc(), 1000);
    assert_eq!(r.get_path_for_file(1), String::from("/music/B.mp3"));
}

#[test]
fn previous_restarts_the_track_only_in_its_first_two_seconds() {
    assert_eq!(previous_intent(0), RunnerMessage::Seek(Seek::Absolute(0)));
    assert_eq!(previous_intent(1), RunnerMessage::Seek(Seek::Absolute(0)));
    assert_eq!(previous_intent(2), RunnerMessage::PlayPrevious);
    assert_eq!(previous_intent(100), RunnerMessage::PlayPrevious);
}

#[test]
fn constructor_clamps_the_saved_volume() {
    let r = Runner::new(String::from("/m"), queue_abc(), 9999);
    assert_eq!(r.volume(), 1000);
}
