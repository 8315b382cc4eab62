use tf2tts::audio_player::{
    clip_format, find_device, mp3_timing, playback_nanos, wav_timing, ClipFormat, ClipTiming, Error, KeySignal,
    PushToTalk, TimeBase,
};

#[test]
fn known_extensions() {
    assert_eq!(clip_format(Some("wav")), Ok(ClipFormat::Wav));
    assert_eq!(clip_format(Some("mp3")), Ok(ClipFormat::Mp3));
}

#[test]
fn missing_and_unsupported_extensions() {
    assert_eq!(clip_format(None), Err(Error::MissingExtension));
    assert_eq!(clip_format(Some("ogg")), Err(Error::UnsupportedExtension));
    assert_eq!(clip_format(Some("WAV")), Err(Error::UnsupportedExtension));
    assert_eq!(clip_format(Some("")), Err(Error::UnsupportedExtension));
    assert_eq!(clip_format(Some("mp34")), Err(Error::UnsupportedExtension));
}

#[test]
fn wav_sleeps_for_reported_duration() {
    let t = wav_timing(Some(1_500_000_000)).unwrap();
    assert_eq!(playback_nanos(&t), 1_500_000_000);
    assert_eq!(wav_timing(None), Err(Error::WavDurationNotFound));
}

#[test]
fn mp3_sleeps_for_frames_times_time_base() {
    let t = mp3_timing(Some(115_200), Some(TimeBase { numer: 1, denom: 44_100 })).unwrap();
    // 115200 / 44100 s = 2.612244897... s
    assert_eq!(playback_nanos(&t), 2_612_244_897);
    let t2 = mp3_timing(Some(3), Some(TimeBase { numer: 2, denom: 4 })).unwrap();
    assert_eq!(playback_nanos(&t2), 1_500_000_000);
}

#[test]
fn mp3_largest_values_do_not_overflow() {
    let t = ClipTiming::Mp3 { n_frames: u64::MAX, time_base: TimeBase { numer: u32::MAX, denom: 1 } };
    assert_eq!(playback_nanos(&t), (u64::MAX as u128) * (u32::MAX as u128) * 1_000_000_000);
}

#[test]
fn mp3_without_metadata_is_an_error() {
    assert_eq!(mp3_timing(None, Some(TimeBase { numer: 1, denom: 1 })), Err(Error::Mp3DurationNotFound));
    assert_eq!(mp3_timing(Some(10), None), Err(Error::Mp3DurationNotFound));
    assert_eq!(mp3_timing(Some(10), Some(TimeBase { numer: 1, denom: 0 })), Err(Error::Mp3DurationNotFound));
}

#[test]
fn key_pressed_once_per_burst() {
    let mut ptt = PushToTalk::new();
    assert!(!ptt.is_key_held());
    assert_eq!(ptt.on_clip_received(), Some(KeySignal::Press));
    assert_eq!(ptt.on_clip_done(false), None);
    assert_eq!(ptt.on_clip_received(), None);
    assert_eq!(ptt.on_clip_done(false), None);
    assert_eq!(ptt.on_clip_received(), None);
    assert_eq!(ptt.on_clip_done(true), Some(KeySignal::Release));
    assert!(!ptt.is_key_held());
    assert_eq!(ptt.on_clip_received(), Some(KeySignal::Press));
    assert!(ptt.is_key_held());
}

#[test]
fn key_never_released_twice() {
    let mut ptt = PushToTalk::new();
    assert_eq!(ptt.on_clip_done(true), None);
    assert_eq!(ptt.on_clip_received(), Some(KeySignal::Press));
    assert_eq!(ptt.on_clip_done(true), Some(KeySignal::Release));
    assert_eq!(ptt.on_clip_done(true), None);
}

#[test]
fn first_device_with_the_name_is_chosen() {
    let names = vec![
        Some("Speakers".to_string()),
        None,
        Some("CABLE Input (VB-Audio Virtual Cable)".to_string()),
        Some("CABLE Input (VB-Audio Virtual Cable)".to_string()),
    ];
    assert_eq!(find_device(&names, "CABLE Input (VB-Audio Virtual Cable)"), Some(2));
    assert_eq!(find_device(&names, "Speakers"), Some(0));
    assert_eq!(find_device(&names, "Headphones"), None);
    assert_eq!(find_device(&Vec::new(), "Speakers"), None);
}
