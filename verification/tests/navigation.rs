use dubrust::audio::{is_complete_model, recording_too_short};
use dubrust::video::{check_tools, even_height, frame_width, is_mp4_like};
use dubrust::session::{next_empty_index, step_index};

#[test]
fn next_empty_searches_after_selection_and_wraps() {
    let takes = vec![true, false, true, false];
    assert_eq!(next_empty_index(&takes, None), Some(1));
    assert_eq!(next_empty_index(&takes, Some(0)), Some(1));
    assert_eq!(next_empty_index(&takes, Some(1)), Some(3));
    assert_eq!(next_empty_index(&takes, Some(3)), Some(1));
    assert_eq!(next_empty_index(&vec![false, true, true], Some(1)), Some(0));
}

#[test]
fn next_empty_reports_when_everything_is_dubbed() {
    assert_eq!(next_empty_index(&vec![true, true], Some(0)), None);
    assert_eq!(next_empty_index(&vec![], None), None);
    assert_eq!(next_empty_index(&vec![false], Some(0)), Some(0));
}

#[test]
fn step_stays_within_phrases() {
    assert_eq!(step_index(Some(0), -1, 3), Some(0));
    assert_eq!(step_index(Some(1), 1, 3), Some(2));
    assert_eq!(step_index(Some(2), 1, 3), Some(2));
    assert_eq!(step_index(None, 1, 3), Some(1));
    assert_eq!(step_index(None, -1, 3), Some(0));
    assert_eq!(step_index(Some(7), -1, 3), Some(2));
    assert_eq!(step_index(Some(0), 1, 0), None);
}

#[test]
fn tool_check_messages() {
    assert_eq!(check_tools(true, true), Ok(()));
    assert_eq!(
        check_tools(false, true),
        Err("Не найдено в PATH: ffmpeg. Установите ffmpeg и перезапустите приложение".to_string())
    );
    assert_eq!(
        check_tools(true, false),
        Err("Не найдено в PATH: ffprobe. Установите ffmpeg и перезапустите приложение".to_string())
    );
    assert_eq!(
        check_tools(false, false),
        Err(
            "Не найдено в PATH: ffmpeg, ffprobe. Установите ffmpeg и перезапустите приложение"
                .to_string()
        )
    );
}

#[test]
fn mp4_like_extensions() {
    assert!(is_mp4_like(Some("mp4")));
    assert!(is_mp4_like(Some("MOV")));
    assert!(is_mp4_like(Some("M4v")));
    assert!(!is_mp4_like(Some("mkv")));
    assert!(!is_mp4_like(Some("mp44")));
    assert!(!is_mp4_like(Some("")));
    assert!(!is_mp4_like(None));
}

#[test]
fn too_short_recordings() {
    assert!(recording_too_short(959, 48_000));
    assert!(!recording_too_short(960, 48_000));
    assert!(!recording_too_short(0, 0));
    assert!(recording_too_short(0, 44_100));
}

#[test]
fn frame_sizes_are_even() {
    assert_eq!(frame_width(720), 720);
    assert_eq!(frame_width(721), 720);
    assert_eq!(frame_width(10), 64);
    assert_eq!(frame_width(5000), 1920);
    assert_eq!(even_height(405), 404);
    assert_eq!(even_height(1), 2);
    assert_eq!(even_height(0), 2);
    assert_eq!(even_height(3), 2);
}

#[test]
fn model_size_check() {
    assert!(is_complete_model(165_612_636));
    assert!(!is_complete_model(10_000_000));
    assert!(!is_complete_model(0));
}
