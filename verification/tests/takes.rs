use std::cell::RefCell;
use std::collections::HashSet;

use dubrust::project::{
    dubbed_file_name, last_take_file_name, project_folder_name, remap_takes, take_file_name,
    trash_file_name, trash_target_name, unique_take_name, TakeSlot,
};

/// A phrase on the timeline, in seconds.
struct Span {
    start: f32,
    end: f32,
}

/// Orders overlaps like the application does: zero when the phrases do not
/// overlap, otherwise the bit pattern of the positive overlap length.
fn overlap_key(old: &Span, fresh: &Span) -> u64 {
    let overlap = (old.end.min(fresh.end) - old.start.max(fresh.start)).max(0.0);
    if overlap > 0.0 {
        overlap.to_bits() as u64
    } else {
        0
    }
}

fn table(old: &[Span], fresh: &[Span]) -> Vec<Vec<u64>> {
    fresh
        .iter()
        .map(|f| old.iter().map(|o| overlap_key(o, f)).collect())
        .collect()
}

fn slot(file: Option<&str>, note: &str) -> TakeSlot {
    TakeSlot {
        recording_file: file.map(|f| f.to_string()),
        text_note: note.to_string(),
    }
}

#[test]
fn test_remap_takes_survives_reslice() {
    let old_spans = [Span { start: 0.0, end: 2.0 }, Span { start: 3.0, end: 5.0 }];
    let previous = vec![
        slot(Some("take_001_01.wav"), "первая реплика"),
        slot(Some("take_002_01.wav"), ""),
    ];

    let fresh_spans = [
        Span { start: 0.1, end: 1.9 },
        Span { start: 3.2, end: 4.8 },
        Span { start: 6.0, end: 7.0 },
    ];
    let mut fresh = vec![slot(None, ""), slot(None, ""), slot(None, "")];

    let restored = remap_takes(&previous, &mut fresh, &table(&old_spans, &fresh_spans));

    assert_eq!(restored, 2, "дубли потерялись при перенарезке");
    assert_eq!(fresh[0].recording_file, Some("take_001_01.wav".to_string()));
    assert_eq!(fresh[1].recording_file, Some("take_002_01.wav".to_string()));
    assert!(fresh[2].recording_file.is_none());
    assert_eq!(fresh[0].text_note, "первая реплика");

    // Один старый дубль не должен попасть в две новые фразы
    let split_spans = [Span { start: 0.0, end: 1.0 }, Span { start: 1.0, end: 2.0 }];
    let mut split = vec![slot(None, ""), slot(None, "")];
    let restored_split = remap_takes(&previous, &mut split, &table(&old_spans, &split_spans));
    assert_eq!(restored_split, 1);
}

#[test]
fn remap_prefers_largest_overlap_and_keeps_own_note() {
    let previous = vec![
        slot(Some("a.wav"), "old a"),
        slot(Some("b.wav"), "old b"),
        slot(None, "no take"),
    ];
    let mut fresh = vec![slot(None, "mine"), slot(None, "")];
    let overlap = vec![vec![5, 9, 20], vec![7, 0, 30]];
    let restored = remap_takes(&previous, &mut fresh, &overlap);
    assert_eq!(restored, 2);
    // fresh 0 takes "b" (9 > 5; the third has no take), keeps its own note
    assert_eq!(fresh[0].recording_file, Some("b.wav".to_string()));
    assert_eq!(fresh[0].text_note, "mine");
    // fresh 1: "b" is claimed, so "a" with the remaining overlap
    assert_eq!(fresh[1].recording_file, Some("a.wav".to_string()));
    assert_eq!(fresh[1].text_note, "old a");
}

#[test]
fn remap_ties_go_to_the_earlier_take() {
    let previous = vec![slot(Some("a.wav"), ""), slot(Some("b.wav"), "")];
    let mut fresh = vec![slot(Some("keep.wav"), "n")];
    let restored = remap_takes(&previous, &mut fresh, &vec![vec![4, 4]]);
    assert_eq!(restored, 1);
    assert_eq!(fresh[0].recording_file, Some("a.wav".to_string()));

    let mut untouched = vec![slot(Some("keep.wav"), "n")];
    let restored = remap_takes(&previous, &mut untouched, &vec![vec![0, 0]]);
    assert_eq!(restored, 0);
    assert_eq!(untouched[0].recording_file, Some("keep.wav".to_string()));
    assert_eq!(untouched[0].text_note, "n");
}

#[test]
fn take_names() {
    assert_eq!(take_file_name(7, 3), "take_007_03.wav");
    assert_eq!(take_file_name(1234, 100), "take_1234_100.wav");
    assert_eq!(last_take_file_name(2), "take_002_last.wav");
    assert_eq!(trash_file_name(3, "take_001_01.wav"), "03_take_001_01.wav");
}

#[test]
fn unique_take_name_skips_taken_names() {
    let existing: HashSet<String> = ["take_001_01.wav", "take_001_02.wav", "take_002_01.wav"]
        .iter()
        .map(|s| s.to_string())
        .collect();
    let name = unique_take_name(1, |candidate: &str| existing.contains(candidate));
    assert_eq!(name, "take_001_03.wav");
    let free = unique_take_name(3, |candidate: &str| existing.contains(candidate));
    assert_eq!(free, "take_003_01.wav");
    let calls = RefCell::new(0usize);
    let all_taken = unique_take_name(4, |_: &str| {
        *calls.borrow_mut() += 1;
        true
    });
    assert_eq!(all_taken, "take_004_last.wav");
    assert_eq!(*calls.borrow(), 9999);
}

#[test]
fn trash_names_avoid_collisions() {
    let trash: HashSet<String> = ["take_001_01.wav", "01_take_001_01.wav"]
        .iter()
        .map(|s| s.to_string())
        .collect();
    assert_eq!(
        trash_target_name("take_001_01.wav", |n: &str| trash.contains(n)),
        Some("02_take_001_01.wav".to_string())
    );
    assert_eq!(
        trash_target_name("take_005_01.wav", |n: &str| trash.contains(n)),
        Some("take_005_01.wav".to_string())
    );
}

#[test]
fn project_and_export_names() {
    assert_eq!(project_folder_name(Some("clip")), "clip.dubrust");
    assert_eq!(project_folder_name(None), "project.dubrust");
    assert_eq!(dubbed_file_name(Some("clip")), "clip_dubbed.mp4");
    assert_eq!(dubbed_file_name(None), "video_dubbed.mp4");
}
