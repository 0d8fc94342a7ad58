use dubrust::slicer::{backtrack_start, detect_ranges, FrameFlags};

fn frame(code: char) -> FrameFlags {
    // L — громкий, S — держит фразу, Q — тихий, . — ни то ни другое
    FrameFlags {
        loud: code == 'L',
        sustained: code == 'L' || code == 'S',
        quiet: code == 'Q',
    }
}

fn frames(pattern: &str) -> Vec<FrameFlags> {
    pattern.chars().map(frame).collect()
}

#[test]
fn range_opens_after_two_loud_frames_and_closes_after_silence() {
    let flags = frames("QQLLSS...");
    assert_eq!(detect_ranges(&flags, 2, 1, 5), vec![(2, 6)]);
}

#[test]
fn single_loud_frame_opens_nothing() {
    let flags = frames("..L..L..");
    assert_eq!(detect_ranges(&flags, 2, 1, 5), vec![]);
    assert_eq!(detect_ranges(&vec![], 2, 1, 5), vec![]);
}

#[test]
fn range_open_at_the_end_runs_to_the_last_frame() {
    let flags = frames("LLS");
    assert_eq!(detect_ranges(&flags, 3, 1, 5), vec![(0, 2)]);
}

#[test]
fn start_moves_back_at_most_lead_frames() {
    let flags = frames(".....LL");
    assert_eq!(detect_ranges(&flags, 3, 1, 2), vec![(3, 6)]);
    assert_eq!(backtrack_start(&flags, 5, 2), 3);
    assert_eq!(backtrack_start(&flags, 5, 10), 0);
    let quiet_gap = frames("..Q..LL");
    assert_eq!(backtrack_start(&quiet_gap, 5, 10), 3);
}

#[test]
fn two_phrases_with_tail_held_inside_the_track() {
    let flags = frames("LLS..LLS...");
    // the first phrase is voiced up to frame 2 and keeps a tail of three frames;
    // the tail of the second one is held to the last frame
    assert_eq!(detect_ranges(&flags, 2, 3, 0), vec![(0, 5), (5, 10)]);
}
