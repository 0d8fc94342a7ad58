use dubrust::video::{available_lengths, fitted_length, mix_length};

#[test]
fn each_take_has_room_up_to_the_next() {
    assert_eq!(
        available_lengths(&vec![100, 250, 250, 900]),
        vec![150, 0, 650, usize::MAX]
    );
    assert_eq!(available_lengths(&vec![]), Vec::<usize>::new());
    assert_eq!(available_lengths(&vec![500, 300]), vec![0, usize::MAX]);
}

#[test]
fn takes_are_cut_to_their_room() {
    assert_eq!(fitted_length(200, 150), 150);
    assert_eq!(fitted_length(100, 150), 100);
    assert_eq!(fitted_length(0, 0), 0);
}

#[test]
fn master_track_covers_the_original_and_every_take() {
    assert_eq!(mix_length(1000, &vec![(100, 50), (900, 300)]), 1200);
    assert_eq!(mix_length(1000, &vec![(100, 50)]), 1000);
    assert_eq!(mix_length(0, &vec![]), 0);
    assert_eq!(mix_length(0, &vec![(10, 0)]), 10);
}
