//! Video-side decisions: the external tools, containers, frame sizes and
//! where the takes go on the master track.

use vstd::prelude::*;

use crate::util::{ascii_lower, chars_of, to_ascii_lower};

verus! {

/// The names of the missing tools, comma separated.
pub open spec fn missing_tools(ffmpeg_found: bool, ffprobe_found: bool) -> Seq<char> {
    if !ffmpeg_found && !ffprobe_found {
        "ffmpeg, ffprobe"@
    } else if !ffmpeg_found {
        "ffmpeg"@
    } else {
        "ffprobe"@
    }
}

/// The startup check of the environment: both `ffmpeg` and `ffprobe` must be
/// runnable, otherwise the message names the missing ones.
pub fn check_tools(ffmpeg_found: bool, ffprobe_found: bool) -> (r: Result<(), String>)
    ensures
        r is Ok <==> ffmpeg_found && ffprobe_found,
        r matches Err(message) ==> message@ == "Не найдено в PATH: "@ + missing_tools(
            ffmpeg_found,
            ffprobe_found,
        ) + ". Установите ffmpeg и перезапустите приложение"@,
{
    if ffmpeg_found && ffprobe_found {
        return Ok(());
    }
    let mut message = String::from_str("Не найдено в PATH: ");
    if !ffmpeg_found && !ffprobe_found {
        message.append("ffmpeg, ffprobe");
    } else if !ffmpeg_found {
        message.append("ffmpeg");
    } else {
        message.append("ffprobe");
    }
    message.append(". Установите ffmpeg и перезапустите приложение");
    Err(message)
}

/// Whether a file extension names an MP4-like container (`mp4`, `m4v`, `mov`
/// in any letter case), for which the export moves the index to the front.
pub open spec fn mp4_like(extension: Option<Seq<char>>) -> bool {
    match extension {
        Some(ext) => {
            let lower = ext.map_values(|c: char| ascii_lower(c));
            lower == "mp4"@ || lower == "m4v"@ || lower == "mov"@
        },
        None => false,
    }
}

/// The characters of an extension, when there is one.
pub open spec fn extension_view(extension: Option<&str>) -> Option<Seq<char>> {
    match extension {
        Some(ext) => Some(ext@),
        None => None,
    }
}

pub fn is_mp4_like(extension: Option<&str>) -> (r: bool)
    ensures
        r == mp4_like(extension_view(extension)),
{
    proof {
        reveal_strlit("mp4");
        reveal_strlit("m4v");
        reveal_strlit("mov");
        assert("mp4"@ =~= seq!['m', 'p', '4']);
        assert("m4v"@ =~= seq!['m', '4', 'v']);
        assert("mov"@ =~= seq!['m', 'o', 'v']);
    }
    match extension {
        None => false,
        Some(ext) => {
            let chars = chars_of(ext);
            let ghost lower = ext@.map_values(|c: char| ascii_lower(c));
            if chars.len() != 3 {
                assert(lower.len() != 3);
                assert(lower != "mp4"@ && lower != "m4v"@ && lower != "mov"@);
                return false;
            }
            let a = to_ascii_lower(chars[0]);
            let b = to_ascii_lower(chars[1]);
            let c = to_ascii_lower(chars[2]);
            assert(lower =~= seq![a, b, c]);
            let r = (a == 'm' && b == 'p' && c == '4') || (a == 'm' && b == '4' && c == 'v') || (a
                == 'm' && b == 'o' && c == 'v');
            assert(r == (lower == "mp4"@ || lower == "m4v"@ || lower == "mov"@));
            r
        },
    }
}

/// `value` rounded down to an even number.
pub open spec fn round_down_even(value: u32) -> u32 {
    (value - value % 2) as u32
}

fn clear_lowest_bit(value: u32) -> (r: u32)
    ensures
        r == round_down_even(value),
{
    assert(value & !1u32 == value - value % 2) by (bit_vector);
    value & !1u32
}

/// The width frames are decoded at: held to 64..=1920 pixels and even, as the
/// video scaler needs.
pub fn frame_width(requested: u32) -> (r: u32)
    ensures
        r == round_down_even(
            if requested < 64 {
                64
            } else if requested > 1920 {
                1920
            } else {
                requested
            },
        ),
        64 <= r <= 1920,
        r % 2 == 0,
{
    let clamped = if requested < 64 {
        64
    } else if requested > 1920 {
        1920
    } else {
        requested
    };
    clear_lowest_bit(clamped)
}

/// A scaled frame height made even and at least two pixels.
pub fn even_height(scaled: u32) -> (r: u32)
    ensures
        r == round_down_even(if scaled < 2 { 2 } else { scaled }),
        r >= 2,
        r % 2 == 0,
{
    let at_least_two = if scaled < 2 { 2 } else { scaled };
    let even = clear_lowest_bit(at_least_two);
    if even < 2 { 2 } else { even }
}

// Placement of takes on the master track, in samples.

/// The room a take at position `i` has before the next recorded take starts;
/// the last take is not held back.
pub open spec fn room(starts: Seq<usize>, i: int) -> usize {
    if i + 1 < starts.len() {
        if starts[i + 1] > starts[i] {
            (starts[i + 1] - starts[i]) as usize
        } else {
            0
        }
    } else {
        usize::MAX
    }
}

/// For takes starting at `starts` (in timeline order), how long each may run
/// before it would reach the next recorded take.
pub fn available_lengths(starts: &Vec<usize>) -> (r: Vec<usize>)
    ensures
        r@.len() == starts@.len(),
        forall|i: int| 0 <= i < starts@.len() ==> #[trigger] r@[i] == room(starts@, i),
        forall|i: int|
            0 <= i < starts@.len() - 1 && starts@[i] <= starts@[i + 1] ==> starts@[i] + #[trigger] r@[i]
                == starts@[i + 1],
        forall|i: int|
            0 <= i < starts@.len() - 1 && starts@[i] > starts@[i + 1] ==> #[trigger] r@[i] == 0,
        starts@.len() > 0 ==> r@[starts@.len() - 1] == usize::MAX,
{
    let mut r: Vec<usize> = Vec::new();
    let mut i: usize = 0;
    while i < starts.len()
        invariant
            i <= starts@.len(),
            r@.len() == i,
            forall|k: int| 0 <= k < i ==> #[trigger] r@[k] == room(starts@, k),
        decreases starts.len() - i,
    {
        let available = if i + 1 < starts.len() {
            starts[i + 1].saturating_sub(starts[i])
        } else {
            usize::MAX
        };
        r.push(available);
        i = i + 1;
    }
    r
}

/// A take of `len` samples cut to the room it has.
pub fn fitted_length(len: usize, available: usize) -> (r: usize)
    ensures
        r == if len > available { available } else { len },
{
    if len > available {
        available
    } else {
        len
    }
}

/// Takes placed in timeline order never run into each other: a take starting
/// at `starts[i]` and cut to its room ends no later than the next one starts.
pub proof fn placed_takes_do_not_overlap(starts: Seq<usize>, lens: Seq<usize>)
    requires
        lens.len() == starts.len(),
        forall|i: int, j: int| 0 <= i <= j < starts.len() ==> starts[i] <= starts[j],
    ensures
        forall|i: int|
            0 <= i < starts.len() - 1 ==> starts[i] + (if lens[i] > #[trigger] room(starts, i) {
                room(starts, i)
            } else {
                lens[i]
            }) <= starts[i + 1],
{
}

/// The end of the furthest placed take.
pub open spec fn placed_end(placed: Seq<(usize, usize)>) -> int
    decreases placed.len(),
{
    if placed.len() == 0 {
        0
    } else {
        let rest = placed_end(placed.drop_last());
        let last = placed.last().0 + placed.last().1;
        if last > rest {
            last
        } else {
            rest
        }
    }
}

proof fn lemma_placed_end(placed: Seq<(usize, usize)>)
    ensures
        placed_end(placed) >= 0,
        forall|i: int| 0 <= i < placed.len() ==> (#[trigger] placed[i]).0 + placed[i].1 <= placed_end(placed),
        placed_end(placed) == 0 || exists|i: int|
            0 <= i < placed.len() && placed_end(placed) == (#[trigger] placed[i]).0 + placed[i].1,
    decreases placed.len(),
{
    if placed.len() > 0 {
        let rest = placed.drop_last();
        lemma_placed_end(rest);
        assert forall|i: int| 0 <= i < placed.len() implies (#[trigger] placed[i]).0 + placed[i].1 <= placed_end(placed) by {
            if i < placed.len() - 1 {
                assert(placed[i] == rest[i]);
            }
        }
        if placed_end(placed) != 0 && placed_end(placed) == placed_end(rest) {
            let i = choose|i: int| 0 <= i < rest.len() && placed_end(rest) == (#[trigger] rest[i]).0 + rest[i].1;
            assert(placed[i] == rest[i]);
        } else if placed_end(placed) != 0 {
            assert(placed[placed.len() - 1] == placed.last());
        }
    }
}

/// The length of the master track: the original track, or further when a
/// placed take (start, length) runs past its end.
pub fn mix_length(original_len: usize, placed: &Vec<(usize, usize)>) -> (r: usize)
    requires
        forall|i: int| 0 <= i < placed@.len() ==> #[trigger] placed@[i].0 + placed@[i].1 <= usize::MAX,
    ensures
        r == if placed_end(placed@) > original_len {
            placed_end(placed@)
        } else {
            original_len as int
        },
        original_len <= r,
        forall|i: int| 0 <= i < placed@.len() ==> (#[trigger] placed@[i]).0 + placed@[i].1 <= r,
        r == original_len || exists|i: int|
            0 <= i < placed@.len() && r == (#[trigger] placed@[i]).0 + placed@[i].1,
{
    proof {
        lemma_placed_end(placed@);
    }
    let mut end: usize = 0;
    let mut i: usize = 0;
    while i < placed.len()
        invariant
            i <= placed@.len(),
            forall|k: int| 0 <= k < placed@.len() ==> #[trigger] placed@[k].0 + placed@[k].1 <= usize::MAX,
            end == placed_end(placed@.take(i as int)),
        decreases placed.len() - i,
    {
        let (start, len) = placed[i];
        assert(placed@.take(i + 1).drop_last() =~= placed@.take(i as int));
        let reach = start + len;
        if reach > end {
            end = reach;
        }
        i = i + 1;
    }
    assert(placed@.take(placed.len() as int) =~= placed@);
    if end > original_len {
        end
    } else {
        original_len
    }
}

} // verus!
