//! File names of recorded takes, and the carry-over of takes onto a fresh
//! phrase split.

use vstd::prelude::*;

use crate::util::{decimal, zero_pad, zero_padded, zero_padded_denotes_number};

verus! {

/// Highest attempt number tried before a take falls back to the `_last` name.
pub const MAX_TAKE_ATTEMPT: usize = 9999;

/// `take_007_03.wav`: the phrase number padded to three digits, the attempt to two.
pub open spec fn take_name(segment_id: nat, attempt: nat) -> Seq<char> {
    "take_"@ + zero_pad(decimal(segment_id), 3) + "_"@ + zero_pad(decimal(attempt), 2) + ".wav"@
}

/// `take_007_last.wav`: the name used once every numbered attempt is taken.
pub open spec fn last_take_name(segment_id: nat) -> Seq<char> {
    "take_"@ + zero_pad(decimal(segment_id), 3) + "_last.wav"@
}

/// `03_take_007_01.wav`: a trashed take renamed to avoid a name already in the trash.
pub open spec fn trash_name(attempt: nat, name: Seq<char>) -> Seq<char> {
    zero_pad(decimal(attempt), 2) + "_"@ + name
}

pub fn take_file_name(segment_id: usize, attempt: usize) -> (r: String)
    ensures
        r@ == take_name(segment_id as nat, attempt as nat),
{
    let mut r = String::from_str("take_");
    let id = zero_padded(segment_id, 3);
    r.append(id.as_str());
    r.append("_");
    let n = zero_padded(attempt, 2);
    r.append(n.as_str());
    r.append(".wav");
    r
}

pub fn last_take_file_name(segment_id: usize) -> (r: String)
    ensures
        r@ == last_take_name(segment_id as nat),
{
    let mut r = String::from_str("take_");
    let id = zero_padded(segment_id, 3);
    r.append(id.as_str());
    r.append("_last.wav");
    r
}

pub fn trash_file_name(attempt: usize, name: &str) -> (r: String)
    ensures
        r@ == trash_name(attempt as nat, name@),
{
    let mut r = zero_padded(attempt, 2);
    r.append("_");
    r.append(name);
    r
}

/// The project folder next to a video: `<stem>.dubrust`, `project.dubrust`
/// when the video name has no usable stem.
pub open spec fn project_folder(stem: Option<Seq<char>>) -> Seq<char> {
    match stem {
        Some(name) => name + ".dubrust"@,
        None => "project.dubrust"@,
    }
}

pub fn project_folder_name(stem: Option<&str>) -> (r: String)
    ensures
        r@ == project_folder(
            match stem {
                Some(name) => Some(name@),
                None => None,
            },
        ),
{
    let mut r = match stem {
        Some(name) => String::from_str(name),
        None => String::from_str("project"),
    };
    r.append(".dubrust");
    proof {
        reveal_strlit("project");
        reveal_strlit(".dubrust");
        reveal_strlit("project.dubrust");
        assert("project"@ + ".dubrust"@ =~= "project.dubrust"@);
    }
    r
}

/// The file name offered for the exported video: `<stem>_dubbed.mp4`,
/// `video_dubbed.mp4` when the video name has no usable stem.
pub open spec fn dubbed_name(stem: Option<Seq<char>>) -> Seq<char> {
    match stem {
        Some(name) => name + "_dubbed.mp4"@,
        None => "video_dubbed.mp4"@,
    }
}

pub fn dubbed_file_name(stem: Option<&str>) -> (r: String)
    ensures
        r@ == dubbed_name(
            match stem {
                Some(name) => Some(name@),
                None => None,
            },
        ),
{
    let mut r = match stem {
        Some(name) => String::from_str(name),
        None => String::from_str("video"),
    };
    r.append("_dubbed.mp4");
    proof {
        reveal_strlit("video");
        reveal_strlit("_dubbed.mp4");
        reveal_strlit("video_dubbed.mp4");
        assert("video"@ + "_dubbed.mp4"@ =~= "video_dubbed.mp4"@);
    }
    r
}

/// Different attempts of a phrase get different file names, so a new take
/// never takes the name of an earlier one.
pub proof fn take_names_differ(segment_id: nat, first: nat, second: nat)
    requires
        first != second,
    ensures
        take_name(segment_id, first) != take_name(segment_id, second),
{
    let prefix = "take_"@ + zero_pad(decimal(segment_id), 3) + "_"@;
    let a = zero_pad(decimal(first), 2);
    let b = zero_pad(decimal(second), 2);
    zero_padded_denotes_number(first, 2);
    zero_padded_denotes_number(second, 2);
    if take_name(segment_id, first) == take_name(segment_id, second) {
        assert(take_name(segment_id, first) =~= prefix + a + ".wav"@);
        assert(take_name(segment_id, second) =~= prefix + b + ".wav"@);
        assert(a.len() == b.len());
        assert(a =~= (prefix + a + ".wav"@).subrange(prefix.len() as int, (prefix.len() + a.len()) as int));
        assert(b =~= (prefix + b + ".wav"@).subrange(prefix.len() as int, (prefix.len() + b.len()) as int));
    }
}

/// Whether `is_taken` answered `answer` to a name with the view `name`.
pub open spec fn answered<F: Fn(&str) -> bool>(is_taken: F, name: Seq<char>, answer: bool) -> bool {
    exists|s: &str| s@ == name && #[trigger] is_taken.ensures((s,), answer)
}

/// Picks the name of a new take of a phrase: the first numbered name, from
/// attempt 1 up to [`MAX_TAKE_ATTEMPT`], that `is_taken` reports free, so a new
/// recording never overwrites a take the player may still hold; when all are
/// taken, the `_last` name.
pub fn unique_take_name<F: Fn(&str) -> bool>(segment_id: usize, is_taken: F) -> (r: String)
    requires
        forall|name: &str| is_taken.requires((name,)),
    ensures
        (exists|k: int|
            1 <= k <= MAX_TAKE_ATTEMPT && r@ == #[trigger] take_name(segment_id as nat, k as nat) && answered(
                is_taken,
                r@,
                false,
            ) && forall|j: int|
                1 <= j < k ==> #[trigger] answered(
                    is_taken,
                    take_name(segment_id as nat, j as nat),
                    true,
                )) || (r@ == last_take_name(segment_id as nat) && forall|j: int|
            1 <= j <= MAX_TAKE_ATTEMPT ==> #[trigger] answered(
                is_taken,
                take_name(segment_id as nat, j as nat),
                true,
            )),
{
    let mut attempt: usize = 1;
    while attempt <= MAX_TAKE_ATTEMPT
        invariant
            1 <= attempt <= MAX_TAKE_ATTEMPT + 1,
            forall|name: &str| is_taken.requires((name,)),
            forall|j: int|
                1 <= j < attempt ==> #[trigger] answered(
                    is_taken,
                    take_name(segment_id as nat, j as nat),
                    true,
                ),
        decreases MAX_TAKE_ATTEMPT + 1 - attempt,
    {
        let candidate = take_file_name(segment_id, attempt);
        let name = candidate.as_str();
        let taken = is_taken(name);
        if !taken {
            assert(answered(is_taken, candidate@, false));
            let ghost k = attempt as int;
            assert(candidate@ == take_name(segment_id as nat, k as nat));
            assert(forall|j: int|
                1 <= j < k ==> #[trigger] answered(
                    is_taken,
                    take_name(segment_id as nat, j as nat),
                    true,
                ));
            return candidate;
        }
        assert(answered(is_taken, take_name(segment_id as nat, attempt as nat), true));
        attempt = attempt + 1;
    }
    last_take_file_name(segment_id)
}

/// Picks the name under which a take goes to the trash: its own name when that
/// is free there, else the first `NN_name` with `NN` counting from 1 that
/// `is_taken` reports free. `None` only when every counter value up to the
/// largest `usize` is taken.
pub fn trash_target_name<F: Fn(&str) -> bool>(name: &str, is_taken: F) -> (r: Option<String>)
    requires
        forall|s: &str| is_taken.requires((s,)),
    ensures
        r matches Some(found) ==> {
            ||| found@ == name@ && answered(is_taken, name@, false)
            ||| answered(is_taken, name@, true) && exists|k: int|
                1 <= k <= usize::MAX && found@ == #[trigger] trash_name(k as nat, name@)
                    && answered(is_taken, found@, false) && forall|j: int|
                    1 <= j < k ==> #[trigger] answered(
                        is_taken,
                        trash_name(j as nat, name@),
                        true,
                    )
        },
        r is None ==> answered(is_taken, name@, true) && forall|j: int|
            1 <= j <= usize::MAX ==> #[trigger] answered(
                is_taken,
                trash_name(j as nat, name@),
                true,
            ),
{
    let taken = is_taken(name);
    if !taken {
        assert(answered(is_taken, name@, false));
        return Some(String::from_str(name));
    }
    assert(answered(is_taken, name@, true));
    let mut attempt: usize = 1;
    loop
        invariant
            1 <= attempt,
            forall|s: &str| is_taken.requires((s,)),
            answered(is_taken, name@, true),
            forall|j: int|
                1 <= j < attempt ==> #[trigger] answered(
                    is_taken,
                    trash_name(j as nat, name@),
                    true,
                ),
        decreases usize::MAX - attempt,
    {
        let candidate = trash_file_name(attempt, name);
        let candidate_name = candidate.as_str();
        let busy = is_taken(candidate_name);
        if !busy {
            let ghost k = attempt as int;
            assert(answered(is_taken, candidate@, false));
            assert(candidate@ == trash_name(k as nat, name@));
            assert(forall|j: int|
                1 <= j < k ==> #[trigger] answered(
                    is_taken,
                    trash_name(j as nat, name@),
                    true,
                ));
            return Some(candidate);
        }
        assert(answered(is_taken, trash_name(attempt as nat, name@), true));
        if attempt == usize::MAX {
            return None;
        }
        attempt = attempt + 1;
    }
}

/// What the take carry-over reads and writes of a phrase: the take file and the note.
pub struct TakeSlot {
    pub recording_file: Option<String>,
    pub text_note: String,
}

/// Whether old phrase `j` can still give its take to a phrase whose overlap
/// keys with the old phrases are `row`.
pub open spec fn candidate(previous: Seq<TakeSlot>, used: Seq<bool>, row: Seq<u64>, j: int) -> bool {
    &&& !used[j]
    &&& previous[j].recording_file is Some
    &&& row[j] > 0
}

/// The best candidate among the first `k` old phrases: the largest overlap,
/// the lowest index among equals.
pub open spec fn best_candidate(
    previous: Seq<TakeSlot>,
    used: Seq<bool>,
    row: Seq<u64>,
    k: nat,
) -> Option<int>
    decreases k,
{
    if k == 0 {
        None
    } else {
        let best = best_candidate(previous, used, row, (k - 1) as nat);
        let j = k - 1;
        if candidate(previous, used, row, j) && (best is None || row[j] > row[best->0]) {
            Some(j)
        } else {
            best
        }
    }
}

/// The state of the carry-over after some of the fresh phrases.
pub struct Remap {
    /// The fresh phrases, the first ones already given their takes.
    pub slots: Seq<TakeSlot>,
    /// Which old phrases already gave their take away.
    pub used: Seq<bool>,
    /// For each fresh phrase handled so far, the old phrase it took over.
    pub source: Seq<Option<int>>,
    /// How many fresh phrases got a take.
    pub restored: nat,
}

/// The carry-over after the first `i` fresh phrases. Each takes over the take of
/// the old phrase it overlaps most among those not claimed yet; it keeps its own
/// note unless that note is empty.
pub open spec fn remapped(
    previous: Seq<TakeSlot>,
    fresh: Seq<TakeSlot>,
    overlap: Seq<Seq<u64>>,
    i: nat,
) -> Remap
    decreases i,
{
    if i == 0 {
        Remap {
            slots: fresh,
            used: Seq::new(previous.len(), |j: int| false),
            source: Seq::empty(),
            restored: 0,
        }
    } else {
        let before = remapped(previous, fresh, overlap, (i - 1) as nat);
        let at = i - 1;
        match best_candidate(previous, before.used, overlap[at], previous.len()) {
            Some(j) => {
                let note = if before.slots[at].text_note@.len() == 0 {
                    previous[j].text_note
                } else {
                    before.slots[at].text_note
                };
                Remap {
                    slots: before.slots.update(
                        at,
                        TakeSlot { recording_file: previous[j].recording_file, text_note: note },
                    ),
                    used: before.used.update(j, true),
                    source: before.source.push(Some(j)),
                    restored: before.restored + 1,
                }
            },
            None => Remap {
                slots: before.slots,
                used: before.used,
                source: before.source.push(None),
                restored: before.restored,
            },
        }
    }
}

/// The rows of the overlap table.
pub open spec fn rows(overlap: &Vec<Vec<u64>>) -> Seq<Seq<u64>> {
    overlap@.map_values(|row: Vec<u64>| row@)
}

fn clone_file(file: &Option<String>) -> (r: Option<String>)
    ensures
        r == *file,
{
    match file {
        Some(path) => Some(path.clone()),
        None => None,
    }
}

/// Carries recorded takes over onto a fresh split of the same audio, so that a
/// re-split loses no recording. `overlap[i][j]` orders how much fresh phrase `i`
/// overlaps old phrase `j`: zero when they do not overlap, otherwise larger for a
/// longer overlap. Returns how many fresh phrases got a take.
pub fn remap_takes(
    previous: &Vec<TakeSlot>,
    fresh: &mut Vec<TakeSlot>,
    overlap: &Vec<Vec<u64>>,
) -> (restored: usize)
    requires
        overlap.len() == old(fresh).len(),
        forall|i: int| 0 <= i < overlap.len() ==> #[trigger] overlap@[i].len() == previous.len(),
    ensures
        final(fresh)@ == remapped(previous@, old(fresh)@, rows(overlap), old(fresh)@.len()).slots,
        restored == remapped(previous@, old(fresh)@, rows(overlap), old(fresh)@.len()).restored,
{
    let ghost original = fresh@;
    let ghost table = rows(overlap);
    let count = fresh.len();
    let mut used: Vec<bool> = Vec::new();
    let mut k: usize = 0;
    while k < previous.len()
        invariant
            k <= previous.len(),
            used@ == Seq::new(k as nat, |j: int| false),
        decreases previous.len() - k,
    {
        used.push(false);
        assert(used@ =~= Seq::new((k + 1) as nat, |j: int| false));
        k = k + 1;
    }
    let mut restored: usize = 0;
    let mut i: usize = 0;
    while i < count
        invariant
            i <= count == original.len() == overlap.len(),
            table == rows(overlap),
            forall|r: int| 0 <= r < overlap.len() ==> #[trigger] overlap@[r].len() == previous.len(),
            fresh@ == remapped(previous@, original, table, i as nat).slots,
            used@ == remapped(previous@, original, table, i as nat).used,
            restored == remapped(previous@, original, table, i as nat).restored,
            restored <= i,
            fresh@.len() == count,
            used@.len() == previous.len(),
        decreases count - i,
    {
        let ghost before = remapped(previous@, original, table, i as nat);
        proof {
            lemma_remapped_lengths(previous@, original, table, i as nat);
        }
        let row = &overlap[i];
        assert(table[i as int] == row@);
        assert(overlap@[i as int].len() == previous.len());
        let mut best: Option<usize> = None;
        let mut j: usize = 0;
        while j < previous.len()
            invariant
                j <= previous.len() == row@.len() == used@.len(),
                best matches Some(b) ==> b < j,
                best_candidate(previous@, used@, row@, j as nat) == match best {
                    Some(b) => Some(b as int),
                    None => None::<int>,
                },
            decreases previous.len() - j,
        {
            if !used[j] && previous[j].recording_file.is_some() && row[j] > 0 {
                match best {
                    None => {
                        best = Some(j);
                    },
                    Some(b) => {
                        if row[j] > row[b] {
                            best = Some(j);
                        }
                    },
                }
            }
            j = j + 1;
        }
        match best {
            Some(b) => {
                used.set(b, true);
                let file = clone_file(&previous[b].recording_file);
                let note = if fresh[i].text_note.as_str().is_empty() {
                    previous[b].text_note.clone()
                } else {
                    fresh[i].text_note.clone()
                };
                fresh.set(i, TakeSlot { recording_file: file, text_note: note });
                restored = restored + 1;
            },
            None => {},
        }
        i = i + 1;
    }
    restored
}

/// The carry-over state has one flag per old phrase and one entry per handled fresh phrase.
pub proof fn lemma_remapped_lengths(
    previous: Seq<TakeSlot>,
    fresh: Seq<TakeSlot>,
    overlap: Seq<Seq<u64>>,
    i: nat,
)
    requires
        i <= fresh.len(),
    ensures
        remapped(previous, fresh, overlap, i).slots.len() == fresh.len(),
        remapped(previous, fresh, overlap, i).used.len() == previous.len(),
        remapped(previous, fresh, overlap, i).source.len() == i,
        remapped(previous, fresh, overlap, i).restored <= i,
    decreases i,
{
    if i > 0 {
        lemma_remapped_lengths(previous, fresh, overlap, (i - 1) as nat);
        lemma_best_candidate_valid(
            previous,
            remapped(previous, fresh, overlap, (i - 1) as nat).used,
            overlap[i - 1],
            previous.len(),
        );
    }
}

/// The best candidate, when there is one, is a candidate among the first `k`.
pub proof fn lemma_best_candidate_valid(
    previous: Seq<TakeSlot>,
    used: Seq<bool>,
    row: Seq<u64>,
    k: nat,
)
    ensures
        best_candidate(previous, used, row, k) matches Some(j) ==> 0 <= j < k && candidate(
            previous,
            used,
            row,
            j,
        ),
    decreases k,
{
    if k > 0 {
        lemma_best_candidate_valid(previous, used, row, (k - 1) as nat);
    }
}

/// How many entries hold a value.
pub open spec fn count_some(s: Seq<Option<int>>) -> nat
    decreases s.len(),
{
    if s.len() == 0 {
        0
    } else {
        count_some(s.drop_last()) + if s.last() is Some {
            1nat
        } else {
            0nat
        }
    }
}

/// What the carry-over state holds after the first `i` fresh phrases.
pub open spec fn remap_facts(
    previous: Seq<TakeSlot>,
    fresh: Seq<TakeSlot>,
    overlap: Seq<Seq<u64>>,
    i: nat,
) -> bool {
    let st = remapped(previous, fresh, overlap, i);
    &&& st.slots.len() == fresh.len()
    &&& st.used.len() == previous.len()
    &&& st.source.len() == i
    &&& st.restored == count_some(st.source)
    &&& forall|a: int| i <= a < fresh.len() ==> #[trigger] st.slots[a] == fresh[a]
    &&& forall|a: int|
        0 <= a < i ==> match #[trigger] st.source[a] {
            Some(j) => {
                &&& 0 <= j < previous.len()
                &&& st.used[j]
                &&& previous[j].recording_file is Some
                &&& overlap[a][j] > 0
                &&& st.slots[a].recording_file == previous[j].recording_file
                &&& st.slots[a].text_note == if fresh[a].text_note@.len() == 0 {
                    previous[j].text_note
                } else {
                    fresh[a].text_note
                }
            },
            None => st.slots[a] == fresh[a],
        }
    &&& forall|a: int, b: int|
        0 <= a < b < i && #[trigger] st.source[a] is Some && #[trigger] st.source[b] is Some
            ==> st.source[a] != st.source[b]
    &&& forall|j: int|
        0 <= j < previous.len() && #[trigger] st.used[j] ==> exists|a: int|
            0 <= a < i && #[trigger] st.source[a] == Some(j)
}

proof fn lemma_remap_facts(
    previous: Seq<TakeSlot>,
    fresh: Seq<TakeSlot>,
    overlap: Seq<Seq<u64>>,
    i: nat,
)
    requires
        i <= fresh.len(),
        overlap.len() == fresh.len(),
        forall|r: int| 0 <= r < overlap.len() ==> #[trigger] overlap[r].len() == previous.len(),
    ensures
        remap_facts(previous, fresh, overlap, i),
    decreases i,
{
    if i > 0 {
        let at = i - 1;
        lemma_remap_facts(previous, fresh, overlap, (i - 1) as nat);
        let before = remapped(previous, fresh, overlap, (i - 1) as nat);
        let st = remapped(previous, fresh, overlap, i);
        lemma_best_candidate_valid(previous, before.used, overlap[at], previous.len());
        assert(st.source.drop_last() =~= before.source);
        assert(overlap[at].len() == previous.len());
        match best_candidate(previous, before.used, overlap[at], previous.len()) {
            Some(j) => {
                assert(!before.used[j]);
                assert forall|a: int, b: int|
                    0 <= a < b < i && #[trigger] st.source[a] is Some
                        && #[trigger] st.source[b] is Some implies st.source[a]
                    != st.source[b] by {
                    if b == at {
                        if st.source[a] == st.source[b] {
                            assert(before.source[a] == Some(j));
                            assert(before.used[j]);
                        }
                    } else {
                        assert(before.source[a] == st.source[a]);
                        assert(before.source[b] == st.source[b]);
                    }
                }
                assert forall|q: int|
                    0 <= q < previous.len() && #[trigger] st.used[q] implies exists|a: int|
                        0 <= a < i && #[trigger] st.source[a] == Some(q) by {
                    if q == j {
                        assert(st.source[at] == Some(q));
                    } else {
                        assert(before.used[q]);
                        let a = choose|a: int| 0 <= a < i - 1 && #[trigger] before.source[a] == Some(q);
                        assert(st.source[a] == Some(q));
                    }
                }
                assert forall|a: int| 0 <= a < i implies match #[trigger] st.source[a] {
                    Some(j) => {
                        &&& 0 <= j < previous.len()
                        &&& st.used[j]
                        &&& previous[j].recording_file is Some
                        &&& overlap[a][j] > 0
                        &&& st.slots[a].recording_file == previous[j].recording_file
                        &&& st.slots[a].text_note == if fresh[a].text_note@.len() == 0 {
                            previous[j].text_note
                        } else {
                            fresh[a].text_note
                        }
                    },
                    None => st.slots[a] == fresh[a],
                } by {
                    if a < at {
                        assert(st.source[a] == before.source[a]);
                        assert(st.slots[a] == before.slots[a]);
                    } else {
                        assert(before.slots[at] == fresh[at]);
                    }
                }
            },
            None => {
                assert forall|a: int, b: int|
                    0 <= a < b < i && #[trigger] st.source[a] is Some
                        && #[trigger] st.source[b] is Some implies st.source[a]
                    != st.source[b] by {
                    assert(b != at);
                    assert(before.source[a] == st.source[a]);
                    assert(before.source[b] == st.source[b]);
                }
                assert forall|q: int|
                    0 <= q < previous.len() && #[trigger] st.used[q] implies exists|a: int|
                        0 <= a < i && #[trigger] st.source[a] == Some(q) by {
                    let a = choose|a: int| 0 <= a < i - 1 && #[trigger] before.source[a] == Some(q);
                    assert(st.source[a] == Some(q));
                }
                assert forall|a: int| 0 <= a < i implies match #[trigger] st.source[a] {
                    Some(j) => {
                        &&& 0 <= j < previous.len()
                        &&& st.used[j]
                        &&& previous[j].recording_file is Some
                        &&& overlap[a][j] > 0
                        &&& st.slots[a].recording_file == previous[j].recording_file
                        &&& st.slots[a].text_note == if fresh[a].text_note@.len() == 0 {
                            previous[j].text_note
                        } else {
                            fresh[a].text_note
                        }
                    },
                    None => st.slots[a] == fresh[a],
                } by {
                    if a < at {
                        assert(st.source[a] == before.source[a]);
                    }
                }
            },
        }
    }
}

/// Re-splitting keeps the work: after [`remap_takes`], every fresh phrase either
/// took over the take of exactly one old phrase that has a take and overlaps it,
/// or is left as it was; no old take goes to two fresh phrases; the returned
/// count is the number of fresh phrases that took a take over; and a fresh
/// phrase keeps its own note unless that note is empty.
pub proof fn remap_gives_each_take_once(
    previous: Seq<TakeSlot>,
    fresh: Seq<TakeSlot>,
    overlap: Seq<Seq<u64>>,
)
    requires
        overlap.len() == fresh.len(),
        forall|r: int| 0 <= r < overlap.len() ==> #[trigger] overlap[r].len() == previous.len(),
    ensures
        ({
            let st = remapped(previous, fresh, overlap, fresh.len());
            &&& st.slots.len() == fresh.len()
            &&& st.source.len() == fresh.len()
            &&& st.restored == count_some(st.source)
            &&& forall|a: int|
                0 <= a < fresh.len() ==> match #[trigger] st.source[a] {
                    Some(j) => {
                        &&& 0 <= j < previous.len()
                        &&& previous[j].recording_file is Some
                        &&& overlap[a][j] > 0
                        &&& st.slots[a].recording_file == previous[j].recording_file
                        &&& st.slots[a].text_note == if fresh[a].text_note@.len() == 0 {
                            previous[j].text_note
                        } else {
                            fresh[a].text_note
                        }
                    },
                    None => st.slots[a] == fresh[a],
                }
            &&& forall|a: int, b: int|
                0 <= a < b < fresh.len() && #[trigger] st.source[a] is Some
                    && #[trigger] st.source[b] is Some ==> st.source[a] != st.source[b]
        }),
{
    lemma_remap_facts(previous, fresh, overlap, fresh.len());
}

/// Once fresh phrase `a` is handled, the old phrase it took over stays recorded
/// for it while the later fresh phrases are handled.
proof fn lemma_source_stays(
    previous: Seq<TakeSlot>,
    fresh: Seq<TakeSlot>,
    overlap: Seq<Seq<u64>>,
    a: int,
    k: nat,
)
    requires
        0 <= a < k <= fresh.len(),
    ensures
        remapped(previous, fresh, overlap, k).source[a] == remapped(
            previous,
            fresh,
            overlap,
            (a + 1) as nat,
        ).source[a],
    decreases k,
{
    if k > a + 1 {
        lemma_source_stays(previous, fresh, overlap, a, (k - 1) as nat);
        lemma_remapped_lengths(previous, fresh, overlap, (k - 1) as nat);
    }
}

/// No recording is lost while a free one fits: whenever an old phrase `q` has a
/// take, overlaps fresh phrase `a`, and no earlier fresh phrase took it over,
/// fresh phrase `a` takes over a take, and the one it takes overlaps it at
/// least as much as `q` does (strictly more when `q` comes first). So a fresh
/// phrase is left without a take only when every old take that overlaps it went
/// to an earlier fresh phrase, and the take it gets is the one that overlaps it
/// most among the takes still free, not among all of them.
pub proof fn remap_takes_the_best_free_take(
    previous: Seq<TakeSlot>,
    fresh: Seq<TakeSlot>,
    overlap: Seq<Seq<u64>>,
    a: int,
    q: int,
)
    requires
        overlap.len() == fresh.len(),
        forall|r: int| 0 <= r < overlap.len() ==> #[trigger] overlap[r].len() == previous.len(),
        0 <= a < fresh.len(),
        0 <= q < previous.len(),
        previous[q].recording_file is Some,
        overlap[a][q] > 0,
        forall|b: int|
            0 <= b < a ==> #[trigger] remapped(previous, fresh, overlap, fresh.len()).source[b]
                != Some(q),
    ensures
        remapped(previous, fresh, overlap, fresh.len()).source[a] matches Some(j) && 0 <= j
            < previous.len() && overlap[a][q] <= overlap[a][j] && (q < j ==> overlap[a][q]
            < overlap[a][j]),
{
    let n = fresh.len();
    let st = remapped(previous, fresh, overlap, n);
    let before = remapped(previous, fresh, overlap, a as nat);
    let row = overlap[a];
    lemma_remap_facts(previous, fresh, overlap, a as nat);
    lemma_remapped_lengths(previous, fresh, overlap, a as nat);
    if before.used[q] {
        let b = choose|b: int| 0 <= b < a && #[trigger] before.source[b] == Some(q);
        lemma_source_stays(previous, fresh, overlap, b, n);
        lemma_source_stays(previous, fresh, overlap, b, a as nat);
        assert(st.source[b] == Some(q));
    }
    assert(candidate(previous, before.used, row, q));
    best_candidate_overlaps_most(previous, before.used, row, previous.len());
    lemma_best_candidate_valid(previous, before.used, row, previous.len());
    lemma_source_stays(previous, fresh, overlap, a, n);
    let after = remapped(previous, fresh, overlap, (a + 1) as nat);
    assert(after.source[a] == best_candidate(previous, before.used, row, previous.len()));
}

/// The carry-over takes the take that overlaps a fresh phrase most: the best
/// candidate among the first `k` old phrases overlaps at least as much as every
/// other candidate there, and strictly more than every candidate before it;
/// there is none exactly when no old phrase there is a candidate.
pub proof fn best_candidate_overlaps_most(
    previous: Seq<TakeSlot>,
    used: Seq<bool>,
    row: Seq<u64>,
    k: nat,
)
    ensures
        best_candidate(previous, used, row, k) matches Some(j) ==> forall|q: int|
            0 <= q < k && #[trigger] candidate(previous, used, row, q) ==> row[q] <= row[j] && (q
                < j ==> row[q] < row[j]),
        best_candidate(previous, used, row, k) is None <==> forall|q: int|
            0 <= q < k ==> !#[trigger] candidate(previous, used, row, q),
    decreases k,
{
    if k > 0 {
        best_candidate_overlaps_most(previous, used, row, (k - 1) as nat);
        lemma_best_candidate_valid(previous, used, row, (k - 1) as nat);
    }
}

} // verus!
