//! Phrase slicing: the frame-level speech search and what a slicing run reports.
//!
//! A speech range opens after two loud frames in a row (moved back over a soft
//! attack), stays open while frames hold on, and closes after enough silent
//! frames, keeping a short tail.

use vstd::prelude::*;

use crate::i18n::Lang;

verus! {

/// The engine that actually produced the phrases.
#[derive(Clone, Copy, Debug, PartialEq, Eq, Structural)]
pub enum VadEngine {
    FireRed,
    Dsp,
}

/// The label of an engine that produced phrases, in the given language.
pub open spec fn vad_engine_label(engine: VadEngine, lang: Lang) -> &'static str {
    match engine {
        VadEngine::FireRed => lang.texts().engine_firered,
        VadEngine::Dsp => lang.texts().engine_dsp,
    }
}

impl VadEngine {
    pub fn label(self, lang: Lang) -> (r: &'static str)
        ensures
            r == vad_engine_label(self, lang),
            self is Dsp ==> r == lang.texts().engine_dsp,
            self is FireRed ==> r == lang.texts().engine_firered,
    {
        let strings = lang.strings();
        match self {
            VadEngine::FireRed => strings.engine_firered,
            VadEngine::Dsp => strings.engine_dsp,
        }
    }
}

/// The report names the engine that really produced the phrases: the built-in
/// detector and the neural one get different labels in every language, each its
/// own entry of the language's table.
pub proof fn engine_labels_differ(lang: Lang)
    ensures
        vad_engine_label(VadEngine::Dsp, lang) == lang.texts().engine_dsp,
        vad_engine_label(VadEngine::FireRed, lang) == lang.texts().engine_firered,
        vad_engine_label(VadEngine::Dsp, lang)@ != vad_engine_label(VadEngine::FireRed, lang)@,
        lang == Lang::En ==> vad_engine_label(VadEngine::Dsp, lang)@ == "built-in detector"@,
        lang == Lang::Ru ==> vad_engine_label(VadEngine::Dsp, lang)@ == "встроенный детектор"@,
{
    reveal_strlit("built-in detector");
    reveal_strlit("FireRedVAD (neural SOTA)");
    reveal_strlit("встроенный детектор");
    reveal_strlit("FireRedVAD (нейросеть SOTA)");
    let dsp = vad_engine_label(VadEngine::Dsp, lang)@;
    let neural = vad_engine_label(VadEngine::FireRed, lang)@;
    assert(dsp[0] != neural[0]);
}

/// The outcome of a slicing run: which engine gave the phrases and, when the
/// neural detector could not, why the built-in one took over.
#[derive(Clone, Debug)]
pub struct SliceReport {
    pub engine: VadEngine,
    pub warning: Option<String>,
}

/// Frames in a row that must be loud to open a range.
pub const ONSET_FRAMES: usize = 2;

/// What the search reads of one analysis frame.
#[derive(Clone, Copy, Debug)]
pub struct FrameFlags {
    /// Loud enough to open a phrase.
    pub loud: bool,
    /// Loud enough, or hissing enough, to keep an open phrase going.
    pub sustained: bool,
    /// Near the noise floor and without hiss: a soft attack does not reach back over it.
    pub quiet: bool,
}

/// Where a range that opens at frame `index` really starts: moved back frame by
/// frame, not before frame `stop`, stopping in front of the first quiet frame.
pub open spec fn backtracked(quiet: Seq<bool>, index: int, stop: int) -> int
    decreases index,
{
    if index > stop && index > 0 && !quiet[index - 1] {
        backtracked(quiet, index - 1, stop)
    } else {
        index
    }
}

/// The search state before a frame.
pub struct Scan {
    /// The first frame of the open range, if one is open.
    pub open: Option<int>,
    /// Silent frames in a row inside the open range.
    pub silence: int,
    /// Loud frames in a row while no range is open.
    pub onset: int,
    /// The closed ranges, as first and last frame.
    pub ranges: Seq<(usize, usize)>,
}

pub open spec fn quiet_flags(flags: Seq<FrameFlags>) -> Seq<bool> {
    flags.map_values(|f: FrameFlags| f.quiet)
}

/// The search state after frame `index`.
pub open spec fn scan_step(
    flags: Seq<FrameFlags>,
    s: Scan,
    index: int,
    min_silence: int,
    tail: int,
    lead: int,
) -> Scan {
    let last = flags.len() - 1;
    match s.open {
        None => {
            if flags[index].loud {
                let onset = s.onset + 1;
                if onset >= ONSET_FRAMES {
                    let begin = index + 1 - onset;
                    let stop = if begin > lead { begin - lead } else { 0 };
                    Scan {
                        open: Some(backtracked(quiet_flags(flags), begin, stop)),
                        silence: 0,
                        onset,
                        ranges: s.ranges,
                    }
                } else {
                    Scan { onset, ..s }
                }
            } else {
                Scan { onset: 0, ..s }
            }
        },
        Some(begin) => {
            if flags[index].sustained {
                Scan { silence: 0, ..s }
            } else {
                let silence = s.silence + 1;
                if silence >= min_silence {
                    let last_voiced = if index > silence { index - silence } else { 0 };
                    let end = if last_voiced + tail < last { last_voiced + tail } else { last };
                    Scan {
                        open: None,
                        silence: 0,
                        onset: 0,
                        ranges: s.ranges.push((begin as usize, end as usize)),
                    }
                } else {
                    Scan { silence, ..s }
                }
            }
        },
    }
}

/// The search state after the first `count` frames.
pub open spec fn scanned(
    flags: Seq<FrameFlags>,
    count: nat,
    min_silence: int,
    tail: int,
    lead: int,
) -> Scan
    decreases count,
{
    if count == 0 {
        Scan { open: None, silence: 0, onset: 0, ranges: Seq::empty() }
    } else {
        scan_step(
            flags,
            scanned(flags, (count - 1) as nat, min_silence, tail, lead),
            count - 1,
            min_silence,
            tail,
            lead,
        )
    }
}

/// The speech ranges of a track, as first and last frame; a range still open
/// at the end of the track runs to the last frame.
pub open spec fn frame_ranges(
    flags: Seq<FrameFlags>,
    min_silence: int,
    tail: int,
    lead: int,
) -> Seq<(usize, usize)> {
    if flags.len() == 0 {
        Seq::empty()
    } else {
        let s = scanned(flags, flags.len(), min_silence, tail, lead);
        match s.open {
            Some(begin) => s.ranges.push((begin as usize, (flags.len() - 1) as usize)),
            None => s.ranges,
        }
    }
}

/// Moves the start of a range back over a soft attack, at most `limit` frames,
/// stopping in front of the first quiet frame.
pub fn backtrack_start(flags: &Vec<FrameFlags>, begin: usize, limit: usize) -> (r: usize)
    requires
        begin <= flags.len(),
    ensures
        r == backtracked(quiet_flags(flags@), begin as int, if begin > limit { begin - limit } else { 0 }),
        (if begin > limit { begin - limit } else { 0 }) <= r <= begin,
        forall|y: int| r <= y < begin ==> !(#[trigger] flags@[y]).quiet,
        r == (if begin > limit { begin - limit } else { 0 }) || flags@[r - 1].quiet,
{
    let stop = begin.saturating_sub(limit);
    let mut index = begin;
    proof {
        lemma_backtracked_stops(quiet_flags(flags@), begin as int, stop as int);
    }
    assert(forall|i: int| 0 <= i < flags@.len() ==> quiet_flags(flags@)[i] == #[trigger] flags@[i].quiet);
    while index > stop && !flags[index - 1].quiet
        invariant
            stop <= index <= begin <= flags.len(),
            backtracked(quiet_flags(flags@), begin as int, stop as int) == backtracked(
                quiet_flags(flags@),
                index as int,
                stop as int,
            ),
        decreases index,
    {
        index = index - 1;
    }
    index
}

proof fn lemma_backtracked_bounds(quiet: Seq<bool>, index: int, stop: int)
    requires
        0 <= index,
    ensures
        0 <= backtracked(quiet, index, stop) <= index,
        stop <= index ==> stop <= backtracked(quiet, index, stop),
    decreases index,
{
    if index > stop && index > 0 && !quiet[index - 1] {
        lemma_backtracked_bounds(quiet, index - 1, stop);
    }
}

/// What moving back over a soft attack gives: a start between `stop` and
/// `index`, no quiet frame from it up to `index`, and a quiet frame just before
/// it unless it stopped at `stop`.
proof fn lemma_backtracked_stops(quiet: Seq<bool>, index: int, stop: int)
    requires
        0 <= stop <= index,
    ensures
        stop <= backtracked(quiet, index, stop) <= index,
        forall|y: int| backtracked(quiet, index, stop) <= y < index ==> !#[trigger] quiet[y],
        backtracked(quiet, index, stop) == stop || quiet[backtracked(quiet, index, stop) - 1],
    decreases index,
{
    if index > stop && index > 0 && !quiet[index - 1] {
        lemma_backtracked_stops(quiet, index - 1, stop);
    }
}

proof fn lemma_scan_bounds(
    flags: Seq<FrameFlags>,
    count: nat,
    min_silence: int,
    tail: int,
    lead: int,
)
    requires
        count <= flags.len() <= usize::MAX,
        lead >= 0,
        tail >= 0,
    ensures
        ({
            let s = scanned(flags, count, min_silence, tail, lead);
            &&& 0 <= s.onset <= count
            &&& 0 <= s.silence <= count
            &&& s.open matches Some(b) ==> 0 <= b <= count - 1 - s.silence
            &&& forall|k: int|
                0 <= k < s.ranges.len() ==> (#[trigger] s.ranges[k]).0 <= s.ranges[k].1 < flags.len()
        }),
    decreases count,
{
    if count > 0 {
        lemma_scan_bounds(flags, (count - 1) as nat, min_silence, tail, lead);
        let s = scanned(flags, (count - 1) as nat, min_silence, tail, lead);
        let index = count - 1;
        let next = scanned(flags, count, min_silence, tail, lead);
        assert(next == scan_step(flags, s, index, min_silence, tail, lead));
        match s.open {
            None => {
                if flags[index].loud && s.onset + 1 >= ONSET_FRAMES {
                    let begin = index + 1 - (s.onset + 1);
                    let stop = if begin > lead { begin - lead } else { 0 };
                    lemma_backtracked_bounds(quiet_flags(flags), begin, stop);
                    assert(next.ranges == s.ranges);
                }
            },
            Some(b) => {
                if !flags[index].sustained && s.silence + 1 >= min_silence {
                    let silence = s.silence + 1;
                    let last_voiced = if index > silence { index - silence } else { 0 };
                    let end = if last_voiced + tail < flags.len() - 1 { last_voiced + tail } else { flags.len() - 1 };
                    assert(b <= last_voiced);
                    assert(next.ranges == s.ranges.push((b as usize, end as usize)));
                    assert forall|k: int| 0 <= k < next.ranges.len() implies (#[trigger] next.ranges[k]).0 <= next.ranges[k].1 < flags.len() by {
                        if k < s.ranges.len() {
                            assert(next.ranges[k] == s.ranges[k]);
                        }
                    }
                }
            },
        }
    }
}

/// Every speech range starts no later than it ends, and inside the track.
pub proof fn frame_ranges_are_ordered(
    flags: Seq<FrameFlags>,
    min_silence: int,
    tail: int,
    lead: int,
)
    requires
        flags.len() <= usize::MAX,
        tail >= 0,
        lead >= 0,
    ensures
        forall|k: int|
            0 <= k < frame_ranges(flags, min_silence, tail, lead).len() ==> (#[trigger] frame_ranges(
                flags,
                min_silence,
                tail,
                lead,
            )[k]).0 <= frame_ranges(flags, min_silence, tail, lead)[k].1 < flags.len(),
{
    if flags.len() > 0 {
        lemma_scan_bounds(flags, flags.len(), min_silence, tail, lead);
    }
}

/// Silent frames in a row that close a range: `min_silence`, and at least one.
pub open spec fn close_run(min_silence: int) -> int {
    if min_silence < 1 {
        1
    } else {
        min_silence
    }
}

/// The `len` frames from frame `from` on are all silent: none of them is sustained.
pub open spec fn silent_run(flags: Seq<FrameFlags>, from: int, len: int) -> bool {
    forall|y: int| from <= y < from + len ==> !(#[trigger] flags[y]).sustained
}

/// No `len` silent frames in a row lie within frames `lo` to `hi`.
pub open spec fn holds_on(flags: Seq<FrameFlags>, lo: int, hi: int, len: int) -> bool {
    forall|x: int| lo <= x && x + len - 1 <= hi ==> !#[trigger] silent_run(flags, x, len)
}

/// Where a range that opens at frame `o` starts: the first of the two loud
/// frames, moved back over the frames that are not quiet, at most `lead` frames
/// and not before the track, stopping in front of a quiet frame.
pub open spec fn phrase_start(flags: Seq<FrameFlags>, lead: int, first: int, o: int) -> bool {
    let stop = if o - 1 > lead { o - 1 - lead } else { 0 };
    &&& stop <= first <= o - 1
    &&& forall|y: int| first <= y < o - 1 ==> !(#[trigger] flags[y]).quiet
    &&& (first == stop || flags[first - 1].quiet)
}

/// A range from frame `first` to frame `end` that a silence closed. It opened
/// at a frame `o` that ends two loud frames in a row, and starts where
/// [`phrase_start`] puts it. The `close_run(min_silence)` frames up to a frame
/// `c` are silent, no such run lies between `o` and them, and the range ends
/// `tail` frames after the last frame before that run, at the last frame of the
/// track at most.
pub open spec fn closed_phrase(
    flags: Seq<FrameFlags>,
    min_silence: int,
    tail: int,
    lead: int,
    first: int,
    end: int,
) -> bool {
    let run = close_run(min_silence);
    exists|o: int, c: int|
        #![trigger flags[o], flags[c]]
        {
            &&& 0 <= first < o
            &&& phrase_start(flags, lead, first, o)
            &&& o + run <= c < flags.len()
            &&& flags[o - 1].loud
            &&& flags[o].loud
            &&& !flags[c].sustained
            &&& silent_run(flags, c - run + 1, run)
            &&& holds_on(flags, o + 1, c - 1, run)
            &&& end == if c - run + tail < flags.len() - 1 {
                c - run + tail
            } else {
                flags.len() - 1
            }
        }
}

/// A range from frame `first` still open when the track ends: it opened at a
/// frame `o` that ends two loud frames in a row, starts where [`phrase_start`]
/// puts it, no run of `close_run(min_silence)` silent frames follows `o`, and it
/// ends at the last frame.
pub open spec fn open_phrase(
    flags: Seq<FrameFlags>,
    min_silence: int,
    lead: int,
    first: int,
    end: int,
) -> bool {
    &&& end == flags.len() - 1
    &&& exists|o: int|
        #![trigger flags[o]]
        {
            &&& 0 <= first < o < flags.len()
            &&& phrase_start(flags, lead, first, o)
            &&& flags[o - 1].loud
            &&& flags[o].loud
            &&& holds_on(flags, o + 1, flags.len() - 1, close_run(min_silence))
        }
}

/// What the search state after the first `count` frames says of those frames.
spec fn scan_facts(
    flags: Seq<FrameFlags>,
    min_silence: int,
    tail: int,
    lead: int,
    count: int,
    s: Scan,
) -> bool {
    let run = close_run(min_silence);
    &&& forall|k: int|
        0 <= k < s.ranges.len() ==> closed_phrase(
            flags,
            min_silence,
            tail,
            lead,
            (#[trigger] s.ranges[k]).0 as int,
            s.ranges[k].1 as int,
        )
    &&& s.open is None ==> forall|y: int| count - s.onset <= y < count ==> (#[trigger] flags[y]).loud
    &&& s.open matches Some(b) ==> 0 <= s.silence < run && exists|o: int|
        #![trigger flags[o]]
        {
            &&& 0 <= b < o
            &&& phrase_start(flags, lead, b, o)
            &&& o + s.silence <= count - 1
            &&& flags[o - 1].loud
            &&& flags[o].loud
            &&& silent_run(flags, count - s.silence, s.silence)
            &&& (count - 1 - s.silence == o || flags[count - 1 - s.silence].sustained)
            &&& holds_on(flags, o + 1, count - 1, run)
        }
}

proof fn lemma_scan_facts(flags: Seq<FrameFlags>, min_silence: int, tail: int, lead: int, count: nat)
    requires
        count <= flags.len() <= usize::MAX,
        tail >= 0,
        lead >= 0,
    ensures
        scan_facts(flags, min_silence, tail, lead, count as int, scanned(flags, count, min_silence, tail, lead)),
    decreases count,
{
    if count > 0 {
        let index = count - 1;
        let run = close_run(min_silence);
        lemma_scan_facts(flags, min_silence, tail, lead, (count - 1) as nat);
        lemma_scan_bounds(flags, (count - 1) as nat, min_silence, tail, lead);
        let s = scanned(flags, (count - 1) as nat, min_silence, tail, lead);
        let next = scanned(flags, count, min_silence, tail, lead);
        assert(next == scan_step(flags, s, index, min_silence, tail, lead));
        match s.open {
            None => {
                if flags[index].loud && s.onset + 1 >= ONSET_FRAMES {
                    let begin = index + 1 - (s.onset + 1);
                    let stop = if begin > lead { begin - lead } else { 0 };
                    lemma_backtracked_bounds(quiet_flags(flags), begin, stop);
                    lemma_backtracked_stops(quiet_flags(flags), begin, stop);
                    let b = backtracked(quiet_flags(flags), begin, stop);
                    assert(next.open == Some(b));
                    assert(begin == index - 1);
                    assert forall|y: int| b <= y < index - 1 implies !(#[trigger] flags[y]).quiet by {
                        assert(quiet_flags(flags)[y] == flags[y].quiet);
                    }
                    if b != stop {
                        assert(quiet_flags(flags)[b - 1] == flags[b - 1].quiet);
                    }
                    assert(phrase_start(flags, lead, b, index));
                    assert(flags[index - 1].loud);
                    assert(holds_on(flags, index + 1, index, run));
                    assert(silent_run(flags, count as int, 0));
                    assert(flags[index].loud);
                } else if flags[index].loud {
                    assert forall|y: int| count - next.onset <= y < count implies (#[trigger] flags[y]).loud by {
                        if y < index {
                            assert(index - s.onset <= y);
                        }
                    }
                }
                assert(next.ranges == s.ranges);
            },
            Some(b) => {
                let o = choose|o: int|
                    #![trigger flags[o]]
                    {
                        &&& 0 <= b < o
                        &&& phrase_start(flags, lead, b, o)
                        &&& o + s.silence <= index - 1
                        &&& flags[o - 1].loud
                        &&& flags[o].loud
                        &&& silent_run(flags, index - s.silence, s.silence)
                        &&& (index - 1 - s.silence == o || flags[index - 1 - s.silence].sustained)
                        &&& holds_on(flags, o + 1, index - 1, run)
                    };
                if flags[index].sustained {
                    assert(next.open == Some(b) && next.silence == 0);
                    assert forall|x: int| o + 1 <= x && x + run - 1 <= index implies !#[trigger] silent_run(flags, x, run) by {
                        if x + run - 1 == index {
                            assert(flags[index].sustained);
                        } else {
                            assert(x + run - 1 <= index - 1);
                        }
                    }
                    assert(silent_run(flags, count as int, 0));
                    assert(flags[o].loud);
                    assert(next.ranges == s.ranges);
                } else if s.silence + 1 >= min_silence {
                    let c = index;
                    assert(s.silence + 1 == run);
                    let end = if c - run + tail < flags.len() - 1 { c - run + tail } else { flags.len() - 1 };
                    assert(next.ranges == s.ranges.push((b as usize, end as usize)));
                    assert(silent_run(flags, c - run + 1, run)) by {
                        assert forall|y: int| c - run + 1 <= y < c - run + 1 + run implies !(#[trigger] flags[y]).sustained by {
                            if y < index {
                                assert(index - s.silence <= y < index - s.silence + s.silence);
                            }
                        }
                    }
                    assert(closed_phrase(flags, min_silence, tail, lead, b, end)) by {
                        assert(flags[o].loud && !flags[c].sustained);
                    }
                    assert forall|k: int| 0 <= k < next.ranges.len() implies closed_phrase(
                        flags,
                        min_silence,
                        tail,
                        lead,
                        (#[trigger] next.ranges[k]).0 as int,
                        next.ranges[k].1 as int,
                    ) by {
                        if k < s.ranges.len() {
                            assert(next.ranges[k] == s.ranges[k]);
                        } else {
                            assert(next.ranges[k] == (b as usize, end as usize));
                        }
                    }
                } else {
                    let silence = s.silence + 1;
                    assert(next.open == Some(b) && next.silence == silence);
                    assert forall|y: int| count - silence <= y < count - silence + silence implies !(#[trigger] flags[y]).sustained by {
                        if y < index {
                            assert(index - s.silence <= y < index - s.silence + s.silence);
                        }
                    }
                    assert forall|x: int| o + 1 <= x && x + run - 1 <= index implies !#[trigger] silent_run(flags, x, run) by {
                        if x + run - 1 == index {
                            let z = index - silence;
                            assert(z != o);
                            assert(flags[z].sustained);
                        } else {
                            assert(x + run - 1 <= index - 1);
                        }
                    }
                    assert(flags[o].loud);
                    assert(next.ranges == s.ranges);
                }
            },
        }
    }
}

/// A range closes only after `min_silence` silent frames in a row (at least
/// one): every range of the track is either closed by such a run, with no such
/// run between its onset and that run and its end `tail` frames after the last
/// frame before the run, or it is the last range, still open when the track
/// ends. A sustained frame breaks a run of silent frames, so silent frames
/// scattered through a phrase never close it. Every range opens after two loud
/// frames in a row and starts at most `lead` frames before the first of them,
/// moved back only over frames that are not quiet.
pub proof fn phrases_close_only_after_silence(
    flags: Seq<FrameFlags>,
    min_silence: int,
    tail: int,
    lead: int,
)
    requires
        flags.len() <= usize::MAX,
        tail >= 0,
        lead >= 0,
    ensures
        forall|k: int|
            0 <= k < frame_ranges(flags, min_silence, tail, lead).len() ==> closed_phrase(
                flags,
                min_silence,
                tail,
                lead,
                (#[trigger] frame_ranges(flags, min_silence, tail, lead)[k]).0 as int,
                frame_ranges(flags, min_silence, tail, lead)[k].1 as int,
            ) || (k == frame_ranges(flags, min_silence, tail, lead).len() - 1 && open_phrase(
                flags,
                min_silence,
                lead,
                frame_ranges(flags, min_silence, tail, lead)[k].0 as int,
                frame_ranges(flags, min_silence, tail, lead)[k].1 as int,
            )),
{
    if flags.len() > 0 {
        let n = flags.len();
        lemma_scan_facts(flags, min_silence, tail, lead, n);
        lemma_scan_bounds(flags, n, min_silence, tail, lead);
        let s = scanned(flags, n, min_silence, tail, lead);
        let r = frame_ranges(flags, min_silence, tail, lead);
        match s.open {
            Some(b) => {
                assert(r == s.ranges.push((b as usize, (n - 1) as usize)));
                let o = choose|o: int|
                    #![trigger flags[o]]
                    {
                        &&& 0 <= b < o
                        &&& phrase_start(flags, lead, b, o)
                        &&& o + s.silence <= n - 1
                        &&& flags[o - 1].loud
                        &&& flags[o].loud
                        &&& silent_run(flags, n - s.silence, s.silence)
                        &&& (n - 1 - s.silence == o || flags[n - 1 - s.silence].sustained)
                        &&& holds_on(flags, o + 1, n - 1, close_run(min_silence))
                    };
                assert(open_phrase(flags, min_silence, lead, b, n - 1));
                assert forall|k: int| 0 <= k < r.len() - 1 implies r[k] == s.ranges[k] by {}
            },
            None => {},
        }
    }
}

/// The range from frame `first` is still open at frame `y`: it opened at a frame
/// `o` after `first` and up to `y` that ends two loud frames in a row, and no run
/// of `close_run(min_silence)` silent frames lies between `o` and `y`.
pub open spec fn open_at(flags: Seq<FrameFlags>, min_silence: int, first: int, y: int) -> bool {
    exists|o: int|
        #![trigger flags[o]]
        {
            &&& first < o <= y
            &&& flags[o - 1].loud
            &&& flags[o].loud
            &&& holds_on(flags, o + 1, y - 1, close_run(min_silence))
        }
}

/// Every loud pair among the first `count` frames lies in a range open there.
spec fn scan_covers(flags: Seq<FrameFlags>, min_silence: int, count: int, s: Scan) -> bool {
    &&& (s.open is None && count >= 1 && flags[count - 1].loud ==> s.onset >= 1)
    &&& forall|y: int|
        1 <= y < count && flags[y - 1].loud && (#[trigger] flags[y]).loud ==> (exists|k: int|
            0 <= k < s.ranges.len() && open_at(flags, min_silence, (#[trigger] s.ranges[k]).0 as int, y))
            || (s.open matches Some(b) && open_at(flags, min_silence, b, y))
}

proof fn lemma_scan_covers(flags: Seq<FrameFlags>, min_silence: int, tail: int, lead: int, count: nat)
    requires
        count <= flags.len() <= usize::MAX,
        tail >= 0,
        lead >= 0,
        forall|y: int| 0 <= y < flags.len() && (#[trigger] flags[y]).loud ==> flags[y].sustained,
    ensures
        scan_covers(flags, min_silence, count as int, scanned(flags, count, min_silence, tail, lead)),
    decreases count,
{
    if count > 0 {
        let index = count - 1;
        let run = close_run(min_silence);
        lemma_scan_covers(flags, min_silence, tail, lead, (count - 1) as nat);
        lemma_scan_facts(flags, min_silence, tail, lead, (count - 1) as nat);
        lemma_scan_bounds(flags, (count - 1) as nat, min_silence, tail, lead);
        let s = scanned(flags, (count - 1) as nat, min_silence, tail, lead);
        let next = scanned(flags, count, min_silence, tail, lead);
        assert(next == scan_step(flags, s, index, min_silence, tail, lead));
        match s.open {
            None => {
                assert(next.ranges == s.ranges);
                assert forall|y: int|
                    1 <= y < count && flags[y - 1].loud && (#[trigger] flags[y]).loud implies (exists|k: int|
                        0 <= k < next.ranges.len() && open_at(
                            flags,
                            min_silence,
                            (#[trigger] next.ranges[k]).0 as int,
                            y,
                        )) || (next.open matches Some(b) && open_at(flags, min_silence, b, y)) by {
                    if y == index {
                        assert(s.onset >= 1);
                        let begin = index + 1 - (s.onset + 1);
                        let stop = if begin > lead { begin - lead } else { 0 };
                        lemma_backtracked_bounds(quiet_flags(flags), begin, stop);
                        let b = backtracked(quiet_flags(flags), begin, stop);
                        assert(next.open == Some(b));
                        assert(holds_on(flags, index + 1, index - 1, run));
                        assert(flags[index].loud);
                        assert(open_at(flags, min_silence, b, y));
                    }
                }
            },
            Some(b) => {
                let o = choose|o: int|
                    #![trigger flags[o]]
                    {
                        &&& 0 <= b < o
                        &&& phrase_start(flags, lead, b, o)
                        &&& o + s.silence <= index - 1
                        &&& flags[o - 1].loud
                        &&& flags[o].loud
                        &&& silent_run(flags, index - s.silence, s.silence)
                        &&& (index - 1 - s.silence == o || flags[index - 1 - s.silence].sustained)
                        &&& holds_on(flags, o + 1, index - 1, run)
                    };
                let closes = !flags[index].sustained && s.silence + 1 >= min_silence;
                if closes {
                    let end = if index - run + tail < flags.len() - 1 {
                        index - run + tail
                    } else {
                        flags.len() - 1
                    };
                    assert(s.silence + 1 == run);
                    assert(next.ranges == s.ranges.push((b as usize, end as usize)));
                    assert(next.ranges[s.ranges.len() as int].0 as int == b);
                } else {
                    assert(next.open == Some(b));
                    assert(next.ranges == s.ranges);
                }
                assert forall|y: int|
                    1 <= y < count && flags[y - 1].loud && (#[trigger] flags[y]).loud implies (exists|k: int|
                        0 <= k < next.ranges.len() && open_at(
                            flags,
                            min_silence,
                            (#[trigger] next.ranges[k]).0 as int,
                            y,
                        )) || (next.open matches Some(b) && open_at(flags, min_silence, b, y)) by {
                    if y == index {
                        assert(flags[o].loud);
                        assert(open_at(flags, min_silence, b, y));
                    } else if exists|k: int|
                        0 <= k < s.ranges.len() && open_at(
                            flags,
                            min_silence,
                            (#[trigger] s.ranges[k]).0 as int,
                            y,
                        ) {
                        let k = choose|k: int|
                            0 <= k < s.ranges.len() && open_at(
                                flags,
                                min_silence,
                                (#[trigger] s.ranges[k]).0 as int,
                                y,
                            );
                        assert(next.ranges[k] == s.ranges[k]);
                    } else if closes {
                        let k = s.ranges.len() as int;
                        assert(open_at(flags, min_silence, next.ranges[k].0 as int, y));
                    }
                }
            },
        }
    }
}

/// No phrase is missed: every two loud frames in a row lie in a range that
/// opened after its start, at or before them, and that no run of
/// `min_silence` silent frames closed before them. This holds where a loud
/// frame also keeps a phrase going (is sustained).
pub proof fn loud_frames_lie_in_a_phrase(flags: Seq<FrameFlags>, min_silence: int, tail: int, lead: int)
    requires
        flags.len() <= usize::MAX,
        tail >= 0,
        lead >= 0,
        forall|y: int| 0 <= y < flags.len() && (#[trigger] flags[y]).loud ==> flags[y].sustained,
    ensures
        forall|y: int|
            1 <= y < flags.len() && flags[y - 1].loud && (#[trigger] flags[y]).loud ==> exists|k: int|
                0 <= k < frame_ranges(flags, min_silence, tail, lead).len() && open_at(
                    flags,
                    min_silence,
                    (#[trigger] frame_ranges(flags, min_silence, tail, lead)[k]).0 as int,
                    y,
                ),
{
    if flags.len() > 0 {
        let n = flags.len();
        lemma_scan_covers(flags, min_silence, tail, lead, n);
        lemma_scan_bounds(flags, n, min_silence, tail, lead);
        let s = scanned(flags, n, min_silence, tail, lead);
        let r = frame_ranges(flags, min_silence, tail, lead);
        assert forall|y: int|
            1 <= y < flags.len() && flags[y - 1].loud && (#[trigger] flags[y]).loud implies exists|k: int|
                0 <= k < r.len() && open_at(flags, min_silence, (#[trigger] r[k]).0 as int, y) by {
            if exists|k: int|
                0 <= k < s.ranges.len() && open_at(flags, min_silence, (#[trigger] s.ranges[k]).0 as int, y) {
                let k = choose|k: int|
                    0 <= k < s.ranges.len() && open_at(
                        flags,
                        min_silence,
                        (#[trigger] s.ranges[k]).0 as int,
                        y,
                    );
                assert(r[k] == s.ranges[k]);
            } else {
                let b = s.open->0;
                assert(r == s.ranges.push((b as usize, (n - 1) as usize)));
                assert(r[s.ranges.len() as int].0 as int == b);
            }
        }
    }
}

/// Finds the speech ranges of a track from its per-frame flags. `min_silence`
/// silent frames in a row close a range; `tail` frames after the last voiced
/// frame stay in it; a start moves back at most `lead` frames.
pub fn detect_ranges(
    flags: &Vec<FrameFlags>,
    min_silence: usize,
    tail: usize,
    lead: usize,
) -> (r: Vec<(usize, usize)>)
    ensures
        r@ == frame_ranges(flags@, min_silence as int, tail as int, lead as int),
        forall|k: int|
            0 <= k < r.len() ==> closed_phrase(
                flags@,
                min_silence as int,
                tail as int,
                lead as int,
                (#[trigger] r@[k]).0 as int,
                r@[k].1 as int,
            ) || (k == r.len() - 1 && open_phrase(
                flags@,
                min_silence as int,
                lead as int,
                r@[k].0 as int,
                r@[k].1 as int,
            )),
        (forall|y: int| 0 <= y < flags.len() && (#[trigger] flags@[y]).loud ==> flags@[y].sustained)
            ==> forall|y: int|
            1 <= y < flags.len() && flags@[y - 1].loud && (#[trigger] flags@[y]).loud ==> exists|k: int|
                0 <= k < r.len() && open_at(flags@, min_silence as int, (#[trigger] r@[k]).0 as int, y),
{
    let count = flags.len();
    let mut ranges: Vec<(usize, usize)> = Vec::new();
    if count == 0 {
        return ranges;
    }
    let last_frame = count - 1;
    let mut start: Option<usize> = None;
    let mut silence: usize = 0;
    let mut onset: usize = 0;
    let mut index: usize = 0;
    while index < count
        invariant
            count == flags.len() > 0,
            last_frame == count - 1,
            index <= count,
            ({
                let s = scanned(flags@, index as nat, min_silence as int, tail as int, lead as int);
                &&& s.open == match start {
                    Some(b) => Some(b as int),
                    None => None::<int>,
                }
                &&& s.silence == silence
                &&& s.onset == onset
                &&& s.ranges == ranges@
            }),
        decreases count - index,
    {
        proof {
            lemma_scan_bounds(flags@, index as nat, min_silence as int, tail as int, lead as int);
        }
        let frame = flags[index];
        match start {
            None => {
                if frame.loud {
                    onset = onset + 1;
                    if onset >= ONSET_FRAMES {
                        let begin = index + 1 - onset;
                        start = Some(backtrack_start(flags, begin, lead));
                        silence = 0;
                    }
                } else {
                    onset = 0;
                }
            },
            Some(begin) => {
                if frame.sustained {
                    silence = 0;
                } else {
                    silence = silence + 1;
                    if silence >= min_silence {
                        let last_voiced = index.saturating_sub(silence);
                        let end = if tail < last_frame - last_voiced {
                            last_voiced + tail
                        } else {
                            last_frame
                        };
                        ranges.push((begin, end));
                        start = None;
                        onset = 0;
                        silence = 0;
                    }
                }
            },
        }
        index = index + 1;
    }
    if let Some(begin) = start {
        ranges.push((begin, last_frame));
    }
    proof {
        assert(flags@.len() == flags.len());
        phrases_close_only_after_silence(flags@, min_silence as int, tail as int, lead as int);
        if forall|y: int| 0 <= y < flags.len() && (#[trigger] flags@[y]).loud ==> flags@[y].sustained {
            loud_frames_lie_in_a_phrase(flags@, min_silence as int, tail as int, lead as int);
        }
        let law = frame_ranges(flags@, min_silence as int, tail as int, lead as int);
        assert(ranges@ == law);
        assert forall|k: int| 0 <= k < ranges.len() implies closed_phrase(
            flags@,
            min_silence as int,
            tail as int,
            lead as int,
            (#[trigger] ranges@[k]).0 as int,
            ranges@[k].1 as int,
        ) || (k == ranges.len() - 1 && open_phrase(
            flags@,
            min_silence as int,
            lead as int,
            ranges@[k].0 as int,
            ranges@[k].1 as int,
        )) by {
            assert(ranges@[k] == law[k]);
        }
    }
    ranges
}

} // verus!
