//! Project settings that carry no audio data: how the final track is mixed
//! and which engine splits speech into phrases.

use vstd::prelude::*;

use crate::i18n::Lang;

verus! {

/// How the final audio track is mixed.
#[derive(Clone, Copy, Debug, PartialEq, Eq, Structural)]
pub enum DubMode {
    /// The original track is dropped entirely: only the recorded takes remain.
    OnlyDubVoice,
    /// Takes over a clean background: the original voice is removed by stem separation.
    DubWithBackground,
    /// The original is silenced inside the phrases, the background stays elsewhere.
    ReplaceSpeech,
    /// Voice-over: the original is ducked under the takes.
    VoiceOverDucking,
}

impl Default for DubMode {
    fn default() -> (r: DubMode)
        ensures
            r == DubMode::OnlyDubVoice,
    {
        DubMode::OnlyDubVoice
    }
}

/// The label of a mix mode in the given language.
pub open spec fn dub_mode_label(mode: DubMode, lang: Lang) -> &'static str {
    match mode {
        DubMode::ReplaceSpeech => lang.texts().mode_replace,
        DubMode::OnlyDubVoice => lang.texts().mode_only_dub,
        DubMode::VoiceOverDucking => lang.texts().mode_voiceover,
        DubMode::DubWithBackground => lang.texts().mode_dub_with_bg,
    }
}

/// The explanation of a mix mode in the given language.
pub open spec fn dub_mode_hint(mode: DubMode, lang: Lang) -> &'static str {
    match mode {
        DubMode::ReplaceSpeech => lang.texts().mode_replace_hint,
        DubMode::OnlyDubVoice => lang.texts().mode_only_dub_hint,
        DubMode::VoiceOverDucking => lang.texts().mode_voiceover_hint,
        DubMode::DubWithBackground => lang.texts().mode_dub_with_bg_hint,
    }
}

/// No two mix modes look alike in the settings: in every language each mode
/// has a label and an explanation of its own.
pub proof fn mode_texts_differ(first: DubMode, second: DubMode, lang: Lang)
    requires
        first != second,
    ensures
        dub_mode_label(first, lang)@ != dub_mode_label(second, lang)@,
        dub_mode_hint(first, lang)@ != dub_mode_hint(second, lang)@,
{
    reveal_strlit("Replace speech");
    reveal_strlit("The original goes silent under each phrase and your take takes its place");
    reveal_strlit("Dub voice only");
    reveal_strlit("The original track is dropped entirely, only your takes remain");
    reveal_strlit("Voice-over with ducking");
    reveal_strlit("The original stays audible but quieter under your voice");
    reveal_strlit("Dubbing + clean BGM (HT-Demucs)");
    reveal_strlit("Original voice is removed, keeping clean background music and effects under your takes");
    reveal_strlit("Замена речи");
    reveal_strlit("Под каждой фразой оригинал глушится, вместо него звучит ваш дубль");
    reveal_strlit("Только дубляж");
    reveal_strlit("Оригинальная дорожка убирается совсем, остаются только ваши дубли");
    reveal_strlit("Закадр с приглушением");
    reveal_strlit("Оригинал слышно, но тише под вашим голосом");
    reveal_strlit("Дубляж + чистый фон (HT-Demucs)");
    reveal_strlit("Голос оригинала вырезан, под вашим дублем звучит чистая музыка и эффекты");
    let a = dub_mode_label(first, lang)@;
    let b = dub_mode_label(second, lang)@;
    assert(a.len() != b.len() || a[0] != b[0]);
    let c = dub_mode_hint(first, lang)@;
    let d = dub_mode_hint(second, lang)@;
    assert(c.len() != d.len() || c[0] != d[0]);
}

impl DubMode {
    /// Every mix mode, in the order the settings offer them.
    pub fn all() -> (r: [DubMode; 4])
        ensures
            r@ == seq![
                DubMode::OnlyDubVoice,
                DubMode::DubWithBackground,
                DubMode::ReplaceSpeech,
                DubMode::VoiceOverDucking,
            ],
    {
        [
            DubMode::OnlyDubVoice,
            DubMode::DubWithBackground,
            DubMode::ReplaceSpeech,
            DubMode::VoiceOverDucking,
        ]
    }

    pub fn label(self, lang: Lang) -> (r: &'static str)
        ensures
            r == dub_mode_label(self, lang),
            self is ReplaceSpeech ==> r == lang.texts().mode_replace,
            self is OnlyDubVoice ==> r == lang.texts().mode_only_dub,
            self is VoiceOverDucking ==> r == lang.texts().mode_voiceover,
            self is DubWithBackground ==> r == lang.texts().mode_dub_with_bg,
    {
        let strings = lang.strings();
        match self {
            DubMode::ReplaceSpeech => strings.mode_replace,
            DubMode::OnlyDubVoice => strings.mode_only_dub,
            DubMode::VoiceOverDucking => strings.mode_voiceover,
            DubMode::DubWithBackground => strings.mode_dub_with_bg,
        }
    }

    pub fn hint(self, lang: Lang) -> (r: &'static str)
        ensures
            r == dub_mode_hint(self, lang),
            self is ReplaceSpeech ==> r == lang.texts().mode_replace_hint,
            self is OnlyDubVoice ==> r == lang.texts().mode_only_dub_hint,
            self is VoiceOverDucking ==> r == lang.texts().mode_voiceover_hint,
            self is DubWithBackground ==> r == lang.texts().mode_dub_with_bg_hint,
    {
        let strings = lang.strings();
        match self {
            DubMode::ReplaceSpeech => strings.mode_replace_hint,
            DubMode::OnlyDubVoice => strings.mode_only_dub_hint,
            DubMode::VoiceOverDucking => strings.mode_voiceover_hint,
            DubMode::DubWithBackground => strings.mode_dub_with_bg_hint,
        }
    }
}

/// Speech segmentation engine.
#[derive(Clone, Copy, Debug, PartialEq, Eq, Structural)]
pub enum SlicerEngine {
    /// The neural voice activity detector.
    FireRedVad,
    /// The built-in detector that follows the loudness of the track.
    Dsp,
}

impl Default for SlicerEngine {
    fn default() -> (r: SlicerEngine)
        ensures
            r == SlicerEngine::FireRedVad,
    {
        SlicerEngine::FireRedVad
    }
}

/// The label of a segmentation engine in the given language.
pub open spec fn slicer_engine_label(engine: SlicerEngine, lang: Lang) -> &'static str {
    match engine {
        SlicerEngine::FireRedVad => lang.texts().engine_firered,
        SlicerEngine::Dsp => lang.texts().engine_dsp,
    }
}

/// The two segmentation engines have different labels in every language.
pub proof fn engine_choices_differ(lang: Lang)
    ensures
        slicer_engine_label(SlicerEngine::FireRedVad, lang)@ != slicer_engine_label(
            SlicerEngine::Dsp,
            lang,
        )@,
{
    reveal_strlit("built-in detector");
    reveal_strlit("FireRedVAD (neural SOTA)");
    reveal_strlit("встроенный детектор");
    reveal_strlit("FireRedVAD (нейросеть SOTA)");
    let a = slicer_engine_label(SlicerEngine::FireRedVad, lang)@;
    let b = slicer_engine_label(SlicerEngine::Dsp, lang)@;
    assert(a[0] != b[0]);
}

impl SlicerEngine {
    /// Every engine, in the order the settings offer them.
    pub fn all() -> (r: [SlicerEngine; 2])
        ensures
            r@ == seq![SlicerEngine::FireRedVad, SlicerEngine::Dsp],
    {
        [SlicerEngine::FireRedVad, SlicerEngine::Dsp]
    }

    pub fn label(self, lang: Lang) -> (r: &'static str)
        ensures
            r == slicer_engine_label(self, lang),
            self is FireRedVad ==> r == lang.texts().engine_firered,
            self is Dsp ==> r == lang.texts().engine_dsp,
    {
        let strings = lang.strings();
        match self {
            SlicerEngine::FireRedVad => strings.engine_firered,
            SlicerEngine::Dsp => strings.engine_dsp,
        }
    }
}

/// The default of the neural switch in stored slicing settings: on.
pub fn default_true() -> (r: bool)
    ensures
        r,
{
    true
}

} // verus!
