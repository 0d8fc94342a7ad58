use dubrust::i18n::{
    counters, error_nothing_to_export, of_total, phrase_number, phrase_of_total, stage_done,
    stage_mixing_phrase, status_dropped_blocks, status_exported, status_phrase_without_take,
    status_phrases_found, status_project_restored, status_recording_phrase, status_save_failed,
    status_slice_failed, status_sliced, status_take_saved, status_welcome, Lang,
};
use dubrust::models::{default_true, DubMode, SlicerEngine};
use dubrust::slicer::{SliceReport, VadEngine};

#[test]
fn language_names_and_default() {
    assert_eq!(Lang::En.native_name(), "English");
    assert_eq!(Lang::Ru.native_name(), "Русский");
    assert_eq!(Lang::default(), Lang::En);
    assert_eq!(Lang::all(), [Lang::En, Lang::Ru]);
}

#[test]
fn language_from_locale() {
    assert_eq!(Lang::from_locale("ru_RU.UTF-8"), Lang::Ru);
    assert_eq!(Lang::from_locale("RU"), Lang::Ru);
    assert_eq!(Lang::from_locale("Ru-ru"), Lang::Ru);
    assert_eq!(Lang::from_locale("en_US.UTF-8"), Lang::En);
    assert_eq!(Lang::from_locale("r"), Lang::En);
    assert_eq!(Lang::from_locale(""), Lang::En);
    assert_eq!(Lang::from_locale("uk_UA"), Lang::En);
}

#[test]
fn string_tables() {
    let en = Lang::En.strings();
    let ru = Lang::Ru.strings();
    assert_eq!(en.open_video, "Open video");
    assert_eq!(ru.open_video, "Открыть видео");
    assert_eq!(en.engine_dsp, "built-in detector");
    assert_eq!(ru.solo_take, "♪ Только дубль");
    assert_eq!(en.hide, "hide");
}

#[test]
fn number_texts() {
    assert_eq!(of_total(Lang::En, 3, 40), "3 of 40");
    assert_eq!(of_total(Lang::Ru, 3, 40), "3 из 40");
    assert_eq!(phrase_number(Lang::En, 7), "Phrase 7");
    assert_eq!(phrase_number(Lang::Ru, 7), "Фраза 7");
    assert_eq!(phrase_of_total(Lang::En, 7, 40), "Phrase 7 of 40");
    assert_eq!(phrase_of_total(Lang::Ru, 7, 40), "Фраза 7 из 40");
    assert_eq!(counters(Lang::En, 12, 0), "Phrases: 12 · takes: 0");
    assert_eq!(counters(Lang::Ru, 12, 3), "Фраз: 12 · дублей: 3");
    assert_eq!(stage_mixing_phrase(Lang::En, 2, 10), "Mixing phrase 2/10");
    assert_eq!(stage_mixing_phrase(Lang::Ru, 2, 10), "Сведение фразы 2/10");
}

#[test]
fn status_texts() {
    assert_eq!(
        status_save_failed(Lang::En, "disk full"),
        "Could not save the project: disk full"
    );
    assert_eq!(
        status_phrase_without_take(Lang::Ru, 4),
        "Фраза 4 — без дубля"
    );
    assert_eq!(
        status_recording_phrase(Lang::En, 2, "USB Mic"),
        "Recording phrase 2 — USB Mic"
    );
    assert_eq!(
        status_dropped_blocks(Lang::En, 5),
        "Recording had dropouts (5 blocks). Close heavy applications"
    );
    assert_eq!(status_take_saved(Lang::Ru, "1.25 с"), "Дубль сохранён: 1.25 с");
    assert_eq!(
        status_project_restored(Lang::En, "clip.mp4", 10, 4),
        "clip.mp4: project restored, 10 phrases, 4 takes"
    );
    assert_eq!(
        status_project_restored(Lang::Ru, "clip.mp4", 10, 4),
        "clip.mp4: проект восстановлен, фраз 10, дублей 4"
    );
    assert_eq!(
        status_phrases_found(Lang::En, "a.mkv", 0),
        "a.mkv: 0 phrases found"
    );
    assert_eq!(
        status_sliced(Lang::Ru, "встроенный детектор", 8, 2),
        "встроенный детектор: фраз 8, сохранено дублей 2"
    );
    assert_eq!(status_exported(Lang::En, "/tmp/out.mp4"), "Done: /tmp/out.mp4");
    assert_eq!(
        status_slice_failed(Lang::En, "empty track"),
        "Phrase detection failed: empty track"
    );
    assert_eq!(status_welcome(Lang::Ru), "Откройте видео или перетащите файл в окно");
    assert_eq!(stage_done(Lang::En), "Done");
    assert_eq!(
        error_nothing_to_export(Lang::En),
        "Nothing to export: the audio track is empty"
    );
}

#[test]
fn mode_and_engine_labels() {
    assert_eq!(DubMode::default(), DubMode::OnlyDubVoice);
    assert_eq!(DubMode::ReplaceSpeech.label(Lang::Ru), "Замена речи");
    assert_eq!(DubMode::OnlyDubVoice.label(Lang::En), "Dub voice only");
    assert_eq!(
        DubMode::VoiceOverDucking.hint(Lang::En),
        "The original stays audible but quieter under your voice"
    );
    assert_eq!(DubMode::all().len(), 4);
    assert_eq!(SlicerEngine::default(), SlicerEngine::FireRedVad);
    assert_eq!(SlicerEngine::Dsp.label(Lang::Ru), "встроенный детектор");
    assert_eq!(VadEngine::FireRed.label(Lang::En), "FireRedVAD (neural SOTA)");
    assert!(default_true());
    let report = SliceReport { engine: VadEngine::Dsp, warning: None };
    assert_eq!(report.engine, VadEngine::Dsp);
}
