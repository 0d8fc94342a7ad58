//! Interface texts in English and Russian.
//!
//! Every label lives in a [`Strings`] table, one per language; texts with
//! numbers or names in them are built by functions, since word order differs
//! between the two languages.

use vstd::prelude::*;

use crate::util::{ascii_lower, chars_of, decimal, push_decimal, to_ascii_lower};

verus! {

/// Interface language.
#[derive(Clone, Copy, Debug, PartialEq, Eq, Structural)]
pub enum Lang {
    En,
    Ru,
}

impl Default for Lang {
    fn default() -> (r: Lang)
        ensures
            r == Lang::En,
    {
        Lang::En
    }
}

/// The name of a language in that language.
pub open spec fn native_name_of(lang: Lang) -> Seq<char> {
    match lang {
        Lang::En => "English"@,
        Lang::Ru => "Русский"@,
    }
}

/// The language that a locale string names: Russian when it starts with `ru`
/// in any letter case, English otherwise.
pub open spec fn lang_of_locale(raw: Seq<char>) -> Lang {
    if raw.len() >= 2 && ascii_lower(raw[0]) == 'r' && ascii_lower(raw[1]) == 'u' {
        Lang::Ru
    } else {
        Lang::En
    }
}

impl Lang {
    /// Every language, in the order the settings offer them.
    pub fn all() -> (r: [Lang; 2])
        ensures
            r@ == seq![Lang::En, Lang::Ru],
    {
        [Lang::En, Lang::Ru]
    }

    pub fn native_name(self) -> (r: &'static str)
        ensures
            r@ == native_name_of(self),
    {
        match self {
            Lang::En => "English",
            Lang::Ru => "Русский",
        }
    }

    /// The language for a locale value such as `ru_RU.UTF-8` or `en_US`.
    pub fn from_locale(raw: &str) -> (r: Lang)
        ensures
            r == lang_of_locale(raw@),
    {
        let chars = chars_of(raw);
        if chars.len() >= 2 && to_ascii_lower(chars[0]) == 'r' && to_ascii_lower(chars[1]) == 'u' {
            Lang::Ru
        } else {
            Lang::En
        }
    }

    /// The table of texts of this language.
    pub open spec fn texts(self) -> Strings {
        match self {
            Lang::En => english(),
            Lang::Ru => russian(),
        }
    }

    pub fn strings(self) -> (r: Strings)
        ensures
            r == self.texts(),
    {
        match self {
            Lang::En => english_strings(),
            Lang::Ru => russian_strings(),
        }
    }
}

/// All interface labels of one language.
#[derive(Clone, Copy)]
pub struct Strings {
    // top bar
    pub open_video: &'static str,
    pub export_video: &'static str,
    pub export_hint: &'static str,
    pub reslice: &'static str,
    pub focus: &'static str,
    pub focus_hint: &'static str,
    pub settings: &'static str,
    pub volume: &'static str,
    pub language_hint: &'static str,

    // status bar
    pub hide: &'static str,

    // settings: phrase detection
    pub slicing: &'static str,
    pub slicing_engine: &'static str,
    pub neural_vad: &'static str,
    pub neural_vad_hint: &'static str,
    pub neural_threshold: &'static str,
    pub sensitivity: &'static str,
    pub sensitivity_hint: &'static str,
    pub min_pause: &'static str,
    pub min_pause_hint: &'static str,
    pub min_phrase: &'static str,
    pub max_phrase: &'static str,
    pub padding: &'static str,
    pub padding_hint: &'static str,
    pub apply_reslice: &'static str,

    // settings: mixing
    pub mixing: &'static str,
    pub take_gain: &'static str,
    pub original_gain: &'static str,
    pub duck_level: &'static str,
    pub fit_takes: &'static str,
    pub fit_takes_hint: &'static str,
    pub max_stretch: &'static str,
    pub normalize_takes: &'static str,
    pub cleanup: &'static str,
    pub highpass: &'static str,
    pub highpass_hint: &'static str,
    pub gate: &'static str,
    pub gate_hint: &'static str,
    pub hotkeys: &'static str,

    // phrase list
    pub phrases: &'static str,
    pub no_phrases: &'static str,
    pub play_original: &'static str,
    pub record: &'static str,
    pub record_again: &'static str,
    pub stop: &'static str,
    pub play_take: &'static str,
    pub delete_take: &'static str,
    pub note_hint: &'static str,
    pub recording: &'static str,
    pub level_silence: &'static str,
    pub level_overload: &'static str,
    pub level: &'static str,
    pub finish_key: &'static str,
    pub cancel: &'static str,
    pub record_phrase_key: &'static str,
    pub undo_take: &'static str,
    pub monitor: &'static str,
    pub monitor_hint: &'static str,

    // timeline and video
    pub timeline_placeholder: &'static str,
    pub zoom: &'static str,
    pub zoom_fit: &'static str,
    pub zoom_follow: &'static str,
    pub drop_video: &'static str,
    pub drop_video_hint: &'static str,
    pub video_fallback: &'static str,
    pub frame_loading: &'static str,
    pub prev_phrase: &'static str,
    pub next_phrase: &'static str,
    pub pause: &'static str,
    pub play_original_key: &'static str,
    pub record_key: &'static str,
    pub stop_key: &'static str,
    pub play_take_key: &'static str,
    pub no_selection: &'static str,

    // focus mode
    pub select_phrase_hint: &'static str,
    pub has_take: &'static str,
    pub no_take: &'static str,
    pub scene_take: &'static str,
    pub scene_hint: &'static str,
    pub solo_take: &'static str,
    pub solo_hint: &'static str,
    pub original_big: &'static str,
    pub undo_short: &'static str,
    pub back: &'static str,
    pub forward: &'static str,
    pub next_empty: &'static str,
    pub note_label: &'static str,
    pub note_hint_focus: &'static str,
    pub done_key: &'static str,
    pub open_video_hint: &'static str,

    // dub modes
    pub mode_replace: &'static str,
    pub mode_replace_hint: &'static str,
    pub mode_only_dub: &'static str,
    pub mode_only_dub_hint: &'static str,
    pub mode_voiceover: &'static str,
    pub mode_voiceover_hint: &'static str,
    pub mode_dub_with_bg: &'static str,
    pub mode_dub_with_bg_hint: &'static str,

    // voice/background separation
    pub demucs_title: &'static str,
    pub demucs_download_btn: &'static str,
    pub demucs_downloading: &'static str,
    pub demucs_installed: &'static str,
    pub demucs_bg_volume: &'static str,

    // slicing engines
    pub engine_firered: &'static str,
    pub engine_dsp: &'static str,
}

/// The English table.
pub open spec fn english() -> Strings {
    Strings {
        open_video: "Open video",
        export_video: "Export video",
        export_hint: "Record at least one take",
        reslice: "Re-split",
        focus: "Focus",
        focus_hint: "Tab — one phrase at a time instead of the studio layout",
        settings: "Settings",
        volume: "Volume",
        language_hint: "Interface language",
        hide: "hide",
        slicing: "Phrase detection",
        slicing_engine: "Engine",
        neural_vad: "FireRedVAD (neural)",
        neural_vad_hint: "Uses FireRedVAD ONNX. Falls back to the built-in detector when unavailable",
        neural_threshold: "Speech probability",
        sensitivity: "Sensitivity",
        sensitivity_hint: "How far above the measured noise floor speech must rise. Lower = catches quiet speech",
        min_pause: "Min pause, s",
        min_pause_hint: "Shorter silences stay inside one phrase",
        min_phrase: "Min phrase, s",
        max_phrase: "Max phrase, s",
        padding: "Padding, s",
        padding_hint: "Extra room around speech. Never eats into the neighbouring phrase",
        apply_reslice: "Apply and re-split",
        mixing: "Mixing",
        take_gain: "Take volume",
        original_gain: "Original volume",
        duck_level: "Original ducking",
        fit_takes: "Fit take to phrase length",
        fit_takes_hint: "Time stretch without changing pitch",
        max_stretch: "Max stretch",
        normalize_takes: "Normalize takes",
        cleanup: "Voice cleanup",
        highpass: "Low cut, Hz",
        highpass_hint: "85 Hz removes fan hum and desk rumble without touching the voice",
        gate: "Noise gate",
        gate_hint: "Pushes background down between words. 0 — off",
        hotkeys: "Shortcuts: Space — original, R — record, T — take in scene, Shift+T — take only, Enter — next without take, Tab — focus mode, ←/→ — phrases, Delete — drop take, Ctrl+Z — undo",
        phrases: "Phrases",
        no_phrases: "No phrases yet. Open a video or change the detection settings",
        play_original: "▶ Original",
        record: "● Record",
        record_again: "● Re-record",
        stop: "■ Stop",
        play_take: "▶ Take",
        delete_take: "✕ Delete take",
        note_hint: "Note or line text",
        recording: "● RECORDING",
        level_silence: "silence — check the microphone",
        level_overload: "clipping",
        level: "level",
        finish_key: "■ Finish (R)",
        cancel: "Cancel",
        record_phrase_key: "● Record phrase (R)",
        undo_take: "↶ Restore take",
        monitor: "🎧 Original while recording",
        monitor_hint: "Headphones only: speakers would leak the original into the microphone",
        timeline_placeholder: "The waveform and phrases will appear here",
        zoom: "Zoom",
        zoom_fit: "Fit",
        zoom_follow: "Follow playhead",
        drop_video: "Drop a video here",
        drop_video_hint: "or press “Open video” — phrases are detected automatically",
        video_fallback: "video",
        frame_loading: "preparing frame…",
        prev_phrase: "Previous phrase (←)",
        next_phrase: "Next phrase (→)",
        pause: "⏸ Pause",
        play_original_key: "↻ Original (Space)",
        record_key: "● Record (R)",
        stop_key: "■ Stop (R)",
        play_take_key: "▶ Take (T)",
        no_selection: "No phrase selected",
        select_phrase_hint: "Pick a phrase on the timeline or press →",
        has_take: "✓ take ready",
        no_take: "no take",
        scene_take: "▶ Take in scene (T)",
        scene_hint: "Your voice over the video together with the original actors",
        solo_take: "♪ Take only",
        solo_hint: "Shift+T — the bare recording without the scene",
        original_big: "↻ Original (Space)",
        undo_short: "↶ Restore",
        back: "← Back",
        forward: "Next →",
        next_empty: "⇥ Next without take (Enter)",
        note_label: "Note / line text",
        note_hint_focus: "what the actor says and what you should say",
        done_key: "■ Done (R)",
        open_video_hint: "Or press “Open video” in the top bar",
        mode_replace: "Replace speech",
        mode_replace_hint: "The original goes silent under each phrase and your take takes its place",
        mode_only_dub: "Dub voice only",
        mode_only_dub_hint: "The original track is dropped entirely, only your takes remain",
        mode_voiceover: "Voice-over with ducking",
        mode_voiceover_hint: "The original stays audible but quieter under your voice",
        mode_dub_with_bg: "Dubbing + clean BGM (HT-Demucs)",
        mode_dub_with_bg_hint: "Original voice is removed, keeping clean background music and effects under your takes",
        demucs_title: "Voice/Background separation (HT-Demucs, ~166 MB)",
        demucs_download_btn: "Download HT-Demucs weights from Hugging Face (Meta Research, ~166 MB)",
        demucs_downloading: "Downloading HT-Demucs from Hugging Face...",
        demucs_installed: "HT-Demucs weights installed (ready)",
        demucs_bg_volume: "Background volume",
        engine_firered: "FireRedVAD (neural SOTA)",
        engine_dsp: "built-in detector",
    }
}

fn english_strings() -> (r: Strings)
    ensures
        r == english(),
{
    Strings {
        open_video: "Open video",
        export_video: "Export video",
        export_hint: "Record at least one take",
        reslice: "Re-split",
        focus: "Focus",
        focus_hint: "Tab — one phrase at a time instead of the studio layout",
        settings: "Settings",
        volume: "Volume",
        language_hint: "Interface language",
        hide: "hide",
        slicing: "Phrase detection",
        slicing_engine: "Engine",
        neural_vad: "FireRedVAD (neural)",
        neural_vad_hint: "Uses FireRedVAD ONNX. Falls back to the built-in detector when unavailable",
        neural_threshold: "Speech probability",
        sensitivity: "Sensitivity",
        sensitivity_hint: "How far above the measured noise floor speech must rise. Lower = catches quiet speech",
        min_pause: "Min pause, s",
        min_pause_hint: "Shorter silences stay inside one phrase",
        min_phrase: "Min phrase, s",
        max_phrase: "Max phrase, s",
        padding: "Padding, s",
        padding_hint: "Extra room around speech. Never eats into the neighbouring phrase",
        apply_reslice: "Apply and re-split",
        mixing: "Mixing",
        take_gain: "Take volume",
        original_gain: "Original volume",
        duck_level: "Original ducking",
        fit_takes: "Fit take to phrase length",
        fit_takes_hint: "Time stretch without changing pitch",
        max_stretch: "Max stretch",
        normalize_takes: "Normalize takes",
        cleanup: "Voice cleanup",
        highpass: "Low cut, Hz",
        highpass_hint: "85 Hz removes fan hum and desk rumble without touching the voice",
        gate: "Noise gate",
        gate_hint: "Pushes background down between words. 0 — off",
        hotkeys: "Shortcuts: Space — original, R — record, T — take in scene, Shift+T — take only, Enter — next without take, Tab — focus mode, ←/→ — phrases, Delete — drop take, Ctrl+Z — undo",
        phrases: "Phrases",
        no_phrases: "No phrases yet. Open a video or change the detection settings",
        play_original: "▶ Original",
        record: "● Record",
        record_again: "● Re-record",
        stop: "■ Stop",
        play_take: "▶ Take",
        delete_take: "✕ Delete take",
        note_hint: "Note or line text",
        recording: "● RECORDING",
        level_silence: "silence — check the microphone",
        level_overload: "clipping",
        level: "level",
        finish_key: "■ Finish (R)",
        cancel: "Cancel",
        record_phrase_key: "● Record phrase (R)",
        undo_take: "↶ Restore take",
        monitor: "🎧 Original while recording",
        monitor_hint: "Headphones only: speakers would leak the original into the microphone",
        timeline_placeholder: "The waveform and phrases will appear here",
        zoom: "Zoom",
        zoom_fit: "Fit",
        zoom_follow: "Follow playhead",
        drop_video: "Drop a video here",
        drop_video_hint: "or press “Open video” — phrases are detected automatically",
        video_fallback: "video",
        frame_loading: "preparing frame…",
        prev_phrase: "Previous phrase (←)",
        next_phrase: "Next phrase (→)",
        pause: "⏸ Pause",
        play_original_key: "↻ Original (Space)",
        record_key: "● Record (R)",
        stop_key: "■ Stop (R)",
        play_take_key: "▶ Take (T)",
        no_selection: "No phrase selected",
        select_phrase_hint: "Pick a phrase on the timeline or press →",
        has_take: "✓ take ready",
        no_take: "no take",
        scene_take: "▶ Take in scene (T)",
        scene_hint: "Your voice over the video together with the original actors",
        solo_take: "♪ Take only",
        solo_hint: "Shift+T — the bare recording without the scene",
        original_big: "↻ Original (Space)",
        undo_short: "↶ Restore",
        back: "← Back",
        forward: "Next →",
        next_empty: "⇥ Next without take (Enter)",
        note_label: "Note / line text",
        note_hint_focus: "what the actor says and what you should say",
        done_key: "■ Done (R)",
        open_video_hint: "Or press “Open video” in the top bar",
        mode_replace: "Replace speech",
        mode_replace_hint: "The original goes silent under each phrase and your take takes its place",
        mode_only_dub: "Dub voice only",
        mode_only_dub_hint: "The original track is dropped entirely, only your takes remain",
        mode_voiceover: "Voice-over with ducking",
        mode_voiceover_hint: "The original stays audible but quieter under your voice",
        mode_dub_with_bg: "Dubbing + clean BGM (HT-Demucs)",
        mode_dub_with_bg_hint: "Original voice is removed, keeping clean background music and effects under your takes",
        demucs_title: "Voice/Background separation (HT-Demucs, ~166 MB)",
        demucs_download_btn: "Download HT-Demucs weights from Hugging Face (Meta Research, ~166 MB)",
        demucs_downloading: "Downloading HT-Demucs from Hugging Face...",
        demucs_installed: "HT-Demucs weights installed (ready)",
        demucs_bg_volume: "Background volume",
        engine_firered: "FireRedVAD (neural SOTA)",
        engine_dsp: "built-in detector",
    }
}

/// The Russian table.
pub open spec fn russian() -> Strings {
    Strings {
        open_video: "Открыть видео",
        export_video: "Экспорт видео",
        export_hint: "Запишите хотя бы один дубль",
        reslice: "Перенарезать",
        focus: "Фокус",
        focus_hint: "Tab — одна фраза крупно вместо студийной раскладки",
        settings: "Настройки",
        volume: "Громкость",
        language_hint: "Язык интерфейса",
        hide: "скрыть",
        slicing: "Нарезка на фразы",
        slicing_engine: "Движок",
        neural_vad: "FireRedVAD (нейросеть)",
        neural_vad_hint: "Использует FireRedVAD ONNX. Если недоступен — работает встроенный детектор",
        neural_threshold: "Вероятность речи",
        sensitivity: "Чувствительность",
        sensitivity_hint: "Насколько речь должна быть громче измеренного шумового пола. Ниже — ловит тихую речь",
        min_pause: "Мин. пауза, с",
        min_pause_hint: "Паузы короче остаются внутри одной фразы",
        min_phrase: "Мин. фраза, с",
        max_phrase: "Макс. фраза, с",
        padding: "Отступы, с",
        padding_hint: "Запас вокруг речи. Никогда не залезает в соседнюю фразу",
        apply_reslice: "Применить и перенарезать",
        mixing: "Сведение",
        take_gain: "Громкость дублей",
        original_gain: "Громкость оригинала",
        duck_level: "Приглушение оригинала",
        fit_takes: "Подгонять дубль под длину фразы",
        fit_takes_hint: "Растяжение по времени без изменения высоты голоса",
        max_stretch: "Макс. растяжение",
        normalize_takes: "Нормализовать дубли",
        cleanup: "Чистка голоса",
        highpass: "Срез низких, Гц",
        highpass_hint: "85 Гц убирает гул кулера и рокот стола, голоса не касается",
        gate: "Шумодав",
        gate_hint: "Придавливает фон в паузах. 0 — выключен",
        hotkeys: "Горячие клавиши: Space — оригинал, R — запись, T — дубль в сцене, Shift+T — только дубль, Enter — следующая без дубля, Tab — фокус-режим, ←/→ — фразы, Delete — удалить дубль, Ctrl+Z — отмена",
        phrases: "Фразы",
        no_phrases: "Фраз пока нет. Откройте видео или измените настройки нарезки",
        play_original: "▶ Оригинал",
        record: "● Запись",
        record_again: "● Записать заново",
        stop: "■ Стоп",
        play_take: "▶ Дубль",
        delete_take: "✕ Удалить дубль",
        note_hint: "Заметка или текст реплики",
        recording: "● ЗАПИСЬ",
        level_silence: "тишина — проверьте микрофон",
        level_overload: "перегрузка",
        level: "уровень",
        finish_key: "■ Завершить (R)",
        cancel: "Отменить",
        record_phrase_key: "● Записать фразу (R)",
        undo_take: "↶ Вернуть дубль",
        monitor: "🎧 Звук оригинала при записи",
        monitor_hint: "Только в наушниках: через колонки оригинал попадёт в микрофон",
        timeline_placeholder: "Здесь появится волновая форма и фразы",
        zoom: "Масштаб",
        zoom_fit: "Вписать",
        zoom_follow: "Следить за курсором",
        drop_video: "Перетащите видео в окно",
        drop_video_hint: "или нажмите «Открыть видео» — фразы нарежутся автоматически",
        video_fallback: "видео",
        frame_loading: "кадр готовится…",
        prev_phrase: "Предыдущая фраза (←)",
        next_phrase: "Следующая фраза (→)",
        pause: "⏸ Пауза",
        play_original_key: "↻ Оригинал (Space)",
        record_key: "● Запись (R)",
        stop_key: "■ Стоп (R)",
        play_take_key: "▶ Дубль (T)",
        no_selection: "Фраза не выбрана",
        select_phrase_hint: "Выберите фразу на таймлайне или нажмите →",
        has_take: "✓ дубль есть",
        no_take: "нет дубля",
        scene_take: "▶ Дубль в сцене (T)",
        scene_hint: "Свой голос поверх видео и голосов актёров",
        solo_take: "♪ Только дубль",
        solo_hint: "Shift+T — чистая запись без сцены",
        original_big: "↻ Оригинал (Space)",
        undo_short: "↶ Вернуть",
        back: "← Назад",
        forward: "Дальше →",
        next_empty: "⇥ К следующей без дубля (Enter)",
        note_label: "Заметка / текст реплики",
        note_hint_focus: "что говорит актёр и что говорить вам",
        done_key: "■ Готово (R)",
        open_video_hint: "Или нажмите «Открыть видео» в верхней панели",
        mode_replace: "Замена речи",
        mode_replace_hint: "Под каждой фразой оригинал глушится, вместо него звучит ваш дубль",
        mode_only_dub: "Только дубляж",
        mode_only_dub_hint: "Оригинальная дорожка убирается совсем, остаются только ваши дубли",
        mode_voiceover: "Закадр с приглушением",
        mode_voiceover_hint: "Оригинал слышно, но тише под вашим голосом",
        mode_dub_with_bg: "Дубляж + чистый фон (HT-Demucs)",
        mode_dub_with_bg_hint: "Голос оригинала вырезан, под вашим дублем звучит чистая музыка и эффекты",
        demucs_title: "Разделение голос/фон (HT-Demucs, ~166 МБ)",
        demucs_download_btn: "Скачать веса HT-Demucs с Hugging Face (Meta Research, ~166 МБ)",
        demucs_downloading: "Загрузка HT-Demucs с Hugging Face...",
        demucs_installed: "Веса HT-Demucs установлены (готово)",
        demucs_bg_volume: "Громкость фона",
        engine_firered: "FireRedVAD (нейросеть SOTA)",
        engine_dsp: "встроенный детектор",
    }
}

fn russian_strings() -> (r: Strings)
    ensures
        r == russian(),
{
    Strings {
        open_video: "Открыть видео",
        export_video: "Экспорт видео",
        export_hint: "Запишите хотя бы один дубль",
        reslice: "Перенарезать",
        focus: "Фокус",
        focus_hint: "Tab — одна фраза крупно вместо студийной раскладки",
        settings: "Настройки",
        volume: "Громкость",
        language_hint: "Язык интерфейса",
        hide: "скрыть",
        slicing: "Нарезка на фразы",
        slicing_engine: "Движок",
        neural_vad: "FireRedVAD (нейросеть)",
        neural_vad_hint: "Использует FireRedVAD ONNX. Если недоступен — работает встроенный детектор",
        neural_threshold: "Вероятность речи",
        sensitivity: "Чувствительность",
        sensitivity_hint: "Насколько речь должна быть громче измеренного шумового пола. Ниже — ловит тихую речь",
        min_pause: "Мин. пауза, с",
        min_pause_hint: "Паузы короче остаются внутри одной фразы",
        min_phrase: "Мин. фраза, с",
        max_phrase: "Макс. фраза, с",
        padding: "Отступы, с",
        padding_hint: "Запас вокруг речи. Никогда не залезает в соседнюю фразу",
        apply_reslice: "Применить и перенарезать",
        mixing: "Сведение",
        take_gain: "Громкость дублей",
        original_gain: "Громкость оригинала",
        duck_level: "Приглушение оригинала",
        fit_takes: "Подгонять дубль под длину фразы",
        fit_takes_hint: "Растяжение по времени без изменения высоты голоса",
        max_stretch: "Макс. растяжение",
        normalize_takes: "Нормализовать дубли",
        cleanup: "Чистка голоса",
        highpass: "Срез низких, Гц",
        highpass_hint: "85 Гц убирает гул кулера и рокот стола, голоса не касается",
        gate: "Шумодав",
        gate_hint: "Придавливает фон в паузах. 0 — выключен",
        hotkeys: "Горячие клавиши: Space — оригинал, R — запись, T — дубль в сцене, Shift+T — только дубль, Enter — следующая без дубля, Tab — фокус-режим, ←/→ — фразы, Delete — удалить дубль, Ctrl+Z — отмена",
        phrases: "Фразы",
        no_phrases: "Фраз пока нет. Откройте видео или измените настройки нарезки",
        play_original: "▶ Оригинал",
        record: "● Запись",
        record_again: "● Записать заново",
        stop: "■ Стоп",
        play_take: "▶ Дубль",
        delete_take: "✕ Удалить дубль",
        note_hint: "Заметка или текст реплики",
        recording: "● ЗАПИСЬ",
        level_silence: "тишина — проверьте микрофон",
        level_overload: "перегрузка",
        level: "уровень",
        finish_key: "■ Завершить (R)",
        cancel: "Отменить",
        record_phrase_key: "● Записать фразу (R)",
        undo_take: "↶ Вернуть дубль",
        monitor: "🎧 Звук оригинала при записи",
        monitor_hint: "Только в наушниках: через колонки оригинал попадёт в микрофон",
        timeline_placeholder: "Здесь появится волновая форма и фразы",
        zoom: "Масштаб",
        zoom_fit: "Вписать",
        zoom_follow: "Следить за курсором",
        drop_video: "Перетащите видео в окно",
        drop_video_hint: "или нажмите «Открыть видео» — фразы нарежутся автоматически",
        video_fallback: "видео",
        frame_loading: "кадр готовится…",
        prev_phrase: "Предыдущая фраза (←)",
        next_phrase: "Следующая фраза (→)",
        pause: "⏸ Пауза",
        play_original_key: "↻ Оригинал (Space)",
        record_key: "● Запись (R)",
        stop_key: "■ Стоп (R)",
        play_take_key: "▶ Дубль (T)",
        no_selection: "Фраза не выбрана",
        select_phrase_hint: "Выберите фразу на таймлайне или нажмите →",
        has_take: "✓ дубль есть",
        no_take: "нет дубля",
        scene_take: "▶ Дубль в сцене (T)",
        scene_hint: "Свой голос поверх видео и голосов актёров",
        solo_take: "♪ Только дубль",
        solo_hint: "Shift+T — чистая запись без сцены",
        original_big: "↻ Оригинал (Space)",
        undo_short: "↶ Вернуть",
        back: "← Назад",
        forward: "Дальше →",
        next_empty: "⇥ К следующей без дубля (Enter)",
        note_label: "Заметка / текст реплики",
        note_hint_focus: "что говорит актёр и что говорить вам",
        done_key: "■ Готово (R)",
        open_video_hint: "Или нажмите «Открыть видео» в верхней панели",
        mode_replace: "Замена речи",
        mode_replace_hint: "Под каждой фразой оригинал глушится, вместо него звучит ваш дубль",
        mode_only_dub: "Только дубляж",
        mode_only_dub_hint: "Оригинальная дорожка убирается совсем, остаются только ваши дубли",
        mode_voiceover: "Закадр с приглушением",
        mode_voiceover_hint: "Оригинал слышно, но тише под вашим голосом",
        mode_dub_with_bg: "Дубляж + чистый фон (HT-Demucs)",
        mode_dub_with_bg_hint: "Голос оригинала вырезан, под вашим дублем звучит чистая музыка и эффекты",
        demucs_title: "Разделение голос/фон (HT-Demucs, ~166 МБ)",
        demucs_download_btn: "Скачать веса HT-Demucs с Hugging Face (Meta Research, ~166 МБ)",
        demucs_downloading: "Загрузка HT-Demucs с Hugging Face...",
        demucs_installed: "Веса HT-Demucs установлены (готово)",
        demucs_bg_volume: "Громкость фона",
        engine_firered: "FireRedVAD (нейросеть SOTA)",
        engine_dsp: "встроенный детектор",
    }
}

pub fn status_welcome(lang: Lang) -> (r: &'static str)
    ensures
        r@ == match lang {
            Lang::En => "Open a video or drop a file into the window"@,
            Lang::Ru => "Откройте видео или перетащите файл в окно"@,
        },
{
    match lang {
        Lang::En => "Open a video or drop a file into the window",
        Lang::Ru => "Откройте видео или перетащите файл в окно",
    }
}

pub fn status_busy(lang: Lang) -> (r: &'static str)
    ensures
        r@ == match lang {
            Lang::En => "Wait until the current operation finishes"@,
            Lang::Ru => "Подождите завершения текущей операции"@,
        },
{
    match lang {
        Lang::En => "Wait until the current operation finishes",
        Lang::Ru => "Подождите завершения текущей операции",
    }
}

pub fn status_opening(lang: Lang) -> (r: &'static str)
    ensures
        r@ == match lang {
            Lang::En => "Opening file…"@,
            Lang::Ru => "Открытие файла…"@,
        },
{
    match lang {
        Lang::En => "Opening file…",
        Lang::Ru => "Открытие файла…",
    }
}

pub fn status_open_first(lang: Lang) -> (r: &'static str)
    ensures
        r@ == match lang {
            Lang::En => "Open a video first"@,
            Lang::Ru => "Сначала откройте видео"@,
        },
{
    match lang {
        Lang::En => "Open a video first",
        Lang::Ru => "Сначала откройте видео",
    }
}

pub fn status_no_takes(lang: Lang) -> (r: &'static str)
    ensures
        r@ == match lang {
            Lang::En => "No takes recorded yet"@,
            Lang::Ru => "Нет ни одного записанного дубля"@,
        },
{
    match lang {
        Lang::En => "No takes recorded yet",
        Lang::Ru => "Нет ни одного записанного дубля",
    }
}

pub fn status_preparing(lang: Lang) -> (r: &'static str)
    ensures
        r@ == match lang {
            Lang::En => "Preparing…"@,
            Lang::Ru => "Подготовка…"@,
        },
{
    match lang {
        Lang::En => "Preparing…",
        Lang::Ru => "Подготовка…",
    }
}

pub fn status_reslicing(lang: Lang) -> (r: &'static str)
    ensures
        r@ == match lang {
            Lang::En => "Re-splitting…"@,
            Lang::Ru => "Повторная нарезка…"@,
        },
{
    match lang {
        Lang::En => "Re-splitting…",
        Lang::Ru => "Повторная нарезка…",
    }
}

pub fn status_all_dubbed(lang: Lang) -> (r: &'static str)
    ensures
        r@ == match lang {
            Lang::En => "Every phrase has a take"@,
            Lang::Ru => "Все фразы озвучены"@,
        },
{
    match lang {
        Lang::En => "Every phrase has a take",
        Lang::Ru => "Все фразы озвучены",
    }
}

pub fn status_audio_not_ready(lang: Lang) -> (r: &'static str)
    ensures
        r@ == match lang {
            Lang::En => "The audio track is not ready yet"@,
            Lang::Ru => "Аудиодорожка ещё не готова"@,
        },
{
    match lang {
        Lang::En => "The audio track is not ready yet",
        Lang::Ru => "Аудиодорожка ещё не готова",
    }
}

pub fn status_select_phrase(lang: Lang) -> (r: &'static str)
    ensures
        r@ == match lang {
            Lang::En => "Select a phrase first"@,
            Lang::Ru => "Сначала выберите фразу"@,
        },
{
    match lang {
        Lang::En => "Select a phrase first",
        Lang::Ru => "Сначала выберите фразу",
    }
}

pub fn status_no_take(lang: Lang) -> (r: &'static str)
    ensures
        r@ == match lang {
            Lang::En => "This phrase has no take"@,
            Lang::Ru => "У этой фразы нет дубля"@,
        },
{
    match lang {
        Lang::En => "This phrase has no take",
        Lang::Ru => "У этой фразы нет дубля",
    }
}

pub fn status_take_in_scene(lang: Lang) -> (r: &'static str)
    ensures
        r@ == match lang {
            Lang::En => "Take in the scene — exactly like the final mix"@,
            Lang::Ru => "Дубль в сцене — как в финале"@,
        },
{
    match lang {
        Lang::En => "Take in the scene — exactly like the final mix",
        Lang::Ru => "Дубль в сцене — как в финале",
    }
}

pub fn status_record_cancelled(lang: Lang) -> (r: &'static str)
    ensures
        r@ == match lang {
            Lang::En => "Recording cancelled"@,
            Lang::Ru => "Запись отменена"@,
        },
{
    match lang {
        Lang::En => "Recording cancelled",
        Lang::Ru => "Запись отменена",
    }
}

pub fn status_take_deleted(lang: Lang) -> (r: &'static str)
    ensures
        r@ == match lang {
            Lang::En => "Take deleted — Ctrl+Z brings it back"@,
            Lang::Ru => "Дубль удалён — Ctrl+Z вернёт его"@,
        },
{
    match lang {
        Lang::En => "Take deleted — Ctrl+Z brings it back",
        Lang::Ru => "Дубль удалён — Ctrl+Z вернёт его",
    }
}

pub fn status_take_restored(lang: Lang) -> (r: &'static str)
    ensures
        r@ == match lang {
            Lang::En => "Take restored"@,
            Lang::Ru => "Дубль восстановлен"@,
        },
{
    match lang {
        Lang::En => "Take restored",
        Lang::Ru => "Дубль восстановлен",
    }
}

pub fn dialog_video(lang: Lang) -> (r: &'static str)
    ensures
        r@ == match lang {
            Lang::En => "Video"@,
            Lang::Ru => "Видео"@,
        },
{
    match lang {
        Lang::En => "Video",
        Lang::Ru => "Видео",
    }
}

pub fn dialog_all_files(lang: Lang) -> (r: &'static str)
    ensures
        r@ == match lang {
            Lang::En => "All files"@,
            Lang::Ru => "Все файлы"@,
        },
{
    match lang {
        Lang::En => "All files",
        Lang::Ru => "Все файлы",
    }
}

pub fn stage_extract_audio(lang: Lang) -> (r: &'static str)
    ensures
        r@ == match lang {
            Lang::En => "Extracting audio…"@,
            Lang::Ru => "Извлечение аудио…"@,
        },
{
    match lang {
        Lang::En => "Extracting audio…",
        Lang::Ru => "Извлечение аудио…",
    }
}

pub fn stage_waveform(lang: Lang) -> (r: &'static str)
    ensures
        r@ == match lang {
            Lang::En => "Building waveform…"@,
            Lang::Ru => "Построение волновой формы…"@,
        },
{
    match lang {
        Lang::En => "Building waveform…",
        Lang::Ru => "Построение волновой формы…",
    }
}

pub fn stage_slicing(lang: Lang) -> (r: &'static str)
    ensures
        r@ == match lang {
            Lang::En => "Detecting phrases…"@,
            Lang::Ru => "Поиск фраз…"@,
        },
{
    match lang {
        Lang::En => "Detecting phrases…",
        Lang::Ru => "Поиск фраз…",
    }
}

pub fn stage_mixing(lang: Lang) -> (r: &'static str)
    ensures
        r@ == match lang {
            Lang::En => "Mixing audio…"@,
            Lang::Ru => "Сведение звука…"@,
        },
{
    match lang {
        Lang::En => "Mixing audio…",
        Lang::Ru => "Сведение звука…",
    }
}

pub fn stage_muxing(lang: Lang) -> (r: &'static str)
    ensures
        r@ == match lang {
            Lang::En => "Writing video…"@,
            Lang::Ru => "Запись видео…"@,
        },
{
    match lang {
        Lang::En => "Writing video…",
        Lang::Ru => "Запись видео…",
    }
}

pub fn stage_metadata(lang: Lang) -> (r: &'static str)
    ensures
        r@ == match lang {
            Lang::En => "Reading metadata…"@,
            Lang::Ru => "Чтение метаданных…"@,
        },
{
    match lang {
        Lang::En => "Reading metadata…",
        Lang::Ru => "Чтение метаданных…",
    }
}

pub fn stage_read_original(lang: Lang) -> (r: &'static str)
    ensures
        r@ == match lang {
            Lang::En => "Reading original track"@,
            Lang::Ru => "Чтение оригинала"@,
        },
{
    match lang {
        Lang::En => "Reading original track",
        Lang::Ru => "Чтение оригинала",
    }
}

pub fn stage_final_mix(lang: Lang) -> (r: &'static str)
    ensures
        r@ == match lang {
            Lang::En => "Final mixdown"@,
            Lang::Ru => "Финальное сведение"@,
        },
{
    match lang {
        Lang::En => "Final mixdown",
        Lang::Ru => "Финальное сведение",
    }
}

pub fn stage_build_video(lang: Lang) -> (r: &'static str)
    ensures
        r@ == match lang {
            Lang::En => "Building video"@,
            Lang::Ru => "Сборка видео"@,
        },
{
    match lang {
        Lang::En => "Building video",
        Lang::Ru => "Сборка видео",
    }
}

pub fn stage_done(lang: Lang) -> (r: &'static str)
    ensures
        r@ == match lang {
            Lang::En => "Done"@,
            Lang::Ru => "Готово"@,
        },
{
    match lang {
        Lang::En => "Done",
        Lang::Ru => "Готово",
    }
}

pub fn error_nothing_to_export(lang: Lang) -> (r: &'static str)
    ensures
        r@ == match lang {
            Lang::En => "Nothing to export: the audio track is empty"@,
            Lang::Ru => "Нечего экспортировать: звуковая дорожка пустая"@,
        },
{
    match lang {
        Lang::En => "Nothing to export: the audio track is empty",
        Lang::Ru => "Нечего экспортировать: звуковая дорожка пустая",
    }
}

/// «3 of 40» / «3 из 40»
pub fn of_total(lang: Lang, value: usize, total: usize) -> (r: String)
    ensures
        r@ == match lang {
            Lang::En => decimal(value as nat) + " of "@ + decimal(total as nat),
            Lang::Ru => decimal(value as nat) + " из "@ + decimal(total as nat),
        },
{
    match lang {
        Lang::En => {
            let mut r = String::new();
            push_decimal(&mut r, value);
            r.append(" of ");
            push_decimal(&mut r, total);
            assert(r@ =~= decimal(value as nat) + " of "@ + decimal(total as nat));
            r
        },
        Lang::Ru => {
            let mut r = String::new();
            push_decimal(&mut r, value);
            r.append(" из ");
            push_decimal(&mut r, total);
            assert(r@ =~= decimal(value as nat) + " из "@ + decimal(total as nat));
            r
        },
    }
}

/// «Phrase 7» / «Фраза 7»
pub fn phrase_number(lang: Lang, id: usize) -> (r: String)
    ensures
        r@ == match lang {
            Lang::En => "Phrase "@ + decimal(id as nat),
            Lang::Ru => "Фраза "@ + decimal(id as nat),
        },
{
    match lang {
        Lang::En => {
            let mut r = String::new();
            r.append("Phrase ");
            push_decimal(&mut r, id);
            assert(r@ =~= "Phrase "@ + decimal(id as nat));
            r
        },
        Lang::Ru => {
            let mut r = String::new();
            r.append("Фраза ");
            push_decimal(&mut r, id);
            assert(r@ =~= "Фраза "@ + decimal(id as nat));
            r
        },
    }
}

/// Focus mode title: «Phrase 7 of 40» / «Фраза 7 из 40»
pub fn phrase_of_total(lang: Lang, number: usize, total: usize) -> (r: String)
    ensures
        r@ == match lang {
            Lang::En => "Phrase "@ + decimal(number as nat) + " of "@ + decimal(total as nat),
            Lang::Ru => "Фраза "@ + decimal(number as nat) + " из "@ + decimal(total as nat),
        },
{
    match lang {
        Lang::En => {
            let mut r = String::new();
            r.append("Phrase ");
            push_decimal(&mut r, number);
            r.append(" of ");
            push_decimal(&mut r, total);
            assert(r@ =~= "Phrase "@ + decimal(number as nat) + " of "@ + decimal(total as nat));
            r
        },
        Lang::Ru => {
            let mut r = String::new();
            r.append("Фраза ");
            push_decimal(&mut r, number);
            r.append(" из ");
            push_decimal(&mut r, total);
            assert(r@ =~= "Фраза "@ + decimal(number as nat) + " из "@ + decimal(total as nat));
            r
        },
    }
}

/// Counters in the status bar.
pub fn counters(lang: Lang, phrases: usize, takes: usize) -> (r: String)
    ensures
        r@ == match lang {
            Lang::En => "Phrases: "@ + decimal(phrases as nat) + " · takes: "@ + decimal(takes as nat),
            Lang::Ru => "Фраз: "@ + decimal(phrases as nat) + " · дублей: "@ + decimal(takes as nat),
        },
{
    match lang {
        Lang::En => {
            let mut r = String::new();
            r.append("Phrases: ");
            push_decimal(&mut r, phrases);
            r.append(" · takes: ");
            push_decimal(&mut r, takes);
            assert(r@ =~= "Phrases: "@ + decimal(phrases as nat) + " · takes: "@ + decimal(takes as nat));
            r
        },
        Lang::Ru => {
            let mut r = String::new();
            r.append("Фраз: ");
            push_decimal(&mut r, phrases);
            r.append(" · дублей: ");
            push_decimal(&mut r, takes);
            assert(r@ =~= "Фраз: "@ + decimal(phrases as nat) + " · дублей: "@ + decimal(takes as nat));
            r
        },
    }
}

pub fn status_save_failed(lang: Lang, error: &str) -> (r: String)
    ensures
        r@ == match lang {
            Lang::En => "Could not save the project: "@ + error@,
            Lang::Ru => "Не удалось сохранить проект: "@ + error@,
        },
{
    match lang {
        Lang::En => {
            let mut r = String::new();
            r.append("Could not save the project: ");
            r.append(error);
            assert(r@ =~= "Could not save the project: "@ + error@);
            r
        },
        Lang::Ru => {
            let mut r = String::new();
            r.append("Не удалось сохранить проект: ");
            r.append(error);
            assert(r@ =~= "Не удалось сохранить проект: "@ + error@);
            r
        },
    }
}

pub fn status_phrase_without_take(lang: Lang, number: usize) -> (r: String)
    ensures
        r@ == match lang {
            Lang::En => "Phrase "@ + decimal(number as nat) + " — no take yet"@,
            Lang::Ru => "Фраза "@ + decimal(number as nat) + " — без дубля"@,
        },
{
    match lang {
        Lang::En => {
            let mut r = String::new();
            r.append("Phrase ");
            push_decimal(&mut r, number);
            r.append(" — no take yet");
            assert(r@ =~= "Phrase "@ + decimal(number as nat) + " — no take yet"@);
            r
        },
        Lang::Ru => {
            let mut r = String::new();
            r.append("Фраза ");
            push_decimal(&mut r, number);
            r.append(" — без дубля");
            assert(r@ =~= "Фраза "@ + decimal(number as nat) + " — без дубля"@);
            r
        },
    }
}

pub fn status_recording_phrase(lang: Lang, number: usize, device: &str) -> (r: String)
    ensures
        r@ == match lang {
            Lang::En => "Recording phrase "@ + decimal(number as nat) + " — "@ + device@,
            Lang::Ru => "Запись фразы "@ + decimal(number as nat) + " — "@ + device@,
        },
{
    match lang {
        Lang::En => {
            let mut r = String::new();
            r.append("Recording phrase ");
            push_decimal(&mut r, number);
            r.append(" — ");
            r.append(device);
            assert(r@ =~= "Recording phrase "@ + decimal(number as nat) + " — "@ + device@);
            r
        },
        Lang::Ru => {
            let mut r = String::new();
            r.append("Запись фразы ");
            push_decimal(&mut r, number);
            r.append(" — ");
            r.append(device);
            assert(r@ =~= "Запись фразы "@ + decimal(number as nat) + " — "@ + device@);
            r
        },
    }
}

pub fn status_dropped_blocks(lang: Lang, dropped: usize) -> (r: String)
    ensures
        r@ == match lang {
            Lang::En => "Recording had dropouts ("@ + decimal(dropped as nat) + " blocks). Close heavy applications"@,
            Lang::Ru => "Запись шла с пропусками ("@ + decimal(dropped as nat) + " блоков). Закройте тяжёлые программы"@,
        },
{
    match lang {
        Lang::En => {
            let mut r = String::new();
            r.append("Recording had dropouts (");
            push_decimal(&mut r, dropped);
            r.append(" blocks). Close heavy applications");
            assert(r@ =~= "Recording had dropouts ("@ + decimal(dropped as nat) + " blocks). Close heavy applications"@);
            r
        },
        Lang::Ru => {
            let mut r = String::new();
            r.append("Запись шла с пропусками (");
            push_decimal(&mut r, dropped);
            r.append(" блоков). Закройте тяжёлые программы");
            assert(r@ =~= "Запись шла с пропусками ("@ + decimal(dropped as nat) + " блоков). Закройте тяжёлые программы"@);
            r
        },
    }
}

pub fn status_take_saved(lang: Lang, duration: &str) -> (r: String)
    ensures
        r@ == match lang {
            Lang::En => "Take saved: "@ + duration@,
            Lang::Ru => "Дубль сохранён: "@ + duration@,
        },
{
    match lang {
        Lang::En => {
            let mut r = String::new();
            r.append("Take saved: ");
            r.append(duration);
            assert(r@ =~= "Take saved: "@ + duration@);
            r
        },
        Lang::Ru => {
            let mut r = String::new();
            r.append("Дубль сохранён: ");
            r.append(duration);
            assert(r@ =~= "Дубль сохранён: "@ + duration@);
            r
        },
    }
}

pub fn status_project_restored(lang: Lang, name: &str, phrases: usize, takes: usize) -> (r: String)
    ensures
        r@ == match lang {
            Lang::En => name@ + ": project restored, "@ + decimal(phrases as nat) + " phrases, "@ + decimal(takes as nat) + " takes"@,
            Lang::Ru => name@ + ": проект восстановлен, фраз "@ + decimal(phrases as nat) + ", дублей "@ + decimal(takes as nat),
        },
{
    match lang {
        Lang::En => {
            let mut r = String::new();
            r.append(name);
            r.append(": project restored, ");
            push_decimal(&mut r, phrases);
            r.append(" phrases, ");
            push_decimal(&mut r, takes);
            r.append(" takes");
            assert(r@ =~= name@ + ": project restored, "@ + decimal(phrases as nat) + " phrases, "@ + decimal(takes as nat) + " takes"@);
            r
        },
        Lang::Ru => {
            let mut r = String::new();
            r.append(name);
            r.append(": проект восстановлен, фраз ");
            push_decimal(&mut r, phrases);
            r.append(", дублей ");
            push_decimal(&mut r, takes);
            assert(r@ =~= name@ + ": проект восстановлен, фраз "@ + decimal(phrases as nat) + ", дублей "@ + decimal(takes as nat));
            r
        },
    }
}

pub fn status_phrases_found(lang: Lang, name: &str, phrases: usize) -> (r: String)
    ensures
        r@ == match lang {
            Lang::En => name@ + ": "@ + decimal(phrases as nat) + " phrases found"@,
            Lang::Ru => name@ + ": найдено фраз "@ + decimal(phrases as nat),
        },
{
    match lang {
        Lang::En => {
            let mut r = String::new();
            r.append(name);
            r.append(": ");
            push_decimal(&mut r, phrases);
            r.append(" phrases found");
            assert(r@ =~= name@ + ": "@ + decimal(phrases as nat) + " phrases found"@);
            r
        },
        Lang::Ru => {
            let mut r = String::new();
            r.append(name);
            r.append(": найдено фраз ");
            push_decimal(&mut r, phrases);
            assert(r@ =~= name@ + ": найдено фраз "@ + decimal(phrases as nat));
            r
        },
    }
}

pub fn status_sliced(lang: Lang, engine: &str, phrases: usize, restored: usize) -> (r: String)
    ensures
        r@ == match lang {
            Lang::En => engine@ + ": "@ + decimal(phrases as nat) + " phrases, "@ + decimal(restored as nat) + " takes kept"@,
            Lang::Ru => engine@ + ": фраз "@ + decimal(phrases as nat) + ", сохранено дублей "@ + decimal(restored as nat),
        },
{
    match lang {
        Lang::En => {
            let mut r = String::new();
            r.append(engine);
            r.append(": ");
            push_decimal(&mut r, phrases);
            r.append(" phrases, ");
            push_decimal(&mut r, restored);
            r.append(" takes kept");
            assert(r@ =~= engine@ + ": "@ + decimal(phrases as nat) + " phrases, "@ + decimal(restored as nat) + " takes kept"@);
            r
        },
        Lang::Ru => {
            let mut r = String::new();
            r.append(engine);
            r.append(": фраз ");
            push_decimal(&mut r, phrases);
            r.append(", сохранено дублей ");
            push_decimal(&mut r, restored);
            assert(r@ =~= engine@ + ": фраз "@ + decimal(phrases as nat) + ", сохранено дублей "@ + decimal(restored as nat));
            r
        },
    }
}

pub fn status_exported(lang: Lang, path: &str) -> (r: String)
    ensures
        r@ == match lang {
            Lang::En => "Done: "@ + path@,
            Lang::Ru => "Готово: "@ + path@,
        },
{
    match lang {
        Lang::En => {
            let mut r = String::new();
            r.append("Done: ");
            r.append(path);
            assert(r@ =~= "Done: "@ + path@);
            r
        },
        Lang::Ru => {
            let mut r = String::new();
            r.append("Готово: ");
            r.append(path);
            assert(r@ =~= "Готово: "@ + path@);
            r
        },
    }
}

pub fn stage_mixing_phrase(lang: Lang, index: usize, total: usize) -> (r: String)
    ensures
        r@ == match lang {
            Lang::En => "Mixing phrase "@ + decimal(index as nat) + "/"@ + decimal(total as nat),
            Lang::Ru => "Сведение фразы "@ + decimal(index as nat) + "/"@ + decimal(total as nat),
        },
{
    match lang {
        Lang::En => {
            let mut r = String::new();
            r.append("Mixing phrase ");
            push_decimal(&mut r, index);
            r.append("/");
            push_decimal(&mut r, total);
            assert(r@ =~= "Mixing phrase "@ + decimal(index as nat) + "/"@ + decimal(total as nat));
            r
        },
        Lang::Ru => {
            let mut r = String::new();
            r.append("Сведение фразы ");
            push_decimal(&mut r, index);
            r.append("/");
            push_decimal(&mut r, total);
            assert(r@ =~= "Сведение фразы "@ + decimal(index as nat) + "/"@ + decimal(total as nat));
            r
        },
    }
}

pub fn status_slice_failed(lang: Lang, error: &str) -> (r: String)
    ensures
        r@ == match lang {
            Lang::En => "Phrase detection failed: "@ + error@,
            Lang::Ru => "Не удалось нарезать фразы: "@ + error@,
        },
{
    match lang {
        Lang::En => {
            let mut r = String::new();
            r.append("Phrase detection failed: ");
            r.append(error);
            assert(r@ =~= "Phrase detection failed: "@ + error@);
            r
        },
        Lang::Ru => {
            let mut r = String::new();
            r.append("Не удалось нарезать фразы: ");
            r.append(error);
            assert(r@ =~= "Не удалось нарезать фразы: "@ + error@);
            r
        },
    }
}

} // verus!
