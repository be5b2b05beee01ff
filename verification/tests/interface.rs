//! The texts and choices of the interface.
use km003c_workbench::connection::ConnectionPhase;
use km003c_workbench::i18n::{app_title, connection_error, original_error_context, Language, APP_TITLE};
use km003c_workbench::layout::{
    recoverable_file_columns, recoverable_session_columns, settings_control_width, toolbar_density,
    uses_compact_monitor_layout, SettingsLayoutMetrics, ToolbarDensity, MAX_WINDOW_HEIGHT, MAX_WINDOW_WIDTH,
    MIN_WINDOW_HEIGHT, MIN_WINDOW_WIDTH, SETTINGS_FORM_LABEL_WIDTH,
};
use km003c_workbench::options::{
    localized_session_state, RecordingPhase, SampleRateOption, SettingsPage,
};
use km003c_workbench::recording::RecordingFormat;
use km003c_workbench::recording_session::SessionState;
use km003c_workbench::settings::{dated_filename, listed_name, version_label};
use km003c_workbench::theme::{
    SkinId, SkinPalette, BACKPLANE, CAPACITY, CURRENT, DIVIDER, ENERGY, PANEL, POWER, RECORDING, VOLTAGE,
};
use km003c_workbench::toolbar::{
    actual_rate_label, can_toggle_recording, connection_label, device_label, record_action, record_label,
    RecordAction,
};

#[test]
fn settings_navigation_has_complete_bilingual_labels() {
    for page in SettingsPage::all() {
        assert!(!page.localized_label(Language::SimplifiedChinese).is_empty());
        assert!(!page.localized_label(Language::English).is_empty());
        assert!(!page.localized_description(Language::SimplifiedChinese).is_empty());
        assert!(!page.localized_description(Language::English).is_empty());
    }
    assert_eq!(Language::SimplifiedChinese.short_name(), "简中");
    assert_eq!(Language::English.short_name(), "EN");
}

#[test]
fn recoverable_session_states_have_complete_bilingual_labels() {
    for state in [
        SessionState::Recording,
        SessionState::Paused,
        SessionState::WaitingForReconnect,
        SessionState::Finalizing,
        SessionState::Saved,
        SessionState::Interrupted,
    ] {
        assert!(!localized_session_state(state, Language::SimplifiedChinese).is_empty());
        assert!(!localized_session_state(state, Language::English).is_empty());
    }
    assert_eq!(
        localized_session_state(SessionState::Interrupted, Language::SimplifiedChinese),
        "异常中断"
    );
}

#[test]
fn connection_error_mapping_only_retries_missing_devices() {
    let (phase, message) = connection_error(Language::SimplifiedChinese, "Device not found");
    assert_eq!(phase, ConnectionPhase::NoDevice);
    assert!(message.contains("自动重试"));

    let (phase, message) = connection_error(Language::SimplifiedChinese, "resource busy");
    assert_eq!(phase, ConnectionPhase::DeviceBusy);
    assert!(message.contains("关闭其它"));
    assert!(phase.is_terminal_failure());
}

#[test]
fn monitor_layout_compacts_before_the_protocol_and_signal_cards_clip() {
    assert!(!uses_compact_monitor_layout(1280, 740));
    assert!(uses_compact_monitor_layout(1239, 740));
    assert!(uses_compact_monitor_layout(1280, 619));
    assert!(uses_compact_monitor_layout(1024, 560));
}

#[test]
fn toolbar_density_reserves_space_for_english_controls() {
    assert_eq!(toolbar_density(1440), ToolbarDensity::Full);
    assert_eq!(toolbar_density(1160), ToolbarDensity::Compact);
    assert_eq!(toolbar_density(1024), ToolbarDensity::Narrow);
}

#[test]
fn settings_layout_keeps_navigation_content_and_footer_in_bounds() {
    for (width, height) in [(1024, 700), (1280, 820), (1728, 1117)] {
        let metrics = SettingsLayoutMetrics::for_content_rect(width, height);

        assert!(metrics.window_width <= width - 24);
        assert!(metrics.window_height <= height - 24);
        assert!((MIN_WINDOW_WIDTH..=MAX_WINDOW_WIDTH).contains(&metrics.window_width));
        assert!((MIN_WINDOW_HEIGHT..=MAX_WINDOW_HEIGHT).contains(&metrics.window_height));
        assert_eq!(metrics.navigation_width, 184);
        assert!(metrics.content_width >= 580);
        assert!(metrics.scroll_height >= 400);
        assert_eq!(metrics.footer_height, 44);
    }
}

#[test]
fn settings_form_columns_leave_room_for_both_languages() {
    assert_eq!(SETTINGS_FORM_LABEL_WIDTH, 148);
    assert_eq!(settings_control_width(680), 360);
    assert_eq!(settings_control_width(400), 240);
}

#[test]
fn recoverable_file_rows_share_one_fixed_action_column() {
    assert_eq!(recoverable_file_columns(680), (598, 72));
    assert_eq!(recoverable_file_columns(202), (120, 72));

    let (details, actions) = recoverable_session_columns(680);
    assert_eq!(actions, 244);
    assert_eq!(details, 424);
}

#[test]
fn instrument_design_tokens_do_not_drift() {
    assert_eq!(BACKPLANE, 0x0D1117FF);
    assert_eq!(PANEL, 0x161B22FF);
    assert_eq!(DIVIDER, 0x30363DFF);
    assert_eq!(VOLTAGE, 0x58A6FFFF);
    assert_eq!(CURRENT, 0x3FB950FF);
    assert_eq!(POWER, 0xD29922FF);
    assert_eq!(ENERGY, 0xF76EB6FF);
    assert_eq!(CAPACITY, 0xA37AF2FF);
    assert_eq!(RECORDING, 0xF85149FF);
}

#[test]
fn skins_only_change_containers_not_measurement_semantics() {
    let industrial = SkinPalette::for_skin(SkinId::Industrial);
    let clean = SkinPalette::for_skin(SkinId::CleanAnime);
    assert_eq!(industrial.backplane, BACKPLANE);
    assert_eq!(industrial.panel, PANEL);
    assert_eq!(industrial.divider, DIVIDER);
    assert_ne!(clean.backplane, industrial.backplane);
    assert_ne!(clean.panel_raised, industrial.panel_raised);
    assert_eq!(industrial.wallpaper_alpha, 0);
    assert!(clean.wallpaper_alpha > 0);
    assert_eq!(VOLTAGE, 0x58A6FFFF);
    assert_eq!(CURRENT, 0x3FB950FF);
    assert_eq!(POWER, 0xD29922FF);
}

#[test]
fn clickable_record_buttons_act() {
    for phase in [
        RecordingPhase::Idle,
        RecordingPhase::Recording,
        RecordingPhase::Paused,
        RecordingPhase::Finalizing,
        RecordingPhase::Saved,
        RecordingPhase::Interrupted,
        RecordingPhase::WaitingForReconnect,
        RecordingPhase::Recovering,
    ] {
        for session in [false, true] {
            assert!(!record_label(phase, session, Language::English).is_empty());
            if can_toggle_recording(phase, session, true, false) {
                assert_ne!(record_action(phase), RecordAction::Nothing);
            }
        }
    }
    assert_eq!(record_action(RecordingPhase::Recording), RecordAction::Pause);
}

#[test]
fn the_status_line_names_the_device() {
    let label = device_label(Some("KM003C"), ConnectionPhase::Streaming, Language::English);
    assert!(label.contains("KM003C"), "{label}");
    assert_ne!(
        connection_label(true, Language::English),
        connection_label(false, Language::English)
    );
    assert_eq!(
        actual_rate_label(true, SampleRateOption::Sps50, SampleRateOption::Sps50, Language::English),
        None
    );
    assert!(actual_rate_label(true, SampleRateOption::Sps10, SampleRateOption::Sps50, Language::English)
        .is_some());
}

#[test]
fn names_and_versions_are_told() {
    assert_eq!(listed_name(Some("a.csv"), Language::English), "a.csv");
    assert!(!listed_name(None, Language::English).is_empty());
    assert!(version_label("0.1.0", "1", Language::English).contains("0.1.0"));
    let name = dated_filename("km003c-buffer", 1_788_000_000, RecordingFormat::Csv);
    assert_eq!(name, "km003c-buffer-1788000000.csv");
    assert!(original_error_context(Language::English, "raw").contains("raw"));
    assert_eq!(app_title(Language::SimplifiedChinese), APP_TITLE);
}
