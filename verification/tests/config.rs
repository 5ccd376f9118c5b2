use voxmux::config::AppConfig;
use voxmux::config::ConfigDiff;
use voxmux::config::GeneralConfig;
use voxmux::config::InputConfig;
use voxmux::config::OutputConfig;
use voxmux::config::default_buffer_size;
use voxmux::config::default_device_name;
use voxmux::config::default_language;
use voxmux::config::default_log_level;
use voxmux::config::default_sample_rate;
use voxmux::config::default_true;
use voxmux::config::default_volume_bits;
use voxmux::config::interpolate_vars;
use voxmux::types::ConfigError;

fn input(id: &str, device: &str, volume: f32, muted: bool) -> InputConfig {
    InputConfig {
        id: id.to_string(),
        device_name: device.to_string(),
        enabled: true,
        volume_bits: volume.to_bits(),
        muted,
        destinations: Vec::new(),
    }
}

fn base_config() -> AppConfig {
    AppConfig {
        general: GeneralConfig::default(),
        output: OutputConfig {
            device_name: "speakers".to_string(),
            play_mixed_input: true,
        },
        input: vec![input("mic1", "USB Mic", 0.8, false)],
        asr: None,
        destinations: None,
    }
}

#[test]
fn test_config_diff_volume_change() {
    let old = base_config();
    let mut new = base_config();
    new.input[0].volume_bits = 0.5f32.to_bits();

    let diff = ConfigDiff::diff(&old, &new);
    assert_eq!(diff.volume_changes, vec![("mic1".to_string(), 0.5f32.to_bits())]);
    assert!(diff.mute_changes.is_empty());
    assert!(diff.non_reloadable.is_empty());
}

#[test]
fn test_config_diff_mute_change() {
    let old = base_config();
    let mut new = base_config();
    new.input[0].muted = true;

    let diff = ConfigDiff::diff(&old, &new);
    assert!(diff.volume_changes.is_empty());
    assert_eq!(diff.mute_changes, vec![("mic1".to_string(), true)]);
}

#[test]
fn test_config_diff_no_change() {
    let old = base_config();
    let new = base_config();
    let diff = ConfigDiff::diff(&old, &new);
    assert!(diff.volume_changes.is_empty());
    assert!(diff.mute_changes.is_empty());
    assert!(diff.enabled_changes.is_empty());
    assert!(diff.play_mixed_change.is_none());
    assert!(diff.non_reloadable.is_empty());
}

#[test]
fn test_config_diff_ignores_device_change() {
    let old = base_config();
    let mut new = base_config();
    new.input[0].device_name = "New Device".to_string();

    let diff = ConfigDiff::diff(&old, &new);
    assert!(diff.volume_changes.is_empty());
    assert_eq!(diff.non_reloadable.len(), 1);
    assert!(diff.non_reloadable[0].contains("device changed"));
}

#[test]
fn test_config_diff_enabled_change() {
    let old = base_config();
    let mut new = base_config();
    new.input[0].enabled = false;

    let diff = ConfigDiff::diff(&old, &new);
    assert!(diff.volume_changes.is_empty());
    assert!(diff.mute_changes.is_empty());
    assert_eq!(diff.enabled_changes, vec![("mic1".to_string(), false)]);
    assert!(diff.non_reloadable.is_empty());
}

#[test]
fn test_config_diff_ignores_sub_epsilon_volume() {
    // A volume edit within machine epsilon is not a change; neither is a
    // flip between the equal values +0.0 and -0.0.
    let old = base_config();
    let mut new = base_config();
    new.input[0].volume_bits = f32::from_bits(0.8f32.to_bits() + 1).to_bits();
    let diff = ConfigDiff::diff(&old, &new);
    assert!(diff.volume_changes.is_empty());

    let mut old_zero = base_config();
    old_zero.input[0].volume_bits = 0.0f32.to_bits();
    let mut new_zero = base_config();
    new_zero.input[0].volume_bits = (-0.0f32).to_bits();
    let diff = ConfigDiff::diff(&old_zero, &new_zero);
    assert!(diff.volume_changes.is_empty());
}

#[test]
fn test_config_diff_reports_volume_beyond_epsilon() {
    let old = base_config();
    let mut new = base_config();
    new.input[0].volume_bits = 0.801f32.to_bits();
    let diff = ConfigDiff::diff(&old, &new);
    assert_eq!(diff.volume_changes, vec![("mic1".to_string(), 0.801f32.to_bits())]);
}

#[test]
fn test_config_diff_warning_text() {
    let old = base_config();
    let mut new = base_config();
    new.general.sample_rate = 44100;
    new.input[0].device_name = "Line In".to_string();
    let diff = ConfigDiff::diff(&old, &new);
    assert_eq!(diff.non_reloadable.len(), 2);
    assert_eq!(
        diff.non_reloadable[0],
        "sample_rate changed (48000 -> 44100), requires restart"
    );
    assert_eq!(
        diff.non_reloadable[1],
        "input 'mic1' device changed ('USB Mic' -> 'Line In'), requires restart"
    );
}

#[test]
fn test_config_diff_play_mixed_change() {
    let old = base_config();
    let mut new = base_config();
    new.output.play_mixed_input = false;

    let diff = ConfigDiff::diff(&old, &new);
    assert_eq!(diff.play_mixed_change, Some(false));
}

#[test]
fn test_config_diff_sample_rate_non_reloadable() {
    let old = base_config();
    let mut new = base_config();
    new.general.sample_rate = 44100;
    new.general.buffer_size = 512;

    let diff = ConfigDiff::diff(&old, &new);
    assert_eq!(diff.non_reloadable.len(), 2);
    assert!(diff.non_reloadable[0].contains("sample_rate"));
    assert!(diff.non_reloadable[1].contains("buffer_size"));
}

#[test]
fn test_config_defaults() {
    assert_eq!(default_log_level(), "info");
    assert_eq!(default_sample_rate(), 48000);
    assert_eq!(default_buffer_size(), 1024);
    assert_eq!(default_device_name(), "default");
    assert!(default_true());
    assert_eq!(default_volume_bits(), 1.0f32.to_bits());
    assert_eq!(default_language(), "ja");
    let g = GeneralConfig::default();
    assert_eq!(g.log_level, "info");
    assert_eq!(g.sample_rate, 48000);
    assert_eq!(g.buffer_size, 1024);
    let o = OutputConfig::default();
    assert_eq!(o.device_name, "default");
    assert!(o.play_mixed_input);
}

fn chars(s: &str) -> Vec<char> {
    s.chars().collect()
}

fn vars(pairs: &[(&str, &str)]) -> Vec<(String, String)> {
    pairs
        .iter()
        .map(|(k, v)| (k.to_string(), v.to_string()))
        .collect()
}

#[test]
fn test_interpolation_replaces_variables() {
    let out = interpolate_vars(
        &chars("level = \"${ASR_TEST_TOKEN}\""),
        &vars(&[("ASR_TEST_TOKEN", "secret123")]),
    )
    .unwrap();
    let s: String = out.into_iter().collect();
    assert_eq!(s, "level = \"secret123\"");
}

#[test]
fn test_interpolation_missing_variable_is_error() {
    let result = interpolate_vars(&chars("x = \"${DEFINITELY_DOES_NOT_EXIST_12345}\""), &vars(&[]));
    match result {
        Err(ConfigError::EnvVarNotFound(name)) => {
            assert_eq!(name, "DEFINITELY_DOES_NOT_EXIST_12345");
        }
        _ => panic!("expected EnvVarNotFound"),
    }
}

#[test]
fn test_interpolation_first_missing_wins() {
    let result = interpolate_vars(&chars("${A} ${B}"), &vars(&[("B", "two")]));
    match result {
        Err(ConfigError::EnvVarNotFound(name)) => assert_eq!(name, "A"),
        _ => panic!("expected EnvVarNotFound"),
    }
}

#[test]
fn test_interpolation_unterminated_copied_verbatim() {
    let out = interpolate_vars(&chars("tail ${X"), &vars(&[])).unwrap();
    let s: String = out.into_iter().collect();
    assert_eq!(s, "tail ${X");
}

#[test]
fn test_interpolation_empty_reference_verbatim() {
    let out = interpolate_vars(&chars("a ${} b"), &vars(&[("X", "y")])).unwrap();
    let s: String = out.into_iter().collect();
    assert_eq!(s, "a ${} b");
}

#[test]
fn test_interpolation_plain_text_unchanged() {
    let out = interpolate_vars(&chars("no references here"), &vars(&[("A", "b")])).unwrap();
    let s: String = out.into_iter().collect();
    assert_eq!(s, "no references here");
}
