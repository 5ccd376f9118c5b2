use voxmux::logbuf::RecognitionBuffer;
use voxmux::logbuf::TuiLogLayer;
use voxmux::logbuf::format_log_line;
use voxmux::logbuf::push_recognition;
use voxmux::types::AudioChunk;
use voxmux::types::InputStatus;
use voxmux::types::RecognitionResult;
use voxmux::types::TextMetadata;
use voxmux::ui::InputState;
use voxmux::ui::OutputState;
use voxmux::ui::RouterState;
use voxmux::ui::UiCommand;

#[test]
fn test_audio_chunk_creation() {
    let chunk = AudioChunk {
        samples: vec![0.0f32, 0.5, -0.5, 1.0].iter().map(|x| x.to_bits()).collect(),
        sample_rate: 48000,
        channels: 1,
    };
    assert_eq!(chunk.samples.len(), 4);
    assert_eq!(chunk.sample_rate, 48000);
    assert_eq!(chunk.channels, 1);
}

#[test]
fn test_recognition_result_fields() {
    let result = RecognitionResult {
        text: "hello world".to_string(),
        input_id: "mic1".to_string(),
        timestamp_bits: 1.5f64.to_bits(),
        is_final: true,
    };
    assert_eq!(result.text, "hello world");
    assert_eq!(result.input_id, "mic1");
    assert_eq!(f64::from_bits(result.timestamp_bits), 1.5);
    assert!(result.is_final);
}

#[test]
fn test_text_metadata_fields() {
    let meta = TextMetadata {
        input_id: "radio1".to_string(),
        prefix: "[R1] ".to_string(),
    };
    assert_eq!(meta.input_id, "radio1");
    assert_eq!(meta.prefix, "[R1] ");
}

#[test]
fn test_input_status_default_ok() {
    assert_eq!(InputStatus::default(), InputStatus::Okay);
}

#[test]
fn test_router_state_default() {
    let state = RouterState::default();
    assert!(state.inputs.is_empty());
    assert!(!state.is_running);
    assert!(state.latest_recognitions.is_empty());
    assert_eq!(state.output, OutputState::default());
}

#[test]
fn test_input_state_default() {
    let input = InputState::default();
    assert_eq!(f32::from_bits(input.volume_bits), 0.0);
    assert!(!input.enabled);
    assert!(!input.muted);
    assert_eq!(f32::from_bits(input.peak_level_bits), 0.0);
    assert!(input.id.is_empty());
    assert!(input.device_name.is_empty());
    assert_eq!(input.status, InputStatus::Okay);
}

#[test]
fn test_input_state_has_status() {
    let input = InputState::default();
    assert_eq!(input.status, InputStatus::Okay);
}

#[test]
fn test_router_state_has_warnings() {
    let state = RouterState::default();
    assert!(state.warnings.is_empty());
}

#[test]
fn test_ui_command_clone_eq() {
    let cmd = UiCommand::SetVolume {
        input_id: "mic1".to_string(),
        volume_bits: 0.75f32.to_bits(),
    };
    let cloned = cmd.clone();
    assert_eq!(cmd, cloned);
}

#[test]
fn test_router_state_is_clone() {
    let state = RouterState {
        inputs: vec![InputState {
            id: "mic1".to_string(),
            device_name: "USB Mic".to_string(),
            enabled: true,
            volume_bits: 0.8f32.to_bits(),
            muted: false,
            peak_level_bits: 0.5f32.to_bits(),
            status: InputStatus::Okay,
        }],
        output: OutputState {
            device_name: "speakers".to_string(),
            play_mixed_input: true,
        },
        latest_recognitions: vec!["hello".to_string()],
        warnings: Vec::new(),
        is_running: true,
    };
    let cloned = state.clone();
    assert_eq!(state, cloned);
}

#[test]
fn test_recognition_buffer_bounded() {
    let mut buf = RecognitionBuffer::new(50);
    for i in 0..55 {
        push_recognition(&mut buf, format!("msg{}", i));
    }
    assert_eq!(buf.len(), 50);
    // The oldest five lines have been dropped.
    assert_eq!(buf.line(0), "msg5");
    assert_eq!(buf.line(49), "msg54");
}

#[test]
fn test_log_line_format() {
    assert_eq!(format_log_line("INFO", "voxmux", "hello"), "[INFO] voxmux: hello");
}

#[test]
fn test_log_layer_bounded_drops_oldest() {
    let mut layer = TuiLogLayer::new(2);
    layer.push_line(format_log_line("INFO", "t", "first"));
    layer.push_line(format_log_line("INFO", "t", "second"));
    layer.push_line(format_log_line("INFO", "t", "third"));
    assert_eq!(layer.len(), 2);
    assert!(layer.line(0).contains("second"), "expected 'second', got: {}", layer.line(0));
    assert!(layer.line(1).contains("third"), "expected 'third', got: {}", layer.line(1));
}
