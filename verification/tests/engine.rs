use voxmux::engine::NullEngine;
use voxmux::engine::WhisperEngine;
use voxmux::engine::WorkerAction;
use voxmux::engine::WorkerEvent;
use voxmux::engine::worker_step;
use voxmux::types::AsrError;
use voxmux::types::AudioChunk;
use voxmux::types::RecognitionResult;

fn chunk(n: usize, sample_rate: u32) -> AudioChunk {
    AudioChunk {
        samples: vec![0u32; n],
        sample_rate,
        channels: 1,
    }
}

#[test]
fn test_null_engine_name() {
    let engine = NullEngine::new();
    assert_eq!(engine.name(), "null");
}

#[test]
fn test_null_engine_feed_produces_final_result() {
    // The null engine answers a chunk of 480 samples with a final
    // acknowledgement naming the count.
    let mut engine = NullEngine::new();
    let result = engine.feed(&chunk(480, 48000));
    assert_eq!(result.text, "[null] 480 samples");
    assert!(result.is_final);
    assert!(result.input_id.is_empty());
}

#[test]
fn test_null_engine_feed_counts() {
    let mut engine = NullEngine::new();
    for _ in 0..3 {
        engine.feed(&chunk(480, 48000));
    }
    assert_eq!(engine.feed_count(), 3);
}

#[test]
fn test_worker_stamps_input_id() {
    // A result forwarded by the worker for "mic1" carries input_id
    // "mic1", whatever the engine wrote there.
    let mut engine = NullEngine::new();
    let result = engine.feed(&chunk(480, 48000));
    let action = worker_step("mic1", WorkerEvent::EngineResult(result));
    match action {
        WorkerAction::Forward(r) => {
            assert_eq!(r.input_id, "mic1");
            assert_eq!(r.text, "[null] 480 samples");
            assert!(r.is_final);
        }
        _ => panic!("expected Forward"),
    }
}

#[test]
fn test_worker_feeds_tap_chunks() {
    let action = worker_step("mic1", WorkerEvent::Tap(chunk(100, 16000)));
    match action {
        WorkerAction::Feed(c) => assert_eq!(c.samples.len(), 100),
        _ => panic!("expected Feed"),
    }
}

#[test]
fn test_worker_shutdown_on_tap_close() {
    assert_eq!(worker_step("mic1", WorkerEvent::TapClosed), WorkerAction::ShutdownAndStop);
    assert_eq!(worker_step("mic1", WorkerEvent::EngineClosed), WorkerAction::Stop);
}

#[test]
fn test_worker_preserves_result_order_fields() {
    let r = RecognitionResult {
        text: "hello".to_string(),
        input_id: "wrong".to_string(),
        timestamp_bits: 2.5f64.to_bits(),
        is_final: false,
    };
    match worker_step("radio1", WorkerEvent::EngineResult(r)) {
        WorkerAction::Forward(s) => {
            assert_eq!(s.input_id, "radio1");
            assert_eq!(s.text, "hello");
            assert_eq!(s.timestamp_bits, 2.5f64.to_bits());
            assert!(!s.is_final);
        }
        _ => panic!("expected Forward"),
    }
}

#[test]
fn test_whisper_engine_name() {
    let engine = WhisperEngine::new();
    assert_eq!(engine.name(), "whisper");
}

#[test]
fn test_whisper_initialize_missing_model_path_fails() {
    let mut engine = WhisperEngine::new();
    let config = toml::Value::Table(toml::map::Map::new());
    match engine.initialize(&config) {
        Err(AsrError::InitializationFailed(msg)) => {
            assert!(msg.contains("model_path"));
        }
        _ => panic!("expected InitializationFailed"),
    }
}

#[test]
fn test_whisper_initialize_with_config_succeeds() {
    let mut engine = WhisperEngine::new();
    let mut table = toml::map::Map::new();
    table.insert(
        "model_path".to_string(),
        toml::Value::String("./models/test.bin".to_string()),
    );
    table.insert("language".to_string(), toml::Value::String("ja".to_string()));
    let result = engine.initialize(&toml::Value::Table(table));
    assert!(result.is_ok());
}
