use voxmux::route::DiscordDestination;
use voxmux::route::FileDestination;
use voxmux::route::RouteTable;
use voxmux::route::file_line;
use voxmux::route::forward_line;
use voxmux::types::DestinationError;
use voxmux::types::RecognitionResult;
use voxmux::types::TextMetadata;

fn make_result(input_id: &str, text: &str, is_final: bool) -> RecognitionResult {
    RecognitionResult {
        text: text.to_string(),
        input_id: input_id.to_string(),
        timestamp_bits: 0,
        is_final,
    }
}

fn file_config(path: &str) -> toml::Value {
    let mut t = toml::map::Map::new();
    t.insert("path".to_string(), toml::Value::String(path.to_string()));
    toml::Value::Table(t)
}

#[test]
fn test_dispatch_fan_out() {
    // Two destinations on mic1 with prefixes "[A] " and "[B] ": a final
    // recognition produces one line per route.
    let mut table = RouteTable::new();
    table.add_entry("mic1", "file", "[A] ");
    table.add_entry("mic1", "file", "[B] ");

    let d = table.plan_dispatch(&make_result("mic1", "fanout", true));
    assert_eq!(d.len(), 2);
    assert_eq!(d[0].route_index, 0);
    assert_eq!(d[1].route_index, 1);
    assert_eq!(file_line(&d[0].meta.prefix, &d[0].text), "[A] fanout\n");
    assert_eq!(file_line(&d[1].meta.prefix, &d[1].text), "[B] fanout\n");
}

#[test]
fn test_dispatch_non_final_produces_nothing() {
    let mut table = RouteTable::new();
    table.add_entry("mic1", "file", "[A] ");
    let d = table.plan_dispatch(&make_result("mic1", "partial", false));
    assert!(d.is_empty());
}

#[test]
fn test_dispatch_routes_to_correct_input() {
    let mut table = RouteTable::new();
    table.add_entry("mic1", "file", "");
    table.add_entry("mic2", "file", "");
    let d = table.plan_dispatch(&make_result("mic1", "from mic1", true));
    assert_eq!(d.len(), 1);
    assert_eq!(d[0].route_index, 0);
    assert_eq!(d[0].meta.input_id, "mic1");
    assert_eq!(d[0].text, "from mic1");
}

#[test]
fn test_dispatch_ignores_unrouted_input() {
    let mut table = RouteTable::new();
    table.add_entry("mic1", "file", "");
    let d = table.plan_dispatch(&make_result("mic_unknown", "ignored", true));
    assert!(d.is_empty());
}

#[test]
fn test_forward_line_format() {
    let line = forward_line(&make_result("mic1", "hello world", true));
    assert_eq!(line, "[mic1] hello world");
}

#[test]
fn test_file_dest_name() {
    let dest = FileDestination::new();
    assert_eq!(dest.name(), "file");
}

#[test]
fn test_file_dest_is_healthy_before_init() {
    let dest = FileDestination::new();
    assert!(!dest.is_healthy());
}

#[test]
fn test_file_dest_initialize_sets_path() {
    let mut dest = FileDestination::new();
    let result = dest.initialize(&file_config("/tmp/test.txt"));
    assert!(result.is_ok());
    assert!(dest.is_healthy());
}

#[test]
fn test_file_dest_initialize_missing_path_fails() {
    let mut dest = FileDestination::new();
    let config = toml::Value::Table(toml::map::Map::new());
    match dest.initialize(&config) {
        Err(DestinationError::InitializationFailed(msg)) => {
            assert!(msg.contains("path"));
        }
        _ => panic!("expected InitializationFailed"),
    }
}

#[test]
fn test_file_dest_line_for_formats_send() {
    let mut dest = FileDestination::new();
    dest.initialize(&file_config("/tmp/out.txt")).unwrap();
    let meta = TextMetadata {
        input_id: "mic1".to_string(),
        prefix: "[M1] ".to_string(),
    };
    let (path, line) = dest.line_for("hello world", &meta).unwrap();
    assert_eq!(path, "/tmp/out.txt");
    assert_eq!(line, "[M1] hello world\n");
}

#[test]
fn test_file_dest_line_for_before_initialize_fails() {
    let dest = FileDestination::new();
    let meta = TextMetadata {
        input_id: "mic1".to_string(),
        prefix: "".to_string(),
    };
    match dest.line_for("test", &meta) {
        Err(DestinationError::SendFailed(_)) => {}
        _ => panic!("expected SendFailed"),
    }
}

#[test]
fn test_file_dest_send_count() {
    let mut dest = FileDestination::new();
    dest.initialize(&file_config("/tmp/out.txt")).unwrap();
    assert_eq!(dest.send_count(), 0);
    for _ in 0..3 {
        dest.record_send();
    }
    assert_eq!(dest.send_count(), 3);
}

#[test]
fn test_discord_dest_name() {
    let dest = DiscordDestination::new();
    assert_eq!(dest.name(), "discord");
}

#[test]
fn test_discord_dest_initialize_missing_token_fails() {
    let mut dest = DiscordDestination::new();
    let config = toml::Value::Table(toml::map::Map::new());
    match dest.initialize(&config) {
        Err(DestinationError::InitializationFailed(msg)) => {
            assert!(msg.contains("token"));
        }
        _ => panic!("expected InitializationFailed"),
    }
    assert!(!dest.is_healthy());
}

#[test]
fn test_discord_dest_initialize_with_config_succeeds() {
    let mut dest = DiscordDestination::new();
    let mut t = toml::map::Map::new();
    t.insert("token".to_string(), toml::Value::String("bot-token".to_string()));
    t.insert("guild_id".to_string(), toml::Value::Integer(12345));
    t.insert("channel_id".to_string(), toml::Value::Integer(67890));
    let result = dest.initialize(&toml::Value::Table(t));
    assert!(result.is_ok());
    assert!(dest.is_healthy());
}
