use voxmux::ui::App;
use voxmux::ui::AppAction;
use voxmux::ui::InputState;
use voxmux::ui::Key;
use voxmux::ui::RouterState;
use voxmux::ui::Tab;
use voxmux::ui::UiCommand;

fn make_app() -> App {
    App::new()
}

fn make_app_with_inputs(inputs: Vec<InputState>) -> App {
    let mut app = make_app();
    app.update_state(RouterState {
        inputs,
        ..Default::default()
    });
    app
}

fn one_input(id: &str, volume: f32, muted: bool, enabled: bool) -> Vec<InputState> {
    vec![InputState {
        id: id.to_string(),
        volume_bits: volume.to_bits(),
        muted,
        enabled,
        ..Default::default()
    }]
}

#[test]
fn test_app_initial_state() {
    let app = make_app();
    assert_eq!(app.tab, Tab::Dashboard);
    assert_eq!(app.selected_input, 0);
    assert!(!app.should_quit);
    assert_eq!(app.log_scroll, 0);
    assert!(app.log_auto_scroll);
}

#[test]
fn test_app_tab_switching() {
    let mut app = make_app();
    app.handle_key(Key::Char('2'));
    assert_eq!(app.tab, Tab::Inputs);
    app.handle_key(Key::Char('3'));
    assert_eq!(app.tab, Tab::Outputs);
    app.handle_key(Key::Char('4'));
    assert_eq!(app.tab, Tab::Logs);
    app.handle_key(Key::Char('1'));
    assert_eq!(app.tab, Tab::Dashboard);
}

#[test]
fn test_app_state_update() {
    let mut app = make_app();
    let state = RouterState {
        inputs: vec![
            InputState {
                id: "a".into(),
                ..Default::default()
            },
            InputState {
                id: "b".into(),
                ..Default::default()
            },
        ],
        ..Default::default()
    };
    app.update_state(state);
    assert_eq!(app.state.inputs.len(), 2);
}

#[test]
fn test_app_state_update_clamps_selection() {
    let mut app = make_app();
    app.update_state(RouterState {
        inputs: vec![
            InputState { id: "a".into(), ..Default::default() },
            InputState { id: "b".into(), ..Default::default() },
            InputState { id: "c".into(), ..Default::default() },
        ],
        ..Default::default()
    });
    app.tab = Tab::Inputs;
    app.handle_key(Key::Down);
    app.handle_key(Key::Down);
    assert_eq!(app.selected_input, 2);
    app.update_state(RouterState {
        inputs: vec![InputState { id: "a".into(), ..Default::default() }],
        ..Default::default()
    });
    assert_eq!(app.selected_input, 0);
}

#[test]
fn test_app_log_auto_scroll() {
    let mut app = make_app();
    app.tab = Tab::Logs;

    app.handle_key(Key::Up);
    assert!(!app.log_auto_scroll);
    assert_eq!(app.log_scroll, 1);

    app.handle_key(Key::Char('G'));
    assert!(app.log_auto_scroll);
    assert_eq!(app.log_scroll, 0);
}

#[test]
fn test_app_volume_up() {
    let mut app = make_app_with_inputs(one_input("mic1", 0.5, false, false));
    app.tab = Tab::Inputs;
    let action = app.handle_key(Key::Right);
    assert_eq!(
        action,
        AppAction::Command(UiCommand::SetVolume {
            input_id: "mic1".into(),
            volume_bits: 0.55f32.to_bits(),
        })
    );
}

#[test]
fn test_app_volume_down() {
    let mut app = make_app_with_inputs(one_input("mic1", 0.5, false, false));
    app.tab = Tab::Inputs;
    let action = app.handle_key(Key::Left);
    match action {
        AppAction::Command(UiCommand::SetVolume { input_id, volume_bits }) => {
            assert_eq!(input_id, "mic1");
            let volume = f32::from_bits(volume_bits);
            assert!((volume - 0.45).abs() < 1e-5, "expected ~0.45, got {}", volume);
        }
        other => panic!("expected SetVolume command, got {:?}", other),
    }
}

#[test]
fn test_app_volume_clamp() {
    // At max
    let mut app = make_app_with_inputs(one_input("mic1", 1.0, false, false));
    app.tab = Tab::Inputs;
    let action = app.handle_key(Key::Right);
    assert_eq!(
        action,
        AppAction::Command(UiCommand::SetVolume {
            input_id: "mic1".into(),
            volume_bits: 1.0f32.to_bits(),
        })
    );

    // At min
    let mut app = make_app_with_inputs(one_input("mic1", 0.0, false, false));
    app.tab = Tab::Inputs;
    let action = app.handle_key(Key::Left);
    assert_eq!(
        action,
        AppAction::Command(UiCommand::SetVolume {
            input_id: "mic1".into(),
            volume_bits: 0.0f32.to_bits(),
        })
    );
}

#[test]
fn test_app_mute_toggle() {
    let mut app = make_app_with_inputs(one_input("mic1", 0.0, false, false));
    app.tab = Tab::Inputs;
    let action = app.handle_key(Key::Char('m'));
    assert_eq!(
        action,
        AppAction::Command(UiCommand::SetMuted {
            input_id: "mic1".into(),
            muted: true,
        })
    );
}

#[test]
fn test_app_enable_toggle() {
    let mut app = make_app_with_inputs(one_input("mic1", 0.0, false, true));
    app.tab = Tab::Inputs;
    let action = app.handle_key(Key::Char('e'));
    assert_eq!(
        action,
        AppAction::Command(UiCommand::SetEnabled {
            input_id: "mic1".into(),
            enabled: false,
        })
    );
}

#[test]
fn test_app_play_mixed_toggle() {
    let mut app = make_app();
    app.state.output.play_mixed_input = true;
    app.tab = Tab::Outputs;
    let action = app.handle_key(Key::Char(' '));
    assert_eq!(action, AppAction::Command(UiCommand::SetPlayMixedInput(false)));
}

#[test]
fn test_app_quit() {
    let mut app = make_app();
    let action = app.handle_key(Key::Char('q'));
    assert_eq!(action, AppAction::Quit);
    assert!(app.should_quit);
}

#[test]
fn test_app_log_scroll() {
    let mut app = make_app();
    app.tab = Tab::Logs;

    app.handle_key(Key::Up);
    assert_eq!(app.log_scroll, 1);
    assert!(!app.log_auto_scroll);

    app.handle_key(Key::Down);
    assert_eq!(app.log_scroll, 0);

    app.handle_key(Key::Up);
    app.handle_key(Key::Up);
    assert_eq!(app.log_scroll, 2);
    app.handle_key(Key::Char('G'));
    assert_eq!(app.log_scroll, 0);
    assert!(app.log_auto_scroll);
}
