use reality::ao_module::Message;
use reality::game_tick::{increment_game_tick, RealityGameTick, RealityGameTickPlugin};
use reality::player_interface::model::game_action::{ActionType, GameActionEvent};
use reality::player_interface::model::keyboard::KeyEvent;
use reality::player_interface::{
    bevy_keycode_to_action, ActionDescriptor, EventDescriptor, GameInputEvent, InputEventType,
    KeyCode, KeyboardConfig, MediaRef, MediaType, PlayerInterfaceManifest,
};

#[derive(Debug, Clone, PartialEq)]
enum Action {
    Jump,
    Duck,
    Fire,
}

#[derive(Debug, Clone, PartialEq)]
enum Event {
    Scored,
}

fn config() -> KeyboardConfig<Action> {
    KeyboardConfig::new(vec![
        (KeyCode::Space, vec![Action::Jump]),
        (KeyCode::KeyS, vec![Action::Duck, Action::Fire]),
        (KeyCode::Enter, vec![]),
    ])
}

#[test]
fn bound_key_gives_its_actions() {
    let c = config();
    assert_eq!(c.get_actions(&KeyCode::Space), Some(&vec![Action::Jump]));
    assert_eq!(c.get_actions(&KeyCode::KeyS), Some(&vec![Action::Duck, Action::Fire]));
    assert_eq!(c.get_actions(&KeyCode::Enter), Some(&vec![]));
    assert_eq!(c.get_actions(&KeyCode::KeyA), None);
    assert_eq!(KeyboardConfig::<Action>::new(vec![]).get_actions(&KeyCode::Space), None);
}

#[test]
fn last_binding_of_a_key_counts() {
    let c = KeyboardConfig::new(vec![
        (KeyCode::Space, vec![Action::Jump]),
        (KeyCode::KeyS, vec![Action::Duck]),
        (KeyCode::Space, vec![Action::Fire]),
    ]);
    assert_eq!(c.get_actions(&KeyCode::Space), Some(&vec![Action::Fire]));
    assert_eq!(c.get_actions(&KeyCode::KeyS), Some(&vec![Action::Duck]));
    assert_eq!(
        c.bindings(),
        &vec![(KeyCode::Space, vec![Action::Fire]), (KeyCode::KeyS, vec![Action::Duck])]
    );
    let copy = c.clone();
    assert_eq!(copy.bindings(), c.bindings());
    assert_eq!(copy.get_actions(&KeyCode::Space), Some(&vec![Action::Fire]));
    assert_eq!(copy.get_actions(&KeyCode::Enter), None);
}

#[test]
fn press_begins_and_release_ends_each_bound_action() {
    let c = config();
    let pressed = bevy_keycode_to_action(&c, &KeyCode::KeyS, KeyEvent::Press);
    assert_eq!(pressed.len(), 2);
    assert_eq!(pressed[0].action, Action::Duck);
    assert_eq!(pressed[0].event_type, InputEventType::Begin);
    assert_eq!(pressed[1].action, Action::Fire);
    assert_eq!(pressed[1].event_type, InputEventType::Begin);
    let released = bevy_keycode_to_action(&c, &KeyCode::Space, KeyEvent::Release);
    assert_eq!(released.len(), 1);
    assert_eq!(released[0].action, Action::Jump);
    assert_eq!(released[0].event_type, InputEventType::End);
    assert!(bevy_keycode_to_action(&c, &KeyCode::KeyA, KeyEvent::Press).is_empty());
    assert!(bevy_keycode_to_action(&c, &KeyCode::Enter, KeyEvent::Press).is_empty());
}

#[test]
fn events_are_made_of_their_parts() {
    let input = GameInputEvent::new(Action::Jump, InputEventType::End);
    assert_eq!(input.action, Action::Jump);
    assert_eq!(input.event_type, InputEventType::End);
    let action = GameActionEvent::new(Action::Duck, ActionType::Begin);
    assert_eq!(action.action, Action::Duck);
    assert_eq!(action.event, ActionType::Begin);
}

#[test]
fn descriptor_has_no_description_until_it_is_given_one() {
    let event = EventDescriptor::new(Event::Scored);
    assert_eq!(event.event, Event::Scored);
    assert_eq!(event.hint_text, None);
    let event = event.desc("a point was scored".to_string());
    assert_eq!(event.event, Event::Scored);
    assert_eq!(event.hint_text, Some("a point was scored".to_string()));
    let event = event.desc("again".to_string());
    assert_eq!(event.hint_text, Some("again".to_string()));

    let action = ActionDescriptor::new(Action::Fire);
    assert_eq!(action.action, Action::Fire);
    assert_eq!(action.hint_text, None);
    let action = action.desc("fires".to_string());
    assert_eq!(action.action, Action::Fire);
    assert_eq!(action.hint_text, Some("fires".to_string()));
}

#[test]
fn manifest_lists_events_and_actions() {
    let manifest = PlayerInterfaceManifest {
        name: "pong".to_string(),
        version: 2,
        tick_rate: 60,
        hint_text: None,
        events_global: vec![EventDescriptor::new(Event::Scored)],
        actions_global: vec![ActionDescriptor::new(Action::Jump), ActionDescriptor::new(Action::Duck)],
    };
    assert_eq!(manifest.name, "pong");
    assert_eq!(manifest.version, 2);
    assert_eq!(manifest.tick_rate, 60);
    assert_eq!(manifest.events_global.len(), 1);
    assert_eq!(manifest.actions_global[1].action, Action::Duck);
    let media = MediaRef { ts: 5, media_type: MediaType::Frame, uri: "frame/5".to_string() };
    assert_eq!(media.ts, 5);
    assert!(matches!(media.media_type, MediaType::Frame));
}

#[test]
fn game_tick_counts_up_by_one() {
    let mut tick = RealityGameTick { tick: 41 };
    increment_game_tick(&mut tick);
    assert_eq!(tick.tick, 42);
    let mut last = RealityGameTick { tick: u64::MAX - 1 };
    increment_game_tick(&mut last);
    assert_eq!(last.tick, u64::MAX);
    assert_eq!(RealityGameTickPlugin::new(17).game_tick.tick, 17);
    assert_eq!(RealityGameTickPlugin::default().game_tick.tick, 0);
}

#[test]
fn message_carries_its_parts() {
    let message = Message {
        id: "tx".to_string(),
        timestamp: 1_700_000_000_000,
        sender: "wallet".to_string(),
        payload: "{}".to_string(),
    };
    assert_eq!(message.id, "tx");
    assert_eq!(message.timestamp, 1_700_000_000_000);
    assert_eq!(message.sender, "wallet");
    assert_eq!(message.payload, "{}");
}
