use wave_world::input::clamp_deadzone;
use wave_world::input::Arrows;
use wave_world::input::ControllerState;
use wave_world::input::Event;
use wave_world::input::Input;
use wave_world::input::InputState;
use wave_world::input::Key;
use wave_world::input::MouseState;
use wave_world::math::Vec2;

const ONE: i64 = 1_000_000;

fn idle_controller() -> ControllerState {
    ControllerState {
        left_x: 0,
        left_y: 0,
        right_x: 0,
        right_y: 0,
        left_shoulder: false,
        right_shoulder: false,
        back: false,
        a: false,
        b: false,
        x: false,
        y: false,
    }
}

fn idle_mouse() -> MouseState {
    MouseState { left: false, x: 0, y: 0 }
}

fn no_arrows() -> Arrows {
    Arrows { left: false, right: false, up: false, down: false }
}

fn nothing() -> Input {
    Input {
        quit: false,
        jump: false,
        reset_camera: false,
        stop: false,
        camera: Vec2 { x: 0, y: 0 },
        player: Vec2 { x: 0, y: 0 },
        action: false,
        zoom: 0,
    }
}

#[test]
fn by_default_nothing_is_wanted() {
    assert_eq!(Input::default(), nothing());
    let state = InputState::new(false);
    assert_eq!(
        state.process_input(&Vec::new(), &idle_controller(), &idle_mouse(), &no_arrows()),
        nothing()
    );
    let state = InputState::new(true);
    assert_eq!(
        state.process_input(&Vec::new(), &idle_controller(), &idle_mouse(), &no_arrows()),
        nothing()
    );
}

#[test]
fn the_dead_zone_of_a_stick() {
    assert_eq!(clamp_deadzone(0), 0);
    assert_eq!(clamp_deadzone(4000), 0);
    assert_eq!(clamp_deadzone(-4000), 0);
    assert_eq!(clamp_deadzone(4001), 1);
    assert_eq!(clamp_deadzone(-4001), -1);
    assert_eq!(clamp_deadzone(i16::MAX), 28_767);
    assert_eq!(clamp_deadzone(i16::MIN), -28_768);
    assert_eq!(clamp_deadzone(100), 0);
}

#[test]
fn events_set_flags() {
    let state = InputState::new(false);
    let run = |events: Vec<Event>| {
        state.process_input(&events, &idle_controller(), &idle_mouse(), &no_arrows())
    };
    assert_eq!(run(vec![Event::Quit]), Input { quit: true, ..nothing() });
    assert_eq!(run(vec![Event::KeyDown(Key::Escape)]), Input { quit: true, ..nothing() });
    assert_eq!(run(vec![Event::KeyDown(Key::Space)]), Input { jump: true, ..nothing() });
    assert_eq!(run(vec![Event::KeyDown(Key::R)]), Input { reset_camera: true, ..nothing() });
    assert_eq!(run(vec![Event::KeyDown(Key::S)]), Input { stop: true, ..nothing() });
    assert_eq!(run(vec![Event::KeyDown(Key::A)]), Input { action: true, ..nothing() });
    assert_eq!(run(vec![Event::KeyDown(Key::Other), Event::Other]), nothing());
    assert_eq!(
        run(vec![
            Event::KeyDown(Key::A),
            Event::Other,
            Event::KeyDown(Key::Space),
            Event::KeyDown(Key::A),
            Event::KeyDown(Key::S),
        ]),
        Input { action: true, jump: true, stop: true, ..nothing() }
    );
}

#[test]
fn the_controller_steers() {
    let state = InputState::new(true);
    let pad = ControllerState {
        left_x: i16::MAX,
        left_y: -4001,
        right_x: 20_000,
        right_y: i16::MIN,
        ..idle_controller()
    };
    let input = state.process_input(&Vec::new(), &pad, &idle_mouse(), &no_arrows());
    assert_eq!(input.player, Vec2 { x: 877_925, y: -30 });
    assert_eq!(input.camera, Vec2 { x: 488_296, y: -877_956 });
    assert_eq!(input.zoom, 0);
    // The mouse is not looked at while a controller is there.
    let dragged = MouseState { left: true, x: 50, y: 50 };
    let input = state.process_input(&Vec::new(), &idle_controller(), &dragged, &no_arrows());
    assert_eq!(input.camera, Vec2 { x: 0, y: 0 });
}

#[test]
fn the_buttons_of_the_controller() {
    let state = InputState::new(true);
    let run = |pad: ControllerState| {
        state.process_input(&Vec::new(), &pad, &idle_mouse(), &no_arrows())
    };
    assert_eq!(run(ControllerState { back: true, ..idle_controller() }), Input { quit: true, ..nothing() });
    assert_eq!(run(ControllerState { a: true, ..idle_controller() }), Input { jump: true, ..nothing() });
    assert_eq!(run(ControllerState { x: true, ..idle_controller() }), Input { reset_camera: true, ..nothing() });
    assert_eq!(run(ControllerState { y: true, ..idle_controller() }), Input { stop: true, ..nothing() });
    assert_eq!(run(ControllerState { b: true, ..idle_controller() }), Input { action: true, ..nothing() });
    assert_eq!(run(ControllerState { left_shoulder: true, ..idle_controller() }), Input { zoom: 50_000, ..nothing() });
    assert_eq!(run(ControllerState { right_shoulder: true, ..idle_controller() }), Input { zoom: -50_000, ..nothing() });
    assert_eq!(
        run(ControllerState { left_shoulder: true, right_shoulder: true, ..idle_controller() }),
        nothing()
    );
    // Without a controller its buttons mean nothing.
    let none = InputState::new(false);
    let pad = ControllerState { back: true, a: true, left_x: 30_000, ..idle_controller() };
    assert_eq!(none.process_input(&Vec::new(), &pad, &idle_mouse(), &no_arrows()), nothing());
}

#[test]
fn the_mouse_turns_the_camera_while_dragging() {
    let state = InputState::new(false);
    let run = |m: MouseState| state.process_input(&Vec::new(), &idle_controller(), &m, &no_arrows());
    assert_eq!(run(MouseState { left: false, x: 30, y: -40 }), nothing());
    assert_eq!(
        run(MouseState { left: true, x: 30, y: -40 }),
        Input { camera: Vec2 { x: 3 * ONE, y: -4 * ONE }, ..nothing() }
    );
    assert_eq!(
        run(MouseState { left: true, x: i32::MAX, y: i32::MIN }),
        Input {
            camera: Vec2 { x: 214_748_364_700_000, y: -214_748_364_800_000 },
            ..nothing()
        }
    );
}

#[test]
fn the_arrows_add_to_the_stick() {
    let with_pad = InputState::new(true);
    let pad = ControllerState { left_x: i16::MAX, left_y: i16::MIN, ..idle_controller() };
    let all = Arrows { left: true, right: true, up: true, down: true };
    let input = with_pad.process_input(&Vec::new(), &pad, &idle_mouse(), &all);
    assert_eq!(input.player, Vec2 { x: 877_925, y: -877_956 });
    let right_down = Arrows { left: false, right: true, up: false, down: true };
    let input = with_pad.process_input(&Vec::new(), &pad, &idle_mouse(), &right_down);
    assert_eq!(input.player, Vec2 { x: 1_877_925, y: 122_044 });
    let keys_only = InputState::new(false);
    let left_up = Arrows { left: true, right: false, up: true, down: false };
    let input = keys_only.process_input(&vec![Event::KeyDown(Key::Space)], &pad, &idle_mouse(), &left_up);
    assert_eq!(input, Input { jump: true, player: Vec2 { x: -ONE, y: -ONE }, ..nothing() });
}
