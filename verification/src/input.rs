//! What the player wants, gathered once per frame from whatever devices
//! are there.
use vstd::prelude::*;
use crate::fixed::ONE;
use crate::math::Vec2;

verus! {

/// Stick deflections of no more than this are taken for none.
pub const DEADZONE: i32 = 4_000;

/// Full deflection of a stick.
pub const AXIS_MAX: i64 = 32_767;

/// Zoom per frame while a shoulder button is held (0.05).
pub const ZOOM_STEP: i64 = 50_000;

/// Camera input per step of the mouse (0.1).
pub const MOUSE_STEP: i64 = 100_000;

/// What the player wants in one frame.
#[derive(Clone, Copy, Debug, PartialEq, Eq, Structural)]
pub struct Input {
    pub quit: bool,
    pub jump: bool,
    pub reset_camera: bool,
    pub stop: bool,
    /// How the camera is to turn.
    pub camera: Vec2,
    /// Where the player is to roll.
    pub player: Vec2,
    pub action: bool,
    pub zoom: i64,
}

impl Input {
    /// Nothing wanted.
    pub open spec fn nothing() -> Input {
        Input {
            quit: false,
            jump: false,
            reset_camera: false,
            stop: false,
            camera: Vec2 { x: 0, y: 0 },
            player: Vec2 { x: 0, y: 0 },
            action: false,
            zoom: 0,
        }
    }
}

impl Default for Input {
    fn default() -> (i: Input)
        ensures
            i == Input::nothing(),
    {
        Input {
            quit: false,
            jump: false,
            reset_camera: false,
            stop: false,
            camera: Vec2 { x: 0, y: 0 },
            player: Vec2 { x: 0, y: 0 },
            action: false,
            zoom: 0,
        }
    }
}

/// The keys that mean something.
#[derive(Clone, Copy, Debug, PartialEq, Eq, Structural)]
pub enum Key {
    Escape,
    Space,
    R,
    S,
    A,
    /// Any other key.
    Other,
}

/// What happened since the last frame.
#[derive(Clone, Copy, Debug, PartialEq, Eq, Structural)]
pub enum Event {
    /// The window was closed.
    Quit,
    KeyDown(Key),
    /// Anything else.
    Other,
}

/// Sticks and buttons of a game controller.
#[derive(Clone, Copy, Debug, PartialEq, Eq, Structural)]
pub struct ControllerState {
    pub left_x: i16,
    pub left_y: i16,
    pub right_x: i16,
    pub right_y: i16,
    pub left_shoulder: bool,
    pub right_shoulder: bool,
    pub back: bool,
    pub a: bool,
    pub b: bool,
    pub x: bool,
    pub y: bool,
}

/// The mouse: how far it moved since the last frame, and its left button.
#[derive(Clone, Copy, Debug, PartialEq, Eq, Structural)]
pub struct MouseState {
    pub left: bool,
    pub x: i32,
    pub y: i32,
}

/// The arrow keys that are held down.
#[derive(Clone, Copy, Debug, PartialEq, Eq, Structural)]
pub struct Arrows {
    pub left: bool,
    pub right: bool,
    pub up: bool,
    pub down: bool,
}

/// The input after an event: closing the window and Escape ask to quit,
/// Space to jump, R to reset the camera, S to stop, A to act.
pub open spec fn after_event(input: Input, event: Event) -> Input {
    match event {
        Event::Quit => Input { quit: true, ..input },
        Event::KeyDown(Key::Escape) => Input { quit: true, ..input },
        Event::KeyDown(Key::Space) => Input { jump: true, ..input },
        Event::KeyDown(Key::R) => Input { reset_camera: true, ..input },
        Event::KeyDown(Key::S) => Input { stop: true, ..input },
        Event::KeyDown(Key::A) => Input { action: true, ..input },
        _ => input,
    }
}

/// The input after a run of events.
pub open spec fn after_events(input: Input, events: Seq<Event>) -> Input
    decreases events.len(),
{
    if events.len() == 0 {
        input
    } else {
        after_event(after_events(input, events.drop_last()), events.last())
    }
}

/// A stick deflection with the dead zone taken out: nothing within the
/// dead zone, and beyond it the deflection less the dead zone.
pub open spec fn clamp_deadzone_spec(f: i16) -> int {
    if f > DEADZONE {
        f - DEADZONE
    } else if f < -DEADZONE {
        f + DEADZONE
    } else {
        0
    }
}

/// A stick deflection as a share of full deflection.
pub open spec fn axis_share(f: i16) -> int {
    crate::fixed::trunc_div(clamp_deadzone_spec(f) * ONE, AXIS_MAX as int)
}

/// The input after the controller was read: the right stick turns the
/// camera, the left stick rolls the player, the shoulder buttons zoom, and
/// the buttons ask to quit (back), jump (A), reset the camera (X), stop (Y)
/// and act (B).
pub open spec fn after_controller(input: Input, c: ControllerState) -> Input {
    Input {
        quit: input.quit || c.back,
        jump: input.jump || c.a,
        reset_camera: input.reset_camera || c.x,
        stop: input.stop || c.y,
        action: input.action || c.b,
        camera: Vec2 { x: axis_share(c.right_x) as i64, y: axis_share(c.right_y) as i64 },
        player: Vec2 { x: axis_share(c.left_x) as i64, y: axis_share(c.left_y) as i64 },
        zoom: (input.zoom + (if c.left_shoulder {
            ZOOM_STEP as int
        } else {
            0
        }) - (if c.right_shoulder {
            ZOOM_STEP as int
        } else {
            0
        })) as i64,
    }
}

/// The input after the mouse was read: dragging with the left button
/// turns the camera, a tenth of a unit per step of the mouse.
pub open spec fn after_mouse(input: Input, m: MouseState) -> Input {
    if m.left {
        Input {
            camera: Vec2 { x: (m.x * MOUSE_STEP) as i64, y: (m.y * MOUSE_STEP) as i64 },
            ..input
        }
    } else {
        input
    }
}

/// The input after the arrow keys were read: each arrow held rolls the
/// player one unit its way.
pub open spec fn after_arrows(input: Input, a: Arrows) -> Input {
    Input {
        player: Vec2 {
            x: (input.player.x - (if a.left {
                ONE as int
            } else {
                0
            }) + (if a.right {
                ONE as int
            } else {
                0
            })) as i64,
            y: (input.player.y - (if a.up {
                ONE as int
            } else {
                0
            }) + (if a.down {
                ONE as int
            } else {
                0
            })) as i64,
        },
        ..input
    }
}

/// The input of a frame: the events, then the controller if there is one
/// and the mouse if there is none, then the arrow keys.
pub open spec fn frame_input(
    events: Seq<Event>,
    controller: Option<ControllerState>,
    mouse: MouseState,
    arrows: Arrows,
) -> Input {
    let heard = after_events(Input::nothing(), events);
    let steered = match controller {
        Some(c) => after_controller(heard, c),
        None => after_mouse(heard, mouse),
    };
    after_arrows(steered, arrows)
}

/// A stick deflection with the dead zone taken out.
pub fn clamp_deadzone(f: i16) -> (r: i32)
    ensures
        r == clamp_deadzone_spec(f),
{
    let wide: i32 = f as i32;
    if wide > DEADZONE {
        wide - DEADZONE
    } else if wide < -DEADZONE {
        wide + DEADZONE
    } else {
        0
    }
}

fn share(f: i16) -> (r: i64)
    ensures
        r == axis_share(f),
        -1_000_000 < r < 1_000_000,
{
    crate::fixed::div_trunc((clamp_deadzone(f) as i64) * ONE, AXIS_MAX)
}

/// The input after the events.
fn listen(events: &Vec<Event>) -> (input: Input)
    ensures
        input == after_events(Input::nothing(), events@),
        input.camera == (Vec2 { x: 0, y: 0 }),
        input.player == (Vec2 { x: 0, y: 0 }),
        input.zoom == 0,
{
    let mut input: Input = Input::default();
    let mut i: usize = 0;
    while i < events.len()
        invariant
            i <= events.len(),
            input == after_events(Input::nothing(), events@.subrange(0, i as int)),
            input.camera == (Vec2 { x: 0, y: 0 }),
            input.player == (Vec2 { x: 0, y: 0 }),
            input.zoom == 0,
        decreases events.len() - i,
    {
        proof {
            assert(events@.subrange(0, i + 1).drop_last() =~= events@.subrange(0, i as int));
        }
        match events[i] {
            Event::Quit => {
                input.quit = true;
            },
            Event::KeyDown(Key::Escape) => {
                input.quit = true;
            },
            Event::KeyDown(Key::Space) => {
                input.jump = true;
            },
            Event::KeyDown(Key::R) => {
                input.reset_camera = true;
            },
            Event::KeyDown(Key::S) => {
                input.stop = true;
            },
            Event::KeyDown(Key::A) => {
                input.action = true;
            },
            _ => {},
        }
        i += 1;
    }
    proof {
        assert(events@.subrange(0, events.len() as int) =~= events@);
    }
    input
}

/// The input after the controller was read.
fn read_controller(input: Input, c: &ControllerState) -> (r: Input)
    requires
        input.zoom == 0,
    ensures
        r == after_controller(input, *c),
        -1_000_000 < r.player.x < 1_000_000,
        -1_000_000 < r.player.y < 1_000_000,
{
    let up: i64 = if c.left_shoulder {
        ZOOM_STEP
    } else {
        0
    };
    let down: i64 = if c.right_shoulder {
        ZOOM_STEP
    } else {
        0
    };
    Input {
        quit: input.quit || c.back,
        jump: input.jump || c.a,
        reset_camera: input.reset_camera || c.x,
        stop: input.stop || c.y,
        action: input.action || c.b,
        camera: Vec2 { x: share(c.right_x), y: share(c.right_y) },
        player: Vec2 { x: share(c.left_x), y: share(c.left_y) },
        zoom: input.zoom + up - down,
    }
}

/// The input after the mouse was read.
fn read_mouse(input: Input, m: &MouseState) -> (r: Input)
    ensures
        r == after_mouse(input, *m),
        r.player == input.player,
{
    if m.left {
        Input {
            quit: input.quit,
            jump: input.jump,
            reset_camera: input.reset_camera,
            stop: input.stop,
            action: input.action,
            camera: Vec2 {
                x: (m.x as i64) * MOUSE_STEP,
                y: (m.y as i64) * MOUSE_STEP,
            },
            player: input.player,
            zoom: input.zoom,
        }
    } else {
        input
    }
}

/// The input after the arrow keys were read.
fn read_arrows(input: Input, a: &Arrows) -> (r: Input)
    requires
        -1_000_000 < input.player.x < 1_000_000,
        -1_000_000 < input.player.y < 1_000_000,
    ensures
        r == after_arrows(input, *a),
{
    let left: i64 = if a.left {
        ONE
    } else {
        0
    };
    let right: i64 = if a.right {
        ONE
    } else {
        0
    };
    let up: i64 = if a.up {
        ONE
    } else {
        0
    };
    let down: i64 = if a.down {
        ONE
    } else {
        0
    };
    Input {
        quit: input.quit,
        jump: input.jump,
        reset_camera: input.reset_camera,
        stop: input.stop,
        action: input.action,
        camera: input.camera,
        player: Vec2 { x: input.player.x - left + right, y: input.player.y - up + down },
        zoom: input.zoom,
    }
}

/// Remembers whether a game controller is plugged in.
pub struct InputState {
    controller: bool,
}

impl InputState {
    /// Whether a game controller is plugged in.
    pub closed spec fn has_controller(&self) -> bool {
        self.controller
    }

    /// Input with or without a game controller.
    pub fn new(controller: bool) -> (s: InputState)
        ensures
            s.has_controller() == controller,
    {
        InputState { controller }
    }

    /// The input of a frame, from the events since the last frame and the
    /// state of the devices now. With a controller the mouse is not
    /// looked at; without one, the controller is not.
    pub fn process_input(
        &self,
        events: &Vec<Event>,
        controller: &ControllerState,
        mouse: &MouseState,
        arrows: &Arrows,
    ) -> (input: Input)
        ensures
            input == frame_input(
                events@,
                if self.has_controller() {
                    Some(*controller)
                } else {
                    None
                },
                *mouse,
                *arrows,
            ),
    {
        let heard: Input = listen(events);
        let steered: Input = if self.controller {
            read_controller(heard, controller)
        } else {
            read_mouse(heard, mouse)
        };
        read_arrows(steered, arrows)
    }
}

} // verus!
