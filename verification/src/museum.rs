//! The application window's own state: the canvas beside the control panel,
//! the keys that move the camera, and the selections of the control panel.

use crate::camera::Movement;
use vstd::prelude::*;

verus! {

/// The initial window size.
pub const WIDTH: u32 = 1024;

pub const HEIGHT: u32 = 768;

/// The width reserved on the left for the control panel.
pub const CONTROL_PANEL_WIDTH: i32 = 275;

/// The number of samples per pixel of the multisampled scene buffer.
pub const MSAA_RATE: i32 = 16;

/// The width of the scene canvas in a window `window_width` wide: what the
/// control panel leaves, and at least one pixel.
pub fn canvas_width(window_width: i32) -> (width: i32)
    requires
        window_width >= i32::MIN + CONTROL_PANEL_WIDTH,
    ensures
        width == if window_width - CONTROL_PANEL_WIDTH >= 1 {
            window_width - CONTROL_PANEL_WIDTH
        } else {
            1
        },
{
    let width = window_width - CONTROL_PANEL_WIDTH;
    if width >= 1 {
        width
    } else {
        1
    }
}

/// The application window.
pub struct Museum {
    title: String,
}

impl View for Museum {
    /// The window title.
    type V = Seq<char>;

    closed spec fn view(&self) -> Seq<char> {
        self.title@
    }
}

impl Museum {
    /// A window titled `title`.
    pub fn new(title: &str) -> (museum: Self)
        ensures
            museum@ == title@,
    {
        Museum { title: String::from_str(title) }
    }

    /// The window title.
    pub fn title(&self) -> (title: &str)
        ensures
            title@ == self@,
    {
        self.title.as_str()
    }
}

/// The two camera key layouts the control panel offers.
#[derive(Clone, Copy, Debug, PartialEq, Eq, Structural)]
pub enum CameraKeymap {
    /// W/S forward and back, A/D left and right, E/Q up and down.
    My,
    /// A/Z forward and back, the arrow keys left, right, up and down.
    Steve,
}

/// The two skies.
#[derive(Clone, Copy, Debug, PartialEq, Eq, Structural)]
pub enum SkyType {
    /// The textured box.
    A,
    /// The animated sphere.
    B,
}

/// The camera buttons of the control panel.
#[derive(Clone, Copy, Debug, PartialEq, Eq, Structural)]
pub enum CameraPreset {
    Reset,
    Closer,
    Window,
    Smartphone,
    Spotlight,
    Egg,
    Robot,
    X,
    Y,
    Z,
}

/// The keys that some camera keymap binds; every other key is `Other`.
#[derive(Clone, Copy, Debug, PartialEq, Eq, Structural)]
pub enum MovementKey {
    A,
    D,
    E,
    Q,
    S,
    W,
    Z,
    Left,
    Right,
    Up,
    Down,
    Other,
}

/// Which movement keys are held down.
#[derive(Clone, Copy, Debug, PartialEq, Eq, Structural)]
pub struct CameraMovementState {
    pub forward: bool,
    pub backward: bool,
    pub left: bool,
    pub right: bool,
    pub up: bool,
    pub down: bool,
}

impl Default for CameraMovementState {
    /// No key held.
    fn default() -> (state: Self)
        ensures
            state == (CameraMovementState {
                forward: false,
                backward: false,
                left: false,
                right: false,
                up: false,
                down: false,
            }),
    {
        CameraMovementState {
            forward: false,
            backward: false,
            left: false,
            right: false,
            up: false,
            down: false,
        }
    }
}

/// The movement that `key` drives under `keymap`, if any.
pub open spec fn bound_movement(keymap: CameraKeymap, key: MovementKey) -> Movement {
    match keymap {
        CameraKeymap::My => match key {
            MovementKey::A => Movement::Left,
            MovementKey::D => Movement::Right,
            MovementKey::E => Movement::Up,
            MovementKey::Q => Movement::Down,
            MovementKey::W => Movement::Forward,
            MovementKey::S => Movement::Backward,
            _ => Movement::NoMovement,
        },
        CameraKeymap::Steve => match key {
            MovementKey::Left => Movement::Left,
            MovementKey::Right => Movement::Right,
            MovementKey::Up => Movement::Up,
            MovementKey::Down => Movement::Down,
            MovementKey::A => Movement::Forward,
            MovementKey::Z => Movement::Backward,
            _ => Movement::NoMovement,
        },
    }
}

/// `state` with the key of `movement` set to `down`.
pub open spec fn with_movement(state: CameraMovementState, movement: Movement, down: bool) -> CameraMovementState {
    match movement {
        Movement::Left => CameraMovementState { left: down, ..state },
        Movement::Right => CameraMovementState { right: down, ..state },
        Movement::Up => CameraMovementState { up: down, ..state },
        Movement::Down => CameraMovementState { down: down, ..state },
        Movement::Forward => CameraMovementState { forward: down, ..state },
        Movement::Backward => CameraMovementState { backward: down, ..state },
        Movement::NoMovement => state,
    }
}

/// Records a press (`down`) or release of `key`: only the flag of the movement
/// the key is bound to under `keymap` changes.
pub fn update_camera_movement(
    keymap: CameraKeymap,
    state: &mut CameraMovementState,
    key: MovementKey,
    down: bool,
)
    ensures
        *final(state) == with_movement(*old(state), bound_movement(keymap, key), down),
{
    match keymap {
        CameraKeymap::My => match key {
            MovementKey::A => state.left = down,
            MovementKey::D => state.right = down,
            MovementKey::E => state.up = down,
            MovementKey::Q => state.down = down,
            MovementKey::W => state.forward = down,
            MovementKey::S => state.backward = down,
            _ => {},
        },
        CameraKeymap::Steve => match key {
            MovementKey::Left => state.left = down,
            MovementKey::Right => state.right = down,
            MovementKey::Up => state.up = down,
            MovementKey::Down => state.down = down,
            MovementKey::A => state.forward = down,
            MovementKey::Z => state.backward = down,
            _ => {},
        },
    }
}

/// The moves a frame applies for `state`: left, right, up, down, forward,
/// backward, each when its key is held, in that order.
pub open spec fn held_movements(state: CameraMovementState) -> Seq<Movement> {
    (if state.left { seq![Movement::Left] } else { seq![] })
        + (if state.right { seq![Movement::Right] } else { seq![] })
        + (if state.up { seq![Movement::Up] } else { seq![] })
        + (if state.down { seq![Movement::Down] } else { seq![] })
        + (if state.forward { seq![Movement::Forward] } else { seq![] })
        + (if state.backward { seq![Movement::Backward] } else { seq![] })
}

impl CameraMovementState {
    /// The moves to apply this frame (see [`held_movements`]).
    pub fn movements(&self) -> (moves: Vec<Movement>)
        ensures
            moves@ == held_movements(*self),
    {
        let mut moves: Vec<Movement> = Vec::new();
        if self.left {
            moves.push(Movement::Left);
        }
        if self.right {
            moves.push(Movement::Right);
        }
        if self.up {
            moves.push(Movement::Up);
        }
        if self.down {
            moves.push(Movement::Down);
        }
        if self.forward {
            moves.push(Movement::Forward);
        }
        if self.backward {
            moves.push(Movement::Backward);
        }
        assert(moves@ =~= held_movements(*self));
        moves
    }
}

/// The two exclusive selections of the control panel: the sky and the camera
/// keymap.  The button of the current choice is the disabled one.
#[derive(Clone, Copy, Debug, PartialEq, Eq, Structural)]
pub struct PanelSelection {
    pub sky_type: SkyType,
    pub camera_keymap: CameraKeymap,
}

impl Default for PanelSelection {
    /// The sphere sky and the arrows/AZ keymap, as at start-up.
    fn default() -> (selection: Self)
        ensures
            selection == (PanelSelection { sky_type: SkyType::B, camera_keymap: CameraKeymap::Steve }),
    {
        PanelSelection { sky_type: SkyType::B, camera_keymap: CameraKeymap::Steve }
    }
}

impl PanelSelection {
    /// Selects `sky_type`; says whether the selection changed.
    pub fn set_sky_type(&mut self, sky_type: SkyType) -> (changed: bool)
        ensures
            changed == (old(self).sky_type != sky_type),
            *final(self) == (PanelSelection { sky_type, ..*old(self) }),
    {
        let changed = self.sky_type != sky_type;
        self.sky_type = sky_type;
        changed
    }

    /// Selects `keymap`; says whether the selection changed.
    pub fn set_camera_keymap(&mut self, keymap: CameraKeymap) -> (changed: bool)
        ensures
            changed == (old(self).camera_keymap != keymap),
            *final(self) == (PanelSelection { camera_keymap: keymap, ..*old(self) }),
    {
        let changed = self.camera_keymap != keymap;
        self.camera_keymap = keymap;
        changed
    }
}

/// Selecting the same sky twice changes nothing the second time.
pub proof fn lemma_sky_selection_idempotent(selection: PanelSelection, sky_type: SkyType)
    ensures
        (PanelSelection { sky_type, ..selection }).sky_type == sky_type,
        (PanelSelection { sky_type, ..(PanelSelection { sky_type, ..selection }) })
            == (PanelSelection { sky_type, ..selection }),
{
}

/// The key layouts, flag by flag: under `My`, W/S drive forward and back,
/// A/D left and right, E/Q up and down; under `Steve`, A/Z drive forward and
/// back and the arrow keys left, right, up and down.  A key sets exactly the
/// flag of its movement to `down` and leaves the others; an unbound key
/// changes nothing.
pub proof fn lemma_keymap_flags(state: CameraMovementState, down: bool)
    ensures
        with_movement(state, bound_movement(CameraKeymap::My, MovementKey::W), down)
            == (CameraMovementState { forward: down, ..state }),
        with_movement(state, bound_movement(CameraKeymap::My, MovementKey::S), down)
            == (CameraMovementState { backward: down, ..state }),
        with_movement(state, bound_movement(CameraKeymap::My, MovementKey::A), down)
            == (CameraMovementState { left: down, ..state }),
        with_movement(state, bound_movement(CameraKeymap::My, MovementKey::D), down)
            == (CameraMovementState { right: down, ..state }),
        with_movement(state, bound_movement(CameraKeymap::My, MovementKey::E), down)
            == (CameraMovementState { up: down, ..state }),
        with_movement(state, bound_movement(CameraKeymap::My, MovementKey::Q), down)
            == (CameraMovementState { down: down, ..state }),
        forall|key: MovementKey|
            !(key == MovementKey::W || key == MovementKey::S || key == MovementKey::A || key
                == MovementKey::D || key == MovementKey::E || key == MovementKey::Q) ==> with_movement(
                state,
                #[trigger] bound_movement(CameraKeymap::My, key),
                down,
            ) == state,
        with_movement(state, bound_movement(CameraKeymap::Steve, MovementKey::A), down)
            == (CameraMovementState { forward: down, ..state }),
        with_movement(state, bound_movement(CameraKeymap::Steve, MovementKey::Z), down)
            == (CameraMovementState { backward: down, ..state }),
        with_movement(state, bound_movement(CameraKeymap::Steve, MovementKey::Left), down)
            == (CameraMovementState { left: down, ..state }),
        with_movement(state, bound_movement(CameraKeymap::Steve, MovementKey::Right), down)
            == (CameraMovementState { right: down, ..state }),
        with_movement(state, bound_movement(CameraKeymap::Steve, MovementKey::Up), down)
            == (CameraMovementState { up: down, ..state }),
        with_movement(state, bound_movement(CameraKeymap::Steve, MovementKey::Down), down)
            == (CameraMovementState { down: down, ..state }),
        forall|key: MovementKey|
            !(key == MovementKey::A || key == MovementKey::Z || key == MovementKey::Left || key
                == MovementKey::Right || key == MovementKey::Up || key == MovementKey::Down)
                ==> with_movement(state, #[trigger] bound_movement(CameraKeymap::Steve, key), down)
                == state,
{
}

/// A release undoes a press: pressing and releasing a key leaves the held keys
/// as they were, when the key was not held before.
pub proof fn lemma_press_release(state: CameraMovementState, keymap: CameraKeymap, key: MovementKey)
    requires
        with_movement(state, bound_movement(keymap, key), false) == state,
    ensures
        with_movement(
            with_movement(state, bound_movement(keymap, key), true),
            bound_movement(keymap, key),
            false,
        ) == state,
{
}

} // verus!
