//! What is on screen, and what a key press does to it.

use vstd::prelude::*;

verus! {

/// The views that can fill the screen.
#[derive(Debug, Clone, Copy, PartialEq, Eq, Structural)]
pub enum View {
    Galaxy,
}

/// The window, if any, that lies over the view.
#[derive(Debug, Clone, Copy, PartialEq, Eq, Structural)]
pub enum Modal {
    Help,
    SearchObj,
    Off,
}

/// The keys that the handler tells apart.
#[derive(Debug, Clone, Copy, PartialEq, Eq, Structural)]
pub enum KeyCode {
    Char(char),
    Left,
    Right,
    Up,
    Down,
    Other,
}

/// A key event: the key, and whether it was pressed (rather than released or
/// repeated).
#[derive(Debug, Clone, Copy, PartialEq, Eq, Structural)]
pub struct KeyEvent {
    pub code: KeyCode,
    pub pressed: bool,
}

/// What a key asks of the camera of the galaxy view.
#[derive(Debug, Clone, Copy, PartialEq, Eq, Structural)]
pub enum CameraMove {
    Stay,
    /// Shift the canvas origin by `dx` to the right and `dy` down.
    Pan { dx: i32, dy: i32 },
    ZoomIn,
    ZoomOut,
}

/// What a key event leads to: the modal to show from now on, and the move
/// that the camera is to make.
#[derive(Debug, Clone, Copy, PartialEq, Eq, Structural)]
pub struct KeyOutcome {
    pub modal: Modal,
    pub camera: CameraMove,
}

/// How far one arrow key shifts the canvas.
pub const PAN_STEP: i32 = 5;

/// The modal after `key`: a pressed `H` closes the help window when it is
/// open and opens it otherwise; nothing else touches the modal.
pub open spec fn modal_after(key: KeyEvent, modal: Modal) -> Modal {
    if key.pressed && key.code == KeyCode::Char('H') {
        if modal == Modal::Help {
            Modal::Off
        } else {
            Modal::Help
        }
    } else {
        modal
    }
}

/// The camera move that `key` asks for in view `view`: in the galaxy view a
/// pressed arrow shifts the canvas by [`PAN_STEP`] (left and down count up,
/// right and up count down), `i` zooms in and `o` zooms out.
pub open spec fn camera_move(key: KeyEvent, view: View) -> CameraMove {
    if key.pressed && view == View::Galaxy {
        match key.code {
            KeyCode::Left => CameraMove::Pan { dx: PAN_STEP, dy: 0 },
            KeyCode::Right => CameraMove::Pan { dx: (-PAN_STEP) as i32, dy: 0 },
            KeyCode::Up => CameraMove::Pan { dx: 0, dy: (-PAN_STEP) as i32 },
            KeyCode::Down => CameraMove::Pan { dx: 0, dy: PAN_STEP },
            KeyCode::Char(c) => if c == 'i' {
                CameraMove::ZoomIn
            } else if c == 'o' {
                CameraMove::ZoomOut
            } else {
                CameraMove::Stay
            },
            KeyCode::Other => CameraMove::Stay,
        }
    } else {
        CameraMove::Stay
    }
}

/// Decides what `key` does while `modal` lies over `view`.
pub fn handle_key_event(key: KeyEvent, modal: Modal, view: View) -> (outcome: KeyOutcome)
    ensures
        outcome.modal == modal_after(key, modal),
        outcome.camera == camera_move(key, view),
{
    let stay = KeyOutcome { modal, camera: CameraMove::Stay };
    if !key.pressed {
        return stay;
    }
    let in_galaxy = match view {
        View::Galaxy => true,
    };
    match key.code {
        KeyCode::Char(c) => {
            if c == 'H' {
                match modal {
                    Modal::Help => KeyOutcome { modal: Modal::Off, camera: CameraMove::Stay },
                    _ => KeyOutcome { modal: Modal::Help, camera: CameraMove::Stay },
                }
            } else if c == 'i' && in_galaxy {
                KeyOutcome { modal, camera: CameraMove::ZoomIn }
            } else if c == 'o' && in_galaxy {
                KeyOutcome { modal, camera: CameraMove::ZoomOut }
            } else {
                stay
            }
        },
        KeyCode::Left if in_galaxy => KeyOutcome {
            modal,
            camera: CameraMove::Pan { dx: PAN_STEP, dy: 0 },
        },
        KeyCode::Right if in_galaxy => KeyOutcome {
            modal,
            camera: CameraMove::Pan { dx: -PAN_STEP, dy: 0 },
        },
        KeyCode::Up if in_galaxy => KeyOutcome {
            modal,
            camera: CameraMove::Pan { dx: 0, dy: -PAN_STEP },
        },
        KeyCode::Down if in_galaxy => KeyOutcome {
            modal,
            camera: CameraMove::Pan { dx: 0, dy: PAN_STEP },
        },
        _ => stay,
    }
}

/// The shares, in percent, of a stretch that a window of `percent` percent
/// lies in the middle of: what is left is halved, rounded down, for the
/// margins before and behind the window.
pub fn centered_shares(percent: u16) -> (shares: (u16, u16, u16))
    requires
        percent <= 100,
    ensures
        shares.0 == (100 - percent) / 2,
        shares.1 == percent,
        shares.2 == shares.0,
        shares.0 + shares.1 + shares.2 <= 100,
{
    ((100 - percent) / 2, percent, (100 - percent) / 2)
}

/// A key that is not pressed changes nothing, and no key both changes the
/// modal and moves the camera.
pub proof fn lemma_key_does_one_thing(key: KeyEvent, modal: Modal, view: View)
    ensures
        !key.pressed ==> modal_after(key, modal) == modal && camera_move(key, view)
            == CameraMove::Stay,
        modal_after(key, modal) != modal ==> camera_move(key, view) == CameraMove::Stay,
{
}

} // verus!
