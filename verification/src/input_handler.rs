//! The input handler's state between events: the last pointer position and
//! which buttons are held, and what each mouse event asks to inject.

use vstd::prelude::*;
use crate::input::{MouseEvent, MouseButton};

verus! {

/// What to inject for a mouse event.
#[derive(Debug, Clone, Copy, PartialEq, Eq, Structural)]
pub enum MouseAction {
    /// Move the pointer to these display coordinates.
    MoveTo { x: u16, y: u16 },
    /// Press or release a button at the last pointer position.
    Button { button: MouseButton, pressed: bool, x: u16, y: u16 },
    /// Scroll by these wheel units.
    Scroll { x: i32, y: i32 },
    /// Nothing to inject.
    Ignore,
}

/// Pointer position and held buttons, as the handler last injected them.
pub struct InputHandlerState {
    pub last_mouse_x: u16,
    pub last_mouse_y: u16,
    pub left_pressed: bool,
    pub right_pressed: bool,
    pub middle_pressed: bool,
}

/// Whether `button` is held in `s`.
pub open spec fn held(s: InputHandlerState, button: MouseButton) -> bool {
    match button {
        MouseButton::Left => s.left_pressed,
        MouseButton::Right => s.right_pressed,
        MouseButton::Middle => s.middle_pressed,
    }
}

/// The held buttons, in the order left, right, middle.
pub open spec fn held_buttons(s: InputHandlerState) -> Seq<MouseButton> {
    (if s.left_pressed { seq![MouseButton::Left] } else { seq![] }) + (if s.right_pressed {
        seq![MouseButton::Right]
    } else {
        seq![]
    }) + (if s.middle_pressed { seq![MouseButton::Middle] } else { seq![] })
}

/// The action for `event` in state `s`, when a move's position maps to
/// `mapped` on the display.
pub open spec fn spec_mouse_action(s: InputHandlerState, event: MouseEvent, mapped: (u16, u16)) -> MouseAction {
    match event {
        MouseEvent::Move { .. } => MouseAction::MoveTo { x: mapped.0, y: mapped.1 },
        MouseEvent::LeftPressed => MouseAction::Button { button: MouseButton::Left, pressed: true, x: s.last_mouse_x, y: s.last_mouse_y },
        MouseEvent::LeftReleased => MouseAction::Button { button: MouseButton::Left, pressed: false, x: s.last_mouse_x, y: s.last_mouse_y },
        MouseEvent::RightPressed => MouseAction::Button { button: MouseButton::Right, pressed: true, x: s.last_mouse_x, y: s.last_mouse_y },
        MouseEvent::RightReleased => MouseAction::Button { button: MouseButton::Right, pressed: false, x: s.last_mouse_x, y: s.last_mouse_y },
        MouseEvent::MiddlePressed => MouseAction::Button { button: MouseButton::Middle, pressed: true, x: s.last_mouse_x, y: s.last_mouse_y },
        MouseEvent::MiddleReleased => MouseAction::Button { button: MouseButton::Middle, pressed: false, x: s.last_mouse_x, y: s.last_mouse_y },
        MouseEvent::Scroll { x, y } => MouseAction::Scroll { x, y },
        _ => MouseAction::Ignore,
    }
}

impl InputHandlerState {
    /// Pointer at the origin, no button held.
    pub fn new() -> (s: Self)
        ensures
            s.last_mouse_x == 0,
            s.last_mouse_y == 0,
            !s.left_pressed,
            !s.right_pressed,
            !s.middle_pressed,
    {
        InputHandlerState { last_mouse_x: 0, last_mouse_y: 0, left_pressed: false, right_pressed: false, middle_pressed: false }
    }

    /// What to inject for `event`; a move also becomes the last pointer
    /// position. Buttons are recorded only once injected (`button_injected`).
    pub fn mouse_action(&mut self, event: MouseEvent, mapped: (u16, u16)) -> (a: MouseAction)
        ensures
            a == spec_mouse_action(*old(self), event, mapped),
            (event is Move) ==> final(self).last_mouse_x == mapped.0 && final(self).last_mouse_y == mapped.1,
            !(event is Move) ==> final(self).last_mouse_x == old(self).last_mouse_x && final(self).last_mouse_y
                == old(self).last_mouse_y,
            final(self).left_pressed == old(self).left_pressed,
            final(self).right_pressed == old(self).right_pressed,
            final(self).middle_pressed == old(self).middle_pressed,
    {
        let x = self.last_mouse_x;
        let y = self.last_mouse_y;
        match event {
            MouseEvent::Move { .. } => {
                self.last_mouse_x = mapped.0;
                self.last_mouse_y = mapped.1;
                MouseAction::MoveTo { x: mapped.0, y: mapped.1 }
            },
            MouseEvent::LeftPressed => MouseAction::Button { button: MouseButton::Left, pressed: true, x, y },
            MouseEvent::LeftReleased => MouseAction::Button { button: MouseButton::Left, pressed: false, x, y },
            MouseEvent::RightPressed => MouseAction::Button { button: MouseButton::Right, pressed: true, x, y },
            MouseEvent::RightReleased => MouseAction::Button { button: MouseButton::Right, pressed: false, x, y },
            MouseEvent::MiddlePressed => MouseAction::Button { button: MouseButton::Middle, pressed: true, x, y },
            MouseEvent::MiddleReleased => MouseAction::Button { button: MouseButton::Middle, pressed: false, x, y },
            MouseEvent::Scroll { x: sx, y: sy } => MouseAction::Scroll { x: sx, y: sy },
            _ => MouseAction::Ignore,
        }
    }

    fn set_button_state(&mut self, button: MouseButton, pressed: bool)
        ensures
            held(*final(self), button) == pressed,
            forall|b: MouseButton| b != button ==> held(*final(self), b) == held(*old(self), b),
            final(self).last_mouse_x == old(self).last_mouse_x,
            final(self).last_mouse_y == old(self).last_mouse_y,
    {
        match button {
            MouseButton::Left => self.left_pressed = pressed,
            MouseButton::Right => self.right_pressed = pressed,
            MouseButton::Middle => self.middle_pressed = pressed,
        }
    }

    /// A button event was injected: it is now held or released. A failed
    /// or impossible injection changes nothing.
    pub fn button_injected(&mut self, button: MouseButton, pressed: bool, succeeded: bool)
        ensures
            succeeded ==> held(*final(self), button) == pressed,
            succeeded ==> forall|b: MouseButton| b != button ==> held(*final(self), b) == held(*old(self), b),
            !succeeded ==> *final(self) == *old(self),
            final(self).last_mouse_x == old(self).last_mouse_x,
            final(self).last_mouse_y == old(self).last_mouse_y,
    {
        if succeeded {
            self.set_button_state(button, pressed);
        }
    }

    /// The buttons to release on reset, left, right, middle, those held;
    /// all are then marked released, whatever the releases bring.
    pub fn reset_mouse_buttons(&mut self) -> (r: Vec<MouseButton>)
        ensures
            r@ == held_buttons(*old(self)),
            !final(self).left_pressed,
            !final(self).right_pressed,
            !final(self).middle_pressed,
            final(self).last_mouse_x == old(self).last_mouse_x,
            final(self).last_mouse_y == old(self).last_mouse_y,
    {
        let mut r: Vec<MouseButton> = Vec::new();
        if self.left_pressed {
            r.push(MouseButton::Left);
        }
        if self.right_pressed {
            r.push(MouseButton::Right);
        }
        if self.middle_pressed {
            r.push(MouseButton::Middle);
        }
        assert(r@ =~= held_buttons(*self));
        self.left_pressed = false;
        self.right_pressed = false;
        self.middle_pressed = false;
        r
    }
}

/// Pointer coordinate `v` on a client desktop of extent `rdp` mapped to a
/// display of logical extent `logical`: `floor(v * logical / rdp)`,
/// saturated at `u16::MAX`.
pub open spec fn map_coord(v: u16, logical: u16, rdp: u16) -> u16 {
    let q = (v as nat * logical as nat) / (rdp as nat);
    if q > u16::MAX { u16::MAX } else { q as u16 }
}

/// Maps client desktop coordinates to the display's logical coordinates,
/// whatever the capture and encode resolution.  A zero desktop extent is
/// taken as one.
#[derive(Debug, Clone, Copy)]
pub struct MouseCoordMapper {
    logical_w: u16,
    logical_h: u16,
    rdp_w: u16,
    rdp_h: u16,
}

impl MouseCoordMapper {
    pub closed spec fn logical(&self) -> (u16, u16) {
        (self.logical_w, self.logical_h)
    }

    /// The client desktop size in use (each extent at least one).
    pub closed spec fn desktop(&self) -> (u16, u16) {
        (self.rdp_w, self.rdp_h)
    }

    pub open spec fn wf(&self) -> bool {
        self.desktop().0 >= 1 && self.desktop().1 >= 1
    }

    pub fn new(logical_w: u16, logical_h: u16, rdp_w: u16, rdp_h: u16) -> (m: Self)
        ensures
            m.wf(),
            m.logical() == (logical_w, logical_h),
            m.desktop() == (if rdp_w < 1 { 1u16 } else { rdp_w }, if rdp_h < 1 { 1u16 } else { rdp_h }),
    {
        MouseCoordMapper {
            logical_w,
            logical_h,
            rdp_w: if rdp_w < 1 { 1 } else { rdp_w },
            rdp_h: if rdp_h < 1 { 1 } else { rdp_h },
        }
    }

    /// `(x, y)` on the client desktop as display coordinates.
    pub fn map(&self, rdp_x: u16, rdp_y: u16) -> (r: (u16, u16))
        requires
            self.wf(),
        ensures
            r == (map_coord(rdp_x, self.logical().0, self.desktop().0), map_coord(
                rdp_y,
                self.logical().1,
                self.desktop().1,
            )),
    {
        (scale_coord(rdp_x, self.logical_w, self.rdp_w), scale_coord(rdp_y, self.logical_h, self.rdp_h))
    }

    /// The client desktop was resized.
    pub fn update_rdp_size(&mut self, rdp_w: u16, rdp_h: u16)
        ensures
            final(self).wf(),
            final(self).logical() == old(self).logical(),
            final(self).desktop() == (if rdp_w < 1 { 1u16 } else { rdp_w }, if rdp_h < 1 {
                1u16
            } else {
                rdp_h
            }),
    {
        self.rdp_w = if rdp_w < 1 { 1 } else { rdp_w };
        self.rdp_h = if rdp_h < 1 { 1 } else { rdp_h };
    }
}

fn scale_coord(v: u16, logical: u16, rdp: u16) -> (r: u16)
    requires
        rdp >= 1,
    ensures
        r == map_coord(v, logical, rdp),
{
    assert(v as u32 * logical as u32 <= 0xFFFF * 0xFFFF) by (nonlinear_arith)
        requires
            v <= 0xFFFF,
            logical <= 0xFFFF,
    ;
    let q: u32 = (v as u32 * logical as u32) / rdp as u32;
    if q > 0xFFFF { 0xFFFF } else { q as u16 }
}

} // verus!
