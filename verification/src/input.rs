//! Input translation: client pointer messages to mouse events, wheel
//! rotation to scroll lines, and modifier-key tracking.

use vstd::prelude::*;

verus! {

/// RDP wheel rotation units per detent (`WHEEL_DELTA`).
pub const WHEEL_DELTA: i32 = 120;

/// Scroll lines emitted per wheel detent.
pub const LINES_PER_DETENT: i32 = 1;

/// Upper bound on lines emitted from a single scroll event.
pub const MAX_SCROLL_LINES: i32 = 64;

/// `a * b` saturated to the `i32` range.
pub open spec fn saturating_mul_i32(a: int, b: int) -> int {
    if a * b > i32::MAX { i32::MAX as int }
    else if a * b < i32::MIN { i32::MIN as int }
    else { a * b }
}

/// Division rounding toward zero, as Rust's `/` on integers does.
pub open spec fn div_toward_zero(a: int, b: int) -> int
    recommends b != 0,
{
    if a >= 0 { a / b }
    else { -((-a) / b) }
}

/// Clamp `v` into `[lo, hi]`.
pub open spec fn clamp_int(v: int, lo: int, hi: int) -> int {
    if v < lo { lo } else if v > hi { hi } else { v }
}

/// Scroll lines for a wheel rotation of `units`.
pub open spec fn spec_units_to_lines(units: int) -> int {
    clamp_int(
        div_toward_zero(saturating_mul_i32(units, LINES_PER_DETENT as int), WHEEL_DELTA as int),
        -(MAX_SCROLL_LINES as int),
        MAX_SCROLL_LINES as int,
    )
}

pub struct MouseInjector;

impl MouseInjector {
    /// Convert RDP wheel rotation units into scroll lines, preserving the sign
    /// and clamping the magnitude.
    pub fn units_to_lines(units: i32) -> (lines: i32)
        ensures
            lines == spec_units_to_lines(units as int),
            -MAX_SCROLL_LINES <= lines <= MAX_SCROLL_LINES,
    {
        let wide: i64 = (units as i64) * (LINES_PER_DETENT as i64);
        let scaled: i32 = if wide > i32::MAX as i64 {
            i32::MAX
        } else if wide < i32::MIN as i64 {
            i32::MIN
        } else {
            wide as i32
        };
        let lines: i32 = scaled / WHEEL_DELTA;
        if lines < -MAX_SCROLL_LINES {
            -MAX_SCROLL_LINES
        } else if lines > MAX_SCROLL_LINES {
            MAX_SCROLL_LINES
        } else {
            lines
        }
    }
}

// ---------------------------------------------------------------------------
// Mouse events
// ---------------------------------------------------------------------------

/// Pointer flag bits of a fast-path or slow-path mouse message.
pub const PTRFLAGS_VERTICAL_WHEEL: u16 = 0x0200;
pub const PTRFLAGS_HORIZONTAL_WHEEL: u16 = 0x0400;
pub const PTRFLAGS_MOVE: u16 = 0x0800;
pub const PTRFLAGS_BUTTON1: u16 = 0x1000;
pub const PTRFLAGS_BUTTON2: u16 = 0x2000;
pub const PTRFLAGS_BUTTON3: u16 = 0x4000;
pub const PTRFLAGS_DOWN: u16 = 0x8000;

/// Extended pointer flag bits.
pub const PTRXFLAGS_BUTTON1: u16 = 0x0001;
pub const PTRXFLAGS_BUTTON2: u16 = 0x0002;
pub const PTRXFLAGS_DOWN: u16 = 0x8000;

/// Relative pointer flag bits.
pub const PTRRELFLAGS_XBUTTON1: u16 = 0x0001;
pub const PTRRELFLAGS_XBUTTON2: u16 = 0x0002;

/// Advanced-input mouse flag bits.
pub const AINPUT_FLAG_WHEEL: u64 = 0x0001;
pub const AINPUT_FLAG_MOVE: u64 = 0x0004;
pub const AINPUT_FLAG_DOWN: u64 = 0x0008;
pub const AINPUT_FLAG_REL: u64 = 0x0010;
pub const AINPUT_FLAG_BUTTON1: u64 = 0x1000;
pub const AINPUT_FLAG_BUTTON2: u64 = 0x2000;
pub const AINPUT_FLAG_BUTTON3: u64 = 0x4000;

/// Fixed-point scale of advanced-input wheel rotation.
pub const AINPUT_WHEEL_SCALE: i32 = 0x10000;

/// A mouse event from the client.
#[derive(Debug, Clone, Copy, PartialEq, Eq, Structural)]
pub enum MouseEvent {
    Move { x: u16, y: u16 },
    RightPressed,
    RightReleased,
    LeftPressed,
    LeftReleased,
    MiddlePressed,
    MiddleReleased,
    Button4Pressed,
    Button4Released,
    Button5Pressed,
    Button5Released,
    /// Wheel rotation in RDP units (120 per detent), positive up and right.
    Scroll { x: i32, y: i32 },
    RelMove { x: i32, y: i32 },
}

pub open spec fn has16(flags: u16, bit: u16) -> bool {
    flags & bit == bit
}

pub open spec fn has64(flags: u64, bit: u64) -> bool {
    flags & bit == bit
}

pub open spec fn spec_from_pointer(flags: u16, wheel: i16, x: u16, y: u16) -> MouseEvent {
    if has16(flags, PTRFLAGS_BUTTON1) {
        if has16(flags, PTRFLAGS_DOWN) { MouseEvent::LeftPressed } else { MouseEvent::LeftReleased }
    } else if has16(flags, PTRFLAGS_BUTTON2) {
        if has16(flags, PTRFLAGS_DOWN) { MouseEvent::RightPressed } else { MouseEvent::RightReleased }
    } else if has16(flags, PTRFLAGS_VERTICAL_WHEEL) {
        MouseEvent::Scroll { x: 0, y: wheel as i32 }
    } else if has16(flags, PTRFLAGS_HORIZONTAL_WHEEL) {
        MouseEvent::Scroll { x: wheel as i32, y: 0 }
    } else {
        MouseEvent::Move { x, y }
    }
}

impl MouseEvent {
    /// The event of a mouse message: left, then right button transitions;
    /// vertical, then horizontal wheel rotation; otherwise a move to the
    /// message's position.
    pub fn from_pointer(flags: u16, wheel_rotation_units: i16, x_position: u16, y_position: u16) -> (e: Self)
        ensures
            e == spec_from_pointer(flags, wheel_rotation_units, x_position, y_position),
    {
        let down = flags & PTRFLAGS_DOWN == PTRFLAGS_DOWN;
        if flags & PTRFLAGS_BUTTON1 == PTRFLAGS_BUTTON1 {
            if down { MouseEvent::LeftPressed } else { MouseEvent::LeftReleased }
        } else if flags & PTRFLAGS_BUTTON2 == PTRFLAGS_BUTTON2 {
            if down { MouseEvent::RightPressed } else { MouseEvent::RightReleased }
        } else if flags & PTRFLAGS_VERTICAL_WHEEL == PTRFLAGS_VERTICAL_WHEEL {
            MouseEvent::Scroll { x: 0, y: wheel_rotation_units as i32 }
        } else if flags & PTRFLAGS_HORIZONTAL_WHEEL == PTRFLAGS_HORIZONTAL_WHEEL {
            MouseEvent::Scroll { x: wheel_rotation_units as i32, y: 0 }
        } else {
            MouseEvent::Move { x: x_position, y: y_position }
        }
    }

    /// The event of an extended mouse message: button 1 as left, button 2 as
    /// right, otherwise a move.
    pub fn from_pointer_x(flags: u16, x_position: u16, y_position: u16) -> (e: Self)
        ensures
            e == (if has16(flags, PTRXFLAGS_BUTTON1) {
                if has16(flags, PTRXFLAGS_DOWN) { MouseEvent::LeftPressed } else { MouseEvent::LeftReleased }
            } else if has16(flags, PTRXFLAGS_BUTTON2) {
                if has16(flags, PTRXFLAGS_DOWN) { MouseEvent::RightPressed } else { MouseEvent::RightReleased }
            } else {
                MouseEvent::Move { x: x_position, y: y_position }
            }),
    {
        let down = flags & PTRXFLAGS_DOWN == PTRXFLAGS_DOWN;
        if flags & PTRXFLAGS_BUTTON1 == PTRXFLAGS_BUTTON1 {
            if down { MouseEvent::LeftPressed } else { MouseEvent::LeftReleased }
        } else if flags & PTRXFLAGS_BUTTON2 == PTRXFLAGS_BUTTON2 {
            if down { MouseEvent::RightPressed } else { MouseEvent::RightReleased }
        } else {
            MouseEvent::Move { x: x_position, y: y_position }
        }
    }

    /// The event of a relative mouse message: buttons 1 to 3 and the two
    /// extra buttons, otherwise a relative move.
    pub fn from_pointer_rel(flags: u16, x_delta: i16, y_delta: i16) -> (e: Self)
        ensures
            e == (if has16(flags, PTRFLAGS_BUTTON1) {
                if has16(flags, PTRFLAGS_DOWN) { MouseEvent::LeftPressed } else { MouseEvent::LeftReleased }
            } else if has16(flags, PTRFLAGS_BUTTON2) {
                if has16(flags, PTRFLAGS_DOWN) { MouseEvent::RightPressed } else { MouseEvent::RightReleased }
            } else if has16(flags, PTRFLAGS_BUTTON3) {
                if has16(flags, PTRFLAGS_DOWN) { MouseEvent::MiddlePressed } else { MouseEvent::MiddleReleased }
            } else if has16(flags, PTRRELFLAGS_XBUTTON1) {
                if has16(flags, PTRFLAGS_DOWN) { MouseEvent::Button4Pressed } else { MouseEvent::Button4Released }
            } else if has16(flags, PTRRELFLAGS_XBUTTON2) {
                if has16(flags, PTRFLAGS_DOWN) { MouseEvent::Button5Pressed } else { MouseEvent::Button5Released }
            } else {
                MouseEvent::RelMove { x: x_delta as i32, y: y_delta as i32 }
            }),
    {
        let down = flags & PTRFLAGS_DOWN == PTRFLAGS_DOWN;
        if flags & PTRFLAGS_BUTTON1 == PTRFLAGS_BUTTON1 {
            if down { MouseEvent::LeftPressed } else { MouseEvent::LeftReleased }
        } else if flags & PTRFLAGS_BUTTON2 == PTRFLAGS_BUTTON2 {
            if down { MouseEvent::RightPressed } else { MouseEvent::RightReleased }
        } else if flags & PTRFLAGS_BUTTON3 == PTRFLAGS_BUTTON3 {
            if down { MouseEvent::MiddlePressed } else { MouseEvent::MiddleReleased }
        } else if flags & PTRRELFLAGS_XBUTTON1 == PTRRELFLAGS_XBUTTON1 {
            if down { MouseEvent::Button4Pressed } else { MouseEvent::Button4Released }
        } else if flags & PTRRELFLAGS_XBUTTON2 == PTRRELFLAGS_XBUTTON2 {
            if down { MouseEvent::Button5Pressed } else { MouseEvent::Button5Released }
        } else {
            MouseEvent::RelMove { x: x_delta as i32, y: y_delta as i32 }
        }
    }

    /// The event of an advanced-input mouse message: buttons 1 to 3; wheel
    /// rotation scaled back from fixed point to RDP units (truncating); a
    /// relative move; a move to the position, each coordinate outside the
    /// 16-bit range read as 0; otherwise a move to the origin.
    pub fn from_ainput(flags: u64, x: i32, y: i32) -> (e: Self)
        ensures
            e == (if has64(flags, AINPUT_FLAG_BUTTON1) {
                if has64(flags, AINPUT_FLAG_DOWN) { MouseEvent::LeftPressed } else { MouseEvent::LeftReleased }
            } else if has64(flags, AINPUT_FLAG_BUTTON2) {
                if has64(flags, AINPUT_FLAG_DOWN) { MouseEvent::RightPressed } else { MouseEvent::RightReleased }
            } else if has64(flags, AINPUT_FLAG_BUTTON3) {
                if has64(flags, AINPUT_FLAG_DOWN) { MouseEvent::MiddlePressed } else { MouseEvent::MiddleReleased }
            } else if has64(flags, AINPUT_FLAG_WHEEL) {
                MouseEvent::Scroll {
                    x: div_toward_zero(x as int, AINPUT_WHEEL_SCALE as int) as i32,
                    y: div_toward_zero(y as int, AINPUT_WHEEL_SCALE as int) as i32,
                }
            } else if has64(flags, AINPUT_FLAG_REL) {
                MouseEvent::RelMove { x, y }
            } else if has64(flags, AINPUT_FLAG_MOVE) {
                MouseEvent::Move { x: u16_or_zero(x), y: u16_or_zero(y) }
            } else {
                MouseEvent::Move { x: 0, y: 0 }
            }),
    {
        let down = flags & AINPUT_FLAG_DOWN == AINPUT_FLAG_DOWN;
        if flags & AINPUT_FLAG_BUTTON1 == AINPUT_FLAG_BUTTON1 {
            if down { MouseEvent::LeftPressed } else { MouseEvent::LeftReleased }
        } else if flags & AINPUT_FLAG_BUTTON2 == AINPUT_FLAG_BUTTON2 {
            if down { MouseEvent::RightPressed } else { MouseEvent::RightReleased }
        } else if flags & AINPUT_FLAG_BUTTON3 == AINPUT_FLAG_BUTTON3 {
            if down { MouseEvent::MiddlePressed } else { MouseEvent::MiddleReleased }
        } else if flags & AINPUT_FLAG_WHEEL == AINPUT_FLAG_WHEEL {
            MouseEvent::Scroll { x: x / AINPUT_WHEEL_SCALE, y: y / AINPUT_WHEEL_SCALE }
        } else if flags & AINPUT_FLAG_REL == AINPUT_FLAG_REL {
            MouseEvent::RelMove { x, y }
        } else if flags & AINPUT_FLAG_MOVE == AINPUT_FLAG_MOVE {
            MouseEvent::Move { x: exec_u16_or_zero(x), y: exec_u16_or_zero(y) }
        } else {
            MouseEvent::Move { x: 0, y: 0 }
        }
    }
}

/// `v` as a 16-bit coordinate, or 0 when it is outside that range.
pub open spec fn u16_or_zero(v: i32) -> u16 {
    if 0 <= v <= 0xFFFF { v as u16 } else { 0 }
}

fn exec_u16_or_zero(v: i32) -> (r: u16)
    ensures
        r == u16_or_zero(v),
{
    if 0 <= v && v <= 0xFFFF { v as u16 } else { 0 }
}

/// A mouse button.
#[derive(Debug, Clone, Copy, PartialEq, Eq, Structural)]
pub enum MouseButton {
    Left,
    Right,
    Middle,
}

/// Scroll lines (vertical, horizontal) for wheel rotation `dx`, `dy`;
/// `None` when both round to nothing, so no empty scroll event is posted.
pub fn scroll_lines(dx: i32, dy: i32) -> (r: Option<(i32, i32)>)
    ensures
        ({
            let v = spec_units_to_lines(dy as int);
            let h = spec_units_to_lines(dx as int);
            if v == 0 && h == 0 { r is None } else { r == Some((v as i32, h as i32)) }
        }),
{
    let vertical = MouseInjector::units_to_lines(dy);
    let horizontal = MouseInjector::units_to_lines(dx);
    if vertical == 0 && horizontal == 0 {
        None
    } else {
        Some((vertical, horizontal))
    }
}

// ---------------------------------------------------------------------------
// Keyboard modifiers
// ---------------------------------------------------------------------------

/// Event flag bits of the modifier keys.
pub const FLAG_SHIFT: u64 = 0x0002_0000;
pub const FLAG_CONTROL: u64 = 0x0004_0000;
pub const FLAG_ALTERNATE: u64 = 0x0008_0000;
pub const FLAG_COMMAND: u64 = 0x0010_0000;

pub open spec fn spec_modifier_flag(keycode: u16) -> Option<u64> {
    if keycode == 0x38 || keycode == 0x3C {
        Some(FLAG_SHIFT)
    } else if keycode == 0x3B || keycode == 0x3E {
        Some(FLAG_CONTROL)
    } else if keycode == 0x3A || keycode == 0x3D {
        Some(FLAG_ALTERNATE)
    } else if keycode == 0x37 || keycode == 0x36 {
        Some(FLAG_COMMAND)
    } else {
        None
    }
}

/// The event flag a modifier key (left or right shift, control, option,
/// command) holds down; `None` for other keys.
pub fn modifier_flag_for_keycode(keycode: u16) -> (r: Option<u64>)
    ensures
        r == spec_modifier_flag(keycode),
{
    if keycode == 0x38 || keycode == 0x3C {
        Some(FLAG_SHIFT)
    } else if keycode == 0x3B || keycode == 0x3E {
        Some(FLAG_CONTROL)
    } else if keycode == 0x3A || keycode == 0x3D {
        Some(FLAG_ALTERNATE)
    } else if keycode == 0x37 || keycode == 0x36 {
        Some(FLAG_COMMAND)
    } else {
        None
    }
}

/// A strictly increasing sequence.
pub open spec fn strictly_sorted(s: Seq<u16>) -> bool {
    forall|i: int, j: int| 0 <= i < j < s.len() ==> s[i] < s[j]
}

/// Modifier state of the injected keyboard: the flags held and the modifier
/// keys pressed (ascending, each once).
pub struct KeyboardModifiers {
    pub modifier_flags: u64,
    pub pressed_modifiers: Vec<u16>,
}

impl KeyboardModifiers {
    pub fn new() -> (k: Self)
        ensures
            k.modifier_flags == 0,
            k.pressed_modifiers@ == Seq::<u16>::empty(),
    {
        KeyboardModifiers { modifier_flags: 0, pressed_modifiers: Vec::new() }
    }

    pub open spec fn wf(&self) -> bool {
        strictly_sorted(self.pressed_modifiers@)
    }

    /// The flags to set on a key event: a modifier press sets its flag and
    /// records the key, a release clears the flag and forgets the key; other
    /// keys leave the state alone.
    pub fn flags_for_event(&mut self, keycode: u16, pressed: bool) -> (flags: u64)
        requires
            old(self).wf(),
        ensures
            final(self).wf(),
            flags == final(self).modifier_flags,
            match spec_modifier_flag(keycode) {
                None => final(self).modifier_flags == old(self).modifier_flags
                    && final(self).pressed_modifiers@ == old(self).pressed_modifiers@,
                Some(f) => if pressed {
                    final(self).modifier_flags == old(self).modifier_flags | f
                        && final(self).pressed_modifiers@.to_set() == old(self).pressed_modifiers@.to_set().insert(keycode)
                } else {
                    final(self).modifier_flags == old(self).modifier_flags & !f
                        && final(self).pressed_modifiers@.to_set() == old(self).pressed_modifiers@.to_set().remove(keycode)
                },
            },
    {
        let flag = match modifier_flag_for_keycode(keycode) {
            None => {
                return self.modifier_flags;
            },
            Some(f) => f,
        };
        if pressed {
            self.modifier_flags = self.modifier_flags | flag;
            sorted_insert(&mut self.pressed_modifiers, keycode);
        } else {
            self.modifier_flags = self.modifier_flags & !flag;
            sorted_remove(&mut self.pressed_modifiers, keycode);
        }
        self.modifier_flags
    }

    /// Release every pressed modifier, in ascending key order: returns each
    /// key with the flags left after clearing its flag; the state is then
    /// empty.
    pub fn reset_modifiers(&mut self) -> (releases: Vec<(u16, u64)>)
        requires
            old(self).wf(),
        ensures
            final(self).modifier_flags == 0,
            final(self).pressed_modifiers@ == Seq::<u16>::empty(),
            releases@.len() == old(self).pressed_modifiers@.len(),
            forall|i: int| 0 <= i < releases@.len() ==> #[trigger] releases@[i].0 == old(self).pressed_modifiers@[i],
            forall|i: int| 0 <= i < releases@.len() ==> #[trigger] releases@[i].1 == flags_after_releases(
                old(self).modifier_flags,
                old(self).pressed_modifiers@.take(i + 1),
            ),
    {
        let mut releases: Vec<(u16, u64)> = Vec::new();
        let mut flags = self.modifier_flags;
        let mut i: usize = 0;
        while i < self.pressed_modifiers.len()
            invariant
                i <= self.pressed_modifiers@.len(),
                releases@.len() == i,
                self.modifier_flags == old(self).modifier_flags,
                self.pressed_modifiers@ == old(self).pressed_modifiers@,
                flags == flags_after_releases(self.modifier_flags, self.pressed_modifiers@.take(i as int)),
                forall|k: int| 0 <= k < i ==> #[trigger] releases@[k].0 == self.pressed_modifiers@[k],
                forall|k: int| 0 <= k < i ==> #[trigger] releases@[k].1 == flags_after_releases(
                    self.modifier_flags,
                    self.pressed_modifiers@.take(k + 1),
                ),
            decreases self.pressed_modifiers.len() - i,
        {
            let keycode = self.pressed_modifiers[i];
            assert(self.pressed_modifiers@.take(i + 1).drop_last() =~= self.pressed_modifiers@.take(i as int));
            match modifier_flag_for_keycode(keycode) {
                Some(f) => {
                    flags = flags & !f;
                },
                None => {},
            }
            releases.push((keycode, flags));
            i = i + 1;
        }
        self.pressed_modifiers = Vec::new();
        self.modifier_flags = 0;
        releases
    }
}

/// Flags left after releasing the modifier keys of `keys` in order.
pub open spec fn flags_after_releases(flags: u64, keys: Seq<u16>) -> u64
    decreases keys.len(),
{
    if keys.len() == 0 {
        flags
    } else {
        let prev = flags_after_releases(flags, keys.drop_last());
        match spec_modifier_flag(keys.last()) {
            Some(f) => prev & !f,
            None => prev,
        }
    }
}

/// Inserts `k` into a strictly increasing vector, keeping it so.
fn sorted_insert(v: &mut Vec<u16>, k: u16)
    requires
        strictly_sorted(old(v)@),
    ensures
        strictly_sorted(final(v)@),
        final(v)@.to_set() == old(v)@.to_set().insert(k),
{
    let mut i: usize = 0;
    while i < v.len() && v[i] < k
        invariant
            i <= v@.len(),
            strictly_sorted(v@),
            v@ == old(v)@,
            forall|j: int| 0 <= j < i ==> v@[j] < k,
        decreases v.len() - i,
    {
        i = i + 1;
    }
    if i < v.len() && v[i] == k {
        assert(v@.to_set() =~= old(v)@.to_set().insert(k)) by {
            assert(old(v)@.contains(k));
        }
        return;
    }
    let ghost before = v@;
    v.insert(i, k);
    assert(v@ =~= before.take(i as int).push(k) + before.skip(i as int));
    assert forall|a: int, b: int| 0 <= a < b < v@.len() implies v@[a] < v@[b] by {
        if b < i {
        } else if a < i && b == i {
        } else if a < i {
            assert(before[a] < before[b - 1]);
        } else if a == i {
            assert(before[b - 1] >= before[i as int]);
        } else {
            assert(before[a - 1] < before[b - 1]);
        }
    }
    assert forall|x: u16| v@.to_set().contains(x) <==> old(v)@.to_set().insert(k).contains(x) by {
        if v@.contains(x) {
            let j = choose|j: int| 0 <= j < v@.len() && v@[j] == x;
            if j < i {
                assert(before[j] == x);
            } else if j > i {
                assert(before[j - 1] == x);
            }
        }
        if before.contains(x) {
            let j = choose|j: int| 0 <= j < before.len() && before[j] == x;
            if j < i {
                assert(v@[j] == x);
            } else {
                assert(v@[j + 1] == x);
            }
        }
        if x == k {
            assert(v@[i as int] == k);
        }
    }
    assert(v@.to_set() =~= old(v)@.to_set().insert(k));
}

/// Removes `k` from a strictly increasing vector, keeping it so.
fn sorted_remove(v: &mut Vec<u16>, k: u16)
    requires
        strictly_sorted(old(v)@),
    ensures
        strictly_sorted(final(v)@),
        final(v)@.to_set() == old(v)@.to_set().remove(k),
{
    let mut i: usize = 0;
    while i < v.len() && v[i] != k
        invariant
            i <= v@.len(),
            v@ == old(v)@,
            forall|j: int| 0 <= j < i ==> v@[j] != k,
        decreases v.len() - i,
    {
        i = i + 1;
    }
    if i == v.len() {
        assert(!old(v)@.contains(k));
        assert(v@.to_set() =~= old(v)@.to_set().remove(k));
        return;
    }
    let ghost before = v@;
    v.remove(i);
    assert(v@ =~= before.take(i as int) + before.skip(i + 1));
    assert forall|a: int, b: int| 0 <= a < b < v@.len() implies v@[a] < v@[b] by {
        if b < i {
        } else if a < i {
            assert(before[a] < before[b + 1]);
        } else {
            assert(before[a + 1] < before[b + 1]);
        }
    }
    assert forall|x: u16| v@.to_set().contains(x) <==> old(v)@.to_set().remove(k).contains(x) by {
        if v@.contains(x) {
            let j = choose|j: int| 0 <= j < v@.len() && v@[j] == x;
            if j < i {
                assert(before[j] == x);
                assert(before[j] < before[i as int]);
            } else {
                assert(before[j + 1] == x);
                assert(before[i as int] < before[j + 1]);
            }
        }
        if before.contains(x) && x != k {
            let j = choose|j: int| 0 <= j < before.len() && before[j] == x;
            if j < i {
                assert(v@[j] == x);
            } else {
                assert(j != i);
                assert(v@[j - 1] == x);
            }
        }
    }
    assert(v@.to_set() =~= old(v)@.to_set().remove(k));
}

/// Media keys forwarded as system-defined events.
#[derive(Debug, Clone, Copy, PartialEq, Eq, Structural)]
pub enum MediaKey {
    VolumeUp,
    VolumeDown,
}

/// The system key type of a media key.
pub open spec fn spec_nx_key_type(k: MediaKey) -> i32 {
    match k {
        MediaKey::VolumeUp => 0i32,
        MediaKey::VolumeDown => 1i32,
    }
}

impl MediaKey {
    /// The system key type of the media key.
    pub fn nx_key_type(self) -> (t: i32)
        ensures
            t == spec_nx_key_type(self),
    {
        match self {
            MediaKey::VolumeUp => 0,
            MediaKey::VolumeDown => 1,
        }
    }
}

/// The first data word of a media-key system event: key type and key-down
/// (`0x0a`) or key-up (`0x0b`) state.
pub fn media_key_event_data(key: MediaKey, pressed: bool) -> (d: i32)
    ensures
        d == spec_nx_key_type(key) * 0x10000 + (if pressed { 0x0a00i32 } else { 0x0b00i32 }),
{
    let t = key.nx_key_type();
    let state: i32 = if pressed { 0x0a } else { 0x0b };
    t * 0x10000 + state * 0x100
}

/// Configuration of the keyboard injector.
#[derive(Debug, Clone, Copy, PartialEq, Eq, Structural)]
pub struct KeyboardInjectorConfig {
    pub tap_location: crate::server::InputTapLocation,
}

impl Default for KeyboardInjectorConfig {
    fn default() -> (c: Self)
        ensures
            c.tap_location == crate::server::InputTapLocation::Session,
    {
        KeyboardInjectorConfig { tap_location: crate::server::InputTapLocation::Session }
    }
}

} // verus!
