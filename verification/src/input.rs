//! Per-frame input state: keys and mouse buttons pressed, held and
//! released, the pointer position and its movement, and active touches.
//! Events from the page are applied to the state; `end_frame` clears what
//! only lasts one frame.
use vstd::prelude::*;
use std::collections::{HashMap, HashSet};
use vstd::std_specs::hash::spec_hash_map_iter;
use vstd::std_specs::iter::IteratorSpec;

verus! {

broadcast use vstd::std_specs::hash::group_hash_axioms;

/// A mouse button.
#[derive(Clone, Copy, Debug, PartialEq, Eq, Structural, Hash)]
pub enum MouseButton {
    Left,
    Middle,
    Right,
    Button4,
    Button5,
}

/// A point in client (viewport) coordinates, as pointer events report it.
#[derive(Clone, Copy, Debug, PartialEq, Eq, Structural)]
pub struct ClientPoint {
    pub x: i32,
    pub y: i32,
}

/// The movement of the pointer between two positions.
#[derive(Clone, Copy, Debug, PartialEq, Eq, Structural)]
pub struct ClientDelta {
    pub dx: i64,
    pub dy: i64,
}

/// The event-reading helpers of the input system.
pub struct Input;

impl Input {
    /// The button that a mouse event's `button` number stands for: 0 left,
    /// 1 middle, 2 right, 3 and 4 the extra buttons; any other number is
    /// taken as the left button.
    pub fn extract_mouse_button(button_value: i16) -> (r: MouseButton)
        ensures
            r == (if button_value == 1 {
                MouseButton::Middle
            } else if button_value == 2 {
                MouseButton::Right
            } else if button_value == 3 {
                MouseButton::Button4
            } else if button_value == 4 {
                MouseButton::Button5
            } else {
                MouseButton::Left
            }),
    {
        match button_value {
            0 => MouseButton::Left,
            1 => MouseButton::Middle,
            2 => MouseButton::Right,
            3 => MouseButton::Button4,
            4 => MouseButton::Button5,
            _ => MouseButton::Left,
        }
    }

    /// The client position of a mouse event.
    pub fn extract_mouse_position(client_x: i32, client_y: i32) -> (r: ClientPoint)
        ensures
            r == (ClientPoint { x: client_x, y: client_y }),
    {
        ClientPoint { x: client_x, y: client_y }
    }
}

/// An input event, as the page's listeners deliver it.
pub enum InputEvent {
    /// A key went down; the key code (e.g. `"KeyA"`).
    KeyDown(String),
    /// A key went up.
    KeyUp(String),
    /// A mouse button went down at a position.
    MouseDown(MouseButton, ClientPoint),
    /// A mouse button went up.
    MouseUp(MouseButton),
    /// The pointer moved to a position.
    MouseMove(ClientPoint),
    /// The pointer left the target.
    MouseLeave,
    /// Touches started: identifier and position of each.
    TouchStart(Vec<(i32, ClientPoint)>),
    /// Touches moved: identifier and position of each.
    TouchMove(Vec<(i32, ClientPoint)>),
    /// Touches ended: identifier of each.
    TouchEnd(Vec<i32>),
}

/// The model of the input state.
pub struct InputModel {
    pub keys_pressed: Set<Seq<char>>,
    pub keys_held: Set<Seq<char>>,
    pub keys_released: Set<Seq<char>>,
    pub buttons_pressed: Set<MouseButton>,
    pub buttons_held: Set<MouseButton>,
    pub buttons_released: Set<MouseButton>,
    pub mouse_position: ClientPoint,
    pub mouse_delta: ClientDelta,
    pub mouse_moved: bool,
    pub touches: Map<i32, ClientPoint>,
    pub touch_started: Set<i32>,
    pub touch_ended: Set<i32>,
}

/// The state after a key press.
pub open spec fn key_pressed_model(m: InputModel, key: Seq<char>) -> InputModel {
    InputModel {
        keys_pressed: if m.keys_held.contains(key) {
            m.keys_pressed
        } else {
            m.keys_pressed.insert(key)
        },
        keys_held: m.keys_held.insert(key),
        ..m
    }
}

/// The state after a key release.
pub open spec fn key_released_model(m: InputModel, key: Seq<char>) -> InputModel {
    InputModel { keys_held: m.keys_held.remove(key), keys_released: m.keys_released.insert(key), ..m }
}

/// The state after a mouse button press at a position.
pub open spec fn button_pressed_model(m: InputModel, button: MouseButton, position: ClientPoint) -> InputModel {
    InputModel {
        buttons_pressed: if m.buttons_held.contains(button) {
            m.buttons_pressed
        } else {
            m.buttons_pressed.insert(button)
        },
        buttons_held: m.buttons_held.insert(button),
        mouse_position: position,
        ..m
    }
}

/// The state after a mouse button release.
pub open spec fn button_released_model(m: InputModel, button: MouseButton) -> InputModel {
    InputModel {
        buttons_held: m.buttons_held.remove(button),
        buttons_released: m.buttons_released.insert(button),
        ..m
    }
}

/// The state after a touch starts.
pub open spec fn touch_started_model(m: InputModel, id: i32, position: ClientPoint) -> InputModel {
    InputModel {
        touches: m.touches.insert(id, position),
        touch_started: m.touch_started.insert(id),
        ..m
    }
}

/// The state after a touch ends.
pub open spec fn touch_ended_model(m: InputModel, id: i32) -> InputModel {
    InputModel { touches: m.touches.remove(id), touch_ended: m.touch_ended.insert(id), ..m }
}

/// The state after the end of a frame.
pub open spec fn frame_ended_model(m: InputModel) -> InputModel {
    InputModel {
        keys_pressed: Set::empty(),
        keys_released: Set::empty(),
        buttons_pressed: Set::empty(),
        buttons_released: Set::empty(),
        mouse_delta: no_delta(),
        mouse_moved: false,
        touch_started: Set::empty(),
        touch_ended: Set::empty(),
        ..m
    }
}

/// The state after the pointer moves to `position`: the delta is the
/// movement from the previous position.
pub open spec fn mouse_moved_model(m: InputModel, position: ClientPoint) -> InputModel {
    InputModel {
        mouse_delta: ClientDelta {
            dx: (position.x - m.mouse_position.x) as i64,
            dy: (position.y - m.mouse_position.y) as i64,
        },
        mouse_position: position,
        mouse_moved: true,
        ..m
    }
}

/// The state after the pointer leaves the target.
pub open spec fn pointer_left_model(m: InputModel) -> InputModel {
    InputModel { mouse_moved: false, mouse_delta: no_delta(), ..m }
}

/// The state after touch `id` moves to `position`.
pub open spec fn touch_moved_model(m: InputModel, id: i32, position: ClientPoint) -> InputModel {
    InputModel { touches: m.touches.insert(id, position), ..m }
}

/// The state after the touches of `s` start, in order.
pub open spec fn touches_started_model(m: InputModel, s: Seq<(i32, ClientPoint)>) -> InputModel
    decreases s.len(),
{
    if s.len() == 0 {
        m
    } else {
        touch_started_model(touches_started_model(m, s.drop_last()), s.last().0, s.last().1)
    }
}

/// The state after the touches of `s` move, in order.
pub open spec fn touches_moved_model(m: InputModel, s: Seq<(i32, ClientPoint)>) -> InputModel
    decreases s.len(),
{
    if s.len() == 0 {
        m
    } else {
        touch_moved_model(touches_moved_model(m, s.drop_last()), s.last().0, s.last().1)
    }
}

/// The state after the touches of `s` end, in order.
pub open spec fn touches_ended_model(m: InputModel, s: Seq<i32>) -> InputModel
    decreases s.len(),
{
    if s.len() == 0 {
        m
    } else {
        touch_ended_model(touches_ended_model(m, s.drop_last()), s.last())
    }
}

/// The state after an event: key events with an empty code change nothing;
/// the touches of a touch event are applied in order.
pub open spec fn event_model(m: InputModel, event: InputEvent) -> InputModel {
    match event {
        InputEvent::KeyDown(code) => if code@.len() == 0 {
            m
        } else {
            key_pressed_model(m, code@)
        },
        InputEvent::KeyUp(code) => if code@.len() == 0 {
            m
        } else {
            key_released_model(m, code@)
        },
        InputEvent::MouseDown(button, position) => button_pressed_model(m, button, position),
        InputEvent::MouseUp(button) => button_released_model(m, button),
        InputEvent::MouseMove(position) => mouse_moved_model(m, position),
        InputEvent::MouseLeave => pointer_left_model(m),
        InputEvent::TouchStart(touches) => touches_started_model(m, touches@),
        InputEvent::TouchMove(touches) => touches_moved_model(m, touches@),
        InputEvent::TouchEnd(identifiers) => touches_ended_model(m, identifiers@),
    }
}

/// The keys held in a list of key codes.
pub open spec fn key_set(v: Seq<String>) -> Set<Seq<char>> {
    Set::new(|k: Seq<char>| exists|i: int| 0 <= i < v.len() && (#[trigger] v[i])@ == k)
}

/// The elements of a list, as a set.
pub open spec fn elem_set<A>(v: Seq<A>) -> Set<A> {
    Set::new(|a: A| v.contains(a))
}

/// The state of the input devices.
pub struct InputState {
    keys_pressed: Vec<String>,
    keys_held: Vec<String>,
    keys_released: Vec<String>,
    mouse_buttons_pressed: Vec<MouseButton>,
    mouse_buttons_held: Vec<MouseButton>,
    mouse_buttons_released: Vec<MouseButton>,
    mouse_position: ClientPoint,
    mouse_delta: ClientDelta,
    mouse_moved: bool,
    touch_points: HashMap<i32, ClientPoint>,
    touch_started: HashSet<i32>,
    touch_ended: HashSet<i32>,
}

impl View for InputState {
    type V = InputModel;

    closed spec fn view(&self) -> InputModel {
        InputModel {
            keys_pressed: key_set(self.keys_pressed@),
            keys_held: key_set(self.keys_held@),
            keys_released: key_set(self.keys_released@),
            buttons_pressed: elem_set(self.mouse_buttons_pressed@),
            buttons_held: elem_set(self.mouse_buttons_held@),
            buttons_released: elem_set(self.mouse_buttons_released@),
            mouse_position: self.mouse_position,
            mouse_delta: self.mouse_delta,
            mouse_moved: self.mouse_moved,
            touches: self.touch_points@,
            touch_started: self.touch_started@,
            touch_ended: self.touch_ended@,
        }
    }
}

/// The zero movement.
pub open spec fn no_delta() -> ClientDelta {
    ClientDelta { dx: 0, dy: 0 }
}

/// Whether a list of key codes holds `key`.
fn keys_contain(v: &Vec<String>, key: &String) -> (r: bool)
    ensures
        r == key_set(v@).contains(key@),
{
    let mut i: usize = 0;
    while i < v.len()
        invariant
            i <= v@.len(),
            forall|k: int| 0 <= k < i ==> (#[trigger] v@[k])@ != key@,
        decreases v@.len() - i,
    {
        if v[i] == *key {
            assert(v@[i as int]@ == key@);
            return true;
        }
        i = i + 1;
    }
    false
}

/// Adds `key` to a list of key codes unless it is there.
fn keys_insert(v: &mut Vec<String>, key: String)
    ensures
        key_set(final(v)@) == key_set(old(v)@).insert(key@),
{
    if !keys_contain(v, &key) {
        let ghost k = key@;
        v.push(key);
        assert forall|x: Seq<char>| key_set(v@).contains(x) <==> key_set(old(v)@).insert(k).contains(x) by {
            if key_set(old(v)@).contains(x) {
                let i = choose|i: int| 0 <= i < old(v)@.len() && (#[trigger] old(v)@[i])@ == x;
                assert(v@[i]@ == x);
            }
            if x == k {
                assert(v@[v@.len() - 1]@ == x);
            }
            if key_set(v@).contains(x) {
                let i = choose|i: int| 0 <= i < v@.len() && (#[trigger] v@[i])@ == x;
                if i < old(v)@.len() {
                    assert(old(v)@[i]@ == x);
                }
            }
        }
        assert(key_set(v@) =~= key_set(old(v)@).insert(k));
    } else {
        assert(key_set(v@) =~= key_set(old(v)@).insert(key@));
    }
}

/// Removes every occurrence of `key` from a list of key codes.
fn keys_remove(v: &mut Vec<String>, key: &String)
    ensures
        key_set(final(v)@) == key_set(old(v)@).remove(key@),
{
    let mut out: Vec<String> = Vec::new();
    let mut i: usize = 0;
    while i < v.len()
        invariant
            i <= v@.len(),
            v@ == old(v)@,
            forall|x: Seq<char>| key_set(out@).contains(x) <==> (x != key@ && exists|k: int|
                0 <= k < i && (#[trigger] v@[k])@ == x),
        decreases v@.len() - i,
    {
        if !(v[i] == *key) {
            let ghost before = out@;
            out.push(v[i].clone());
            assert forall|x: Seq<char>| key_set(out@).contains(x) <==> (x != key@ && exists|k: int|
                0 <= k < i + 1 && (#[trigger] v@[k])@ == x) by {
                if key_set(out@).contains(x) {
                    let j = choose|j: int| 0 <= j < out@.len() && (#[trigger] out@[j])@ == x;
                    if j < before.len() {
                        assert(key_set(before).contains(x));
                    } else {
                        assert(v@[i as int]@ == x);
                    }
                }
                if x != key@ && exists|k: int| 0 <= k < i + 1 && (#[trigger] v@[k])@ == x {
                    let k = choose|k: int| 0 <= k < i + 1 && (#[trigger] v@[k])@ == x;
                    if k < i {
                        assert(key_set(before).contains(x));
                        let j = choose|j: int| 0 <= j < before.len() && (#[trigger] before[j])@
                            == x;
                        assert(out@[j]@ == x);
                    } else {
                        assert(out@[out@.len() - 1]@ == x);
                    }
                }
            }
        } else {
            assert forall|x: Seq<char>| key_set(out@).contains(x) <==> (x != key@ && exists|k: int|
                0 <= k < i + 1 && (#[trigger] v@[k])@ == x) by {
                if x != key@ && exists|k: int| 0 <= k < i + 1 && (#[trigger] v@[k])@ == x {
                    let k = choose|k: int| 0 <= k < i + 1 && (#[trigger] v@[k])@ == x;
                    assert(k < i);
                }
            }
        }
        i = i + 1;
    }
    *v = out;
    assert(key_set(v@) =~= key_set(old(v)@).remove(key@));
}

/// A small copyable value that can be compared for equality.
pub trait ListKey: Copy + Sized {
    /// Whether `self` and `other` are the same value.
    fn same(&self, other: &Self) -> (r: bool)
        ensures
            r == (*self == *other),
    ;
}

impl ListKey for MouseButton {
    fn same(&self, other: &Self) -> (r: bool) {
        *self == *other
    }
}

/// Whether a list holds `x`.
fn list_contains<A: ListKey>(v: &Vec<A>, x: A) -> (r: bool)
    ensures
        r == v@.contains(x),
{
    let mut i: usize = 0;
    while i < v.len()
        invariant
            i <= v@.len(),
            forall|k: int| 0 <= k < i ==> v@[k] != x,
        decreases v@.len() - i,
    {
        if v[i].same(&x) {
            assert(v@[i as int] == x);
            return true;
        }
        i = i + 1;
    }
    false
}

/// Adds `x` to a list unless it is there.
fn list_insert<A: ListKey>(v: &mut Vec<A>, x: A)
    ensures
        elem_set(final(v)@) == elem_set(old(v)@).insert(x),
{
    if !list_contains(v, x) {
        v.push(x);
        assert forall|y: A| elem_set(v@).contains(y) <==> elem_set(old(v)@).insert(x).contains(y) by {
            if old(v)@.contains(y) {
                let i = choose|i: int| 0 <= i < old(v)@.len() && old(v)@[i] == y;
                assert(v@[i] == y);
            }
            if y == x {
                assert(v@[v@.len() - 1] == y);
            }
            if v@.contains(y) {
                let i = choose|i: int| 0 <= i < v@.len() && v@[i] == y;
                if i < old(v)@.len() {
                    assert(old(v)@[i] == y);
                }
            }
        }
    }
    assert(elem_set(v@) =~= elem_set(old(v)@).insert(x));
}

/// Removes every occurrence of `x` from a list.
fn list_remove<A: ListKey>(v: &mut Vec<A>, x: A)
    ensures
        elem_set(final(v)@) == elem_set(old(v)@).remove(x),
{
    let mut out: Vec<A> = Vec::new();
    let mut i: usize = 0;
    while i < v.len()
        invariant
            i <= v@.len(),
            v@ == old(v)@,
            forall|y: A| out@.contains(y) <==> (y != x && exists|k: int| 0 <= k < i && v@[k] == y),
        decreases v@.len() - i,
    {
        let ghost before = out@;
        if !v[i].same(&x) {
            out.push(v[i]);
        }
        assert forall|y: A| out@.contains(y) <==> (y != x && exists|k: int|
            0 <= k < i + 1 && v@[k] == y) by {
            if out@.contains(y) {
                let j = choose|j: int| 0 <= j < out@.len() && out@[j] == y;
                if j < before.len() {
                    assert(before.contains(y));
                } else {
                    assert(v@[i as int] == y);
                }
            }
            if y != x && exists|k: int| 0 <= k < i + 1 && v@[k] == y {
                let k = choose|k: int| 0 <= k < i + 1 && v@[k] == y;
                if k < i {
                    assert(before.contains(y));
                    let j = choose|j: int| 0 <= j < before.len() && before[j] == y;
                    assert(out@[j] == y);
                } else {
                    assert(out@[out@.len() - 1] == y);
                }
            }
        }
        i = i + 1;
    }
    *v = out;
    assert(elem_set(v@) =~= elem_set(old(v)@).remove(x));
}

impl InputState {
    /// A state with nothing pressed, held or touched, the pointer at the
    /// origin and not moving.
    pub fn new() -> (r: InputState)
        ensures
            r@.keys_pressed.is_empty(),
            r@.keys_held.is_empty(),
            r@.keys_released.is_empty(),
            r@.buttons_pressed.is_empty(),
            r@.buttons_held.is_empty(),
            r@.buttons_released.is_empty(),
            r@.mouse_position == (ClientPoint { x: 0, y: 0 }),
            r@.mouse_delta == no_delta(),
            !r@.mouse_moved,
            r@.touches.is_empty(),
            r@.touch_started.is_empty(),
            r@.touch_ended.is_empty(),
    {
        let r = InputState {
            keys_pressed: Vec::new(),
            keys_held: Vec::new(),
            keys_released: Vec::new(),
            mouse_buttons_pressed: Vec::new(),
            mouse_buttons_held: Vec::new(),
            mouse_buttons_released: Vec::new(),
            mouse_position: ClientPoint { x: 0, y: 0 },
            mouse_delta: ClientDelta { dx: 0, dy: 0 },
            mouse_moved: false,
            touch_points: HashMap::new(),
            touch_started: HashSet::new(),
            touch_ended: HashSet::new(),
        };
        assert(r@.keys_pressed =~= Set::empty());
        assert(r@.keys_held =~= Set::empty());
        assert(r@.keys_released =~= Set::empty());
        assert(r@.buttons_pressed =~= Set::empty());
        assert(r@.buttons_held =~= Set::empty());
        assert(r@.buttons_released =~= Set::empty());
        assert(r@.touches =~= Map::empty());
        assert(r@.touch_started =~= Set::empty());
        assert(r@.touch_ended =~= Set::empty());
        r
    }

    /// Records a key press: the key is held, and counts as pressed this
    /// frame unless it was already held (key repeat).
    pub fn press_key(&mut self, key_code: String)
        ensures
            final(self)@ == key_pressed_model(old(self)@, key_code@),
    {
        if !keys_contain(&self.keys_held, &key_code) {
            keys_insert(&mut self.keys_pressed, key_code.clone());
        }
        keys_insert(&mut self.keys_held, key_code);
    }

    /// Records a key release: the key is no longer held and counts as
    /// released this frame.
    pub fn release_key(&mut self, key_code: String)
        ensures
            final(self)@ == key_released_model(old(self)@, key_code@),
    {
        keys_remove(&mut self.keys_held, &key_code);
        keys_insert(&mut self.keys_released, key_code);
    }

    /// Whether the key was pressed during this frame.
    pub fn is_key_pressed(&self, key_code: &str) -> (r: bool)
        ensures
            r == self@.keys_pressed.contains(key_code@),
    {
        keys_contain(&self.keys_pressed, &key_code.to_owned())
    }

    /// Whether the key is held down.
    pub fn is_key_held(&self, key_code: &str) -> (r: bool)
        ensures
            r == self@.keys_held.contains(key_code@),
    {
        keys_contain(&self.keys_held, &key_code.to_owned())
    }

    /// Whether the key was released during this frame.
    pub fn is_key_released(&self, key_code: &str) -> (r: bool)
        ensures
            r == self@.keys_released.contains(key_code@),
    {
        keys_contain(&self.keys_released, &key_code.to_owned())
    }

    /// Records a mouse button press at a position: the button is held,
    /// counts as pressed this frame unless it was already held, and the
    /// pointer is at `position`.
    pub fn press_mouse_button(&mut self, button: MouseButton, position: ClientPoint)
        ensures
            final(self)@ == button_pressed_model(old(self)@, button, position),
    {
        if !list_contains(&self.mouse_buttons_held, button) {
            list_insert(&mut self.mouse_buttons_pressed, button);
        }
        list_insert(&mut self.mouse_buttons_held, button);
        self.mouse_position = position;
    }

    /// Records a mouse button release.
    pub fn release_mouse_button(&mut self, button: MouseButton)
        ensures
            final(self)@ == button_released_model(old(self)@, button),
    {
        list_remove(&mut self.mouse_buttons_held, button);
        list_insert(&mut self.mouse_buttons_released, button);
    }

    /// Moves the pointer to `position`, recording the movement from the
    /// previous position.
    pub fn update_mouse_position(&mut self, position: ClientPoint)
        ensures
            final(self)@ == (InputModel {
                mouse_delta: ClientDelta {
                    dx: (position.x - old(self)@.mouse_position.x) as i64,
                    dy: (position.y - old(self)@.mouse_position.y) as i64,
                },
                mouse_position: position,
                mouse_moved: true,
                ..old(self)@
            }),
    {
        let dx: i64 = position.x as i64 - self.mouse_position.x as i64;
        let dy: i64 = position.y as i64 - self.mouse_position.y as i64;
        self.mouse_delta = ClientDelta { dx, dy };
        self.mouse_position = position;
        self.mouse_moved = true;
    }

    /// The pointer left the target: it no longer counts as moving.
    pub fn leave_pointer(&mut self)
        ensures
            final(self)@ == (InputModel { mouse_moved: false, mouse_delta: no_delta(), ..old(self)@ }),
    {
        self.mouse_moved = false;
        self.mouse_delta = ClientDelta { dx: 0, dy: 0 };
    }

    /// Whether the button was pressed during this frame.
    pub fn is_mouse_button_pressed(&self, button: MouseButton) -> (r: bool)
        ensures
            r == self@.buttons_pressed.contains(button),
    {
        list_contains(&self.mouse_buttons_pressed, button)
    }

    /// Whether the button is held down.
    pub fn is_mouse_button_held(&self, button: MouseButton) -> (r: bool)
        ensures
            r == self@.buttons_held.contains(button),
    {
        list_contains(&self.mouse_buttons_held, button)
    }

    /// Adds a touch point or moves an existing one.
    pub fn update_touch(&mut self, identifier: i32, position: ClientPoint)
        ensures
            final(self)@ == (InputModel {
                touches: old(self)@.touches.insert(identifier, position),
                ..old(self)@
            }),
    {
        self.touch_points.insert(identifier, position);
    }

    /// Records a touch that started this frame at a position.
    pub fn start_touch(&mut self, identifier: i32, position: ClientPoint)
        ensures
            final(self)@ == touch_started_model(old(self)@, identifier, position),
    {
        self.update_touch(identifier, position);
        self.touch_started.insert(identifier);
    }

    /// Removes a touch point and records that it ended this frame.
    pub fn end_touch(&mut self, identifier: i32)
        ensures
            final(self)@ == touch_ended_model(old(self)@, identifier),
    {
        self.touch_points.remove(&identifier);
        self.touch_ended.insert(identifier);
    }

    /// The position of the active touch with the lowest identifier, or
    /// `None` when no touch is active.
    pub fn primary_touch_position(&self) -> (r: Option<ClientPoint>)
        ensures
            r is None <==> self@.touches.is_empty(),
            r matches Some(p) ==> exists|id: i32| #[trigger] self@.touches.contains_key(id)
                && self@.touches[id] == p && forall|other: i32|
                #[trigger] self@.touches.contains_key(other) ==> id <= other,
    {
        let ghost m = self.touch_points@;
        let ghost v = spec_hash_map_iter(&self.touch_points).remaining();
        let mut best: Option<(i32, ClientPoint)> = None;
        let ghost mut count: int = 0;
        for item in it: self.touch_points.iter()
            invariant
                m == self.touch_points@,
                it.seq() == v,
                count == it.index(),
                best is None <==> count == 0,
                best matches Some(b) ==> m.contains_key(b.0) && m[b.0] == b.1,
                best matches Some(b) ==> forall|k: int|
                    0 <= k < count ==> b.0 <= *(#[trigger] v[k]).0,
        {
            let (id, p) = item;
            match best {
                Some((best_id, _)) => {
                    if *id < best_id {
                        best = Some((*id, *p));
                    }
                },
                None => {
                    best = Some((*id, *p));
                },
            }
            proof {
                count = count + 1;
            }
        }
        match best {
            Some((best_id, best_point)) => {
                proof {
                    assert forall|other: i32| #[trigger] m.contains_key(other) implies best_id
                        <= other by {
                        assert(v.contains((&other, &m[other])));
                        let k = choose|k: int| 0 <= k < v.len() && v[k] == (&other, &m[other]);
                        assert(best_id <= *v[k].0);
                    }
                }
                Some(best_point)
            },
            None => None,
        }
    }

    /// Clears what lasts one frame: keys and buttons pressed and released,
    /// pointer movement, touches started and ended.
    pub fn end_frame(&mut self)
        ensures
            final(self)@ == frame_ended_model(old(self)@),
    {
        self.keys_pressed.clear();
        self.keys_released.clear();
        self.mouse_buttons_pressed.clear();
        self.mouse_buttons_released.clear();
        self.mouse_delta = ClientDelta { dx: 0, dy: 0 };
        self.mouse_moved = false;
        self.touch_started.clear();
        self.touch_ended.clear();
        assert(key_set(self.keys_pressed@) =~= Set::empty());
        assert(key_set(self.keys_released@) =~= Set::empty());
        assert(elem_set(self.mouse_buttons_pressed@) =~= Set::empty());
        assert(elem_set(self.mouse_buttons_released@) =~= Set::empty());
    }

    /// Applies an event from the page, as the listeners do: key events with
    /// an empty code are ignored; a list of touches is applied in order.
    pub fn apply_event(&mut self, event: InputEvent)
        ensures
            final(self)@ == event_model(old(self)@, event),
    {
        let ghost m0 = self@;
        match event {
            InputEvent::KeyDown(code) => {
                if !code.as_str().is_empty() {
                    self.press_key(code);
                }
            },
            InputEvent::KeyUp(code) => {
                if !code.as_str().is_empty() {
                    self.release_key(code);
                }
            },
            InputEvent::MouseDown(button, position) => self.press_mouse_button(button, position),
            InputEvent::MouseUp(button) => self.release_mouse_button(button),
            InputEvent::MouseMove(position) => self.update_mouse_position(position),
            InputEvent::MouseLeave => self.leave_pointer(),
            InputEvent::TouchStart(touches) => {
                let mut i: usize = 0;
                while i < touches.len()
                    invariant
                        i <= touches@.len(),
                        self@ == touches_started_model(m0, touches@.subrange(0, i as int)),
                    decreases touches@.len() - i,
                {
                    let (identifier, position) = touches[i];
                    self.start_touch(identifier, position);
                    assert(touches@.subrange(0, i + 1).drop_last() =~= touches@.subrange(0, i as int));
                    i = i + 1;
                }
                assert(touches@.subrange(0, i as int) =~= touches@);
            },
            InputEvent::TouchMove(touches) => {
                let mut i: usize = 0;
                while i < touches.len()
                    invariant
                        i <= touches@.len(),
                        self@ == touches_moved_model(m0, touches@.subrange(0, i as int)),
                    decreases touches@.len() - i,
                {
                    let (identifier, position) = touches[i];
                    self.update_touch(identifier, position);
                    assert(touches@.subrange(0, i + 1).drop_last() =~= touches@.subrange(0, i as int));
                    i = i + 1;
                }
                assert(touches@.subrange(0, i as int) =~= touches@);
            },
            InputEvent::TouchEnd(identifiers) => {
                let mut i: usize = 0;
                while i < identifiers.len()
                    invariant
                        i <= identifiers@.len(),
                        self@ == touches_ended_model(m0, identifiers@.subrange(0, i as int)),
                    decreases identifiers@.len() - i,
                {
                    self.end_touch(identifiers[i]);
                    assert(identifiers@.subrange(0, i + 1).drop_last() =~= identifiers@.subrange(
                        0,
                        i as int,
                    ));
                    i = i + 1;
                }
                assert(identifiers@.subrange(0, i as int) =~= identifiers@);
            },
        }
    }
}

impl Default for InputState {
    /// A fresh state, as `InputState::new` gives it.
    fn default() -> (r: InputState)
        ensures
            r@.keys_pressed.is_empty(),
            r@.keys_held.is_empty(),
            r@.keys_released.is_empty(),
            r@.buttons_pressed.is_empty(),
            r@.buttons_held.is_empty(),
            r@.buttons_released.is_empty(),
            r@.mouse_position == (ClientPoint { x: 0, y: 0 }),
            r@.mouse_delta == no_delta(),
            !r@.mouse_moved,
            r@.touches.is_empty(),
            r@.touch_started.is_empty(),
            r@.touch_ended.is_empty(),
    {
        InputState::new()
    }
}


// ---------------------------------------------------------------------
// Laws
// ---------------------------------------------------------------------

/// A pressed key is held; it counts as pressed this frame unless it was
/// already held, so key repeat does not register as a new press.
pub proof fn law_key_press(m: InputModel, key: Seq<char>)
    ensures
        key_pressed_model(m, key).keys_held.contains(key),
        !m.keys_held.contains(key) ==> key_pressed_model(m, key).keys_pressed.contains(key),
        m.keys_held.contains(key) ==> key_pressed_model(m, key).keys_pressed == m.keys_pressed,
{
}

/// A key pressed and released within one frame is reported as pressed and
/// released, and is no longer held.
pub proof fn law_key_press_release_in_one_frame(m: InputModel, key: Seq<char>)
    requires
        !m.keys_held.contains(key),
    ensures
        key_released_model(key_pressed_model(m, key), key).keys_pressed.contains(key),
        key_released_model(key_pressed_model(m, key), key).keys_released.contains(key),
        !key_released_model(key_pressed_model(m, key), key).keys_held.contains(key),
{
}

/// The end of a frame forgets what was pressed and released during it and
/// keeps what is still held, including active touches.
pub proof fn law_end_frame_keeps_held(m: InputModel)
    ensures
        frame_ended_model(m).keys_pressed.is_empty(),
        frame_ended_model(m).keys_released.is_empty(),
        frame_ended_model(m).buttons_pressed.is_empty(),
        frame_ended_model(m).buttons_released.is_empty(),
        frame_ended_model(m).keys_held == m.keys_held,
        frame_ended_model(m).buttons_held == m.buttons_held,
        frame_ended_model(m).touches == m.touches,
        !frame_ended_model(m).mouse_moved,
{
}

/// A pressed button is held until it is released; releasing it reports it
/// released.
pub proof fn law_button_press_release(m: InputModel, b: MouseButton, p: ClientPoint)
    ensures
        button_pressed_model(m, b, p).buttons_held.contains(b),
        button_pressed_model(m, b, p).mouse_position == p,
        !button_released_model(button_pressed_model(m, b, p), b).buttons_held.contains(b),
        button_released_model(button_pressed_model(m, b, p), b).buttons_released.contains(b),
{
}

/// A touch that starts and ends leaves no active touch with its identifier,
/// and is reported both started and ended.
pub proof fn law_touch_start_end(m: InputModel, id: i32, p: ClientPoint)
    ensures
        touch_started_model(m, id, p).touches.contains_key(id),
        touch_started_model(m, id, p).touches[id] == p,
        !touch_ended_model(touch_started_model(m, id, p), id).touches.contains_key(id),
        touch_ended_model(touch_started_model(m, id, p), id).touch_started.contains(id),
        touch_ended_model(touch_started_model(m, id, p), id).touch_ended.contains(id),
{
}

proof fn lemma_touches_ended(m: InputModel, s: Seq<i32>)
    ensures
        forall|id: i32| #[trigger] touches_ended_model(m, s).touches.contains_key(id) <==> (
        m.touches.contains_key(id) && !s.contains(id)),
        forall|id: i32| #[trigger] touches_ended_model(m, s).touches.contains_key(id)
            ==> touches_ended_model(m, s).touches[id] == m.touches[id],
        forall|id: i32| #[trigger] touches_ended_model(m, s).touch_ended.contains(id) <==> (
        m.touch_ended.contains(id) || s.contains(id)),
    decreases s.len(),
{
    if s.len() > 0 {
        let t = s.drop_last();
        lemma_touches_ended(m, t);
        let r = touches_ended_model(m, t);
        let n = touches_ended_model(m, s);
        assert(n == touch_ended_model(r, s.last()));
        assert forall|id: i32| s.contains(id) <==> (t.contains(id) || id == s.last()) by {
            if s.contains(id) {
                let i = choose|i: int| 0 <= i < s.len() && s[i] == id;
                if i < t.len() {
                    assert(t[i] == id);
                }
            }
            if t.contains(id) {
                let i = choose|i: int| 0 <= i < t.len() && t[i] == id;
                assert(s[i] == id);
            }
            if id == s.last() {
                assert(s[s.len() - 1] == id);
            }
        }
        assert forall|id: i32| #[trigger] n.touches.contains_key(id) <==> (m.touches.contains_key(id)
            && !s.contains(id)) by {
            assert(r.touches.contains_key(id) <==> (m.touches.contains_key(id) && !t.contains(id)));
        }
        assert forall|id: i32| #[trigger] n.touches.contains_key(id) implies n.touches[id]
            == m.touches[id] by {
            assert(r.touches.contains_key(id));
        }
        assert forall|id: i32| #[trigger] n.touch_ended.contains(id) <==> (m.touch_ended.contains(id)
            || s.contains(id)) by {
            assert(r.touch_ended.contains(id) <==> (m.touch_ended.contains(id) || t.contains(id)));
        }
    }
}

/// The list of touches holds identifier `id`.
pub open spec fn lists_id(s: Seq<(i32, ClientPoint)>, id: i32) -> bool {
    exists|i: int| 0 <= i < s.len() && (#[trigger] s[i]).0 == id
}

proof fn lemma_touches_started(m: InputModel, s: Seq<(i32, ClientPoint)>)
    ensures
        forall|id: i32| #[trigger] touches_started_model(m, s).touches.contains_key(id) <==> (
        m.touches.contains_key(id) || lists_id(s, id)),
        forall|id: i32| #[trigger] touches_started_model(m, s).touch_started.contains(id) <==> (
        m.touch_started.contains(id) || lists_id(s, id)),
        forall|id: i32| !lists_id(s, id) && m.touches.contains_key(id) ==> #[trigger] touches_started_model(m, s).touches[id]
            == m.touches[id],
    decreases s.len(),
{
    if s.len() > 0 {
        let t = s.drop_last();
        lemma_touches_started(m, t);
        let r = touches_started_model(m, t);
        let n = touches_started_model(m, s);
        assert(n == touch_started_model(r, s.last().0, s.last().1));
        assert forall|id: i32| #[trigger] lists_id(s, id) <==> (lists_id(t, id) || id == s.last().0) by {
            if lists_id(s, id) {
                let i = choose|i: int| 0 <= i < s.len() && (#[trigger] s[i]).0 == id;
                if i < t.len() {
                    assert(t[i].0 == id);
                }
            }
            if lists_id(t, id) {
                let i = choose|i: int| 0 <= i < t.len() && (#[trigger] t[i]).0 == id;
                assert(s[i].0 == id);
            }
            if id == s.last().0 {
                assert(s[s.len() - 1].0 == id);
            }
        }
        assert forall|id: i32| #[trigger] n.touches.contains_key(id) <==> (m.touches.contains_key(id)
            || lists_id(s, id)) by {
            assert(r.touches.contains_key(id) <==> (m.touches.contains_key(id) || lists_id(t, id)));
            assert(lists_id(s, id) <==> (lists_id(t, id) || id == s.last().0));
        }
        assert forall|id: i32| #[trigger] n.touch_started.contains(id) <==> (
        m.touch_started.contains(id) || lists_id(s, id)) by {
            assert(r.touch_started.contains(id) <==> (m.touch_started.contains(id) || lists_id(t, id)));
            assert(lists_id(s, id) <==> (lists_id(t, id) || id == s.last().0));
        }
        assert forall|id: i32| !lists_id(s, id) && m.touches.contains_key(id) implies #[trigger] n.touches[id]
            == m.touches[id] by {
            assert(lists_id(s, id) <==> (lists_id(t, id) || id == s.last().0));
            assert(r.touches[id] == m.touches[id]);
        }
    }
}

/// A touch-end event ends every touch it lists: none of them stays active,
/// each is reported ended, and every other touch keeps its position.
pub proof fn law_touch_end_event(m: InputModel, ids: Vec<i32>)
    ensures
        forall|i: int| 0 <= i < ids@.len() ==> !event_model(m, InputEvent::TouchEnd(ids)).touches.contains_key(
            #[trigger] ids@[i],
        ) && event_model(m, InputEvent::TouchEnd(ids)).touch_ended.contains(ids@[i]),
        forall|id: i32| !ids@.contains(id) && m.touches.contains_key(id) ==> #[trigger] event_model(
            m,
            InputEvent::TouchEnd(ids),
        ).touches.contains_key(id) && event_model(m, InputEvent::TouchEnd(ids)).touches[id]
            == m.touches[id],
        forall|id: i32| #[trigger] event_model(m, InputEvent::TouchEnd(ids)).touch_ended.contains(id)
            ==> m.touch_ended.contains(id) || ids@.contains(id),
{
    lemma_touches_ended(m, ids@);
    assert forall|i: int| 0 <= i < ids@.len() implies ids@.contains(#[trigger] ids@[i]) by {}
}

/// A touch-start event starts every touch it lists: each is active and
/// reported started, and every touch it does not list keeps its position.
pub proof fn law_touch_start_event(m: InputModel, touches: Vec<(i32, ClientPoint)>)
    ensures
        forall|i: int| 0 <= i < touches@.len() ==> event_model(m, InputEvent::TouchStart(touches)).touches.contains_key(
            (#[trigger] touches@[i]).0,
        ) && event_model(m, InputEvent::TouchStart(touches)).touch_started.contains(touches@[i].0),
        forall|id: i32| !lists_id(touches@, id) && m.touches.contains_key(id) ==> #[trigger] event_model(
            m,
            InputEvent::TouchStart(touches),
        ).touches[id] == m.touches[id],
{
    lemma_touches_started(m, touches@);
    assert forall|i: int| 0 <= i < touches@.len() implies lists_id(touches@, (#[trigger] touches@[i]).0) by {}
}

} // verus!
