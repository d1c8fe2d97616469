use vstd::prelude::*;
use crate::geometry::{Vec2, Vec3, UNIT, coord_ok};

verus! {

/// The actions a key can be bound to.
#[derive(Clone, Copy, Debug, PartialEq, Eq, Structural, Hash)]
pub enum InputKey {
    MoveLeft,
    MoveRight,
    MoveUp,
    MoveDown,
    SailLeft,
    SailRight,
    SailForward,
    SailBackward,
    SailNorth,
    SailSouth,
    UseTool,
    SwitchTool,
    EatFood,
    CollectItem,
    OpenInventory,
    OpenCrafting,
    CraftItem,
    QuickItem1,
    QuickItem2,
    QuickItem3,
    QuickItem4,
    QuickItem5,
    QuickItem6,
    QuickItem7,
    QuickItem8,
    QuickItem9,
    QuickItem0,
    CameraZoomIn,
    CameraZoomOut,
}

/// The key bound to `action` in `s`: the last entry for it, if any.
pub open spec fn bound_key(s: Seq<(String, String)>, action: Seq<char>) -> Option<Seq<char>>
    decreases s.len(),
{
    if s.len() == 0 {
        None
    } else if s.last().0@ == action {
        Some(s.last().1@)
    } else {
        bound_key(s.drop_last(), action)
    }
}

/// Entries past `m` do not bind `a`, so the binding lies in the first `m`.
proof fn lemma_bound_prefix(s: Seq<(String, String)>, a: Seq<char>, m: int)
    requires
        0 <= m <= s.len(),
        forall|j: int| m <= j < s.len() ==> (#[trigger] s[j]).0@ != a,
    ensures
        bound_key(s, a) == bound_key(s.take(m), a),
    decreases s.len(),
{
    if s.len() == m {
        assert(s.take(m) =~= s);
    } else {
        assert(s.drop_last().take(m) =~= s.take(m));
        lemma_bound_prefix(s.drop_last(), a, m);
    }
}

/// Rebinding the last entry for `a` to `k` binds `a` to `k` and leaves other actions alone.
proof fn lemma_bound_update(s: Seq<(String, String)>, i: int, e: (String, String), b: Seq<char>)
    requires
        0 <= i < s.len(),
        e.0@ == s[i].0@,
        forall|j: int| i < j < s.len() ==> (#[trigger] s[j]).0@ != s[i].0@,
    ensures
        b == s[i].0@ ==> bound_key(s.update(i, e), b) == Some(e.1@),
        b != s[i].0@ ==> bound_key(s.update(i, e), b) == bound_key(s, b),
    decreases s.len(),
{
    let u = s.update(i, e);
    if i == s.len() - 1 {
        assert(u.drop_last() =~= s.drop_last());
    } else {
        assert(u.drop_last() =~= s.drop_last().update(i, e));
        lemma_bound_update(s.drop_last(), i, e, b);
    }
}

/// Which key each action is bound to, and the bindings it started with.
pub struct InputMapping {
    key_bindings: Vec<(String, String)>,
    default_bindings: Vec<(String, String)>,
}

impl InputMapping {
    pub closed spec fn current(&self) -> Seq<(String, String)> {
        self.key_bindings@
    }

    pub closed spec fn defaults(&self) -> Seq<(String, String)> {
        self.default_bindings@
    }

    /// The key bound to `action` now.
    pub open spec fn binding(&self, action: Seq<char>) -> Option<Seq<char>> {
        bound_key(self.current(), action)
    }

    /// The key bound to `action` at first.
    pub open spec fn default_binding(&self, action: Seq<char>) -> Option<Seq<char>> {
        bound_key(self.defaults(), action)
    }

    /// The standard bindings: movement on WASD, sailing on IJKL, Q and E,
    /// tools on the left mouse button and E, and F, G, I, C for eating,
    /// collecting, inventory and crafting.
    pub fn new() -> (r: InputMapping)
        ensures
            forall|a: Seq<char>| #[trigger] r.binding(a) == r.default_binding(a),
    {
        let mut d: Vec<(String, String)> = Vec::new();
        d.push(("move_left".to_owned(), "A".to_owned()));
        d.push(("move_right".to_owned(), "D".to_owned()));
        d.push(("move_up".to_owned(), "W".to_owned()));
        d.push(("move_down".to_owned(), "S".to_owned()));
        d.push(("sail_left".to_owned(), "J".to_owned()));
        d.push(("sail_right".to_owned(), "L".to_owned()));
        d.push(("sail_forward".to_owned(), "I".to_owned()));
        d.push(("sail_backward".to_owned(), "K".to_owned()));
        d.push(("sail_north".to_owned(), "Q".to_owned()));
        d.push(("sail_south".to_owned(), "E".to_owned()));
        d.push(("use_tool".to_owned(), "MOUSE_LEFT".to_owned()));
        d.push(("switch_tool".to_owned(), "E".to_owned()));
        d.push(("eat_food".to_owned(), "F".to_owned()));
        d.push(("collect_item".to_owned(), "G".to_owned()));
        d.push(("open_inventory".to_owned(), "I".to_owned()));
        d.push(("open_crafting".to_owned(), "C".to_owned()));
        let current = copy_bindings(&d);
        let r = InputMapping { key_bindings: current, default_bindings: d };
        proof {
            assert forall|a: Seq<char>| #[trigger] r.binding(a) == r.default_binding(a) by {
                lemma_same_views(r.current(), r.defaults(), a);
            }
        }
        r
    }

    /// The key bound to `action`, if any.
    pub fn get_key_binding(&self, action: &str) -> (r: Option<&String>)
        ensures
            match r {
                Some(k) => self.binding(action@) == Some(k@),
                None => self.binding(action@).is_none(),
            },
    {
        match find_binding(&self.key_bindings, action) {
            Some(i) => Some(&self.key_bindings[i].1),
            None => None,
        }
    }

    /// Binds `action` to `key`.
    pub fn set_key_binding(&mut self, action: &str, key: &str)
        ensures
            final(self).binding(action@) == Some(key@),
            forall|b: Seq<char>| b != action@ ==> #[trigger] final(self).binding(b) == old(self).binding(b),
            final(self).defaults() == old(self).defaults(),
    {
        let entry = (action.to_owned(), key.to_owned());
        match find_binding(&self.key_bindings, action) {
            Some(i) => {
                let ghost s = self.key_bindings@;
                self.key_bindings.set(i, entry);
                proof {
                    assert forall|b: Seq<char>| true implies {
                        &&& b == s[i as int].0@ ==> bound_key(s.update(i as int, entry), b) == Some(entry.1@)
                        &&& b != s[i as int].0@ ==> bound_key(s.update(i as int, entry), b) == bound_key(s, b)
                    } by {
                        lemma_bound_update(s, i as int, entry, b);
                    }
                }
            },
            None => {
                let ghost s = self.key_bindings@;
                self.key_bindings.push(entry);
                proof {
                    assert(self.key_bindings@.drop_last() =~= s);
                }
            },
        }
    }

    /// Binds `action` back to its first key; an action that had none keeps what it has.
    pub fn reset_key_binding(&mut self, action: &str)
        ensures
            old(self).default_binding(action@).is_some() ==> final(self).binding(action@) == old(self).default_binding(action@),
            old(self).default_binding(action@).is_none() ==> final(self).binding(action@) == old(self).binding(action@),
            forall|b: Seq<char>| b != action@ ==> #[trigger] final(self).binding(b) == old(self).binding(b),
            final(self).defaults() == old(self).defaults(),
    {
        match find_binding(&self.default_bindings, action) {
            Some(i) => {
                let key = self.default_bindings[i].1.clone();
                self.set_key_binding(action, key.as_str());
            },
            None => {},
        }
    }

    /// Binds every action back to its first key.
    pub fn reset_all_key_bindings(&mut self)
        ensures
            forall|a: Seq<char>| #[trigger] final(self).binding(a) == old(self).default_binding(a),
            final(self).defaults() == old(self).defaults(),
    {
        self.key_bindings = copy_bindings(&self.default_bindings);
        proof {
            assert forall|a: Seq<char>| #[trigger] self.binding(a) == old(self).default_binding(a) by {
                lemma_same_views(self.current(), self.defaults(), a);
            }
        }
    }

    /// All current bindings, one entry per binding made.
    pub fn get_all_key_bindings(&self) -> (r: &Vec<(String, String)>)
        ensures
            r@ == self.current(),
    {
        &self.key_bindings
    }
}

/// Two binding lists with the same texts bind alike.
proof fn lemma_same_views(s: Seq<(String, String)>, t: Seq<(String, String)>, a: Seq<char>)
    requires
        s.len() == t.len(),
        forall|j: int| 0 <= j < s.len() ==> (#[trigger] s[j]).0@ == t[j].0@ && s[j].1@ == t[j].1@,
    ensures
        bound_key(s, a) == bound_key(t, a),
    decreases s.len(),
{
    if s.len() > 0 {
        lemma_same_views(s.drop_last(), t.drop_last(), a);
    }
}

/// A copy of `v`, text for text.
fn copy_bindings(v: &Vec<(String, String)>) -> (r: Vec<(String, String)>)
    ensures
        r@.len() == v@.len(),
        forall|j: int| 0 <= j < v@.len() ==> (#[trigger] r@[j]).0@ == v@[j].0@ && r@[j].1@ == v@[j].1@,
{
    let mut r: Vec<(String, String)> = Vec::new();
    let mut i: usize = 0;
    while i < v.len()
        invariant
            i <= v@.len(),
            r@.len() == i,
            forall|j: int| 0 <= j < i ==> (#[trigger] r@[j]).0@ == v@[j].0@ && r@[j].1@ == v@[j].1@,
        decreases v@.len() - i,
    {
        let a = v[i].0.clone();
        let k = v[i].1.clone();
        r.push((a, k));
        i += 1;
    }
    r
}

/// The index of the last entry of `v` for `action`.
fn find_binding(v: &Vec<(String, String)>, action: &str) -> (r: Option<usize>)
    ensures
        match r {
            Some(i) => {
                &&& i < v@.len()
                &&& v@[i as int].0@ == action@
                &&& forall|j: int| i < j < v@.len() ==> (#[trigger] v@[j]).0@ != action@
                &&& bound_key(v@, action@) == Some(v@[i as int].1@)
            },
            None => bound_key(v@, action@).is_none(),
        },
{
    let wanted = action.to_owned();
    let mut i: usize = v.len();
    while i > 0
        invariant
            i <= v@.len(),
            wanted@ == action@,
            forall|j: int| i <= j < v@.len() ==> (#[trigger] v@[j]).0@ != action@,
        decreases i,
    {
        if v[i - 1].0 == wanted {
            proof {
                lemma_bound_prefix(v@, action@, i as int);
                assert(v@.take(i as int).last() == v@[i - 1]);
            }
            return Some(i - 1);
        }
        i -= 1;
    }
    proof {
        lemma_bound_prefix(v@, action@, 0);
        assert(v@.take(0).len() == 0);
    }
    None
}

/// The controls as read on one frame.
#[derive(Clone, Copy, Debug, PartialEq, Eq, Structural)]
pub struct InputState {
    pub move_left: bool,
    pub move_right: bool,
    pub move_up: bool,
    pub move_down: bool,
    pub sail_left: bool,
    pub sail_right: bool,
    pub sail_forward: bool,
    pub sail_backward: bool,
    pub sail_north: bool,
    pub sail_south: bool,
    pub use_tool: bool,
    pub switch_tool: bool,
    pub eat_food: bool,
    pub collect_item: bool,
    pub dive: bool,
    pub open_inventory: bool,
    pub open_crafting: bool,
    /// Pointer position on screen, in thousandths of a unit.
    pub mouse_pos: Vec2,
    pub mouse_left_pressed: bool,
    pub mouse_left_held: bool,
    pub mouse_right_pressed: bool,
    pub camera_zoom_in: bool,
    pub camera_zoom_out: bool,
    pub craft_item: bool,
    pub quick_item_1: bool,
    pub quick_item_2: bool,
    pub quick_item_3: bool,
    pub quick_item_4: bool,
    pub quick_item_5: bool,
    pub quick_item_6: bool,
    pub quick_item_7: bool,
    pub quick_item_8: bool,
    pub quick_item_9: bool,
    pub quick_item_0: bool,
}

/// Nothing pressed, the pointer at the origin.
pub open spec fn released_state() -> InputState {
    InputState {
        move_left: false,
        move_right: false,
        move_up: false,
        move_down: false,
        sail_left: false,
        sail_right: false,
        sail_forward: false,
        sail_backward: false,
        sail_north: false,
        sail_south: false,
        use_tool: false,
        switch_tool: false,
        eat_food: false,
        collect_item: false,
        dive: false,
        open_inventory: false,
        open_crafting: false,
        mouse_pos: Vec2 { x: 0, y: 0 },
        mouse_left_pressed: false,
        mouse_left_held: false,
        mouse_right_pressed: false,
        camera_zoom_in: false,
        camera_zoom_out: false,
        craft_item: false,
        quick_item_1: false,
        quick_item_2: false,
        quick_item_3: false,
        quick_item_4: false,
        quick_item_5: false,
        quick_item_6: false,
        quick_item_7: false,
        quick_item_8: false,
        quick_item_9: false,
        quick_item_0: false,
    }
}

impl Default for InputState {
    fn default() -> (r: InputState)
        ensures
            r == released_state(),
    {
        InputState {
            move_left: false,
            move_right: false,
            move_up: false,
            move_down: false,
            sail_left: false,
            sail_right: false,
            sail_forward: false,
            sail_backward: false,
            sail_north: false,
            sail_south: false,
            use_tool: false,
            switch_tool: false,
            eat_food: false,
            collect_item: false,
            dive: false,
            open_inventory: false,
            open_crafting: false,
            mouse_pos: Vec2 { x: 0, y: 0 },
            mouse_left_pressed: false,
            mouse_left_held: false,
            mouse_right_pressed: false,
            camera_zoom_in: false,
            camera_zoom_out: false,
            craft_item: false,
            quick_item_1: false,
            quick_item_2: false,
            quick_item_3: false,
            quick_item_4: false,
            quick_item_5: false,
            quick_item_6: false,
            quick_item_7: false,
            quick_item_8: false,
            quick_item_9: false,
            quick_item_0: false,
        }
    }
}

/// Whether the control for `key` is down in `s`.
pub open spec fn key_down(s: InputState, key: InputKey) -> bool {
    match key {
        InputKey::MoveLeft => s.move_left,
        InputKey::MoveRight => s.move_right,
        InputKey::MoveUp => s.move_up,
        InputKey::MoveDown => s.move_down,
        InputKey::SailLeft => s.sail_left,
        InputKey::SailRight => s.sail_right,
        InputKey::SailForward => s.sail_forward,
        InputKey::SailBackward => s.sail_backward,
        InputKey::SailNorth => s.sail_north,
        InputKey::SailSouth => s.sail_south,
        InputKey::UseTool => s.use_tool,
        InputKey::SwitchTool => s.switch_tool,
        InputKey::EatFood => s.eat_food,
        InputKey::CollectItem => s.collect_item,
        InputKey::OpenInventory => s.open_inventory,
        InputKey::OpenCrafting => s.open_crafting,
        InputKey::CraftItem => s.craft_item,
        InputKey::QuickItem1 => s.quick_item_1,
        InputKey::QuickItem2 => s.quick_item_2,
        InputKey::QuickItem3 => s.quick_item_3,
        InputKey::QuickItem4 => s.quick_item_4,
        InputKey::QuickItem5 => s.quick_item_5,
        InputKey::QuickItem6 => s.quick_item_6,
        InputKey::QuickItem7 => s.quick_item_7,
        InputKey::QuickItem8 => s.quick_item_8,
        InputKey::QuickItem9 => s.quick_item_9,
        InputKey::QuickItem0 => s.quick_item_0,
        InputKey::CameraZoomIn => s.camera_zoom_in,
        InputKey::CameraZoomOut => s.camera_zoom_out,
    }
}

/// Whether `key` counts as just pressed going from `prev` to `cur`: a
/// movement or sailing key on the frame it goes down, an action key as the
/// frame reports it.
pub open spec fn key_edge(prev: InputState, cur: InputState, key: InputKey) -> bool {
    match key {
        InputKey::MoveLeft => !prev.move_left && cur.move_left,
        InputKey::MoveRight => !prev.move_right && cur.move_right,
        InputKey::MoveUp => !prev.move_up && cur.move_up,
        InputKey::MoveDown => !prev.move_down && cur.move_down,
        InputKey::SailLeft => !prev.sail_left && cur.sail_left,
        InputKey::SailRight => !prev.sail_right && cur.sail_right,
        InputKey::SailForward => !prev.sail_forward && cur.sail_forward,
        InputKey::SailBackward => !prev.sail_backward && cur.sail_backward,
        InputKey::SailNorth => !prev.sail_north && cur.sail_north,
        InputKey::SailSouth => !prev.sail_south && cur.sail_south,
        InputKey::UseTool => cur.use_tool,
        InputKey::SwitchTool => cur.switch_tool,
        InputKey::EatFood => cur.eat_food,
        InputKey::CollectItem => cur.collect_item,
        InputKey::OpenInventory => cur.open_inventory,
        InputKey::OpenCrafting => cur.open_crafting,
        InputKey::CraftItem => cur.craft_item,
        InputKey::QuickItem1 => cur.quick_item_1,
        InputKey::QuickItem2 => cur.quick_item_2,
        InputKey::QuickItem3 => cur.quick_item_3,
        InputKey::QuickItem4 => cur.quick_item_4,
        InputKey::QuickItem5 => cur.quick_item_5,
        InputKey::QuickItem6 => cur.quick_item_6,
        InputKey::QuickItem7 => cur.quick_item_7,
        InputKey::QuickItem8 => cur.quick_item_8,
        InputKey::QuickItem9 => cur.quick_item_9,
        InputKey::QuickItem0 => cur.quick_item_0,
        InputKey::CameraZoomIn => cur.camera_zoom_in,
        InputKey::CameraZoomOut => cur.camera_zoom_out,
    }
}

/// The sailing controls held on one frame.
#[derive(Clone, Copy, Debug, PartialEq, Eq, Structural)]
pub struct SailingInput {
    pub left: bool,
    pub right: bool,
    pub forward: bool,
    pub backward: bool,
    pub north: bool,
    pub south: bool,
}

/// The controls of this frame and the last, and the key bindings.
pub struct InputSystem {
    input_mapping: InputMapping,
    current_input_state: InputState,
    previous_input_state: InputState,
}

impl InputSystem {
    pub closed spec fn current(&self) -> InputState {
        self.current_input_state
    }

    pub closed spec fn previous(&self) -> InputState {
        self.previous_input_state
    }

    pub fn new() -> (r: InputSystem)
        ensures
            r.current() == released_state(),
            r.previous() == released_state(),
    {
        InputSystem {
            input_mapping: InputMapping::new(),
            current_input_state: InputState::default(),
            previous_input_state: InputState::default(),
        }
    }

    /// Moves on to the next frame, whose controls read `polled`.
    pub fn update(&mut self, polled: InputState)
        ensures
            final(self).previous() == old(self).current(),
            final(self).current() == polled,
    {
        self.previous_input_state = self.current_input_state;
        self.current_input_state = polled;
    }

    pub fn get_input_state(&self) -> (r: &InputState)
        ensures
            *r == self.current(),
    {
        &self.current_input_state
    }

    /// Whether `key` was just pressed.
    pub fn is_key_just_pressed(&self, key: InputKey) -> (r: bool)
        ensures
            r == key_edge(self.previous(), self.current(), key),
    {
        let p = &self.previous_input_state;
        let c = &self.current_input_state;
        match key {
            InputKey::MoveLeft => !p.move_left && c.move_left,
            InputKey::MoveRight => !p.move_right && c.move_right,
            InputKey::MoveUp => !p.move_up && c.move_up,
            InputKey::MoveDown => !p.move_down && c.move_down,
            InputKey::SailLeft => !p.sail_left && c.sail_left,
            InputKey::SailRight => !p.sail_right && c.sail_right,
            InputKey::SailForward => !p.sail_forward && c.sail_forward,
            InputKey::SailBackward => !p.sail_backward && c.sail_backward,
            InputKey::SailNorth => !p.sail_north && c.sail_north,
            InputKey::SailSouth => !p.sail_south && c.sail_south,
            InputKey::UseTool => c.use_tool,
            InputKey::SwitchTool => c.switch_tool,
            InputKey::EatFood => c.eat_food,
            InputKey::CollectItem => c.collect_item,
            InputKey::OpenInventory => c.open_inventory,
            InputKey::OpenCrafting => c.open_crafting,
            InputKey::CraftItem => c.craft_item,
            InputKey::QuickItem1 => c.quick_item_1,
            InputKey::QuickItem2 => c.quick_item_2,
            InputKey::QuickItem3 => c.quick_item_3,
            InputKey::QuickItem4 => c.quick_item_4,
            InputKey::QuickItem5 => c.quick_item_5,
            InputKey::QuickItem6 => c.quick_item_6,
            InputKey::QuickItem7 => c.quick_item_7,
            InputKey::QuickItem8 => c.quick_item_8,
            InputKey::QuickItem9 => c.quick_item_9,
            InputKey::QuickItem0 => c.quick_item_0,
            InputKey::CameraZoomIn => c.camera_zoom_in,
            InputKey::CameraZoomOut => c.camera_zoom_out,
        }
    }

    /// Whether `key` is down.
    pub fn is_key_pressed(&self, key: InputKey) -> (r: bool)
        ensures
            r == key_down(self.current(), key),
    {
        let s = &self.current_input_state;
        match key {
            InputKey::MoveLeft => s.move_left,
            InputKey::MoveRight => s.move_right,
            InputKey::MoveUp => s.move_up,
            InputKey::MoveDown => s.move_down,
            InputKey::SailLeft => s.sail_left,
            InputKey::SailRight => s.sail_right,
            InputKey::SailForward => s.sail_forward,
            InputKey::SailBackward => s.sail_backward,
            InputKey::SailNorth => s.sail_north,
            InputKey::SailSouth => s.sail_south,
            InputKey::UseTool => s.use_tool,
            InputKey::SwitchTool => s.switch_tool,
            InputKey::EatFood => s.eat_food,
            InputKey::CollectItem => s.collect_item,
            InputKey::OpenInventory => s.open_inventory,
            InputKey::OpenCrafting => s.open_crafting,
            InputKey::CraftItem => s.craft_item,
            InputKey::QuickItem1 => s.quick_item_1,
            InputKey::QuickItem2 => s.quick_item_2,
            InputKey::QuickItem3 => s.quick_item_3,
            InputKey::QuickItem4 => s.quick_item_4,
            InputKey::QuickItem5 => s.quick_item_5,
            InputKey::QuickItem6 => s.quick_item_6,
            InputKey::QuickItem7 => s.quick_item_7,
            InputKey::QuickItem8 => s.quick_item_8,
            InputKey::QuickItem9 => s.quick_item_9,
            InputKey::QuickItem0 => s.quick_item_0,
            InputKey::CameraZoomIn => s.camera_zoom_in,
            InputKey::CameraZoomOut => s.camera_zoom_out,
        }
    }

    /// One unit along each axis whose movement key is down (diagonals are not
    /// shortened); screen y grows downwards.
    pub fn get_movement_vector(&self) -> (r: Vec3)
        ensures
            r.x == (if self.current().move_right { UNIT } else { 0 }) - (if self.current().move_left { UNIT } else { 0 }),
            r.y == (if self.current().move_down { UNIT } else { 0 }) - (if self.current().move_up { UNIT } else { 0 }),
            r.z == 0,
    {
        let s = &self.current_input_state;
        let mut m = Vec3::zero();
        if s.move_left {
            m.x = m.x - UNIT;
        }
        if s.move_right {
            m.x = m.x + UNIT;
        }
        if s.move_up {
            m.y = m.y - UNIT;
        }
        if s.move_down {
            m.y = m.y + UNIT;
        }
        m
    }

    pub fn get_sailing_input(&self) -> (r: SailingInput)
        ensures
            r == (SailingInput {
                left: self.current().sail_left,
                right: self.current().sail_right,
                forward: self.current().sail_forward,
                backward: self.current().sail_backward,
                north: self.current().sail_north,
                south: self.current().sail_south,
            }),
    {
        let s = &self.current_input_state;
        SailingInput {
            left: s.sail_left,
            right: s.sail_right,
            forward: s.sail_forward,
            backward: s.sail_backward,
            north: s.sail_north,
            south: s.sail_south,
        }
    }

    /// The pointer in world coordinates, for a screen `screen_w` by
    /// `screen_h` units centred on `camera_pos`.
    pub fn get_world_mouse_position(&self, camera_pos: &Vec2, screen_w: u32, screen_h: u32) -> (r: Vec2)
        requires
            coord_ok(self.current().mouse_pos.x as int),
            coord_ok(self.current().mouse_pos.y as int),
            coord_ok(camera_pos.x as int),
            coord_ok(camera_pos.y as int),
        ensures
            r.x == self.current().mouse_pos.x - screen_w * 500 + camera_pos.x,
            r.y == self.current().mouse_pos.y - screen_h * 500 + camera_pos.y,
    {
        let m = self.current_input_state.mouse_pos;
        Vec2 {
            x: m.x - screen_w as i64 * 500 + camera_pos.x,
            y: m.y - screen_h as i64 * 500 + camera_pos.y,
        }
    }

    pub fn get_screen_mouse_position(&self) -> (r: Vec2)
        ensures
            r == self.current().mouse_pos,
    {
        self.current_input_state.mouse_pos
    }

    pub fn is_mouse_left_just_pressed(&self) -> (r: bool)
        ensures
            r == self.current().mouse_left_pressed,
    {
        self.current_input_state.mouse_left_pressed
    }

    pub fn is_mouse_left_held(&self) -> (r: bool)
        ensures
            r == self.current().mouse_left_held,
    {
        self.current_input_state.mouse_left_held
    }

    pub fn is_mouse_right_just_pressed(&self) -> (r: bool)
        ensures
            r == self.current().mouse_right_pressed,
    {
        self.current_input_state.mouse_right_pressed
    }
}

} // verus!
