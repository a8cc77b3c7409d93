//! Input state: keys, mouse buttons, modifiers and the input context.
//!
//! Keys are identified by their names; positions and scroll amounts are
//! `f32` bit patterns, carried and compared but never computed with.
use vstd::prelude::*;
use crate::text::{owned, text_eq, texts, texts_contain};

verus! {

/// Who receives input: the editor or the running game.
#[derive(Clone, Copy, Debug, PartialEq, Eq, Structural)]
pub enum InputContext {
    EngineUI,
    Game,
}

/// A mouse button.
#[derive(Clone, Copy, Debug, PartialEq, Eq, Structural)]
pub enum PointerButton {
    Primary,
    Secondary,
    Middle,
}

/// The modifier keys held.
#[derive(Clone, Copy, Debug, PartialEq, Eq, Structural)]
pub struct Modifiers {
    pub alt: bool,
    pub ctrl: bool,
    pub shift: bool,
    pub command: bool,
}

/// One frame's raw input.
pub struct InputFrame {
    /// The names of the keys down, in any order, possibly repeated.
    pub keys_down: Vec<String>,
    /// Where the pointer hovers, if over the window.
    pub hover_pos: Option<(u32, u32)>,
    pub primary_down: bool,
    pub secondary_down: bool,
    pub middle_down: bool,
    pub raw_scroll_delta: (u32, u32),
    pub modifiers: Modifiers,
}

#[derive(Debug)]
pub struct InputHandler {
    context: InputContext,
    keys_pressed: Vec<String>,
    keys_just_pressed: Vec<String>,
    mouse_buttons: Vec<PointerButton>,
    mouse_pos: (u32, u32),
    prev_mouse_pos: (u32, u32),
    scroll_delta: (u32, u32),
    modifiers: Modifiers,
}

pub struct InputView {
    pub context: InputContext,
    pub keys_pressed: Set<Seq<char>>,
    pub keys_just_pressed: Set<Seq<char>>,
    pub mouse_buttons: Seq<PointerButton>,
    pub mouse_pos: (u32, u32),
    pub prev_mouse_pos: (u32, u32),
    pub scroll_delta: (u32, u32),
    pub modifiers: Modifiers,
}

impl View for InputHandler {
    type V = InputView;

    closed spec fn view(&self) -> InputView {
        InputView {
            context: self.context,
            keys_pressed: texts(self.keys_pressed@).to_set(),
            keys_just_pressed: texts(self.keys_just_pressed@).to_set(),
            mouse_buttons: self.mouse_buttons@,
            mouse_pos: self.mouse_pos,
            prev_mouse_pos: self.prev_mouse_pos,
            scroll_delta: self.scroll_delta,
            modifiers: self.modifiers,
        }
    }
}

/// The buttons held in a frame, in the order middle, primary, secondary.
pub open spec fn buttons_held(f: InputFrame) -> Seq<PointerButton> {
    let a = if f.middle_down { seq![PointerButton::Middle] } else { Seq::empty() };
    let b = if f.primary_down { seq![PointerButton::Primary] } else { Seq::empty() };
    let c = if f.secondary_down { seq![PointerButton::Secondary] } else { Seq::empty() };
    a + b + c
}

impl InputView {
    /// The input state after a frame: the keys down now, those of them that
    /// were not down before, the pointer (kept where it was when it left the
    /// window), the buttons, the scroll and the modifiers.
    pub open spec fn after(self, f: InputFrame) -> InputView {
        InputView {
            context: self.context,
            keys_pressed: texts(f.keys_down@).to_set(),
            keys_just_pressed: texts(f.keys_down@).to_set().difference(self.keys_pressed),
            mouse_buttons: buttons_held(f),
            mouse_pos: match f.hover_pos {
                Some(p) => p,
                None => self.mouse_pos,
            },
            prev_mouse_pos: self.mouse_pos,
            scroll_delta: f.raw_scroll_delta,
            modifiers: f.modifiers,
        }
    }
}

/// The `f32` with these bits is 0.0 or -0.0.
pub open spec fn is_zero_bits(b: u32) -> bool {
    b & 0x7fff_ffffu32 == 0
}

/// The text of a button, as its name.
pub open spec fn button_name(b: PointerButton) -> Seq<char> {
    match b {
        PointerButton::Primary => "Primary"@,
        PointerButton::Secondary => "Secondary"@,
        PointerButton::Middle => "Middle"@,
    }
}

/// The names of the modifiers held, in the order Ctrl, Shift, Alt, Cmd.
pub open spec fn modifier_names(m: Modifiers) -> Seq<Seq<char>> {
    (if m.ctrl { seq!["Ctrl"@] } else { Seq::empty() }) + (if m.shift { seq!["Shift"@] } else { Seq::empty() })
        + (if m.alt { seq!["Alt"@] } else { Seq::empty() }) + (if m.command { seq!["Cmd"@] } else { Seq::empty() })
}

impl InputHandler {
    /// Editor input, nothing held, pointer at the origin.
    pub fn new() -> (r: Self)
        ensures
            r@.context == InputContext::EngineUI,
            r@.keys_pressed.len() == 0,
            r@.keys_just_pressed.len() == 0,
            r@.mouse_buttons.len() == 0,
            r@.mouse_pos == (0u32, 0u32),
            r@.prev_mouse_pos == (0u32, 0u32),
            r@.scroll_delta == (0u32, 0u32),
            r@.modifiers == (Modifiers { alt: false, ctrl: false, shift: false, command: false }),
    {
        let r = InputHandler {
            context: InputContext::EngineUI,
            keys_pressed: Vec::new(),
            keys_just_pressed: Vec::new(),
            mouse_buttons: Vec::new(),
            mouse_pos: (0, 0),
            prev_mouse_pos: (0, 0),
            scroll_delta: (0, 0),
            modifiers: Modifiers { alt: false, ctrl: false, shift: false, command: false },
        };
        assert(texts(r.keys_pressed@).to_set() =~= Set::<Seq<char>>::empty());
        assert(texts(r.keys_just_pressed@).to_set() =~= Set::<Seq<char>>::empty());
        r
    }

    pub fn get_context(&self) -> (r: InputContext)
        ensures
            r == self@.context,
    {
        self.context
    }

    pub fn set_context(&mut self, context: InputContext)
        ensures
            final(self)@ == (InputView { context, ..old(self)@ }),
    {
        self.context = context;
    }

    /// Takes in one frame's input.
    pub fn handle_input(&mut self, input: &InputFrame)
        ensures
            final(self)@ == old(self)@.after(*input),
    {
        self.modifiers = input.modifiers;
        let ghost old_keys = texts(self.keys_pressed@).to_set();
        let mut pressed: Vec<String> = Vec::new();
        let mut just: Vec<String> = Vec::new();
        let mut i: usize = 0;
        let ghost kd = texts(input.keys_down@);
        while i < input.keys_down.len()
            invariant
                i <= input.keys_down.len(),
                kd == texts(input.keys_down@),
                old_keys == texts(self.keys_pressed@).to_set(),
                texts(pressed@).to_set() == kd.take(i as int).to_set(),
                texts(just@).to_set() == kd.take(i as int).to_set().difference(old_keys),
            decreases input.keys_down.len() - i,
        {
            let k = &input.keys_down[i];
            let ghost pb = texts(pressed@);
            let ghost jb = texts(just@);
            proof {
                assert(kd.take(i + 1) =~= kd.take(i as int).push(k@));
                kd.take(i as int).lemma_push_to_set_commute(k@);
            }
            if !texts_contain(&pressed, k.as_str()) {
                pressed.push(k.clone());
                proof {
                    assert(texts(pressed@) =~= pb.push(k@));
                    pb.lemma_push_to_set_commute(k@);
                }
            } else {
                assert(texts(pressed@).to_set() =~= pb.to_set().insert(k@));
            }
            if !texts_contain(&self.keys_pressed, k.as_str()) && !texts_contain(&just, k.as_str()) {
                just.push(k.clone());
                proof {
                    assert(texts(just@) =~= jb.push(k@));
                    jb.lemma_push_to_set_commute(k@);
                    assert(texts(just@).to_set() =~= kd.take(i + 1).to_set().difference(old_keys));
                }
            } else {
                proof {
                    assert(texts(just@).to_set() =~= kd.take(i + 1).to_set().difference(old_keys));
                }
            }
            i = i + 1;
        }
        proof {
            assert(kd.take(i as int) =~= kd);
        }
        self.keys_pressed = pressed;
        self.keys_just_pressed = just;
        self.prev_mouse_pos = self.mouse_pos;
        self.mouse_pos = match input.hover_pos {
            Some(p) => p,
            None => self.mouse_pos,
        };
        let mut buttons: Vec<PointerButton> = Vec::new();
        if input.middle_down {
            buttons.push(PointerButton::Middle);
        }
        if input.primary_down {
            buttons.push(PointerButton::Primary);
        }
        if input.secondary_down {
            buttons.push(PointerButton::Secondary);
        }
        assert(buttons@ =~= buttons_held(*input));
        self.mouse_buttons = buttons;
        self.scroll_delta = input.raw_scroll_delta;
    }

    pub fn is_key_pressed(&self, key: &str) -> (r: bool)
        ensures
            r == self@.keys_pressed.contains(key@),
    {
        texts_contain(&self.keys_pressed, key)
    }

    pub fn is_key_just_pressed(&self, key: &str) -> (r: bool)
        ensures
            r == self@.keys_just_pressed.contains(key@),
    {
        texts_contain(&self.keys_just_pressed, key)
    }

    pub fn is_mouse_button_pressed(&self, button: PointerButton) -> (r: bool)
        ensures
            r == self@.mouse_buttons.contains(button),
    {
        let mut i: usize = 0;
        while i < self.mouse_buttons.len()
            invariant
                i <= self.mouse_buttons.len(),
                forall|j: int| 0 <= j < i ==> self.mouse_buttons@[j] != button,
            decreases self.mouse_buttons.len() - i,
        {
            if self.mouse_buttons[i] == button {
                return true;
            }
            i = i + 1;
        }
        false
    }

    /// The pointer position (`f32` bits).
    pub fn get_mouse_pos(&self) -> (r: (u32, u32))
        ensures
            r == self@.mouse_pos,
    {
        self.mouse_pos
    }

    /// The pointer position of the frame before (`f32` bits).
    pub fn get_prev_mouse_pos(&self) -> (r: (u32, u32))
        ensures
            r == self@.prev_mouse_pos,
    {
        self.prev_mouse_pos
    }

    /// The scroll of this frame, unless it is zero on both axes.
    pub fn get_scroll_delta(&self) -> (r: Option<(u32, u32)>)
        ensures
            match r {
                Some(d) => d == self@.scroll_delta && !(is_zero_bits(d.0) && is_zero_bits(d.1)),
                None => is_zero_bits(self@.scroll_delta.0) && is_zero_bits(self@.scroll_delta.1),
            },
    {
        if (self.scroll_delta.0 & 0x7fff_ffff) != 0 || (self.scroll_delta.1 & 0x7fff_ffff) != 0 {
            Some(self.scroll_delta)
        } else {
            None
        }
    }

    /// Every active input by name: the modifiers (Ctrl, Shift, Alt, Cmd), the
    /// keys held, then the mouse buttons held.
    pub fn get_all_active_inputs(&self) -> (r: Vec<String>)
        ensures
            texts(r@) == modifier_names(self@.modifiers) + texts(self.keys_pressed_list())
                + self@.mouse_buttons.map_values(|b: PointerButton| button_name(b)),
            texts(self.keys_pressed_list()).to_set() == self@.keys_pressed,
    {
        let mut all: Vec<String> = Vec::new();
        if self.modifiers.ctrl {
            all.push(owned("Ctrl"));
        }
        if self.modifiers.shift {
            all.push(owned("Shift"));
        }
        if self.modifiers.alt {
            all.push(owned("Alt"));
        }
        if self.modifiers.command {
            all.push(owned("Cmd"));
        }
        let ghost mods = texts(all@);
        assert(mods =~= modifier_names(self.modifiers));
        let mut i: usize = 0;
        while i < self.keys_pressed.len()
            invariant
                i <= self.keys_pressed.len(),
                texts(all@) == mods + texts(self.keys_pressed@).take(i as int),
            decreases self.keys_pressed.len() - i,
        {
            let ghost before = texts(all@);
            all.push(self.keys_pressed[i].clone());
            assert(texts(all@) =~= before.push(self.keys_pressed@[i as int]@));
            assert(texts(self.keys_pressed@).take(i + 1) =~= texts(self.keys_pressed@).take(i as int).push(self.keys_pressed@[i as int]@));
            i = i + 1;
        }
        assert(texts(self.keys_pressed@).take(i as int) =~= texts(self.keys_pressed@));
        let ghost with_keys = texts(all@);
        let mut j: usize = 0;
        while j < self.mouse_buttons.len()
            invariant
                j <= self.mouse_buttons.len(),
                texts(all@) == with_keys + self.mouse_buttons@.take(j as int).map_values(|b: PointerButton| button_name(b)),
            decreases self.mouse_buttons.len() - j,
        {
            let ghost before = texts(all@);
            let name = match self.mouse_buttons[j] {
                PointerButton::Primary => owned("Primary"),
                PointerButton::Secondary => owned("Secondary"),
                PointerButton::Middle => owned("Middle"),
            };
            all.push(name);
            assert(texts(all@) =~= before.push(name@));
            assert(self.mouse_buttons@.take(j + 1).map_values(|b: PointerButton| button_name(b))
                =~= self.mouse_buttons@.take(j as int).map_values(|b: PointerButton| button_name(b)).push(name@));
            j = j + 1;
        }
        assert(self.mouse_buttons@.take(j as int) =~= self.mouse_buttons@);
        all
    }

    /// The keys held, in the order they were recorded.
    pub closed spec fn keys_pressed_list(&self) -> Seq<String> {
        self.keys_pressed@
    }
}

/// Reads a mouse button name as scripts give it ("left", "right" or
/// "middle", in any case).
pub fn parse_mouse_button(name: &str) -> (r: Result<PointerButton, String>)
    ensures
        match r {
            Ok(b) => (b == PointerButton::Primary && crate::project::unicode_lowercase(name@) == "left"@)
                || (b == PointerButton::Secondary && crate::project::unicode_lowercase(name@) == "right"@)
                || (b == PointerButton::Middle && crate::project::unicode_lowercase(name@) == "middle"@),
            Err(e) => crate::project::unicode_lowercase(name@) != "left"@
                && crate::project::unicode_lowercase(name@) != "right"@
                && crate::project::unicode_lowercase(name@) != "middle"@
                && e@ == "Invalid mouse button '"@ + crate::project::unicode_lowercase(name@)
                    + "' (expected \"left\", \"right\" or \"middle\")"@,
        },
{
    let lower = crate::project::lowercase_text(name);
    if text_eq(lower.as_str(), "left") {
        Ok(PointerButton::Primary)
    } else if text_eq(lower.as_str(), "right") {
        Ok(PointerButton::Secondary)
    } else if text_eq(lower.as_str(), "middle") {
        Ok(PointerButton::Middle)
    } else {
        Err(crate::text::joined3("Invalid mouse button '", lower.as_str(), "' (expected \"left\", \"right\" or \"middle\")"))
    }
}

/// Key presses carried from one frame to the next: a key held in two frames
/// in a row is not "just pressed" in the second.
pub proof fn law_held_key_not_just_pressed(v: InputView, f1: InputFrame, f2: InputFrame, k: Seq<char>)
    requires
        texts(f1.keys_down@).contains(k),
        texts(f2.keys_down@).contains(k),
    ensures
        v.after(f1).after(f2).keys_pressed.contains(k),
        !v.after(f1).after(f2).keys_just_pressed.contains(k),
{
}

/// A key down now and not before is "just pressed".
pub proof fn law_new_key_just_pressed(v: InputView, f: InputFrame, k: Seq<char>)
    requires
        texts(f.keys_down@).contains(k),
        !v.keys_pressed.contains(k),
    ensures
        v.after(f).keys_just_pressed.contains(k),
{
}

/// After a frame, a mouse button is held exactly when the frame has it
/// down, each button counted once.
pub proof fn law_buttons_follow_the_frame(v: InputView, f: InputFrame)
    ensures
        v.after(f).mouse_buttons.contains(PointerButton::Primary) == f.primary_down,
        v.after(f).mouse_buttons.contains(PointerButton::Secondary) == f.secondary_down,
        v.after(f).mouse_buttons.contains(PointerButton::Middle) == f.middle_down,
        v.after(f).mouse_buttons.no_duplicates(),
{
    let a = if f.middle_down { seq![PointerButton::Middle] } else { Seq::empty() };
    let b = if f.primary_down { seq![PointerButton::Primary] } else { Seq::empty() };
    let c = if f.secondary_down { seq![PointerButton::Secondary] } else { Seq::empty() };
    let s = v.after(f).mouse_buttons;
    assert(s == a + b + c);
    let ab = a + b;
    assert forall|k: int| 0 <= k < s.len() implies
        (s[k] == PointerButton::Middle ==> f.middle_down)
        && (s[k] == PointerButton::Primary ==> f.primary_down)
        && (s[k] == PointerButton::Secondary ==> f.secondary_down)
        && (s[k] == PointerButton::Middle ==> k == 0)
        && (s[k] == PointerButton::Primary ==> k == a.len())
        && (s[k] == PointerButton::Secondary ==> k == ab.len()) by {
        if k < a.len() {
            assert(s[k] == a[k]);
        } else if k < ab.len() {
            assert(s[k] == b[k - a.len()]);
        } else {
            assert(s[k] == c[k - ab.len()]);
        }
    }
    if f.middle_down {
        assert(s[0] == PointerButton::Middle);
    }
    if f.primary_down {
        assert(s[a.len() as int] == PointerButton::Primary);
    }
    if f.secondary_down {
        assert(s[ab.len() as int] == PointerButton::Secondary);
    }
}

/// After a frame the pointer is where the frame saw it hover, or where it
/// was when it left the window; the previous position is the one before the
/// frame; the scroll and the modifiers are the frame's; the context stays.
pub proof fn law_pointer_follows_the_frame(v: InputView, f: InputFrame, p: (u32, u32))
    ensures
        f.hover_pos == Some(p) ==> v.after(f).mouse_pos == p,
        f.hover_pos is None ==> v.after(f).mouse_pos == v.mouse_pos,
        v.after(f).prev_mouse_pos == v.mouse_pos,
        v.after(f).scroll_delta == f.raw_scroll_delta,
        v.after(f).modifiers == f.modifiers,
        v.after(f).context == v.context,
{
}

} // verus!
