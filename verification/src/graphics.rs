//! The host side of display and keypad, as far as it is computed: which host
//! keys stand for which keys of the keypad, how key events change the keys
//! that are held down, and where the lit cells of the display go on a window.

use vstd::prelude::*;

verus! {

/// The sixteen keys of the keypad, each named after the host key that stands
/// for it.
#[derive(Clone, Copy, Debug, PartialEq, Eq, Structural)]
pub enum KeyMap {
    NumPad1,
    NumPad2,
    NumPad3,
    NumPad4,
    Q,
    W,
    E,
    R,
    A,
    S,
    D,
    F,
    Z,
    X,
    C,
    V,
}

/// A key of the host keyboard.
#[derive(Clone, Copy, Debug, PartialEq, Eq, Structural)]
pub enum Key {
    D1,
    D2,
    D3,
    D4,
    NumPad1,
    NumPad2,
    NumPad3,
    NumPad4,
    Q,
    W,
    E,
    R,
    A,
    S,
    D,
    F,
    Z,
    X,
    C,
    V,
    /// Any other key or button.
    Other,
}

/// What the window reported.
#[derive(Clone, Copy, Debug, PartialEq, Eq, Structural)]
pub enum InputEvent {
    /// A key went down.
    Press(Key),
    /// A key went up.
    Release(Key),
    /// Anything else.
    Other,
}

/// A square to fill on the window, in window coordinates.
#[derive(Clone, Copy, Debug, PartialEq, Eq, Structural)]
pub struct PixelRect {
    pub x: u32,
    pub y: u32,
    pub width: u32,
    pub height: u32,
}

impl KeyMap {
    /// The number of the key on the keypad, `0x0` to `0xF`.
    pub open spec fn code(self) -> u8 {
        match self {
            KeyMap::NumPad1 => 0x1,
            KeyMap::NumPad2 => 0x2,
            KeyMap::NumPad3 => 0x3,
            KeyMap::NumPad4 => 0xC,
            KeyMap::Q => 0x4,
            KeyMap::W => 0x5,
            KeyMap::E => 0x6,
            KeyMap::R => 0xD,
            KeyMap::A => 0x7,
            KeyMap::S => 0x8,
            KeyMap::D => 0x9,
            KeyMap::F => 0xE,
            KeyMap::Z => 0xA,
            KeyMap::X => 0x0,
            KeyMap::C => 0xB,
            KeyMap::V => 0xF,
        }
    }

    /// The keypad key that a letter key of the host stands for.
    pub open spec fn of_letter(key: Key) -> Option<KeyMap> {
        match key {
            Key::Q => Some(KeyMap::Q),
            Key::W => Some(KeyMap::W),
            Key::E => Some(KeyMap::E),
            Key::R => Some(KeyMap::R),
            Key::A => Some(KeyMap::A),
            Key::S => Some(KeyMap::S),
            Key::D => Some(KeyMap::D),
            Key::F => Some(KeyMap::F),
            Key::Z => Some(KeyMap::Z),
            Key::X => Some(KeyMap::X),
            Key::C => Some(KeyMap::C),
            Key::V => Some(KeyMap::V),
            _ => None,
        }
    }

    /// The keypad key that a host key stands for while keys are followed as
    /// they go down and up: the digits of the top row and the letters.
    pub open spec fn of_held(key: Key) -> Option<KeyMap> {
        match key {
            Key::D1 => Some(KeyMap::NumPad1),
            Key::D2 => Some(KeyMap::NumPad2),
            Key::D3 => Some(KeyMap::NumPad3),
            Key::D4 => Some(KeyMap::NumPad4),
            _ => KeyMap::of_letter(key),
        }
    }

    /// The keypad key that a host key stands for while the machine waits for
    /// a key press: the digits of the number pad and the letters.
    pub open spec fn of_awaited(key: Key) -> Option<KeyMap> {
        match key {
            Key::NumPad1 => Some(KeyMap::NumPad1),
            Key::NumPad2 => Some(KeyMap::NumPad2),
            Key::NumPad3 => Some(KeyMap::NumPad3),
            Key::NumPad4 => Some(KeyMap::NumPad4),
            _ => KeyMap::of_letter(key),
        }
    }

    /// The number of the key on the keypad.
    pub fn index(&self) -> (k: u8)
        ensures
            k == self.code(),
            k < 16,
    {
        match self {
            KeyMap::NumPad1 => 0x1,
            KeyMap::NumPad2 => 0x2,
            KeyMap::NumPad3 => 0x3,
            KeyMap::NumPad4 => 0xC,
            KeyMap::Q => 0x4,
            KeyMap::W => 0x5,
            KeyMap::E => 0x6,
            KeyMap::R => 0xD,
            KeyMap::A => 0x7,
            KeyMap::S => 0x8,
            KeyMap::D => 0x9,
            KeyMap::F => 0xE,
            KeyMap::Z => 0xA,
            KeyMap::X => 0x0,
            KeyMap::C => 0xB,
            KeyMap::V => 0xF,
        }
    }

    /// The keypad key that a letter key of the host stands for, if any.
    pub fn from_letter(key: Key) -> (mapped: Option<KeyMap>)
        ensures
            mapped == KeyMap::of_letter(key),
    {
        match key {
            Key::Q => Some(KeyMap::Q),
            Key::W => Some(KeyMap::W),
            Key::E => Some(KeyMap::E),
            Key::R => Some(KeyMap::R),
            Key::A => Some(KeyMap::A),
            Key::S => Some(KeyMap::S),
            Key::D => Some(KeyMap::D),
            Key::F => Some(KeyMap::F),
            Key::Z => Some(KeyMap::Z),
            Key::X => Some(KeyMap::X),
            Key::C => Some(KeyMap::C),
            Key::V => Some(KeyMap::V),
            _ => None,
        }
    }

    /// The keypad key that a host key stands for while keys are followed as
    /// they go down and up, if any.
    pub fn from_held(key: Key) -> (mapped: Option<KeyMap>)
        ensures
            mapped == KeyMap::of_held(key),
    {
        match key {
            Key::D1 => Some(KeyMap::NumPad1),
            Key::D2 => Some(KeyMap::NumPad2),
            Key::D3 => Some(KeyMap::NumPad3),
            Key::D4 => Some(KeyMap::NumPad4),
            _ => KeyMap::from_letter(key),
        }
    }

    /// The keypad key that a host key stands for while the machine waits for
    /// a key press, if any.
    pub fn from_awaited(key: Key) -> (mapped: Option<KeyMap>)
        ensures
            mapped == KeyMap::of_awaited(key),
    {
        match key {
            Key::NumPad1 => Some(KeyMap::NumPad1),
            Key::NumPad2 => Some(KeyMap::NumPad2),
            Key::NumPad3 => Some(KeyMap::NumPad3),
            Key::NumPad4 => Some(KeyMap::NumPad4),
            _ => KeyMap::from_letter(key),
        }
    }
}

/// The keys held down after an event: a mapped key that went down is held,
/// one that went up is not, and nothing else changes.
pub open spec fn latched(key: Seq<bool>, event: InputEvent) -> Seq<bool> {
    match event {
        InputEvent::Press(k) => match KeyMap::of_held(k) {
            Some(mapped) => key.update(mapped.code() as int, true),
            None => key,
        },
        InputEvent::Release(k) => match KeyMap::of_held(k) {
            Some(mapped) => key.update(mapped.code() as int, false),
            None => key,
        },
        InputEvent::Other => key,
    }
}

/// The keypad key whose press ends a wait for a key: that of a mapped key
/// that went down, and none for any other event.
pub open spec fn awaited(event: InputEvent) -> Option<u8> {
    match event {
        InputEvent::Press(k) => match KeyMap::of_awaited(k) {
            Some(mapped) => Some(mapped.code()),
            None => None,
        },
        _ => None,
    }
}

/// The geometry of the window that shows the display: its size in cells and
/// the size of one cell in window units.
pub struct Graphics {
    width: u32,
    height: u32,
    pixel_size: u32,
}

impl Graphics {
    /// What holds of every geometry: a row has cells, and the window fits
    /// the range of its coordinates.
    #[verifier::type_invariant]
    spec fn inv(self) -> bool {
        &&& self.width > 0
        &&& self.width * self.pixel_size <= u32::MAX
        &&& self.height * self.pixel_size <= u32::MAX
    }

    /// The number of cells in a row.
    pub closed spec fn width(self) -> int {
        self.width as int
    }

    /// The number of rows.
    pub closed spec fn height(self) -> int {
        self.height as int
    }

    /// The side of one cell on the window.
    pub closed spec fn pixel_size(self) -> int {
        self.pixel_size as int
    }

    /// The square that cell `idx` of the display fills on the window.
    pub open spec fn rect_of(self, idx: int) -> PixelRect {
        PixelRect {
            x: ((idx % self.width()) * self.pixel_size()) as u32,
            y: ((idx / self.width()) * self.pixel_size()) as u32,
            width: self.pixel_size() as u32,
            height: self.pixel_size() as u32,
        }
    }

    /// The squares of the cells of `gfx` that hold 1, in the order of the
    /// cells.
    pub open spec fn lit_rects(self, gfx: Seq<u8>) -> Seq<PixelRect>
        decreases gfx.len(),
    {
        if gfx.len() == 0 {
            Seq::empty()
        } else if gfx.last() == 1 {
            self.lit_rects(gfx.drop_last()).push(self.rect_of(gfx.len() - 1))
        } else {
            self.lit_rects(gfx.drop_last())
        }
    }

    /// The geometry of a window for a display of `width` by `height` cells,
    /// each cell ten window units wide and high.
    pub fn with_size(width: u32, height: u32) -> (graphics: Graphics)
        requires
            width > 0,
            width * 10 <= u32::MAX,
            height * 10 <= u32::MAX,
        ensures
            graphics.width() == width,
            graphics.height() == height,
            graphics.pixel_size() == 10,
    {
        Graphics { width, height, pixel_size: 10 }
    }

    /// The width and height of the window, in window units.
    pub fn window_size(&self) -> (size: [u32; 2])
        ensures
            size[0] == self.width() * self.pixel_size(),
            size[1] == self.height() * self.pixel_size(),
    {
        proof {
            use_type_invariant(self);
        }
        [self.width * self.pixel_size, self.height * self.pixel_size]
    }

    /// Follows an event of the window on the keys that are held down.
    pub fn set_keys(&self, event: &InputEvent, key: &mut [bool; 16])
        ensures
            final(key)@ == latched(old(key)@, *event),
    {
        match event {
            InputEvent::Press(k) => match KeyMap::from_held(*k) {
                Some(mapped) => {
                    key[mapped.index() as usize] = true;
                },
                None => {},
            },
            InputEvent::Release(k) => match KeyMap::from_held(*k) {
                Some(mapped) => {
                    key[mapped.index() as usize] = false;
                },
                None => {},
            },
            InputEvent::Other => {},
        }
    }

    /// Tells whether an event of the window ends a wait for a key, and with
    /// which key of the keypad.
    pub fn wait_key(&self, event: &InputEvent) -> (pressed: Option<u8>)
        ensures
            pressed == awaited(*event),
            pressed matches Some(k) ==> k < 16,
    {
        match event {
            InputEvent::Press(k) => match KeyMap::from_awaited(*k) {
                Some(mapped) => Some(mapped.index()),
                None => None,
            },
            _ => None,
        }
    }

    /// One synchronization: gives the squares to fill for the lit cells of
    /// the display `gfx`, and follows the event of the window on the keys
    /// that are held down.
    pub fn tick(&self, gfx: &[u8], key: &mut [bool; 16], event: &InputEvent) -> (rects: Vec<
        PixelRect,
    >)
        requires
            gfx@.len() == self.width() * self.height(),
        ensures
            rects@ == self.lit_rects(gfx@),
            final(key)@ == latched(old(key)@, *event),
    {
        proof {
            use_type_invariant(self);
        }
        let mut rects: Vec<PixelRect> = Vec::new();
        let mut idx: usize = 0;
        while idx < gfx.len()
            invariant
                idx <= gfx@.len(),
                gfx@.len() == self.width * self.height,
                self.width > 0,
                self.width * self.pixel_size <= u32::MAX,
                self.height * self.pixel_size <= u32::MAX,
                rects@ == self.lit_rects(gfx@.take(idx as int)),
            decreases gfx@.len() - idx,
        {
            let value: u8 = gfx[idx];
            proof {
                let w = self.width as int;
                let h = self.height as int;
                let p = self.pixel_size as int;
                let i = idx as int;
                assert(0 <= i % w < w && 0 <= i / w < h) by (nonlinear_arith)
                    requires
                        0 <= i < w * h,
                        w > 0,
                ;
                assert((i % w) * p <= w * p && (i / w) * p <= h * p) by (nonlinear_arith)
                    requires
                        0 <= i % w < w,
                        0 <= i / w < h,
                        p >= 0,
                ;
                assert(gfx@.take(idx + 1).drop_last() == gfx@.take(idx as int));
            }
            if value == 1 {
                let x_line: u32 = (idx as u64 % self.width as u64) as u32;
                let y_line: u32 = (idx as u64 / self.width as u64) as u32;
                rects.push(
                    PixelRect {
                        x: x_line * self.pixel_size,
                        y: y_line * self.pixel_size,
                        width: self.pixel_size,
                        height: self.pixel_size,
                    },
                );
            }
            idx += 1;
        }
        assert(gfx@.take(gfx@.len() as int) == gfx@);
        self.set_keys(event, key);
        rects
    }
}

} // verus!
