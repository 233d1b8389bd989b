//! The binding data model shared by every device family: keys, macros, the
//! errors a binding can be refused with, and the byte-level helpers that the
//! family encoders build their frames from.

use vstd::prelude::*;

pub mod k884x;
pub mod k8890;

verus! {

/// The highest layer a binding may name; on the wire, layers count from one.
pub const MAX_LAYER: u8 = 15;

/// The number of rotary knobs a key may address.
pub const KNOB_COUNT: u8 = 3;

/// Why a binding was refused.
#[derive(Clone, Copy, Debug, PartialEq, Eq, Structural)]
pub enum BindError {
    /// The layer is above [`MAX_LAYER`].
    InvalidLayer,
    /// The key does not exist on the device family.
    InvalidKey,
    /// The keyboard macro holds more elements than the family can store.
    MacroTooLong,
    /// The device family cannot do what the binding asks for.
    UnsupportedFeature,
    /// A delay is longer than the device can wait.
    DelayOutOfRange,
    /// A mouse click names no button.
    MissingButtons,
}

/// What is done to a rotary knob.
#[derive(Clone, Copy, Debug, PartialEq, Eq, Structural)]
pub enum KnobAction {
    RotateCCW,
    Press,
    RotateCW,
}

impl KnobAction {
    /// The position of the action among the three ids of one knob.
    pub open spec fn offset(self) -> int {
        match self {
            KnobAction::RotateCCW => 0,
            KnobAction::Press => 1,
            KnobAction::RotateCW => 2,
        }
    }

    /// Computes [`Self::offset`].
    pub fn offset_byte(self) -> (r: u8)
        ensures
            r == self.offset(),
    {
        match self {
            KnobAction::RotateCCW => 0,
            KnobAction::Press => 1,
            KnobAction::RotateCW => 2,
        }
    }
}

/// A physical key position: a push button, or one action of a rotary knob.
/// Buttons and knobs are both counted from zero.
#[derive(Clone, Copy, Debug, PartialEq, Eq, Structural)]
pub enum Key {
    Button(u8),
    Knob(u8, KnobAction),
}

impl Key {
    /// The id of the key on a device with `max` buttons, as an unbounded
    /// integer: buttons take `1..=max`, and each knob takes three consecutive
    /// ids after the buttons.
    pub open spec fn ordinal(self, max: u8) -> int {
        match self {
            Key::Button(n) => n + 1,
            Key::Knob(n, action) => max + 1 + 3 * n + action.offset(),
        }
    }

    /// Whether the key exists on a device with `max` buttons and its id fits
    /// in a byte.
    pub open spec fn mapped(self, max: u8) -> bool {
        match self {
            Key::Button(n) => n < max,
            Key::Knob(n, _) => n < KNOB_COUNT && self.ordinal(max) <= u8::MAX,
        }
    }

    /// The id that the device knows the key by, or `InvalidKey`.
    pub open spec fn key_id(self, max: u8) -> Result<u8, BindError> {
        if self.mapped(max) {
            Ok(self.ordinal(max) as u8)
        } else {
            Err(BindError::InvalidKey)
        }
    }

    /// Maps the key to its id on a device with `max` buttons.
    pub fn to_key_id(self, max: u8) -> (r: Result<u8, BindError>)
        ensures
            r == self.key_id(max),
    {
        match self {
            Key::Button(n) => {
                if n < max {
                    Ok(n + 1)
                } else {
                    Err(BindError::InvalidKey)
                }
            },
            Key::Knob(n, action) => {
                if n >= KNOB_COUNT {
                    return Err(BindError::InvalidKey);
                }
                let past_buttons: u16 = max as u16 + 1;
                let id: u16 = past_buttons + 3 * (n as u16) + action.offset_byte() as u16;
                if id <= 255 {
                    Ok(id as u8)
                } else {
                    Err(BindError::InvalidKey)
                }
            },
        }
    }
}

/// Keys that exist on a device have ids from one up, and no two of them
/// share an id.
pub proof fn lemma_key_ids_distinct(a: Key, b: Key, max: u8)
    requires
        a.mapped(max),
        b.mapped(max),
    ensures
        a.key_id(max).unwrap() >= 1,
        a.key_id(max) == b.key_id(max) ==> a == b,
        a is Button <==> a.key_id(max).unwrap() <= max,
{
}

/// The set of keyboard modifiers held during a key press, one bit each, in
/// the layout of the modifier byte of a keyboard report.
#[derive(Clone, Copy, Debug, PartialEq, Eq, Structural)]
pub struct Modifiers {
    pub bits: u8,
}

impl Modifiers {
    /// The byte that goes on the wire.
    pub fn as_u8(self) -> (r: u8)
        ensures
            r == self.bits,
    {
        self.bits
    }
}

/// One key press: the modifiers held, and the scan code of the key pressed
/// with them, if any.
#[derive(Clone, Copy, Debug, PartialEq, Eq, Structural)]
pub struct Accord {
    pub modifiers: Modifiers,
    pub code: Option<u8>,
}

impl Accord {
    /// The scan code on the wire, where zero stands for "no key".
    pub open spec fn code_byte(self) -> u8 {
        match self.code {
            Some(code) => code,
            None => 0,
        }
    }

    /// The two bytes an accord takes on the wire: modifiers, then scan code.
    pub open spec fn wire(self) -> (u8, u8) {
        (self.modifiers.bits, self.code_byte())
    }

    /// Computes [`Self::wire`].
    pub fn to_wire(self) -> (r: (u8, u8))
        ensures
            r == self.wire(),
    {
        let code = match self.code {
            Some(code) => code,
            None => 0,
        };
        (self.modifiers.as_u8(), code)
    }
}

/// One element of a keyboard macro.
#[derive(Clone, Copy, Debug, PartialEq, Eq, Structural)]
pub enum KeyboardPart {
    /// Press and release an accord.
    Key(Accord),
    /// Wait for that many milliseconds.
    Delay(u16),
}

/// The set of mouse buttons of a click, one bit each.
#[derive(Clone, Copy, Debug, PartialEq, Eq, Structural)]
pub struct MouseButtons {
    pub bits: u8,
}

impl MouseButtons {
    /// Whether the set names no button.
    pub open spec fn empty(self) -> bool {
        self.bits == 0
    }

    /// Computes [`Self::empty`].
    pub fn is_empty(self) -> (r: bool)
        ensures
            r == self.empty(),
    {
        self.bits == 0
    }

    /// The byte that goes on the wire.
    pub fn as_u8(self) -> (r: u8)
        ensures
            r == self.bits,
    {
        self.bits
    }
}

/// The keyboard modifier held during a mouse action.
#[derive(Clone, Copy, Debug, PartialEq, Eq, Structural)]
pub enum MouseModifier {
    Ctrl,
    Shift,
    Alt,
}

impl MouseModifier {
    /// The bit of the modifier in the modifier byte.
    pub open spec fn bit(self) -> u8 {
        match self {
            MouseModifier::Ctrl => 0x01,
            MouseModifier::Shift => 0x02,
            MouseModifier::Alt => 0x04,
        }
    }

    /// Computes [`Self::bit`].
    pub fn as_u8(self) -> (r: u8)
        ensures
            r == self.bit(),
    {
        match self {
            MouseModifier::Ctrl => 0x01,
            MouseModifier::Shift => 0x02,
            MouseModifier::Alt => 0x04,
        }
    }
}

/// What the mouse does.
#[derive(Clone, Copy, Debug, PartialEq, Eq, Structural)]
pub enum MouseAction {
    Click(MouseButtons),
    WheelUp,
    WheelDown,
    /// Move the pointer by `dx` to the right and `dy` down.
    Move { dx: i32, dy: i32 },
}

/// A mouse action, and the modifier held during it, if any.
#[derive(Clone, Copy, Debug, PartialEq, Eq, Structural)]
pub struct MouseEvent(pub MouseAction, pub Option<MouseModifier>);

impl MouseEvent {
    /// The modifier byte on the wire, where zero stands for "none".
    pub open spec fn modifier_byte(self) -> u8 {
        match self.1 {
            Some(modifier) => modifier.bit(),
            None => 0,
        }
    }

    /// Computes [`Self::modifier_byte`].
    pub fn to_modifier_byte(&self) -> (r: u8)
        ensures
            r == self.modifier_byte(),
    {
        match self.1 {
            Some(modifier) => modifier.as_u8(),
            None => 0,
        }
    }
}

/// What a key produces when it is pressed.
#[derive(Debug, PartialEq, Eq)]
pub enum Macro {
    /// A sequence of key presses. A delay, if there is one, comes first.
    Keyboard(Vec<KeyboardPart>),
    /// A consumer-control usage code.
    Media(u16),
    Mouse(MouseEvent),
}

/// A macro as a mathematical value: the elements of a keyboard macro are a
/// sequence.
pub enum MacroView {
    Keyboard(Seq<KeyboardPart>),
    Media(u16),
    Mouse(MouseEvent),
}

impl View for Macro {
    type V = MacroView;

    open spec fn view(&self) -> MacroView {
        match *self {
            Macro::Keyboard(parts) => MacroView::Keyboard(parts@),
            Macro::Media(code) => MacroView::Media(code),
            Macro::Mouse(event) => MacroView::Mouse(event),
        }
    }
}

impl Clone for Macro {
    fn clone(&self) -> (r: Self)
        ensures
            r@ == self@,
    {
        match self {
            Macro::Keyboard(parts) => {
                let copy = parts.clone();
                assert(copy@ =~= parts@);
                Macro::Keyboard(copy)
            },
            Macro::Media(code) => Macro::Media(*code),
            Macro::Mouse(event) => Macro::Mouse(*event),
        }
    }
}

impl MacroView {
    /// The byte that tells the device what kind of macro follows.
    pub open spec fn kind_byte(self) -> u8 {
        match self {
            MacroView::Keyboard(_) => 0,
            MacroView::Media(_) => 2,
            MacroView::Mouse(event) => match event.0 {
                MouseAction::Click(_) => 1,
                MouseAction::WheelUp => 3,
                MouseAction::WheelDown => 3,
                MouseAction::Move { .. } => 3,
            },
        }
    }
}

impl Macro {
    /// The byte that tells the device what kind of macro follows.
    pub fn kind(&self) -> (r: u8)
        ensures
            r == self@.kind_byte(),
    {
        match self {
            Macro::Keyboard(_) => 0,
            Macro::Media(_) => 2,
            Macro::Mouse(event) => match event.0 {
                MouseAction::Click(_) => 1,
                MouseAction::WheelUp => 3,
                MouseAction::WheelDown => 3,
                MouseAction::Move { .. } => 3,
            },
        }
    }
}

/// The low byte of a 16-bit value.
pub open spec fn low_byte(v: u16) -> u8 {
    (v % 256) as u8
}

/// The high byte of a 16-bit value.
pub open spec fn high_byte(v: u16) -> u8 {
    (v / 256) as u8
}

/// Splits a 16-bit value into its bytes, low byte first.
pub fn le_bytes(v: u16) -> (r: (u8, u8))
    ensures
        r.0 == low_byte(v),
        r.1 == high_byte(v),
        v == r.0 + 256 * r.1,
{
    ((v % 256) as u8, (v / 256) as u8)
}

/// The byte that holds the low eight bits of `v` in two's complement: `v`
/// itself from 0 to 255, and `v + 256` from -256 to -1.
pub open spec fn wrapped_byte(v: i32) -> u8 {
    (v % 256) as u8
}

/// Computes [`wrapped_byte`].
pub fn wrap_byte(v: i32) -> (r: u8)
    ensures
        r == wrapped_byte(v),
{
    let low: i32 = v & 0xff;
    assert(low == v % 256 && 0 <= low < 256) by (bit_vector)
        requires
            low == v & 0xff,
    ;
    low as u8
}

/// The wrapped byte is the two's complement of the value: a value from 0 to
/// 255 is sent as it is, one from -256 to -1 with 256 added, and any other
/// differs from its byte by a multiple of 256.
pub proof fn lemma_wrapped_byte(v: i32)
    ensures
        0 <= v <= 255 ==> wrapped_byte(v) == v,
        -256 <= v < 0 ==> wrapped_byte(v) == v + 256,
        (v - wrapped_byte(v)) % 256 == 0,
{
}

/// The frames an encoder has produced and nobody has written to the device
/// yet, oldest first.
pub struct Outbox {
    frames: Vec<Vec<u8>>,
}

impl View for Outbox {
    type V = Seq<Seq<u8>>;

    closed spec fn view(&self) -> Seq<Seq<u8>> {
        self.frames.deep_view()
    }
}

impl Outbox {
    /// An outbox with nothing in it.
    pub fn new() -> (r: Self)
        ensures
            r@ == Seq::<Seq<u8>>::empty(),
    {
        let r = Outbox { frames: Vec::new() };
        assert(r@ =~= Seq::<Seq<u8>>::empty());
        r
    }

    /// Puts `frame` behind the frames that wait already.
    pub fn push(&mut self, frame: Vec<u8>)
        ensures
            final(self)@ == old(self)@.push(frame@),
    {
        proof {
            assert(frame.deep_view() =~= frame@);
        }
        self.frames.push(frame);
        assert(self@ =~= old(self)@.push(frame@));
    }

    /// Hands out the waiting frames, oldest first, and leaves the outbox empty.
    pub fn take(&mut self) -> (r: Vec<Vec<u8>>)
        ensures
            r.deep_view() == old(self)@,
            final(self)@ == Seq::<Seq<u8>>::empty(),
    {
        let mut r: Vec<Vec<u8>> = Vec::new();
        core::mem::swap(&mut self.frames, &mut r);
        assert(self@ =~= Seq::<Seq<u8>>::empty());
        r
    }
}

/// The frame that closes a group of frames.
pub open spec fn finish_frame() -> Seq<u8> {
    seq![0x03u8, 0xaa, 0xaa, 0, 0, 0, 0, 0, 0]
}

/// Builds [`finish_frame`].
pub fn make_finish_frame() -> (r: Vec<u8>)
    ensures
        r@ == finish_frame(),
{
    let r: Vec<u8> = vec![0x03, 0xaa, 0xaa, 0, 0, 0, 0, 0, 0];
    assert(r@ =~= finish_frame());
    r
}

/// A device family. An implementation turns a binding into the frames that
/// program it and puts them into its outbox, in the order in which the device
/// must receive them.
pub trait Keyboard {
    /// The frames that wait to be written to the device, oldest first.
    spec fn queued(&self) -> Seq<Seq<u8>>;

    /// The interrupt endpoint that the frames are to be written to.
    spec fn endpoint(&self) -> u8;

    /// The endpoint that devices of the family listen on by default.
    spec fn default_endpoint() -> u8 where Self: Sized;

    /// The frames that a binding puts on the wire. Where the binding is
    /// refused, these are the frames written before the refusal.
    spec fn frames(&self, layer: u8, key: Key, expansion: MacroView) -> Seq<Seq<u8>>;

    /// Whether a binding is accepted, and the error it is refused with.
    spec fn outcome(&self, layer: u8, key: Key, expansion: MacroView) -> Result<(), BindError>;

    /// Makes `key` on `layer` produce `expansion`.
    fn bind_key(&mut self, layer: u8, key: Key, expansion: &Macro) -> (r: Result<(), BindError>)
        ensures
            r == old(self).outcome(layer, key, expansion@),
            final(self).queued() == old(self).queued() + old(self).frames(layer, key, expansion@),
            final(self).endpoint() == old(self).endpoint(),
    ;

    /// Lights the backlight in mode `n`. No family is known to have one.
    fn set_led(&mut self, n: u8) -> (r: Result<(), BindError>)
        ensures
            r == Err::<(), BindError>(BindError::UnsupportedFeature),
            final(self).queued() == old(self).queued(),
            final(self).endpoint() == old(self).endpoint(),
    ;

    /// The interrupt endpoint that the frames are to be written to.
    fn get_endpoint(&self) -> (r: u8)
        ensures
            r == self.endpoint(),
    ;

    /// The endpoint that devices of the family listen on by default.
    fn preferred_endpoint() -> (r: u8) where Self: Sized
        ensures
            r == Self::default_endpoint(),
    ;

    /// Hands out the waiting frames, oldest first, for the caller to write
    /// them to the device.
    fn take_frames(&mut self) -> (r: Vec<Vec<u8>>)
        ensures
            r.deep_view() == old(self).queued(),
            final(self).queued() == Seq::<Seq<u8>>::empty(),
            final(self).endpoint() == old(self).endpoint(),
    ;
}

} // verus!
