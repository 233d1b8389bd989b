//! The 884x family: a binding is one programming frame of variable length,
//! a delay frame where the macro starts with a delay, and three closing
//! frames.

use super::{
    finish_frame, high_byte, le_bytes, low_byte, make_finish_frame, BindError, Key, Keyboard,
    KeyboardPart, Macro, MacroView, MouseAction, Outbox, MAX_LAYER,
};
use vstd::prelude::*;

verus! {

/// The number of buttons of the largest device of the family.
pub const BUTTONS: u8 = 15;

/// The number of elements of the longest keyboard macro the family stores.
pub const MAX_PRESSES: usize = 18;

/// The longest delay the family can wait, in milliseconds.
pub const MAX_DELAY_MS: u16 = 6000;

/// The endpoint that devices of the family listen on by default.
pub const DEFAULT_ENDPOINT: u8 = 0x04;

/// The value of the kind byte that marks a delay frame.
pub const DELAY_KIND: u8 = 0x05;

/// Tells key presses from the other elements of a keyboard macro.
pub open spec fn is_press() -> spec_fn(KeyboardPart) -> bool {
    |part: KeyboardPart| part is Key
}

/// The bytes that one element of a keyboard macro adds to the programming
/// frame: modifiers and scan code for a key press, nothing for a delay.
pub open spec fn press_bytes() -> spec_fn(KeyboardPart) -> Seq<u8> {
    |part: KeyboardPart|
        match part {
            KeyboardPart::Key(accord) => seq![accord.wire().0, accord.wire().1],
            KeyboardPart::Delay(_) => Seq::<u8>::empty(),
        }
}

/// The number of key presses among `parts`.
pub open spec fn press_count(parts: Seq<KeyboardPart>) -> nat {
    parts.filter(is_press()).len()
}

/// What follows the ten header bytes of the programming frame.
pub open spec fn payload(expansion: MacroView) -> Seq<u8> {
    match expansion {
        MacroView::Keyboard(parts) => seq![press_count(parts) as u8] + parts.flat_map(press_bytes()),
        MacroView::Media(code) => seq![0u8, low_byte(code), high_byte(code), 0, 0, 0, 0],
        MacroView::Mouse(event) => match event.0 {
            MouseAction::Click(buttons) => seq![0x01u8, 0, buttons.bits],
            MouseAction::WheelUp => seq![0x03u8, event.modifier_byte(), 0, 0, 0, 0x01],
            MouseAction::WheelDown => seq![0x03u8, event.modifier_byte(), 0, 0, 0, 0xff],
            MouseAction::Move { .. } => Seq::<u8>::empty(),
        },
    }
}

/// The ten bytes that every programming frame starts with.
pub open spec fn header(key_id: u8, layer: u8, kind: u8) -> Seq<u8> {
    seq![0x03u8, 0xfe, key_id, (layer + 1) as u8, kind, 0, 0, 0, 0, 0]
}

/// The frame that programs the key: header and payload.
pub open spec fn program_frame(layer: u8, key: Key, expansion: MacroView) -> Seq<u8> {
    header(key.key_id(BUTTONS).unwrap(), layer, expansion.kind_byte()) + payload(expansion)
}

/// The frame that sets the delay of a macro: the programming frame with the
/// kind byte replaced and the delay written behind it, low byte first.
pub open spec fn delay_frame(program: Seq<u8>, ms: u16) -> Seq<u8> {
    program.update(4, DELAY_KIND).update(5, low_byte(ms)).update(6, high_byte(ms))
}

/// The three frames that close a binding.
pub open spec fn closing_frames() -> Seq<Seq<u8>> {
    seq![finish_frame(), seq![0x03u8, 0xfd, 0xfe, 0xff], finish_frame()]
}

/// The delay that a keyboard macro starts with, if it starts with one.
pub open spec fn leading_delay(expansion: MacroView) -> Option<u16> {
    match expansion {
        MacroView::Keyboard(parts) => if parts.len() > 0 {
            match parts[0] {
                KeyboardPart::Delay(ms) => Some(ms),
                KeyboardPart::Key(_) => None,
            }
        } else {
            None
        },
        _ => None,
    }
}

/// The error that refuses a binding before any frame is written, if there is
/// one. The layer is looked at first, then the key, then the macro.
pub open spec fn refusal(layer: u8, key: Key, expansion: MacroView) -> Option<BindError> {
    if layer > MAX_LAYER {
        Some(BindError::InvalidLayer)
    } else if key.key_id(BUTTONS) is Err {
        Some(BindError::InvalidKey)
    } else {
        match expansion {
            MacroView::Keyboard(parts) => if parts.len() > MAX_PRESSES {
                Some(BindError::MacroTooLong)
            } else {
                None
            },
            MacroView::Media(_) => None,
            MacroView::Mouse(event) => match event.0 {
                MouseAction::Click(buttons) => if buttons.empty() {
                    Some(BindError::MissingButtons)
                } else {
                    None
                },
                MouseAction::WheelUp => None,
                MouseAction::WheelDown => None,
                MouseAction::Move { .. } => Some(BindError::UnsupportedFeature),
            },
        }
    }
}

/// Whether a binding is accepted, and the error it is refused with. A delay
/// that is too long is found only after the programming frame is written.
pub open spec fn outcome(layer: u8, key: Key, expansion: MacroView) -> Result<(), BindError> {
    match refusal(layer, key, expansion) {
        Some(error) => Err(error),
        None => match leading_delay(expansion) {
            Some(ms) => if ms > MAX_DELAY_MS {
                Err(BindError::DelayOutOfRange)
            } else {
                Ok(())
            },
            None => Ok(()),
        },
    }
}

/// The frames that a binding puts on the wire, in order.
pub open spec fn frames(layer: u8, key: Key, expansion: MacroView) -> Seq<Seq<u8>> {
    let program = program_frame(layer, key, expansion);
    if refusal(layer, key, expansion) is Some {
        Seq::<Seq<u8>>::empty()
    } else {
        match leading_delay(expansion) {
            Some(ms) => if ms > MAX_DELAY_MS {
                seq![program]
            } else {
                seq![program, delay_frame(program, ms)] + closing_frames()
            },
            None => seq![program] + closing_frames(),
        }
    }
}

/// A layer above the last is refused before anything is written.
pub proof fn lemma_layer_out_of_range(layer: u8, key: Key, expansion: MacroView)
    requires
        layer > MAX_LAYER,
    ensures
        outcome(layer, key, expansion) == Err::<(), BindError>(BindError::InvalidLayer),
        frames(layer, key, expansion) == Seq::<Seq<u8>>::empty(),
{
}

/// Layers count from one on the wire: whenever a binding writes anything, the
/// fourth byte of the programming frame is the layer plus one, and so is that
/// of the delay frame where there is one.
pub proof fn lemma_layer_on_wire(layer: u8, key: Key, expansion: MacroView)
    requires
        layer <= MAX_LAYER,
    ensures
        frames(layer, key, expansion).len() > 0 ==> frames(layer, key, expansion)[0][3] == layer
            + 1,
        frames(layer, key, expansion).len() == 5 ==> frames(layer, key, expansion)[1][3] == layer
            + 1,
{
}

/// A keyboard macro is too long exactly when it has more than eighteen
/// elements, whatever they are.
pub proof fn lemma_macro_length_limit(layer: u8, key: Key, expansion: MacroView)
    requires
        layer <= MAX_LAYER,
        key.key_id(BUTTONS) is Ok,
        expansion is Keyboard,
    ensures
        expansion->Keyboard_0.len() > MAX_PRESSES <==> outcome(layer, key, expansion) == Err::<
            (),
            BindError,
        >(BindError::MacroTooLong),
        expansion->Keyboard_0.len() <= MAX_PRESSES && leading_delay(expansion) is None
            ==> outcome(layer, key, expansion) is Ok,
{
}

/// The bytes of the presses of a macro are two for each key press.
pub proof fn lemma_press_bytes_len(parts: Seq<KeyboardPart>)
    ensures
        parts.flat_map(press_bytes()).len() == 2 * press_count(parts),
        press_count(parts) <= parts.len(),
    decreases parts.len(),
{
    if parts.len() == 0 {
        assert(parts.flat_map(press_bytes()) =~= Seq::<u8>::empty());
        assert(parts.filter(is_press()) =~= Seq::<KeyboardPart>::empty());
    } else {
        let front = parts.drop_last();
        lemma_press_bytes_len(front);
        assert(parts =~= front.push(parts.last()));
        front.lemma_flat_map_push(press_bytes(), parts.last());
        front.lemma_filter_len_push(is_press(), parts.last());
    }
}

/// A delay at the head of a macro is not among its key presses.
pub proof fn lemma_leading_delay_not_counted(parts: Seq<KeyboardPart>)
    requires
        parts.len() > 0,
        parts[0] is Delay,
    ensures
        press_count(parts) == press_count(parts.skip(1)),
        press_count(parts) < parts.len(),
{
    let head = seq![parts[0]];
    assert(parts =~= head + parts.skip(1));
    Seq::filter_distributes_over_add(head, parts.skip(1), is_press());
    assert(head =~= Seq::<KeyboardPart>::empty().push(parts[0]));
    Seq::<KeyboardPart>::empty().lemma_filter_len_push(is_press(), parts[0]);
    assert(Seq::<KeyboardPart>::empty().filter(is_press()) =~= Seq::<KeyboardPart>::empty());
    assert(head.filter(is_press()).len() == 0);
    assert(head.filter(is_press()) =~= Seq::<KeyboardPart>::empty());
    assert(parts.filter(is_press()) =~= parts.skip(1).filter(is_press()));
    lemma_press_bytes_len(parts.skip(1));
}

/// Where every element is a key press, all of them are counted.
pub proof fn lemma_presses_all_counted(parts: Seq<KeyboardPart>)
    requires
        forall|i: int| 0 <= i < parts.len() ==> parts[i] is Key,
    ensures
        press_count(parts) == parts.len(),
    decreases parts.len(),
{
    if parts.len() == 0 {
        assert(parts.filter(is_press()) =~= Seq::<KeyboardPart>::empty());
    } else {
        let front = parts.drop_last();
        lemma_presses_all_counted(front);
        assert(parts =~= front.push(parts.last()));
        front.lemma_filter_len_push(is_press(), parts.last());
    }
}

/// The count in the programming frame of a keyboard macro is the number of
/// its key presses: delays are left out of it, and of the list that follows
/// it, which holds two bytes for each key press and nothing else. So where a
/// macro holds no delay but at its head, the count is the number of elements
/// behind the delay.
pub proof fn lemma_key_count_field(layer: u8, key: Key, expansion: MacroView)
    requires
        refusal(layer, key, expansion) is None,
        expansion is Keyboard,
    ensures
        frames(layer, key, expansion)[0][10] == press_count(expansion->Keyboard_0),
        frames(layer, key, expansion)[0].len() == 11 + 2 * press_count(expansion->Keyboard_0),
        leading_delay(expansion) is Some ==> press_count(expansion->Keyboard_0) == press_count(
            expansion->Keyboard_0.skip(1),
        ),
        (forall|i: int| 1 <= i < expansion->Keyboard_0.len() ==> expansion->Keyboard_0[i] is Key)
            ==> frames(layer, key, expansion)[0][10] == expansion->Keyboard_0.len() - (if leading_delay(
            expansion,
        ) is Some {
            1int
        } else {
            0int
        }),
{
    let parts = expansion->Keyboard_0;
    lemma_press_bytes_len(parts);
    if leading_delay(expansion) is Some {
        lemma_leading_delay_not_counted(parts);
        if forall|i: int| 1 <= i < parts.len() ==> parts[i] is Key {
            assert forall|i: int| 0 <= i < parts.skip(1).len() implies parts.skip(1)[i] is Key by {
                assert(parts.skip(1)[i] == parts[i + 1]);
            }
            lemma_presses_all_counted(parts.skip(1));
        }
    } else {
        if forall|i: int| 1 <= i < parts.len() ==> parts[i] is Key {
            lemma_presses_all_counted(parts);
        }
    }
}

/// A delay at the head of a macro is accepted up to six seconds. The delay
/// frame is then the programming frame with the kind byte set to five and
/// the delay behind it, low byte first. A longer delay is refused once the
/// programming frame is written.
pub proof fn lemma_delay_limit(layer: u8, key: Key, expansion: MacroView, ms: u16)
    requires
        refusal(layer, key, expansion) is None,
        leading_delay(expansion) == Some(ms),
    ensures
        ms > MAX_DELAY_MS ==> outcome(layer, key, expansion) == Err::<(), BindError>(
            BindError::DelayOutOfRange,
        ) && frames(layer, key, expansion) == seq![program_frame(layer, key, expansion)],
        ms <= MAX_DELAY_MS ==> {
            let sent = frames(layer, key, expansion);
            &&& outcome(layer, key, expansion) is Ok
            &&& sent.len() == 5
            &&& sent[1].len() == sent[0].len()
            &&& sent[1][4] == DELAY_KIND
            &&& sent[1][5] + 256 * sent[1][6] == ms
            &&& forall|i: int|
                0 <= i < sent[0].len() && !(4 <= i <= 6) ==> sent[1][i] == #[trigger] sent[0][i]
        },
{
}

/// A binding without a delay at its head that is not refused writes the
/// programming frame and the three closing frames, and nothing else.
pub proof fn lemma_frames_without_delay(layer: u8, key: Key, expansion: MacroView)
    requires
        refusal(layer, key, expansion) is None,
        leading_delay(expansion) is None,
    ensures
        outcome(layer, key, expansion) is Ok,
        frames(layer, key, expansion) == seq![program_frame(layer, key, expansion)]
            + closing_frames(),
        frames(layer, key, expansion).len() == 4,
{
}

/// The wheel turns by one step: the last byte of the programming frame is one
/// for a step up and, in two's complement, minus one for a step down.
pub proof fn lemma_wheel_step(layer: u8, key: Key, expansion: MacroView)
    requires
        refusal(layer, key, expansion) is None,
        expansion is Mouse,
    ensures
        expansion->Mouse_0.0 is WheelUp ==> frames(layer, key, expansion)[0][15] == 0x01,
        expansion->Mouse_0.0 is WheelDown ==> frames(layer, key, expansion)[0][15] == 0xff,
{
}

/// A click that names no button is refused before anything is written.
pub proof fn lemma_click_needs_buttons(layer: u8, key: Key, expansion: MacroView)
    requires
        layer <= MAX_LAYER,
        key.key_id(BUTTONS) is Ok,
        expansion matches MacroView::Mouse(event) && event.0 matches MouseAction::Click(buttons)
            && buttons.empty(),
    ensures
        outcome(layer, key, expansion) == Err::<(), BindError>(BindError::MissingButtons),
        frames(layer, key, expansion) == Seq::<Seq<u8>>::empty(),
{
}

/// The family cannot move the pointer.
pub proof fn lemma_move_unsupported(layer: u8, key: Key, expansion: MacroView)
    requires
        layer <= MAX_LAYER,
        key.key_id(BUTTONS) is Ok,
        expansion matches MacroView::Mouse(event) && event.0 is Move,
    ensures
        outcome(layer, key, expansion) == Err::<(), BindError>(BindError::UnsupportedFeature),
        frames(layer, key, expansion) == Seq::<Seq<u8>>::empty(),
{
}

/// A binding is accepted exactly when all that it asks for is written: a
/// refusal leaves at most the programming frame on the wire.
pub proof fn lemma_refused_writes_little(layer: u8, key: Key, expansion: MacroView)
    ensures
        outcome(layer, key, expansion) is Ok <==> frames(layer, key, expansion).len() >= 4,
        outcome(layer, key, expansion) is Err ==> frames(layer, key, expansion).len() <= 1,
{
}

/// Counts the key presses among `parts`.
fn count_presses(parts: &Vec<KeyboardPart>) -> (r: u8)
    requires
        parts@.len() <= u8::MAX,
    ensures
        r == press_count(parts@),
{
    let mut count: u8 = 0;
    let mut i: usize = 0;
    while i < parts.len()
        invariant
            i <= parts@.len() <= u8::MAX,
            count == press_count(parts@.take(i as int)),
            count <= i,
        decreases parts@.len() - i,
    {
        proof {
            parts@.lemma_take_succ_push(i as int);
            parts@.take(i as int).lemma_filter_len_push(is_press(), parts@[i as int]);
        }
        match parts[i] {
            KeyboardPart::Key(_) => {
                count = count + 1;
            },
            KeyboardPart::Delay(_) => {},
        }
        i = i + 1;
    }
    proof {
        parts@.lemma_take_len();
    }
    count
}

/// Appends the bytes of every key press among `parts` to `msg`.
fn push_presses(msg: &mut Vec<u8>, parts: &Vec<KeyboardPart>)
    ensures
        final(msg)@ == old(msg)@ + parts@.flat_map(press_bytes()),
{
    let mut i: usize = 0;
    assert(parts@.take(0).flat_map(press_bytes()) =~= Seq::<u8>::empty());
    assert(msg@ =~= old(msg)@ + Seq::<u8>::empty());
    while i < parts.len()
        invariant
            i <= parts@.len(),
            msg@ == old(msg)@ + parts@.take(i as int).flat_map(press_bytes()),
        decreases parts@.len() - i,
    {
        proof {
            parts@.lemma_flat_map_take_append(press_bytes(), i as int);
        }
        match parts[i] {
            KeyboardPart::Key(accord) => {
                let (modifiers, code) = accord.to_wire();
                msg.push(modifiers);
                msg.push(code);
            },
            KeyboardPart::Delay(_) => {},
        }
        assert(msg@ =~= old(msg)@ + parts@.take(i + 1).flat_map(press_bytes()));
        i = i + 1;
    }
    proof {
        parts@.lemma_take_len();
    }
}

/// An encoder for the 884x family.
pub struct Keyboard884x {
    endpoint: u8,
    outbox: Outbox,
}

impl Keyboard884x {
    /// An encoder for a device that listens on `endpoint`. The device expects
    /// one empty frame before the first binding, so that frame is queued.
    pub fn new(endpoint: u8) -> (r: Self)
        ensures
            r.endpoint() == endpoint,
            r.queued() == seq![Seq::<u8>::empty()],
    {
        let mut outbox = Outbox::new();
        outbox.push(Vec::new());
        assert(outbox@ =~= seq![Seq::<u8>::empty()]);
        Keyboard884x { endpoint, outbox }
    }

    fn send(&mut self, frame: Vec<u8>)
        ensures
            final(self).queued() == old(self).queued().push(frame@),
            final(self).endpoint() == old(self).endpoint(),
    {
        self.outbox.push(frame);
    }
}

impl Keyboard for Keyboard884x {
    closed spec fn queued(&self) -> Seq<Seq<u8>> {
        self.outbox@
    }

    closed spec fn endpoint(&self) -> u8 {
        self.endpoint
    }

    open spec fn default_endpoint() -> u8 {
        DEFAULT_ENDPOINT
    }

    open spec fn frames(&self, layer: u8, key: Key, expansion: MacroView) -> Seq<Seq<u8>> {
        frames(layer, key, expansion)
    }

    open spec fn outcome(&self, layer: u8, key: Key, expansion: MacroView) -> Result<(), BindError> {
        outcome(layer, key, expansion)
    }

    fn bind_key(&mut self, layer: u8, key: Key, expansion: &Macro) -> (r: Result<(), BindError>) {
        if layer > MAX_LAYER {
            assert(self.queued() =~= old(self).queued() + frames(layer, key, expansion@));
            return Err(BindError::InvalidLayer);
        }
        let key_id = match key.to_key_id(BUTTONS) {
            Ok(id) => id,
            Err(error) => {
                assert(self.queued() =~= old(self).queued() + frames(layer, key, expansion@));
                return Err(error);
            },
        };
        let mut msg: Vec<u8> = vec![0x03, 0xfe, key_id, layer + 1, expansion.kind(), 0, 0, 0, 0, 0];
        assert(msg@ =~= header(key_id, layer, expansion@.kind_byte()));
        match expansion {
            Macro::Keyboard(presses) => {
                if presses.len() > MAX_PRESSES {
                    assert(self.queued() =~= old(self).queued() + frames(layer, key, expansion@));
                    return Err(BindError::MacroTooLong);
                }
                // The count in the frame is that of the key presses alone: a
                // delay takes no room in the list that follows it.
                let key_count = count_presses(presses);
                msg.push(key_count);
                push_presses(&mut msg, presses);
            },
            Macro::Media(code) => {
                let (low, high) = le_bytes(*code);
                let mut tail: Vec<u8> = vec![0, low, high, 0, 0, 0, 0];
                msg.append(&mut tail);
            },
            Macro::Mouse(event) => {
                let modifier = event.to_modifier_byte();
                match event.0 {
                    MouseAction::Click(buttons) => {
                        if buttons.is_empty() {
                            assert(self.queued() =~= old(self).queued() + frames(
                                layer,
                                key,
                                expansion@,
                            ));
                            return Err(BindError::MissingButtons);
                        }
                        let mut tail: Vec<u8> = vec![0x01, 0, buttons.as_u8()];
                        msg.append(&mut tail);
                    },
                    MouseAction::WheelUp => {
                        let mut tail: Vec<u8> = vec![0x03, modifier, 0, 0, 0, 0x01];
                        msg.append(&mut tail);
                    },
                    MouseAction::WheelDown => {
                        let mut tail: Vec<u8> = vec![0x03, modifier, 0, 0, 0, 0xff];
                        msg.append(&mut tail);
                    },
                    MouseAction::Move { .. } => {
                        assert(self.queued() =~= old(self).queued() + frames(
                            layer,
                            key,
                            expansion@,
                        ));
                        return Err(BindError::UnsupportedFeature);
                    },
                }
            },
        }
        assert(msg@ =~= program_frame(layer, key, expansion@));
        assert(refusal(layer, key, expansion@) is None);

        // A macro may start with a delay. The device takes it in a frame of
        // its own, which follows the programming frame.
        let delay: Option<u16> = match expansion {
            Macro::Keyboard(parts) => {
                if parts.len() > 0 {
                    match parts[0] {
                        KeyboardPart::Delay(ms) => Some(ms),
                        KeyboardPart::Key(_) => None,
                    }
                } else {
                    None
                }
            },
            _ => None,
        };
        assert(delay == leading_delay(expansion@));
        match delay {
            Some(ms) => {
                if ms > MAX_DELAY_MS {
                    self.send(msg);
                    assert(self.queued() =~= old(self).queued() + frames(layer, key, expansion@));
                    return Err(BindError::DelayOutOfRange);
                }
                let mut delay_msg = msg.clone();
                assert(delay_msg@ =~= msg@);
                let (low, high) = le_bytes(ms);
                delay_msg.set(4, DELAY_KIND);
                delay_msg.set(5, low);
                delay_msg.set(6, high);
                assert(delay_msg@ =~= delay_frame(msg@, ms));
                self.send(msg);
                self.send(delay_msg);
            },
            None => {
                self.send(msg);
            },
        }

        let mut unlock: Vec<u8> = vec![0x03, 0xfd, 0xfe, 0xff];
        assert(unlock@ =~= seq![0x03u8, 0xfd, 0xfe, 0xff]);
        self.send(make_finish_frame());
        self.send(unlock);
        self.send(make_finish_frame());
        assert(self.queued() =~= old(self).queued() + frames(layer, key, expansion@));
        Ok(())
    }

    fn set_led(&mut self, n: u8) -> (r: Result<(), BindError>) {
        Err(BindError::UnsupportedFeature)
    }

    fn get_endpoint(&self) -> (r: u8) {
        self.endpoint
    }

    fn preferred_endpoint() -> (r: u8) {
        DEFAULT_ENDPOINT
    }

    fn take_frames(&mut self) -> (r: Vec<Vec<u8>>) {
        self.outbox.take()
    }
}

} // verus!
