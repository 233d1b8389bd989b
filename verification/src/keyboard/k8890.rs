//! The 8890 family: a binding is one opening frame, one frame for each
//! element of the macro, and one closing frame.

use super::{
    finish_frame, high_byte, le_bytes, low_byte, make_finish_frame, wrap_byte, wrapped_byte,
    BindError, Key, Keyboard, KeyboardPart, Macro, MacroView, MouseAction, Outbox, MAX_LAYER,
};
use vstd::prelude::*;

verus! {

/// The number of buttons of the largest device of the family.
pub const BUTTONS: u8 = 12;

/// The number of elements of the longest keyboard macro the family stores.
pub const MAX_PRESSES: usize = 5;

/// The endpoint that devices of the family listen on by default.
pub const DEFAULT_ENDPOINT: u8 = 0x04;

/// The kind that a media frame carries in its selector byte.
pub const MEDIA_KIND: u8 = 0x02;

/// The kind that every mouse frame carries in its selector byte.
pub const MOUSE_KIND: u8 = 0x03;

/// The frame that opens a binding on `layer`.
pub open spec fn start_frame(layer: u8) -> Seq<u8> {
    seq![0x03u8, 0xfe, (layer + 1) as u8, 0x01, 0x01, 0, 0, 0, 0]
}

/// The byte that names the layer, counted from one, in its high half and the
/// kind of the macro in its low half. The layer is shifted within the byte,
/// so the sixteenth layer leaves the high half empty.
pub open spec fn selector(layer: u8, kind: u8) -> u8 {
    (((layer + 1) as u8) << 4) | kind
}

/// Whether a keyboard macro holds a delay anywhere.
pub open spec fn has_delay(parts: Seq<KeyboardPart>) -> bool {
    exists|i: int| 0 <= i < parts.len() && parts[i] is Delay
}

/// The element at position `i` of the stream that a keyboard macro is sent
/// as: an empty press at the head, then the presses of the macro.
pub open spec fn element(parts: Seq<KeyboardPart>, i: int) -> (u8, u8) {
    if i == 0 {
        (0u8, 0u8)
    } else {
        match parts[i - 1] {
            KeyboardPart::Key(accord) => accord.wire(),
            KeyboardPart::Delay(_) => (0u8, 0u8),
        }
    }
}

/// The frame of the element at position `index` of a keyboard macro of
/// `count` presses.
pub open spec fn press_frame(
    key_id: u8,
    layer: u8,
    kind: u8,
    count: u8,
    index: u8,
    press: (u8, u8),
) -> Seq<u8> {
    seq![0x03u8, key_id, selector(layer, kind), count, index, press.0, press.1, 0, 0]
}

/// The frames of a keyboard macro: one for each element of its stream. Each
/// carries the number of presses of the macro, which does not count the
/// empty press at the head, and its own position in the stream.
pub open spec fn press_frames(key_id: u8, layer: u8, kind: u8, parts: Seq<KeyboardPart>) -> Seq<
    Seq<u8>,
> {
    Seq::new(
        parts.len() + 1,
        |i: int| press_frame(key_id, layer, kind, parts.len() as u8, i as u8, element(parts, i)),
    )
}

/// The frames between the opening and the closing frame.
pub open spec fn action_frames(key_id: u8, layer: u8, expansion: MacroView) -> Seq<Seq<u8>> {
    match expansion {
        MacroView::Keyboard(parts) => press_frames(key_id, layer, expansion.kind_byte(), parts),
        MacroView::Media(code) => seq![
            seq![
                0x03u8,
                key_id,
                selector(layer, MEDIA_KIND),
                low_byte(code),
                high_byte(code),
                0,
                0,
                0,
                0,
            ],
        ],
        MacroView::Mouse(event) => match event.0 {
            MouseAction::Click(buttons) => seq![
                seq![
                    0x03u8,
                    key_id,
                    selector(layer, MOUSE_KIND),
                    buttons.bits,
                    0,
                    0,
                    0,
                    event.modifier_byte(),
                    0,
                ],
            ],
            MouseAction::WheelUp => seq![
                seq![
                    0x03u8,
                    key_id,
                    selector(layer, MOUSE_KIND),
                    0,
                    0,
                    0,
                    0x01,
                    event.modifier_byte(),
                    0,
                ],
            ],
            MouseAction::WheelDown => seq![
                seq![
                    0x03u8,
                    key_id,
                    selector(layer, MOUSE_KIND),
                    0,
                    0,
                    0,
                    0xff,
                    event.modifier_byte(),
                    0,
                ],
            ],
            // The device takes the vertical distance before the horizontal.
            MouseAction::Move { dx, dy } => seq![
                seq![
                    0x03u8,
                    key_id,
                    selector(layer, MOUSE_KIND),
                    0,
                    wrapped_byte(dy),
                    wrapped_byte(dx),
                    0,
                    event.modifier_byte(),
                    0,
                ],
            ],
        },
    }
}

/// The error that refuses a binding once the opening frame is written, if
/// there is one. The macro is looked at first, then the key.
pub open spec fn refusal(key: Key, expansion: MacroView) -> Option<BindError> {
    let macro_error = match expansion {
        MacroView::Keyboard(parts) => if parts.len() > MAX_PRESSES {
            Some(BindError::MacroTooLong)
        } else if has_delay(parts) {
            Some(BindError::UnsupportedFeature)
        } else {
            None
        },
        MacroView::Media(_) => None,
        MacroView::Mouse(event) => match event.0 {
            MouseAction::Click(buttons) => if buttons.empty() {
                Some(BindError::MissingButtons)
            } else {
                None
            },
            _ => None,
        },
    };
    if macro_error is Some {
        macro_error
    } else if key.key_id(BUTTONS) is Err {
        Some(BindError::InvalidKey)
    } else {
        None
    }
}

/// Whether a binding is accepted, and the error it is refused with.
pub open spec fn outcome(layer: u8, key: Key, expansion: MacroView) -> Result<(), BindError> {
    if layer > MAX_LAYER {
        Err(BindError::InvalidLayer)
    } else {
        match refusal(key, expansion) {
            Some(error) => Err(error),
            None => Ok(()),
        }
    }
}

/// The frames that a binding puts on the wire, in order. A layer that does
/// not exist is refused before anything is written; every other refusal
/// comes after the opening frame.
pub open spec fn frames(layer: u8, key: Key, expansion: MacroView) -> Seq<Seq<u8>> {
    if layer > MAX_LAYER {
        Seq::<Seq<u8>>::empty()
    } else if refusal(key, expansion) is Some {
        seq![start_frame(layer)]
    } else {
        seq![start_frame(layer)] + action_frames(key.key_id(BUTTONS).unwrap(), layer, expansion)
            + seq![finish_frame()]
    }
}

/// A layer above the last is refused before anything is written.
pub proof fn lemma_layer_out_of_range(layer: u8, key: Key, expansion: MacroView)
    requires
        layer > MAX_LAYER,
    ensures
        outcome(layer, key, expansion) == Err::<(), BindError>(BindError::InvalidLayer),
        frames(layer, key, expansion) == Seq::<Seq<u8>>::empty(),
{
}

/// Layers count from one on the wire: every binding on a layer that exists
/// writes the opening frame first, and its third byte is the layer plus one.
pub proof fn lemma_layer_on_wire(layer: u8, key: Key, expansion: MacroView)
    requires
        layer <= MAX_LAYER,
    ensures
        frames(layer, key, expansion).len() >= 1,
        frames(layer, key, expansion)[0] == start_frame(layer),
        frames(layer, key, expansion)[0][2] == layer + 1,
{
}

/// The two halves of the selector byte: the low half is the kind, and the
/// high half is the layer plus one as far as four bits hold it.
pub proof fn lemma_selector_halves(layer: u8, kind: u8)
    requires
        layer <= MAX_LAYER,
        kind < 16,
    ensures
        selector(layer, kind) % 16 == kind,
        selector(layer, kind) / 16 == (layer + 1) % 16,
{
    let wire_layer: u8 = (layer + 1) as u8;
    assert((wire_layer << 4 | kind) % 16 == kind && (wire_layer << 4 | kind) / 16 == wire_layer
        % 16) by (bit_vector)
        requires
            kind < 16,
    ;
}

/// A keyboard macro is too long exactly when it has more than five elements,
/// whatever they are. It is refused once the opening frame is written.
pub proof fn lemma_macro_length_limit(layer: u8, key: Key, expansion: MacroView)
    requires
        layer <= MAX_LAYER,
        expansion is Keyboard,
    ensures
        expansion->Keyboard_0.len() > MAX_PRESSES <==> outcome(layer, key, expansion) == Err::<
            (),
            BindError,
        >(BindError::MacroTooLong),
        expansion->Keyboard_0.len() > MAX_PRESSES ==> frames(layer, key, expansion) == seq![
            start_frame(layer),
        ],
{
}

/// The family cannot wait: a macro that is short enough and holds a delay
/// anywhere is refused once the opening frame is written.
pub proof fn lemma_delay_unsupported(layer: u8, key: Key, expansion: MacroView)
    requires
        layer <= MAX_LAYER,
        expansion is Keyboard,
        expansion->Keyboard_0.len() <= MAX_PRESSES,
        has_delay(expansion->Keyboard_0),
    ensures
        outcome(layer, key, expansion) == Err::<(), BindError>(BindError::UnsupportedFeature),
        frames(layer, key, expansion) == seq![start_frame(layer)],
{
}

/// A click that names no button is refused once the opening frame is
/// written, whatever the key.
pub proof fn lemma_click_needs_buttons(layer: u8, key: Key, expansion: MacroView)
    requires
        layer <= MAX_LAYER,
        expansion matches MacroView::Mouse(event) && event.0 matches MouseAction::Click(buttons)
            && buttons.empty(),
    ensures
        outcome(layer, key, expansion) == Err::<(), BindError>(BindError::MissingButtons),
        frames(layer, key, expansion) == seq![start_frame(layer)],
{
}

/// A binding that is accepted writes the opening frame first and the closing
/// frame last; one that is refused writes the opening frame at most.
pub proof fn lemma_frames_shape(layer: u8, key: Key, expansion: MacroView)
    ensures
        outcome(layer, key, expansion) is Ok ==> {
            let sent = frames(layer, key, expansion);
            &&& sent.len() >= 3
            &&& sent.first() == start_frame(layer)
            &&& sent.last() == finish_frame()
        },
        outcome(layer, key, expansion) is Err ==> frames(layer, key, expansion).len() <= 1,
{
}

/// A keyboard macro of `n` presses is written as `n + 1` frames between the
/// opening and the closing frame. Each carries `n` and its own position; the
/// first carries an empty press, and the others the presses of the macro in
/// order.
pub proof fn lemma_press_stream(layer: u8, key: Key, expansion: MacroView)
    requires
        outcome(layer, key, expansion) is Ok,
        expansion is Keyboard,
    ensures
        ({
            let parts = expansion->Keyboard_0;
            let sent = frames(layer, key, expansion);
            &&& sent.len() == parts.len() + 3
            &&& forall|i: int|
                0 <= i <= parts.len() ==> (#[trigger] sent[i + 1]).len() == 9 && sent[i + 1][3]
                    == parts.len() && sent[i + 1][4] == i
            &&& sent[1][5] == 0 && sent[1][6] == 0
            &&& forall|i: int|
                0 <= i < parts.len() ==> parts[i] is Key && (#[trigger] sent[i + 2])[5]
                    == parts[i]->Key_0.modifiers.bits && sent[i + 2][6]
                    == parts[i]->Key_0.code_byte()
        }),
{
    let parts = expansion->Keyboard_0;
    let sent = frames(layer, key, expansion);
    let key_id = key.key_id(BUTTONS).unwrap();
    let inner = press_frames(key_id, layer, expansion.kind_byte(), parts);
    assert(sent =~= seq![start_frame(layer)] + inner + seq![finish_frame()]);
    assert forall|i: int| 0 <= i <= parts.len() implies (#[trigger] sent[i + 1]) == inner[i] by {}
    assert forall|i: int| 0 <= i < parts.len() implies parts[i] is Key && (#[trigger] sent[i
        + 2])[5] == parts[i]->Key_0.modifiers.bits && sent[i + 2][6]
        == parts[i]->Key_0.code_byte() by {
        assert(sent[i + 2] == inner[i + 1]);
    }
}

/// The wheel turns by one step: the seventh byte of the frame is one for a
/// step up and, in two's complement, minus one for a step down.
pub proof fn lemma_wheel_step(layer: u8, key: Key, expansion: MacroView)
    requires
        outcome(layer, key, expansion) is Ok,
        expansion is Mouse,
    ensures
        expansion->Mouse_0.0 is WheelUp ==> frames(layer, key, expansion)[1][6] == 0x01,
        expansion->Mouse_0.0 is WheelDown ==> frames(layer, key, expansion)[1][6] == 0xff,
{
}

/// The pointer moves by two distances, each sent as the byte that holds its
/// low eight bits, and the vertical one comes first.
pub proof fn lemma_move_bytes(layer: u8, key: Key, expansion: MacroView, dx: i32, dy: i32)
    requires
        outcome(layer, key, expansion) is Ok,
        expansion matches MacroView::Mouse(event) && event.0 == (MouseAction::Move { dx, dy }),
    ensures
        frames(layer, key, expansion).len() == 3,
        frames(layer, key, expansion)[1][4] == wrapped_byte(dy),
        frames(layer, key, expansion)[1][5] == wrapped_byte(dx),
{
}

/// Computes [`selector`].
fn make_selector(layer: u8, kind: u8) -> (r: u8)
    requires
        layer <= MAX_LAYER,
    ensures
        r == selector(layer, kind),
{
    ((layer + 1) << 4) | kind
}

/// Looks for a delay among `parts`.
fn find_delay(parts: &Vec<KeyboardPart>) -> (r: bool)
    ensures
        r == has_delay(parts@),
{
    let mut i: usize = 0;
    while i < parts.len()
        invariant
            i <= parts@.len(),
            forall|j: int| 0 <= j < i ==> parts@[j] is Key,
        decreases parts@.len() - i,
    {
        match parts[i] {
            KeyboardPart::Delay(_) => {
                return true;
            },
            KeyboardPart::Key(_) => {},
        }
        i = i + 1;
    }
    false
}

/// An encoder for the 8890 family.
pub struct Keyboard8890 {
    endpoint: u8,
    outbox: Outbox,
}

impl Keyboard8890 {
    /// An encoder for a device that listens on `endpoint`. The device expects
    /// one empty frame before the first binding, so that frame is queued.
    pub fn new(endpoint: u8) -> (r: Self)
        ensures
            r.endpoint() == endpoint,
            r.queued() == seq![Seq::<u8>::empty()],
    {
        let mut outbox = Outbox::new();
        outbox.push(Vec::new());
        assert(outbox@ =~= seq![Seq::<u8>::empty()]);
        Keyboard8890 { endpoint, outbox }
    }

    fn send(&mut self, frame: Vec<u8>)
        ensures
            final(self).queued() == old(self).queued().push(frame@),
            final(self).endpoint() == old(self).endpoint(),
    {
        self.outbox.push(frame);
    }
}

impl Keyboard for Keyboard8890 {
    closed spec fn queued(&self) -> Seq<Seq<u8>> {
        self.outbox@
    }

    closed spec fn endpoint(&self) -> u8 {
        self.endpoint
    }

    open spec fn default_endpoint() -> u8 {
        DEFAULT_ENDPOINT
    }

    open spec fn frames(&self, layer: u8, key: Key, expansion: MacroView) -> Seq<Seq<u8>> {
        frames(layer, key, expansion)
    }

    open spec fn outcome(&self, layer: u8, key: Key, expansion: MacroView) -> Result<(), BindError> {
        outcome(layer, key, expansion)
    }

    fn bind_key(&mut self, layer: u8, key: Key, expansion: &Macro) -> (r: Result<(), BindError>) {
        if layer > MAX_LAYER {
            assert(self.queued() =~= old(self).queued() + frames(layer, key, expansion@));
            return Err(BindError::InvalidLayer);
        }
        let start: Vec<u8> = vec![0x03, 0xfe, layer + 1, 0x01, 0x01, 0, 0, 0, 0];
        assert(start@ =~= start_frame(layer));
        self.send(start);
        let ghost opened = self.queued();
        assert(opened =~= old(self).queued() + seq![start_frame(layer)]);

        match expansion {
            Macro::Keyboard(presses) => {
                if presses.len() > MAX_PRESSES {
                    return Err(BindError::MacroTooLong);
                }
                if find_delay(presses) {
                    return Err(BindError::UnsupportedFeature);
                }
                let key_id = match key.to_key_id(BUTTONS) {
                    Ok(id) => id,
                    Err(error) => {
                        return Err(error);
                    },
                };
                let select = make_selector(layer, expansion.kind());
                let count = presses.len() as u8;
                let ghost all = press_frames(key_id, layer, expansion@.kind_byte(), presses@);
                // For whatever reason the device wants an empty press in
                // front of the others.
                let mut i: usize = 0;
                assert(opened =~= opened + all.take(0));
                while i <= presses.len()
                    invariant
                        i <= presses@.len() + 1,
                        presses@.len() <= MAX_PRESSES,
                        count == presses@.len(),
                        select == selector(layer, expansion@.kind_byte()),
                        all == press_frames(key_id, layer, expansion@.kind_byte(), presses@),
                        self.queued() == opened + all.take(i as int),
                        self.endpoint() == old(self).endpoint(),
                    decreases presses@.len() + 1 - i,
                {
                    let press: (u8, u8) = if i == 0 {
                        (0, 0)
                    } else {
                        match presses[i - 1] {
                            KeyboardPart::Key(accord) => accord.to_wire(),
                            KeyboardPart::Delay(_) => (0, 0),
                        }
                    };
                    let frame: Vec<u8> = vec![
                        0x03,
                        key_id,
                        select,
                        count,
                        i as u8,
                        press.0,
                        press.1,
                        0,
                        0,
                    ];
                    assert(frame@ =~= all[i as int]);
                    self.send(frame);
                    assert(self.queued() =~= opened + all.take(i + 1));
                    i = i + 1;
                }
                assert(all.take(i as int) =~= all);
            },
            Macro::Media(code) => {
                let key_id = match key.to_key_id(BUTTONS) {
                    Ok(id) => id,
                    Err(error) => {
                        return Err(error);
                    },
                };
                let (low, high) = le_bytes(*code);
                let frame: Vec<u8> = vec![
                    0x03,
                    key_id,
                    make_selector(layer, MEDIA_KIND),
                    low,
                    high,
                    0,
                    0,
                    0,
                    0,
                ];
                assert(seq![frame@] =~= action_frames(key_id, layer, expansion@));
                self.send(frame);
            },
            Macro::Mouse(event) => {
                let modifier = event.to_modifier_byte();
                let select = make_selector(layer, MOUSE_KIND);
                match event.0 {
                    MouseAction::Click(buttons) => {
                        if buttons.is_empty() {
                            return Err(BindError::MissingButtons);
                        }
                        let key_id = match key.to_key_id(BUTTONS) {
                            Ok(id) => id,
                            Err(error) => {
                                return Err(error);
                            },
                        };
                        let frame: Vec<u8> = vec![
                            0x03,
                            key_id,
                            select,
                            buttons.as_u8(),
                            0,
                            0,
                            0,
                            modifier,
                            0,
                        ];
                        assert(seq![frame@] =~= action_frames(key_id, layer, expansion@));
                        self.send(frame);
                    },
                    MouseAction::WheelUp => {
                        let key_id = match key.to_key_id(BUTTONS) {
                            Ok(id) => id,
                            Err(error) => {
                                return Err(error);
                            },
                        };
                        let frame: Vec<u8> = vec![0x03, key_id, select, 0, 0, 0, 0x01, modifier, 0];
                        assert(seq![frame@] =~= action_frames(key_id, layer, expansion@));
                        self.send(frame);
                    },
                    MouseAction::WheelDown => {
                        let key_id = match key.to_key_id(BUTTONS) {
                            Ok(id) => id,
                            Err(error) => {
                                return Err(error);
                            },
                        };
                        let frame: Vec<u8> = vec![0x03, key_id, select, 0, 0, 0, 0xff, modifier, 0];
                        assert(seq![frame@] =~= action_frames(key_id, layer, expansion@));
                        self.send(frame);
                    },
                    MouseAction::Move { dx, dy } => {
                        let key_id = match key.to_key_id(BUTTONS) {
                            Ok(id) => id,
                            Err(error) => {
                                return Err(error);
                            },
                        };
                        // The device takes the vertical distance before the
                        // horizontal.
                        let frame: Vec<u8> = vec![
                            0x03,
                            key_id,
                            select,
                            0,
                            wrap_byte(dy),
                            wrap_byte(dx),
                            0,
                            modifier,
                            0,
                        ];
                        assert(seq![frame@] =~= action_frames(key_id, layer, expansion@));
                        self.send(frame);
                    },
                }
            },
        }

        self.send(make_finish_frame());
        assert(self.queued() =~= old(self).queued() + frames(layer, key, expansion@));
        Ok(())
    }

    fn set_led(&mut self, n: u8) -> (r: Result<(), BindError>) {
        Err(BindError::UnsupportedFeature)
    }

    fn get_endpoint(&self) -> (r: u8) {
        self.endpoint
    }

    fn preferred_endpoint() -> (r: u8) {
        DEFAULT_ENDPOINT
    }

    fn take_frames(&mut self) -> (r: Vec<Vec<u8>>) {
        self.outbox.take()
    }
}

} // verus!
