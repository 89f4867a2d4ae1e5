//! Binary wire protocol shared with the keyboard firmware: decoding of
//! inbound reports (key presses, layer changes) and encoding of outbound
//! LED color reports.
//!
//! The protocol is directional: press and layer messages only ever arrive,
//! LED color messages only ever leave. A report opens with a three-byte
//! magic sequence (after a leading report-id byte on the outbound side),
//! followed by a byte whose high nibble is the opcode and whose low nibble
//! carries a flag or an entry count.

use vstd::prelude::*;
use crate::color::Hsv;
use crate::color::spec_rgb_of;
use crate::color::hsv_to_rgb;

verus! {

/// Opcode for an inbound key press/release report.
pub const KSK_PRESS: u8 = 0;
/// Opcode for an inbound active-layer report.
pub const KSK_LAYER: u8 = 1;
/// Opcode for the outbound LED color report family.
pub const KSK_RGB_SET: u8 = 2;

/// Size in bytes of a raw inbound report (and of an outbound report
/// without its leading report-id byte).
pub const RAW_EPSIZE: usize = 32;

/// Largest number of (index, color) entries one outbound report can hold:
/// a report of `RAW_EPSIZE + 1` bytes has room for its 5-byte header and
/// 7 entries of 4 bytes each.
pub const MAX_RGB_ENTRIES: usize = 7;

/// First and third byte of the protocol magic sequence.
pub const MAGIC_K: u8 = 0x6b;
/// Second byte of the protocol magic sequence.
pub const MAGIC_S: u8 = 0x73;

/// An inbound key press or release, with the key's matrix position.
#[derive(Clone, Copy, PartialEq, Eq, Structural, Debug)]
pub struct PressMessage {
    /// Whether the key is now down.
    pub pressed: bool,
    /// The firmware keycode, in the firmware's nibble packing.
    pub keycode: u16,
    /// Matrix column of the key.
    pub col: u8,
    /// Matrix row of the key.
    pub row: u8,
}

/// An inbound change of the active keymap layer.
#[derive(Clone, Copy, PartialEq, Eq, Structural, Debug)]
pub struct LayerMessage {
    /// The firmware's new layer state.
    pub layer_state: u8,
}

/// An outbound batch of per-LED colors: pairs of LED index and color.
#[derive(Clone, Debug)]
pub struct RgbSetMessage {
    /// The (LED index, color) entries of this batch.
    pub colors: Vec<(u8, Hsv)>,
}

/// An outbound color applied to every LED by the device.
#[derive(Clone, Copy, PartialEq, Eq, Structural, Debug)]
pub struct RgbSetFullMessage {
    /// The color to apply to all LEDs.
    pub color: Hsv,
}

/// A message of the wire protocol. Press and layer messages are
/// inbound-only; the LED color messages are outbound-only.
#[derive(Clone, Debug)]
pub enum ProtocolMessage {
    /// A key press or release observed by the firmware.
    Press(PressMessage),
    /// A change of the firmware's active layer.
    Layer(LayerMessage),
    /// A batch of per-LED colors to apply.
    RgbSet(RgbSetMessage),
    /// One color to apply to every LED.
    RgbSetFull(RgbSetFullMessage),
}

/// The keycode packing used by the paired firmware: the second byte,
/// whole, shifted left four bits, OR-ed with the first byte. This is not
/// a little-endian u16; the layout is fixed by the firmware.
pub open spec fn spec_read_u16(buf: Seq<u8>, beg_index: int) -> u16 {
    ((buf[beg_index + 1] as u16) << 4) | (buf[beg_index] as u16)
}

/// Reconstructs a keycode from two payload bytes, in the firmware's
/// non-standard nibble packing.
pub fn read_u16(buf: &[u8], beg_index: usize) -> (r: u16)
    requires
        beg_index + 1 < buf@.len(),
    ensures
        r == spec_read_u16(buf@, beg_index as int),
{
    let n: usize = buf.len();
    ((buf[beg_index + 1] as u16) << 4) | (buf[beg_index] as u16)
}

/// Whether the first three bytes of a report are the magic sequence.
pub open spec fn spec_magic_ok(buf: Seq<u8>) -> bool {
    buf[0] == MAGIC_K && buf[1] == MAGIC_S && buf[2] == MAGIC_K
}

/// What an inbound report decodes to: nothing when it is too short, when
/// the magic sequence mismatches, or when the opcode is unrecognized;
/// otherwise a press or a layer message read from the payload bytes.
pub open spec fn spec_decode(buf: Seq<u8>, size: int) -> Option<ProtocolMessage> {
    if size < 4 || !spec_magic_ok(buf) {
        None
    } else {
        let op = buf[3] >> 4;
        let flag = buf[3] & 0x0f;
        if op == KSK_PRESS {
            Some(ProtocolMessage::Press(PressMessage {
                pressed: flag == 1,
                keycode: spec_read_u16(buf, 4),
                col: buf[6],
                row: buf[7],
            }))
        } else if op == KSK_LAYER {
            Some(ProtocolMessage::Layer(LayerMessage { layer_state: buf[4] }))
        } else {
            None
        }
    }
}

impl RgbSetMessage {
    /// Every color of the batch keeps its hue below one full turn.
    pub open spec fn wf(self) -> bool {
        forall|i: int| 0 <= i < self.colors@.len() ==> (#[trigger] self.colors@[i]).1.wf()
    }
}

impl ProtocolMessage {
    /// Reads one inbound report. Returns `None` (not an error) for short
    /// reports, a wrong magic sequence, or an unrecognized opcode; those
    /// reports are meant to be dropped silently.
    pub fn read_buffer(buf: &[u8; RAW_EPSIZE], size: usize) -> (r: Option<ProtocolMessage>)
        ensures
            r == spec_decode(buf@, size as int),
            size < 4 || !spec_magic_ok(buf@) ==> r is None,
            r matches Some(m) ==> (m is Press || m is Layer),
    {
        if size < 4 || buf[0] != MAGIC_K || buf[1] != MAGIC_S || buf[2] != MAGIC_K {
            return None;
        }

        let op = buf[3] >> 4;
        let header_data = buf[3] & 0x0f;

        if op == KSK_PRESS {
            Some(ProtocolMessage::Press(PressMessage {
                pressed: header_data == 1,
                keycode: read_u16(buf.as_slice(), 4),
                col: buf[6],
                row: buf[7],
            }))
        } else if op == KSK_LAYER {
            Some(ProtocolMessage::Layer(LayerMessage { layer_state: buf[4] }))
        } else {
            None
        }
    }

    /// Whether this message may be encoded at all: only the outbound LED
    /// messages may, and a batch must fit the report's seven-entry limit.
    /// Encoding anything else is a caller error, kept out by contract.
    pub open spec fn sendable(self) -> bool {
        match self {
            ProtocolMessage::Press(_) => false,
            ProtocolMessage::Layer(_) => false,
            ProtocolMessage::RgbSet(msg) => msg.colors@.len() <= MAX_RGB_ENTRIES,
            ProtocolMessage::RgbSetFull(_) => true,
        }
    }

    /// Every color carried by the message keeps its hue below one turn.
    pub open spec fn wf(self) -> bool {
        match self {
            ProtocolMessage::Press(_) => true,
            ProtocolMessage::Layer(_) => true,
            ProtocolMessage::RgbSet(msg) => msg.wf(),
            ProtocolMessage::RgbSetFull(msg) => msg.color.wf(),
        }
    }

    /// Whether this message asks for all LEDs to go dark.
    pub open spec fn is_black_full(self) -> bool {
        match self {
            ProtocolMessage::RgbSetFull(msg) => msg.color.val == 0,
            _ => false,
        }
    }

    /// Builds the outbound report bytes for this message: the zero
    /// report-id byte, the magic sequence, the opcode/count byte, then
    /// the color payload. The result never exceeds `RAW_EPSIZE + 1`
    /// bytes.
    pub fn encode(&self) -> (r: Vec<u8>)
        requires
            self.sendable(),
            self.wf(),
        ensures
            r@ == spec_encode(*self),
            r@.len() <= RAW_EPSIZE + 1,
            self.is_black_full() ==> r@ =~= spec_black_full_report(),
    {
        let mut buf: Vec<u8> = Vec::new();
        buf.push(0x00);
        buf.push(MAGIC_K);
        buf.push(MAGIC_S);
        buf.push(MAGIC_K);

        proof {
            assert((KSK_RGB_SET << 4) == 0x20u8) by (bit_vector);
        }

        match self {
            ProtocolMessage::RgbSet(msg) => {
                let n: u8 = msg.colors.len() as u8;
                buf.push((KSK_RGB_SET << 4) | n);

                let ghost prefix = buf@;
                let mut i: usize = 0;
                while i < msg.colors.len()
                    invariant
                        i <= msg.colors@.len(),
                        msg.wf(),
                        buf@ == prefix + spec_encode_entries(msg.colors@.take(i as int)),
                    decreases msg.colors@.len() - i,
                {
                    let (idx, color) = msg.colors[i];
                    buf.push(idx);
                    let (red, green, blue) = hsv_to_rgb(&color);
                    buf.push(red);
                    buf.push(green);
                    buf.push(blue);
                    proof {
                        lemma_encode_entries_snoc(msg.colors@.take(i as int), msg.colors@[i as int]);
                        assert(msg.colors@.take(i + 1) =~= msg.colors@.take(i as int).push(
                            msg.colors@[i as int],
                        ));
                    }
                    i = i + 1;
                }
                proof {
                    assert(msg.colors@.take(msg.colors@.len() as int) =~= msg.colors@);
                    assert(buf@ =~= spec_encode(*self));
                    lemma_encode_entries_len(msg.colors@);
                }
            }
            ProtocolMessage::RgbSetFull(msg) => {
                buf.push(KSK_RGB_SET << 4);
                let (red, green, blue) = hsv_to_rgb(&msg.color);
                buf.push(red);
                buf.push(green);
                buf.push(blue);
                proof {
                    assert(buf@ =~= spec_encode(*self));
                    if self.is_black_full() {
                        assert(buf@ =~= spec_black_full_report());
                    }
                }
            }
            ProtocolMessage::Press(_) => {
                proof {
                    assert(false);
                }
            }
            ProtocolMessage::Layer(_) => {
                proof {
                    assert(false);
                }
            }
        }
        buf
    }
}

/// The four bytes of one batch entry: the LED index, then the RGB bytes
/// of the entry's color.
pub open spec fn spec_entry_bytes(e: (u8, Hsv)) -> Seq<u8> {
    seq![e.0, spec_rgb_of(e.1).0, spec_rgb_of(e.1).1, spec_rgb_of(e.1).2]
}

/// The payload bytes of a batch: its entries' bytes, in order.
pub open spec fn spec_encode_entries(entries: Seq<(u8, Hsv)>) -> Seq<u8>
    decreases entries.len(),
{
    if entries.len() == 0 {
        Seq::empty()
    } else {
        spec_entry_bytes(entries[0]) + spec_encode_entries(entries.drop_first())
    }
}

/// The payload of a batch grows by one entry's four bytes at its end.
pub proof fn lemma_encode_entries_snoc(entries: Seq<(u8, Hsv)>, e: (u8, Hsv))
    ensures
        spec_encode_entries(entries.push(e)) == spec_encode_entries(entries) + spec_entry_bytes(e),
    decreases entries.len(),
{
    lemma_encode_entries_len(entries);
    lemma_encode_entries_len(entries.push(e));
    if entries.len() == 0 {
        assert(entries.push(e).drop_first() =~= Seq::<(u8, Hsv)>::empty());
        assert(entries.push(e)[0] == e);
        assert(spec_encode_entries(entries.push(e)) =~= spec_encode_entries(entries)
            + spec_entry_bytes(e));
    } else {
        assert(entries.push(e).drop_first() =~= entries.drop_first().push(e));
        assert(entries.push(e)[0] == entries[0]);
        lemma_encode_entries_snoc(entries.drop_first(), e);
        lemma_encode_entries_len(entries.drop_first());
        assert(spec_encode_entries(entries.push(e)) =~= spec_encode_entries(entries)
            + spec_entry_bytes(e));
    }
}

/// A batch's payload is four bytes per entry.
pub proof fn lemma_encode_entries_len(entries: Seq<(u8, Hsv)>)
    ensures
        spec_encode_entries(entries).len() == 4 * entries.len(),
    decreases entries.len(),
{
    if entries.len() > 0 {
        lemma_encode_entries_len(entries.drop_first());
    }
}

/// The bytes a sendable message encodes to. For a batch: header with the
/// entry count in the low nibble, then the entries. For the full variant:
/// header with a zero count, then one RGB triplet.
/// The whole report an entry batch encodes to.
pub open spec fn spec_encode_rgbset(entries: Seq<(u8, Hsv)>) -> Seq<u8> {
    seq![0u8, MAGIC_K, MAGIC_S, MAGIC_K, (KSK_RGB_SET << 4) | (entries.len() as u8)]
        + spec_encode_entries(entries)
}

pub open spec fn spec_encode(m: ProtocolMessage) -> Seq<u8> {
    match m {
        ProtocolMessage::RgbSet(msg) => spec_encode_rgbset(msg.colors@),
        ProtocolMessage::RgbSetFull(msg) => seq![
            0u8,
            MAGIC_K,
            MAGIC_S,
            MAGIC_K,
            KSK_RGB_SET << 4,
            spec_rgb_of(msg.color).0,
            spec_rgb_of(msg.color).1,
            spec_rgb_of(msg.color).2,
        ],
        ProtocolMessage::Press(_) => Seq::empty(),
        ProtocolMessage::Layer(_) => Seq::empty(),
    }
}

/// The exact report that asks the device to turn every LED off: zero
/// report-id, the magic sequence, the LED opcode with a zero count, and
/// three zero color bytes.
pub open spec fn spec_black_full_report() -> Seq<u8> {
    seq![0u8, MAGIC_K, MAGIC_S, MAGIC_K, 0x20u8, 0u8, 0u8, 0u8]
}

} // verus!
