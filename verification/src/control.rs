//! The control frames of the delay-tolerant sync engine.
//!
//! A frame is `RRNC`, a version byte, a type byte and the payload's id; a
//! request for missing chunks adds their count and their indexes, each as two
//! bytes with the high byte first.

use vstd::prelude::*;
use vstd::slice::slice_subrange;

use crate::text::same_bytes;

verus! {

/// What a reassembled payload is. A one-byte tag prefixes every payload before
/// chunking, so the receiver can route a completed payload without decoding it.
#[derive(Clone, Copy, Debug, PartialEq, Eq, Structural)]
pub enum PayloadKind {
    /// A carriage bundle of signed records to ingest.
    Bundle,
    /// A signed delivery receipt: proof that the sender's bundle landed.
    Receipt,
}

impl PayloadKind {
    /// The tag byte of a kind.
    pub open spec fn tag_of(self) -> u8 {
        match self {
            PayloadKind::Bundle => 0x01,
            PayloadKind::Receipt => 0x02,
        }
    }

    /// The tag byte.
    pub fn tag(self) -> (r: u8)
        ensures
            r == self.tag_of(),
    {
        match self {
            PayloadKind::Bundle => 0x01,
            PayloadKind::Receipt => 0x02,
        }
    }

    /// The kind that a tag byte stands for, if it stands for one.
    pub fn from_tag(b: u8) -> (r: Option<Self>)
        ensures
            forall|k: PayloadKind| r == Some(k) <==> k.tag_of() == b,
    {
        match b {
            0x01 => Some(PayloadKind::Bundle),
            0x02 => Some(PayloadKind::Receipt),
            _ => None,
        }
    }
}

/// The first four bytes of a control frame, `RRNC`. A data chunk starts with
/// `RRNF`.
pub const CONTROL_MAGIC: [u8; 4] = [0x52, 0x52, 0x4e, 0x43];

/// Control-frame format version.
pub const CONTROL_VERSION: u8 = 1;

/// The type byte of a request for missing chunks.
pub const CTRL_REQUEST_MISSING: u8 = 0x01;

/// The type byte of an acknowledgement.
pub const CTRL_ACK: u8 = 0x02;

/// A tiny reliability control frame.
#[derive(Clone, Debug, PartialEq, Eq)]
pub enum ControlFrame {
    /// "I am still missing these chunk indexes of this payload: resend them."
    RequestMissing {
        /// The payload whose chunks are wanted.
        payload_id: [u8; 32],
        /// The chunk indexes still absent, ascending.
        missing: Vec<u16>,
    },
    /// "I have the whole payload: you may drop it."
    Ack {
        /// The completed payload.
        payload_id: [u8; 32],
    },
}

/// What a control frame says.
#[verifier::ext_equal]
pub enum Control {
    RequestMissing { payload_id: Seq<u8>, missing: Seq<u16> },
    Ack { payload_id: Seq<u8> },
}

impl View for ControlFrame {
    type V = Control;

    open spec fn view(&self) -> Control {
        match self {
            ControlFrame::RequestMissing { payload_id, missing } => Control::RequestMissing {
                payload_id: payload_id@,
                missing: missing@,
            },
            ControlFrame::Ack { payload_id } => Control::Ack { payload_id: payload_id@ },
        }
    }
}

/// A number as two bytes, the high byte first.
pub open spec fn two_bytes(n: int) -> Seq<u8> {
    seq![(n / 256) as u8, (n % 256) as u8]
}

/// The number that two bytes stand for, the high byte first.
pub open spec fn from_two_bytes(hi: u8, lo: u8) -> u16 {
    (hi * 256 + lo) as u16
}

/// Indexes, two bytes each.
pub open spec fn index_bytes(missing: Seq<u16>) -> Seq<u8> {
    Seq::new(2 * missing.len(), |i: int| two_bytes(missing[i / 2] as int)[i % 2])
}

/// The indexes in the first `2 * count` bytes.
pub open spec fn indexes_of(bytes: Seq<u8>, count: nat) -> Seq<u16> {
    Seq::new(count, |i: int| from_two_bytes(bytes[2 * i], bytes[2 * i + 1]))
}

/// Magic, version and type.
pub open spec fn control_header(ty: u8) -> Seq<u8> {
    CONTROL_MAGIC@.push(CONTROL_VERSION).push(ty)
}

/// The wire bytes of a control frame. The count of indexes is sent modulo
/// 65536.
pub open spec fn control_bytes(c: Control) -> Seq<u8> {
    match c {
        Control::RequestMissing { payload_id, missing } => control_header(CTRL_REQUEST_MISSING)
            + payload_id + two_bytes(missing.len() as int % 65536) + index_bytes(missing),
        Control::Ack { payload_id } => control_header(CTRL_ACK) + payload_id,
    }
}

/// What a frame says as a control frame, if it is a well-formed one. Bytes
/// behind the frame are not looked at.
pub open spec fn control_of(bytes: Seq<u8>) -> Option<Control> {
    if bytes.len() < 38 || bytes.take(4) != CONTROL_MAGIC@ || bytes[4] != CONTROL_VERSION {
        None
    } else if bytes[5] == CTRL_ACK {
        Some(Control::Ack { payload_id: bytes.subrange(6, 38) })
    } else if bytes[5] == CTRL_REQUEST_MISSING && bytes.len() >= 40 && bytes.len() >= 40 + 2
        * from_two_bytes(bytes[38], bytes[39]) {
        Some(
            Control::RequestMissing {
                payload_id: bytes.subrange(6, 38),
                missing: indexes_of(
                    bytes.skip(40),
                    from_two_bytes(bytes[38], bytes[39]) as nat,
                ),
            },
        )
    } else {
        None
    }
}

fn push_two_bytes(out: &mut Vec<u8>, n: u16)
    ensures
        final(out)@ == old(out)@ + two_bytes(n as int),
{
    out.push((n / 256) as u8);
    out.push((n % 256) as u8);
    assert(out@ =~= old(out)@ + two_bytes(n as int));
}

fn push_all(out: &mut Vec<u8>, bytes: &[u8])
    ensures
        final(out)@ == old(out)@ + bytes@,
{
    let mut i: usize = 0;
    while i < bytes.len()
        invariant
            i <= bytes.len(),
            out@ == old(out)@ + bytes@.take(i as int),
        decreases bytes.len() - i,
    {
        out.push(bytes[i]);
        i = i + 1;
        assert(out@ =~= old(out)@ + bytes@.take(i as int));
    }
    assert(bytes@.take(i as int) =~= bytes@);
}

fn id_at(bytes: &[u8], at: usize) -> (r: [u8; 32])
    requires
        at + 32 <= bytes.len(),
    ensures
        r@ == bytes@.subrange(at as int, at + 32),
{
    let mut id: [u8; 32] = [0u8; 32];
    let mut i: usize = 0;
    while i < 32
        invariant
            i <= 32,
            at + 32 <= bytes.len(),
            forall|j: int| 0 <= j < i ==> id@[j] == bytes@[at + j],
        decreases 32 - i,
    {
        id[i] = bytes[at + i];
        i = i + 1;
    }
    assert(id@ =~= bytes@.subrange(at as int, at + 32));
    id
}

impl ControlFrame {
    /// Encodes the control frame to wire bytes.
    pub fn encode(&self) -> (r: Vec<u8>)
        ensures
            r@ == control_bytes(self@),
    {
        let mut out: Vec<u8> = Vec::new();
        push_all(&mut out, CONTROL_MAGIC.as_slice());
        out.push(CONTROL_VERSION);
        match self {
            ControlFrame::RequestMissing { payload_id, missing } => {
                out.push(CTRL_REQUEST_MISSING);
                assert(out@ =~= control_header(CTRL_REQUEST_MISSING));
                push_all(&mut out, payload_id.as_slice());
                push_two_bytes(&mut out, (missing.len() % 65536) as u16);
                let ghost head = out@;
                let mut i: usize = 0;
                while i < missing.len()
                    invariant
                        i <= missing.len(),
                        out@ == head + index_bytes(missing@.take(i as int)),
                    decreases missing.len() - i,
                {
                    push_two_bytes(&mut out, missing[i]);
                    i = i + 1;
                    assert(out@ =~= head + index_bytes(missing@.take(i as int)));
                }
                assert(missing@.take(i as int) =~= missing@);
            },
            ControlFrame::Ack { payload_id } => {
                out.push(CTRL_ACK);
                assert(out@ =~= control_header(CTRL_ACK));
                push_all(&mut out, payload_id.as_slice());
            },
        }
        out
    }

    /// Parses a control frame, or `None` if `bytes` is not a well-formed one (not
    /// the control magic, wrong version, truncated, unknown type).
    pub fn decode(bytes: &[u8]) -> (r: Option<ControlFrame>)
        ensures
            match r {
                Some(f) => control_of(bytes@) == Some(f@),
                None => control_of(bytes@) is None,
            },
    {
        if bytes.len() < 38 {
            return None;
        }
        let magic = slice_subrange(bytes, 0, 4);
        assert(magic@ == bytes@.take(4));
        if !same_bytes(magic, CONTROL_MAGIC.as_slice()) || bytes[4] != CONTROL_VERSION {
            return None;
        }
        let ty: u8 = bytes[5];
        let payload_id = id_at(bytes, 6);
        if ty == CTRL_ACK {
            return Some(ControlFrame::Ack { payload_id });
        }
        if ty != CTRL_REQUEST_MISSING || bytes.len() < 40 {
            return None;
        }
        let count: usize = bytes[38] as usize * 256 + bytes[39] as usize;
        if bytes.len() - 40 < count * 2 {
            return None;
        }
        let mut missing: Vec<u16> = Vec::new();
        let mut i: usize = 0;
        while i < count
            invariant
                i <= count,
                count <= 65535,
                bytes.len() >= 40 + count * 2,
                missing@ == indexes_of(bytes@.skip(40), i as nat),
            decreases count - i,
        {
            let hi: u8 = bytes[40 + 2 * i];
            let lo: u8 = bytes[40 + 2 * i + 1];
            missing.push(hi as u16 * 256 + lo as u16);
            i = i + 1;
            assert(missing@ =~= indexes_of(bytes@.skip(40), i as nat));
        }
        Some(ControlFrame::RequestMissing { payload_id, missing })
    }
}

/// A frame that was encoded decodes to itself. A request names at most 65535
/// chunks: with more the two-byte count cannot hold their number.
pub proof fn law_decode_inverts_encode(f: ControlFrame)
    requires
        f matches ControlFrame::RequestMissing { missing, .. } ==> missing@.len() <= 65535,
    ensures
        control_of(control_bytes(f@)) == Some(f@),
{
    let bytes = control_bytes(f@);
    assert(bytes.take(4) =~= CONTROL_MAGIC@);
    match f@ {
        Control::RequestMissing { payload_id, missing } => {
            assert(bytes.subrange(6, 38) =~= payload_id);
            let n = missing.len() as int;
            assert(bytes[38] == (n / 256) as u8);
            assert(bytes[39] == (n % 256) as u8);
            assert(from_two_bytes(bytes[38], bytes[39]) == n);
            assert(bytes.skip(40) =~= index_bytes(missing));
            assert(indexes_of(bytes.skip(40), missing.len()) =~= missing);
        },
        Control::Ack { payload_id } => {
            assert(bytes.subrange(6, 38) =~= payload_id);
        },
    }
}

/// A data chunk, which starts with `RRNF`, is never taken for a control frame.
pub proof fn law_data_chunks_are_no_control_frames(bytes: Seq<u8>)
    requires
        bytes.len() >= 4,
        bytes.take(4) == seq![0x52u8, 0x52u8, 0x4eu8, 0x46u8],
    ensures
        control_of(bytes) is None,
{
    assert(CONTROL_MAGIC@[3] == 0x43u8);
}

} // verus!
