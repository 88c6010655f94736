//! The packets that client and daemon exchange, and their frames.
//!
//! A frame is one type byte, the payload's length as four bytes with the high
//! byte first, and the payload.
use bytes::{Bytes, BytesMut};
use vstd::prelude::*;
use vstd::slice::slice_subrange;
use crate::buffer::{
    advance, bytes_content, bytes_mut_content, bytes_mut_slice, bytes_slice, get_i32, get_u16,
    get_u32, get_u8, put_i32, put_u16, put_u32, put_u8,
};
use crate::text::{decimal, decimal_i32, decimal_nat, decimal_u64, enclosed};
use crate::wire::{be_bytes, be_i32, be_value, i32_bits, lemma_be_bytes_len};

verus! {

/// The type byte of terminal data.
pub const TYPE_DATA: u8 = 0;

/// The type byte of a window size.
pub const TYPE_RESIZE: u8 = 1;

/// The type byte of a signal.
pub const TYPE_SIGNAL: u8 = 2;

/// The type byte of an exit status.
pub const TYPE_EXIT: u8 = 3;

/// The bytes of a frame before its payload.
pub const HEADER_LEN: usize = 5;

/// The longest payload that a receiver takes: 1 MiB.
pub const MAX_PAYLOAD: usize = 1024 * 1024;

/// What client and daemon tell each other.
#[derive(Debug)]
pub enum Packet {
    /// Bytes from or to the terminal.
    Data(Bytes),
    /// The client's window size: columns, then rows.
    Resize(u16, u16),
    /// A signal for the shell.
    Signal(i32),
    /// How the shell ended.
    Exit(ExitStatus),
}

/// Shell exit status information.
#[derive(Debug, Clone, Copy, PartialEq, Eq, Structural)]
pub struct ExitStatus {
    /// Exit code if the process exited normally.
    pub code: Option<i32>,
    /// Signal number if the process was killed by a signal.
    pub signal: Option<i32>,
}

/// What a packet says.
pub enum PacketView {
    Data(Seq<u8>),
    Resize(u16, u16),
    Signal(i32),
    Exit(ExitStatus),
}

impl View for Packet {
    type V = PacketView;

    open spec fn view(&self) -> PacketView {
        match *self {
            Packet::Data(data) => PacketView::Data(bytes_content(data)),
            Packet::Resize(cols, rows) => PacketView::Resize(cols, rows),
            Packet::Signal(signal) => PacketView::Signal(signal),
            Packet::Exit(status) => PacketView::Exit(status),
        }
    }
}

impl Packet {
    /// The number of bytes in the packet's payload.
    pub fn payload_len(&self) -> (len: usize)
        ensures
            len == self@.payload_len(),
    {
        match self {
            Packet::Data(data) => data.len(),
            Packet::Resize(_, _) => 4,
            Packet::Signal(_) => 4,
            Packet::Exit(_) => 8,
        }
    }
}

impl Clone for Packet {
    fn clone(&self) -> (copy: Self)
        ensures
            copy@ == self@,
    {
        match self {
            Packet::Data(data) => Packet::Data(data.clone()),
            Packet::Resize(cols, rows) => Packet::Resize(*cols, *rows),
            Packet::Signal(signal) => Packet::Signal(*signal),
            Packet::Exit(status) => Packet::Exit(*status),
        }
    }
}

/// Why a frame was refused.
#[derive(Debug, Clone, Copy, PartialEq, Eq, Structural)]
pub enum ProtocolError {
    /// The header announces a payload of this many bytes, over `MAX_PAYLOAD`.
    PayloadTooLarge(usize),
    /// A window size whose payload is not 4 bytes.
    InvalidResize,
    /// A signal whose payload is not 4 bytes.
    InvalidSignal,
    /// An exit status whose payload is not 8 bytes.
    InvalidExit,
    /// A type byte that no packet has.
    UnknownType,
}

/// The kind of an error, as the I/O layer sorts errors.
#[derive(Debug, Clone, Copy, PartialEq, Eq, Structural)]
pub enum ErrorKind {
    /// The bytes received do not follow the protocol.
    InvalidData,
}

impl ProtocolError {
    /// What the error says.
    pub open spec fn message_text(self) -> Seq<char> {
        match self {
            ProtocolError::PayloadTooLarge(len) => "payload too large: "@ + decimal_nat(len as nat)
                + " bytes"@,
            ProtocolError::InvalidResize => "invalid resize payload"@,
            ProtocolError::InvalidSignal => "invalid signal payload"@,
            ProtocolError::InvalidExit => "invalid exit payload"@,
            ProtocolError::UnknownType => "unknown packet type"@,
        }
    }

    /// Every refused frame is invalid data.
    pub fn kind(&self) -> (kind: ErrorKind)
        ensures
            kind == ErrorKind::InvalidData,
    {
        ErrorKind::InvalidData
    }

    /// The error as a human-readable message.
    pub fn message(&self) -> (text: String)
        ensures
            text@ == self.message_text(),
    {
        match *self {
            ProtocolError::PayloadTooLarge(len) => enclosed(
                "payload too large: ",
                decimal_u64(len as u64).as_str(),
                " bytes",
            ),
            ProtocolError::InvalidResize => "invalid resize payload".to_owned(),
            ProtocolError::InvalidSignal => "invalid signal payload".to_owned(),
            ProtocolError::InvalidExit => "invalid exit payload".to_owned(),
            ProtocolError::UnknownType => "unknown packet type".to_owned(),
        }
    }
}

impl ExitStatus {
    /// What the status says.
    pub open spec fn message_text(self) -> Seq<char> {
        match (self.code, self.signal) {
            (Some(code), None) => "[shell exited with code "@ + decimal(code as int) + "]\r\n"@,
            (None, Some(signal)) => "[shell killed by signal "@ + decimal(signal as int)
                + "]\r\n"@,
            _ => "[shell exited]\r\n"@,
        }
    }

    /// The code on the wire: -1 stands for none.
    pub open spec fn code_field(self) -> i32 {
        match self.code {
            Some(code) => code,
            None => (-1) as i32,
        }
    }

    /// The signal on the wire: 0 stands for none.
    pub open spec fn signal_field(self) -> i32 {
        match self.signal {
            Some(signal) => signal,
            None => 0,
        }
    }

    /// The status that a code and a signal on the wire stand for.
    pub open spec fn of_fields(code: i32, signal: i32) -> ExitStatus {
        if signal > 0 {
            ExitStatus { code: None, signal: Some(signal) }
        } else if code >= 0 {
            ExitStatus { code: Some(code), signal: None }
        } else {
            ExitStatus { code: None, signal: None }
        }
    }

    /// The status that a receiver reads from this status's frame: a positive
    /// signal hides the code, and a negative code is as good as none.
    pub open spec fn received(self) -> ExitStatus {
        ExitStatus::of_fields(self.code_field(), self.signal_field())
    }

    /// Create an `ExitStatus` from a normal exit code.
    pub fn from_code(code: i32) -> (status: Self)
        ensures
            status == (ExitStatus { code: Some(code), signal: None }),
    {
        Self { code: Some(code), signal: None }
    }

    /// Create an `ExitStatus` from a signal.
    pub fn from_signal(signal: i32) -> (status: Self)
        ensures
            status == (ExitStatus { code: None, signal: Some(signal) }),
    {
        Self { code: None, signal: Some(signal) }
    }

    /// Format the exit status as a human-readable message.
    pub fn format_message(&self) -> (text: String)
        ensures
            text@ == self.message_text(),
    {
        match (self.code, self.signal) {
            (Some(code), None) => enclosed(
                "[shell exited with code ",
                decimal_i32(code).as_str(),
                "]\r\n",
            ),
            (None, Some(signal)) => enclosed(
                "[shell killed by signal ",
                decimal_i32(signal).as_str(),
                "]\r\n",
            ),
            _ => "[shell exited]\r\n".to_owned(),
        }
    }
}

impl PacketView {
    /// The type byte.
    pub open spec fn type_byte(self) -> u8 {
        match self {
            PacketView::Data(_) => TYPE_DATA,
            PacketView::Resize(_, _) => TYPE_RESIZE,
            PacketView::Signal(_) => TYPE_SIGNAL,
            PacketView::Exit(_) => TYPE_EXIT,
        }
    }

    /// The payload.
    pub open spec fn payload(self) -> Seq<u8> {
        match self {
            PacketView::Data(data) => data,
            PacketView::Resize(cols, rows) => be_bytes(cols as nat, 2) + be_bytes(rows as nat, 2),
            PacketView::Signal(signal) => be_bytes(i32_bits(signal), 4),
            PacketView::Exit(status) => be_bytes(i32_bits(status.code_field()), 4) + be_bytes(
                i32_bits(status.signal_field()),
                4,
            ),
        }
    }

    /// The number of bytes in the payload.
    pub open spec fn payload_len(self) -> nat {
        match self {
            PacketView::Data(data) => data.len(),
            PacketView::Resize(_, _) => 4,
            PacketView::Signal(_) => 4,
            PacketView::Exit(_) => 8,
        }
    }

    /// The whole frame. The length field holds the low 32 bits of the
    /// payload's length.
    pub open spec fn frame(self) -> Seq<u8> {
        seq![self.type_byte()] + be_bytes(self.payload().len() % 0x1_0000_0000, 4) + self.payload()
    }

    /// The packet that a receiver reads from this packet's frame.
    pub open spec fn received(self) -> PacketView {
        match self {
            PacketView::Exit(status) => PacketView::Exit(status.received()),
            _ => self,
        }
    }
}

/// The payload length that a buffer's header announces.
pub open spec fn announced_len(s: Seq<u8>) -> nat {
    be_value(s.subrange(1, 5))
}

/// The length of the frame at the front of a buffer.
pub open spec fn frame_len(s: Seq<u8>) -> int {
    HEADER_LEN + announced_len(s)
}

/// The buffer starts with a whole frame that is not too large.
pub open spec fn has_frame(s: Seq<u8>) -> bool {
    &&& s.len() >= HEADER_LEN
    &&& announced_len(s) <= MAX_PAYLOAD
    &&& s.len() >= frame_len(s)
}

/// What a frame with this type byte and this payload says.
pub open spec fn parsed(type_byte: u8, payload: Seq<u8>) -> Result<PacketView, ProtocolError> {
    if type_byte == TYPE_DATA {
        Ok(PacketView::Data(payload))
    } else if type_byte == TYPE_RESIZE {
        if payload.len() == 4 {
            Ok(
                PacketView::Resize(
                    be_value(payload.take(2)) as u16,
                    be_value(payload.skip(2)) as u16,
                ),
            )
        } else {
            Err(ProtocolError::InvalidResize)
        }
    } else if type_byte == TYPE_SIGNAL {
        if payload.len() == 4 {
            Ok(PacketView::Signal(be_i32(payload)))
        } else {
            Err(ProtocolError::InvalidSignal)
        }
    } else if type_byte == TYPE_EXIT {
        if payload.len() == 8 {
            Ok(
                PacketView::Exit(
                    ExitStatus::of_fields(be_i32(payload.take(4)), be_i32(payload.skip(4))),
                ),
            )
        } else {
            Err(ProtocolError::InvalidExit)
        }
    } else {
        Err(ProtocolError::UnknownType)
    }
}

/// What decoding a buffer gives: a packet, nothing yet, or an error.
pub open spec fn decoded(s: Seq<u8>) -> Result<Option<PacketView>, ProtocolError> {
    if s.len() < HEADER_LEN {
        Ok(None)
    } else if announced_len(s) > MAX_PAYLOAD {
        Err(ProtocolError::PayloadTooLarge(announced_len(s) as usize))
    } else if s.len() < frame_len(s) {
        Ok(None)
    } else {
        match parsed(s[0], s.subrange(HEADER_LEN as int, frame_len(s))) {
            Ok(packet) => Ok(Some(packet)),
            Err(error) => Err(error),
        }
    }
}

/// What decoding leaves of a buffer: a whole frame is taken off, also when it
/// is refused for what it holds.
pub open spec fn undecoded(s: Seq<u8>) -> Seq<u8> {
    if has_frame(s) {
        s.skip(frame_len(s))
    } else {
        s
    }
}

/// What a decoding result says.
pub open spec fn result_view(r: Result<Option<Packet>, ProtocolError>) -> Result<
    Option<PacketView>,
    ProtocolError,
> {
    match r {
        Ok(Some(packet)) => Ok(Some(packet@)),
        Ok(None) => Ok(None),
        Err(error) => Err(error),
    }
}

/// Writes packets as frames and reads them back.
#[derive(Debug, Clone, Copy)]
pub struct PacketCodec;

impl Default for PacketCodec {
    fn default() -> (codec: Self)
        ensures
            codec == PacketCodec,
    {
        PacketCodec
    }
}

impl PacketCodec {
    /// Appends the packet's frame to the buffer.
    pub fn encode(&mut self, item: Packet, dst: &mut BytesMut) -> (r: Result<(), ProtocolError>)
        requires
            bytes_mut_content(*old(dst)).len() + HEADER_LEN + item@.payload_len() <= isize::MAX,
        ensures
            r is Ok,
            bytes_mut_content(*final(dst)) == bytes_mut_content(*old(dst)) + item@.frame(),
    {
        broadcast use lemma_be_bytes_len;

        let ghost before = bytes_mut_content(*dst);
        match item {
            Packet::Data(data) => {
                let len = data.len();
                dst.reserve(HEADER_LEN + len);
                put_u8(dst, TYPE_DATA);
                proof {
                    let n = len as u64;
                    assert(n as u32 == n % 0x1_0000_0000) by (bit_vector);
                }
                put_u32(dst, len as u32);
                dst.extend_from_slice(bytes_slice(&data));
                assert(bytes_mut_content(*dst) =~= before + item@.frame());
            },
            Packet::Resize(cols, rows) => {
                dst.reserve(HEADER_LEN + 4);
                put_u8(dst, TYPE_RESIZE);
                put_u32(dst, 4);
                put_u16(dst, cols);
                put_u16(dst, rows);
                assert(bytes_mut_content(*dst) =~= before + item@.frame());
            },
            Packet::Signal(signal) => {
                dst.reserve(HEADER_LEN + 4);
                put_u8(dst, TYPE_SIGNAL);
                put_u32(dst, 4);
                put_i32(dst, signal);
                assert(bytes_mut_content(*dst) =~= before + item@.frame());
            },
            Packet::Exit(status) => {
                dst.reserve(HEADER_LEN + 8);
                put_u8(dst, TYPE_EXIT);
                put_u32(dst, 8);
                put_i32(dst, status.code.unwrap_or(-1));
                put_i32(dst, status.signal.unwrap_or(0));
                assert(bytes_mut_content(*dst) =~= before + item@.frame());
            },
        }
        Ok(())
    }

    /// Takes the frame at the front of the buffer off and returns its packet,
    /// or nothing while the frame is not complete.
    pub fn decode(&mut self, src: &mut BytesMut) -> (r: Result<Option<Packet>, ProtocolError>)
        ensures
            result_view(r) == decoded(bytes_mut_content(*old(src))),
            bytes_mut_content(*final(src)) == undecoded(bytes_mut_content(*old(src))),
    {
        let ghost s = bytes_mut_content(*src);
        if src.len() < HEADER_LEN {
            return Ok(None);
        }
        let mut header: &[u8] = slice_subrange(bytes_mut_slice(src), 0, HEADER_LEN);
        let packet_type: u8 = get_u8(&mut header);
        let len: usize = get_u32(&mut header) as usize;
        assert(s.subrange(0, 5).skip(1).take(4) =~= s.subrange(1, 5));
        if len > MAX_PAYLOAD {
            return Err(ProtocolError::PayloadTooLarge(len));
        }
        if src.len() < HEADER_LEN + len {
            return Ok(None);
        }
        advance(src, HEADER_LEN);
        let payload = src.split_to(len).freeze();
        assert(s.skip(5).take(len as int) =~= s.subrange(5, 5 + len));
        assert(s.skip(5).skip(len as int) =~= s.skip(5 + len));
        let ghost p = bytes_content(payload);
        let packet = match packet_type {
            TYPE_DATA => Packet::Data(payload),
            TYPE_RESIZE => {
                if payload.len() != 4 {
                    return Err(ProtocolError::InvalidResize);
                }
                let mut buf: &[u8] = bytes_slice(&payload);
                let cols: u16 = get_u16(&mut buf);
                assert(p.skip(2).take(2) =~= p.skip(2));
                let rows: u16 = get_u16(&mut buf);
                Packet::Resize(cols, rows)
            },
            TYPE_SIGNAL => {
                if payload.len() != 4 {
                    return Err(ProtocolError::InvalidSignal);
                }
                let mut buf: &[u8] = bytes_slice(&payload);
                assert(p.take(4) =~= p);
                let signal: i32 = get_i32(&mut buf);
                Packet::Signal(signal)
            },
            TYPE_EXIT => {
                if payload.len() != 8 {
                    return Err(ProtocolError::InvalidExit);
                }
                let mut buf: &[u8] = bytes_slice(&payload);
                let code: i32 = get_i32(&mut buf);
                assert(p.skip(4).take(4) =~= p.skip(4));
                let signal: i32 = get_i32(&mut buf);
                let status = if signal > 0 {
                    ExitStatus::from_signal(signal)
                } else if code >= 0 {
                    ExitStatus::from_code(code)
                } else {
                    ExitStatus { code: None, signal: None }
                };
                Packet::Exit(status)
            },
            _ => {
                return Err(ProtocolError::UnknownType);
            },
        };
        Ok(Some(packet))
    }
}

} // verus!
