//! What holds between encoding and decoding.
use bytes::BytesMut;
use vstd::prelude::*;
use crate::buffer::{bytes_content, bytes_mut_content};
use crate::protocol::{
    announced_len, decoded, frame_len, has_frame, parsed, undecoded, ErrorKind, ExitStatus, Packet,
    PacketCodec, PacketView, ProtocolError, HEADER_LEN, MAX_PAYLOAD,
};
use crate::text::{decimal, decimal_nat, law_decimal_reads_back, number_value, NumberError};
use crate::text_laws::{all_digits, law_decimal_spells, spelled};
use crate::wire::{
    be_bytes, i32_bits, law_high_byte_first, law_high_byte_is_read_first, lemma_be_bytes_len,
    lemma_be_bytes_of_i32, lemma_be_bytes_of_value, lemma_be_i32_of_bytes, lemma_be_value_bound,
    lemma_be_value_of_bytes, lemma_wire_widths,
};

verus! {

/// The frames of some packets, one after another.
pub open spec fn frames(packets: Seq<PacketView>) -> Seq<u8>
    decreases packets.len(),
{
    if packets.len() == 0 {
        Seq::empty()
    } else {
        packets[0].frame() + frames(packets.drop_first())
    }
}

/// What decoding a buffer `count` times gives.
pub open spec fn decoded_times(s: Seq<u8>, count: nat) -> Seq<
    Result<Option<PacketView>, ProtocolError>,
>
    decreases count,
{
    if count == 0 {
        Seq::empty()
    } else {
        seq![decoded(s)] + decoded_times(undecoded(s), (count - 1) as nat)
    }
}

/// What decoding a buffer `count` times leaves of it.
pub open spec fn undecoded_times(s: Seq<u8>, count: nat) -> Seq<u8>
    decreases count,
{
    if count == 0 {
        s
    } else {
        undecoded_times(undecoded(s), (count - 1) as nat)
    }
}

/// A frame is as long as its header and its payload, and the length of the
/// payload follows from the kind of packet.
pub proof fn law_frame_length(packet: PacketView)
    ensures
        packet.payload().len() == packet.payload_len(),
        packet.frame().len() == HEADER_LEN + packet.payload_len(),
{
    broadcast use lemma_be_bytes_len;

}

/// The header at the front of a frame says how long the payload is.
proof fn lemma_frame_header(packet: PacketView, tail: Seq<u8>)
    requires
        packet.payload().len() < 0x1_0000_0000,
    ensures
        packet.frame().len() == HEADER_LEN + packet.payload().len(),
        (packet.frame() + tail)[0] == packet.type_byte(),
        announced_len(packet.frame() + tail) == packet.payload().len(),
{
    broadcast use lemma_be_bytes_len;

    let n = packet.payload().len();
    let s = packet.frame() + tail;
    lemma_wire_widths();
    lemma_be_value_of_bytes(n, 4);
    assert(s.subrange(1, 5) =~= be_bytes(n, 4));
}

/// A payload says what was put into it.
proof fn lemma_payload_parses(packet: PacketView)
    ensures
        parsed(packet.type_byte(), packet.payload()) == Ok::<PacketView, ProtocolError>(
            packet.received(),
        ),
{
    broadcast use lemma_be_bytes_len;

    lemma_wire_widths();
    let payload = packet.payload();
    match packet {
        PacketView::Data(_) => {},
        PacketView::Resize(cols, rows) => {
            lemma_be_value_of_bytes(cols as nat, 2);
            lemma_be_value_of_bytes(rows as nat, 2);
            assert(payload.take(2) =~= be_bytes(cols as nat, 2));
            assert(payload.skip(2) =~= be_bytes(rows as nat, 2));
        },
        PacketView::Signal(signal) => {
            lemma_be_i32_of_bytes(signal);
        },
        PacketView::Exit(status) => {
            lemma_be_i32_of_bytes(status.code_field());
            lemma_be_i32_of_bytes(status.signal_field());
            assert(payload.take(4) =~= be_bytes(i32_bits(status.code_field()), 4));
            assert(payload.skip(4) =~= be_bytes(i32_bits(status.signal_field()), 4));
        },
    }
}

/// Decoding a frame gives the packet back and leaves exactly the bytes behind
/// the frame. For an exit status, "the packet" is the status without what a
/// frame cannot tell apart.
pub proof fn law_round_trip(packet: PacketView, rest: Seq<u8>)
    requires
        packet.payload().len() <= MAX_PAYLOAD,
    ensures
        decoded(packet.frame() + rest) == Ok::<Option<PacketView>, ProtocolError>(
            Some(packet.received()),
        ),
        undecoded(packet.frame() + rest) == rest,
{
    let s = packet.frame() + rest;
    lemma_frame_header(packet, rest);
    lemma_payload_parses(packet);
    broadcast use lemma_be_bytes_len;

    assert(s.subrange(HEADER_LEN as int, frame_len(s)) =~= packet.payload());
    assert(s.skip(frame_len(s)) =~= rest);
}

/// Data, window sizes and signals arrive as they were sent. So does an exit
/// status that holds a code that is not negative, or a positive signal, or
/// nothing.
pub proof fn law_received_as_sent(packet: PacketView)
    ensures
        packet is Data || packet is Resize || packet is Signal ==> packet.received() == packet,
        packet matches PacketView::Exit(status) ==> ({
            ||| status.signal is None && status.code is Some && status.code->0 >= 0
            ||| status.code is None && status.signal is Some && status.signal->0 > 0
            ||| status.code is None && status.signal is None
        } <==> packet.received() == packet),
        packet.received().received() == packet.received(),
{
}

/// While a part of a frame is missing, decoding returns nothing and leaves
/// the buffer alone.
pub proof fn law_partial_frame_waits(packet: PacketView, count: int)
    requires
        packet.payload().len() <= MAX_PAYLOAD,
        0 <= count < packet.frame().len(),
    ensures
        decoded(packet.frame().take(count)) == Ok::<Option<PacketView>, ProtocolError>(None),
        undecoded(packet.frame().take(count)) == packet.frame().take(count),
{
    let s = packet.frame().take(count);
    lemma_frame_header(packet, Seq::empty());
    assert(packet.frame() + Seq::<u8>::empty() =~= packet.frame());
    if count >= HEADER_LEN {
        assert(s.subrange(1, 5) =~= packet.frame().subrange(1, 5));
    }
}

/// Bytes that arrive later change neither a packet nor an error that the
/// buffer already gives; they stay behind what decoding leaves.
pub proof fn law_later_bytes_change_nothing(s: Seq<u8>, more: Seq<u8>)
    requires
        decoded(s) != Ok::<Option<PacketView>, ProtocolError>(None),
    ensures
        decoded(s + more) == decoded(s),
        undecoded(s + more) == undecoded(s) + more,
{
    let t = s + more;
    assert(t.subrange(1, 5) =~= s.subrange(1, 5));
    if has_frame(s) {
        assert(t.subrange(HEADER_LEN as int, frame_len(s)) =~= s.subrange(
            HEADER_LEN as int,
            frame_len(s),
        ));
        assert(t.skip(frame_len(s)) =~= s.skip(frame_len(s)) + more);
    }
}

/// Packets sent one after another arrive all, in order, and what follows them
/// is left.
pub proof fn law_stream_in_order(packets: Seq<PacketView>, rest: Seq<u8>)
    requires
        forall|i: int|
            0 <= i < packets.len() ==> (#[trigger] packets[i]).payload().len() <= MAX_PAYLOAD,
    ensures
        decoded_times(frames(packets) + rest, packets.len()) == Seq::new(
            packets.len(),
            |i: int| Ok::<Option<PacketView>, ProtocolError>(Some(packets[i].received())),
        ),
        undecoded_times(frames(packets) + rest, packets.len()) == rest,
    decreases packets.len(),
{
    let s = frames(packets) + rest;
    let expected = Seq::new(
        packets.len(),
        |i: int| Ok::<Option<PacketView>, ProtocolError>(Some(packets[i].received())),
    );
    if packets.len() == 0 {
        assert(s =~= rest);
        assert(decoded_times(s, 0) =~= expected);
    } else {
        let later = packets.drop_first();
        law_round_trip(packets[0], frames(later) + rest);
        assert(s =~= packets[0].frame() + (frames(later) + rest));
        assert forall|i: int| 0 <= i < later.len() implies (#[trigger] later[i]).payload().len()
            <= MAX_PAYLOAD by {
            assert(later[i] == packets[i + 1]);
        }
        law_stream_in_order(later, rest);
        assert(decoded_times(s, packets.len()) =~= expected);
    }
}

/// A frame with a payload over the limit is refused, names the payload's
/// length, and stays in the buffer.
pub proof fn law_oversized_payload_refused(packet: PacketView, rest: Seq<u8>)
    requires
        MAX_PAYLOAD < packet.payload().len() < 0x1_0000_0000,
    ensures
        decoded(packet.frame() + rest) == Err::<Option<PacketView>, ProtocolError>(
            ProtocolError::PayloadTooLarge(packet.payload().len() as usize),
        ),
        undecoded(packet.frame() + rest) == packet.frame() + rest,
{
    lemma_frame_header(packet, rest);
}

/// Decoding only takes bytes off the front, and it takes a whole frame off
/// whenever it returns a packet or refuses what a frame holds.
pub proof fn law_decoding_takes_a_prefix(s: Seq<u8>)
    ensures
        undecoded(s).len() <= s.len(),
        s.skip(s.len() - undecoded(s).len()) == undecoded(s),
        has_frame(s) ==> undecoded(s).len() == s.len() - HEADER_LEN - announced_len(s),
        decoded(s) matches Ok(Some(_)) ==> has_frame(s),
        !has_frame(s) ==> undecoded(s) == s && (decoded(s) == Ok::<
            Option<PacketView>,
            ProtocolError,
        >(None) || decoded(s) is Err && announced_len(s) > MAX_PAYLOAD),
{
    assert(s.skip(0) =~= s);
}

/// A decoded packet that is no exit status encodes to the bytes that it was
/// decoded from. A decoded exit status encodes to a frame that decodes to it.
pub proof fn law_decoded_packet_encodes_back(s: Seq<u8>)
    requires
        decoded(s) matches Ok(Some(_)),
    ensures
        ({
            let packet = decoded(s)->Ok_0->Some_0;
            &&& packet.received() == packet
            &&& packet !is Exit ==> packet.frame() + undecoded(s) == s
        }),
{
    broadcast use lemma_be_bytes_len;

    let packet = decoded(s)->Ok_0->Some_0;
    let payload = s.subrange(HEADER_LEN as int, frame_len(s));
    assert(parsed(s[0], payload) == Ok::<PacketView, ProtocolError>(packet));
    lemma_wire_widths();
    lemma_be_bytes_of_value(s.subrange(1, 5));
    if packet is Resize {
        lemma_be_value_bound(payload.take(2));
        lemma_be_value_bound(payload.skip(2));
        lemma_be_bytes_of_value(payload.take(2));
        lemma_be_bytes_of_value(payload.skip(2));
        assert(payload.take(2) + payload.skip(2) =~= payload);
    }
    if packet is Signal {
        lemma_be_bytes_of_i32(payload);
    }
    if packet !is Exit {
        assert(packet.payload() == payload);
        assert(packet.frame() + undecoded(s) =~= s);
    }
}

/// The packets that a buffer gives until it gives no more, and what is left
/// then.
pub open spec fn drained(s: Seq<u8>) -> (Seq<PacketView>, Seq<u8>)
    decreases s.len(),
{
    match decoded(s) {
        Ok(Some(packet)) => {
            proof {
                law_decoding_takes_a_prefix(s);
            }
            let (later, rest) = drained(undecoded(s));
            (seq![packet] + later, rest)
        },
        _ => (Seq::empty(), s),
    }
}

/// However the bytes of a connection are cut into pieces, the same packets
/// come out of them and the same bytes are left: what was taken off between
/// two pieces and what comes after the second are what the whole gives.
pub proof fn law_pieces_do_not_matter(first: Seq<u8>, second: Seq<u8>)
    ensures
        drained(first + second).0 == drained(first).0 + drained(drained(first).1 + second).0,
        drained(first + second).1 == drained(drained(first).1 + second).1,
    decreases first.len(),
{
    if let Ok(Some(packet)) = decoded(first) {
        law_decoding_takes_a_prefix(first);
        law_later_bytes_change_nothing(first, second);
        law_pieces_do_not_matter(undecoded(first), second);
        assert(drained(first + second).0 =~= drained(first).0 + drained(
            drained(first).1 + second,
        ).0);
    } else {
        assert(drained(first).0 + drained(first + second).0 =~= drained(first + second).0);
    }
}

/// The number in two bytes from `i` on, high byte first.
pub open spec fn two_bytes(s: Seq<u8>, i: int) -> int {
    s[i] * 0x100 + s[i + 1]
}

/// The number in four bytes from `i` on, high byte first.
pub open spec fn four_bytes(s: Seq<u8>, i: int) -> int {
    s[i] * 0x100_0000 + s[i + 1] * 0x1_0000 + s[i + 2] * 0x100 + s[i + 3]
}

/// The four bytes from `i` on hold a 32-bit number, a negative one as what it
/// lacks to 2 to the power of 32.
pub open spec fn holds_i32(s: Seq<u8>, i: int, n: i32) -> bool {
    four_bytes(s, i) == if n < 0 {
        0x1_0000_0000 + n
    } else {
        n as int
    }
}

/// The bytes of a packet on the wire, place by place.
pub open spec fn is_on_wire_as(packet: Packet, f: Seq<u8>) -> bool {
    &&& f.len() >= 5
    &&& four_bytes(f, 1) == (f.len() - 5) % 0x1_0000_0000
    &&& match packet {
        Packet::Data(data) => f[0] == 0 && f.skip(5) == bytes_content(data),
        Packet::Resize(cols, rows) => f.len() == 9 && f[0] == 1 && two_bytes(f, 5) == cols
            && two_bytes(f, 7) == rows,
        Packet::Signal(signal) => f.len() == 9 && f[0] == 2 && holds_i32(f, 5, signal),
        Packet::Exit(status) => {
            &&& f.len() == 13
            &&& f[0] == 3
            &&& status.code matches Some(code) ==> holds_i32(f, 5, code)
            &&& status.code is None ==> holds_i32(f, 5, (-1) as i32)
            &&& status.signal matches Some(signal) ==> holds_i32(f, 9, signal)
            &&& status.signal is None ==> holds_i32(f, 9, 0)
        },
    }
}

/// Encoding keeps what the buffer holds and appends a frame: a type byte, the
/// payload's length in four bytes, and the payload, with every number high
/// byte first.
pub proof fn law_encoding_writes_these_bytes(
    codec: &mut PacketCodec,
    packet: Packet,
    dst: &mut BytesMut,
    r: Result<(), ProtocolError>,
)
    requires
        call_ensures(PacketCodec::encode, (codec, packet, dst), r),
    ensures
        ({
            let before = bytes_mut_content(*old(dst));
            let after = bytes_mut_content(*final(dst));
            &&& r is Ok
            &&& after.len() >= before.len()
            &&& after.take(before.len() as int) == before
            &&& is_on_wire_as(packet, after.skip(before.len() as int))
        }),
{
    let before = bytes_mut_content(*old(dst));
    let after = bytes_mut_content(*final(dst));
    let f = packet@.frame();
    assert(after.take(before.len() as int) =~= before);
    assert(after.skip(before.len() as int) =~= f);
    lemma_frame_places(packet);
}

proof fn lemma_frame_places(packet: Packet)
    ensures
        is_on_wire_as(packet, packet@.frame()),
{
    broadcast use lemma_be_bytes_len;

    let f = packet@.frame();
    let payload = packet@.payload();
    let len = be_bytes(payload.len() % 0x1_0000_0000, 4);
    law_high_byte_first(payload.len() % 0x1_0000_0000);
    assert(f[1] == len[0] && f[2] == len[1] && f[3] == len[2] && f[4] == len[3]);
    assert(f.skip(5) =~= payload);
    assert(forall|i: int| 0 <= i < payload.len() ==> f[i + 5] == #[trigger] payload[i]);
    match packet {
        Packet::Data(_) => {},
        Packet::Resize(cols, rows) => {
            law_high_byte_first(cols as nat);
            law_high_byte_first(rows as nat);
            assert(f[5] == payload[0] && f[6] == payload[1] && f[7] == payload[2] && f[8]
                == payload[3]);
        },
        Packet::Signal(signal) => {
            law_high_byte_first(i32_bits(signal));
            assert(f[5] == payload[0] && f[6] == payload[1] && f[7] == payload[2] && f[8]
                == payload[3]);
        },
        Packet::Exit(status) => {
            law_high_byte_first(i32_bits(status.code_field()));
            law_high_byte_first(i32_bits(status.signal_field()));
            assert(f[5] == payload[0] && f[6] == payload[1] && f[7] == payload[2] && f[8]
                == payload[3]);
            assert(f[9] == payload[4] && f[10] == payload[5] && f[11] == payload[6] && f[12]
                == payload[7]);
        },
    }
}

/// What decoding makes of the bytes `s`, place by place: what is returned, and
/// what is left in the buffer.
pub open spec fn is_read_as(
    s: Seq<u8>,
    r: Result<Option<Packet>, ProtocolError>,
    left: Seq<u8>,
) -> bool {
    let n = four_bytes(s, 1);
    if s.len() < 5 {
        r == Ok::<Option<Packet>, ProtocolError>(None) && left == s
    } else if n > 1048576 {
        r == Err::<Option<Packet>, ProtocolError>(ProtocolError::PayloadTooLarge(n as usize))
            && left == s
    } else if s.len() < 5 + n {
        r == Ok::<Option<Packet>, ProtocolError>(None) && left == s
    } else {
        &&& left == s.skip(5 + n)
        &&& s[0] == 0 ==> (r matches Ok(Some(Packet::Data(data))) && bytes_content(data)
            == s.subrange(5, 5 + n))
        &&& s[0] == 1 && n == 4 ==> (r matches Ok(Some(Packet::Resize(cols, rows))) && cols
            == two_bytes(s, 5) && rows == two_bytes(s, 7))
        &&& s[0] == 1 && n != 4 ==> r == Err::<Option<Packet>, ProtocolError>(
            ProtocolError::InvalidResize,
        )
        &&& s[0] == 2 && n == 4 ==> (r matches Ok(Some(Packet::Signal(signal))) && holds_i32(
            s,
            5,
            signal,
        ))
        &&& s[0] == 2 && n != 4 ==> r == Err::<Option<Packet>, ProtocolError>(
            ProtocolError::InvalidSignal,
        )
        &&& s[0] == 3 && n == 8 ==> (r matches Ok(Some(Packet::Exit(status))) && {
            let code = four_bytes(s, 5);
            let signal = four_bytes(s, 9);
            if 0 < signal < 0x8000_0000 {
                status.code is None && (status.signal matches Some(g) && g == signal)
            } else if code < 0x8000_0000 {
                status.signal is None && (status.code matches Some(c) && c == code)
            } else {
                status.signal is None && status.code is None
            }
        })
        &&& s[0] == 3 && n != 8 ==> r == Err::<Option<Packet>, ProtocolError>(
            ProtocolError::InvalidExit,
        )
        &&& s[0] > 3 ==> r == Err::<Option<Packet>, ProtocolError>(ProtocolError::UnknownType)
    }
}

/// Decoding reads the frame at the front of the buffer byte by byte: a packet
/// of each kind has its numbers in their places, a frame over 1 MiB is refused
/// and stays, and every other whole frame is taken off.
pub proof fn law_decoding_reads_these_bytes(
    codec: &mut PacketCodec,
    src: &mut BytesMut,
    r: Result<Option<Packet>, ProtocolError>,
)
    requires
        call_ensures(PacketCodec::decode, (codec, src), r),
    ensures
        is_read_as(bytes_mut_content(*old(src)), r, bytes_mut_content(*final(src))),
{
    let s = bytes_mut_content(*old(src));
    if s.len() >= 5 {
        law_high_byte_is_read_first(s.subrange(1, 5));
        let n = four_bytes(s, 1);
        assert(announced_len(s) == n);
        if n <= 1048576 && s.len() >= 5 + n {
            let p = s.subrange(5, 5 + n);
            if n == 4 {
                law_high_byte_is_read_first(p);
                law_high_byte_is_read_first(p.take(2));
                law_high_byte_is_read_first(p.skip(2));
            }
            if n == 8 {
                law_high_byte_is_read_first(p.take(4));
                law_high_byte_is_read_first(p.skip(4));
            }
        }
    }
}

/// What a whole exchange does to a packet: what one side encodes into an empty
/// buffer the other decodes, unchanged, for every packet that is no exit
/// status and not over 1 MiB, and nothing is left.
pub proof fn law_calls_round_trip(
    sender: &mut PacketCodec,
    sent: Packet,
    wire: &mut BytesMut,
    e: Result<(), ProtocolError>,
    receiver: &mut PacketCodec,
    arrived: &mut BytesMut,
    r: Result<Option<Packet>, ProtocolError>,
)
    requires
        bytes_mut_content(*old(wire)).len() == 0,
        call_ensures(PacketCodec::encode, (sender, sent, wire), e),
        bytes_mut_content(*old(arrived)) == bytes_mut_content(*final(wire)),
        call_ensures(PacketCodec::decode, (receiver, arrived), r),
        sent matches Packet::Data(data) ==> bytes_content(data).len() <= 1048576,
    ensures
        bytes_mut_content(*final(arrived)).len() == 0,
        match sent {
            Packet::Data(data) => r matches Ok(Some(Packet::Data(got))) && bytes_content(got)
                == bytes_content(data),
            Packet::Resize(cols, rows) => r == Ok::<Option<Packet>, ProtocolError>(
                Some(Packet::Resize(cols, rows)),
            ),
            Packet::Signal(signal) => r == Ok::<Option<Packet>, ProtocolError>(
                Some(Packet::Signal(signal)),
            ),
            Packet::Exit(status) => r matches Ok(Some(Packet::Exit(got))) && {
                &&& (status.signal is Some && status.signal->0 > 0) ==> got.signal == status.signal
                    && got.code is None
                &&& (status.signal is None && status.code is Some && status.code->0 >= 0)
                    ==> got.code == status.code && got.signal is None
                &&& status.signal is None && status.code is None ==> got.code is None
                    && got.signal is None
            },
        },
{
    broadcast use lemma_be_bytes_len;

    let f = sent@.frame();
    assert(bytes_mut_content(*final(wire)) =~= f + Seq::<u8>::empty());
    law_round_trip(sent@, Seq::empty());
}

/// An exit status is made of exactly the code or the signal it is given, and
/// its message names that number: what stands between the fixed words reads as
/// the number.
pub proof fn law_exit_messages_name_the_number(
    code: i32,
    exited: ExitStatus,
    exit_text: String,
    signal: i32,
    killed: ExitStatus,
    kill_text: String,
)
    requires
        call_ensures(ExitStatus::from_code, (code,), exited),
        call_ensures(ExitStatus::format_message, (&exited,), exit_text),
        call_ensures(ExitStatus::from_signal, (signal,), killed),
        call_ensures(ExitStatus::format_message, (&killed,), kill_text),
    ensures
        exited.code == Some(code) && exited.signal is None,
        killed.signal == Some(signal) && killed.code is None,
        exit_text@.len() > 27,
        exit_text@.take(24) == "[shell exited with code "@,
        exit_text@.skip(exit_text@.len() - 3) == "]\r\n"@,
        number_value(exit_text@.subrange(24, exit_text@.len() - 3)) == Ok::<int, NumberError>(
            code as int,
        ),
        kill_text@.len() > 27,
        kill_text@.take(24) == "[shell killed by signal "@,
        kill_text@.skip(kill_text@.len() - 3) == "]\r\n"@,
        number_value(kill_text@.subrange(24, kill_text@.len() - 3)) == Ok::<int, NumberError>(
            signal as int,
        ),
{
    reveal_strlit("[shell exited with code ");
    reveal_strlit("[shell killed by signal ");
    reveal_strlit("]\r\n");
    lemma_between("[shell exited with code "@, code, "]\r\n"@);
    lemma_between("[shell killed by signal "@, signal, "]\r\n"@);
}

/// A number between two texts stands where it was put and reads as itself.
pub proof fn lemma_between(before: Seq<char>, n: i32, after: Seq<char>)
    ensures
        ({
            let text = before + decimal(n as int) + after;
            let len = text.len();
            &&& len > before.len() + after.len()
            &&& text.take(before.len() as int) == before
            &&& text.skip(len - after.len()) == after
            &&& text.subrange(before.len() as int, len - after.len()) == decimal(n as int)
            &&& number_value(decimal(n as int)) == Ok::<int, NumberError>(n as int)
        }),
{
    let text = before + decimal(n as int) + after;
    law_decimal_reads_back(n as int);
    assert(text.take(before.len() as int) =~= before);
    assert(text.skip(text.len() - after.len()) =~= after);
    assert(text.subrange(before.len() as int, text.len() - after.len()) =~= decimal(n as int));
}

/// An exit status with neither number, or with both, says only that the shell
/// ended.
pub proof fn law_other_exits_name_no_number(status: ExitStatus, text: String)
    requires
        call_ensures(ExitStatus::format_message, (&status,), text),
        status.code is Some <==> status.signal is Some,
    ensures
        text@ == "[shell exited]\r\n"@,
{
}

/// The error for a frame over the limit names its length in bytes; the other
/// errors have fixed words. All are invalid data.
pub proof fn law_errors_say_why(
    error: ProtocolError,
    text: String,
    kind: ErrorKind,
)
    requires
        call_ensures(ProtocolError::message, (&error,), text),
        call_ensures(ProtocolError::kind, (&error,), kind),
    ensures
        kind is InvalidData,
        error matches ProtocolError::PayloadTooLarge(len) ==> {
            &&& text@.len() > 25
            &&& text@.take(19) == "payload too large: "@
            &&& text@.skip(text@.len() - 6) == " bytes"@
            &&& all_digits(text@.subrange(19, text@.len() - 6))
            &&& spelled(text@.subrange(19, text@.len() - 6)) == len
        },
        error is InvalidResize ==> text@ == "invalid resize payload"@,
        error is InvalidSignal ==> text@ == "invalid signal payload"@,
        error is InvalidExit ==> text@ == "invalid exit payload"@,
        error is UnknownType ==> text@ == "unknown packet type"@,
{
    if let ProtocolError::PayloadTooLarge(len) = error {
        reveal_strlit("payload too large: ");
        reveal_strlit(" bytes");
        law_decimal_spells(len as nat);
        assert(text@.take(19) =~= "payload too large: "@);
        assert(text@.skip(text@.len() - 6) =~= " bytes"@);
        assert(text@.subrange(19, text@.len() - 6) =~= decimal_nat(len as nat));
    }
}

/// The payload's length is what encoding adds to a buffer besides the five
/// bytes of the header.
pub proof fn law_payload_len_is_what_encoding_adds(
    packet: Packet,
    len: usize,
    codec: &mut PacketCodec,
    dst: &mut BytesMut,
    r: Result<(), ProtocolError>,
)
    requires
        call_ensures(Packet::payload_len, (&packet,), len),
        call_ensures(PacketCodec::encode, (codec, packet, dst), r),
    ensures
        bytes_mut_content(*final(dst)).len() == bytes_mut_content(*old(dst)).len() + 5 + len,
{
    law_frame_length(packet@);
}

/// A clone of a packet is the same packet, and its data the same bytes.
pub proof fn law_clones_say_the_same(packet: Packet, copy: Packet)
    requires
        call_ensures(Packet::clone, (&packet,), copy),
    ensures
        match packet {
            Packet::Data(data) => copy matches Packet::Data(d) && bytes_content(d)
                == bytes_content(data),
            _ => copy == packet,
        },
{
}

} // verus!
