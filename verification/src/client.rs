//! What an attached client decides: what it sends to the daemon, and what it
//! shows of what it receives.
use bytes::Bytes;
use vstd::prelude::*;
use vstd::slice::slice_subrange;
use vstd::utf8::encode_utf8;
use crate::buffer::bytes_content;
use crate::protocol::{ExitStatus, Packet, PacketView, ProtocolError, MAX_PAYLOAD};
use crate::protocol_laws::{decoded_times, frames, law_stream_in_order, lemma_between};
use crate::text::{number_value, NumberError};

verus! {

/// The pause between two attempts to connect, in milliseconds.
pub const CONNECT_PAUSE_MS: u64 = 100;

/// The pauses between attempts to connect: with the first attempt, there are
/// twelve.
pub const CONNECT_PAUSES: u32 = 11;

/// Attempts to connect to a daemon that may still be starting.
#[derive(Debug)]
pub struct ConnectRetry {
    pauses: u32,
}

impl ConnectRetry {
    /// The pauses made so far.
    pub closed spec fn pauses_made(&self) -> nat {
        self.pauses as nat
    }

    /// No attempt was made yet.
    pub fn new() -> (retry: Self)
        ensures
            retry.pauses_made() == 0,
    {
        ConnectRetry { pauses: 0 }
    }

    /// Handles an attempt that failed: the pause before the next one in
    /// milliseconds, or nothing if it was the last.
    pub fn after_failure(&mut self) -> (pause: Option<u64>)
        ensures
            final(self).pauses_made() == after_failed_attempt(old(self).pauses_made()),
            pause == failure_pause(old(self).pauses_made()),
    {
        if self.pauses >= CONNECT_PAUSES {
            None
        } else {
            self.pauses += 1;
            Some(CONNECT_PAUSE_MS)
        }
    }
}

/// The pauses made once one more attempt failed.
pub open spec fn after_failed_attempt(made: nat) -> nat {
    if made < CONNECT_PAUSES {
        made + 1
    } else {
        made
    }
}

/// The pauses made once some attempts failed, from the first on.
pub open spec fn after_failed_attempts(failures: nat) -> nat
    decreases failures,
{
    if failures == 0 {
        0
    } else {
        after_failed_attempt(after_failed_attempts((failures - 1) as nat))
    }
}

/// What a failed attempt leads to.
pub open spec fn failure_pause(made: nat) -> Option<u64> {
    if made < CONNECT_PAUSES {
        Some(CONNECT_PAUSE_MS)
    } else {
        None
    }
}

/// Connecting is given up when the twelfth attempt fails, and not before.
pub proof fn law_connecting_is_given_up(failures: nat)
    ensures
        failure_pause(after_failed_attempts(failures)) is Some <==> failures + 1 < 12,
{
    lemma_pauses_made(failures);
}

proof fn lemma_pauses_made(failures: nat)
    ensures
        after_failed_attempts(failures) == if failures <= CONNECT_PAUSES {
            failures
        } else {
            CONNECT_PAUSES as nat
        },
    decreases failures,
{
    if failures > 0 {
        lemma_pauses_made((failures - 1) as nat);
    }
}

/// The bytes that one read from the keyboard may give.
pub const STDIN_BUFFER_LEN: usize = 4096;

/// The packet for what was read from the keyboard: `count` is the number of
/// bytes at the front of the buffer, or nothing if reading failed. There is no
/// packet at the end of the input or after a failure.
pub fn stdin_packet(count: Option<usize>, buffer: &[u8]) -> (packet: Option<Packet>)
    requires
        count matches Some(n) ==> n <= buffer@.len(),
    ensures
        match packet {
            Some(packet) => count is Some && count->0 > 0 && packet@ == PacketView::Data(
                buffer@.take(count->0 as int),
            ),
            None => count is None || count->0 == 0,
        },
{
    match count {
        Some(n) => {
            if n == 0 {
                None
            } else {
                assert(buffer@.subrange(0, n as int) =~= buffer@.take(n as int));
                Some(Packet::Data(Bytes::copy_from_slice(slice_subrange(buffer, 0, n))))
            }
        },
        None => None,
    }
}

/// The packet for a new window size, columns and rows, if it could be found
/// out.
pub fn resize_packet(size: Option<(u16, u16)>) -> (packet: Option<Packet>)
    ensures
        packet == (match size {
            Some((cols, rows)) => Some(Packet::Resize(cols, rows)),
            None => None,
        }),
{
    match size {
        Some((cols, rows)) => Some(Packet::Resize(cols, rows)),
        None => None,
    }
}

/// Tells whether a client goes on sending: there was a packet, and the daemon
/// took it.
pub fn keeps_sending(delivered: Option<bool>) -> (go_on: bool)
    ensures
        go_on == (delivered == Some(true)),
{
    match delivered {
        Some(taken) => taken,
        None => false,
    }
}

/// What a client received.
pub enum Received {
    Packet(Packet),
    /// The connection broke or the daemon sent something else than packets.
    Failed,
    /// The daemon closed the connection.
    Closed,
}

/// What a client does with it.
pub enum Display {
    /// Show these bytes, and stop if that fails.
    Show(Bytes),
    /// Show this text and stop.
    ShowLast(String),
    /// Go on.
    Ignore,
    /// Stop.
    Stop,
}

/// What an action shows.
pub enum DisplayView {
    Show(Seq<u8>),
    ShowLast(Seq<char>),
    Ignore,
    Stop,
}

impl View for Display {
    type V = DisplayView;

    open spec fn view(&self) -> DisplayView {
        match *self {
            Display::Show(data) => DisplayView::Show(bytes_content(data)),
            Display::ShowLast(text) => DisplayView::ShowLast(text@),
            Display::Ignore => DisplayView::Ignore,
            Display::Stop => DisplayView::Stop,
        }
    }
}

/// What a client does with a packet.
pub open spec fn packet_display(packet: PacketView) -> DisplayView {
    match packet {
        PacketView::Data(data) => DisplayView::Show(data),
        PacketView::Exit(status) => DisplayView::ShowLast(status.message_text()),
        PacketView::Resize(_, _) => DisplayView::Ignore,
        PacketView::Signal(_) => DisplayView::Ignore,
    }
}

/// Decides what a client shows: terminal output, and how the shell ended.
pub fn display(received: Received) -> (action: Display)
    ensures
        action@ == (match received {
            Received::Packet(packet) => packet_display(packet@),
            Received::Failed => DisplayView::Stop,
            Received::Closed => DisplayView::Stop,
        }),
{
    match received {
        Received::Packet(packet) => match packet {
            Packet::Data(data) => Display::Show(data),
            Packet::Exit(status) => Display::ShowLast(status.format_message()),
            Packet::Resize(_, _) => Display::Ignore,
            Packet::Signal(_) => Display::Ignore,
        },
        Received::Failed => Display::Stop,
        Received::Closed => Display::Stop,
    }
}

/// What a client shows of the results of decoding what it received, in order.
pub open spec fn shown(results: Seq<Result<Option<PacketView>, ProtocolError>>) -> Seq<u8>
    decreases results.len(),
{
    if results.len() == 0 {
        Seq::empty()
    } else {
        let later = results.drop_first();
        match results[0] {
            Ok(Some(packet)) => match packet_display(packet) {
                DisplayView::Show(data) => data + shown(later),
                DisplayView::ShowLast(text) => encode_utf8(text),
                DisplayView::Ignore => shown(later),
                DisplayView::Stop => Seq::empty(),
            },
            Ok(None) => shown(later),
            Err(_) => Seq::empty(),
        }
    }
}

/// Some chunks, one after another.
pub open spec fn joined(chunks: Seq<Seq<u8>>) -> Seq<u8>
    decreases chunks.len(),
{
    if chunks.len() == 0 {
        Seq::empty()
    } else {
        chunks[0] + joined(chunks.drop_first())
    }
}

/// The packets that a session sends: its output, then how the shell ended.
pub open spec fn session_packets(chunks: Seq<Seq<u8>>, status: ExitStatus) -> Seq<PacketView> {
    Seq::new(chunks.len(), |i: int| PacketView::Data(chunks[i])).push(PacketView::Exit(status))
}

/// From the daemon's packets over the wire to the client's terminal: a client
/// shows all output of the shell, unchanged and in order, and then the message
/// on how the shell ended.
pub proof fn law_client_shows_session(chunks: Seq<Seq<u8>>, status: ExitStatus)
    requires
        forall|i: int| 0 <= i < chunks.len() ==> (#[trigger] chunks[i]).len() <= MAX_PAYLOAD,
    ensures
        shown(
            decoded_times(
                frames(session_packets(chunks, status)),
                session_packets(chunks, status).len(),
            ),
        ) == joined(chunks) + encode_utf8(status.received().message_text()),
{
    broadcast use crate::wire::lemma_be_bytes_len;

    let packets = session_packets(chunks, status);
    assert forall|i: int| 0 <= i < packets.len() implies (#[trigger] packets[i]).payload().len()
        <= MAX_PAYLOAD by {
        if i < chunks.len() {
            assert(packets[i] == PacketView::Data(chunks[i]));
        } else {
            assert(packets[i] == PacketView::Exit(status));
        }
    }
    law_stream_in_order(packets, Seq::empty());
    assert(frames(packets) + Seq::<u8>::empty() =~= frames(packets));
    let results = decoded_times(frames(packets), packets.len());
    assert(results =~= session_results(chunks, status.received()));
    lemma_shown_session(chunks, status.received());
}

spec fn session_results(chunks: Seq<Seq<u8>>, status: ExitStatus) -> Seq<
    Result<Option<PacketView>, ProtocolError>,
> {
    Seq::new(
        chunks.len() + 1,
        |i: int|
            Ok::<Option<PacketView>, ProtocolError>(
                Some(
                    if i < chunks.len() {
                        PacketView::Data(chunks[i])
                    } else {
                        PacketView::Exit(status)
                    },
                ),
            ),
    )
}

proof fn lemma_shown_session(chunks: Seq<Seq<u8>>, status: ExitStatus)
    ensures
        shown(session_results(chunks, status)) == joined(chunks) + encode_utf8(
            status.message_text(),
        ),
    decreases chunks.len(),
{
    let results = session_results(chunks, status);
    let message = encode_utf8(status.message_text());
    if chunks.len() == 0 {
        assert(results[0] == Ok::<Option<PacketView>, ProtocolError>(
            Some(PacketView::Exit(status)),
        ));
        assert(joined(chunks) + message =~= message);
    } else {
        lemma_shown_session(chunks.drop_first(), status);
        assert(results[0] == Ok::<Option<PacketView>, ProtocolError>(
            Some(PacketView::Data(chunks[0])),
        ));
        assert(results.drop_first() =~= session_results(chunks.drop_first(), status));
        assert(joined(chunks) + message =~= chunks[0] + (joined(chunks.drop_first()) + message));
    }
}

/// After each failed attempt to connect but the last there is a pause of 100
/// milliseconds.
pub proof fn law_pauses_are_short(
    fresh: ConnectRetry,
    retry: &mut ConnectRetry,
    pause: Option<u64>,
)
    requires
        call_ensures(ConnectRetry::new, (), fresh),
        call_ensures(ConnectRetry::after_failure, (retry,), pause),
    ensures
        fresh.pauses_made() == 0,
        old(retry).pauses_made() < 11 ==> pause == Some(100u64) && final(retry).pauses_made()
            == old(retry).pauses_made() + 1,
        old(retry).pauses_made() >= 11 ==> pause is None && final(retry).pauses_made() == old(
            retry,
        ).pauses_made(),
{
}

/// What was read from the keyboard is sent byte for byte, and nothing is sent
/// at the end of the input or after a failure.
pub proof fn law_typed_bytes_are_sent(
    count: usize,
    buffer: &[u8],
    packet: Option<Packet>,
    failed: Option<Packet>,
)
    requires
        count <= buffer@.len(),
        call_ensures(stdin_packet, (Some(count), buffer), packet),
        call_ensures(stdin_packet, (None::<usize>, buffer), failed),
    ensures
        count == 0 ==> packet is None,
        count > 0 ==> (packet matches Some(Packet::Data(data)) && bytes_content(data).len() == count
            && (forall|i: int| 0 <= i < count ==> bytes_content(data)[i] == buffer@[i])),
        failed is None,
{
}

/// The window size that is sent is the one that was found out: columns first,
/// then rows.
pub proof fn law_window_size_is_sent(
    cols: u16,
    rows: u16,
    packet: Option<Packet>,
    unknown: Option<Packet>,
)
    requires
        call_ensures(resize_packet, (Some((cols, rows)),), packet),
        call_ensures(resize_packet, (None::<(u16, u16)>,), unknown),
    ensures
        packet matches Some(Packet::Resize(c, r)) && c == cols && r == rows,
        unknown is None,
{
}

/// A client sends on exactly as long as the daemon takes what it sends.
pub proof fn law_sending_stops_when_nothing_is_taken(delivered: Option<bool>, go_on: bool)
    requires
        call_ensures(keeps_sending, (delivered,), go_on),
    ensures
        go_on <==> delivered is Some && delivered->0,
{
}

/// A client shows output byte for byte, and last the message for the exit
/// status that it was sent. It shows nothing else, and stops when the
/// connection ends or breaks.
pub proof fn law_client_shows_what_it_gets(received: Received, action: Display)
    requires
        call_ensures(display, (received,), action),
    ensures
        match received {
            Received::Packet(Packet::Data(data)) => action matches Display::Show(shown)
                && bytes_content(shown) == bytes_content(data),
            Received::Packet(Packet::Exit(status)) => action matches Display::ShowLast(text)
                && text@ == status.message_text(),
            Received::Packet(_) => action is Ignore,
            Received::Failed => action is Stop,
            Received::Closed => action is Stop,
        },
{
}

/// A client tells the user the code that the shell exited with, or the signal
/// that killed it: the number in the last text that it shows reads as that.
pub proof fn law_client_tells_how_the_shell_ended(
    code: i32,
    exited: Display,
    signal: i32,
    killed: Display,
)
    requires
        call_ensures(
            display,
            (Received::Packet(Packet::Exit(ExitStatus { code: Some(code), signal: None })),),
            exited,
        ),
        call_ensures(
            display,
            (Received::Packet(Packet::Exit(ExitStatus { code: None, signal: Some(signal) })),),
            killed,
        ),
    ensures
        exited matches Display::ShowLast(text) && text@.take(24) == "[shell exited with code "@
            && number_value(text@.subrange(24, text@.len() - 3)) == Ok::<int, NumberError>(
            code as int,
        ),
        killed matches Display::ShowLast(text) && text@.take(24) == "[shell killed by signal "@
            && number_value(text@.subrange(24, text@.len() - 3)) == Ok::<int, NumberError>(
            signal as int,
        ),
{
    reveal_strlit("[shell exited with code ");
    reveal_strlit("[shell killed by signal ");
    reveal_strlit("]\r\n");
    lemma_between("[shell exited with code "@, code, "]\r\n"@);
    lemma_between("[shell killed by signal "@, signal, "]\r\n"@);
}

} // verus!
