//! The radio controller: the dialogue that configures the radio at start-up,
//! and the writer that turns queued datagrams into frames.

use crate::bytebuf::bytes_seq;
use crate::ser::{
    spec_readln, spec_readln_consumed, LineRead, LineReadView, XBSerReader, XBSerWriter,
};
use crate::text::{parse_hex, spec_parse_hex};
use crate::xbpacket::{
    spec_frame_id_at, spec_packetize, spec_request_views, spec_serialize, PacketStream,
    TXRequestView, XBDestAddr,
};
use bytes::Bytes;
use vstd::prelude::*;
use vstd::string::StringExecFns;
use vstd::utf8::encode_utf8;

verus! {

/// `std::io::Error`, carried through to the caller.
#[verifier::external_type_specification]
#[verifier::external_body]
pub struct ExIoError(std::io::Error);

/// Capacity of the queue between the drivers and the writer.
pub const TX_QUEUE_CAPACITY: usize = 5;

/// Seconds the radio is given to settle before the dialogue starts.
pub const SETTLE_SECS: u64 = 2;

/// Makes an I/O error of kind `Other` that carries `msg`, by
/// `std::io::Error::new`. Nothing is assumed about the value.
#[verifier::external_body]
pub fn mkerror(msg: &str) -> (e: std::io::Error) {
    std::io::Error::new(std::io::ErrorKind::Other, msg)
}

/// The text of the error for an unexpected response.
pub fn unexpected_response(resp: &str, expected: &str) -> (msg: String)
    ensures
        msg@ == "Unexpected response: got "@ + resp@ + ", expected "@ + expected@,
{
    let mut msg = String::from_str("Unexpected response: got ");
    msg.append(resp);
    msg.append(", expected ");
    msg.append(expected);
    msg
}

/// Checks that a response from the radio is the expected text, and returns
/// an error that names both when it is not.
pub fn assert_response(resp: String, expected: String) -> (r: Result<(), std::io::Error>)
    ensures
        r is Ok <==> resp@ == expected@,
{
    if resp == expected {
        Ok(())
    } else {
        Err(mkerror(unexpected_response(resp.as_str(), expected.as_str()).as_str()))
    }
}

/// An item of the transmit queue.
#[derive(Debug, PartialEq, Eq)]
pub enum XBTX {
    /// Transmit this data to this destination.
    TXData(XBDestAddr, Bytes),
    /// Stop the writer.
    Shutdown,
}

/// A queue item as plain values.
pub enum XBTXView {
    TXData(XBDestAddr, Seq<u8>),
    Shutdown,
}

impl View for XBTX {
    type V = XBTXView;

    open spec fn view(&self) -> XBTXView {
        match self {
            XBTX::TXData(dest, data) => XBTXView::TXData(*dest, bytes_seq(*data)),
            XBTX::Shutdown => XBTXView::Shutdown,
        }
    }
}

/// What the start-up dialogue learns about the radio.
#[derive(Clone, Copy, Debug, PartialEq, Eq, Structural)]
pub struct XB {
    /// The radio's own 64-bit address.
    pub mymac: u64,
    /// The most bytes one frame's payload may hold.
    pub maxpacketsize: usize,
}

/// The command whose answer the dialogue is waiting for.
#[derive(Clone, Copy, Debug, PartialEq, Eq, Structural)]
pub enum StartupPhase {
    /// `+++`: enter command mode.
    CommandMode,
    /// A line of the initialization file.
    InitFile,
    /// `ATAP 1`: API mode.
    ApiMode,
    /// `ATAO 0`: standard API output.
    ApiOutput,
    /// `ATSH`: upper half of the serial number.
    SerialHigh,
    /// `ATSL`: lower half of the serial number.
    SerialLow,
    /// `ATNP`: maximum payload size.
    MaxPacket,
    /// `ATCN`: leave command mode.
    ExitCommand,
}

/// The start-up dialogue with the radio, between two answers.
pub struct XBStartup {
    phase: StartupPhase,
    /// The lines of the initialization file.
    initlines: Vec<String>,
    /// How many lines of the initialization file are dealt with.
    next_init: usize,
    serialhigh: u64,
    seriallow: u64,
    maxpacketsize: usize,
}

/// The dialogue as plain values.
pub struct StartupView {
    pub phase: StartupPhase,
    pub initlines: Seq<Seq<char>>,
    pub next_init: int,
    pub serialhigh: u64,
    pub seriallow: u64,
    pub maxpacketsize: usize,
}

/// The texts of `lines`.
pub open spec fn spec_line_views(lines: Seq<String>) -> Seq<Seq<char>> {
    Seq::new(lines.len(), |i: int| lines[i]@)
}

impl View for XBStartup {
    type V = StartupView;

    closed spec fn view(&self) -> StartupView {
        StartupView {
            phase: self.phase,
            initlines: spec_line_views(self.initlines@),
            next_init: self.next_init as int,
            serialhigh: self.serialhigh,
            seriallow: self.seriallow,
            maxpacketsize: self.maxpacketsize,
        }
    }
}

/// What the dialogue does with an answer.
pub enum StartupStep {
    /// The dialogue goes on; the command, if any, is to be sent as a line.
    Continue(XBStartup, Option<String>),
    /// The radio is configured and has left command mode.
    Ready(XB),
    /// The radio gave an answer that ends the dialogue.
    Failed(std::io::Error),
}

/// A step as plain values.
pub enum StartupStepView {
    Continue(StartupView, Option<Seq<char>>),
    Ready(XB),
    Failed,
}

impl View for StartupStep {
    type V = StartupStepView;

    open spec fn view(&self) -> StartupStepView {
        match self {
            StartupStep::Continue(next, command) => StartupStepView::Continue(
                next@,
                match command {
                    Some(text) => Some(text@),
                    None => None,
                },
            ),
            StartupStep::Ready(xb) => StartupStepView::Ready(*xb),
            StartupStep::Failed(_) => StartupStepView::Failed,
        }
    }
}

/// Whether a line ends in the letters `OK`.
pub open spec fn spec_ends_with_ok(line: Seq<char>) -> bool {
    let bytes = encode_utf8(line);
    bytes.len() >= 2 && bytes[bytes.len() - 2] == 0x4f && bytes[bytes.len() - 1] == 0x4b
}

/// The first line at or after `from` that is not empty; `lines.len()` when
/// there is none.
pub open spec fn spec_next_init(lines: Seq<Seq<char>>, from: int) -> int
    decreases lines.len() - from,
{
    if from < 0 || from >= lines.len() {
        lines.len() as int
    } else if lines[from].len() > 0 {
        from
    } else {
        spec_next_init(lines, from + 1)
    }
}

/// The step after the initialization lines before `from` are dealt with:
/// the next line that is not empty is sent, and after the last one the
/// radio is put in API mode.
pub open spec fn spec_after_init(st: StartupView, from: int) -> StartupStepView {
    let k = spec_next_init(st.initlines, from);
    if k < st.initlines.len() {
        StartupStepView::Continue(
            StartupView { phase: StartupPhase::InitFile, next_init: k + 1, ..st },
            Some(st.initlines[k]),
        )
    } else {
        StartupStepView::Continue(
            StartupView {
                phase: StartupPhase::ApiMode,
                next_init: st.initlines.len() as int,
                ..st
            },
            Some("ATAP 1"@),
        )
    }
}

/// The radio's address from the two halves of its serial number.
pub open spec fn spec_mymac(serialhigh: u64, seriallow: u64) -> u64 {
    serialhigh << 32 | seriallow
}

/// What the dialogue in state `st` does with the answer `line`.
///
/// After `+++`, lines are passed over until one ends in `OK`. Each line of
/// the initialization file, `ATAP 1`, `ATAO 0` and `ATCN` must be answered by
/// `OK`. `ATSH` and `ATSL` must be answered by a hexadecimal number of 64
/// bits, `ATNP` by one of 16 bits. Any other answer fails the dialogue.
pub open spec fn spec_on_line(st: StartupView, line: Seq<char>) -> StartupStepView {
    match st.phase {
        StartupPhase::CommandMode => if spec_ends_with_ok(line) {
            spec_after_init(st, 0)
        } else {
            StartupStepView::Continue(st, None)
        },
        StartupPhase::InitFile => if line == "OK"@ {
            spec_after_init(st, st.next_init)
        } else {
            StartupStepView::Failed
        },
        StartupPhase::ApiMode => if line == "OK"@ {
            StartupStepView::Continue(
                StartupView { phase: StartupPhase::ApiOutput, ..st },
                Some("ATAO 0"@),
            )
        } else {
            StartupStepView::Failed
        },
        StartupPhase::ApiOutput => if line == "OK"@ {
            StartupStepView::Continue(
                StartupView { phase: StartupPhase::SerialHigh, ..st },
                Some("ATSH"@),
            )
        } else {
            StartupStepView::Failed
        },
        StartupPhase::SerialHigh => match spec_parse_hex(encode_utf8(line), u64::MAX as int) {
            Some(n) => StartupStepView::Continue(
                StartupView { phase: StartupPhase::SerialLow, serialhigh: n as u64, ..st },
                Some("ATSL"@),
            ),
            None => StartupStepView::Failed,
        },
        StartupPhase::SerialLow => match spec_parse_hex(encode_utf8(line), u64::MAX as int) {
            Some(n) => StartupStepView::Continue(
                StartupView { phase: StartupPhase::MaxPacket, seriallow: n as u64, ..st },
                Some("ATNP"@),
            ),
            None => StartupStepView::Failed,
        },
        StartupPhase::MaxPacket => match spec_parse_hex(encode_utf8(line), 0xffff) {
            Some(n) => StartupStepView::Continue(
                StartupView { phase: StartupPhase::ExitCommand, maxpacketsize: n as usize, ..st },
                Some("ATCN"@),
            ),
            None => StartupStepView::Failed,
        },
        StartupPhase::ExitCommand => if line == "OK"@ {
            StartupStepView::Ready(
                XB { mymac: spec_mymac(st.serialhigh, st.seriallow), maxpacketsize: st.maxpacketsize },
            )
        } else {
            StartupStepView::Failed
        },
    }
}

/// Tells whether a line ends in the letters `OK`.
pub fn ends_with_ok(line: &str) -> (r: bool)
    ensures
        r == spec_ends_with_ok(line@),
{
    let bytes = line.as_bytes();
    let n = bytes.len();
    n >= 2 && bytes[n - 2] == 0x4f && bytes[n - 1] == 0x4b
}

impl XBStartup {
    #[verifier::type_invariant]
    spec fn inv(self) -> bool {
        self.next_init <= self.initlines@.len()
    }

    /// Opens the dialogue: queues `+++`, without a line end, to put the
    /// radio in command mode. `initlines` are the lines of the
    /// initialization file, if there is one.
    pub fn begin(initlines: Vec<String>, ser_writer: &mut XBSerWriter) -> (r: Self)
        ensures
            r@ == (StartupView {
                phase: StartupPhase::CommandMode,
                initlines: spec_line_views(initlines@),
                next_init: 0,
                serialhigh: 0,
                seriallow: 0,
                maxpacketsize: 0,
            }),
            final(ser_writer)@ == old(ser_writer)@ + seq![0x2bu8, 0x2bu8, 0x2bu8],
    {
        let plus: [u8; 3] = [0x2b, 0x2b, 0x2b];
        ser_writer.write_all(plus.as_slice());
        assert(plus@ =~= seq![0x2bu8, 0x2bu8, 0x2bu8]);
        XBStartup {
            phase: StartupPhase::CommandMode,
            initlines,
            next_init: 0,
            serialhigh: 0,
            seriallow: 0,
            maxpacketsize: 0,
        }
    }

    /// The step once the initialization lines before `from` are dealt with.
    fn after_init(self, from: usize) -> (r: StartupStep)
        requires
            from <= self.initlines@.len(),
        ensures
            r@ == spec_after_init(self@, from as int),
    {
        proof {
            use_type_invariant(&self);
        }
        let mut k: usize = from;
        while k < self.initlines.len() && self.initlines[k].as_str().is_empty()
            invariant
                from <= k <= self.initlines@.len(),
                spec_next_init(self@.initlines, from as int) == spec_next_init(
                    self@.initlines,
                    k as int,
                ),
            decreases self.initlines@.len() - k,
        {
            k += 1;
        }
        if k < self.initlines.len() {
            let command = self.initlines[k].clone();
            StartupStep::Continue(
                XBStartup { phase: StartupPhase::InitFile, next_init: k + 1, ..self },
                Some(command),
            )
        } else {
            StartupStep::Continue(
                XBStartup { phase: StartupPhase::ApiMode, next_init: k, ..self },
                Some(String::from_str("ATAP 1")),
            )
        }
    }

    /// The step for a phase that must be answered by `OK`.
    fn expect_ok(line: &str) -> (r: Result<(), std::io::Error>)
        ensures
            r is Ok <==> line@ == "OK"@,
    {
        assert_response(String::from_str(line), String::from_str("OK"))
    }

    /// Takes the radio's answer to the last command and says what comes
    /// next.
    pub fn on_line(self, line: &str) -> (r: StartupStep)
        ensures
            r@ == spec_on_line(self@, line@),
    {
        proof {
            use_type_invariant(&self);
        }
        match self.phase {
            StartupPhase::CommandMode => {
                if ends_with_ok(line) {
                    self.after_init(0)
                } else {
                    StartupStep::Continue(self, None)
                }
            },
            StartupPhase::InitFile => {
                match Self::expect_ok(line) {
                    Ok(()) => {
                        let from = self.next_init;
                        self.after_init(from)
                    },
                    Err(e) => StartupStep::Failed(e),
                }
            },
            StartupPhase::ApiMode => {
                match Self::expect_ok(line) {
                    Ok(()) => StartupStep::Continue(
                        XBStartup { phase: StartupPhase::ApiOutput, ..self },
                        Some(String::from_str("ATAO 0")),
                    ),
                    Err(e) => StartupStep::Failed(e),
                }
            },
            StartupPhase::ApiOutput => {
                match Self::expect_ok(line) {
                    Ok(()) => StartupStep::Continue(
                        XBStartup { phase: StartupPhase::SerialHigh, ..self },
                        Some(String::from_str("ATSH")),
                    ),
                    Err(e) => StartupStep::Failed(e),
                }
            },
            StartupPhase::SerialHigh => {
                match parse_hex(line.as_bytes(), u64::MAX) {
                    Some(n) => StartupStep::Continue(
                        XBStartup { phase: StartupPhase::SerialLow, serialhigh: n, ..self },
                        Some(String::from_str("ATSL")),
                    ),
                    None => StartupStep::Failed(mkerror("ATSH was not answered by a number")),
                }
            },
            StartupPhase::SerialLow => {
                match parse_hex(line.as_bytes(), u64::MAX) {
                    Some(n) => StartupStep::Continue(
                        XBStartup { phase: StartupPhase::MaxPacket, seriallow: n, ..self },
                        Some(String::from_str("ATNP")),
                    ),
                    None => StartupStep::Failed(mkerror("ATSL was not answered by a number")),
                }
            },
            StartupPhase::MaxPacket => {
                match parse_hex(line.as_bytes(), 0xffff) {
                    Some(n) => StartupStep::Continue(
                        XBStartup {
                            phase: StartupPhase::ExitCommand,
                            maxpacketsize: n as usize,
                            ..self
                        },
                        Some(String::from_str("ATCN")),
                    ),
                    None => StartupStep::Failed(mkerror("ATNP was not answered by a number")),
                }
            },
            StartupPhase::ExitCommand => {
                match Self::expect_ok(line) {
                    Ok(()) => StartupStep::Ready(
                        XB {
                            mymac: self.serialhigh << 32 | self.seriallow,
                            maxpacketsize: self.maxpacketsize,
                        },
                    ),
                    Err(e) => StartupStep::Failed(e),
                }
            },
        }
    }
}

/// How far the start-up dialogue has come.
pub enum StartupStatus {
    /// The next answer has not arrived in full; the dialogue goes on from
    /// here when it has.
    Pending(XBStartup),
    /// The radio is configured and has left command mode.
    Ready(XB),
    /// The dialogue has failed: the radio gave an unexpected answer, or the
    /// stream ended.
    Failed(std::io::Error),
}

/// A status as plain values.
pub enum StartupStatusView {
    Pending(StartupView),
    Ready(XB),
    Failed,
}

impl View for StartupStatus {
    type V = StartupStatusView;

    open spec fn view(&self) -> StartupStatusView {
        match self {
            StartupStatus::Pending(startup) => StartupStatusView::Pending(startup@),
            StartupStatus::Ready(xb) => StartupStatusView::Ready(*xb),
            StartupStatus::Failed(_) => StartupStatusView::Failed,
        }
    }
}

/// The bytes that sending `command` as a line puts on the wire.
pub open spec fn spec_command_bytes(command: Option<Seq<char>>) -> Seq<u8> {
    match command {
        Some(text) => encode_utf8(text) + seq![0x0du8, 0x0au8],
        None => Seq::empty(),
    }
}

/// What running the dialogue from state `st` over the pending bytes does:
/// how many bytes it reads, the bytes it sends, and how far it comes. Lines
/// are read and answered one after the other until the dialogue is over or
/// no whole line is left. The end of the stream fails the dialogue.
pub open spec fn spec_startup_run(st: StartupView, pending: Seq<u8>, closed: bool) -> (
    int,
    Seq<u8>,
    StartupStatusView,
)
    decreases pending.len(),
{
    match spec_readln(pending, closed) {
        LineReadView::Pending => (0, Seq::empty(), StartupStatusView::Pending(st)),
        LineReadView::Eof => (0, Seq::empty(), StartupStatusView::Failed),
        LineReadView::Line(text) => {
            let c = spec_readln_consumed(pending, closed);
            match spec_on_line(st, text) {
                StartupStepView::Ready(xb) => (c, Seq::empty(), StartupStatusView::Ready(xb)),
                StartupStepView::Failed => (c, Seq::empty(), StartupStatusView::Failed),
                StartupStepView::Continue(next, command) => {
                    if 0 < c <= pending.len() {
                        let rest = spec_startup_run(next, pending.skip(c), closed);
                        (c + rest.0, spec_command_bytes(command) + rest.1, rest.2)
                    } else {
                        (c, spec_command_bytes(command), StartupStatusView::Pending(next))
                    }
                },
            }
        },
    }
}

impl XB {
    /// Runs the start-up dialogue as far as the pending bytes allow.
    ///
    /// Every whole line that has arrived is handed to the dialogue, and the
    /// commands it asks for are queued for sending. The result tells whether
    /// the radio is ready, the dialogue has failed, or more bytes are needed;
    /// in the last case the call is to be repeated with the returned state
    /// once more bytes have been fed to the reader.
    pub fn new(startup: XBStartup, ser_reader: &mut XBSerReader, ser_writer: &mut XBSerWriter) -> (r:
        StartupStatus)
        ensures
            r@ == spec_startup_run(startup@, old(ser_reader)@, old(ser_reader).is_closed()).2,
            final(ser_reader)@ == old(ser_reader)@.skip(
                spec_startup_run(startup@, old(ser_reader)@, old(ser_reader).is_closed()).0,
            ),
            final(ser_reader).is_closed() == old(ser_reader).is_closed(),
            final(ser_writer)@ == old(ser_writer)@ + spec_startup_run(
                startup@,
                old(ser_reader)@,
                old(ser_reader).is_closed(),
            ).1,
    {
        let ghost s0 = ser_reader@;
        let ghost closed = ser_reader.is_closed();
        let ghost st0 = startup@;
        let ghost taken: int = 0;
        let ghost sent: Seq<u8> = Seq::empty();
        let mut current = startup;
        assert(s0.skip(0) =~= s0);
        assert(ser_writer@ + sent =~= ser_writer@);
        loop
            invariant
                st0 == startup@,
                s0 == old(ser_reader)@,
                closed == old(ser_reader).is_closed(),
                closed == ser_reader.is_closed(),
                0 <= taken <= s0.len(),
                ser_reader@ == s0.skip(taken),
                ser_writer@ == old(ser_writer)@ + sent,
                spec_startup_run(st0, s0, closed).0 == taken + spec_startup_run(
                    current@,
                    ser_reader@,
                    closed,
                ).0,
                spec_startup_run(st0, s0, closed).1 == sent + spec_startup_run(
                    current@,
                    ser_reader@,
                    closed,
                ).1,
                spec_startup_run(st0, s0, closed).2 == spec_startup_run(
                    current@,
                    ser_reader@,
                    closed,
                ).2,
            decreases ser_reader@.len(),
        {
            let ghost s = ser_reader@;
            let ghost c = spec_readln_consumed(s, closed);
            proof {
                crate::ser::lemma_first_index_bounds(s, crate::ser::CARRIAGE_RETURN);
                assert(s0.skip(taken).skip(c) =~= s0.skip(taken + c));
            }
            match ser_reader.readln() {
                LineRead::Pending => {
                    assert(sent + Seq::<u8>::empty() =~= sent);
                    return StartupStatus::Pending(current);
                },
                LineRead::Eof => {
                    assert(sent + Seq::<u8>::empty() =~= sent);
                    return StartupStatus::Failed(mkerror("the serial stream has ended"));
                },
                LineRead::Line(line) => {
                                        match current.on_line(line.as_str()) {
                        StartupStep::Ready(xb) => {
                            assert(sent + Seq::<u8>::empty() =~= sent);
                            return StartupStatus::Ready(xb);
                        },
                        StartupStep::Failed(e) => {
                            assert(sent + Seq::<u8>::empty() =~= sent);
                            return StartupStatus::Failed(e);
                        },
                        StartupStep::Continue(next, command) => {
                            let ghost rest = spec_startup_run(next@, s.skip(c), closed);
                            match command {
                                Some(text) => {
                                    ser_writer.writeln(text.as_str());
                                    assert(sent + (spec_command_bytes(Some(text@)) + rest.1) =~= (
                                    sent + encode_utf8(text@) + seq![0x0du8, 0x0au8]) + rest.1);
                                    proof {
                                        sent = sent + encode_utf8(text@) + seq![0x0du8, 0x0au8];
                                    }
                                },
                                None => {
                                    assert(sent + (spec_command_bytes(None) + rest.1) =~= sent
                                        + rest.1);
                                },
                            }
                            current = next;
                            proof {
                                taken = taken + c;
                            }
                        },
                    }
                },
            }
        }
    }
}

/// The bytes that a run of transmit requests puts on the wire: the frame of
/// each request that can be serialized, in order. A request that cannot be
/// serialized is left out.
pub open spec fn spec_wire_bytes(requests: Seq<TXRequestView>) -> Seq<u8>
    decreases requests.len(),
{
    if requests.len() == 0 {
        Seq::empty()
    } else {
        spec_wire_bytes(requests.drop_last()) + (match spec_serialize(requests.last()) {
            Ok(frame) => frame,
            Err(_) => Seq::empty(),
        })
    }
}

/// The bytes that a queue item puts on the wire: the frames of its chunks,
/// or nothing for a datagram that cannot be packetized and for `Shutdown`.
pub open spec fn spec_item_bytes(
    counter: u8,
    maxpacketsize: usize,
    item: XBTXView,
    disable_xbee_acks: bool,
    request_xbee_tx_reports: bool,
) -> Seq<u8> {
    match item {
        XBTXView::Shutdown => Seq::empty(),
        XBTXView::TXData(dest, data) => match spec_packetize(
            counter,
            maxpacketsize,
            dest,
            data,
            disable_xbee_acks,
            request_xbee_tx_reports,
        ) {
            Ok(requests) => spec_wire_bytes(requests),
            Err(_) => Seq::empty(),
        },
    }
}

/// The frame counter after a queue item: moved on by one for each chunk when
/// transmit reports are asked for, otherwise unchanged.
pub open spec fn spec_item_counter(
    counter: u8,
    maxpacketsize: usize,
    item: XBTXView,
    disable_xbee_acks: bool,
    request_xbee_tx_reports: bool,
) -> u8 {
    match item {
        XBTXView::Shutdown => counter,
        XBTXView::TXData(dest, data) => match spec_packetize(
            counter,
            maxpacketsize,
            dest,
            data,
            disable_xbee_acks,
            request_xbee_tx_reports,
        ) {
            Ok(requests) if request_xbee_tx_reports => spec_frame_id_at(
                counter,
                requests.len() as int,
            ),
            _ => counter,
        },
    }
}

/// Handles one item of the transmit queue and tells whether the writer is
/// to go on.
///
/// Data is cut into chunks, and the frame of each chunk is queued on the
/// serial writer, in order. A datagram that cannot be packetized, and a
/// chunk that cannot be serialized, is dropped. `Shutdown` queues nothing
/// and stops the writer.
pub fn writerthread(
    ser: &mut XBSerWriter,
    packetstream: &mut PacketStream,
    maxpacketsize: usize,
    item: XBTX,
    disable_xbee_acks: bool,
    request_xbee_tx_reports: bool,
) -> (keep_going: bool)
    ensures
        keep_going == !(item@ is Shutdown),
        final(ser)@ == old(ser)@ + spec_item_bytes(
            old(packetstream).counter(),
            maxpacketsize,
            item@,
            disable_xbee_acks,
            request_xbee_tx_reports,
        ),
        final(packetstream).counter() == spec_item_counter(
            old(packetstream).counter(),
            maxpacketsize,
            item@,
            disable_xbee_acks,
            request_xbee_tx_reports,
        ),
{
    match item {
        XBTX::Shutdown => {
            assert(ser@ + Seq::<u8>::empty() =~= ser@);
            false
        },
        XBTX::TXData(dest, data) => {
            match packetstream.packetize_data(
                maxpacketsize,
                &dest,
                data.as_ref(),
                disable_xbee_acks,
                request_xbee_tx_reports,
            ) {
                Ok(packets) => {
                    let ghost requests = spec_request_views(packets@);
                    let mut i: usize = 0;
                    assert(requests.take(0) =~= Seq::<TXRequestView>::empty());
                    assert(ser@ + Seq::<u8>::empty() =~= ser@);
                    while i < packets.len()
                        invariant
                            i <= packets@.len(),
                            requests == spec_request_views(packets@),
                            ser@ == old(ser)@ + spec_wire_bytes(requests.take(i as int)),
                        decreases packets@.len() - i,
                    {
                        proof {
                            assert(requests.take(i + 1).drop_last() =~= requests.take(i as int));
                            assert(requests.take(i + 1).last() == packets@[i as int]@);
                        }
                        let ghost before = ser@;
                        match packets[i].serialize() {
                            Ok(datatowrite) => {
                                ser.write_all(datatowrite.as_ref());
                                assert(ser@ =~= old(ser)@ + spec_wire_bytes(requests.take(i + 1)));
                            },
                            Err(_) => {
                                assert(ser@ =~= old(ser)@ + spec_wire_bytes(requests.take(i + 1)));
                            },
                        }
                        i += 1;
                    }
                    assert(requests.take(i as int) =~= requests);
                    true
                },
                Err(_) => {
                    assert(ser@ + Seq::<u8>::empty() =~= ser@);
                    true
                },
            }
        },
    }
}

} // verus!
