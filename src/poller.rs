//! The decisions of the polling loop, as a state machine. Each iteration
//! polls the input channel, then asks the device how many bytes are waiting,
//! then reads them if there are any. The caller performs each step's I/O and
//! hands its outcome to the machine, which answers with what to do next.

use vstd::prelude::*;
use vstd::utf8::{encode_utf8, valid_utf8};
use crate::frame::{
    frame_bytes, frame_line, read_len, read_request, utf8_text, ByteCount, Frame,
    CARRIAGE_RETURN, READ_CAPACITY,
};

verus! {

/// What a non-blocking receive on the input channel gave.
pub enum ChannelPoll {
    /// A line of text, without its newline.
    Line(String),
    /// Nothing is queued, and the producer may still send.
    Empty,
    /// Nothing is queued, and the producer is gone.
    Closed,
}

/// A channel poll as a mathematical value.
pub enum PollModel {
    Line(Seq<char>),
    Empty,
    Closed,
}

impl ChannelPoll {
    pub open spec fn model(&self) -> PollModel {
        match self {
            ChannelPoll::Line(s) => PollModel::Line(s@),
            ChannelPoll::Empty => PollModel::Empty,
            ChannelPoll::Closed => PollModel::Closed,
        }
    }
}

/// What a read from the device gave.
pub enum ReadOutcome {
    /// The bytes that were read.
    Data(Vec<u8>),
    /// Nothing arrived within the read timeout.
    TimedOut,
    /// Any other read error.
    Failed,
}

/// What to do after a channel poll.
pub enum OutboundAction {
    /// Write the frame's payload, then its terminator byte.
    Send(Frame),
    /// Nothing to write.
    Idle,
    /// The input is over: print a stopping notice and leave the loop.
    Stop,
}

/// What to do after a device read.
pub enum InboundAction {
    /// Print the decoded text.
    Print(String),
    /// A timeout: nothing to do.
    Ignore,
    /// A read error: report it and go on.
    Report,
    /// The bytes are not UTF-8 text: the program cannot go on.
    Fatal,
}

/// Where the machine stands within an iteration.
#[derive(Clone, Copy, PartialEq, Eq, Structural, Debug)]
pub enum Phase {
    /// Waiting for the outcome of a channel poll.
    Receiving,
    /// Waiting for the device's count of waiting bytes.
    Querying,
    /// Waiting for the outcome of a read of at most this many bytes.
    Reading(usize),
    /// The channel closed with nothing pending: the loop is over.
    Stopped,
    /// A fatal condition was met.
    Crashed,
}

/// The exit code of the program when the loop ends in `phase`.
pub open spec fn stop_exit_code(phase: Phase) -> Option<i32> {
    if phase == Phase::Stopped {
        Some(0i32)
    } else {
        None
    }
}

/// The machine's state: its phase, every line sent so far, and every byte
/// that the device has been asked to write.
pub struct PollerView {
    pub phase: Phase,
    pub sent: Seq<Seq<char>>,
    pub written: Seq<u8>,
}

/// The bytes that the lines `lines` put on the wire, one frame after another.
pub open spec fn frames(lines: Seq<Seq<char>>) -> Seq<u8>
    decreases lines.len(),
{
    if lines.len() == 0 {
        Seq::empty()
    } else {
        frame_bytes(lines[0]) + frames(lines.drop_first())
    }
}

/// A consistent state: the bytes written are exactly the frames of the lines
/// sent, and a pending read fits the scratch buffer.
pub open spec fn view_wf(v: PollerView) -> bool {
    &&& v.written == frames(v.sent)
    &&& (v.phase matches Phase::Reading(n) ==> 0 < n <= READ_CAPACITY)
}

/// The state after a channel poll: a line is sent and its frame written; an
/// empty channel changes nothing; a closed one stops the loop.
pub open spec fn after_channel(v: PollerView, p: PollModel) -> PollerView {
    match p {
        PollModel::Line(l) => PollerView {
            phase: Phase::Querying,
            sent: v.sent.push(l),
            written: v.written + frame_bytes(l),
        },
        PollModel::Empty => PollerView { phase: Phase::Querying, sent: v.sent, written: v.written },
        PollModel::Closed => PollerView { phase: Phase::Stopped, sent: v.sent, written: v.written },
    }
}

/// The state after the device's byte count: a read of the requested size is
/// awaited, or the iteration is over.
pub open spec fn after_count(v: PollerView, c: ByteCount) -> PollerView {
    PollerView {
        phase: match read_request(c) {
            Some(n) => Phase::Reading(n),
            None => Phase::Receiving,
        },
        sent: v.sent,
        written: v.written,
    }
}

/// What a poll of a channel gives: its oldest queued line, else whether the
/// producer is gone.
pub open spec fn channel_front(pending: Seq<Seq<char>>, closed: bool) -> PollModel {
    if pending.len() > 0 {
        PollModel::Line(pending[0])
    } else if closed {
        PollModel::Closed
    } else {
        PollModel::Empty
    }
}

/// What stays queued in a channel after one poll.
pub open spec fn channel_rest(pending: Seq<Seq<char>>) -> Seq<Seq<char>> {
    if pending.len() > 0 {
        pending.drop_first()
    } else {
        pending
    }
}

/// The state after the device half of an iteration that ends without a
/// fatal read: back to receiving, with nothing more sent or written.
pub open spec fn device_half(v: PollerView) -> PollerView {
    if v.phase == Phase::Querying {
        PollerView { phase: Phase::Receiving, sent: v.sent, written: v.written }
    } else {
        v
    }
}

/// The state after at most `n` iterations against a channel that holds
/// `pending` and is `closed` or not; the iterations end once the loop has
/// stopped.
pub open spec fn run_channel(v: PollerView, pending: Seq<Seq<char>>, closed: bool, n: nat) -> PollerView
    decreases n,
{
    if n == 0 || v.phase != Phase::Receiving {
        v
    } else {
        run_channel(
            device_half(after_channel(v, channel_front(pending, closed))),
            channel_rest(pending),
            closed,
            (n - 1) as nat,
        )
    }
}

proof fn lemma_drain_prefix(v: PollerView, pending: Seq<Seq<char>>, i: nat)
    requires
        v.phase == Phase::Receiving,
        i <= pending.len(),
    ensures
        run_channel(v, pending, true, i) == (PollerView {
            phase: Phase::Receiving,
            sent: v.sent + pending.take(i as int),
            written: v.written + frames(pending.take(i as int)),
        }),
    decreases i,
{
    if i == 0 {
        assert(v.sent + pending.take(0) =~= v.sent);
        assert(frames(pending.take(0)) =~= Seq::<u8>::empty());
        assert(v.written + frames(pending.take(0)) =~= v.written);
    } else {
        let v1 = device_half(after_channel(v, channel_front(pending, true)));
        let rest = pending.drop_first();
        lemma_drain_prefix(v1, rest, (i - 1) as nat);
        let t = pending.take(i as int);
        assert(t.drop_first() =~= rest.take(i - 1));
        assert(t[0] == pending[0]);
        assert(v.sent.push(pending[0]) + rest.take(i - 1) =~= v.sent + t);
        assert(v.written + frame_bytes(pending[0]) + frames(rest.take(i - 1)) =~= v.written
            + frames(t));
    }
}

proof fn lemma_drain_then_stop(v: PollerView, pending: Seq<Seq<char>>)
    requires
        v.phase == Phase::Receiving,
    ensures
        run_channel(v, pending, true, pending.len() + 1) == (PollerView {
            phase: Phase::Stopped,
            sent: v.sent + pending,
            written: v.written + frames(pending),
        }),
    decreases pending.len(),
{
    if pending.len() == 0 {
        let v1 = after_channel(v, PollModel::Closed);
        assert(run_channel(v1, pending, true, 0) == v1);
        assert(v.sent + pending =~= v.sent);
        assert(v.written + frames(pending) =~= v.written);
    } else {
        let v1 = device_half(after_channel(v, channel_front(pending, true)));
        let rest = pending.drop_first();
        lemma_drain_then_stop(v1, rest);
        assert(v.sent.push(pending[0]) + rest =~= v.sent + pending);
        assert(v.written + frame_bytes(pending[0]) + frames(rest) =~= v.written + frames(
            pending,
        ));
    }
}

/// A closed channel is drained before the loop stops. While `pending` lines
/// are still queued, each iteration sends exactly the next one, in order,
/// and writes exactly its frame; the iteration after the last one stops the
/// loop, and the program's exit code is then 0. With nothing pending, the
/// first iteration stops it.
pub proof fn law_closed_channel_drains(v: PollerView, pending: Seq<Seq<char>>)
    requires
        v.phase == Phase::Receiving,
    ensures
        forall|i: nat|
            i <= pending.len() ==> #[trigger] run_channel(v, pending, true, i) == (PollerView {
                phase: Phase::Receiving,
                sent: v.sent + pending.take(i as int),
                written: v.written + frames(pending.take(i as int)),
            }),
        run_channel(v, pending, true, pending.len() + 1) == (PollerView {
            phase: Phase::Stopped,
            sent: v.sent + pending,
            written: v.written + frames(pending),
        }),
        stop_exit_code(run_channel(v, pending, true, pending.len() + 1).phase) == Some(0i32),
{
    assert forall|i: nat| i <= pending.len() implies #[trigger] run_channel(v, pending, true, i)
        == (PollerView {
        phase: Phase::Receiving,
        sent: v.sent + pending.take(i as int),
        written: v.written + frames(pending.take(i as int)),
    }) by {
        lemma_drain_prefix(v, pending, i);
    }
    lemma_drain_then_stop(v, pending);
}

proof fn lemma_frames_push(lines: Seq<Seq<char>>, line: Seq<char>)
    ensures
        frames(lines.push(line)) == frames(lines) + frame_bytes(line),
    decreases lines.len(),
{
    if lines.len() == 0 {
        assert(lines.push(line).drop_first() =~= Seq::<Seq<char>>::empty());
        assert(frames(Seq::<Seq<char>>::empty()) =~= Seq::<u8>::empty());
        assert(lines.push(line)[0] == line);
        assert(frames(lines.push(line)) =~= frame_bytes(line));
        assert(frames(lines) + frame_bytes(line) =~= frame_bytes(line));
    } else {
        assert(lines.push(line).drop_first() =~= lines.drop_first().push(line));
        lemma_frames_push(lines.drop_first(), line);
        assert(frames(lines.push(line)) =~= frames(lines) + frame_bytes(line));
    }
}

/// The polling loop's state machine.
pub struct Poller {
    phase: Phase,
    sent: Ghost<Seq<Seq<char>>>,
    written: Ghost<Seq<u8>>,
}

impl View for Poller {
    type V = PollerView;

    closed spec fn view(&self) -> PollerView {
        PollerView { phase: self.phase, sent: self.sent@, written: self.written@ }
    }
}

impl Poller {
    pub open spec fn wf(&self) -> bool {
        view_wf(self@)
    }

    /// A machine at the start of its first iteration, with nothing sent.
    pub fn new() -> (r: Poller)
        ensures
            r.wf(),
            r@.phase == Phase::Receiving,
            r@.sent == Seq::<Seq<char>>::empty(),
            r@.written == Seq::<u8>::empty(),
    {
        let r = Poller { phase: Phase::Receiving, sent: Ghost(Seq::empty()), written: Ghost(Seq::empty()) };
        assert(frames(Seq::<Seq<char>>::empty()) == Seq::<u8>::empty());
        r
    }

    /// The current phase.
    pub fn phase(&self) -> (r: Phase)
        ensures
            r == self@.phase,
    {
        self.phase
    }

    /// The exit code of the program, once the loop has stopped.
    pub fn exit_code(&self) -> (r: Option<i32>)
        ensures
            r == stop_exit_code(self@.phase),
    {
        match self.phase {
            Phase::Stopped => Some(0),
            _ => None,
        }
    }

    /// Takes the outcome of the iteration's channel poll. A line becomes one
    /// frame, its UTF-8 bytes then one carriage return; an empty channel
    /// writes nothing; a closed one ends the loop.
    pub fn on_channel(&mut self, poll: ChannelPoll) -> (r: OutboundAction)
        requires
            old(self).wf(),
            old(self)@.phase == Phase::Receiving,
        ensures
            final(self).wf(),
            final(self)@ == after_channel(old(self)@, poll.model()),
            match poll {
                ChannelPoll::Line(l) => (r matches OutboundAction::Send(f) && f.payload@
                    == encode_utf8(l@) && f.terminator == CARRIAGE_RETURN && f.bytes()
                    == frame_bytes(l@)),
                ChannelPoll::Empty => r is Idle,
                ChannelPoll::Closed => r is Stop,
            },
    {
        match poll {
            ChannelPoll::Line(line) => {
                let frame = frame_line(line.as_str());
                proof {
                    lemma_frames_push(self.sent@, line@);
                }
                self.sent = Ghost(self.sent@.push(line@));
                self.written = Ghost(self.written@ + frame_bytes(line@));
                self.phase = Phase::Querying;
                OutboundAction::Send(frame)
            },
            ChannelPoll::Empty => {
                self.phase = Phase::Querying;
                OutboundAction::Idle
            },
            ChannelPoll::Closed => {
                self.phase = Phase::Stopped;
                OutboundAction::Stop
            },
        }
    }

    /// Takes the device's count of waiting bytes. Nothing waiting, or a
    /// failed query, means no read this iteration; otherwise one read of up
    /// to the buffer's capacity is requested.
    pub fn on_byte_count(&mut self, count: ByteCount) -> (r: Option<usize>)
        requires
            old(self).wf(),
            old(self)@.phase == Phase::Querying,
        ensures
            final(self).wf(),
            final(self)@ == after_count(old(self)@, count),
            r == read_request(count),
    {
        let r = read_len(count);
        match r {
            Some(n) => {
                self.phase = Phase::Reading(n);
            },
            None => {
                self.phase = Phase::Receiving;
            },
        }
        r
    }

    /// Takes the outcome of the requested read. Bytes that are UTF-8 text
    /// are printed; any other bytes are fatal. A timeout is ignored and any
    /// other error reported; the loop goes on.
    pub fn on_read(&mut self, outcome: ReadOutcome) -> (r: InboundAction)
        requires
            old(self).wf(),
            old(self)@.phase matches Phase::Reading(n) && (outcome matches ReadOutcome::Data(b)
                ==> b@.len() <= n),
        ensures
            final(self).wf(),
            final(self)@.sent == old(self)@.sent,
            final(self)@.written == old(self)@.written,
            match outcome {
                ReadOutcome::Data(b) => if valid_utf8(b@) {
                    (r matches InboundAction::Print(s) && encode_utf8(s@) == b@)
                        && final(self)@.phase == Phase::Receiving
                } else {
                    r is Fatal && final(self)@.phase == Phase::Crashed
                },
                ReadOutcome::TimedOut => r is Ignore && final(self)@.phase == Phase::Receiving,
                ReadOutcome::Failed => r is Report && final(self)@.phase == Phase::Receiving,
            },
    {
        match outcome {
            ReadOutcome::Data(bytes) => {
                match utf8_text(bytes) {
                    Some(text) => {
                        self.phase = Phase::Receiving;
                        InboundAction::Print(text)
                    },
                    None => {
                        self.phase = Phase::Crashed;
                        InboundAction::Fatal
                    },
                }
            },
            ReadOutcome::TimedOut => {
                self.phase = Phase::Receiving;
                InboundAction::Ignore
            },
            ReadOutcome::Failed => {
                self.phase = Phase::Receiving;
                InboundAction::Report
            },
        }
    }
}

} // verus!
