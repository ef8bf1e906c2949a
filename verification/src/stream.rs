//! The terminal socket: what the server does with each thing that happens on a connection.
use vstd::prelude::*;
use vstd::string::StringSliceAdditionalSpecFns;
use vstd::utf8::encode_utf8;
use crate::models::{TermSize, TerminalMessage};
use crate::api::{clamp_axis, clamp_axis_spec};

verus! {

/// The UTF-8 bytes of a string.
pub fn utf8_bytes(s: &str) -> (r: Vec<u8>)
    ensures
        r@ == s.spec_bytes(),
{
    vstd::slice::slice_to_vec(s.as_bytes())
}

// ─── Starting the stream ────────────────────────────────────────────────

/// How the attach of the tmux client ended.
#[derive(Debug)]
pub enum AttachOutcome {
    /// The client runs; `history` is the scrollback to restore, `pending` the input typed
    /// while waiting for the size, in order.
    Attached { history: Vec<u8>, pending: Vec<Vec<u8>> },
    /// The client could not be started.
    Failed,
}

/// One step of starting a connection, done in order until one fails.
#[derive(Debug)]
pub enum StartAction {
    /// Give the attach ticket back, so the window it displaced is not left waiting.
    ReleaseTicket,
    /// Send this notice and end.
    Notify(String),
    /// Send these bytes to the browser; end if that fails.
    SendBinary(Vec<u8>),
    /// Write this input to the terminal; end if that fails.
    WriteInput(Vec<u8>),
}

/// The step writes this input.
pub open spec fn writes_input(a: StartAction, data: Vec<u8>) -> bool {
    a matches StartAction::WriteInput(b) && b@ == data@
}

/// The steps that start a connection: after a failed attach, give the ticket back and
/// announce `SESSION_GONE`; after a successful one, first the scrollback (when there is
/// any), so the browser builds it before tmux redraws the screen, then the input typed
/// meanwhile, in the order it came.
pub open spec fn start_post(outcome: AttachOutcome, r: Seq<StartAction>) -> bool {
    match outcome {
        AttachOutcome::Failed => {
            &&& r.len() == 2
            &&& r[0] is ReleaseTicket
            &&& r[1] matches StartAction::Notify(m) && m@ == "SESSION_GONE"@
        },
        AttachOutcome::Attached { history, pending } => {
            let h: int = if history@.len() > 0 { 1 } else { 0 };
            &&& r.len() == h + pending@.len()
            &&& h == 1 ==> (r[0] matches StartAction::SendBinary(b) && b@ == history@)
            &&& forall|i: int|
                0 <= i < pending@.len() ==> writes_input(r[h + i], #[trigger] pending@[i])
        },
    }
}

/// The steps that start a connection once the attach was tried.
pub fn start_actions(outcome: AttachOutcome) -> (r: Vec<StartAction>)
    ensures
        start_post(outcome, r@),
        outcome is Failed ==> r@.len() == 2 && r@[0] is ReleaseTicket && (r@[1] matches StartAction::Notify(
            m,
        ) && m@ == "SESSION_GONE"@),
        outcome matches AttachOutcome::Attached { history, pending } ==> r@.len() == (if history@.len()
            > 0 {
            1int
        } else {
            0int
        }) + pending@.len(),
        outcome matches AttachOutcome::Attached { history, pending } ==> (history@.len() > 0 ==> r@[0]
            == StartAction::SendBinary(history)),
        outcome matches AttachOutcome::Attached { history, pending } ==> (forall|i: int|
            0 <= i < pending@.len() ==> r@[r@.len() - pending@.len() + i] == StartAction::WriteInput(
                #[trigger] pending@[i],
            )),
{
    let mut out: Vec<StartAction> = Vec::new();
    match outcome {
        AttachOutcome::Failed => {
            out.push(StartAction::ReleaseTicket);
            out.push(StartAction::Notify(String::from_str("SESSION_GONE")));
        },
        AttachOutcome::Attached { history, pending } => {
            let ghost hv = history@;
            let ghost hist = history;
            let ghost all = pending@;
            if history.len() > 0 {
                out.push(StartAction::SendBinary(history));
            }
            let ghost h: int = if hv.len() > 0 { 1 } else { 0 };
            let mut rest = pending;
            let ghost mut k: int = 0;
            assert(all.skip(0) =~= all);
            while rest.len() > 0
                invariant
                    0 <= k <= all.len(),
                    h == (if hv.len() > 0 { 1int } else { 0int }),
                    rest@ == all.skip(k),
                    out@.len() == h + k,
                    h == 1 ==> (out@[0] matches StartAction::SendBinary(b) && b@ == hv),
                    h == 1 ==> out@[0] == StartAction::SendBinary(hist),
                    forall|i: int| 0 <= i < k ==> writes_input(out@[h + i], #[trigger] all[i]),
                    forall|i: int| 0 <= i < k ==> out@[h + i] == StartAction::WriteInput(#[trigger] all[i]),
                decreases rest.len(),
            {
                let x = rest.remove(0);
                proof {
                    assert(x == all[k]);
                    assert(all.skip(k).remove(0) =~= all.skip(k + 1));
                }
                let ghost before = out@;
                out.push(StartAction::WriteInput(x));
                proof {
                    assert(writes_input(out@[h + k], all[k]));
                    assert(out@[h + k] == StartAction::WriteInput(all[k]));
                    assert forall|i: int| 0 <= i < k + 1 implies writes_input(
                        out@[h + i],
                        #[trigger] all[i],
                    ) by {
                        if i < k {
                            assert(out@[h + i] == before[h + i]);
                        }
                    }
                    assert forall|i: int| 0 <= i < k + 1 implies out@[h + i] == StartAction::WriteInput(
                        #[trigger] all[i],
                    ) by {
                        if i < k {
                            assert(out@[h + i] == before[h + i]);
                        }
                    }
                    k = k + 1;
                }
            }
            assert(all.skip(k).len() == 0);
        },
    }
    out
}

// ─── Before attaching: waiting for the browser's size ───────────────────

/// What happens while the server waits for the browser's first size report.
#[derive(Debug)]
pub enum SizeWaitEvent {
    /// The wait timed out.
    TimedOut,
    /// The connection closed, failed or ended.
    Closed,
    /// A text frame; `None` when it is not a terminal message.
    Text(Option<TerminalMessage>),
    /// A binary frame: raw keyboard input.
    Binary(Vec<u8>),
    /// Any other frame.
    Other,
}

/// What to do next while waiting for the size.
#[derive(Debug, PartialEq, Eq, Structural)]
pub enum SizeWaitStep {
    /// Attach with this size.
    Ready(TermSize),
    /// Give up on the connection.
    Abort,
    /// Keep waiting.
    Continue,
}

/// One step of the wait for the first size: a size report ends it; a timeout falls back on
/// the recorded size (older pages never report one); a closed connection aborts; keyboard
/// input that arrives meanwhile is kept in order, to be replayed once attached.
pub fn initial_size_step(event: SizeWaitEvent, recorded: TermSize, pending: &mut Vec<Vec<u8>>) -> (r:
    SizeWaitStep)
    ensures
        match event {
            SizeWaitEvent::TimedOut => r == SizeWaitStep::Ready(recorded) && final(pending)@
                == old(pending)@,
            SizeWaitEvent::Closed => r == SizeWaitStep::Abort && final(pending)@ == old(pending)@,
            SizeWaitEvent::Text(Some(TerminalMessage::Resize { cols, rows })) => r
                == SizeWaitStep::Ready(TermSize { cols, rows }) && final(pending)@ == old(pending)@,
            SizeWaitEvent::Text(Some(TerminalMessage::Input { data })) => {
                &&& r == SizeWaitStep::Continue
                &&& final(pending)@.len() == old(pending)@.len() + 1
                &&& final(pending)@.take(old(pending)@.len() as int) == old(pending)@
                &&& final(pending)@.last()@ == encode_utf8(data@)
            },
            SizeWaitEvent::Binary(b) => {
                &&& r == SizeWaitStep::Continue
                &&& final(pending)@ == old(pending)@.push(b)
            },
            _ => r == SizeWaitStep::Continue && final(pending)@ == old(pending)@,
        },
{
    match event {
        SizeWaitEvent::TimedOut => SizeWaitStep::Ready(recorded),
        SizeWaitEvent::Closed => SizeWaitStep::Abort,
        SizeWaitEvent::Text(Some(TerminalMessage::Resize { cols, rows })) => SizeWaitStep::Ready(
            TermSize { cols, rows },
        ),
        SizeWaitEvent::Text(Some(TerminalMessage::Input { data })) => {
            let bytes = utf8_bytes(data.as_str());
            pending.push(bytes);
            assert(pending@.take(old(pending)@.len() as int) =~= old(pending)@);
            SizeWaitStep::Continue
        },
        SizeWaitEvent::Binary(b) => {
            pending.push(b);
            SizeWaitStep::Continue
        },
        _ => SizeWaitStep::Continue,
    }
}

// ─── Attached: the live connection ──────────────────────────────────────

/// What happens on an attached connection.
#[derive(Debug)]
pub enum StreamEvent {
    /// The keep-alive timer fired.
    PingTick,
    /// The attach ticket changed or its sender went away; `sender_alive` is false when the
    /// session was deleted rather than taken over.
    TicketChanged { sender_alive: bool },
    /// tmux produced output.
    Output(Vec<u8>),
    /// The tmux client ended; `replaced` says whether a newer attach holds the ticket.
    OutputEnded { replaced: bool },
    /// A text frame; `None` when it is not a terminal message.
    Text(Option<TerminalMessage>),
    /// A binary frame: raw keyboard input.
    Binary(Vec<u8>),
    /// The browser closed the connection, or it ended.
    Closed,
    /// The connection failed.
    Failed,
    /// Any other frame.
    Other,
}

/// What the server does in response.
#[derive(Debug)]
pub enum StreamAction {
    Nothing,
    /// Send a ping frame.
    SendPing,
    /// Send these bytes as a binary frame (never as text: a UTF-8 character may be split
    /// across chunks).
    SendBinary(Vec<u8>),
    /// Write these bytes to the terminal.
    WriteInput(Vec<u8>),
    /// Paste this text through a tmux buffer.
    Paste(String),
    /// Resize the terminal to the clamped size and record the reported size.
    Resize { cols: u16, rows: u16, reported: TermSize },
    /// Send this notice as a text frame.
    Notify(String),
    /// Check whether the tmux session still exists; if not, forget it and say so.
    CheckSession,
}

/// An action, and whether the connection ends after it.
#[derive(Debug)]
pub struct StreamStep {
    pub action: StreamAction,
    pub stop: bool,
}

/// The notice a client gets when another window took its session over.
pub open spec fn replaced_notice() -> Seq<char> {
    "SESSION_REPLACED"@
}

/// The response to one event on an attached connection.
pub open spec fn stream_step_post(event: StreamEvent, r: StreamStep) -> bool {
    match event {
        StreamEvent::PingTick => r.action is SendPing && !r.stop,
        StreamEvent::TicketChanged { sender_alive } => r.stop && if sender_alive {
            r.action matches StreamAction::Notify(m) && m@ == replaced_notice()
        } else {
            r.action is Nothing
        },
        StreamEvent::Output(b) => r.action == StreamAction::SendBinary(b) && !r.stop,
        StreamEvent::OutputEnded { replaced } => r.stop && if replaced {
            r.action matches StreamAction::Notify(m) && m@ == replaced_notice()
        } else {
            r.action is CheckSession
        },
        StreamEvent::Text(None) => r.action is Nothing && !r.stop,
        StreamEvent::Text(Some(m)) => match m {
            TerminalMessage::Input { data } => !r.stop && (r.action matches StreamAction::WriteInput(
                b,
            ) && b@ == encode_utf8(data@)),
            TerminalMessage::Paste { data } => !r.stop && (r.action matches StreamAction::Paste(t)
                && t@ == data@),
            TerminalMessage::Resize { cols, rows } => !r.stop && r.action == StreamAction::Resize {
                cols: clamp_axis_spec(cols),
                rows: clamp_axis_spec(rows),
                reported: TermSize { cols, rows },
            },
            TerminalMessage::CloseTerminal => r.action is Nothing && r.stop,
            _ => r.action is Nothing && !r.stop,
        },
        StreamEvent::Binary(b) => r.action == StreamAction::WriteInput(b) && !r.stop,
        StreamEvent::Closed => r.action is Nothing && r.stop,
        StreamEvent::Failed => r.action is Nothing && r.stop,
        StreamEvent::Other => r.action is Nothing && !r.stop,
    }
}

/// The response to one event on an attached connection. A takeover by another window is
/// announced, a deleted session is not; when the tmux client ends without a takeover the
/// session is checked. Input, pastes and resizes go to tmux; output goes to the browser.
pub fn stream_step(event: StreamEvent) -> (r: StreamStep)
    ensures
        stream_step_post(event, r),
        event is PingTick ==> r.action is SendPing && !r.stop,
        event matches StreamEvent::TicketChanged { sender_alive } ==> r.stop && (sender_alive
            ==> (r.action matches StreamAction::Notify(m) && m@ == "SESSION_REPLACED"@)) && (
        !sender_alive ==> r.action is Nothing),
        event matches StreamEvent::Output(b) ==> !r.stop && (r.action matches StreamAction::SendBinary(
            x,
        ) && x@ == b@),
        event matches StreamEvent::OutputEnded { replaced } ==> r.stop && (replaced ==> (
        r.action matches StreamAction::Notify(m) && m@ == "SESSION_REPLACED"@)) && (!replaced
            ==> r.action is CheckSession),
        event matches StreamEvent::Text(m) && m.is_none() ==> r.action is Nothing && !r.stop,
        event matches StreamEvent::Text(Some(TerminalMessage::Input { data })) ==> !r.stop && (
        r.action matches StreamAction::WriteInput(b) && b@ == encode_utf8(data@)),
        event matches StreamEvent::Text(Some(TerminalMessage::Paste { data })) ==> !r.stop && (
        r.action matches StreamAction::Paste(t) && t@ == data@),
        event matches StreamEvent::Text(Some(TerminalMessage::Resize { cols, rows })) ==> !r.stop
            && (r.action matches StreamAction::Resize { cols: c, rows: w, reported } && c == (if cols
            < 1 {
            1
        } else if cols > 1000 {
            1000
        } else {
            cols
        }) && w == (if rows < 1 {
            1
        } else if rows > 1000 {
            1000
        } else {
            rows
        }) && reported == TermSize { cols, rows }),
        event matches StreamEvent::Text(Some(TerminalMessage::CloseTerminal)) ==> r.stop
            && r.action is Nothing,
        event matches StreamEvent::Text(Some(TerminalMessage::ResumeSession { .. })) ==> !r.stop
            && r.action is Nothing,
        event matches StreamEvent::Text(Some(TerminalMessage::KeepAlive)) ==> !r.stop
            && r.action is Nothing,
        event matches StreamEvent::Binary(b) ==> !r.stop && (r.action matches StreamAction::WriteInput(
            x,
        ) && x@ == b@),
        event is Closed ==> r.stop && r.action is Nothing,
        event is Failed ==> r.stop && r.action is Nothing,
        event is Other ==> !r.stop && r.action is Nothing,
{
    match event {
        StreamEvent::PingTick => StreamStep { action: StreamAction::SendPing, stop: false },
        StreamEvent::TicketChanged { sender_alive } => {
            if sender_alive {
                StreamStep {
                    action: StreamAction::Notify(String::from_str("SESSION_REPLACED")),
                    stop: true,
                }
            } else {
                StreamStep { action: StreamAction::Nothing, stop: true }
            }
        },
        StreamEvent::Output(b) => StreamStep { action: StreamAction::SendBinary(b), stop: false },
        StreamEvent::OutputEnded { replaced } => {
            if replaced {
                StreamStep {
                    action: StreamAction::Notify(String::from_str("SESSION_REPLACED")),
                    stop: true,
                }
            } else {
                StreamStep { action: StreamAction::CheckSession, stop: true }
            }
        },
        StreamEvent::Text(None) => StreamStep { action: StreamAction::Nothing, stop: false },
        StreamEvent::Text(Some(m)) => match m {
            TerminalMessage::Input { data } => StreamStep {
                action: StreamAction::WriteInput(utf8_bytes(data.as_str())),
                stop: false,
            },
            TerminalMessage::Paste { data } => StreamStep {
                action: StreamAction::Paste(data),
                stop: false,
            },
            TerminalMessage::Resize { cols, rows } => StreamStep {
                action: StreamAction::Resize {
                    cols: clamp_axis(cols),
                    rows: clamp_axis(rows),
                    reported: TermSize { cols, rows },
                },
                stop: false,
            },
            TerminalMessage::CloseTerminal => StreamStep {
                action: StreamAction::Nothing,
                stop: true,
            },
            _ => StreamStep { action: StreamAction::Nothing, stop: false },
        },
        StreamEvent::Binary(b) => StreamStep { action: StreamAction::WriteInput(b), stop: false },
        StreamEvent::Closed => StreamStep { action: StreamAction::Nothing, stop: true },
        StreamEvent::Failed => StreamStep { action: StreamAction::Nothing, stop: true },
        StreamEvent::Other => StreamStep { action: StreamAction::Nothing, stop: false },
    }
}

/// The notice for a session whose tmux server is gone, or `None` while it lives.
pub fn gone_notice(alive: bool) -> (r: Option<String>)
    ensures
        alive <==> r is None,
        r matches Some(m) ==> m@ == "SESSION_GONE"@,
{
    if alive {
        None
    } else {
        Some(String::from_str("SESSION_GONE"))
    }
}

/// The notice for an attach request that is refused.
pub fn not_found_notice() -> (r: String)
    ensures
        r@ == "SESSION_NOT_FOUND"@,
{
    String::from_str("SESSION_NOT_FOUND")
}

/// What the connection does with each event: keep-alive pings go out; a takeover is
/// announced and ends the connection, a deletion ends it silently; output goes to the
/// browser as it came; typed input, binary frames, pastes and resizes go to tmux (a paste
/// as the same text, a resize clamped to 1..=1000 cells and recorded as reported); a
/// close request, a closed or failed connection end it; anything else is ignored.
pub proof fn lemma_stream_step_meaning(event: StreamEvent, r: StreamStep)
    requires
        stream_step_post(event, r),
    ensures
        event is PingTick ==> r.action is SendPing && !r.stop,
        event matches StreamEvent::TicketChanged { sender_alive } ==> r.stop && (sender_alive
            ==> (r.action matches StreamAction::Notify(m) && m@ == "SESSION_REPLACED"@)) && (
        !sender_alive ==> r.action is Nothing),
        event matches StreamEvent::Output(b) ==> !r.stop && (r.action matches StreamAction::SendBinary(
            x,
        ) && x@ == b@),
        event matches StreamEvent::OutputEnded { replaced } ==> r.stop && (replaced ==> (
        r.action matches StreamAction::Notify(m) && m@ == "SESSION_REPLACED"@)) && (!replaced
            ==> r.action is CheckSession),
        event matches StreamEvent::Text(m) && m.is_none() ==> r.action is Nothing && !r.stop,
        event matches StreamEvent::Text(Some(TerminalMessage::Input { data })) ==> !r.stop && (
        r.action matches StreamAction::WriteInput(b) && b@ == encode_utf8(data@)),
        event matches StreamEvent::Text(Some(TerminalMessage::Paste { data })) ==> !r.stop && (
        r.action matches StreamAction::Paste(t) && t@ == data@),
        event matches StreamEvent::Text(Some(TerminalMessage::Resize { cols, rows })) ==> !r.stop
            && (r.action matches StreamAction::Resize { cols: c, rows: w, reported } && c == (if cols
            < 1 {
            1
        } else if cols > 1000 {
            1000
        } else {
            cols
        }) && w == (if rows < 1 {
            1
        } else if rows > 1000 {
            1000
        } else {
            rows
        }) && reported == TermSize { cols, rows }),
        event matches StreamEvent::Text(Some(TerminalMessage::CloseTerminal)) ==> r.stop
            && r.action is Nothing,
        event matches StreamEvent::Text(Some(TerminalMessage::ResumeSession { .. })) ==> !r.stop
            && r.action is Nothing,
        event matches StreamEvent::Text(Some(TerminalMessage::KeepAlive)) ==> !r.stop
            && r.action is Nothing,
        event matches StreamEvent::Binary(b) ==> !r.stop && (r.action matches StreamAction::WriteInput(
            x,
        ) && x@ == b@),
        event is Closed ==> r.stop && r.action is Nothing,
        event is Failed ==> r.stop && r.action is Nothing,
        event is Other ==> !r.stop && r.action is Nothing,
{
}

/// Only a takeover by another window is announced as one: when the ticket's sender is
/// gone (the session was deleted), the connection ends without the takeover notice.
pub proof fn lemma_deleted_session_not_announced_as_takeover(r: StreamStep)
    requires
        stream_step_post(StreamEvent::TicketChanged { sender_alive: false }, r),
    ensures
        r.stop,
        !(r.action is Notify),
{
}

} // verus!
