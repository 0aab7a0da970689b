//! The decisions of a client exchange over a stream: each message goes out
//! behind its length in two bytes, big-endian, and the answer comes back framed
//! the same way. Sockets and the event loop stay with the caller.
use vstd::prelude::*;

verus! {

/// What can go wrong in a client exchange.
#[derive(Debug)]
pub enum ClientError {
    /// The exchange ended without an answer.
    NoDataReceived,
    /// Fewer bytes arrived than were announced.
    NotAllBytesReceived { received: usize, expect: usize },
    /// No answer came in time.
    TimedOut,
    /// The timer could not be set.
    TimerError,
    /// The stream failed, with the failure's description.
    Io(String),
}

/// The largest message that two bytes of length can announce.
pub const MAX_FRAME_LEN: usize = 65535;

/// The message behind its length, two bytes big-endian; `None` where the length
/// does not fit in two bytes.
pub fn frame_message(message: &Vec<u8>) -> (r: Option<Vec<u8>>)
    ensures
        r is None <==> message@.len() > MAX_FRAME_LEN,
        r matches Some(f) ==> f@ == seq![
            (message@.len() / 256) as u8,
            (message@.len() % 256) as u8,
        ] + message@,
{
    let len = message.len();
    if len > MAX_FRAME_LEN {
        return None;
    }
    let mut out: Vec<u8> = Vec::new();
    out.push((len / 256) as u8);
    out.push((len % 256) as u8);
    let ghost head = out@;
    let mut i: usize = 0;
    while i < len
        invariant
            len == message@.len(),
            0 <= i <= len,
            out@ == head + message@.subrange(0, i as int),
        decreases len - i,
    {
        out.push(message[i]);
        i = i + 1;
        assert(out@ =~= head + message@.subrange(0, i as int));
    }
    assert(message@.subrange(0, len as int) =~= message@);
    assert(head =~= seq![(len / 256) as u8, (len % 256) as u8]);
    Some(out)
}

/// The length that two bytes announce, big-endian.
pub fn decode_length(len_bytes: [u8; 2]) -> (r: u16)
    ensures
        r as int == len_bytes@[0] as int * 256 + len_bytes@[1] as int,
{
    let hi = len_bytes[0] as u16;
    let lo = len_bytes[1] as u16;
    hi * 256 + lo
}

/// Whether a read brought all the bytes it was to bring.
pub fn check_received(received: usize, expect: usize) -> (r: Result<(), ClientError>)
    ensures
        received == expect ==> r is Ok,
        received != expect ==> r == Err::<(), ClientError>(
            ClientError::NotAllBytesReceived { received, expect },
        ),
{
    if received != expect {
        Err(ClientError::NotAllBytesReceived { received, expect })
    } else {
        Ok(())
    }
}

/// What the event loop reported on the stream.
#[derive(Clone, Copy, Debug)]
pub struct Readiness {
    /// The event is for the stream of this exchange.
    pub ours: bool,
    pub writable: bool,
    pub readable: bool,
    pub error: bool,
    pub hup: bool,
}

/// What to do on an event.
#[derive(PartialEq, Eq, Structural, Clone, Copy, Debug)]
pub enum ReadyAction {
    /// Write the framed message.
    Write,
    /// Read the framed answer, then stop the loop.
    Read,
    /// The stream closed or failed: record `NoDataReceived` and stop the loop.
    Hangup,
    /// The event is for another stream: record `NoDataReceived`.
    Foreign,
    /// Nothing to do.
    Idle,
}

/// The action for an event: writing comes before reading, and a stream that is
/// neither writable nor readable but failed or closed ends the exchange.
pub fn on_ready(ev: Readiness) -> (r: ReadyAction)
    ensures
        r == (if !ev.ours {
            ReadyAction::Foreign
        } else if ev.writable {
            ReadyAction::Write
        } else if ev.readable {
            ReadyAction::Read
        } else if ev.error || ev.hup {
            ReadyAction::Hangup
        } else {
            ReadyAction::Idle
        }),
{
    if !ev.ours {
        ReadyAction::Foreign
    } else if ev.writable {
        ReadyAction::Write
    } else if ev.readable {
        ReadyAction::Read
    } else if ev.error || ev.hup {
        ReadyAction::Hangup
    } else {
        ReadyAction::Idle
    }
}

/// The outcome of an exchange: the error recorded, if any; else the answer
/// read; else `NoDataReceived`.
pub fn finish_send(error: Option<ClientError>, buf: Option<Vec<u8>>) -> (r: Result<
    Vec<u8>,
    ClientError,
>)
    ensures
        error matches Some(e) ==> r == Err::<Vec<u8>, ClientError>(e),
        error is None && buf is None ==> r == Err::<Vec<u8>, ClientError>(
            ClientError::NoDataReceived,
        ),
        error is None && buf is Some ==> r == Ok::<Vec<u8>, ClientError>(buf->0),
{
    match error {
        Some(e) => Err(e),
        None => match buf {
            Some(b) => Ok(b),
            None => Err(ClientError::NoDataReceived),
        },
    }
}

} // verus!
