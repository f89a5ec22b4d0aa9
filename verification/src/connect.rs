use std::collections::VecDeque;
use vstd::prelude::*;

verus! {

/// `anyhow::Error`, the error of the connection operations, carried through
/// as an opaque value.
#[verifier::external_type_specification]
#[verifier::external_body]
pub struct ExAnyhowError(anyhow::Error);

/// Result of the terminal's fallible operations.
pub type TerminalResult<T> = Result<T, anyhow::Error>;

/// A byte connection to a remote system.
pub trait DataConnection {
    /// A read of `n` bytes can be served: by default a connection waits
    /// until the bytes arrive.
    open spec fn can_read(&self, n: nat) -> bool {
        true
    }

    fn is_data_available(&mut self) -> TerminalResult<bool>;

    fn read_buffer(&mut self) -> Vec<u8>;

    fn read_u8(&mut self) -> TerminalResult<u8>
        requires
            old(self).can_read(1),
    ;

    fn read_exact(&mut self, size: usize) -> TerminalResult<Vec<u8>>
        requires
            old(self).can_read(size as nat),
    ;

    fn send(&mut self, vec: Vec<u8>) -> TerminalResult<()>;
}

/// Copies the contents of a queue into a vector, front first.
fn deque_to_vec(q: &VecDeque<u8>) -> (v: Vec<u8>)
    ensures
        v@ == q@,
{
    let mut v: Vec<u8> = Vec::new();
    let n = q.len();
    let mut i: usize = 0;
    while i < n
        invariant
            n == q@.len(),
            i <= n,
            v@ == q@.take(i as int),
        decreases n - i,
    {
        v.push(q[i]);
        i = i + 1;
        assert(v@ =~= q@.take(i as int));
    }
    assert(q@.take(n as int) =~= q@);
    v
}

/// Removes the first `size` bytes of a queue and returns them.
fn drain_front(q: &mut VecDeque<u8>, size: usize) -> (v: Vec<u8>)
    requires
        size <= old(q)@.len(),
    ensures
        v@ == old(q)@.take(size as int),
        final(q)@ == old(q)@.skip(size as int),
{
    let mut v: Vec<u8> = Vec::new();
    let mut i: usize = 0;
    while i < size
        invariant
            i <= size,
            size <= old(q)@.len(),
            v@ == old(q)@.take(i as int),
            q@ == old(q)@.skip(i as int),
        decreases size - i,
    {
        let c = q.pop_front();
        match c {
            Some(b) => {
                v.push(b);
            },
            None => {},
        }
        i = i + 1;
        assert(v@ =~= old(q)@.take(i as int));
        assert(q@ =~= old(q)@.skip(i as int));
    }
    v
}

/// Appends all bytes of `data` to the back of a queue.
fn extend_back(q: &mut VecDeque<u8>, data: &Vec<u8>)
    ensures
        final(q)@ == old(q)@ + data@,
{
    let n = data.len();
    let mut i: usize = 0;
    while i < n
        invariant
            n == data@.len(),
            i <= n,
            q@ == old(q)@ + data@.take(i as int),
        decreases n - i,
    {
        q.push_back(data[i]);
        i = i + 1;
        assert(q@ =~= old(q)@ + data@.take(i as int));
    }
    assert(data@.take(n as int) =~= data@);
}

/// An in-memory connection: the sending side writes into `send_buffer` and
/// reads from `recv_buffer`; the other side the other way round.
pub struct TestConnection {
    pub is_sender: bool,
    send_buffer: VecDeque<u8>,
    recv_buffer: VecDeque<u8>,
}

impl TestConnection {
    pub closed spec fn sender(&self) -> bool {
        self.is_sender
    }

    pub closed spec fn send_buffer(&self) -> Seq<u8> {
        self.send_buffer@
    }

    pub closed spec fn recv_buffer(&self) -> Seq<u8> {
        self.recv_buffer@
    }

    /// The queue that `send` writes into.
    pub open spec fn outgoing(&self) -> Seq<u8> {
        if self.sender() { self.send_buffer() } else { self.recv_buffer() }
    }

    /// The queue that the reads take from.
    pub open spec fn incoming(&self) -> Seq<u8> {
        if self.sender() { self.recv_buffer() } else { self.send_buffer() }
    }

    pub fn new(is_sender: bool) -> (res: Self)
        ensures
            res.sender() == is_sender,
            res.send_buffer() == Seq::<u8>::empty(),
            res.recv_buffer() == Seq::<u8>::empty(),
    {
        Self { is_sender, send_buffer: VecDeque::new(), recv_buffer: VecDeque::new() }
    }

    fn get_send_buffer(&mut self) -> (buf: &mut VecDeque<u8>)
        ensures
            buf@ == old(self).outgoing(),
            final(self).sender() == old(self).sender(),
            final(self).outgoing() == final(buf)@,
            final(self).incoming() == old(self).incoming(),
    {
        if self.is_sender {
            &mut self.send_buffer
        } else {
            &mut self.recv_buffer
        }
    }

    fn get_recv_buffer(&mut self) -> (buf: &mut VecDeque<u8>)
        ensures
            buf@ == old(self).incoming(),
            final(self).sender() == old(self).sender(),
            final(self).incoming() == final(buf)@,
            final(self).outgoing() == old(self).outgoing(),
    {
        if self.is_sender {
            &mut self.recv_buffer
        } else {
            &mut self.send_buffer
        }
    }

    /// The bytes in the send buffer, front first.
    pub fn read_receive_buffer(&self) -> (res: Vec<u8>)
        ensures
            res@ == self.send_buffer(),
    {
        deque_to_vec(&self.send_buffer)
    }
}

impl DataConnection for TestConnection {
    open spec fn can_read(&self, n: nat) -> bool {
        n <= self.incoming().len()
    }

    fn is_data_available(&mut self) -> (res: TerminalResult<bool>)
        ensures
            res matches Ok(b) && b == (old(self).incoming().len() > 0),
            *final(self) == *old(self),
    {
        let len = if self.is_sender { self.recv_buffer.len() } else { self.send_buffer.len() };
        Ok(len > 0)
    }

    fn read_buffer(&mut self) -> (res: Vec<u8>)
        ensures
            res@ == old(self).incoming(),
            final(self).incoming() == Seq::<u8>::empty(),
            final(self).outgoing() == old(self).outgoing(),
            final(self).sender() == old(self).sender(),
    {
        let len = self.get_recv_buffer().len();
        let res = drain_front(self.get_recv_buffer(), len);
        assert(old(self).incoming().take(len as int) =~= old(self).incoming());
        res
    }

    fn read_u8(&mut self) -> (res: TerminalResult<u8>)
        ensures
            res matches Ok(b) && b == old(self).incoming()[0],
            final(self).incoming() == old(self).incoming().skip(1),
            final(self).outgoing() == old(self).outgoing(),
            final(self).sender() == old(self).sender(),
    {
        let b = self.get_recv_buffer().pop_front();
        match b {
            Some(b) => {
                assert(old(self).incoming().subrange(1, old(self).incoming().len() as int) =~= old(self).incoming().skip(1));
                Ok(b)
            },
            None => {
                proof { assert(false); }
                Ok(0)
            },
        }
    }

    fn read_exact(&mut self, size: usize) -> (res: TerminalResult<Vec<u8>>)
        ensures
            res matches Ok(v) && v@ == old(self).incoming().take(size as int),
            final(self).incoming() == old(self).incoming().skip(size as int),
            final(self).outgoing() == old(self).outgoing(),
            final(self).sender() == old(self).sender(),
    {
        Ok(drain_front(self.get_recv_buffer(), size))
    }

    fn send(&mut self, vec: Vec<u8>) -> (res: TerminalResult<()>)
        ensures
            res is Ok,
            final(self).outgoing() == old(self).outgoing() + vec@,
            final(self).incoming() == old(self).incoming(),
            final(self).sender() == old(self).sender(),
    {
        extend_back(self.get_send_buffer(), &vec);
        Ok(())
    }
}


/// A message from the connection thread, as far as the reading side looks
/// at it (`Other` stands for the requests that only travel the other way).
pub enum ChannelMessage {
    Data(Vec<u8>),
    Disconnect,
    EndTransfer,
    Connected,
    ConnectionError(String),
    Other,
}

/// One poll of the channel.
pub enum RecvEvent {
    Message(ChannelMessage),
    Empty,
    Disconnected,
}

/// Why filling the buffer failed.
#[derive(PartialEq, Eq, Debug)]
pub enum FillError {
    /// The connection thread reported an error (its text).
    ConnectionAborted(String),
    /// A request that only the connection thread understands came back.
    UnsupportedData,
    /// The connection thread is gone while connected.
    ChannelDisconnected,
}

/// What the reading loop does after one poll.
#[derive(PartialEq, Eq, Debug)]
pub enum FillStep {
    /// Poll again.
    Continue,
    /// Stop polling; all is well.
    Done,
    /// Stop polling with an error.
    Failed(FillError),
}

/// The reading side of a connection: connection flags and the bytes that
/// arrived but were not read yet.
pub struct ConnectionState {
    is_connected: bool,
    end_transfer: bool,
    buf: VecDeque<u8>,
}

impl ConnectionState {
    pub closed spec fn connected(&self) -> bool {
        self.is_connected
    }

    pub closed spec fn transfer_ended(&self) -> bool {
        self.end_transfer
    }

    pub closed spec fn buffered(&self) -> Seq<u8> {
        self.buf@
    }

    /// Not connected, no transfer end seen, nothing buffered.
    pub fn new() -> (res: Self)
        ensures
            !res.connected(),
            !res.transfer_ended(),
            res.buffered() == Seq::<u8>::empty(),
    {
        ConnectionState { is_connected: false, end_transfer: false, buf: VecDeque::new() }
    }

    /// Handles one poll of the channel.
    pub fn handle_event(&mut self, event: RecvEvent) -> (step: FillStep)
        ensures
            match event {
                RecvEvent::Message(ChannelMessage::Data(v)) => {
                    &&& step == FillStep::Continue
                    &&& final(self).buffered() == old(self).buffered() + v@
                    &&& final(self).connected() == old(self).connected()
                    &&& final(self).transfer_ended() == old(self).transfer_ended()
                },
                RecvEvent::Message(ChannelMessage::Disconnect) => {
                    &&& step == FillStep::Done
                    &&& !final(self).connected()
                    &&& final(self).transfer_ended() == old(self).transfer_ended()
                    &&& final(self).buffered() == old(self).buffered()
                },
                RecvEvent::Message(ChannelMessage::EndTransfer) => {
                    &&& step == FillStep::Done
                    &&& final(self).transfer_ended()
                    &&& final(self).connected() == old(self).connected()
                    &&& final(self).buffered() == old(self).buffered()
                },
                RecvEvent::Message(ChannelMessage::Connected) => {
                    &&& step == FillStep::Done
                    &&& final(self).connected()
                    &&& final(self).transfer_ended() == old(self).transfer_ended()
                    &&& final(self).buffered() == old(self).buffered()
                },
                RecvEvent::Message(ChannelMessage::ConnectionError(e)) => {
                    &&& step == FillStep::Failed(FillError::ConnectionAborted(e))
                    &&& !final(self).connected()
                    &&& final(self).transfer_ended()
                    &&& final(self).buffered() == old(self).buffered()
                },
                RecvEvent::Message(ChannelMessage::Other) => {
                    &&& step == FillStep::Failed(FillError::UnsupportedData)
                    &&& final(self).connected() == old(self).connected()
                    &&& final(self).transfer_ended() == old(self).transfer_ended()
                    &&& final(self).buffered() == old(self).buffered()
                },
                RecvEvent::Empty => {
                    &&& step == FillStep::Done
                    &&& final(self).connected() == old(self).connected()
                    &&& final(self).transfer_ended() == old(self).transfer_ended()
                    &&& final(self).buffered() == old(self).buffered()
                },
                RecvEvent::Disconnected => {
                    &&& step == (if old(self).connected() { FillStep::Failed(FillError::ChannelDisconnected) } else { FillStep::Done })
                    &&& !final(self).connected()
                    &&& final(self).transfer_ended() == old(self).transfer_ended()
                    &&& final(self).buffered() == old(self).buffered()
                },
            },
    {
        match event {
            RecvEvent::Message(msg) => match msg {
                ChannelMessage::Data(v) => {
                    extend_back(&mut self.buf, &v);
                    FillStep::Continue
                },
                ChannelMessage::Disconnect => {
                    self.is_connected = false;
                    FillStep::Done
                },
                ChannelMessage::EndTransfer => {
                    self.end_transfer = true;
                    FillStep::Done
                },
                ChannelMessage::Connected => {
                    self.is_connected = true;
                    FillStep::Done
                },
                ChannelMessage::ConnectionError(e) => {
                    self.is_connected = false;
                    self.end_transfer = true;
                    FillStep::Failed(FillError::ConnectionAborted(e))
                },
                ChannelMessage::Other => FillStep::Failed(FillError::UnsupportedData),
            },
            RecvEvent::Empty => FillStep::Done,
            RecvEvent::Disconnected => {
                if !self.is_connected {
                    FillStep::Done
                } else {
                    self.is_connected = false;
                    FillStep::Failed(FillError::ChannelDisconnected)
                }
            },
        }
    }

    pub fn is_connected(&self) -> (res: bool)
        ensures
            res == self.connected(),
    {
        self.is_connected
    }

    pub fn is_disconnected(&self) -> (res: bool)
        ensures
            res == !self.connected(),
    {
        !self.is_connected
    }

    /// Marks the connection as lost (a send failed).
    pub fn set_disconnected(&mut self)
        ensures
            !final(self).connected(),
            final(self).transfer_ended() == old(self).transfer_ended(),
            final(self).buffered() == old(self).buffered(),
    {
        self.is_connected = false;
    }

    /// Whether the end of a file transfer was signalled.
    pub fn should_end_transfer(&self) -> (res: bool)
        ensures
            res == self.transfer_ended(),
    {
        self.end_transfer
    }

    /// Starts a transfer: forgets a previous end-of-transfer signal.
    pub fn start_transfer(&mut self)
        ensures
            !final(self).transfer_ended(),
            final(self).connected() == old(self).connected(),
            final(self).buffered() == old(self).buffered(),
    {
        self.end_transfer = false;
    }

    /// Some received bytes are waiting.
    pub fn has_data(&self) -> (res: bool)
        ensures
            res == (self.buffered().len() > 0),
    {
        self.buf.len() > 0
    }

    /// Number of received bytes waiting.
    pub fn buffered_len(&self) -> (res: usize)
        ensures
            res == self.buffered().len(),
    {
        self.buf.len()
    }

    /// Takes all waiting bytes.
    pub fn read_buffer(&mut self) -> (res: Vec<u8>)
        ensures
            res@ == old(self).buffered(),
            final(self).buffered() == Seq::<u8>::empty(),
            final(self).connected() == old(self).connected(),
            final(self).transfer_ended() == old(self).transfer_ended(),
    {
        let len = self.buf.len();
        let res = drain_front(&mut self.buf, len);
        assert(old(self).buffered().take(len as int) =~= old(self).buffered());
        res
    }

    /// Takes the first waiting byte.
    pub fn read_u8(&mut self) -> (res: u8)
        requires
            old(self).buffered().len() > 0,
        ensures
            res == old(self).buffered()[0],
            final(self).buffered() == old(self).buffered().skip(1),
            final(self).connected() == old(self).connected(),
            final(self).transfer_ended() == old(self).transfer_ended(),
    {
        let v = drain_front(&mut self.buf, 1);
        v[0]
    }

    /// Takes the first `size` waiting bytes.
    pub fn read_exact(&mut self, size: usize) -> (res: Vec<u8>)
        requires
            size <= old(self).buffered().len(),
        ensures
            res@ == old(self).buffered().take(size as int),
            final(self).buffered() == old(self).buffered().skip(size as int),
            final(self).connected() == old(self).connected(),
            final(self).transfer_ended() == old(self).transfer_ended(),
    {
        drain_front(&mut self.buf, size)
    }
}

/// Received bytes are neither lost nor reordered. Let `handle_event` take
/// the state `before` to `buffered` on the arrival of `data`, and a read
/// (`read_exact` of `n` bytes, or `read_buffer` with `n` all of them) then
/// return `read` and leave `after`: what was read followed by what still
/// waits is what waited before followed by `data`, and a read of no more
/// than was waiting before returns only older bytes.
pub proof fn lemma_received_in_order(
    before: ConnectionState,
    buffered: ConnectionState,
    after: ConnectionState,
    data: Seq<u8>,
    read: Seq<u8>,
    n: int,
)
    requires
        buffered.buffered() == before.buffered() + data,
        0 <= n <= buffered.buffered().len(),
        read == buffered.buffered().take(n),
        after.buffered() == buffered.buffered().skip(n),
    ensures
        read + after.buffered() == before.buffered() + data,
        n <= before.buffered().len() ==> read == before.buffered().take(n),
{
    assert(read + after.buffered() =~= before.buffered() + data);
    if n <= before.buffered().len() {
        assert(read =~= before.buffered().take(n));
    }
}

} // verus!
