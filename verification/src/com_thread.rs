use std::collections::VecDeque;
use vstd::prelude::*;

verus! {

/// Bits in a byte on the emulated serial line.
pub const BITS_PER_BYTE: u32 = 8;

/// `a * b`, or `u32::MAX` when the product does not fit.
pub open spec fn saturating_mul_spec(a: u32, b: u32) -> u32 {
    if a * b > u32::MAX { u32::MAX } else { (a * b) as u32 }
}

/// How many buffered bytes the baud-rate emulation lets through after
/// `elapsed_ms` milliseconds: `baud_rate / 8` bytes per second, at most as
/// many as are buffered (the buffered count taken as `u32`).
pub open spec fn spec_bytes_to_send(baud_rate: u32, elapsed_ms: u32, buffered: usize) -> usize {
    let allowed = saturating_mul_spec(baud_rate / 8, elapsed_ms) / 1000;
    let cap = buffered as u32;
    (if allowed < cap { allowed } else { cap }) as usize
}

fn saturating_mul(a: u32, b: u32) -> (r: u32)
    ensures
        r == saturating_mul_spec(a, b),
{
    assert((a as int) * (b as int) <= 0xffff_ffff * 0xffff_ffff) by (nonlinear_arith)
        requires
            a <= 0xffff_ffff,
            b <= 0xffff_ffff,
    ;
    let wide: u64 = (a as u64) * (b as u64);
    if wide > 0xffff_ffff {
        0xffff_ffff
    } else {
        wide as u32
    }
}

/// Number of bytes to hand on after `elapsed_ms` at `baud_rate`.
pub fn bytes_to_send(baud_rate: u32, elapsed_ms: u32, buffered: usize) -> (n: usize)
    ensures
        n == spec_bytes_to_send(baud_rate, elapsed_ms, buffered),
        n <= buffered,
        n as int * 1000 <= (baud_rate / 8) as int * elapsed_ms as int,
{
    let bytes_per_sec = baud_rate / BITS_PER_BYTE;
    let allowed = saturating_mul(bytes_per_sec, elapsed_ms) / 1000;
    let cap = buffered as u32;
    let n = if allowed < cap { allowed } else { cap };
    n as usize
}

/// State of the connection thread apart from the connection itself:
/// whether it runs and is connected, the emulated baud rate (0: none) and
/// the bytes held back by the emulation.
pub struct ComThreadState {
    thread_is_running: bool,
    is_connected: bool,
    baud_rate: u32,
    data_buffer: VecDeque<u8>,
}

impl ComThreadState {
    pub closed spec fn running(&self) -> bool {
        self.thread_is_running
    }

    pub closed spec fn connected(&self) -> bool {
        self.is_connected
    }

    pub closed spec fn baud(&self) -> u32 {
        self.baud_rate
    }

    pub closed spec fn pending(&self) -> Seq<u8> {
        self.data_buffer@
    }

    /// Running, not connected, no emulation, nothing held back.
    pub fn new() -> (res: Self)
        ensures
            res.running(),
            !res.connected(),
            res.baud() == 0,
            res.pending() == Seq::<u8>::empty(),
    {
        ComThreadState { thread_is_running: true, is_connected: false, baud_rate: 0, data_buffer: VecDeque::new() }
    }

    pub fn is_running(&self) -> (res: bool)
        ensures
            res == self.running(),
    {
        self.thread_is_running
    }

    pub fn is_connected(&self) -> (res: bool)
        ensures
            res == self.connected(),
    {
        self.is_connected
    }

    /// The emulated baud rate (0: none).
    pub fn baud_rate(&self) -> (res: u32)
        ensures
            res == self.baud(),
    {
        self.baud_rate
    }

    /// A connection was opened.
    pub fn set_connected(&mut self)
        ensures
            final(self).connected(),
            final(self).running() == old(self).running(),
            final(self).baud() == old(self).baud(),
            final(self).pending() == old(self).pending(),
    {
        self.is_connected = true;
    }

    pub fn set_baud_rate(&mut self, baud: u32)
        ensures
            final(self).baud() == baud,
            final(self).running() == old(self).running(),
            final(self).connected() == old(self).connected(),
            final(self).pending() == old(self).pending(),
    {
        self.baud_rate = baud;
    }

    /// Records whether a message to the ui side could be sent; the thread
    /// stops running once one could not.
    pub fn note_channel_send(&mut self, ok: bool)
        ensures
            final(self).running() == (old(self).running() && ok),
            final(self).connected() == old(self).connected(),
            final(self).baud() == old(self).baud(),
            final(self).pending() == old(self).pending(),
    {
        self.thread_is_running = self.thread_is_running && ok;
    }

    /// Drops the connection: not connected, no emulation, nothing held
    /// back; `disconnect_sent` tells whether the ui side was told.
    pub fn disconnect(&mut self, disconnect_sent: bool)
        ensures
            !final(self).connected(),
            final(self).baud() == 0,
            final(self).pending() == Seq::<u8>::empty(),
            final(self).running() == (old(self).running() && disconnect_sent),
    {
        self.is_connected = false;
        self.baud_rate = 0;
        self.data_buffer.clear();
        self.thread_is_running = self.thread_is_running && disconnect_sent;
    }

    /// Nothing is held back, so the connection should be read.
    pub fn needs_com_read(&self) -> (res: bool)
        ensures
            res == (self.pending().len() == 0),
    {
        self.data_buffer.len() == 0
    }

    /// Bytes read from the connection: without emulation they are handed
    /// on at once (returned), otherwise held back.
    pub fn accept_com_data(&mut self, data: Vec<u8>) -> (forward: Option<Vec<u8>>)
        ensures
            old(self).baud() == 0 ==> forward == Some(data) && final(self).pending() == old(self).pending(),
            old(self).baud() != 0 ==> forward is None && final(self).pending() == old(self).pending() + data@,
            final(self).baud() == old(self).baud(),
            final(self).running() == old(self).running(),
            final(self).connected() == old(self).connected(),
    {
        if self.baud_rate == 0 {
            Some(data)
        } else {
            let n = data.len();
            let mut i: usize = 0;
            while i < n
                invariant
                    n == data@.len(),
                    i <= n,
                    self.data_buffer@ == old(self).data_buffer@ + data@.take(i as int),
                    self.baud_rate == old(self).baud_rate,
                    self.thread_is_running == old(self).thread_is_running,
                    self.is_connected == old(self).is_connected,
                decreases n - i,
            {
                self.data_buffer.push_back(data[i]);
                i = i + 1;
                assert(self.data_buffer@ =~= old(self).data_buffer@ + data@.take(i as int));
            }
            assert(data@.take(n as int) =~= data@);
            None
        }
    }

    /// The held-back bytes to hand on now: all of them without emulation,
    /// else as many as `elapsed_ms` allows at the baud rate.
    pub fn take_pending(&mut self, elapsed_ms: u32) -> (out: Vec<u8>)
        ensures
            ({
                let n = if old(self).baud() == 0 {
                    old(self).pending().len() as int
                } else {
                    spec_bytes_to_send(old(self).baud(), elapsed_ms, old(self).pending().len() as usize) as int
                };
                &&& out@ == old(self).pending().take(n)
                &&& final(self).pending() == old(self).pending().skip(n)
            }),
            final(self).baud() == old(self).baud(),
            final(self).running() == old(self).running(),
            final(self).connected() == old(self).connected(),
    {
        let len = self.data_buffer.len();
        let n = if self.baud_rate == 0 { len } else { bytes_to_send(self.baud_rate, elapsed_ms, len) };
        let mut out: Vec<u8> = Vec::new();
        let mut i: usize = 0;
        while i < n
            invariant
                i <= n,
                n <= len,
                len == old(self).data_buffer@.len(),
                out@ == old(self).data_buffer@.take(i as int),
                self.data_buffer@ == old(self).data_buffer@.skip(i as int),
                self.baud_rate == old(self).baud_rate,
                self.thread_is_running == old(self).thread_is_running,
                self.is_connected == old(self).is_connected,
            decreases n - i,
        {
            match self.data_buffer.pop_front() {
                Some(b) => out.push(b),
                None => {},
            }
            i = i + 1;
            assert(out@ =~= old(self).data_buffer@.take(i as int));
            assert(self.data_buffer@ =~= old(self).data_buffer@.skip(i as int));
        }
        out
    }
}

/// The baud-rate emulation neither loses nor reorders bytes. Let
/// `accept_com_data` take the state `before` (with an emulated rate) to
/// `held` on the arrival of `data`, and `take_pending` then hand on `out`
/// and leave `after`: what was handed on followed by what is still held
/// back is what was held back before followed by `data`.
pub proof fn lemma_emulation_keeps_order(
    before: ComThreadState,
    held: ComThreadState,
    after: ComThreadState,
    data: Seq<u8>,
    out: Seq<u8>,
    n: int,
)
    requires
        held.pending() == before.pending() + data,
        0 <= n <= held.pending().len(),
        out == held.pending().take(n),
        after.pending() == held.pending().skip(n),
    ensures
        out + after.pending() == before.pending() + data,
        n <= before.pending().len() ==> out == before.pending().take(n),
{
    assert(out + after.pending() =~= before.pending() + data);
    if n <= before.pending().len() {
        assert(out =~= before.pending().take(n));
    }
}

} // verus!
