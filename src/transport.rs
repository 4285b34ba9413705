//! The state of a mock serial port, for tests: bytes queued for the host to
//! read, the log of what the host wrote, and whether the port is closed.
//! Sharing it between a test and the link task, and waking a waiting reader,
//! belong to the runtime.
use vstd::prelude::*;

verus! {

/// A mock serial port's state.
pub struct MockState {
    /// Bytes available for the reader (device to host).
    pub read_buf: Vec<u8>,
    /// All bytes written by the host (host to device).
    pub write_log: Vec<u8>,
    /// The port is closed: reads and writes fail.
    pub closed: bool,
    /// Only the read side is closed: reads fail, writes still succeed.
    pub read_closed: bool,
}

/// What a read of the mock port gives.
pub enum MockRead {
    /// The port is closed for reading.
    Failed,
    /// No byte is queued yet; the reader must wait.
    Pending,
    /// These bytes, taken from the front of the queue.
    Data(Vec<u8>),
}

/// The write log after `data` is written to a port that is `closed` or not.
pub open spec fn logged(closed: bool, log: Seq<u8>, data: Seq<u8>) -> Seq<u8> {
    if closed {
        log
    } else {
        log + data
    }
}

/// The write log after each command of `cmds` is written in turn.
pub open spec fn logged_all(closed: bool, log: Seq<u8>, cmds: Seq<Seq<u8>>) -> Seq<u8>
    decreases cmds.len(),
{
    if cmds.len() == 0 {
        log
    } else {
        logged_all(closed, logged(closed, log, cmds[0]), cmds.drop_first())
    }
}

/// The commands one after another.
pub open spec fn concat_all(cmds: Seq<Seq<u8>>) -> Seq<u8>
    decreases cmds.len(),
{
    if cmds.len() == 0 {
        Seq::empty()
    } else {
        cmds[0] + concat_all(cmds.drop_first())
    }
}

/// Commands written one after another to an open port appear in the log in
/// the order they were written, each whole, with nothing between them.
pub proof fn lemma_writes_in_order(log: Seq<u8>, cmds: Seq<Seq<u8>>)
    ensures
        logged_all(false, log, cmds) == log + concat_all(cmds),
    decreases cmds.len(),
{
    if cmds.len() > 0 {
        lemma_writes_in_order(log + cmds[0], cmds.drop_first());
        assert(log + cmds[0] + concat_all(cmds.drop_first()) =~= log + concat_all(cmds));
    } else {
        assert(log + concat_all(cmds) =~= log);
    }
}

impl MockState {
    /// An open port with nothing queued and nothing written.
    pub fn new() -> (r: MockState)
        ensures
            r.read_buf@ == Seq::<u8>::empty(),
            r.write_log@ == Seq::<u8>::empty(),
            !r.closed,
            !r.read_closed,
    {
        MockState { read_buf: Vec::new(), write_log: Vec::new(), closed: false, read_closed: false }
    }

    /// Queue bytes for the host to read (simulating device to host).
    pub fn queue_read(&mut self, data: &[u8])
        ensures
            final(self).read_buf@ == old(self).read_buf@ + data@,
            final(self).write_log@ == old(self).write_log@,
            final(self).closed == old(self).closed,
            final(self).read_closed == old(self).read_closed,
    {
        let mut i: usize = 0;
        while i < data.len()
            invariant
                i <= data@.len(),
                self.read_buf@ == old(self).read_buf@ + data@.take(i as int),
                self.write_log@ == old(self).write_log@,
                self.closed == old(self).closed,
                self.read_closed == old(self).read_closed,
            decreases data@.len() - i,
        {
            self.read_buf.push(data[i]);
            i = i + 1;
            assert(data@.take(i as int) =~= data@.take(i - 1) + seq![data@[i - 1]]);
        }
        assert(data@.take(data@.len() as int) =~= data@);
    }

    /// All bytes written to the port (host to device).
    pub fn written_data(&self) -> (r: Vec<u8>)
        ensures
            r@ == self.write_log@,
    {
        let mut r: Vec<u8> = Vec::new();
        let mut i: usize = 0;
        while i < self.write_log.len()
            invariant
                i <= self.write_log@.len(),
                r@ == self.write_log@.take(i as int),
            decreases self.write_log@.len() - i,
        {
            r.push(self.write_log[i]);
            i = i + 1;
            assert(r@ =~= self.write_log@.take(i as int));
        }
        assert(self.write_log@.take(i as int) =~= self.write_log@);
        r
    }

    /// Whether bytes are queued for reading.
    pub fn has_pending_reads(&self) -> (r: bool)
        ensures
            r == (self.read_buf@.len() > 0),
    {
        self.read_buf.len() > 0
    }

    /// Close the port: later reads and writes fail.
    pub fn close(&mut self)
        ensures
            final(self).closed,
            final(self).read_closed == old(self).read_closed,
            final(self).read_buf@ == old(self).read_buf@,
            final(self).write_log@ == old(self).write_log@,
    {
        self.closed = true;
    }

    /// Close only the read side: writes still succeed, reads fail.
    pub fn close_read(&mut self)
        ensures
            final(self).read_closed,
            final(self).closed == old(self).closed,
            final(self).read_buf@ == old(self).read_buf@,
            final(self).write_log@ == old(self).write_log@,
    {
        self.read_closed = true;
    }

    /// Read at most `max` bytes.
    pub fn read(&mut self, max: usize) -> (r: MockRead)
        ensures
            final(self).write_log@ == old(self).write_log@,
            final(self).closed == old(self).closed,
            final(self).read_closed == old(self).read_closed,
            old(self).closed || old(self).read_closed ==> r is Failed && final(self).read_buf@
                == old(self).read_buf@,
            !(old(self).closed || old(self).read_closed) && old(self).read_buf@.len() == 0 ==> r is Pending
                && final(self).read_buf@ == old(self).read_buf@,
            !(old(self).closed || old(self).read_closed) && old(self).read_buf@.len() > 0 ==> ({
                let n = if max < old(self).read_buf@.len() {
                    max as int
                } else {
                    old(self).read_buf@.len() as int
                };
                &&& r matches MockRead::Data(d) && d@ == old(self).read_buf@.take(n)
                &&& final(self).read_buf@ == old(self).read_buf@.skip(n)
            }),
    {
        if self.closed || self.read_closed {
            return MockRead::Failed;
        }
        if self.read_buf.len() == 0 {
            return MockRead::Pending;
        }
        let n = if max < self.read_buf.len() {
            max
        } else {
            self.read_buf.len()
        };
        let mut rest = self.read_buf.split_off(n);
        core::mem::swap(&mut self.read_buf, &mut rest);
        MockRead::Data(rest)
    }

    /// Write all of `data`; fails, writing nothing, once the port is closed.
    pub fn write(&mut self, data: &[u8]) -> (ok: bool)
        ensures
            ok == !old(self).closed,
            final(self).write_log@ == logged(old(self).closed, old(self).write_log@, data@),
            final(self).read_buf@ == old(self).read_buf@,
            final(self).closed == old(self).closed,
            final(self).read_closed == old(self).read_closed,
    {
        if self.closed {
            return false;
        }
        let mut i: usize = 0;
        while i < data.len()
            invariant
                !self.closed,
                i <= data@.len(),
                self.write_log@ == old(self).write_log@ + data@.take(i as int),
                self.read_buf@ == old(self).read_buf@,
                self.closed == old(self).closed,
                self.read_closed == old(self).read_closed,
            decreases data@.len() - i,
        {
            self.write_log.push(data[i]);
            i = i + 1;
            assert(data@.take(i as int) =~= data@.take(i - 1) + seq![data@[i - 1]]);
        }
        assert(data@.take(data@.len() as int) =~= data@);
        true
    }

    /// Whether a flush succeeds: only while the port is open.
    pub fn flush(&self) -> (ok: bool)
        ensures
            ok == !self.closed,
    {
        !self.closed
    }

    /// Shut the port down: it is closed from then on.
    pub fn shutdown(&mut self)
        ensures
            final(self).closed,
            final(self).read_closed == old(self).read_closed,
            final(self).read_buf@ == old(self).read_buf@,
            final(self).write_log@ == old(self).write_log@,
    {
        self.closed = true;
    }
}

} // verus!
