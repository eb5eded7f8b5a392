//! An in-memory datagram transport.

use vstd::prelude::*;

use std::collections::VecDeque;
use vstd::slice::slice_to_vec;

use crate::rpc::{Endpoint, RpcError};

verus! {

/// In-memory transport: records what is sent and hands out what was queued.
pub struct MockRpcTransport {
    tx: Vec<(Vec<u8>, Endpoint)>,
    rx: VecDeque<(Vec<u8>, Endpoint)>,
}

/// What a list of datagrams holds.
pub open spec fn datagrams(s: Seq<(Vec<u8>, Endpoint)>) -> Seq<(Seq<u8>, Endpoint)> {
    s.map_values(|d: (Vec<u8>, Endpoint)| (d.0@, d.1))
}

impl MockRpcTransport {
    /// The datagrams sent so far, in order, each with its destination.
    pub closed spec fn sent_datagrams(self) -> Seq<(Seq<u8>, Endpoint)> {
        datagrams(self.tx@)
    }

    /// The datagrams queued for reception, oldest first, each with its source.
    pub closed spec fn queued_datagrams(self) -> Seq<(Seq<u8>, Endpoint)> {
        datagrams(self.rx@)
    }

    /// An empty transport: nothing sent yet, nothing queued to receive.
    pub fn new() -> (t: Self)
        ensures
            t.sent_datagrams() == Seq::<(Seq<u8>, Endpoint)>::empty(),
            t.queued_datagrams() == Seq::<(Seq<u8>, Endpoint)>::empty(),
    {
        let t = MockRpcTransport { tx: Vec::new(), rx: VecDeque::new() };
        assert(t.sent_datagrams() =~= Seq::empty());
        assert(t.queued_datagrams() =~= Seq::empty());
        t
    }

    /// Enqueue a datagram to be returned by `recv` (first in, first out).
    pub fn push_rx(&mut self, bytes: Vec<u8>, from: Endpoint)
        ensures
            final(self).queued_datagrams() == old(self).queued_datagrams().push((bytes@, from)),
            final(self).sent_datagrams() == old(self).sent_datagrams(),
    {
        self.rx.push_back((bytes, from));
        assert(self.queued_datagrams() =~= old(self).queued_datagrams().push((bytes@, from)));
    }

    /// Copies of all datagrams sent via `send`, in order.
    pub fn sent(&self) -> (r: Vec<(Vec<u8>, Endpoint)>)
        ensures
            datagrams(r@) == self.sent_datagrams(),
    {
        let mut r: Vec<(Vec<u8>, Endpoint)> = Vec::new();
        let mut i: usize = 0;
        while i < self.tx.len()
            invariant
                i <= self.tx@.len(),
                r@.len() == i,
                forall|k: int|
                    0 <= k < i ==> (#[trigger] r@[k]).0@ == self.tx@[k].0@ && r@[k].1
                        == self.tx@[k].1,
            decreases self.tx@.len() - i,
        {
            r.push((slice_to_vec(self.tx[i].0.as_slice()), self.tx[i].1));
            i = i + 1;
        }
        assert(datagrams(r@) =~= self.sent_datagrams());
        r
    }

    /// Record a datagram as sent; never fails.
    pub fn send(&mut self, buf: &[u8], to: Endpoint) -> (res: Result<(), RpcError>)
        ensures
            res is Ok,
            final(self).sent_datagrams() == old(self).sent_datagrams().push((buf@, to)),
            final(self).queued_datagrams() == old(self).queued_datagrams(),
    {
        self.tx.push((slice_to_vec(buf), to));
        assert(self.sent_datagrams() =~= old(self).sent_datagrams().push((buf@, to)));
        Ok(())
    }

    /// Take the oldest queued datagram; `None` if there is none. The timeout is accepted for
    /// the sake of real transports and ignored.
    pub fn recv(&mut self, timeout_ns: Option<u64>) -> (res: Result<
        Option<(Vec<u8>, Endpoint)>,
        RpcError,
    >)
        ensures
            final(self).sent_datagrams() == old(self).sent_datagrams(),
            match res {
                Ok(Some((bytes, from))) => {
                    &&& old(self).queued_datagrams().len() > 0
                    &&& (bytes@, from) == old(self).queued_datagrams()[0]
                    &&& final(self).queued_datagrams() == old(self).queued_datagrams().skip(1)
                },
                Ok(None) => {
                    &&& old(self).queued_datagrams().len() == 0
                    &&& final(self).queued_datagrams() == old(self).queued_datagrams()
                },
                Err(_) => false,
            },
    {
        match self.rx.pop_front() {
            Some((bytes, from)) => {
                assert(self.queued_datagrams() =~= old(self).queued_datagrams().skip(1));
                Ok(Some((bytes, from)))
            },
            None => {
                assert(self.queued_datagrams() =~= old(self).queued_datagrams());
                Ok(None)
            },
        }
    }
}

} // verus!
