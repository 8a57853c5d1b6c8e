//! The per-connection loop of an echo server: what to do with the outcome of
//! each read from the socket.

use vstd::prelude::*;

verus! {

/// The outcome of reading from the socket into the buffer.
#[derive(Debug, Clone, Copy, PartialEq, Eq)]
pub enum ReadOutcome {
    /// This many bytes were read into the front of the buffer; zero means the
    /// peer closed its side.
    Received(usize),
    /// The read failed.
    Failed,
}

/// What to send back for one read: the bytes just received, or `None` when
/// the connection must be dropped (the peer closed it, or the read failed).
pub fn echo_reply(buf: &Vec<u8>, read: ReadOutcome) -> (reply: Option<Vec<u8>>)
    requires
        read matches ReadOutcome::Received(n) ==> n <= buf@.len(),
    ensures
        match read {
            ReadOutcome::Received(n) => if n == 0 {
                reply == None::<Vec<u8>>
            } else {
                reply matches Some(b) && b@ == buf@.subrange(0, n as int)
            },
            ReadOutcome::Failed => reply == None::<Vec<u8>>,
        },
{
    match read {
        ReadOutcome::Failed => None,
        ReadOutcome::Received(n) => {
            if n == 0 {
                None
            } else {
                let mut out: Vec<u8> = Vec::new();
                let mut i: usize = 0;
                while i < n
                    invariant
                        n <= buf@.len(),
                        i <= n,
                        out@ == buf@.subrange(0, i as int),
                    decreases n - i,
                {
                    out.push(buf[i]);
                    proof {
                        assert(buf@.subrange(0, i + 1) =~= buf@.subrange(0, i as int).push(buf@[i as int]));
                    }
                    i = i + 1;
                }
                Some(out)
            }
        },
    }
}

} // verus!
