//! Per-datagram UDP echo policy.
//!
//! Each datagram is handled independently: if its length reaches the
//! threshold, the exact received bytes are echoed once to the sender;
//! otherwise nothing is sent back.

use vstd::prelude::*;

verus! {

/// What the service replies to one datagram: the first `len` bytes of the
/// receive buffer when the datagram is long enough, nothing otherwise.
pub open spec fn udp_reply_spec(datagram: Seq<u8>, threshold: nat) -> Option<Seq<u8>> {
    if datagram.len() >= threshold {
        Some(datagram)
    } else {
        None
    }
}

/// Decides once whether to echo a received datagram.
///
/// `buf` is the receive buffer and `len` the datagram's length; the datagram
/// itself is `buf[..len]`. Returns the exact bytes to send back to the
/// sender, or `None` when the datagram is shorter than the threshold.
pub fn udp_reply(buf: &Vec<u8>, len: usize, threshold: usize) -> (reply: Option<Vec<u8>>)
    requires
        len <= buf@.len(),
    ensures
        len >= threshold ==> (reply matches Some(r) && r@ == buf@.take(len as int)),
        len < threshold ==> reply is None,
        reply_view(reply) == udp_reply_spec(buf@.take(len as int), threshold as nat),
{
    if len >= threshold {
        let mut out: Vec<u8> = Vec::new();
        let mut i: usize = 0;
        while i < len
            invariant
                i <= len,
                len <= buf@.len(),
                out@ == buf@.take(i as int),
            decreases len - i,
        {
            out.push(buf[i]);
            i = i + 1;
        }
        Some(out)
    } else {
        None
    }
}

/// The byte sequence behind an optional reply, for stating contracts.
pub open spec fn reply_view(reply: Option<Vec<u8>>) -> Option<Seq<u8>> {
    match reply {
        Some(r) => Some(r@),
        None => None,
    }
}

/// The replies to a whole sequence of datagrams, each decided independently:
/// no state is retained between datagrams, even from the same peer.
pub open spec fn udp_replies_spec(datagrams: Seq<Seq<u8>>, threshold: nat) -> Seq<
    Option<Seq<u8>>,
> {
    datagrams.map(|i: int, d: Seq<u8>| udp_reply_spec(d, threshold))
}

/// Echoing is idempotent: sending the same non-empty payload any number of
/// times with threshold one yields exactly one echo per datagram, each
/// identical to its input.
pub proof fn lemma_udp_idempotent(datagrams: Seq<Seq<u8>>, payload: Seq<u8>)
    requires
        payload.len() >= 1,
        forall|i: int| 0 <= i < datagrams.len() ==> datagrams[i] == payload,
    ensures
        udp_replies_spec(datagrams, 1).len() == datagrams.len(),
        forall|i: int|
            0 <= i < datagrams.len() ==> #[trigger] udp_replies_spec(datagrams, 1)[i] == Some(
                payload,
            ),
{
}

/// With threshold zero every datagram, even an empty one, is echoed back.
pub proof fn lemma_udp_zero_threshold_echoes_all(datagram: Seq<u8>)
    ensures
        udp_reply_spec(datagram, 0) == Some(datagram),
{
}

} // verus!
