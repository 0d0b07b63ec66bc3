use vstd::prelude::*;
use crate::ring_buffer::{Packet, PacketModel, models, sat_sub, total_len, lemma_total_len_prefix_monotone};

verus! {

/// What a remux wrote: the clip's duration and the number of bytes pushed.
#[derive(Clone, Copy, Debug)]
pub struct RemuxResult {
    pub duration_ms: u64,
    pub bytes_written: u64,
}

/// The time between the first and the last packet.
pub open spec fn span(ps: Seq<PacketModel>) -> u64 {
    if ps.len() == 0 { 0 } else { sat_sub(ps.last().pts_ms, ps[0].pts_ms) }
}

/// Checks that there is something to remux.
pub fn check_packets(packets: &Vec<Packet>) -> (r: Result<(), String>)
    ensures
        r is Err <==> packets@.len() == 0,
        r matches Err(m) ==> m@ == "no packets to remux"@,
{
    if packets.len() == 0 {
        Err(String::from_str("no packets to remux"))
    } else {
        Ok(())
    }
}

/// The result reported for a remux of these packets: their span, and the sum
/// of their sizes; an error where there are none.
pub fn remux_summary(packets: &Vec<Packet>) -> (r: Result<RemuxResult, String>)
    requires
        total_len(models(packets@)) <= u64::MAX,
    ensures
        r is Err <==> packets@.len() == 0,
        r matches Err(m) ==> m@ == "no packets to remux"@,
        r matches Ok(res) ==> res.duration_ms == span(models(packets@))
            && res.bytes_written == total_len(models(packets@)),
{
    let n = packets.len();
    if n == 0 {
        return Err(String::from_str("no packets to remux"));
    }
    let ghost ps = models(packets@);
    let mut bytes: u64 = 0;
    for i in 0..n
        invariant
            n == packets@.len(),
            ps == models(packets@),
            total_len(ps) <= u64::MAX,
            bytes == total_len(ps.subrange(0, i as int)),
    {
        proof {
            lemma_total_len_prefix_monotone(ps, i + 1);
            assert(ps.subrange(0, i + 1).drop_last() =~= ps.subrange(0, i as int));
        }
        bytes = bytes + packets[i].data.len() as u64;
    }
    assert(ps.subrange(0, n as int) =~= ps);
    let duration_ms = packets[n - 1].pts_ms.saturating_sub(packets[0].pts_ms);
    Ok(RemuxResult { duration_ms, bytes_written: bytes })
}

/// What waiting for the end of a remux saw on the pipeline bus.
pub enum RemuxBusEvent {
    /// End of stream: the file is complete.
    Eos,
    /// An error, with its text.
    Error(String),
    /// Any other message.
    Other,
    /// Nothing arrived within the wait (five seconds).
    TimedOut,
}

/// What the remux does next.
pub enum RemuxWait {
    /// Keep waiting.
    Wait,
    /// The file is written.
    Done,
    /// The remux fails with this error; the pipeline is shut down.
    Fail(String),
}

/// The remux's reaction to what the bus gave: end of stream completes it,
/// an error or a timeout fails it, anything else is waited past.
pub fn remux_wait_step(event: RemuxBusEvent) -> (r: RemuxWait)
    ensures
        match event {
            RemuxBusEvent::Eos => r is Done,
            RemuxBusEvent::Error(e) => r matches RemuxWait::Fail(m) && m@ == e@,
            RemuxBusEvent::Other => r is Wait,
            RemuxBusEvent::TimedOut => r matches RemuxWait::Fail(m) && m@ == "remux timed out waiting for EOS"@,
        },
{
    match event {
        RemuxBusEvent::Eos => RemuxWait::Done,
        RemuxBusEvent::Error(e) => RemuxWait::Fail(e),
        RemuxBusEvent::Other => RemuxWait::Wait,
        RemuxBusEvent::TimedOut => RemuxWait::Fail(String::from_str("remux timed out waiting for EOS")),
    }
}

} // verus!
