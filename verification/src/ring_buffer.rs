use std::collections::VecDeque;
use vstd::prelude::*;

verus! {

/// What a packet means: its presentation time and its bytes.
pub struct PacketModel {
    pub pts_ms: u64,
    pub data: Seq<u8>,
}

/// A single encoded media packet with a presentation timestamp.
/// Producers push packets with monotonically increasing `pts_ms`.
pub struct Packet {
    pub pts_ms: u64,
    pub data: Vec<u8>,
}

impl View for Packet {
    type V = PacketModel;

    open spec fn view(&self) -> PacketModel {
        PacketModel { pts_ms: self.pts_ms, data: self.data@ }
    }
}

impl Clone for Packet {
    fn clone(&self) -> (res: Self)
        ensures
            res@ == self@,
    {
        let mut data: Vec<u8> = Vec::with_capacity(self.data.len());
        let n = self.data.len();
        for i in 0..n
            invariant
                n == self.data@.len(),
                data@ == self.data@.subrange(0, i as int),
        {
            data.push(self.data[i]);
        }
        assert(data@ =~= self.data@);
        Packet { pts_ms: self.pts_ms, data }
    }
}

/// `a - b`, or 0 where `b` is larger.
pub open spec fn sat_sub(a: u64, b: u64) -> u64 {
    if a >= b {
        (a - b) as u64
    } else {
        0
    }
}

/// The models of a sequence of packets, in order.
pub open spec fn models(ps: Seq<Packet>) -> Seq<PacketModel> {
    ps.map_values(|p: Packet| p@)
}

/// Drops packets from the front while they lie more than `max` ms before `newest`.
pub open spec fn evict_front(ps: Seq<PacketModel>, newest: u64, max: u64) -> Seq<PacketModel>
    decreases ps.len(),
{
    if ps.len() == 0 {
        ps
    } else if sat_sub(newest, ps[0].pts_ms) > max {
        evict_front(ps.drop_first(), newest, max)
    } else {
        ps
    }
}

/// Drops keyframe timestamps from the front while they are before `oldest`.
pub open spec fn evict_keyframes(ks: Seq<u64>, oldest: u64) -> Seq<u64>
    decreases ks.len(),
{
    if ks.len() == 0 {
        ks
    } else if ks[0] < oldest {
        evict_keyframes(ks.drop_first(), oldest)
    } else {
        ks
    }
}

/// Sum of the byte lengths of the packets.
pub open spec fn total_len(ps: Seq<PacketModel>) -> nat
    decreases ps.len(),
{
    if ps.len() == 0 {
        0
    } else {
        total_len(ps.drop_last()) + ps.last().data.len()
    }
}

/// The packets whose timestamp is at least `start`, in order.
pub open spec fn at_or_after(ps: Seq<PacketModel>, start: u64) -> Seq<PacketModel>
    decreases ps.len(),
{
    if ps.len() == 0 {
        ps
    } else {
        let rest = at_or_after(ps.drop_last(), start);
        if ps.last().pts_ms >= start {
            rest.push(ps.last())
        } else {
            rest
        }
    }
}

/// Each timestamp is strictly smaller than the next.
pub open spec fn strictly_increasing(ks: Seq<u64>) -> bool {
    forall|i: int, j: int| 0 <= i < j < ks.len() ==> ks[i] < ks[j]
}

/// Each packet's timestamp is at most the next one's.
pub open spec fn nondecreasing_pts(ps: Seq<PacketModel>) -> bool {
    forall|i: int, j: int| 0 <= i <= j < ps.len() ==> ps[i].pts_ms <= ps[j].pts_ms
}

/// What a ring buffer holds.
pub struct RingBufferModel {
    pub max_duration_ms: u64,
    pub packets: Seq<PacketModel>,
    pub keyframes: Seq<u64>,
}

impl RingBufferModel {
    /// The state after dropping packets that lie outside the window that
    /// ends at the newest packet, and the keyframes before the oldest packet left.
    pub open spec fn evicted(self) -> RingBufferModel {
        if self.packets.len() == 0 {
            self
        } else {
            let kept = evict_front(self.packets, self.packets.last().pts_ms, self.max_duration_ms);
            RingBufferModel {
                max_duration_ms: self.max_duration_ms,
                packets: kept,
                keyframes: if kept.len() > 0 {
                    evict_keyframes(self.keyframes, kept[0].pts_ms)
                } else {
                    Seq::empty()
                },
            }
        }
    }

    /// The state after pushing a packet.
    pub open spec fn pushed(self, p: PacketModel) -> RingBufferModel {
        RingBufferModel { packets: self.packets.push(p), ..self }.evicted()
    }

    /// The state after recording a keyframe timestamp.
    pub open spec fn keyframe_pushed(self, pts: u64) -> RingBufferModel {
        if self.keyframes.len() == 0 || self.keyframes.last() < pts {
            RingBufferModel { keyframes: self.keyframes.push(pts), ..self }
        } else {
            self
        }
    }

    /// Time between the first and the last packet held.
    pub open spec fn duration(self) -> u64 {
        if self.packets.len() == 0 {
            0
        } else {
            sat_sub(self.packets.last().pts_ms, self.packets[0].pts_ms)
        }
    }

    /// The packets a clip is made of: those from the first keyframe on,
    /// where the newest packet is at or after that keyframe; otherwise all.
    pub open spec fn clip(self) -> Seq<PacketModel> {
        if self.keyframes.len() > 0 && self.packets.len() > 0
            && self.packets.last().pts_ms >= self.keyframes[0] {
            at_or_after(self.packets, self.keyframes[0])
        } else {
            self.packets
        }
    }

    /// The empty buffer with the same window.
    pub open spec fn cleared(self) -> RingBufferModel {
        RingBufferModel { max_duration_ms: self.max_duration_ms, packets: Seq::empty(), keyframes: Seq::empty() }
    }
}

/// Keeps the encoded packets of the last `max_duration_ms` milliseconds,
/// and the timestamps of keyframes among them.
pub struct RingBuffer {
    max_duration_ms: u64,
    packets: VecDeque<Packet>,
    keyframes: VecDeque<u64>,
}

impl View for RingBuffer {
    type V = RingBufferModel;

    closed spec fn view(&self) -> RingBufferModel {
        RingBufferModel {
            max_duration_ms: self.max_duration_ms,
            packets: models(self.packets@),
            keyframes: self.keyframes@,
        }
    }
}

impl RingBuffer {
    /// The buffer's invariant: keyframe timestamps are strictly increasing.
    pub closed spec fn wf(&self) -> bool {
        strictly_increasing(self.keyframes@)
    }

    pub fn new(max_duration_ms: u64) -> (rb: Self)
        ensures
            rb.wf(),
            rb@ == (RingBufferModel { max_duration_ms, packets: Seq::empty(), keyframes: Seq::empty() }),
    {
        let rb = RingBuffer { max_duration_ms, packets: VecDeque::new(), keyframes: VecDeque::new() };
        assert(models(rb.packets@) =~= Seq::empty());
        rb
    }
}


impl RingBuffer {
    /// Appends a packet, then drops what falls out of the window.
    pub fn push(&mut self, packet: Packet)
        requires
            old(self).wf(),
        ensures
            final(self).wf(),
            final(self)@ == old(self)@.pushed(packet@),
    {
        let ghost before = self@;
        self.packets.push_back(packet);
        assert(models(self.packets@) =~= before.packets.push(packet@));
        self.evict_old_packets();
    }

    /// Records the timestamp of a keyframe, unless it is not newer than the last one recorded.
    pub fn push_keyframe_pts(&mut self, pts_ms: u64)
        requires
            old(self).wf(),
        ensures
            final(self).wf(),
            final(self)@ == old(self)@.keyframe_pushed(pts_ms),
    {
        let n = self.keyframes.len();
        if n == 0 || self.keyframes[n - 1] < pts_ms {
            self.keyframes.push_back(pts_ms);
        }
    }

    fn evict_old_packets(&mut self)
        requires
            old(self).wf(),
        ensures
            final(self).wf(),
            final(self)@ == old(self)@.evicted(),
    {
        let n = self.packets.len();
        if n == 0 {
            return;
        }
        let ghost orig = self@;
        let newest_pts = self.packets[n - 1].pts_ms;
        assert(newest_pts == orig.packets.last().pts_ms);
        loop
            invariant
                strictly_increasing(self.keyframes@),
                self.keyframes@ == orig.keyframes,
                self.max_duration_ms == orig.max_duration_ms,
                evict_front(models(self.packets@), newest_pts, self.max_duration_ms)
                    == evict_front(orig.packets, newest_pts, orig.max_duration_ms),
            ensures
                strictly_increasing(self.keyframes@),
                self.keyframes@ == orig.keyframes,
                self.max_duration_ms == orig.max_duration_ms,
                models(self.packets@) == evict_front(orig.packets, newest_pts, orig.max_duration_ms),
            decreases self.packets@.len(),
        {
            if self.packets.len() == 0 {
                break;
            }
            let oldest_pts = self.packets[0].pts_ms;
            if newest_pts.saturating_sub(oldest_pts) > self.max_duration_ms {
                let ghost prev = self.packets@;
                let _ = self.packets.pop_front();
                assert(models(self.packets@) =~= models(prev).drop_first());
            } else {
                break;
            }
        }
        if self.packets.len() > 0 {
            let oldest_pts = self.packets[0].pts_ms;
            assert(models(self.packets@)[0] == self.packets@[0]@);
            let ghost kept = self.packets@;
            loop
                invariant
                    self.packets@ == kept,
                    self.max_duration_ms == orig.max_duration_ms,
                    strictly_increasing(self.keyframes@),
                    evict_keyframes(self.keyframes@, oldest_pts) == evict_keyframes(orig.keyframes, oldest_pts),
                ensures
                    self.packets@ == kept,
                    self.max_duration_ms == orig.max_duration_ms,
                    strictly_increasing(self.keyframes@),
                    self.keyframes@ == evict_keyframes(orig.keyframes, oldest_pts),
                decreases self.keyframes@.len(),
            {
                if self.keyframes.len() == 0 {
                    break;
                }
                if self.keyframes[0] < oldest_pts {
                    let ghost prev = self.keyframes@;
                    let _ = self.keyframes.pop_front();
                    assert(self.keyframes@ =~= prev.drop_first());
                } else {
                    break;
                }
            }
        } else {
            self.keyframes.clear();
        }
        assert(self@.packets == orig.evicted().packets);
        assert(self@.keyframes =~= orig.evicted().keyframes);
    }

    /// A copy of the packets held, oldest first.
    pub fn snapshot(&self) -> (res: Vec<Packet>)
        ensures
            models(res@) == self@.packets,
    {
        let mut res: Vec<Packet> = Vec::new();
        let n = self.packets.len();
        for i in 0..n
            invariant
                n == self.packets@.len(),
                models(res@) == models(self.packets@).subrange(0, i as int),
        {
            let p = self.packets[i].clone();
            let ghost prev = res@;
            res.push(p);
            assert(models(res@) =~= models(prev).push(p@));
        }
        assert(models(self.packets@).subrange(0, n as int) =~= models(self.packets@));
        res
    }

    /// Number of packets held.
    pub fn len(&self) -> (n: usize)
        ensures
            n == self@.packets.len(),
    {
        self.packets.len()
    }

    /// Total size in bytes of the packets held.
    pub fn total_bytes(&self) -> (total: u64)
        requires
            total_len(self@.packets) <= u64::MAX,
        ensures
            total == total_len(self@.packets),
    {
        let ghost ps = self@.packets;
        let n = self.packets.len();
        let mut total: u64 = 0;
        for i in 0..n
            invariant
                n == ps.len(),
                ps == models(self.packets@),
                total_len(ps) <= u64::MAX,
                total == total_len(ps.subrange(0, i as int)),
        {
            proof {
                lemma_total_len_prefix_monotone(ps, i + 1);
                assert(ps.subrange(0, i + 1).drop_last() =~= ps.subrange(0, i as int));
            }
            total = total + self.packets[i].data.len() as u64;
        }
        assert(ps.subrange(0, n as int) =~= ps);
        total
    }

    /// Whether no packet is held.
    pub fn is_empty(&self) -> (b: bool)
        ensures
            b == (self@.packets.len() == 0),
    {
        self.packets.len() == 0
    }

    /// Time between the oldest and the newest packet held, 0 when empty.
    pub fn duration_ms(&self) -> (d: u64)
        ensures
            d == self@.duration(),
    {
        let n = self.packets.len();
        if n == 0 {
            0
        } else {
            self.packets[n - 1].pts_ms.saturating_sub(self.packets[0].pts_ms)
        }
    }

    /// Empties the buffer and returns the packets of a clip: from the first
    /// keyframe held on, where the newest packet is at or after it; otherwise all of them.
    pub fn drain_from_keyframe(&mut self) -> (res: Vec<Packet>)
        requires
            old(self).wf(),
        ensures
            final(self).wf(),
            final(self)@ == old(self)@.cleared(),
            models(res@) == old(self)@.clip(),
    {
        let ghost orig = self@;
        let n = self.packets.len();
        let has_keyframe = self.keyframes.len() > 0;
        let start: u64 = if has_keyframe { self.keyframes[0] } else { 0 };
        let from_keyframe = has_keyframe && n > 0 && self.packets[n - 1].pts_ms >= start;
        let mut res: Vec<Packet> = Vec::new();
        let mut k: usize = 0;
        while self.packets.len() > 0
            invariant
                k + self.packets@.len() == n,
                n == orig.packets.len(),
                models(self.packets@) == orig.packets.subrange(k as int, n as int),
                self.max_duration_ms == orig.max_duration_ms,
                self.keyframes@ == orig.keyframes,
                from_keyframe ==> models(res@) == at_or_after(orig.packets.subrange(0, k as int), start),
                !from_keyframe ==> models(res@) == orig.packets.subrange(0, k as int),
            decreases self.packets@.len(),
        {
            let ghost prev_q = self.packets@;
            let ghost prev_res = res@;
            match self.packets.pop_front() {
                Some(p) => {
                    proof {
                        assert(models(prev_q)[0] == prev_q[0]@);
                        assert(models(prev_q)[0] == orig.packets[k as int]);
                        assert(models(self.packets@) =~= models(prev_q).drop_first());
                        assert(p@ == orig.packets[k as int]);
                        assert(models(self.packets@) =~= orig.packets.subrange(k + 1, n as int));
                        assert(orig.packets.subrange(0, k + 1).drop_last() =~= orig.packets.subrange(0, k as int));
                        assert(orig.packets.subrange(0, k + 1).last() == p@);
                    }
                    if !from_keyframe || p.pts_ms >= start {
                        res.push(p);
                        assert(models(res@) =~= models(prev_res).push(p@));
                    }
                    proof {
                        if !from_keyframe {
                            assert(models(res@) =~= orig.packets.subrange(0, k + 1));
                        }
                    }
                    k = k + 1;
                },
                None => {},
            }
        }
        self.keyframes.clear();
        assert(orig.packets.subrange(0, n as int) =~= orig.packets);
        assert(models(self.packets@) =~= Seq::<PacketModel>::empty());
        res
    }

    /// Drops every packet and keyframe.
    pub fn clear(&mut self)
        requires
            old(self).wf(),
        ensures
            final(self).wf(),
            final(self)@ == old(self)@.cleared(),
    {
        self.packets.clear();
        self.keyframes.clear();
        assert(models(self.packets@) =~= Seq::<PacketModel>::empty());
    }
}

/// The byte total of a prefix is at most that of the whole.
pub proof fn lemma_total_len_prefix_monotone(ps: Seq<PacketModel>, k: int)
    requires
        0 <= k <= ps.len(),
    ensures
        total_len(ps.subrange(0, k)) <= total_len(ps),
    decreases ps.len() - k,
{
    if k < ps.len() {
        lemma_total_len_prefix_monotone(ps, k + 1);
        assert(ps.subrange(0, k + 1).drop_last() =~= ps.subrange(0, k));
    } else {
        assert(ps.subrange(0, k) =~= ps);
    }
}


/// `evict_front` drops a prefix: exactly the leading packets outside the window.
pub proof fn lemma_evict_front_prefix(ps: Seq<PacketModel>, newest: u64, max: u64) -> (k: int)
    ensures
        0 <= k <= ps.len(),
        evict_front(ps, newest, max) == ps.subrange(k, ps.len() as int),
        forall|i: int| 0 <= i < k ==> sat_sub(newest, #[trigger] ps[i].pts_ms) > max,
        k < ps.len() ==> sat_sub(newest, ps[k].pts_ms) <= max,
    decreases ps.len(),
{
    if ps.len() == 0 {
        assert(ps.subrange(0, 0) =~= ps);
        0
    } else if sat_sub(newest, ps[0].pts_ms) > max {
        let k1 = lemma_evict_front_prefix(ps.drop_first(), newest, max);
        assert(ps.drop_first().subrange(k1, ps.len() - 1) =~= ps.subrange(k1 + 1, ps.len() as int));
        assert forall|i: int| 0 <= i < k1 + 1 implies sat_sub(newest, #[trigger] ps[i].pts_ms) > max by {
            if i > 0 {
                assert(ps[i] == ps.drop_first()[i - 1]);
            }
        }
        if k1 + 1 < ps.len() {
            assert(ps[k1 + 1] == ps.drop_first()[k1]);
        }
        k1 + 1
    } else {
        assert(ps.subrange(0, ps.len() as int) =~= ps);
        0
    }
}

/// `evict_keyframes` drops a prefix: exactly the leading timestamps before `oldest`.
pub proof fn lemma_evict_keyframes_prefix(ks: Seq<u64>, oldest: u64) -> (k: int)
    ensures
        0 <= k <= ks.len(),
        evict_keyframes(ks, oldest) == ks.subrange(k, ks.len() as int),
        forall|i: int| 0 <= i < k ==> #[trigger] ks[i] < oldest,
        k < ks.len() ==> ks[k] >= oldest,
    decreases ks.len(),
{
    if ks.len() == 0 {
        assert(ks.subrange(0, 0) =~= ks);
        0
    } else if ks[0] < oldest {
        let k1 = lemma_evict_keyframes_prefix(ks.drop_first(), oldest);
        assert(ks.drop_first().subrange(k1, ks.len() - 1) =~= ks.subrange(k1 + 1, ks.len() as int));
        assert forall|i: int| 0 <= i < k1 + 1 implies #[trigger] ks[i] < oldest by {
            if i > 0 {
                assert(ks[i] == ks.drop_first()[i - 1]);
            }
        }
        if k1 + 1 < ks.len() {
            assert(ks[k1 + 1] == ks.drop_first()[k1]);
        }
        k1 + 1
    } else {
        assert(ks.subrange(0, ks.len() as int) =~= ks);
        0
    }
}

/// Law: a push keeps arrival order and always keeps the new packet. What the
/// buffer holds afterwards is the previous contents followed by the new packet,
/// less a prefix made exactly of the packets that lie more than the window
/// before the new packet.
pub proof fn law_push_drops_exactly_a_stale_prefix(m: RingBufferModel, p: PacketModel)
    ensures
        ({
            let all = m.packets.push(p);
            let after = m.pushed(p);
            exists|k: int|
                0 <= k < all.len() && after.packets == all.subrange(k, all.len() as int)
                    && (forall|i: int| 0 <= i < k ==> sat_sub(p.pts_ms, #[trigger] all[i].pts_ms) > m.max_duration_ms)
                    && sat_sub(p.pts_ms, all[k].pts_ms) <= m.max_duration_ms
        }),
        m.pushed(p).packets.len() > 0,
        m.pushed(p).packets.last() == p,
        m.pushed(p).max_duration_ms == m.max_duration_ms,
{
    let all = m.packets.push(p);
    let k = lemma_evict_front_prefix(all, p.pts_ms, m.max_duration_ms);
    assert(all.last() == p);
    assert(sat_sub(p.pts_ms, all[all.len() - 1].pts_ms) == 0);
    assert(k < all.len());
    let after = m.pushed(p);
    assert(after.packets == all.subrange(k, all.len() as int));
    assert(after.packets.last() == all.last());
}

/// Law: when packets arrive in timestamp order, every packet the buffer holds
/// after a push lies within the window that ends at the new packet, every
/// earlier packet within that window is still held, the order stays sorted,
/// and the buffered duration never exceeds the window.
pub proof fn law_push_keeps_exactly_the_window(m: RingBufferModel, p: PacketModel)
    requires
        nondecreasing_pts(m.packets),
        m.packets.len() > 0 ==> m.packets.last().pts_ms <= p.pts_ms,
    ensures
        ({
            let all = m.packets.push(p);
            let after = m.pushed(p);
            &&& nondecreasing_pts(after.packets)
            &&& forall|i: int| 0 <= i < after.packets.len() ==> p.pts_ms - #[trigger] after.packets[i].pts_ms <= m.max_duration_ms
            &&& forall|i: int| 0 <= i < all.len() && p.pts_ms - #[trigger] all[i].pts_ms <= m.max_duration_ms
                ==> after.packets.contains(all[i])
            &&& after.duration() <= m.max_duration_ms
        }),
{
    let all = m.packets.push(p);
    let max = m.max_duration_ms;
    let k = lemma_evict_front_prefix(all, p.pts_ms, max);
    assert(all.last() == p);
    assert(sat_sub(p.pts_ms, p.pts_ms) == 0);
    let after = m.pushed(p);
    assert(after.packets =~= all.subrange(k, all.len() as int));
    assert(nondecreasing_pts(all)) by {
        assert forall|i: int, j: int| 0 <= i <= j < all.len() implies all[i].pts_ms <= all[j].pts_ms by {
            if j < all.len() - 1 {
                assert(all[i] == m.packets[i] && all[j] == m.packets[j]);
            } else if i < all.len() - 1 {
                assert(all[i] == m.packets[i]);
                assert(m.packets[i].pts_ms <= m.packets.last().pts_ms);
            }
        }
    }
    assert forall|i: int| 0 <= i < after.packets.len() implies p.pts_ms - #[trigger] after.packets[i].pts_ms <= max by {
        assert(after.packets[i] == all[k + i]);
        assert(all[k].pts_ms <= all[k + i].pts_ms);
        assert(all[k + i].pts_ms <= all[all.len() - 1].pts_ms);
    }
    assert forall|i: int| 0 <= i < all.len() && p.pts_ms - #[trigger] all[i].pts_ms <= max implies after.packets.contains(all[i]) by {
        assert(all[i].pts_ms <= p.pts_ms) by {
            assert(all[i].pts_ms <= all[all.len() - 1].pts_ms);
        }
        if i < k {
            assert(sat_sub(p.pts_ms, all[i].pts_ms) > max);
        }
        assert(after.packets[i - k] == all[i]);
    }
    assert(after.packets.len() > 0);
    assert(after.packets[0] == all[k]);
    assert(after.packets.last() == all.last());
}

/// Law: after a push, no keyframe timestamp the buffer keeps is older than its
/// oldest packet, and the keyframes stay strictly increasing.
pub proof fn law_push_keyframes_follow_oldest_packet(rb: RingBuffer, p: Packet)
    requires
        rb.wf(),
    ensures
        ({
            let after = rb@.pushed(p@);
            &&& strictly_increasing(after.keyframes)
            &&& forall|j: int| 0 <= j < after.keyframes.len() ==> after.packets[0].pts_ms <= #[trigger] after.keyframes[j]
        }),
{
    let all = rb@.packets.push(p@);
    let kp = lemma_evict_front_prefix(all, p.pts_ms, rb@.max_duration_ms);
    assert(all.last() == p@);
    assert(sat_sub(p.pts_ms, p.pts_ms) == 0);
    assert(sat_sub(p.pts_ms, all[all.len() - 1].pts_ms) == 0);
    let kept = evict_front(all, p.pts_ms, rb@.max_duration_ms);
    assert(kept.len() > 0);
    let ks = rb@.keyframes;
    let kk = lemma_evict_keyframes_prefix(ks, kept[0].pts_ms);
    let after = rb@.pushed(p@);
    assert(after.keyframes == ks.subrange(kk, ks.len() as int));
    assert forall|j: int| 0 <= j < after.keyframes.len() implies after.packets[0].pts_ms <= #[trigger] after.keyframes[j] by {
        assert(after.keyframes[j] == ks[kk + j]);
        if j > 0 {
            assert(ks[kk] < ks[kk + j]);
        }
    }
}

/// `at_or_after` keeps, in order, exactly the packets at or after `start`.
pub proof fn lemma_at_or_after_members(ps: Seq<PacketModel>, start: u64)
    ensures
        at_or_after(ps, start).len() <= ps.len(),
        forall|i: int| 0 <= i < at_or_after(ps, start).len() ==> #[trigger] at_or_after(ps, start)[i].pts_ms >= start,
        forall|i: int| 0 <= i < at_or_after(ps, start).len() ==> ps.contains(#[trigger] at_or_after(ps, start)[i]),
        forall|i: int| 0 <= i < ps.len() && #[trigger] ps[i].pts_ms >= start ==> at_or_after(ps, start).contains(ps[i]),
    decreases ps.len(),
{
    if ps.len() > 0 {
        let init = ps.drop_last();
        lemma_at_or_after_members(init, start);
        let r = at_or_after(ps, start);
        let r0 = at_or_after(init, start);
        assert forall|i: int| 0 <= i < r.len() implies ps.contains(#[trigger] r[i]) by {
            if i < r0.len() {
                assert(r[i] == r0[i]);
                let j = choose|j: int| 0 <= j < init.len() && init[j] == r0[i];
                assert(ps[j] == init[j]);
            } else {
                assert(r[i] == ps.last());
                assert(ps[ps.len() - 1] == ps.last());
            }
        }
        assert forall|i: int| 0 <= i < ps.len() && #[trigger] ps[i].pts_ms >= start implies r.contains(ps[i]) by {
            if i < ps.len() - 1 {
                assert(ps[i] == init[i]);
                let j = choose|j: int| 0 <= j < r0.len() && r0[j] == init[i];
                assert(r[j] == r0[j]);
            } else {
                assert(r[r.len() - 1] == ps.last());
            }
        }
    }
}

/// Law: a clip is taken from what the buffer holds; it is empty exactly when
/// the buffer is; and when the buffer holds a keyframe that is not after its
/// newest packet, the clip holds exactly the held packets at or after that keyframe.
pub proof fn law_clip_contents(rb: RingBuffer)
    ensures
        rb@.clip().len() <= rb@.packets.len(),
        rb@.clip().len() > 0 <==> rb@.packets.len() > 0,
        forall|i: int| 0 <= i < rb@.clip().len() ==> rb@.packets.contains(#[trigger] rb@.clip()[i]),
        rb@.keyframes.len() > 0 && rb@.packets.len() > 0 && rb@.packets.last().pts_ms >= rb@.keyframes[0] ==> {
            &&& forall|i: int| 0 <= i < rb@.clip().len() ==> #[trigger] rb@.clip()[i].pts_ms >= rb@.keyframes[0]
            &&& forall|i: int| 0 <= i < rb@.packets.len() && #[trigger] rb@.packets[i].pts_ms >= rb@.keyframes[0]
                ==> rb@.clip().contains(rb@.packets[i])
        },
{
    let m = rb@;
    if m.keyframes.len() > 0 && m.packets.len() > 0 && m.packets.last().pts_ms >= m.keyframes[0] {
        lemma_at_or_after_members(m.packets, m.keyframes[0]);
        let r = at_or_after(m.packets, m.keyframes[0]);
        assert(r == at_or_after(m.packets.drop_last(), m.keyframes[0]).push(m.packets.last()));
    } else {
        assert forall|i: int| 0 <= i < m.clip().len() implies m.packets.contains(#[trigger] m.clip()[i]) by {
            assert(m.clip()[i] == m.packets[i]);
        }
    }
}

/// Law: a buffer that was cleared and then given one packet holds exactly that packet.
pub proof fn law_clear_then_push_holds_only_that_packet(rb: RingBuffer, p: Packet)
    ensures
        rb@.cleared().pushed(p@).packets == seq![p@],
        rb@.cleared().pushed(p@).keyframes == Seq::<u64>::empty(),
{
    let c = rb@.cleared();
    let all = c.packets.push(p@);
    assert(all =~= seq![p@]);
    assert(sat_sub(p.pts_ms, p.pts_ms) == 0);
    assert(evict_front(all, p.pts_ms, c.max_duration_ms) == all);
    assert(evict_keyframes(Seq::<u64>::empty(), p.pts_ms) == Seq::<u64>::empty());
}

/// A call that changes a ring buffer (a snapshot changes nothing, a drain
/// empties it as a clear does).
pub enum BufferCall {
    Push(PacketModel),
    Keyframe(u64),
    Drain,
    Clear,
}

/// The buffer after one call.
pub open spec fn after_call(m: RingBufferModel, c: BufferCall) -> RingBufferModel {
    match c {
        BufferCall::Push(p) => m.pushed(p),
        BufferCall::Keyframe(k) => m.keyframe_pushed(k),
        BufferCall::Drain => m.cleared(),
        BufferCall::Clear => m.cleared(),
    }
}

/// The buffer after the calls, in order.
pub open spec fn after_calls(m: RingBufferModel, cs: Seq<BufferCall>) -> RingBufferModel
    decreases cs.len(),
{
    if cs.len() == 0 {
        m
    } else {
        after_call(after_calls(m, cs.drop_last()), cs.last())
    }
}

/// Whether a call keeps arrival in timestamp order: a pushed packet is no
/// older than the newest one held.
pub open spec fn call_in_order(m: RingBufferModel, c: BufferCall) -> bool {
    match c {
        BufferCall::Push(p) => m.packets.len() == 0 || m.packets.last().pts_ms <= p.pts_ms,
        _ => true,
    }
}

/// Whether every call of the sequence keeps arrival in timestamp order.
pub open spec fn calls_in_order(m: RingBufferModel, cs: Seq<BufferCall>) -> bool
    decreases cs.len(),
{
    cs.len() == 0 || (calls_in_order(m, cs.drop_last()) && call_in_order(after_calls(m, cs.drop_last()), cs.last()))
}

/// The packets are sorted and span no more than the window.
pub open spec fn sorted_in_window(m: RingBufferModel) -> bool {
    nondecreasing_pts(m.packets) && m.duration() <= m.max_duration_ms
}

/// The empty buffer with this window, as `RingBuffer::new` makes it.
pub open spec fn empty_buffer(max_duration_ms: u64) -> RingBufferModel {
    RingBufferModel { max_duration_ms, packets: Seq::empty(), keyframes: Seq::empty() }
}

proof fn lemma_call_keeps_sorted_in_window(m: RingBufferModel, c: BufferCall)
    requires
        sorted_in_window(m),
        call_in_order(m, c),
    ensures
        sorted_in_window(after_call(m, c)),
        after_call(m, c).max_duration_ms == m.max_duration_ms,
{
    match c {
        BufferCall::Push(p) => {
            law_push_keeps_exactly_the_window(m, p);
            law_push_drops_exactly_a_stale_prefix(m, p);
        },
        _ => {},
    }
}

proof fn lemma_calls_keep_sorted_in_window(m: RingBufferModel, cs: Seq<BufferCall>)
    requires
        sorted_in_window(m),
        calls_in_order(m, cs),
    ensures
        sorted_in_window(after_calls(m, cs)),
        after_calls(m, cs).max_duration_ms == m.max_duration_ms,
    decreases cs.len(),
{
    if cs.len() > 0 {
        lemma_calls_keep_sorted_in_window(m, cs.drop_last());
        lemma_call_keeps_sorted_in_window(after_calls(m, cs.drop_last()), cs.last());
    }
}

proof fn lemma_prefix_in_order(m: RingBufferModel, cs: Seq<BufferCall>, k: int)
    requires
        calls_in_order(m, cs),
        0 <= k <= cs.len(),
    ensures
        calls_in_order(m, cs.take(k)),
    decreases cs.len() - k,
{
    if k == cs.len() {
        assert(cs.take(k) =~= cs);
    } else {
        assert(cs.drop_last().take(k) =~= cs.take(k));
        lemma_prefix_in_order(m, cs.drop_last(), k);
    }
}

/// Law: starting from an empty buffer, after every call of any sequence of
/// pushes, keyframes, drains and clears whose packets arrive in timestamp
/// order, the buffer's packets are sorted and span at most its window (the
/// last `max_duration_ms` milliseconds, the window it was made with, which no
/// call changes); and right after a push, the pushed
/// packet is the newest one held.
pub proof fn law_calls_keep_buffer_sorted_in_window(max_duration_ms: u64, cs: Seq<BufferCall>)
    requires
        calls_in_order(empty_buffer(max_duration_ms), cs),
    ensures
        forall|k: int| 0 <= k <= cs.len()
            ==> sorted_in_window(#[trigger] after_calls(empty_buffer(max_duration_ms), cs.take(k)))
                && after_calls(empty_buffer(max_duration_ms), cs.take(k)).max_duration_ms == max_duration_ms,
        forall|k: int| 0 <= k < cs.len() && (#[trigger] cs[k]) is Push ==> {
            let after = after_calls(empty_buffer(max_duration_ms), cs.take(k + 1));
            &&& after.packets.len() > 0
            &&& after.packets.last() == cs[k]->Push_0
        },
{
    let m0 = empty_buffer(max_duration_ms);
    assert(sorted_in_window(m0));
    assert forall|k: int| 0 <= k <= cs.len() implies sorted_in_window(#[trigger] after_calls(m0, cs.take(k)))
        && after_calls(m0, cs.take(k)).max_duration_ms == max_duration_ms by {
        lemma_prefix_in_order(m0, cs, k);
        lemma_calls_keep_sorted_in_window(m0, cs.take(k));
    }
    assert forall|k: int| 0 <= k < cs.len() && (#[trigger] cs[k]) is Push implies ({
        let after = after_calls(m0, cs.take(k + 1));
        &&& after.packets.len() > 0
        &&& after.packets.last() == cs[k]->Push_0
    }) by {
        assert(cs.take(k + 1).drop_last() =~= cs.take(k));
        assert(cs.take(k + 1).last() == cs[k]);
        law_push_drops_exactly_a_stale_prefix(after_calls(m0, cs.take(k)), cs[k]->Push_0);
    }
}

/// Whether `a` is made of elements of `b`, in the same order.
pub open spec fn is_subsequence<T>(a: Seq<T>, b: Seq<T>) -> bool {
    exists|idx: Seq<int>| #[trigger] idx.len() == a.len()
        && (forall|i: int, j: int| 0 <= i < j < idx.len() ==> idx[i] < idx[j])
        && (forall|i: int| 0 <= i < idx.len() ==> 0 <= #[trigger] idx[i] < b.len() && a[i] == b[idx[i]])
}

proof fn lemma_at_or_after_subsequence(ps: Seq<PacketModel>, start: u64) -> (idx: Seq<int>)
    ensures
        idx.len() == at_or_after(ps, start).len(),
        forall|i: int, j: int| 0 <= i < j < idx.len() ==> idx[i] < idx[j],
        forall|i: int| 0 <= i < idx.len() ==> 0 <= #[trigger] idx[i] < ps.len()
            && at_or_after(ps, start)[i] == ps[idx[i]],
    decreases ps.len(),
{
    if ps.len() == 0 {
        Seq::empty()
    } else {
        let init = ps.drop_last();
        let idx0 = lemma_at_or_after_subsequence(init, start);
        if ps.last().pts_ms >= start {
            let idx = idx0.push(ps.len() - 1);
            assert forall|i: int| 0 <= i < idx.len() implies 0 <= #[trigger] idx[i] < ps.len()
                && at_or_after(ps, start)[i] == ps[idx[i]] by {
                if i < idx0.len() {
                    assert(idx[i] == idx0[i]);
                    assert(init[idx0[i]] == ps[idx0[i]]);
                }
            }
            assert forall|i: int, j: int| 0 <= i < j < idx.len() implies idx[i] < idx[j] by {
                if j < idx0.len() {
                    assert(idx[i] == idx0[i] && idx[j] == idx0[j]);
                } else {
                    assert(idx[i] == idx0[i]);
                    assert(idx0[i] < init.len());
                }
            }
            idx
        } else {
            assert forall|i: int| 0 <= i < idx0.len() implies 0 <= #[trigger] idx0[i] < ps.len()
                && at_or_after(ps, start)[i] == ps[idx0[i]] by {
                assert(init[idx0[i]] == ps[idx0[i]]);
            }
            idx0
        }
    }
}

/// Law: a clip keeps the buffer's order: it is made of held packets, in the
/// order they are held; it is empty exactly when the buffer is (a keyframe
/// never makes a non-empty buffer give an empty clip); and since taking a
/// clip empties the buffer, a second clip taken right after is empty.
pub proof fn law_clip_keeps_order(m: RingBufferModel)
    ensures
        is_subsequence(m.clip(), m.packets),
        m.clip().len() == 0 <==> m.packets.len() == 0,
        m.cleared().clip().len() == 0,
{
    if m.keyframes.len() > 0 && m.packets.len() > 0 && m.packets.last().pts_ms >= m.keyframes[0] {
        let idx = lemma_at_or_after_subsequence(m.packets, m.keyframes[0]);
        lemma_at_or_after_members(m.packets, m.keyframes[0]);
        assert(m.packets.contains(m.packets.last()));
        assert(m.clip().contains(m.packets[m.packets.len() - 1]));
        assert(idx.len() == m.clip().len());
        assert(is_subsequence(m.clip(), m.packets));
    } else {
        let idx = Seq::new(m.packets.len(), |i: int| i);
        assert(idx.len() == m.clip().len());
        assert forall|i: int| 0 <= i < idx.len() implies 0 <= #[trigger] idx[i] < m.packets.len()
            && m.clip()[i] == m.packets[idx[i]] by {
        }
        assert(is_subsequence(m.clip(), m.packets));
    }
}

/// Splitting a sequence at `k`, where nothing before `k` passes the test and
/// everything from `k` on does: filtering keeps exactly the part from `k` on.
proof fn lemma_filter_suffix<A>(s: Seq<A>, pred: spec_fn(A) -> bool, k: int)
    requires
        0 <= k <= s.len(),
        forall|i: int| 0 <= i < k ==> !pred(#[trigger] s[i]),
        forall|i: int| k <= i < s.len() ==> pred(#[trigger] s[i]),
    ensures
        s.filter(pred) == s.subrange(k, s.len() as int),
    decreases s.len(),
{
    reveal(Seq::filter);
    if s.len() == 0 {
        assert(s.subrange(k, 0) =~= s);
    } else {
        let init = s.drop_last();
        if k == s.len() {
            lemma_filter_suffix(init, pred, k - 1);
            assert(!pred(s[s.len() - 1]));
            assert(init.subrange(k - 1, init.len() as int) =~= Seq::<A>::empty());
            assert(s.subrange(k, s.len() as int) =~= Seq::<A>::empty());
        } else {
            assert forall|i: int| 0 <= i < k implies !pred(#[trigger] init[i]) by {
                assert(init[i] == s[i]);
            }
            assert forall|i: int| k <= i < init.len() implies pred(#[trigger] init[i]) by {
                assert(init[i] == s[i]);
            }
            lemma_filter_suffix(init, pred, k);
            assert(pred(s[s.len() - 1]));
            assert(init.subrange(k, init.len() as int).push(s.last()) =~= s.subrange(k, s.len() as int));
        }
    }
}

/// `at_or_after` is the filter on the timestamp.
proof fn lemma_at_or_after_is_filter(ps: Seq<PacketModel>, start: u64)
    ensures
        at_or_after(ps, start) == ps.filter(|p: PacketModel| p.pts_ms >= start),
    decreases ps.len(),
{
    reveal(Seq::filter);
    if ps.len() > 0 {
        lemma_at_or_after_is_filter(ps.drop_last(), start);
    }
}

/// Law: a clip starts on the first keyframe held. Where the buffer holds a
/// keyframe and its newest packet is at or after it, the clip is exactly the
/// held packets with a timestamp at or after that keyframe, in the order held;
/// otherwise (no keyframe, or the keyframe is newer than every packet) the
/// clip is every held packet, in order, none left out.
pub proof fn law_clip_is_from_first_keyframe(m: RingBufferModel)
    ensures
        m.keyframes.len() > 0 && m.packets.len() > 0 && m.packets.last().pts_ms >= m.keyframes[0]
            ==> m.clip() == m.packets.filter(|p: PacketModel| p.pts_ms >= m.keyframes[0]),
        !(m.keyframes.len() > 0 && m.packets.len() > 0 && m.packets.last().pts_ms >= m.keyframes[0])
            ==> m.clip() == m.packets,
{
    if m.keyframes.len() > 0 {
        lemma_at_or_after_is_filter(m.packets, m.keyframes[0]);
    }
}

/// Law: recording a keyframe time newer than every recorded one always keeps
/// it, as the newest, after the earlier ones; a time not newer than the newest
/// recorded one changes nothing. The packets are never touched.
pub proof fn law_keyframe_newer_than_all_is_recorded(m: RingBufferModel, t: u64)
    requires
        strictly_increasing(m.keyframes),
    ensures
        m.keyframe_pushed(t).packets == m.packets,
        m.keyframe_pushed(t).max_duration_ms == m.max_duration_ms,
        (forall|i: int| 0 <= i < m.keyframes.len() ==> #[trigger] m.keyframes[i] < t)
            ==> m.keyframe_pushed(t).keyframes == m.keyframes.push(t),
        (exists|i: int| 0 <= i < m.keyframes.len() && #[trigger] m.keyframes[i] >= t)
            ==> m.keyframe_pushed(t) == m,
        strictly_increasing(m.keyframe_pushed(t).keyframes),
{
    if m.keyframes.len() > 0 {
        let last = m.keyframes.len() - 1;
        if exists|i: int| 0 <= i < m.keyframes.len() && #[trigger] m.keyframes[i] >= t {
            let i = choose|i: int| 0 <= i < m.keyframes.len() && #[trigger] m.keyframes[i] >= t;
            if i < last {
                assert(m.keyframes[i] < m.keyframes[last]);
            }
        } else {
            assert(m.keyframes[last] < t);
        }
    }
    let after = m.keyframe_pushed(t);
    if m.keyframes.len() == 0 || m.keyframes.last() < t {
        assert forall|i: int, j: int| 0 <= i < j < after.keyframes.len() implies after.keyframes[i] < after.keyframes[j] by {
            if j == m.keyframes.len() {
                if i < m.keyframes.len() - 1 {
                    assert(m.keyframes[i] < m.keyframes[m.keyframes.len() - 1]);
                }
            }
        }
    }
}

/// Law: a push keeps exactly the recorded keyframes that are at or after the
/// oldest packet still held (in order), and drops those before it: a keyframe
/// equal to the oldest packet's time stays.
pub proof fn law_push_keeps_keyframes_at_or_after_oldest(m: RingBufferModel, p: PacketModel)
    requires
        strictly_increasing(m.keyframes),
    ensures
        m.pushed(p).packets.len() > 0,
        m.pushed(p).keyframes == m.keyframes.filter(|k: u64| k >= m.pushed(p).packets[0].pts_ms),
        forall|t: u64| m.pushed(p).keyframes.contains(t)
            <==> (m.keyframes.contains(t) && t >= m.pushed(p).packets[0].pts_ms),
{
    law_push_drops_exactly_a_stale_prefix(m, p);
    let after = m.pushed(p);
    let all = m.packets.push(p);
    let kept = evict_front(all, p.pts_ms, m.max_duration_ms);
    let o = kept[0].pts_ms;
    let ks = m.keyframes;
    let kk = lemma_evict_keyframes_prefix(ks, o);
    let pred = |k: u64| k >= o;
    assert forall|i: int| kk <= i < ks.len() implies pred(#[trigger] ks[i]) by {
        if i > kk {
            assert(ks[kk] < ks[i]);
        }
    }
    assert forall|i: int| 0 <= i < kk implies !pred(#[trigger] ks[i]) by {
    }
    lemma_filter_suffix(ks, pred, kk);
    assert(after.packets[0].pts_ms == o);
    assert(after.keyframes == ks.subrange(kk, ks.len() as int));
    assert(ks.filter(|k: u64| k >= after.packets[0].pts_ms) == ks.filter(pred)) by {
        assert((|k: u64| k >= after.packets[0].pts_ms) =~= pred);
    }
    assert forall|t: u64| after.keyframes.contains(t) <==> (ks.contains(t) && t >= o) by {
        if after.keyframes.contains(t) {
            let j = choose|j: int| 0 <= j < after.keyframes.len() && after.keyframes[j] == t;
            assert(ks[kk + j] == t);
            assert(pred(ks[kk + j]));
        }
        if ks.contains(t) && t >= o {
            let i = choose|i: int| 0 <= i < ks.len() && ks[i] == t;
            if i < kk {
                assert(!pred(ks[i]));
            }
            assert(after.keyframes[i - kk] == t);
        }
    }
}

} // verus!
