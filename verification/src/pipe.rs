//! What the output side computes: batch statistics for a dry run (the number
//! of register writes between two `INT_END`s, per buffer), their summary, and
//! the driver's answer to a queue-length request.

use vstd::prelude::*;
use std::collections::VecDeque;
use crate::packet::PacketSend;
use vstd::relations::{sorted_by, total_ordering};

verus! {

broadcast use vstd::seq_lib::group_to_multiset_ensures;

/// How many register writes the statistics keep for the final dump.
pub const RECENT_WRITES: usize = 80;

/// Batch sizes per buffer, measured from the packets that would go to the
/// board.
pub struct BatchStats {
    // Register writes in the current batch.
    cur: u32,
    // Whether the current batch goes to buffer A (IntSelect of its first write).
    cur_is_a: bool,
    started: bool,
    /// Batch sizes of buffer A (SSG drums / Timer A).
    pub a: Vec<u32>,
    /// Batch sizes of buffer B (music / Timer B).
    pub b: Vec<u32>,
    // The latest register writes (bank, register, data).
    recent: VecDeque<(u8, u8, u8)>,
}

/// The mathematical state of a [`BatchStats`].
pub struct BatchStatsModel {
    pub cur: int,
    pub cur_is_a: bool,
    pub started: bool,
    pub a: Seq<u32>,
    pub b: Seq<u32>,
    pub recent: Seq<(u8, u8, u8)>,
}

/// The sum of a sequence of sizes.
pub open spec fn seq_sum(s: Seq<u32>) -> int
    decreases s.len(),
{
    if s.len() == 0 {
        0
    } else {
        seq_sum(s.drop_last()) + s.last()
    }
}

/// A packet that ends a batch.
pub open spec fn is_batch_end(p: PacketSend) -> bool {
    p.ty & PacketSend::INT_END != 0
}

/// A control packet other than a batch end (forced drain, flush, size request).
pub open spec fn is_control(p: PacketSend) -> bool {
    p.ty & (PacketSend::FORCE_TIMEOUT | PacketSend::FLUSH | PacketSend::SIZE_REQUEST) != 0
}

/// A packet that carries a register write.
pub open spec fn is_write(p: PacketSend) -> bool {
    !is_batch_end(p) && !is_control(p)
}

impl BatchStatsModel {
    /// No batch yet.
    pub open spec fn empty() -> Self {
        BatchStatsModel {
            cur: 0,
            cur_is_a: false,
            started: false,
            a: Seq::empty(),
            b: Seq::empty(),
            recent: Seq::empty(),
        }
    }

    /// Every register write counted so far: those of the finished batches of
    /// both buffers and of the current batch.
    pub open spec fn total_writes(self) -> int {
        seq_sum(self.a) + seq_sum(self.b) + self.cur
    }

    /// The state after the packet `p` was sent: a batch end files the current
    /// count under its buffer and starts a new batch; other control packets
    /// are ignored; a register write is counted and kept among the latest
    /// `RECENT_WRITES` writes.
    pub open spec fn record(self, p: PacketSend) -> Self {
        if is_batch_end(p) {
            BatchStatsModel {
                a: if p.ty & PacketSend::INT_SELECT_A != 0 {
                    self.a.push(self.cur as u32)
                } else {
                    self.a
                },
                b: if p.ty & PacketSend::INT_SELECT_A != 0 {
                    self.b
                } else {
                    self.b.push(self.cur as u32)
                },
                cur: 0,
                started: false,
                ..self
            }
        } else if is_control(p) {
            self
        } else {
            let pushed = self.recent.push((p.ty & PacketSend::BANK_SELECT, p.reg_address, p.data));
            BatchStatsModel {
                cur_is_a: if self.started {
                    self.cur_is_a
                } else {
                    p.ty & PacketSend::INT_SELECT_A != 0
                },
                started: true,
                cur: self.cur + 1,
                recent: if pushed.len() > RECENT_WRITES {
                    pushed.drop_first()
                } else {
                    pushed
                },
                ..self
            }
        }
    }

    /// Recording `p` keeps the counts within `u32`.
    pub open spec fn record_fits(self, p: PacketSend) -> bool {
        is_write(p) ==> self.cur < u32::MAX
    }
}

impl View for BatchStats {
    type V = BatchStatsModel;

    closed spec fn view(&self) -> BatchStatsModel {
        BatchStatsModel {
            cur: self.cur as int,
            cur_is_a: self.cur_is_a,
            started: self.started,
            a: self.a@,
            b: self.b@,
            recent: self.recent@,
        }
    }
}

impl Default for BatchStats {
    fn default() -> (s: Self)
        ensures
            s@ == BatchStatsModel::empty(),
    {
        BatchStats {
            cur: 0,
            cur_is_a: false,
            started: false,
            a: Vec::new(),
            b: Vec::new(),
            recent: VecDeque::new(),
        }
    }
}

impl BatchStats {
    /// Whether `record(p)` keeps the counts within `u32`.
    pub fn record_fits(&self, p: &PacketSend) -> (r: bool)
        ensures
            r == self@.record_fits(*p),
            0 <= self@.cur <= u32::MAX,
    {
        let ty = p.ty;
        ty & PacketSend::INT_END != 0 || ty & (PacketSend::FORCE_TIMEOUT | PacketSend::FLUSH
            | PacketSend::SIZE_REQUEST) != 0 || self.cur < u32::MAX
    }

    /// Accounts for one packet sent to the board.
    pub fn record(&mut self, packet: &PacketSend)
        requires
            old(self)@.record_fits(*packet),
        ensures
            final(self)@ == old(self)@.record(*packet),
            0 <= final(self)@.cur <= u32::MAX,
    {
        let ty = packet.ty;
        if ty & PacketSend::INT_END != 0 {
            // End of batch: file the current count.
            if ty & PacketSend::INT_SELECT_A != 0 {
                self.a.push(self.cur);
            } else {
                self.b.push(self.cur);
            }
            self.cur = 0;
            self.started = false;
        } else if ty & (PacketSend::FORCE_TIMEOUT | PacketSend::FLUSH | PacketSend::SIZE_REQUEST)
            != 0 {
            // Control packets are not counted.
        } else {
            // A register write.
            if !self.started {
                self.cur_is_a = ty & PacketSend::INT_SELECT_A != 0;
                self.started = true;
            }
            self.cur = self.cur + 1;
            let bank = ty & PacketSend::BANK_SELECT;
            self.recent.push_back((bank, packet.reg_address, packet.data));
            if self.recent.len() > RECENT_WRITES {
                self.recent.pop_front();
            }
        }
    }

    /// The latest register writes (bank bit, register, data), oldest first.
    pub fn recent(&self) -> (r: &VecDeque<(u8, u8, u8)>)
        ensures
            r@ == self@.recent,
    {
        &self.recent
    }
}

/// Law: every packet adds to the total count of writes exactly the writes it
/// carries: one for a register write, none for a batch end (it only moves the
/// current count into its buffer's list) or another control packet.
pub proof fn law_writes_are_conserved(m: BatchStatsModel, p: PacketSend)
    requires
        0 <= m.cur <= u32::MAX,
    ensures
        m.record(p).total_writes() == m.total_writes() + (if is_write(p) {
            1int
        } else {
            0int
        }),
{
    if is_batch_end(p) {
        let c = m.cur as u32;
        assert(m.a.push(c).drop_last() =~= m.a);
        assert(m.b.push(c).drop_last() =~= m.b);
    }
}

/// Law: the kept writes never exceed `RECENT_WRITES`, and each register write
/// becomes the newest of them.
pub proof fn law_recent_writes_are_bounded(m: BatchStatsModel, p: PacketSend)
    requires
        m.recent.len() <= RECENT_WRITES,
    ensures
        m.record(p).recent.len() <= RECENT_WRITES,
        is_write(p) ==> m.record(p).recent.last() == (
            p.ty & PacketSend::BANK_SELECT,
            p.reg_address,
            p.data,
        ),
{
}

/// Law: a batch end (type bit 80h) files the current count under the buffer
/// that its own IntSelect bit (40h) names, A when set and B when clear, leaves
/// the other list and the kept writes alone, and starts an empty batch.
pub proof fn law_batch_end_files_by_own_select(m: BatchStatsModel, p: PacketSend)
    requires
        p.ty & 0x80 != 0,
    ensures
        p.ty & 0x40 != 0 ==> m.record(p).a == m.a.push(m.cur as u32) && m.record(p).b == m.b,
        p.ty & 0x40 == 0 ==> m.record(p).b == m.b.push(m.cur as u32) && m.record(p).a == m.a,
        m.record(p).cur == 0,
        !m.record(p).started,
        m.record(p).recent == m.recent,
{
}

/// Law: a packet with none of the bits 80h (batch end), 20h, 10h, 08h (forced
/// drain, flush, size request) is one register write: it adds one to the
/// current batch, marks the batch started (taking the buffer from its first
/// write's bit 40h), leaves the finished batches alone, and ends the kept
/// writes with its bank bit, register and data, of which at most the latest
/// 80 stay. Such a record fits while the count is below `u32::MAX`. A control
/// packet without bit 80h changes nothing and always fits.
pub proof fn law_write_and_control_packets(m: BatchStatsModel, p: PacketSend)
    requires
        m.recent.len() <= 80,
    ensures
        p.ty & 0xB8 == 0 ==> m.record(p).cur == m.cur + 1 && m.record(p).a == m.a
            && m.record(p).b == m.b && m.record(p).started && m.record(p).cur_is_a == (if m.started {
            m.cur_is_a
        } else {
            p.ty & 0x40 != 0
        }),
        p.ty & 0xB8 == 0 ==> m.record(p).recent == (if m.recent.len() < 80 {
            m.recent.push((p.ty & 0x01, p.reg_address, p.data))
        } else {
            m.recent.push((p.ty & 0x01, p.reg_address, p.data)).subrange(1, 81)
        }),
        p.ty & 0xB8 == 0 && m.cur < 0xFFFF_FFFF ==> m.record_fits(p),
        p.ty & 0x80 == 0 && p.ty & 0x38 != 0 ==> m.record(p) == m && m.record_fits(p),
        p.ty & 0x80 != 0 ==> m.record_fits(p),
{
    let t = p.ty;
    assert((t & 0xB8u8 == 0 <==> t & 0x80u8 == 0 && t & (0x20u8 | 0x10u8 | 0x08u8) == 0) && (t
        & 0x38u8 != 0 <==> t & (0x20u8 | 0x10u8 | 0x08u8) != 0)) by (bit_vector);
    if p.ty & 0xB8 == 0 && m.recent.len() == 80 {
        let pushed = m.recent.push((p.ty & 0x01, p.reg_address, p.data));
        assert(pushed.drop_first() =~= pushed.subrange(1, 81));
    }
}

/// The driver's answer to a size request: its queue length, as a
/// little-endian `u32`.
pub fn queue_size_from_reply(buf: [u8; 4]) -> (n: u32)
    ensures
        n == buf[0] + 256 * buf[1] + 65536 * buf[2] + 16777216 * buf[3],
{
    buf[0] as u32 + 256 * (buf[1] as u32) + 65536 * (buf[2] as u32) + 16777216 * (buf[3] as u32)
}

/// The order batch sizes are reported in.
pub open spec fn size_order() -> spec_fn(u32, u32) -> bool {
    |x: u32, y: u32| x <= y
}

/// Batches that carried at least one write.
pub open spec fn non_empty() -> spec_fn(u32) -> bool {
    |x: u32| x > 0
}

/// Batches of more than 256 writes.
pub open spec fn over_256() -> spec_fn(u32) -> bool {
    |x: u32| x > 256
}

/// The sizes of the non-empty batches, smallest first.
pub open spec fn sorted_non_empty(sizes: Seq<u32>) -> Seq<u32> {
    sizes.filter(non_empty()).sort_by(size_order())
}

/// The summary of one buffer's batch sizes.
#[derive(PartialEq, Eq, Debug)]
pub enum BatchReport {
    /// No batch at all.
    NoBatches,
    /// Only batches without writes, this many.
    OnlyEmpty { batches: usize },
    /// The non-empty batches: their number, total writes, largest size, the
    /// sizes at the 50th, 90th and 99th percentile, and how many exceed 256.
    Sizes { count: usize, sum: u64, max: u32, p50: u32, p90: u32, p99: u32, over256: usize },
}

/// The summary `report` gives for `sizes`: over the non-empty batches sorted
/// by size (v, n of them), the maximum v[n-1], the percentiles v[n/2],
/// v[9n/10] and v[min(99n/100, n-1)], the total of all sizes and the count of
/// sizes above 256.
pub open spec fn report_spec(sizes: Seq<u32>) -> BatchReport {
    let v = sorted_non_empty(sizes);
    let n = v.len() as int;
    if sizes.len() == 0 {
        BatchReport::NoBatches
    } else if n == 0 {
        BatchReport::OnlyEmpty { batches: sizes.len() as usize }
    } else {
        BatchReport::Sizes {
            count: n as usize,
            sum: seq_sum(sizes) as u64,
            max: v[n - 1],
            p50: v[n / 2],
            p90: v[n * 9 / 10],
            p99: v[if n * 99 / 100 < n - 1 {
                n * 99 / 100
            } else {
                n - 1
            }],
            over256: sizes.filter(over_256()).len() as usize,
        }
    }
}

proof fn lemma_sum_bound(s: Seq<u32>)
    ensures
        0 <= seq_sum(s) <= s.len() * 0xFFFF_FFFF,
    decreases s.len(),
{
    if s.len() > 0 {
        lemma_sum_bound(s.drop_last());
    }
}

/// Inserts `x` into the sorted vector `v`, after every element not greater
/// than it.
fn insert_sorted(v: &mut Vec<u32>, x: u32)
    requires
        sorted_by(old(v)@, size_order()),
    ensures
        sorted_by(final(v)@, size_order()),
        final(v)@.to_multiset() == old(v)@.to_multiset().insert(x),
{
    let mut j: usize = 0;
    while j < v.len() && v[j] <= x
        invariant
            j <= v.len(),
            sorted_by(v@, size_order()),
            forall|k: int| 0 <= k < j ==> v@[k] <= x,
        decreases v.len() - j,
    {
        j = j + 1;
    }
    let ghost before = v@;
    assert(forall|k: int| j <= k < before.len() ==> x < before[k]) by {
        assert forall|k: int| j <= k < before.len() implies x < before[k] by {
            assert(size_order()(before[j as int], before[k]) || j == k);
        }
    }
    v.insert(j, x);
    assert(v@ == before.insert(j as int, x));
    assert forall|a: int, b: int| 0 <= a < b < v@.len() implies #[trigger] size_order()(
        v@[a],
        v@[b],
    ) by {
        if b < j {
            assert(size_order()(before[a], before[b]));
        } else if a < j && b == j {
        } else if a < j {
            assert(v@[b] == before[b - 1]);
        } else if a == j {
            assert(v@[b] == before[b - 1]);
        } else {
            assert(size_order()(before[a - 1], before[b - 1]));
        }
    }
}

/// Summarises one buffer's batch sizes (the printed line shows the count,
/// the mean `sum / count`, the percentiles, the maximum and the count above
/// 256).
pub fn report(sizes: &[u32]) -> (r: BatchReport)
    requires
        seq_sum(sizes@) <= u64::MAX,
    ensures
        r == report_spec(sizes@),
{
    if sizes.len() == 0 {
        return BatchReport::NoBatches;
    }
    // The non-empty batches, the total and the count above 256.
    let mut pos: Vec<u32> = Vec::new();
    let mut sum: u128 = 0;
    let mut over256: usize = 0;
    let mut i: usize = 0;
    while i < sizes.len()
        invariant
            i <= sizes@.len() <= usize::MAX,
            seq_sum(sizes@) <= u64::MAX,
            pos@ == sizes@.take(i as int).filter(non_empty()),
            sum == seq_sum(sizes@.take(i as int)),
            over256 == sizes@.take(i as int).filter(over_256()).len(),
            over256 <= i,
        decreases sizes@.len() - i,
    {
        let x = sizes[i];
        proof {
            let t = sizes@.take(i as int);
            assert(sizes@.take(i + 1) == t.push(x));
            t.lemma_filter_push(x, non_empty());
            t.lemma_filter_push(x, over_256());
            assert(t.push(x).drop_last() == t);
            lemma_sum_bound(t);
            assert(t.len() * 0xFFFF_FFFF + 0xFFFF_FFFF <= u128::MAX) by (nonlinear_arith)
                requires
                    t.len() <= 0xFFFF_FFFF_FFFF_FFFF,
            ;
        }
        if x > 0 {
            pos.push(x);
        }
        if x > 256 {
            over256 = over256 + 1;
        }
        sum = sum + x as u128;
        i = i + 1;
    }
    assert(sizes@.take(sizes@.len() as int) == sizes@);
    let n = pos.len();
    proof {
        let le = size_order();
        assert(total_ordering(le));
        pos@.lemma_sort_by_ensures(le);
        vstd::seq_lib::to_multiset_len(pos@);
        vstd::seq_lib::to_multiset_len(pos@.sort_by(le));
    }
    if n == 0 {
        return BatchReport::OnlyEmpty { batches: sizes.len() };
    }
    // Sort them, smallest first.
    let mut v: Vec<u32> = Vec::new();
    let mut k: usize = 0;
    while k < n
        invariant
            n == pos@.len(),
            k <= n,
            sorted_by(v@, size_order()),
            v@.to_multiset() == pos@.take(k as int).to_multiset(),
        decreases n - k,
    {
        proof {
            assert(pos@.take(k + 1) == pos@.take(k as int).push(pos@[k as int]));
        }
        insert_sorted(&mut v, pos[k]);
        k = k + 1;
    }
    proof {
        assert(pos@.take(n as int) == pos@);
        let le = size_order();
        assert(total_ordering(le));
        pos@.lemma_sort_by_ensures(le);
        vstd::seq_lib::lemma_sorted_unique(v@, pos@.sort_by(le), le);
        v@.to_multiset_ensures();
        pos@.to_multiset_ensures();
    }
    let nw = n as u128;
    let i90 = (nw * 9 / 10) as usize;
    let i99_raw = (nw * 99 / 100) as usize;
    let i99 = if i99_raw < n - 1 {
        i99_raw
    } else {
        n - 1
    };
    BatchReport::Sizes {
        count: n,
        sum: sum as u64,
        max: v[n - 1],
        p50: v[n / 2],
        p90: v[i90],
        p99: v[i99],
        over256,
    }
}

/// Law: the summary reads the non-empty batch sizes in ascending order. For
/// every ascending arrangement `u` of the sizes above 0: there are no batches
/// exactly when `sizes` is empty; only empty batches exactly when `u` is empty
/// (every size is 0); otherwise the count is `u`'s length, the maximum its last
/// element (no size is larger), the 50th, 90th and 99th percentiles its
/// elements at n/2, 9n/10 and min(99n/100, n-1), the total the sum of all
/// sizes and the count above 256 that of the sizes above 256.
pub proof fn law_report_reads_sorted_sizes(sizes: Seq<u32>, u: Seq<u32>)
    requires
        forall|i: int, j: int| 0 <= i < j < u.len() ==> u[i] <= u[j],
        u.to_multiset() == sizes.filter(|x: u32| x > 0).to_multiset(),
    ensures
        sizes.len() == 0 ==> report_spec(sizes) == BatchReport::NoBatches,
        (u.len() == 0) == (forall|i: int| 0 <= i < sizes.len() ==> sizes[i] == 0),
        sizes.len() > 0 && u.len() == 0 ==> report_spec(sizes) == (BatchReport::OnlyEmpty {
            batches: sizes.len() as usize,
        }),
        u.len() > 0 ==> report_spec(sizes) == (BatchReport::Sizes {
            count: u.len() as usize,
            sum: seq_sum(sizes) as u64,
            max: u[u.len() - 1],
            p50: u[(u.len() / 2) as int],
            p90: u[(u.len() * 9 / 10) as int],
            p99: u[if u.len() * 99 / 100 < u.len() - 1 {
                (u.len() * 99 / 100) as int
            } else {
                u.len() - 1
            }],
            over256: sizes.filter(|x: u32| x > 256).len() as usize,
        }),
        u.len() > 0 ==> forall|i: int| 0 <= i < sizes.len() ==> sizes[i] <= u[u.len() - 1],
{
    let le = size_order();
    let gt0 = |x: u32| x > 0;
    assert(non_empty() =~= gt0);
    assert(over_256() =~= (|x: u32| x > 256));
    let pos = sizes.filter(non_empty());
    assert(total_ordering(le));
    pos.lemma_sort_by_ensures(le);
    let v = pos.sort_by(le);
    assert(sorted_by(u, le)) by {
        assert forall|i: int, j: int| 0 <= i < j < u.len() implies #[trigger] le(u[i], u[j]) by {}
    }
    vstd::seq_lib::lemma_sorted_unique(u, v, le);
    assert(u == v);
    vstd::seq_lib::to_multiset_len(pos);
    vstd::seq_lib::to_multiset_len(v);
    if u.len() == 0 {
        assert forall|i: int| 0 <= i < sizes.len() implies sizes[i] == 0 by {
            if sizes[i] > 0 {
                sizes.lemma_filter_contains(non_empty(), i);
            }
        }
    } else {
        assert(pos.contains(pos[0]));
        sizes.lemma_filter_pred(non_empty(), 0);
        sizes.lemma_filter_contains_rev(non_empty(), pos[0]);
        let w = choose|w: int| 0 <= w < sizes.len() && sizes[w] == pos[0];
        assert(sizes[w] != 0);
        assert(sizes.len() > 0);
        assert forall|i: int| 0 <= i < sizes.len() implies sizes[i] <= u[u.len() - 1] by {
            if sizes[i] > 0 {
                sizes.lemma_filter_contains(non_empty(), i);
                assert(v.to_multiset().count(sizes[i]) > 0);
                assert(v.contains(sizes[i]));
                let j = choose|j: int| 0 <= j < v.len() && v[j] == sizes[i];
                if j < u.len() - 1 {
                    assert(le(v[j], v[u.len() - 1]));
                }
            }
        }
    }
}

} // verus!
