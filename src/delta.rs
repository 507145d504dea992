use vstd::prelude::*;
use crate::error::{Error, ErrorView};

verus! {

/// The block size used when the caller has no preference.
pub const DEFAULT_BLOCK_SIZE: usize = 2048;

/// The largest block size accepted; keeps block checksums far from overflow.
pub const MAX_BLOCK_SIZE: usize = 0x100_0000;

/// The number of buckets that full blocks are grouped into by byte sum.
pub const INDEX_BUCKETS: usize = 4096;

/// One step of rebuilding a target from a reference.
#[derive(Debug, Clone, PartialEq, Eq)]
pub enum DeltaOp {
    /// Take `length` bytes of the reference, starting at `offset`.
    Copy { offset: usize, length: usize },
    /// Emit these bytes as they are.
    Insert(Vec<u8>),
}

pub enum DeltaOpView {
    Copy { offset: int, length: int },
    Insert(Seq<u8>),
}

impl View for DeltaOp {
    type V = DeltaOpView;

    open spec fn view(&self) -> DeltaOpView {
        match self {
            DeltaOp::Copy { offset, length } => DeltaOpView::Copy { offset: *offset as int, length: *length as int },
            DeltaOp::Insert(bytes) => DeltaOpView::Insert(bytes@),
        }
    }
}

/// The difference of a target against a reference: a checksum of the
/// reference it was computed against, the block size, and the operations.
#[derive(Debug, Clone, PartialEq, Eq)]
pub struct DeltaDescriptor {
    pub reference_checksum: u32,
    pub block_size: usize,
    pub ops: Vec<DeltaOp>,
}

pub struct DescriptorView {
    pub reference_checksum: u32,
    pub block_size: int,
    pub ops: Seq<DeltaOpView>,
}

pub open spec fn ops_view(ops: Seq<DeltaOp>) -> Seq<DeltaOpView> {
    ops.map_values(|o: DeltaOp| o@)
}

impl View for DeltaDescriptor {
    type V = DescriptorView;

    open spec fn view(&self) -> DescriptorView {
        DescriptorView {
            reference_checksum: self.reference_checksum,
            block_size: self.block_size as int,
            ops: ops_view(self.ops@),
        }
    }
}

/// The modulus of the Adler-32 checksum.
pub const ADLER_MOD: u32 = 65521;

/// The two running sums of Adler-32 over `s`.
pub open spec fn adler_sums(s: Seq<u8>) -> (int, int)
    decreases s.len(),
{
    if s.len() == 0 {
        (1, 0)
    } else {
        let prev = adler_sums(s.drop_last());
        let a = (prev.0 + s.last() as int) % 65521;
        (a, (prev.1 + a) % 65521)
    }
}

/// The Adler-32 checksum of `s`.
pub open spec fn adler32(s: Seq<u8>) -> int {
    adler_sums(s).1 * 65536 + adler_sums(s).0
}

/// Whether an operation stays inside a reference of `ref_len` bytes.
pub open spec fn op_valid(ref_len: int, op: DeltaOpView) -> bool {
    match op {
        DeltaOpView::Copy { offset, length } => 0 <= offset && 0 <= length && offset + length <= ref_len,
        DeltaOpView::Insert(_) => true,
    }
}

pub open spec fn ops_valid(ref_len: int, ops: Seq<DeltaOpView>) -> bool {
    forall|i: int| 0 <= i < ops.len() ==> op_valid(ref_len, #[trigger] ops[i])
}

/// The bytes one operation contributes.
pub open spec fn op_output(reference: Seq<u8>, op: DeltaOpView) -> Seq<u8> {
    match op {
        DeltaOpView::Copy { offset, length } => reference.subrange(offset, offset + length),
        DeltaOpView::Insert(bytes) => bytes,
    }
}

/// The bytes that replaying `ops` in order against `reference` produces.
pub open spec fn apply_ops(reference: Seq<u8>, ops: Seq<DeltaOpView>) -> Seq<u8>
    decreases ops.len(),
{
    if ops.len() == 0 {
        Seq::empty()
    } else {
        apply_ops(reference, ops.drop_last()) + op_output(reference, ops.last())
    }
}

pub open spec fn is_insert(op: DeltaOpView) -> bool {
    op is Insert
}

/// A descriptor that rebuilds `target` from `reference`.
pub open spec fn encodes(reference: Seq<u8>, target: Seq<u8>, d: DescriptorView) -> bool {
    &&& d.reference_checksum as int == adler32(reference)
    &&& 0 < d.block_size
    &&& ops_valid(reference.len() as int, d.ops)
    &&& copies_are_blocks(reference.len() as int, d.block_size, d.ops)
    &&& apply_ops(reference, d.ops) == target
}

/// A copy takes one whole block of the reference: it starts on a block
/// boundary, is not empty, and is a full block or runs to the reference's
/// end.
pub open spec fn copy_is_block(ref_len: int, bs: int, op: DeltaOpView) -> bool {
    match op {
        DeltaOpView::Copy { offset, length } => 0 < length && offset % bs == 0 && (length == bs || offset + length == ref_len),
        DeltaOpView::Insert(_) => true,
    }
}

pub open spec fn copies_are_blocks(ref_len: int, bs: int, ops: Seq<DeltaOpView>) -> bool {
    forall|i: int| 0 <= i < ops.len() ==> copy_is_block(ref_len, bs, #[trigger] ops[i])
}

/// Block `reference[off..off+len]` (a whole block, or the last partial
/// one) stands in `t` at `p`.
pub open spec fn block_at(reference: Seq<u8>, bs: int, t: Seq<u8>, off: int, len: int, p: int) -> bool {
    &&& copy_is_block(reference.len() as int, bs, DeltaOpView::Copy { offset: off, length: len })
    &&& 0 <= off && off + len <= reference.len()
    &&& 0 <= p && p + len <= t.len()
    &&& t.subrange(p, p + len) == reference.subrange(off, off + len)
}

/// Some block of the reference occurs somewhere in `t`.
pub open spec fn shares_block(reference: Seq<u8>, bs: int, t: Seq<u8>) -> bool {
    exists|off: int, len: int, p: int| #[trigger] block_at(reference, bs, t, off, len, p)
}

proof fn lemma_output_occurs(reference: Seq<u8>, ops: Seq<DeltaOpView>, i: int)
    requires
        0 <= i < ops.len(),
        ops_valid(reference.len() as int, ops),
    ensures
        exists|p: int| 0 <= p && p + op_output(reference, ops[i]).len() <= apply_ops(reference, ops).len()
            && #[trigger] apply_ops(reference, ops).subrange(p, p + op_output(reference, ops[i]).len())
                == op_output(reference, ops[i]),
    decreases ops.len(),
{
    let prev = ops.drop_last();
    let whole = apply_ops(reference, ops);
    let out = op_output(reference, ops[i]);
    assert(whole == apply_ops(reference, prev) + op_output(reference, ops.last()));
    if i == ops.len() - 1 {
        let p = apply_ops(reference, prev).len() as int;
        assert(whole.subrange(p, p + out.len()) =~= out);
    } else {
        assert forall|k: int| 0 <= k < prev.len() implies op_valid(reference.len() as int, #[trigger] prev[k]) by {
            assert(prev[k] == ops[k]);
        }
        assert(prev[i] == ops[i]);
        lemma_output_occurs(reference, prev, i);
        let pw = apply_ops(reference, prev);
        let p = choose|p: int| 0 <= p && p + out.len() <= pw.len() && #[trigger] pw.subrange(p, p + out.len()) == out;
        assert(whole.subrange(p, p + out.len()) =~= pw.subrange(p, p + out.len()));
    }
}

/// Where no block of the reference occurs anywhere in the target, a
/// descriptor that encodes the target sends it as literal bytes only.
pub proof fn lemma_no_shared_block(reference: Seq<u8>, target: Seq<u8>, d: DescriptorView)
    requires
        encodes(reference, target, d),
        !shares_block(reference, d.block_size, target),
    ensures
        forall|i: int| 0 <= i < d.ops.len() ==> is_insert(#[trigger] d.ops[i]),
{
    assert forall|i: int| 0 <= i < d.ops.len() implies is_insert(#[trigger] d.ops[i]) by {
        if let DeltaOpView::Copy { offset, length } = d.ops[i] {
            lemma_output_occurs(reference, d.ops, i);
            assert(op_valid(reference.len() as int, d.ops[i]));
            assert(copy_is_block(reference.len() as int, d.block_size, d.ops[i]));
            let out = op_output(reference, d.ops[i]);
            assert(out.len() == length);
            let p = choose|p: int| 0 <= p && p + out.len() <= target.len() && #[trigger] target.subrange(p, p + out.len()) == out;
            assert(block_at(reference, d.block_size, target, offset, length, p));
        }
    }
}

/// What decoding `d` against `reference` gives: none where the reference is
/// not the one `d` was computed against, or an operation reaches past it.
pub open spec fn decoded(reference: Seq<u8>, d: DescriptorView) -> Option<Seq<u8>> {
    if d.reference_checksum as int == adler32(reference) && ops_valid(reference.len() as int, d.ops) {
        Some(apply_ops(reference, d.ops))
    } else {
        None
    }
}

/// Decoding a descriptor that encode computed against a reference, against
/// that same reference, gives back the target byte for byte.
pub proof fn lemma_round_trip(reference: Seq<u8>, target: Seq<u8>, d: DescriptorView)
    requires
        encodes(reference, target, d),
    ensures
        decoded(reference, d) == Some(target),
{
}

/// The sum of the bytes `s[lo..hi]`.
pub open spec fn sum_range(s: Seq<u8>, lo: int, hi: int) -> int
    decreases hi - lo,
{
    if hi <= lo {
        0
    } else {
        sum_range(s, lo, hi - 1) + s[hi - 1] as int
    }
}

proof fn lemma_sum_front(s: Seq<u8>, lo: int, hi: int)
    requires
        0 <= lo < hi <= s.len(),
    ensures
        sum_range(s, lo, hi) == s[lo] as int + sum_range(s, lo + 1, hi),
    decreases hi - lo,
{
    assert(sum_range(s, lo, hi) == sum_range(s, lo, hi - 1) + s[hi - 1] as int);
    if hi - 1 > lo {
        lemma_sum_front(s, lo, hi - 1);
        assert(sum_range(s, lo + 1, hi) == sum_range(s, lo + 1, hi - 1) + s[hi - 1] as int);
    } else {
        assert(sum_range(s, lo, lo) == 0);
        assert(sum_range(s, lo + 1, hi) == 0);
    }
}

proof fn lemma_sum_bound(s: Seq<u8>, lo: int, hi: int)
    requires
        0 <= lo <= hi <= s.len(),
    ensures
        0 <= sum_range(s, lo, hi) <= 255 * (hi - lo),
    decreases hi - lo,
{
    if hi > lo {
        lemma_sum_bound(s, lo, hi - 1);
    }
}

/// Bytes `a[ao..ao+len]` equal bytes `b[bo..bo+len]`.
pub open spec fn match_at(a: Seq<u8>, ao: int, b: Seq<u8>, bo: int, len: int) -> bool {
    &&& 0 <= ao && ao + len <= a.len()
    &&& 0 <= bo && bo + len <= b.len()
    &&& a.subrange(ao, ao + len) == b.subrange(bo, bo + len)
}

proof fn lemma_sum_equal(a: Seq<u8>, ao: int, b: Seq<u8>, bo: int, len: int)
    requires
        0 <= len,
        match_at(a, ao, b, bo, len),
    ensures
        sum_range(a, ao, ao + len) == sum_range(b, bo, bo + len),
    decreases len,
{
    if len > 0 {
        assert(a.subrange(ao, ao + len - 1) =~= a.subrange(ao, ao + len).subrange(0, len - 1));
        assert(b.subrange(bo, bo + len - 1) =~= b.subrange(bo, bo + len).subrange(0, len - 1));
        lemma_sum_equal(a, ao, b, bo, len - 1);
        assert(a[ao + len - 1] == a.subrange(ao, ao + len)[len - 1]);
        assert(b[bo + len - 1] == b.subrange(bo, bo + len)[len - 1]);
    }
}

fn window_sum(s: &[u8], lo: usize, len: usize) -> (r: u64)
    requires
        lo + len <= s@.len(),
        len <= MAX_BLOCK_SIZE,
    ensures
        r == sum_range(s@, lo as int, lo + len),
{
    let mut acc: u64 = 0;
    let mut i: usize = 0;
    assert(s@.len() == s.len());
    while i < len
        invariant
            i <= len,
            s@.len() <= usize::MAX,
            lo + len <= s@.len(),
            len <= MAX_BLOCK_SIZE,
            acc == sum_range(s@, lo as int, lo + i),
        decreases len - i,
    {
        proof {
            lemma_sum_bound(s@, lo as int, lo + i);
        }
        assert(acc + 255 <= 255 * 0x100_0000);
        acc = acc + s[lo + i] as u64;
        i = i + 1;
    }
    acc
}

fn ranges_equal(a: &[u8], ao: usize, b: &[u8], bo: usize, len: usize) -> (r: bool)
    requires
        ao + len <= a@.len(),
        bo + len <= b@.len(),
    ensures
        r == match_at(a@, ao as int, b@, bo as int, len as int),
{
    assert(a@.len() == a.len() && b@.len() == b.len());
    let mut i: usize = 0;
    while i < len
        invariant
            i <= len,
            a@.len() <= usize::MAX,
            b@.len() <= usize::MAX,
            ao + len <= a@.len(),
            bo + len <= b@.len(),
            a@.subrange(ao as int, ao + i) =~= b@.subrange(bo as int, bo + i),
        decreases len - i,
    {
        if a[ao + i] != b[bo + i] {
            assert(a@.subrange(ao as int, ao + len)[i as int] != b@.subrange(bo as int, bo + len)[i as int]);
            return false;
        }
        assert(a@.subrange(ao as int, ao + i + 1) =~= a@.subrange(ao as int, ao + i).push(a@[ao + i]));
        assert(b@.subrange(bo as int, bo + i + 1) =~= b@.subrange(bo as int, bo + i).push(b@[bo + i]));
        i = i + 1;
    }
    true
}

/// The Adler-32 checksum of `s`.
pub fn checksum(s: &[u8]) -> (r: u32)
    ensures
        r as int == adler32(s@),
{
    let mut a: u32 = 1;
    let mut b: u32 = 0;
    let mut i: usize = 0;
    while i < s.len()
        invariant
            i <= s@.len(),
            (a as int, b as int) == adler_sums(s@.subrange(0, i as int)),
            a < 65521,
            b < 65521,
        decreases s@.len() - i,
    {
        let ghost prefix = s@.subrange(0, i as int + 1);
        assert(prefix.drop_last() =~= s@.subrange(0, i as int));
        a = (a + s[i] as u32) % ADLER_MOD;
        b = (b + a) % ADLER_MOD;
        i = i + 1;
    }
    assert(s@.subrange(0, s@.len() as int) =~= s@);
    b * 65536 + a
}

proof fn lemma_apply_push(reference: Seq<u8>, ops: Seq<DeltaOpView>, op: DeltaOpView)
    ensures
        apply_ops(reference, ops.push(op)) == apply_ops(reference, ops) + op_output(reference, op),
{
    assert(ops.push(op).drop_last() =~= ops);
}

/// Pushes `op` onto `ops`, keeping the view in step.
fn push_op(ops: &mut Vec<DeltaOp>, op: DeltaOp)
    ensures
        ops_view(final(ops)@) == ops_view(old(ops)@).push(op@),
{
    ops.push(op);
    assert(ops_view(final(ops)@) =~= ops_view(old(ops)@).push(op@));
}

proof fn lemma_push_props(ref_len: int, ops: Seq<DeltaOpView>, op: DeltaOpView)
    ensures
        ops_valid(ref_len, ops) && op_valid(ref_len, op) ==> ops_valid(ref_len, ops.push(op)),
        (forall|i: int| 0 <= i < ops.len() ==> is_insert(#[trigger] ops[i])) && is_insert(op)
            ==> forall|i: int| 0 <= i < ops.push(op).len() ==> is_insert(#[trigger] ops.push(op)[i]),
        (forall|i: int| 0 <= i < ops.len() ==> !is_insert(#[trigger] ops[i])) && !is_insert(op)
            ==> forall|i: int| 0 <= i < ops.push(op).len() ==> !is_insert(#[trigger] ops.push(op)[i]),
        forall|rl: int, bs: int| copies_are_blocks(rl, bs, ops) && copy_is_block(rl, bs, op)
            ==> #[trigger] copies_are_blocks(rl, bs, ops.push(op)),
{
    assert forall|i: int| 0 <= i < ops.len() implies #[trigger] ops.push(op)[i] == ops[i] by {}
    assert(ops.push(op)[ops.len() as int] == op);
}

/// Literal bytes are sent in pieces of at most this many bytes.
pub const LITERAL_LIMIT: usize = 0x1_0000;

/// An encoder that takes the target in pieces and hands out operations as
/// they are decided, so the target never has to be held whole. Each full
/// block of the reference, and its last partial block where it ends the
/// target, is matched wherever it occurs in the target: the rolling byte sum
/// of the window picks the bucket of candidate blocks, a byte comparison
/// confirms them. What matches no block is sent as literal bytes.
pub struct DeltaEncoder {
    pub reference: Vec<u8>,
    pub block_size: usize,
    /// The number of full blocks of the reference.
    pub n_full: usize,
    /// Where the last partial block starts, and its length.
    pub tail_start: usize,
    pub tail_len: usize,
    /// The byte sum of each full block.
    pub sums: Vec<u64>,
    /// The full blocks, grouped by byte sum modulo the number of buckets.
    pub buckets: Vec<Vec<usize>>,
    pub checksum: u32,
    /// Target bytes received and not yet dropped; encoding has reached `pos`.
    pub buf: Vec<u8>,
    pub pos: usize,
    /// The byte sum of the window at `pos`, where a full window is there.
    pub wsum: u64,
    /// Literal bytes not yet sent.
    pub literal: Vec<u8>,
    /// Operations decided and not yet handed out.
    pub ready: Vec<DeltaOp>,
    /// All target bytes received.
    pub fed: Ghost<Seq<u8>>,
    /// All operations handed out.
    pub taken: Ghost<Seq<DeltaOpView>>,
    /// Blocks copied so far, while the target agrees with the reference.
    pub k: Ghost<int>,
}

impl DeltaEncoder {
    /// Where `buf` starts in the target.
    pub open spec fn base(&self) -> int {
        self.fed@.len() - self.buf@.len()
    }

    /// Target bytes encoded so far.
    pub open spec fn consumed(&self) -> int {
        self.base() + self.pos
    }

    /// Every operation decided so far, handed out or not.
    pub open spec fn all_ops(&self) -> Seq<DeltaOpView> {
        self.taken@ + ops_view(self.ready@)
    }

    /// The target received so far begins the reference.
    pub open spec fn agrees(&self) -> bool {
        &&& self.fed@.len() <= self.reference@.len()
        &&& self.fed@ == self.reference@.subrange(0, self.fed@.len() as int)
    }

    pub open spec fn index_wf(&self) -> bool {
        let bs = self.block_size as int;
        let rlen = self.reference@.len() as int;
        &&& 0 < bs <= MAX_BLOCK_SIZE
        &&& self.n_full == rlen / bs
        &&& self.tail_start == self.n_full * bs
        &&& self.n_full * bs <= rlen < self.n_full * bs + bs
        &&& self.tail_len == rlen - self.tail_start
        &&& self.sums@.len() == self.n_full
        &&& forall|jj: int| 0 <= jj < self.n_full ==> #[trigger] self.sums@[jj] == sum_range(self.reference@, jj * bs, jj * bs + bs)
        &&& self.buckets@.len() == INDEX_BUCKETS
        &&& forall|hh: int, q: int| 0 <= hh < INDEX_BUCKETS && 0 <= q < self.buckets@[hh]@.len()
            ==> #[trigger] self.buckets@[hh]@[q] < self.n_full && self.sums@[self.buckets@[hh]@[q] as int] % (INDEX_BUCKETS as u64) == hh
        &&& forall|jj: int| 0 <= jj < self.n_full ==> self.buckets@[(#[trigger] self.sums@[jj] % (INDEX_BUCKETS as u64)) as int]@.contains(jj as usize)
        &&& self.checksum as int == adler32(self.reference@)
    }

    pub open spec fn wf_core(&self) -> bool {
        self.wf_base() && self.literal@.len() < LITERAL_LIMIT
    }

    pub open spec fn wf_base(&self) -> bool {
        let bs = self.block_size as int;
        &&& self.index_wf()
        &&& self.buf@.len() <= self.fed@.len()
        &&& self.buf@ == self.fed@.subrange(self.base(), self.fed@.len() as int)
        &&& self.pos <= self.buf@.len()
        &&& self.pos + bs <= self.buf@.len() ==> self.wsum == sum_range(self.buf@, self.pos as int, self.pos + bs)
        &&& ops_valid(self.reference@.len() as int, self.all_ops())
        &&& copies_are_blocks(self.reference@.len() as int, self.block_size as int, self.all_ops())
        &&& apply_ops(self.reference@, self.all_ops()) + self.literal@ == self.fed@.subrange(0, self.consumed())
        &&& self.reference@.len() == 0 ==> forall|i: int| 0 <= i < self.all_ops().len() ==> is_insert(#[trigger] self.all_ops()[i])
    }

    /// While the target matches the reference (a prefix of it during the
    /// pieces, all of it at the end), only whole blocks were copied.
    pub open spec fn ident(&self, at_end: bool) -> bool {
        self.matching(at_end) ==> {
            &&& self.literal@.len() == 0
            &&& (self.consumed() == self.k@ * self.block_size || (at_end && self.consumed() == self.fed@.len()))
            &&& 0 <= self.k@
            &&& forall|i: int| 0 <= i < self.all_ops().len() ==> !is_insert(#[trigger] self.all_ops()[i])
        }
    }

    /// The target matches the reference: a prefix of it while pieces come
    /// in, all of it at the end.
    pub open spec fn matching(&self, at_end: bool) -> bool {
        if at_end { self.fed@ == self.reference@ } else { self.agrees() }
    }

    pub open spec fn wf(&self) -> bool {
        self.wf_core() && self.ident(false)
    }

    /// An encoder against `reference`, with blocks of `block_size` bytes.
    pub fn new(reference: &[u8], block_size: usize) -> (r: DeltaEncoder)
        requires
            0 < block_size <= MAX_BLOCK_SIZE,
        ensures
            r.wf(),
            r.reference@ == reference@,
            r.block_size == block_size,
            r.fed@.len() == 0,
            r.taken@.len() == 0,
            r.ready@.len() == 0,
    {
        let bs = block_size;
        let mut own: Vec<u8> = Vec::new();
        append_range(&mut own, reference, 0, reference.len());
        assert(own@ =~= reference@);
        let rlen = own.len();
        let n_full = rlen / bs;
        proof {
            vstd::arithmetic::div_mod::lemma_fundamental_div_mod(rlen as int, bs as int);
            assert(n_full * bs == bs * n_full) by (nonlinear_arith);
        }
        let tail_start = n_full * bs;
        let tail_len = rlen - tail_start;
        let mut buckets: Vec<Vec<usize>> = Vec::new();
        let mut h: usize = 0;
        while h < INDEX_BUCKETS
            invariant
                h <= INDEX_BUCKETS,
                buckets@.len() == h,
                forall|hh: int| 0 <= hh < h ==> (#[trigger] buckets@[hh])@.len() == 0,
            decreases INDEX_BUCKETS - h,
        {
            buckets.push(Vec::new());
            h = h + 1;
        }
        let mut sums: Vec<u64> = Vec::new();
        let mut j: usize = 0;
        while j < n_full
            invariant
                j <= n_full,
                n_full * bs <= rlen,
                rlen == own@.len(),
                0 < bs <= MAX_BLOCK_SIZE,
                sums@.len() == j,
                forall|jj: int| 0 <= jj < j ==> #[trigger] sums@[jj] == sum_range(own@, jj * bs, jj * bs + bs),
                buckets@.len() == INDEX_BUCKETS,
                forall|hh: int, q: int| 0 <= hh < INDEX_BUCKETS && 0 <= q < buckets@[hh]@.len()
                    ==> #[trigger] buckets@[hh]@[q] < j && sums@[buckets@[hh]@[q] as int] % (INDEX_BUCKETS as u64) == hh,
                forall|jj: int| 0 <= jj < j ==> buckets@[(#[trigger] sums@[jj] % (INDEX_BUCKETS as u64)) as int]@.contains(jj as usize),
            decreases n_full - j,
        {
            assert(j * bs + bs <= n_full * bs) by (nonlinear_arith)
                requires j < n_full, 0 < bs;
            let start = j * bs;
            let s = window_sum(own.as_slice(), start, bs);
            sums.push(s);
            let b = (s % (INDEX_BUCKETS as u64)) as usize;
            let ghost old_buckets = buckets@;
            buckets[b].push(j);
            proof {
                assert(buckets@[b as int]@ == old_buckets[b as int]@.push(j));
                assert forall|hh: int, q: int| 0 <= hh < INDEX_BUCKETS && 0 <= q < buckets@[hh]@.len()
                    implies #[trigger] buckets@[hh]@[q] < j + 1 && sums@[buckets@[hh]@[q] as int] % (INDEX_BUCKETS as u64) == hh by {
                    if hh != b as int {
                        assert(buckets@[hh] == old_buckets[hh]);
                    } else if q < old_buckets[hh]@.len() {
                        assert(buckets@[hh]@[q] == old_buckets[hh]@[q]);
                    }
                }
                assert forall|jj: int| 0 <= jj < j + 1 implies buckets@[(#[trigger] sums@[jj] % (INDEX_BUCKETS as u64)) as int]@.contains(jj as usize) by {
                    if jj < j {
                        let hj = (sums@[jj] % (INDEX_BUCKETS as u64)) as int;
                        assert(old_buckets[hj]@.contains(jj as usize));
                        let q = choose|q: int| 0 <= q < old_buckets[hj]@.len() && old_buckets[hj]@[q] == jj as usize;
                        if hj == b as int {
                            assert(buckets@[hj]@[q] == jj as usize);
                        } else {
                            assert(buckets@[hj] == old_buckets[hj]);
                        }
                    } else {
                        assert(buckets@[b as int]@[old_buckets[b as int]@.len() as int] == j);
                    }
                }
            }
            j = j + 1;
        }
        let c = checksum(own.as_slice());
        let r = DeltaEncoder {
            reference: own,
            block_size: bs,
            n_full,
            tail_start,
            tail_len,
            sums,
            buckets,
            checksum: c,
            buf: Vec::new(),
            pos: 0,
            wsum: 0,
            literal: Vec::new(),
            ready: Vec::new(),
            fed: Ghost(Seq::empty()),
            taken: Ghost(Seq::empty()),
            k: Ghost(0),
        };
        assert(r.all_ops() =~= Seq::<DeltaOpView>::empty());
        assert(r.k@ * r.block_size == 0) by (nonlinear_arith)
            requires r.k@ == 0;
        assert(r.fed@.subrange(0, 0) =~= Seq::<u8>::empty());
        assert(r.fed@.subrange(0, 0) =~= r.buf@);
        assert(r.reference@.subrange(0, 0) =~= r.fed@);
        r
    }

    /// Moves the decided operations, and `op`, to the ready list.
    fn emit(&mut self, op: DeltaOp)
        ensures
            ops_view(final(self).ready@) == ops_view(old(self).ready@).push(op@),
            final(self).reference == old(self).reference,
            final(self).literal == old(self).literal,
            final(self).buf == old(self).buf,
            final(self).pos == old(self).pos,
            final(self).wsum == old(self).wsum,
            final(self).fed == old(self).fed,
            final(self).taken == old(self).taken,
            final(self).k == old(self).k,
            final(self).block_size == old(self).block_size,
            final(self).n_full == old(self).n_full,
            final(self).tail_start == old(self).tail_start,
            final(self).tail_len == old(self).tail_len,
            final(self).sums == old(self).sums,
            final(self).buckets == old(self).buckets,
            final(self).checksum == old(self).checksum,
    {
        push_op(&mut self.ready, op);
    }

    /// A block of the reference that the target holds at `pos`: a full
    /// block, or at the end the last partial block where it ends the target.
    /// While the target matches the reference there always is one.
    fn find_match(&self, at_end: bool) -> (r: Option<(usize, usize)>)
        requires
            self.wf_core(),
            self.ident(at_end),
            self.pos < self.buf@.len(),
            !at_end ==> self.pos + self.block_size <= self.buf@.len(),
        ensures
            r matches Some((off, len)) ==> {
                &&& 0 < len
                &&& match_at(self.reference@, off as int, self.buf@, self.pos as int, len as int)
                &&& (len == self.block_size || (at_end && len == self.buf@.len() - self.pos))
                &&& copy_is_block(self.reference@.len() as int, self.block_size as int,
                    DeltaOpView::Copy { offset: off as int, length: len as int })
            },
            self.matching(at_end) ==> (r matches Some((off, len))
                && (len == self.block_size || self.consumed() + len == self.fed@.len())),
    {
        let bs = self.block_size;
        let blen = self.buf.len();
        let pos = self.pos;
        let ghost fed = self.fed@;
        let ghost cons = self.consumed();
        let ghost rf = self.reference@;
        let ghost same = self.matching(at_end);
        let ghost k = self.k@;
        assert(self.buf@.len() == self.buf.len());
        proof {
            if same {
                assert(fed.len() <= rf.len());
                if at_end {
                    assert(rf.subrange(0, rf.len() as int) =~= rf);
                }
                assert(fed =~= rf.subrange(0, fed.len() as int));
            }
        }
        if bs <= blen - pos {
            let hb = (self.wsum % (INDEX_BUCKETS as u64)) as usize;
            let list = &self.buckets[hb];
            let mut q: usize = 0;
            while q < list.len()
                invariant
                    q <= list@.len(),
                    pos == self.pos,
                    pos + bs <= blen,
                    blen == self.buf@.len(),
                    self.index_wf(),
                    bs == self.block_size,
                    list@ == self.buckets@[hb as int]@,
                    hb < INDEX_BUCKETS,
                    self.wsum == sum_range(self.buf@, pos as int, pos + bs),
                    forall|qq: int| 0 <= qq < q
                        ==> !match_at(self.reference@, (#[trigger] list@[qq] as int) * bs, self.buf@, pos as int, bs as int),
                decreases list@.len() - q,
            {
                let jb = list[q];
                assert(jb < self.n_full);
                assert(jb * bs + bs <= self.n_full * bs) by (nonlinear_arith)
                    requires jb < self.n_full, 0 < bs;
                let start = jb * bs;
                if self.sums[jb] == self.wsum && ranges_equal(self.reference.as_slice(), start, self.buf.as_slice(), pos, bs) {
                    proof {
                        vstd::arithmetic::div_mod::lemma_mod_multiples_basic(jb as int, bs as int);
                    }
                    return Some((start, bs));
                }
                proof {
                    assert(start as int == (list@[q as int] as int) * bs);
                    if match_at(self.reference@, start as int, self.buf@, pos as int, bs as int) {
                        lemma_sum_equal(self.reference@, start as int, self.buf@, pos as int, bs as int);
                    }
                }
                q = q + 1;
            }
            proof {
                if same {
                    assert(cons == k * bs);
                    let rlen = rf.len() as int;
                    assert((k + 1) * bs <= rlen) by (nonlinear_arith)
                        requires cons == k * bs, cons + bs <= fed.len(), fed.len() <= rlen;
                    assert(k < self.n_full) by (nonlinear_arith)
                        requires (k + 1) * bs <= rlen, rlen < self.n_full * bs + bs, 0 < bs;
                    assert(self.buf@.subrange(pos as int, pos + bs) =~= fed.subrange(cons, cons + bs));
                    assert(fed.subrange(cons, cons + bs) =~= rf.subrange(k * bs, k * bs + bs));
                    assert(match_at(rf, k * bs, self.buf@, pos as int, bs as int));
                    lemma_sum_equal(rf, k * bs, self.buf@, pos as int, bs as int);
                    assert(self.sums@[k] == self.wsum);
                    assert(self.buckets@[(self.sums@[k] % (INDEX_BUCKETS as u64)) as int]@.contains(k as usize));
                    let qk = choose|qk: int| 0 <= qk < list@.len() && list@[qk] == k as usize;
                    assert(!match_at(rf, (list@[qk] as int) * bs, self.buf@, pos as int, bs as int));
                }
            }
        }
        proof {
            if same && bs > blen - pos {
                assert(at_end);
                assert(cons < fed.len());
                assert(cons == k * bs);
                let rlen = rf.len() as int;
                assert(k == self.n_full) by (nonlinear_arith)
                    requires k * bs < rlen, rlen < k * bs + bs, self.n_full * bs <= rlen, rlen < self.n_full * bs + bs, 0 < bs;
                assert(self.buf@.subrange(pos as int, blen as int) =~= fed.subrange(cons, fed.len() as int));
                assert(fed.subrange(cons, fed.len() as int) =~= rf.subrange(self.tail_start as int, rlen));
                assert(match_at(rf, self.tail_start as int, self.buf@, pos as int, self.tail_len as int));
            }
        }
        if at_end && 0 < self.tail_len && self.tail_len == blen - pos {
            if ranges_equal(self.reference.as_slice(), self.tail_start, self.buf.as_slice(), pos, self.tail_len) {
                proof {
                    vstd::arithmetic::div_mod::lemma_mod_multiples_basic(self.n_full as int, bs as int);
                }
                return Some((self.tail_start, self.tail_len));
            }
        }
        None
    }

    /// Sends the pending literal bytes as one insertion.
    fn flush_literal(&mut self)
        requires
            old(self).wf_base(),
        ensures
            final(self).wf_core(),
            final(self).literal@.len() == 0,
            final(self).fed == old(self).fed,
            final(self).taken == old(self).taken,
            final(self).k == old(self).k,
            final(self).reference == old(self).reference,
            final(self).block_size == old(self).block_size,
            final(self).buf == old(self).buf,
            final(self).pos == old(self).pos,
            old(self).literal@.len() == 0 ==> final(self).all_ops() == old(self).all_ops(),
            old(self).literal@.len() > 0 ==> final(self).all_ops() == old(self).all_ops().push(DeltaOpView::Insert(old(self).literal@)),
    {
        if self.literal.len() > 0 {
            let ghost before = self.all_ops();
            let ghost rf = self.reference@;
            let lit = self.literal.split_off(0);
            let ghost lv = lit@;
            assert(lv =~= old(self).literal@);
            proof {
                lemma_apply_push(rf, before, DeltaOpView::Insert(lv));
                lemma_push_props(rf.len() as int, before, DeltaOpView::Insert(lv));
            }
            self.emit(DeltaOp::Insert(lit));
            assert(self.all_ops() =~= before.push(DeltaOpView::Insert(lv)));
            assert(self.literal@ =~= Seq::<u8>::empty());
            assert(apply_ops(rf, self.all_ops()) + self.literal@ =~= apply_ops(rf, before) + lv);
        }
    }

    /// Encodes the target byte at `pos`, or the block that starts there.
    fn step(&mut self, at_end: bool)
        requires
            old(self).wf_core(),
            old(self).ident(at_end),
            old(self).pos < old(self).buf@.len(),
            !at_end ==> old(self).pos + old(self).block_size <= old(self).buf@.len(),
        ensures
            final(self).wf_core(),
            final(self).ident(at_end),
            final(self).fed@ == old(self).fed@,
            final(self).taken@ == old(self).taken@,
            final(self).reference@ == old(self).reference@,
            final(self).block_size == old(self).block_size,
            final(self).buf@ == old(self).buf@,
            final(self).pos > old(self).pos,
    {
        let bs = self.block_size;
        let blen = self.buf.len();
        let pos = self.pos;
        let ghost fed = self.fed@;
        let ghost cons = self.consumed();
        let ghost rf = self.reference@;
        let ghost same = self.matching(at_end);
        let ghost k = self.k@;
        assert(self.buf@.len() == self.buf.len());
        match self.find_match(at_end) {
            Some((m_off, m_len)) => {
                self.flush_literal();
                let ghost mid = self.all_ops();
                assert(apply_ops(rf, mid) == fed.subrange(0, cons)) by {
                    assert(apply_ops(rf, mid) + self.literal@ =~= apply_ops(rf, mid));
                }
                let op = DeltaOp::Copy { offset: m_off, length: m_len };
                proof {
                    lemma_apply_push(rf, mid, op@);
                    lemma_push_props(rf.len() as int, mid, op@);
                    assert(rf.subrange(m_off as int, m_off + m_len) =~= self.buf@.subrange(pos as int, pos + m_len));
                    assert(self.buf@.subrange(pos as int, pos + m_len) =~= fed.subrange(cons, cons + m_len));
                    assert(fed.subrange(0, cons) + fed.subrange(cons, cons + m_len) =~= fed.subrange(0, cons + m_len));
                    if same && m_len == bs {
                        assert(cons + bs == (k + 1) * bs) by (nonlinear_arith)
                            requires cons == k * bs;
                    }
                }
                self.emit(op);
                assert(self.all_ops() =~= mid.push(op@));
                proof {
                    if same {
                        self.k = Ghost(k + 1);
                    }
                }
                self.pos = pos + m_len;
                assert(apply_ops(rf, self.all_ops()) + self.literal@ =~= fed.subrange(0, self.consumed()));
                if bs <= blen - self.pos {
                    self.wsum = window_sum(self.buf.as_slice(), self.pos, bs);
                }
            },
            None => {
                proof {
                    if bs < blen - pos {
                        lemma_sum_front(self.buf@, pos as int, pos + bs);
                        lemma_sum_bound(self.buf@, pos as int + 1, pos + bs);
                        lemma_sum_bound(self.buf@, pos as int + 1, pos + bs + 1);
                        assert(sum_range(self.buf@, pos + 1, pos + bs + 1)
                            == sum_range(self.buf@, pos + 1, pos + bs) + self.buf@[pos + bs] as int);
                    }
                }
                if bs < blen - pos {
                    self.wsum = self.wsum - self.buf[pos] as u64 + self.buf[pos + bs] as u64;
                }
                let byte = self.buf[pos];
                self.literal.push(byte);
                assert(byte == fed[cons]);
                assert(fed.subrange(0, cons + 1) =~= fed.subrange(0, cons).push(fed[cons]));
                self.pos = pos + 1;
                assert(apply_ops(rf, self.all_ops()) + self.literal@ =~= fed.subrange(0, self.consumed()));
                if self.literal.len() >= LITERAL_LIMIT {
                    self.flush_literal();
                }
            },
        }
    }

    /// Takes in the next piece of the target and encodes every position
    /// that has a full window; the rest waits for more bytes or the end.
    pub fn push(&mut self, chunk: &[u8])
        requires
            old(self).wf(),
        ensures
            final(self).wf(),
            final(self).fed@ == old(self).fed@ + chunk@,
            final(self).taken@ == old(self).taken@,
            final(self).reference@ == old(self).reference@,
            final(self).block_size == old(self).block_size,
            final(self).buf@.len() - final(self).pos < final(self).block_size,
    {
        let ghost old_fed = self.fed@;
        let ghost old_cons = self.consumed();
        let ghost was_agreeing = self.agrees();
        let mut nb: Vec<u8> = Vec::new();
        let blen = self.buf.len();
        append_range(&mut nb, self.buf.as_slice(), self.pos, blen - self.pos);
        append_range(&mut nb, chunk, 0, chunk.len());
        assert(chunk@.subrange(0, chunk@.len() as int) =~= chunk@);
        self.buf = nb;
        self.pos = 0;
        self.fed = Ghost(old_fed + chunk@);
        proof {
            let f = self.fed@;
            assert(self.buf@ =~= f.subrange(self.base(), f.len() as int));
            assert(self.consumed() == old_cons);
            assert(f.subrange(0, old_cons) =~= old_fed.subrange(0, old_cons));
            if self.agrees() {
                assert(old_fed =~= f.subrange(0, old_fed.len() as int));
                assert(old_fed =~= self.reference@.subrange(0, old_fed.len() as int));
                assert(was_agreeing);
            }
        }
        if self.block_size <= self.buf.len() {
            self.wsum = window_sum(self.buf.as_slice(), 0, self.block_size);
        }
        while self.block_size <= self.buf.len() - self.pos
            invariant
                self.wf(),
                self.fed@ == old_fed + chunk@,
                self.taken@ == old(self).taken@,
                self.reference@ == old(self).reference@,
                self.block_size == old(self).block_size,
            decreases self.buf@.len() - self.pos,
        {
            self.step(false);
        }
    }

    /// Hands out the operations decided so far.
    pub fn take_ops(&mut self) -> (r: Vec<DeltaOp>)
        requires
            old(self).wf(),
        ensures
            final(self).wf(),
            final(self).taken@ == old(self).taken@ + ops_view(r@),
            ops_view(r@) == ops_view(old(self).ready@),
            final(self).ready@.len() == 0,
            final(self).fed@ == old(self).fed@,
            final(self).reference@ == old(self).reference@,
            final(self).block_size == old(self).block_size,
    {
        let r = self.ready.split_off(0);
        assert(r@ =~= old(self).ready@);
        self.taken = Ghost(self.taken@ + ops_view(r@));
        assert(self.all_ops() =~= old(self).all_ops());
        r
    }

    /// Encodes what is left of the target, which is now complete, and
    /// gives the descriptor of the operations not yet handed out. Together
    /// with those handed out, they rebuild the target from the reference.
    /// An empty reference gives literal bytes only; a reference equal to
    /// the target gives copies only.
    pub fn finish(self) -> (r: DeltaDescriptor)
        requires
            self.wf(),
        ensures
            r.block_size == self.block_size,
            encodes(self.reference@, self.fed@, DescriptorView {
                reference_checksum: r.reference_checksum,
                block_size: r.block_size as int,
                ops: self.taken@ + r@.ops,
            }),
            self.reference@.len() == 0 ==> forall|i: int| 0 <= i < (self.taken@ + r@.ops).len()
                ==> is_insert(#[trigger] (self.taken@ + r@.ops)[i]),
            self.fed@ == self.reference@ ==> forall|i: int| 0 <= i < (self.taken@ + r@.ops).len()
                ==> !is_insert(#[trigger] (self.taken@ + r@.ops)[i]),
    {
        let mut e = self;
        let ghost start = e;
        proof {
            if e.fed@ == e.reference@ {
                assert(e.reference@.subrange(0, e.reference@.len() as int) =~= e.reference@);
            }
        }
        while e.pos < e.buf.len()
            invariant
                e.wf_core(),
                e.ident(true),
                e.fed@ == start.fed@,
                e.taken@ == start.taken@,
                e.reference@ == start.reference@,
                e.block_size == start.block_size,
            decreases e.buf@.len() - e.pos,
        {
            e.step(true);
        }
        assert(e.consumed() == e.fed@.len());
        assert(e.fed@.subrange(0, e.fed@.len() as int) =~= e.fed@);
        e.flush_literal();
        assert(apply_ops(e.reference@, e.all_ops()) + e.literal@ =~= apply_ops(e.reference@, e.all_ops()));
        DeltaDescriptor { reference_checksum: e.checksum, block_size: e.block_size, ops: e.ready }
    }
}

/// Computes the operations that rebuild `target` from `reference`, with
/// the target given whole.
pub fn encode(reference: &[u8], target: &[u8], block_size: usize) -> (r: DeltaDescriptor)
    requires
        0 < block_size <= MAX_BLOCK_SIZE,
    ensures
        encodes(reference@, target@, r@),
        r.block_size == block_size,
        reference@.len() == 0 ==> forall|i: int| 0 <= i < r@.ops.len() ==> is_insert(#[trigger] r@.ops[i]),
        reference@ == target@ ==> forall|i: int| 0 <= i < r@.ops.len() ==> !is_insert(#[trigger] r@.ops[i]),
{
    let mut e = DeltaEncoder::new(reference, block_size);
    e.push(target);
    assert(e.fed@ =~= target@);
    let ghost taken = e.taken@;
    let r = e.finish();
    assert(taken + r@.ops =~= r@.ops);
    r
}

/// Appends `src[lo..lo+len]` to `out`.
fn append_range(out: &mut Vec<u8>, src: &[u8], lo: usize, len: usize)
    requires
        lo + len <= src@.len(),
    ensures
        final(out)@ == old(out)@ + src@.subrange(lo as int, lo + len),
{
    assert(src@.len() == src.len());
    let mut i: usize = 0;
    while i < len
        invariant
            i <= len,
            src@.len() <= usize::MAX,
            lo + len <= src@.len(),
            out@ == old(out)@ + src@.subrange(lo as int, lo + i),
        decreases len - i,
    {
        out.push(src[lo + i]);
        assert(src@.subrange(lo as int, lo + i + 1) =~= src@.subrange(lo as int, lo + i).push(src@[lo + i]));
        assert(out@ =~= old(out)@ + src@.subrange(lo as int, lo + i + 1));
        i = i + 1;
    }
}

/// Rebuilds a target by replaying the operations of `d` against
/// `reference`. Fails with a delta-copy error where `reference` is not the
/// reference `d` was computed against (its checksum differs) or an
/// operation reaches past its end.
pub fn decode(reference: &[u8], d: &DeltaDescriptor) -> (r: Result<Vec<u8>, Error>)
    ensures
        r is Ok <==> decoded(reference@, d@) is Some,
        r matches Ok(v) ==> decoded(reference@, d@) == Some(v@),
        r matches Err(e) ==> e@ is DeltaCopy,
{
    let rlen = reference.len();
    if checksum(reference) != d.reference_checksum {
        return Err(Error::DeltaCopy(String::from_str("reference does not match the delta")));
    }
    let ghost all = ops_view(d.ops@);
    let mut out: Vec<u8> = Vec::new();
    let mut i: usize = 0;
    assert(all.subrange(0, 0) =~= Seq::<DeltaOpView>::empty());
    while i < d.ops.len()
        invariant
            i <= d.ops@.len(),
            all == ops_view(d.ops@),
            rlen == reference@.len(),
            ops_valid(rlen as int, all.subrange(0, i as int)),
            out@ == apply_ops(reference@, all.subrange(0, i as int)),
        decreases d.ops@.len() - i,
    {
        let ghost prefix = all.subrange(0, i as int + 1);
        assert(prefix.drop_last() =~= all.subrange(0, i as int));
        assert(prefix.last() == all[i as int]);
        match &d.ops[i] {
            DeltaOp::Copy { offset, length } => {
                if *offset > rlen || *length > rlen - *offset {
                    assert(!op_valid(rlen as int, all[i as int]));
                    return Err(Error::DeltaCopy(String::from_str("copy reaches past the reference")));
                }
                append_range(&mut out, reference, *offset, *length);
            },
            DeltaOp::Insert(bytes) => {
                let b = bytes.as_slice();
                append_range(&mut out, b, 0, b.len());
                assert(b@.subrange(0, b@.len() as int) =~= b@);
            },
        }
        assert(ops_valid(rlen as int, prefix));
        i = i + 1;
    }
    assert(all.subrange(0, all.len() as int) =~= all);
    Ok(out)
}

/// The bytes one operation contributes against `reference`; a delta-copy
/// error where a copy reaches past its end. Replaying the operations of a
/// stream one by one, in order, rebuilds the target.
pub fn decode_op(reference: &[u8], op: &DeltaOp) -> (r: Result<Vec<u8>, Error>)
    ensures
        r is Ok <==> op_valid(reference@.len() as int, op@),
        r matches Ok(v) ==> v@ == op_output(reference@, op@),
        r matches Err(e) ==> e@ is DeltaCopy,
{
    let rlen = reference.len();
    let mut out: Vec<u8> = Vec::new();
    match op {
        DeltaOp::Copy { offset, length } => {
            if *offset > rlen || *length > rlen - *offset {
                return Err(Error::DeltaCopy(String::from_str("copy reaches past the reference")));
            }
            append_range(&mut out, reference, *offset, *length);
        },
        DeltaOp::Insert(bytes) => {
            let b = bytes.as_slice();
            append_range(&mut out, b, 0, b.len());
            assert(b@.subrange(0, b@.len() as int) =~= b@);
        },
    }
    assert(out@ =~= op_output(reference@, op@));
    Ok(out)
}

} // verus!
