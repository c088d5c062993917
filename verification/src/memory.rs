//! The address space: 32 general registers, the program counter, and an
//! ordered list of memory segments.
//!
//! Register 0 always reads as zero and is unaffected by writes, enforced at
//! the write boundary.  Address resolution picks the first segment whose
//! half-open range contains the requested address.  Persistent segments come
//! from the loaded image or are the stack region; heap segments are created
//! by [`Memory::malloc`] and removed by [`Memory::free`].

use vstd::prelude::*;

use crate::util::bytes_of_word;
use crate::util::lemma_word_bytes_round_trip;
use crate::util::word_of_bytes;

verus! {

/// Stack region base address.
pub const STACK_BASE: u32 = 2143289328;

/// Stack region size: 4 MiB.
pub const STACK_SIZE: u32 = 0x40_0000;

/// Initial stack pointer: the top of the stack region.
pub const STACK_TOP: u32 = 2147483632;

/// The stack-pointer register index.
pub const SP: u8 = 2;

/// A read or write at an address that no segment covers, or that runs past
/// the end of its segment: a simulated-program bug, fatal for the simulation.
#[derive(Clone, Copy, Debug, PartialEq, Eq, Structural)]
pub struct MemoryAccessError;

/// The mathematical model of one segment: a contiguous byte-addressable
/// region with a virtual start address, its contents, and whether it lives
/// for the whole simulation.
#[verifier::ext_equal]
pub struct SegModel {
    pub start: int,
    pub size: int,
    pub content: Seq<u8>,
    pub persistent: bool,
}

/// The mathematical model of the whole machine state.
#[verifier::ext_equal]
pub struct MemModel {
    pub regs: Seq<u32>,
    pub pc: u32,
    pub segs: Seq<SegModel>,
}

/// A well-formed segment: its contents fill its size exactly and it lies
/// within the 32-bit address space.
pub open spec fn seg_wf(s: SegModel) -> bool {
    &&& s.content.len() == s.size
    &&& 0 <= s.start
    &&& 0 <= s.size
    &&& s.start + s.size <= 0xFFFF_FFFF
}

/// A well-formed machine state: 32 registers with register 0 at zero, and
/// at least one persistent segment among well-formed segments.
pub open spec fn mem_wf(m: MemModel) -> bool {
    &&& m.regs.len() == 32
    &&& m.regs[0] == 0
    &&& m.segs.len() >= 1
    &&& exists|i: int| 0 <= i < m.segs.len() && (#[trigger] m.segs[i]).persistent
    &&& forall|i: int| 0 <= i < m.segs.len() ==> seg_wf(#[trigger] m.segs[i])
}

/// The value of register `i`.
pub open spec fn reg_val(m: MemModel, i: u8) -> u32 {
    m.regs[i as int]
}

/// The state after writing `val` to register `rd`: writes to register 0
/// leave the state unchanged.
pub open spec fn upd_reg(m: MemModel, rd: u8, val: u32) -> MemModel {
    if rd == 0 {
        m
    } else {
        MemModel { regs: m.regs.update(rd as int, val), ..m }
    }
}

/// The state with the program counter redirected to `pc`.
pub open spec fn with_pc(m: MemModel, pc: u32) -> MemModel {
    MemModel { pc, ..m }
}

/// The state with the program counter advanced past one instruction; the
/// counter wraps at the 32-bit boundary.
pub open spec fn pc_plus4(m: MemModel) -> MemModel {
    with_pc(m, m.pc.wrapping_add(4))
}

/// Whether `addr` lies in the half-open range `[start, start + size)`.
pub open spec fn in_seg(s: SegModel, addr: int) -> bool {
    s.start <= addr < s.start + s.size
}

/// The first index at or after `i` whose segment contains `addr`.
pub open spec fn find_seg_from(segs: Seq<SegModel>, addr: int, i: int) -> Option<int>
    decreases segs.len() - i,
{
    if i < 0 || i >= segs.len() {
        None
    } else if in_seg(segs[i], addr) {
        Some(i)
    } else {
        find_seg_from(segs, addr, i + 1)
    }
}

/// The first segment containing `addr`: the linear-scan resolution rule.
pub open spec fn find_seg(segs: Seq<SegModel>, addr: int) -> Option<int> {
    find_seg_from(segs, addr, 0)
}

/// What the linear scan finds: a containing segment, before which no
/// segment contains the address; or a guarantee that none contains it.
pub proof fn lemma_find_seg_from(segs: Seq<SegModel>, addr: int, i: int)
    requires
        0 <= i <= segs.len(),
    ensures
        match find_seg_from(segs, addr, i) {
            Some(j) => i <= j < segs.len() && in_seg(segs[j], addr) && (forall|k: int|
                i <= k < j ==> !#[trigger] in_seg(segs[k], addr)),
            None => forall|k: int| i <= k < segs.len() ==> !#[trigger] in_seg(segs[k], addr),
        },
    decreases segs.len() - i,
{
    if i < segs.len() && !in_seg(segs[i], addr) {
        lemma_find_seg_from(segs, addr, i + 1);
    }
}

/// Whether `len` bytes starting at `addr` lie inside the segment that the
/// linear scan resolves `addr` to.
pub open spec fn can_access(segs: Seq<SegModel>, addr: int, len: int) -> bool {
    match find_seg(segs, addr) {
        Some(i) => addr + len <= segs[i].start + segs[i].size,
        None => false,
    }
}

/// The `len` bytes starting at `addr` in the owning segment.
pub open spec fn bytes_at(segs: Seq<SegModel>, addr: int, len: int) -> Seq<u8>
    recommends
        can_access(segs, addr, len),
{
    match find_seg(segs, addr) {
        Some(i) => segs[i].content.subrange(addr - segs[i].start, addr - segs[i].start + len),
        None => Seq::empty(),
    }
}

/// `orig` with the bytes at offsets `[off, off + data.len())` replaced by
/// `data`; everything else is untouched.
pub open spec fn write_into(orig: Seq<u8>, off: int, data: Seq<u8>) -> Seq<u8> {
    Seq::new(
        orig.len(),
        |k: int|
            if off <= k < off + data.len() {
                data[k - off]
            } else {
                orig[k]
            },
    )
}

/// The segment list after writing `data` at `addr` into the owning segment.
pub open spec fn store_bytes(segs: Seq<SegModel>, addr: int, data: Seq<u8>) -> Seq<SegModel>
    recommends
        can_access(segs, addr, data.len() as int),
{
    match find_seg(segs, addr) {
        Some(i) => segs.update(
            i,
            SegModel { content: write_into(segs[i].content, addr - segs[i].start, data), ..segs[i] },
        ),
        None => segs,
    }
}

/// The linear scan resolves an address by segment starts and sizes alone:
/// what the segments hold does not matter.
proof fn lemma_find_seg_content_irrelevant(
    segs: Seq<SegModel>,
    segs2: Seq<SegModel>,
    addr: int,
    i: int,
)
    requires
        segs2.len() == segs.len(),
        forall|k: int|
            0 <= k < segs.len() ==> (#[trigger] segs2[k]).start == segs[k].start && segs2[k].size
                == segs[k].size,
        0 <= i <= segs.len(),
    ensures
        find_seg_from(segs2, addr, i) == find_seg_from(segs, addr, i),
    decreases segs.len() - i,
{
    if i < segs.len() {
        lemma_find_seg_content_irrelevant(segs, segs2, addr, i + 1);
    }
}

/// A store followed by a load returns the stored word: writing the four
/// little-endian bytes of a value at a writable address and reading four
/// bytes back from the same address yields exactly that value, in every
/// well-formed state.
pub proof fn lemma_store_load_round_trip(m: MemModel, addr: int, v: u32)
    requires
        mem_wf(m),
        can_access(m.segs, addr, 4),
    ensures
        ({
            let segs2 = store_bytes(m.segs, addr, bytes_of_word(v));
            &&& can_access(segs2, addr, 4)
            &&& bytes_at(segs2, addr, 4) == bytes_of_word(v)
            &&& word_of_bytes(bytes_at(segs2, addr, 4)) == v
        }),
{
    lemma_find_seg_from(m.segs, addr, 0);
    let data = bytes_of_word(v);
    let segs2 = store_bytes(m.segs, addr, data);
    lemma_find_seg_content_irrelevant(m.segs, segs2, addr, 0);
    assert(bytes_at(segs2, addr, 4) =~= data);
    lemma_word_bytes_round_trip(v);
}

/// One past the highest address any segment covers; `0` for an empty list.
pub open spec fn max_end(segs: Seq<SegModel>) -> int
    decreases segs.len(),
{
    if segs.len() == 0 {
        0
    } else {
        let rest: int = max_end(segs.drop_last());
        let e: int = segs.last().start + segs.last().size;
        if e > rest {
            e
        } else {
            rest
        }
    }
}

/// `x` rounded up to 4-byte alignment.
pub open spec fn align4(x: int) -> int {
    if x % 4 == 0 {
        x
    } else {
        x + (4 - x % 4)
    }
}

/// Where the next heap segment starts: immediately after the highest
/// address currently in use, rounded up to 4-byte alignment.
pub open spec fn alloc_start(m: MemModel) -> int {
    align4(max_end(m.segs))
}

/// Whether a heap segment of `size` bytes still fits the address space.
pub open spec fn can_alloc(m: MemModel, size: int) -> bool {
    alloc_start(m) + size <= 0xFFFF_FFFF
}

/// The highest covered address of well-formed segments stays within the
/// 32-bit address space.
pub proof fn lemma_max_end_bound(segs: Seq<SegModel>)
    requires
        forall|i: int| 0 <= i < segs.len() ==> seg_wf(#[trigger] segs[i]),
    ensures
        0 <= max_end(segs) <= 0xFFFF_FFFF,
    decreases segs.len(),
{
    if segs.len() > 0 {
        lemma_max_end_bound(segs.drop_last());
    }
}

/// The end of each segment is at most `max_end`.
pub proof fn lemma_max_end_covers(segs: Seq<SegModel>, i: int)
    requires
        0 <= i < segs.len(),
    ensures
        segs[i].start + segs[i].size <= max_end(segs),
    decreases segs.len(),
{
    if i + 1 < segs.len() {
        lemma_max_end_covers(segs.drop_last(), i);
    }
}

/// What allocation guarantees: the address it returns is 4-byte aligned
/// and was not owned before, and afterwards it resolves to the new heap
/// segment, whose bytes all hold the fill value — the allocator never
/// hands out memory the program already owns.
pub proof fn lemma_alloc_fresh(m: MemModel, size: int, init: u8)
    requires
        mem_wf(m),
        can_alloc(m, size),
        0 <= size,
    ensures
        ({
            let a = alloc_start(m);
            let segs2 = m.segs.push(
                SegModel {
                    start: a,
                    size,
                    content: Seq::new(size as nat, |k: int| init),
                    persistent: false,
                },
            );
            &&& a % 4 == 0
            &&& find_seg(m.segs, a) is None
            &&& size > 0 ==> can_access(segs2, a, size) && bytes_at(segs2, a, size) == Seq::new(
                size as nat,
                |k: int| init,
            )
        }),
{
    let a = alloc_start(m);
    let me = max_end(m.segs);
    assert(a % 4 == 0);
    assert(me <= a);
    assert forall|k: int| 0 <= k < m.segs.len() implies !in_seg(#[trigger] m.segs[k], a) by {
        lemma_max_end_covers(m.segs, k);
    }
    lemma_find_seg_from(m.segs, a, 0);
    let segs2 = m.segs.push(
        SegModel {
            start: a,
            size,
            content: Seq::new(size as nat, |k: int| init),
            persistent: false,
        },
    );
    if size > 0 {
        lemma_find_seg_from(segs2, a, 0);
        let last = m.segs.len() as int;
        assert(in_seg(segs2[last], a));
        match find_seg(segs2, a) {
            Some(j) => {
                if j < last {
                    assert(segs2[j] == m.segs[j]);
                    assert(!in_seg(m.segs[j], a));
                }
                assert(j == last);
                assert(bytes_at(segs2, a, size) =~= Seq::new(size as nat, |k: int| init));
            },
            None => {
                assert(false);
            },
        }
    }
}

/// The first index at or after `i` whose segment starts exactly at `addr`.
pub open spec fn find_start_from(segs: Seq<SegModel>, addr: int, i: int) -> Option<int>
    decreases segs.len() - i,
{
    if i < 0 || i >= segs.len() {
        None
    } else if segs[i].start == addr {
        Some(i)
    } else {
        find_start_from(segs, addr, i + 1)
    }
}

/// The first segment starting exactly at `addr`.
pub open spec fn find_start(segs: Seq<SegModel>, addr: int) -> Option<int> {
    find_start_from(segs, addr, 0)
}

/// What releasing the segment at `addr` does: the unique non-persistent
/// segment whose start matches is removed with status 0; any other request
/// (a persistent segment, an unknown address) leaves the state unchanged
/// and reports status 1.
pub open spec fn free_result(m: MemModel, addr: int) -> (MemModel, u8) {
    match find_start(m.segs, addr) {
        Some(i) => if m.segs[i].persistent {
            (m, 1u8)
        } else {
            (MemModel { segs: m.segs.remove(i), ..m }, 0u8)
        },
        None => (m, 1u8),
    }
}

/// A resolved segment descriptor handed in by the loader: a virtual start
/// address, an in-memory size, and initial contents of at most that size
/// (the remainder is zero-filled).
pub struct SegmentImage {
    pub start: u32,
    pub size: u32,
    pub data: Vec<u8>,
}

/// A descriptor that fits the 32-bit address space and whose initial bytes
/// fit its size.
pub open spec fn image_wf(img: SegmentImage) -> bool {
    &&& img.start + img.size <= 0xFFFF_FFFF
    &&& img.data@.len() <= img.size
}

/// The persistent segment a descriptor loads to: its initial bytes followed
/// by zeroes up to its size.
pub open spec fn seg_of_image(img: SegmentImage) -> SegModel {
    SegModel {
        start: img.start as int,
        size: img.size as int,
        content: img.data@ + Seq::new((img.size - img.data@.len()) as nat, |k: int| 0u8),
        persistent: true,
    }
}

/// The fixed stack region: 4 MiB of zeroes at the stack base, persistent.
pub open spec fn stack_seg() -> SegModel {
    SegModel {
        start: STACK_BASE as int,
        size: STACK_SIZE as int,
        content: Seq::new(STACK_SIZE as nat, |k: int| 0u8),
        persistent: true,
    }
}

/// The initial register file: all zeroes but the stack pointer, which
/// starts at the top of the stack region.
pub open spec fn init_regs() -> Seq<u32> {
    Seq::new(
        32,
        |i: int|
            if i == SP as int {
                STACK_TOP
            } else {
                0u32
            },
    )
}

/// The machine state right after loading: the image segments in order,
/// then the stack region; the program counter at the entry address.
pub open spec fn initial_mem(images: Seq<SegmentImage>, entry: u32) -> MemModel {
    MemModel {
        regs: init_regs(),
        pc: entry,
        segs: images.map_values(|img: SegmentImage| seg_of_image(img)).push(stack_seg()),
    }
}

/// One contiguous byte-addressable region of simulated memory.
pub struct MemorySegment {
    start: usize,
    size: usize,
    content: Vec<u8>,
    persistent: bool,
}

impl View for MemorySegment {
    type V = SegModel;

    closed spec fn view(&self) -> SegModel {
        SegModel {
            start: self.start as int,
            size: self.size as int,
            content: self.content@,
            persistent: self.persistent,
        }
    }
}

/// The live machine state: the register file, the program counter, and the
/// ordered segment list.
pub struct Memory {
    segments: Vec<MemorySegment>,
    registers: [u32; 32],
    pc: u32,
}

impl View for Memory {
    type V = MemModel;

    closed spec fn view(&self) -> MemModel {
        MemModel {
            regs: self.registers@,
            pc: self.pc,
            segs: Seq::new(self.segments@.len(), |i: int| self.segments@[i]@),
        }
    }
}

impl Memory {
    /// The machine state is well-formed.
    pub open spec fn wf(&self) -> bool {
        mem_wf(self@)
    }

    /// Builds the machine state from the loader's resolved segment
    /// descriptors and the entry address: each descriptor becomes a
    /// persistent segment (its initial bytes, zero-filled to its size),
    /// the stack region is appended, the registers start at zero with the
    /// stack pointer at the top of the stack, and the program counter
    /// starts at the entry address.
    pub fn new(images: Vec<SegmentImage>, entry: u32) -> (r: Memory)
        requires
            forall|i: int| 0 <= i < images@.len() ==> image_wf(#[trigger] images@[i]),
        ensures
            r.wf(),
            r@ == initial_mem(images@, entry),
    {
        let mut segments: Vec<MemorySegment> = Vec::new();
        let n: usize = images.len();
        let mut i: usize = 0;
        while i < n
            invariant
                forall|k: int| 0 <= k < images@.len() ==> image_wf(#[trigger] images@[k]),
                n == images@.len(),
                0 <= i <= n,
                segments@.len() == i,
                forall|k: int|
                    0 <= k < i ==> (#[trigger] segments@[k])@ == seg_of_image(images@[k]),
            decreases n - i,
        {
            let img = &images[i];
            let sz: usize = img.size as usize;
            let dl: usize = img.data.len();
            assert(image_wf(images@[i as int]));
            let mut content: Vec<u8> = Vec::new();
            let mut j: usize = 0;
            while j < dl
                invariant
                    0 <= j <= dl,
                    dl == img.data@.len(),
                    content@ =~= img.data@.subrange(0, j as int),
                decreases dl - j,
            {
                content.push(img.data[j]);
                proof {
                    assert(content@ =~= img.data@.subrange(0, j as int + 1));
                }
                j = j + 1;
            }
            while j < sz
                invariant
                    dl <= j <= sz,
                    dl == img.data@.len(),
                    content@ =~= img.data@ + Seq::new((j - dl) as nat, |k: int| 0u8),
                decreases sz - j,
            {
                content.push(0);
                proof {
                    assert(content@ =~= img.data@ + Seq::new((j + 1 - dl) as nat, |k: int| 0u8));
                }
                j = j + 1;
            }
            proof {
                if dl == sz {
                    assert(content@ =~= img.data@ + Seq::new((sz - dl) as nat, |k: int| 0u8));
                }
            }
            segments.push(
                MemorySegment { start: img.start as usize, size: sz, content, persistent: true },
            );
            proof {
                assert(segments@[i as int]@ =~~= seg_of_image(images@[i as int]));
            }
            i = i + 1;
        }
        let mut stack_content: Vec<u8> = Vec::new();
        let stack_size: usize = STACK_SIZE as usize;
        let mut j: usize = 0;
        while j < stack_size
            invariant
                0 <= j <= stack_size,
                stack_content@ =~= Seq::new(j as nat, |k: int| 0u8),
            decreases stack_size - j,
        {
            stack_content.push(0);
            proof {
                assert(stack_content@ =~= Seq::new((j + 1) as nat, |k: int| 0u8));
            }
            j = j + 1;
        }
        segments.push(
            MemorySegment {
                start: STACK_BASE as usize,
                size: stack_size,
                content: stack_content,
                persistent: true,
            },
        );
        let mut registers: [u32; 32] = [0u32; 32];
        registers[SP as usize] = STACK_TOP;
        let r = Memory { segments, registers, pc: entry };
        proof {
            assert(r@.regs =~= init_regs());
            assert(r@.segs =~~= images@.map_values(|img: SegmentImage| seg_of_image(img)).push(
                stack_seg(),
            ));
            assert(r@ =~~= initial_mem(images@, entry));
            let ns = r@.segs;
            assert forall|k: int| 0 <= k < ns.len() implies seg_wf(#[trigger] ns[k]) by {
                if k < images@.len() {
                    assert(image_wf(images@[k]));
                    assert(ns[k] == seg_of_image(images@[k]));
                } else {
                    assert(ns[k] == stack_seg());
                }
            }
            assert(ns[ns.len() - 1].persistent);
        }
        r
    }

    /// Writes `val` to register `ind`; a write to register 0 is dropped,
    /// which keeps register 0 hard-wired to zero.
    pub fn set_register(&mut self, val: u32, ind: u8)
        requires
            old(self).wf(),
            ind < 32,
        ensures
            final(self).wf(),
            final(self)@ == upd_reg(old(self)@, ind, val),
    {
        if ind == 0 {
            return ;
        }
        self.registers[ind as usize] = val;
        proof {
            assert(self@ =~~= upd_reg(old(self)@, ind, val));
        }
    }

    /// Reads register `ind`.
    pub fn get_register(&self, ind: u8) -> (r: u32)
        requires
            ind < 32,
        ensures
            r == reg_val(self@, ind),
    {
        self.registers[ind as usize]
    }

    /// Redirects the program counter.
    pub fn set_pc(&mut self, val: u32)
        requires
            old(self).wf(),
        ensures
            final(self).wf(),
            final(self)@ == with_pc(old(self)@, val),
    {
        self.pc = val;
        proof {
            assert(self@ =~~= with_pc(old(self)@, val));
        }
    }

    /// Reads the program counter.
    pub fn get_pc(&self) -> (r: u32)
        ensures
            r == self@.pc,
    {
        self.pc
    }

    /// Advances the program counter past one instruction; the counter wraps
    /// at the 32-bit boundary.
    pub fn incr_pc(&mut self)
        requires
            old(self).wf(),
        ensures
            final(self).wf(),
            final(self)@ == pc_plus4(old(self)@),
    {
        self.pc = self.pc.wrapping_add(4);
        proof {
            assert(self@ =~~= pc_plus4(old(self)@));
        }
    }

    /// Finds the index of the first segment containing `start`, by linear
    /// scan over the segment list.
    fn find_segment(&self, start: usize) -> (r: Option<usize>)
        requires
            self.wf(),
        ensures
            match r {
                Some(i) => i < self@.segs.len() && find_seg(self@.segs, start as int) == Some(
                    i as int,
                ),
                None => find_seg(self@.segs, start as int) is None,
            },
    {
        let n: usize = self.segments.len();
        let mut i: usize = 0;
        while i < n
            invariant
                self.wf(),
                n == self.segments.len(),
                0 <= i <= n,
                find_seg(self@.segs, start as int) == find_seg_from(self@.segs, start as int, i as int),
            decreases n - i,
        {
            let seg = &self.segments[i];
            assert(seg@ == self@.segs[i as int]);
            assert(seg@.start + seg@.size <= 0xFFFF_FFFF);
            if start >= seg.start && start < seg.start + seg.size {
                return Some(i);
            }
            i = i + 1;
        }
        None
    }

    /// Reads `len` bytes starting at `start`.  The owning segment is the
    /// first one whose range contains `start`; if none does, or the range
    /// runs past the segment's end, the access is refused and the state is
    /// untouched.
    pub fn read(&self, start: usize, len: usize) -> (r: Result<Vec<u8>, MemoryAccessError>)
        requires
            self.wf(),
        ensures
            r is Ok <==> can_access(self@.segs, start as int, len as int),
            r matches Ok(bytes) ==> bytes@ == bytes_at(self@.segs, start as int, len as int)
                && bytes@.len() == len,
    {
        let i: usize = match self.find_segment(start) {
            Some(i) => i,
            None => {
                return Err(MemoryAccessError);
            },
        };
        let seg = &self.segments[i];
        proof {
            lemma_find_seg_from(self@.segs, start as int, 0);
            assert(seg@ == self@.segs[i as int]);
            assert(in_seg(seg@, start as int));
        }
        let off: usize = start - seg.start;
        if len > seg.size - off {
            return Err(MemoryAccessError);
        }
        let mut out: Vec<u8> = Vec::new();
        let mut j: usize = 0;
        while j < len
            invariant
                0 <= j <= len,
                seg@ == self@.segs[i as int],
                seg@.content.len() == seg@.size,
                off == start - seg@.start,
                off + len <= seg@.size,
                out@ =~= seg@.content.subrange(off as int, off as int + j as int),
            decreases len - j,
        {
            out.push(seg.content[off + j]);
            proof {
                assert(out@ =~= seg@.content.subrange(off as int, off as int + j as int + 1));
            }
            j = j + 1;
        }
        proof {
            assert(out@ =~= bytes_at(self@.segs, start as int, len as int));
        }
        Ok(out)
    }

    /// Writes the bytes of `data` starting at `start`.  The owning segment
    /// is the first one whose range contains `start`; if none does, or the
    /// range runs past the segment's end, the access is refused and the
    /// state is untouched.  Surrounding memory is untouched either way.
    pub fn read_mut(&mut self, start: usize, data: &[u8]) -> (r: Result<(), MemoryAccessError>)
        requires
            old(self).wf(),
        ensures
            final(self).wf(),
            r is Ok <==> can_access(old(self)@.segs, start as int, data@.len() as int),
            r is Ok ==> final(self)@ == (MemModel {
                segs: store_bytes(old(self)@.segs, start as int, data@),
                ..old(self)@
            }),
            r is Err ==> final(self)@ == old(self)@,
    {
        let i: usize = match self.find_segment(start) {
            Some(i) => i,
            None => {
                return Err(MemoryAccessError);
            },
        };
        proof {
            lemma_find_seg_from(self@.segs, start as int, 0);
            assert(self@.segs[i as int] == self.segments@[i as int]@);
            assert(in_seg(self.segments@[i as int]@, start as int));
        }
        let len: usize = data.len();
        let off: usize = start - self.segments[i].start;
        if len > self.segments[i].size - off {
            return Err(MemoryAccessError);
        }
        let ghost orig = self@;
        let mut seg: MemorySegment = self.segments.remove(i);
        let ghost mid_segs = self@.segs;
        let mut j: usize = 0;
        while j < len
            invariant
                0 <= j <= len,
                len == data@.len(),
                off + len <= seg@.size,
                seg@.content.len() == seg@.size,
                seg@.start == orig.segs[i as int].start,
                seg@.size == orig.segs[i as int].size,
                seg@.persistent == orig.segs[i as int].persistent,
                seg@.content =~= write_into(
                    orig.segs[i as int].content,
                    off as int,
                    data@.subrange(0, j as int),
                ),
            decreases len - j,
        {
            seg.content.set(off + j, data[j]);
            proof {
                assert(seg@.content =~= write_into(
                    orig.segs[i as int].content,
                    off as int,
                    data@.subrange(0, j as int + 1),
                ));
            }
            j = j + 1;
        }
        proof {
            assert(data@.subrange(0, len as int) =~= data@);
        }
        self.segments.insert(i, seg);
        proof {
            assert(self@.segs =~~= store_bytes(orig.segs, start as int, data@));
            assert(self@ =~~= (MemModel {
                segs: store_bytes(orig.segs, start as int, data@),
                ..orig
            }));
            let ns = self@.segs;
            assert(ns =~~= orig.segs.update(i as int, ns[i as int]));
            assert(seg_wf(ns[i as int]));
            assert forall|k: int| 0 <= k < ns.len() implies seg_wf(#[trigger] ns[k]) by {
                if k != i as int {
                    assert(ns[k] == orig.segs[k]);
                }
            }
            let p = choose|k: int|
                0 <= k < orig.segs.len() && (#[trigger] orig.segs[k]).persistent;
            assert(ns[p].persistent);
        }
        Ok(())
    }

    /// Computes one past the highest address any segment covers.
    fn heap_end(&self) -> (r: usize)
        requires
            self.wf(),
        ensures
            r == max_end(self@.segs),
            r <= 0xFFFF_FFFF,
    {
        proof {
            lemma_max_end_bound(self@.segs);
        }
        let n: usize = self.segments.len();
        let mut me: usize = 0;
        let mut i: usize = 0;
        while i < n
            invariant
                self.wf(),
                n == self.segments@.len(),
                0 <= i <= n,
                me == max_end(self@.segs.take(i as int)),
                me <= 0xFFFF_FFFF,
            decreases n - i,
        {
            proof {
                assert(self@.segs.take(i as int + 1).drop_last() =~~= self@.segs.take(i as int));
                assert(self@.segs.take(i as int + 1).last() == self@.segs[i as int]);
                assert(seg_wf(self@.segs[i as int]));
            }
            let seg = &self.segments[i];
            let e: usize = seg.start + seg.size;
            if e > me {
                me = e;
            }
            i = i + 1;
        }
        proof {
            assert(self@.segs.take(n as int) =~~= self@.segs);
        }
        me
    }

    /// Whether a heap segment of `size` bytes still fits below the top of
    /// the 32-bit address space.
    pub fn can_allocate(&self, size: usize) -> (b: bool)
        requires
            self.wf(),
        ensures
            b == can_alloc(self@, size as int),
    {
        let me: usize = self.heap_end();
        let rem: usize = me % 4;
        let a: u64 = if rem == 0 {
            me as u64
        } else {
            me as u64 + (4 - rem as u64)
        };
        if a > 0xFFFF_FFFFu64 {
            return false;
        }
        (size as u64) <= 0xFFFF_FFFFu64 - a
    }

    /// Appends a new heap segment of `size` bytes, filled with `init`,
    /// immediately after the highest address currently in use, rounded up
    /// to 4-byte alignment; returns the segment's start address.
    pub fn malloc(&mut self, size: usize, init: u8) -> (r: u32)
        requires
            old(self).wf(),
            can_alloc(old(self)@, size as int),
        ensures
            final(self).wf(),
            r == alloc_start(old(self)@),
            final(self)@ == (MemModel {
                segs: old(self)@.segs.push(
                    SegModel {
                        start: alloc_start(old(self)@),
                        size: size as int,
                        content: Seq::new(size as nat, |k: int| init),
                        persistent: false,
                    },
                ),
                ..old(self)@
            }),
    {
        let me: usize = self.heap_end();
        let rem: usize = me % 4;
        let start_addr: usize = if rem == 0 {
            me
        } else {
            me + (4 - rem)
        };
        proof {
            assert(start_addr == alloc_start(old(self)@));
        }
        let mut content: Vec<u8> = Vec::new();
        let mut j: usize = 0;
        while j < size
            invariant
                0 <= j <= size,
                content@ =~= Seq::new(j as nat, |k: int| init),
            decreases size - j,
        {
            content.push(init);
            proof {
                assert(content@ =~= Seq::new((j + 1) as nat, |k: int| init));
            }
            j = j + 1;
        }
        let ghost orig = self@;
        self.segments.push(
            MemorySegment { start: start_addr, size, content, persistent: false },
        );
        proof {
            let m2 = MemModel {
                segs: orig.segs.push(
                    SegModel {
                        start: alloc_start(orig),
                        size: size as int,
                        content: Seq::new(size as nat, |k: int| init),
                        persistent: false,
                    },
                ),
                ..orig
            };
            assert(self@ =~~= m2);
            let ns = self@.segs;
            assert forall|k: int| 0 <= k < ns.len() implies seg_wf(#[trigger] ns[k]) by {
                if k < orig.segs.len() {
                    assert(ns[k] == orig.segs[k]);
                }
            }
            let p = choose|k: int|
                0 <= k < orig.segs.len() && (#[trigger] orig.segs[k]).persistent;
            assert(ns[p].persistent);
        }
        start_addr as u32
    }

    /// Releases the heap segment whose start is exactly `start`: status 0 on
    /// success.  A persistent segment or an unknown address leaves the state
    /// unchanged and reports status 1.
    pub fn free(&mut self, start: u32) -> (r: u8)
        requires
            old(self).wf(),
        ensures
            final(self).wf(),
            ({
                let (m2, code) = free_result(old(self)@, start as int);
                final(self)@ == m2 && r == code
            }),
    {
        let n: usize = self.segments.len();
        let mut i: usize = 0;
        while i < n
            invariant
                self.wf(),
                self@ == old(self)@,
                n == self.segments@.len(),
                0 <= i <= n,
                find_start(self@.segs, start as int) == find_start_from(
                    self@.segs,
                    start as int,
                    i as int,
                ),
            decreases n - i,
        {
            if self.segments[i].start == start as usize {
                if self.segments[i].persistent {
                    return 1;
                }
                let ghost orig = self@;
                self.segments.remove(i);
                proof {
                    assert(self@.segs =~~= orig.segs.remove(i as int));
                    assert(self@ =~~= (MemModel { segs: orig.segs.remove(i as int), ..orig }));
                    let ns = self@.segs;
                    assert forall|k: int| 0 <= k < ns.len() implies seg_wf(#[trigger] ns[k]) by {
                        if k < i as int {
                            assert(ns[k] == orig.segs[k]);
                        } else {
                            assert(ns[k] == orig.segs[k + 1]);
                        }
                    }
                    let p = choose|k: int|
                        0 <= k < orig.segs.len() && (#[trigger] orig.segs[k]).persistent;
                    if p < i as int {
                        assert(ns[p].persistent);
                    } else {
                        assert(ns[p - 1].persistent);
                    }
                }
                return 0;
            }
            i = i + 1;
        }
        1
    }

    /// Reads the four instruction bytes at the program counter.
    pub fn get_instr(&self) -> (r: Result<[u8; 4], MemoryAccessError>)
        requires
            self.wf(),
        ensures
            r is Ok <==> can_access(self@.segs, self@.pc as int, 4),
            r matches Ok(b) ==> b@ == bytes_at(self@.segs, self@.pc as int, 4),
    {
        match self.read(self.pc as usize, 4) {
            Ok(v) => {
                proof {
                    assert(can_access(self@.segs, self@.pc as int, 4));
                    lemma_find_seg_from(self@.segs, self@.pc as int, 0);
                    assert(v@.len() == 4);
                }
                let b: [u8; 4] = [v[0], v[1], v[2], v[3]];
                proof {
                    assert(b@ =~= bytes_at(self@.segs, self@.pc as int, 4));
                }
                Ok(b)
            },
            Err(e) => Err(e),
        }
    }
}

} // verus!
