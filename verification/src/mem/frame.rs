//! The boot-time physical frame allocator: it hands out the 4 KiB frames of the
//! available regions of the boot memory map in order, stepping past frames that
//! hold the start or end of the kernel's ELF sections.
use multiboot2::MemoryAreaType;
use vstd::prelude::*;
use x86_64::structures::paging::{PhysFrame, Size4KiB};
use x86_64::PhysAddr;

verus! {

/// Size of a frame in bytes.
pub const FRAME_SIZE: u64 = 4096;

/// Physical addresses must stay below 2^52.
pub const PHYS_ADDR_LIMIT: u64 = 0x10_0000_0000_0000;

/// The multiboot memory-map type number of memory free for the kernel to use.
pub const AVAILABLE_MEMORY_TYPE: u32 = 1;

/// A region of the boot memory map: addresses `start..end` and the multiboot
/// type number of the memory.
#[derive(Debug, Clone, Copy, PartialEq, Eq, Structural)]
pub struct MemoryRegion {
    pub start: u64,
    pub end: u64,
    pub typ: u32,
}

/// An ELF section of the kernel image: addresses `start..end`.
#[derive(Debug, Clone, Copy, PartialEq, Eq, Structural)]
pub struct ElfRegion {
    pub start: u64,
    pub end: u64,
}

/// `MemoryAreaType::from` on a raw type number, then a test for the
/// `Available` variant: type 1 is available memory, every other number is not.
#[verifier::external_body]
fn area_type_available(typ: u32) -> (r: bool)
    ensures
        r == (typ == AVAILABLE_MEMORY_TYPE),
{
    matches!(MemoryAreaType::from(typ), MemoryAreaType::Available)
}

/// `PhysFrame::<Size4KiB>::containing_address(PhysAddr::new(addr))`, given as
/// its start address: `addr` rounded down to a multiple of 4096.
/// `PhysAddr::new` panics at or above 2^52, which `requires` leaves out.
#[verifier::external_body]
fn frame_containing(addr: u64) -> (r: u64)
    requires
        addr < PHYS_ADDR_LIMIT,
    ensures
        r == frame_start_of(addr as int),
{
    PhysFrame::<Size4KiB>::containing_address(PhysAddr::new(addr)).start_address().as_u64()
}

/// The end of a frame, `frame.start_address() + frame.size()`: its start plus
/// 4096. The addition panics when the sum reaches 2^52, which `requires` leaves out.
#[verifier::external_body]
fn frame_end(frame_start: u64) -> (r: u64)
    requires
        frame_start % FRAME_SIZE == 0,
        frame_start + FRAME_SIZE < PHYS_ADDR_LIMIT,
    ensures
        r == frame_start + FRAME_SIZE,
{
    let frame = PhysFrame::<Size4KiB>::containing_address(PhysAddr::new(frame_start));
    (frame.start_address() + frame.size()).as_u64()
}

/// The start of the frame holding `addr`.
pub open spec fn frame_start_of(addr: int) -> int {
    addr - addr % (FRAME_SIZE as int)
}

/// How many addresses `start, start + 4096, ...` lie below `end`.
pub open spec fn region_frame_count(r: MemoryRegion) -> nat {
    if r.end > r.start {
        ((r.end - r.start + FRAME_SIZE - 1) / (FRAME_SIZE as int)) as nat
    } else {
        0
    }
}

/// The addresses `start, start + 4096, ...` that lie below `end`, in order.
pub open spec fn region_addresses(r: MemoryRegion) -> Seq<u64> {
    Seq::new(region_frame_count(r), |k: int| (r.start + k * (FRAME_SIZE as int)) as u64)
}

/// The addresses the allocator walks: those of each available region, in
/// memory-map order.
pub open spec fn usable_addresses(regions: Seq<MemoryRegion>) -> Seq<u64>
    decreases regions.len(),
{
    if regions.len() == 0 {
        Seq::empty()
    } else {
        usable_addresses(regions.drop_last()) + (if regions.last().typ == AVAILABLE_MEMORY_TYPE {
            region_addresses(regions.last())
        } else {
            Seq::empty()
        })
    }
}

/// The frames the allocator draws from: the frame holding each usable address.
pub open spec fn usable_frames(regions: Seq<MemoryRegion>) -> Seq<u64> {
    let addrs = usable_addresses(regions);
    Seq::new(addrs.len(), |m: int| frame_start_of(addrs[m] as int) as u64)
}

/// Both ends of the section are valid physical addresses.
pub open spec fn section_addressable(s: ElfRegion) -> bool {
    s.start < PHYS_ADDR_LIMIT && s.end < PHYS_ADDR_LIMIT
}

/// The index of the last usable address that an allocation looks at: the walk
/// goes through the addresses up to the count of used frames, and, while it
/// steps past the current ELF section, one address beyond each frame it checks.
pub open spec fn last_visited(s: FrameAllocatorState) -> int {
    let frames = usable_frames(s.regions);
    let i = s.next;
    if i >= frames.len() {
        frames.len() - 1
    } else {
        match s.section {
            None => i as int,
            Some(sec) => {
                let t = first_clear(frames, i, sec);
                if t == i {
                    i as int
                } else if t + 1 < frames.len() {
                    t + 1int
                } else {
                    frames.len() - 1
                }
            },
        }
    }
}

/// The index of the last frame whose end an allocation computes while it
/// steps past the current ELF section.
pub open spec fn last_end_checked(s: FrameAllocatorState, sec: ElfRegion) -> int {
    let frames = usable_frames(s.regions);
    let t = first_clear(frames, s.next, sec);
    if t < frames.len() {
        t as int
    } else {
        frames.len() - 1
    }
}

/// Whether an allocation can go ahead without a panic: every usable address it
/// looks at, the current section when it checks one, and the end of every frame
/// it checks against that section are valid physical addresses; and the count
/// of used frames and the number of usable frames leave room in a `usize`.
pub open spec fn allocation_ready(s: FrameAllocatorState) -> bool {
    let addrs = usable_addresses(s.regions);
    let frames = usable_frames(s.regions);
    &&& s.next < usize::MAX
    &&& frames.len() <= usize::MAX
    &&& forall|j: int| 0 <= j <= last_visited(s) ==> #[trigger] addrs[j] < PHYS_ADDR_LIMIT
    &&& (s.next < frames.len() && s.section is Some) ==> {
        let sec = s.section->Some_0;
        &&& section_addressable(sec)
        &&& forall|j: int|
            s.next <= j <= last_end_checked(s, sec) ==> #[trigger] frames[j] + FRAME_SIZE
                < PHYS_ADDR_LIMIT
    }
}

/// Whether the frame starting at `frame` holds the first or the last address of
/// the section.
pub open spec fn frame_holds_section_end(frame: u64, s: ElfRegion) -> bool {
    (frame <= s.start && s.start < frame + FRAME_SIZE) || (frame <= s.end && s.end < frame
        + FRAME_SIZE)
}

/// The first index from `i` on whose frame holds neither end of the section, or
/// the number of frames when there is none.
pub open spec fn first_clear(frames: Seq<u64>, i: nat, s: ElfRegion) -> nat
    decreases frames.len() - i,
{
    if i >= frames.len() {
        frames.len()
    } else if !frame_holds_section_end(frames[i as int], s) {
        i
    } else {
        first_clear(frames, i + 1, s)
    }
}

/// What the allocator holds: the memory map, how many frames it has used up,
/// the ELF section it is stepping around and the sections still to come.
pub struct FrameAllocatorState {
    pub regions: Seq<MemoryRegion>,
    pub next: nat,
    pub section: Option<ElfRegion>,
    pub pending: Seq<ElfRegion>,
}

/// The state with `next` set and the following ELF section taken up.
pub open spec fn advanced(s: FrameAllocatorState, next: nat) -> FrameAllocatorState {
    FrameAllocatorState {
        next,
        section: if s.pending.len() > 0 {
            Some(s.pending[0])
        } else {
            None
        },
        pending: if s.pending.len() > 0 {
            s.pending.drop_first()
        } else {
            s.pending
        },
        ..s
    }
}

/// One allocation: the frame handed out (if any) and the state after it.
///
/// Let `frames` be the usable frames and `i` the count used up.
/// - With no frame at `i`, nothing is handed out and the count moves on by one.
/// - With no current ELF section, frame `i` is handed out and the count moves on by one.
/// - Otherwise, with `t` the first index from `i` whose frame holds neither end of
///   the section: when `t` is `i`, frame `i` is handed out; otherwise the frame
///   after `t` is handed out, and the count moves past it. Either way the next
///   ELF section is taken up. When no such frame exists, nothing is handed out,
///   the section stays, and the count ends one short of the number of frames.
pub open spec fn allocation(s: FrameAllocatorState) -> (Option<u64>, FrameAllocatorState) {
    let frames = usable_frames(s.regions);
    let i = s.next;
    if i >= frames.len() {
        (None, FrameAllocatorState { next: i + 1, ..s })
    } else {
        match s.section {
            None => (Some(frames[i as int]), FrameAllocatorState { next: i + 1, ..s }),
            Some(sec) => {
                let t = first_clear(frames, i, sec);
                if t == i {
                    (Some(frames[i as int]), advanced(s, i + 1))
                } else if t + 1 < frames.len() {
                    (Some(frames[t + 1int]), advanced(s, t + 2))
                } else {
                    (None, FrameAllocatorState { next: (frames.len() - 1) as nat, ..s })
                }
            },
        }
    }
}

/// The addresses of the first `j` regions come first among the addresses of all of them.
proof fn lemma_usable_addresses_prefix(regions: Seq<MemoryRegion>, j: int)
    requires
        0 <= j <= regions.len(),
    ensures
        usable_addresses(regions.take(j)).len() <= usable_addresses(regions).len(),
        forall|m: int|
            0 <= m < usable_addresses(regions.take(j)).len() ==> #[trigger] usable_addresses(
                regions.take(j),
            )[m] == usable_addresses(regions)[m],
    decreases regions.len(),
{
    if j == regions.len() {
        assert(regions.take(j) =~= regions);
    } else {
        let shorter = regions.drop_last();
        assert(regions.take(j) =~= shorter.take(j));
        lemma_usable_addresses_prefix(shorter, j);
    }
}

proof fn lemma_usable_addresses_step(regions: Seq<MemoryRegion>, j: int)
    requires
        0 <= j < regions.len(),
    ensures
        usable_addresses(regions.take(j + 1)) == usable_addresses(regions.take(j)) + (
        if regions[j].typ == AVAILABLE_MEMORY_TYPE {
            region_addresses(regions[j])
        } else {
            Seq::empty()
        }),
{
    assert(regions.take(j + 1).drop_last() =~= regions.take(j));
}

proof fn lemma_region_frame_in_range(start: int, end: int, k: int)
    requires
        0 <= start < end,
        0 <= k < (end - start + FRAME_SIZE - 1) / (FRAME_SIZE as int),
    ensures
        start + k * (FRAME_SIZE as int) < end,
{
    assert(start + k * 4096 < end) by (nonlinear_arith)
        requires
            0 <= start < end,
            0 <= k < (end - start + 4095) / 4096,
    ;
}

/// Every usable frame starts at a multiple of 4096, at or below the address
/// it was found from.
pub proof fn lemma_usable_frames_aligned(regions: Seq<MemoryRegion>)
    ensures
        usable_frames(regions).len() == usable_addresses(regions).len(),
        forall|m: int|
            0 <= m < usable_frames(regions).len() ==> #[trigger] usable_frames(regions)[m]
                % FRAME_SIZE == 0 && usable_frames(regions)[m] <= usable_addresses(regions)[m],
{
    let a = usable_addresses(regions);
    let f = usable_frames(regions);
    assert forall|m: int| 0 <= m < f.len() implies #[trigger] f[m] % FRAME_SIZE == 0 && f[m]
        <= a[m] by {
        let addr = a[m] as int;
        assert(frame_start_of(addr) % 4096 == 0 && 0 <= frame_start_of(addr) <= addr)
            by (nonlinear_arith)
            requires
                addr >= 0,
        ;
    }
}

/// The first clear index from `i` lies between `i` and the number of frames.
proof fn lemma_first_clear_bounds(frames: Seq<u64>, i: nat, s: ElfRegion)
    requires
        i <= frames.len(),
    ensures
        i <= first_clear(frames, i, s) <= frames.len(),
    decreases frames.len() - i,
{
    if i < frames.len() {
        lemma_first_clear_bounds(frames, i + 1, s);
    }
}

/// Walking the frames from `i` up to `k` without meeting a clear one: the first
/// clear frame lies at or beyond `k`, or there is none.
proof fn lemma_first_clear_at_least(frames: Seq<u64>, i: nat, k: nat, s: ElfRegion)
    requires
        i <= k,
        i <= frames.len(),
        forall|m: int| i <= m < k && m < frames.len() ==> frame_holds_section_end(#[trigger] frames[m], s),
    ensures
        first_clear(frames, i, s) >= k || first_clear(frames, i, s) == frames.len(),
    decreases frames.len() - i,
{
    lemma_first_clear_bounds(frames, i, s);
    if i < frames.len() && i < k {
        lemma_first_clear_at_least(frames, i + 1, k, s);
    }
}

/// When the frames from `i` up to `c` hold an end of the section and frame `c`
/// does not, `c` is the first clear index.
proof fn lemma_first_clear_is(frames: Seq<u64>, i: nat, c: nat, s: ElfRegion)
    requires
        i <= c < frames.len(),
        forall|m: int| i <= m < c ==> frame_holds_section_end(#[trigger] frames[m], s),
        !frame_holds_section_end(frames[c as int], s),
    ensures
        first_clear(frames, i, s) == c,
    decreases c - i,
{
    if i < c {
        lemma_first_clear_is(frames, i + 1, c, s);
    }
}

/// The number of addresses `start, start + 4096, ...` below `end`.
fn region_count(r: &MemoryRegion) -> (c: u64)
    ensures
        c == region_frame_count(*r),
{
    if r.end > r.start {
        let d: u64 = r.end - r.start;
        let whole: u64 = d / FRAME_SIZE;
        let part: u64 = if d % FRAME_SIZE != 0 {
            1
        } else {
            0
        };
        assert(whole + part == (d + 4095) / 4096) by (nonlinear_arith)
            requires
                whole == d / 4096,
                part == (if d % 4096 != 0 {
                    1int
                } else {
                    0int
                }),
        ;
        whole + part
    } else {
        0
    }
}

/// When some frame is still unused, the allocation looks at least at the
/// address of that frame, and at no address past the last one.
proof fn lemma_last_visited_bounds(s: FrameAllocatorState)
    ensures
        last_visited(s) < usable_frames(s.regions).len(),
        s.next < usable_frames(s.regions).len() ==> s.next <= last_visited(s),
{
    let frames = usable_frames(s.regions);
    if s.next < frames.len() {
        if let Some(sec) = s.section {
            lemma_first_clear_bounds(frames, s.next, sec);
        }
    }
}

/// A source of 4 KiB physical frames, each given by its start address.
pub trait FrameSource {
    /// What the source holds, as a model.
    type State;

    /// The source's current state.
    spec fn state(&self) -> Self::State;

    /// Whether the next frame can be taken without a panic.
    spec fn can_allocate(s: Self::State) -> bool;

    /// The frame the next allocation hands out, if any, and the state after it.
    spec fn next_frame(s: Self::State) -> (Option<u64>, Self::State);

    /// Hands out the next frame, if any.
    fn allocate_frame(&mut self) -> (r: Option<u64>)
        requires
            Self::can_allocate(old(self).state()),
        ensures
            (r, final(self).state()) == Self::next_frame(old(self).state()),
    ;
}

/// Hands out 4 KiB frames of the available memory, stepping past the kernel's
/// ELF sections.
pub struct BootInfoFrameAllocator {
    mem_map: Vec<MemoryRegion>,
    next: usize,
    elf_section: Option<ElfRegion>,
    elf_sections: Vec<ElfRegion>,
    elf_cursor: usize,
}

impl View for BootInfoFrameAllocator {
    type V = FrameAllocatorState;

    closed spec fn view(&self) -> FrameAllocatorState {
        FrameAllocatorState {
            regions: self.mem_map@,
            next: self.next as nat,
            section: self.elf_section,
            pending: self.elf_sections@.skip(self.elf_cursor as int),
        }
    }
}

impl BootInfoFrameAllocator {
    #[verifier::type_invariant]
    spec fn cursor_inv(&self) -> bool {
        self.elf_cursor <= self.elf_sections@.len()
    }

    /// A new allocator over the memory map, with the first ELF section current
    /// and the others to come in order.
    pub fn init(mem_map: Vec<MemoryRegion>, elf_sections: Vec<ElfRegion>) -> (r: Self)
        ensures
            r@.regions == mem_map@,
            r@.next == 0,
            r@.section == (if elf_sections@.len() > 0 {
                Some(elf_sections@[0])
            } else {
                None::<ElfRegion>
            }),
            r@.pending == (if elf_sections@.len() > 0 {
                elf_sections@.drop_first()
            } else {
                elf_sections@
            }),
    {
        let first = if elf_sections.len() > 0 {
            Some(elf_sections[0])
        } else {
            None
        };
        let cursor: usize = if elf_sections.len() > 0 {
            1
        } else {
            0
        };
        let r = BootInfoFrameAllocator {
            mem_map,
            next: 0,
            elf_section: first,
            elf_sections,
            elf_cursor: cursor,
        };
        assert(r.elf_sections@.skip(0) =~= r.elf_sections@);
        assert(r.elf_sections@.skip(1) =~= r.elf_sections@.drop_first());
        r
    }

    /// The next ELF section, like the section iterator's `next`.
    fn next_elf_section(&mut self) -> (r: Option<ElfRegion>)
        ensures
            final(self)@ == (FrameAllocatorState {
                pending: if old(self)@.pending.len() > 0 {
                    old(self)@.pending.drop_first()
                } else {
                    old(self)@.pending
                },
                ..old(self)@
            }),
            r == (if old(self)@.pending.len() > 0 {
                Some(old(self)@.pending[0])
            } else {
                None::<ElfRegion>
            }),
    {
        proof {
            use_type_invariant(&*self);
        }
        if self.elf_cursor < self.elf_sections.len() {
            let s = self.elf_sections[self.elf_cursor];
            let ghost before = self.elf_sections@.skip(self.elf_cursor as int);
            self.elf_cursor = self.elf_cursor + 1;
            assert(self.elf_sections@.skip(self.elf_cursor as int) =~= before.drop_first());
            Some(s)
        } else {
            None
        }
    }

    /// Usable address `n`, if there are that many.
    fn usable_address(&self, n: usize) -> (r: Option<u64>)
        ensures
            r == (if n < usable_addresses(self@.regions).len() {
                Some(usable_addresses(self@.regions)[n as int])
            } else {
                None::<u64>
            }),
    {
        let ghost regions = self.mem_map@;
        let mut rem: u64 = n as u64;
        let mut j: usize = 0;
        while j < self.mem_map.len()
            invariant
                j <= regions.len(),
                regions == self.mem_map@,
                rem + usable_addresses(regions.take(j as int)).len() == n,
            decreases regions.len() - j,
        {
            proof {
                lemma_usable_addresses_step(regions, j as int);
            }
            let r = self.mem_map[j];
            if area_type_available(r.typ) {
                let count = region_count(&r);
                if rem < count {
                    proof {
                        lemma_region_frame_in_range(r.start as int, r.end as int, rem as int);
                        lemma_usable_addresses_prefix(regions, j + 1);
                        assert(usable_addresses(regions.take(j + 1))[n as int] == region_addresses(
                            r,
                        )[rem as int]);
                    }
                    return Some(r.start + rem * FRAME_SIZE);
                }
                rem = rem - count;
            }
            j = j + 1;
        }
        assert(regions.take(j as int) =~= regions);
        None
    }

    /// Frame `n` of the usable frames, if there are that many.
    fn usable_frame(&self, n: usize) -> (r: Option<u64>)
        requires
            n < usable_addresses(self@.regions).len() ==> usable_addresses(self@.regions)[n as int]
                < PHYS_ADDR_LIMIT,
        ensures
            r == (if n < usable_frames(self@.regions).len() {
                Some(usable_frames(self@.regions)[n as int])
            } else {
                None::<u64>
            }),
    {
        match self.usable_address(n) {
            Some(addr) => Some(frame_containing(addr)),
            None => None,
        }
    }

    /// Whether the number of usable frames fits in a `usize`.
    fn frame_count_fits(&self) -> (r: bool)
        ensures
            r == (usable_frames(self@.regions).len() <= usize::MAX),
    {
        let ghost regions = self.mem_map@;
        let mut total: usize = 0;
        let mut j: usize = 0;
        while j < self.mem_map.len()
            invariant
                j <= regions.len(),
                regions == self.mem_map@,
                total == usable_addresses(regions.take(j as int)).len(),
            decreases regions.len() - j,
        {
            proof {
                lemma_usable_addresses_step(regions, j as int);
                lemma_usable_addresses_prefix(regions, j + 1);
            }
            let r = self.mem_map[j];
            if area_type_available(r.typ) {
                let count = region_count(&r);
                if count as usize as u64 != count || total > usize::MAX - count as usize {
                    proof {
                        lemma_usable_addresses_prefix(regions, regions.len() as int);
                        assert(regions.take(regions.len() as int) =~= regions);
                    }
                    return false;
                }
                total = total + count as usize;
            }
            j = j + 1;
        }
        assert(regions.take(j as int) =~= regions);
        true
    }

    /// Whether the next allocation can go ahead: walks the usable addresses and
    /// frames that the allocation would look at, and checks that each of them,
    /// and the current section, lie at valid physical addresses.
    pub fn ready_to_allocate(&self) -> (r: bool)
        ensures
            r == allocation_ready(self@),
    {
        let ghost s = self@;
        let ghost addrs = usable_addresses(s.regions);
        let ghost frames = usable_frames(s.regions);
        proof {
            lemma_usable_frames_aligned(s.regions);
        }
        if self.next == usize::MAX {
            return false;
        }
        if !self.frame_count_fits() {
            return false;
        }
        let i = self.next;
        let mut m: usize = 0;
        while m <= i
            invariant
                m <= i + 1,
                i == s.next,
                i < usize::MAX,
                s == self@,
                addrs == usable_addresses(s.regions),
                frames == usable_frames(s.regions),
                frames.len() == addrs.len(),
                frames.len() <= usize::MAX,
                forall|j: int| 0 <= j < m ==> j < addrs.len() && #[trigger] addrs[j] < PHYS_ADDR_LIMIT,
            decreases i + 1 - m,
        {
            match self.usable_address(m) {
                None => {
                    return true;
                },
                Some(a) => {
                    if a >= PHYS_ADDR_LIMIT {
                        proof {
                            lemma_last_visited_bounds(s);
                            assert(addrs[m as int] >= PHYS_ADDR_LIMIT);
                        }
                        return false;
                    }
                },
            }
            m = m + 1;
        }
        assert(addrs[i as int] < PHYS_ADDR_LIMIT && i < addrs.len());
        let section = match self.elf_section {
            None => {
                return true;
            },
            Some(sec) => sec,
        };
        if section.start >= PHYS_ADDR_LIMIT || section.end >= PHYS_ADDR_LIMIT {
            return false;
        }
        let mut pos: usize = i;
        loop
            invariant
                i == s.next,
                s == self@,
                s.section == Some(section),
                section_addressable(section),
                addrs == usable_addresses(s.regions),
                frames == usable_frames(s.regions),
                frames.len() == addrs.len(),
                frames.len() <= usize::MAX,
                forall|m: int| 0 <= m < frames.len() ==> #[trigger] frames[m] % FRAME_SIZE == 0,
                i <= pos < frames.len(),
                forall|j: int| 0 <= j <= pos ==> #[trigger] addrs[j] < PHYS_ADDR_LIMIT,
                forall|j: int|
                    i <= j < pos ==> frame_holds_section_end(#[trigger] frames[j], section)
                        && frames[j] + FRAME_SIZE < PHYS_ADDR_LIMIT,
            decreases frames.len() - pos,
        {
            proof {
                lemma_first_clear_at_least(frames, i as nat, pos as nat, section);
                lemma_first_clear_bounds(frames, i as nat, section);
            }
            let frame = match self.usable_frame(pos) {
                Some(f) => f,
                None => {
                    return false;
                },
            };
            if frame >= PHYS_ADDR_LIMIT - FRAME_SIZE {
                return false;
            }
            let holds = (frame <= section.start && section.start < frame + FRAME_SIZE) || (frame
                <= section.end && section.end < frame + FRAME_SIZE);
            if !holds {
                proof {
                    lemma_first_clear_is(frames, i as nat, pos as nat, section);
                }
                if pos == i {
                    return true;
                }
                return match self.usable_address(pos + 1) {
                    None => true,
                    Some(a) => a < PHYS_ADDR_LIMIT,
                };
            }
            proof {
                lemma_first_clear_at_least(frames, i as nat, (pos + 1) as nat, section);
            }
            match self.usable_address(pos + 1) {
                None => {
                    return true;
                },
                Some(a) => {
                    if a >= PHYS_ADDR_LIMIT {
                        return false;
                    }
                },
            }
            pos = pos + 1;
        }
    }
}

impl FrameSource for BootInfoFrameAllocator {
    type State = FrameAllocatorState;

    open spec fn state(&self) -> FrameAllocatorState {
        self@
    }

    open spec fn can_allocate(s: FrameAllocatorState) -> bool {
        allocation_ready(s)
    }

    open spec fn next_frame(s: FrameAllocatorState) -> (Option<u64>, FrameAllocatorState) {
        allocation(s)
    }

    /// Hands out the next frame, if any; see [`allocation`] for exactly which.
    fn allocate_frame(&mut self) -> (r: Option<u64>)
    {
        proof {
            use_type_invariant(&*self);
            lemma_usable_frames_aligned(self@.regions);
            lemma_last_visited_bounds(self@);
        }
        let ghost frames = usable_frames(self@.regions);
        let ghost addrs = usable_addresses(self@.regions);
        let ghost i = self.next as nat;
        let ghost start = self@;
        let mut new_frame = self.usable_frame(self.next);
        if let Some(section) = self.elf_section {
            if let Some(first) = new_frame {
                proof {
                    lemma_first_clear_bounds(frames, i, section);
                }
                let mut frame = first;
                let mut pos: usize = self.next;
                let mut end = frame_end(frame);
                let mut range_start = frame;
                let mut range_end = end;
                let ghost mut c: nat = i;
                while (range_start <= section.start && section.start < range_end) || (range_start
                    <= section.end && section.end < range_end)
                    invariant
                        frames == usable_frames(self@.regions),
                        addrs == usable_addresses(self@.regions),
                        frames.len() == addrs.len(),
                        forall|m: int| 0 <= m < frames.len() ==> #[trigger] frames[m] % FRAME_SIZE == 0,
                        allocation_ready(start),
                        self@ == (FrameAllocatorState { next: (i + (pos - i)) as nat, ..start }),
                        start.next == i,
                        start == old(self)@,
                        start.section == Some(section),
                        self.elf_cursor <= self.elf_sections@.len(),
                        i <= c <= pos < frames.len(),
                        frames.len() <= usize::MAX,
                        c == pos || (c == i && pos == i) || c + 1 == pos,
                        c == pos ==> c == i,
                        frame == frames[pos as int],
                        range_start == frames[c as int],
                        range_end == frames[c as int] + FRAME_SIZE,
                        forall|m: int| i <= m < c ==> frame_holds_section_end(#[trigger] frames[m], section),
                        pos > i ==> frame_holds_section_end(frames[i as int], section),
                    decreases frames.len() - pos,
                {
                    proof {
                        assert(frame_holds_section_end(frames[c as int], section));
                        lemma_first_clear_at_least(frames, i, (c + 1) as nat, section);
                        lemma_first_clear_bounds(frames, i, section);
                    }
                    end = frame_end(frame);
                    range_start = frame;
                    range_end = end;
                    proof {
                        c = pos as nat;
                    }
                    pos = pos + 1;
                    frame = match self.usable_frame(pos) {
                        Some(f) => f,
                        None => {
                            proof {
                                lemma_first_clear_at_least(frames, i, c, section);
                                lemma_first_clear_at_least(frames, i, (i + 1) as nat, section);
                            }
                            return None;
                        },
                    };
                    self.next = self.next + 1;
                }
                proof {
                    lemma_first_clear_is(frames, i, c, section);
                }
                new_frame = Some(frame);
                let following = self.next_elf_section();
                proof {
                    use_type_invariant(&*self);
                }
                self.elf_section = following;
            }
        }
        self.next = self.next + 1;
        new_frame
    }
}

/// Every allocation hands out a usable frame whose index lies between the old
/// and the new count of used frames; the count never goes back and the memory
/// map stays as it is.
pub proof fn lemma_allocation_progress(s: FrameAllocatorState)
    ensures
        allocation(s).1.next >= s.next,
        allocation(s).1.regions == s.regions,
        allocation(s).0 matches Some(f) ==> exists|j: int|
            s.next <= j < allocation(s).1.next && j < usable_frames(s.regions).len()
                && #[trigger] usable_frames(s.regions)[j] == f,
{
    let frames = usable_frames(s.regions);
    if s.next < frames.len() {
        if let Some(sec) = s.section {
            lemma_first_clear_bounds(frames, s.next, sec);
            let t = first_clear(frames, s.next, sec);
            if t == s.next {
                assert(frames[s.next as int] == frames[s.next as int]);
            } else if t + 1 < frames.len() {
                assert(frames[t + 1int] == frames[t + 1int]);
            }
        } else {
            assert(frames[s.next as int] == frames[s.next as int]);
        }
    }
}

/// The state after `n` allocations in a row.
pub open spec fn after_allocations(s: FrameAllocatorState, n: nat) -> FrameAllocatorState
    decreases n,
{
    if n == 0 {
        s
    } else {
        allocation(after_allocations(s, (n - 1) as nat)).1
    }
}

/// What allocation number `n` hands out, counting from 0.
pub open spec fn nth_allocation(s: FrameAllocatorState, n: nat) -> Option<u64> {
    allocation(after_allocations(s, n)).0
}

/// Over any number of allocations the count of used frames never goes back and
/// the memory map stays as it is.
pub proof fn lemma_allocations_monotone(s: FrameAllocatorState, m: nat, n: nat)
    requires
        m <= n,
    ensures
        after_allocations(s, m).next <= after_allocations(s, n).next,
        after_allocations(s, n).regions == s.regions,
    decreases n,
{
    if n > 0 {
        let prev = after_allocations(s, (n - 1) as nat);
        lemma_allocation_progress(prev);
        if m < n {
            lemma_allocations_monotone(s, m, (n - 1) as nat);
        } else {
            lemma_allocations_monotone(s, (n - 1) as nat, (n - 1) as nat);
        }
    }
}

/// No frame is handed out twice: any two allocations, however far apart, hand
/// out different frames, as long as no frame occurs twice among the usable
/// frames of the memory map.
pub proof fn lemma_no_frame_handed_out_twice(s: FrameAllocatorState, m1: nat, m2: nat)
    requires
        usable_frames(s.regions).no_duplicates(),
        m1 < m2,
        nth_allocation(s, m1) is Some,
        nth_allocation(s, m2) is Some,
    ensures
        nth_allocation(s, m1) != nth_allocation(s, m2),
{
    let s1 = after_allocations(s, m1);
    let s2 = after_allocations(s, m2);
    lemma_allocations_monotone(s, m1, m1);
    lemma_allocations_monotone(s, m1 + 1, m2);
    lemma_allocation_progress(s1);
    lemma_allocation_progress(s2);
    assert(after_allocations(s, m1 + 1) == allocation(s1).1);
    let frames = usable_frames(s.regions);
    let f1 = nth_allocation(s, m1)->Some_0;
    let f2 = nth_allocation(s, m2)->Some_0;
    let j1 = choose|j: int|
        s1.next <= j < allocation(s1).1.next && j < frames.len() && #[trigger] frames[j] == f1;
    let j2 = choose|j: int|
        s2.next <= j < allocation(s2).1.next && j < frames.len() && #[trigger] frames[j] == f2;
    assert(j1 < j2);
}

/// With no ELF section to step past, allocation number `k` hands out usable
/// frame `next + k`, or nothing once the usable frames are used up.
pub proof fn lemma_allocations_without_sections(s: FrameAllocatorState, k: nat)
    requires
        s.section is None,
    ensures
        after_allocations(s, k) == (FrameAllocatorState { next: s.next + k, ..s }),
        nth_allocation(s, k) == (if s.next + k < usable_frames(s.regions).len() {
            Some(usable_frames(s.regions)[s.next + k as int])
        } else {
            None::<u64>
        }),
    decreases k,
{
    if k > 0 {
        lemma_allocations_without_sections(s, (k - 1) as nat);
    }
}

/// With no ELF section to step past and every usable address a valid physical
/// address, each of the next `k + 1` allocations can go ahead, as long as the
/// count of used frames stays below `usize::MAX`.
pub proof fn lemma_ready_without_sections(s: FrameAllocatorState, k: nat)
    requires
        s.section is None,
        s.next + k < usize::MAX,
        usable_frames(s.regions).len() <= usize::MAX,
        forall|j: int|
            0 <= j < usable_addresses(s.regions).len() ==> #[trigger] usable_addresses(s.regions)[j]
                < PHYS_ADDR_LIMIT,
    ensures
        forall|j: nat| j <= k ==> #[trigger] allocation_ready(after_allocations(s, j)),
{
    assert forall|j: nat| j <= k implies #[trigger] allocation_ready(after_allocations(s, j)) by {
        lemma_allocations_without_sections(s, j);
        lemma_last_visited_bounds(after_allocations(s, j));
        lemma_usable_frames_aligned(s.regions);
    }
}

/// Every frame the allocator hands out when it is ready starts at a multiple
/// of 4096 and is a valid physical address.
pub proof fn lemma_handed_out_frames_are_valid(s: FrameAllocatorState)
    requires
        allocation_ready(s),
    ensures
        allocation(s).0 matches Some(f) ==> f % FRAME_SIZE == 0 && f < PHYS_ADDR_LIMIT,
{
    let frames = usable_frames(s.regions);
    let addrs = usable_addresses(s.regions);
    lemma_usable_frames_aligned(s.regions);
    lemma_last_visited_bounds(s);
    if s.next < frames.len() {
        if let Some(sec) = s.section {
            lemma_first_clear_bounds(frames, s.next, sec);
            let t = first_clear(frames, s.next, sec);
            if t != s.next && t + 1 < frames.len() {
                assert(addrs[t + 1int] < PHYS_ADDR_LIMIT);
            }
        }
        assert(addrs[s.next as int] < PHYS_ADDR_LIMIT);
    }
}

} // verus!
