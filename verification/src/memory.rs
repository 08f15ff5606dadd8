//! The banked memory map: a fixed flash page 0, a switchable 16KB bank A
//! backed by one of 32 flash pages, and 32KB of RAM.

use vstd::prelude::*;

verus! {

/// Number of flash pages that exist; a power of two.
pub const FLASH_PAGES: u8 = 0x20;

/// Abstract memory state: the flash pages, RAM, and the page mapped into
/// bank A.
#[verifier::ext_equal]
pub struct MemoryView {
    pub flash: Seq<Seq<u8>>,
    pub ram: Seq<u8>,
    pub bank_a_page: nat,
}

impl MemoryView {
    pub open spec fn wf(self) -> bool {
        &&& self.flash.len() == 32
        &&& forall|p: int| 0 <= p < 32 ==> (#[trigger] self.flash[p]).len() == 0x4000
        &&& self.ram.len() == 0x8000
        &&& self.bank_a_page < 32
    }

    /// The byte visible at `addr` through the current mapping.
    pub open spec fn read(self, addr: u16) -> u8 {
        if addr < 0x4000 {
            self.flash[0][addr as int]
        } else if addr < 0x8000 {
            self.flash[self.bank_a_page as int][addr - 0x4000]
        } else {
            self.ram[addr - 0x8000]
        }
    }

    /// The state after an unchecked write of `value` at `addr`.
    pub open spec fn write(self, addr: u16, value: u8) -> MemoryView {
        if addr < 0x4000 {
            MemoryView { flash: self.flash.update(0, self.flash[0].update(addr as int, value)), ..self }
        } else if addr < 0x8000 {
            MemoryView {
                flash: self.flash.update(
                    self.bank_a_page as int,
                    self.flash[self.bank_a_page as int].update(addr - 0x4000, value),
                ),
                ..self
            }
        } else {
            MemoryView { ram: self.ram.update(addr - 0x8000, value), ..self }
        }
    }

    /// A 16-bit little-endian value at `addr`, the high byte wrapping around
    /// the top of the address space.
    pub open spec fn read_u16(self, addr: u16) -> u16 {
        (self.read(addr) + 256 * self.read(((addr + 1) % 0x10000) as u16)) as u16
    }

    /// The state after a 16-bit little-endian write at `addr`, the high byte
    /// wrapping around the top of the address space.
    pub open spec fn write_u16(self, addr: u16, value: u16) -> MemoryView {
        self.write(addr, (value & 0xFF) as u8).write(
            ((addr + 1) % 0x10000) as u16,
            (value >> 8u16) as u8,
        )
    }
}

/// The backing cell an address resolves to under the current mapping: a page
/// number (or -1 for RAM) and an offset. Two addresses can share a cell, since
/// the page backing bank A is also reachable through its fixed window.
pub open spec fn cell_of(v: MemoryView, addr: u16) -> (int, int) {
    if addr < 0x4000 {
        (0, addr as int)
    } else if addr < 0x8000 {
        (v.bank_a_page as int, addr - 0x4000)
    } else {
        (-1, addr - 0x8000)
    }
}

/// A write is visible at exactly the backing cell it lands in: reading any
/// address that resolves to that cell yields the value, every other address
/// is untouched, and the mapping is unchanged.
pub proof fn lemma_write_read(v: MemoryView, addr: u16, value: u8)
    requires
        v.wf(),
    ensures
        v.write(addr, value).wf(),
        v.write(addr, value).bank_a_page == v.bank_a_page,
        v.write(addr, value).read(addr) == value,
        forall|a: u16|
            cell_of(v, a) == cell_of(v, addr) ==> #[trigger] v.write(addr, value).read(a)
                == value,
        forall|a: u16|
            cell_of(v, a) != cell_of(v, addr) ==> #[trigger] v.write(addr, value).read(a)
                == v.read(a),
        addr >= 0x8000 ==> v.write(addr, value).flash == v.flash,
        addr < 0x8000 ==> v.write(addr, value).ram == v.ram,
{
    let w = v.write(addr, value);
    assert forall|a: u16|
        cell_of(v, a) == cell_of(v, addr) implies #[trigger] w.read(a) == value by {
        if addr < 0x4000 {
            assert(v.flash[0].update(addr as int, value).len() == 0x4000);
        } else if addr < 0x8000 {
            assert(v.flash[v.bank_a_page as int].update(addr - 0x4000, value).len() == 0x4000);
        }
    }
    assert forall|a: u16|
        cell_of(v, a) != cell_of(v, addr) implies #[trigger] w.read(a) == v.read(a) by {
        if addr < 0x4000 {
            assert(v.flash[0].update(addr as int, value).len() == 0x4000);
        } else if addr < 0x8000 {
            assert(v.flash[v.bank_a_page as int].update(addr - 0x4000, value).len() == 0x4000);
        }
    }
}

/// A 16-bit write is visible at its two cells: reading the pair back yields
/// the value, every address resolving to neither cell is untouched, and the
/// mapping is unchanged.
pub proof fn lemma_write_u16_read(v: MemoryView, addr: u16, value: u16)
    requires
        v.wf(),
    ensures
        v.write_u16(addr, value).wf(),
        v.write_u16(addr, value).bank_a_page == v.bank_a_page,
        v.write_u16(addr, value).read_u16(addr) == value,
        forall|a: u16|
            cell_of(v, a) != cell_of(v, addr) && cell_of(v, a) != cell_of(
                v,
                ((addr + 1) % 0x10000) as u16,
            ) ==> #[trigger] v.write_u16(addr, value).read(a) == v.read(a),
        addr >= 0x8000 && addr <= 0xFFFE ==> v.write_u16(addr, value).flash == v.flash,
{
    let lo = (value & 0xFF) as u8;
    let hi = (value >> 8u16) as u8;
    let next = ((addr + 1) % 0x10000) as u16;
    let m1 = v.write(addr, lo);
    lemma_write_read(v, addr, lo);
    lemma_write_read(m1, next, hi);
    assert(cell_of(m1, addr) == cell_of(v, addr) && cell_of(m1, next) == cell_of(v, next));
    assert(cell_of(v, addr) != cell_of(v, next));
    assert(v.write_u16(addr, value).read_u16(addr) == lo + 256 * hi);
    assert(lo + 256 * hi == value) by (bit_vector)
        requires
            lo == (value & 0xFF) as u8,
            hi == (value >> 8u16) as u8,
    ;
}

/// Changing the bank-A mapping changes no byte outside the bank-A window:
/// the fixed flash window and RAM read as before.
pub proof fn lemma_bank_change_reads(m: MemoryView, page: nat)
    requires
        m.wf(),
        page < 32,
    ensures
        (MemoryView { bank_a_page: page, ..m }).wf(),
        forall|a: u16|
            a < 0x4000 || a >= 0x8000 ==> #[trigger] (MemoryView {
                bank_a_page: page,
                ..m
            }).read(a) == m.read(a),
{
}

/// True when `start..end` lies within a single window of the memory map, so a
/// slice access can be served from one backing store.
pub open spec fn single_window(start: int, end: int) -> bool {
    &&& start <= end
    &&& {
        ||| (0 <= start && end < 0x4000)
        ||| (0x4000 <= start && end < 0x8000)
        ||| (0x8000 <= start && end <= 0xFFFF)
    }
}

/// Emulator memory.
///
/// Single-byte accesses go through the current mapping; range accesses are
/// refused unless they lie within a single window, since bytes from two
/// windows are not contiguous and must never be silently concatenated.
pub struct Memory {
    flash: Vec<Vec<u8>>,
    ram: Vec<u8>,
    /// Page currently mapped into memory bank A.
    bank_a_page: u8,
}

impl View for Memory {
    type V = MemoryView;

    closed spec fn view(&self) -> MemoryView {
        MemoryView {
            flash: self.flash@.map_values(|p: Vec<u8>| p@),
            ram: self.ram@,
            bank_a_page: self.bank_a_page as nat,
        }
    }
}

impl Memory {
    pub open spec fn wf(self) -> bool {
        self@.wf()
    }

    /// The view's flash pages are the field's pages, elementwise.
    proof fn flash_facts(&self)
        ensures
            self.flash@.len() == self@.flash.len(),
            forall|p: int|
                0 <= p < self.flash@.len() ==> #[trigger] self.flash@[p]@ == self@.flash[p],
    {
    }

    /// Fresh memory: flash erased to zero, RAM filled with a repeating byte
    /// pattern (deliberately not all-zero), page 0 mapped into bank A.
    pub fn new() -> (r: Memory)
        ensures
            r.wf(),
            forall|p: int, i: int|
                0 <= p < 32 && 0 <= i < 0x4000 ==> #[trigger] r@.flash[p][i] == 0u8,
            forall|i: int| 0 <= i < 0x8000 ==> r@.ram[i] == (i % 256) as u8,
            r@.bank_a_page == 0,
    {
        let mut flash: Vec<Vec<u8>> = Vec::new();
        let mut p: usize = 0;
        while p < 32
            invariant
                p <= 32,
                flash@.len() == p,
                forall|q: int|
                    0 <= q < p ==> (#[trigger] flash@[q])@.len() == 0x4000 && forall|i: int|
                        0 <= i < 0x4000 ==> flash@[q]@[i] == 0u8,
            decreases 32 - p,
        {
            let mut page: Vec<u8> = Vec::new();
            let mut i: usize = 0;
            while i < 0x4000
                invariant
                    i <= 0x4000,
                    page@.len() == i,
                    forall|k: int| 0 <= k < i ==> page@[k] == 0u8,
                decreases 0x4000 - i,
            {
                page.push(0);
                i += 1;
            }
            flash.push(page);
            p += 1;
        }
        let mut ram: Vec<u8> = Vec::new();
        let mut i: usize = 0;
        while i < 0x8000
            invariant
                i <= 0x8000,
                ram@.len() == i,
                forall|k: int| 0 <= k < i ==> ram@[k] == (k % 256) as u8,
            decreases 0x8000 - i,
        {
            ram.push((i % 256) as u8);
            i += 1;
        }
        Memory { flash, ram, bank_a_page: 0 }
    }

    /// Copy an image into the start of one flash page; the page's bytes past
    /// the image keep their previous contents.
    pub fn load_flash_page(&mut self, page: u8, contents: &[u8])
        requires
            old(self).wf(),
            page < 32,
            contents@.len() <= 0x4000,
        ensures
            final(self).wf(),
            final(self)@.ram == old(self)@.ram,
            final(self)@.bank_a_page == old(self)@.bank_a_page,
            forall|p: int| 0 <= p < 32 && p != page ==> final(self)@.flash[p] == old(self)@.flash[p],
            forall|i: int|
                0 <= i < contents@.len() ==> (#[trigger] final(self)@.flash[page as int][i])
                    == contents@[i],
            forall|i: int|
                contents@.len() <= i < 0x4000 ==> (#[trigger] final(self)@.flash[page as int][i])
                    == old(self)@.flash[page as int][i],
    {
        proof {
            self.flash_facts();
        }
        let mut target = self.flash.remove(page as usize);
        let mut i: usize = 0;
        while i < contents.len()
            invariant
                contents@.len() <= 0x4000,
                target@.len() == 0x4000,
                i <= contents@.len(),
                forall|k: int| 0 <= k < i ==> target@[k] == contents@[k],
                forall|k: int|
                    i <= k < 0x4000 ==> target@[k] == old(self)@.flash[page as int][k],
            decreases contents@.len() - i,
        {
            let b = contents[i];
            target.set(i, b);
            i += 1;
        }
        self.flash.insert(page as usize, target);
        proof {
            assert(self@.flash =~= old(self)@.flash.update(page as int, self.flash@[page as int]@));
        }
    }

    /// Read the byte at `addr` through the current mapping.
    pub fn read(&self, addr: u16) -> (r: u8)
        requires
            self.wf(),
        ensures
            r == self@.read(addr),
    {
        proof {
            self.flash_facts();
        }
        if addr < 0x4000 {
            self.flash[0][addr as usize]
        } else if addr < 0x8000 {
            self.flash[self.bank_a_page as usize][(addr - 0x4000) as usize]
        } else {
            self.ram[(addr - 0x8000) as usize]
        }
    }

    /// Write the byte at `addr` through the current mapping, unchecked: flash
    /// windows are written too. Guest-visible writes go through [`Self::put`].
    pub fn write(&mut self, addr: u16, value: u8)
        requires
            old(self).wf(),
        ensures
            final(self).wf(),
            final(self)@ =~= old(self)@.write(addr, value),
    {
        proof {
            self.flash_facts();
        }
        if addr < 0x4000 {
            let mut target = self.flash.remove(0);
            target.set(addr as usize, value);
            self.flash.insert(0, target);
            proof {
                self.flash_facts();
                assert(self@.flash[0] =~= old(self)@.flash[0].update(addr as int, value));
                assert(self@.flash =~= old(self)@.write(addr, value).flash);
            }
        } else if addr < 0x8000 {
            let page = self.bank_a_page as usize;
            let mut target = self.flash.remove(page);
            target.set((addr - 0x4000) as usize, value);
            self.flash.insert(page, target);
            proof {
                self.flash_facts();
                assert(self@.flash[page as int] =~= old(self)@.flash[page as int].update(
                    addr - 0x4000,
                    value,
                ));
                assert(self@.flash =~= old(self)@.write(addr, value).flash);
            }
        } else {
            self.ram.set((addr - 0x8000) as usize, value);
            proof {
                self.flash_facts();
            }
        }
    }

    /// Read a 16-bit little-endian value; the high byte comes from the next
    /// address, wrapping around the top of the address space.
    pub fn read_u16(&self, addr: u16) -> (r: u16)
        requires
            self.wf(),
        ensures
            r == self@.read_u16(addr),
    {
        let lo = self.read(addr);
        let hi = self.read(addr.wrapping_add(1));
        proof {
            assert(((lo as u16) | ((hi as u16) << 8u16)) == (lo + 256 * hi) as u16)
                by (bit_vector);
        }
        (lo as u16) | ((hi as u16) << 8u16)
    }

    /// Write a 16-bit little-endian value; the high byte goes to the next
    /// address, wrapping around the top of the address space.
    pub fn write_u16(&mut self, addr: u16, value: u16)
        requires
            old(self).wf(),
        ensures
            final(self).wf(),
            final(self)@ == old(self)@.write_u16(addr, value),
    {
        self.write(addr, (value & 0xFF) as u8);
        self.write(addr.wrapping_add(1), (value >> 8u16) as u8);
    }

    /// Read a byte from memory bank A as if `page` were mapped there.
    ///
    /// Relied on by the paged-call mechanism so a call can target a page other
    /// than the one currently selected.
    pub fn read_paged(&self, page: u8, addr: u16) -> (r: u8)
        requires
            self.wf(),
            page < 32,
            0x4000 <= addr < 0x8000,
        ensures
            r == self@.flash[page as int][addr - 0x4000],
    {
        proof {
            assert(self.flash@.len() == self@.flash.len());
            assert(self.flash@[page as int]@ == self@.flash[page as int]);
        }
        self.flash[page as usize][(addr - 0x4000) as usize]
    }

    /// Read a 16-bit little-endian value like [`Self::read_paged`].
    pub fn read_u16_paged(&self, page: u8, addr: u16) -> (r: u16)
        requires
            self.wf(),
            page < 32,
            0x4000 <= addr < 0x7FFF,
        ensures
            r == self@.flash[page as int][addr - 0x4000] + 256 * self@.flash[page as int][addr
                - 0x4000 + 1],
    {
        let lo = self.read_paged(page, addr);
        let hi = self.read_paged(page, addr + 1);
        proof {
            assert(((lo as u16) | ((hi as u16) << 8u16)) == (lo + 256 * hi) as u16)
                by (bit_vector);
        }
        (lo as u16) | ((hi as u16) << 8u16)
    }

    /// Checked memory write: succeeds exactly when `addr` is in RAM; a write
    /// to a read-only window is refused and changes nothing.
    pub fn put(&mut self, addr: u16, value: u8) -> (r: Result<(), ()>)
        requires
            old(self).wf(),
        ensures
            final(self).wf(),
            r is Ok <==> addr >= 0x8000,
            addr >= 0x8000 ==> final(self)@ =~= old(self)@.write(addr, value),
            addr < 0x8000 ==> final(self)@ == old(self)@,
    {
        if addr >= 0x8000 {
            self.write(addr, value);
            Ok(())
        } else {
            Err(())
        }
    }

    /// Get the current page mapped into bank A.
    pub fn get_bank_a_page(&self) -> (r: u8)
        ensures
            r == self@.bank_a_page,
    {
        self.bank_a_page
    }

    /// Set the page mapped into bank A, modulo the page count.
    pub fn set_bank_a_page(&mut self, value: u8)
        requires
            old(self).wf(),
        ensures
            final(self).wf(),
            final(self)@ =~= (MemoryView { bank_a_page: (value % 32) as nat, ..old(self)@ }),
    {
        proof {
            assert(value & 0x1F == value % 32) by (bit_vector);
        }
        self.bank_a_page = value & (FLASH_PAGES - 1);
    }

    /// Copy out `start..end`, refused unless the range lies within a single
    /// window: bytes of two windows are never silently concatenated.
    pub fn read_range(&self, start: u16, end: u16) -> (r: Option<Vec<u8>>)
        requires
            self.wf(),
        ensures
            r is Some <==> single_window(start as int, end as int),
            r is Some ==> {
                &&& r.unwrap()@.len() == end - start
                &&& forall|i: int|
                    0 <= i < end - start ==> r.unwrap()@[i] == self@.read((start + i) as u16)
            },
    {
        if !(start <= end && (end < 0x4000 || (0x4000 <= start && end < 0x8000) || 0x8000
            <= start)) {
            return None;
        }
        let mut out: Vec<u8> = Vec::new();
        let mut a: u16 = start;
        while a < end
            invariant
                self.wf(),
                start <= a <= end,
                out@.len() == a - start,
                forall|i: int| 0 <= i < a - start ==> out@[i] == self@.read((start + i) as u16),
            decreases end - a,
        {
            out.push(self.read(a));
            a += 1;
        }
        Some(out)
    }

    /// Copy `data` in at `start`, refused unless the written range lies within
    /// a single window: a spanning write must fail, never split.
    pub fn write_range(&mut self, start: u16, data: &[u8]) -> (r: bool)
        requires
            old(self).wf(),
        ensures
            final(self).wf(),
            r <==> single_window(start as int, start + data@.len()),
            r ==> {
                &&& final(self)@.bank_a_page == old(self)@.bank_a_page
                &&& forall|a: u16|
                    start <= a < start + data@.len() ==> #[trigger] final(self)@.read(a) == data@[a
                        - start]
            },
            r && start >= 0x8000 ==> {
                &&& final(self)@.flash == old(self)@.flash
                &&& forall|a: u16|
                    !(start <= a < start + data@.len()) ==> #[trigger] final(self)@.read(a) == old(
                        self,
                    )@.read(a)
            },
            r && start < 0x8000 ==> final(self)@.ram == old(self)@.ram,
            !r ==> final(self)@ == old(self)@,
    {
        let len = data.len();
        if len > 0x10000 {
            return false;
        }
        let end: usize = start as usize + len;
        if !(end < 0x4000 || (0x4000 <= start && end < 0x8000) || (0x8000 <= start as usize && end
            <= 0xFFFF)) {
            return false;
        }
        let mut i: usize = 0;
        while i < len
            invariant
                old(self).wf(),
                self.wf(),
                len == data@.len(),
                i <= len,
                start + len <= 0xFFFF + 1,
                single_window(start as int, start as int + len),
                self@.bank_a_page == old(self)@.bank_a_page,
                forall|a: u16| start <= a < start + i ==> #[trigger] self@.read(a) == data@[a
                    - start],
                start >= 0x8000 ==> self@.flash == old(self)@.flash,
                start >= 0x8000 ==> forall|a: u16|
                    !(start <= a < start + i) ==> #[trigger] self@.read(a) == old(self)@.read(a),
                start < 0x8000 ==> self@.ram == old(self)@.ram,
            decreases len - i,
        {
            let ghost mid = self@;
            let a = (start as usize + i) as u16;
            let b = data[i];
            self.write(a, b);
            proof {
                lemma_write_read(mid, a, b);
                assert(self@ == mid.write(a, b));
            }
            i += 1;
        }
        true
    }
}

} // verus!
