//! A typed view over a model of a peripheral's register window.
//!
//! The window is a fixed number of bytes held in ordinary memory; it records
//! the peripheral's base address without ever dereferencing it. Every
//! access names a 32-bit register by its byte offset inside the declared
//! layout; nothing outside that range is ever read or written.
use vstd::prelude::*;

verus! {

/// The little-endian 32-bit value held by the four bytes at `off`.
pub open spec fn le_u32(s: Seq<u8>, off: int) -> u32 {
    (s[off] as u32) | ((s[off + 1] as u32) << 8u32) | ((s[off + 2] as u32) << 16u32)
        | ((s[off + 3] as u32) << 24u32)
}

/// The window after a 32-bit store of `v` at `off`: the four bytes of the
/// register, lowest first, and nothing else.
pub open spec fn stored_u32(s: Seq<u8>, off: int, v: u32) -> Seq<u8> {
    s.update(off, (v & 0xff) as u8).update(off + 1, ((v >> 8u32) & 0xff) as u8).update(
        off + 2,
        ((v >> 16u32) & 0xff) as u8,
    ).update(off + 3, ((v >> 24u32) & 0xff) as u8)
}

/// A register offset that the layout of a window of `size` bytes declares:
/// word aligned and wholly inside the window.
pub open spec fn declared(size: nat, off: int) -> bool {
    0 <= off && off % 4 == 0 && off + 4 <= size
}

/// A model of one peripheral's register block, standing for the block at a
/// fixed base address.
pub struct MMIODerefWrapper {
    start_addr: usize,
    window: Vec<u8>,
    /// Every store made through this view, oldest first.
    history: Ghost<Seq<(usize, u32)>>,
}

impl MMIODerefWrapper {
    /// The contents of the register window.
    pub closed spec fn bytes(&self) -> Seq<u8> {
        self.window@
    }

    /// The stores made through this view so far, in program order, each as
    /// (register offset, value).
    pub closed spec fn stores(&self) -> Seq<(usize, u32)> {
        self.history@
    }

    pub closed spec fn base(&self) -> usize {
        self.start_addr
    }

    /// The size in bytes of the declared layout.
    pub open spec fn size(&self) -> nat {
        self.bytes().len()
    }

    /// The value of the register at `off`.
    pub open spec fn reg(&self, off: int) -> u32 {
        le_u32(self.bytes(), off)
    }

    /// A view of `layout_size` bytes at `start_addr`, all registers reading
    /// zero.
    pub fn new(start_addr: usize, layout_size: usize) -> (r: Self)
        ensures
            r.base() == start_addr,
            r.size() == layout_size,
            r.stores() == Seq::<(usize, u32)>::empty(),
            forall|i: int| 0 <= i < layout_size ==> #[trigger] r.bytes()[i] == 0u8,
    {
        let mut window: Vec<u8> = Vec::new();
        let mut i: usize = 0;
        while i < layout_size
            invariant
                i <= layout_size,
                window@.len() == i,
                forall|j: int| 0 <= j < i ==> #[trigger] window@[j] == 0u8,
            decreases layout_size - i,
        {
            window.push(0u8);
            i = i + 1;
        }
        MMIODerefWrapper { start_addr, window, history: Ghost(Seq::empty()) }
    }

    pub fn start_addr(&self) -> (r: usize)
        ensures
            r == self.base(),
    {
        self.start_addr
    }

    pub fn layout_size(&self) -> (r: usize)
        ensures
            r == self.size(),
    {
        self.window.len()
    }

    /// Loads the register at `off`.
    pub fn read(&self, off: usize) -> (r: u32)
        requires
            declared(self.size(), off as int),
        ensures
            r == self.reg(off as int),
    {
        (self.window[off] as u32) | ((self.window[off + 1] as u32) << 8u32) | ((self.window[off
            + 2] as u32) << 16u32) | ((self.window[off + 3] as u32) << 24u32)
    }

    /// Stores `v` into the register at `off`.
    pub fn write(&mut self, off: usize, v: u32)
        requires
            declared(old(self).size(), off as int),
        ensures
            final(self).bytes() == stored_u32(old(self).bytes(), off as int, v),
            final(self).base() == old(self).base(),
            final(self).stores() == old(self).stores().push((off, v)),
    {
        self.history = Ghost(self.history@.push((off, v)));
        self.window.set(off, (v & 0xff) as u8);
        self.window.set(off + 1, ((v >> 8u32) & 0xff) as u8);
        self.window.set(off + 2, ((v >> 16u32) & 0xff) as u8);
        self.window.set(off + 3, ((v >> 24u32) & 0xff) as u8);
    }
}

/// A store into a declared register changes only that register's four bytes,
/// keeps the window's size, and a load of the same register then returns the
/// stored value.
pub proof fn lemma_store_within_layout(s: Seq<u8>, off: int, v: u32)
    requires
        declared(s.len(), off),
    ensures
        stored_u32(s, off, v).len() == s.len(),
        forall|i: int|
            0 <= i < s.len() && !(off <= i < off + 4) ==> #[trigger] stored_u32(s, off, v)[i]
                == s[i],
        le_u32(stored_u32(s, off, v), off) == v,
{
    let t = stored_u32(s, off, v);
    let b0 = t[off];
    let b1 = t[off + 1];
    let b2 = t[off + 2];
    let b3 = t[off + 3];
    assert(b0 == (v & 0xff) as u8);
    assert(b3 == ((v >> 24u32) & 0xff) as u8);
    assert((b0 as u32) | ((b1 as u32) << 8u32) | ((b2 as u32) << 16u32) | ((b3 as u32) << 24u32)
        == v) by (bit_vector)
        requires
            b0 == (v & 0xff) as u8,
            b1 == ((v >> 8u32) & 0xff) as u8,
            b2 == ((v >> 16u32) & 0xff) as u8,
            b3 == ((v >> 24u32) & 0xff) as u8,
    ;
}

} // verus!
verus! {

/// A store into one declared register leaves every other declared register
/// that it does not overlap as it was.
pub proof fn lemma_store_keeps_other(s: Seq<u8>, off: int, v: u32, other: int)
    requires
        declared(s.len(), off),
        declared(s.len(), other),
        other != off,
    ensures
        le_u32(stored_u32(s, off, v), other) == le_u32(s, other),
{
    lemma_store_within_layout(s, off, v);
    let t = stored_u32(s, off, v);
    assert(t[other] == s[other]);
    assert(t[other + 1] == s[other + 1]);
    assert(t[other + 2] == s[other + 2]);
    assert(t[other + 3] == s[other + 3]);
}

} // verus!

verus! {

/// A load from a declared register depends on that register's four bytes
/// alone: windows that agree on them load the same value, whatever the
/// rest of the window holds.
pub proof fn lemma_load_within_layout(s: Seq<u8>, t: Seq<u8>, off: int)
    requires
        declared(s.len(), off),
        t.len() == s.len(),
        forall|i: int| off <= i < off + 4 ==> #[trigger] s[i] == t[i],
    ensures
        le_u32(s, off) == le_u32(t, off),
{
    assert(s[off] == t[off]);
    assert(s[off + 1] == t[off + 1]);
    assert(s[off + 2] == t[off + 2]);
    assert(s[off + 3] == t[off + 3]);
}

} // verus!
