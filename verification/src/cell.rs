use vstd::prelude::*;

verus! {

/// One-shot value holder that threads a value discovered while encoding the
/// parameters of a call into the later return-decoding phase of the same
/// call.
///
/// A cell starts out unwritten, is written at most once, and `take` consumes
/// the cell when the value is moved out, so the value cannot be read twice
/// and cannot leak from one call into the next.
pub struct SharedCell<T> {
    slot: Option<T>,
}

impl<T> SharedCell<T> {
    /// The cell holds no value yet.
    pub closed spec fn is_unwritten(&self) -> bool {
        self.slot is None
    }

    /// The cell holds a value.
    pub closed spec fn is_written(&self) -> bool {
        self.slot is Some
    }

    /// The value held; meaningful only when `is_written()`.
    pub closed spec fn value(&self) -> T {
        self.slot->0
    }

    /// A fresh, unwritten cell.
    pub fn new() -> (c: SharedCell<T>)
        ensures
            c.is_unwritten(),
    {
        SharedCell { slot: Option::None }
    }

    /// Stores `t`; each cell is written at most once.
    pub fn write(&mut self, t: T)
        requires
            old(self).is_unwritten(),
        ensures
            final(self).is_written(),
            final(self).value() == t,
    {
        self.slot = Option::Some(t);
    }

    /// Moves the value out, consuming the cell.
    pub fn take(self) -> (t: T)
        requires
            self.is_written(),
        ensures
            t == self.value(),
    {
        self.slot.unwrap()
    }

    /// Borrows the value without consuming the cell.
    pub fn peek(&self) -> (t: &T)
        requires
            self.is_written(),
        ensures
            *t == self.value(),
    {
        self.slot.as_ref().unwrap()
    }

    /// Whether a value has been stored.
    pub fn has_value(&self) -> (b: bool)
        ensures
            b == self.is_written(),
    {
        self.slot.is_some()
    }
}

/// Wraps `t` into a cell that already holds it.
pub fn wrap<T>(t: T) -> (c: SharedCell<T>)
    ensures
        c.is_written(),
        c.value() == t,
{
    SharedCell { slot: Option::Some(t) }
}

/// Copies the byte buffer held by `scoped` into `output`, which the caller
/// has sized to the expected length beforehand.
pub fn copy_slice(scoped: &SharedCell<Vec<u8>>, output: &mut Vec<u8>)
    requires
        scoped.is_written(),
        old(output)@.len() == scoped.value()@.len(),
    ensures
        final(output)@ == scoped.value()@,
{
    let src = scoped.peek();
    output.clear();
    let n = src.len();
    let mut i: usize = 0;
    while i < n
        invariant
            i <= n,
            n == src@.len(),
            src@ == scoped.value()@,
            output@ == src@.subrange(0, i as int),
        decreases n - i,
    {
        output.push(src[i]);
        proof {
            assert(output@ =~= src@.subrange(0, i + 1));
        }
        i = i + 1;
    }
    proof {
        assert(output@ =~= src@);
    }
}

/// Copies the 32-bit value held by `scope` into `num`.
pub fn copy_u32(scope: &SharedCell<u32>, num: &mut u32)
    requires
        scope.is_written(),
    ensures
        *final(num) == scope.value(),
{
    *num = *scope.peek();
}

} // verus!
