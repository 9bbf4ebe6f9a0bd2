//! The native (CPU) layer: device identity and device-local memory.
//!
//! A `Device` is an execution context with a stable identity; buffers key
//! their per-device copies by it. A `Memory<T>` models one device's copy of
//! a logical array: a fixed number of element slots, each either written or
//! still unwritten (a fresh allocation is raw storage whose contents must
//! not be read back).

use vstd::prelude::*;

verus! {

/// Errors raised by the native memory layer.
#[derive(Debug, Clone, Copy, PartialEq, Eq, Structural)]
pub enum Error {
    /// A host vector's length does not match the memory's element count.
    SizeMismatch,
    /// The memory holds slots that were never written.
    Uninitialized,
}

/// Identity of a native (CPU) execution context. Two handles with the same
/// identifier denote the same logical device; cloning a handle does not
/// create a new device.
#[derive(Debug, Clone, Copy, PartialEq, Eq, Structural)]
pub struct Device {
    id: u128,
}

/// Relies on `uuid::Uuid::new_v4` (and `Uuid::as_u128` to read it out):
/// a freshly generated random 128-bit identifier. Nothing is promised of
/// the value, since it is drawn from a random source.
#[verifier::external_body]
fn fresh_identity() -> u128 {
    uuid::Uuid::new_v4().as_u128()
}

impl Device {
    /// The identifier, as specs see it.
    pub closed spec fn id_spec(self) -> u128 {
        self.id
    }

    /// Create a device with a freshly drawn random identity.
    pub fn new() -> Device {
        Device { id: fresh_identity() }
    }

    /// Create a device handle from a known identifier. Two handles built
    /// from the same identifier refer to the same logical device.
    pub fn with_id(id: u128) -> (d: Device)
        ensures
            d.id_spec() == id,
    {
        Device { id }
    }

    /// Read the identifier back.
    pub fn id(&self) -> (r: u128)
        ensures
            r == self.id_spec(),
    {
        self.id
    }
}

/// One device's storage for a logical array of `T`: a fixed row of slots,
/// each `Some` once written, `None` while still raw.
#[derive(Debug, Clone)]
pub struct Memory<T> {
    data: Vec<Option<T>>,
}

impl<T> View for Memory<T> {
    type V = Seq<Option<T>>;

    closed spec fn view(&self) -> Seq<Option<T>> {
        self.data@
    }
}

/// Every slot has been written.
pub open spec fn fully_init<T>(s: Seq<Option<T>>) -> bool {
    forall|i: int| 0 <= i < s.len() ==> s[i] is Some
}

/// The written values of a fully initialized slot row.
pub open spec fn init_values<T>(s: Seq<Option<T>>) -> Seq<T> {
    Seq::new(s.len(), |i: int| s[i].unwrap())
}

/// The slot row `s` with the values of `v` written over its leading slots;
/// where `v` is longer, the overhang is dropped.
pub open spec fn overwrite_prefix<T>(s: Seq<Option<T>>, v: Seq<T>) -> Seq<Option<T>> {
    Seq::new(
        s.len(),
        |i: int|
            if i < v.len() {
                Some(v[i])
            } else {
                s[i]
            },
    )
}

/// A slot row holding exactly the values of `v`.
pub open spec fn holds_vec<T>(s: Seq<Option<T>>, v: Seq<T>) -> bool {
    s.len() == v.len() && forall|i: int| 0 <= i < s.len() ==> s[i] == Some(v[i])
}

impl<T: Copy> Memory<T> {
    /// Allocate storage for `len` elements; no slot is written yet.
    pub fn allocate(len: usize) -> (m: Memory<T>)
        ensures
            m@.len() == len,
            forall|i: int| 0 <= i < len ==> m@[i] is None,
    {
        let mut data: Vec<Option<T>> = Vec::new();
        let mut k: usize = 0;
        while k < len
            invariant
                k <= len,
                data@.len() == k,
                forall|i: int| 0 <= i < k ==> data@[i] is None,
            decreases len - k,
        {
            data.push(None);
            k = k + 1;
        }
        Memory { data }
    }

    /// Allocate storage already holding the values of `v`.
    pub fn from_vec(v: &Vec<T>) -> (m: Memory<T>)
        ensures
            holds_vec(m@, v@),
    {
        let mut data: Vec<Option<T>> = Vec::new();
        let mut k: usize = 0;
        while k < v.len()
            invariant
                k <= v@.len(),
                data@.len() == k,
                forall|i: int| 0 <= i < k ==> data@[i] == Some(v@[i]),
            decreases v@.len() - k,
        {
            data.push(Some(v[k]));
            k = k + 1;
        }
        Memory { data }
    }

    /// Element count (written or not).
    pub fn len(&self) -> (r: usize)
        ensures
            r == self@.len(),
    {
        self.data.len()
    }

    /// Read one slot back; `None` if it was never written.
    pub fn get(&self, i: usize) -> (r: Option<T>)
        requires
            i < self@.len(),
        ensures
            r == self@[i as int],
    {
        self.data[i]
    }

    /// Write one slot.
    pub fn set(&mut self, i: usize, value: T)
        requires
            i < old(self)@.len(),
        ensures
            final(self)@ == old(self)@.update(i as int, Some(value)),
    {
        let slot = &mut self.data[i];
        *slot = Some(value);
    }

    /// Overwrite the whole row from a host vector of matching length.
    pub fn copy_from(&mut self, v: &Vec<T>) -> (r: Result<(), Error>)
        ensures
            v@.len() == old(self)@.len() ==> r is Ok && holds_vec(final(self)@, v@),
            v@.len() != old(self)@.len() ==> r == Result::<(), Error>::Err(
                Error::SizeMismatch,
            ) && final(self)@ == old(self)@,
    {
        if v.len() != self.data.len() {
            return Err(Error::SizeMismatch);
        }
        let mut k: usize = 0;
        while k < v.len()
            invariant
                k <= v@.len(),
                self@.len() == v@.len(),
                forall|i: int| 0 <= i < k ==> self@[i] == Some(v@[i]),
                forall|i: int| k <= i < self@.len() ==> self@[i] == old(self)@[i],
            decreases v@.len() - k,
        {
            let slot = &mut self.data[k];
            *slot = Some(v[k]);
            k = k + 1;
        }
        Ok(())
    }

    /// Copy the row out into a fresh host vector. Fails if any slot was
    /// never written: raw storage cannot be read back.
    pub fn to_vec(&self) -> (r: Result<Vec<T>, Error>)
        ensures
            fully_init(self@) ==> (r matches Ok(v) && v@ == init_values(self@)),
            !fully_init(self@) ==> r == Result::<Vec<T>, Error>::Err(Error::Uninitialized),
    {
        let mut out: Vec<T> = Vec::new();
        let mut k: usize = 0;
        while k < self.data.len()
            invariant
                k <= self@.len(),
                out@.len() == k,
                forall|i: int| 0 <= i < k ==> self@[i] is Some,
                forall|i: int| 0 <= i < k ==> out@[i] == self@[i].unwrap(),
            decreases self@.len() - k,
        {
            match self.data[k] {
                Some(x) => out.push(x),
                None => {
                    return Err(Error::Uninitialized);
                },
            }
            k = k + 1;
        }
        proof {
            assert(out@ =~= init_values(self@));
        }
        Ok(out)
    }

    /// Write the values of `v` into the leading slots, leaving the rest as
    /// they were; where `v` is longer than the memory, the overhang is
    /// dropped. See [`overwrite_prefix`].
    pub fn write_prefix(&mut self, v: &Vec<T>)
        ensures
            final(self)@ == overwrite_prefix(old(self)@, v@),
    {
        let mut k: usize = 0;
        let n = if v.len() <= self.data.len() {
            v.len()
        } else {
            self.data.len()
        };
        while k < n
            invariant
                n <= v@.len(),
                n <= self@.len(),
                self@.len() == old(self)@.len(),
                k <= n,
                forall|i: int| 0 <= i < k ==> self@[i] == Some(v@[i]),
                forall|i: int| k <= i < self@.len() ==> self@[i] == old(self)@[i],
            decreases n - k,
        {
            let slot = &mut self.data[k];
            *slot = Some(v[k]);
            k = k + 1;
        }
        proof {
            assert(self@ =~= overwrite_prefix(old(self)@, v@));
        }
    }

    /// A second memory holding exactly the same slots, written or raw.
    /// Written out (rather than derived) so the copy is known slot for slot.
    pub fn duplicate(&self) -> (m: Memory<T>)
        ensures
            m@ == self@,
    {
        let mut data: Vec<Option<T>> = Vec::new();
        let mut k: usize = 0;
        while k < self.data.len()
            invariant
                k <= self@.len(),
                data@.len() == k,
                forall|i: int| 0 <= i < k ==> data@[i] == self@[i],
            decreases self@.len() - k,
        {
            data.push(self.data[k]);
            k = k + 1;
        }
        proof {
            assert(data@ =~= self@);
        }
        Memory { data }
    }

    /// Whether every slot has been written.
    pub fn is_initialized(&self) -> (r: bool)
        ensures
            r == fully_init(self@),
    {
        let mut k: usize = 0;
        while k < self.data.len()
            invariant
                k <= self@.len(),
                forall|i: int| 0 <= i < k ==> self@[i] is Some,
            decreases self@.len() - k,
        {
            if self.data[k].is_none() {
                return false;
            }
            k = k + 1;
        }
        true
    }
}

} // verus!
