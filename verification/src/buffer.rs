//! Logical buffers: per-device copies of one array, a latest-device marker
//! naming the authoritative copy, and synchronization that moves data
//! between devices on demand — all under a vault, so that one holder at a
//! time reads and writes the buffer across a whole chain of steps.
//!
//! The per-device copies are kept as a list of (device, memory) entries with
//! distinct keys; specs see them as the map [`BufState::copies`]. Every
//! synchronization is also written as a spec function over [`BufState`], and
//! the round-trip, idempotence and invariant laws are proved over those
//! ([`lemma_buffer_round_trip`], [`lemma_buffer_sync_idempotent`],
//! [`lemma_buffer_wf_preserved`]).

use crate::native;
use crate::vault::{Vault, VaultAcquire, VaultAcquired};
use vstd::prelude::*;

verus! {

/// A device a buffer can hold a copy on. Native (CPU) devices are the one
/// kind today; further device kinds extend this enum.
#[derive(Debug, Clone, Copy, PartialEq, Eq, Structural)]
pub enum BufferDevice {
    /// A native (CPU) device, named by its identity.
    Native(native::Device),
}

/// One device's memory for a buffer, tagged by device kind.
#[derive(Debug)]
pub enum BufferMemory<T> {
    /// Memory on a native (CPU) device.
    Native(native::Memory<T>),
}

/// Errors surfaced by the buffer layer.
#[derive(Debug, Clone, Copy, PartialEq, Eq, Structural)]
pub enum Error {
    /// A device-memory copy failed.
    Native(native::Error),
    /// A non-future lock acquisition failed.
    InvalidLock,
    /// The raw buffer handle is no longer usable.
    InvalidRawBuffer,
    /// The requested device has no copy in this buffer.
    InvalidDevice,
    /// Broadcasting failed the shape rules.
    InvalidBroadcast,
}

/// The slot row a buffer memory holds, regardless of device kind.
pub open spec fn mem_view<T>(m: BufferMemory<T>) -> Seq<Option<T>> {
    match m {
        BufferMemory::Native(n) => n@,
    }
}

/// The copies of an entry list, as a map from device to slot row. A later
/// entry with the same key would shadow an earlier one; the buffer keeps
/// its keys distinct.
pub open spec fn entries_map<T>(s: Seq<(BufferDevice, BufferMemory<T>)>) -> Map<
    BufferDevice,
    Seq<Option<T>>,
>
    decreases s.len(),
{
    if s.len() == 0 {
        Map::empty()
    } else {
        entries_map(s.drop_last()).insert(s.last().0, mem_view(s.last().1))
    }
}

/// No two entries name the same device.
pub open spec fn keys_distinct<T>(s: Seq<(BufferDevice, BufferMemory<T>)>) -> bool {
    forall|i: int, j: int| 0 <= i < j < s.len() ==> s[i].0 != s[j].0
}

/// A device is in the map exactly when some entry names it.
pub proof fn lemma_entries_map_contains<T>(s: Seq<(BufferDevice, BufferMemory<T>)>, d: BufferDevice)
    ensures
        entries_map(s).contains_key(d) <==> exists|i: int| 0 <= i < s.len() && s[i].0 == d,
    decreases s.len(),
{
    if s.len() > 0 {
        lemma_entries_map_contains(s.drop_last(), d);
        if s.last().0 == d {
            assert(s[s.len() - 1].0 == d);
        } else if entries_map(s).contains_key(d) {
            let i = choose|i: int| 0 <= i < s.drop_last().len() && s.drop_last()[i].0 == d;
            assert(s[i].0 == d);
        } else {
            assert forall|i: int| 0 <= i < s.len() implies s[i].0 != d by {
                if i < s.len() - 1 {
                    assert(s.drop_last()[i].0 == s[i].0);
                }
            }
        }
    }
}

/// With distinct keys, each entry's device maps to that entry's memory.
pub proof fn lemma_entries_map_index<T>(s: Seq<(BufferDevice, BufferMemory<T>)>, i: int)
    requires
        keys_distinct(s),
        0 <= i < s.len(),
    ensures
        entries_map(s).contains_key(s[i].0),
        entries_map(s)[s[i].0] == mem_view(s[i].1),
    decreases s.len(),
{
    if i == s.len() - 1 {
    } else {
        lemma_entries_map_index(s.drop_last(), i);
        assert(s.drop_last()[i] == s[i]);
        assert(s[s.len() - 1].0 != s[i].0);
    }
}

/// With distinct keys, replacing the memory of entry `i` updates exactly
/// that entry's key in the map.
pub proof fn lemma_entries_map_update<T>(
    s: Seq<(BufferDevice, BufferMemory<T>)>,
    i: int,
    m: BufferMemory<T>,
)
    requires
        keys_distinct(s),
        0 <= i < s.len(),
    ensures
        entries_map(s.update(i, (s[i].0, m))) == entries_map(s).insert(s[i].0, mem_view(m)),
    decreases s.len(),
{
    let s2 = s.update(i, (s[i].0, m));
    if i == s.len() - 1 {
        assert(s2.drop_last() =~= s.drop_last());
        assert(entries_map(s2) =~= entries_map(s).insert(s[i].0, mem_view(m)));
    } else {
        lemma_entries_map_update(s.drop_last(), i, m);
        assert(s2.drop_last() =~= s.drop_last().update(i, (s[i].0, m)));
        assert(s2.last() == s.last());
        assert(s.drop_last()[i] == s[i]);
        assert(s[s.len() - 1].0 != s[i].0);
        assert(entries_map(s2) =~= entries_map(s).insert(s[i].0, mem_view(m)));
    }
}

/// Replacing the memory of an entry keeps the keys distinct.
pub proof fn lemma_keys_distinct_update<T>(
    s: Seq<(BufferDevice, BufferMemory<T>)>,
    i: int,
    m: BufferMemory<T>,
)
    requires
        keys_distinct(s),
        0 <= i < s.len(),
    ensures
        keys_distinct(s.update(i, (s[i].0, m))),
{
    let s2 = s.update(i, (s[i].0, m));
    assert forall|a: int, b: int| 0 <= a < b < s2.len() implies s2[a].0 != s2[b].0 by {
        assert(s2[a].0 == s[a].0);
        assert(s2[b].0 == s[b].0);
    }
}

/// Appending an entry inserts its key into the map.
pub proof fn lemma_entries_map_push<T>(
    s: Seq<(BufferDevice, BufferMemory<T>)>,
    d: BufferDevice,
    m: BufferMemory<T>,
)
    ensures
        entries_map(s.push((d, m))) == entries_map(s).insert(d, mem_view(m)),
{
    assert(s.push((d, m)).drop_last() =~= s);
}

/// A buffer's state, as specs see it: the element count, the per-device
/// slot rows, and the device holding the authoritative copy.
pub ghost struct BufState<T> {
    /// Logical element count.
    pub size: nat,
    /// Each device's slot row.
    pub copies: Map<BufferDevice, Seq<Option<T>>>,
    /// The device whose copy is authoritative.
    pub latest: BufferDevice,
}

/// The buffer data-model invariant: the latest device has a copy, and every
/// copy has exactly the logical element count.
pub open spec fn buf_wf<T>(s: BufState<T>) -> bool {
    &&& s.copies.contains_key(s.latest)
    &&& forall|d: BufferDevice| s.copies.contains_key(d) ==> (#[trigger] s.copies[d]).len()
        == s.size
}

/// The slot row holding the values of `v`, every slot written.
pub open spec fn some_all<T>(v: Seq<T>) -> Seq<Option<T>> {
    Seq::new(v.len(), |i: int| Some(v[i]))
}

/// Overwriting the authoritative copy from a host vector: the latest
/// device's slot row becomes the vector's values. Fails without a change if
/// the latest device lost its copy, or if the lengths do not match.
pub open spec fn sync_from_vec_spec<T>(s: BufState<T>, v: Seq<T>) -> (BufState<T>, Result<
    (),
    Error,
>) {
    if !s.copies.contains_key(s.latest) {
        (s, Err(Error::InvalidDevice))
    } else if v.len() != s.size {
        (s, Err(Error::Native(native::Error::SizeMismatch)))
    } else {
        (
            BufState { size: s.size, copies: s.copies.insert(s.latest, some_all(v)), latest: s.latest },
            Ok(()),
        )
    }
}

/// Reading the authoritative copy out into a host vector: the latest
/// device's written values, unchanged buffer. Fails if the latest device
/// lost its copy, or if any of its slots is still raw.
pub open spec fn sync_to_vec_spec<T>(s: BufState<T>) -> Result<Seq<T>, Error> {
    if !s.copies.contains_key(s.latest) {
        Err(Error::InvalidDevice)
    } else if !native::fully_init(s.copies[s.latest]) {
        Err(Error::Native(native::Error::Uninitialized))
    } else {
        Ok(native::init_values(s.copies[s.latest]))
    }
}

/// Synchronizing to a device: a no-op when it already holds the
/// authoritative copy; otherwise the latest copy's slots are materialized
/// under the target device (the source copy is retained), and the target
/// becomes the latest device. Fails without a change if the latest device
/// lost its copy.
pub open spec fn sync_spec<T>(s: BufState<T>, dev: BufferDevice) -> (BufState<T>, Result<
    (),
    Error,
>) {
    if dev == s.latest {
        (s, Ok(()))
    } else if !s.copies.contains_key(s.latest) {
        (s, Err(Error::InvalidDevice))
    } else {
        (
            BufState {
                size: s.size,
                copies: s.copies.insert(dev, s.copies[s.latest]),
                latest: dev,
            },
            Ok(()),
        )
    }
}

/// The raw buffer: what lives inside a logical buffer's vault.
#[derive(Debug)]
pub struct RawBuffer<T> {
    size: usize,
    copies: Vec<(BufferDevice, BufferMemory<T>)>,
    latest_device: BufferDevice,
}

impl<T: Copy> RawBuffer<T> {
    /// The entry list behind the copies map.
    pub closed spec fn entries(self) -> Seq<(BufferDevice, BufferMemory<T>)> {
        self.copies@
    }

    /// Representation invariant: no device appears twice in the entry list.
    pub closed spec fn inv(self) -> bool {
        keys_distinct(self.copies@)
    }

    /// The buffer state, as specs see it.
    pub closed spec fn state(self) -> BufState<T> {
        BufState {
            size: self.size as nat,
            copies: entries_map(self.copies@),
            latest: self.latest_device,
        }
    }

    /// Allocate a raw buffer of `size` elements with one (still raw) copy
    /// on `dev`, which becomes the latest device.
    pub fn new(dev: BufferDevice, size: usize) -> (r: Result<RawBuffer<T>, Error>)
        ensures
            r matches Ok(b) && b.inv() && b.state() == (BufState {
                size: size as nat,
                copies: Map::<BufferDevice, Seq<Option<T>>>::empty().insert(
                    dev,
                    Seq::new(size as nat, |i: int| None),
                ),
                latest: dev,
            }),
            r matches Ok(b) ==> buf_wf(b.state()),
    {
        let copy = Self::alloc_on_device(&dev, size)?;
        let mut copies: Vec<(BufferDevice, BufferMemory<T>)> = Vec::new();
        copies.push((dev, copy));
        let b = RawBuffer { size, copies, latest_device: dev };
        proof {
            assert(b.copies@.drop_last() =~= Seq::<(BufferDevice, BufferMemory<T>)>::empty());
            assert(entries_map(b.copies@.drop_last()) =~= Map::<
                BufferDevice,
                Seq<Option<T>>,
            >::empty());
            assert(b.state().copies =~= Map::<BufferDevice, Seq<Option<T>>>::empty().insert(
                dev,
                Seq::new(size as nat, |i: int| None),
            ));
        }
        Ok(b)
    }

    /// Allocate a raw buffer on a native device, already holding the values
    /// of `vec`; its length becomes the element count.
    pub fn from_vec_native(dev: &native::Device, vec: Vec<T>) -> (r: Result<RawBuffer<T>, Error>)
        ensures
            r matches Ok(b) && b.inv() && b.state() == (BufState {
                size: vec@.len(),
                copies: Map::<BufferDevice, Seq<Option<T>>>::empty().insert(
                    BufferDevice::Native(*dev),
                    some_all(vec@),
                ),
                latest: BufferDevice::Native(*dev),
            }),
            r matches Ok(b) ==> buf_wf(b.state()),
    {
        let mem = native::Memory::from_vec(&vec);
        let bdev = BufferDevice::Native(*dev);
        let mut copies: Vec<(BufferDevice, BufferMemory<T>)> = Vec::new();
        copies.push((bdev, BufferMemory::Native(mem)));
        let b = RawBuffer { size: vec.len(), copies, latest_device: bdev };
        proof {
            assert(b.copies@.drop_last() =~= Seq::<(BufferDevice, BufferMemory<T>)>::empty());
            assert(entries_map(b.copies@.drop_last()) =~= Map::<
                BufferDevice,
                Seq<Option<T>>,
            >::empty());
            assert(some_all(vec@) =~= mem_view(b.copies@.last().1));
            assert(b.state().copies =~= Map::<BufferDevice, Seq<Option<T>>>::empty().insert(
                bdev,
                some_all(vec@),
            ));
        }
        Ok(b)
    }

    /// Allocate raw storage for `size` elements on the given device,
    /// whatever its kind.
    pub fn alloc_on_device(dev: &BufferDevice, size: usize) -> (r: Result<BufferMemory<T>, Error>)
        ensures
            r matches Ok(m) && mem_view(m) == Seq::new(size as nat, |i: int| None::<T>),
    {
        match dev {
            BufferDevice::Native(dev_n) => Self::alloc_on_device_native(dev_n, size),
        }
    }

    /// Allocate raw storage for `size` elements on a native device.
    pub fn alloc_on_device_native(dev: &native::Device, size: usize) -> (r: Result<
        BufferMemory<T>,
        Error,
    >)
        ensures
            r matches Ok(m) && mem_view(m) == Seq::new(size as nat, |i: int| None::<T>),
    {
        let mem = native::Memory::allocate(size);
        proof {
            assert(mem@ =~= Seq::new(size as nat, |i: int| None::<T>));
        }
        Ok(BufferMemory::Native(mem))
    }

    /// The index of the entry for `dev`, if the buffer has a copy there.
    fn find_copy(&self, dev: &BufferDevice) -> (r: Option<usize>)
        requires
            self.inv(),
        ensures
            match r {
                Some(i) => i < self.entries().len() && self.entries()[i as int].0 == *dev
                    && self.state().copies.contains_key(*dev),
                None => !self.state().copies.contains_key(*dev),
            },
    {
        let mut k: usize = 0;
        while k < self.copies.len()
            invariant
                self.inv(),
                k <= self.copies@.len(),
                forall|i: int| 0 <= i < k ==> self.copies@[i].0 != *dev,
            decreases self.copies@.len() - k,
        {
            if self.copies[k].0 == *dev {
                proof {
                    assert(keys_distinct(self.copies@));
                    lemma_entries_map_index(self.copies@, k as int);
                }
                return Some(k);
            }
            k = k + 1;
        }
        proof {
            lemma_entries_map_contains(self.copies@, *dev);
        }
        None
    }

    /// Read access to this buffer's copy on a native device; fails with
    /// `InvalidDevice` exactly when that device holds no copy.
    pub fn native_memory(&self, dev: &native::Device) -> (r: Result<&native::Memory<T>, Error>)
        requires
            self.inv(),
        ensures
            match r {
                Ok(m) => self.state().copies.contains_key(BufferDevice::Native(*dev)) && m@
                    == self.state().copies[BufferDevice::Native(*dev)],
                Err(e) => e == Error::InvalidDevice && !self.state().copies.contains_key(
                    BufferDevice::Native(*dev),
                ),
            },
    {
        let bdev = BufferDevice::Native(*dev);
        match self.find_copy(&bdev) {
            Some(i) => {
                proof {
                    lemma_entries_map_index(self.copies@, i as int);
                }
                let entry = &self.copies[i];
                match &entry.1 {
                    BufferMemory::Native(m) => Ok(m),
                }
            },
            None => Err(Error::InvalidDevice),
        }
    }

    /// The logical element count.
    pub fn size(&self) -> (r: usize)
        ensures
            r == self.state().size,
    {
        self.size
    }

    /// Insert or replace the copy held for `dev`.
    fn set_copy(&mut self, dev: BufferDevice, mem: BufferMemory<T>)
        requires
            old(self).inv(),
        ensures
            final(self).inv(),
            final(self).state().size == old(self).state().size,
            final(self).state().latest == old(self).state().latest,
            final(self).state().copies == old(self).state().copies.insert(dev, mem_view(mem)),
    {
        let ghost pre = self.copies@;
        match self.find_copy(&dev) {
            Some(i) => {
                proof {
                    lemma_entries_map_update(pre, i as int, mem);
                    lemma_keys_distinct_update(pre, i as int, mem);
                }
                let entry = &mut self.copies[i];
                entry.1 = mem;
                proof {
                    assert(self.copies@ =~= pre.update(i as int, (pre[i as int].0, self.copies@[i as int].1)));
                }
            },
            None => {
                proof {
                    lemma_entries_map_push(pre, dev, mem);
                    lemma_entries_map_contains(pre, dev);
                    assert forall|a: int, b: int|
                        0 <= a < b < pre.push((dev, mem)).len() implies pre.push(
                        (dev, mem),
                    )[a].0 != pre.push((dev, mem))[b].0 by {
                        if b < pre.len() {
                            assert(pre[a].0 != pre[b].0);
                        } else {
                            assert(pre.push((dev, mem))[b].0 == dev);
                            assert(pre.push((dev, mem))[a].0 == pre[a].0);
                        }
                    }
                }
                self.copies.push((dev, mem));
            },
        }
    }

    /// Overwrite the authoritative copy from a host vector; see
    /// [`sync_from_vec_spec`].
    pub fn sync_from_vec(&mut self, vec: &Vec<T>) -> (r: Result<(), Error>)
        requires
            old(self).inv(),
        ensures
            final(self).inv(),
            (final(self).state(), r) == sync_from_vec_spec(old(self).state(), vec@),
    {
        let latest = self.latest_device;
        match self.find_copy(&latest) {
            None => Err(Error::InvalidDevice),
            Some(_) => {
                if vec.len() != self.size {
                    Err(Error::Native(native::Error::SizeMismatch))
                } else {
                    let mem = native::Memory::from_vec(vec);
                    proof {
                        assert(mem@ =~= some_all(vec@));
                    }
                    self.set_copy(latest, BufferMemory::Native(mem));
                    Ok(())
                }
            },
        }
    }

    /// Read the authoritative copy out into a fresh host vector; see
    /// [`sync_to_vec_spec`].
    pub fn sync_to_vec(&self) -> (r: Result<Vec<T>, Error>)
        requires
            self.inv(),
        ensures
            match r {
                Ok(v) => sync_to_vec_spec(self.state()) == Ok::<Seq<T>, Error>(v@),
                Err(e) => sync_to_vec_spec(self.state()) == Err::<Seq<T>, Error>(e),
            },
    {
        let latest = self.latest_device;
        match self.find_copy(&latest) {
            None => Err(Error::InvalidDevice),
            Some(i) => {
                proof {
                    lemma_entries_map_index(self.copies@, i as int);
                }
                let entry = &self.copies[i];
                match &entry.1 {
                    BufferMemory::Native(m) => match m.to_vec() {
                        Ok(v) => Ok(v),
                        Err(e) => Err(Error::Native(e)),
                    },
                }
            },
        }
    }

    /// Ensure `dev` holds the authoritative copy, materializing it from the
    /// latest device if needed; see [`sync_spec`].
    pub fn sync(&mut self, dev: &BufferDevice) -> (r: Result<(), Error>)
        requires
            old(self).inv(),
        ensures
            final(self).inv(),
            (final(self).state(), r) == sync_spec(old(self).state(), *dev),
    {
        if *dev == self.latest_device {
            return Ok(());
        }
        let latest = self.latest_device;
        match self.find_copy(&latest) {
            None => Err(Error::InvalidDevice),
            Some(i) => {
                proof {
                    lemma_entries_map_index(self.copies@, i as int);
                }
                let entry = &self.copies[i];
                let dup = match &entry.1 {
                    BufferMemory::Native(m) => BufferMemory::Native(m.duplicate()),
                };
                self.set_copy(*dev, dup);
                self.latest_device = *dev;
                Ok(())
            },
        }
    }

    /// Write access to this buffer's copy on a native device; fails with
    /// `InvalidDevice` exactly when that device holds no copy. Whatever the
    /// caller leaves in the borrow becomes that device's copy.
    pub fn native_memory_mut(&mut self, dev: &native::Device) -> (r: Result<
        &mut native::Memory<T>,
        Error,
    >)
        requires
            old(self).inv(),
        ensures
            final(self).inv(),
            final(self).state().size == old(self).state().size,
            final(self).state().latest == old(self).state().latest,
            match r {
                Ok(m) => old(self).state().copies.contains_key(BufferDevice::Native(*dev)) && (
                *m)@ == old(self).state().copies[BufferDevice::Native(*dev)] && final(self).state().copies == old(self).state().copies.insert(
                    BufferDevice::Native(*dev),
                    final(m)@,
                ),
                Err(e) => e == Error::InvalidDevice && !old(self).state().copies.contains_key(
                    BufferDevice::Native(*dev),
                ) && *final(self) == *old(self),
            },
    {
        let bdev = BufferDevice::Native(*dev);
        match self.find_copy(&bdev) {
            Some(i) => {
                proof {
                    lemma_entries_map_index(self.copies@, i as int);
                }
                let entry = &mut self.copies[i];
                match &mut entry.1 {
                    BufferMemory::Native(m_ref) => {
                        proof {
                            lemma_entries_map_update(
                                old(self).copies@,
                                i as int,
                                BufferMemory::Native(*final(m_ref)),
                            );
                            lemma_keys_distinct_update(
                                old(self).copies@,
                                i as int,
                                BufferMemory::Native(*final(m_ref)),
                            );
                        }
                        Ok(m_ref)
                    },
                }
            },
            None => Err(Error::InvalidDevice),
        }
    }
}

/// A guard granting exclusive access to a buffer's raw state until it is
/// handed back; it may cross task and thread boundaries before that.
#[derive(Debug)]
pub struct LockedBuffer<T> {
    raw: VaultAcquired<RawBuffer<T>>,
}

impl<T: Copy> LockedBuffer<T> {
    /// The raw buffer this guard holds.
    pub closed spec fn raw_spec(self) -> RawBuffer<T> {
        self.raw.value()
    }

    /// The held buffer's state, as specs see it.
    pub open spec fn state(self) -> BufState<T> {
        self.raw_spec().state()
    }

    /// The held buffer's representation invariant.
    pub open spec fn inv(self) -> bool {
        self.raw_spec().inv()
    }

    /// Read access to the raw buffer.
    pub fn raw(&self) -> (r: &RawBuffer<T>)
        ensures
            *r == self.raw_spec(),
    {
        self.raw.get()
    }

    /// Write access to the raw buffer.
    pub fn raw_mut(&mut self) -> (r: &mut RawBuffer<T>)
        ensures
            *r == old(self).raw_spec(),
            final(self).raw_spec() == *final(r),
    {
        self.raw.get_mut()
    }

    /// The logical element count.
    pub fn size(&self) -> (r: usize)
        ensures
            r == self.state().size,
    {
        self.raw.get().size()
    }

    /// Overwrite the authoritative copy from a host vector; see
    /// [`sync_from_vec_spec`].
    pub fn sync_from_vec(&mut self, vec: Vec<T>) -> (r: Result<(), Error>)
        requires
            old(self).inv(),
        ensures
            final(self).inv(),
            (final(self).state(), r) == sync_from_vec_spec(old(self).state(), vec@),
    {
        self.raw.get_mut().sync_from_vec(&vec)
    }

    /// Read the authoritative copy out into a fresh host vector; see
    /// [`sync_to_vec_spec`].
    pub fn sync_to_vec(&self) -> (r: Result<Vec<T>, Error>)
        requires
            self.inv(),
        ensures
            match r {
                Ok(v) => sync_to_vec_spec(self.state()) == Ok::<Seq<T>, Error>(v@),
                Err(e) => sync_to_vec_spec(self.state()) == Err::<Seq<T>, Error>(e),
            },
    {
        self.raw.get().sync_to_vec()
    }

    /// Ensure `dev` holds the authoritative copy, materializing it from the
    /// latest device if needed; see [`sync_spec`].
    pub fn sync(&mut self, dev: &BufferDevice) -> (r: Result<(), Error>)
        requires
            old(self).inv(),
        ensures
            final(self).inv(),
            (final(self).state(), r) == sync_spec(old(self).state(), *dev),
    {
        self.raw.get_mut().sync(dev)
    }
}

/// A logical buffer: a vault holding the raw buffer, lockable through
/// futures so that a whole chain of synchronizations and kernel runs can
/// hold it exclusively.
#[derive(Debug)]
pub struct Buffer<T> {
    raw: Vault<RawBuffer<T>>,
}

impl<T: Copy> Buffer<T> {
    /// The vault's lock protocol state.
    pub closed spec fn lock_state(self) -> crate::vault::LockState {
        self.raw.lock_state()
    }

    /// The raw buffer, present exactly while the buffer is not locked.
    pub closed spec fn stored(self) -> Option<RawBuffer<T>> {
        self.raw.stored()
    }

    /// The buffer holds its raw state exactly while unlocked, and that
    /// state satisfies the representation invariant.
    pub open spec fn wf(self) -> bool {
        &&& (self.stored() is Some <==> !self.lock_state().locked)
        &&& self.stored() matches Some(rb) ==> rb.inv()
    }

    /// Wrap a raw buffer in a fresh, unlocked vault.
    pub fn from_raw(raw: RawBuffer<T>) -> (b: Buffer<T>)
        requires
            raw.inv(),
        ensures
            b.wf(),
            !b.lock_state().locked,
            b.lock_state().waiting.len() == 0,
            b.stored() == Some(raw),
    {
        Buffer { raw: Vault::new(raw) }
    }

    /// Allocate a buffer of `size` elements with one (still raw) copy on
    /// `dev`, which becomes the latest device.
    pub fn new(dev: BufferDevice, size: usize) -> (r: Result<Buffer<T>, Error>)
        ensures
            r matches Ok(b) && b.wf() && !b.lock_state().locked && b.lock_state().waiting.len()
                == 0 && (b.stored() matches Some(rb) && rb.state() == (BufState {
                size: size as nat,
                copies: Map::<BufferDevice, Seq<Option<T>>>::empty().insert(
                    dev,
                    Seq::new(size as nat, |i: int| None),
                ),
                latest: dev,
            }) && buf_wf(rb.state())),
    {
        let raw = RawBuffer::new(dev, size)?;
        Ok(Self::from_raw(raw))
    }

    /// Allocate a buffer of `capacity` (still raw) elements on a native
    /// device.
    pub fn with_capacity_native(dev: &native::Device, capacity: usize) -> (r: Result<
        Buffer<T>,
        Error,
    >)
        ensures
            r matches Ok(b) && b.wf() && !b.lock_state().locked && b.lock_state().waiting.len()
                == 0 && (b.stored() matches Some(rb) && rb.state() == (BufState {
                size: capacity as nat,
                copies: Map::<BufferDevice, Seq<Option<T>>>::empty().insert(
                    BufferDevice::Native(*dev),
                    Seq::new(capacity as nat, |i: int| None),
                ),
                latest: BufferDevice::Native(*dev),
            }) && buf_wf(rb.state())),
    {
        Self::new(BufferDevice::Native(*dev), capacity)
    }

    /// Allocate a buffer on a native device, already holding the values of
    /// `vec`; its length becomes the element count.
    pub fn from_vec_native(dev: &native::Device, vec: Vec<T>) -> (r: Result<Buffer<T>, Error>)
        ensures
            r matches Ok(b) && b.wf() && !b.lock_state().locked && b.lock_state().waiting.len()
                == 0 && (b.stored() matches Some(rb) && rb.state() == (BufState {
                size: vec@.len(),
                copies: Map::<BufferDevice, Seq<Option<T>>>::empty().insert(
                    BufferDevice::Native(*dev),
                    some_all(vec@),
                ),
                latest: BufferDevice::Native(*dev),
            }) && buf_wf(rb.state())),
    {
        let raw = RawBuffer::from_vec_native(dev, vec)?;
        Ok(Self::from_raw(raw))
    }

    /// Begin a future-driven lock acquisition on behalf of task `task`.
    pub fn lock(&self, task: u64) -> (r: VaultAcquire)
        ensures
            r.task_id() == task,
    {
        self.raw.lock(task)
    }

    /// One poll of a lock acquisition: the locked buffer if the vault was
    /// free, otherwise the task parks on the vault's queue.
    pub fn poll_lock(&mut self, acquire: &VaultAcquire) -> (r: Option<LockedBuffer<T>>)
        requires
            old(self).wf(),
        ensures
            final(self).wf(),
            (final(self).lock_state(), r is Some) == crate::vault::poll_acquire_spec(
                old(self).lock_state(),
                acquire.task_id(),
            ),
            r matches Some(g) ==> Some(g.raw_spec()) == old(self).stored() && g.inv() && final(self).stored() is None,
            r is None ==> final(self).stored() == old(self).stored(),
    {
        match acquire.poll(&mut self.raw) {
            Some(guard) => Some(LockedBuffer { raw: guard }),
            None => None,
        }
    }

    /// Non-blocking lock: the locked buffer, or `InvalidLock` if the vault
    /// is held.
    pub fn try_lock(&mut self) -> (r: Result<LockedBuffer<T>, Error>)
        requires
            old(self).wf(),
        ensures
            final(self).wf(),
            (final(self).lock_state(), r is Ok) == crate::vault::try_acquire_spec(
                old(self).lock_state(),
            ),
            r matches Ok(g) ==> Some(g.raw_spec()) == old(self).stored() && g.inv() && final(self).stored() is None,
            r matches Err(e) ==> e == Error::InvalidLock && final(self).stored() == old(self).stored(),
    {
        match self.raw.try_lock() {
            Ok(guard) => Ok(LockedBuffer { raw: guard }),
            Err(()) => Err(Error::InvalidLock),
        }
    }

    /// Hand a locked buffer back, unlocking the vault, and name the task to
    /// wake (the longest-waiting one, if any).
    pub fn unlock(&mut self, locked: LockedBuffer<T>) -> (woken: Option<u64>)
        requires
            old(self).wf(),
            old(self).lock_state().locked,
            locked.inv(),
        ensures
            final(self).wf(),
            (final(self).lock_state(), woken) == crate::vault::release_spec(
                old(self).lock_state(),
            ),
            final(self).stored() == Some(locked.raw_spec()),
    {
        self.raw.release(locked.raw)
    }
}

// ---------------------------------------------------------------------------
// Laws of the buffer data model.
// ---------------------------------------------------------------------------
/// Buffer round-trip: writing a host vector of the right length into a
/// buffer whose latest device has a copy succeeds, and reading back yields
/// exactly that vector.
pub proof fn lemma_buffer_round_trip<T>(s: BufState<T>, v: Seq<T>)
    requires
        s.copies.contains_key(s.latest),
        v.len() == s.size,
    ensures
        ({
            let (s1, r1) = sync_from_vec_spec(s, v);
            &&& r1 is Ok
            &&& sync_to_vec_spec(s1) == Ok::<Seq<T>, Error>(v)
        }),
{
    let (s1, r1) = sync_from_vec_spec(s, v);
    assert(native::fully_init(s1.copies[s1.latest]));
    assert(native::init_values(s1.copies[s1.latest]) =~= v);
}

/// Buffer sync idempotence: synchronizing to the device that already holds
/// the authoritative copy succeeds without allocating, copying, or changing
/// the copies or the latest-device marker in any way.
pub proof fn lemma_buffer_sync_idempotent<T>(s: BufState<T>)
    ensures
        sync_spec(s, s.latest) == (s, Ok::<(), Error>(())),
{
}

/// Moving the authoritative copy is lossless: as long as the latest device
/// has a copy, synchronizing to any device succeeds, and the new latest
/// copy holds slot for slot what the old one held.
pub proof fn lemma_buffer_sync_preserves_values<T>(s: BufState<T>, dev: BufferDevice)
    requires
        s.copies.contains_key(s.latest),
    ensures
        ({
            let (s1, r) = sync_spec(s, dev);
            &&& r is Ok
            &&& s1.copies[s1.latest] == s.copies[s.latest]
        }),
{
}

/// Buffer invariants: every synchronization that starts from a well-formed
/// buffer state leaves one — the latest device keeps a copy and every copy
/// keeps the logical element count.
pub proof fn lemma_buffer_wf_preserved<T>(s: BufState<T>, v: Seq<T>, dev: BufferDevice)
    requires
        buf_wf(s),
    ensures
        buf_wf(sync_from_vec_spec(s, v).0),
        buf_wf(sync_spec(s, dev).0),
{
}

} // verus!
