use vstd::prelude::*;

verus! {

/// An IPv4 address, kept as its four dotted-quad octets.
#[derive(Clone, Copy, PartialEq, Eq, Structural, Debug)]
pub struct Ipv4Address {
    pub o0: u8,
    pub o1: u8,
    pub o2: u8,
    pub o3: u8,
}

impl Ipv4Address {
    pub fn new(o0: u8, o1: u8, o2: u8, o3: u8) -> (r: Ipv4Address)
        ensures
            r == (Ipv4Address { o0, o1, o2, o3 }),
    {
        Ipv4Address { o0, o1, o2, o3 }
    }
}

/// An IPv4 address together with a network prefix length.
#[derive(Clone, Copy, PartialEq, Eq, Structural, Debug)]
pub struct Ipv4Cidr {
    pub address: Ipv4Address,
    pub prefix_len: u8,
}

impl Ipv4Cidr {
    /// A prefix length is a number of leading bits of a 32-bit address.
    pub open spec fn wf(self) -> bool {
        self.prefix_len <= 32
    }

    pub fn new(address: Ipv4Address, prefix_len: u8) -> (r: Ipv4Cidr)
        requires
            prefix_len <= 32,
        ensures
            r == (Ipv4Cidr { address, prefix_len }),
            r.wf(),
    {
        Ipv4Cidr { address, prefix_len }
    }
}

/// A static IPv4 configuration: the device's own address and prefix, an
/// optional gateway, and the configured DNS servers.
#[derive(PartialEq, Eq, Debug)]
pub struct StaticConfigV4 {
    pub address: Ipv4Cidr,
    pub gateway: Option<Ipv4Address>,
    pub dns_servers: Vec<Ipv4Address>,
}

impl StaticConfigV4 {
    pub open spec fn wf(self) -> bool {
        self.address.wf()
    }

    pub fn new(address: Ipv4Cidr, gateway: Option<Ipv4Address>, dns_servers: Vec<Ipv4Address>) -> (r:
        StaticConfigV4)
        requires
            address.wf(),
        ensures
            r.address == address,
            r.gateway == gateway,
            r.dns_servers@ == dns_servers@,
            r.wf(),
    {
        StaticConfigV4 { address, gateway, dns_servers }
    }
}

/// Capability to exchange link-layer frames, produced by radio bring-up.
/// Opaque to the rest of the core; owned exclusively by the network stack.
pub struct DeviceHandle {
    pub frames_driven: u64,
}

impl DeviceHandle {
    pub fn new() -> (r: DeviceHandle)
        ensures
            r.frames_driven == 0,
    {
        DeviceHandle { frames_driven: 0 }
    }
}

/// Capability over the radio itself: beacon start and stop, peer
/// association management. Produced by radio bring-up beside the device
/// handle; a collaborator boundary with no operation in scope here.
pub struct ControllerHandle {
    pub beacons_enabled: bool,
}

impl ControllerHandle {
    pub fn new() -> (r: ControllerHandle)
        ensures
            !r.beacons_enabled,
    {
        ControllerHandle { beacons_enabled: false }
    }
}

/// Failure to allocate a socket resource slot: the fixed table is exhausted.
#[derive(Clone, Copy, PartialEq, Eq, Structural, Debug)]
pub enum SlotError {
    Exhausted,
}

/// The network stack: exclusive owner of the device handle, an immutable
/// IPv4 configuration, and a fixed table of socket resource slots.
///
/// The slot table never grows: `slots` is sized once at construction, and an
/// entry is `true` exactly while a socket resource occupies it.
pub struct NetworkStack {
    pub device: DeviceHandle,
    pub config: StaticConfigV4,
    pub slots: Vec<bool>,
    pub seed: u64,
    pub polls: u64,
}

impl NetworkStack {
    pub open spec fn wf(self) -> bool {
        self.config.wf()
    }

    /// How many slots of the fixed table are currently free.
    pub open spec fn spec_free_slots(slots: Seq<bool>) -> nat
        decreases slots.len(),
    {
        if slots.len() == 0 {
            0
        } else {
            Self::spec_free_slots(slots.drop_last()) + if slots.last() {
                0nat
            } else {
                1nat
            }
        }
    }

    /// Whether some slot of the table is free.
    pub open spec fn has_free_slot(self) -> bool {
        exists|i: int| 0 <= i < self.slots@.len() && !self.slots@[i]
    }

    /// Build the stack once at boot: it takes sole ownership of the device,
    /// records the configuration, and lays out `socket_slots` free slots.
    pub fn new(device: DeviceHandle, config: StaticConfigV4, socket_slots: usize, seed: u64) -> (r:
        NetworkStack)
        requires
            config.wf(),
        ensures
            r.device == device,
            r.config == config,
            r.seed == seed,
            r.polls == 0,
            r.slots@.len() == socket_slots,
            forall|i: int| 0 <= i < socket_slots ==> !r.slots@[i],
            r.wf(),
    {
        let mut slots: Vec<bool> = Vec::new();
        let mut k: usize = 0;
        while k < socket_slots
            invariant
                k <= socket_slots,
                slots@.len() == k,
                forall|i: int| 0 <= i < k ==> !slots@[i],
            decreases socket_slots - k,
        {
            slots.push(false);
            k = k + 1;
        }
        NetworkStack { device, config, slots, seed, polls: 0 }
    }

    /// Read back the active configuration. It is exactly the configuration
    /// the stack was constructed with: no stack operation ever mutates it.
    pub fn config(&self) -> (r: &StaticConfigV4)
        ensures
            *r == self.config,
    {
        &self.config
    }

    pub fn socket_capacity(&self) -> (r: usize)
        ensures
            r == self.slots@.len(),
    {
        self.slots.len()
    }

    /// How many slots of the fixed table are free right now; allocation
    /// succeeds exactly while this is positive.
    pub fn free_slots(&self) -> (r: usize)
        ensures
            r == Self::spec_free_slots(self.slots@),
            r > 0 <==> self.has_free_slot(),
    {
        let n = self.slots.len();
        let mut count: usize = 0;
        let mut k: usize = 0;
        while k < n
            invariant
                n == self.slots@.len(),
                k <= n,
                count == Self::spec_free_slots(self.slots@.take(k as int)),
                count <= k,
            decreases n - k,
        {
            proof {
                assert(self.slots@.take(k + 1).drop_last() =~= self.slots@.take(k as int));
                assert(self.slots@.take(k + 1).last() == self.slots@[k as int]);
            }
            if !self.slots[k] {
                count = count + 1;
            }
            k = k + 1;
        }
        proof {
            assert(self.slots@.take(n as int) =~= self.slots@);
            Self::lemma_free_slots_positive(self.slots@);
        }
        count
    }

    /// A positive free count names a free slot, and the other way round.
    proof fn lemma_free_slots_positive(s: Seq<bool>)
        ensures
            Self::spec_free_slots(s) > 0 <==> exists|i: int| 0 <= i < s.len() && !s[i],
        decreases s.len(),
    {
        if s.len() > 0 {
            let dl = s.drop_last();
            Self::lemma_free_slots_positive(dl);
            if !s.last() {
                assert(!s[s.len() - 1]);
            }
            if Self::spec_free_slots(dl) > 0 {
                let i = choose|i: int| 0 <= i < dl.len() && !dl[i];
                assert(!s[i]);
            }
            if exists|i: int| 0 <= i < s.len() && !s[i] {
                let i = choose|i: int| 0 <= i < s.len() && !s[i];
                if i < s.len() - 1 {
                    assert(!dl[i]);
                }
            }
        }
    }

    /// Drive the protocol state machines once: address resolution, IP
    /// handling, retransmission timers. Transient protocol errors are fully
    /// handled inside and never surface; the configuration and the slot
    /// table are untouched.
    pub fn poll(&mut self)
        ensures
            final(self).config == old(self).config,
            final(self).slots@ == old(self).slots@,
            final(self).seed == old(self).seed,
            final(self).polls == if old(self).polls < u64::MAX {
                old(self).polls + 1
            } else {
                old(self).polls as int
            },
            final(self).device.frames_driven == if old(self).device.frames_driven < u64::MAX {
                old(self).device.frames_driven + 1
            } else {
                old(self).device.frames_driven as int
            },
    {
        if self.polls < u64::MAX {
            self.polls = self.polls + 1;
        }
        if self.device.frames_driven < u64::MAX {
            self.device.frames_driven = self.device.frames_driven + 1;
        }
    }

    /// Claim a free slot for a socket resource. Succeeds, returning the
    /// lowest free index, exactly when some slot is free; exhaustion is a
    /// checked condition, never a grow operation.
    pub fn allocate_slot(&mut self) -> (r: Result<usize, SlotError>)
        ensures
            final(self).config == old(self).config,
            final(self).seed == old(self).seed,
            final(self).polls == old(self).polls,
            final(self).device == old(self).device,
            final(self).slots@.len() == old(self).slots@.len(),
            r is Ok <==> old(self).has_free_slot(),
            r matches Ok(i) ==> 0 <= i < old(self).slots@.len() && !old(self).slots@[i as int]
                && final(self).slots@ == old(self).slots@.update(i as int, true),
            r matches Ok(i) ==> forall|j: int| 0 <= j < i ==> old(self).slots@[j],
            r is Err ==> final(self).slots@ == old(self).slots@ && r == Err::<usize, SlotError>(
                SlotError::Exhausted,
            ),
    {
        let n = self.slots.len();
        let mut k: usize = 0;
        while k < n
            invariant
                *self == *old(self),
                n == self.slots@.len(),
                k <= n,
                forall|j: int| 0 <= j < k ==> self.slots@[j],
            decreases n - k,
        {
            if !self.slots[k] {
                self.slots.set(k, true);
                return Ok(k);
            }
            k = k + 1;
        }
        Err(SlotError::Exhausted)
    }

    /// Give a slot back when the socket resource that held it is released.
    pub fn release_slot(&mut self, i: usize)
        requires
            i < old(self).slots@.len(),
        ensures
            final(self).config == old(self).config,
            final(self).seed == old(self).seed,
            final(self).polls == old(self).polls,
            final(self).device == old(self).device,
            final(self).slots@ == old(self).slots@.update(i as int, false),
    {
        self.slots.set(i, false);
    }
}

} // verus!
