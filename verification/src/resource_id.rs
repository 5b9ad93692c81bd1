use vstd::prelude::*;

verus! {

/// Whether a resource is a listener (`Local`) or a connected peer
/// (`Remote`).
#[derive(Clone, Copy, PartialEq, Eq, Structural, Debug, Hash)]
pub enum ResourceType {
    Local,
    Remote,
}

/// Largest serial a `ResourceId` can carry: the serial field is 23 bits
/// wide.
pub const MAX_SERIAL: u32 = 0x7FFFFF;

/// A compact handle identifying one resource: the adapter that owns it
/// (8 bits), its kind (1 bit) and a per-adapter monotonic serial (23 bits).
/// Two resources alive at the same time never share a `ResourceId`, and a
/// freed id is not issued again until the serial space is exhausted.
#[derive(Clone, Copy, PartialEq, Eq, Structural, Debug, Hash)]
pub struct ResourceId {
    adapter_id: u8,
    resource_type: ResourceType,
    serial: u32,
}

impl ResourceId {
    pub closed spec fn spec_adapter_id(self) -> u8 {
        self.adapter_id
    }

    pub closed spec fn spec_resource_type(self) -> ResourceType {
        self.resource_type
    }

    pub closed spec fn spec_serial(self) -> u32 {
        self.serial
    }

    /// The serial fits in its 23-bit field.
    pub open spec fn wf(self) -> bool {
        self.spec_serial() <= MAX_SERIAL
    }

    pub fn new(adapter_id: u8, resource_type: ResourceType, serial: u32) -> (r: ResourceId)
        requires
            serial <= MAX_SERIAL,
        ensures
            r.spec_adapter_id() == adapter_id,
            r.spec_resource_type() == resource_type,
            r.spec_serial() == serial,
            r.wf(),
    {
        ResourceId { adapter_id, resource_type, serial }
    }

    pub fn adapter_id(&self) -> (r: u8)
        ensures
            r == self.spec_adapter_id(),
    {
        self.adapter_id
    }

    pub fn resource_type(&self) -> (r: ResourceType)
        ensures
            r == self.spec_resource_type(),
    {
        self.resource_type
    }

    pub fn serial(&self) -> (r: u32)
        ensures
            r == self.spec_serial(),
    {
        self.serial
    }

    /// The 32-bit packed form: adapter id in the top 8 bits, the kind bit
    /// next, the serial in the low 23 bits.
    pub open spec fn spec_raw(self) -> u32
        recommends
            self.wf(),
    {
        (self.spec_adapter_id() * 0x1000000 + Self::spec_type_bit(
            self.spec_resource_type(),
        ) * 0x800000 + self.spec_serial()) as u32
    }

    pub open spec fn spec_type_bit(t: ResourceType) -> u32 {
        match t {
            ResourceType::Local => 0,
            ResourceType::Remote => 1,
        }
    }

    /// Packs the handle into its 32-bit form.
    pub fn raw(&self) -> (r: u32)
        requires
            self.wf(),
        ensures
            r == self.spec_raw(),
    {
        let bit: u32 = match self.resource_type {
            ResourceType::Local => 0,
            ResourceType::Remote => 1,
        };
        (self.adapter_id as u32) * 0x1000000 + bit * 0x800000 + self.serial
    }

    /// Unpacks a 32-bit form into its three fields.
    pub fn from_raw(raw: u32) -> (r: ResourceId)
        ensures
            r.wf(),
            r.spec_adapter_id() == raw / 0x1000000,
            ResourceId::spec_type_bit(r.spec_resource_type()) == raw / 0x800000 % 2,
            r.spec_serial() == raw % 0x800000,
    {
        let adapter_id: u8 = (raw / 0x1000000) as u8;
        let bit: u32 = raw / 0x800000 % 2;
        let serial: u32 = raw % 0x800000;
        let resource_type = if bit == 0 {
            ResourceType::Local
        } else {
            ResourceType::Remote
        };
        assert(raw / 0x1000000 < 0x100) by (bit_vector);
        assert(raw % 0x800000 <= 0x7FFFFF) by (bit_vector);
        ResourceId { adapter_id, resource_type, serial }
    }
}

/// Packing is lossless: unpacking `raw` recovers the same handle.
pub proof fn lemma_raw_roundtrip(id: ResourceId)
    requires
        id.wf(),
    ensures
        id.spec_raw() / 0x1000000 == id.spec_adapter_id(),
        id.spec_raw() / 0x800000 % 2 == ResourceId::spec_type_bit(id.spec_resource_type()),
        id.spec_raw() % 0x800000 == id.spec_serial(),
{
    let a = id.spec_adapter_id() as u32;
    let b = ResourceId::spec_type_bit(id.spec_resource_type());
    let s = id.spec_serial();
    assert(b == 0 || b == 1);
    assert(s <= 0x7FFFFF ==> (a * 0x1000000 + b * 0x800000 + s) as u32 / 0x1000000 == a
        && (a * 0x1000000 + b * 0x800000 + s) as u32 / 0x800000 % 2 == b && (a * 0x1000000 + b
        * 0x800000 + s) as u32 % 0x800000 == s) by (bit_vector)
        requires
            a < 0x100,
            b == 0 || b == 1,
    ;
}

/// Distinct packed forms come from distinct handles; with the round trip
/// above, two well-formed handles are equal exactly when their packed
/// forms are.
pub proof fn lemma_raw_injective(x: ResourceId, y: ResourceId)
    requires
        x.wf(),
        y.wf(),
        x.spec_raw() == y.spec_raw(),
    ensures
        x == y,
{
    lemma_raw_roundtrip(x);
    lemma_raw_roundtrip(y);
    assert(ResourceId::spec_type_bit(x.spec_resource_type()) == ResourceId::spec_type_bit(
        y.spec_resource_type(),
    ));
    assert(x.spec_resource_type() == y.spec_resource_type());
}

/// Issues fresh `ResourceId`s for one adapter and kind, with a serial that
/// only grows: no id is ever issued twice.
pub struct ResourceIdGenerator {
    adapter_id: u8,
    resource_type: ResourceType,
    next_serial: u32,
}

impl ResourceIdGenerator {
    pub closed spec fn spec_adapter_id(self) -> u8 {
        self.adapter_id
    }

    pub closed spec fn spec_resource_type(self) -> ResourceType {
        self.resource_type
    }

    pub closed spec fn spec_next_serial(self) -> u32 {
        self.next_serial
    }

    pub fn new(adapter_id: u8, resource_type: ResourceType) -> (r: ResourceIdGenerator)
        ensures
            r.spec_adapter_id() == adapter_id,
            r.spec_resource_type() == resource_type,
            r.spec_next_serial() == 0,
    {
        ResourceIdGenerator { adapter_id, resource_type, next_serial: 0 }
    }

    /// Issues the next id. The serial strictly grows, so every id this
    /// generator returns differs from every id it returned before.
    pub fn generate(&mut self) -> (r: ResourceId)
        requires
            old(self).spec_next_serial() <= MAX_SERIAL,
        ensures
            r.wf(),
            r.spec_adapter_id() == old(self).spec_adapter_id(),
            r.spec_resource_type() == old(self).spec_resource_type(),
            r.spec_serial() == old(self).spec_next_serial(),
            final (self).spec_adapter_id() == old(self).spec_adapter_id(),
            final (self).spec_resource_type() == old(self).spec_resource_type(),
            final (self).spec_next_serial() == old(self).spec_next_serial() + 1,
    {
        let id = ResourceId {
            adapter_id: self.adapter_id,
            resource_type: self.resource_type,
            serial: self.next_serial,
        };
        self.next_serial = self.next_serial + 1;
        id
    }
}

} // verus!
