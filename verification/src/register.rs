use crate::resource_id::{ResourceId, ResourceIdGenerator, ResourceType, MAX_SERIAL};
use vstd::prelude::*;

verus! {

/// Per-adapter, per-kind table of live resources, keyed by the packed
/// form of their ids. Ids are issued by its own generator, so a key is
/// never shared by two resources alive at once, nor issued again after
/// its resource was removed.
pub struct ResourceRegister<R> {
    entries: Vec<(u32, R)>,
    generator: ResourceIdGenerator,
}

impl<R> ResourceRegister<R> {
    pub closed spec fn spec_entries(self) -> Seq<(u32, R)> {
        self.entries@
    }

    pub closed spec fn spec_next_serial(self) -> u32 {
        self.generator.spec_next_serial()
    }

    pub closed spec fn spec_adapter_id(self) -> u8 {
        self.generator.spec_adapter_id()
    }

    pub closed spec fn spec_resource_type(self) -> ResourceType {
        self.generator.spec_resource_type()
    }

    /// Some live resource is registered under this key.
    pub open spec fn spec_contains_raw(self, raw: u32) -> bool {
        exists|i: int|
            0 <= i < self.spec_entries().len() && (#[trigger] self.spec_entries()[i]).0 == raw
    }

    /// Keys are distinct, and each carries a serial the generator already
    /// passed — which is what keeps every future id fresh.
    pub open spec fn wf(self) -> bool {
        &&& forall|i: int, j: int|
            0 <= i < j < self.spec_entries().len() ==> (#[trigger] self.spec_entries()[i]).0 != (
            #[trigger] self.spec_entries()[j]).0
        &&& forall|i: int|
            0 <= i < self.spec_entries().len() ==> (#[trigger] self.spec_entries()[i]).0
                % 0x800000 < self.spec_next_serial()
    }

    pub fn new(adapter_id: u8, resource_type: ResourceType) -> (r: ResourceRegister<R>)
        ensures
            r.wf(),
            r.spec_entries().len() == 0,
            r.spec_next_serial() == 0,
            r.spec_adapter_id() == adapter_id,
            r.spec_resource_type() == resource_type,
    {
        ResourceRegister {
            entries: Vec::new(),
            generator: ResourceIdGenerator::new(adapter_id, resource_type),
        }
    }

    /// Registers a resource and returns its id. The id is fresh: no
    /// resource alive in this table is registered under it — and none
    /// ever was, since every key ever issued carries a smaller serial.
    pub fn add(&mut self, resource: R) -> (id: ResourceId)
        requires
            old(self).wf(),
            old(self).spec_next_serial() <= MAX_SERIAL,
        ensures
            final (self).wf(),
            id.wf(),
            id.spec_adapter_id() == old(self).spec_adapter_id(),
            id.spec_resource_type() == old(self).spec_resource_type(),
            id.spec_serial() == old(self).spec_next_serial(),
            !old(self).spec_contains_raw(id.spec_raw()),
            final (self).spec_entries() == old(self).spec_entries().push(
                (id.spec_raw(), resource),
            ),
            final (self).spec_next_serial() == old(self).spec_next_serial() + 1,
            final (self).spec_adapter_id() == old(self).spec_adapter_id(),
            final (self).spec_resource_type() == old(self).spec_resource_type(),
    {
        let ghost orig = self.entries@;
        let id = self.generator.generate();
        let raw = id.raw();
        proof {
            crate::resource_id::lemma_raw_roundtrip(id);
            assert forall|i: int| 0 <= i < orig.len() implies (#[trigger] orig[i]).0 != raw by {
                assert((#[trigger] old(self).spec_entries()[i]).0 % 0x800000 < old(
                    self,
                ).spec_next_serial());
                assert(raw % 0x800000 == id.spec_serial());
            }
        }
        self.entries.push((raw, resource));
        proof {
            assert forall|p: int, q: int|
                0 <= p < q < self.entries@.len() implies (#[trigger] self.entries@[p]).0 != (
            #[trigger] self.entries@[q]).0 by {
                if q < orig.len() {
                    assert((#[trigger] old(self).spec_entries()[p]).0 != (#[trigger] old(
                        self,
                    ).spec_entries()[q]).0);
                } else {
                    assert(orig[p].0 != raw);
                }
            }
            assert forall|p: int| 0 <= p < self.entries@.len() implies (
            #[trigger] self.entries@[p]).0 % 0x800000 < self.spec_next_serial() by {
                if p < orig.len() {
                    assert((#[trigger] old(self).spec_entries()[p]).0 % 0x800000 < old(
                        self,
                    ).spec_next_serial());
                } else {
                    assert(raw % 0x800000 == id.spec_serial());
                }
            }
            assert forall|i: int| 0 <= i < old(self).spec_entries().len() implies (
            #[trigger] old(self).spec_entries()[i]).0 != id.spec_raw() by {
                assert(orig[i].0 != raw);
            }
        }
        id
    }

    /// Looks a live resource up by its id.
    pub fn get(&self, id: ResourceId) -> (r: Option<&R>)
        requires
            self.wf(),
            id.wf(),
        ensures
            match r {
                Some(res) => exists|i: int|
                    0 <= i < self.spec_entries().len() && (#[trigger] self.spec_entries()[i]) == (
                    id.spec_raw(),
                    *res,
                ),
                None => !self.spec_contains_raw(id.spec_raw()),
            },
    {
        let raw = id.raw();
        let mut i: usize = 0;
        while i < self.entries.len()
            invariant
                i <= self.entries@.len(),
                raw == id.spec_raw(),
                forall|k: int| 0 <= k < i ==> (#[trigger] self.entries@[k]).0 != raw,
            decreases self.entries@.len() - i,
        {
            if self.entries[i].0 == raw {
                proof {
                    assert(self.spec_entries()[i as int] == (
                        id.spec_raw(),
                        self.entries@[i as int].1,
                    ));
                }
                return Some(&self.entries[i].1);
            }
            i = i + 1;
        }
        proof {
            assert forall|k: int| 0 <= k < self.spec_entries().len() implies (
            #[trigger] self.spec_entries()[k]).0 != id.spec_raw() by {
                assert(self.entries@[k].0 != raw);
            }
        }
        None
    }

    /// Removes the resource registered under the id. `Some` exactly when
    /// it was alive; the other entries keep their order.
    pub fn remove(&mut self, id: ResourceId) -> (r: Option<R>)
        requires
            old(self).wf(),
            id.wf(),
        ensures
            final (self).wf(),
            r is Some <==> old(self).spec_contains_raw(id.spec_raw()),
            r matches Some(res) ==> exists|i: int|
                0 <= i < old(self).spec_entries().len() && (#[trigger] old(
                    self,
                ).spec_entries()[i]) == (id.spec_raw(), res) && final (self).spec_entries() == old(
                    self,
                ).spec_entries().remove(i),
            r is None ==> final (self).spec_entries() == old(self).spec_entries(),
            final (self).spec_next_serial() == old(self).spec_next_serial(),
            final (self).spec_adapter_id() == old(self).spec_adapter_id(),
            final (self).spec_resource_type() == old(self).spec_resource_type(),
    {
        let raw = id.raw();
        let ghost orig = self.entries@;
        proof {
            assert forall|p: int, q: int| 0 <= p < q < orig.len() implies (#[trigger] orig[p]).0
                != (#[trigger] orig[q]).0 by {
                assert((#[trigger] old(self).spec_entries()[p]).0 != (#[trigger] old(
                    self,
                ).spec_entries()[q]).0);
            }
            assert forall|p: int| 0 <= p < orig.len() implies (#[trigger] orig[p]).0 % 0x800000
                < old(self).spec_next_serial() by {
                assert((#[trigger] old(self).spec_entries()[p]).0 % 0x800000 < old(
                    self,
                ).spec_next_serial());
            }
        }
        let mut i: usize = 0;
        while i < self.entries.len()
            invariant
                i <= self.entries@.len(),
                self.entries@ == orig,
                orig == old(self).spec_entries(),
                self.generator == old(self).generator,
                raw == id.spec_raw(),
                forall|p: int, q: int|
                    0 <= p < q < orig.len() ==> (#[trigger] orig[p]).0 != (#[trigger] orig[q]).0,
                forall|p: int|
                    0 <= p < orig.len() ==> (#[trigger] orig[p]).0 % 0x800000 < old(
                        self,
                    ).spec_next_serial(),
                forall|k: int| 0 <= k < i ==> (#[trigger] self.entries@[k]).0 != raw,
            decreases self.entries@.len() - i,
        {
            if self.entries[i].0 == raw {
                let entry = self.entries.remove(i);
                let res = entry.1;
                proof {
                    orig.remove_ensures(i as int);
                    assert(orig[i as int] == (id.spec_raw(), res));
                    assert(old(self).spec_entries()[i as int] == (id.spec_raw(), res));
                    assert forall|p: int, q: int|
                        0 <= p < q < self.entries@.len() implies (
                    #[trigger] self.entries@[p]).0 != (#[trigger] self.entries@[q]).0 by {
                        let pp = if p < i as int {
                            p
                        } else {
                            p + 1
                        };
                        let qq = if q < i as int {
                            q
                        } else {
                            q + 1
                        };
                        assert(self.entries@[p] == orig[pp]);
                        assert(self.entries@[q] == orig[qq]);
                        assert(orig[pp].0 != orig[qq].0);
                    }
                    assert forall|p: int| 0 <= p < self.entries@.len() implies (
                    #[trigger] self.entries@[p]).0 % 0x800000 < self.spec_next_serial() by {
                        let pp = if p < i as int {
                            p
                        } else {
                            p + 1
                        };
                        assert(self.entries@[p] == orig[pp]);
                        assert(orig[pp].0 % 0x800000 < self.spec_next_serial());
                    }
                }
                return Some(res);
            }
            i = i + 1;
        }
        proof {
            assert forall|k: int| 0 <= k < old(self).spec_entries().len() implies (
            #[trigger] old(self).spec_entries()[k]).0 != id.spec_raw() by {
                assert(self.entries@[k].0 != raw);
            }
        }
        None
    }

    /// How many resources are alive in the table.
    pub fn len(&self) -> (r: usize)
        ensures
            r == self.spec_entries().len(),
    {
        self.entries.len()
    }
}

} // verus!
