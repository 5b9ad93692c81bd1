use crate::transport::Transport;
use vstd::prelude::*;

verus! {

/// Configures which transport is mounted under which adapter id before
/// the engine starts. Ids are contiguous from zero: each mount takes the
/// next free id, so dispatch by `adapter_id` is a plain index.
pub struct AdapterLauncher {
    mounted: Vec<Transport>,
}

impl AdapterLauncher {
    /// The transports mounted so far; the transport mounted under
    /// adapter id `i` is at index `i`.
    pub closed spec fn spec_mounted(self) -> Seq<Transport> {
        self.mounted@
    }

    /// Mounts a transport under the given adapter id. Ids must be
    /// contiguous: the id mounted is exactly the number of adapters
    /// mounted before — mounting out of sequence is a programming error,
    /// excluded by contract.
    pub fn mount(&mut self, adapter_id: u8, transport: Transport)
        requires
            old(self).spec_mounted().len() == adapter_id as int,
        ensures
            final (self).spec_mounted() == old(self).spec_mounted().push(transport),
    {
        proof {
            assert(adapter_id as int == self.mounted@.len());
        }
        self.mounted.push(transport);
    }

    /// Hands the mounted configuration to the engine; the transport for
    /// adapter id `i` stands at index `i`.
    pub fn launch(self) -> (r: Vec<Transport>)
        ensures
            r@ == self.spec_mounted(),
    {
        self.mounted
    }

    /// The transport mounted under an adapter id, or nothing for an
    /// unmounted id — which callers must treat as a programming error.
    pub fn mounted_transport(&self, adapter_id: u8) -> (r: Option<Transport>)
        ensures
            (adapter_id as int) < self.spec_mounted().len() ==> r == Some(
                self.spec_mounted()[adapter_id as int],
            ),
            (adapter_id as int) >= self.spec_mounted().len() ==> r is None,
    {
        if (adapter_id as usize) < self.mounted.len() {
            Some(self.mounted[adapter_id as usize])
        } else {
            None
        }
    }
}

impl Default for AdapterLauncher {
    /// A launcher with nothing mounted.
    fn default() -> (r: AdapterLauncher)
        ensures
            r.spec_mounted() == Seq::<Transport>::empty(),
    {
        AdapterLauncher { mounted: Vec::new() }
    }
}

} // verus!
