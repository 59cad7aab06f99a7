//! Routes chain notifications, in trunk order, into the content store.
use vstd::prelude::*;
use crate::store::{ContentStore, StoreError, StoreView, unwind_spec};
use crate::trunk::{BlockHeader, extend_error};

verus! {

/// What a driver holds: its store, and the failure that stopped it, if any.
pub struct DriverView {
    pub store: StoreView,
    pub halted: Option<StoreError>,
}

/// The chain sync driver. After a store operation fails it refuses every
/// further notification with that error, since the store would no longer
/// follow the trunk.
pub struct Driver {
    store: ContentStore,
    halted: Option<StoreError>,
}

impl View for Driver {
    type V = DriverView;

    closed spec fn view(&self) -> DriverView {
        DriverView { store: self.store@, halted: self.halted }
    }
}

impl Driver {
    pub open spec fn wf(&self) -> bool {
        crate::store::store_wf(self@.store)
    }

    /// A driver that routes into `store`.
    pub fn new(store: ContentStore) -> (r: Driver)
        requires
            store.wf(),
        ensures
            r.wf(),
            r@.store == store@,
            r@.halted.is_none(),
    {
        Driver { store, halted: None }
    }

    /// The store, for read-only queries.
    pub fn store(&self) -> (r: &ContentStore)
        ensures
            r@ == self@.store,
    {
        &self.store
    }

    /// The failure that stopped this driver, if any.
    pub fn halted(&self) -> (r: Option<StoreError>)
        ensures
            r == self@.halted,
    {
        self.halted
    }

    /// A full block was connected: block bodies are of no concern here.
    pub fn block_connected(&mut self, header: &BlockHeader, height: u32)
        ensures
            final(self)@ == old(self)@,
    {
    }

    /// A header was connected to the trunk at `height`: records it in the
    /// store. A height other than the trunk's next one means the store no
    /// longer follows the chain, and is refused.
    pub fn header_connected(&mut self, header: &BlockHeader, height: u32) -> (r: Result<(), StoreError>)
        requires
            old(self).wf(),
        ensures
            final(self).wf(),
            old(self)@.halted.is_some() ==> r == Err::<(), StoreError>(old(self)@.halted.unwrap())
                && final(self)@ == old(self)@,
            old(self)@.halted.is_none() && height as nat != old(self)@.store.trunk.len() ==>
                r == Err::<(), StoreError>(StoreError::HeightMismatch)
                && final(self)@.halted == Some(StoreError::HeightMismatch)
                && final(self)@.store == old(self)@.store,
            old(self)@.halted.is_none() && height as nat == old(self)@.store.trunk.len() ==>
                match extend_error(old(self)@.store.trunk, *header) {
                Some(e) => r == Err::<(), StoreError>(StoreError::Rejected(e))
                    && final(self)@.halted == Some(StoreError::Rejected(e))
                    && final(self)@.store == old(self)@.store,
                None => r == Ok::<(), StoreError>(())
                    && final(self)@.halted.is_none()
                    && final(self)@.store.trunk == old(self)@.store.trunk.push(*header)
                    && final(self)@.store.entries == old(self)@.store.entries,
            },
    {
        if let Some(e) = self.halted {
            return Err(e);
        }
        if height as usize != self.store.trunk().next_height() {
            self.halted = Some(StoreError::HeightMismatch);
            return Err(StoreError::HeightMismatch);
        }
        match self.store.add_header(header) {
            Ok(_) => Ok(()),
            Err(e) => {
                self.halted = Some(e);
                Err(e)
            },
        }
    }

    /// A header was rolled back from the trunk: rolls it back in the store.
    pub fn block_disconnected(&mut self, header: &BlockHeader) -> (r: Result<(), StoreError>)
        requires
            old(self).wf(),
        ensures
            final(self).wf(),
            old(self)@.halted.is_some() ==> r == Err::<(), StoreError>(old(self)@.halted.unwrap())
                && final(self)@ == old(self)@,
            old(self)@.halted.is_none() ==> r == unwind_spec(old(self)@.store, *header).1
                && final(self)@.store == unwind_spec(old(self)@.store, *header).0
                && final(self)@.halted == (match r {
                    Ok(_) => None,
                    Err(e) => Some(e),
                }),
    {
        if let Some(e) = self.halted {
            return Err(e);
        }
        match self.store.unwind_tip(header) {
            Ok(()) => Ok(()),
            Err(e) => {
                self.halted = Some(e);
                Err(e)
            },
        }
    }
}

} // verus!
