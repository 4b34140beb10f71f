//! Inventories that wait to be opened for a player.

use vstd::prelude::*;

verus! {

/// An inventory to open for a player; both are named by their entity.
#[derive(Clone, Copy, Debug, PartialEq, Eq, Structural)]
pub struct InventoryToOpen {
    pub client: u64,
    pub open_inventory: u64,
}

/// The inventories that wait to be opened, in the order in which they were
/// asked for.
#[derive(Debug)]
pub struct InventoriesToOpen {
    inventories: Vec<InventoryToOpen>,
}

impl InventoriesToOpen {
    /// The inventories that wait.
    pub closed spec fn waiting(&self) -> Seq<InventoryToOpen> {
        self.inventories@
    }

    /// A queue in which nothing waits.
    pub fn new() -> (queue: InventoriesToOpen)
        ensures
            queue.waiting().len() == 0,
    {
        InventoriesToOpen { inventories: Vec::new() }
    }

    /// Asks for an inventory to be opened.
    pub fn add(&mut self, inventory: InventoryToOpen)
        ensures
            final(self).waiting() == old(self).waiting().push(inventory),
    {
        self.inventories.push(inventory);
    }

    /// Takes every inventory that waits out of the queue, to be opened.
    pub fn open_queued_inventories(&mut self) -> (opened: Vec<InventoryToOpen>)
        ensures
            opened@ == old(self).waiting(),
            final(self).waiting().len() == 0,
    {
        let mut opened: Vec<InventoryToOpen> = Vec::new();
        std::mem::swap(&mut opened, &mut self.inventories);
        opened
    }
}

} // verus!
