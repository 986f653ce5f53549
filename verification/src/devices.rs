//! Choosing a device among those the system lists.

use vstd::prelude::*;

verus! {

/// Vendor and product number of an input device.
#[derive(Clone, Copy, Debug, PartialEq, Eq, Structural)]
pub struct DeviceId {
    pub vendor: u16,
    pub product: u16,
}

/// The place of the first device in `ids` with the given vendor and product
/// number, if there is one.
pub fn first_match(ids: &Vec<DeviceId>, vendor: u16, product: u16) -> (r: Option<usize>)
    ensures
        match r {
            Some(i) => {
                &&& i < ids@.len()
                &&& ids@[i as int] == (DeviceId { vendor, product })
                &&& forall|k: int| 0 <= k < i ==> ids@[k] != (DeviceId { vendor, product })
            },
            None => forall|k: int| 0 <= k < ids@.len() ==> ids@[k] != (DeviceId { vendor, product }),
        },
{
    let mut i: usize = 0;
    while i < ids.len()
        invariant
            i <= ids.len(),
            forall|k: int| 0 <= k < i ==> ids@[k] != (DeviceId { vendor, product }),
        decreases ids.len() - i,
    {
        if ids[i].vendor == vendor && ids[i].product == product {
            return Some(i);
        }
        i += 1;
    }
    None
}

} // verus!
