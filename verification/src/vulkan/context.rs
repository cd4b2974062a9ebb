//! The choice of the physical device.
use vstd::prelude::*;

verus! {

// VkPhysicalDeviceType
pub const DEVICE_TYPE_OTHER: i32 = 0;
pub const DEVICE_TYPE_INTEGRATED_GPU: i32 = 1;
pub const DEVICE_TYPE_DISCRETE_GPU: i32 = 2;
pub const DEVICE_TYPE_VIRTUAL_GPU: i32 = 3;
pub const DEVICE_TYPE_CPU: i32 = 4;

/// What the choice needs to know of a physical device: whether it supports swapchains, which
/// of its queue families support both graphics and the surface, and its device type.
pub struct DeviceCandidate {
    pub supports_swapchain: bool,
    pub queue_families_suitable: Vec<bool>,
    pub device_type: i32,
}

/// How much a device type is preferred: discrete, integrated, virtual, CPU, other; lower is better.
pub open spec fn spec_device_type_rank(device_type: i32) -> u32 {
    if device_type == DEVICE_TYPE_DISCRETE_GPU {
        0
    } else if device_type == DEVICE_TYPE_INTEGRATED_GPU {
        1
    } else if device_type == DEVICE_TYPE_VIRTUAL_GPU {
        2
    } else if device_type == DEVICE_TYPE_CPU {
        3
    } else if device_type == DEVICE_TYPE_OTHER {
        4
    } else {
        5
    }
}

pub fn device_type_rank(device_type: i32) -> (r: u32)
    ensures
        r == spec_device_type_rank(device_type),
{
    if device_type == DEVICE_TYPE_DISCRETE_GPU {
        0
    } else if device_type == DEVICE_TYPE_INTEGRATED_GPU {
        1
    } else if device_type == DEVICE_TYPE_VIRTUAL_GPU {
        2
    } else if device_type == DEVICE_TYPE_CPU {
        3
    } else if device_type == DEVICE_TYPE_OTHER {
        4
    } else {
        5
    }
}

/// A device can be used when it supports swapchains and has a suitable queue family.
pub open spec fn usable(c: DeviceCandidate) -> bool {
    c.supports_swapchain && exists|q: int| 0 <= q < c.queue_families_suitable@.len() && c.queue_families_suitable@[q]
}

/// `q` is the first suitable queue family of `c`.
pub open spec fn first_suitable_family(c: DeviceCandidate, q: int) -> bool {
    &&& 0 <= q < c.queue_families_suitable@.len()
    &&& c.queue_families_suitable@[q]
    &&& forall|k: int| 0 <= k < q ==> !c.queue_families_suitable@[k]
}

fn first_suitable(families: &Vec<bool>) -> (r: Option<usize>)
    ensures
        r is None ==> forall|q: int| 0 <= q < families@.len() ==> !families@[q],
        r matches Some(q) ==> q < families@.len() && families@[q as int] && forall|k: int| 0 <= k < q ==> !families@[k],
{
    let mut q: usize = 0;
    while q < families.len()
        invariant
            0 <= q <= families@.len(),
            forall|k: int| 0 <= k < q ==> !families@[k],
        decreases families@.len() - q,
    {
        if families[q] {
            return Some(q);
        }
        q = q + 1;
    }
    None
}

/// Chooses the device to render with, and its queue family: among the usable devices, the
/// first of the best device type, with its first suitable queue family. None exactly when no
/// device is usable, and the renderer cannot start.
pub fn find_physical_device(candidates: &Vec<DeviceCandidate>) -> (r: Option<(usize, u32)>)
    requires
        forall|i: int| 0 <= i < candidates@.len() ==> (#[trigger] candidates@[i]).queue_families_suitable@.len() <= u32::MAX,
    ensures
        r is None <==> forall|i: int| 0 <= i < candidates@.len() ==> !usable(#[trigger] candidates@[i]),
        r matches Some((i, q)) ==> {
            &&& i < candidates@.len()
            &&& usable(candidates@[i as int])
            &&& first_suitable_family(candidates@[i as int], q as int)
            &&& forall|j: int| 0 <= j < candidates@.len() && usable(#[trigger] candidates@[j]) ==> spec_device_type_rank(
                candidates@[i as int].device_type,
            ) <= spec_device_type_rank(candidates@[j].device_type)
            &&& forall|j: int| 0 <= j < i && usable(#[trigger] candidates@[j]) ==> spec_device_type_rank(
                candidates@[i as int].device_type,
            ) < spec_device_type_rank(candidates@[j].device_type)
        },
{
    let mut best: Option<(usize, u32)> = None;
    let mut best_rank: u32 = 0;
    let mut i: usize = 0;
    while i < candidates.len()
        invariant
            0 <= i <= candidates@.len(),
            forall|k: int| 0 <= k < candidates@.len() ==> (#[trigger] candidates@[k]).queue_families_suitable@.len() <= u32::MAX,
            best is None <==> forall|k: int| 0 <= k < i ==> !usable(#[trigger] candidates@[k]),
            best matches Some((b, q)) ==> {
                &&& b < i
                &&& usable(candidates@[b as int])
                &&& first_suitable_family(candidates@[b as int], q as int)
                &&& best_rank == spec_device_type_rank(candidates@[b as int].device_type)
                &&& forall|j: int| 0 <= j < i && usable(#[trigger] candidates@[j]) ==> best_rank <= spec_device_type_rank(
                    candidates@[j].device_type,
                )
                &&& forall|j: int| 0 <= j < b && usable(#[trigger] candidates@[j]) ==> best_rank < spec_device_type_rank(
                    candidates@[j].device_type,
                )
            },
        decreases candidates@.len() - i,
    {
        let c = &candidates[i];
        if c.supports_swapchain {
            match first_suitable(&c.queue_families_suitable) {
                Some(q) => {
                    let rank = device_type_rank(c.device_type);
                    let better = match best {
                        None => true,
                        Some(_) => rank < best_rank,
                    };
                    if better {
                        best = Some((i, q as u32));
                        best_rank = rank;
                    }
                },
                None => {},
            }
        }
        i = i + 1;
    }
    best
}


/// Devices are preferred by type: a discrete GPU (`VkPhysicalDeviceType` 2) first, then an
/// integrated GPU (1), a virtual GPU (3), a CPU (4), another device (0), and last any type the
/// renderer does not know; their ranks are 0 to 5 in that order.
pub proof fn lemma_device_type_preference(device_type: i32)
    ensures
        spec_device_type_rank(2) == 0,
        spec_device_type_rank(1) == 1,
        spec_device_type_rank(3) == 2,
        spec_device_type_rank(4) == 3,
        spec_device_type_rank(0) == 4,
        !(0 <= device_type <= 4) ==> spec_device_type_rank(device_type) == 5,
        spec_device_type_rank(device_type) <= 5,
{
}

/// Of two usable devices, the choice never falls on one of a less preferred type: when a
/// usable device of type `better` comes before type `worse` in the preference order, a device
/// of type `worse` is not chosen.
pub proof fn lemma_chosen_device_type(candidates: Seq<DeviceCandidate>, chosen: int, other: int)
    requires
        0 <= chosen < candidates.len(),
        0 <= other < candidates.len(),
        usable(candidates[other]),
        forall|j: int| 0 <= j < candidates.len() && usable(#[trigger] candidates[j]) ==> spec_device_type_rank(
            candidates[chosen].device_type,
        ) <= spec_device_type_rank(candidates[j].device_type),
    ensures
        candidates[other].device_type == 2 ==> candidates[chosen].device_type == 2,
        candidates[other].device_type == 1 ==> candidates[chosen].device_type == 2 || candidates[chosen].device_type == 1,
        candidates[other].device_type == 3 ==> candidates[chosen].device_type == 2 || candidates[chosen].device_type == 1
            || candidates[chosen].device_type == 3,
        candidates[other].device_type == 4 ==> candidates[chosen].device_type != 0 && 0 <= candidates[chosen].device_type <= 4,
{
    assert(spec_device_type_rank(candidates[chosen].device_type) <= spec_device_type_rank(candidates[other].device_type));
}

} // verus!
