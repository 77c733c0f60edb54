//! The rules by which a graphics device and its queue families are chosen.

use crate::structs::{QueueFamily, QueueFamilyIndices};
use vstd::prelude::*;

verus! {

/// The choice of queue families after a look at the first `n` of
/// `families`, in their order. The search stops at the first family with
/// which the choice is complete; until then a later family takes the place
/// of an earlier one for each purpose that it serves.
pub open spec fn search(families: Seq<QueueFamily>, n: nat) -> QueueFamilyIndices
    decreases n,
{
    if n == 0 {
        QueueFamilyIndices { graphics_family: None, present_family: None }
    } else {
        let before = search(families, (n - 1) as nat);
        if before.complete() {
            before
        } else {
            before.seen((n - 1) as u32, families[n - 1])
        }
    }
}

/// A family is chosen for a purpose only if it serves it, and the choice is
/// complete exactly where some family serves graphics and some family
/// serves presenting.
pub proof fn lemma_search(families: Seq<QueueFamily>, n: nat)
    requires
        n <= families.len() <= u32::MAX,
    ensures
        search(families, n).graphics_family matches Some(g) ==> g < n
            && families[g as int].serves_graphics(),
        search(families, n).present_family matches Some(p) ==> p < n
            && families[p as int].serves_present(),
        search(families, n).graphics_family is Some <==> exists|i: int|
            0 <= i < n && #[trigger] families[i].serves_graphics(),
        search(families, n).present_family is Some <==> exists|i: int|
            0 <= i < n && #[trigger] families[i].serves_present(),
    decreases n,
{
    if n > 0 {
        lemma_search(families, (n - 1) as nat);
    }
}

/// Chooses the queue families for graphics and for presenting among
/// `families`, which are numbered in their order.
pub fn find_queue_family(families: &Vec<QueueFamily>) -> (r: QueueFamilyIndices)
    requires
        families@.len() <= u32::MAX,
    ensures
        r == search(families@, families@.len()),
        r.complete() <==> (exists|i: int|
            0 <= i < families@.len() && #[trigger] families@[i].serves_graphics()) && (exists|
            i: int,
        | 0 <= i < families@.len() && #[trigger] families@[i].serves_present()),
{
    let mut queue_family_indices = QueueFamilyIndices::new();
    let mut index: u32 = 0;
    let mut at: usize = 0;
    while at < families.len()
        invariant_except_break
            index == at,
            queue_family_indices == search(families@, at as nat),
            !queue_family_indices.complete(),
        invariant
            at <= families@.len() <= u32::MAX,
        ensures
            queue_family_indices == search(families@, families@.len()),
        decreases families@.len() - at,
    {
        let queue_family = &families[at];
        if queue_family.queue_count > 0 && queue_family.graphics {
            queue_family_indices.graphics_family = Some(index);
        }
        if queue_family.queue_count > 0 && queue_family.present {
            queue_family_indices.present_family = Some(index);
        }
        if queue_family_indices.is_complete() {
            proof {
                lemma_search_stays(families@, (at + 1) as nat, families@.len());
            }
            break ;
        }
        index += 1;
        at += 1;
    }
    proof {
        lemma_search(families@, families@.len());
    }
    queue_family_indices
}

/// A complete choice is final: the families that follow do not change it.
pub proof fn lemma_search_stays(families: Seq<QueueFamily>, n: nat, m: nat)
    requires
        n <= m,
        search(families, n).complete(),
    ensures
        search(families, m) == search(families, n),
    decreases m,
{
    if n < m {
        lemma_search_stays(families, n, (m - 1) as nat);
    }
}

/// The first of `families` with a queue that takes graphics commands, by
/// its number.
pub fn find_graphics_family(families: &Vec<QueueFamily>) -> (r: Option<u32>)
    requires
        families@.len() <= u32::MAX,
    ensures
        match r {
            Some(g) => {
                &&& g < families@.len()
                &&& families@[g as int].serves_graphics()
                &&& forall|i: int| 0 <= i < g ==> !(#[trigger] families@[i]).serves_graphics()
            },
            None => forall|i: int|
                0 <= i < families@.len() ==> !(#[trigger] families@[i]).serves_graphics(),
        },
{
    let mut index: u32 = 0;
    let mut at: usize = 0;
    while at < families.len()
        invariant
            at <= families@.len() <= u32::MAX,
            index == at,
            forall|i: int| 0 <= i < at ==> !(#[trigger] families@[i]).serves_graphics(),
        decreases families@.len() - at,
    {
        let queue_family = &families[at];
        if queue_family.queue_count > 0 && queue_family.graphics {
            return Some(index);
        }
        index += 1;
        at += 1;
    }
    None
}

/// The first suitable device, by its place in `suitable`, which says of
/// each device in turn whether it is suitable.
pub fn first_suitable(suitable: &Vec<bool>) -> (r: Option<usize>)
    ensures
        match r {
            Some(d) => d < suitable@.len() && suitable@[d as int] && forall|i: int|
                0 <= i < d ==> !suitable@[i],
            None => forall|i: int| 0 <= i < suitable@.len() ==> !suitable@[i],
        },
{
    let mut at: usize = 0;
    while at < suitable.len()
        invariant
            at <= suitable@.len(),
            forall|i: int| 0 <= i < at ==> !suitable@[i],
        decreases suitable@.len() - at,
    {
        if suitable[at] {
            return Some(at);
        }
        at += 1;
    }
    None
}

/// `name` is one of `names`.
pub open spec fn offers(names: Seq<String>, name: String) -> bool {
    exists|i: int| 0 <= i < names.len() && (#[trigger] names[i])@ == name@
}

/// Whether `name` is one of `names`.
pub fn is_offered(names: &Vec<String>, name: &String) -> (b: bool)
    ensures
        b == offers(names@, *name),
{
    let mut at: usize = 0;
    while at < names.len()
        invariant
            at <= names@.len(),
            forall|i: int| 0 <= i < at ==> (#[trigger] names@[i])@ != name@,
        decreases names@.len() - at,
    {
        if names[at] == *name {
            return true;
        }
        at += 1;
    }
    false
}

/// Whether a device offers every extension that is required: each name in
/// `required` is among `available`.
pub fn check_device_extension_support(available: &Vec<String>, required: &Vec<String>) -> (b:
    bool)
    ensures
        b == forall|i: int| 0 <= i < required@.len() ==> offers(available@, #[trigger] required@[i]),
{
    let mut at: usize = 0;
    while at < required.len()
        invariant
            at <= required@.len(),
            forall|i: int| 0 <= i < at ==> offers(available@, #[trigger] required@[i]),
        decreases required@.len() - at,
    {
        if !is_offered(available, &required[at]) {
            return false;
        }
        at += 1;
    }
    true
}

/// Whether the validation layers that are asked for can be had: one of the
/// names in `required` is among `available`.
pub fn check_validation_layer_support(available: &Vec<String>, required: &Vec<String>) -> (b:
    bool)
    ensures
        b == exists|i: int| 0 <= i < required@.len() && offers(available@, #[trigger] required@[i]),
{
    if available.len() == 0 {
        return false;
    }
    let mut at: usize = 0;
    while at < required.len()
        invariant
            at <= required@.len(),
            forall|i: int| 0 <= i < at ==> !offers(available@, #[trigger] required@[i]),
        decreases required@.len() - at,
    {
        if is_offered(available, &required[at]) {
            return true;
        }
        at += 1;
    }
    false
}

/// Whether a device will do: it has the queue families, offers the
/// extensions, and can make a swapchain.
pub fn is_device_suitable(
    indices: &QueueFamilyIndices,
    extensions_supported: bool,
    swapchain_adequate: bool,
) -> (b: bool)
    ensures
        b == (indices.complete() && extensions_supported && swapchain_adequate),
{
    indices.is_complete() && extensions_supported && swapchain_adequate
}

} // verus!
