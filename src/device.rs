use vstd::prelude::*;

use crate::error::RendererCreationError;

verus! {

/// Whether `i` is the first position of `handles` that holds `target`.
pub open spec fn is_first_match(handles: Seq<u64>, target: u64, i: int) -> bool {
    &&& 0 <= i < handles.len()
    &&& handles[i] == target
    &&& forall|j: int| 0 <= j < i ==> handles[j] != target
}

/// Whether some enumerated device carries the handle `target`.
pub open spec fn has_match(handles: Seq<u64>, target: u64) -> bool {
    exists|i: int| 0 <= i < handles.len() && handles[i] == target
}

/// The device that rendering uses, given the handles of the enumerated
/// devices, the handle that the VR runtime reports for the headset (if it
/// reports one) and the preferred fallback index (0 when none is given).
///
/// The reported device wins when it is among the enumerated ones; otherwise
/// the fallback index is used when it is in range; otherwise there is none.
pub open spec fn selected_device(handles: Seq<u64>, reported: Option<u64>, preferred: Option<usize>) -> Option<int> {
    match reported {
        Some(t) if has_match(handles, t) => Some(choose|i: int| is_first_match(handles, t, i)),
        _ => {
            let p = match preferred {
                Some(p) => p as int,
                None => 0,
            };
            if p < handles.len() {
                Some(p)
            } else {
                None
            }
        },
    }
}

proof fn lemma_first_match_unique(handles: Seq<u64>, target: u64, i: int, k: int)
    requires
        is_first_match(handles, target, i),
        is_first_match(handles, target, k),
    ensures
        i == k,
{
}

/// Finds the position of the first device whose handle equals `target`.
pub fn find_device(handles: &Vec<u64>, target: u64) -> (r: Option<usize>)
    ensures
        match r {
            Some(i) => is_first_match(handles@, target, i as int),
            None => !has_match(handles@, target),
        },
{
    let mut i: usize = 0;
    while i < handles.len()
        invariant
            0 <= i <= handles.len(),
            forall|j: int| 0 <= j < i ==> handles@[j] != target,
        decreases handles.len() - i,
    {
        if handles[i] == target {
            return Some(i);
        }
        i = i + 1;
    }
    None
}

/// Chooses the device to render with: the one the VR runtime reports for
/// the headset if it is enumerated, else the one at `preferred` (0 by
/// default), else `NoDevices`.
pub fn select_device(handles: &Vec<u64>, reported: Option<u64>, preferred: Option<usize>) -> (r: Result<usize, RendererCreationError>)
    ensures
        match selected_device(handles@, reported, preferred) {
            Some(i) => r == Ok::<usize, RendererCreationError>(i as usize),
            None => r == Err::<usize, RendererCreationError>(RendererCreationError::NoDevices),
        },
{
    if let Some(t) = reported {
        if let Some(i) = find_device(handles, t) {
            proof {
                let k = choose|k: int| is_first_match(handles@, t, k);
                lemma_first_match_unique(handles@, t, i as int, k);
            }
            return Ok(i);
        }
    }
    let p: usize = match preferred {
        Some(p) => p,
        None => 0,
    };
    if p < handles.len() {
        Ok(p)
    } else {
        Err(RendererCreationError::NoDevices)
    }
}

/// What rendering needs to know of one queue family of the chosen device.
#[derive(Debug, Clone, Copy, PartialEq, Eq)]
pub struct QueueFamilyCaps {
    pub supports_graphics: bool,
    pub explicitly_supports_transfers: bool,
}

/// Whether family `f` offers graphics (`graphics`) or dedicated transfer
/// support (`!graphics`).
pub open spec fn offers(f: QueueFamilyCaps, graphics: bool) -> bool {
    if graphics {
        f.supports_graphics
    } else {
        f.explicitly_supports_transfers
    }
}

/// Whether `i` is the first family of `fams` that offers the capability.
pub open spec fn is_first_family(fams: Seq<QueueFamilyCaps>, graphics: bool, i: int) -> bool {
    &&& 0 <= i < fams.len()
    &&& offers(fams[i], graphics)
    &&& forall|j: int| 0 <= j < i ==> !offers(fams[j], graphics)
}

/// The first family of `fams` that offers the capability, if any.
pub open spec fn first_family(fams: Seq<QueueFamilyCaps>, graphics: bool) -> Option<int> {
    if exists|i: int| is_first_family(fams, graphics, i) {
        Some(choose|i: int| is_first_family(fams, graphics, i))
    } else {
        None
    }
}

/// The (graphics, load) pair of queue families that the device is created
/// with: the first graphics-capable family, and the first family with
/// dedicated transfer support, or the graphics family if there is none.
pub open spec fn chosen_families(fams: Seq<QueueFamilyCaps>) -> Option<(int, int)> {
    match first_family(fams, true) {
        None => None,
        Some(g) => match first_family(fams, false) {
            Some(t) => Some((g, t)),
            None => Some((g, g)),
        },
    }
}

/// Finds the first family that offers graphics (`graphics`) or dedicated
/// transfer support (`!graphics`).
fn find_family(fams: &Vec<QueueFamilyCaps>, graphics: bool) -> (r: Option<usize>)
    ensures
        match first_family(fams@, graphics) {
            Some(i) => r == Some(i as usize),
            None => r == None::<usize>,
        },
{
    let mut i: usize = 0;
    while i < fams.len()
        invariant
            0 <= i <= fams.len(),
            forall|j: int| 0 <= j < i ==> !offers(#[trigger] fams@[j], graphics),
        decreases fams.len() - i,
    {
        let f = fams[i];
        let hit = if graphics {
            f.supports_graphics
        } else {
            f.explicitly_supports_transfers
        };
        if hit {
            proof {
                assert(is_first_family(fams@, graphics, i as int));
                let k = choose|k: int| is_first_family(fams@, graphics, k);
                if k < i {
                    assert(!offers(fams@[k], graphics));
                }
                if i < k {
                    assert(!offers(fams@[i as int], graphics));
                }
            }
            return Some(i);
        }
        i = i + 1;
    }
    proof {
        if exists|k: int| is_first_family(fams@, graphics, k) {
            let k = choose|k: int| is_first_family(fams@, graphics, k);
            assert(!offers(fams@[k], graphics));
        }
    }
    None
}

/// Chooses the graphics queue family and the load (transfer) queue family
/// of the device; `NoQueue` when no family supports graphics.
pub fn select_queue_families(fams: &Vec<QueueFamilyCaps>) -> (r: Result<(usize, usize), RendererCreationError>)
    ensures
        match chosen_families(fams@) {
            Some((g, t)) => r == Ok::<(usize, usize), RendererCreationError>((g as usize, t as usize)),
            None => r == Err::<(usize, usize), RendererCreationError>(RendererCreationError::NoQueue),
        },
{
    match find_family(fams, true) {
        None => Err(RendererCreationError::NoQueue),
        Some(g) => match find_family(fams, false) {
            Some(t) => Ok((g, t)),
            None => Ok((g, g)),
        },
    }
}

/// When the handle that the VR runtime reports is among the enumerated
/// devices, the first device carrying it is selected, whatever index was
/// preferred; when it is not (or none is reported), the device at the
/// preferred index is selected, index 0 when none is given, if it exists.
pub proof fn lemma_device_selection(handles: Seq<u64>, reported: Option<u64>, preferred: Option<usize>, other: Option<usize>)
    ensures
        reported is Some && has_match(handles, reported->0) ==> {
            &&& selected_device(handles, reported, preferred) is Some
            &&& is_first_match(handles, reported->0, selected_device(handles, reported, preferred)->0)
            &&& selected_device(handles, reported, preferred) == selected_device(handles, reported, other)
        },
        !(reported is Some && has_match(handles, reported->0)) ==> {
            let p = match preferred {
                Some(p) => p as int,
                None => 0,
            };
            &&& p < handles.len() ==> selected_device(handles, reported, preferred) == Some(p)
            &&& p >= handles.len() ==> selected_device(handles, reported, preferred) is None
        },
{
    if reported is Some && has_match(handles, reported->0) {
        lemma_first_match_exists(handles, reported->0);
    }
}

proof fn lemma_first_match_exists(handles: Seq<u64>, target: u64)
    requires
        has_match(handles, target),
    ensures
        exists|i: int| is_first_match(handles, target, i),
    decreases handles.len(),
{
    if handles[0] == target {
        assert(is_first_match(handles, target, 0));
    } else {
        let rest = handles.drop_first();
        let i = choose|i: int| 0 <= i < handles.len() && handles[i] == target;
        assert(rest[i - 1] == target);
        lemma_first_match_exists(rest, target);
        let k = choose|k: int| is_first_match(rest, target, k);
        assert(is_first_match(handles, target, k + 1)) by {
            assert forall|j: int| 0 <= j < k + 1 implies handles[j] != target by {
                if j > 0 {
                    assert(handles[j] == rest[j - 1]);
                }
            }
        }
    }
}

} // verus!
