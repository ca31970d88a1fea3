//! The choice of the physical device and of its graphics and transfer queue
//! families.
use vstd::prelude::*;

verus! {

/// The kind of a physical device, as the driver reports it.
#[derive(Clone, Copy, Debug, PartialEq, Eq, Structural)]
pub enum DeviceKind {
    DiscreteGpu,
    IntegratedGpu,
    VirtualGpu,
    Cpu,
    Other,
}

/// What a queue family offers.
#[derive(Clone, Copy, Debug, PartialEq, Eq, Structural)]
pub struct QueueFamilyCaps {
    pub graphics: bool,
    pub transfer: bool,
    /// It can present to the window's surface.
    pub surface_support: bool,
}

/// What the choice reads of a physical device.
#[derive(Clone, Debug)]
pub struct DeviceCandidate {
    pub kind: DeviceKind,
    /// It has every device extension the renderer needs.
    pub supports_extensions: bool,
    /// It has every device feature the renderer needs.
    pub supports_features: bool,
    pub queue_families: Vec<QueueFamilyCaps>,
}

/// Lower is preferred: discrete, integrated, virtual, CPU, anything else.
pub open spec fn rank(kind: DeviceKind) -> int {
    match kind {
        DeviceKind::DiscreteGpu => 0,
        DeviceKind::IntegratedGpu => 1,
        DeviceKind::VirtualGpu => 2,
        DeviceKind::Cpu => 3,
        DeviceKind::Other => 4,
    }
}

pub open spec fn graphics_ok(q: QueueFamilyCaps) -> bool {
    q.graphics && q.surface_support
}

/// `i` is the first family that draws and presents.
pub open spec fn is_graphics_family(fams: Seq<QueueFamilyCaps>, i: int) -> bool {
    &&& 0 <= i < fams.len()
    &&& graphics_ok(fams[i])
    &&& forall|k: int| 0 <= k < i ==> !graphics_ok(#[trigger] fams[k])
}

/// `t` is the first family other than `g` that transfers.
pub open spec fn is_transfer_family(fams: Seq<QueueFamilyCaps>, g: int, t: int) -> bool {
    &&& 0 <= t < fams.len()
    &&& fams[t].transfer && t != g
    &&& forall|k: int| 0 <= k < t ==> !((#[trigger] fams[k]).transfer && k != g)
}

pub open spec fn has_graphics(fams: Seq<QueueFamilyCaps>) -> bool {
    exists|i: int| 0 <= i < fams.len() && graphics_ok(#[trigger] fams[i])
}

pub open spec fn has_transfer(fams: Seq<QueueFamilyCaps>, g: int) -> bool {
    exists|t: int| 0 <= t < fams.len() && (#[trigger] fams[t]).transfer && t != g
}

/// The device has what the renderer needs, a family that draws and presents,
/// and another family that transfers.
pub open spec fn eligible(d: DeviceCandidate) -> bool {
    &&& d.supports_extensions
    &&& d.supports_features
    &&& has_graphics(d.queue_families@)
    &&& forall|g: int| is_graphics_family(d.queue_families@, g) ==> has_transfer(d.queue_families@, g)
}

fn rank_of(kind: DeviceKind) -> (r: u8)
    ensures
        r == rank(kind),
{
    match kind {
        DeviceKind::DiscreteGpu => 0,
        DeviceKind::IntegratedGpu => 1,
        DeviceKind::VirtualGpu => 2,
        DeviceKind::Cpu => 3,
        DeviceKind::Other => 4,
    }
}

/// The first family that draws and presents, if any.
pub fn graphics_family(fams: &Vec<QueueFamilyCaps>) -> (r: Option<usize>)
    ensures
        match r {
            Some(i) => is_graphics_family(fams@, i as int),
            None => !has_graphics(fams@),
        },
{
    let mut i: usize = 0;
    while i < fams.len()
        invariant
            i <= fams@.len(),
            forall|k: int| 0 <= k < i ==> !graphics_ok(#[trigger] fams@[k]),
        decreases fams@.len() - i,
    {
        if fams[i].graphics && fams[i].surface_support {
            return Some(i);
        }
        i = i + 1;
    }
    None
}

/// The first family other than `g` that transfers, if any.
pub fn transfer_family(fams: &Vec<QueueFamilyCaps>, g: usize) -> (r: Option<usize>)
    ensures
        match r {
            Some(t) => is_transfer_family(fams@, g as int, t as int),
            None => !has_transfer(fams@, g as int),
        },
{
    let mut t: usize = 0;
    while t < fams.len()
        invariant
            t <= fams@.len(),
            forall|k: int| 0 <= k < t ==> !((#[trigger] fams@[k]).transfer && k != g),
        decreases fams@.len() - t,
    {
        if fams[t].transfer && t != g {
            return Some(t);
        }
        t = t + 1;
    }
    None
}

proof fn lemma_graphics_family_unique(fams: Seq<QueueFamilyCaps>, a: int, b: int)
    requires
        is_graphics_family(fams, a),
        is_graphics_family(fams, b),
    ensures
        a == b,
{
    if a < b {
        assert(!graphics_ok(fams[a]));
    } else if b < a {
        assert(!graphics_ok(fams[b]));
    }
}

/// The device to render with and its graphics and transfer queue families:
/// among the eligible devices, the first of the most preferred kind. None
/// when no device is eligible.
pub fn select_physical_device(devices: &Vec<DeviceCandidate>) -> (r: Option<(usize, u32, u32)>)
    requires
        forall|k: int| 0 <= k < devices@.len() ==> (#[trigger] devices@[k]).queue_families@.len() <= u32::MAX,
    ensures
        match r {
            Some((k, g, t)) => {
                &&& k < devices@.len()
                &&& eligible(devices@[k as int])
                &&& is_graphics_family(devices@[k as int].queue_families@, g as int)
                &&& is_transfer_family(devices@[k as int].queue_families@, g as int, t as int)
                &&& forall|j: int|
                    0 <= j < devices@.len() && eligible(#[trigger] devices@[j]) ==> rank(devices@[k as int].kind)
                        <= rank(devices@[j].kind)
                &&& forall|j: int|
                    0 <= j < k && eligible(#[trigger] devices@[j]) ==> rank(devices@[k as int].kind) < rank(
                        devices@[j].kind,
                    )
            },
            None => forall|j: int| 0 <= j < devices@.len() ==> !eligible(#[trigger] devices@[j]),
        },
{
    let mut best: Option<(usize, u32, u32)> = None;
    let mut best_rank: u8 = 0;
    let mut k: usize = 0;
    while k < devices.len()
        invariant
            k <= devices@.len(),
            forall|j: int| 0 <= j < devices@.len() ==> (#[trigger] devices@[j]).queue_families@.len() <= u32::MAX,
            match best {
                Some((b, g, t)) => {
                    &&& b < k
                    &&& best_rank == rank(devices@[b as int].kind)
                    &&& eligible(devices@[b as int])
                    &&& is_graphics_family(devices@[b as int].queue_families@, g as int)
                    &&& is_transfer_family(devices@[b as int].queue_families@, g as int, t as int)
                    &&& forall|j: int|
                        0 <= j < k && eligible(#[trigger] devices@[j]) ==> rank(devices@[b as int].kind)
                            <= rank(devices@[j].kind)
                    &&& forall|j: int|
                        0 <= j < b && eligible(#[trigger] devices@[j]) ==> rank(devices@[b as int].kind)
                            < rank(devices@[j].kind)
                },
                None => forall|j: int| 0 <= j < k ==> !eligible(#[trigger] devices@[j]),
            },
        decreases devices@.len() - k,
    {
        let d = &devices[k];
        if d.supports_extensions && d.supports_features {
            match graphics_family(&d.queue_families) {
                Some(g) => {
                    match transfer_family(&d.queue_families, g) {
                        Some(t) => {
                            let r = rank_of(d.kind);
                            let better = match best {
                                None => true,
                                Some(_) => r < best_rank,
                            };
                            proof {
                                assert(eligible(devices@[k as int])) by {
                                    assert(graphics_ok(d.queue_families@[g as int]));
                                    assert forall|g2: int| is_graphics_family(d.queue_families@, g2) implies has_transfer(
                                        d.queue_families@,
                                        g2,
                                    ) by {
                                        lemma_graphics_family_unique(d.queue_families@, g as int, g2);
                                        assert(d.queue_families@[t as int].transfer);
                                    }
                                }
                            }
                            if better {
                                best = Some((k, g as u32, t as u32));
                                best_rank = r;
                            }
                        },
                        None => {
                            proof {
                                assert(!eligible(devices@[k as int])) by {
                                    assert(is_graphics_family(d.queue_families@, g as int));
                                }
                            }
                        },
                    }
                },
                None => {},
            }
        }
        k = k + 1;
    }
    best
}

} // verus!
