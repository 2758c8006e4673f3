//! Context configuration: device filtering, queue-family discovery, and the
//! logical-device plan.
//!
//! The configurator consumes the plain data gathered per physical device
//! (properties, features, supported extensions, surface support) and decides
//! which devices are suitable, which queue families serve which operations,
//! and what the logical device is created with. The driver calls that gather
//! the data and realize the plan live outside the library. The context
//! aggregates the negotiated pieces and fixes the strict reverse-dependency
//! teardown order of the owned handles.

use vstd::prelude::*;

use crate::base::Base;
use crate::base::DestroyAction;
use crate::encoding::contains_bytes;
use crate::encoding::copy_byte_lists;
use crate::encoding::spec_contains_bytes;
use crate::encoding::spec_encodable;
use crate::encoding::spec_native_string;
use crate::encoding::to_c_str_array;
use crate::errors::Error;
use crate::queue::default_queue_mapper;
use crate::queue::spec_feasible_pair;
use crate::queue::QueueCreateInfo;
use crate::queue::QueueHandles;
use crate::queue::QueueSelections;
use crate::queue::COMPUTE;
use crate::queue::COUNT;
use crate::queue::GRAPHICS;
use crate::queue::PRESENT;
use crate::queue::QUEUE_FLAG_COMPUTE;
use crate::queue::QUEUE_FLAG_GRAPHICS;
use crate::queue::QUEUE_FLAG_TRANSFER;
use crate::queue::TRANSFER;
use crate::surface::Surface;
use crate::surface::SurfaceProperties;
use crate::surface::DisplayHandle;
use crate::surface::WindowHandle;
use vstd::utf8::encode_utf8;

verus! {

/// Native device-type value of a discrete GPU.
pub const DEVICE_TYPE_DISCRETE_GPU: u32 = 2;

/// The physical-device properties the device filter reads.
#[derive(Clone, Copy, Debug, PartialEq, Eq, Structural)]
pub struct DeviceProperties {
    /// Native device-type value.
    pub device_type: u32,
}

/// The feature bundle negotiated for device creation.
#[derive(Clone, Copy, Debug, PartialEq, Eq, Structural)]
pub struct DeviceFeatures {
    /// Whether geometry shaders are requested.
    pub geometry_shader: bool,
}

impl Default for DeviceFeatures {
    /// The empty feature bundle: nothing requested.
    fn default() -> (r: Self)
        ensures
            r == (DeviceFeatures { geometry_shader: false }),
    {
        DeviceFeatures { geometry_shader: false }
    }
}

/// Everything gathered about one enumerated physical device before
/// filtering.
#[derive(Debug)]
pub struct PhysicalDeviceCandidate {
    /// Opaque device identifier chosen by the caller that enumerated it.
    pub device: u64,
    /// Reported device properties.
    pub properties: DeviceProperties,
    /// Reported device features.
    pub features: DeviceFeatures,
    /// Names of the device extensions the device supports, as native strings.
    pub extensions: Vec<Vec<u8>>,
    /// The device's support for the bound surface.
    pub surface_properties: SurfaceProperties,
}

/// A physical device that passed all filters, with the feature bundle chosen
/// for it and its surface support.
#[derive(Debug)]
pub struct PhysicalDeviceInfo {
    /// Opaque device identifier, as handed in with the candidate.
    pub device: u64,
    /// The feature bundle the device mapper chose.
    pub features: DeviceFeatures,
    /// The device's support for the bound surface.
    pub surface_properties: SurfaceProperties,
}

/// The policy that decides whether a physical device is acceptable and which
/// feature bundle to enable on it. The original configuration exposes this
/// as a pluggable mapping, so implementations outside the library may
/// substitute their own; each must prove its executable mapping against its
/// own specification.
pub trait DeviceMapper: Sized {
    /// What the mapping returns for given properties and features.
    spec fn spec_map(&self, properties: DeviceProperties, features: DeviceFeatures) -> Option<
        DeviceFeatures,
    >;

    /// Decides on a device: the feature bundle to enable, or nothing to
    /// reject the device.
    fn map_device(&self, properties: &DeviceProperties, features: &DeviceFeatures) -> (r: Option<
        DeviceFeatures,
    >)
        ensures
            r == self.spec_map(*properties, *features),
    ;
}

/// The default device policy: accept exactly the discrete GPUs, with no
/// features requested.
#[derive(Clone, Copy, Debug, PartialEq, Eq, Structural)]
pub struct DefaultDeviceMapper;

impl DeviceMapper for DefaultDeviceMapper {
    open spec fn spec_map(&self, properties: DeviceProperties, features: DeviceFeatures) -> Option<
        DeviceFeatures,
    > {
        if properties.device_type == DEVICE_TYPE_DISCRETE_GPU {
            Option::Some(DeviceFeatures { geometry_shader: false })
        } else {
            Option::None
        }
    }

    fn map_device(&self, properties: &DeviceProperties, features: &DeviceFeatures) -> (r: Option<
        DeviceFeatures,
    >) {
        if properties.device_type == DEVICE_TYPE_DISCRETE_GPU {
            Some(DeviceFeatures::default())
        } else {
            None
        }
    }
}

/// The policy that assigns queue families to operations from the feasible
/// (operation, family) pairs. Pluggable like the device mapper.
pub trait QueueMapper: Sized {
    /// Builds a queue selection from the feasibility lists: every operation
    /// occurring in the input is assigned, and every assignment pairs an
    /// operation with a family that was feasible for it.
    fn map_queues(
        &self,
        queue_operations: &[u8],
        queue_family_indices: &[u32],
        family_count: u32,
    ) -> (r: QueueSelections)
        requires
            queue_operations@.len() == queue_family_indices@.len(),
            forall|k: int|
                0 <= k < queue_operations@.len() ==> (#[trigger] queue_operations@[k] as usize)
                    < COUNT,
            forall|k: int|
                0 <= k < queue_family_indices@.len() ==> (#[trigger] queue_family_indices@[k])
                    < family_count,
        ensures
            r.wf(),
            r.families@.len() == family_count,
            forall|k: int|
                0 <= k < queue_operations@.len() ==> r.operations@[(
                #[trigger] queue_operations@[k]) as int] is Some,
            forall|op: int|
                0 <= op < COUNT && (#[trigger] r.operations@[op]) is Some ==> spec_feasible_pair(
                    queue_operations@,
                    queue_family_indices@,
                    op as u8,
                    r.operations@[op]->0.index,
                ),
    ;
}

/// The default queue policy: one deduplicating extraction pass over the
/// feasibility pairs.
#[derive(Clone, Copy, Debug, PartialEq, Eq, Structural)]
pub struct DefaultQueueMapper;

impl QueueMapper for DefaultQueueMapper {
    fn map_queues(
        &self,
        queue_operations: &[u8],
        queue_family_indices: &[u32],
        family_count: u32,
    ) -> (r: QueueSelections) {
        default_queue_mapper(queue_operations, queue_family_indices, family_count)
    }
}

/// The standard device-extension requirement: the swapchain extension.
pub fn create_physical_device_extension_requirements() -> (r: Vec<String>)
    ensures
        r@.len() == 1,
        r@[0]@ == "VK_KHR_swapchain"@,
{
    let mut r: Vec<String> = Vec::new();
    r.push("VK_KHR_swapchain".to_owned());
    r
}

/// Whether every required extension occurs in the available list.
pub open spec fn spec_extensions_supported(required: Seq<Vec<u8>>, available: Seq<Vec<u8>>) -> bool {
    forall|i: int|
        0 <= i < required.len() ==> spec_contains_bytes(available, (#[trigger] required[i])@)
}

/// Whether a candidate passes all device filters: required extensions
/// present, adequate surface support, and accepted by the device mapper.
pub open spec fn spec_candidate_eligible<M: DeviceMapper>(
    mapper: M,
    required: Seq<Vec<u8>>,
    c: PhysicalDeviceCandidate,
) -> bool {
    &&& spec_extensions_supported(required, c.extensions@)
    &&& c.surface_properties.spec_adequate()
    &&& mapper.spec_map(c.properties, c.features) is Some
}

/// The retained record of an eligible candidate.
pub open spec fn spec_info_of<M: DeviceMapper>(mapper: M, c: PhysicalDeviceCandidate) -> PhysicalDeviceInfo {
    PhysicalDeviceInfo {
        device: c.device,
        features: mapper.spec_map(c.properties, c.features)->0,
        surface_properties: c.surface_properties,
    }
}

/// The filtered candidate list, in enumeration order: the retained record of
/// every eligible candidate.
pub open spec fn spec_filter_devices<M: DeviceMapper>(
    mapper: M,
    required: Seq<Vec<u8>>,
    cs: Seq<PhysicalDeviceCandidate>,
) -> Seq<PhysicalDeviceInfo>
    decreases cs.len(),
{
    if cs.len() == 0 {
        Seq::empty()
    } else {
        let rest = spec_filter_devices(mapper, required, cs.subrange(1, cs.len() as int));
        if spec_candidate_eligible(mapper, required, cs[0]) {
            seq![spec_info_of(mapper, cs[0])] + rest
        } else {
            rest
        }
    }
}

/// The filter is a function of the candidate data alone: equal candidate
/// lists filter to equal results, so enumerating a fixed environment twice
/// yields the same filtered list.
pub proof fn lemma_device_filter_deterministic<M: DeviceMapper>(
    mapper: M,
    required: Seq<Vec<u8>>,
    cs1: Seq<PhysicalDeviceCandidate>,
    cs2: Seq<PhysicalDeviceCandidate>,
)
    requires
        cs1 == cs2,
    ensures
        spec_filter_devices(mapper, required, cs1) == spec_filter_devices(mapper, required, cs2),
{
}

/// Every eligible candidate is retained: its record occurs in the filtered
/// list.
pub proof fn lemma_device_filter_retains<M: DeviceMapper>(
    mapper: M,
    required: Seq<Vec<u8>>,
    cs: Seq<PhysicalDeviceCandidate>,
    i: int,
)
    requires
        0 <= i < cs.len(),
        spec_candidate_eligible(mapper, required, cs[i]),
    ensures
        spec_filter_devices(mapper, required, cs).contains(spec_info_of(mapper, cs[i])),
    decreases cs.len(),
{
    let rest = spec_filter_devices(mapper, required, cs.subrange(1, cs.len() as int));
    if i == 0 {
        let filtered = spec_filter_devices(mapper, required, cs);
        assert(filtered[0] == spec_info_of(mapper, cs[0]));
    } else {
        lemma_device_filter_retains(mapper, required, cs.subrange(1, cs.len() as int), i - 1);
        let j = choose|j: int|
            0 <= j < rest.len() && rest[j] == spec_info_of(
                mapper,
                cs.subrange(1, cs.len() as int)[i - 1],
            );
        if spec_candidate_eligible(mapper, required, cs[0]) {
            assert(spec_filter_devices(mapper, required, cs)[j + 1] == rest[j]);
        } else {
            assert(spec_filter_devices(mapper, required, cs)[j] == rest[j]);
        }
    }
}

/// Everything retained came from an eligible candidate: each entry of the
/// filtered list is the record of some eligible candidate.
pub proof fn lemma_device_filter_sound<M: DeviceMapper>(
    mapper: M,
    required: Seq<Vec<u8>>,
    cs: Seq<PhysicalDeviceCandidate>,
    j: int,
)
    requires
        0 <= j < spec_filter_devices(mapper, required, cs).len(),
    ensures
        exists|i: int|
            0 <= i < cs.len() && spec_candidate_eligible(mapper, required, #[trigger] cs[i])
                && spec_filter_devices(mapper, required, cs)[j] == spec_info_of(mapper, cs[i]),
    decreases cs.len(),
{
    let filtered = spec_filter_devices(mapper, required, cs);
    let tail = cs.subrange(1, cs.len() as int);
    let rest = spec_filter_devices(mapper, required, tail);
    if spec_candidate_eligible(mapper, required, cs[0]) {
        if j == 0 {
            assert(spec_candidate_eligible(mapper, required, cs[0]) && filtered[0] == spec_info_of(
                mapper,
                cs[0],
            ));
        } else {
            lemma_device_filter_sound(mapper, required, tail, j - 1);
            let i = choose|i: int|
                0 <= i < tail.len() && spec_candidate_eligible(mapper, required, #[trigger] tail[i])
                    && rest[j - 1] == spec_info_of(mapper, tail[i]);
            assert(cs[i + 1] == tail[i]);
            assert(filtered[j] == rest[j - 1]);
        }
    } else {
        lemma_device_filter_sound(mapper, required, tail, j);
        let i = choose|i: int|
            0 <= i < tail.len() && spec_candidate_eligible(mapper, required, #[trigger] tail[i])
                && rest[j] == spec_info_of(mapper, tail[i]);
        assert(cs[i + 1] == tail[i]);
    }
}

/// Which operations a queue family can serve: the capability flags decide
/// graphics, compute and transfer; the per-family surface query decides
/// presentation.
#[derive(Clone, Copy, Debug, PartialEq, Eq, Structural)]
pub struct QueueFamilyDesc {
    /// Native queue-capability flags of the family.
    pub queue_flags: u32,
    /// Whether the family can present to the bound surface.
    pub present_support: bool,
}

/// Whether operation `op` is feasible on family `f` of the described device.
pub open spec fn spec_op_feasible(descs: Seq<QueueFamilyDesc>, op: int, f: int) -> bool {
    &&& 0 <= f < descs.len()
    &&& if op == GRAPHICS {
        descs[f].queue_flags & QUEUE_FLAG_GRAPHICS != 0
    } else if op == COMPUTE {
        descs[f].queue_flags & QUEUE_FLAG_COMPUTE != 0
    } else if op == TRANSFER {
        descs[f].queue_flags & QUEUE_FLAG_TRANSFER != 0
    } else if op == PRESENT {
        descs[f].present_support
    } else {
        false
    }
}

/// The feasibility lists mention every feasible (operation, family) pair of
/// the first `n` families.
pub open spec fn spec_feasibility_covered(
    descs: Seq<QueueFamilyDesc>,
    ops: Seq<u8>,
    fams: Seq<u32>,
    n: int,
) -> bool {
    forall|op: int, f: int|
        0 <= op < COUNT && 0 <= f < n && #[trigger] spec_op_feasible(descs, op, f)
            ==> spec_feasible_pair(ops, fams, op as u8, f as u32)
}

/// A pair stays in the feasibility lists when another pair is appended.
proof fn lemma_feasible_pair_push(ops: Seq<u8>, fams: Seq<u32>, o2: u8, f2: u32, o: u8, f: u32)
    requires
        ops.len() == fams.len(),
        spec_feasible_pair(ops, fams, o, f),
    ensures
        spec_feasible_pair(ops.push(o2), fams.push(f2), o, f),
{
    let k = choose|k: int| 0 <= k < ops.len() && #[trigger] ops[k] == o && fams[k] == f;
    assert(ops.push(o2)[k] == o && fams.push(f2)[k] == f);
}

/// Coverage of the first `n` families survives appending another pair.
proof fn lemma_coverage_push(
    descs: Seq<QueueFamilyDesc>,
    ops: Seq<u8>,
    fams: Seq<u32>,
    o2: u8,
    f2: u32,
    n: int,
)
    requires
        ops.len() == fams.len(),
        spec_feasibility_covered(descs, ops, fams, n),
    ensures
        spec_feasibility_covered(descs, ops.push(o2), fams.push(f2), n),
{
    assert forall|op: int, f: int|
        0 <= op < COUNT && 0 <= f < n && #[trigger] spec_op_feasible(descs, op, f) implies
    spec_feasible_pair(ops.push(o2), fams.push(f2), op as u8, f as u32) by {
        lemma_feasible_pair_push(ops, fams, o2, f2, op as u8, f as u32);
    }
}

/// The orchestrator of device and queue negotiation: the required device
/// extensions, the window and display handles the surface is bound to, and
/// the pluggable device and queue policies.
#[derive(Debug)]
pub struct ContextConfigurator<M: DeviceMapper, Q: QueueMapper> {
    /// The policy deciding device acceptance and features.
    pub device_mapper: M,
    /// The policy assigning queue families to operations.
    pub queue_mapper: Q,
    /// Required device extensions, as native strings.
    pub device_extensions: Vec<Vec<u8>>,
    /// The window handle the surface will be bound to.
    pub raw_window_handle: WindowHandle,
    /// The display handle the surface will be bound to.
    pub raw_display_handle: DisplayHandle,
}

impl ContextConfigurator<DefaultDeviceMapper, DefaultQueueMapper> {
    /// A configurator with the default policies and the given required
    /// device extensions. Fails with `Error::StringEncoding` iff an
    /// extension name holds an embedded null byte.
    pub fn new(
        raw_window_handle: WindowHandle,
        raw_display_handle: DisplayHandle,
        device_extensions: &Vec<String>,
    ) -> (r: Result<Self, Error>)
        ensures
            match r {
                Result::Ok(c) => {
                    &&& c.raw_window_handle == raw_window_handle
                    &&& c.raw_display_handle == raw_display_handle
                    &&& c.device_extensions@.len() == device_extensions@.len()
                    &&& forall|i: int|
                        0 <= i < device_extensions@.len()
                            ==> (#[trigger] c.device_extensions@[i])@ == spec_native_string(
                            encode_utf8(device_extensions@[i]@),
                        )
                    &&& c.device_mapper == DefaultDeviceMapper
                    &&& c.queue_mapper == DefaultQueueMapper
                },
                Result::Err(e) => {
                    &&& e == Error::StringEncoding
                    &&& exists|i: int|
                        0 <= i < device_extensions@.len() && !spec_encodable(
                            #[trigger] encode_utf8(device_extensions@[i]@),
                        )
                },
            },
    {
        let encoded = match to_c_str_array(device_extensions) {
            Ok(v) => v,
            Err(e) => {
                return Err(e);
            },
        };
        Ok(
            ContextConfigurator {
                device_mapper: DefaultDeviceMapper,
                queue_mapper: DefaultQueueMapper,
                device_extensions: encoded,
                raw_window_handle,
                raw_display_handle,
            },
        )
    }
}

impl<M: DeviceMapper, Q: QueueMapper> ContextConfigurator<M, Q> {
    /// Dispatches the configurator's handle pair to a surface backend, per
    /// `Surface::new`.
    pub fn create_surface(&self) -> (r: Result<Surface, Error>)
        ensures
            match r {
                Result::Ok(s) => {
                    &&& crate::surface::spec_surface_backend(
                        self.raw_window_handle,
                        self.raw_display_handle,
                    ) == Some(s.backend)
                    &&& s.window == self.raw_window_handle
                    &&& s.display == self.raw_display_handle
                },
                Result::Err(e) => {
                    &&& e == Error::UnsupportedPlatform
                    &&& crate::surface::spec_surface_backend(
                        self.raw_window_handle,
                        self.raw_display_handle,
                    ) is None
                },
            },
    {
        Surface::new(self.raw_window_handle, self.raw_display_handle)
    }

    /// Whether a device that supports the given extensions satisfies the
    /// configurator's requirements.
    pub fn validate_physical_device_extensions(&self, available: &Vec<Vec<u8>>) -> (r: bool)
        ensures
            r == spec_extensions_supported(self.device_extensions@, available@),
    {
        let mut i: usize = 0;
        while i < self.device_extensions.len()
            invariant
                i <= self.device_extensions@.len(),
                forall|j: int|
                    0 <= j < i ==> spec_contains_bytes(
                        available@,
                        (#[trigger] self.device_extensions@[j])@,
                    ),
            decreases self.device_extensions@.len() - i,
        {
            if !contains_bytes(available, &self.device_extensions[i]) {
                return false;
            }
            i = i + 1;
        }
        true
    }

    /// Filters the enumerated candidates: a candidate is retained iff it
    /// supports the required extensions, reports at least one surface format
    /// and one present mode, and the device mapper accepts it. Rejections
    /// only drop the candidate; they are never an error.
    pub fn obtain_physical_devices(&self, candidates: Vec<PhysicalDeviceCandidate>) -> (r: Vec<
        PhysicalDeviceInfo,
    >)
        ensures
            r@ == spec_filter_devices(self.device_mapper, self.device_extensions@, candidates@),
    {
        let ghost orig = candidates@;
        let mut remaining = candidates;
        let mut r: Vec<PhysicalDeviceInfo> = Vec::new();
        while remaining.len() > 0
            invariant
                spec_filter_devices(self.device_mapper, self.device_extensions@, orig) =~= r@
                    + spec_filter_devices(self.device_mapper, self.device_extensions@, remaining@),
            decreases remaining@.len(),
        {
            let ghost before = remaining@;
            let c = remaining.remove(0);
            proof {
                assert(before.subrange(1, before.len() as int) =~= remaining@);
            }
            let extensions_ok = self.validate_physical_device_extensions(&c.extensions);
            if extensions_ok {
                if c.surface_properties.formats.len() > 0 && c.surface_properties.present_modes.len()
                    > 0 {
                    match self.device_mapper.map_device(&c.properties, &c.features) {
                        Some(features) => {
                            let info = PhysicalDeviceInfo {
                                device: c.device,
                                features,
                                surface_properties: c.surface_properties,
                            };
                            proof {
                                assert(spec_candidate_eligible(
                                    self.device_mapper,
                                    self.device_extensions@,
                                    before[0],
                                ));
                                assert(info == spec_info_of(self.device_mapper, before[0]));
                                assert(spec_filter_devices(
                                    self.device_mapper,
                                    self.device_extensions@,
                                    before,
                                ) =~= seq![info] + spec_filter_devices(
                                    self.device_mapper,
                                    self.device_extensions@,
                                    remaining@,
                                ));
                            }
                            r.push(info);
                        },
                        None => {
                            proof {
                                assert(!spec_candidate_eligible(
                                    self.device_mapper,
                                    self.device_extensions@,
                                    before[0],
                                ));
                            }
                        },
                    }
                } else {
                    proof {
                        assert(!spec_candidate_eligible(
                            self.device_mapper,
                            self.device_extensions@,
                            before[0],
                        ));
                    }
                }
            } else {
                proof {
                    assert(!spec_candidate_eligible(
                        self.device_mapper,
                        self.device_extensions@,
                        before[0],
                    ));
                }
            }
        }
        proof {
            assert(spec_filter_devices(self.device_mapper, self.device_extensions@, remaining@)
                =~= Seq::<PhysicalDeviceInfo>::empty());
            assert(r@ =~= spec_filter_devices(self.device_mapper, self.device_extensions@, orig));
        }
        r
    }

    /// Walks the chosen device's queue families, records every feasible
    /// (operation, family) pair, and hands the lists to the queue policy.
    /// An operation is assigned iff some family is feasible for it, and
    /// every assignment names a family feasible for its operation.
    pub fn obtain_queue_families(&self, queue_families: &Vec<QueueFamilyDesc>) -> (r:
        QueueSelections)
        requires
            queue_families@.len() <= u32::MAX,
        ensures
            r.wf(),
            r.families@.len() == queue_families@.len(),
            forall|op: int, f: int|
                0 <= op < COUNT && #[trigger] spec_op_feasible(queue_families@, op, f)
                    ==> r.operations@[op] is Some,
            forall|op: int|
                0 <= op < COUNT && (#[trigger] r.operations@[op]) is Some ==> spec_op_feasible(
                    queue_families@,
                    op,
                    r.operations@[op]->0.index as int,
                ),
    {
        let ghost descs = queue_families@;
        let mut operations: Vec<u8> = Vec::new();
        let mut family_indices: Vec<u32> = Vec::new();
        let family_count = queue_families.len() as u32;
        let mut i: usize = 0;
        while i < queue_families.len()
            invariant
                descs == queue_families@,
                descs.len() <= u32::MAX,
                i <= descs.len(),
                operations@.len() == family_indices@.len(),
                forall|k: int|
                    0 <= k < operations@.len() ==> (#[trigger] operations@[k] as usize) < COUNT,
                forall|k: int| 0 <= k < family_indices@.len() ==> (#[trigger] family_indices@[k]) < i,
                forall|k: int|
                    0 <= k < operations@.len() ==> spec_op_feasible(
                        descs,
                        (#[trigger] operations@[k]) as int,
                        family_indices@[k] as int,
                    ),
                spec_feasibility_covered(descs, operations@, family_indices@, i as int),
            decreases descs.len() - i,
        {
            let desc = queue_families[i];
            let ghost fi = i as u32;
            let ghost graphics_here = desc.queue_flags & QUEUE_FLAG_GRAPHICS != 0;
            let ghost compute_here = desc.queue_flags & QUEUE_FLAG_COMPUTE != 0;
            let ghost transfer_here = desc.queue_flags & QUEUE_FLAG_TRANSFER != 0;
            if desc.queue_flags & QUEUE_FLAG_GRAPHICS != 0 {
                let ghost ops0 = operations@;
                let ghost fams0 = family_indices@;
                operations.push(GRAPHICS as u8);
                family_indices.push(i as u32);
                proof {
                    lemma_coverage_push(descs, ops0, fams0, GRAPHICS as u8, fi, i as int);
                    assert(operations@[operations@.len() - 1] == GRAPHICS as u8
                        && family_indices@[family_indices@.len() - 1] == fi);
                    assert(spec_feasible_pair(operations@, family_indices@, GRAPHICS as u8, fi));
                }
            }
            if desc.queue_flags & QUEUE_FLAG_COMPUTE != 0 {
                let ghost ops0 = operations@;
                let ghost fams0 = family_indices@;
                operations.push(COMPUTE as u8);
                family_indices.push(i as u32);
                proof {
                    lemma_coverage_push(descs, ops0, fams0, COMPUTE as u8, fi, i as int);
                    if graphics_here {
                        lemma_feasible_pair_push(ops0, fams0, COMPUTE as u8, fi, GRAPHICS as u8, fi);
                    }
                    assert(operations@[operations@.len() - 1] == COMPUTE as u8
                        && family_indices@[family_indices@.len() - 1] == fi);
                    assert(spec_feasible_pair(operations@, family_indices@, COMPUTE as u8, fi));
                }
            }
            if desc.queue_flags & QUEUE_FLAG_TRANSFER != 0 {
                let ghost ops0 = operations@;
                let ghost fams0 = family_indices@;
                operations.push(TRANSFER as u8);
                family_indices.push(i as u32);
                proof {
                    lemma_coverage_push(descs, ops0, fams0, TRANSFER as u8, fi, i as int);
                    if graphics_here {
                        lemma_feasible_pair_push(ops0, fams0, TRANSFER as u8, fi, GRAPHICS as u8, fi);
                    }
                    if compute_here {
                        lemma_feasible_pair_push(ops0, fams0, TRANSFER as u8, fi, COMPUTE as u8, fi);
                    }
                    assert(operations@[operations@.len() - 1] == TRANSFER as u8
                        && family_indices@[family_indices@.len() - 1] == fi);
                    assert(spec_feasible_pair(operations@, family_indices@, TRANSFER as u8, fi));
                }
            }
            if desc.present_support {
                let ghost ops0 = operations@;
                let ghost fams0 = family_indices@;
                operations.push(PRESENT as u8);
                family_indices.push(i as u32);
                proof {
                    lemma_coverage_push(descs, ops0, fams0, PRESENT as u8, fi, i as int);
                    if graphics_here {
                        lemma_feasible_pair_push(ops0, fams0, PRESENT as u8, fi, GRAPHICS as u8, fi);
                    }
                    if compute_here {
                        lemma_feasible_pair_push(ops0, fams0, PRESENT as u8, fi, COMPUTE as u8, fi);
                    }
                    if transfer_here {
                        lemma_feasible_pair_push(ops0, fams0, PRESENT as u8, fi, TRANSFER as u8, fi);
                    }
                    assert(operations@[operations@.len() - 1] == PRESENT as u8
                        && family_indices@[family_indices@.len() - 1] == fi);
                    assert(spec_feasible_pair(operations@, family_indices@, PRESENT as u8, fi));
                }
            }
            proof {
                assert forall|op: int, f: int|
                    0 <= op < COUNT && 0 <= f < i + 1 && #[trigger] spec_op_feasible(descs, op, f)
                        implies spec_feasible_pair(
                    operations@,
                    family_indices@,
                    op as u8,
                    f as u32,
                ) by {
                    if f == i {
                        assert(op == GRAPHICS || op == COMPUTE || op == TRANSFER || op == PRESENT);
                    }
                }
            }
            i = i + 1;
        }
        let selections = self.queue_mapper.map_queues(
            operations.as_slice(),
            family_indices.as_slice(),
            family_count,
        );
        proof {
            assert forall|op: int, f: int|
                0 <= op < COUNT && #[trigger] spec_op_feasible(descs, op, f) implies
            selections.operations@[op] is Some by {
                assert(spec_feasible_pair(operations@, family_indices@, op as u8, f as u32));
                let k = choose|k: int|
                    0 <= k < operations@.len() && #[trigger] operations@[k] == op as u8
                        && family_indices@[k] == f as u32;
                assert(selections.operations@[operations@[k] as int] is Some);
            }
            assert forall|op: int|
                0 <= op < COUNT && (#[trigger] selections.operations@[op]) is Some implies
            spec_op_feasible(descs, op, selections.operations@[op]->0.index as int) by {
                assert(spec_feasible_pair(
                    operations@,
                    family_indices@,
                    op as u8,
                    selections.operations@[op]->0.index,
                ));
                let k = choose|k: int|
                    0 <= k < operations@.len() && #[trigger] operations@[k] == op as u8
                        && family_indices@[k] == selections.operations@[op]->0.index;
                assert(spec_op_feasible(
                    descs,
                    operations@[k] as int,
                    family_indices@[k] as int,
                ));
            }
        }
        selections
    }

    /// Assembles what the logical device is created with: one queue-creation
    /// entry per allocated family in ascending family order, the required
    /// device extensions, and the chosen feature bundle.
    pub fn select_logical_device(
        &self,
        queue_selections: &QueueSelections,
        physical_device_info: &PhysicalDeviceInfo,
    ) -> (r: DeviceCreateInfo)
        requires
            queue_selections.families@.len() <= u32::MAX,
        ensures
            forall|j: int|
                0 <= j < r.queue_create_infos@.len() ==> {
                    &&& (#[trigger] r.queue_create_infos@[j]).queue_family_index
                        < queue_selections.families@.len()
                    &&& queue_selections.families@[r.queue_create_infos@[
                        j
                    ].queue_family_index as int] is Some
                    &&& r.queue_create_infos@[j].queue_count == queue_selections.families@[
                        r.queue_create_infos@[j].queue_family_index as int
                    ]->0.count
                    &&& r.queue_create_infos@[j].queue_priorities@ == queue_selections.families@[
                        r.queue_create_infos@[j].queue_family_index as int
                    ]->0.priorities@
                },
            forall|a: int, b: int|
                0 <= a < b < r.queue_create_infos@.len()
                    ==> r.queue_create_infos@[a].queue_family_index
                    < r.queue_create_infos@[b].queue_family_index,
            forall|f: int|
                0 <= f < queue_selections.families@.len() && (#[trigger] queue_selections.families@[
                    f
                ]) is Some ==> exists|j: int|
                    0 <= j < r.queue_create_infos@.len() && (#[trigger] r.queue_create_infos@[
                        j
                    ].queue_family_index) == f,
            r.enabled_extensions@.len() == self.device_extensions@.len(),
            forall|i: int|
                0 <= i < self.device_extensions@.len() ==> (#[trigger] r.enabled_extensions@[i])@
                    == self.device_extensions@[i]@,
            r.enabled_features == physical_device_info.features,
    {
        DeviceCreateInfo {
            queue_create_infos: queue_selections.to_vk_creation_info(),
            enabled_extensions: copy_byte_lists(&self.device_extensions),
            enabled_features: physical_device_info.features,
        }
    }
}

/// What the logical device is created with: the per-family queue requests,
/// the enabled device extensions, and the enabled features.
#[derive(Debug)]
pub struct DeviceCreateInfo {
    /// One queue-creation entry per allocated family, ascending by family.
    pub queue_create_infos: Vec<QueueCreateInfo>,
    /// Enabled device extensions, as native strings.
    pub enabled_extensions: Vec<Vec<u8>>,
    /// Enabled device features.
    pub enabled_features: DeviceFeatures,
}

/// The long-lived aggregate of the negotiation: the base, the surface, the
/// retained devices, the logical device, and the queue handles, owned in
/// construction order and released in reverse.
pub struct Context {
    /// The capability base the context owns.
    pub base: Base,
    /// The surface the context owns.
    pub surface: Surface,
    /// The devices that passed filtering; the first was used.
    pub physical_devices: Vec<PhysicalDeviceInfo>,
    /// Opaque identifier of the created logical device.
    pub logical_device: u64,
    /// The retrieved per-operation queue handles.
    pub queue_handles: QueueHandles,
}

impl Context {
    /// Aggregates the negotiated pieces into the owning context.
    pub fn new(
        base: Base,
        surface: Surface,
        physical_devices: Vec<PhysicalDeviceInfo>,
        logical_device: u64,
        queue_handles: QueueHandles,
    ) -> (r: Context)
        ensures
            r.base == base,
            r.surface == surface,
            r.physical_devices == physical_devices,
            r.logical_device == logical_device,
            r.queue_handles == queue_handles,
    {
        Context { base, surface, physical_devices, logical_device, queue_handles }
    }

    /// The strict teardown order of the owned handles, reverse of
    /// construction: the logical device first, then the surface, then the
    /// debug messenger, and the instance last.
    pub fn teardown_actions(&self) -> (r: Vec<DestroyAction>)
        ensures
            r@ =~= seq![
                DestroyAction::DestroyDevice,
                DestroyAction::DestroySurface,
                DestroyAction::DestroyMessenger,
                DestroyAction::DestroyInstance,
            ],
    {
        let mut r: Vec<DestroyAction> = Vec::new();
        r.push(DestroyAction::DestroyDevice);
        r.push(DestroyAction::DestroySurface);
        let mut base_actions = self.base.teardown_actions();
        r.append(&mut base_actions);
        r
    }
}

} // verus!
