//! Mapping between devices and the mining cores that drive them, with the
//! allocator of device identifiers by core type.

use vstd::prelude::*;
use crate::error::DeviceError;
use crate::device::id_range::{has_free, is_least_free, free_count, exhausted_text, exhausted_message,
    take_least_free, lemma_free_count_insert, lemma_free_count_zero};
use crate::text::str_equal;

verus! {

/// The identifier range reserved for a core type: software and CPU cores
/// 1000-1499, ASIC cores 2000-2499, FPGA 3000-3499, GPU 4000-4499, and
/// 1000-1999 for any other type.
pub open spec fn mapper_range(core_type: Seq<char>) -> (u32, u32) {
    if core_type == "software"@ || core_type == "cpu-btc"@ || core_type == "btc"@ || core_type == "cpu"@ {
        (1000, 1499)
    } else if core_type == "asic"@ || core_type == "maijie-l7"@ || core_type == "l7"@ {
        (2000, 2499)
    } else if core_type == "fpga"@ {
        (3000, 3499)
    } else if core_type == "gpu"@ {
        (4000, 4499)
    } else {
        (1000, 1999)
    }
}

/// The identifier range reserved for `core_type`.
pub fn core_type_range(core_type: &str) -> (r: (u32, u32))
    ensures
        r == mapper_range(core_type@),
{
    if str_equal(core_type, "software") || str_equal(core_type, "cpu-btc") || str_equal(core_type, "btc")
        || str_equal(core_type, "cpu") {
        (1000, 1499)
    } else if str_equal(core_type, "asic") || str_equal(core_type, "maijie-l7") || str_equal(core_type, "l7") {
        (2000, 2499)
    } else if str_equal(core_type, "fpga") {
        (3000, 3499)
    } else if str_equal(core_type, "gpu") {
        (4000, 4499)
    } else {
        (1000, 1999)
    }
}

/// Hands out device identifiers, the smallest free one of the range of the
/// asking core type.
pub struct DeviceIdAllocator {
    allocated_ids: std::collections::HashSet<u32>,
}

impl DeviceIdAllocator {
    /// The identifiers handed out and not yet given back.
    pub closed spec fn allocated(&self) -> Set<u32> {
        self.allocated_ids@
    }

    /// An allocator with nothing handed out.
    pub fn new() -> (a: Self)
        ensures
            a.allocated() == Set::<u32>::empty(),
    {
        DeviceIdAllocator { allocated_ids: std::collections::HashSet::new() }
    }

    /// Hands out the smallest free identifier of the range of `core_type`;
    /// fails with `InitializationFailed` when the range is exhausted.
    pub fn allocate_id(&mut self, core_type: &str) -> (r: Result<u32, DeviceError>)
        ensures
            has_free(old(self).allocated(), mapper_range(core_type@).0, mapper_range(core_type@).1) ==> (
                r matches Ok(x) && is_least_free(old(self).allocated(), mapper_range(core_type@).0, mapper_range(core_type@).1, x)
                && final(self).allocated() == old(self).allocated().insert(x)),
            !has_free(old(self).allocated(), mapper_range(core_type@).0, mapper_range(core_type@).1) ==> (
                r matches Err(DeviceError::InitializationFailed { device_id, reason }) && device_id == 0
                && reason@ == exhausted_text(mapper_range(core_type@).0, mapper_range(core_type@).1, core_type@)
                && final(self).allocated() == old(self).allocated()),
    {
        let (start, end) = core_type_range(core_type);
        match take_least_free(&mut self.allocated_ids, start, end) {
            Some(id) => Ok(id),
            None => Err(DeviceError::InitializationFailed { device_id: 0, reason: exhausted_message(start, end, core_type) }),
        }
    }

    /// Gives `device_id` back.
    pub fn deallocate_id(&mut self, device_id: u32)
        ensures
            final(self).allocated() == old(self).allocated().remove(device_id),
    {
        broadcast use vstd::std_specs::hash::group_hash_axioms;
        self.allocated_ids.remove(&device_id);
    }

    /// Whether `device_id` is handed out.
    pub fn is_allocated(&self, device_id: u32) -> (b: bool)
        ensures
            b == self.allocated().contains(device_id),
    {
        broadcast use vstd::std_specs::hash::group_hash_axioms;
        self.allocated_ids.contains(&device_id)
    }
}


/// The tie between a device and the core that drives it.
#[derive(Debug)]
pub struct DeviceCoreMapping {
    pub device_id: u32,
    pub core_name: String,
    pub core_type: String,
    pub device_index: u32,
    pub created_at: u64,
    pub active: bool,
}

impl Clone for DeviceCoreMapping {
    fn clone(&self) -> (r: Self)
        ensures
            r == *self,
    {
        DeviceCoreMapping {
            device_id: self.device_id,
            core_name: self.core_name.clone(),
            core_type: self.core_type.clone(),
            device_index: self.device_index,
            created_at: self.created_at,
            active: self.active,
        }
    }
}

/// Counts of the mapper's contents.
#[derive(Debug, Clone)]
pub struct MappingStats {
    pub total_devices: usize,
    pub total_cores: usize,
    pub active_devices: usize,
    /// Devices per core type, each type once, in the order of first use.
    pub devices_by_core_type: Vec<(String, usize)>,
}

/// The views of a core's device list entry.
pub open spec fn core_entry_view(e: (String, Vec<u32>)) -> (Seq<char>, Seq<u32>) {
    (e.0@, e.1@)
}

/// No device id occurs twice among `mappings`.
pub open spec fn distinct_device_ids(mappings: Seq<DeviceCoreMapping>) -> bool {
    forall|i: int, j: int| 0 <= i < mappings.len() && 0 <= j < mappings.len() && i != j
        ==> mappings[i].device_id != mappings[j].device_id
}

/// No core name occurs twice among `cores`.
pub open spec fn distinct_core_names(cores: Seq<(Seq<char>, Seq<u32>)>) -> bool {
    forall|i: int, j: int| 0 <= i < cores.len() && 0 <= j < cores.len() && i != j ==> cores[i].0 != cores[j].0
}

/// The device list of core `name` in `cores` holds `device_id`.
pub open spec fn listed_under(cores: Seq<(Seq<char>, Seq<u32>)>, name: Seq<char>, device_id: u32) -> bool {
    exists|k: int| 0 <= k < cores.len() && cores[k].0 == name && cores[k].1.contains(device_id)
}

/// The position of the first mapping of `device_id`, if any.
pub open spec fn mapping_position(mappings: Seq<DeviceCoreMapping>, device_id: u32, p: int) -> bool {
    0 <= p < mappings.len() && mappings[p].device_id == device_id
}

/// The number of active mappings among the first `n` of `mappings`.
pub open spec fn active_count(mappings: Seq<DeviceCoreMapping>, n: int) -> nat
    decreases n,
{
    if n <= 0 {
        0
    } else {
        active_count(mappings, n - 1) + (if mappings[n - 1].active { 1nat } else { 0nat })
    }
}

/// The number of mappings of core type `t` among the first `n` of `mappings`.
pub open spec fn type_count(mappings: Seq<DeviceCoreMapping>, t: Seq<char>, n: int) -> nat
    decreases n,
{
    if n <= 0 {
        0
    } else {
        type_count(mappings, t, n - 1) + (if mappings[n - 1].core_type@ == t { 1nat } else { 0nat })
    }
}

/// Keeps track of which core drives which device, in both directions.
pub struct DeviceCoreMapper {
    device_to_core: Vec<DeviceCoreMapping>,
    core_to_devices: Vec<(String, Vec<u32>)>,
    device_id_allocator: DeviceIdAllocator,
}

impl DeviceCoreMapper {
    /// The mappings, in order of creation.
    pub closed spec fn mappings(&self) -> Seq<DeviceCoreMapping> {
        self.device_to_core@
    }

    /// The device lists of the cores, in order of first use.
    pub closed spec fn core_lists(&self) -> Seq<(Seq<char>, Seq<u32>)> {
        self.core_to_devices@.map_values(|e: (String, Vec<u32>)| core_entry_view(e))
    }

    /// The identifiers handed out.
    pub closed spec fn allocated(&self) -> Set<u32> {
        self.device_id_allocator.allocated()
    }

    /// Every device is mapped once, listed under its core, and holds an
    /// identifier that is handed out; each core has one list.
    pub open spec fn well_formed(&self) -> bool {
        &&& distinct_device_ids(self.mappings())
        &&& distinct_core_names(self.core_lists())
        &&& forall|i: int| 0 <= i < self.mappings().len() ==> listed_under(
            self.core_lists(), self.mappings()[i].core_name@, self.mappings()[i].device_id)
        &&& forall|i: int| 0 <= i < self.mappings().len() ==> self.allocated().contains(self.mappings()[i].device_id)
    }

    /// A mapper with no devices.
    pub fn new() -> (m: Self)
        ensures
            m.well_formed(),
            m.mappings().len() == 0,
            m.core_lists().len() == 0,
            m.allocated() == Set::<u32>::empty(),
    {
        let m = DeviceCoreMapper {
            device_to_core: Vec::new(),
            core_to_devices: Vec::new(),
            device_id_allocator: DeviceIdAllocator::new(),
        };
        assert(m.core_lists() =~= Seq::empty());
        m
    }

    /// The position of the device list of core `name`.
    fn find_core(&self, name: &str) -> (r: Option<usize>)
        ensures
            r matches Some(k) ==> k < self.core_lists().len() && self.core_lists()[k as int].0 == name@,
            r is None ==> forall|k: int| 0 <= k < self.core_lists().len() ==> self.core_lists()[k].0 != name@,
    {
        let mut k: usize = 0;
        while k < self.core_to_devices.len()
            invariant
                k <= self.core_to_devices@.len(),
                forall|j: int| 0 <= j < k ==> self.core_lists()[j].0 != name@,
            decreases self.core_to_devices@.len() - k,
        {
            if str_equal(self.core_to_devices[k].0.as_str(), name) {
                return Some(k);
            }
            k = k + 1;
        }
        None
    }

    /// The position of the mapping of `device_id`.
    fn find_mapping(&self, device_id: u32) -> (r: Option<usize>)
        ensures
            r matches Some(p) ==> mapping_position(self.mappings(), device_id, p as int),
            r is None ==> forall|p: int| !mapping_position(self.mappings(), device_id, p),
    {
        let mut p: usize = 0;
        while p < self.device_to_core.len()
            invariant
                p <= self.device_to_core@.len(),
                forall|j: int| 0 <= j < p ==> self.mappings()[j].device_id != device_id,
            decreases self.device_to_core@.len() - p,
        {
            if self.device_to_core[p].device_id == device_id {
                return Some(p);
            }
            p = p + 1;
        }
        None
    }

    /// Maps `device_count` new devices to core `core_name` of type
    /// `core_type` at time `now`, each with a fresh identifier from the range
    /// of the type and its position as index.
    ///
    /// Fails with the allocator's error when the range runs out; the devices
    /// mapped before that stay mapped.
    pub fn create_device_mappings_for_core_at(
        &mut self,
        core_name: &str,
        core_type: &str,
        device_count: usize,
        now: u64,
    ) -> (r: Result<Vec<DeviceCoreMapping>, DeviceError>)
        requires
            old(self).well_formed(),
        ensures
            final(self).well_formed(),
            r is Ok <==> device_count <= free_count(old(self).allocated(),
                mapper_range(core_type@).0 as int, mapper_range(core_type@).1 as int),
            r matches Ok(ms) ==> created_mappings(old(self).allocated(), ms@, core_name@, core_type@, device_count as nat, now),
            r matches Ok(ms) ==> final(self).mappings() == old(self).mappings() + ms@,
            r matches Ok(ms) ==> final(self).allocated() == old(self).allocated().union(
                ms@.map_values(|m: DeviceCoreMapping| m.device_id).to_set()),
            r matches Ok(ms) ==> forall|k: int| 0 <= k < old(self).core_lists().len()
                && old(self).core_lists()[k].0 == core_name@ ==> final(self).core_lists() == old(self).core_lists().update(k,
                    (core_name@, old(self).core_lists()[k].1 + ms@.map_values(|m: DeviceCoreMapping| m.device_id))),
            r matches Ok(ms) ==> (forall|k: int| 0 <= k < old(self).core_lists().len()
                ==> old(self).core_lists()[k].0 != core_name@) ==> final(self).core_lists() == old(self).core_lists().push(
                    (core_name@, ms@.map_values(|m: DeviceCoreMapping| m.device_id))),
    {
        let (start, end) = core_type_range(core_type);
        let k = match self.find_core(core_name) {
            Some(k) => {
                proof {
                    assert forall|k2: int| 0 <= k2 < self.core_lists().len() && self.core_lists()[k2].0 == core_name@
                        implies k2 == k by {
                        if k2 != k {
                            assert(self.core_lists()[k2].0 != self.core_lists()[k as int].0);
                        }
                    }
                }
                k
            },
            None => {
                let ghost before = self.core_lists();
                self.core_to_devices.push((String::from_str(core_name), Vec::new()));
                proof {
                    assert(self.core_lists() =~= before.push((core_name@, Seq::<u32>::empty())));
                    assert(distinct_core_names(self.core_lists()));
                    assert forall|i: int| 0 <= i < self.mappings().len() implies listed_under(
                        self.core_lists(), self.mappings()[i].core_name@, self.mappings()[i].device_id) by {
                        let kk = choose|kk: int| 0 <= kk < before.len() && before[kk].0 == self.mappings()[i].core_name@
                            && before[kk].1.contains(self.mappings()[i].device_id);
                        assert(self.core_lists()[kk] == before[kk]);
                    }
                }
                self.core_to_devices.len() - 1
            },
        };
        let ghost base = self.core_lists();
        proof {
            if exists|k2: int| 0 <= k2 < old(self).core_lists().len() && old(self).core_lists()[k2].0 == core_name@ {
                assert(base == old(self).core_lists());
            } else {
                assert(base == old(self).core_lists().push((core_name@, Seq::<u32>::empty())));
            }
        }
        let mut mappings: Vec<DeviceCoreMapping> = Vec::new();
        assert(base[k as int].1 + mappings@.map_values(|m: DeviceCoreMapping| m.device_id) =~= base[k as int].1);
        assert(self.core_lists() =~= base.update(k as int,
            (core_name@, base[k as int].1 + mappings@.map_values(|m: DeviceCoreMapping| m.device_id))));
        let mut i: usize = 0;
        while i < device_count
            invariant
                self.core_lists() == base.update(k as int,
                    (core_name@, base[k as int].1 + mappings@.map_values(|m: DeviceCoreMapping| m.device_id))),
                k < base.len(),
                base[k as int].0 == core_name@,
                self.well_formed(),
                k < self.core_lists().len(),
                self.core_lists()[k as int].0 == core_name@,
                (start, end) == mapper_range(core_type@),
                i <= device_count,
                mappings@.len() == i,
                self.mappings() == old(self).mappings() + mappings@,
                self.allocated() == old(self).allocated().union(
                    mappings@.map_values(|m: DeviceCoreMapping| m.device_id).to_set()),
                free_count(self.allocated(), start as int, end as int) + i
                    == free_count(old(self).allocated(), start as int, end as int),
                created_mappings(old(self).allocated(), mappings@, core_name@, core_type@, i as nat, now),
                i > 0 ==> forall|y: u32| start <= y <= mappings@[i - 1].device_id ==> self.allocated().contains(y),
            decreases device_count - i,
        {
            let ghost taken = self.allocated();
            let ghost ms_before = mappings@;
            let id = match self.device_id_allocator.allocate_id(core_type) {
                Ok(id) => id,
                Err(e) => {
                    proof {
                        assert forall|y: u32| start <= y <= end implies taken.contains(y) by {}
                        lemma_free_count_zero(taken, start as int, end as int);
                    }
                    return Err(e);
                },
            };
            proof {
                lemma_free_count_insert(taken, start as int, end as int, id);
            }
            let mapping = DeviceCoreMapping {
                device_id: id,
                core_name: String::from_str(core_name),
                core_type: String::from_str(core_type),
                device_index: i as u32,
                created_at: now,
                active: true,
            };
            let ghost before_lists = self.core_lists();
            let ghost before_maps = self.mappings();
            self.core_to_devices[k].1.push(id);
            self.device_to_core.push(mapping.clone());
            mappings.push(mapping);
            proof {
                let ids_before = ms_before.map_values(|m: DeviceCoreMapping| m.device_id);
                assert(taken == old(self).allocated().union(ids_before.to_set()));
                assert(self.mappings() =~= before_maps.push(mapping));
                assert(self.core_lists() =~= before_lists.update(k as int, (core_name@, before_lists[k as int].1.push(id))));
                assert(mappings@ =~= ms_before.push(mapping));
                assert(mappings@.map_values(|m: DeviceCoreMapping| m.device_id)
                    =~= ids_before.push(id));
                assert(base[k as int].1 + ids_before.push(id) =~= (base[k as int].1 + ids_before).push(id));
                assert(self.core_lists() =~= base.update(k as int,
                    (core_name@, base[k as int].1 + mappings@.map_values(|m: DeviceCoreMapping| m.device_id))));
                ids_before.lemma_push_to_set_commute(id);
                assert(self.allocated() =~= old(self).allocated().union(
                    mappings@.map_values(|m: DeviceCoreMapping| m.device_id).to_set()));
                assert(self.mappings() =~= old(self).mappings() + mappings@);
                // the new identifier is not mapped yet
                assert forall|a: int| 0 <= a < before_maps.len() implies before_maps[a].device_id != id by {
                    assert(taken.contains(before_maps[a].device_id));
                }
                assert forall|a: int| 0 <= a < self.mappings().len() implies listed_under(
                    self.core_lists(), self.mappings()[a].core_name@, self.mappings()[a].device_id) by {
                    if a < before_maps.len() {
                        let kk = choose|kk: int| 0 <= kk < before_lists.len() && before_lists[kk].0 == before_maps[a].core_name@
                            && before_lists[kk].1.contains(before_maps[a].device_id);
                        if kk == k {
                            assert(before_lists[kk].1.push(id)[before_lists[kk].1.index_of(before_maps[a].device_id)]
                                == before_maps[a].device_id);
                        }
                        assert(self.core_lists()[kk].1.contains(before_maps[a].device_id));
                    } else {
                        assert(self.core_lists()[k as int].1[before_lists[k as int].1.len() as int] == id);
                    }
                }
                // the identifiers keep increasing and skip no free one
                if i > 0 {
                    let last = mappings@[i - 1].device_id;
                    assert(taken.contains(last));
                    assert(id > last);
                }
                assert forall|y: u32| start <= y <= id && !old(self).allocated().contains(y)
                    implies exists|a: int| 0 <= a < mappings@.len() && mappings@[a].device_id == y by {
                    if y == id {
                        assert(mappings@[i as int].device_id == y);
                    } else {
                        assert(taken.contains(y));
                        assert(ids_before.to_set().contains(y));
                        assert(ids_before.contains(y));
                        let a = choose|a: int| 0 <= a < ids_before.len() && ids_before[a] == y;
                        assert(mappings@[a].device_id == y);
                    }
                }
            }
            i = i + 1;
        }
        proof {
            let ids = mappings@.map_values(|m: DeviceCoreMapping| m.device_id);
            if exists|k2: int| 0 <= k2 < old(self).core_lists().len() && old(self).core_lists()[k2].0 == core_name@ {
                let k2 = choose|k2: int| 0 <= k2 < old(self).core_lists().len() && old(self).core_lists()[k2].0 == core_name@;
                assert(k2 == k);
            } else {
                assert(base[k as int].1 =~= Seq::<u32>::empty());
                assert(Seq::<u32>::empty() + ids =~= ids);
                assert(self.core_lists() =~= old(self).core_lists().push((core_name@, ids)));
            }
        }
        Ok(mappings)
    }

    /// Maps `device_count` new devices to a core, stamped with the current time.
    pub fn create_device_mappings_for_core(
        &mut self,
        core_name: &str,
        core_type: &str,
        device_count: usize,
    ) -> (r: Result<Vec<DeviceCoreMapping>, DeviceError>)
        requires
            old(self).well_formed(),
        ensures
            final(self).well_formed(),
            r is Ok <==> device_count <= free_count(old(self).allocated(),
                mapper_range(core_type@).0 as int, mapper_range(core_type@).1 as int),
            r matches Ok(ms) ==> final(self).mappings() == old(self).mappings() + ms@,
            r matches Ok(ms) ==> exists|now: u64| created_mappings(old(self).allocated(), ms@, core_name@, core_type@,
                device_count as nat, now),
            r matches Ok(ms) ==> forall|k: int| 0 <= k < old(self).core_lists().len()
                && old(self).core_lists()[k].0 == core_name@ ==> final(self).core_lists() == old(self).core_lists().update(k,
                    (core_name@, old(self).core_lists()[k].1 + ms@.map_values(|m: DeviceCoreMapping| m.device_id))),
            r matches Ok(ms) ==> (forall|k: int| 0 <= k < old(self).core_lists().len()
                ==> old(self).core_lists()[k].0 != core_name@) ==> final(self).core_lists() == old(self).core_lists().push(
                    (core_name@, ms@.map_values(|m: DeviceCoreMapping| m.device_id))),
    {
        self.create_device_mappings_for_core_at(core_name, core_type, device_count, crate::clock::now_millis())
    }

    /// The mapping of `device_id`, if it is mapped.
    pub fn get_device_mapping(&self, device_id: u32) -> (r: Option<DeviceCoreMapping>)
        requires
            self.well_formed(),
        ensures
            r matches Some(m) ==> exists|p: int| mapping_position(self.mappings(), device_id, p) && m == self.mappings()[p],
            r is None ==> forall|p: int| !mapping_position(self.mappings(), device_id, p),
    {
        match self.find_mapping(device_id) {
            Some(p) => Some(self.device_to_core[p].clone()),
            None => None,
        }
    }

    /// The devices of core `core_name`, empty for an unknown core.
    pub fn get_core_devices(&self, core_name: &str) -> (r: Vec<u32>)
        ensures
            (exists|k: int| 0 <= k < self.core_lists().len() && self.core_lists()[k].0 == core_name@) ==>
                exists|k: int| 0 <= k < self.core_lists().len() && self.core_lists()[k].0 == core_name@
                    && r@ == self.core_lists()[k].1,
            !(exists|k: int| 0 <= k < self.core_lists().len() && self.core_lists()[k].0 == core_name@) ==> r@.len() == 0,
    {
        match self.find_core(core_name) {
            Some(k) => {
                let r = self.core_to_devices[k].1.clone();
                assert(r@ =~= self.core_lists()[k as int].1);
                r
            },
            None => Vec::new(),
        }
    }

    /// Forgets the mapping of `device_id`: it leaves its core's list and its
    /// identifier is given back. Fails with `NotFound` for an unmapped device.
    pub fn remove_device_mapping(&mut self, device_id: u32) -> (r: Result<(), DeviceError>)
        requires
            old(self).well_formed(),
        ensures
            final(self).well_formed(),
            r is Ok <==> exists|p: int| mapping_position(old(self).mappings(), device_id, p),
            r is Err ==> r == Err::<(), DeviceError>(DeviceError::NotFound { device_id }) && *final(self) == *old(self),
            r is Ok ==> exists|p: int| mapping_position(old(self).mappings(), device_id, p)
                && final(self).mappings() == old(self).mappings().remove(p),
            r is Ok ==> final(self).allocated() == old(self).allocated().remove(device_id),
            r is Ok ==> exists|k: int| 0 <= k < old(self).core_lists().len()
                && old(self).core_lists()[k].1.contains(device_id)
                && final(self).core_lists() == old(self).core_lists().update(k,
                    (old(self).core_lists()[k].0, old(self).core_lists()[k].1.filter(|x: u32| x != device_id))),
    {
        let p = match self.find_mapping(device_id) {
            Some(p) => p,
            None => {
                return Err(DeviceError::NotFound { device_id });
            },
        };
        let ghost before_maps = self.mappings();
        let ghost before_lists = self.core_lists();
        let mapping = self.device_to_core.remove(p);
        proof {
            assert(self.mappings() =~= before_maps.remove(p as int));
        }
        // drop the device from the list of its core
        let ghost m_name = before_maps[p as int].core_name@;
        proof {
            assert(listed_under(before_lists, m_name, device_id));
        }
        let k = match self.find_core(mapping.core_name.as_str()) {
            Some(k) => k,
            None => {
                proof {
                    let kk = choose|kk: int| 0 <= kk < before_lists.len() && before_lists[kk].0 == m_name
                        && before_lists[kk].1.contains(device_id);
                    assert(self.core_lists() == before_lists);
                    assert(mapping.core_name@ == m_name);
                    assert(self.core_lists()[kk].0 != m_name);
                }
                return Ok(());
            },
        };
        let mut kept: Vec<u32> = Vec::new();
        let mut q: usize = 0;
        while q < self.core_to_devices[k].1.len()
            invariant
                k < self.core_to_devices@.len(),
                q <= self.core_to_devices@[k as int].1@.len(),
                self.core_lists() == before_lists,
                kept@ == self.core_to_devices@[k as int].1@.subrange(0, q as int).filter(|x: u32| x != device_id),
            decreases self.core_to_devices@[k as int].1@.len() - q,
        {
            let x = self.core_to_devices[k].1[q];
            proof {
                let l = self.core_to_devices@[k as int].1@;
                assert(l.subrange(0, q + 1) =~= l.subrange(0, q as int).push(x));
                l.subrange(0, q as int).lemma_filter_push(x, |x: u32| x != device_id);
            }
            if x != device_id {
                kept.push(x);
            }
            q = q + 1;
        }
        proof {
            let l = self.core_to_devices@[k as int].1@;
            assert(l.subrange(0, l.len() as int) =~= l);
        }
        self.core_to_devices[k].1 = kept;
        proof {
            assert(self.core_lists() =~= before_lists.update(k as int,
                (before_lists[k as int].0, before_lists[k as int].1.filter(|x: u32| x != device_id))));
        }
        self.device_id_allocator.deallocate_id(device_id);
        proof {
            let lists = self.core_lists();
            let kk0 = choose|kk: int| 0 <= kk < before_lists.len() && before_lists[kk].0 == m_name
                && before_lists[kk].1.contains(device_id);
            assert(kk0 == k);
            assert forall|a: int| 0 <= a < self.mappings().len() implies listed_under(
                lists, self.mappings()[a].core_name@, self.mappings()[a].device_id) by {
                let m = self.mappings()[a];
                let b = if a < p { a } else { a + 1 };
                assert(m == before_maps[b]);
                assert(m.device_id != device_id);
                let kk = choose|kk: int| 0 <= kk < before_lists.len() && before_lists[kk].0 == m.core_name@
                    && before_lists[kk].1.contains(m.device_id);
                let t = choose|t: int| 0 <= t < before_lists[kk].1.len() && before_lists[kk].1[t] == m.device_id;
                if kk == k {
                    before_lists[kk].1.lemma_filter_contains(|x: u32| x != device_id, t);
                }
                assert(lists[kk].1.contains(m.device_id));
            }
            assert forall|a: int| 0 <= a < self.mappings().len() implies self.allocated().contains(self.mappings()[a].device_id) by {
                let b = if a < p { a } else { a + 1 };
                assert(self.mappings()[a] == before_maps[b]);
            }
            assert(distinct_core_names(lists));
        }
        Ok(())
    }

    /// Whether `list` holds `device_id`.
    fn list_contains(list: &Vec<u32>, device_id: u32) -> (b: bool)
        ensures
            b == list@.contains(device_id),
    {
        let mut q: usize = 0;
        while q < list.len()
            invariant
                q <= list@.len(),
                forall|j: int| 0 <= j < q ==> list@[j] != device_id,
            decreases list@.len() - q,
        {
            if list[q] == device_id {
                return true;
            }
            q = q + 1;
        }
        false
    }

    /// Checks that every mapped device is listed under its core. The check
    /// always passes: the mapper keeps both directions in step.
    pub fn validate_mappings(&self) -> (r: Result<(), DeviceError>)
        requires
            self.well_formed(),
        ensures
            r is Ok,
    {
        let mut p: usize = 0;
        while p < self.device_to_core.len()
            invariant
                self.well_formed(),
                p <= self.device_to_core@.len(),
            decreases self.device_to_core@.len() - p,
        {
            let m = &self.device_to_core[p];
            proof {
                assert(listed_under(self.core_lists(), m.core_name@, m.device_id));
            }
            match self.find_core(m.core_name.as_str()) {
                Some(k) => {
                    proof {
                        let kk = choose|kk: int| 0 <= kk < self.core_lists().len() && self.core_lists()[kk].0 == m.core_name@
                            && self.core_lists()[kk].1.contains(m.device_id);
                        assert(kk == k);
                    }
                    if !Self::list_contains(&self.core_to_devices[k].1, m.device_id) {
                        let mut state = String::from_str("Device ");
                        crate::logging::formatter::push_decimal(&mut state, m.device_id as u64);
                        state.append(" not found in core ");
                        state.append(m.core_name.as_str());
                        state.append(" device list");
                        return Err(DeviceError::InvalidState { device_id: m.device_id, state });
                    }
                },
                None => {
                    let mut state = String::from_str("Core ");
                    state.append(m.core_name.as_str());
                    state.append(" not found for device ");
                    crate::logging::formatter::push_decimal(&mut state, m.device_id as u64);
                    return Err(DeviceError::InvalidState { device_id: m.device_id, state });
                },
            }
            p = p + 1;
        }
        Ok(())
    }

    /// Counts of devices, cores, active devices and devices per core type.
    pub fn get_mapping_stats(&self) -> (s: MappingStats)
        ensures
            s.total_devices == self.mappings().len(),
            s.total_cores == self.core_lists().len(),
            s.active_devices == active_count(self.mappings(), self.mappings().len() as int),
            forall|i: int, j: int| 0 <= i < j < s.devices_by_core_type@.len()
                ==> s.devices_by_core_type@[i].0@ != s.devices_by_core_type@[j].0@,
            forall|i: int| 0 <= i < s.devices_by_core_type@.len() ==> s.devices_by_core_type@[i].1
                == type_count(self.mappings(), s.devices_by_core_type@[i].0@, self.mappings().len() as int),
            forall|a: int| 0 <= a < self.mappings().len() ==> #[trigger] type_listed(s.devices_by_core_type@,
                self.mappings()[a].core_type@),
    {
        let ms = &self.device_to_core;
        let mut active: usize = 0;
        let mut by_type: Vec<(String, usize)> = Vec::new();
        let mut p: usize = 0;
        while p < ms.len()
            invariant
                p <= ms@.len(),
                ms@ == self.mappings(),
                active == active_count(ms@, p as int),
                active <= p,
                forall|i: int, j: int| 0 <= i < j < by_type@.len() ==> by_type@[i].0@ != by_type@[j].0@,
                forall|i: int| 0 <= i < by_type@.len() ==> by_type@[i].1 == type_count(ms@, by_type@[i].0@, p as int),
                forall|i: int| 0 <= i < by_type@.len() ==> by_type@[i].1 <= p,
                forall|a: int| 0 <= a < p ==> #[trigger] type_listed(by_type@, ms@[a].core_type@),
            decreases ms@.len() - p,
        {
            let m = &ms[p];
            if m.active {
                active = active + 1;
            }
            let ghost before = by_type@;
            let found = find_type(&by_type, m.core_type.as_str());
            if let Some(t) = found {
                let count = by_type[t].1 + 1;
                by_type[t].1 = count;
                proof {
                    assert forall|i: int| 0 <= i < by_type@.len() implies by_type@[i].1 == type_count(ms@, by_type@[i].0@, p + 1) by {
                        if i != t {
                            assert(by_type@[i] == before[i]);
                        }
                    }
                    assert forall|a: int| 0 <= a < p + 1 implies #[trigger] type_listed(by_type@, ms@[a].core_type@) by {
                        if a < p {
                            assert(type_listed(before, ms@[a].core_type@));
                            let i0 = choose|i: int| 0 <= i < before.len() && before[i].0@ == ms@[a].core_type@;
                            assert(by_type@[i0].0@ == before[i0].0@);
                        } else {
                            assert(by_type@[t as int].0@ == ms@[a].core_type@);
                        }
                    }
                }
            } else {
                by_type.push((m.core_type.clone(), 1));
                proof {
                    assert forall|i: int| 0 <= i < by_type@.len() implies by_type@[i].1 == type_count(ms@, by_type@[i].0@, p + 1) by {
                        if i < before.len() {
                            assert(by_type@[i] == before[i]);
                        } else {
                            assert forall|a: int| 0 <= a < p implies ms@[a].core_type@ != m.core_type@ by {
                                assert(type_listed(before, ms@[a].core_type@));
                                let i0 = choose|i: int| 0 <= i < before.len() && before[i].0@ == ms@[a].core_type@;
                            }
                            lemma_type_count_absent(ms@, m.core_type@, p as int);
                        }
                    }
                    assert forall|a: int| 0 <= a < p + 1 implies #[trigger] type_listed(by_type@, ms@[a].core_type@) by {
                        if a < p {
                            assert(type_listed(before, ms@[a].core_type@));
                            let i0 = choose|i: int| 0 <= i < before.len() && before[i].0@ == ms@[a].core_type@;
                            assert(by_type@[i0] == before[i0]);
                        } else {
                            assert(by_type@[before.len() as int].0@ == ms@[a].core_type@);
                        }
                    }
                }
            }
            p = p + 1;
        }
        MappingStats {
            total_devices: ms.len(),
            total_cores: self.core_to_devices.len(),
            active_devices: active,
            devices_by_core_type: by_type,
        }
    }

    /// The devices of the active mappings of core type `core_type`, in
    /// order of creation.
    pub fn get_devices_by_core_type(&self, core_type: &str) -> (r: Vec<u32>)
        ensures
            r@ == active_ids_of_type(self.mappings(), core_type@, self.mappings().len() as int),
    {
        let ms = &self.device_to_core;
        let mut r: Vec<u32> = Vec::new();
        let mut p: usize = 0;
        while p < ms.len()
            invariant
                p <= ms@.len(),
                ms@ == self.mappings(),
                r@ == active_ids_of_type(ms@, core_type@, p as int),
            decreases ms@.len() - p,
        {
            if ms[p].active && str_equal(ms[p].core_type.as_str(), core_type) {
                r.push(ms[p].device_id);
            }
            p = p + 1;
        }
        r
    }

    /// The number of active devices of each core, each core once, in the
    /// order of its first active device.
    pub fn get_device_count_by_core(&self) -> (s: Vec<(String, usize)>)
        ensures
            forall|i: int, j: int| 0 <= i < j < s@.len() ==> s@[i].0@ != s@[j].0@,
            forall|i: int| 0 <= i < s@.len() ==> s@[i].1
                == active_name_count(self.mappings(), s@[i].0@, self.mappings().len() as int),
            forall|i: int| 0 <= i < s@.len() ==> s@[i].1 > 0,
            forall|a: int| 0 <= a < self.mappings().len() && self.mappings()[a].active
                ==> #[trigger] type_listed(s@, self.mappings()[a].core_name@),
    {
        let ms = &self.device_to_core;
        let mut counts: Vec<(String, usize)> = Vec::new();
        let mut p: usize = 0;
        while p < ms.len()
            invariant
                p <= ms@.len(),
                ms@ == self.mappings(),
                forall|i: int, j: int| 0 <= i < j < counts@.len() ==> counts@[i].0@ != counts@[j].0@,
                forall|i: int| 0 <= i < counts@.len() ==> counts@[i].1 == active_name_count(ms@, counts@[i].0@, p as int),
                forall|i: int| 0 <= i < counts@.len() ==> 0 < #[trigger] counts@[i].1 <= p,
                forall|a: int| 0 <= a < p && ms@[a].active ==> #[trigger] type_listed(counts@, ms@[a].core_name@),
            decreases ms@.len() - p,
        {
            let m = &ms[p];
            let ghost before = counts@;
            if m.active {
                let found = find_type(&counts, m.core_name.as_str());
                if let Some(t) = found {
                    let count = counts[t].1 + 1;
                    counts[t].1 = count;
                    proof {
                        assert forall|i: int| 0 <= i < counts@.len() implies counts@[i].1
                            == active_name_count(ms@, counts@[i].0@, p + 1) by {
                            if i != t {
                                assert(counts@[i] == before[i]);
                            }
                        }
                        assert forall|a: int| 0 <= a < p + 1 && ms@[a].active
                            implies #[trigger] type_listed(counts@, ms@[a].core_name@) by {
                            if a < p {
                                assert(type_listed(before, ms@[a].core_name@));
                                let i0 = choose|i: int| 0 <= i < before.len() && before[i].0@ == ms@[a].core_name@;
                                assert(counts@[i0].0@ == before[i0].0@);
                            } else {
                                assert(counts@[t as int].0@ == ms@[a].core_name@);
                            }
                        }
                    }
                } else {
                    counts.push((m.core_name.clone(), 1));
                    proof {
                        assert forall|i: int| 0 <= i < counts@.len() implies counts@[i].1
                            == active_name_count(ms@, counts@[i].0@, p + 1) by {
                            if i < before.len() {
                                assert(counts@[i] == before[i]);
                            } else {
                                assert forall|a: int| 0 <= a < p && ms@[a].active implies ms@[a].core_name@ != m.core_name@ by {
                                    assert(type_listed(before, ms@[a].core_name@));
                                    let i0 = choose|i: int| 0 <= i < before.len() && before[i].0@ == ms@[a].core_name@;
                                }
                                lemma_name_count_absent(ms@, m.core_name@, p as int);
                            }
                        }
                        assert forall|a: int| 0 <= a < p + 1 && ms@[a].active
                            implies #[trigger] type_listed(counts@, ms@[a].core_name@) by {
                            if a < p {
                                assert(type_listed(before, ms@[a].core_name@));
                                let i0 = choose|i: int| 0 <= i < before.len() && before[i].0@ == ms@[a].core_name@;
                                assert(counts@[i0] == before[i0]);
                            } else {
                                assert(counts@[before.len() as int].0@ == ms@[a].core_name@);
                            }
                        }
                    }
                }
            } else {
                proof {
                    assert forall|i: int| 0 <= i < counts@.len() implies counts@[i].1
                        == active_name_count(ms@, counts@[i].0@, p + 1) by {
                    }
                }
            }
            p = p + 1;
        }
        counts
    }

    /// All mappings, in order of creation.
    pub fn get_all_mappings(&self) -> (r: Vec<DeviceCoreMapping>)
        ensures
            r@ == self.mappings(),
    {
        let mut r: Vec<DeviceCoreMapping> = Vec::new();
        let mut p: usize = 0;
        while p < self.device_to_core.len()
            invariant
                p <= self.device_to_core@.len(),
                r@ == self.mappings().subrange(0, p as int),
            decreases self.device_to_core@.len() - p,
        {
            r.push(self.device_to_core[p].clone());
            proof {
                assert(self.mappings().subrange(0, p + 1) =~= self.mappings().subrange(0, p as int).push(self.mappings()[p as int]));
            }
            p = p + 1;
        }
        assert(self.mappings().subrange(0, p as int) =~= self.mappings());
        r
    }
}

/// The position of the entry of core type `t` in `counts`.
fn find_type(counts: &Vec<(String, usize)>, t: &str) -> (r: Option<usize>)
    ensures
        r matches Some(k) ==> k < counts@.len() && counts@[k as int].0@ == t@,
        r is None ==> forall|k: int| 0 <= k < counts@.len() ==> counts@[k].0@ != t@,
{
    let mut k: usize = 0;
    while k < counts.len()
        invariant
            k <= counts@.len(),
            forall|j: int| 0 <= j < k ==> counts@[j].0@ != t@,
        decreases counts@.len() - k,
    {
        if str_equal(counts[k].0.as_str(), t) {
            return Some(k);
        }
        k = k + 1;
    }
    None
}

/// Core type `t` has an entry in the per-type counts `counts`.
pub open spec fn type_listed(counts: Seq<(String, usize)>, t: Seq<char>) -> bool {
    exists|i: int| 0 <= i < counts.len() && counts[i].0@ == t
}

/// The devices of the active mappings of core type `t` among the first `n`
/// of `mappings`, in order.
pub open spec fn active_ids_of_type(mappings: Seq<DeviceCoreMapping>, t: Seq<char>, n: int) -> Seq<u32>
    decreases n,
{
    if n <= 0 {
        Seq::empty()
    } else if mappings[n - 1].active && mappings[n - 1].core_type@ == t {
        active_ids_of_type(mappings, t, n - 1).push(mappings[n - 1].device_id)
    } else {
        active_ids_of_type(mappings, t, n - 1)
    }
}

/// The number of active mappings to core `name` among the first `n` of
/// `mappings`.
pub open spec fn active_name_count(mappings: Seq<DeviceCoreMapping>, name: Seq<char>, n: int) -> nat
    decreases n,
{
    if n <= 0 {
        0
    } else {
        active_name_count(mappings, name, n - 1)
            + (if mappings[n - 1].active && mappings[n - 1].core_name@ == name { 1nat } else { 0nat })
    }
}

/// A core that no active mapping among the first `n` names counts zero there.
proof fn lemma_name_count_absent(ms: Seq<DeviceCoreMapping>, name: Seq<char>, n: int)
    requires
        0 <= n <= ms.len(),
        forall|a: int| 0 <= a < n && ms[a].active ==> ms[a].core_name@ != name,
    ensures
        active_name_count(ms, name, n) == 0,
    decreases n,
{
    if n > 0 {
        lemma_name_count_absent(ms, name, n - 1);
    }
}

/// A core type that no mapping among the first `n` has counts zero there.
proof fn lemma_type_count_absent(ms: Seq<DeviceCoreMapping>, t: Seq<char>, n: int)
    requires
        0 <= n <= ms.len(),
        forall|a: int| 0 <= a < n ==> ms[a].core_type@ != t,
    ensures
        type_count(ms, t, n) == 0,
    decreases n,
{
    if n > 0 {
        lemma_type_count_absent(ms, t, n - 1);
    }
}

/// `ms` are `count` mappings of new devices to core `name` of type `t`
/// created at `now`: indexed by position, active, with identifiers in
/// increasing order from the range of `t`, none handed out before, and no
/// free identifier of the range skipped below the last.
pub open spec fn created_mappings(
    taken: Set<u32>,
    ms: Seq<DeviceCoreMapping>,
    name: Seq<char>,
    t: Seq<char>,
    count: nat,
    now: u64,
) -> bool {
    &&& ms.len() == count
    &&& forall|i: int| 0 <= i < ms.len() ==> {
        &&& ms[i].device_index == i as u32
        &&& ms[i].core_name@ == name
        &&& ms[i].core_type@ == t
        &&& ms[i].active
        &&& ms[i].created_at == now
        &&& mapper_range(t).0 <= ms[i].device_id <= mapper_range(t).1
        &&& !taken.contains(ms[i].device_id)
    }
    &&& forall|i: int, j: int| 0 <= i < j < ms.len() ==> ms[i].device_id < ms[j].device_id
    &&& ms.len() > 0 ==> forall|y: u32| mapper_range(t).0 <= y <= ms[ms.len() - 1].device_id && !taken.contains(y)
        ==> exists|i: int| 0 <= i < ms.len() && ms[i].device_id == y
}


/// The ASIC core types, the Maijie L7 among them, draw identifiers from
/// 2000 to 2499, a range that lies wholly above that of the software core
/// types, so an ASIC device never takes a software device's identifier.
pub proof fn law_asic_types_share_the_asic_range(t: Seq<char>, s: Seq<char>)
    requires
        t == "asic"@ || t == "maijie-l7"@ || t == "l7"@,
        s == "software"@ || s == "cpu-btc"@ || s == "btc"@ || s == "cpu"@,
    ensures
        mapper_range(t) == (2000u32, 2499u32),
        mapper_range(s).1 < mapper_range(t).0,
{
    reveal_strlit("asic");
    reveal_strlit("maijie-l7");
    reveal_strlit("l7");
    reveal_strlit("software");
    reveal_strlit("cpu-btc");
    reveal_strlit("btc");
    reveal_strlit("cpu");
    assert(t.len() == 4 || t.len() == 9 || t.len() == 2);
    assert(t != "software"@ && t != "cpu-btc"@ && t != "btc"@ && t != "cpu"@);
    assert(mapper_range(t) == (2000u32, 2499u32));
    assert(s.len() == 8 || s.len() == 7 || s.len() == 3);
    assert(mapper_range(s) == (1000u32, 1499u32));
}


/// The software, ASIC, FPGA and GPU core types each draw identifiers from a
/// range of 500 of their own, in that order and without overlap: 1000, 2000,
/// 3000 and 4000 onwards.
pub proof fn law_core_type_ranges_apart()
    ensures
        mapper_range("software"@) == (1000u32, 1499u32),
        mapper_range("asic"@) == (2000u32, 2499u32),
        mapper_range("fpga"@) == (3000u32, 3499u32),
        mapper_range("gpu"@) == (4000u32, 4499u32),
{
    reveal_strlit("asic");
    reveal_strlit("maijie-l7");
    reveal_strlit("l7");
    reveal_strlit("software");
    reveal_strlit("cpu-btc");
    reveal_strlit("btc");
    reveal_strlit("cpu");
    reveal_strlit("fpga");
    reveal_strlit("gpu");
    assert("fpga"@[0] != "asic"@[0] && "fpga"@.len() != "btc"@.len() && "fpga"@.len() != "l7"@.len());
    assert("gpu"@[0] != "btc"@[0] && "gpu"@[0] != "cpu"@[0] && "gpu"@.len() != "l7"@.len());
    assert("asic"@ != "software"@ && "asic"@ != "cpu-btc"@);
}

} // verus!
