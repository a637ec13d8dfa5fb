//! The namespace entity and the version-gated enumeration of a
//! controller's namespace identifiers.

use vstd::prelude::*;
use vstd::arithmetic::power2::{pow2, lemma_pow2_strictly_increases};
use vstd::bits::{lemma_u64_pow2_no_overflow, lemma_u64_shl_is_mul};
use crate::codec::{
    bit_field_extract, lemma_extract_bits_bound, lemma_le_val_bound, read_le32, read_le64,
    spec_extract_bits, spec_le_val,
};
use crate::controller::{spec_ctrl_nn, spec_ctrl_ver, NvmeController};
use crate::error::NvmeError;
use crate::host::{
    NvmeHost, IDT_NS_MAX_COUNT, NVME_ADMIN_CMD_CNS_ALL_ACTIVE_NS, NVME_ADMIN_CMD_CNS_IDENTIFY_NS,
    NVME_IDENTIFY_DATA_LEN,
};
use crate::resolve::{get_blk_path, spec_dev_prefix, spec_is_ns_entry_name};
use crate::text::{spec_hex_suppressed, take_range, to_hex_string};

verus! {

/// The LBA format table has this many slots.
pub const MAX_LBA_FORMAT_COUNT: usize = 16;

/// The EUI-64 identifier of the record, as suppressed hex.
pub open spec fn spec_ns_eui64(raw: Seq<u8>) -> Seq<char> {
    spec_hex_suppressed(raw.subrange(120, 128))
}

/// The namespace globally unique identifier of the record, as
/// suppressed hex.
pub open spec fn spec_ns_nguid(raw: Seq<u8>) -> Seq<char> {
    spec_hex_suppressed(raw.subrange(104, 120))
}

/// The namespace size in logical blocks.
pub open spec fn spec_ns_nsze(raw: Seq<u8>) -> nat {
    spec_le_val(raw.subrange(0, 8))
}

/// The active LBA-format slot: the low four bits of the
/// format-selection byte.
pub open spec fn spec_ns_lba_slot(raw: Seq<u8>) -> nat {
    spec_extract_bits(raw[26], 3, 0) as nat
}

/// Capacity in bytes from the parts of the derivation: block count
/// times block size, zero when the slot is out of the table's range.
pub open spec fn spec_capacity_from_parts(slot: nat, nsze: nat, lbads: nat) -> nat {
    if slot >= MAX_LBA_FORMAT_COUNT {
        0
    } else {
        nsze * pow2(lbads)
    }
}

/// Capacity in bytes of the namespace the record describes.
pub open spec fn spec_ns_capacity(raw: Seq<u8>) -> nat {
    spec_capacity_from_parts(
        spec_ns_lba_slot(raw),
        spec_ns_nsze(raw),
        raw[130 + 4 * spec_ns_lba_slot(raw) as int] as nat,
    )
}

/// A mathematical byte count clipped to what a `u64` can hold.
pub open spec fn spec_saturate_u64(n: nat) -> u64 {
    if n <= u64::MAX {
        n as u64
    } else {
        u64::MAX
    }
}

/// Computes the capacity from the derivation's parts, saturating at
/// `u64::MAX`.
pub fn capacity_from_parts(slot: u8, nsze: u64, lbads: u8) -> (r: u64)
    ensures
        r == spec_saturate_u64(spec_capacity_from_parts(slot as nat, nsze as nat, lbads as nat)),
{
    if slot as usize >= MAX_LBA_FORMAT_COUNT {
        return 0;
    }
    if nsze == 0 {
        return 0;
    }
    if lbads >= 64 {
        proof {
            if (lbads as nat) > 64 {
                lemma_pow2_strictly_increases(64, lbads as nat);
            }
            assert(pow2(64) == 0x10000000000000000) by {
                vstd::arithmetic::power2::lemma2_to64();
            }
            assert(nsze * pow2(lbads as nat) >= pow2(lbads as nat)) by (nonlinear_arith)
                requires
                    nsze >= 1,
                    pow2(lbads as nat) >= 0,
            ;
        }
        return u64::MAX;
    }
    proof {
        lemma_u64_pow2_no_overflow(lbads as nat);
        lemma_u64_shl_is_mul(1u64, lbads as u64);
    }
    let unit = 1u64 << lbads;
    match nsze.checked_mul(unit) {
        Some(v) => v,
        None => u64::MAX,
    }
}

/// One NVMe namespace: its identifier, the owning controller's device
/// path, the resolved block-device path (empty when resolution failed),
/// the raw Identify-Namespace record and the identifier strings derived
/// from it.
#[derive(Debug)]
pub struct NvmeNameSpace {
    raw_id_data: Vec<u8>,
    blk_path: String,
    ctrl_blk_path: String,
    nsid: u32,
    eui64: String,
    nguid: String,
}

impl NvmeNameSpace {
    /// The raw Identify-Namespace record.
    pub closed spec fn spec_raw(&self) -> Seq<u8> {
        self.raw_id_data@
    }

    /// The namespace identifier.
    pub closed spec fn spec_nsid(&self) -> u32 {
        self.nsid
    }

    /// The owning controller's device path.
    pub closed spec fn spec_ctrl_blk_path(&self) -> Seq<char> {
        self.ctrl_blk_path@
    }

    /// The resolved block-device path, empty when resolution failed.
    pub closed spec fn spec_blk_path(&self) -> Seq<char> {
        self.blk_path@
    }

    #[verifier::type_invariant]
    spec fn wf(&self) -> bool {
        &&& self.raw_id_data@.len() == NVME_IDENTIFY_DATA_LEN
        &&& self.eui64@ == spec_ns_eui64(self.raw_id_data@)
        &&& self.nguid@ == spec_ns_nguid(self.raw_id_data@)
    }

    /// The owning controller's device path.
    pub fn ctrl_blk_path_get(&self) -> (r: &str)
        ensures
            r@ == self.spec_ctrl_blk_path(),
    {
        self.ctrl_blk_path.as_str()
    }

    /// The namespace identifier.
    pub fn nsid_get(&self) -> (r: u32)
        ensures
            r == self.spec_nsid(),
    {
        self.nsid
    }

    /// The EUI-64 identifier as lowercase hex, empty when the device
    /// provides none (all-zero field).
    pub fn eui64_get(&self) -> (r: &str)
        ensures
            r@ == spec_ns_eui64(self.spec_raw()),
    {
        proof {
            use_type_invariant(self);
        }
        self.eui64.as_str()
    }

    /// The namespace globally unique identifier as lowercase hex, empty
    /// when the device provides none (all-zero field).
    pub fn nguid_get(&self) -> (r: &str)
        ensures
            r@ == spec_ns_nguid(self.spec_raw()),
    {
        proof {
            use_type_invariant(self);
        }
        self.nguid.as_str()
    }

    /// The resolved block-device path, empty when resolution failed.
    pub fn blk_path_get(&self) -> (r: &str)
        ensures
            r@ == self.spec_blk_path(),
    {
        self.blk_path.as_str()
    }

    /// The namespace capacity in bytes: block count times the active
    /// LBA format's block size, saturating at `u64::MAX`.
    pub fn size_get(&self) -> (r: u64)
        ensures
            r == spec_saturate_u64(spec_ns_capacity(self.spec_raw())),
    {
        proof {
            use_type_invariant(self);
        }
        let flbas = self.raw_id_data[26];
        let lba_slot = bit_field_extract(flbas, 3, 0);
        proof {
            lemma_extract_bits_bound(flbas, 3, 0);
            assert((1u32 << 4) == 16) by (bit_vector);
        }
        let lbads = self.raw_id_data[130 + 4 * (lba_slot as usize)];
        let nsze = read_le64(&self.raw_id_data, 0);
        capacity_from_parts(lba_slot, nsze, lbads)
    }

    /// Builds the namespace entity from a raw Identify-Namespace record
    /// and the resolved path; a total transformation.
    pub fn from_id_data(ctrl_blk_path: &str, nsid: u32, id_data: Vec<u8>, blk_path: String) -> (r:
        NvmeNameSpace)
        requires
            id_data@.len() == NVME_IDENTIFY_DATA_LEN,
        ensures
            r.spec_raw() == id_data@,
            r.spec_nsid() == nsid,
            r.spec_ctrl_blk_path() == ctrl_blk_path@,
            r.spec_blk_path() == blk_path@,
    {
        let eui64_bytes = take_range(id_data.as_slice(), 120, 8);
        let eui64 = to_hex_string(eui64_bytes.as_slice());
        let nguid_bytes = take_range(id_data.as_slice(), 104, 16);
        let nguid = to_hex_string(nguid_bytes.as_slice());
        NvmeNameSpace {
            raw_id_data: id_data,
            blk_path,
            ctrl_blk_path: ctrl_blk_path.to_owned(),
            nsid,
            eui64,
            nguid,
        }
    }

    /// Identifies one namespace of the controller at `ctrl_blk_path`:
    /// issues Identify-Namespace, resolves the block-device path (an
    /// unresolved path is left empty, not an error), and builds the
    /// entity.
    pub fn new<H: NvmeHost>(host: &mut H, ctrl_blk_path: &str, nsid: u32) -> (r: Result<
        NvmeNameSpace,
        NvmeError,
    >)
        ensures
            r matches Ok(ns) ==> ns.spec_nsid() == nsid && ns.spec_ctrl_blk_path()
                == ctrl_blk_path@,
            r matches Ok(ns) ==> ns.spec_blk_path() == Seq::<char>::empty() || exists|
                name: Seq<char>,
            | spec_is_ns_entry_name(name) && ns.spec_blk_path() == spec_dev_prefix() + name,
    {
        let id_data = match host.submit_admin_identify(
            ctrl_blk_path,
            NVME_ADMIN_CMD_CNS_IDENTIFY_NS,
            nsid,
        ) {
            Ok(buf) => buf,
            Err(e) => {
                return Err(e);
            },
        };
        let blk_path = match get_blk_path(host, ctrl_blk_path, nsid) {
            Some(p) => p,
            None => String::new(),
        };
        Ok(NvmeNameSpace::from_id_data(ctrl_blk_path, nsid, id_data, blk_path))
    }
}

/// True when the sequence is strictly increasing, hence free of
/// duplicates.
pub open spec fn spec_strictly_increasing_u32(s: Seq<u32>) -> bool {
    forall|a: int, b: int| 0 <= a < b < s.len() ==> s[a] < s[b]
}

/// The namespace ids taken from an active-namespace-list page, read
/// from entry `k` on: four-byte little-endian entries, ended by the
/// first zero entry or the page's end; only ids that advance past `cur`
/// are taken, and at most `room` of them.
pub open spec fn spec_page_new_ids(page: Seq<u8>, k: nat, cur: u32, room: nat) -> Seq<u32>
    decreases IDT_NS_MAX_COUNT - k,
{
    if k >= IDT_NS_MAX_COUNT || room == 0 {
        Seq::empty()
    } else {
        let id = spec_le_val(page.subrange(4 * k as int, 4 * k as int + 4));
        if id == 0 {
            Seq::empty()
        } else if id > cur {
            seq![id as u32] + spec_page_new_ids(page, k + 1, id as u32, (room - 1) as nat)
        } else {
            spec_page_new_ids(page, k + 1, cur, room)
        }
    }
}

/// What a page yields: at most `room` ids, all past `cur`, strictly
/// increasing.
pub proof fn lemma_page_new_ids_props(page: Seq<u8>, k: nat, cur: u32, room: nat)
    requires
        page.len() == NVME_IDENTIFY_DATA_LEN,
    ensures
        spec_page_new_ids(page, k, cur, room).len() <= room,
        forall|j: int|
            0 <= j < spec_page_new_ids(page, k, cur, room).len() ==> #[trigger] spec_page_new_ids(
                page,
                k,
                cur,
                room,
            )[j] > cur,
        spec_strictly_increasing_u32(spec_page_new_ids(page, k, cur, room)),
    decreases IDT_NS_MAX_COUNT - k,
{
    if k >= IDT_NS_MAX_COUNT || room == 0 {
    } else {
        let id = spec_le_val(page.subrange(4 * k as int, 4 * k as int + 4));
        lemma_le_val_bound(page.subrange(4 * k as int, 4 * k as int + 4));
        assert(pow2(32) == 0x100000000) by {
            vstd::arithmetic::power2::lemma2_to64();
        }
        if id == 0 {
        } else if id > cur {
            lemma_page_new_ids_props(page, k + 1, id as u32, (room - 1) as nat);
            let ids = spec_page_new_ids(page, k, cur, room);
            let rest = spec_page_new_ids(page, k + 1, id as u32, (room - 1) as nat);
            assert forall|a: int, b: int| 0 <= a < b < ids.len() implies ids[a] < ids[b] by {
                if a == 0 {
                    assert(ids[b] == rest[b - 1]);
                } else {
                    assert(ids[a] == rest[a - 1] && ids[b] == rest[b - 1]);
                }
            }
        } else {
            lemma_page_new_ids_props(page, k + 1, cur, room);
        }
    }
}

/// Reads the new namespace ids out of one active-namespace-list page.
fn page_new_ids(page: &Vec<u8>, cur0: u32, room: usize) -> (r: Vec<u32>)
    requires
        page@.len() == NVME_IDENTIFY_DATA_LEN,
    ensures
        r@ == spec_page_new_ids(page@, 0, cur0, room as nat),
{
    let mut r: Vec<u32> = Vec::new();
    let mut cur = cur0;
    let mut k: usize = 0;
    while k < IDT_NS_MAX_COUNT
        invariant
            k <= IDT_NS_MAX_COUNT,
            page@.len() == NVME_IDENTIFY_DATA_LEN,
            r@.len() <= room,
            spec_page_new_ids(page@, 0, cur0, room as nat) =~= r@ + spec_page_new_ids(
                page@,
                k as nat,
                cur,
                (room - r@.len()) as nat,
            ),
        ensures
            r@ =~= spec_page_new_ids(page@, 0, cur0, room as nat),
        decreases IDT_NS_MAX_COUNT - k,
    {
        if r.len() >= room {
            break;
        }
        let id = read_le32(page, 4 * k);
        proof {
            lemma_le_val_bound(page@.subrange(4 * k as int, 4 * k + 4));
            assert(pow2(32) == 0x100000000) by {
                vstd::arithmetic::power2::lemma2_to64();
            }
        }
        if id == 0 {
            break;
        }
        if id > cur {
            r.push(id);
            cur = id;
        }
        k = k + 1;
    }
    r
}

impl NvmeNameSpace {
    /// The set of valid namespace identifiers of a controller.  Before
    /// specification version 1.1.0 they are exactly `1..=nn`, with no
    /// query.  From 1.1.0 on, the active-namespace-list command is
    /// paged through, each page starting past the last id seen, until
    /// the declared count is reached or a page yields no advancing id
    /// (the explicit termination guard).  The result is strictly
    /// increasing, so no id repeats and none is zero.
    pub fn nsid_list_get<H: NvmeHost>(host: &mut H, blk_path: &str, ctrl: &NvmeController) -> (r:
        Result<Vec<u32>, NvmeError>)
        ensures
            spec_ctrl_ver(ctrl.spec_raw()) < 0x10100 ==> (r matches Ok(v) && v@.len()
                == spec_ctrl_nn(ctrl.spec_raw()) && (forall|j: int|
                0 <= j < v@.len() ==> v@[j] == j + 1)),
            r matches Ok(v) ==> spec_strictly_increasing_u32(v@) && v@.len() <= spec_ctrl_nn(
                ctrl.spec_raw(),
            ) && (forall|j: int| 0 <= j < v@.len() ==> #[trigger] v@[j] >= 1),
    {
        let nn = ctrl.nn_get();
        let ver = ctrl.ver_get();
        let nn_count = nn as usize;
        let mut ret: Vec<u32> = Vec::new();
        if ver < NvmeController::ver_gen(1, 1, 0) {
            while ret.len() < nn_count
                invariant
                    ret@.len() <= nn_count == spec_ctrl_nn(ctrl.spec_raw()),
                    nn_count <= u32::MAX,
                    forall|j: int| 0 <= j < ret@.len() ==> ret@[j] == j + 1,
                decreases nn_count - ret.len(),
            {
                let next = (ret.len() as u32) + 1;
                ret.push(next);
            }
            return Ok(ret);
        }
        let mut cur: u32 = 0;
        while ret.len() < nn_count
            invariant
                spec_ctrl_ver(ctrl.spec_raw()) >= 0x10100,
                ret@.len() <= nn_count == spec_ctrl_nn(ctrl.spec_raw()),
                spec_strictly_increasing_u32(ret@),
                forall|j: int| 0 <= j < ret@.len() ==> #[trigger] ret@[j] >= 1,
                cur == if ret@.len() == 0 {
                    0u32
                } else {
                    ret@.last()
                },
            ensures
                ret@.len() <= nn_count,
                spec_strictly_increasing_u32(ret@),
                forall|j: int| 0 <= j < ret@.len() ==> #[trigger] ret@[j] >= 1,
            decreases nn_count - ret.len(),
        {
            let page = match host.submit_admin_identify(
                blk_path,
                NVME_ADMIN_CMD_CNS_ALL_ACTIVE_NS,
                cur,
            ) {
                Ok(p) => p,
                Err(e) => {
                    return Err(e);
                },
            };
            let room = nn_count - ret.len();
            let mut new_ids = page_new_ids(&page, cur, room);
            if new_ids.len() == 0 {
                break;
            }
            proof {
                lemma_page_new_ids_props(page@, 0, cur, room as nat);
            }
            let new_cur = new_ids[new_ids.len() - 1];
            let ghost old_ret = ret@;
            let ghost added = new_ids@;
            ret.append(&mut new_ids);
            proof {
                assert forall|a: int, b: int| 0 <= a < b < ret@.len() implies ret@[a]
                    < ret@[b] by {
                    if b < old_ret.len() {
                        assert(ret@[a] == old_ret[a] && ret@[b] == old_ret[b]);
                    } else if a >= old_ret.len() {
                        assert(ret@[a] == added[a - old_ret.len()] && ret@[b] == added[b
                            - old_ret.len()]);
                    } else {
                        assert(ret@[a] == old_ret[a]);
                        assert(ret@[b] == added[b - old_ret.len()]);
                        assert(added[b - old_ret.len()] > cur);
                        if a < old_ret.len() - 1 {
                            assert(old_ret[a] < old_ret[old_ret.len() - 1]);
                        }
                    }
                }
                assert(ret@.last() == added.last());
                assert(added.last() > cur);
            }
            cur = new_cur;
        }
        Ok(ret)
    }
}

} // verus!
