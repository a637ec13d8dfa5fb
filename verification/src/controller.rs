//! The controller entity: one decoded Identify-Controller record,
//! its derived strings, and the enumeration of the present controllers.

use vstd::prelude::*;
use vstd::string::StringExecFns;
use vstd::utf8::{decode_utf8, valid_utf8};
use crate::codec::{read_le16, read_le24, read_le32, spec_le_val};
use crate::error::{ErrorKind, NvmeError};
use crate::host::{NvmeHost, NVME_ADMIN_CMD_CNS_ALL_CTRL, NVME_IDENTIFY_DATA_LEN};
use crate::namespace::{spec_strictly_increasing_u32, NvmeNameSpace};
use crate::resolve::{spec_dev_prefix, spec_is_ns_entry_name};
use crate::text::{
    spec_dec_str, spec_trim_trailing, take_range, trim_trailing, u64_to_dec_str, utf8_to_string,
};

verus! {

/// The serial number: the raw field trimmed of trailing padding, as text.
pub open spec fn spec_ctrl_sn(raw: Seq<u8>) -> Seq<char> {
    decode_utf8(spec_trim_trailing(raw.subrange(4, 24)))
}

/// The model number: the raw field trimmed of trailing padding, as text.
pub open spec fn spec_ctrl_mn(raw: Seq<u8>) -> Seq<char> {
    decode_utf8(spec_trim_trailing(raw.subrange(24, 64)))
}

/// The firmware revision: the raw field trimmed of trailing padding, as text.
pub open spec fn spec_ctrl_fr(raw: Seq<u8>) -> Seq<char> {
    decode_utf8(spec_trim_trailing(raw.subrange(64, 72)))
}

/// The FRU globally unique identifier: the raw field trimmed of trailing padding, as text.
pub open spec fn spec_ctrl_fguid(raw: Seq<u8>) -> Seq<char> {
    decode_utf8(spec_trim_trailing(raw.subrange(112, 128)))
}

/// The NVM subsystem qualified name: the raw field trimmed of trailing padding, as text.
pub open spec fn spec_ctrl_subnqn(raw: Seq<u8>) -> Seq<char> {
    decode_utf8(spec_trim_trailing(raw.subrange(768, 1024)))
}

/// True when every textual field of the record, after trimming, is
/// valid UTF-8; construction fails otherwise.
pub open spec fn spec_ctrl_texts_ok(raw: Seq<u8>) -> bool {
    &&& valid_utf8(spec_trim_trailing(raw.subrange(4, 24)))
    &&& valid_utf8(spec_trim_trailing(raw.subrange(24, 64)))
    &&& valid_utf8(spec_trim_trailing(raw.subrange(64, 72)))
    &&& valid_utf8(spec_trim_trailing(raw.subrange(112, 128)))
    &&& valid_utf8(spec_trim_trailing(raw.subrange(768, 1024)))
}

/// The raw four-byte specification version field as an integer.
pub open spec fn spec_ctrl_ver(raw: Seq<u8>) -> nat {
    spec_le_val(raw.subrange(80, 84))
}

/// The declared namespace count.
pub open spec fn spec_ctrl_nn(raw: Seq<u8>) -> nat {
    spec_le_val(raw.subrange(516, 520))
}

/// The derived version string: `major.minor.tertiary`, with an
/// all-zero raw field standing for the pre-versioning `1.0.0`.
pub open spec fn spec_ctrl_ver_str(raw: Seq<u8>) -> Seq<char> {
    let major = if spec_ctrl_ver(raw) == 0 {
        1
    } else {
        spec_le_val(raw.subrange(82, 84))
    };
    let minor = if spec_ctrl_ver(raw) == 0 {
        0
    } else {
        raw[81] as nat
    };
    let tertiary = if spec_ctrl_ver(raw) == 0 {
        0
    } else {
        raw[80] as nat
    };
    spec_dec_str(major) + seq!['.'] + spec_dec_str(minor) + seq!['.'] + spec_dec_str(tertiary)
}

/// The raw version field decomposes into the three version parts: the
/// two-byte little-endian major, then minor, then tertiary, exactly as
/// `ver_gen` combines them.
pub proof fn lemma_ctrl_ver_decomposes(raw: Seq<u8>)
    requires
        raw.len() >= 84,
    ensures
        spec_ctrl_ver(raw) == spec_le_val(raw.subrange(82, 84)) * 0x10000 + raw[81] * 0x100
            + raw[80],
{
    let s = raw.subrange(80, 84);
    let mid = raw.subrange(81, 84);
    let hi = raw.subrange(82, 84);
    let last = raw.subrange(83, 84);
    assert(s.drop_first() =~= mid);
    assert(mid.drop_first() =~= hi);
    assert(hi.drop_first() =~= last);
    assert(last.drop_first() =~= Seq::<u8>::empty());
    assert(spec_le_val(Seq::<u8>::empty()) == 0);
    assert(spec_le_val(last) == raw[83]);
    assert(spec_le_val(hi) == raw[82] + 256 * spec_le_val(last));
    assert(spec_le_val(mid) == raw[81] + 256 * spec_le_val(hi));
    assert(spec_le_val(s) == raw[80] + 256 * spec_le_val(mid));
}

/// Combined version integers compare as the version tuples do
/// lexicographically, so one integer comparison decides the
/// enumeration policy.
pub proof fn lemma_ver_gen_order(major1: u16, minor1: u8, tertiary1: u8, major2: u16, minor2: u8, tertiary2: u8)
    ensures
        (major1 * 0x10000 + minor1 * 0x100 + tertiary1 < major2 * 0x10000 + minor2 * 0x100
            + tertiary2) <==> (major1 < major2 || (major1 == major2 && minor1 < minor2) || (major1
            == major2 && minor1 == minor2 && tertiary1 < tertiary2)),
{
}

/// One NVMe controller: its device path, the raw Identify-Controller
/// record, and the strings derived from it at construction.
#[derive(Debug)]
pub struct NvmeController {
    raw_id_data: Vec<u8>,
    sn: String,
    mn: String,
    fr: String,
    fguid: String,
    subnqn: String,
    ver_str: String,
    blk_path: String,
}

fn corrupted_text_error() -> (r: NvmeError)
    ensures
        r.kind is CorruptedData,
{
    NvmeError {
        kind: ErrorKind::CorruptedData(
            "identification text field is not valid UTF-8".to_owned(),
        ),
    }
}

/// Decodes the text field at `off` of width `len`: trailing padding is
/// trimmed, then the bytes are read as UTF-8.
fn decode_text_field(buf: &Vec<u8>, off: usize, len: usize) -> (r: Option<String>)
    requires
        off + len <= buf@.len(),
    ensures
        r is Some <==> valid_utf8(spec_trim_trailing(buf@.subrange(off as int, off + len))),
        r matches Some(s) ==> s@ == decode_utf8(
            spec_trim_trailing(buf@.subrange(off as int, off + len)),
        ),
{
    let field = take_range(buf.as_slice(), off, len);
    let trimmed = trim_trailing(field.as_slice());
    utf8_to_string(trimmed.as_slice())
}

/// Derives the version string from the raw record.
fn derive_ver_str(buf: &Vec<u8>) -> (r: String)
    requires
        buf@.len() == NVME_IDENTIFY_DATA_LEN,
    ensures
        r@ == spec_ctrl_ver_str(buf@),
{
    let v = read_le32(buf, 80);
    let major: u16 = if v == 0 {
        1
    } else {
        read_le16(buf, 82)
    };
    let minor: u8 = if v == 0 {
        0
    } else {
        buf[81]
    };
    let tertiary: u8 = if v == 0 {
        0
    } else {
        buf[80]
    };
    proof {
        reveal_strlit(".");
        assert("."@ =~= seq!['.']);
    }
    let mut s = u64_to_dec_str(major as u64);
    s.append(".");
    let minor_str = u64_to_dec_str(minor as u64);
    s.append(minor_str.as_str());
    s.append(".");
    let tertiary_str = u64_to_dec_str(tertiary as u64);
    s.append(tertiary_str.as_str());
    proof {
        assert(s@ =~= spec_ctrl_ver_str(buf@));
    }
    s
}

impl NvmeController {
    /// The raw Identify-Controller record.
    pub closed spec fn spec_raw(&self) -> Seq<u8> {
        self.raw_id_data@
    }

    /// The device path the controller was opened from.
    pub closed spec fn spec_blk_path(&self) -> Seq<char> {
        self.blk_path@
    }

    #[verifier::type_invariant]
    spec fn wf(&self) -> bool {
        &&& self.raw_id_data@.len() == NVME_IDENTIFY_DATA_LEN
        &&& spec_ctrl_texts_ok(self.raw_id_data@)
        &&& self.sn@ == spec_ctrl_sn(self.raw_id_data@)
        &&& self.mn@ == spec_ctrl_mn(self.raw_id_data@)
        &&& self.fr@ == spec_ctrl_fr(self.raw_id_data@)
        &&& self.fguid@ == spec_ctrl_fguid(self.raw_id_data@)
        &&& self.subnqn@ == spec_ctrl_subnqn(self.raw_id_data@)
        &&& self.ver_str@ == spec_ctrl_ver_str(self.raw_id_data@)
    }

    /// The device path of the controller node.
    pub fn blk_path_get(&self) -> (r: &str)
        ensures
            r@ == self.spec_blk_path(),
    {
        self.blk_path.as_str()
    }

    /// The PCI vendor id field.
    pub fn vid_get(&self) -> (r: u16)
        ensures
            r == spec_le_val(self.spec_raw().subrange(0, 2)),
    {
        proof {
            use_type_invariant(self);
        }
        read_le16(&self.raw_id_data, 0)
    }

    /// The PCI subsystem vendor id field.
    pub fn ssvid_get(&self) -> (r: u16)
        ensures
            r == spec_le_val(self.spec_raw().subrange(2, 4)),
    {
        proof {
            use_type_invariant(self);
        }
        read_le16(&self.raw_id_data, 2)
    }

    /// The recommended arbitration burst field.
    pub fn rab_get(&self) -> (r: u8)
        ensures
            r == self.spec_raw()[72],
    {
        proof {
            use_type_invariant(self);
        }
        self.raw_id_data[72]
    }

    /// The IEEE OUI identifier field.
    pub fn ieee_get(&self) -> (r: u32)
        ensures
            r == spec_le_val(self.spec_raw().subrange(73, 76)),
    {
        proof {
            use_type_invariant(self);
        }
        read_le24(&self.raw_id_data, 73)
    }

    /// The controller multi-path capabilities field.
    pub fn cmic_get(&self) -> (r: u8)
        ensures
            r == self.spec_raw()[76],
    {
        proof {
            use_type_invariant(self);
        }
        self.raw_id_data[76]
    }

    /// The maximum data transfer size field.
    pub fn mdts_get(&self) -> (r: u8)
        ensures
            r == self.spec_raw()[77],
    {
        proof {
            use_type_invariant(self);
        }
        self.raw_id_data[77]
    }

    /// The controller id field.
    pub fn cntlid_get(&self) -> (r: u16)
        ensures
            r == spec_le_val(self.spec_raw().subrange(78, 80)),
    {
        proof {
            use_type_invariant(self);
        }
        read_le16(&self.raw_id_data, 78)
    }

    /// The raw specification version field.
    pub fn ver_get(&self) -> (r: u32)
        ensures
            r == spec_le_val(self.spec_raw().subrange(80, 84)),
    {
        proof {
            use_type_invariant(self);
        }
        read_le32(&self.raw_id_data, 80)
    }

    /// The RTD3 resume latency field.
    pub fn rtd3r_get(&self) -> (r: u32)
        ensures
            r == spec_le_val(self.spec_raw().subrange(84, 88)),
    {
        proof {
            use_type_invariant(self);
        }
        read_le32(&self.raw_id_data, 84)
    }

    /// The RTD3 entry latency field.
    pub fn rtd3e_get(&self) -> (r: u32)
        ensures
            r == spec_le_val(self.spec_raw().subrange(88, 92)),
    {
        proof {
            use_type_invariant(self);
        }
        read_le32(&self.raw_id_data, 88)
    }

    /// The optional asynchronous events supported field.
    pub fn oaes_get(&self) -> (r: u32)
        ensures
            r == spec_le_val(self.spec_raw().subrange(92, 96)),
    {
        proof {
            use_type_invariant(self);
        }
        read_le32(&self.raw_id_data, 92)
    }

    /// The controller attributes field.
    pub fn ctratt_get(&self) -> (r: u32)
        ensures
            r == spec_le_val(self.spec_raw().subrange(96, 100)),
    {
        proof {
            use_type_invariant(self);
        }
        read_le32(&self.raw_id_data, 96)
    }

    /// The optional admin command support field.
    pub fn oacs_get(&self) -> (r: u16)
        ensures
            r == spec_le_val(self.spec_raw().subrange(256, 258)),
    {
        proof {
            use_type_invariant(self);
        }
        read_le16(&self.raw_id_data, 256)
    }

    /// The abort command limit field.
    pub fn acl_get(&self) -> (r: u8)
        ensures
            r == self.spec_raw()[258],
    {
        proof {
            use_type_invariant(self);
        }
        self.raw_id_data[258]
    }

    /// The asynchronous event request limit field.
    pub fn aerl_get(&self) -> (r: u8)
        ensures
            r == self.spec_raw()[259],
    {
        proof {
            use_type_invariant(self);
        }
        self.raw_id_data[259]
    }

    /// The firmware updates capability field.
    pub fn frmw_get(&self) -> (r: u8)
        ensures
            r == self.spec_raw()[260],
    {
        proof {
            use_type_invariant(self);
        }
        self.raw_id_data[260]
    }

    /// The log page attributes field.
    pub fn lpa_get(&self) -> (r: u8)
        ensures
            r == self.spec_raw()[261],
    {
        proof {
            use_type_invariant(self);
        }
        self.raw_id_data[261]
    }

    /// The error log page entries field.
    pub fn elpe_get(&self) -> (r: u8)
        ensures
            r == self.spec_raw()[262],
    {
        proof {
            use_type_invariant(self);
        }
        self.raw_id_data[262]
    }

    /// The number of power states supported field.
    pub fn npss_get(&self) -> (r: u8)
        ensures
            r == self.spec_raw()[263],
    {
        proof {
            use_type_invariant(self);
        }
        self.raw_id_data[263]
    }

    /// The admin vendor-specific command configuration field.
    pub fn avscc_get(&self) -> (r: u8)
        ensures
            r == self.spec_raw()[264],
    {
        proof {
            use_type_invariant(self);
        }
        self.raw_id_data[264]
    }

    /// The autonomous power state transition attributes field.
    pub fn apsta_get(&self) -> (r: u8)
        ensures
            r == self.spec_raw()[265],
    {
        proof {
            use_type_invariant(self);
        }
        self.raw_id_data[265]
    }

    /// The warning composite temperature threshold field.
    pub fn wctemp_get(&self) -> (r: u16)
        ensures
            r == spec_le_val(self.spec_raw().subrange(266, 268)),
    {
        proof {
            use_type_invariant(self);
        }
        read_le16(&self.raw_id_data, 266)
    }

    /// The critical composite temperature threshold field.
    pub fn cctemp_get(&self) -> (r: u16)
        ensures
            r == spec_le_val(self.spec_raw().subrange(268, 270)),
    {
        proof {
            use_type_invariant(self);
        }
        read_le16(&self.raw_id_data, 268)
    }

    /// The maximum time for firmware activation field.
    pub fn mtfa_get(&self) -> (r: u16)
        ensures
            r == spec_le_val(self.spec_raw().subrange(270, 272)),
    {
        proof {
            use_type_invariant(self);
        }
        read_le16(&self.raw_id_data, 270)
    }

    /// The host memory buffer preferred size field.
    pub fn hmpre_get(&self) -> (r: u32)
        ensures
            r == spec_le_val(self.spec_raw().subrange(272, 276)),
    {
        proof {
            use_type_invariant(self);
        }
        read_le32(&self.raw_id_data, 272)
    }

    /// The host memory buffer minimum size field.
    pub fn hmmin_get(&self) -> (r: u32)
        ensures
            r == spec_le_val(self.spec_raw().subrange(276, 280)),
    {
        proof {
            use_type_invariant(self);
        }
        read_le32(&self.raw_id_data, 276)
    }

    /// The replay protected memory block support field.
    pub fn rpmbs_get(&self) -> (r: u32)
        ensures
            r == spec_le_val(self.spec_raw().subrange(312, 316)),
    {
        proof {
            use_type_invariant(self);
        }
        read_le32(&self.raw_id_data, 312)
    }

    /// The extended device self-test time field.
    pub fn edstt_get(&self) -> (r: u16)
        ensures
            r == spec_le_val(self.spec_raw().subrange(316, 318)),
    {
        proof {
            use_type_invariant(self);
        }
        read_le16(&self.raw_id_data, 316)
    }

    /// The device self-test options field.
    pub fn esto_get(&self) -> (r: u8)
        ensures
            r == self.spec_raw()[318],
    {
        proof {
            use_type_invariant(self);
        }
        self.raw_id_data[318]
    }

    /// The firmware update granularity field.
    pub fn fwug_get(&self) -> (r: u8)
        ensures
            r == self.spec_raw()[319],
    {
        proof {
            use_type_invariant(self);
        }
        self.raw_id_data[319]
    }

    /// The keep alive support field.
    pub fn kas_get(&self) -> (r: u16)
        ensures
            r == spec_le_val(self.spec_raw().subrange(320, 322)),
    {
        proof {
            use_type_invariant(self);
        }
        read_le16(&self.raw_id_data, 320)
    }

    /// The host controlled thermal management attributes field.
    pub fn hctma_get(&self) -> (r: u16)
        ensures
            r == spec_le_val(self.spec_raw().subrange(322, 324)),
    {
        proof {
            use_type_invariant(self);
        }
        read_le16(&self.raw_id_data, 322)
    }

    /// The minimum thermal management temperature field.
    pub fn mntmt_get(&self) -> (r: u16)
        ensures
            r == spec_le_val(self.spec_raw().subrange(324, 326)),
    {
        proof {
            use_type_invariant(self);
        }
        read_le16(&self.raw_id_data, 324)
    }

    /// The maximum thermal management temperature field.
    pub fn mxtmt_get(&self) -> (r: u16)
        ensures
            r == spec_le_val(self.spec_raw().subrange(326, 328)),
    {
        proof {
            use_type_invariant(self);
        }
        read_le16(&self.raw_id_data, 326)
    }

    /// The sanitize capabilities field.
    pub fn sanicap_get(&self) -> (r: u32)
        ensures
            r == spec_le_val(self.spec_raw().subrange(328, 332)),
    {
        proof {
            use_type_invariant(self);
        }
        read_le32(&self.raw_id_data, 328)
    }

    /// The submission queue entry size field.
    pub fn sqes_get(&self) -> (r: u8)
        ensures
            r == self.spec_raw()[512],
    {
        proof {
            use_type_invariant(self);
        }
        self.raw_id_data[512]
    }

    /// The completion queue entry size field.
    pub fn cqes_get(&self) -> (r: u8)
        ensures
            r == self.spec_raw()[513],
    {
        proof {
            use_type_invariant(self);
        }
        self.raw_id_data[513]
    }

    /// The maximum outstanding commands field.
    pub fn maxcmd_get(&self) -> (r: u16)
        ensures
            r == spec_le_val(self.spec_raw().subrange(514, 516)),
    {
        proof {
            use_type_invariant(self);
        }
        read_le16(&self.raw_id_data, 514)
    }

    /// The number of namespaces field.
    pub fn nn_get(&self) -> (r: u32)
        ensures
            r == spec_le_val(self.spec_raw().subrange(516, 520)),
    {
        proof {
            use_type_invariant(self);
        }
        read_le32(&self.raw_id_data, 516)
    }

    /// The optional NVM command support field.
    pub fn oncs_get(&self) -> (r: u16)
        ensures
            r == spec_le_val(self.spec_raw().subrange(520, 522)),
    {
        proof {
            use_type_invariant(self);
        }
        read_le16(&self.raw_id_data, 520)
    }

    /// The fused operation support field.
    pub fn fuses_get(&self) -> (r: u16)
        ensures
            r == spec_le_val(self.spec_raw().subrange(522, 524)),
    {
        proof {
            use_type_invariant(self);
        }
        read_le16(&self.raw_id_data, 522)
    }

    /// The format NVM attributes field.
    pub fn fna_get(&self) -> (r: u8)
        ensures
            r == self.spec_raw()[524],
    {
        proof {
            use_type_invariant(self);
        }
        self.raw_id_data[524]
    }

    /// The volatile write cache field.
    pub fn vwc_get(&self) -> (r: u8)
        ensures
            r == self.spec_raw()[525],
    {
        proof {
            use_type_invariant(self);
        }
        self.raw_id_data[525]
    }

    /// The atomic write unit normal field.
    pub fn awun_get(&self) -> (r: u16)
        ensures
            r == spec_le_val(self.spec_raw().subrange(526, 528)),
    {
        proof {
            use_type_invariant(self);
        }
        read_le16(&self.raw_id_data, 526)
    }

    /// The atomic write unit power fail field.
    pub fn awupf_get(&self) -> (r: u16)
        ensures
            r == spec_le_val(self.spec_raw().subrange(528, 530)),
    {
        proof {
            use_type_invariant(self);
        }
        read_le16(&self.raw_id_data, 528)
    }

    /// The NVM vendor-specific command configuration field.
    pub fn nvscc_get(&self) -> (r: u8)
        ensures
            r == self.spec_raw()[530],
    {
        proof {
            use_type_invariant(self);
        }
        self.raw_id_data[530]
    }

    /// The atomic compare-and-write unit field.
    pub fn acwu_get(&self) -> (r: u16)
        ensures
            r == spec_le_val(self.spec_raw().subrange(532, 534)),
    {
        proof {
            use_type_invariant(self);
        }
        read_le16(&self.raw_id_data, 532)
    }

    /// The SGL support field.
    pub fn sgls_get(&self) -> (r: u32)
        ensures
            r == spec_le_val(self.spec_raw().subrange(536, 540)),
    {
        proof {
            use_type_invariant(self);
        }
        read_le32(&self.raw_id_data, 536)
    }

    /// The I/O queue command capsule size field.
    pub fn ioccsz_get(&self) -> (r: u32)
        ensures
            r == spec_le_val(self.spec_raw().subrange(1792, 1796)),
    {
        proof {
            use_type_invariant(self);
        }
        read_le32(&self.raw_id_data, 1792)
    }

    /// The I/O queue response capsule size field.
    pub fn iorcsz_get(&self) -> (r: u32)
        ensures
            r == spec_le_val(self.spec_raw().subrange(1796, 1800)),
    {
        proof {
            use_type_invariant(self);
        }
        read_le32(&self.raw_id_data, 1796)
    }

    /// The in-capsule data offset field.
    pub fn icdoff_get(&self) -> (r: u16)
        ensures
            r == spec_le_val(self.spec_raw().subrange(1800, 1802)),
    {
        proof {
            use_type_invariant(self);
        }
        read_le16(&self.raw_id_data, 1800)
    }

    /// The fabrics controller attributes field.
    pub fn ctrattr_get(&self) -> (r: u8)
        ensures
            r == self.spec_raw()[1802],
    {
        proof {
            use_type_invariant(self);
        }
        self.raw_id_data[1802]
    }

    /// The maximum SGL data block descriptors field.
    pub fn msdbd_get(&self) -> (r: u8)
        ensures
            r == self.spec_raw()[1803],
    {
        proof {
            use_type_invariant(self);
        }
        self.raw_id_data[1803]
    }

    /// The serial number, trimmed of trailing padding.
    pub fn sn_get(&self) -> (r: &str)
        ensures
            r@ == spec_ctrl_sn(self.spec_raw()),
    {
        proof {
            use_type_invariant(self);
        }
        self.sn.as_str()
    }

    /// The model number, trimmed of trailing padding.
    pub fn mn_get(&self) -> (r: &str)
        ensures
            r@ == spec_ctrl_mn(self.spec_raw()),
    {
        proof {
            use_type_invariant(self);
        }
        self.mn.as_str()
    }

    /// The firmware revision, trimmed of trailing padding.
    pub fn fr_get(&self) -> (r: &str)
        ensures
            r@ == spec_ctrl_fr(self.spec_raw()),
    {
        proof {
            use_type_invariant(self);
        }
        self.fr.as_str()
    }

    /// The FRU globally unique identifier, trimmed of trailing padding.
    pub fn fguid_get(&self) -> (r: &str)
        ensures
            r@ == spec_ctrl_fguid(self.spec_raw()),
    {
        proof {
            use_type_invariant(self);
        }
        self.fguid.as_str()
    }

    /// The NVM subsystem qualified name, trimmed of trailing padding.
    pub fn subnqn_get(&self) -> (r: &str)
        ensures
            r@ == spec_ctrl_subnqn(self.spec_raw()),
    {
        proof {
            use_type_invariant(self);
        }
        self.subnqn.as_str()
    }

    /// The total NVM capacity, a sixteen-byte little-endian field, as raw bytes.
    pub fn tnvmcap_get(&self) -> (r: Vec<u8>)
        ensures
            r@ == self.spec_raw().subrange(280, 296),
    {
        proof {
            use_type_invariant(self);
        }
        take_range(self.raw_id_data.as_slice(), 280, 16)
    }

    /// The unallocated NVM capacity, a sixteen-byte little-endian field, as raw bytes.
    pub fn unvmcap_get(&self) -> (r: Vec<u8>)
        ensures
            r@ == self.spec_raw().subrange(296, 312),
    {
        proof {
            use_type_invariant(self);
        }
        take_range(self.raw_id_data.as_slice(), 296, 16)
    }

    /// The derived version string.
    pub fn ver_str_get(&self) -> (r: &str)
        ensures
            r@ == spec_ctrl_ver_str(self.spec_raw()),
    {
        proof {
            use_type_invariant(self);
        }
        self.ver_str.as_str()
    }

    /// Combines a three-part specification version into the raw
    /// version-field integer, ordered as the version tuple is.
    pub fn ver_gen(major: u16, minor: u8, tertiary: u8) -> (r: u32)
        ensures
            r == major * 0x10000 + minor * 0x100 + tertiary,
    {
        (major as u32) * 0x10000 + (minor as u32) * 0x100 + (tertiary as u32)
    }

    /// Builds the controller entity from a raw Identify-Controller
    /// record: fails, atomically, exactly when one of the textual
    /// fields is not valid UTF-8 after trimming.
    pub fn from_id_data(blk_path: &str, id_data: Vec<u8>) -> (r: Result<NvmeController, NvmeError>)
        requires
            id_data@.len() == NVME_IDENTIFY_DATA_LEN,
        ensures
            r is Ok <==> spec_ctrl_texts_ok(id_data@),
            r matches Ok(c) ==> c.spec_raw() == id_data@ && c.spec_blk_path() == blk_path@,
            r matches Err(e) ==> e.kind is CorruptedData,
    {
        let sn = match decode_text_field(&id_data, 4, 20) {
            Some(s) => s,
            None => {
                return Err(corrupted_text_error());
            },
        };
        let mn = match decode_text_field(&id_data, 24, 40) {
            Some(s) => s,
            None => {
                return Err(corrupted_text_error());
            },
        };
        let fr = match decode_text_field(&id_data, 64, 8) {
            Some(s) => s,
            None => {
                return Err(corrupted_text_error());
            },
        };
        let fguid = match decode_text_field(&id_data, 112, 16) {
            Some(s) => s,
            None => {
                return Err(corrupted_text_error());
            },
        };
        let subnqn = match decode_text_field(&id_data, 768, 256) {
            Some(s) => s,
            None => {
                return Err(corrupted_text_error());
            },
        };
        let ver_str = derive_ver_str(&id_data);
        Ok(
            NvmeController {
                raw_id_data: id_data,
                sn,
                mn,
                fr,
                fguid,
                subnqn,
                ver_str,
                blk_path: blk_path.to_owned(),
            },
        )
    }

    /// Opens the controller at `blk_path`: issues the Identify admin
    /// command through the host and decodes the returned record.
    pub fn from_path<H: NvmeHost>(host: &mut H, blk_path: &str) -> (r: Result<
        NvmeController,
        NvmeError,
    >)
        ensures
            r matches Ok(c) ==> c.spec_blk_path() == blk_path@,
    {
        let id_data = match host.submit_admin_identify(blk_path, NVME_ADMIN_CMD_CNS_ALL_CTRL, 0) {
            Ok(buf) => buf,
            Err(e) => {
                return Err(e);
            },
        };
        NvmeController::from_id_data(blk_path, id_data)
    }

    /// Identifies every namespace of this controller: enumerates the
    /// valid namespace ids (version-gated, see `nsid_list_get`) and
    /// builds one entity per id.  Ids never repeat; before
    /// specification version 1.1.0 they are exactly `1..=nn`.
    pub fn namespaces_get<H: NvmeHost>(&self, host: &mut H) -> (r: Result<
        Vec<NvmeNameSpace>,
        NvmeError,
    >)
        ensures
            r matches Ok(v) ==> {
                &&& forall|j: int|
                    0 <= j < v@.len() ==> (#[trigger] v@[j]).spec_ctrl_blk_path()
                        == self.spec_blk_path()
                &&& forall|j: int| 0 <= j < v@.len() ==> (#[trigger] v@[j]).spec_nsid() >= 1
                &&& forall|a: int, b: int|
                    0 <= a < b < v@.len() ==> v@[a].spec_nsid() < v@[b].spec_nsid()
                &&& v@.len() <= spec_ctrl_nn(self.spec_raw())
                &&& forall|j: int|
                    0 <= j < v@.len() ==> ((#[trigger] v@[j]).spec_blk_path()
                        == Seq::<char>::empty() || exists|name: Seq<char>|
                        spec_is_ns_entry_name(name) && v@[j].spec_blk_path() == spec_dev_prefix()
                        + name)
            },
            spec_ctrl_ver(self.spec_raw()) < 0x10100 ==> (r matches Ok(v) ==> v@.len()
                == spec_ctrl_nn(self.spec_raw()) && (forall|j: int|
                0 <= j < v@.len() ==> (#[trigger] v@[j]).spec_nsid() == j + 1)),
    {
        let blk_path = self.blk_path_get();
        let ns_ids = match NvmeNameSpace::nsid_list_get(host, blk_path, self) {
            Ok(ids) => ids,
            Err(e) => {
                return Err(e);
            },
        };
        let mut ret: Vec<NvmeNameSpace> = Vec::new();
        let n = ns_ids.len();
        let mut i: usize = 0;
        while i < n
            invariant
                i <= n == ns_ids@.len(),
                ret@.len() == i,
                blk_path@ == self.spec_blk_path(),
                spec_strictly_increasing_u32(ns_ids@),
                forall|j: int| 0 <= j < n ==> #[trigger] ns_ids@[j] >= 1,
                forall|j: int|
                    0 <= j < i ==> (#[trigger] ret@[j]).spec_nsid() == ns_ids@[j]
                        && ret@[j].spec_ctrl_blk_path() == self.spec_blk_path(),
                forall|j: int|
                    0 <= j < i ==> ((#[trigger] ret@[j]).spec_blk_path() == Seq::<char>::empty()
                        || exists|name: Seq<char>|
                        spec_is_ns_entry_name(name) && ret@[j].spec_blk_path() == spec_dev_prefix()
                        + name),
            decreases n - i,
        {
            match NvmeNameSpace::new(host, blk_path, ns_ids[i]) {
                Ok(ns) => ret.push(ns),
                Err(e) => {
                    return Err(e);
                },
            }
            i = i + 1;
        }
        Ok(ret)
    }

    /// Lists every controller present in the device-class tree whose
    /// device node still exists.  An unreadable tree yields the empty
    /// list; a controller that disappeared between listing and open is
    /// skipped silently.
    pub fn get_all<H: NvmeHost>(host: &mut H) -> (r: Result<Vec<NvmeController>, NvmeError>)
        ensures
            r matches Ok(v) ==> forall|j: int|
                0 <= j < v@.len() ==> (#[trigger] v@[j]).spec_blk_path().len() >= 5
                    && v@[j].spec_blk_path().subrange(0, 5) == seq!['/', 'd', 'e', 'v', '/'],
    {
        let mut ret: Vec<NvmeController> = Vec::new();
        let ctrl_names = match host.list_ctrl_entries() {
            None => {
                return Ok(ret);
            },
            Some(names) => names,
        };
        proof {
            reveal_strlit("/dev/");
        }
        let n = ctrl_names.len();
        let mut i: usize = 0;
        while i < n
            invariant
                i <= n == ctrl_names@.len(),
                forall|j: int|
                    0 <= j < ret@.len() ==> (#[trigger] ret@[j]).spec_blk_path().len() >= 5
                        && ret@[j].spec_blk_path().subrange(0, 5) == seq!['/', 'd', 'e', 'v', '/'],
            decreases n - i,
        {
            proof {
                reveal_strlit("/dev/");
            }
            let mut blk_path = "/dev/".to_owned();
            blk_path.append(ctrl_names[i].as_str());
            proof {
                assert(blk_path@.subrange(0, 5) =~= seq!['/', 'd', 'e', 'v', '/']);
            }
            if host.dev_node_exists(blk_path.as_str()) {
                match NvmeController::from_path(host, blk_path.as_str()) {
                    Ok(c) => ret.push(c),
                    Err(e) => {
                        return Err(e);
                    },
                }
            }
            i = i + 1;
        }
        Ok(ret)
    }
}

} // verus!
