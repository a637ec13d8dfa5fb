//! The boundary to the operating system: the admin-command gateway and
//! the device-class metadata tree, as a trait, plus a scripted stand-in
//! for tests.

use vstd::prelude::*;
use crate::error::{ErrorKind, NvmeError};
use crate::resolve::str_eq;
use crate::text::take_range;

verus! {

/// Admin-command opcode for Identify.
pub const NVME_IOC_CMD_IDENTIFY: u8 = 0x06;

/// Identify selector (CNS) for the controller data structure.
pub const NVME_ADMIN_CMD_CNS_ALL_CTRL: u32 = 0x01;

/// Identify selector (CNS) for one namespace's data structure.
pub const NVME_ADMIN_CMD_CNS_IDENTIFY_NS: u32 = 0x00;

/// Identify selector (CNS) for the active namespace id list.
pub const NVME_ADMIN_CMD_CNS_ALL_ACTIVE_NS: u32 = 0x02;

/// Every Identify data structure is exactly this many bytes.
pub const NVME_IDENTIFY_DATA_LEN: usize = 4096;

/// Namespace ids carried by one active-namespace-list page.
pub const IDT_NS_MAX_COUNT: usize = 1024;

/// The admin-command descriptor the kernel's ioctl interface takes.
pub struct NvmeAdminCmd {
    pub opcode: u8,
    pub flags: u8,
    pub rsvd1: u16,
    pub nsid: u32,
    pub cdw2: u32,
    pub cdw3: u32,
    pub metadata: u64,
    pub addr: u64,
    pub metadata_len: u32,
    pub data_len: u32,
    pub cdw10: u32,
    pub cdw11: u32,
    pub cdw12: u32,
    pub cdw13: u32,
    pub cdw14: u32,
    pub cdw15: u32,
    pub timeout_ms: u32,
    pub result: u32,
}

impl Default for NvmeAdminCmd {
    /// The all-zero command, ready to have its few used fields set.
    fn default() -> (r: NvmeAdminCmd)
        ensures
            r.opcode == 0,
            r.flags == 0,
            r.rsvd1 == 0,
            r.nsid == 0,
            r.cdw2 == 0,
            r.cdw3 == 0,
            r.metadata == 0,
            r.addr == 0,
            r.metadata_len == 0,
            r.data_len == 0,
            r.cdw10 == 0,
            r.cdw11 == 0,
            r.cdw12 == 0,
            r.cdw13 == 0,
            r.cdw14 == 0,
            r.cdw15 == 0,
            r.timeout_ms == 0,
            r.result == 0,
    {
        NvmeAdminCmd {
            opcode: 0,
            flags: 0,
            rsvd1: 0,
            nsid: 0,
            cdw2: 0,
            cdw3: 0,
            metadata: 0,
            addr: 0,
            metadata_len: 0,
            data_len: 0,
            cdw10: 0,
            cdw11: 0,
            cdw12: 0,
            cdw13: 0,
            cdw14: 0,
            cdw15: 0,
            timeout_ms: 0,
            result: 0,
        }
    }
}

/// The operating-system collaborators this library consumes: the
/// process that issues Identify admin commands against a device node,
/// and the device-class metadata tree.  An implementation performs the
/// actual system calls; the library is verified against the contracts
/// stated here, which promise nothing beyond the result buffer size.
pub trait NvmeHost {
    /// Issues an Identify admin command with selector `cns` against the
    /// device node at `blk_path`; on success the result buffer has the
    /// fixed Identify size.
    fn submit_admin_identify(&mut self, blk_path: &str, cns: u32, nsid: u32) -> (r: Result<
        Vec<u8>,
        NvmeError,
    >)
        ensures
            r matches Ok(buf) ==> buf@.len() == NVME_IDENTIFY_DATA_LEN,
    ;

    /// Reads the `nsid` attribute of entry `ns_name` under controller
    /// `ctrl_name` in the device-class tree; `None` when it cannot be
    /// read.
    fn read_nsid_attr(&mut self, ctrl_name: &str, ns_name: &str) -> (r: Option<String>);

    /// Lists the entry names under the controller's device-class
    /// directory; `None` when the directory cannot be read.
    fn list_ns_entries(&mut self, ctrl_name: &str) -> (r: Option<Vec<String>>);

    /// Lists the entry names of the device-class tree root, the present
    /// controllers; `None` when the tree cannot be read.
    fn list_ctrl_entries(&mut self) -> (r: Option<Vec<String>>);

    /// True when a device node exists at `dev_path`.
    fn dev_node_exists(&mut self, dev_path: &str) -> (r: bool);
}

/// Copies a byte vector.
pub fn clone_bytes(v: &Vec<u8>) -> (r: Vec<u8>)
    ensures
        r@ == v@,
{
    let r = take_range(v.as_slice(), 0, v.len());
    proof {
        assert(v@.subrange(0, v@.len() as int) =~= v@);
    }
    r
}

fn stub_missing() -> (r: NvmeError)
    ensures
        r.kind is LibBug,
{
    NvmeError { kind: ErrorKind::LibBug("no scripted response".to_owned()) }
}

/// A scripted host: fixed responses stand in for the operating system,
/// so that decoding and enumeration can be driven without a device.
pub struct StubHost {
    /// Response to the Identify-Controller command.
    pub ctrl_data: Option<Vec<u8>>,
    /// Response to every Identify-Namespace command.
    pub ns_data: Option<Vec<u8>>,
    /// Successive responses to active-namespace-list commands.
    pub ns_list_pages: Vec<Vec<u8>>,
    /// How many list pages were already served.
    pub page_idx: usize,
    /// Content of the `nsid` attribute; when `ns_entries` is scripted,
    /// only entries listed there have the attribute.
    pub nsid_attr: Option<String>,
    /// Entries under every controller directory.
    pub ns_entries: Option<Vec<String>>,
    /// Entries of the device-class tree root.
    pub ctrl_entries: Option<Vec<String>>,
    /// Whether device nodes exist.
    pub dev_nodes_exist: bool,
}

impl StubHost {
    /// A stub that answers nothing.
    pub fn empty() -> (r: StubHost)
        ensures
            r.ctrl_data is None,
            r.ns_data is None,
            r.ns_list_pages@.len() == 0,
            r.page_idx == 0,
            r.nsid_attr is None,
            r.ns_entries is None,
            r.ctrl_entries is None,
            !r.dev_nodes_exist,
    {
        StubHost {
            ctrl_data: None,
            ns_data: None,
            ns_list_pages: Vec::new(),
            page_idx: 0,
            nsid_attr: None,
            ns_entries: None,
            ctrl_entries: None,
            dev_nodes_exist: false,
        }
    }
}

impl NvmeHost for StubHost {
    fn submit_admin_identify(&mut self, blk_path: &str, cns: u32, nsid: u32) -> (r: Result<
        Vec<u8>,
        NvmeError,
    >) {
        if cns == NVME_ADMIN_CMD_CNS_ALL_CTRL {
            match &self.ctrl_data {
                Some(buf) => {
                    if buf.len() == NVME_IDENTIFY_DATA_LEN {
                        Ok(clone_bytes(buf))
                    } else {
                        Err(stub_missing())
                    }
                },
                None => Err(stub_missing()),
            }
        } else if cns == NVME_ADMIN_CMD_CNS_IDENTIFY_NS {
            match &self.ns_data {
                Some(buf) => {
                    if buf.len() == NVME_IDENTIFY_DATA_LEN {
                        Ok(clone_bytes(buf))
                    } else {
                        Err(stub_missing())
                    }
                },
                None => Err(stub_missing()),
            }
        } else if cns == NVME_ADMIN_CMD_CNS_ALL_ACTIVE_NS {
            if self.page_idx < self.ns_list_pages.len() {
                let page = clone_bytes(&self.ns_list_pages[self.page_idx]);
                self.page_idx = self.page_idx + 1;
                if page.len() == NVME_IDENTIFY_DATA_LEN {
                    Ok(page)
                } else {
                    Err(stub_missing())
                }
            } else {
                Err(stub_missing())
            }
        } else {
            Err(stub_missing())
        }
    }

    fn read_nsid_attr(&mut self, ctrl_name: &str, ns_name: &str) -> (r: Option<String>) {
        match &self.ns_entries {
            Some(entries) => {
                let n = entries.len();
                let mut found = false;
                let mut i: usize = 0;
                while i < n
                    invariant
                        i <= n == entries@.len(),
                    decreases n - i,
                {
                    if str_eq(entries[i].as_str(), ns_name) {
                        found = true;
                    }
                    i = i + 1;
                }
                if found {
                    match &self.nsid_attr {
                        Some(s) => Some(s.clone()),
                        None => None,
                    }
                } else {
                    None
                }
            },
            None => {
                match &self.nsid_attr {
                    Some(s) => Some(s.clone()),
                    None => None,
                }
            },
        }
    }

    fn list_ns_entries(&mut self, ctrl_name: &str) -> (r: Option<Vec<String>>) {
        match &self.ns_entries {
            Some(v) => Some(v.clone()),
            None => None,
        }
    }

    fn list_ctrl_entries(&mut self) -> (r: Option<Vec<String>>) {
        match &self.ctrl_entries {
            Some(v) => Some(v.clone()),
            None => None,
        }
    }

    fn dev_node_exists(&mut self, dev_path: &str) -> (r: bool) {
        self.dev_nodes_exist
    }
}

} // verus!
