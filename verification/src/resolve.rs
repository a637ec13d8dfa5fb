//! Resolution of a namespace id to its block-device path: the naming
//! grammar of controller and namespace device nodes, the parser for the
//! `nsid` metadata attribute, and the two-tier lookup strategy.

use vstd::prelude::*;
use vstd::string::{StrSliceExecFns, StringExecFns};
use crate::host::NvmeHost;
use crate::text::{spec_dec_str, spec_digit_char, u64_to_dec_str};

verus! {

/// True of the decimal digit characters.
pub open spec fn spec_is_digit_char(c: char) -> bool {
    48 <= c as u32 <= 57
}

/// The value of a decimal digit character.
pub open spec fn spec_digit_char_val(c: char) -> nat {
    (c as u32 - 48) as nat
}

/// True when every character is a decimal digit.
pub open spec fn spec_all_digit_chars(s: Seq<char>) -> bool {
    forall|k: int| 0 <= k < s.len() ==> spec_is_digit_char(#[trigger] s[k])
}

/// The value of a decimal digit string.
pub open spec fn spec_dec_val(s: Seq<char>) -> nat
    decreases s.len(),
{
    if s.len() == 0 {
        0
    } else {
        spec_dec_val(s.drop_last()) * 10 + spec_digit_char_val(s.last())
    }
}

/// A prefix of a digit string never exceeds the whole string's value.
proof fn lemma_dec_val_prefix_le(s: Seq<char>, k: int)
    requires
        0 <= k <= s.len(),
    ensures
        spec_dec_val(s.subrange(0, k)) <= spec_dec_val(s),
    decreases s.len(),
{
    if k == s.len() {
        assert(s.subrange(0, k) =~= s);
    } else {
        assert(s.drop_last().subrange(0, k) =~= s.subrange(0, k));
        lemma_dec_val_prefix_le(s.drop_last(), k);
    }
}

/// A decimal rendering consists of digit characters, at least one.
pub proof fn lemma_dec_str_digits(n: nat)
    ensures
        spec_dec_str(n).len() >= 1,
        spec_all_digit_chars(spec_dec_str(n)),
    decreases n,
{
    if n >= 10 {
        lemma_dec_str_digits(n / 10);
        assert forall|k: int| 0 <= k < spec_dec_str(n).len() implies spec_is_digit_char(
            #[trigger] spec_dec_str(n)[k],
        ) by {
            if k < spec_dec_str(n / 10).len() {
                assert(spec_dec_str(n)[k] == spec_dec_str(n / 10)[k]);
            } else {
                assert(spec_dec_str(n)[k] == spec_digit_char(n % 10));
            }
        }
    }
}

/// The value the `nsid` metadata attribute's content denotes: a
/// nonempty decimal numeral, optionally followed by one newline, that
/// fits a `u32`; anything else denotes 0 ("no match").
pub open spec fn spec_parse_nsid(s: Seq<char>) -> u32 {
    let core = if s.len() > 0 && s.last() == '\n' {
        s.drop_last()
    } else {
        s
    };
    if core.len() > 0 && spec_all_digit_chars(core) && spec_dec_val(core) <= u32::MAX {
        spec_dec_val(core) as u32
    } else {
        0
    }
}

/// Compares two strings character by character.
pub fn str_eq(a: &str, b: &str) -> (r: bool)
    ensures
        r == (a@ == b@),
{
    let n = a.unicode_len();
    let m = b.unicode_len();
    if n != m {
        return false;
    }
    let mut i: usize = 0;
    while i < n
        invariant
            i <= n == a@.len() == b@.len(),
            forall|k: int| 0 <= k < i ==> a@[k] == b@[k],
        decreases n - i,
    {
        if a.get_char(i) != b.get_char(i) {
            return false;
        }
        i = i + 1;
    }
    proof {
        assert(a@ =~= b@);
    }
    true
}

fn is_digit_char(c: char) -> (r: bool)
    ensures
        r == spec_is_digit_char(c),
{
    let cv = c as u32;
    48 <= cv && cv <= 57
}

/// Parses the content of an `nsid` attribute; malformed or overflowing
/// content parses as 0, which no namespace id ever equals.
pub fn parse_nsid_content(s: &str) -> (r: u32)
    ensures
        r == spec_parse_nsid(s@),
{
    let n = s.unicode_len();
    let m: usize = if n > 0 && s.get_char(n - 1) == '\n' {
        n - 1
    } else {
        n
    };
    let ghost core = s@.subrange(0, m as int);
    proof {
        if n > 0 && s@.last() == '\n' {
            assert(core =~= s@.drop_last());
        } else {
            assert(core =~= s@);
        }
    }
    let mut acc: u64 = 0;
    let mut i: usize = 0;
    while i < m
        invariant
            i <= m <= s@.len(),
            core == s@.subrange(0, m as int),
            spec_parse_nsid(s@) == (if core.len() > 0 && spec_all_digit_chars(core)
                && spec_dec_val(core) <= u32::MAX {
                spec_dec_val(core) as u32
            } else {
                0u32
            }),
            acc == spec_dec_val(s@.subrange(0, i as int)),
            acc <= u32::MAX,
            spec_all_digit_chars(s@.subrange(0, i as int)),
        decreases m - i,
    {
        let c = s.get_char(i);
        if !is_digit_char(c) {
            proof {
                assert(core[i as int] == s@[i as int]);
                assert(!spec_all_digit_chars(core));
            }
            return 0;
        }
        let d = (c as u32 - 48) as u64;
        proof {
            let pre = s@.subrange(0, i as int);
            let cur = s@.subrange(0, i + 1);
            assert(cur.drop_last() =~= pre);
            assert(cur.last() == s@[i as int]);
            assert forall|k: int| 0 <= k < cur.len() implies spec_is_digit_char(
                #[trigger] cur[k],
            ) by {
                if k < i {
                    assert(cur[k] == pre[k]);
                }
            }
        }
        let new_acc = acc * 10 + d;
        if new_acc > 0xFFFF_FFFFu64 {
            proof {
                lemma_dec_val_prefix_le(core, i + 1);
                assert(core.subrange(0, i + 1) =~= s@.subrange(0, i + 1));
            }
            return 0;
        }
        acc = new_acc;
        i = i + 1;
    }
    proof {
        assert(s@.subrange(0, m as int) == core);
    }
    acc as u32
}

/// The pattern of a namespace device-node name: `nvme`, the decimal
/// controller instance, `n`, the decimal namespace instance, split at
/// the position `i` of the separating `n`.
pub open spec fn spec_is_ns_entry_split(s: Seq<char>, i: int) -> bool {
    &&& 5 <= i
    &&& i + 2 <= s.len()
    &&& s.subrange(0, 4) == seq!['n', 'v', 'm', 'e']
    &&& spec_all_digit_chars(s.subrange(4, i))
    &&& s[i] == 'n'
    &&& spec_all_digit_chars(s.subrange(i + 1, s.len() as int))
}

/// True of names of namespace device nodes (`nvme<num>n<num>`).
pub open spec fn spec_is_ns_entry_name(s: Seq<char>) -> bool {
    exists|i: int| spec_is_ns_entry_split(s, i)
}

/// Decides the namespace device-node naming pattern.
pub fn is_ns_entry_name(s: &str) -> (r: bool)
    ensures
        r == spec_is_ns_entry_name(s@),
{
    let n = s.unicode_len();
    if n < 7 {
        proof {
            assert forall|i: int| !spec_is_ns_entry_split(s@, i) by {}
        }
        return false;
    }
    if !(s.get_char(0) == 'n' && s.get_char(1) == 'v' && s.get_char(2) == 'm' && s.get_char(3)
        == 'e') {
        proof {
            assert forall|i: int| !spec_is_ns_entry_split(s@, i) by {
                if spec_is_ns_entry_split(s@, i) {
                    assert(s@.subrange(0, 4)[0] == s@[0]);
                    assert(s@.subrange(0, 4)[1] == s@[1]);
                    assert(s@.subrange(0, 4)[2] == s@[2]);
                    assert(s@.subrange(0, 4)[3] == s@[3]);
                }
            }
        }
        return false;
    }
    let mut j: usize = 4;
    while j < n && is_digit_char(s.get_char(j))
        invariant
            4 <= j <= n == s@.len(),
            spec_all_digit_chars(s@.subrange(4, j as int)),
        decreases n - j,
    {
        proof {
            let pre = s@.subrange(4, j as int);
            let cur = s@.subrange(4, j + 1);
            assert forall|k: int| 0 <= k < cur.len() implies spec_is_digit_char(
                #[trigger] cur[k],
            ) by {
                if k < cur.len() - 1 {
                    assert(cur[k] == pre[k]);
                } else {
                    assert(cur[k] == s@[j as int]);
                }
            }
        }
        j = j + 1;
    }
    // j is now the end of the maximal digit run that starts at index 4.
    proof {
        assert forall|i: int| spec_is_ns_entry_split(s@, i) implies i == j by {
            if i < j {
                assert(s@.subrange(4, j as int)[i - 4] == s@[i]);
                assert(spec_is_digit_char(s@[i]));
            }
            if i > j {
                assert(j < n);
                assert(s@.subrange(4, i)[j - 4] == s@[j as int]);
                assert(spec_is_digit_char(s@[j as int]));
            }
        }
    }
    if j == 4 || j >= n || j + 1 >= n {
        proof {
            assert forall|i: int| !spec_is_ns_entry_split(s@, i) by {}
        }
        return false;
    }
    if s.get_char(j) != 'n' {
        proof {
            assert forall|i: int| !spec_is_ns_entry_split(s@, i) by {}
        }
        return false;
    }
    let mut k: usize = j + 1;
    while k < n && is_digit_char(s.get_char(k))
        invariant
            j + 1 <= k <= n == s@.len(),
            spec_all_digit_chars(s@.subrange(j + 1, k as int)),
        decreases n - k,
    {
        proof {
            let pre = s@.subrange(j + 1, k as int);
            let cur = s@.subrange(j + 1, k + 1);
            assert forall|q: int| 0 <= q < cur.len() implies spec_is_digit_char(
                #[trigger] cur[q],
            ) by {
                if q < cur.len() - 1 {
                    assert(cur[q] == pre[q]);
                } else {
                    assert(cur[q] == s@[k as int]);
                }
            }
        }
        k = k + 1;
    }
    if k < n {
        proof {
            assert forall|i: int| !spec_is_ns_entry_split(s@, i) by {
                if spec_is_ns_entry_split(s@, i) {
                    assert(s@.subrange(i + 1, n as int)[k - i - 1] == s@[k as int]);
                    assert(spec_is_digit_char(s@[k as int]));
                }
            }
        }
        return false;
    }
    proof {
        assert(s@.subrange(0, 4) =~= seq!['n', 'v', 'm', 'e']);
        assert(s@.subrange(j + 1, n as int) =~= s@.subrange(j + 1, k as int));
        assert(spec_is_ns_entry_split(s@, j as int));
    }
    true
}

/// The pattern of a controller device path: `/dev/nvme` followed by the
/// decimal controller instance.
pub open spec fn spec_is_ctrl_path(s: Seq<char>) -> bool {
    &&& s.len() >= 10
    &&& s.subrange(0, 9) == seq!['/', 'd', 'e', 'v', '/', 'n', 'v', 'm', 'e']
    &&& spec_all_digit_chars(s.subrange(9, s.len() as int))
}

/// The controller name within a controller device path: what follows
/// `/dev/`.
pub open spec fn spec_ctrl_name_of_path(s: Seq<char>) -> Seq<char> {
    s.subrange(5, s.len() as int)
}

/// Extracts the controller name (`nvme<num>`) from a controller device
/// path; `None` when the path does not follow the naming pattern.
pub fn ctrl_name_from_path<'a>(s: &'a str) -> (r: Option<&'a str>)
    ensures
        r is Some <==> spec_is_ctrl_path(s@),
        r matches Some(name) ==> name@ == spec_ctrl_name_of_path(s@),
{
    let n = s.unicode_len();
    if n < 10 {
        return None;
    }
    if !(s.get_char(0) == '/' && s.get_char(1) == 'd' && s.get_char(2) == 'e' && s.get_char(3)
        == 'v' && s.get_char(4) == '/' && s.get_char(5) == 'n' && s.get_char(6) == 'v'
        && s.get_char(7) == 'm' && s.get_char(8) == 'e') {
        proof {
            if spec_is_ctrl_path(s@) {
                assert forall|k: int| 0 <= k < 9 implies s@.subrange(0, 9)[k] == s@[k] by {}
            }
        }
        return None;
    }
    let mut j: usize = 9;
    while j < n && is_digit_char(s.get_char(j))
        invariant
            9 <= j <= n == s@.len(),
            spec_all_digit_chars(s@.subrange(9, j as int)),
        decreases n - j,
    {
        proof {
            let pre = s@.subrange(9, j as int);
            let cur = s@.subrange(9, j + 1);
            assert forall|k: int| 0 <= k < cur.len() implies spec_is_digit_char(
                #[trigger] cur[k],
            ) by {
                if k < cur.len() - 1 {
                    assert(cur[k] == pre[k]);
                } else {
                    assert(cur[k] == s@[j as int]);
                }
            }
        }
        j = j + 1;
    }
    if j < n {
        proof {
            if spec_is_ctrl_path(s@) {
                assert(s@.subrange(9, n as int)[j - 9] == s@[j as int]);
            }
        }
        return None;
    }
    proof {
        assert(s@.subrange(0, 9) =~= seq!['/', 'd', 'e', 'v', '/', 'n', 'v', 'm', 'e']);
    }
    Some(s.substring_char(5, n))
}

/// The `/dev/` directory prefix of device-node paths.
pub open spec fn spec_dev_prefix() -> Seq<char> {
    seq!['/', 'd', 'e', 'v', '/']
}

/// Resolves (controller path, namespace id) to the namespace's
/// block-device path.  The conventional candidate `<controller>n<id>`
/// is confirmed against the id attribute in the device-class tree; on a
/// mismatch every entry under the controller's directory is scanned.
/// `None` when nothing confirms, in which case the path stays empty.
/// A controller path outside the `/dev/nvme<num>` naming pattern
/// resolves to `None` before anything is read.
pub fn get_blk_path<H: NvmeHost>(host: &mut H, ctrl_blk_path: &str, nsid: u32) -> (r: Option<
    String,
>)
    ensures
        r matches Some(p) ==> exists|name: Seq<char>|
            spec_is_ns_entry_name(name) && p@ == spec_dev_prefix() + name,
        !spec_is_ctrl_path(ctrl_blk_path@) ==> r is None,
{
    let ctrl_name = match ctrl_name_from_path(ctrl_blk_path) {
        None => {
            return None;
        },
        Some(c) => c,
    };
    proof {
        reveal_strlit("/dev/");
        reveal_strlit("n");
    }
    let m = ctrl_name.unicode_len();
    let mut cand = ctrl_name.to_owned();
    cand.append("n");
    let nsid_str = u64_to_dec_str(nsid as u64);
    cand.append(nsid_str.as_str());
    proof {
        lemma_dec_str_digits(nsid as nat);
        let cn = ctrl_name@;
        let full = ctrl_blk_path@;
        // The controller name is `nvme` followed by at least one digit.
        assert(cn.len() == full.len() - 5);
        assert forall|k: int| 0 <= k < 4 implies cn[k] == full.subrange(0, 9)[k + 5] by {}
        assert(cand@.subrange(0, 4) =~= seq!['n', 'v', 'm', 'e']);
        assert forall|k: int| 0 <= k < m - 4 implies spec_is_digit_char(
            #[trigger] cand@.subrange(4, m as int)[k],
        ) by {
            assert(cand@.subrange(4, m as int)[k] == full.subrange(9, full.len() as int)[k]);
        }
        assert(cand@[m as int] == 'n');
        assert(cand@.subrange(m + 1, cand@.len() as int) =~= spec_dec_str(nsid as nat));
        assert(spec_is_ns_entry_split(cand@, m as int));
    }
    match host.read_nsid_attr(ctrl_name, cand.as_str()) {
        Some(content) => {
            if parse_nsid_content(content.as_str()) == nsid {
                let mut p = "/dev/".to_owned();
                p.append(cand.as_str());
                proof {
                    assert(spec_is_ns_entry_name(cand@));
                    assert(p@ =~= spec_dev_prefix() + cand@);
                    assert(spec_is_ns_entry_name(cand@) && p@ == spec_dev_prefix() + cand@);
                }
                return Some(p);
            }
        },
        None => {},
    }
    let entries = match host.list_ns_entries(ctrl_name) {
        None => {
            return None;
        },
        Some(e) => e,
    };
    let n_entries = entries.len();
    let mut i: usize = 0;
    while i < n_entries
        invariant
            i <= n_entries == entries@.len(),
            spec_is_ctrl_path(ctrl_blk_path@),
        decreases n_entries - i,
    {
        let entry = &entries[i];
        if is_ns_entry_name(entry.as_str()) {
            match host.read_nsid_attr(ctrl_name, entry.as_str()) {
                Some(content) => {
                    if parse_nsid_content(content.as_str()) == nsid {
                        let mut p = "/dev/".to_owned();
                        p.append(entry.as_str());
                        proof {
                            reveal_strlit("/dev/");
                            assert(p@ =~= spec_dev_prefix() + entry@);
                            assert(spec_is_ns_entry_name(entry@) && p@ == spec_dev_prefix()
                                + entry@);
                        }
                        return Some(p);
                    }
                },
                None => {},
            }
        }
        i = i + 1;
    }
    None
}

} // verus!
