//! GPU devices: the `lspci` listing, passthrough feasibility and the
//! checks that decide whether a device may be handed to a VM.

use vstd::prelude::*;
use crate::text::{
    chars_of, contains, contains_exec, contains_str, eq_str, find, find_exec, hex_pad,
    hex_pad_exec, lines, lines_exec, parse_uint, parse_uint_exec, rfind, rfind_exec, slice,
    split_by, split_by_exec, starts_with, starts_with_exec, starts_with_str, string_of, trim,
    trim_exec, utf8_len, utf8_width, utf8_width_exec, extend, views, lemma_find_from_props,
    lemma_split_by_nonempty, lemma_rfind_bound, join, join_exec, dec_str, dec_str_exec,
    str_views, ends_with, lemma_views_push, same, trim_start_matches, trim_start_matches_exec,
    lemma_str_views_push, lemma_join_contains,
};

verus! {

/// A GPU as the `lspci` listing and sysfs describe it.
#[derive(Debug)]
pub struct GpuDevice {
    pub domain: String,
    pub bus: String,
    pub slot: String,
    pub function: String,
    pub pci_address: String,
    pub vendor_id: String,
    pub device_id: String,
    pub vendor_name: String,
    pub device_name: String,
    pub class_code: String,
    pub driver: String,
    pub iommu_group: String,
    pub can_passthrough: bool,
    pub passthrough_reason: String,
    pub is_boot_gpu: bool,
}

/// The devices of one IOMMU group.
#[derive(Debug)]
pub struct IommuGroup {
    pub group_number: String,
    pub devices: Vec<GpuDevice>,
}

/// A GPU with its text fields as character sequences.
pub struct GpuDeviceView {
    pub domain: Seq<char>,
    pub bus: Seq<char>,
    pub slot: Seq<char>,
    pub function: Seq<char>,
    pub pci_address: Seq<char>,
    pub vendor_id: Seq<char>,
    pub device_id: Seq<char>,
    pub vendor_name: Seq<char>,
    pub device_name: Seq<char>,
    pub class_code: Seq<char>,
    pub driver: Seq<char>,
    pub iommu_group: Seq<char>,
    pub can_passthrough: bool,
    pub passthrough_reason: Seq<char>,
    pub is_boot_gpu: bool,
}

impl View for GpuDevice {
    type V = GpuDeviceView;

    open spec fn view(&self) -> GpuDeviceView {
        GpuDeviceView {
            domain: self.domain@,
            bus: self.bus@,
            slot: self.slot@,
            function: self.function@,
            pci_address: self.pci_address@,
            vendor_id: self.vendor_id@,
            device_id: self.device_id@,
            vendor_name: self.vendor_name@,
            device_name: self.device_name@,
            class_code: self.class_code@,
            driver: self.driver@,
            iommu_group: self.iommu_group@,
            can_passthrough: self.can_passthrough,
            passthrough_reason: self.passthrough_reason@,
            is_boot_gpu: self.is_boot_gpu,
        }
    }
}

pub open spec fn gpu_views(v: Seq<GpuDevice>) -> Seq<GpuDeviceView> {
    v.map_values(|g: GpuDevice| g@)
}

impl GpuDevice {
    /// A field-by-field copy.
    pub fn copy(&self) -> (r: GpuDevice)
        ensures
            r@ == self@,
    {
        GpuDevice {
            domain: self.domain.clone(),
            bus: self.bus.clone(),
            slot: self.slot.clone(),
            function: self.function.clone(),
            pci_address: self.pci_address.clone(),
            vendor_id: self.vendor_id.clone(),
            device_id: self.device_id.clone(),
            vendor_name: self.vendor_name.clone(),
            device_name: self.device_name.clone(),
            class_code: self.class_code.clone(),
            driver: self.driver.clone(),
            iommu_group: self.iommu_group.clone(),
            can_passthrough: self.can_passthrough,
            passthrough_reason: self.passthrough_reason.clone(),
            is_boot_gpu: self.is_boot_gpu,
        }
    }
}

// ---------------------------------------------------------------------
// The `lspci -nn -k -D` listing
// ---------------------------------------------------------------------

/// The text between the first `[` of `rest` and the next `]` (the class code).
pub open spec fn class_code_of(rest: Seq<char>) -> Seq<char> {
    match find(rest, "["@) {
        Some(s) => match find(rest.skip(s + 1), "]"@) {
            Some(e) => rest.subrange(s + 1, s + 1 + e),
            None => Seq::empty(),
        },
        None => Seq::empty(),
    }
}

/// The bracketed text that starts at the `[` at index `i` of `rest`, if a `]` closes it.
pub open spec fn bracket_at(rest: Seq<char>, i: int) -> Option<Seq<char>> {
    if 0 <= i < rest.len() && rest[i] == '[' {
        match find(rest.skip(i + 1), "]"@) {
            Some(e) => Some(rest.subrange(i + 1, i + 1 + e)),
            None => None,
        }
    } else {
        None
    }
}

/// A `[vvvv:dddd]` bracket: nine bytes holding a colon.
pub open spec fn is_id_bracket(rest: Seq<char>, i: int) -> bool {
    match bracket_at(rest, i) {
        Some(c) => contains(c, ":"@) && utf8_len(c) == 9,
        None => false,
    }
}

/// The first index at or after `i` of a vendor:device bracket.
pub open spec fn first_id_bracket(rest: Seq<char>, i: int) -> Option<int>
    decreases rest.len() - i,
{
    if i < 0 || i >= rest.len() {
        None
    } else if is_id_bracket(rest, i) {
        Some(i)
    } else {
        first_id_bracket(rest, i + 1)
    }
}

/// Vendor and device id of the bracket at `pos`.
pub open spec fn ids_at(rest: Seq<char>, pos: int) -> (Seq<char>, Seq<char>) {
    match bracket_at(rest, pos) {
        Some(c) => {
            let parts = split_by(c, ":"@);
            if parts.len() == 2 {
                (parts[0], parts[1])
            } else {
                (Seq::empty(), Seq::empty())
            }
        },
        None => (Seq::empty(), Seq::empty()),
    }
}

/// Vendor names that the listing spells out before the device name.
pub open spec fn known_vendors() -> Seq<Seq<char>> {
    seq![
        "NVIDIA Corporation "@,
        "Intel Corporation "@,
        "Advanced Micro Devices, Inc. "@,
        "AMD "@,
        "ASPEED Technology, Inc. "@,
        "Matrox Electronics Systems Ltd. "@,
    ]
}

/// The first of `vendors` (from index `k`) that `name` starts with.
pub open spec fn first_vendor(name: Seq<char>, vendors: Seq<Seq<char>>, k: int) -> Option<int>
    decreases vendors.len() - k,
{
    if k < 0 || k >= vendors.len() {
        None
    } else if starts_with(name, vendors[k]) {
        Some(k)
    } else {
        first_vendor(name, vendors, k + 1)
    }
}

/// The product text before the id bracket at `pos`: the class label and
/// the revision removed.
pub open spec fn clean_name(rest: Seq<char>, pos: int) -> Seq<char> {
    let name_part = trim(rest.take(pos));
    let name_str = match find(name_part, ": "@) {
        Some(c) => name_part.skip(c + 2),
        None => name_part,
    };
    match rfind(name_str, "(rev "@) {
        Some(r) => trim(name_str.take(r)),
        None => trim(name_str),
    }
}

/// Vendor and device name from the product text.
pub open spec fn split_names(name: Seq<char>) -> (Seq<char>, Seq<char>) {
    match first_vendor(name, known_vendors(), 0) {
        Some(k) => (trim(known_vendors()[k]), trim(name.skip(known_vendors()[k].len() as int))),
        None => match find(name, " "@) {
            Some(i) => (name.take(i), name.skip(i + 1)),
            None => (Seq::empty(), name),
        },
    }
}

/// Whether the header's address looks like a PCI address and its text
/// names a VGA (`[0300]`, `[0302]`) or 3D controller.
pub open spec fn is_gpu_header(addr: Seq<char>, rest: Seq<char>) -> bool {
    &&& contains(addr, ":"@) && contains(addr, "."@)
    &&& contains(rest, "[0300]"@) || contains(rest, "[0302]"@) || contains(rest, "3D controller"@)
}

/// The canonical `dddd:bb:ss.f` address from the parts of a listed address.
pub open spec fn full_pci(domain: Seq<char>, bus: Seq<char>, slot: Seq<char>, function: Seq<char>) -> Seq<char> {
    let d = match parse_uint(domain, 16, 0xffff) { Some(v) => v, None => 0 };
    let b = match parse_uint(bus, 16, 0xff) { Some(v) => v, None => 0 };
    let s = match parse_uint(slot, 16, 0xff) { Some(v) => v, None => 0 };
    hex_pad(d, 4) + ":"@ + hex_pad(b, 2) + ":"@ + hex_pad(s, 2) + "."@ + function
}

/// The GPU that a header line describes, if its address has two or three
/// colon-separated parts.
pub open spec fn gpu_from_header(addr: Seq<char>, rest: Seq<char>) -> Option<GpuDeviceView> {
    let parts = split_by(addr, ":"@);
    if parts.len() != 3 && parts.len() != 2 {
        None
    } else {
        let domain = if parts.len() == 3 { parts[0] } else { "0000"@ };
        let bus = if parts.len() == 3 { parts[1] } else { parts[0] };
        let slot_func = if parts.len() == 3 { parts[2] } else { parts[1] };
        let sf = split_by(slot_func, "."@);
        let slot = if sf.len() == 2 { sf[0] } else { slot_func };
        let function = if sf.len() == 2 { sf[1] } else { "0"@ };
        let pos = first_id_bracket(rest, 0);
        let ids = match pos { Some(p) => ids_at(rest, p), None => (Seq::empty(), Seq::empty()) };
        let names = match pos {
            Some(p) => split_names(clean_name(rest, p)),
            None => (Seq::empty(), Seq::empty()),
        };
        Some(GpuDeviceView {
            domain,
            bus,
            slot,
            function,
            pci_address: full_pci(domain, bus, slot, function),
            vendor_id: ids.0,
            device_id: ids.1,
            vendor_name: names.0,
            device_name: names.1,
            class_code: class_code_of(rest),
            driver: Seq::empty(),
            iommu_group: Seq::empty(),
            can_passthrough: false,
            passthrough_reason: Seq::empty(),
            is_boot_gpu: false,
        })
    }
}

pub open spec fn with_driver(d: GpuDeviceView, driver: Seq<char>) -> GpuDeviceView {
    GpuDeviceView { driver, ..d }
}

/// One line of the listing: the GPUs so far and the GPU being read.
pub open spec fn lspci_step(
    st: (Seq<GpuDeviceView>, Option<GpuDeviceView>),
    raw: Seq<char>,
) -> (Seq<GpuDeviceView>, Option<GpuDeviceView>) {
    if starts_with(raw, "\t"@) {
        match st.1 {
            Some(d) => {
                let c = trim(raw);
                if starts_with(c, "Kernel driver in use:"@) {
                    (st.0, Some(with_driver(d, trim(c.skip("Kernel driver in use:"@.len() as int)))))
                } else {
                    st
                }
            },
            None => st,
        }
    } else {
        let line = trim(raw);
        match find(line, " "@) {
            None => st,
            Some(e) => {
                let addr = line.take(e);
                let rest = line.skip(e);
                let flushed = match st.1 {
                    Some(d) => st.0.push(d),
                    None => st.0,
                };
                if is_gpu_header(addr, rest) {
                    (flushed, gpu_from_header(addr, rest))
                } else {
                    (flushed, None)
                }
            },
        }
    }
}

pub open spec fn lspci_fold(ls: Seq<Seq<char>>) -> (Seq<GpuDeviceView>, Option<GpuDeviceView>)
    decreases ls.len(),
{
    if ls.len() == 0 {
        (Seq::empty(), None)
    } else {
        lspci_step(lspci_fold(ls.drop_last()), ls.last())
    }
}

/// The GPUs (VGA and 3D controllers) of an `lspci -nn -k -D` listing, in
/// order, each with the driver its `Kernel driver in use:` line names.
pub open spec fn lspci_gpus(text: Seq<char>) -> Seq<GpuDeviceView> {
    let st = lspci_fold(lines(text));
    match st.1 {
        Some(d) => st.0.push(d),
        None => st.0,
    }
}


pub open spec fn opt_gpu_view(o: Option<GpuDevice>) -> Option<GpuDeviceView> {
    match o {
        Some(g) => Some(g@),
        None => None,
    }
}

fn class_code_exec(rest: &Vec<char>) -> (r: Vec<char>)
    ensures
        r@ == class_code_of(rest@),
{
    let open = chars_of("[");
    let close = chars_of("]");
    match find_exec(rest, &open) {
        Some(s) => {
            proof {
                lemma_find_from_props(rest@, "["@, 0);
                reveal_strlit("[");
                assert("["@.len() == 1);
                assert(s + 1 <= rest@.len());
            }
            assert(s < rest.len());
            let s1: usize = s + 1;
            let tail = slice(rest, s1, rest.len());
            assert(tail@ =~= rest@.skip(s + 1));
            match find_exec(&tail, &close) {
                Some(e) => {
                    proof {
                        lemma_find_from_props(tail@, "]"@, 0);
                    }
                    slice(rest, s + 1, s + 1 + e)
                },
                None => Vec::new(),
            }
        },
        None => Vec::new(),
    }
}

fn bracket_at_exec(rest: &Vec<char>, i: usize) -> (r: Option<Vec<char>>)
    ensures
        r matches Some(c) ==> bracket_at(rest@, i as int) == Some(c@),
        r is None ==> bracket_at(rest@, i as int) is None,
{
    if i < rest.len() && rest[i] == '[' {
        let close = chars_of("]");
        let tail = slice(rest, i + 1, rest.len());
        assert(tail@ =~= rest@.skip(i + 1));
        match find_exec(&tail, &close) {
            Some(e) => {
                proof {
                    lemma_find_from_props(tail@, "]"@, 0);
                }
                Some(slice(rest, i + 1, i + 1 + e))
            },
            None => None,
        }
    } else {
        None
    }
}

/// Whether the UTF-8 encoding of `v` has exactly `n` bytes.
fn utf8_len_is(v: &Vec<char>, n: usize) -> (r: bool)
    requires
        n <= 1000,
    ensures
        r == (utf8_len(v@) == n),
{
    let mut total: usize = 0;
    let mut i: usize = 0;
    while i < v.len()
        invariant
            i <= v.len(),
            n <= 1000,
            total == utf8_len(v@.take(i as int)),
            total <= n,
        decreases v.len() - i,
    {
        assert(v@.take(i + 1).drop_last() =~= v@.take(i as int));
        total = total + utf8_width_exec(v[i]);
        i = i + 1;
        if total > n {
            proof {
                lemma_utf8_len_prefix(v@, i as int);
            }
            return false;
        }
    }
    assert(v@.take(v.len() as int) =~= v@);
    total == n
}

proof fn lemma_utf8_len_prefix(s: Seq<char>, i: int)
    requires
        0 <= i <= s.len(),
    ensures
        utf8_len(s.take(i)) <= utf8_len(s),
    decreases s.len() - i,
{
    if i < s.len() {
        lemma_utf8_len_prefix(s, i + 1);
        assert(s.take(i + 1).drop_last() =~= s.take(i));
    } else {
        assert(s.take(i) =~= s);
    }
}

fn is_id_bracket_exec(rest: &Vec<char>, i: usize) -> (r: bool)
    ensures
        r == is_id_bracket(rest@, i as int),
{
    match bracket_at_exec(rest, i) {
        Some(c) => contains_str(&c, ":") && utf8_len_is(&c, 9),
        None => false,
    }
}

fn first_id_bracket_exec(rest: &Vec<char>) -> (r: Option<usize>)
    ensures
        r matches Some(k) ==> first_id_bracket(rest@, 0) == Some(k as int),
        r is None ==> first_id_bracket(rest@, 0) is None,
{
    let mut i: usize = 0;
    while i < rest.len()
        invariant
            i <= rest.len(),
            first_id_bracket(rest@, 0) == first_id_bracket(rest@, i as int),
        decreases rest.len() - i,
    {
        if is_id_bracket_exec(rest, i) {
            return Some(i);
        }
        i = i + 1;
    }
    None
}

fn ids_at_exec(rest: &Vec<char>, pos: usize) -> (r: (Vec<char>, Vec<char>))
    ensures
        (r.0@, r.1@) == ids_at(rest@, pos as int),
{
    match bracket_at_exec(rest, pos) {
        Some(c) => {
            let colon = chars_of(":");
            let parts = split_by_exec(&c, &colon);
            if parts.len() == 2 {
                let a = slice(&parts[0], 0, parts[0].len());
                let b = slice(&parts[1], 0, parts[1].len());
                assert(a@ =~= views(parts@)[0]);
                assert(b@ =~= views(parts@)[1]);
                (a, b)
            } else {
                (Vec::new(), Vec::new())
            }
        },
        None => (Vec::new(), Vec::new()),
    }
}

fn known_vendors_exec() -> (r: Vec<Vec<char>>)
    ensures
        views(r@) == known_vendors(),
{
    let r = vec![
        chars_of("NVIDIA Corporation "),
        chars_of("Intel Corporation "),
        chars_of("Advanced Micro Devices, Inc. "),
        chars_of("AMD "),
        chars_of("ASPEED Technology, Inc. "),
        chars_of("Matrox Electronics Systems Ltd. "),
    ];
    assert(views(r@) =~= known_vendors());
    r
}

fn first_vendor_exec(name: &Vec<char>, vendors: &Vec<Vec<char>>) -> (r: Option<usize>)
    ensures
        r matches Some(k) ==> first_vendor(name@, views(vendors@), 0) == Some(k as int) && k < vendors.len(),
        r is None ==> first_vendor(name@, views(vendors@), 0) is None,
{
    let mut k: usize = 0;
    while k < vendors.len()
        invariant
            k <= vendors.len(),
            first_vendor(name@, views(vendors@), 0) == first_vendor(name@, views(vendors@), k as int),
        decreases vendors.len() - k,
    {
        if starts_with_exec(name, &vendors[k]) {
            return Some(k);
        }
        k = k + 1;
    }
    None
}

fn clean_name_exec(rest: &Vec<char>, pos: usize) -> (r: Vec<char>)
    requires
        pos <= rest.len(),
    ensures
        r@ == clean_name(rest@, pos as int),
{
    let head = slice(rest, 0, pos);
    assert(head@ =~= rest@.take(pos as int));
    let name_part = trim_exec(&head);
    let sep = chars_of(": ");
    let name_str = match find_exec(&name_part, &sep) {
        Some(c) => {
            proof {
                lemma_find_from_props(name_part@, ": "@, 0);
                reveal_strlit(": ");
            }
            assert(c + 2 <= name_part.len());
            let c2: usize = c + 2;
            let x = slice(&name_part, c2, name_part.len());
            assert(x@ =~= name_part@.skip(c + 2));
            x
        },
        None => name_part,
    };
    let rev = chars_of("(rev ");
    match rfind_exec(&name_str, &rev) {
        Some(r) => {
            proof {
                lemma_rfind_bound(name_str@, "(rev "@);
            }
            let x = slice(&name_str, 0, r);
            assert(x@ =~= name_str@.take(r as int));
            trim_exec(&x)
        },
        None => trim_exec(&name_str),
    }
}

fn split_names_exec(name: &Vec<char>) -> (r: (Vec<char>, Vec<char>))
    ensures
        (r.0@, r.1@) == split_names(name@),
{
    let vendors = known_vendors_exec();
    match first_vendor_exec(name, &vendors) {
        Some(k) => {
            proof {
                lemma_first_vendor_props(name@, known_vendors(), 0);
            }
            let v = trim_exec(&vendors[k]);
            let d0 = slice(name, vendors[k].len(), name.len());
            assert(d0@ =~= name@.skip(known_vendors()[k as int].len() as int));
            let d = trim_exec(&d0);
            (v, d)
        },
        None => {
            let sp = chars_of(" ");
            match find_exec(name, &sp) {
                Some(i) => {
                    proof {
                        lemma_find_from_props(name@, " "@, 0);
                        reveal_strlit(" ");
                    }
                    let a = slice(name, 0, i);
                    assert(i + 1 <= name.len());
                    let i1: usize = i + 1;
                    let b = slice(name, i1, name.len());
                    assert(a@ =~= name@.take(i as int));
                    assert(b@ =~= name@.skip(i + 1));
                    (a, b)
                },
                None => (Vec::new(), slice(name, 0, name.len())),
            }
        },
    }
}

proof fn lemma_first_vendor_props(name: Seq<char>, vendors: Seq<Seq<char>>, k: int)
    requires
        0 <= k,
    ensures
        first_vendor(name, vendors, k) matches Some(j) ==> k <= j < vendors.len()
            && starts_with(name, vendors[j]),
    decreases vendors.len() - k,
{
    if k < vendors.len() && !starts_with(name, vendors[k]) {
        lemma_first_vendor_props(name, vendors, k + 1);
    }
}

/// A product text that starts with one of the vendor names that the listing
/// spells out (`NVIDIA Corporation`, `Intel Corporation`, `Advanced Micro
/// Devices, Inc.`, `AMD`, `ASPEED Technology, Inc.`, `Matrox Electronics
/// Systems Ltd.`, each followed by a space) is split there: the vendor name
/// is that name, and the device name the rest, trimmed.
pub proof fn lemma_split_names_known_vendor(name: Seq<char>, v: Seq<char>)
    requires
        v == "NVIDIA Corporation "@ || v == "Intel Corporation "@ || v == "Advanced Micro Devices, Inc. "@
            || v == "AMD "@ || v == "ASPEED Technology, Inc. "@ || v == "Matrox Electronics Systems Ltd. "@,
        starts_with(name, v),
    ensures
        split_names(name).0 + " "@ == v,
        split_names(name).1 == trim(name.skip(v.len() as int)),
{
    reveal_strlit("NVIDIA Corporation ");
    reveal_strlit("Intel Corporation ");
    reveal_strlit("Advanced Micro Devices, Inc. ");
    reveal_strlit("AMD ");
    reveal_strlit("ASPEED Technology, Inc. ");
    reveal_strlit("Matrox Electronics Systems Ltd. ");
    reveal_strlit(" ");
    let kv = known_vendors();
    assert(name.take(v.len() as int)[0] == name[0]);
    assert(name.take(v.len() as int)[1] == name[1]);
    assert forall|i: int| 0 <= i < kv.len() && starts_with(name, #[trigger] kv[i]) implies kv[i] == v by {
        assert(name.take(kv[i].len() as int)[0] == name[0]);
        assert(name.take(kv[i].len() as int)[1] == name[1]);
    }
    reveal_with_fuel(first_vendor, 7);
    lemma_first_vendor_props(name, kv, 0);
    reveal_with_fuel(crate::text::trim_start, 2);
    reveal_with_fuel(crate::text::trim_end, 3);
    assert(v.drop_last() + " "@ =~= v);
    assert(trim(v) == v.drop_last());
}

/// However a product text is split, the vendor name is how it starts, and
/// a space follows it where it is not empty.
pub proof fn lemma_split_names_prefix(name: Seq<char>)
    ensures
        starts_with(name, split_names(name).0),
        split_names(name).0.len() > 0 ==> split_names(name).0.len() < name.len()
            && name[split_names(name).0.len() as int] == ' ',
{
    reveal_strlit("NVIDIA Corporation ");
    reveal_strlit("Intel Corporation ");
    reveal_strlit("Advanced Micro Devices, Inc. ");
    reveal_strlit("AMD ");
    reveal_strlit("ASPEED Technology, Inc. ");
    reveal_strlit("Matrox Electronics Systems Ltd. ");
    reveal_strlit(" ");
    let kv = known_vendors();
    lemma_first_vendor_props(name, kv, 0);
    match first_vendor(name, kv, 0) {
        Some(k) => {
            let v = kv[k];
            lemma_split_names_known_vendor(name, v);
            let vn = split_names(name).0;
            assert(name.take(vn.len() as int) =~= name.take(v.len() as int).take(vn.len() as int));
            assert(v.take(vn.len() as int) =~= vn);
            assert(name.take(v.len() as int)[vn.len() as int] == name[vn.len() as int]);
        },
        None => {
            lemma_find_from_props(name, " "@, 0);
            match find(name, " "@) {
                Some(i) => {
                    assert(name.subrange(i, i + 1)[0] == name[i]);
                },
                None => {
                    assert(name.take(0) =~= Seq::<char>::empty());
                },
            }
        },
    }
}

/// A GPU header whose product text starts with one of those vendor names
/// gives a GPU with that vendor name and the rest of the text, trimmed, as
/// its device name.
pub proof fn lemma_header_vendor(addr: Seq<char>, rest: Seq<char>, v: Seq<char>)
    requires
        v == "NVIDIA Corporation "@ || v == "Intel Corporation "@ || v == "Advanced Micro Devices, Inc. "@
            || v == "AMD "@ || v == "ASPEED Technology, Inc. "@ || v == "Matrox Electronics Systems Ltd. "@,
        split_by(addr, ":"@).len() == 2 || split_by(addr, ":"@).len() == 3,
        first_id_bracket(rest, 0) matches Some(p) && starts_with(clean_name(rest, p), v),
    ensures
        gpu_from_header(addr, rest) matches Some(g) && g.vendor_name + " "@ == v
            && g.device_name == trim(clean_name(rest, first_id_bracket(rest, 0)->0).skip(v.len() as int)),
{
    lemma_split_names_known_vendor(clean_name(rest, first_id_bracket(rest, 0)->0), v);
}

fn is_gpu_header_exec(addr: &Vec<char>, rest: &Vec<char>) -> (r: bool)
    ensures
        r == is_gpu_header(addr@, rest@),
{
    contains_str(addr, ":") && contains_str(addr, ".") && (contains_str(rest, "[0300]")
        || contains_str(rest, "[0302]") || contains_str(rest, "3D controller"))
}

fn hex_field(v: &Vec<char>, max: u64, w: usize) -> (r: Vec<char>)
    requires
        max <= 0xffff,
    ensures
        r@ == hex_pad(match parse_uint(v@, 16, max as nat) { Some(x) => x, None => 0 }, w as nat),
{
    let x = match parse_uint_exec(v, 16, max) {
        Some(x) => x,
        None => 0,
    };
    hex_pad_exec(x, w)
}

fn full_pci_exec(domain: &Vec<char>, bus: &Vec<char>, slot: &Vec<char>, function: &Vec<char>) -> (r: Vec<char>)
    ensures
        r@ == full_pci(domain@, bus@, slot@, function@),
{
    let mut out = hex_field(domain, 0xffff, 4);
    let colon = chars_of(":");
    let dot = chars_of(".");
    extend(&mut out, &colon);
    let b = hex_field(bus, 0xff, 2);
    extend(&mut out, &b);
    extend(&mut out, &colon);
    let s = hex_field(slot, 0xff, 2);
    extend(&mut out, &s);
    extend(&mut out, &dot);
    extend(&mut out, function);
    out
}

fn copy_chars(v: &Vec<char>) -> (r: Vec<char>)
    ensures
        r@ == v@,
{
    let r = slice(v, 0, v.len());
    assert(r@ =~= v@);
    r
}

fn gpu_from_header_exec(addr: &Vec<char>, rest: &Vec<char>) -> (r: Option<GpuDevice>)
    ensures
        opt_gpu_view(r) == gpu_from_header(addr@, rest@),
{
    let colon = chars_of(":");
    let parts = split_by_exec(addr, &colon);
    if parts.len() != 3 && parts.len() != 2 {
        return None;
    }
    let three = parts.len() == 3;
    let domain = if three { copy_chars(&parts[0]) } else { chars_of("0000") };
    let bus = if three { copy_chars(&parts[1]) } else { copy_chars(&parts[0]) };
    let slot_func = if three { copy_chars(&parts[2]) } else { copy_chars(&parts[1]) };
    let dot = chars_of(".");
    let sf = split_by_exec(&slot_func, &dot);
    let two = sf.len() == 2;
    let slot = if two { copy_chars(&sf[0]) } else { copy_chars(&slot_func) };
    let function = if two { copy_chars(&sf[1]) } else { chars_of("0") };
    let pos = first_id_bracket_exec(rest);
    let (vendor_id, device_id) = match pos {
        Some(p) => ids_at_exec(rest, p),
        None => (Vec::new(), Vec::new()),
    };
    let (vendor_name, device_name) = match pos {
        Some(p) => {
            proof {
                lemma_first_id_bracket_bound(rest@, 0);
            }
            let n = clean_name_exec(rest, p);
            split_names_exec(&n)
        },
        None => (Vec::new(), Vec::new()),
    };
    let pci = full_pci_exec(&domain, &bus, &slot, &function);
    let class_code = class_code_exec(rest);
    let g = GpuDevice {
        domain: string_of(&domain),
        bus: string_of(&bus),
        slot: string_of(&slot),
        function: string_of(&function),
        pci_address: string_of(&pci),
        vendor_id: string_of(&vendor_id),
        device_id: string_of(&device_id),
        vendor_name: string_of(&vendor_name),
        device_name: string_of(&device_name),
        class_code: string_of(&class_code),
        driver: String::new(),
        iommu_group: String::new(),
        can_passthrough: false,
        passthrough_reason: String::new(),
        is_boot_gpu: false,
    };
    assert(views(parts@).len() == parts.len());
    assert(views(sf@).len() == sf.len());
    Some(g)
}

proof fn lemma_first_id_bracket_bound(rest: Seq<char>, i: int)
    ensures
        first_id_bracket(rest, i) matches Some(k) ==> 0 <= k < rest.len(),
    decreases rest.len() - i,
{
    if 0 <= i < rest.len() && !is_id_bracket(rest, i) {
        lemma_first_id_bracket_bound(rest, i + 1);
    }
}

/// The GPUs of an `lspci -nn -k -D` listing.
pub fn parse_lspci(text: &str) -> (r: Vec<GpuDevice>)
    ensures
        gpu_views(r@) == lspci_gpus(text@),
{
    let v = chars_of(text);
    let ls = lines_exec(&v);
    let mut gpus: Vec<GpuDevice> = Vec::new();
    let mut cur: Option<GpuDevice> = None;
    let mut i: usize = 0;
    let kdrv = chars_of("Kernel driver in use:");
    let tab = chars_of("\t");
    let space = chars_of(" ");
    assert(views(ls@).take(0) =~= Seq::<Seq<char>>::empty());
    while i < ls.len()
        invariant
            i <= ls.len(),
            kdrv@ == "Kernel driver in use:"@,
            tab@ == "\t"@,
            space@ == " "@,
            (gpu_views(gpus@), opt_gpu_view(cur)) == lspci_fold(views(ls@).take(i as int)),
        decreases ls.len() - i,
    {
        let raw = &ls[i];
        let ghost st = (gpu_views(gpus@), opt_gpu_view(cur));
        assert(views(ls@).take(i + 1).drop_last() =~= views(ls@).take(i as int));
        assert(views(ls@).take(i + 1).last() == raw@);
        if starts_with_exec(raw, &tab) {
            if cur.is_some() {
                let c = trim_exec(raw);
                if starts_with_exec(&c, &kdrv) {
                    let d0 = slice(&c, kdrv.len(), c.len());
                    assert(d0@ =~= c@.skip("Kernel driver in use:"@.len() as int));
                    let d = trim_exec(&d0);
                    let mut dev = cur.unwrap();
                    dev.driver = string_of(&d);
                    cur = Some(dev);
                }
            }
        } else {
            let line = trim_exec(raw);
            match find_exec(&line, &space) {
                None => {},
                Some(e) => {
                    proof {
                        lemma_find_from_props(line@, " "@, 0);
                    }
                    let addr = slice(&line, 0, e);
                    let rest = slice(&line, e, line.len());
                    assert(addr@ =~= line@.take(e as int));
                    assert(rest@ =~= line@.skip(e as int));
                    match cur {
                        Some(d) => {
                            gpus.push(d);
                        },
                        None => {},
                    }
                    assert(gpu_views(gpus@) =~= (match st.1 { Some(d) => st.0.push(d), None => st.0 }));
                    if is_gpu_header_exec(&addr, &rest) {
                        cur = gpu_from_header_exec(&addr, &rest);
                    } else {
                        cur = None;
                    }
                },
            }
        }
        i = i + 1;
    }
    assert(views(ls@).take(ls.len() as int) =~= views(ls@));
    let ghost g0 = gpus@;
    match cur {
        Some(d) => {
            gpus.push(d);
            assert(gpu_views(gpus@) =~= gpu_views(g0).push(d@));
        },
        None => {},
    }
    gpus
}


// ---------------------------------------------------------------------
// Passthrough feasibility
// ---------------------------------------------------------------------

/// The reasons that hold against (or warn about) passing `g` through.
pub open spec fn feasibility_reasons(g: GpuDeviceView, iommu_enabled: bool) -> Seq<Seq<char>> {
    (if !iommu_enabled { seq!["IOMMU not enabled in kernel"@] } else { Seq::empty() })
    + (if g.iommu_group.len() == 0 { seq!["No IOMMU group found"@] } else { Seq::empty() })
    + (if g.is_boot_gpu { seq!["Boot GPU - passing through will lose host display"@] } else { Seq::empty() })
    + (if g.driver == "nvidia"@ || g.driver == "nvidia_drm"@ {
        seq!["Using proprietary NVIDIA driver - needs unbind before passthrough"@]
    } else {
        Seq::empty()
    })
}

/// `g` with its passthrough verdict and reason filled in.
pub open spec fn with_feasibility(g: GpuDeviceView, iommu_enabled: bool) -> GpuDeviceView {
    if g.driver == "vfio-pci"@ {
        GpuDeviceView { can_passthrough: true, passthrough_reason: "Already bound to vfio-pci"@, ..g }
    } else {
        let reasons = feasibility_reasons(g, iommu_enabled);
        let can = iommu_enabled && g.iommu_group.len() > 0 && !g.is_boot_gpu;
        GpuDeviceView {
            can_passthrough: can,
            passthrough_reason: if can && reasons.len() == 0 {
                "Ready for passthrough"@
            } else {
                join(reasons, "; "@)
            },
            ..g
        }
    }
}

/// The passthrough verdict on a GPU: one already on vfio-pci can be passed
/// through; any other can exactly where IOMMU is on, it has an IOMMU group
/// and it is not the host's boot GPU. So the boot GPU is never offered
/// unless it is already on vfio-pci. The verdict changes nothing else of
/// the GPU, and a GPU that is held back is told each reason that holds it
/// back.
pub proof fn lemma_feasibility_verdict(g: GpuDeviceView, iommu_enabled: bool)
    ensures
        g.driver == "vfio-pci"@ ==> with_feasibility(g, iommu_enabled).can_passthrough,
        g.driver != "vfio-pci"@ && g.is_boot_gpu ==> !with_feasibility(g, iommu_enabled).can_passthrough,
        g.driver != "vfio-pci"@ && !iommu_enabled ==> !with_feasibility(g, iommu_enabled).can_passthrough,
        g.driver != "vfio-pci"@ && g.iommu_group.len() == 0 ==> !with_feasibility(g, iommu_enabled).can_passthrough,
        iommu_enabled && g.iommu_group.len() > 0 && !g.is_boot_gpu ==> with_feasibility(g, iommu_enabled).can_passthrough,
        with_feasibility(g, iommu_enabled) == (GpuDeviceView {
            can_passthrough: with_feasibility(g, iommu_enabled).can_passthrough,
            passthrough_reason: with_feasibility(g, iommu_enabled).passthrough_reason,
            ..g
        }),
        g.driver != "vfio-pci"@ && g.is_boot_gpu ==> contains(with_feasibility(g, iommu_enabled).passthrough_reason,
            "Boot GPU - passing through will lose host display"@),
        g.driver != "vfio-pci"@ && !iommu_enabled ==> contains(with_feasibility(g, iommu_enabled).passthrough_reason,
            "IOMMU not enabled in kernel"@),
        g.driver != "vfio-pci"@ && g.iommu_group.len() == 0 ==> contains(
            with_feasibility(g, iommu_enabled).passthrough_reason, "No IOMMU group found"@),
{
    let rs = feasibility_reasons(g, iommu_enabled);
    let a: Seq<Seq<char>> = if !iommu_enabled { seq!["IOMMU not enabled in kernel"@] } else { Seq::empty() };
    let b: Seq<Seq<char>> = if g.iommu_group.len() == 0 { seq!["No IOMMU group found"@] } else { Seq::empty() };
    if g.driver != "vfio-pci"@ {
        if g.is_boot_gpu {
            assert(rs[(a.len() + b.len()) as int] == "Boot GPU - passing through will lose host display"@);
            lemma_join_contains(rs, "; "@, (a.len() + b.len()) as int);
        }
        if !iommu_enabled {
            assert(rs[0] == "IOMMU not enabled in kernel"@);
            lemma_join_contains(rs, "; "@, 0);
        }
        if g.iommu_group.len() == 0 {
            assert(rs[a.len() as int] == "No IOMMU group found"@);
            lemma_join_contains(rs, "; "@, a.len() as int);
        }
    }
}

fn feasibility_one(g: GpuDevice, iommu_enabled: bool) -> (r: GpuDevice)
    ensures
        r@ == with_feasibility(g@, iommu_enabled),
{
    let mut g = g;
    if same(g.driver.as_str(), "vfio-pci") {
        g.can_passthrough = true;
        g.passthrough_reason = "Already bound to vfio-pci".to_string();
        return g;
    }
    let mut reasons: Vec<Vec<char>> = Vec::new();
    let mut can_do = true;
    if !iommu_enabled {
        can_do = false;
        let x = chars_of("IOMMU not enabled in kernel");
        proof { lemma_views_push(reasons@, x); }
        reasons.push(x);
    }
    let ghost r1 = views(reasons@);
    if chars_of(g.iommu_group.as_str()).len() == 0 {
        can_do = false;
        let x = chars_of("No IOMMU group found");
        proof { lemma_views_push(reasons@, x); }
        reasons.push(x);
    }
    let ghost r2 = views(reasons@);
    if g.is_boot_gpu {
        can_do = false;
        let x = chars_of("Boot GPU - passing through will lose host display");
        proof { lemma_views_push(reasons@, x); }
        reasons.push(x);
    }
    let ghost r3 = views(reasons@);
    if same(g.driver.as_str(), "nvidia") || same(g.driver.as_str(), "nvidia_drm") {
        let x = chars_of("Using proprietary NVIDIA driver - needs unbind before passthrough");
        proof { lemma_views_push(reasons@, x); }
        reasons.push(x);
    }
    assert(views(reasons@) =~= feasibility_reasons(g@, iommu_enabled));
    if can_do && reasons.len() == 0 {
        g.passthrough_reason = "Ready for passthrough".to_string();
    } else {
        let sep = chars_of("; ");
        let j = join_exec(&reasons, &sep);
        g.passthrough_reason = string_of(&j);
    }
    g.can_passthrough = can_do;
    g
}

/// Fills in, for every GPU, whether it can be passed through and why.
pub fn check_passthrough_feasibility(gpus: &mut Vec<GpuDevice>, iommu_enabled: bool)
    ensures
        final(gpus)@.len() == old(gpus)@.len(),
        forall|i: int| 0 <= i < old(gpus)@.len() ==>
            (#[trigger] final(gpus)@[i])@ == with_feasibility(old(gpus)@[i]@, iommu_enabled),
        forall|i: int| 0 <= i < final(gpus)@.len() && (#[trigger] final(gpus)@[i]).is_boot_gpu
            && final(gpus)@[i].driver@ != "vfio-pci"@ ==> !final(gpus)@[i].can_passthrough,
{
    let mut out: Vec<GpuDevice> = Vec::new();
    let n = gpus.len();
    let mut rest: Vec<GpuDevice> = Vec::new();
    std::mem::swap(&mut rest, gpus);
    let ghost orig = rest@;
    assert(orig == old(gpus)@);
    let mut i: usize = 0;
    while i < n
        invariant
            n == orig.len(),
            i <= n,
            out@.len() == i,
            rest@.len() == n - i,
            forall|k: int| 0 <= k < rest@.len() ==> rest@[k] == orig[k + i],
            forall|k: int| 0 <= k < i ==> (#[trigger] out@[k])@ == with_feasibility(orig[k]@, iommu_enabled),
        decreases n - i,
    {
        let g = rest.remove(0);
        out.push(feasibility_one(g, iommu_enabled));
        i = i + 1;
    }
    assert forall|k: int| 0 <= k < out@.len() && (#[trigger] out@[k]).is_boot_gpu
        && out@[k].driver@ != "vfio-pci"@ implies !out@[k].can_passthrough by {
        lemma_feasibility_verdict(orig[k]@, iommu_enabled);
    }
    *gpus = out;
}

/// Whether IOMMU is on: the kernel command line asks for it, or the kernel
/// log reports it enabled (each `None` where it could not be read).
pub fn check_iommu_enabled(cmdline: Option<&str>, dmesg: Option<&str>) -> (r: bool)
    ensures
        r == ((cmdline matches Some(c) && (contains(c@, "intel_iommu=on"@)
            || contains(c@, "amd_iommu=on"@) || contains(c@, "iommu=pt"@)))
            || (dmesg matches Some(d) && (contains(d@, "DMAR: IOMMU enabled"@)
            || contains(d@, "AMD-Vi: AMD-Vi enabled"@)))),
{
    if let Some(c) = cmdline {
        let v = chars_of(c);
        if contains_str(&v, "intel_iommu=on") || contains_str(&v, "amd_iommu=on")
            || contains_str(&v, "iommu=pt") {
            return true;
        }
    }
    if let Some(d) = dmesg {
        let v = chars_of(d);
        if contains_str(&v, "DMAR: IOMMU enabled") || contains_str(&v, "AMD-Vi: AMD-Vi enabled") {
            return true;
        }
    }
    false
}

/// Whether a GPU is the boot GPU: its `boot_vga` attribute reads `1`, or,
/// where it could not be read, its class is `0300` (VGA).
pub open spec fn boot_verdict(g: GpuDeviceView, boot_vga: Option<Seq<char>>) -> bool {
    match boot_vga {
        Some(c) => trim(c) == "1"@,
        None => g.class_code == "0300"@,
    }
}

/// Marks the boot GPU from each GPU's `boot_vga` contents (`None` where
/// the attribute could not be read).
pub fn determine_boot_gpu(gpus: &mut Vec<GpuDevice>, boot_vga: &Vec<Option<String>>)
    requires
        old(gpus)@.len() == boot_vga@.len(),
    ensures
        final(gpus)@.len() == old(gpus)@.len(),
        forall|i: int| 0 <= i < old(gpus)@.len() ==>
            (#[trigger] final(gpus)@[i])@ == (GpuDeviceView {
                is_boot_gpu: boot_verdict(old(gpus)@[i]@, match boot_vga@[i] { Some(s) => Some(s@), None => None }),
                ..old(gpus)@[i]@
            }),
{
    let mut out: Vec<GpuDevice> = Vec::new();
    let n = gpus.len();
    let mut rest: Vec<GpuDevice> = Vec::new();
    std::mem::swap(&mut rest, gpus);
    let ghost orig = rest@;
    let mut i: usize = 0;
    while i < n
        invariant
            n == orig.len() == boot_vga@.len(),
            i <= n,
            out@.len() == i,
            rest@.len() == n - i,
            forall|k: int| 0 <= k < rest@.len() ==> rest@[k] == orig[k + i],
            forall|k: int| 0 <= k < i ==> (#[trigger] out@[k])@ == (GpuDeviceView {
                is_boot_gpu: boot_verdict(orig[k]@, match boot_vga@[k] { Some(s) => Some(s@), None => None }),
                ..orig[k]@
            }),
        decreases n - i,
    {
        let mut g = rest.remove(0);
        let verdict = match &boot_vga[i] {
            Some(c) => {
                let v = chars_of(c.as_str());
                let t = trim_exec(&v);
                eq_str(&t, "1")
            },
            None => same(g.class_code.as_str(), "0300"),
        };
        g.is_boot_gpu = verdict;
        out.push(g);
        i = i + 1;
    }
    *gpus = out;
}

/// Whether a display is connected: some `card*` connector of the GPU
/// reports `connected` (connectors are (name, status contents if read)).
pub fn is_gpu_display_active(connectors: &Vec<(String, Option<String>)>) -> (r: bool)
    ensures
        r == exists|i: int| 0 <= i < connectors@.len()
            && starts_with(connectors@[i].0@, "card"@)
            && (connectors@[i].1 matches Some(st) && trim(st@) == "connected"@),
{
    let mut i: usize = 0;
    while i < connectors.len()
        invariant
            i <= connectors.len(),
            forall|j: int| 0 <= j < i ==> !(starts_with(connectors@[j].0@, "card"@)
                && (connectors@[j].1 matches Some(st) && trim(st@) == "connected"@)),
        decreases connectors.len() - i,
    {
        let (name, status) = &connectors[i];
        let nv = chars_of(name.as_str());
        if starts_with_str(&nv, "card") {
            if let Some(st) = status {
                let sv = chars_of(st.as_str());
                let t = trim_exec(&sv);
                if eq_str(&t, "connected") {
                    return true;
                }
            }
        }
        i = i + 1;
    }
    false
}

/// Class-code prefixes of devices that must stay with the host.
pub open spec fn critical_prefixes() -> Seq<Seq<char>> {
    seq!["0x0c03"@, "0x0106"@, "0x0108"@, "0x0200"@, "0x0601"@]
}

/// Whether a device, by its sysfs class code (`None` where unreadable), is
/// one that must not be bound to vfio-pci: a USB, SATA, NVMe or network
/// controller, or an ISA bridge.
pub fn is_critical_device(class_code: Option<&str>) -> (r: bool)
    ensures
        r == (class_code matches Some(c) && exists|k: int| 0 <= k < critical_prefixes().len()
            && starts_with(c@, critical_prefixes()[k])),
{
    match class_code {
        Some(c) => {
            let v = chars_of(c);
            let r = starts_with_str(&v, "0x0c03") || starts_with_str(&v, "0x0106")
                || starts_with_str(&v, "0x0108") || starts_with_str(&v, "0x0200")
                || starts_with_str(&v, "0x0601");
            proof {
                if r {
                    if starts_with(c@, "0x0c03"@) { assert(starts_with(c@, critical_prefixes()[0])); }
                    else if starts_with(c@, "0x0106"@) { assert(starts_with(c@, critical_prefixes()[1])); }
                    else if starts_with(c@, "0x0108"@) { assert(starts_with(c@, critical_prefixes()[2])); }
                    else if starts_with(c@, "0x0200"@) { assert(starts_with(c@, critical_prefixes()[3])); }
                    else { assert(starts_with(c@, critical_prefixes()[4])); }
                }
            }
            r
        },
        None => false,
    }
}

/// Class-code prefixes that must not share an IOMMU group with a GPU.
pub open spec fn isolation_breakers() -> Seq<Seq<char>> {
    seq!["0x0c03"@, "0x0106"@, "0x0108"@, "0x0200"@, "0x0601"@, "0x0604"@, "0x0c05"@, "0x0600"@]
}

pub open spec fn breaks_isolation(class: Seq<char>) -> bool {
    exists|k: int| 0 <= k < isolation_breakers().len() && starts_with(trim(class), isolation_breakers()[k])
}

/// The devices (address, class contents if read) whose class breaks isolation.
pub open spec fn suspicious_devices(devs: Seq<(String, Option<String>)>) -> Seq<Seq<char>>
    decreases devs.len(),
{
    if devs.len() == 0 {
        Seq::empty()
    } else {
        let rest = suspicious_devices(devs.drop_last());
        if devs.last().1 matches Some(c) && breaks_isolation(c@) {
            rest.push(devs.last().0@)
        } else {
            rest
        }
    }
}

pub open spec fn isolation_error(group: Seq<char>, sus: Seq<Seq<char>>) -> Seq<char> {
    "IOMMU group "@ + group + " contains critical devices: "@ + join(sus, ", "@)
        + ". IOMMU isolation may be broken. Consider enabling ACS override."@
}

fn breaks_isolation_exec(class: &str) -> (r: bool)
    ensures
        r == breaks_isolation(class@),
{
    let v = chars_of(class);
    let t = trim_exec(&v);
    let prefixes = vec![
        chars_of("0x0c03"), chars_of("0x0106"), chars_of("0x0108"), chars_of("0x0200"),
        chars_of("0x0601"), chars_of("0x0604"), chars_of("0x0c05"), chars_of("0x0600"),
    ];
    assert(views(prefixes@) =~= isolation_breakers());
    let mut k: usize = 0;
    while k < prefixes.len()
        invariant
            k <= prefixes.len(),
            views(prefixes@) == isolation_breakers(),
            t@ == trim(class@),
            forall|j: int| 0 <= j < k ==> !starts_with(t@, isolation_breakers()[j]),
        decreases prefixes.len() - k,
    {
        if starts_with_exec(&t, &prefixes[k]) {
            assert(starts_with(trim(class@), isolation_breakers()[k as int]));
            return true;
        }
        k = k + 1;
    }
    false
}

/// The isolation verdict for an IOMMU group from its devices (address,
/// class contents if read): `Ok` with no devices when none breaks
/// isolation, else the error naming those that do.
pub fn verify_iommu_group_isolation(iommu_group: &str, devices: &Vec<(String, Option<String>)>) -> (r: Result<Vec<String>, String>)
    ensures
        suspicious_devices(devices@).len() == 0 ==> (r matches Ok(v) && v@.len() == 0),
        suspicious_devices(devices@).len() > 0 ==> (r matches Err(e)
            && e@ == isolation_error(iommu_group@, suspicious_devices(devices@))),
{
    let mut sus: Vec<Vec<char>> = Vec::new();
    let mut i: usize = 0;
    assert(devices@.take(0) =~= Seq::<(String, Option<String>)>::empty());
    while i < devices.len()
        invariant
            i <= devices.len(),
            views(sus@) == suspicious_devices(devices@.take(i as int)),
        decreases devices.len() - i,
    {
        assert(devices@.take(i + 1).drop_last() =~= devices@.take(i as int));
        let (addr, class) = &devices[i];
        if let Some(c) = class {
            if breaks_isolation_exec(c.as_str()) {
                let a = chars_of(addr.as_str());
                proof { lemma_views_push(sus@, a); }
                sus.push(a);
            }
        }
        i = i + 1;
    }
    assert(devices@.take(devices.len() as int) =~= devices@);
    if sus.len() == 0 {
        Ok(Vec::new())
    } else {
        let mut e = chars_of("IOMMU group ");
        let g = chars_of(iommu_group);
        extend(&mut e, &g);
        let m = chars_of(" contains critical devices: ");
        extend(&mut e, &m);
        let sep = chars_of(", ");
        let j = join_exec(&sus, &sep);
        extend(&mut e, &j);
        let tail = chars_of(". IOMMU isolation may be broken. Consider enabling ACS override.");
        extend(&mut e, &tail);
        Err(string_of(&e))
    }
}

/// The members of an IOMMU group other than the device itself.
pub fn other_group_devices(members: &Vec<String>, pci_address: &str) -> (r: Vec<String>)
    ensures
        str_views(r@) == str_views(members@).filter(|m: Seq<char>| m != pci_address@),
{
    let mut out: Vec<String> = Vec::new();
    let mut i: usize = 0;
    assert(str_views(members@).take(0) =~= Seq::<Seq<char>>::empty());
    while i < members.len()
        invariant
            i <= members.len(),
            str_views(out@) == str_views(members@).take(i as int).filter(|m: Seq<char>| m != pci_address@),
        decreases members.len() - i,
    {
        assert(str_views(members@).take(i + 1).drop_last() =~= str_views(members@).take(i as int));
        reveal_with_fuel(Seq::filter, 1);
        if !same(members[i].as_str(), pci_address) {
            let m = members[i].clone();
            proof { crate::text::lemma_str_views_push(out@, m); }
            out.push(m);
        }
        i = i + 1;
    }
    assert(str_views(members@).take(members.len() as int) =~= str_views(members@));
    out
}

/// Directories a VBIOS image may be read from.
pub open spec fn vbios_dirs() -> Seq<Seq<char>> {
    seq!["/usr/share/vgabios/"@, "/usr/share/kvm/"@, "/var/lib/libvirt/vbios/"@]
}

/// Whether a canonical path lies under one of the VBIOS directories.
pub fn in_vbios_dir(canonical: &str) -> (r: bool)
    ensures
        r == exists|k: int| 0 <= k < vbios_dirs().len() && starts_with(canonical@, vbios_dirs()[k]),
{
    let v = chars_of(canonical);
    let r = starts_with_str(&v, "/usr/share/vgabios/") || starts_with_str(&v, "/usr/share/kvm/")
        || starts_with_str(&v, "/var/lib/libvirt/vbios/");
    proof {
        if r {
            if starts_with(canonical@, "/usr/share/vgabios/"@) { assert(starts_with(canonical@, vbios_dirs()[0])); }
            else if starts_with(canonical@, "/usr/share/kvm/"@) { assert(starts_with(canonical@, vbios_dirs()[1])); }
            else { assert(starts_with(canonical@, vbios_dirs()[2])); }
        }
    }
    r
}

/// The places where a dumped VBIOS image of a device may lie, from the
/// contents of its sysfs `vendor` and `device` files: each VBIOS directory
/// followed by `<vendor>_<device>.rom`, the ids without `0x`.
pub open spec fn vbios_candidates(vendor: Seq<char>, device: Seq<char>) -> Seq<Seq<char>> {
    let v = trim_start_matches(trim(vendor), "0x"@);
    let d = trim_start_matches(trim(device), "0x"@);
    vbios_dirs().map_values(|dir: Seq<char>| dir + v + "_"@ + d + ".rom"@)
}

/// The places where a dumped VBIOS image may lie (see `vbios_candidates`).
pub fn vbios_rom_candidates(vendor: &str, device: &str) -> (r: Vec<String>)
    ensures
        str_views(r@) == vbios_candidates(vendor@, device@),
{
    let zx = chars_of("0x");
    let v = trim_start_matches_exec(&trim_exec(&chars_of(vendor)), &zx);
    let d = trim_start_matches_exec(&trim_exec(&chars_of(device)), &zx);
    let dirs = vec!["/usr/share/vgabios/", "/usr/share/kvm/", "/var/lib/libvirt/vbios/"];
    let mut out: Vec<String> = Vec::new();
    let mut i: usize = 0;
    while i < dirs.len()
        invariant
            i <= dirs.len(),
            dirs@.len() == 3,
            dirs@[0]@ == "/usr/share/vgabios/"@,
            dirs@[1]@ == "/usr/share/kvm/"@,
            dirs@[2]@ == "/var/lib/libvirt/vbios/"@,
            v@ == trim_start_matches(trim(vendor@), "0x"@),
            d@ == trim_start_matches(trim(device@), "0x"@),
            str_views(out@) == vbios_candidates(vendor@, device@).take(i as int),
        decreases dirs.len() - i,
    {
        let mut p = chars_of(dirs[i]);
        crate::text::extend(&mut p, &v);
        crate::text::extend_str(&mut p, "_");
        crate::text::extend(&mut p, &d);
        crate::text::extend_str(&mut p, ".rom");
        let c = string_of(&p);
        proof { lemma_str_views_push(out@, c); }
        out.push(c);
        i = i + 1;
        assert(str_views(out@) =~= vbios_candidates(vendor@, device@).take(i as int));
    }
    assert(vbios_candidates(vendor@, device@).take(3) =~= vbios_candidates(vendor@, device@));
    out
}

/// The size check of a VBIOS image: 64 KiB to 1 MiB.
pub fn check_vbios_size(size: u64) -> (r: Result<(), String>)
    ensures
        (65536 <= size <= 1048576) ==> r is Ok,
        !(65536 <= size <= 1048576) ==> (r matches Err(e)
            && e@ == "VBIOS size suspicious: "@ + dec_str(size as nat) + " bytes (expected 64KB-1MB)"@),
{
    if size < 65536 || size > 1048576 {
        let mut e = chars_of("VBIOS size suspicious: ");
        let d = dec_str_exec(size);
        extend(&mut e, &d);
        let t = chars_of(" bytes (expected 64KB-1MB)");
        extend(&mut e, &t);
        Err(string_of(&e))
    } else {
        Ok(())
    }
}

/// A ROM header signature: `55 AA`, or `$VBIOS`, `$POST ` or `$POST\0`
/// at offset 2, or `PCIR` at offset 0.
pub open spec fn vbios_signature_ok(h: Seq<u8>) -> bool {
    ||| h[0] == 0x55u8 && h[1] == 0xAAu8
    ||| h.subrange(2, 8) == seq![0x24u8, 0x56u8, 0x42u8, 0x49u8, 0x4Fu8, 0x53u8]
    ||| h.subrange(2, 8) == seq![0x24u8, 0x50u8, 0x4Fu8, 0x53u8, 0x54u8, 0x20u8]
    ||| h.subrange(2, 8) == seq![0x24u8, 0x50u8, 0x4Fu8, 0x53u8, 0x54u8, 0x00u8]
    ||| h.subrange(0, 4) == seq![0x50u8, 0x43u8, 0x49u8, 0x52u8]
}

fn bytes_at(h: &[u8; 32], at: usize, want: &[u8]) -> (r: bool)
    requires
        at + want@.len() <= 32,
    ensures
        r == (h@.subrange(at as int, at + want@.len()) == want@),
{
    let mut i: usize = 0;
    while i < want.len()
        invariant
            i <= want@.len(),
            at + want@.len() <= 32,
            forall|j: int| 0 <= j < i ==> h@[at + j] == want@[j],
        decreases want@.len() - i,
    {
        if h[at + i] != want[i] {
            assert(h@.subrange(at as int, at + want@.len())[i as int] != want@[i as int]);
            return false;
        }
        i = i + 1;
    }
    assert(h@.subrange(at as int, at + want@.len()) =~= want@);
    true
}

/// The signature check of a VBIOS image's first 32 bytes.
pub fn check_vbios_header(header: &[u8; 32]) -> (r: Result<(), String>)
    ensures
        vbios_signature_ok(header@) ==> r is Ok,
        !vbios_signature_ok(header@) ==> (r matches Err(e) && e@ == "Invalid VBIOS header signature"@),
{
    let legacy = header[0] == 0x55u8 && header[1] == 0xAAu8;
    let vbios: [u8; 6] = [0x24u8, 0x56u8, 0x42u8, 0x49u8, 0x4Fu8, 0x53u8];
    let post: [u8; 6] = [0x24u8, 0x50u8, 0x4Fu8, 0x53u8, 0x54u8, 0x20u8];
    let post0: [u8; 6] = [0x24u8, 0x50u8, 0x4Fu8, 0x53u8, 0x54u8, 0x00u8];
    let pcir: [u8; 4] = [0x50u8, 0x43u8, 0x49u8, 0x52u8];
    let has_str = bytes_at(header, 2, vbios.as_slice()) || bytes_at(header, 2, post.as_slice())
        || bytes_at(header, 2, post0.as_slice());
    let has_pcir = bytes_at(header, 0, pcir.as_slice());
    assert(vbios@ =~= seq![0x24u8, 0x56u8, 0x42u8, 0x49u8, 0x4Fu8, 0x53u8]);
    assert(post@ =~= seq![0x24u8, 0x50u8, 0x4Fu8, 0x53u8, 0x54u8, 0x20u8]);
    assert(post0@ =~= seq![0x24u8, 0x50u8, 0x4Fu8, 0x53u8, 0x54u8, 0x00u8]);
    assert(pcir@ =~= seq![0x50u8, 0x43u8, 0x49u8, 0x52u8]);
    if !legacy && !has_str && !has_pcir {
        Err("Invalid VBIOS header signature".to_string())
    } else {
        Ok(())
    }
}

/// The required tools (`lspci`, `virsh`) that were not found, in that order.
pub fn check_dependencies(lspci_found: bool, virsh_found: bool) -> (r: Vec<String>)
    ensures
        str_views(r@) == (if lspci_found { Seq::empty() } else { seq!["lspci"@] })
            + (if virsh_found { Seq::empty() } else { seq!["virsh"@] }),
{
    let mut missing: Vec<String> = Vec::new();
    if !lspci_found {
        missing.push("lspci".to_string());
    }
    let ghost m1 = str_views(missing@);
    if !virsh_found {
        let v = "virsh".to_string();
        proof { crate::text::lemma_str_views_push(missing@, v); }
        missing.push(v);
    }
    assert(str_views(missing@) =~= (if lspci_found { Seq::empty() } else { seq!["lspci"@] })
            + (if virsh_found { Seq::empty() } else { seq!["virsh"@] }));
    missing
}


/// What `str::to_lowercase` returns for `s` (Unicode lower case).
pub uninterp spec fn lowercase(s: Seq<char>) -> Seq<char>;

/// `str::to_lowercase` from std: the Unicode lower-case form of `s`, a
/// function of `s` alone; its tables are not restated here.
#[verifier::external_body]
fn to_lowercase(s: &str) -> (r: String)
    ensures
        r@ == lowercase(s@),
{
    s.to_lowercase()
}

/// Whether a GPU is an NVIDIA one: its vendor or device name, in lower
/// case, or its driver mentions `nvidia`.
pub open spec fn nvidia_gpu(g: GpuDeviceView) -> bool {
    contains(lowercase(g.vendor_name), "nvidia"@) || contains(g.driver, "nvidia"@)
        || contains(lowercase(g.device_name), "nvidia"@)
}

/// Whether the lower-cased vendor name, the driver or the lower-cased
/// device name mention `nvidia`.
pub fn mentions_nvidia(vendor_lower: &str, driver: &str, device_lower: &str) -> (r: bool)
    ensures
        r == (contains(vendor_lower@, "nvidia"@) || contains(driver@, "nvidia"@)
            || contains(device_lower@, "nvidia"@)),
{
    let vv = chars_of(vendor_lower);
    let d = chars_of(driver);
    let nv = chars_of(device_lower);
    contains_str(&vv, "nvidia") || contains_str(&d, "nvidia") || contains_str(&nv, "nvidia")
}

/// Whether a GPU is an NVIDIA one (see `nvidia_gpu`).
pub fn is_nvidia(gpu: &GpuDevice) -> (r: bool)
    ensures
        r == nvidia_gpu(gpu@),
{
    let v = to_lowercase(gpu.vendor_name.as_str());
    let n = to_lowercase(gpu.device_name.as_str());
    mentions_nvidia(v.as_str(), gpu.driver.as_str(), n.as_str())
}

} // verus!
