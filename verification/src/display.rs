//! What the panels of the terminal UI show: text fitted into columns,
//! the status of each GPU, and the lines of each GPU and VM row.

use vstd::prelude::*;
use crate::config::AppConfig;
use crate::gpu::{gpu_views, GpuDevice, GpuDeviceView};
use crate::lang::{t, text_for, Lang};
use crate::text::{chars_of, extend_str, join, join_strings, lemma_str_views_push, same, starts_with, starts_with_str,
    str_views, string_of};
use crate::vm::{group_index, VmInfo, VmInfoView};

verus! {

/// The columns a character takes: one for ASCII, two for anything else
/// (CJK text is what the UI shows besides ASCII).
pub open spec fn char_width(c: char) -> int {
    if (c as u32) < 128 { 1 } else { 2 }
}

/// How many characters of `s`, from `i` on, fit into `budget` columns
/// when `width` are already taken: the count stops at the first that does
/// not fit.
pub open spec fn fit_from(s: Seq<char>, i: int, width: int, budget: int) -> int
    decreases s.len() - i,
{
    if i < 0 || i >= s.len() || width + char_width(s[i]) > budget {
        i
    } else {
        fit_from(s, i + 1, width + char_width(s[i]), budget)
    }
}

/// `s` cut to fit into `max_len` columns: where it does not fit, the
/// characters that fit into `max_len - 3` columns followed by `...`; just
/// `...` where `max_len` is 3 or less.
pub open spec fn truncated(s: Seq<char>, max_len: int) -> Seq<char> {
    if max_len <= 3 {
        "..."@
    } else {
        let k = fit_from(s, 0, 0, max_len - 3);
        if k < s.len() { s.take(k) + "..."@ } else { s }
    }
}

/// The columns that `s` takes.
pub open spec fn text_width(s: Seq<char>) -> int
    decreases s.len(),
{
    if s.len() == 0 { 0 } else { text_width(s.drop_last()) + char_width(s.last()) }
}

proof fn lemma_width_append(a: Seq<char>, b: Seq<char>)
    ensures
        text_width(a + b) == text_width(a) + text_width(b),
    decreases b.len(),
{
    if b.len() == 0 {
        assert(a + b =~= a);
    } else {
        lemma_width_append(a, b.drop_last());
        assert((a + b).drop_last() =~= a + b.drop_last());
    }
}

proof fn lemma_fit_from_width(s: Seq<char>, i: int, width: int, budget: int)
    requires
        0 <= i <= s.len(),
        width == text_width(s.take(i)),
        width <= budget,
    ensures
        i <= fit_from(s, i, width, budget) <= s.len(),
        text_width(s.take(fit_from(s, i, width, budget))) <= budget,
    decreases s.len() - i,
{
    if i < s.len() && width + char_width(s[i]) <= budget {
        assert(s.take(i + 1).drop_last() =~= s.take(i));
        lemma_fit_from_width(s, i + 1, width + char_width(s[i]), budget);
    }
}

/// What `truncate` gives back never takes more than `max_len` columns,
/// for any `max_len` of 3 or more.
pub proof fn lemma_truncated_fits(s: Seq<char>, max_len: int)
    requires
        max_len >= 3,
    ensures
        text_width(truncated(s, max_len)) <= max_len,
{
    reveal_strlit("...");
    let dots = "..."@;
    assert(text_width(dots) == 3) by {
        reveal_with_fuel(text_width, 4);
        assert(dots.len() == 3 && dots[0] == '.' && dots[1] == '.' && dots[2] == '.');
        assert(dots.drop_last().drop_last().drop_last() =~= Seq::<char>::empty());
        assert(dots.drop_last().last() == '.' && dots.drop_last().drop_last().last() == '.');
    }
    if max_len > 3 {
        assert(s.take(0) =~= Seq::<char>::empty());
        lemma_fit_from_width(s, 0, 0, max_len - 3);
        let k = fit_from(s, 0, 0, max_len - 3);
        if k < s.len() {
            lemma_width_append(s.take(k), dots);
        } else {
            assert(s.take(k) =~= s);
        }
    }
}

/// `s` cut to fit into `max_len` columns (see `truncated`).
pub fn truncate(s: &str, max_len: usize) -> (r: String)
    ensures
        r@ == truncated(s@, max_len as int),
{
    if max_len <= 3 {
        return "...".to_string();
    }
    let cs = chars_of(s);
    let budget: usize = max_len - 3;
    let mut width: usize = 0;
    let mut fit: usize = 0;
    while fit < cs.len()
        invariant
            fit <= cs.len(),
            cs@ == s@,
            budget == max_len - 3,
            width <= budget,
            fit_from(cs@, 0, 0, budget as int) == fit_from(cs@, fit as int, width as int, budget as int),
        ensures
            fit <= cs.len(),
            fit_from(cs@, 0, 0, budget as int) == fit as int,
        decreases cs.len() - fit,
    {
        let cw: usize = if (cs[fit] as u32) < 128 { 1 } else { 2 };
        if width + cw > budget {
            break;
        }
        width = width + cw;
        fit = fit + 1;
    }
    if fit < cs.len() {
        let mut out: Vec<char> = Vec::new();
        let mut i: usize = 0;
        while i < fit
            invariant
                i <= fit <= cs.len(),
                out@ == cs@.take(i as int),
            decreases fit - i,
        {
            out.push(cs[i]);
            i = i + 1;
            assert(out@ =~= cs@.take(i as int));
        }
        extend_str(&mut out, "...");
        string_of(&out)
    } else {
        string_of(&cs)
    }
}

// ---------------------------------------------------------------------
// Rows of the panels
// ---------------------------------------------------------------------

/// How a GPU stands for passthrough, as its row shows it.
#[derive(Debug, Clone, Copy, PartialEq, Eq, Structural)]
pub enum GpuStatus {
    /// Bound to vfio-pci.
    Bound,
    /// Can be passed through.
    Ready,
    /// Cannot be passed through.
    Blocked,
}

pub open spec fn status_of(g: GpuDeviceView) -> GpuStatus {
    if g.driver == "vfio-pci"@ {
        GpuStatus::Bound
    } else if g.can_passthrough {
        GpuStatus::Ready
    } else {
        GpuStatus::Blocked
    }
}

/// How a GPU stands for passthrough (see `status_of`).
pub fn gpu_status(gpu: &GpuDevice) -> (r: GpuStatus)
    ensures
        r == status_of(gpu@),
{
    if same(gpu.driver.as_str(), "vfio-pci") {
        GpuStatus::Bound
    } else if gpu.can_passthrough {
        GpuStatus::Ready
    } else {
        GpuStatus::Blocked
    }
}

/// The first line of a GPU's row: its name, with the boot mark on the boot
/// GPU, fitted into 22 columns.
pub open spec fn gpu_title_text(lang: Lang, g: GpuDeviceView) -> Seq<char> {
    truncated(g.device_name + (if g.is_boot_gpu { text_for(lang, "gpu.boot"@) } else { Seq::empty() }), 22)
}

/// The first line of a GPU's row (see `gpu_title_text`).
pub fn gpu_title(lang: Lang, gpu: &GpuDevice) -> (r: String)
    ensures
        r@ == gpu_title_text(lang, gpu@),
{
    let mut name = chars_of(gpu.device_name.as_str());
    if gpu.is_boot_gpu {
        extend_str(&mut name, t(lang, "gpu.boot").as_str());
    } else {
        assert(name@ + Seq::<char>::empty() =~= name@);
    }
    truncate(string_of(&name).as_str(), 22)
}

/// The second line of a GPU's row: its driver (or that it has none) and
/// its IOMMU group.
pub open spec fn gpu_detail_text(lang: Lang, g: GpuDeviceView) -> Seq<char> {
    text_for(lang, "status.driver"@) + ": "@
        + (if g.driver.len() == 0 { text_for(lang, "gpu.no_driver"@) } else { g.driver })
        + " | "@ + text_for(lang, "status.iommu_group"@) + ": "@ + g.iommu_group
}

/// The second line of a GPU's row (see `gpu_detail_text`).
pub fn gpu_detail(lang: Lang, gpu: &GpuDevice) -> (r: String)
    ensures
        r@ == gpu_detail_text(lang, gpu@),
{
    let mut v = chars_of(t(lang, "status.driver").as_str());
    extend_str(&mut v, ": ");
    let drv = chars_of(gpu.driver.as_str());
    if drv.len() == 0 {
        extend_str(&mut v, t(lang, "gpu.no_driver").as_str());
    } else {
        extend_str(&mut v, gpu.driver.as_str());
    }
    extend_str(&mut v, " | ");
    extend_str(&mut v, t(lang, "status.iommu_group").as_str());
    extend_str(&mut v, ": ");
    extend_str(&mut v, gpu.iommu_group.as_str());
    string_of(&v)
}

/// The names of the known GPUs among `addrs`, in order.
pub open spec fn names_at(addrs: Seq<Seq<char>>, gpus: Seq<GpuDeviceView>) -> Seq<Seq<char>>
    decreases addrs.len(),
{
    if addrs.len() == 0 {
        Seq::empty()
    } else {
        let rest = names_at(addrs.drop_last(), gpus);
        match first_gpu_at(gpus, addrs.last()) {
            Some(g) => rest.push(g.device_name),
            None => rest,
        }
    }
}

/// The first GPU at `pci`.
pub open spec fn first_gpu_at(gpus: Seq<GpuDeviceView>, pci: Seq<char>) -> Option<GpuDeviceView>
    decreases gpus.len(),
{
    if gpus.len() == 0 {
        None
    } else {
        match first_gpu_at(gpus.drop_last(), pci) {
            Some(g) => Some(g),
            None => if gpus.last().pci_address == pci { Some(gpus.last()) } else { None },
        }
    }
}

/// The addresses a VM's row names: those the configuration assigns to the
/// VM where it has an entry, else those its definition passes through.
pub open spec fn vm_addresses(assignments: Seq<(Seq<char>, Seq<Seq<char>>)>, vm: VmInfoView) -> Seq<Seq<char>> {
    match crate::vm::key_index(assignments, vm.name) {
        Some(i) => assignments[i].1,
        None => vm.assigned_gpus,
    }
}

/// The second line of a VM's row: the names of its known GPUs, or that it
/// has none.
pub open spec fn vm_gpu_text(lang: Lang, assignments: Seq<(Seq<char>, Seq<Seq<char>>)>, vm: VmInfoView, gpus: Seq<GpuDeviceView>) -> Seq<char> {
    let names = names_at(vm_addresses(assignments, vm), gpus);
    if names.len() == 0 {
        text_for(lang, "vm.no_gpu"@)
    } else {
        text_for(lang, "vm.gpu_label"@) + join(names, ", "@)
    }
}

fn first_gpu_name(gpus: &Vec<GpuDevice>, pci: &String) -> (r: Option<String>)
    ensures
        (match r { Some(n) => Some(n@), None => None::<Seq<char>> })
            == (match first_gpu_at(gpu_views(gpus@), pci@) { Some(g) => Some(g.device_name), None => None }),
{
    let mut i: usize = 0;
    assert(gpu_views(gpus@).take(0) =~= Seq::<GpuDeviceView>::empty());
    while i < gpus.len()
        invariant
            i <= gpus.len(),
            first_gpu_at(gpu_views(gpus@).take(i as int), pci@) is None,
        decreases gpus.len() - i,
    {
        assert(gpu_views(gpus@).take(i + 1).drop_last() =~= gpu_views(gpus@).take(i as int));
        assert(gpu_views(gpus@).take(i + 1).last() == gpus@[i as int]@);
        if gpus[i].pci_address == *pci {
            proof { lemma_first_gpu_at_prefix(gpu_views(gpus@), pci@, i as int + 1); }
            return Some(gpus[i].device_name.clone());
        }
        i = i + 1;
    }
    assert(gpu_views(gpus@).take(gpus.len() as int) =~= gpu_views(gpus@));
    None
}

/// Once a prefix has a GPU at `pci`, the whole list has the same first one.
proof fn lemma_first_gpu_at_prefix(gpus: Seq<GpuDeviceView>, pci: Seq<char>, n: int)
    requires
        0 <= n <= gpus.len(),
        first_gpu_at(gpus.take(n), pci) is Some,
    ensures
        first_gpu_at(gpus, pci) == first_gpu_at(gpus.take(n), pci),
    decreases gpus.len() - n,
{
    if n < gpus.len() {
        assert(gpus.take(n + 1).drop_last() =~= gpus.take(n));
        lemma_first_gpu_at_prefix(gpus, pci, n + 1);
    } else {
        assert(gpus.take(n) =~= gpus);
    }
}

/// The second line of a VM's row (see `vm_gpu_text`).
pub fn vm_gpu_info(lang: Lang, config: &AppConfig, vm: &VmInfo, gpus: &Vec<GpuDevice>) -> (r: String)
    ensures
        r@ == vm_gpu_text(lang, config.assignments(), vm@, gpu_views(gpus@)),
{
    proof { crate::vm::lemma_key_index(config.assignments(), vm.name@); }
    let addrs: &Vec<String> = match group_index(&config.vm_gpu_assignments, vm.name.as_str()) {
        Some(i) => &config.vm_gpu_assignments[i].1,
        None => &vm.assigned_gpus,
    };
    assert(str_views(addrs@) == vm_addresses(config.assignments(), vm@));
    let mut names: Vec<String> = Vec::new();
    let mut k: usize = 0;
    assert(str_views(addrs@).take(0) =~= Seq::<Seq<char>>::empty());
    assert(str_views(names@) =~= Seq::<Seq<char>>::empty());
    while k < addrs.len()
        invariant
            k <= addrs.len(),
            str_views(names@) == names_at(str_views(addrs@).take(k as int), gpu_views(gpus@)),
        decreases addrs.len() - k,
    {
        assert(str_views(addrs@).take(k + 1).drop_last() =~= str_views(addrs@).take(k as int));
        assert(str_views(addrs@).take(k + 1).last() == addrs@[k as int]@);
        match first_gpu_name(gpus, &addrs[k]) {
            Some(n) => {
                proof { lemma_str_views_push(names@, n); }
                names.push(n);
            },
            None => {},
        }
        k = k + 1;
    }
    assert(str_views(addrs@).take(addrs.len() as int) =~= str_views(addrs@));
    if names.len() == 0 {
        t(lang, "vm.no_gpu")
    } else {
        let mut v = chars_of(t(lang, "vm.gpu_label").as_str());
        extend_str(&mut v, join_strings(&names, ", ").as_str());
        string_of(&v)
    }
}

/// The row of a GPU in the assignment list: name, address and verdict.
pub open spec fn assign_row_text(g: GpuDeviceView) -> Seq<char> {
    g.device_name + " ["@ + g.pci_address + "] - "@ + g.passthrough_reason
}

/// The row of a GPU in the assignment list (see `assign_row_text`).
pub fn assign_row(gpu: &GpuDevice) -> (r: String)
    ensures
        r@ == assign_row_text(gpu@),
{
    let mut v = chars_of(gpu.device_name.as_str());
    extend_str(&mut v, " [");
    extend_str(&mut v, gpu.pci_address.as_str());
    extend_str(&mut v, "] - ");
    extend_str(&mut v, gpu.passthrough_reason.as_str());
    string_of(&v)
}

/// How a line of a message is coloured, by its tag.
#[derive(Debug, Clone, Copy, PartialEq, Eq, Structural)]
pub enum LineKind {
    Error,
    Warning,
    Reboot,
    Success,
    Plain,
}

pub open spec fn line_kind_of(l: Seq<char>) -> LineKind {
    if starts_with(l, "[错误]"@) || starts_with(l, "[ERR]"@) {
        LineKind::Error
    } else if starts_with(l, "[警告]"@) || starts_with(l, "[WARN]"@) {
        LineKind::Warning
    } else if starts_with(l, "[需重启]"@) || starts_with(l, "[REBOOT]"@) {
        LineKind::Reboot
    } else if starts_with(l, "[成功]"@) || starts_with(l, "[OK]"@) {
        LineKind::Success
    } else {
        LineKind::Plain
    }
}

/// How a line of a message is coloured (see `line_kind_of`).
pub fn line_kind(line: &str) -> (r: LineKind)
    ensures
        r == line_kind_of(line@),
{
    let v = chars_of(line);
    if starts_with_str(&v, "[错误]") || starts_with_str(&v, "[ERR]") {
        LineKind::Error
    } else if starts_with_str(&v, "[警告]") || starts_with_str(&v, "[WARN]") {
        LineKind::Warning
    } else if starts_with_str(&v, "[需重启]") || starts_with_str(&v, "[REBOOT]") {
        LineKind::Reboot
    } else if starts_with_str(&v, "[成功]") || starts_with_str(&v, "[OK]") {
        LineKind::Success
    } else {
        LineKind::Plain
    }
}

} // verus!
