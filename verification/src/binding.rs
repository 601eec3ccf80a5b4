//! Binding a GPU (with its IOMMU group) to vfio-pci at run time, handing
//! it back to its driver, writing the boot-time VFIO configuration and
//! choosing the initramfs tool. Each is a state machine: a step takes what
//! the last outside operation (sysfs, `/proc`, `modprobe`, a file write)
//! reported and names the next one.

use vstd::prelude::*;
use crate::gpu::{critical_prefixes, gpu_views, is_critical_device, isolation_error, suspicious_devices,
    breaks_isolation, isolation_breakers,
    verify_iommu_group_isolation, GpuDevice, GpuDeviceView};
use crate::passthrough::{generate_vfio_conf, vfio_conf, PassthroughResult, PassthroughView};
use crate::text::{chars_of, contains, extend_str, join, lemma_contains_within, lemma_join_contains, join_strings, lemma_rfind_bound, lemma_str_views_push, parse_uint,
    parse_uint_exec, rfind, rfind_exec, same, slice, starts_with, starts_with_exec, str_views, string_of, trim,
    trim_exec};
use crate::vm::copy_strings;

verus! {

/// How an outside command went.
pub enum CmdOutcome {
    /// It could not be started; the reason.
    NotRun(String),
    /// It ran: whether it exited with success, and what it wrote to stderr.
    Exited { success: bool, stderr: String },
}

pub enum CmdView {
    NotRun(Seq<char>),
    Exited { success: bool, stderr: Seq<char> },
}

impl View for CmdOutcome {
    type V = CmdView;

    open spec fn view(&self) -> CmdView {
        match self {
            CmdOutcome::NotRun(e) => CmdView::NotRun(e@),
            CmdOutcome::Exited { success, stderr } => CmdView::Exited { success: *success, stderr: stderr@ },
        }
    }
}

pub open spec fn unit_result_view(r: Result<(), String>) -> Result<(), Seq<char>> {
    match r {
        Ok(()) => Ok(()),
        Err(e) => Err(e@),
    }
}

pub open spec fn str_result_view(r: Result<String, String>) -> Result<Seq<char>, Seq<char>> {
    match r {
        Ok(s) => Ok(s@),
        Err(e) => Err(e@),
    }
}

pub open spec fn pt_result_view(r: Result<PassthroughResult, String>) -> Result<PassthroughView, Seq<char>> {
    match r {
        Ok(p) => Ok(p@),
        Err(e) => Err(e@),
    }
}

// ---------------------------------------------------------------------
// Binding to vfio-pci
// ---------------------------------------------------------------------

/// Where a bind stands.
pub enum BindPhase {
    /// Waiting for whether the boot GPU drives a connected display.
    AwaitDisplay,
    /// Waiting for whether a host process uses the GPU.
    AwaitInUse,
    /// Waiting for whether the vfio-pci module is loaded.
    AwaitVfioLoaded,
    /// Waiting for `modprobe vfio-pci`.
    AwaitModprobe,
    /// Waiting for the devices of the GPU's IOMMU group, with their classes.
    AwaitIsolation,
    /// Waiting for the other members of the GPU's IOMMU group, with their classes.
    AwaitMembers,
    /// Waiting for the vendor and device ids of the current device.
    AwaitIds,
    /// Waiting for the current device to leave its driver.
    AwaitUnbind,
    /// Waiting for the reset of the current device.
    AwaitReset,
    /// Waiting for vfio-pci to take the current device's ids.
    AwaitNewId,
    /// Done, with the outcome.
    Finished(Result<PassthroughResult, String>),
}

/// What the outside world reports to a bind.
pub enum BindEvent {
    DisplayActive(bool),
    InUse(bool),
    VfioLoaded(bool),
    Modprobe(CmdOutcome),
    /// The devices of the IOMMU group (address, class file contents where
    /// readable), or why the group could not be read.
    GroupListing(Result<Vec<(String, Option<String>)>, String>),
    /// The other members of the GPU's IOMMU group (address, class code
    /// where readable).
    Members(Vec<(String, Option<String>)>),
    /// The vendor and device id files of the current device, or why each
    /// could not be read.
    Ids { vendor: Result<String, String>, device: Result<String, String> },
    Unbound(Result<(), String>),
    Reset(Result<(), String>),
    IdAdded(Result<(), String>),
}

/// What a bind asks the outside world to do next.
pub enum BindAction {
    /// Report whether the GPU drives a connected display (`DisplayActive`).
    QueryDisplay { pci_address: String },
    /// Report whether a host process uses the GPU (`InUse`).
    QueryInUse { pci_address: String },
    /// Report whether vfio-pci is loaded (`VfioLoaded`).
    QueryVfioLoaded,
    /// Run `modprobe vfio-pci` (`Modprobe`).
    LoadVfio,
    /// List the devices of IOMMU group `group` (`GroupListing`).
    ListGroup { group: String },
    /// List the other members of the device's IOMMU group (`Members`).
    QueryMembers { pci_address: String },
    /// Read the device's vendor and device ids (`Ids`).
    ReadIds { pci_address: String },
    /// Unbind the device from its driver, where it has one (`Unbound`).
    Unbind { pci_address: String },
    /// Reset the device (`Reset`).
    Reset { pci_address: String },
    /// Hand `new_id` to vfio-pci (`IdAdded`).
    AddId { new_id: String },
    /// The bind is over.
    Done(Result<PassthroughResult, String>),
}

/// Binding a GPU and its IOMMU group to vfio-pci.
pub struct BindJob {
    pub gpu: GpuDevice,
    pub devices: Vec<String>,
    pub next: usize,
    pub new_id: String,
    pub phase: BindPhase,
}

pub enum BindPhaseView {
    AwaitDisplay,
    AwaitInUse,
    AwaitVfioLoaded,
    AwaitModprobe,
    AwaitIsolation,
    AwaitMembers,
    AwaitIds,
    AwaitUnbind,
    AwaitReset,
    AwaitNewId,
    Finished(Result<PassthroughView, Seq<char>>),
}

pub enum BindEventView {
    DisplayActive(bool),
    InUse(bool),
    VfioLoaded(bool),
    Modprobe(CmdView),
    GroupListing(Result<Seq<(String, Option<String>)>, Seq<char>>),
    Members(Seq<(String, Option<String>)>),
    Ids { vendor: Result<Seq<char>, Seq<char>>, device: Result<Seq<char>, Seq<char>> },
    Unbound(Result<(), Seq<char>>),
    Reset(Result<(), Seq<char>>),
    IdAdded(Result<(), Seq<char>>),
}

pub enum BindActionView {
    QueryDisplay { pci_address: Seq<char> },
    QueryInUse { pci_address: Seq<char> },
    QueryVfioLoaded,
    LoadVfio,
    ListGroup { group: Seq<char> },
    QueryMembers { pci_address: Seq<char> },
    ReadIds { pci_address: Seq<char> },
    Unbind { pci_address: Seq<char> },
    Reset { pci_address: Seq<char> },
    AddId { new_id: Seq<char> },
    Done(Result<PassthroughView, Seq<char>>),
}

pub struct BindView {
    pub gpu: GpuDeviceView,
    pub devices: Seq<Seq<char>>,
    pub next: int,
    pub new_id: Seq<char>,
    pub phase: BindPhaseView,
}

impl View for BindPhase {
    type V = BindPhaseView;

    open spec fn view(&self) -> BindPhaseView {
        match self {
            BindPhase::AwaitDisplay => BindPhaseView::AwaitDisplay,
            BindPhase::AwaitInUse => BindPhaseView::AwaitInUse,
            BindPhase::AwaitVfioLoaded => BindPhaseView::AwaitVfioLoaded,
            BindPhase::AwaitModprobe => BindPhaseView::AwaitModprobe,
            BindPhase::AwaitIsolation => BindPhaseView::AwaitIsolation,
            BindPhase::AwaitMembers => BindPhaseView::AwaitMembers,
            BindPhase::AwaitIds => BindPhaseView::AwaitIds,
            BindPhase::AwaitUnbind => BindPhaseView::AwaitUnbind,
            BindPhase::AwaitReset => BindPhaseView::AwaitReset,
            BindPhase::AwaitNewId => BindPhaseView::AwaitNewId,
            BindPhase::Finished(r) => BindPhaseView::Finished(pt_result_view(*r)),
        }
    }
}

impl View for BindEvent {
    type V = BindEventView;

    open spec fn view(&self) -> BindEventView {
        match self {
            BindEvent::DisplayActive(b) => BindEventView::DisplayActive(*b),
            BindEvent::InUse(b) => BindEventView::InUse(*b),
            BindEvent::VfioLoaded(b) => BindEventView::VfioLoaded(*b),
            BindEvent::Modprobe(o) => BindEventView::Modprobe(o@),
            BindEvent::GroupListing(r) => BindEventView::GroupListing(match r {
                Ok(v) => Ok(v@),
                Err(e) => Err(e@),
            }),
            BindEvent::Members(v) => BindEventView::Members(v@),
            BindEvent::Ids { vendor, device } => BindEventView::Ids {
                vendor: str_result_view(*vendor),
                device: str_result_view(*device),
            },
            BindEvent::Unbound(r) => BindEventView::Unbound(unit_result_view(*r)),
            BindEvent::Reset(r) => BindEventView::Reset(unit_result_view(*r)),
            BindEvent::IdAdded(r) => BindEventView::IdAdded(unit_result_view(*r)),
        }
    }
}

impl View for BindAction {
    type V = BindActionView;

    open spec fn view(&self) -> BindActionView {
        match self {
            BindAction::QueryDisplay { pci_address } => BindActionView::QueryDisplay { pci_address: pci_address@ },
            BindAction::QueryInUse { pci_address } => BindActionView::QueryInUse { pci_address: pci_address@ },
            BindAction::QueryVfioLoaded => BindActionView::QueryVfioLoaded,
            BindAction::LoadVfio => BindActionView::LoadVfio,
            BindAction::ListGroup { group } => BindActionView::ListGroup { group: group@ },
            BindAction::QueryMembers { pci_address } => BindActionView::QueryMembers { pci_address: pci_address@ },
            BindAction::ReadIds { pci_address } => BindActionView::ReadIds { pci_address: pci_address@ },
            BindAction::Unbind { pci_address } => BindActionView::Unbind { pci_address: pci_address@ },
            BindAction::Reset { pci_address } => BindActionView::Reset { pci_address: pci_address@ },
            BindAction::AddId { new_id } => BindActionView::AddId { new_id: new_id@ },
            BindAction::Done(r) => BindActionView::Done(pt_result_view(*r)),
        }
    }
}

impl View for BindJob {
    type V = BindView;

    open spec fn view(&self) -> BindView {
        BindView {
            gpu: self.gpu@,
            devices: str_views(self.devices@),
            next: self.next as int,
            new_id: self.new_id@,
            phase: self.phase@,
        }
    }
}

pub open spec fn boot_display_error() -> Seq<char> {
    "This is the active boot GPU with a connected display. Unbinding it now will blackscreen the host. Please use 'Apply Config' to set up vfio-pci at boot time instead, then reboot."@
}

pub open spec fn in_use_error(pci: Seq<char>) -> Seq<char> {
    "GPU "@ + pci + " appears to be in use by a host process. Close all applications using the GPU before binding to vfio-pci."@
}

pub open spec fn isolation_failed(e: Seq<char>) -> Seq<char> {
    "IOMMU group isolation check failed: "@ + e
        + ". This indicates your motherboard's IOMMU implementation may not properly isolate this GPU. Consider enabling ACS override in kernel parameters."@
}

pub open spec fn critical_error(devs: Seq<Seq<char>>) -> Seq<char> {
    "Critical system devices found in IOMMU group: "@ + join(devs, ", "@)
        + ". Binding these to vfio-pci may make the host unusable. Consider using ACS override or a different GPU."@
}

/// Whether a class code (`None` where unreadable) marks a device that must
/// not be bound to vfio-pci.
pub open spec fn critical_class(c: Option<String>) -> bool {
    c matches Some(s) && exists|k: int| 0 <= k < critical_prefixes().len() && starts_with(s@, critical_prefixes()[k])
}

/// The addresses of the critical devices among `ms`.
pub open spec fn critical_members(ms: Seq<(String, Option<String>)>) -> Seq<Seq<char>>
    decreases ms.len(),
{
    if ms.len() == 0 {
        Seq::empty()
    } else {
        let rest = critical_members(ms.drop_last());
        if critical_class(ms.last().1) { rest.push(ms.last().0@) } else { rest }
    }
}

/// The addresses of `ms`.
pub open spec fn member_addresses(ms: Seq<(String, Option<String>)>) -> Seq<Seq<char>> {
    ms.map_values(|m: (String, Option<String>)| m.0@)
}

pub open spec fn bind_with(j: BindView, p: BindPhaseView) -> BindView {
    BindView { phase: p, ..j }
}

/// The operation that a bind in `j` waits for.
pub open spec fn bind_pending(j: BindView) -> BindActionView {
    match j.phase {
        BindPhaseView::AwaitDisplay => BindActionView::QueryDisplay { pci_address: j.gpu.pci_address },
        BindPhaseView::AwaitInUse => BindActionView::QueryInUse { pci_address: j.gpu.pci_address },
        BindPhaseView::AwaitVfioLoaded => BindActionView::QueryVfioLoaded,
        BindPhaseView::AwaitModprobe => BindActionView::LoadVfio,
        BindPhaseView::AwaitIsolation => BindActionView::ListGroup { group: j.gpu.iommu_group },
        BindPhaseView::AwaitMembers => BindActionView::QueryMembers { pci_address: j.gpu.pci_address },
        BindPhaseView::AwaitIds => BindActionView::ReadIds { pci_address: j.devices[j.next] },
        BindPhaseView::AwaitUnbind => BindActionView::Unbind { pci_address: j.devices[j.next] },
        BindPhaseView::AwaitReset => BindActionView::Reset { pci_address: j.devices[j.next] },
        BindPhaseView::AwaitNewId => BindActionView::AddId { new_id: j.new_id },
        BindPhaseView::Finished(r) => BindActionView::Done(r),
    }
}

pub open spec fn bind_go(j: BindView, p: BindPhaseView) -> (BindView, BindActionView) {
    (bind_with(j, p), bind_pending(bind_with(j, p)))
}

pub open spec fn bind_finish(j: BindView, r: Result<PassthroughView, Seq<char>>) -> (BindView, BindActionView) {
    bind_go(j, BindPhaseView::Finished(r))
}

/// A bind of `gpu` that has not asked anything yet: one already on
/// vfio-pci is done at once; a boot GPU is first checked for a connected
/// display; any other for host processes using it.
pub open spec fn bind_start(gpu: GpuDeviceView) -> BindView {
    let j = BindView { gpu, devices: Seq::empty(), next: 0, new_id: Seq::empty(), phase: BindPhaseView::AwaitInUse };
    if gpu.driver == "vfio-pci"@ {
        bind_with(j, BindPhaseView::Finished(Ok(PassthroughView::Success("GPU already bound to vfio-pci"@))))
    } else if gpu.is_boot_gpu {
        bind_with(j, BindPhaseView::AwaitDisplay)
    } else {
        j
    }
}

/// Once vfio-pci is loaded: the isolation check where the GPU has an IOMMU
/// group, then the members of the group.
pub open spec fn bind_after_vfio(j: BindView) -> (BindView, BindActionView) {
    if j.gpu.iommu_group.len() > 0 {
        bind_go(j, BindPhaseView::AwaitIsolation)
    } else {
        bind_go(j, BindPhaseView::AwaitMembers)
    }
}

/// One step of a bind. An event that it does not wait for changes nothing
/// and repeats the request.
pub open spec fn bind_step(j: BindView, e: BindEventView) -> (BindView, BindActionView) {
    match (j.phase, e) {
        (BindPhaseView::AwaitDisplay, BindEventView::DisplayActive(active)) => if active {
            bind_finish(j, Err(boot_display_error()))
        } else {
            bind_go(j, BindPhaseView::AwaitInUse)
        },
        (BindPhaseView::AwaitInUse, BindEventView::InUse(used)) => if used {
            bind_finish(j, Err(in_use_error(j.gpu.pci_address)))
        } else {
            bind_go(j, BindPhaseView::AwaitVfioLoaded)
        },
        (BindPhaseView::AwaitVfioLoaded, BindEventView::VfioLoaded(loaded)) => if loaded {
            bind_after_vfio(j)
        } else {
            bind_go(j, BindPhaseView::AwaitModprobe)
        },
        (BindPhaseView::AwaitModprobe, BindEventView::Modprobe(o)) => match o {
            CmdView::NotRun(e) => bind_finish(j, Err("Failed to load vfio-pci: "@ + e)),
            CmdView::Exited { success, stderr } => if success {
                bind_after_vfio(j)
            } else {
                bind_finish(j, Err("Failed to load vfio-pci module: "@ + stderr))
            },
        },
        (BindPhaseView::AwaitIsolation, BindEventView::GroupListing(r)) => match r {
            Err(e) => bind_finish(j, Err(isolation_failed("Cannot read IOMMU group devices: "@ + e))),
            Ok(devs) => if suspicious_devices(devs).len() > 0 {
                bind_finish(j, Err(isolation_failed(isolation_error(j.gpu.iommu_group, suspicious_devices(devs)))))
            } else {
                bind_go(j, BindPhaseView::AwaitMembers)
            },
        },
        (BindPhaseView::AwaitMembers, BindEventView::Members(ms)) => if critical_members(ms).len() > 0 {
            bind_finish(j, Err(critical_error(critical_members(ms))))
        } else {
            bind_go(BindView { devices: seq![j.gpu.pci_address] + member_addresses(ms), next: 0, ..j },
                BindPhaseView::AwaitIds)
        },
        (BindPhaseView::AwaitIds, BindEventView::Ids { vendor, device }) => match (vendor, device) {
            (Err(e), _) => bind_finish(j, Err("Failed to read vendor ID: "@ + e)),
            (Ok(_), Err(e)) => bind_finish(j, Err("Failed to read device ID: "@ + e)),
            (Ok(v), Ok(d)) => bind_go(BindView { new_id: trim(v) + " "@ + trim(d), ..j }, BindPhaseView::AwaitUnbind),
        },
        (BindPhaseView::AwaitUnbind, BindEventView::Unbound(r)) => match r {
            Err(e) => bind_finish(j, Err("Failed to unbind "@ + j.devices[j.next] + ": "@ + e)),
            Ok(()) => bind_go(j, BindPhaseView::AwaitReset),
        },
        (BindPhaseView::AwaitReset, BindEventView::Reset(_)) => bind_go(j, BindPhaseView::AwaitNewId),
        (BindPhaseView::AwaitNewId, BindEventView::IdAdded(r)) => match r {
            Err(e) => bind_finish(j, Err("Failed to add "@ + j.new_id + " to vfio-pci: "@ + e)),
            Ok(()) => if j.next + 1 < j.devices.len() {
                bind_go(BindView { next: j.next + 1, ..j }, BindPhaseView::AwaitIds)
            } else {
                bind_finish(BindView { next: j.next + 1, ..j },
                    Ok(PassthroughView::Success("GPU "@ + j.gpu.pci_address + " bound to vfio-pci successfully"@)))
            },
        },
        _ => (j, bind_pending(j)),
    }
}

/// A bind is well formed when its current device exists while it works on
/// one, and its devices start with the GPU itself.
pub open spec fn bind_wf(j: BindView) -> bool {
    &&& (j.phase is AwaitIds || j.phase is AwaitUnbind || j.phase is AwaitReset || j.phase is AwaitNewId)
        ==> 0 <= j.next < j.devices.len()
    &&& j.devices.len() > 0 ==> j.devices[0] == j.gpu.pci_address
}

/// A bind of a GPU already bound to vfio-pci asks for nothing and succeeds.
pub proof fn lemma_bind_already_bound(gpu: GpuDeviceView)
    requires
        gpu.driver == "vfio-pci"@,
    ensures
        bind_start(gpu).phase == BindPhaseView::Finished(Ok(PassthroughView::Success("GPU already bound to vfio-pci"@))),
{
}

/// The bind after a run of events, one step each.
pub open spec fn bind_run(j: BindView, es: Seq<BindEventView>) -> BindView
    decreases es.len(),
{
    if es.len() == 0 {
        j
    } else {
        bind_step(bind_run(j, es.drop_last()), es.last()).0
    }
}

/// A finished bind stays as it is whatever it is told, and asks for
/// nothing: it only reports its outcome again.
pub proof fn lemma_finished_bind_stays(j: BindView, e: BindEventView)
    requires
        j.phase is Finished,
    ensures
        bind_step(j, e) == (j, BindActionView::Done(j.phase->Finished_0)),
{
}

/// A finished bind stays as it is through any run of events.
pub proof fn lemma_finished_bind_run(j: BindView, es: Seq<BindEventView>)
    requires
        j.phase is Finished,
    ensures
        bind_run(j, es) == j,
    decreases es.len(),
{
    if es.len() > 0 {
        lemma_finished_bind_run(j, es.drop_last());
        lemma_finished_bind_stays(j, es.last());
    }
}

/// A group listing with a device whose class breaks isolation names at
/// least one suspicious device.
proof fn lemma_suspicious_found(devs: Seq<(String, Option<String>)>, k: int)
    requires
        0 <= k < devs.len(),
        devs[k].1 matches Some(c) && breaks_isolation(c@),
    ensures
        exists|m: int| 0 <= m < suspicious_devices(devs).len() && #[trigger] suspicious_devices(devs)[m] == devs[k].0@,
    decreases devs.len(),
{
    let sus = suspicious_devices(devs);
    if k < devs.len() - 1 {
        assert(devs.drop_last()[k] == devs[k]);
        lemma_suspicious_found(devs.drop_last(), k);
        let rest = suspicious_devices(devs.drop_last());
        let m = choose|m: int| 0 <= m < rest.len() && #[trigger] rest[m] == devs[k].0@;
        assert(sus[m] == devs[k].0@);
    } else {
        assert(sus[sus.len() - 1] == devs[k].0@);
    }
}

/// Once vfio-pci is loaded, whether it already was or `modprobe` loaded
/// it, a bind of a GPU that has an IOMMU group checks the isolation of that
/// group next: it asks for the group's devices before anything else.
pub proof fn lemma_bind_checks_group_after_vfio(j: BindView, e: BindEventView)
    requires
        j.gpu.iommu_group.len() > 0,
        (j.phase == BindPhaseView::AwaitVfioLoaded && e == BindEventView::VfioLoaded(true))
            || (j.phase == BindPhaseView::AwaitModprobe && (e matches BindEventView::Modprobe(CmdView::Exited { success, .. }) && success)),
    ensures
        bind_step(j, e).0.phase == BindPhaseView::AwaitIsolation,
        bind_step(j, e).1 == (BindActionView::ListGroup { group: j.gpu.iommu_group }),
{
}

/// A bind told, while it checks the isolation of the GPU's IOMMU group,
/// that the group holds a device whose class (trimmed) starts with that of
/// a USB (`0x0c03`), SATA (`0x0106`), NVMe (`0x0108`) or network (`0x0200`)
/// controller, an ISA (`0x0601`), PCI (`0x0604`) or host (`0x0600`) bridge,
/// or an SMBus controller (`0x0c05`), is refused: it finishes with an
/// error that names that device, and whatever it is told afterwards it
/// stays so and never asks to take a device from its driver or to hand ids
/// to vfio-pci.
pub proof fn lemma_bind_refuses_shared_group(
    j: BindView,
    devs: Seq<(String, Option<String>)>,
    k: int,
    later: Seq<BindEventView>,
)
    requires
        j.phase == BindPhaseView::AwaitIsolation,
        0 <= k < devs.len(),
        devs[k].1 matches Some(c) && ({
            let t = trim(c@);
            ||| starts_with(t, "0x0c03"@) || starts_with(t, "0x0106"@) || starts_with(t, "0x0108"@)
            ||| starts_with(t, "0x0200"@) || starts_with(t, "0x0601"@) || starts_with(t, "0x0604"@)
            ||| starts_with(t, "0x0c05"@) || starts_with(t, "0x0600"@)
        }),
    ensures
        ({
            let (j1, a1) = bind_step(j, BindEventView::GroupListing(Ok(devs)));
            &&& j1.phase is Finished && j1.phase->Finished_0 is Err
            &&& contains(j1.phase->Finished_0->Err_0, devs[k].0@)
            &&& a1 == BindActionView::Done(j1.phase->Finished_0)
            &&& bind_run(j1, later) == j1
            &&& forall|e: BindEventView| #[trigger] bind_step(bind_run(j1, later), e).1 == a1
        }),
{
    let c = devs[k].1->0;
    let t = trim(c@);
    let b = isolation_breakers();
    assert(b[0] == "0x0c03"@ && b[1] == "0x0106"@ && b[2] == "0x0108"@ && b[3] == "0x0200"@);
    assert(b[4] == "0x0601"@ && b[5] == "0x0604"@ && b[6] == "0x0c05"@ && b[7] == "0x0600"@);
    if starts_with(t, "0x0c03"@) { assert(starts_with(t, b[0])); }
    else if starts_with(t, "0x0106"@) { assert(starts_with(t, b[1])); }
    else if starts_with(t, "0x0108"@) { assert(starts_with(t, b[2])); }
    else if starts_with(t, "0x0200"@) { assert(starts_with(t, b[3])); }
    else if starts_with(t, "0x0601"@) { assert(starts_with(t, b[4])); }
    else if starts_with(t, "0x0604"@) { assert(starts_with(t, b[5])); }
    else if starts_with(t, "0x0c05"@) { assert(starts_with(t, b[6])); }
    else { assert(starts_with(t, b[7])); }
    assert(breaks_isolation(c@));
    lemma_suspicious_found(devs, k);
    let sus = suspicious_devices(devs);
    let m = choose|m: int| 0 <= m < sus.len() && #[trigger] sus[m] == devs[k].0@;
    lemma_join_contains(sus, ", "@, m);
    let head = "IOMMU group isolation check failed: "@ + ("IOMMU group "@ + j.gpu.iommu_group + " contains critical devices: "@);
    let tail = ". IOMMU isolation may be broken. Consider enabling ACS override."@
        + ". This indicates your motherboard's IOMMU implementation may not properly isolate this GPU. Consider enabling ACS override in kernel parameters."@;
    lemma_contains_within(head, join(sus, ", "@), tail, devs[k].0@);
    assert(head + join(sus, ", "@) + tail =~= isolation_failed(isolation_error(j.gpu.iommu_group, sus)));
    let (j1, a1) = bind_step(j, BindEventView::GroupListing(Ok(devs)));
    lemma_finished_bind_run(j1, later);
    assert forall|e: BindEventView| #[trigger] bind_step(bind_run(j1, later), e).1 == a1 by {
        lemma_finished_bind_stays(j1, e);
    }
}

/// Every step keeps a bind well formed; the devices it takes from their
/// drivers are the GPU and the members of its group that the group report
/// named, none of them critical; and a request to unbind a device comes
/// only right after that device's ids were read (or repeats the pending
/// one).
pub proof fn lemma_bind_step_wf(j: BindView, e: BindEventView)
    requires
        bind_wf(j),
    ensures
        bind_wf(bind_step(j, e).0),
        bind_step(j, e).1 matches BindActionView::Unbind { pci_address } ==> bind_step(j, e).0.devices.contains(pci_address),
        (e matches BindEventView::Members(ms) && j.phase is AwaitMembers && !(bind_step(j, e).1 is Done)) ==> ({
            let ms = e->Members_0;
            &&& critical_members(ms).len() == 0
            &&& bind_step(j, e).0.devices == seq![j.gpu.pci_address] + member_addresses(ms)
        }),
        bind_step(j, e).1 is Unbind ==> (j.phase is AwaitIds || j.phase is AwaitUnbind),
        (bind_step(j, e).1 is Unbind && !(j.phase is AwaitUnbind)) ==> (e matches BindEventView::Ids { vendor, device }
            && vendor is Ok && device is Ok),
{
}

/// Starts binding `gpu` and the rest of its IOMMU group to vfio-pci: the
/// job and the first operation it asks for.
pub fn bind_to_vfio(gpu: &GpuDevice) -> (r: (BindJob, BindAction))
    ensures
        r.0@ == bind_start(gpu@),
        r.1@ == bind_pending(r.0@),
        bind_wf(r.0@),
{
    BindJob::start(gpu)
}

impl BindJob {
    fn start(gpu: &GpuDevice) -> (r: (BindJob, BindAction))
        ensures
            r.0@ == bind_start(gpu@),
            r.1@ == bind_pending(r.0@),
            bind_wf(r.0@),
    {
        let vfio = same(gpu.driver.as_str(), "vfio-pci");
        let phase = if vfio {
            BindPhase::Finished(Ok(PassthroughResult::Success("GPU already bound to vfio-pci".to_string())))
        } else if gpu.is_boot_gpu {
            BindPhase::AwaitDisplay
        } else {
            BindPhase::AwaitInUse
        };
        let job = BindJob { gpu: gpu.copy(), devices: Vec::new(), next: 0, new_id: String::new(), phase };
        assert(str_views(job.devices@) =~= Seq::<Seq<char>>::empty());
        let a = job.pending_exec();
        (job, a)
    }

    fn pending_exec(&self) -> (r: BindAction)
        requires
            bind_wf(self@),
        ensures
            r@ == bind_pending(self@),
    {
        match &self.phase {
            BindPhase::AwaitDisplay => BindAction::QueryDisplay { pci_address: self.gpu.pci_address.clone() },
            BindPhase::AwaitInUse => BindAction::QueryInUse { pci_address: self.gpu.pci_address.clone() },
            BindPhase::AwaitVfioLoaded => BindAction::QueryVfioLoaded,
            BindPhase::AwaitModprobe => BindAction::LoadVfio,
            BindPhase::AwaitIsolation => BindAction::ListGroup { group: self.gpu.iommu_group.clone() },
            BindPhase::AwaitMembers => BindAction::QueryMembers { pci_address: self.gpu.pci_address.clone() },
            BindPhase::AwaitIds => {
                assert(str_views(self.devices@)[self.next as int] == self.devices@[self.next as int]@);
                BindAction::ReadIds { pci_address: self.devices[self.next].clone() }
            },
            BindPhase::AwaitUnbind => {
                assert(str_views(self.devices@)[self.next as int] == self.devices@[self.next as int]@);
                BindAction::Unbind { pci_address: self.devices[self.next].clone() }
            },
            BindPhase::AwaitReset => {
                assert(str_views(self.devices@)[self.next as int] == self.devices@[self.next as int]@);
                BindAction::Reset { pci_address: self.devices[self.next].clone() }
            },
            BindPhase::AwaitNewId => BindAction::AddId { new_id: self.new_id.clone() },
            BindPhase::Finished(r) => BindAction::Done(copy_pt_result(r)),
        }
    }

    fn go(&mut self, p: BindPhase) -> (r: BindAction)
        requires
            bind_wf(bind_with(old(self)@, p@)),
        ensures
            (final(self)@, r@) == bind_go(old(self)@, p@),
            bind_wf(final(self)@),
    {
        self.phase = p;
        self.pending_exec()
    }

    fn fail(&mut self, e: Vec<char>) -> (r: BindAction)
        requires
            bind_wf(old(self)@),
        ensures
            (final(self)@, r@) == bind_finish(old(self)@, Err(e@)),
            bind_wf(final(self)@),
    {
        self.go(BindPhase::Finished(Err(string_of(&e))))
    }

    fn after_vfio(&mut self) -> (r: BindAction)
        requires
            bind_wf(old(self)@),
        ensures
            (final(self)@, r@) == bind_after_vfio(old(self)@),
            bind_wf(final(self)@),
    {
        let group = chars_of(self.gpu.iommu_group.as_str());
        if group.len() > 0 {
            self.go(BindPhase::AwaitIsolation)
        } else {
            self.go(BindPhase::AwaitMembers)
        }
    }

    /// One step of the bind (see `bind_step`).
    pub fn step(&mut self, event: BindEvent) -> (a: BindAction)
        requires
            bind_wf(old(self)@),
        ensures
            (final(self)@, a@) == bind_step(old(self)@, event@),
            bind_wf(final(self)@),
    {
        proof { assert(str_views(self.devices@).len() == self.devices@.len()); }
        match (&self.phase, event) {
            (BindPhase::AwaitDisplay, BindEvent::DisplayActive(active)) => {
                if active {
                    proof { reveal_strlit("This is the active boot GPU with a connected display. Unbinding it now will blackscreen the host. Please use 'Apply Config' to set up vfio-pci at boot time instead, then reboot."); }
                    self.fail(chars_of("This is the active boot GPU with a connected display. Unbinding it now will blackscreen the host. Please use 'Apply Config' to set up vfio-pci at boot time instead, then reboot."))
                } else {
                    self.go(BindPhase::AwaitInUse)
                }
            },
            (BindPhase::AwaitInUse, BindEvent::InUse(used)) => {
                if used {
                    let mut e = chars_of("GPU ");
                    extend_str(&mut e, self.gpu.pci_address.as_str());
                    extend_str(&mut e, " appears to be in use by a host process. Close all applications using the GPU before binding to vfio-pci.");
                    self.fail(e)
                } else {
                    self.go(BindPhase::AwaitVfioLoaded)
                }
            },
            (BindPhase::AwaitVfioLoaded, BindEvent::VfioLoaded(loaded)) => {
                if loaded {
                    self.after_vfio()
                } else {
                    self.go(BindPhase::AwaitModprobe)
                }
            },
            (BindPhase::AwaitModprobe, BindEvent::Modprobe(o)) => match o {
                CmdOutcome::NotRun(msg) => {
                    let mut e = chars_of("Failed to load vfio-pci: ");
                    extend_str(&mut e, msg.as_str());
                    self.fail(e)
                },
                CmdOutcome::Exited { success, stderr } => {
                    if success {
                        self.after_vfio()
                    } else {
                        let mut e = chars_of("Failed to load vfio-pci module: ");
                        extend_str(&mut e, stderr.as_str());
                        self.fail(e)
                    }
                },
            },
            (BindPhase::AwaitIsolation, BindEvent::GroupListing(r)) => match r {
                Err(msg) => {
                    let mut e = chars_of("IOMMU group isolation check failed: ");
                    extend_str(&mut e, "Cannot read IOMMU group devices: ");
                    extend_str(&mut e, msg.as_str());
                    extend_str(&mut e, ". This indicates your motherboard's IOMMU implementation may not properly isolate this GPU. Consider enabling ACS override in kernel parameters.");
                    assert(e@ =~= isolation_failed("Cannot read IOMMU group devices: "@ + msg@));
                    self.fail(e)
                },
                Ok(devs) => match verify_iommu_group_isolation(self.gpu.iommu_group.as_str(), &devs) {
                    Ok(_) => self.go(BindPhase::AwaitMembers),
                    Err(msg) => {
                        let mut e = chars_of("IOMMU group isolation check failed: ");
                        extend_str(&mut e, msg.as_str());
                        extend_str(&mut e, ". This indicates your motherboard's IOMMU implementation may not properly isolate this GPU. Consider enabling ACS override in kernel parameters.");
                        self.fail(e)
                    },
                },
            },
            (BindPhase::AwaitMembers, BindEvent::Members(ms)) => {
                let (critical, addrs) = split_members(&ms);
                if critical.len() > 0 {
                    let mut e = chars_of("Critical system devices found in IOMMU group: ");
                    let joined = join_strings(&critical, ", ");
                    extend_str(&mut e, joined.as_str());
                    extend_str(&mut e, ". Binding these to vfio-pci may make the host unusable. Consider using ACS override or a different GPU.");
                    self.fail(e)
                } else {
                    let mut devices: Vec<String> = Vec::new();
                    devices.push(self.gpu.pci_address.clone());
                    let mut i: usize = 0;
                    while i < addrs.len()
                        invariant
                            i <= addrs.len(),
                            str_views(devices@) == seq![self.gpu.pci_address@] + str_views(addrs@).take(i as int),
                        decreases addrs.len() - i,
                    {
                        let d = addrs[i].clone();
                        proof { lemma_str_views_push(devices@, d); }
                        devices.push(d);
                        i = i + 1;
                        assert(str_views(devices@) =~= seq![self.gpu.pci_address@] + str_views(addrs@).take(i as int));
                    }
                    assert(str_views(addrs@).take(addrs.len() as int) =~= str_views(addrs@));
                    self.devices = devices;
                    self.next = 0;
                    self.go(BindPhase::AwaitIds)
                }
            },
            (BindPhase::AwaitIds, BindEvent::Ids { vendor, device }) => match (vendor, device) {
                (Err(msg), _) => {
                    let mut e = chars_of("Failed to read vendor ID: ");
                    extend_str(&mut e, msg.as_str());
                    self.fail(e)
                },
                (Ok(_), Err(msg)) => {
                    let mut e = chars_of("Failed to read device ID: ");
                    extend_str(&mut e, msg.as_str());
                    self.fail(e)
                },
                (Ok(v), Ok(d)) => {
                    let mut id = trim_exec(&chars_of(v.as_str()));
                    extend_str(&mut id, " ");
                    let dt = trim_exec(&chars_of(d.as_str()));
                    extend_str(&mut id, string_of(&dt).as_str());
                    self.new_id = string_of(&id);
                    self.go(BindPhase::AwaitUnbind)
                },
            },
            (BindPhase::AwaitUnbind, BindEvent::Unbound(r)) => match r {
                Err(msg) => {
                    assert(str_views(self.devices@)[self.next as int] == self.devices@[self.next as int]@);
                    let mut e = chars_of("Failed to unbind ");
                    extend_str(&mut e, self.devices[self.next].as_str());
                    extend_str(&mut e, ": ");
                    extend_str(&mut e, msg.as_str());
                    self.fail(e)
                },
                Ok(()) => self.go(BindPhase::AwaitReset),
            },
            (BindPhase::AwaitReset, BindEvent::Reset(_)) => self.go(BindPhase::AwaitNewId),
            (BindPhase::AwaitNewId, BindEvent::IdAdded(r)) => match r {
                Err(msg) => {
                    let mut e = chars_of("Failed to add ");
                    extend_str(&mut e, self.new_id.as_str());
                    extend_str(&mut e, " to vfio-pci: ");
                    extend_str(&mut e, msg.as_str());
                    self.fail(e)
                },
                Ok(()) => {
                    assert(self@.phase is AwaitNewId);
                    assert(self.next < self.devices.len());
                    self.next = self.next + 1;
                    if self.next < self.devices.len() {
                        self.go(BindPhase::AwaitIds)
                    } else {
                        let mut m = chars_of("GPU ");
                        extend_str(&mut m, self.gpu.pci_address.as_str());
                        extend_str(&mut m, " bound to vfio-pci successfully");
                        self.go(BindPhase::Finished(Ok(PassthroughResult::Success(string_of(&m)))))
                    }
                },
            },
            (_, _) => self.pending_exec(),
        }
    }
}

/// A copy of an outcome.
pub fn copy_pt_result(r: &Result<PassthroughResult, String>) -> (c: Result<PassthroughResult, String>)
    ensures
        pt_result_view(c) == pt_result_view(*r),
{
    match r {
        Ok(PassthroughResult::Success(m)) => Ok(PassthroughResult::Success(m.clone())),
        Ok(PassthroughResult::Warning(m)) => Ok(PassthroughResult::Warning(m.clone())),
        Ok(PassthroughResult::Error(m)) => Ok(PassthroughResult::Error(m.clone())),
        Ok(PassthroughResult::NeedsReboot(m)) => Ok(PassthroughResult::NeedsReboot(m.clone())),
        Err(e) => Err(e.clone()),
    }
}

/// The critical devices among `ms`, and all their addresses.
fn split_members(ms: &Vec<(String, Option<String>)>) -> (r: (Vec<String>, Vec<String>))
    ensures
        str_views(r.0@) == critical_members(ms@),
        str_views(r.1@) == member_addresses(ms@),
{
    let mut critical: Vec<String> = Vec::new();
    let mut addrs: Vec<String> = Vec::new();
    let mut i: usize = 0;
    assert(ms@.take(0) =~= Seq::<(String, Option<String>)>::empty());
    assert(str_views(critical@) =~= Seq::<Seq<char>>::empty());
    while i < ms.len()
        invariant
            i <= ms.len(),
            str_views(critical@) == critical_members(ms@.take(i as int)),
            str_views(addrs@) == member_addresses(ms@.take(i as int)),
        decreases ms.len() - i,
    {
        let (addr, class) = &ms[i];
        assert(ms@.take(i + 1).drop_last() =~= ms@.take(i as int));
        assert(ms@.take(i + 1).last() == ms@[i as int]);
        let c = match class {
            Some(s) => is_critical_device(Some(s.as_str())),
            None => is_critical_device(None),
        };
        assert(c == critical_class(ms@[i as int].1));
        if c {
            let x = addr.clone();
            proof { lemma_str_views_push(critical@, x); }
            critical.push(x);
        }
        let y = addr.clone();
        proof { lemma_str_views_push(addrs@, y); }
        addrs.push(y);
        i = i + 1;
        assert(str_views(addrs@) =~= member_addresses(ms@.take(i as int)));
    }
    assert(ms@.take(ms.len() as int) =~= ms@);
    (critical, addrs)
}

// ---------------------------------------------------------------------
// Handing a GPU back to its driver
// ---------------------------------------------------------------------

pub enum UnbindPhase {
    /// Waiting for vfio-pci to let go of the GPU.
    AwaitRemove,
    /// Waiting for the driver to take the GPU.
    AwaitRebind,
    Finished(Result<PassthroughResult, String>),
}

pub enum UnbindEvent {
    /// Outcome of unbinding the GPU from vfio-pci (where it is bound).
    Removed(Result<(), String>),
    /// Outcome of binding the GPU to its driver (where the driver is there).
    Rebound(Result<(), String>),
}

pub enum UnbindAction {
    /// Unbind the GPU from vfio-pci (`Removed`).
    RemoveFromVfio { pci_address: String },
    /// Bind the GPU to `driver` (`Rebound`).
    BindDriver { driver: String, pci_address: String },
    Done(Result<PassthroughResult, String>),
}

/// Returning a GPU from vfio-pci to `driver`.
pub struct UnbindJob {
    pub pci_address: String,
    pub driver: String,
    pub phase: UnbindPhase,
}

pub enum UnbindPhaseView {
    AwaitRemove,
    AwaitRebind,
    Finished(Result<PassthroughView, Seq<char>>),
}

pub enum UnbindEventView {
    Removed(Result<(), Seq<char>>),
    Rebound(Result<(), Seq<char>>),
}

pub enum UnbindActionView {
    RemoveFromVfio { pci_address: Seq<char> },
    BindDriver { driver: Seq<char>, pci_address: Seq<char> },
    Done(Result<PassthroughView, Seq<char>>),
}

pub struct UnbindView {
    pub pci_address: Seq<char>,
    pub driver: Seq<char>,
    pub phase: UnbindPhaseView,
}

impl View for UnbindEvent {
    type V = UnbindEventView;

    open spec fn view(&self) -> UnbindEventView {
        match self {
            UnbindEvent::Removed(r) => UnbindEventView::Removed(unit_result_view(*r)),
            UnbindEvent::Rebound(r) => UnbindEventView::Rebound(unit_result_view(*r)),
        }
    }
}

impl View for UnbindAction {
    type V = UnbindActionView;

    open spec fn view(&self) -> UnbindActionView {
        match self {
            UnbindAction::RemoveFromVfio { pci_address } => UnbindActionView::RemoveFromVfio { pci_address: pci_address@ },
            UnbindAction::BindDriver { driver, pci_address } => UnbindActionView::BindDriver {
                driver: driver@,
                pci_address: pci_address@,
            },
            UnbindAction::Done(r) => UnbindActionView::Done(pt_result_view(*r)),
        }
    }
}

impl View for UnbindJob {
    type V = UnbindView;

    open spec fn view(&self) -> UnbindView {
        UnbindView {
            pci_address: self.pci_address@,
            driver: self.driver@,
            phase: match &self.phase {
                UnbindPhase::AwaitRemove => UnbindPhaseView::AwaitRemove,
                UnbindPhase::AwaitRebind => UnbindPhaseView::AwaitRebind,
                UnbindPhase::Finished(r) => UnbindPhaseView::Finished(pt_result_view(*r)),
            },
        }
    }
}

pub open spec fn unbind_pending(j: UnbindView) -> UnbindActionView {
    match j.phase {
        UnbindPhaseView::AwaitRemove => UnbindActionView::RemoveFromVfio { pci_address: j.pci_address },
        UnbindPhaseView::AwaitRebind => UnbindActionView::BindDriver { driver: j.driver, pci_address: j.pci_address },
        UnbindPhaseView::Finished(r) => UnbindActionView::Done(r),
    }
}

/// A GPU that is not on vfio-pci is left alone; one that is waits to be
/// released by vfio-pci.
pub open spec fn unbind_start(gpu: GpuDeviceView, driver: Seq<char>) -> UnbindView {
    UnbindView {
        pci_address: gpu.pci_address,
        driver,
        phase: if gpu.driver != "vfio-pci"@ {
            UnbindPhaseView::Finished(Ok(PassthroughView::Success("GPU not bound to vfio-pci, nothing to do"@)))
        } else {
            UnbindPhaseView::AwaitRemove
        },
    }
}

pub open spec fn unbind_step(j: UnbindView, e: UnbindEventView) -> (UnbindView, UnbindActionView) {
    let next = |p: UnbindPhaseView| (UnbindView { phase: p, ..j }, unbind_pending(UnbindView { phase: p, ..j }));
    match (j.phase, e) {
        (UnbindPhaseView::AwaitRemove, UnbindEventView::Removed(r)) => match r {
            Ok(()) => next(UnbindPhaseView::AwaitRebind),
            Err(e) => next(UnbindPhaseView::Finished(Err("Failed to unbind from vfio-pci: "@ + e))),
        },
        (UnbindPhaseView::AwaitRebind, UnbindEventView::Rebound(r)) => match r {
            Ok(()) => next(UnbindPhaseView::Finished(Ok(PassthroughView::Success(
                "GPU "@ + j.pci_address + " returned to "@ + j.driver + " driver"@)))),
            Err(e) => next(UnbindPhaseView::Finished(Err("Failed to bind to "@ + j.driver + ": "@ + e))),
        },
        _ => (j, unbind_pending(j)),
    }
}

/// Starts returning `gpu` from vfio-pci to `original_driver`: the job and
/// the first operation it asks for.
pub fn unbind_from_vfio(gpu: &GpuDevice, original_driver: &str) -> (r: (UnbindJob, UnbindAction))
    ensures
        r.0@ == unbind_start(gpu@, original_driver@),
        r.1@ == unbind_pending(r.0@),
{
    UnbindJob::start(gpu, original_driver)
}

impl UnbindJob {
    fn pending_exec(&self) -> (r: UnbindAction)
        ensures
            r@ == unbind_pending(self@),
    {
        match &self.phase {
            UnbindPhase::AwaitRemove => UnbindAction::RemoveFromVfio { pci_address: self.pci_address.clone() },
            UnbindPhase::AwaitRebind => UnbindAction::BindDriver {
                driver: self.driver.clone(),
                pci_address: self.pci_address.clone(),
            },
            UnbindPhase::Finished(r) => UnbindAction::Done(copy_pt_result(r)),
        }
    }

    fn start(gpu: &GpuDevice, original_driver: &str) -> (r: (UnbindJob, UnbindAction))
        ensures
            r.0@ == unbind_start(gpu@, original_driver@),
            r.1@ == unbind_pending(r.0@),
    {
        let phase = if !same(gpu.driver.as_str(), "vfio-pci") {
            UnbindPhase::Finished(Ok(PassthroughResult::Success("GPU not bound to vfio-pci, nothing to do".to_string())))
        } else {
            UnbindPhase::AwaitRemove
        };
        let job = UnbindJob { pci_address: gpu.pci_address.clone(), driver: original_driver.to_string(), phase };
        let a = job.pending_exec();
        (job, a)
    }

    /// One step of the job (see `unbind_step`).
    pub fn step(&mut self, event: UnbindEvent) -> (a: UnbindAction)
        ensures
            (final(self)@, a@) == unbind_step(old(self)@, event@),
    {
        match (&self.phase, event) {
            (UnbindPhase::AwaitRemove, UnbindEvent::Removed(r)) => match r {
                Ok(()) => self.phase = UnbindPhase::AwaitRebind,
                Err(msg) => {
                    let mut e = chars_of("Failed to unbind from vfio-pci: ");
                    extend_str(&mut e, msg.as_str());
                    self.phase = UnbindPhase::Finished(Err(string_of(&e)));
                },
            },
            (UnbindPhase::AwaitRebind, UnbindEvent::Rebound(r)) => match r {
                Ok(()) => {
                    let mut m = chars_of("GPU ");
                    extend_str(&mut m, self.pci_address.as_str());
                    extend_str(&mut m, " returned to ");
                    extend_str(&mut m, self.driver.as_str());
                    extend_str(&mut m, " driver");
                    self.phase = UnbindPhase::Finished(Ok(PassthroughResult::Success(string_of(&m))));
                },
                Err(msg) => {
                    let mut e = chars_of("Failed to bind to ");
                    extend_str(&mut e, self.driver.as_str());
                    extend_str(&mut e, ": ");
                    extend_str(&mut e, msg.as_str());
                    self.phase = UnbindPhase::Finished(Err(string_of(&e)));
                },
            },
            (_, _) => {},
        }
        self.pending_exec()
    }
}

// ---------------------------------------------------------------------
// The boot-time VFIO configuration
// ---------------------------------------------------------------------

pub enum ApplyPhase {
    /// Waiting for the existing configuration (where there is one) to be backed up.
    AwaitBackup,
    /// Waiting for the new configuration to be written.
    AwaitWrite,
    Finished(Result<PassthroughResult, String>),
}

pub enum ApplyEvent {
    BackedUp(Result<(), String>),
    Written(Result<(), String>),
}

pub enum ApplyAction {
    /// Back up the existing configuration, where there is one (`BackedUp`).
    Backup,
    /// Write `content` as the VFIO configuration (`Written`).
    Write { content: String },
    Done(Result<PassthroughResult, String>),
}

/// Writing the modprobe configuration that binds GPUs to vfio-pci at boot.
pub struct ApplyJob {
    pub content: String,
    pub phase: ApplyPhase,
}

pub enum ApplyPhaseView {
    AwaitBackup,
    AwaitWrite,
    Finished(Result<PassthroughView, Seq<char>>),
}

pub enum ApplyEventView {
    BackedUp(Result<(), Seq<char>>),
    Written(Result<(), Seq<char>>),
}

pub enum ApplyActionView {
    Backup,
    Write { content: Seq<char> },
    Done(Result<PassthroughView, Seq<char>>),
}

pub struct ApplyView {
    pub content: Seq<char>,
    pub phase: ApplyPhaseView,
}

impl View for ApplyEvent {
    type V = ApplyEventView;

    open spec fn view(&self) -> ApplyEventView {
        match self {
            ApplyEvent::BackedUp(r) => ApplyEventView::BackedUp(unit_result_view(*r)),
            ApplyEvent::Written(r) => ApplyEventView::Written(unit_result_view(*r)),
        }
    }
}

impl View for ApplyAction {
    type V = ApplyActionView;

    open spec fn view(&self) -> ApplyActionView {
        match self {
            ApplyAction::Backup => ApplyActionView::Backup,
            ApplyAction::Write { content } => ApplyActionView::Write { content: content@ },
            ApplyAction::Done(r) => ApplyActionView::Done(pt_result_view(*r)),
        }
    }
}

impl View for ApplyJob {
    type V = ApplyView;

    open spec fn view(&self) -> ApplyView {
        ApplyView {
            content: self.content@,
            phase: match &self.phase {
                ApplyPhase::AwaitBackup => ApplyPhaseView::AwaitBackup,
                ApplyPhase::AwaitWrite => ApplyPhaseView::AwaitWrite,
                ApplyPhase::Finished(r) => ApplyPhaseView::Finished(pt_result_view(*r)),
            },
        }
    }
}

pub open spec fn apply_pending(j: ApplyView) -> ApplyActionView {
    match j.phase {
        ApplyPhaseView::AwaitBackup => ApplyActionView::Backup,
        ApplyPhaseView::AwaitWrite => ApplyActionView::Write { content: j.content },
        ApplyPhaseView::Finished(r) => ApplyActionView::Done(r),
    }
}

pub open spec fn apply_step(j: ApplyView, e: ApplyEventView) -> (ApplyView, ApplyActionView) {
    let next = |p: ApplyPhaseView| (ApplyView { phase: p, ..j }, apply_pending(ApplyView { phase: p, ..j }));
    match (j.phase, e) {
        (ApplyPhaseView::AwaitBackup, ApplyEventView::BackedUp(r)) => match r {
            Ok(()) => next(ApplyPhaseView::AwaitWrite),
            Err(e) => next(ApplyPhaseView::Finished(Err("Failed to backup existing config: "@ + e))),
        },
        (ApplyPhaseView::AwaitWrite, ApplyEventView::Written(r)) => match r {
            Ok(()) => next(ApplyPhaseView::Finished(Ok(PassthroughView::NeedsReboot(
                "VFIO configuration applied. Reboot required for changes to take effect."@)))),
            Err(e) => next(ApplyPhaseView::Finished(Err("Failed to write VFIO config: "@ + e))),
        },
        _ => (j, apply_pending(j)),
    }
}

/// Starts writing the boot-time VFIO configuration for `gpus` (see
/// `vfio_conf`): the job and the first operation it asks for.
pub fn apply_vfio_conf(gpus: &Vec<GpuDevice>) -> (r: (ApplyJob, ApplyAction))
    ensures
        r.0@ == (ApplyView { content: vfio_conf(gpu_views(gpus@)), phase: ApplyPhaseView::AwaitBackup }),
        r.1@ == ApplyActionView::Backup,
{
    ApplyJob::start(gpus)
}

impl ApplyJob {
    fn pending_exec(&self) -> (r: ApplyAction)
        ensures
            r@ == apply_pending(self@),
    {
        match &self.phase {
            ApplyPhase::AwaitBackup => ApplyAction::Backup,
            ApplyPhase::AwaitWrite => ApplyAction::Write { content: self.content.clone() },
            ApplyPhase::Finished(r) => ApplyAction::Done(copy_pt_result(r)),
        }
    }

    fn start(gpus: &Vec<GpuDevice>) -> (r: (ApplyJob, ApplyAction))
        ensures
            r.0@ == (ApplyView { content: vfio_conf(gpu_views(gpus@)), phase: ApplyPhaseView::AwaitBackup }),
            r.1@ == ApplyActionView::Backup,
    {
        let job = ApplyJob { content: generate_vfio_conf(gpus), phase: ApplyPhase::AwaitBackup };
        (job, ApplyAction::Backup)
    }

    /// One step of the job (see `apply_step`).
    pub fn step(&mut self, event: ApplyEvent) -> (a: ApplyAction)
        ensures
            (final(self)@, a@) == apply_step(old(self)@, event@),
    {
        match (&self.phase, event) {
            (ApplyPhase::AwaitBackup, ApplyEvent::BackedUp(r)) => match r {
                Ok(()) => self.phase = ApplyPhase::AwaitWrite,
                Err(msg) => {
                    let mut e = chars_of("Failed to backup existing config: ");
                    extend_str(&mut e, msg.as_str());
                    self.phase = ApplyPhase::Finished(Err(string_of(&e)));
                },
            },
            (ApplyPhase::AwaitWrite, ApplyEvent::Written(r)) => match r {
                Ok(()) => {
                    self.phase = ApplyPhase::Finished(Ok(PassthroughResult::NeedsReboot(
                        "VFIO configuration applied. Reboot required for changes to take effect.".to_string())));
                },
                Err(msg) => {
                    let mut e = chars_of("Failed to write VFIO config: ");
                    extend_str(&mut e, msg.as_str());
                    self.phase = ApplyPhase::Finished(Err(string_of(&e)));
                },
            },
            (_, _) => {},
        }
        self.pending_exec()
    }
}

// ---------------------------------------------------------------------
// The initramfs
// ---------------------------------------------------------------------

/// A tool that rebuilds the initramfs.
#[derive(Debug, Clone, Copy, PartialEq, Eq, Structural)]
pub enum InitramfsTool {
    UpdateInitramfs,
    Dracut,
    Mkinitcpio,
}

pub open spec fn no_initramfs_tool() -> Seq<char> {
    "No supported initramfs tool found (update-initramfs, dracut, mkinitcpio)"@
}

/// The tool to use, given which of them are installed: the first of
/// update-initramfs, dracut and mkinitcpio.
pub fn initramfs_tool(has_update_initramfs: bool, has_dracut: bool, has_mkinitcpio: bool) -> (r: Result<InitramfsTool, String>)
    ensures
        r matches Ok(t) ==> (t == (if has_update_initramfs { InitramfsTool::UpdateInitramfs }
            else if has_dracut { InitramfsTool::Dracut } else { InitramfsTool::Mkinitcpio })),
        r is Ok <==> (has_update_initramfs || has_dracut || has_mkinitcpio),
        r matches Err(e) ==> e@ == no_initramfs_tool(),
{
    if has_update_initramfs {
        Ok(InitramfsTool::UpdateInitramfs)
    } else if has_dracut {
        Ok(InitramfsTool::Dracut)
    } else if has_mkinitcpio {
        Ok(InitramfsTool::Mkinitcpio)
    } else {
        Err("No supported initramfs tool found (update-initramfs, dracut, mkinitcpio)".to_string())
    }
}

pub open spec fn tool_program(t: InitramfsTool) -> Seq<char> {
    match t {
        InitramfsTool::UpdateInitramfs => "update-initramfs"@,
        InitramfsTool::Dracut => "dracut"@,
        InitramfsTool::Mkinitcpio => "mkinitcpio"@,
    }
}

pub open spec fn tool_args(t: InitramfsTool) -> Seq<Seq<char>> {
    match t {
        InitramfsTool::UpdateInitramfs => seq!["-u"@, "-k"@, "all"@],
        InitramfsTool::Dracut => seq!["--force"@],
        InitramfsTool::Mkinitcpio => seq!["-P"@],
    }
}

/// What came of running the tool.
pub open spec fn initramfs_result(t: InitramfsTool, o: CmdView) -> Result<Seq<char>, Seq<char>> {
    match (t, o) {
        (InitramfsTool::UpdateInitramfs, CmdView::NotRun(e)) => Err("Failed to update initramfs: "@ + e),
        (InitramfsTool::Dracut, CmdView::NotRun(e)) => Err("Failed to run dracut: "@ + e),
        (InitramfsTool::Mkinitcpio, CmdView::NotRun(e)) => Err("Failed to run mkinitcpio: "@ + e),
        (_, CmdView::Exited { success, stderr }) => if success {
            Ok(match t {
                InitramfsTool::UpdateInitramfs => "initramfs updated successfully"@,
                InitramfsTool::Dracut => "initramfs updated with dracut"@,
                InitramfsTool::Mkinitcpio => "initramfs updated with mkinitcpio"@,
            })
        } else {
            Err(match t {
                InitramfsTool::UpdateInitramfs => "Failed to update initramfs: "@ + stderr,
                InitramfsTool::Dracut => "Failed to update initramfs with dracut: "@ + stderr,
                InitramfsTool::Mkinitcpio => "Failed to update initramfs with mkinitcpio: "@ + stderr,
            })
        },
    }
}

impl InitramfsTool {
    /// The program to run.
    pub fn program(&self) -> (r: String)
        ensures
            r@ == tool_program(*self),
    {
        match self {
            InitramfsTool::UpdateInitramfs => "update-initramfs".to_string(),
            InitramfsTool::Dracut => "dracut".to_string(),
            InitramfsTool::Mkinitcpio => "mkinitcpio".to_string(),
        }
    }

    /// Its arguments.
    pub fn args(&self) -> (r: Vec<String>)
        ensures
            str_views(r@) == tool_args(*self),
    {
        let mut v: Vec<String> = Vec::new();
        match self {
            InitramfsTool::UpdateInitramfs => {
                v.push("-u".to_string());
                v.push("-k".to_string());
                v.push("all".to_string());
            },
            InitramfsTool::Dracut => v.push("--force".to_string()),
            InitramfsTool::Mkinitcpio => v.push("-P".to_string()),
        }
        assert(str_views(v@) =~= tool_args(*self));
        v
    }

    /// What came of running the tool (see `initramfs_result`).
    pub fn outcome(&self, run: CmdOutcome) -> (r: Result<String, String>)
        ensures
            str_result_view(r) == initramfs_result(*self, run@),
    {
        match run {
            CmdOutcome::NotRun(msg) => {
                let mut e = match self {
                    InitramfsTool::UpdateInitramfs => chars_of("Failed to update initramfs: "),
                    InitramfsTool::Dracut => chars_of("Failed to run dracut: "),
                    InitramfsTool::Mkinitcpio => chars_of("Failed to run mkinitcpio: "),
                };
                extend_str(&mut e, msg.as_str());
                Err(string_of(&e))
            },
            CmdOutcome::Exited { success, stderr } => {
                if success {
                    Ok(match self {
                        InitramfsTool::UpdateInitramfs => "initramfs updated successfully".to_string(),
                        InitramfsTool::Dracut => "initramfs updated with dracut".to_string(),
                        InitramfsTool::Mkinitcpio => "initramfs updated with mkinitcpio".to_string(),
                    })
                } else {
                    let mut e = match self {
                        InitramfsTool::UpdateInitramfs => chars_of("Failed to update initramfs: "),
                        InitramfsTool::Dracut => chars_of("Failed to update initramfs with dracut: "),
                        InitramfsTool::Mkinitcpio => chars_of("Failed to update initramfs with mkinitcpio: "),
                    };
                    extend_str(&mut e, stderr.as_str());
                    Err(string_of(&e))
                }
            },
        }
    }
}

// ---------------------------------------------------------------------
// Old backups
// ---------------------------------------------------------------------

/// The time stamp that a backup file's name carries: what follows
/// `vfio.conf.bak.` at the start of a name in the modprobe directory, or
/// what follows the last `.gpupass.bak.` in a name in the libvirt
/// directory, read as a decimal `u64`.
pub open spec fn backup_stamp(name: Seq<char>, modprobe_dir: bool) -> Option<nat> {
    if modprobe_dir {
        if starts_with(name, "vfio.conf.bak."@) {
            parse_uint(name.skip("vfio.conf.bak."@.len() as int), 10, u64::MAX as nat)
        } else {
            None
        }
    } else {
        match rfind(name, ".gpupass.bak."@) {
            Some(p) => parse_uint(name.skip(p + ".gpupass.bak."@.len()), 10, u64::MAX as nat),
            None => None,
        }
    }
}

/// Whether the backup file `name` is to be deleted: its time stamp lies
/// more than `max_age` seconds before `now` (a stamp after `now` counts
/// as no age).
pub fn backup_expired(name: &str, modprobe_dir: bool, now: u64, max_age: u64) -> (r: bool)
    ensures
        r == (backup_stamp(name@, modprobe_dir) matches Some(ts)
            && (if now >= ts { now - ts } else { 0 }) > max_age),
{
    let v = chars_of(name);
    let stamp = if modprobe_dir {
        let pre = chars_of("vfio.conf.bak.");
        if !starts_with_exec(&v, &pre) {
            return false;
        }
        let rest = slice(&v, pre.len(), v.len());
        assert(rest@ =~= name@.skip("vfio.conf.bak."@.len() as int));
        parse_uint_exec(&rest, 10, u64::MAX)
    } else {
        let marker = chars_of(".gpupass.bak.");
        match rfind_exec(&v, &marker) {
            Some(p) => {
                proof { lemma_rfind_bound(v@, marker@); }
                assert(rfind(v@, marker@) == Some(p as int));
                assert(p + marker@.len() <= v@.len());
                let ml: usize = marker.len();
                let vl: usize = v.len();
                assert(p + ml <= vl);
                let from: usize = p + ml;
                let rest = slice(&v, from, v.len());
                assert(rest@ =~= name@.skip(p + ".gpupass.bak."@.len()));
                parse_uint_exec(&rest, 10, u64::MAX)
            },
            None => {
                return false;
            },
        }
    };
    match stamp {
        Some(ts) => (if now >= ts { now - ts } else { 0 }) > max_age,
        None => false,
    }
}

} // verus!
