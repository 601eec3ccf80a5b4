//! Attaching a GPU (with the rest of its IOMMU group) to a VM and
//! detaching it again, as a state machine: each step takes what the last
//! outside operation (`virsh`, sysfs, the XML file) reported and names
//! the next one.

use vstd::prelude::*;
use crate::gpu::{is_nvidia, nvidia_gpu, GpuDevice, GpuDeviceView};
use crate::lang::{t, text_for, Lang};
use crate::text::{
    chars_of, dec_str, dec_str_exec, extend, extend_str, fill, fill_all, join, join_exec,
    join_strings, lemma_str_views_push, lemma_views_push, replace_all, replace_first, same,
    str_views, string_of, views,
};
use crate::vm::{default_xml_path, holders, vm_views, vm_xml_path, VmInfo, VmInfoView, check_gpu_conflicts};

verus! {

/// Where a job stands.
pub enum JobPhase {
    /// Waiting for the IOMMU group of the GPU.
    AwaitGroup,
    /// Waiting for the NVIDIA workarounds in the domain XML.
    AwaitNvidia,
    /// Waiting for whether the VM runs.
    AwaitRunning,
    /// Waiting for `virsh attach-device`/`detach-device` on the current device.
    AwaitDevice,
    /// Waiting for whether the domain XML file exists (after a `virsh` failure if `true`).
    AwaitXmlCheck(bool),
    /// Waiting for the edit of the domain XML file (after a `virsh` failure if `true`).
    AwaitXmlEdit(bool),
    /// Done, with the outcome.
    Finished(Result<String, String>),
}

/// What the outside world reports to a job.
pub enum JobEvent {
    /// The other members of the GPU's IOMMU group, each with whether the
    /// host drives a display with it, and the same for the GPU.
    Group { gpu_host_display: bool, members: Vec<(String, bool)> },
    /// Outcome of adding the NVIDIA workarounds to the domain XML.
    Nvidia(Result<(), String>),
    /// Whether the VM runs.
    Running(bool),
    /// Outcome of `virsh attach-device`/`detach-device` (its output on success).
    Virsh(Result<String, String>),
    /// Whether the domain XML file exists.
    XmlExists(bool),
    /// Outcome of editing the domain XML file.
    XmlEdited(Result<(), String>),
}

/// What a job asks the outside world to do next.
pub enum JobAction {
    /// Report the IOMMU group of the device (`JobEvent::Group`).
    QueryGroup { pci_address: String },
    /// Add the NVIDIA workarounds to the VM's XML (`JobEvent::Nvidia`).
    ConfigureNvidia { vm_name: String },
    /// Report whether the VM runs (`JobEvent::Running`).
    QueryRunning { vm_name: String },
    /// Run `virsh attach-device` (or `detach-device`) with the device's
    /// hostdev XML (`JobEvent::Virsh`).
    Virsh { pci_address: String },
    /// Report whether the file exists (`JobEvent::XmlExists`).
    CheckXml { path: String },
    /// Insert (or remove) the device's hostdev XML in the file (`JobEvent::XmlEdited`).
    EditXml { pci_address: String, path: String },
    /// The job is over.
    Done(Result<String, String>),
}

/// Attaching (or detaching) a GPU and its IOMMU group to (from) a VM.
pub struct VmJob {
    pub detach: bool,
    pub lang: Lang,
    pub vm_name: String,
    pub gpu: GpuDevice,
    pub vms: Vec<VmInfo>,
    pub devices: Vec<String>,
    pub next: usize,
    pub use_xml: bool,
    pub vm_running: bool,
    pub done: Vec<String>,
    pub warnings: Vec<String>,
    pub phase: JobPhase,
}

pub enum PhaseView {
    AwaitGroup,
    AwaitNvidia,
    AwaitRunning,
    AwaitDevice,
    AwaitXmlCheck(bool),
    AwaitXmlEdit(bool),
    Finished(Result<Seq<char>, Seq<char>>),
}

pub enum EventView {
    Group { gpu_host_display: bool, members: Seq<(Seq<char>, bool)> },
    Nvidia(Result<(), Seq<char>>),
    Running(bool),
    Virsh(Result<Seq<char>, Seq<char>>),
    XmlExists(bool),
    XmlEdited(Result<(), Seq<char>>),
}

pub enum ActionView {
    QueryGroup { pci_address: Seq<char> },
    ConfigureNvidia { vm_name: Seq<char> },
    QueryRunning { vm_name: Seq<char> },
    Virsh { pci_address: Seq<char> },
    CheckXml { path: Seq<char> },
    EditXml { pci_address: Seq<char>, path: Seq<char> },
    Done(Result<Seq<char>, Seq<char>>),
}

pub struct JobView {
    pub detach: bool,
    pub lang: Lang,
    pub vm_name: Seq<char>,
    pub gpu: GpuDeviceView,
    pub vms: Seq<VmInfoView>,
    pub devices: Seq<Seq<char>>,
    pub next: int,
    pub use_xml: bool,
    pub vm_running: bool,
    pub done: Seq<Seq<char>>,
    pub warnings: Seq<Seq<char>>,
    pub phase: PhaseView,
}

pub open spec fn res_view(r: Result<String, String>) -> Result<Seq<char>, Seq<char>> {
    match r {
        Ok(s) => Ok(s@),
        Err(e) => Err(e@),
    }
}

pub open spec fn unit_res_view(r: Result<(), String>) -> Result<(), Seq<char>> {
    match r {
        Ok(()) => Ok(()),
        Err(e) => Err(e@),
    }
}

pub open spec fn member_views(m: Seq<(String, bool)>) -> Seq<(Seq<char>, bool)> {
    m.map_values(|e: (String, bool)| (e.0@, e.1))
}

impl View for JobPhase {
    type V = PhaseView;

    open spec fn view(&self) -> PhaseView {
        match self {
            JobPhase::AwaitGroup => PhaseView::AwaitGroup,
            JobPhase::AwaitNvidia => PhaseView::AwaitNvidia,
            JobPhase::AwaitRunning => PhaseView::AwaitRunning,
            JobPhase::AwaitDevice => PhaseView::AwaitDevice,
            JobPhase::AwaitXmlCheck(b) => PhaseView::AwaitXmlCheck(*b),
            JobPhase::AwaitXmlEdit(b) => PhaseView::AwaitXmlEdit(*b),
            JobPhase::Finished(r) => PhaseView::Finished(res_view(*r)),
        }
    }
}

impl View for JobEvent {
    type V = EventView;

    open spec fn view(&self) -> EventView {
        match self {
            JobEvent::Group { gpu_host_display, members } => EventView::Group {
                gpu_host_display: *gpu_host_display,
                members: member_views(members@),
            },
            JobEvent::Nvidia(r) => EventView::Nvidia(unit_res_view(*r)),
            JobEvent::Running(b) => EventView::Running(*b),
            JobEvent::Virsh(r) => EventView::Virsh(res_view(*r)),
            JobEvent::XmlExists(b) => EventView::XmlExists(*b),
            JobEvent::XmlEdited(r) => EventView::XmlEdited(unit_res_view(*r)),
        }
    }
}

impl View for JobAction {
    type V = ActionView;

    open spec fn view(&self) -> ActionView {
        match self {
            JobAction::QueryGroup { pci_address } => ActionView::QueryGroup { pci_address: pci_address@ },
            JobAction::ConfigureNvidia { vm_name } => ActionView::ConfigureNvidia { vm_name: vm_name@ },
            JobAction::QueryRunning { vm_name } => ActionView::QueryRunning { vm_name: vm_name@ },
            JobAction::Virsh { pci_address } => ActionView::Virsh { pci_address: pci_address@ },
            JobAction::CheckXml { path } => ActionView::CheckXml { path: path@ },
            JobAction::EditXml { pci_address, path } => ActionView::EditXml {
                pci_address: pci_address@,
                path: path@,
            },
            JobAction::Done(r) => ActionView::Done(res_view(*r)),
        }
    }
}

impl View for VmJob {
    type V = JobView;

    open spec fn view(&self) -> JobView {
        JobView {
            detach: self.detach,
            lang: self.lang,
            vm_name: self.vm_name@,
            gpu: self.gpu@,
            vms: vm_views(self.vms@),
            devices: str_views(self.devices@),
            next: self.next as int,
            use_xml: self.use_xml,
            vm_running: self.vm_running,
            done: str_views(self.done@),
            warnings: str_views(self.warnings@),
            phase: self.phase@,
        }
    }
}

// ---------------------------------------------------------------------
// Warnings
// ---------------------------------------------------------------------

/// `template` with its first two `{}` replaced by `a` and `b`.
pub open spec fn fill2(template: Seq<char>, a: Seq<char>, b: Seq<char>) -> Seq<char> {
    replace_first(replace_first(template, "{}"@, a), "{}"@, b)
}

/// Warnings about the GPU itself: VMs that already hold it, and a display
/// that the host drives with it.
pub open spec fn gpu_warnings(lang: Lang, pci: Seq<char>, host_display: bool, vms: Seq<VmInfoView>) -> Seq<Seq<char>> {
    let hs = holders(vms, pci);
    (if hs.len() > 0 { seq![fill2(text_for(lang, "warn.vm_conflict"@), pci, join(hs, ", "@))] } else { Seq::empty() })
        + (if host_display { seq![replace_all(text_for(lang, "warn.host_display_gpu"@), "{}"@, pci)] } else { Seq::empty() })
}

/// The same for the other members of the IOMMU group (those equal to
/// `skip`, if given, left out).
pub open spec fn member_warnings(lang: Lang, members: Seq<(Seq<char>, bool)>, vms: Seq<VmInfoView>, skip: Option<Seq<char>>) -> Seq<Seq<char>>
    decreases members.len(),
{
    if members.len() == 0 {
        Seq::empty()
    } else {
        let rest = member_warnings(lang, members.drop_last(), vms, skip);
        let (dev, hd) = members.last();
        if skip == Some(dev) {
            rest
        } else {
            let hs = holders(vms, dev);
            rest + (if hs.len() > 0 { seq![fill2(text_for(lang, "warn.iommu_vm_conflict"@), dev, join(hs, ", "@))] } else { Seq::empty() })
                + (if hd { seq![replace_all(text_for(lang, "warn.iommu_host_display"@), "{}"@, dev)] } else { Seq::empty() })
        }
    }
}

pub(crate) fn fill2_exec(template: &String, a: &str, b: &str) -> (r: String)
    ensures
        r@ == fill2(template@, a@, b@),
{
    let x = fill(template, a);
    fill(&x, b)
}

/// The conflict and host-display warnings for one device.
fn device_warnings(lang: Lang, pci: &str, host_display: bool, vms: &Vec<VmInfo>, member: bool, out: &mut Vec<String>)
    ensures
        str_views(final(out)@) == str_views(old(out)@)
            + (if holders(vm_views(vms@), pci@).len() > 0 {
                seq![fill2(text_for(lang, if member { "warn.iommu_vm_conflict"@ } else { "warn.vm_conflict"@ }), pci@,
                    join(holders(vm_views(vms@), pci@), ", "@))]
            } else {
                Seq::empty()
            })
            + (if host_display {
                seq![replace_all(text_for(lang, if member { "warn.iommu_host_display"@ } else { "warn.host_display_gpu"@ }), "{}"@, pci@)]
            } else {
                Seq::empty()
            }),
{
    let info = check_gpu_conflicts(pci, vms, false);
    let ghost o = str_views(out@);
    if info.conflicting_vms.len() > 0 {
        let names = join_strings(&info.conflicting_vms, ", ");
        let tpl = if member { t(lang, "warn.iommu_vm_conflict") } else { t(lang, "warn.vm_conflict") };
        let w = fill2_exec(&tpl, pci, names.as_str());
        proof { lemma_str_views_push(out@, w); }
        out.push(w);
    }
    let ghost o2 = str_views(out@);
    if host_display {
        let tpl = if member { t(lang, "warn.iommu_host_display") } else { t(lang, "warn.host_display_gpu") };
        let w = fill_all(&tpl, pci);
        proof { lemma_str_views_push(out@, w); }
        out.push(w);
    }
    proof {
        assert(str_views(info.conflicting_vms@).len() == info.conflicting_vms@.len());
        assert(str_views(out@) =~= o
            + (if holders(vm_views(vms@), pci@).len() > 0 {
                seq![fill2(text_for(lang, if member { "warn.iommu_vm_conflict"@ } else { "warn.vm_conflict"@ }), pci@,
                    join(holders(vm_views(vms@), pci@), ", "@))]
            } else {
                Seq::empty()
            })
            + (if host_display {
                seq![replace_all(text_for(lang, if member { "warn.iommu_host_display"@ } else { "warn.host_display_gpu"@ }), "{}"@, pci@)]
            } else {
                Seq::empty()
            }));
    }
}

/// The warnings shown before a GPU is attached: VMs that already hold the
/// GPU or a member of its IOMMU group, and displays the host drives with
/// any of them (`skip` leaves the members equal to it out).
pub fn attach_warnings(lang: Lang, pci: &str, gpu_host_display: bool, members: &Vec<(String, bool)>, vms: &Vec<VmInfo>, skip: bool) -> (r: Vec<String>)
    ensures
        str_views(r@) == gpu_warnings(lang, pci@, gpu_host_display, vm_views(vms@))
            + member_warnings(lang, member_views(members@), vm_views(vms@), if skip { Some(pci@) } else { None }),
{
    let mut out: Vec<String> = Vec::new();
    device_warnings(lang, pci, gpu_host_display, vms, false, &mut out);
    let ghost base = str_views(out@);
    assert(base =~= gpu_warnings(lang, pci@, gpu_host_display, vm_views(vms@)));
    let ghost sk: Option<Seq<char>> = if skip { Some(pci@) } else { None };
    let mut i: usize = 0;
    assert(member_views(members@).take(0) =~= Seq::<(Seq<char>, bool)>::empty());
    while i < members.len()
        invariant
            i <= members.len(),
            sk == (if skip { Some(pci@) } else { None::<Seq<char>> }),
            str_views(out@) == base + member_warnings(lang, member_views(members@).take(i as int), vm_views(vms@), sk),
        decreases members.len() - i,
    {
        assert(member_views(members@).take(i + 1).drop_last() =~= member_views(members@).take(i as int));
        assert(member_views(members@).take(i + 1).last() == (members@[i as int].0@, members@[i as int].1));
        let (dev, hd) = &members[i];
        let ghost before = str_views(out@);
        if !(skip && same(dev.as_str(), pci)) {
            device_warnings(lang, dev.as_str(), *hd, vms, true, &mut out);
            assert(str_views(out@) =~= base + member_warnings(lang, member_views(members@).take(i + 1), vm_views(vms@), sk));
        }
        i = i + 1;
    }
    assert(member_views(members@).take(members.len() as int) =~= member_views(members@));
    out
}


// ---------------------------------------------------------------------
// The job
// ---------------------------------------------------------------------

/// The outside operation that a job in `j` waits for.
pub open spec fn pending(j: JobView) -> ActionView {
    match j.phase {
        PhaseView::AwaitGroup => ActionView::QueryGroup { pci_address: j.gpu.pci_address },
        PhaseView::AwaitNvidia => ActionView::ConfigureNvidia { vm_name: j.vm_name },
        PhaseView::AwaitRunning => ActionView::QueryRunning { vm_name: j.vm_name },
        PhaseView::AwaitDevice => ActionView::Virsh { pci_address: j.devices[j.next] },
        PhaseView::AwaitXmlCheck(_) => ActionView::CheckXml { path: default_xml_path(j.vm_name) },
        PhaseView::AwaitXmlEdit(_) => ActionView::EditXml {
            pci_address: j.devices[j.next],
            path: default_xml_path(j.vm_name),
        },
        PhaseView::Finished(r) => ActionView::Done(r),
    }
}

/// Each text followed by a line feed.
pub open spec fn lines_joined(ws: Seq<Seq<char>>) -> Seq<char>
    decreases ws.len(),
{
    if ws.len() == 0 {
        Seq::empty()
    } else {
        lines_joined(ws.drop_last()) + ws.last() + "\n"@
    }
}

/// The report of a finished job: the devices handled and, for an
/// attachment, the warnings.
pub open spec fn job_summary(j: JobView) -> Seq<char> {
    if j.detach {
        "Detached "@ + dec_str(j.done.len()) + " device(s): "@ + join(j.done, ", "@)
    } else {
        "Attached "@ + dec_str(j.done.len()) + " device(s): "@ + join(j.done, ", "@)
            + (if j.warnings.len() > 0 { "\n\n--- Warnings ---\n"@ + lines_joined(j.warnings) } else { Seq::empty() })
    }
}

pub open spec fn with_phase(j: JobView, p: PhaseView) -> JobView {
    JobView { phase: p, ..j }
}

/// The job ends with `r`.
pub open spec fn finish(j: JobView, r: Result<Seq<char>, Seq<char>>) -> (JobView, ActionView) {
    (with_phase(j, PhaseView::Finished(r)), ActionView::Done(r))
}

/// The refusal to edit the XML of a running VM once `virsh` has failed for an earlier device.
pub open spec fn xml_running_error(j: JobView) -> Seq<char> {
    let pci = j.devices[j.next];
    if j.detach {
        "Cannot remove XML for "@ + pci + " while VM '"@ + j.vm_name
            + "' is running. Shut off the VM first to modify persistent configuration."@
    } else {
        "Cannot inject XML for "@ + pci + " while VM '"@ + j.vm_name
            + "' is running. Shut off the VM first to modify persistent configuration."@
    }
}

/// The error where the domain XML file is missing.
pub open spec fn no_xml_error(j: JobView, after_virsh: bool) -> Seq<char> {
    let pci = j.devices[j.next];
    if j.detach {
        if after_virsh {
            "Failed to detach "@ + pci + " from "@ + j.vm_name + " and no XML found"@
        } else {
            "Cannot remove "@ + pci + ": no XML found for VM "@ + j.vm_name
        }
    } else {
        if after_virsh {
            "Failed to attach "@ + pci + " via virsh and no XML file found for VM '"@ + j.vm_name + "'"@
        } else {
            "Cannot inject "@ + pci + ": no XML found for VM "@ + j.vm_name
        }
    }
}

/// The refusal to fall back to the XML file of a running VM after `virsh` failed.
pub open spec fn virsh_running_error(j: JobView) -> Seq<char> {
    let pci = j.devices[j.next];
    if j.detach {
        "Failed to detach "@ + pci + " via virsh and VM '"@ + j.vm_name
            + "' is running. Shut off the VM to use XML modification."@
    } else {
        "Failed to attach "@ + pci + " via virsh and VM '"@ + j.vm_name
            + "' is running. Shut off the VM to use XML injection."@
    }
}

/// On to the device at `j.next`: through `virsh` until it has failed once,
/// from then on through the XML file, which is never edited while the VM
/// runs.
pub open spec fn advance(j: JobView) -> (JobView, ActionView) {
    if j.next >= j.devices.len() {
        finish(j, Ok(job_summary(j)))
    } else if j.use_xml {
        if j.vm_running {
            finish(j, Err(xml_running_error(j)))
        } else {
            let j2 = with_phase(j, PhaseView::AwaitXmlCheck(false));
            (j2, pending(j2))
        }
    } else {
        let j2 = with_phase(j, PhaseView::AwaitDevice);
        (j2, pending(j2))
    }
}

/// The job after the device at `j.next` was handled, with `note` on it.
pub open spec fn device_done(j: JobView, note: Seq<char>, use_xml: bool) -> JobView {
    JobView {
        done: j.done.push(j.devices[j.next] + note),
        next: j.next + 1,
        use_xml,
        ..j
    }
}

/// One step: the job's next state and the operation it asks for, given
/// what the last one reported. An event that the job does not wait for
/// changes nothing and repeats the request.
pub open spec fn job_step(j: JobView, e: EventView) -> (JobView, ActionView) {
    match (j.phase, e) {
        (PhaseView::AwaitGroup, EventView::Group { gpu_host_display, members }) => {
            let j2 = JobView {
                devices: seq![j.gpu.pci_address] + members.map_values(|m: (Seq<char>, bool)| m.0),
                warnings: if j.detach {
                    j.warnings
                } else {
                    gpu_warnings(j.lang, j.gpu.pci_address, gpu_host_display, j.vms)
                        + member_warnings(j.lang, members, j.vms, Some(j.gpu.pci_address))
                },
                ..j
            };
            if !j.detach && nvidia_gpu(j.gpu) {
                let j3 = with_phase(j2, PhaseView::AwaitNvidia);
                (j3, pending(j3))
            } else {
                let j3 = with_phase(j2, PhaseView::AwaitRunning);
                (j3, pending(j3))
            }
        },
        (PhaseView::AwaitNvidia, EventView::Nvidia(r)) => match r {
            Ok(()) => {
                let j2 = with_phase(j, PhaseView::AwaitRunning);
                (j2, pending(j2))
            },
            Err(msg) => finish(j, Err("Failed to configure NVIDIA VM features: "@ + msg)),
        },
        (PhaseView::AwaitRunning, EventView::Running(b)) => advance(JobView { vm_running: b, next: 0, ..j }),
        (PhaseView::AwaitDevice, EventView::Virsh(r)) => match r {
            Ok(out) => advance(device_done(j, ": "@ + out, j.use_xml)),
            Err(_) => if !j.detach && j.vm_running {
                finish(j, Err(virsh_running_error(j)))
            } else {
                let j2 = with_phase(j, PhaseView::AwaitXmlCheck(true));
                (j2, pending(j2))
            },
        },
        (PhaseView::AwaitXmlCheck(after_virsh), EventView::XmlExists(exists)) => if !exists {
            finish(j, Err(no_xml_error(j, after_virsh)))
        } else if j.detach && after_virsh && j.vm_running {
            finish(j, Err(virsh_running_error(j)))
        } else {
            let j2 = with_phase(j, PhaseView::AwaitXmlEdit(after_virsh));
            (j2, pending(j2))
        },
        (PhaseView::AwaitXmlEdit(after_virsh), EventView::XmlEdited(r)) => match r {
            Ok(()) => advance(device_done(j,
                if j.detach { ": removed from XML"@ } else { ": injected into XML"@ },
                j.use_xml || after_virsh)),
            Err(msg) => finish(j, Err(msg)),
        },
        _ => (j, pending(j)),
    }
}

/// A job is well formed when its current device exists while it waits on one.
pub open spec fn job_wf(j: JobView) -> bool {
    (j.phase is AwaitDevice || j.phase is AwaitXmlCheck || j.phase is AwaitXmlEdit) ==> 0 <= j.next < j.devices.len()
}

/// A job that has not started: it waits for the IOMMU group of `gpu`.
pub open spec fn new_job(detach: bool, lang: Lang, vm_name: Seq<char>, gpu: GpuDeviceView, vms: Seq<VmInfoView>) -> JobView {
    JobView {
        detach,
        lang,
        vm_name,
        gpu,
        vms,
        devices: Seq::empty(),
        next: 0,
        use_xml: false,
        vm_running: false,
        done: Seq::empty(),
        warnings: Seq::empty(),
        phase: PhaseView::AwaitGroup,
    }
}

/// What every state of a job keeps: the XML file is only looked at or
/// edited for a VM that does not run, except that a detach may look at it
/// after `virsh` failed (and then stops).
pub open spec fn job_safe(j: JobView) -> bool {
    &&& job_wf(j)
    &&& j.phase matches PhaseView::AwaitXmlCheck(after_virsh) ==> (!j.vm_running || (j.detach && after_virsh))
    &&& j.phase is AwaitXmlEdit ==> !j.vm_running
}

/// A fresh job keeps the safety invariant.
pub proof fn lemma_new_job_safe(detach: bool, lang: Lang, vm_name: Seq<char>, gpu: GpuDeviceView, vms: Seq<VmInfoView>)
    ensures
        job_safe(new_job(detach, lang, vm_name, gpu, vms)),
{
}

/// Every step keeps the safety invariant, and no step asks to edit the XML
/// file of a VM that runs: a running VM's persistent configuration is only
/// ever changed through `virsh`.
pub proof fn lemma_job_never_edits_running_vm(j: JobView, e: EventView)
    requires
        job_safe(j),
    ensures
        job_safe(job_step(j, e).0),
        job_step(j, e).1 is EditXml ==> !job_step(j, e).0.vm_running,
        job_step(j, e).1 is CheckXml ==> (!job_step(j, e).0.vm_running || job_step(j, e).0.detach),
{
}

/// A job stops at its outcome: once finished, every event leaves it as it
/// is and gets that outcome again.
pub proof fn lemma_finished_job_stays(j: JobView, e: EventView)
    requires
        j.phase is Finished,
    ensures
        job_step(j, e) == (j, ActionView::Done(j.phase->Finished_0)),
{
}

/// `j` with `vms` as its VM list.
pub open spec fn with_vms(j: JobView, vms: Seq<VmInfoView>) -> JobView {
    JobView { vms, ..j }
}

/// A detach does not look at the VM list: two detach jobs that differ only
/// in it take every step alike, asking for the same operation.
pub proof fn lemma_detach_ignores_vms(j: JobView, vms: Seq<VmInfoView>, e: EventView)
    requires
        j.detach,
    ensures
        job_step(with_vms(j, vms), e).1 == job_step(j, e).1,
        job_step(with_vms(j, vms), e).0 == with_vms(job_step(j, e).0, vms),
{
}

/// Starts attaching `gpu`, with the rest of its IOMMU group, to `vm_name`:
/// the job and the first operation it asks for.
pub fn attach_gpu_to_vm(lang: Lang, vm_name: &str, gpu: &GpuDevice, all_vms: &Vec<VmInfo>) -> (r: (VmJob, JobAction))
    ensures
        r.0@ == new_job(false, lang, vm_name@, gpu@, vm_views(all_vms@)),
        r.1@ == pending(r.0@),
        job_safe(r.0@),
{
    VmJob::start(false, lang, vm_name, gpu, all_vms)
}

/// Starts detaching `gpu`, with the rest of its IOMMU group, from
/// `vm_name`: the job and the first operation it asks for.
pub fn detach_gpu_from_vm(lang: Lang, vm_name: &str, gpu: &GpuDevice, all_vms: &Vec<VmInfo>) -> (r: (VmJob, JobAction))
    ensures
        r.0@ == new_job(true, lang, vm_name@, gpu@, vm_views(all_vms@)),
        r.1@ == pending(r.0@),
        job_safe(r.0@),
{
    VmJob::start(true, lang, vm_name, gpu, all_vms)
}

impl VmJob {
    /// A job that attaches (or, with `detach`, detaches) `gpu` to (from)
    /// `vm_name`, and the first operation it asks for.
    fn start(detach: bool, lang: Lang, vm_name: &str, gpu: &GpuDevice, all_vms: &Vec<VmInfo>) -> (r: (VmJob, JobAction))
        ensures
            r.0@ == (JobView {
                detach,
                lang,
                vm_name: vm_name@,
                gpu: gpu@,
                vms: vm_views(all_vms@),
                devices: Seq::empty(),
                next: 0,
                use_xml: false,
                vm_running: false,
                done: Seq::empty(),
                warnings: Seq::empty(),
                phase: PhaseView::AwaitGroup,
            }),
            r.1@ == pending(r.0@),
            job_wf(r.0@),
    {
        let mut vms: Vec<VmInfo> = Vec::new();
        let mut i: usize = 0;
        while i < all_vms.len()
            invariant
                i <= all_vms.len(),
                vm_views(vms@) == vm_views(all_vms@).take(i as int),
            decreases all_vms.len() - i,
        {
            let v = all_vms[i].copy();
            let ghost o = vms@;
            let ghost vv = v@;
            vms.push(v);
            assert(vm_views(vms@) =~= vm_views(o).push(vv));
            i = i + 1;
            assert(vm_views(vms@) =~= vm_views(all_vms@).take(i as int));
        }
        assert(vm_views(all_vms@).take(all_vms.len() as int) =~= vm_views(all_vms@));
        let job = VmJob {
            detach,
            lang,
            vm_name: vm_name.to_string(),
            gpu: gpu.copy(),
            vms,
            devices: Vec::new(),
            next: 0,
            use_xml: false,
            vm_running: false,
            done: Vec::new(),
            warnings: Vec::new(),
            phase: JobPhase::AwaitGroup,
        };
        assert(str_views(job.devices@) =~= Seq::<Seq<char>>::empty());
        let a = JobAction::QueryGroup { pci_address: job.gpu.pci_address.clone() };
        (job, a)
    }

    fn pending_exec(&self) -> (r: JobAction)
        requires
            job_wf(self@),
        ensures
            r@ == pending(self@),
    {
        match &self.phase {
            JobPhase::AwaitGroup => JobAction::QueryGroup { pci_address: self.gpu.pci_address.clone() },
            JobPhase::AwaitNvidia => JobAction::ConfigureNvidia { vm_name: self.vm_name.clone() },
            JobPhase::AwaitRunning => JobAction::QueryRunning { vm_name: self.vm_name.clone() },
            JobPhase::AwaitDevice => JobAction::Virsh { pci_address: self.devices[self.next].clone() },
            JobPhase::AwaitXmlCheck(_) => JobAction::CheckXml { path: vm_xml_path(self.vm_name.as_str()) },
            JobPhase::AwaitXmlEdit(_) => JobAction::EditXml {
                pci_address: self.devices[self.next].clone(),
                path: vm_xml_path(self.vm_name.as_str()),
            },
            JobPhase::Finished(r) => JobAction::Done(match r {
                Ok(s) => Ok(s.clone()),
                Err(e) => Err(e.clone()),
            }),
        }
    }

    fn finish_exec(&mut self, r: Result<String, String>) -> (a: JobAction)
        ensures
            (final(self)@, a@) == finish(old(self)@, res_view(r)),
    {
        let a = JobAction::Done(match &r {
            Ok(s) => Ok(s.clone()),
            Err(e) => Err(e.clone()),
        });
        self.phase = JobPhase::Finished(r);
        a
    }

    fn summary_exec(&self) -> (r: String)
        ensures
            r@ == job_summary(self@),
    {
        let mut out = if self.detach { chars_of("Detached ") } else { chars_of("Attached ") };
        let n = dec_str_exec(self.done.len() as u64);
        extend(&mut out, &n);
        extend_str(&mut out, " device(s): ");
        let j = join_strings(&self.done, ", ");
        extend_str(&mut out, j.as_str());
        if !self.detach && self.warnings.len() > 0 {
            extend_str(&mut out, "\n\n--- Warnings ---\n");
            let mut i: usize = 0;
            let ghost base = out@;
            assert(str_views(self.warnings@).take(0) =~= Seq::<Seq<char>>::empty());
            while i < self.warnings.len()
                invariant
                    i <= self.warnings.len(),
                    out@ == base + lines_joined(str_views(self.warnings@).take(i as int)),
                decreases self.warnings.len() - i,
            {
                assert(str_views(self.warnings@).take(i + 1).drop_last() =~= str_views(self.warnings@).take(i as int));
                extend_str(&mut out, self.warnings[i].as_str());
                extend_str(&mut out, "\n");
                i = i + 1;
                assert(out@ =~= base + lines_joined(str_views(self.warnings@).take(i as int)));
            }
            assert(str_views(self.warnings@).take(self.warnings.len() as int) =~= str_views(self.warnings@));
        }
        string_of(&out)
    }

    fn advance_exec(&mut self) -> (a: JobAction)
        ensures
            (final(self)@, a@) == advance(old(self)@),
            job_wf(final(self)@),
    {
        if self.next >= self.devices.len() {
            let s = self.summary_exec();
            self.finish_exec(Ok(s))
        } else if self.use_xml {
            if self.vm_running {
                let pci = self.devices[self.next].clone();
                let mut e = if self.detach { chars_of("Cannot remove XML for ") } else { chars_of("Cannot inject XML for ") };
                extend_str(&mut e, pci.as_str());
                extend_str(&mut e, " while VM '");
                extend_str(&mut e, self.vm_name.as_str());
                extend_str(&mut e, "' is running. Shut off the VM first to modify persistent configuration.");
                self.finish_exec(Err(string_of(&e)))
            } else {
                self.phase = JobPhase::AwaitXmlCheck(false);
                self.pending_exec()
            }
        } else {
            self.phase = JobPhase::AwaitDevice;
            self.pending_exec()
        }
    }

    /// One step of the job (see `job_step`).
    pub fn step(&mut self, event: JobEvent) -> (a: JobAction)
        requires
            job_wf(old(self)@),
        ensures
            (final(self)@, a@) == job_step(old(self)@, event@),
            job_wf(final(self)@),
    {
        let ghost j = self@;
        match (&self.phase, event) {
            (JobPhase::AwaitGroup, JobEvent::Group { gpu_host_display, members }) => {
                let mut devices: Vec<String> = Vec::new();
                devices.push(self.gpu.pci_address.clone());
                let mut i: usize = 0;
                while i < members.len()
                    invariant
                        i <= members.len(),
                        str_views(devices@) == seq![j.gpu.pci_address] + member_views(members@).map_values(|m: (Seq<char>, bool)| m.0).take(i as int),
                    decreases members.len() - i,
                {
                    let d = members[i].0.clone();
                    proof { lemma_str_views_push(devices@, d); }
                    devices.push(d);
                    i = i + 1;
                    assert(str_views(devices@) =~= seq![j.gpu.pci_address] + member_views(members@).map_values(|m: (Seq<char>, bool)| m.0).take(i as int));
                }
                assert(member_views(members@).map_values(|m: (Seq<char>, bool)| m.0).take(members.len() as int)
                    =~= member_views(members@).map_values(|m: (Seq<char>, bool)| m.0));
                if !self.detach {
                    self.warnings = attach_warnings(self.lang, self.gpu.pci_address.as_str(), gpu_host_display, &members, &self.vms, true);
                }
                self.devices = devices;
                if !self.detach && is_nvidia(&self.gpu) {
                    self.phase = JobPhase::AwaitNvidia;
                } else {
                    self.phase = JobPhase::AwaitRunning;
                }
                self.pending_exec()
            },
            (JobPhase::AwaitNvidia, JobEvent::Nvidia(r)) => match r {
                Ok(()) => {
                    self.phase = JobPhase::AwaitRunning;
                    self.pending_exec()
                },
                Err(msg) => {
                    let mut e = chars_of("Failed to configure NVIDIA VM features: ");
                    extend_str(&mut e, msg.as_str());
                    self.finish_exec(Err(string_of(&e)))
                },
            },
            (JobPhase::AwaitRunning, JobEvent::Running(b)) => {
                self.vm_running = b;
                self.next = 0;
                self.advance_exec()
            },
            (JobPhase::AwaitDevice, JobEvent::Virsh(r)) => match r {
                Ok(out) => {
                    assert(self.next < self.devices.len());
                    let mut note = self.devices[self.next].clone();
                    let mut nv = chars_of(note.as_str());
                    extend_str(&mut nv, ": ");
                    extend_str(&mut nv, out.as_str());
                    note = string_of(&nv);
                    assert(note@ =~= j.devices[j.next] + (": "@ + out@));
                    proof { lemma_str_views_push(self.done@, note); }
                    self.done.push(note);
                    self.next = self.next + 1;
                    self.advance_exec()
                },
                Err(_) => {
                    if !self.detach && self.vm_running {
                        let e = self.virsh_running_error_exec();
                        self.finish_exec(Err(e))
                    } else {
                        self.phase = JobPhase::AwaitXmlCheck(true);
                        self.pending_exec()
                    }
                },
            },
            (JobPhase::AwaitXmlCheck(after_virsh), JobEvent::XmlExists(exists)) => {
                let av = *after_virsh;
                if !exists {
                    let e = self.no_xml_error_exec(av);
                    self.finish_exec(Err(e))
                } else if self.detach && av && self.vm_running {
                    let e = self.virsh_running_error_exec();
                    self.finish_exec(Err(e))
                } else {
                    self.phase = JobPhase::AwaitXmlEdit(av);
                    self.pending_exec()
                }
            },
            (JobPhase::AwaitXmlEdit(after_virsh), JobEvent::XmlEdited(r)) => {
                let av = *after_virsh;
                assert(self.next < self.devices.len());
                match r {
                    Ok(()) => {
                        let mut nv = chars_of(self.devices[self.next].as_str());
                        if self.detach {
                            extend_str(&mut nv, ": removed from XML");
                        } else {
                            extend_str(&mut nv, ": injected into XML");
                        }
                        let note = string_of(&nv);
                        proof { lemma_str_views_push(self.done@, note); }
                        self.done.push(note);
                        self.next = self.next + 1;
                        self.use_xml = self.use_xml || av;
                        self.advance_exec()
                    },
                    Err(msg) => self.finish_exec(Err(msg)),
                }
            },
            (_, _) => self.pending_exec(),
        }
    }

    fn virsh_running_error_exec(&self) -> (r: String)
        requires
            0 <= self.next < self.devices.len(),
        ensures
            r@ == virsh_running_error(self@),
    {
        let mut e = if self.detach { chars_of("Failed to detach ") } else { chars_of("Failed to attach ") };
        extend_str(&mut e, self.devices[self.next].as_str());
        extend_str(&mut e, " via virsh and VM '");
        extend_str(&mut e, self.vm_name.as_str());
        if self.detach {
            extend_str(&mut e, "' is running. Shut off the VM to use XML modification.");
        } else {
            extend_str(&mut e, "' is running. Shut off the VM to use XML injection.");
        }
        string_of(&e)
    }

    fn no_xml_error_exec(&self, after_virsh: bool) -> (r: String)
        requires
            0 <= self.next < self.devices.len(),
        ensures
            r@ == no_xml_error(self@, after_virsh),
    {
        let pci = self.devices[self.next].as_str();
        let vm = self.vm_name.as_str();
        let mut e: Vec<char>;
        if self.detach {
            if after_virsh {
                e = chars_of("Failed to detach ");
                extend_str(&mut e, pci);
                extend_str(&mut e, " from ");
                extend_str(&mut e, vm);
                extend_str(&mut e, " and no XML found");
            } else {
                e = chars_of("Cannot remove ");
                extend_str(&mut e, pci);
                extend_str(&mut e, ": no XML found for VM ");
                extend_str(&mut e, vm);
            }
        } else {
            if after_virsh {
                e = chars_of("Failed to attach ");
                extend_str(&mut e, pci);
                extend_str(&mut e, " via virsh and no XML file found for VM '");
                extend_str(&mut e, vm);
                extend_str(&mut e, "'");
            } else {
                e = chars_of("Cannot inject ");
                extend_str(&mut e, pci);
                extend_str(&mut e, ": no XML found for VM ");
                extend_str(&mut e, vm);
            }
        }
        string_of(&e)
    }
}

} // verus!
