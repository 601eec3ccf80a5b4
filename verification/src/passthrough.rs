//! VFIO configuration, the outcome texts of passthrough operations, and
//! the full automatic passthrough of every suitable GPU to one VM.

use vstd::prelude::*;
use crate::gpu::{gpu_views, is_nvidia, nvidia_gpu, GpuDevice, GpuDeviceView};
use crate::lang::{t, text_for, Lang};
use crate::vm::{vm_views, VmInfo, VmInfoView};
use crate::text::{
    chars_of, extend, extend_str, fill_all, join, join_exec, lemma_views_push, replace_all,
    string_of, views,
};

verus! {

/// Outcome of a passthrough operation.
#[derive(Debug)]
pub enum PassthroughResult {
    Success(String),
    Warning(String),
    Error(String),
    NeedsReboot(String),
}

pub enum PassthroughView {
    Success(Seq<char>),
    Warning(Seq<char>),
    Error(Seq<char>),
    NeedsReboot(Seq<char>),
}

impl View for PassthroughResult {
    type V = PassthroughView;

    open spec fn view(&self) -> PassthroughView {
        match self {
            PassthroughResult::Success(m) => PassthroughView::Success(m@),
            PassthroughResult::Warning(m) => PassthroughView::Warning(m@),
            PassthroughResult::Error(m) => PassthroughView::Error(m@),
            PassthroughResult::NeedsReboot(m) => PassthroughView::NeedsReboot(m@),
        }
    }
}

/// The `vendor:device` id pair of a GPU.
pub open spec fn id_pair(g: GpuDeviceView) -> Seq<char> {
    g.vendor_id + ":"@ + g.device_id
}

pub open spec fn id_pairs(gs: Seq<GpuDeviceView>) -> Seq<Seq<char>> {
    gs.map_values(|g: GpuDeviceView| id_pair(g))
}

/// Whether one of the GPUs is an NVIDIA one.
pub open spec fn any_nvidia(gs: Seq<GpuDeviceView>) -> bool {
    exists|i: int| 0 <= i < gs.len() && nvidia_gpu(#[trigger] gs[i])
}

pub open spec fn nvidia_softdeps() -> Seq<char> {
    "softdep nvidia pre: vfio-pci\nsoftdep nouveau pre: vfio-pci\nsoftdep nvidia_drm pre: vfio-pci\nsoftdep nvidia_modeset pre: vfio-pci\n"@
}

/// The modprobe configuration that binds the GPUs' ids to vfio-pci at
/// boot, with the NVIDIA drivers made to wait for vfio-pci where an
/// NVIDIA GPU is among them.
pub open spec fn vfio_conf(gs: Seq<GpuDeviceView>) -> Seq<char> {
    "# Generated by gpupass - GPU Passthrough Manager\n"@
        + (if any_nvidia(gs) { nvidia_softdeps() } else { Seq::empty() })
        + "options vfio-pci ids="@ + join(id_pairs(gs), ","@) + "\n"@
}

/// The modprobe configuration for the GPUs (see `vfio_conf`).
pub fn generate_vfio_conf(gpus: &Vec<GpuDevice>) -> (r: String)
    ensures
        r@ == vfio_conf(gpu_views(gpus@)),
{
    let mut has_nvidia = false;
    let mut ids: Vec<Vec<char>> = Vec::new();
    let mut i: usize = 0;
    while i < gpus.len()
        invariant
            i <= gpus.len(),
            has_nvidia == exists|k: int| 0 <= k < i && nvidia_gpu(#[trigger] gpu_views(gpus@)[k]),
            views(ids@) == id_pairs(gpu_views(gpus@)).take(i as int),
        decreases gpus.len() - i,
    {
        let g = &gpus[i];
        assert(gpu_views(gpus@)[i as int] == g@);
        if is_nvidia(g) {
            has_nvidia = true;
        }
        let mut pair = chars_of(g.vendor_id.as_str());
        extend_str(&mut pair, ":");
        extend_str(&mut pair, g.device_id.as_str());
        proof { lemma_views_push(ids@, pair); }
        ids.push(pair);
        i = i + 1;
        assert(views(ids@) =~= id_pairs(gpu_views(gpus@)).take(i as int));
    }
    assert(id_pairs(gpu_views(gpus@)).take(gpus.len() as int) =~= id_pairs(gpu_views(gpus@)));
    let mut conf = chars_of("# Generated by gpupass - GPU Passthrough Manager\n");
    if has_nvidia {
        extend_str(&mut conf, "softdep nvidia pre: vfio-pci\nsoftdep nouveau pre: vfio-pci\nsoftdep nvidia_drm pre: vfio-pci\nsoftdep nvidia_modeset pre: vfio-pci\n");
    }
    extend_str(&mut conf, "options vfio-pci ids=");
    let sep = chars_of(",");
    let j = join_exec(&ids, &sep);
    extend(&mut conf, &j);
    extend_str(&mut conf, "\n");
    string_of(&conf)
}

/// The text that reports a passthrough outcome in `lang`.
pub open spec fn outcome_text(lang: Lang, r: PassthroughView) -> Seq<char> {
    match r {
        PassthroughView::Success(m) => replace_all(text_for(lang, "msg.ok"@), "{}"@, m),
        PassthroughView::Warning(m) => replace_all(text_for(lang, "msg.warn"@), "{}"@, m),
        PassthroughView::Error(m) => replace_all(text_for(lang, "msg.err"@), "{}"@, m),
        PassthroughView::NeedsReboot(m) => replace_all(text_for(lang, "msg.reboot"@), "{}"@, m),
    }
}

/// The text that reports a passthrough outcome in `lang`.
pub fn format_passthrough_result(lang: Lang, result: PassthroughResult) -> (r: String)
    ensures
        r@ == outcome_text(lang, result@),
{
    match result {
        PassthroughResult::Success(msg) => fill_all(&t(lang, "msg.ok"), msg.as_str()),
        PassthroughResult::Warning(msg) => fill_all(&t(lang, "msg.warn"), msg.as_str()),
        PassthroughResult::Error(msg) => fill_all(&t(lang, "msg.err"), msg.as_str()),
        PassthroughResult::NeedsReboot(msg) => fill_all(&t(lang, "msg.reboot"), msg.as_str()),
    }
}

// ---------------------------------------------------------------------
// Automatic passthrough
// ---------------------------------------------------------------------

/// Where an automatic passthrough stands.
pub enum AutoPhase {
    AwaitGpus,
    AwaitIommu,
    AwaitApply,
    AwaitInitramfs,
    AwaitVms,
    AwaitAttach,
    Finished,
}

/// What the outside world reports to an automatic passthrough.
pub enum AutoEvent {
    /// The GPUs of the machine.
    Gpus(Vec<GpuDevice>),
    /// Whether the IOMMU is on.
    Iommu(bool),
    /// Outcome of writing the VFIO configuration for the job's GPUs.
    Applied(Result<PassthroughResult, String>),
    /// Outcome of updating the initramfs.
    Initramfs(Result<String, String>),
    /// The VMs of the machine.
    Vms(Vec<VmInfo>),
    /// Outcome of attaching the current GPU to the VM.
    Attached(Result<String, String>),
}

/// What an automatic passthrough asks the outside world to do next.
pub enum AutoAction {
    /// Detect the GPUs (`Gpus`).
    DetectGpus,
    /// Report whether the IOMMU is on (`Iommu`).
    CheckIommu,
    /// Write the VFIO configuration for the job's GPUs (`Applied`).
    ApplyVfio,
    /// Update the initramfs (`Initramfs`).
    UpdateInitramfs,
    /// Detect the VMs (`Vms`).
    DetectVms,
    /// Attach the job's GPU at `gpu_index` to the VM, given the job's VMs (`Attached`).
    Attach { gpu_index: usize },
    /// Over; the outcomes are in the job.
    Done,
}

/// Passing every GPU that can be passed through to one VM: the VFIO
/// configuration, the initramfs, then one attachment per GPU.
pub struct AutoJob {
    pub vm_name: String,
    /// The GPUs that can be passed through.
    pub gpus: Vec<GpuDevice>,
    pub vms: Vec<VmInfo>,
    pub next: usize,
    /// The outcome of each stage, in order.
    pub results: Vec<PassthroughResult>,
    pub phase: AutoPhase,
}

pub enum AutoPhaseView {
    AwaitGpus,
    AwaitIommu,
    AwaitApply,
    AwaitInitramfs,
    AwaitVms,
    AwaitAttach,
    Finished,
}

pub enum AutoEventView {
    Gpus(Seq<GpuDeviceView>),
    Iommu(bool),
    Applied(Result<PassthroughView, Seq<char>>),
    Initramfs(Result<Seq<char>, Seq<char>>),
    Vms(Seq<VmInfoView>),
    Attached(Result<Seq<char>, Seq<char>>),
}

pub enum AutoActionView {
    DetectGpus,
    CheckIommu,
    ApplyVfio,
    UpdateInitramfs,
    DetectVms,
    Attach { gpu_index: int },
    Done,
}

pub struct AutoView {
    pub vm_name: Seq<char>,
    pub gpus: Seq<GpuDeviceView>,
    pub vms: Seq<VmInfoView>,
    pub next: int,
    pub results: Seq<PassthroughView>,
    pub phase: AutoPhaseView,
}

pub open spec fn outcome_views(rs: Seq<PassthroughResult>) -> Seq<PassthroughView> {
    rs.map_values(|r: PassthroughResult| r@)
}

impl View for AutoEvent {
    type V = AutoEventView;

    open spec fn view(&self) -> AutoEventView {
        match self {
            AutoEvent::Gpus(g) => AutoEventView::Gpus(gpu_views(g@)),
            AutoEvent::Iommu(b) => AutoEventView::Iommu(*b),
            AutoEvent::Applied(r) => AutoEventView::Applied(match r {
                Ok(p) => Ok(p@),
                Err(e) => Err(e@),
            }),
            AutoEvent::Initramfs(r) => AutoEventView::Initramfs(match r {
                Ok(m) => Ok(m@),
                Err(e) => Err(e@),
            }),
            AutoEvent::Vms(v) => AutoEventView::Vms(vm_views(v@)),
            AutoEvent::Attached(r) => AutoEventView::Attached(match r {
                Ok(m) => Ok(m@),
                Err(e) => Err(e@),
            }),
        }
    }
}

impl View for AutoAction {
    type V = AutoActionView;

    open spec fn view(&self) -> AutoActionView {
        match self {
            AutoAction::DetectGpus => AutoActionView::DetectGpus,
            AutoAction::CheckIommu => AutoActionView::CheckIommu,
            AutoAction::ApplyVfio => AutoActionView::ApplyVfio,
            AutoAction::UpdateInitramfs => AutoActionView::UpdateInitramfs,
            AutoAction::DetectVms => AutoActionView::DetectVms,
            AutoAction::Attach { gpu_index } => AutoActionView::Attach { gpu_index: *gpu_index as int },
            AutoAction::Done => AutoActionView::Done,
        }
    }
}

impl View for AutoJob {
    type V = AutoView;

    open spec fn view(&self) -> AutoView {
        AutoView {
            vm_name: self.vm_name@,
            gpus: gpu_views(self.gpus@),
            vms: vm_views(self.vms@),
            next: self.next as int,
            results: outcome_views(self.results@),
            phase: match self.phase {
                AutoPhase::AwaitGpus => AutoPhaseView::AwaitGpus,
                AutoPhase::AwaitIommu => AutoPhaseView::AwaitIommu,
                AutoPhase::AwaitApply => AutoPhaseView::AwaitApply,
                AutoPhase::AwaitInitramfs => AutoPhaseView::AwaitInitramfs,
                AutoPhase::AwaitVms => AutoPhaseView::AwaitVms,
                AutoPhase::AwaitAttach => AutoPhaseView::AwaitAttach,
                AutoPhase::Finished => AutoPhaseView::Finished,
            },
        }
    }
}

/// The GPUs that can be passed through, in order.
pub open spec fn passable_gpus(gs: Seq<GpuDeviceView>) -> Seq<GpuDeviceView>
    decreases gs.len(),
{
    if gs.len() == 0 {
        Seq::empty()
    } else {
        let rest = passable_gpus(gs.drop_last());
        if gs.last().can_passthrough { rest.push(gs.last()) } else { rest }
    }
}

pub open spec fn auto_pending(j: AutoView) -> AutoActionView {
    match j.phase {
        AutoPhaseView::AwaitGpus => AutoActionView::DetectGpus,
        AutoPhaseView::AwaitIommu => AutoActionView::CheckIommu,
        AutoPhaseView::AwaitApply => AutoActionView::ApplyVfio,
        AutoPhaseView::AwaitInitramfs => AutoActionView::UpdateInitramfs,
        AutoPhaseView::AwaitVms => AutoActionView::DetectVms,
        AutoPhaseView::AwaitAttach => AutoActionView::Attach { gpu_index: j.next },
        AutoPhaseView::Finished => AutoActionView::Done,
    }
}

pub open spec fn auto_go(j: AutoView, p: AutoPhaseView) -> (AutoView, AutoActionView) {
    (AutoView { phase: p, ..j }, auto_pending(AutoView { phase: p, ..j }))
}

/// The job ends with one more outcome.
pub open spec fn auto_end(j: AutoView, r: PassthroughView) -> (AutoView, AutoActionView) {
    auto_go(AutoView { results: j.results.push(r), ..j }, AutoPhaseView::Finished)
}

/// One step of an automatic passthrough. An event that it does not wait
/// for changes nothing and repeats the request.
pub open spec fn auto_step(j: AutoView, e: AutoEventView) -> (AutoView, AutoActionView) {
    match (j.phase, e) {
        (AutoPhaseView::AwaitGpus, AutoEventView::Gpus(gs)) => {
            let p = passable_gpus(gs);
            if p.len() == 0 {
                auto_end(j, PassthroughView::Error("No GPUs available for passthrough"@))
            } else {
                auto_go(AutoView { gpus: p, ..j }, AutoPhaseView::AwaitIommu)
            }
        },
        (AutoPhaseView::AwaitIommu, AutoEventView::Iommu(on)) => if on {
            auto_go(j, AutoPhaseView::AwaitApply)
        } else {
            auto_end(j, PassthroughView::Error(
                "IOMMU is not enabled. Please enable IOMMU in your BIOS and kernel parameters."@))
        },
        (AutoPhaseView::AwaitApply, AutoEventView::Applied(r)) => match r {
            Ok(p) => auto_go(AutoView { results: j.results.push(p), ..j }, AutoPhaseView::AwaitInitramfs),
            Err(e) => auto_end(j, PassthroughView::Error("Failed to apply VFIO config: "@ + e)),
        },
        (AutoPhaseView::AwaitInitramfs, AutoEventView::Initramfs(r)) => auto_go(AutoView {
            results: j.results.push(match r {
                Ok(m) => PassthroughView::Success(m),
                Err(e) => PassthroughView::Warning("Initramfs update failed: "@ + e + ". You may need to run it manually."@),
            }),
            ..j
        }, AutoPhaseView::AwaitVms),
        (AutoPhaseView::AwaitVms, AutoEventView::Vms(vs)) =>
            auto_go(AutoView { vms: vs, next: 0, ..j }, AutoPhaseView::AwaitAttach),
        (AutoPhaseView::AwaitAttach, AutoEventView::Attached(r)) => {
            let pci = j.gpus[j.next].pci_address;
            let j2 = AutoView {
                results: j.results.push(match r {
                    Ok(m) => PassthroughView::Success("GPU "@ + pci + " assigned to "@ + j.vm_name + ": "@ + m),
                    Err(e) => PassthroughView::Error("Failed to assign GPU "@ + pci + " to "@ + j.vm_name + ": "@ + e),
                }),
                next: j.next + 1,
                ..j
            };
            if j.next + 1 < j.gpus.len() {
                auto_go(j2, AutoPhaseView::AwaitAttach)
            } else {
                auto_go(j2, AutoPhaseView::Finished)
            }
        },
        _ => (j, auto_pending(j)),
    }
}

/// Once past the GPU detection the job has GPUs, and while it attaches, a
/// current one.
pub open spec fn auto_wf(j: AutoView) -> bool {
    &&& !(j.phase is AwaitGpus || j.phase is Finished) ==> j.gpus.len() > 0
    &&& j.phase is AwaitAttach ==> 0 <= j.next < j.gpus.len()
}

/// Every step keeps the job well formed, keeps the outcomes reported so
/// far and adds at most one.
pub proof fn lemma_auto_step_keeps_outcomes(j: AutoView, e: AutoEventView)
    requires
        auto_wf(j),
    ensures
        auto_wf(auto_step(j, e).0),
        auto_step(j, e).0.results.len() <= j.results.len() + 1,
        auto_step(j, e).0.results.take(j.results.len() as int) == j.results,
{
    assert(j.results.take(j.results.len() as int) =~= j.results);
    assert forall|p: PassthroughView| #[trigger] j.results.push(p).take(j.results.len() as int) == j.results by {
        assert(j.results.push(p).take(j.results.len() as int) =~= j.results);
    }
}

/// Starts passing every suitable GPU through to `vm_name`: the job and
/// the first operation it asks for.
pub fn auto_passthrough(vm_name: &str) -> (r: (AutoJob, AutoAction))
    ensures
        r.0@ == (AutoView {
            vm_name: vm_name@,
            gpus: Seq::empty(),
            vms: Seq::empty(),
            next: 0,
            results: Seq::empty(),
            phase: AutoPhaseView::AwaitGpus,
        }),
        r.1@ == AutoActionView::DetectGpus,
{
    let job = AutoJob {
        vm_name: vm_name.to_string(),
        gpus: Vec::new(),
        vms: Vec::new(),
        next: 0,
        results: Vec::new(),
        phase: AutoPhase::AwaitGpus,
    };
    assert(gpu_views(job.gpus@) =~= Seq::<GpuDeviceView>::empty());
    assert(vm_views(job.vms@) =~= Seq::<VmInfoView>::empty());
    assert(outcome_views(job.results@) =~= Seq::<PassthroughView>::empty());
    (job, AutoAction::DetectGpus)
}

impl AutoJob {
    fn pending_exec(&self) -> (r: AutoAction)
        ensures
            r@ == auto_pending(self@),
    {
        match self.phase {
            AutoPhase::AwaitGpus => AutoAction::DetectGpus,
            AutoPhase::AwaitIommu => AutoAction::CheckIommu,
            AutoPhase::AwaitApply => AutoAction::ApplyVfio,
            AutoPhase::AwaitInitramfs => AutoAction::UpdateInitramfs,
            AutoPhase::AwaitVms => AutoAction::DetectVms,
            AutoPhase::AwaitAttach => AutoAction::Attach { gpu_index: self.next },
            AutoPhase::Finished => AutoAction::Done,
        }
    }

    fn report(&mut self, r: PassthroughResult)
        ensures
            final(self)@ == (AutoView { results: old(self)@.results.push(r@), ..old(self)@ }),
    {
        let ghost old_results = self.results@;
        self.results.push(r);
        assert(outcome_views(self.results@) =~= outcome_views(old_results).push(r@));
    }

    /// One step of the job (see `auto_step`).
    pub fn step(&mut self, event: AutoEvent) -> (a: AutoAction)
        requires
            auto_wf(old(self)@),
        ensures
            (final(self)@, a@) == auto_step(old(self)@, event@),
            auto_wf(final(self)@),
    {
        match (&self.phase, event) {
            (AutoPhase::AwaitGpus, AutoEvent::Gpus(gs)) => {
                let p = passable_exec(gs);
                if p.len() == 0 {
                    self.report(PassthroughResult::Error("No GPUs available for passthrough".to_string()));
                    self.phase = AutoPhase::Finished;
                } else {
                    self.gpus = p;
                    self.phase = AutoPhase::AwaitIommu;
                }
            },
            (AutoPhase::AwaitIommu, AutoEvent::Iommu(on)) => {
                if on {
                    self.phase = AutoPhase::AwaitApply;
                } else {
                    self.report(PassthroughResult::Error(
                        "IOMMU is not enabled. Please enable IOMMU in your BIOS and kernel parameters.".to_string()));
                    self.phase = AutoPhase::Finished;
                }
            },
            (AutoPhase::AwaitApply, AutoEvent::Applied(r)) => match r {
                Ok(p) => {
                    self.report(p);
                    self.phase = AutoPhase::AwaitInitramfs;
                },
                Err(msg) => {
                    let mut e = chars_of("Failed to apply VFIO config: ");
                    extend_str(&mut e, msg.as_str());
                    self.report(PassthroughResult::Error(string_of(&e)));
                    self.phase = AutoPhase::Finished;
                },
            },
            (AutoPhase::AwaitInitramfs, AutoEvent::Initramfs(r)) => {
                match r {
                    Ok(m) => self.report(PassthroughResult::Success(m)),
                    Err(msg) => {
                        let mut e = chars_of("Initramfs update failed: ");
                        extend_str(&mut e, msg.as_str());
                        extend_str(&mut e, ". You may need to run it manually.");
                        self.report(PassthroughResult::Warning(string_of(&e)));
                    },
                }
                self.phase = AutoPhase::AwaitVms;
            },
            (AutoPhase::AwaitVms, AutoEvent::Vms(vs)) => {
                self.vms = vs;
                self.next = 0;
                self.phase = AutoPhase::AwaitAttach;
            },
            (AutoPhase::AwaitAttach, AutoEvent::Attached(r)) => {
                assert(gpu_views(self.gpus@)[self.next as int] == self.gpus@[self.next as int]@);
                let pci = self.gpus[self.next].pci_address.clone();
                match r {
                    Ok(m) => {
                        let mut s = chars_of("GPU ");
                        extend_str(&mut s, pci.as_str());
                        extend_str(&mut s, " assigned to ");
                        extend_str(&mut s, self.vm_name.as_str());
                        extend_str(&mut s, ": ");
                        extend_str(&mut s, m.as_str());
                        self.report(PassthroughResult::Success(string_of(&s)));
                    },
                    Err(msg) => {
                        let mut s = chars_of("Failed to assign GPU ");
                        extend_str(&mut s, pci.as_str());
                        extend_str(&mut s, " to ");
                        extend_str(&mut s, self.vm_name.as_str());
                        extend_str(&mut s, ": ");
                        extend_str(&mut s, msg.as_str());
                        self.report(PassthroughResult::Error(string_of(&s)));
                    },
                }
                assert(gpu_views(self.gpus@).len() == self.gpus@.len());
                assert(self.next < self.gpus.len());
                self.next = self.next + 1;
                if self.next < self.gpus.len() {
                    self.phase = AutoPhase::AwaitAttach;
                } else {
                    self.phase = AutoPhase::Finished;
                }
            },
            (_, _) => {},
        }
        self.pending_exec()
    }
}

/// The GPUs that can be passed through (see `passable_gpus`).
fn passable_exec(gs: Vec<GpuDevice>) -> (r: Vec<GpuDevice>)
    ensures
        gpu_views(r@) == passable_gpus(gpu_views(gs@)),
{
    let mut out: Vec<GpuDevice> = Vec::new();
    let mut i: usize = 0;
    assert(gpu_views(gs@).take(0) =~= Seq::<GpuDeviceView>::empty());
    assert(gpu_views(out@) =~= Seq::<GpuDeviceView>::empty());
    while i < gs.len()
        invariant
            i <= gs.len(),
            gpu_views(out@) == passable_gpus(gpu_views(gs@).take(i as int)),
        decreases gs.len() - i,
    {
        assert(gpu_views(gs@).take(i + 1).drop_last() =~= gpu_views(gs@).take(i as int));
        assert(gpu_views(gs@).take(i + 1).last() == gs@[i as int]@);
        if gs[i].can_passthrough {
            let g = gs[i].copy();
            let ghost before = out@;
            out.push(g);
            assert(gpu_views(out@) =~= gpu_views(before).push(g@));
        }
        i = i + 1;
    }
    assert(gpu_views(gs@).take(gs.len() as int) =~= gpu_views(gs@));
    out
}

} // verus!
