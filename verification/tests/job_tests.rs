use gpupass::binding::{
    apply_vfio_conf, backup_expired, bind_to_vfio, initramfs_tool, unbind_from_vfio, ApplyAction, ApplyEvent,
    BindAction, BindEvent, CmdOutcome, InitramfsTool, UnbindAction, UnbindEvent,
};
use gpupass::gpu::{vbios_rom_candidates, GpuDevice};
use gpupass::lang::Lang;
use gpupass::passthrough::{
    auto_passthrough, format_passthrough_result, generate_vfio_conf, AutoAction, AutoEvent, PassthroughResult,
};
use gpupass::vm::{VmInfo, VmState};
use gpupass::vm_ops::{attach_gpu_to_vm, detach_gpu_from_vm, attach_warnings, JobAction, JobEvent};

fn gpu(pci: &str, vendor: &str, vid: &str, did: &str, driver: &str, can: bool) -> GpuDevice {
    GpuDevice {
        domain: "0000".to_string(),
        bus: "01".to_string(),
        slot: "00".to_string(),
        function: "0".to_string(),
        pci_address: pci.to_string(),
        vendor_id: vid.to_string(),
        device_id: did.to_string(),
        vendor_name: vendor.to_string(),
        device_name: "Card".to_string(),
        class_code: "0300".to_string(),
        driver: driver.to_string(),
        iommu_group: "14".to_string(),
        can_passthrough: can,
        passthrough_reason: String::new(),
        is_boot_gpu: false,
    }
}

fn vm(name: &str, state: VmState, gpus: &[&str]) -> VmInfo {
    VmInfo {
        id: "1".to_string(),
        name: name.to_string(),
        state,
        assigned_gpus: gpus.iter().map(|s| s.to_string()).collect(),
        xml_path: None,
    }
}

fn done_ok(a: &JobAction) -> Option<String> {
    match a {
        JobAction::Done(Ok(s)) => Some(s.clone()),
        _ => None,
    }
}

fn done_err(a: &JobAction) -> Option<String> {
    match a {
        JobAction::Done(Err(s)) => Some(s.clone()),
        _ => None,
    }
}

#[test]
fn attach_job_falls_back_to_xml() {
    let g = gpu("0000:01:00.0", "AMD", "1002", "73bf", "vfio-pci", true);
    let (mut job, a) = attach_gpu_to_vm(Lang::En, "win10", &g, &vec![]);
    assert!(matches!(&a, JobAction::QueryGroup { pci_address } if pci_address == "0000:01:00.0"));
    let a = job.step(JobEvent::Group { gpu_host_display: false, members: vec![("0000:01:00.1".to_string(), false)] });
    assert!(matches!(&a, JobAction::QueryRunning { vm_name } if vm_name == "win10"));
    let a = job.step(JobEvent::Running(false));
    assert!(matches!(&a, JobAction::Virsh { pci_address } if pci_address == "0000:01:00.0"));
    let a = job.step(JobEvent::Virsh(Ok("Device attached successfully".to_string())));
    assert!(matches!(&a, JobAction::Virsh { pci_address } if pci_address == "0000:01:00.1"));
    let a = job.step(JobEvent::Virsh(Err("not defined".to_string())));
    assert!(matches!(&a, JobAction::CheckXml { path } if path == "/etc/libvirt/qemu/win10.xml"));
    let a = job.step(JobEvent::XmlExists(true));
    assert!(matches!(&a, JobAction::EditXml { pci_address, path } if pci_address == "0000:01:00.1" && path == "/etc/libvirt/qemu/win10.xml"));
    let a = job.step(JobEvent::XmlEdited(Ok(())));
    assert_eq!(done_ok(&a), Some("Attached 2 device(s): 0000:01:00.0: Device attached successfully, 0000:01:00.1: injected into XML".to_string()));
    // A finished job stays finished.
    let a = job.step(JobEvent::Running(true));
    assert!(done_ok(&a).is_some());
}

#[test]
fn attach_job_refuses_running_vm_fallback() {
    let g = gpu("0000:01:00.0", "AMD", "1002", "73bf", "vfio-pci", true);
    let (mut job, _) = attach_gpu_to_vm(Lang::En, "win10", &g, &vec![]);
    job.step(JobEvent::Group { gpu_host_display: false, members: vec![] });
    job.step(JobEvent::Running(true));
    let a = job.step(JobEvent::Virsh(Err("busy".to_string())));
    assert_eq!(done_err(&a), Some("Failed to attach 0000:01:00.0 via virsh and VM 'win10' is running. Shut off the VM to use XML injection.".to_string()));
}

#[test]
fn attach_job_warnings_in_summary() {
    let g = gpu("0000:01:00.0", "AMD", "1002", "73bf", "vfio-pci", true);
    let vms = vec![vm("other", VmState::ShutOff, &["0000:01:00.0"])];
    let (mut job, _) = attach_gpu_to_vm(Lang::En, "win10", &g, &vms);
    job.step(JobEvent::Group { gpu_host_display: false, members: vec![] });
    job.step(JobEvent::Running(false));
    let a = job.step(JobEvent::Virsh(Ok("ok".to_string())));
    let expected_warning = attach_warnings(Lang::En, "0000:01:00.0", false, &vec![], &vms, true);
    assert_eq!(expected_warning.len(), 1);
    assert_eq!(done_ok(&a), Some(format!("Attached 1 device(s): 0000:01:00.0: ok\n\n--- Warnings ---\n{}\n", expected_warning[0])));
}

#[test]
fn attach_job_configures_nvidia_first() {
    let g = gpu("0000:01:00.0", "NVIDIA Corporation", "10de", "2206", "vfio-pci", true);
    let (mut job, _) = attach_gpu_to_vm(Lang::En, "win10", &g, &vec![]);
    let a = job.step(JobEvent::Group { gpu_host_display: false, members: vec![] });
    assert!(matches!(&a, JobAction::ConfigureNvidia { vm_name } if vm_name == "win10"));
    let a = job.step(JobEvent::Nvidia(Err("no features".to_string())));
    assert_eq!(done_err(&a), Some("Failed to configure NVIDIA VM features: no features".to_string()));
}

#[test]
fn detach_job_paths() {
    let g = gpu("0000:01:00.0", "NVIDIA Corporation", "10de", "2206", "vfio-pci", true);
    let (mut job, _) = detach_gpu_from_vm(Lang::En, "win10", &g, &vec![]);
    let a = job.step(JobEvent::Group { gpu_host_display: false, members: vec![] });
    // No NVIDIA step when detaching.
    assert!(matches!(a, JobAction::QueryRunning { .. }));
    job.step(JobEvent::Running(true));
    let a = job.step(JobEvent::Virsh(Err("x".to_string())));
    assert!(matches!(a, JobAction::CheckXml { .. }));
    let a = job.step(JobEvent::XmlExists(true));
    assert_eq!(done_err(&a), Some("Failed to detach 0000:01:00.0 via virsh and VM 'win10' is running. Shut off the VM to use XML modification.".to_string()));

    let (mut job2, _) = detach_gpu_from_vm(Lang::En, "win10", &g, &vec![]);
    job2.step(JobEvent::Group { gpu_host_display: false, members: vec![] });
    job2.step(JobEvent::Running(false));
    job2.step(JobEvent::Virsh(Err("x".to_string())));
    let a = job2.step(JobEvent::XmlExists(false));
    assert_eq!(done_err(&a), Some("Failed to detach 0000:01:00.0 from win10 and no XML found".to_string()));

    let (mut job3, _) = detach_gpu_from_vm(Lang::En, "win10", &g, &vec![]);
    job3.step(JobEvent::Group { gpu_host_display: false, members: vec![] });
    job3.step(JobEvent::Running(false));
    let a = job3.step(JobEvent::Virsh(Ok("Device detached successfully".to_string())));
    assert_eq!(done_ok(&a), Some("Detached 1 device(s): 0000:01:00.0: Device detached successfully".to_string()));
}

fn bind_done(a: &BindAction) -> Option<Result<String, String>> {
    match a {
        BindAction::Done(Ok(PassthroughResult::Success(m))) => Some(Ok(m.clone())),
        BindAction::Done(Err(e)) => Some(Err(e.clone())),
        _ => None,
    }
}

#[test]
fn bind_already_on_vfio() {
    let g = gpu("0000:01:00.0", "AMD", "1002", "73bf", "vfio-pci", true);
    let (_, a) = bind_to_vfio(&g);
    assert_eq!(bind_done(&a), Some(Ok("GPU already bound to vfio-pci".to_string())));
}

#[test]
fn bind_full_run() {
    let g = gpu("0000:01:00.0", "AMD", "1002", "73bf", "amdgpu", true);
    let (mut job, a) = bind_to_vfio(&g);
    assert!(matches!(&a, BindAction::QueryInUse { pci_address } if pci_address == "0000:01:00.0"));
    assert!(matches!(job.step(BindEvent::InUse(false)), BindAction::QueryVfioLoaded));
    assert!(matches!(job.step(BindEvent::VfioLoaded(false)), BindAction::LoadVfio));
    let a = job.step(BindEvent::Modprobe(CmdOutcome::Exited { success: true, stderr: String::new() }));
    assert!(matches!(&a, BindAction::ListGroup { group } if group == "14"));
    let a = job.step(BindEvent::GroupListing(Ok(vec![
        ("0000:01:00.0".to_string(), Some("0x030000\n".to_string())),
        ("0000:01:00.1".to_string(), Some("0x040300\n".to_string())),
    ])));
    assert!(matches!(a, BindAction::QueryMembers { .. }));
    let a = job.step(BindEvent::Members(vec![("0000:01:00.1".to_string(), Some("0x040300".to_string()))]));
    assert!(matches!(&a, BindAction::ReadIds { pci_address } if pci_address == "0000:01:00.0"));
    let a = job.step(BindEvent::Ids { vendor: Ok("0x1002\n".to_string()), device: Ok("0x73bf\n".to_string()) });
    assert!(matches!(&a, BindAction::Unbind { pci_address } if pci_address == "0000:01:00.0"));
    assert!(matches!(job.step(BindEvent::Unbound(Ok(()))), BindAction::Reset { .. }));
    let a = job.step(BindEvent::Reset(Err("no reset node".to_string())));
    assert!(matches!(&a, BindAction::AddId { new_id } if new_id == "0x1002 0x73bf"));
    let a = job.step(BindEvent::IdAdded(Ok(())));
    assert!(matches!(&a, BindAction::ReadIds { pci_address } if pci_address == "0000:01:00.1"));
    job.step(BindEvent::Ids { vendor: Ok("0x1002".to_string()), device: Ok("0xab38".to_string()) });
    job.step(BindEvent::Unbound(Ok(())));
    job.step(BindEvent::Reset(Ok(())));
    let a = job.step(BindEvent::IdAdded(Ok(())));
    assert_eq!(bind_done(&a), Some(Ok("GPU 0000:01:00.0 bound to vfio-pci successfully".to_string())));
}

#[test]
fn bind_refusals() {
    let mut boot = gpu("0000:01:00.0", "AMD", "1002", "73bf", "amdgpu", true);
    boot.is_boot_gpu = true;
    let (mut job, a) = bind_to_vfio(&boot);
    assert!(matches!(a, BindAction::QueryDisplay { .. }));
    let a = job.step(BindEvent::DisplayActive(true));
    assert_eq!(bind_done(&a), Some(Err("This is the active boot GPU with a connected display. Unbinding it now will blackscreen the host. Please use 'Apply Config' to set up vfio-pci at boot time instead, then reboot.".to_string())));

    let g = gpu("0000:01:00.0", "AMD", "1002", "73bf", "amdgpu", true);
    let (mut job, _) = bind_to_vfio(&g);
    let a = job.step(BindEvent::InUse(true));
    assert_eq!(bind_done(&a), Some(Err("GPU 0000:01:00.0 appears to be in use by a host process. Close all applications using the GPU before binding to vfio-pci.".to_string())));

    let (mut job, _) = bind_to_vfio(&g);
    job.step(BindEvent::InUse(false));
    job.step(BindEvent::VfioLoaded(false));
    let a = job.step(BindEvent::Modprobe(CmdOutcome::NotRun("No such file".to_string())));
    assert_eq!(bind_done(&a), Some(Err("Failed to load vfio-pci: No such file".to_string())));

    let (mut job, _) = bind_to_vfio(&g);
    job.step(BindEvent::InUse(false));
    job.step(BindEvent::VfioLoaded(true));
    let a = job.step(BindEvent::GroupListing(Err("denied".to_string())));
    assert_eq!(bind_done(&a), Some(Err("IOMMU group isolation check failed: Cannot read IOMMU group devices: denied. This indicates your motherboard's IOMMU implementation may not properly isolate this GPU. Consider enabling ACS override in kernel parameters.".to_string())));

    let (mut job, _) = bind_to_vfio(&g);
    job.step(BindEvent::InUse(false));
    job.step(BindEvent::VfioLoaded(true));
    job.step(BindEvent::GroupListing(Ok(vec![])));
    let a = job.step(BindEvent::Members(vec![("0000:00:14.0".to_string(), Some("0x0c0330".to_string()))]));
    assert_eq!(bind_done(&a), Some(Err("Critical system devices found in IOMMU group: 0000:00:14.0. Binding these to vfio-pci may make the host unusable. Consider using ACS override or a different GPU.".to_string())));
}

#[test]
fn unbind_job() {
    let g = gpu("0000:01:00.0", "NVIDIA Corporation", "10de", "2206", "vfio-pci", true);
    let (mut job, a) = unbind_from_vfio(&g, "nvidia");
    assert!(matches!(&a, UnbindAction::RemoveFromVfio { pci_address } if pci_address == "0000:01:00.0"));
    let a = job.step(UnbindEvent::Removed(Ok(())));
    assert!(matches!(&a, UnbindAction::BindDriver { driver, pci_address } if driver == "nvidia" && pci_address == "0000:01:00.0"));
    let a = job.step(UnbindEvent::Rebound(Ok(())));
    assert!(matches!(&a, UnbindAction::Done(Ok(PassthroughResult::Success(m))) if m == "GPU 0000:01:00.0 returned to nvidia driver"));

    let other = gpu("0000:01:00.0", "AMD", "1002", "73bf", "amdgpu", true);
    let (_, a) = unbind_from_vfio(&other, "amdgpu");
    assert!(matches!(&a, UnbindAction::Done(Ok(PassthroughResult::Success(m))) if m == "GPU not bound to vfio-pci, nothing to do"));

    let (mut job, _) = unbind_from_vfio(&g, "nvidia");
    let a = job.step(UnbindEvent::Removed(Err("busy".to_string())));
    assert!(matches!(&a, UnbindAction::Done(Err(e)) if e == "Failed to unbind from vfio-pci: busy"));
}

#[test]
fn vfio_conf_text() {
    let gpus = vec![
        gpu("0000:01:00.0", "NVIDIA Corporation", "10de", "2206", "nvidia", true),
        gpu("0000:02:00.0", "AMD", "1002", "73bf", "amdgpu", true),
    ];
    assert_eq!(generate_vfio_conf(&gpus), "# Generated by gpupass - GPU Passthrough Manager\nsoftdep nvidia pre: vfio-pci\nsoftdep nouveau pre: vfio-pci\nsoftdep nvidia_drm pre: vfio-pci\nsoftdep nvidia_modeset pre: vfio-pci\noptions vfio-pci ids=10de:2206,1002:73bf\n");
    let amd = vec![gpu("0000:02:00.0", "AMD", "1002", "73bf", "amdgpu", true)];
    assert_eq!(generate_vfio_conf(&amd), "# Generated by gpupass - GPU Passthrough Manager\noptions vfio-pci ids=1002:73bf\n");
}

#[test]
fn apply_job() {
    let amd = vec![gpu("0000:02:00.0", "AMD", "1002", "73bf", "amdgpu", true)];
    let (mut job, a) = apply_vfio_conf(&amd);
    assert!(matches!(a, ApplyAction::Backup));
    let a = job.step(ApplyEvent::BackedUp(Ok(())));
    assert!(matches!(&a, ApplyAction::Write { content } if content == "# Generated by gpupass - GPU Passthrough Manager\noptions vfio-pci ids=1002:73bf\n"));
    let a = job.step(ApplyEvent::Written(Ok(())));
    assert!(matches!(&a, ApplyAction::Done(Ok(PassthroughResult::NeedsReboot(m))) if m == "VFIO configuration applied. Reboot required for changes to take effect."));

    let (mut job, _) = apply_vfio_conf(&amd);
    let a = job.step(ApplyEvent::BackedUp(Err("ro fs".to_string())));
    assert!(matches!(&a, ApplyAction::Done(Err(e)) if e == "Failed to backup existing config: ro fs"));
}

#[test]
fn initramfs_tools() {
    assert_eq!(initramfs_tool(true, true, true), Ok(InitramfsTool::UpdateInitramfs));
    assert_eq!(initramfs_tool(false, true, true), Ok(InitramfsTool::Dracut));
    assert_eq!(initramfs_tool(false, false, true), Ok(InitramfsTool::Mkinitcpio));
    assert_eq!(initramfs_tool(false, false, false), Err("No supported initramfs tool found (update-initramfs, dracut, mkinitcpio)".to_string()));
    assert_eq!(InitramfsTool::UpdateInitramfs.program(), "update-initramfs");
    assert_eq!(InitramfsTool::UpdateInitramfs.args(), vec!["-u".to_string(), "-k".to_string(), "all".to_string()]);
    assert_eq!(InitramfsTool::Dracut.args(), vec!["--force".to_string()]);
    assert_eq!(InitramfsTool::Mkinitcpio.args(), vec!["-P".to_string()]);
    assert_eq!(InitramfsTool::UpdateInitramfs.outcome(CmdOutcome::Exited { success: true, stderr: String::new() }),
        Ok("initramfs updated successfully".to_string()));
    assert_eq!(InitramfsTool::Dracut.outcome(CmdOutcome::Exited { success: false, stderr: "oops".to_string() }),
        Err("Failed to update initramfs with dracut: oops".to_string()));
    assert_eq!(InitramfsTool::Mkinitcpio.outcome(CmdOutcome::NotRun("gone".to_string())),
        Err("Failed to run mkinitcpio: gone".to_string()));
}

#[test]
fn passthrough_texts() {
    assert_eq!(format_passthrough_result(Lang::En, PassthroughResult::Success("x".to_string())), "[OK] x");
    assert_eq!(format_passthrough_result(Lang::Zh, PassthroughResult::Success("x".to_string())), "[成功] x");
}

fn texts(rs: &[PassthroughResult]) -> Vec<String> {
    rs.iter().map(|r| match r {
        PassthroughResult::Success(m) => format!("S:{}", m),
        PassthroughResult::Warning(m) => format!("W:{}", m),
        PassthroughResult::Error(m) => format!("E:{}", m),
        PassthroughResult::NeedsReboot(m) => format!("R:{}", m),
    }).collect()
}

#[test]
fn auto_passthrough_run() {
    let (mut job, a) = auto_passthrough("win10");
    assert!(matches!(a, AutoAction::DetectGpus));
    let a = job.step(AutoEvent::Gpus(vec![
        gpu("0000:01:00.0", "AMD", "1002", "73bf", "amdgpu", true),
        gpu("0000:00:02.0", "Intel Corporation", "8086", "9bc5", "i915", false),
        gpu("0000:03:00.0", "AMD", "1002", "73ff", "amdgpu", true),
    ]));
    assert!(matches!(a, AutoAction::CheckIommu));
    assert_eq!(job.gpus.len(), 2);
    assert!(matches!(job.step(AutoEvent::Iommu(true)), AutoAction::ApplyVfio));
    let a = job.step(AutoEvent::Applied(Ok(PassthroughResult::NeedsReboot("reboot".to_string()))));
    assert!(matches!(a, AutoAction::UpdateInitramfs));
    assert!(matches!(job.step(AutoEvent::Initramfs(Err("e".to_string()))), AutoAction::DetectVms));
    assert!(matches!(job.step(AutoEvent::Vms(vec![])), AutoAction::Attach { gpu_index: 0 }));
    assert!(matches!(job.step(AutoEvent::Attached(Ok("m".to_string()))), AutoAction::Attach { gpu_index: 1 }));
    assert!(matches!(job.step(AutoEvent::Attached(Err("bad".to_string()))), AutoAction::Done));
    assert_eq!(texts(&job.results), vec![
        "R:reboot".to_string(),
        "W:Initramfs update failed: e. You may need to run it manually.".to_string(),
        "S:GPU 0000:01:00.0 assigned to win10: m".to_string(),
        "E:Failed to assign GPU 0000:03:00.0 to win10: bad".to_string(),
    ]);
}

#[test]
fn auto_passthrough_stops_early() {
    let (mut job, _) = auto_passthrough("win10");
    assert!(matches!(job.step(AutoEvent::Gpus(vec![])), AutoAction::Done));
    assert_eq!(texts(&job.results), vec!["E:No GPUs available for passthrough".to_string()]);

    let (mut job, _) = auto_passthrough("win10");
    job.step(AutoEvent::Gpus(vec![gpu("0000:01:00.0", "AMD", "1002", "73bf", "amdgpu", true)]));
    assert!(matches!(job.step(AutoEvent::Iommu(false)), AutoAction::Done));
    assert_eq!(texts(&job.results), vec!["E:IOMMU is not enabled. Please enable IOMMU in your BIOS and kernel parameters.".to_string()]);

    let (mut job, _) = auto_passthrough("win10");
    job.step(AutoEvent::Gpus(vec![gpu("0000:01:00.0", "AMD", "1002", "73bf", "amdgpu", true)]));
    job.step(AutoEvent::Iommu(true));
    assert!(matches!(job.step(AutoEvent::Applied(Err("ro".to_string()))), AutoAction::Done));
    assert_eq!(texts(&job.results), vec!["E:Failed to apply VFIO config: ro".to_string()]);
}

#[test]
fn backup_ages() {
    let week: u64 = 7 * 24 * 3600;
    assert!(backup_expired("vfio.conf.bak.1000", true, 1000 + week + 1, week));
    assert!(!backup_expired("vfio.conf.bak.1000", true, 1000 + week, week));
    assert!(!backup_expired("vfio.conf.bak.x", true, u64::MAX, week));
    assert!(!backup_expired("vfio.conf", true, u64::MAX, week));
    assert!(!backup_expired("vfio.conf.bak.5000", true, 10, week));
    assert!(backup_expired("win10.xml.gpupass.bak.1.gpupass.bak.2000", false, 2000 + week + 5, week));
    assert!(!backup_expired("win10.xml.gpupass.bak.2000", false, 2000 + 5, week));
    assert!(!backup_expired("vfio.conf.bak.1000", false, u64::MAX, week));
    assert!(backup_expired("vfio.conf.bak.18446744073709551615", true, u64::MAX, 0) == false);
}

#[test]
fn vbios_places() {
    assert_eq!(vbios_rom_candidates("0x10de\n", "0x2206\n"), vec![
        "/usr/share/vgabios/10de_2206.rom".to_string(),
        "/usr/share/kvm/10de_2206.rom".to_string(),
        "/var/lib/libvirt/vbios/10de_2206.rom".to_string(),
    ]);
}
