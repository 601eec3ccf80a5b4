use gpupass::config::AppConfig;
use gpupass::display::{assign_row, gpu_detail, gpu_status, gpu_title, line_kind, vm_gpu_info, GpuStatus, LineKind};
use gpupass::gpu::GpuDevice;
use gpupass::lang::Lang;
use gpupass::vm::{VmInfo, VmState};

fn gpu(pci: &str, name: &str, driver: &str, can: bool, boot: bool) -> GpuDevice {
    GpuDevice {
        domain: "0000".to_string(),
        bus: "01".to_string(),
        slot: "00".to_string(),
        function: "0".to_string(),
        pci_address: pci.to_string(),
        vendor_id: "10de".to_string(),
        device_id: "2206".to_string(),
        vendor_name: "NVIDIA Corporation".to_string(),
        device_name: name.to_string(),
        class_code: "0300".to_string(),
        driver: driver.to_string(),
        iommu_group: "14".to_string(),
        can_passthrough: can,
        passthrough_reason: "Ready for passthrough".to_string(),
        is_boot_gpu: boot,
    }
}

fn vm(name: &str, gpus: &[&str]) -> VmInfo {
    VmInfo {
        id: "1".to_string(),
        name: name.to_string(),
        state: VmState::ShutOff,
        assigned_gpus: gpus.iter().map(|s| s.to_string()).collect(),
        xml_path: None,
    }
}

#[test]
fn status_of_gpus() {
    assert_eq!(gpu_status(&gpu("0000:01:00.0", "A", "vfio-pci", false, false)), GpuStatus::Bound);
    assert_eq!(gpu_status(&gpu("0000:01:00.0", "A", "nvidia", true, false)), GpuStatus::Ready);
    assert_eq!(gpu_status(&gpu("0000:01:00.0", "A", "nvidia", false, false)), GpuStatus::Blocked);
}

#[test]
fn gpu_row_lines() {
    let g = gpu("0000:01:00.0", "GA102", "", true, true);
    assert_eq!(gpu_title(Lang::En, &g), "GA102 [BOOT]");
    assert_eq!(gpu_detail(Lang::En, &g), "Driver: no driver | IOMMU Group: 14");
    let long = gpu("0000:01:00.0", "GeForce RTX 3080 Ti Founders Edition", "nvidia", true, false);
    assert_eq!(gpu_title(Lang::En, &long), "GeForce RTX 3080 Ti...");
    assert_eq!(gpu_detail(Lang::Zh, &long), "驱动: nvidia | IOMMU组: 14");
    assert_eq!(assign_row(&long), "GeForce RTX 3080 Ti Founders Edition [0000:01:00.0] - Ready for passthrough");
}

#[test]
fn vm_row_names_known_gpus() {
    let gpus = vec![gpu("0000:01:00.0", "GA102", "vfio-pci", true, false), gpu("0000:02:00.0", "Navi", "amdgpu", true, false)];
    let mut c = AppConfig::new();
    // Without an entry in the configuration the definition's devices count.
    assert_eq!(vm_gpu_info(Lang::En, &c, &vm("win10", &["0000:02:00.0", "0000:09:00.0"]), &gpus), "GPU: Navi");
    assert_eq!(vm_gpu_info(Lang::En, &c, &vm("win10", &[]), &gpus), "No GPU");
    c.assign_gpu_to_vm("win10", "0000:01:00.0");
    c.assign_gpu_to_vm("win10", "0000:02:00.0");
    assert_eq!(vm_gpu_info(Lang::En, &c, &vm("win10", &["0000:09:00.0"]), &gpus), "GPU: GA102, Navi");
    assert_eq!(vm_gpu_info(Lang::Zh, &c, &vm("win10", &[]), &gpus), "显卡: GA102, Navi");
}

#[test]
fn message_line_colours() {
    assert_eq!(line_kind("[OK] done"), LineKind::Success);
    assert_eq!(line_kind("[成功] 完成"), LineKind::Success);
    assert_eq!(line_kind("[ERR] failed"), LineKind::Error);
    assert_eq!(line_kind("[WARN] careful"), LineKind::Warning);
    assert_eq!(line_kind("[REBOOT] now"), LineKind::Reboot);
    assert_eq!(line_kind("plain text"), LineKind::Plain);
}
