use gpupass::gpu::{
    check_dependencies, check_iommu_enabled, check_passthrough_feasibility, check_vbios_header,
    check_vbios_size, determine_boot_gpu, in_vbios_dir, is_critical_device, is_gpu_display_active,
    is_nvidia, mentions_nvidia, other_group_devices, parse_lspci, verify_iommu_group_isolation, GpuDevice,
};

fn gpu(pci: &str, vendor: &str, device: &str, driver: &str) -> GpuDevice {
    GpuDevice {
        domain: "0000".to_string(),
        bus: "01".to_string(),
        slot: "00".to_string(),
        function: "0".to_string(),
        pci_address: pci.to_string(),
        vendor_id: "10de".to_string(),
        device_id: "2206".to_string(),
        vendor_name: vendor.to_string(),
        device_name: device.to_string(),
        class_code: "0300".to_string(),
        driver: driver.to_string(),
        iommu_group: "14".to_string(),
        can_passthrough: false,
        passthrough_reason: String::new(),
        is_boot_gpu: false,
    }
}

const LSPCI: &str = "0000:00:02.0 VGA compatible controller [0300]: Intel Corporation CometLake-S GT2 [UHD Graphics 630] [8086:9bc5] (rev 05)
\tSubsystem: Dell Device [1028:09a4]
\tKernel driver in use: i915
\tKernel modules: i915
0000:00:1f.3 Audio device [0403]: Intel Corporation Comet Lake PCH cAVS [8086:06c8]
\tKernel driver in use: snd_hda_intel
0000:01:00.0 VGA compatible controller [0300]: NVIDIA Corporation GA102 [GeForce RTX 3080] [10de:2206] (rev a1)
\tSubsystem: ASUSTeK Computer Inc. Device [1043:87b3]
\tKernel driver in use: vfio-pci
\tKernel modules: nouveau, nvidia
0000:01:00.1 Audio device [0403]: NVIDIA Corporation GA102 High Definition Audio Controller [10de:1aef] (rev a1)
";

#[test]
fn lspci_finds_the_gpus() {
    let gpus = parse_lspci(LSPCI);
    assert_eq!(gpus.len(), 2);

    let intel = &gpus[0];
    assert_eq!(intel.pci_address, "0000:00:02.0");
    assert_eq!(intel.domain, "0000");
    assert_eq!(intel.bus, "00");
    assert_eq!(intel.slot, "02");
    assert_eq!(intel.function, "0");
    assert_eq!(intel.vendor_id, "8086");
    assert_eq!(intel.device_id, "9bc5");
    assert_eq!(intel.class_code, "0300");
    assert_eq!(intel.vendor_name, "Intel Corporation");
    assert_eq!(intel.device_name, "CometLake-S GT2 [UHD Graphics 630]");
    assert_eq!(intel.driver, "i915");

    let nv = &gpus[1];
    assert_eq!(nv.pci_address, "0000:01:00.0");
    assert_eq!(nv.vendor_id, "10de");
    assert_eq!(nv.device_id, "2206");
    assert_eq!(nv.vendor_name, "NVIDIA Corporation");
    assert_eq!(nv.device_name, "GA102 [GeForce RTX 3080]");
    assert_eq!(nv.driver, "vfio-pci");
    assert!(!nv.can_passthrough);
    assert!(!nv.is_boot_gpu);
}

#[test]
fn lspci_short_address_gets_domain() {
    let gpus = parse_lspci("01:00.0 3D controller [0302]: NVIDIA Corporation TU104GL [Tesla T4] [10de:1eb8] (rev a1)\n");
    assert_eq!(gpus.len(), 1);
    assert_eq!(gpus[0].domain, "0000");
    assert_eq!(gpus[0].pci_address, "0000:01:00.0");
    assert_eq!(gpus[0].class_code, "0302");
    assert_eq!(gpus[0].driver, "");
}

#[test]
fn lspci_unknown_vendor_splits_first_word() {
    let gpus = parse_lspci("0000:03:00.0 VGA compatible controller [0300]: Acme Graphics Thing [1234:5678]\n");
    assert_eq!(gpus.len(), 1);
    assert_eq!(gpus[0].vendor_name, "Acme");
    assert_eq!(gpus[0].device_name, "Graphics Thing");
}

#[test]
fn lspci_empty_text_has_no_gpus() {
    assert_eq!(parse_lspci("").len(), 0);
    assert_eq!(parse_lspci("0000:00:1f.3 Audio device [0403]: Intel Corporation X [8086:06c8]\n").len(), 0);
}

#[test]
fn feasibility_reasons() {
    let mut gpus = vec![
        gpu("0000:01:00.0", "NVIDIA Corporation", "GA102", "vfio-pci"),
        gpu("0000:02:00.0", "NVIDIA Corporation", "GA104", "nvidia"),
        gpu("0000:03:00.0", "AMD", "Navi", "amdgpu"),
    ];
    gpus[2].iommu_group = String::new();
    check_passthrough_feasibility(&mut gpus, true);
    assert!(gpus[0].can_passthrough);
    assert_eq!(gpus[0].passthrough_reason, "Already bound to vfio-pci");
    assert!(gpus[1].can_passthrough);
    assert_eq!(gpus[1].passthrough_reason, "Using proprietary NVIDIA driver - needs unbind before passthrough");
    assert!(!gpus[2].can_passthrough);
    assert_eq!(gpus[2].passthrough_reason, "No IOMMU group found");
}

#[test]
fn feasibility_without_iommu() {
    let mut gpus = vec![gpu("0000:03:00.0", "AMD", "Navi", "amdgpu")];
    gpus[0].is_boot_gpu = true;
    check_passthrough_feasibility(&mut gpus, false);
    assert!(!gpus[0].can_passthrough);
    assert_eq!(gpus[0].passthrough_reason, "IOMMU not enabled in kernel; Boot GPU - passing through will lose host display");
}

#[test]
fn feasibility_ready() {
    let mut gpus = vec![gpu("0000:03:00.0", "AMD", "Navi", "amdgpu")];
    check_passthrough_feasibility(&mut gpus, true);
    assert!(gpus[0].can_passthrough);
    assert_eq!(gpus[0].passthrough_reason, "Ready for passthrough");
}

#[test]
fn iommu_detection() {
    assert!(check_iommu_enabled(Some("BOOT_IMAGE=/vmlinuz intel_iommu=on quiet"), None));
    assert!(check_iommu_enabled(Some("amd_iommu=on"), None));
    assert!(check_iommu_enabled(Some("iommu=pt"), None));
    assert!(check_iommu_enabled(None, Some("[    0.1] DMAR: IOMMU enabled\n")));
    assert!(check_iommu_enabled(Some("quiet"), Some("AMD-Vi: AMD-Vi enabled")));
    assert!(!check_iommu_enabled(Some("quiet splash"), Some("nothing here")));
    assert!(!check_iommu_enabled(None, None));
}

#[test]
fn boot_gpu_from_boot_vga() {
    let mut gpus = vec![
        gpu("0000:00:02.0", "Intel Corporation", "UHD", "i915"),
        gpu("0000:01:00.0", "NVIDIA Corporation", "GA102", "nvidia"),
        gpu("0000:02:00.0", "NVIDIA Corporation", "T4", "nvidia"),
    ];
    gpus[2].class_code = "0302".to_string();
    determine_boot_gpu(&mut gpus, &vec![Some("1\n".to_string()), Some("0\n".to_string()), None]);
    assert!(gpus[0].is_boot_gpu);
    assert!(!gpus[1].is_boot_gpu);
    assert!(!gpus[2].is_boot_gpu);
    let mut vga = vec![gpu("0000:03:00.0", "AMD", "Navi", "amdgpu")];
    determine_boot_gpu(&mut vga, &vec![None]);
    assert!(vga[0].is_boot_gpu);
}

#[test]
fn display_active_needs_a_connected_card() {
    let connectors = vec![
        ("renderD128".to_string(), Some("connected\n".to_string())),
        ("card0-HDMI-A-1".to_string(), Some("disconnected\n".to_string())),
    ];
    assert!(!is_gpu_display_active(&connectors));
    let connectors2 = vec![("card0-DP-1".to_string(), Some("connected\n".to_string()))];
    assert!(is_gpu_display_active(&connectors2));
    assert!(!is_gpu_display_active(&vec![("card1".to_string(), None)]));
}

#[test]
fn critical_device_classes() {
    assert!(is_critical_device(Some("0x0c0330")));
    assert!(is_critical_device(Some("0x010601")));
    assert!(is_critical_device(Some("0x010802")));
    assert!(is_critical_device(Some("0x020000")));
    assert!(is_critical_device(Some("0x060100")));
    assert!(!is_critical_device(Some("0x030000")));
    assert!(!is_critical_device(Some("0x040300")));
    assert!(!is_critical_device(None));
}

#[test]
fn isolation_check() {
    let ok = vec![
        ("0000:01:00.0".to_string(), Some("0x030000\n".to_string())),
        ("0000:01:00.1".to_string(), Some("0x040300\n".to_string())),
    ];
    assert_eq!(verify_iommu_group_isolation("14", &ok), Ok(Vec::new()));
    let bad = vec![
        ("0000:00:01.0".to_string(), Some("0x060400\n".to_string())),
        ("0000:01:00.0".to_string(), Some("0x030000\n".to_string())),
        ("0000:00:14.0".to_string(), Some("0x0c0330\n".to_string())),
        ("0000:00:15.0".to_string(), None),
    ];
    assert_eq!(
        verify_iommu_group_isolation("2", &bad),
        Err("IOMMU group 2 contains critical devices: 0000:00:01.0, 0000:00:14.0. IOMMU isolation may be broken. Consider enabling ACS override.".to_string())
    );
}

#[test]
fn group_members_other_than_device() {
    let members = vec!["0000:01:00.0".to_string(), "0000:01:00.1".to_string()];
    assert_eq!(other_group_devices(&members, "0000:01:00.0"), vec!["0000:01:00.1".to_string()]);
    assert_eq!(other_group_devices(&members, "0000:02:00.0"), members);
}

#[test]
fn vbios_directories() {
    assert!(in_vbios_dir("/usr/share/vgabios/10de_2206.rom"));
    assert!(in_vbios_dir("/usr/share/kvm/x.rom"));
    assert!(in_vbios_dir("/var/lib/libvirt/vbios/x.rom"));
    assert!(!in_vbios_dir("/tmp/evil.rom"));
    assert!(!in_vbios_dir("/usr/share/vgabios"));
}

#[test]
fn vbios_size_limits() {
    assert_eq!(check_vbios_size(65536), Ok(()));
    assert_eq!(check_vbios_size(1048576), Ok(()));
    assert_eq!(check_vbios_size(65535), Err("VBIOS size suspicious: 65535 bytes (expected 64KB-1MB)".to_string()));
    assert_eq!(check_vbios_size(2000000), Err("VBIOS size suspicious: 2000000 bytes (expected 64KB-1MB)".to_string()));
}

#[test]
fn vbios_header_signatures() {
    let mut h = [0u8; 32];
    assert_eq!(check_vbios_header(&h), Err("Invalid VBIOS header signature".to_string()));
    h[0] = 0x55;
    h[1] = 0xAA;
    assert_eq!(check_vbios_header(&h), Ok(()));
    let mut v = [0u8; 32];
    v[2..8].copy_from_slice(b"$VBIOS");
    assert_eq!(check_vbios_header(&v), Ok(()));
    let mut p = [0u8; 32];
    p[2..8].copy_from_slice(b"$POST\0");
    assert_eq!(check_vbios_header(&p), Ok(()));
    let mut q = [0u8; 32];
    q[0..4].copy_from_slice(b"PCIR");
    assert_eq!(check_vbios_header(&q), Ok(()));
}

#[test]
fn missing_dependencies() {
    assert_eq!(check_dependencies(true, true), Vec::<String>::new());
    assert_eq!(check_dependencies(false, true), vec!["lspci".to_string()]);
    assert_eq!(check_dependencies(false, false), vec!["lspci".to_string(), "virsh".to_string()]);
}

#[test]
fn nvidia_detection_lowercases_names() {
    assert!(is_nvidia(&gpu("0000:01:00.0", "NVIDIA Corporation", "GA102", "")));
    assert!(is_nvidia(&gpu("0000:01:00.0", "Acme", "NVIDIA-based board", "")));
    assert!(is_nvidia(&gpu("0000:01:00.0", "Acme", "Board", "nvidia_drm")));
    assert!(!is_nvidia(&gpu("0000:01:00.0", "AMD", "Navi", "amdgpu")));
    assert!(mentions_nvidia("nvidia corporation", "", ""));
    assert!(!mentions_nvidia("NVIDIA Corporation", "", ""));
}
