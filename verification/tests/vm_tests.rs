use gpupass::vm::{
    add_nvidia_features, check_gpu_conflicts, extract_vm_name_from_xml, extract_xml_attr,
    find_unregistered_vms, generate_hostdev_xml, get_gpu_assignment_summary, inject_hostdev, is_host_display_gpu,
    normalize_pci_address, parse_assigned_gpus, parse_virsh_list, remove_hostdev, vm_xml_path,
    VmInfo, VmState,
};

fn vm(name: &str, state: VmState, gpus: &[&str]) -> VmInfo {
    VmInfo {
        id: "1".to_string(),
        name: name.to_string(),
        state,
        assigned_gpus: gpus.iter().map(|s| s.to_string()).collect(),
        xml_path: None,
    }
}

#[test]
fn virsh_listing() {
    let text = " Id   Name       State\n-----------------------------\n 1    win10      running\n 5    ubuntu     shut off\n 3    odd\n\n";
    let vms = parse_virsh_list(text);
    assert_eq!(vms.len(), 3);
    assert_eq!(vms[0].id, "1");
    assert_eq!(vms[0].name, "win10");
    assert!(matches!(vms[0].state, VmState::Running));
    assert!(vms[0].is_running());
    assert_eq!(vms[1].id, "5");
    assert_eq!(vms[1].name, "ubuntu");
    assert!(matches!(vms[1].state, VmState::ShutOff));
    assert!(!vms[1].is_running());
    assert_eq!(vms[2].name, "odd");
    assert!(matches!(&vms[2].state, VmState::Other(s) if s == "unknown"));
    assert!(vms[0].assigned_gpus.is_empty());
    assert!(vms[0].xml_path.is_none());
}

#[test]
fn virsh_lines_starting_with_dash_are_skipped() {
    // Like the separator line, a row whose id is `-` (a VM that is not
    // running) starts with a dash and is left out of the listing.
    let vms = parse_virsh_list(" -    ubuntu     shut off\n 2    mac    paused\n");
    assert_eq!(vms.len(), 1);
    assert_eq!(vms[0].name, "mac");
}

#[test]
fn virsh_other_states() {
    let vms = parse_virsh_list(" 2    mac    paused\n 4    bsd    in shutdown\n");
    assert!(matches!(vms[0].state, VmState::Paused));
    assert!(matches!(&vms[1].state, VmState::Other(s) if s == "in shutdown"));
}

#[test]
fn state_labels() {
    assert_eq!(VmState::Running.label(), "running");
    assert_eq!(VmState::ShutOff.label(), "shut off");
    assert_eq!(VmState::Paused.label(), "paused");
    assert_eq!(VmState::Saved.label(), "saved");
    assert_eq!(VmState::Other("crashed".to_string()).label(), "crashed");
}

#[test]
fn vm_name_from_xml() {
    let xml = "<domain type='kvm'>\n  <name> win10 </name>\n  <uuid>x</uuid>\n</domain>\n";
    assert_eq!(extract_vm_name_from_xml(xml), Some("win10".to_string()));
    assert_eq!(extract_vm_name_from_xml("<domain>\n</domain>"), None);
}

#[test]
fn xml_attributes() {
    let line = "<address domain='0x0000' bus=\"0x01\" slot='0x00'/>";
    assert_eq!(extract_xml_attr(line, "domain"), Some("0x0000".to_string()));
    assert_eq!(extract_xml_attr(line, "bus"), Some("0x01".to_string()));
    assert_eq!(extract_xml_attr(line, "function"), None);
}

#[test]
fn assigned_gpus_from_xml() {
    let xml = "<domain>\n  <devices>\n    <hostdev mode='subsystem' type='pci' managed='yes'>\n      <source>\n        <address domain='0x0000' bus='0x01' slot='0x00' function='0x1'/>\n      </source>\n    </hostdev>\n    <hostdev mode='subsystem' type='usb'>\n      <source>\n        <address bus='1' device='2'/>\n      </source>\n    </hostdev>\n    <interface type='network'>\n      <address type='pci' domain='0x0000' bus='0x02' slot='0x00' function='0x0'/>\n    </interface>\n  </devices>\n</domain>\n";
    assert_eq!(parse_assigned_gpus(xml), vec!["0000:01:00.1".to_string()]);
    assert!(parse_assigned_gpus("").is_empty());
}

#[test]
fn pci_normalization() {
    assert_eq!(normalize_pci_address("0:1:0.0"), "0000:01:00.0");
    assert_eq!(normalize_pci_address("0000:0A:00.1"), "0000:0a:00.1");
    assert_eq!(normalize_pci_address("01:00.0"), "01:00.0");
    assert_eq!(normalize_pci_address("zz:01:00.0"), "zz:01:00.0");
}

#[test]
fn xml_path_of_vm() {
    assert_eq!(vm_xml_path("win10"), "/etc/libvirt/qemu/win10.xml");
}

#[test]
fn conflicts_found_by_normalized_address() {
    let vms = vec![
        vm("win10", VmState::Running, &["0000:01:00.0"]),
        vm("linux", VmState::ShutOff, &["0:1:0.0"]),
        vm("free", VmState::Running, &["0000:02:00.0"]),
    ];
    let info = check_gpu_conflicts("0000:01:00.0", &vms, true);
    assert_eq!(info.pci_address, "0000:01:00.0");
    assert_eq!(info.conflicting_vms, vec!["win10".to_string(), "linux".to_string()]);
    assert!(info.is_host_display_gpu);
    assert_eq!(info.warnings, vec![
        "GPU 0000:01:00.0 is actively assigned to running VM 'win10'".to_string(),
        "GPU 0000:01:00.0 is the host's primary display GPU - passing through will lose host display".to_string(),
    ]);
    let none = check_gpu_conflicts("0000:05:00.0", &vms, false);
    assert!(none.conflicting_vms.is_empty());
    assert!(none.warnings.is_empty());
}

#[test]
fn assignment_summary_groups_by_address() {
    let vms = vec![
        vm("a", VmState::ShutOff, &["0000:01:00.0", "0000:01:00.1"]),
        vm("b", VmState::ShutOff, &["0:1:0.0"]),
    ];
    let summary = get_gpu_assignment_summary(&vms);
    assert_eq!(summary, vec![
        ("0000:01:00.0".to_string(), vec!["a".to_string(), "b".to_string()]),
        ("0000:01:00.1".to_string(), vec!["a".to_string()]),
    ]);
}

#[test]
fn unregistered_vms_from_xml_files() {
    let listed = vec![vm("win10", VmState::Running, &[])];
    let files = vec![
        ("/etc/libvirt/qemu/win10.xml".to_string(), "<domain>\n<name>win10</name>\n</domain>".to_string()),
        ("/etc/libvirt/qemu/arch.xml".to_string(), "<domain>\n<name>arch</name>\n</domain>".to_string()),
        ("/etc/libvirt/qemu/arch2.xml".to_string(), "<domain>\n<name>arch</name>\n</domain>".to_string()),
        ("/etc/libvirt/qemu/broken.xml".to_string(), "garbage".to_string()),
    ];
    let found = find_unregistered_vms(&listed, &files);
    assert_eq!(found.len(), 1);
    assert_eq!(found[0].name, "arch");
    assert_eq!(found[0].id, "-");
    assert!(matches!(found[0].state, VmState::ShutOff));
    assert_eq!(found[0].xml_path, Some("/etc/libvirt/qemu/arch.xml".to_string()));
}

const HOSTDEV: &str = "<hostdev mode='subsystem' type='pci' managed='yes'>\n  <source>\n    <address domain='0x0000' bus='0x01' slot='0x00' function='0x01'/>\n  </source>\n</hostdev>";

#[test]
fn hostdev_fragment() {
    assert_eq!(generate_hostdev_xml("0000:01:00.1", None), HOSTDEV);
    assert_eq!(
        generate_hostdev_xml("0000:0a:1f.0", Some("/usr/share/vgabios/gpu.rom")),
        "<hostdev mode='subsystem' type='pci' managed='yes'>\n  <source>\n    <address domain='0x0000' bus='0x0a' slot='0x1f' function='0x00'/>\n  </source>\n      <rom bar='on' file='/usr/share/vgabios/gpu.rom'/>\n</hostdev>"
    );
    assert_eq!(generate_hostdev_xml("01:00.0", None), "");
}

#[test]
fn hostdev_injection() {
    let content = "<domain>\n  <devices>\n  </devices>\n</domain>";
    let injected = inject_hostdev(content, HOSTDEV).unwrap();
    assert_eq!(injected, format!("<domain>\n  <devices>\n      {}\n</devices>\n</domain>", HOSTDEV));
    assert_eq!(
        inject_hostdev(&injected, HOSTDEV),
        Err("Device with address domain=0x0000 bus=0x01 slot=0x00 func=0x01 already exists in this VM's XML".to_string())
    );
    assert_eq!(inject_hostdev("<domain/>", HOSTDEV), Err("Could not find </devices> in VM XML".to_string()));
}

#[test]
fn hostdev_removal() {
    let content = "<domain>\n  <devices>\n    <hostdev mode='subsystem' type='pci' managed='yes'>\n      <source>\n        <address domain='0x0000' bus='0x01' slot='0x00' function='0x01'/>\n      </source>\n    </hostdev>\n  </devices>\n</domain>\n";
    assert_eq!(
        remove_hostdev(content, "0000:01:00.1", "/etc/libvirt/qemu/w.xml"),
        Ok("<domain>\n  <devices>\n  </devices>\n</domain>".to_string())
    );
    assert_eq!(
        remove_hostdev(content, "0000:02:00.0", "/etc/libvirt/qemu/w.xml"),
        Err("GPU 0000:02:00.0 not found in /etc/libvirt/qemu/w.xml".to_string())
    );
    assert_eq!(
        remove_hostdev(content, "bad", "/etc/libvirt/qemu/w.xml"),
        Err("Invalid PCI address: bad".to_string())
    );
}

#[test]
fn nvidia_features_added() {
    let xml = "<domain>\n<features>\n  <acpi/>\n</features>\n</domain>";
    let out = add_nvidia_features(xml).unwrap().unwrap();
    assert_eq!(out, "<domain>\n<features>\n  <acpi/>\n  <kvm>\n    <hidden state='on'/>\n  </kvm>\n    <hyperv>\n    <vendor_id state='on' value='1234567890ab'/>\n  </hyperv>\n  </features>\n</domain>");
    assert_eq!(add_nvidia_features(&out), Ok(None));
}

#[test]
fn nvidia_features_replace_sections() {
    let xml = "<features>\n  <hyperv>\n    <relaxed state='on'/>\n  </hyperv>\n  <kvm>\n  </kvm>\n</features>";
    let out = add_nvidia_features(xml).unwrap().unwrap();
    assert_eq!(out, "<features>\n  <hyperv>\n    <vendor_id state='on' value='1234567890ab'/>\n  </hyperv>\n  <kvm>\n    <hidden state='on'/>\n  </kvm>\n</features>");
    assert_eq!(add_nvidia_features(&out), Ok(None));
}

#[test]
fn nvidia_features_beside_hyperv_settings_once() {
    let xml = "<features>\n  <acpi/>\n  <hyperv>\n    <relaxed state='on'/>\n  </hyperv>\n</features>";
    let out = add_nvidia_features(xml).unwrap().unwrap();
    assert_eq!(out, "<features>\n  <acpi/>\n  <hyperv>\n    <vendor_id state='on' value='1234567890ab'/>\n  </hyperv>\n  <kvm>\n    <hidden state='on'/>\n  </kvm>\n  </features>");
    assert_eq!(add_nvidia_features(&out), Ok(None));
}

#[test]
fn nvidia_features_need_features_section() {
    assert_eq!(
        add_nvidia_features("<domain></domain>"),
        Err("VM XML does not have a <features> section - cannot inject NVIDIA workarounds".to_string())
    );
}

#[test]
fn normalizing_twice_is_normalizing_once() {
    for a in ["0:1:0.0", "0000:0A:00.1", "01:00.0", "zz:01:00.0", "ffff:ff:1f.7", "+1:+2:3.4", ""] {
        let once = normalize_pci_address(a);
        assert_eq!(normalize_pci_address(&once), once);
    }
}

#[test]
fn assigned_addresses_are_canonical() {
    // The attribute numbers are hexadecimal, as the hostdev fragment writes them.
    let xml = "<hostdev mode='subsystem' type='pci' managed='yes'>\n<source>\n<address domain='0x0000' bus='0x10' slot='0x02' function='0x3'/>\n</source>\n</hostdev>\n";
    let found = parse_assigned_gpus(xml);
    assert_eq!(found, vec!["0000:10:02.3".to_string()]);
    for a in &found {
        assert_eq!(&normalize_pci_address(a), a);
    }
}

#[test]
fn assigned_address_reads_hex_values() {
    let xml = "<hostdev mode='subsystem' type='pci'>\n<address domain='0x0000' bus='0x10' slot='0x0a' function='0x1'/>\n</hostdev>";
    assert_eq!(parse_assigned_gpus(xml), vec!["0000:10:0a.1".to_string()]);
}

#[test]
fn assigned_address_round_trips_through_fragment() {
    let frag = generate_hostdev_xml("0000:10:0a.1", None);
    assert_eq!(parse_assigned_gpus(&frag), vec!["0000:10:0a.1".to_string()]);
}

#[test]
fn removal_matches_attribute_values() {
    let content = "<devices>\n<hostdev mode='subsystem' type='pci'>\n<source>\n<address domain='0x0000' bus='0x00' slot='0x01' function='0x00'/>\n</source>\n</hostdev>\n</devices>";
    assert_eq!(
        remove_hostdev(content, "0000:01:00.0", "/etc/libvirt/qemu/w.xml"),
        Err("GPU 0000:01:00.0 not found in /etc/libvirt/qemu/w.xml".to_string())
    );
    assert_eq!(
        remove_hostdev(content, "0000:00:01.0", "/etc/libvirt/qemu/w.xml"),
        Ok("<devices>\n</devices>".to_string())
    );
}

#[test]
fn domain_definition_files() {
    assert!(gpupass::vm::is_domain_xml("win10.xml"));
    assert!(gpupass::vm::is_domain_xml("..xml"));
    assert!(!gpupass::vm::is_domain_xml(".xml"));
    assert!(!gpupass::vm::is_domain_xml("win10.xml.gpupass.bak.1700000000"));
    assert!(!gpupass::vm::is_domain_xml("win10.xml.bak"));
    assert!(!gpupass::vm::is_domain_xml("notes.txt"));
}

fn entry(name: &str, status: Option<&str>) -> (String, Option<String>) {
    (name.to_string(), status.map(|x| x.to_string()))
}

#[test]
fn host_display_from_boot_vga() {
    assert!(is_host_display_gpu(Some("1\n"), &vec![]));
    assert!(!is_host_display_gpu(Some("0\n"), &vec![]));
    assert!(!is_host_display_gpu(None, &vec![]));
}

#[test]
fn host_display_from_connected_card() {
    let connected = vec![entry("card0", None), entry("card0-HDMI-A-1", Some("connected\n"))];
    assert!(is_host_display_gpu(Some("0"), &connected));
    let disconnected = vec![entry("card0-DP-1", Some("disconnected\n")), entry("card1-DP-2", None)];
    assert!(!is_host_display_gpu(None, &disconnected));
}

#[test]
fn host_display_skips_render_nodes() {
    let render = vec![entry("card0renderD128", Some("connected")), entry("renderD128", Some("connected"))];
    assert!(!is_host_display_gpu(None, &render));
}

#[test]
fn nvidia_features_after_unclosed_hyperv_once() {
    let xml = "<features>\n<hyperv>\n</features>";
    let out = add_nvidia_features(xml).unwrap().unwrap();
    assert_eq!(add_nvidia_features(&out), Ok(None));
}

#[test]
fn nvidia_features_lost_when_hyperv_section_spans_features_end() {
    let xml = "<features><hyperv></features></hyperv>";
    let out = add_nvidia_features(xml).unwrap().unwrap();
    assert_eq!(out, "<features><hyperv>\n    <vendor_id state='on' value='1234567890ab'/>\n  </hyperv>");
    assert_ne!(add_nvidia_features(&out), Ok(None));
}
