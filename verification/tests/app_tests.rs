use gpupass::app::{Action, App, AppEvent, AppMode, AppRequest, ConfirmAction, Key, ListState, PanelFocus};
use gpupass::config::AppConfig;
use gpupass::gpu::GpuDevice;
use gpupass::lang::{t, Lang};
use gpupass::passthrough::PassthroughResult;
use gpupass::text::fill;
use gpupass::vm::{VmInfo, VmState};

fn gpu(pci: &str, name: &str, driver: &str, can: bool) -> GpuDevice {
    GpuDevice {
        domain: "0000".to_string(),
        bus: "01".to_string(),
        slot: "00".to_string(),
        function: "0".to_string(),
        pci_address: pci.to_string(),
        vendor_id: "1002".to_string(),
        device_id: "73bf".to_string(),
        vendor_name: "AMD".to_string(),
        device_name: name.to_string(),
        class_code: "0300".to_string(),
        driver: driver.to_string(),
        iommu_group: "14".to_string(),
        can_passthrough: can,
        passthrough_reason: String::new(),
        is_boot_gpu: false,
    }
}

fn vm(name: &str, state: VmState, gpus: &[&str]) -> VmInfo {
    VmInfo {
        id: "1".to_string(),
        name: name.to_string(),
        state,
        assigned_gpus: gpus.iter().map(|s| s.to_string()).collect(),
        xml_path: None,
    }
}

fn key(app: &mut App, k: Key) -> AppRequest {
    app.step(AppEvent::Key(k))
}

#[test]
fn list_state_moves() {
    let mut s = ListState::new();
    assert_eq!(s, ListState { selected: 0, offset: 0 });
    s.move_up();
    assert_eq!(s.selected, 0);
    for _ in 0..12 {
        s.move_down(20, 10);
    }
    assert_eq!(s, ListState { selected: 12, offset: 3 });
    s.move_down(13, 10);
    assert_eq!(s.selected, 12);
    s.select(2, 20);
    assert_eq!(s, ListState { selected: 2, offset: 2 });
    s.select(50, 5);
    assert_eq!(s.selected, 4);
    s.select(3, 0);
    assert_eq!(s, ListState { selected: 0, offset: 0 });
    s.select(1, 3);
    s.move_up();
    assert_eq!(s, ListState { selected: 0, offset: 0 });
}

#[test]
fn start_state_follows_config_language() {
    let mut c = AppConfig::new();
    c.set_lang(Lang::Zh);
    let app = App::new(c, vec![], vec![], true);
    assert_eq!(app.lang, Lang::Zh);
    assert_eq!(app.mode, AppMode::Main);
    assert_eq!(app.panel_focus, PanelFocus::VmList);
    assert!(!app.should_quit);
    assert!(app.iommu_enabled);
}

#[test]
fn quit_key() {
    let mut app = App::new(AppConfig::new(), vec![], vec![], true);
    let r = key(&mut app, Key::Char('q'));
    assert!(matches!(r, AppRequest::Idle));
    assert!(app.should_quit);
}

#[test]
fn focus_keys() {
    let mut app = App::new(AppConfig::new(), vec![], vec![], true);
    key(&mut app, Key::Left);
    assert_eq!(app.panel_focus, PanelFocus::GpuList);
    key(&mut app, Key::Tab);
    assert_eq!(app.panel_focus, PanelFocus::VmList);
}

#[test]
fn enter_without_gpus_shows_error() {
    let mut app = App::new(AppConfig::new(), vec![], vec![vm("win10", VmState::ShutOff, &[])], true);
    key(&mut app, Key::Enter);
    assert_eq!(app.mode, AppMode::MessageDialog);
    assert!(app.message_is_error);
    assert_eq!(app.message, "No GPUs or VMs available");
    key(&mut app, Key::Enter);
    assert_eq!(app.mode, AppMode::Main);
    assert_eq!(app.message, "");
}

#[test]
fn action_menus_by_gpu_state() {
    let gpus = vec![
        gpu("0000:01:00.0", "A", "vfio-pci", true),
        gpu("0000:02:00.0", "B", "amdgpu", true),
        gpu("0000:03:00.0", "C", "amdgpu", false),
    ];
    let mut app = App::new(AppConfig::new(), gpus, vec![], true);
    key(&mut app, Key::Left);
    key(&mut app, Key::Enter);
    assert_eq!(app.mode, AppMode::ActionMenu);
    assert_eq!(app.selected_gpu_index, Some(0));
    assert_eq!(app.actions, vec![Action::UnbindVfio, Action::AttachToVm, Action::DetachFromVm,
        Action::AutoPassthrough, Action::ApplyConfig, Action::Back]);
    key(&mut app, Key::Esc);
    key(&mut app, Key::Down);
    key(&mut app, Key::Enter);
    assert_eq!(app.actions, vec![Action::BindVfio, Action::AttachToVm, Action::DetachFromVm,
        Action::AutoPassthrough, Action::ApplyConfig, Action::Back]);
    key(&mut app, Key::Char('b'));
    key(&mut app, Key::Char('j'));
    key(&mut app, Key::Enter);
    assert_eq!(app.actions, vec![Action::AutoPassthrough, Action::ApplyConfig, Action::Back]);
}

#[test]
fn refresh_waits_for_the_detection() {
    let mut app = App::new(AppConfig::new(), vec![], vec![], false);
    let r = key(&mut app, Key::Char('r'));
    assert!(matches!(r, AppRequest::Refresh));
    // A key while the refresh is pending changes nothing and repeats the request.
    let r2 = key(&mut app, Key::Char('q'));
    assert!(matches!(r2, AppRequest::Refresh));
    assert!(!app.should_quit);
    let r3 = app.step(AppEvent::Refreshed {
        gpus: vec![gpu("0000:01:00.0", "A", "amdgpu", true)],
        vms: vec![vm("win10", VmState::Running, &[])],
        iommu_enabled: true,
    });
    assert!(matches!(r3, AppRequest::Idle));
    assert_eq!(app.gpus.len(), 1);
    assert_eq!(app.vms.len(), 1);
    assert!(app.iommu_enabled);
    key(&mut app, Key::Char('q'));
    assert!(app.should_quit);
}

#[test]
fn language_toggle_saves_config() {
    let mut app = App::new(AppConfig::new(), vec![], vec![], true);
    let r = key(&mut app, Key::Char('L'));
    assert!(matches!(r, AppRequest::SaveConfig));
    assert_eq!(app.lang, Lang::Zh);
    assert_eq!(app.config.language, "zh");
    let r2 = app.step(AppEvent::Saved(Err("disk full".to_string())));
    assert!(matches!(r2, AppRequest::Idle));
    assert_eq!(app.mode, AppMode::MessageDialog);
    assert_eq!(app.message, "Config save failed: disk full");
    assert!(app.message_is_error);
    key(&mut app, Key::Esc);
    key(&mut app, Key::Char('L'));
    assert_eq!(app.lang, Lang::En);
    let r3 = app.step(AppEvent::Saved(Ok(())));
    assert!(matches!(r3, AppRequest::Idle));
    assert_eq!(app.mode, AppMode::Main);
}

#[test]
fn bind_flow() {
    let gpus = vec![gpu("0000:01:00.0", "GA102", "nvidia", true)];
    let mut app = App::new(AppConfig::new(), gpus, vec![], true);
    key(&mut app, Key::Left);
    key(&mut app, Key::Enter);
    assert_eq!(app.actions[0], Action::BindVfio);
    key(&mut app, Key::Enter);
    assert_eq!(app.mode, AppMode::ConfirmDialog);
    assert_eq!(app.confirm_message, "Bind GA102 (0000:01:00.0) to vfio-pci?\nThis will detach it from the nvidia driver.");
    assert!(matches!(app.confirm_action, Some(ConfirmAction::BindVfio(0))));
    let r = key(&mut app, Key::Char('y'));
    assert!(matches!(r, AppRequest::Bind { gpu_index: 0 }));
    assert_eq!(app.config.get_original_driver("0000:01:00.0"), Some("nvidia"));
    let r2 = app.step(AppEvent::Passthrough(Ok(PassthroughResult::Success("bound".to_string()))));
    assert!(matches!(r2, AppRequest::SaveConfig));
    assert_eq!(app.message, "[OK] bound");
    let r3 = app.step(AppEvent::Saved(Ok(())));
    assert!(matches!(r3, AppRequest::Refresh));
    let r4 = app.step(AppEvent::Refreshed { gpus: vec![gpu("0000:01:00.0", "GA102", "vfio-pci", true)], vms: vec![], iommu_enabled: true });
    assert!(matches!(r4, AppRequest::Idle));
    assert_eq!(app.mode, AppMode::Main);
    assert_eq!(app.gpus[0].driver, "vfio-pci");
}

#[test]
fn bind_failure_reports_error() {
    let mut app = App::new(AppConfig::new(), vec![gpu("0000:01:00.0", "GA102", "nvidia", true)], vec![], true);
    key(&mut app, Key::Left);
    key(&mut app, Key::Enter);
    key(&mut app, Key::Enter);
    key(&mut app, Key::Enter);
    let r = app.step(AppEvent::Passthrough(Err("in use".to_string())));
    assert!(matches!(r, AppRequest::Refresh));
    assert_eq!(app.message, "Error: in use");
    assert!(app.message_is_error);
}

#[test]
fn confirm_can_be_declined() {
    let mut app = App::new(AppConfig::new(), vec![gpu("0000:01:00.0", "GA102", "nvidia", true)], vec![], true);
    key(&mut app, Key::Left);
    key(&mut app, Key::Enter);
    key(&mut app, Key::Enter);
    let r = key(&mut app, Key::Char('n'));
    assert!(matches!(r, AppRequest::Idle));
    assert_eq!(app.mode, AppMode::Main);
    assert!(app.confirm_action.is_none());
}

#[test]
fn attach_flow_with_warnings() {
    let gpus = vec![gpu("0000:01:00.0", "Navi", "vfio-pci", true)];
    let vms = vec![vm("win10", VmState::Running, &["0000:01:00.0"])];
    let mut app = App::new(AppConfig::new(), gpus, vms, true);
    key(&mut app, Key::Enter);
    assert_eq!(app.mode, AppMode::GpuAssign);
    assert_eq!(app.selected_vm_for_assign, Some(0));
    let r = key(&mut app, Key::Enter);
    assert!(matches!(&r, AppRequest::QueryGroup { pci_address } if pci_address == "0000:01:00.0"));
    let r2 = app.step(AppEvent::Group { gpu_host_display: false, members: vec![("0000:01:00.1".to_string(), false)] });
    assert!(matches!(r2, AppRequest::Idle));
    assert_eq!(app.mode, AppMode::ConfirmDialog);
    let base = fill(&fill(&fill(&t(Lang::En, "confirm.attach_gpu"), "Navi"), "0000:01:00.0"), "win10");
    let warning = fill(&fill(&t(Lang::En, "warn.vm_conflict"), "0000:01:00.0"), "win10");
    assert_eq!(app.confirm_message, format!("{}\n\n--- Warnings ---\n{}", base, warning));
    let r3 = key(&mut app, Key::Char('y'));
    assert!(matches!(&r3, AppRequest::Attach { vm_name, gpu_index: 0 } if vm_name == "win10"));
    let r4 = app.step(AppEvent::OpDone(Ok("Attached 1 device(s)".to_string())));
    assert!(matches!(r4, AppRequest::SaveConfig));
    assert_eq!(app.config.get_vm_assigned_gpus("win10"), &["0000:01:00.0".to_string()][..]);
    let r5 = app.step(AppEvent::Saved(Ok(())));
    assert!(matches!(r5, AppRequest::Refresh));
    assert_eq!(app.message, "Success: Attached 1 device(s)");
    let r6 = app.step(AppEvent::Refreshed { gpus: vec![gpu("0000:01:00.0", "Navi", "vfio-pci", true)], vms: vec![], iommu_enabled: true });
    assert!(matches!(r6, AppRequest::Idle));
    assert_eq!(app.mode, AppMode::Main);
}

#[test]
fn removing_every_gpu_from_a_vm() {
    let mut c = AppConfig::new();
    c.assign_gpu_to_vm("win10", "0000:01:00.0");
    c.assign_gpu_to_vm("win10", "0000:09:00.0");
    let gpus = vec![gpu("0000:01:00.0", "Navi", "vfio-pci", true)];
    let vms = vec![vm("win10", VmState::ShutOff, &["0000:01:00.0"])];
    let mut app = App::new(c, gpus, vms, true);
    key(&mut app, Key::Enter);
    key(&mut app, Key::Down);
    assert_eq!(app.assign_gpu_state.selected, 1);
    let r = key(&mut app, Key::Enter);
    assert!(matches!(&r, AppRequest::Detach { vm_name, gpu_index: 0 } if vm_name == "win10"));
    let r2 = app.step(AppEvent::OpDone(Err("boom".to_string())));
    assert!(matches!(r2, AppRequest::SaveConfig));
    assert!(app.config.get_vm_assigned_gpus("win10").is_empty());
    let r3 = app.step(AppEvent::Saved(Ok(())));
    assert!(matches!(r3, AppRequest::Refresh));
    let r4 = app.step(AppEvent::Refreshed { gpus: vec![], vms: vec![], iommu_enabled: true });
    assert!(matches!(r4, AppRequest::Idle));
    assert_eq!(app.mode, AppMode::MessageDialog);
    assert_eq!(app.message, "Removed from config. libvirt errors: 0000:01:00.0: boom");
    assert!(app.message_is_error);
}

#[test]
fn detach_needs_an_assignment() {
    let gpus = vec![gpu("0000:01:00.0", "Navi", "vfio-pci", true)];
    let mut app = App::new(AppConfig::new(), gpus, vec![vm("win10", VmState::ShutOff, &[])], true);
    key(&mut app, Key::Left);
    key(&mut app, Key::Enter);
    key(&mut app, Key::Down);
    key(&mut app, Key::Down);
    assert_eq!(app.actions[app.action_list_state.selected], Action::DetachFromVm);
    key(&mut app, Key::Enter);
    assert_eq!(app.mode, AppMode::MessageDialog);
    assert_eq!(app.message, "Error: This GPU is not assigned to any VM");
}

#[test]
fn apply_config_flow() {
    let gpus = vec![
        gpu("0000:01:00.0", "Navi", "amdgpu", true),
        gpu("0000:02:00.0", "Other", "amdgpu", false),
        gpu("0000:03:00.0", "Bound", "vfio-pci", false),
    ];
    let mut app = App::new(AppConfig::new(), gpus, vec![], true);
    key(&mut app, Key::Left);
    key(&mut app, Key::Enter);
    while app.actions[app.action_list_state.selected] != Action::ApplyConfig {
        key(&mut app, Key::Down);
    }
    key(&mut app, Key::Enter);
    assert_eq!(app.mode, AppMode::ConfirmDialog);
    let r = key(&mut app, Key::Enter);
    assert!(matches!(&r, AppRequest::ApplyVfio { gpu_indices } if gpu_indices == &vec![0usize, 2]));
    let r2 = app.step(AppEvent::Passthrough(Ok(PassthroughResult::NeedsReboot("reboot".to_string()))));
    assert!(matches!(r2, AppRequest::UpdateInitramfs));
    let r3 = app.step(AppEvent::OpDone(Ok("initramfs updated successfully".to_string())));
    assert!(matches!(r3, AppRequest::Idle));
    assert_eq!(app.mode, AppMode::Main);
    let expected = fill(&fill(&t(Lang::En, "msg.initramfs_ok"), &fill(&t(Lang::En, "msg.reboot"), "reboot")), "initramfs updated successfully");
    assert_eq!(app.message, expected);
}

#[test]
fn stray_report_repeats_pending_request() {
    let mut app = App::new(AppConfig::new(), vec![], vec![], true);
    let r = app.step(AppEvent::Saved(Ok(())));
    assert!(matches!(r, AppRequest::Idle));
    key(&mut app, Key::Char('r'));
    let r2 = app.step(AppEvent::OpDone(Ok("x".to_string())));
    assert!(matches!(r2, AppRequest::Refresh));
    assert!(matches!(app.pending_request(), AppRequest::Refresh));
}
