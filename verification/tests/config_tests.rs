use gpupass::config::AppConfig;
use gpupass::lang::Lang;

#[test]
fn fresh_config_is_english_and_empty() {
    let c = AppConfig::new();
    assert_eq!(c.language, "en");
    assert_eq!(c.get_lang(), Lang::En);
    assert!(c.vm_gpu_assignments.is_empty());
    assert!(c.original_drivers.is_empty());
    assert!(c.get_vm_assigned_gpus("win10").is_empty());
    assert_eq!(c.get_original_driver("0000:01:00.0"), None);
}

#[test]
fn language_round_trip() {
    let mut c = AppConfig::new();
    c.set_lang(Lang::Zh);
    assert_eq!(c.language, "zh");
    assert_eq!(c.get_lang(), Lang::Zh);
    c.set_lang(Lang::En);
    assert_eq!(c.get_lang(), Lang::En);
    c.language = "fr".to_string();
    assert_eq!(c.get_lang(), Lang::En);
}

#[test]
fn assign_is_once_per_address() {
    let mut c = AppConfig::new();
    c.assign_gpu_to_vm("win10", "0000:01:00.0");
    c.assign_gpu_to_vm("win10", "0000:01:00.1");
    c.assign_gpu_to_vm("win10", "0000:01:00.0");
    assert_eq!(c.get_vm_assigned_gpus("win10"), &["0000:01:00.0".to_string(), "0000:01:00.1".to_string()][..]);
    assert!(c.get_vm_assigned_gpus("linux").is_empty());
}

#[test]
fn assign_leaves_other_vms_alone() {
    let mut c = AppConfig::new();
    c.assign_gpu_to_vm("a", "0000:01:00.0");
    c.assign_gpu_to_vm("b", "0000:02:00.0");
    assert_eq!(c.get_vm_assigned_gpus("a"), &["0000:01:00.0".to_string()][..]);
    assert_eq!(c.get_vm_assigned_gpus("b"), &["0000:02:00.0".to_string()][..]);
}

#[test]
fn remove_drops_empty_entry() {
    let mut c = AppConfig::new();
    c.assign_gpu_to_vm("win10", "0000:01:00.0");
    c.assign_gpu_to_vm("win10", "0000:01:00.1");
    c.remove_gpu_from_vm("win10", "0000:01:00.0");
    assert_eq!(c.get_vm_assigned_gpus("win10"), &["0000:01:00.1".to_string()][..]);
    c.remove_gpu_from_vm("win10", "0000:01:00.1");
    assert!(c.get_vm_assigned_gpus("win10").is_empty());
    assert!(c.vm_gpu_assignments.is_empty());
    c.remove_gpu_from_vm("nobody", "0000:01:00.1");
    assert!(c.vm_gpu_assignments.is_empty());
}

#[test]
fn remove_undoes_assign() {
    let mut c = AppConfig::new();
    c.assign_gpu_to_vm("win10", "0000:03:00.0");
    let before: Vec<String> = c.get_vm_assigned_gpus("win10").to_vec();
    c.assign_gpu_to_vm("win10", "0000:01:00.0");
    c.remove_gpu_from_vm("win10", "0000:01:00.0");
    assert_eq!(c.get_vm_assigned_gpus("win10"), &before[..]);
}

#[test]
fn original_driver_recording() {
    let mut c = AppConfig::new();
    c.save_original_driver("0000:01:00.0", "nvidia");
    assert_eq!(c.get_original_driver("0000:01:00.0"), Some("nvidia"));
    c.save_original_driver("0000:01:00.0", "vfio-pci");
    assert_eq!(c.get_original_driver("0000:01:00.0"), Some("nvidia"));
    c.save_original_driver("0000:01:00.0", "");
    assert_eq!(c.get_original_driver("0000:01:00.0"), Some("nvidia"));
    c.save_original_driver("0000:01:00.0", "nouveau");
    assert_eq!(c.get_original_driver("0000:01:00.0"), Some("nouveau"));
    assert_eq!(c.original_drivers.len(), 1);
    assert_eq!(c.get_original_driver("0000:02:00.0"), None);
}
