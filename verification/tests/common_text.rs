use gpupass::display::truncate;
use gpupass::lang::{t, t_en, t_zh, Lang};
use gpupass::text::{fill, fill_all, join_strings, same};

#[test]
fn lang_lookup_english() {
    assert_eq!(t_en("msg.ok"), "[OK] {}");
    assert_eq!(t_en("msg.no_gpu_vm"), "No GPUs or VMs available");
    assert_eq!(t(Lang::En, "confirm.bind_vfio"), "Bind {} ({}) to vfio-pci?\nThis will detach it from the {} driver.");
}

#[test]
fn lang_lookup_chinese() {
    assert_eq!(t_zh("msg.ok"), "[成功] {}");
    assert_eq!(t(Lang::Zh, "msg.error"), "错误: {}");
}

#[test]
fn lang_unknown_key_is_itself() {
    assert_eq!(t(Lang::En, "no.such.key"), "no.such.key");
    assert_eq!(t(Lang::Zh, "no.such.key"), "no.such.key");
}

#[test]
fn fill_replaces_first_placeholder_only() {
    let tpl = "Bind {} ({}) now".to_string();
    assert_eq!(fill(&tpl, "GPU"), "Bind GPU ({}) now");
    assert_eq!(fill_all(&tpl, "x"), "Bind x (x) now");
}

#[test]
fn join_and_same() {
    let parts = vec!["a".to_string(), "b".to_string(), "c".to_string()];
    assert_eq!(join_strings(&parts, ", "), "a, b, c");
    assert_eq!(join_strings(&Vec::new(), ", "), "");
    assert!(same("abc", "abc"));
    assert!(!same("abc", "abd"));
}

#[test]
fn truncate_short_text_unchanged() {
    assert_eq!(truncate("hello", 10), "hello");
    assert_eq!(truncate("hello", 8), "hello");
}

#[test]
fn truncate_long_text_gets_dots() {
    assert_eq!(truncate("hello world", 8), "hello...");
    assert_eq!(truncate("abc", 3), "...");
    assert_eq!(truncate("abc", 0), "...");
}

#[test]
fn truncate_counts_wide_characters_twice() {
    // Each CJK character takes two columns: only two fit into 7 - 3 columns.
    assert_eq!(truncate("显卡直通管理", 7), "显卡...");
    assert_eq!(truncate("显卡", 7), "显卡");
}

#[test]
fn truncate_result_fits_in_width() {
    let s = "NVIDIA GeForce RTX 3080 显卡";
    for max in 3..30usize {
        let out = truncate(s, max);
        let width: usize = out.chars().map(|c| if c.is_ascii() { 1 } else { 2 }).sum();
        assert!(width <= max, "width {} over {}", width, max);
    }
}

const KEYS: &[&str] = &[
        "app.title",
        "iommu.enabled",
        "iommu.disabled",
        "gpu.panel_title",
        "gpu.boot",
        "gpu.no_driver",
        "vm.panel_title",
        "vm.no_gpu",
        "vm.gpu_label",
        "action.bind_vfio",
        "action.unbind_vfio",
        "action.attach_vm",
        "action.detach_vm",
        "action.auto_passthrough",
        "action.apply_config",
        "action.back",
        "action.title",
        "assign.title",
        "assign.none",
        "assign.select_title",
        "confirm.title",
        "confirm.yes",
        "confirm.no",
        "confirm.bind_vfio",
        "confirm.unbind_vfio",
        "confirm.attach_gpu",
        "confirm.detach_gpu",
        "confirm.apply_config",
        "msg.title_ok",
        "msg.title_err",
        "msg.close",
        "msg.no_gpu_vm",
        "msg.no_vms",
        "msg.removed_gpu",
        "msg.success",
        "msg.error",
        "msg.ok",
        "msg.warn",
        "msg.err",
        "msg.reboot",
        "msg.initramfs_warn",
        "msg.initramfs_ok",
        "footer.navigate",
        "footer.select",
        "footer.tab",
        "footer.assign",
        "footer.refresh",
        "footer.lang",
        "footer.quit",
        "vm.auto_registered",
        "vm.auto_register_failed",
        "lang.title",
        "lang.prompt",
        "status.driver",
        "status.iommu_group",
        "warn.host_display_gpu",
        "warn.vm_conflict",
        "warn.iommu_host_display",
        "warn.iommu_vm_conflict",
];

#[test]
fn translations_keep_placeholders() {
    for key in KEYS {
        let en = t(Lang::En, key);
        let zh = t(Lang::Zh, key);
        assert_ne!(en, *key, "{}", key);
        assert_ne!(zh, *key, "{}", key);
        assert_eq!(en.matches("{}").count(), zh.matches("{}").count(), "{}", key);
    }
}
