//! Interface texts in English and Chinese.

use vstd::prelude::*;
use crate::text::{chars_of, eq_str};

verus! {

/// Interface language.
#[derive(Debug, Clone, Copy, PartialEq, Eq, Structural)]
pub enum Lang {
    En,
    Zh,
}

/// The text for `key` in a table of (key, text) pairs: the first pair
/// with that key, or the key itself where none has it.
pub open spec fn lookup(table: Seq<(Seq<char>, Seq<char>)>, key: Seq<char>) -> Seq<char>
    decreases table.len(),
{
    if table.len() == 0 {
        key
    } else if table[0].0 == key {
        table[0].1
    } else {
        lookup(table.drop_first(), key)
    }
}

pub open spec fn entry_views(v: Seq<(&str, &str)>) -> Seq<(Seq<char>, Seq<char>)> {
    v.map_values(|e: (&str, &str)| (e.0@, e.1@))
}

/// The English texts.
pub open spec fn en_texts() -> Seq<(Seq<char>, Seq<char>)> {
    seq![
        ("app.title"@, " gpupass - GPU Passthrough Manager "@),
        ("iommu.enabled"@, " IOMMU: ENABLED "@),
        ("iommu.disabled"@, " IOMMU: DISABLED "@),
        ("gpu.panel_title"@, " GPU List "@),
        ("gpu.boot"@, " [BOOT]"@),
        ("gpu.no_driver"@, "no driver"@),
        ("vm.panel_title"@, " Virtual Machines "@),
        ("vm.no_gpu"@, "No GPU"@),
        ("vm.gpu_label"@, "GPU: "@),
        ("action.bind_vfio"@, "Bind GPU to vfio-pci"@),
        ("action.unbind_vfio"@, "Unbind GPU from vfio-pci"@),
        ("action.attach_vm"@, "Attach GPU to VM"@),
        ("action.detach_vm"@, "Detach GPU from VM"@),
        ("action.auto_passthrough"@, "Auto Passthrough (full setup)"@),
        ("action.apply_config"@, "Apply VFIO config to system"@),
        ("action.back"@, "Back"@),
        ("action.title"@, " Actions "@),
        ("assign.title"@, " Assign GPU to VM: "@),
        ("assign.none"@, "None (remove GPU assignment)"@),
        ("assign.select_title"@, " Select GPU "@),
        ("confirm.title"@, " Confirm "@),
        ("confirm.yes"@, " [y] Yes "@),
        ("confirm.no"@, " [n] No "@),
        ("confirm.bind_vfio"@, "Bind {} ({}) to vfio-pci?\nThis will detach it from the {} driver."@),
        ("confirm.unbind_vfio"@, "Unbind {} ({}) from vfio-pci?\nIt will be returned to the {} driver."@),
        ("confirm.attach_gpu"@, "Attach {} ({}) to VM \"{}\"?"@),
        ("confirm.detach_gpu"@, "Detach {} ({}) from VM \"{}\"?"@),
        ("confirm.apply_config"@, "Apply VFIO configuration to /etc/modprobe.d/vfio.conf?\nThis will update initramfs and require a reboot."@),
        ("msg.title_ok"@, " Result "@),
        ("msg.title_err"@, " Error "@),
        ("msg.close"@, " [Enter/Esc] Close "@),
        ("msg.no_gpu_vm"@, "No GPUs or VMs available"@),
        ("msg.no_vms"@, "No VMs found. Create a VM first."@),
        ("msg.removed_gpu"@, "Removed GPU assignment from {}"@),
        ("msg.success"@, "Success: {}"@),
        ("msg.error"@, "Error: {}"@),
        ("msg.ok"@, "[OK] {}"@),
        ("msg.warn"@, "[WARN] {}"@),
        ("msg.err"@, "[ERR] {}"@),
        ("msg.reboot"@, "[REBOOT] {}"@),
        ("msg.initramfs_warn"@, "{}\nWarning: initramfs update failed: {}"@),
        ("msg.initramfs_ok"@, "{}\n{}"@),
        ("footer.navigate"@, " Navigate "@),
        ("footer.select"@, " Select "@),
        ("footer.tab"@, " Switch "@),
        ("footer.assign"@, " Assign "@),
        ("footer.refresh"@, " Refresh "@),
        ("footer.lang"@, " Lang "@),
        ("footer.quit"@, " Quit "@),
        ("vm.auto_registered"@, "Auto-registered {} VM(s) to libvirt"@),
        ("vm.auto_register_failed"@, "Failed to register VM '{}': {}"@),
        ("lang.title"@, " Select Language / 选择语言 "@),
        ("lang.prompt"@, "Press Enter to confirm"@),
        ("status.driver"@, "Driver"@),
        ("status.iommu_group"@, "IOMMU Group"@),
        ("warn.host_display_gpu"@, "GPU {} is the host's primary display GPU - passing through may lose host display"@),
        ("warn.vm_conflict"@, "GPU {} is already assigned to VM(s): {}"@),
        ("warn.iommu_host_display"@, "Device {} (same IOMMU group) is the host's primary display GPU"@),
        ("warn.iommu_vm_conflict"@, "Device {} (same IOMMU group) is already assigned to VM(s): {}"@),
    ]
}

/// The Chinese texts.
pub open spec fn zh_texts() -> Seq<(Seq<char>, Seq<char>)> {
    seq![
        ("app.title"@, " gpupass - 显卡直通管理器 "@),
        ("iommu.enabled"@, " IOMMU: 已启用 "@),
        ("iommu.disabled"@, " IOMMU: 未启用 "@),
        ("gpu.panel_title"@, " 显卡列表 "@),
        ("gpu.boot"@, " [主显]"@),
        ("gpu.no_driver"@, "无驱动"@),
        ("vm.panel_title"@, " 虚拟机 "@),
        ("vm.no_gpu"@, "无显卡"@),
        ("vm.gpu_label"@, "显卡: "@),
        ("action.bind_vfio"@, "绑定显卡到 vfio-pci"@),
        ("action.unbind_vfio"@, "从 vfio-pci 解绑显卡"@),
        ("action.attach_vm"@, "将显卡挂载到虚拟机"@),
        ("action.detach_vm"@, "从虚拟机卸载显卡"@),
        ("action.auto_passthrough"@, "自动直通（完整流程）"@),
        ("action.apply_config"@, "应用VFIO配置到系统"@),
        ("action.back"@, "返回"@),
        ("action.title"@, " 操作 "@),
        ("assign.title"@, " 分配显卡给虚拟机: "@),
        ("assign.none"@, "无（移除显卡分配）"@),
        ("assign.select_title"@, " 选择显卡 "@),
        ("confirm.title"@, " 确认 "@),
        ("confirm.yes"@, " [y] 是 "@),
        ("confirm.no"@, " [n] 否 "@),
        ("confirm.bind_vfio"@, "将 {} ({}) 绑定到 vfio-pci？\n这会将其从 {} 驱动上解绑。"@),
        ("confirm.unbind_vfio"@, "将 {} ({}) 从 vfio-pci 解绑？\n它会恢复到 {} 驱动。"@),
        ("confirm.attach_gpu"@, "将 {} ({}) 挂载到虚拟机 \"{}\"？"@),
        ("confirm.detach_gpu"@, "将 {} ({}) 从虚拟机 \"{}\" 卸载？"@),
        ("confirm.apply_config"@, "将VFIO配置写入 /etc/modprobe.d/vfio.conf？\n这会更新initramfs并需要重启。"@),
        ("msg.title_ok"@, " 结果 "@),
        ("msg.title_err"@, " 错误 "@),
        ("msg.close"@, " [Enter/Esc] 关闭 "@),
        ("msg.no_gpu_vm"@, "没有可用的显卡或虚拟机"@),
        ("msg.no_vms"@, "未找到虚拟机，请先创建虚拟机"@),
        ("msg.removed_gpu"@, "已移除 {} 的显卡分配"@),
        ("msg.success"@, "成功: {}"@),
        ("msg.error"@, "错误: {}"@),
        ("msg.ok"@, "[成功] {}"@),
        ("msg.warn"@, "[警告] {}"@),
        ("msg.err"@, "[错误] {}"@),
        ("msg.reboot"@, "[需重启] {}"@),
        ("msg.initramfs_warn"@, "{}\n警告: initramfs更新失败: {}"@),
        ("msg.initramfs_ok"@, "{}\n{}"@),
        ("footer.navigate"@, " 导航 "@),
        ("footer.select"@, " 选择 "@),
        ("footer.tab"@, " 切换 "@),
        ("footer.assign"@, " 分配 "@),
        ("footer.refresh"@, " 刷新 "@),
        ("footer.lang"@, " 语言 "@),
        ("footer.quit"@, " 退出 "@),
        ("vm.auto_registered"@, "已自动注册 {} 个虚拟机到libvirt"@),
        ("vm.auto_register_failed"@, "注册虚拟机 '{}' 失败: {}"@),
        ("lang.title"@, " 选择语言 / Select Language "@),
        ("lang.prompt"@, "按回车确认 / Press Enter to confirm"@),
        ("status.driver"@, "驱动"@),
        ("status.iommu_group"@, "IOMMU组"@),
        ("warn.host_display_gpu"@, "GPU {} 是宿主主显示显卡 - 直通可能导致宿主失去显示输出"@),
        ("warn.vm_conflict"@, "GPU {} 已分配给虚拟机: {}"@),
        ("warn.iommu_host_display"@, "设备 {}（同一IOMMU组）是宿主主显示显卡"@),
        ("warn.iommu_vm_conflict"@, "设备 {}（同一IOMMU组）已分配给虚拟机: {}"@),
    ]
}

/// The text for `key` in `lang`.
pub open spec fn text_for(lang: Lang, key: Seq<char>) -> Seq<char> {
    match lang {
        Lang::En => lookup(en_texts(), key),
        Lang::Zh => lookup(zh_texts(), key),
    }
}

fn en_entries() -> (r: Vec<(&'static str, &'static str)>)
    ensures
        entry_views(r@) == en_texts(),
{
    let r = vec![
        ("app.title", " gpupass - GPU Passthrough Manager "),
        ("iommu.enabled", " IOMMU: ENABLED "),
        ("iommu.disabled", " IOMMU: DISABLED "),
        ("gpu.panel_title", " GPU List "),
        ("gpu.boot", " [BOOT]"),
        ("gpu.no_driver", "no driver"),
        ("vm.panel_title", " Virtual Machines "),
        ("vm.no_gpu", "No GPU"),
        ("vm.gpu_label", "GPU: "),
        ("action.bind_vfio", "Bind GPU to vfio-pci"),
        ("action.unbind_vfio", "Unbind GPU from vfio-pci"),
        ("action.attach_vm", "Attach GPU to VM"),
        ("action.detach_vm", "Detach GPU from VM"),
        ("action.auto_passthrough", "Auto Passthrough (full setup)"),
        ("action.apply_config", "Apply VFIO config to system"),
        ("action.back", "Back"),
        ("action.title", " Actions "),
        ("assign.title", " Assign GPU to VM: "),
        ("assign.none", "None (remove GPU assignment)"),
        ("assign.select_title", " Select GPU "),
        ("confirm.title", " Confirm "),
        ("confirm.yes", " [y] Yes "),
        ("confirm.no", " [n] No "),
        ("confirm.bind_vfio", "Bind {} ({}) to vfio-pci?\nThis will detach it from the {} driver."),
        ("confirm.unbind_vfio", "Unbind {} ({}) from vfio-pci?\nIt will be returned to the {} driver."),
        ("confirm.attach_gpu", "Attach {} ({}) to VM \"{}\"?"),
        ("confirm.detach_gpu", "Detach {} ({}) from VM \"{}\"?"),
        ("confirm.apply_config", "Apply VFIO configuration to /etc/modprobe.d/vfio.conf?\nThis will update initramfs and require a reboot."),
        ("msg.title_ok", " Result "),
        ("msg.title_err", " Error "),
        ("msg.close", " [Enter/Esc] Close "),
        ("msg.no_gpu_vm", "No GPUs or VMs available"),
        ("msg.no_vms", "No VMs found. Create a VM first."),
        ("msg.removed_gpu", "Removed GPU assignment from {}"),
        ("msg.success", "Success: {}"),
        ("msg.error", "Error: {}"),
        ("msg.ok", "[OK] {}"),
        ("msg.warn", "[WARN] {}"),
        ("msg.err", "[ERR] {}"),
        ("msg.reboot", "[REBOOT] {}"),
        ("msg.initramfs_warn", "{}\nWarning: initramfs update failed: {}"),
        ("msg.initramfs_ok", "{}\n{}"),
        ("footer.navigate", " Navigate "),
        ("footer.select", " Select "),
        ("footer.tab", " Switch "),
        ("footer.assign", " Assign "),
        ("footer.refresh", " Refresh "),
        ("footer.lang", " Lang "),
        ("footer.quit", " Quit "),
        ("vm.auto_registered", "Auto-registered {} VM(s) to libvirt"),
        ("vm.auto_register_failed", "Failed to register VM '{}': {}"),
        ("lang.title", " Select Language / 选择语言 "),
        ("lang.prompt", "Press Enter to confirm"),
        ("status.driver", "Driver"),
        ("status.iommu_group", "IOMMU Group"),
        ("warn.host_display_gpu", "GPU {} is the host's primary display GPU - passing through may lose host display"),
        ("warn.vm_conflict", "GPU {} is already assigned to VM(s): {}"),
        ("warn.iommu_host_display", "Device {} (same IOMMU group) is the host's primary display GPU"),
        ("warn.iommu_vm_conflict", "Device {} (same IOMMU group) is already assigned to VM(s): {}"),
    ];
    assert(entry_views(r@) =~= en_texts());
    r
}

fn zh_entries() -> (r: Vec<(&'static str, &'static str)>)
    ensures
        entry_views(r@) == zh_texts(),
{
    let r = vec![
        ("app.title", " gpupass - 显卡直通管理器 "),
        ("iommu.enabled", " IOMMU: 已启用 "),
        ("iommu.disabled", " IOMMU: 未启用 "),
        ("gpu.panel_title", " 显卡列表 "),
        ("gpu.boot", " [主显]"),
        ("gpu.no_driver", "无驱动"),
        ("vm.panel_title", " 虚拟机 "),
        ("vm.no_gpu", "无显卡"),
        ("vm.gpu_label", "显卡: "),
        ("action.bind_vfio", "绑定显卡到 vfio-pci"),
        ("action.unbind_vfio", "从 vfio-pci 解绑显卡"),
        ("action.attach_vm", "将显卡挂载到虚拟机"),
        ("action.detach_vm", "从虚拟机卸载显卡"),
        ("action.auto_passthrough", "自动直通（完整流程）"),
        ("action.apply_config", "应用VFIO配置到系统"),
        ("action.back", "返回"),
        ("action.title", " 操作 "),
        ("assign.title", " 分配显卡给虚拟机: "),
        ("assign.none", "无（移除显卡分配）"),
        ("assign.select_title", " 选择显卡 "),
        ("confirm.title", " 确认 "),
        ("confirm.yes", " [y] 是 "),
        ("confirm.no", " [n] 否 "),
        ("confirm.bind_vfio", "将 {} ({}) 绑定到 vfio-pci？\n这会将其从 {} 驱动上解绑。"),
        ("confirm.unbind_vfio", "将 {} ({}) 从 vfio-pci 解绑？\n它会恢复到 {} 驱动。"),
        ("confirm.attach_gpu", "将 {} ({}) 挂载到虚拟机 \"{}\"？"),
        ("confirm.detach_gpu", "将 {} ({}) 从虚拟机 \"{}\" 卸载？"),
        ("confirm.apply_config", "将VFIO配置写入 /etc/modprobe.d/vfio.conf？\n这会更新initramfs并需要重启。"),
        ("msg.title_ok", " 结果 "),
        ("msg.title_err", " 错误 "),
        ("msg.close", " [Enter/Esc] 关闭 "),
        ("msg.no_gpu_vm", "没有可用的显卡或虚拟机"),
        ("msg.no_vms", "未找到虚拟机，请先创建虚拟机"),
        ("msg.removed_gpu", "已移除 {} 的显卡分配"),
        ("msg.success", "成功: {}"),
        ("msg.error", "错误: {}"),
        ("msg.ok", "[成功] {}"),
        ("msg.warn", "[警告] {}"),
        ("msg.err", "[错误] {}"),
        ("msg.reboot", "[需重启] {}"),
        ("msg.initramfs_warn", "{}\n警告: initramfs更新失败: {}"),
        ("msg.initramfs_ok", "{}\n{}"),
        ("footer.navigate", " 导航 "),
        ("footer.select", " 选择 "),
        ("footer.tab", " 切换 "),
        ("footer.assign", " 分配 "),
        ("footer.refresh", " 刷新 "),
        ("footer.lang", " 语言 "),
        ("footer.quit", " 退出 "),
        ("vm.auto_registered", "已自动注册 {} 个虚拟机到libvirt"),
        ("vm.auto_register_failed", "注册虚拟机 '{}' 失败: {}"),
        ("lang.title", " 选择语言 / Select Language "),
        ("lang.prompt", "按回车确认 / Press Enter to confirm"),
        ("status.driver", "驱动"),
        ("status.iommu_group", "IOMMU组"),
        ("warn.host_display_gpu", "GPU {} 是宿主主显示显卡 - 直通可能导致宿主失去显示输出"),
        ("warn.vm_conflict", "GPU {} 已分配给虚拟机: {}"),
        ("warn.iommu_host_display", "设备 {}（同一IOMMU组）是宿主主显示显卡"),
        ("warn.iommu_vm_conflict", "设备 {}（同一IOMMU组）已分配给虚拟机: {}"),
    ];
    assert(entry_views(r@) =~= zh_texts());
    r
}

fn lookup_exec(entries: &Vec<(&'static str, &'static str)>, key: &str) -> (r: String)
    ensures
        r@ == lookup(entry_views(entries@), key@),
{
    let k = chars_of(key);
    let mut i: usize = 0;
    assert(entry_views(entries@).skip(0) =~= entry_views(entries@));
    while i < entries.len()
        invariant
            i <= entries.len(),
            k@ == key@,
            lookup(entry_views(entries@), key@) == lookup(entry_views(entries@).skip(i as int), key@),
        decreases entries.len() - i,
    {
        let (ek, ev) = entries[i];
        assert(entry_views(entries@).skip(i as int).drop_first() =~= entry_views(entries@).skip(i + 1));
        if eq_str(&k, ek) {
            return ev.to_string();
        }
        i = i + 1;
    }
    key.to_string()
}

/// The English text for `key`; an unknown key stands for itself.
pub fn t_en(key: &str) -> (r: String)
    ensures
        r@ == lookup(en_texts(), key@),
{
    let entries = en_entries();
    lookup_exec(&entries, key)
}

/// The Chinese text for `key`; an unknown key stands for itself.
pub fn t_zh(key: &str) -> (r: String)
    ensures
        r@ == lookup(zh_texts(), key@),
{
    let entries = zh_entries();
    lookup_exec(&entries, key)
}

/// The text for `key` in `lang`.
pub fn t(lang: Lang, key: &str) -> (r: String)
    ensures
        r@ == text_for(lang, key@),
{
    match lang {
        Lang::Zh => t_zh(key),
        Lang::En => t_en(key),
    }
}

/// Whether a table has an entry for `key`.
pub open spec fn knows(table: Seq<(Seq<char>, Seq<char>)>, key: Seq<char>) -> bool {
    exists|i: int| 0 <= i < table.len() && #[trigger] table[i].0 == key
}

/// Both tables list the same keys in the same order, so a key that one
/// language knows the other knows too, and a key that neither knows comes
/// back unchanged in both.
pub proof fn lemma_tables_share_keys()
    ensures
        en_texts().len() == zh_texts().len(),
        forall|i: int| 0 <= i < en_texts().len() ==> #[trigger] en_texts()[i].0 == zh_texts()[i].0,
        forall|key: Seq<char>| #[trigger] knows(en_texts(), key) <==> knows(zh_texts(), key),
        forall|key: Seq<char>| !knows(en_texts(), key) ==> #[trigger] lookup(en_texts(), key) == key
            && lookup(zh_texts(), key) == key,
{
    let en = en_texts();
    let zh = zh_texts();
    assert(en.len() == zh.len());
    assert forall|i: int| 0 <= i < en.len() implies #[trigger] en[i].0 == zh[i].0 by {}
    assert forall|key: Seq<char>| #[trigger] knows(en, key) implies knows(zh, key) by {
        let i = choose|i: int| 0 <= i < en.len() && en[i].0 == key;
        assert(zh[i].0 == key);
    }
    assert forall|key: Seq<char>| #[trigger] knows(zh, key) implies knows(en, key) by {
        let i = choose|i: int| 0 <= i < zh.len() && zh[i].0 == key;
        assert(en[i].0 == key);
    }
    assert forall|key: Seq<char>| !knows(en, key) implies #[trigger] lookup(en, key) == key
        && lookup(zh, key) == key by {
        lemma_lookup_unknown(en, key);
        lemma_lookup_unknown(zh, key);
    }
}

/// A key that a table does not know comes back unchanged.
proof fn lemma_lookup_unknown(table: Seq<(Seq<char>, Seq<char>)>, key: Seq<char>)
    requires
        !knows(table, key),
    ensures
        lookup(table, key) == key,
    decreases table.len(),
{
    if table.len() > 0 {
        assert(table[0].0 != key);
        assert forall|i: int| 0 <= i < table.drop_first().len() implies #[trigger] table.drop_first()[i].0 != key by {
            assert(table[i + 1].0 != key);
        }
        lemma_lookup_unknown(table.drop_first(), key);
    }
}


/// The number of `{}` placeholders in `s` from index `i` on, counted as
/// `str::matches("{}")` counts them.
pub open spec fn holes_from(s: Seq<char>, i: int) -> nat
    decreases s.len() - i,
{
    if i < 0 || i + 1 >= s.len() {
        0
    } else if s[i] == '{' && s[i + 1] == '}' {
        1 + holes_from(s, i + 2)
    } else {
        holes_from(s, i + 1)
    }
}

/// The number of `{}` placeholders in `s`.
pub open spec fn holes(s: Seq<char>) -> nat {
    holes_from(s, 0)
}

/// Two table rows with one key and as many placeholders in their texts.
pub open spec fn rows_match(a: (Seq<char>, Seq<char>), b: (Seq<char>, Seq<char>)) -> bool {
    a.0 == b.0 && holes(a.1) == holes(b.1)
}

proof fn lemma_rows_match_0_5(i: int)
    requires
        0 <= i < 5,
    ensures
        rows_match(en_texts()[i], zh_texts()[i]),
{
    reveal_with_fuel(holes_from, 37);
    if i == 0 {
        reveal_strlit(" gpupass - GPU Passthrough Manager ");
        reveal_strlit(" gpupass - 显卡直通管理器 ");
    } else if i == 1 {
        reveal_strlit(" IOMMU: ENABLED ");
        reveal_strlit(" IOMMU: 已启用 ");
    } else if i == 2 {
        reveal_strlit(" IOMMU: DISABLED ");
        reveal_strlit(" IOMMU: 未启用 ");
    } else if i == 3 {
        reveal_strlit(" GPU List ");
        reveal_strlit(" 显卡列表 ");
    } else if i == 4 {
        reveal_strlit(" [BOOT]");
        reveal_strlit(" [主显]");
    }
}

proof fn lemma_rows_match_5_11(i: int)
    requires
        5 <= i < 11,
    ensures
        rows_match(en_texts()[i], zh_texts()[i]),
{
    reveal_with_fuel(holes_from, 26);
    if i == 5 {
        reveal_strlit("no driver");
        reveal_strlit("无驱动");
    } else if i == 6 {
        reveal_strlit(" Virtual Machines ");
        reveal_strlit(" 虚拟机 ");
    } else if i == 7 {
        reveal_strlit("No GPU");
        reveal_strlit("无显卡");
    } else if i == 8 {
        reveal_strlit("GPU: ");
        reveal_strlit("显卡: ");
    } else if i == 9 {
        reveal_strlit("Bind GPU to vfio-pci");
        reveal_strlit("绑定显卡到 vfio-pci");
    } else if i == 10 {
        reveal_strlit("Unbind GPU from vfio-pci");
        reveal_strlit("从 vfio-pci 解绑显卡");
    }
}

proof fn lemma_rows_match_11_17(i: int)
    requires
        11 <= i < 17,
    ensures
        rows_match(en_texts()[i], zh_texts()[i]),
{
    reveal_with_fuel(holes_from, 31);
    if i == 11 {
        reveal_strlit("Attach GPU to VM");
        reveal_strlit("将显卡挂载到虚拟机");
    } else if i == 12 {
        reveal_strlit("Detach GPU from VM");
        reveal_strlit("从虚拟机卸载显卡");
    } else if i == 13 {
        reveal_strlit("Auto Passthrough (full setup)");
        reveal_strlit("自动直通（完整流程）");
    } else if i == 14 {
        reveal_strlit("Apply VFIO config to system");
        reveal_strlit("应用VFIO配置到系统");
    } else if i == 15 {
        reveal_strlit("Back");
        reveal_strlit("返回");
    } else if i == 16 {
        reveal_strlit(" Actions ");
        reveal_strlit(" 操作 ");
    }
}

proof fn lemma_rows_match_17_23(i: int)
    requires
        17 <= i < 23,
    ensures
        rows_match(en_texts()[i], zh_texts()[i]),
{
    reveal_with_fuel(holes_from, 30);
    if i == 17 {
        reveal_strlit(" Assign GPU to VM: ");
        reveal_strlit(" 分配显卡给虚拟机: ");
    } else if i == 18 {
        reveal_strlit("None (remove GPU assignment)");
        reveal_strlit("无（移除显卡分配）");
    } else if i == 19 {
        reveal_strlit(" Select GPU ");
        reveal_strlit(" 选择显卡 ");
    } else if i == 20 {
        reveal_strlit(" Confirm ");
        reveal_strlit(" 确认 ");
    } else if i == 21 {
        reveal_strlit(" [y] Yes ");
        reveal_strlit(" [y] 是 ");
    } else if i == 22 {
        reveal_strlit(" [n] No ");
        reveal_strlit(" [n] 否 ");
    }
}

proof fn lemma_row_match_23(i: int)
    requires
        i == 23,
    ensures
        rows_match(en_texts()[i], zh_texts()[i]),
{
    reveal_with_fuel(holes_from, 67);
    reveal_strlit("Bind {} ({}) to vfio-pci?\nThis will detach it from the {} driver.");
    reveal_strlit("将 {} ({}) 绑定到 vfio-pci？\n这会将其从 {} 驱动上解绑。");
    assert(holes_from("Bind {} ({}) to vfio-pci?\nThis will detach it from the {} driver."@, 35) == 1);
    assert(holes_from("Bind {} ({}) to vfio-pci?\nThis will detach it from the {} driver."@, 5) == 3);
}

proof fn lemma_row_match_24(i: int)
    requires
        i == 24,
    ensures
        rows_match(en_texts()[i], zh_texts()[i]),
{
    reveal_with_fuel(holes_from, 69);
    reveal_strlit("Unbind {} ({}) from vfio-pci?\nIt will be returned to the {} driver.");
    reveal_strlit("将 {} ({}) 从 vfio-pci 解绑？\n它会恢复到 {} 驱动。");
    assert(holes_from("Unbind {} ({}) from vfio-pci?\nIt will be returned to the {} driver."@, 37) == 1);
    assert(holes_from("Unbind {} ({}) from vfio-pci?\nIt will be returned to the {} driver."@, 7) == 3);
}

proof fn lemma_rows_match_25_27(i: int)
    requires
        25 <= i < 27,
    ensures
        rows_match(en_texts()[i], zh_texts()[i]),
{
    reveal_with_fuel(holes_from, 30);
    if i == 25 {
        reveal_strlit("Attach {} ({}) to VM \"{}\"?");
        reveal_strlit("将 {} ({}) 挂载到虚拟机 \"{}\"？");
    } else if i == 26 {
        reveal_strlit("Detach {} ({}) from VM \"{}\"?");
        reveal_strlit("将 {} ({}) 从虚拟机 \"{}\" 卸载？");
    }
}

proof fn lemma_row_match_27(i: int)
    requires
        i == 27,
    ensures
        rows_match(en_texts()[i], zh_texts()[i]),
{
    reveal_with_fuel(holes_from, 105);
    reveal_strlit("Apply VFIO configuration to /etc/modprobe.d/vfio.conf?\nThis will update initramfs and require a reboot.");
    reveal_strlit("将VFIO配置写入 /etc/modprobe.d/vfio.conf？\n这会更新initramfs并需要重启。");
    assert(holes_from("Apply VFIO configuration to /etc/modprobe.d/vfio.conf?\nThis will update initramfs and require a reboot."@, 73) == 0);
    assert(holes_from("Apply VFIO configuration to /etc/modprobe.d/vfio.conf?\nThis will update initramfs and require a reboot."@, 43) == 0);
    assert(holes_from("Apply VFIO configuration to /etc/modprobe.d/vfio.conf?\nThis will update initramfs and require a reboot."@, 13) == 0);
}

proof fn lemma_rows_match_28_33(i: int)
    requires
        28 <= i < 33,
    ensures
        rows_match(en_texts()[i], zh_texts()[i]),
{
    reveal_with_fuel(holes_from, 34);
    if i == 28 {
        reveal_strlit(" Result ");
        reveal_strlit(" 结果 ");
    } else if i == 29 {
        reveal_strlit(" Error ");
        reveal_strlit(" 错误 ");
    } else if i == 30 {
        reveal_strlit(" [Enter/Esc] Close ");
        reveal_strlit(" [Enter/Esc] 关闭 ");
    } else if i == 31 {
        reveal_strlit("No GPUs or VMs available");
        reveal_strlit("没有可用的显卡或虚拟机");
    } else if i == 32 {
        reveal_strlit("No VMs found. Create a VM first.");
        reveal_strlit("未找到虚拟机，请先创建虚拟机");
    }
}

proof fn lemma_rows_match_33_39(i: int)
    requires
        33 <= i < 39,
    ensures
        rows_match(en_texts()[i], zh_texts()[i]),
{
    reveal_with_fuel(holes_from, 32);
    if i == 33 {
        reveal_strlit("Removed GPU assignment from {}");
        reveal_strlit("已移除 {} 的显卡分配");
    } else if i == 34 {
        reveal_strlit("Success: {}");
        reveal_strlit("成功: {}");
    } else if i == 35 {
        reveal_strlit("Error: {}");
        reveal_strlit("错误: {}");
    } else if i == 36 {
        reveal_strlit("[OK] {}");
        reveal_strlit("[成功] {}");
    } else if i == 37 {
        reveal_strlit("[WARN] {}");
        reveal_strlit("[警告] {}");
    } else if i == 38 {
        reveal_strlit("[ERR] {}");
        reveal_strlit("[错误] {}");
    }
}

proof fn lemma_rows_match_39_45(i: int)
    requires
        39 <= i < 45,
    ensures
        rows_match(en_texts()[i], zh_texts()[i]),
{
    reveal_with_fuel(holes_from, 41);
    if i == 39 {
        reveal_strlit("[REBOOT] {}");
        reveal_strlit("[需重启] {}");
    } else if i == 40 {
        reveal_strlit("{}\nWarning: initramfs update failed: {}");
        reveal_strlit("{}\n警告: initramfs更新失败: {}");
    } else if i == 41 {
        reveal_strlit("{}\n{}");
        reveal_strlit("{}\n{}");
    } else if i == 42 {
        reveal_strlit(" Navigate ");
        reveal_strlit(" 导航 ");
    } else if i == 43 {
        reveal_strlit(" Select ");
        reveal_strlit(" 选择 ");
    } else if i == 44 {
        reveal_strlit(" Switch ");
        reveal_strlit(" 切换 ");
    }
}

proof fn lemma_rows_match_45_51(i: int)
    requires
        45 <= i < 51,
    ensures
        rows_match(en_texts()[i], zh_texts()[i]),
{
    reveal_with_fuel(holes_from, 37);
    if i == 45 {
        reveal_strlit(" Assign ");
        reveal_strlit(" 分配 ");
    } else if i == 46 {
        reveal_strlit(" Refresh ");
        reveal_strlit(" 刷新 ");
    } else if i == 47 {
        reveal_strlit(" Lang ");
        reveal_strlit(" 语言 ");
    } else if i == 48 {
        reveal_strlit(" Quit ");
        reveal_strlit(" 退出 ");
    } else if i == 49 {
        reveal_strlit("Auto-registered {} VM(s) to libvirt");
        reveal_strlit("已自动注册 {} 个虚拟机到libvirt");
    } else if i == 50 {
        reveal_strlit("Failed to register VM '{}': {}");
        reveal_strlit("注册虚拟机 '{}' 失败: {}");
    }
}

proof fn lemma_rows_match_51_55(i: int)
    requires
        51 <= i < 55,
    ensures
        rows_match(en_texts()[i], zh_texts()[i]),
{
    reveal_with_fuel(holes_from, 32);
    if i == 51 {
        reveal_strlit(" Select Language / 选择语言 ");
        reveal_strlit(" 选择语言 / Select Language ");
    } else if i == 52 {
        reveal_strlit("Press Enter to confirm");
        reveal_strlit("按回车确认 / Press Enter to confirm");
    } else if i == 53 {
        reveal_strlit("Driver");
        reveal_strlit("驱动");
    } else if i == 54 {
        reveal_strlit("IOMMU Group");
        reveal_strlit("IOMMU组");
    }
}

proof fn lemma_row_match_55(i: int)
    requires
        i == 55,
    ensures
        rows_match(en_texts()[i], zh_texts()[i]),
{
    reveal_with_fuel(holes_from, 82);
    reveal_strlit("GPU {} is the host's primary display GPU - passing through may lose host display");
    reveal_strlit("GPU {} 是宿主主显示显卡 - 直通可能导致宿主失去显示输出");
    assert(holes_from("GPU {} is the host's primary display GPU - passing through may lose host display"@, 50) == 0);
    assert(holes_from("GPU {} is the host's primary display GPU - passing through may lose host display"@, 20) == 0);
}

proof fn lemma_rows_match_56_58(i: int)
    requires
        56 <= i < 58,
    ensures
        rows_match(en_texts()[i], zh_texts()[i]),
{
    reveal_with_fuel(holes_from, 64);
    if i == 56 {
        reveal_strlit("GPU {} is already assigned to VM(s): {}");
        reveal_strlit("GPU {} 已分配给虚拟机: {}");
    } else if i == 57 {
        reveal_strlit("Device {} (same IOMMU group) is the host's primary display GPU");
        reveal_strlit("设备 {}（同一IOMMU组）是宿主主显示显卡");
    }
}

proof fn lemma_row_match_58(i: int)
    requires
        i == 58,
    ensures
        rows_match(en_texts()[i], zh_texts()[i]),
{
    reveal_with_fuel(holes_from, 63);
    reveal_strlit("Device {} (same IOMMU group) is already assigned to VM(s): {}");
    reveal_strlit("设备 {}（同一IOMMU组）已分配给虚拟机: {}");
    assert(holes_from("Device {} (same IOMMU group) is already assigned to VM(s): {}"@, 31) == 1);
    assert(holes_from("Device {} (same IOMMU group) is already assigned to VM(s): {}"@, 1) == 2);
}

/// Where two tables of one length match row by row, a lookup in each gives
/// texts with as many placeholders.
proof fn lemma_lookup_holes(t1: Seq<(Seq<char>, Seq<char>)>, t2: Seq<(Seq<char>, Seq<char>)>, key: Seq<char>)
    requires
        t1.len() == t2.len(),
        forall|i: int| 0 <= i < t1.len() ==> rows_match(#[trigger] t1[i], t2[i]),
    ensures
        holes(lookup(t1, key)) == holes(lookup(t2, key)),
    decreases t1.len(),
{
    if t1.len() > 0 {
        assert(rows_match(t1[0], t2[0]));
        if t1[0].0 != key {
            let r1 = t1.drop_first();
            let r2 = t2.drop_first();
            assert forall|i: int| 0 <= i < r1.len() implies rows_match(#[trigger] r1[i], r2[i]) by {
                assert(rows_match(t1[i + 1], t2[i + 1]));
                assert(r1[i] == t1[i + 1]);
                assert(r2[i] == t2[i + 1]);
            }
            lemma_lookup_holes(r1, r2, key);
        }
    }
}

/// Every Chinese text has as many `{}` placeholders as the English text for
/// the same key, so the same arguments fill both; a key that neither table
/// knows comes back unchanged in both.
pub proof fn lemma_tables_share_placeholders()
    ensures
        forall|key: Seq<char>| #[trigger] holes(lookup(zh_texts(), key)) == holes(lookup(en_texts(), key)),
{
    let en = en_texts();
    let zh = zh_texts();
    assert forall|i: int| 0 <= i < en.len() implies rows_match(#[trigger] en[i], zh[i]) by {
        if i < 5 {
            lemma_rows_match_0_5(i);
        } else if i < 11 {
            lemma_rows_match_5_11(i);
        } else if i < 17 {
            lemma_rows_match_11_17(i);
        } else if i < 23 {
            lemma_rows_match_17_23(i);
        } else if i < 24 {
            lemma_row_match_23(i);
        } else if i < 25 {
            lemma_row_match_24(i);
        } else if i < 27 {
            lemma_rows_match_25_27(i);
        } else if i < 28 {
            lemma_row_match_27(i);
        } else if i < 33 {
            lemma_rows_match_28_33(i);
        } else if i < 39 {
            lemma_rows_match_33_39(i);
        } else if i < 45 {
            lemma_rows_match_39_45(i);
        } else if i < 51 {
            lemma_rows_match_45_51(i);
        } else if i < 55 {
            lemma_rows_match_51_55(i);
        } else if i < 56 {
            lemma_row_match_55(i);
        } else if i < 58 {
            lemma_rows_match_56_58(i);
        } else {
            lemma_row_match_58(i);
        }
    }
    assert forall|key: Seq<char>| #[trigger] holes(lookup(zh, key)) == holes(lookup(en, key)) by {
        lemma_lookup_holes(en, zh, key);
    }
}

} // verus!
