//! The application state behind the terminal UI and its key handling, as a
//! state machine: a key (or the outcome of an outside operation) comes in,
//! the state changes, and the outside operation to run next goes out.

use vstd::prelude::*;
use crate::config::{AppConfig, ConfigView, assigned_after, removed_after, driver_recorded, keys_distinct};
use crate::gpu::{gpu_views, GpuDevice, GpuDeviceView};
use crate::lang::{t, Lang, text_for};
use crate::passthrough::{format_passthrough_result, outcome_text, PassthroughResult, PassthroughView};
use crate::text::{fill, fill_all, join, join_strings, lemma_str_views_push, replace_all, replace_first, same, str_views, chars_of, extend_str, string_of};
use crate::vm::{copy_strings, key_index, vm_views, VmInfo, VmInfoView};
use crate::vm_ops::{attach_warnings, fill2, fill2_exec, gpu_warnings, member_views, member_warnings, res_view, unit_res_view};

verus! {

/// What the screen shows.
#[derive(Debug, Clone, Copy, PartialEq, Eq, Structural)]
pub enum AppMode {
    /// Two panels: GPUs left, VMs right.
    Main,
    /// The action menu of a GPU.
    ActionMenu,
    /// Choosing a GPU for a VM.
    GpuAssign,
    ConfirmDialog,
    MessageDialog,
}

/// Which panel has the focus in the main view.
#[derive(Debug, Clone, Copy, PartialEq, Eq, Structural)]
pub enum PanelFocus {
    GpuList,
    VmList,
}

/// An entry of the action menu.
#[derive(Debug, Clone, Copy, PartialEq, Eq, Structural)]
pub enum Action {
    BindVfio,
    UnbindVfio,
    AttachToVm,
    DetachFromVm,
    AutoPassthrough,
    ApplyConfig,
    Back,
}

/// A key press, as far as the application tells keys apart.
#[derive(Debug, Clone, Copy, PartialEq, Eq, Structural)]
pub enum Key {
    Char(char),
    Esc,
    Enter,
    Up,
    Down,
    Left,
    Right,
    Tab,
    Other,
}

/// Selection and scroll position of a list.
#[derive(Debug, Clone, Copy, PartialEq, Eq, Structural)]
pub struct ListState {
    pub selected: usize,
    pub offset: usize,
}

impl ListState {
    /// The first row selected, the list scrolled to the top.
    pub fn new() -> (r: ListState)
        ensures
            r == ls_new(),
    {
        ListState { selected: 0, offset: 0 }
    }

    /// Selects row `index` of a list of `total` rows (the last row where
    /// `index` is past it), scrolling up to it where it is above the
    /// window; an empty list resets both.
    pub fn select(&mut self, index: usize, total: usize)
        ensures
            *final(self) == ls_select(*old(self), index as int, total as int),
            total == 0 ==> final(self).selected == 0 && final(self).offset == 0,
            total > 0 ==> final(self).selected == (if index < total - 1 { index } else { (total - 1) as usize }),
            total > 0 ==> final(self).offset == (if final(self).selected < old(self).offset {
                final(self).selected
            } else {
                old(self).offset
            }),
            total > 0 ==> final(self).selected < total,
            total > 0 ==> final(self).offset <= final(self).selected,
    {
        if total == 0 {
            self.selected = 0;
            self.offset = 0;
            return;
        }
        self.selected = if index < total - 1 { index } else { total - 1 };
        if self.selected < self.offset {
            self.offset = self.selected;
        }
    }

    /// Moves the selection one row up, scrolling up to it where needed.
    pub fn move_up(&mut self)
        ensures
            *final(self) == ls_up(*old(self)),
            old(self).selected > 0 ==> final(self).selected == old(self).selected - 1,
            old(self).selected > 0 ==> final(self).offset == (if final(self).selected < old(self).offset {
                final(self).selected
            } else {
                old(self).offset
            }),
            old(self).selected == 0 ==> *final(self) == *old(self),
            old(self).offset <= old(self).selected ==> final(self).offset <= final(self).selected,
    {
        if self.selected > 0 {
            self.selected -= 1;
            if self.selected < self.offset {
                self.offset = self.selected;
            }
        }
    }

    /// Moves the selection one row down in a list of `total` rows of which
    /// `visible_count` show, scrolling so that it stays in the window.
    pub fn move_down(&mut self, total: usize, visible_count: usize)
        ensures
            *final(self) == ls_down(*old(self), total as int, visible_count as int),
            (total > 0 && old(self).selected < total - 1) ==> final(self).selected == old(self).selected + 1
                && final(self).offset == (if final(self).selected >= old(self).offset + visible_count {
                    (final(self).selected - visible_count + 1) as usize
                } else {
                    old(self).offset
                }),
            !(total > 0 && old(self).selected < total - 1) ==> *final(self) == *old(self),
            visible_count > 0 && old(self).offset <= old(self).selected < old(self).offset + visible_count
                ==> final(self).offset <= final(self).selected < final(self).offset + visible_count,
            (total == 0 || old(self).selected < total) ==> (total == 0 || final(self).selected < total),
    {
        if total > 0 && self.selected < total - 1 {
            self.selected += 1;
            match self.offset.checked_add(visible_count) {
                Some(end) => {
                    if self.selected >= end {
                        self.offset = self.selected - visible_count + 1;
                    }
                },
                None => {},
            }
        }
    }
}


// ---------------------------------------------------------------------
// State, events, requests
// ---------------------------------------------------------------------

/// The operation that a confirmation dialog asks about.
#[derive(Debug)]
pub enum ConfirmAction {
    BindVfio(usize),
    UnbindVfio(usize),
    AttachGpuToVm { gpu_idx: usize, vm_idx: usize, warnings: Vec<String> },
    DetachGpuFromVm { gpu_idx: usize, vm_idx: usize },
    ApplyConfig,
}

/// Where the handling of the last key stands while it waits for an
/// outside operation.
#[derive(Debug)]
pub enum Task {
    Idle,
    /// Language switched; saving the configuration.
    SaveLang,
    /// Re-reading GPUs and VMs.
    Refresh,
    /// Removing every GPU from a VM: `assigned[next]` is being detached
    /// (it is `gpus[gpu_index]`).
    Unassign { vm_name: String, assigned: Vec<String>, next: usize, gpu_index: usize, errors: Vec<String> },
    /// Saving the configuration after removing every GPU from a VM.
    UnassignSave { vm_name: String, errors: Vec<String> },
    /// Re-reading GPUs and VMs after removing every GPU from a VM.
    UnassignRefresh { vm_name: String, errors: Vec<String> },
    /// Reading the IOMMU group of `gpus[gpu_idx]` for the attach warnings.
    AttachWarnings { gpu_idx: usize, vm_idx: usize },
    /// Binding `gpus[gpu_idx]` to vfio-pci.
    ConfirmBind { gpu_idx: usize },
    /// Saving the configuration after a bind.
    ConfirmBindSave,
    /// Returning `gpus[gpu_idx]` to its driver.
    ConfirmUnbind { gpu_idx: usize, original_driver: String },
    /// Attaching `gpus[gpu_idx]` to `vm_name`.
    ConfirmAttach { gpu_idx: usize, vm_name: String },
    /// Detaching `gpus[gpu_idx]` from `vm_name`.
    ConfirmDetach { gpu_idx: usize, vm_name: String },
    /// Saving the configuration after an attach or detach that reported `msg`.
    ConfirmReport { msg: String },
    /// Writing the VFIO configuration for the GPUs at these indices.
    ConfirmApply { gpu_indices: Vec<usize> },
    /// Updating the initramfs after the VFIO configuration reported `msg`.
    ConfirmInitramfs { msg: String },
    /// Re-reading GPUs and VMs at the end of a confirmed operation.
    ConfirmRefresh,
}

/// What comes in: a key, or what an outside operation reported.
pub enum AppEvent {
    Key(Key),
    /// GPUs, VMs and the IOMMU state as detected anew.
    Refreshed { gpus: Vec<GpuDevice>, vms: Vec<VmInfo>, iommu_enabled: bool },
    /// Outcome of saving the configuration.
    Saved(Result<(), String>),
    /// The other members of a GPU's IOMMU group, each with whether the host
    /// drives a display with it, and the same for the GPU.
    Group { gpu_host_display: bool, members: Vec<(String, bool)> },
    /// Outcome of an attach, a detach or an initramfs update.
    OpDone(Result<String, String>),
    /// Outcome of a bind, an unbind or writing the VFIO configuration.
    Passthrough(Result<PassthroughResult, String>),
}

/// The outside operation to run next.
#[derive(Debug)]
pub enum AppRequest {
    Idle,
    /// Detect GPUs, VMs and IOMMU anew (`AppEvent::Refreshed`).
    Refresh,
    /// Save `config` (`AppEvent::Saved`).
    SaveConfig,
    /// Read the IOMMU group of a device (`AppEvent::Group`).
    QueryGroup { pci_address: String },
    /// Attach `gpus[gpu_index]` to the VM, given all VMs (`AppEvent::OpDone`).
    Attach { vm_name: String, gpu_index: usize },
    /// Detach `gpus[gpu_index]` from the VM (`AppEvent::OpDone`).
    Detach { vm_name: String, gpu_index: usize },
    /// Bind `gpus[gpu_index]` to vfio-pci (`AppEvent::Passthrough`).
    Bind { gpu_index: usize },
    /// Return `gpus[gpu_index]` to `original_driver` (`AppEvent::Passthrough`).
    Unbind { gpu_index: usize, original_driver: String },
    /// Write the VFIO configuration for these GPUs (`AppEvent::Passthrough`).
    ApplyVfio { gpu_indices: Vec<usize> },
    /// Update the initramfs (`AppEvent::OpDone`).
    UpdateInitramfs,
}

/// The application state.
pub struct App {
    pub mode: AppMode,
    pub panel_focus: PanelFocus,
    pub gpus: Vec<GpuDevice>,
    pub vms: Vec<VmInfo>,
    pub config: AppConfig,
    pub gpu_list_state: ListState,
    pub vm_list_state: ListState,
    pub action_list_state: ListState,
    pub assign_gpu_state: ListState,
    pub actions: Vec<Action>,
    pub message: String,
    pub message_is_error: bool,
    pub confirm_message: String,
    pub confirm_action: Option<ConfirmAction>,
    pub selected_gpu_index: Option<usize>,
    pub selected_vm_for_assign: Option<usize>,
    pub iommu_enabled: bool,
    pub should_quit: bool,
    /// The interface language.
    pub lang: Lang,
    pub task: Task,
}

pub enum ConfirmView {
    BindVfio(usize),
    UnbindVfio(usize),
    AttachGpuToVm { gpu_idx: usize, vm_idx: usize, warnings: Seq<Seq<char>> },
    DetachGpuFromVm { gpu_idx: usize, vm_idx: usize },
    ApplyConfig,
}

pub enum TaskView {
    Idle,
    SaveLang,
    Refresh,
    Unassign { vm_name: Seq<char>, assigned: Seq<Seq<char>>, next: int, gpu_index: int, errors: Seq<Seq<char>> },
    UnassignSave { vm_name: Seq<char>, errors: Seq<Seq<char>> },
    UnassignRefresh { vm_name: Seq<char>, errors: Seq<Seq<char>> },
    AttachWarnings { gpu_idx: int, vm_idx: int },
    ConfirmBind { gpu_idx: int },
    ConfirmBindSave,
    ConfirmUnbind { gpu_idx: int, original_driver: Seq<char> },
    ConfirmAttach { gpu_idx: int, vm_name: Seq<char> },
    ConfirmDetach { gpu_idx: int, vm_name: Seq<char> },
    ConfirmReport { msg: Seq<char> },
    ConfirmApply { gpu_indices: Seq<usize> },
    ConfirmInitramfs { msg: Seq<char> },
    ConfirmRefresh,
}

pub enum AppEventView {
    Key(Key),
    Refreshed { gpus: Seq<GpuDeviceView>, vms: Seq<VmInfoView>, iommu_enabled: bool },
    Saved(Result<(), Seq<char>>),
    Group { gpu_host_display: bool, members: Seq<(Seq<char>, bool)> },
    OpDone(Result<Seq<char>, Seq<char>>),
    Passthrough(Result<PassthroughView, Seq<char>>),
}

pub enum RequestView {
    Idle,
    Refresh,
    SaveConfig,
    QueryGroup { pci_address: Seq<char> },
    Attach { vm_name: Seq<char>, gpu_index: int },
    Detach { vm_name: Seq<char>, gpu_index: int },
    Bind { gpu_index: int },
    Unbind { gpu_index: int, original_driver: Seq<char> },
    ApplyVfio { gpu_indices: Seq<usize> },
    UpdateInitramfs,
}

pub struct AppView {
    pub mode: AppMode,
    pub panel_focus: PanelFocus,
    pub gpus: Seq<GpuDeviceView>,
    pub vms: Seq<VmInfoView>,
    pub config: ConfigView,
    pub gpu_list_state: ListState,
    pub vm_list_state: ListState,
    pub action_list_state: ListState,
    pub assign_gpu_state: ListState,
    pub actions: Seq<Action>,
    pub message: Seq<char>,
    pub message_is_error: bool,
    pub confirm_message: Seq<char>,
    pub confirm_action: Option<ConfirmView>,
    pub selected_gpu_index: Option<usize>,
    pub selected_vm_for_assign: Option<usize>,
    pub iommu_enabled: bool,
    pub should_quit: bool,
    pub lang: Lang,
    pub task: TaskView,
}

impl View for ConfirmAction {
    type V = ConfirmView;

    open spec fn view(&self) -> ConfirmView {
        match self {
            ConfirmAction::BindVfio(i) => ConfirmView::BindVfio(*i),
            ConfirmAction::UnbindVfio(i) => ConfirmView::UnbindVfio(*i),
            ConfirmAction::AttachGpuToVm { gpu_idx, vm_idx, warnings } => ConfirmView::AttachGpuToVm {
                gpu_idx: *gpu_idx,
                vm_idx: *vm_idx,
                warnings: str_views(warnings@),
            },
            ConfirmAction::DetachGpuFromVm { gpu_idx, vm_idx } => ConfirmView::DetachGpuFromVm {
                gpu_idx: *gpu_idx,
                vm_idx: *vm_idx,
            },
            ConfirmAction::ApplyConfig => ConfirmView::ApplyConfig,
        }
    }
}

impl View for Task {
    type V = TaskView;

    open spec fn view(&self) -> TaskView {
        match self {
            Task::Idle => TaskView::Idle,
            Task::SaveLang => TaskView::SaveLang,
            Task::Refresh => TaskView::Refresh,
            Task::Unassign { vm_name, assigned, next, gpu_index, errors } => TaskView::Unassign {
                vm_name: vm_name@,
                assigned: str_views(assigned@),
                next: *next as int,
                gpu_index: *gpu_index as int,
                errors: str_views(errors@),
            },
            Task::UnassignSave { vm_name, errors } => TaskView::UnassignSave {
                vm_name: vm_name@,
                errors: str_views(errors@),
            },
            Task::UnassignRefresh { vm_name, errors } => TaskView::UnassignRefresh {
                vm_name: vm_name@,
                errors: str_views(errors@),
            },
            Task::AttachWarnings { gpu_idx, vm_idx } => TaskView::AttachWarnings {
                gpu_idx: *gpu_idx as int,
                vm_idx: *vm_idx as int,
            },
            Task::ConfirmBind { gpu_idx } => TaskView::ConfirmBind { gpu_idx: *gpu_idx as int },
            Task::ConfirmBindSave => TaskView::ConfirmBindSave,
            Task::ConfirmUnbind { gpu_idx, original_driver } => TaskView::ConfirmUnbind {
                gpu_idx: *gpu_idx as int,
                original_driver: original_driver@,
            },
            Task::ConfirmAttach { gpu_idx, vm_name } => TaskView::ConfirmAttach {
                gpu_idx: *gpu_idx as int,
                vm_name: vm_name@,
            },
            Task::ConfirmDetach { gpu_idx, vm_name } => TaskView::ConfirmDetach {
                gpu_idx: *gpu_idx as int,
                vm_name: vm_name@,
            },
            Task::ConfirmReport { msg } => TaskView::ConfirmReport { msg: msg@ },
            Task::ConfirmApply { gpu_indices } => TaskView::ConfirmApply { gpu_indices: gpu_indices@ },
            Task::ConfirmInitramfs { msg } => TaskView::ConfirmInitramfs { msg: msg@ },
            Task::ConfirmRefresh => TaskView::ConfirmRefresh,
        }
    }
}

pub open spec fn passthrough_res_view(r: Result<PassthroughResult, String>) -> Result<PassthroughView, Seq<char>> {
    match r {
        Ok(p) => Ok(p@),
        Err(e) => Err(e@),
    }
}

impl View for AppEvent {
    type V = AppEventView;

    open spec fn view(&self) -> AppEventView {
        match self {
            AppEvent::Key(k) => AppEventView::Key(*k),
            AppEvent::Refreshed { gpus, vms, iommu_enabled } => AppEventView::Refreshed {
                gpus: gpu_views(gpus@),
                vms: vm_views(vms@),
                iommu_enabled: *iommu_enabled,
            },
            AppEvent::Saved(r) => AppEventView::Saved(unit_res_view(*r)),
            AppEvent::Group { gpu_host_display, members } => AppEventView::Group {
                gpu_host_display: *gpu_host_display,
                members: member_views(members@),
            },
            AppEvent::OpDone(r) => AppEventView::OpDone(res_view(*r)),
            AppEvent::Passthrough(r) => AppEventView::Passthrough(passthrough_res_view(*r)),
        }
    }
}

impl View for AppRequest {
    type V = RequestView;

    open spec fn view(&self) -> RequestView {
        match self {
            AppRequest::Idle => RequestView::Idle,
            AppRequest::Refresh => RequestView::Refresh,
            AppRequest::SaveConfig => RequestView::SaveConfig,
            AppRequest::QueryGroup { pci_address } => RequestView::QueryGroup { pci_address: pci_address@ },
            AppRequest::Attach { vm_name, gpu_index } => RequestView::Attach {
                vm_name: vm_name@,
                gpu_index: *gpu_index as int,
            },
            AppRequest::Detach { vm_name, gpu_index } => RequestView::Detach {
                vm_name: vm_name@,
                gpu_index: *gpu_index as int,
            },
            AppRequest::Bind { gpu_index } => RequestView::Bind { gpu_index: *gpu_index as int },
            AppRequest::Unbind { gpu_index, original_driver } => RequestView::Unbind {
                gpu_index: *gpu_index as int,
                original_driver: original_driver@,
            },
            AppRequest::ApplyVfio { gpu_indices } => RequestView::ApplyVfio { gpu_indices: gpu_indices@ },
            AppRequest::UpdateInitramfs => RequestView::UpdateInitramfs,
        }
    }
}

impl View for App {
    type V = AppView;

    open spec fn view(&self) -> AppView {
        AppView {
            mode: self.mode,
            panel_focus: self.panel_focus,
            gpus: gpu_views(self.gpus@),
            vms: vm_views(self.vms@),
            config: self.config@,
            gpu_list_state: self.gpu_list_state,
            vm_list_state: self.vm_list_state,
            action_list_state: self.action_list_state,
            assign_gpu_state: self.assign_gpu_state,
            actions: self.actions@,
            message: self.message@,
            message_is_error: self.message_is_error,
            confirm_message: self.confirm_message@,
            confirm_action: match self.confirm_action {
                Some(c) => Some(c@),
                None => None,
            },
            selected_gpu_index: self.selected_gpu_index,
            selected_vm_for_assign: self.selected_vm_for_assign,
            iommu_enabled: self.iommu_enabled,
            should_quit: self.should_quit,
            lang: self.lang,
            task: self.task@,
        }
    }
}


// ---------------------------------------------------------------------
// The transitions
// ---------------------------------------------------------------------

pub open spec fn ls_new() -> ListState {
    ListState { selected: 0, offset: 0 }
}

pub open spec fn ls_up(s: ListState) -> ListState {
    if s.selected > 0 {
        let sel = (s.selected - 1) as usize;
        ListState { selected: sel, offset: if sel < s.offset { sel } else { s.offset } }
    } else {
        s
    }
}

pub open spec fn ls_down(s: ListState, total: int, vis: int) -> ListState {
    if total > 0 && s.selected < total - 1 {
        let sel = (s.selected + 1) as usize;
        ListState { selected: sel, offset: if sel >= s.offset + vis { (sel - vis + 1) as usize } else { s.offset } }
    } else {
        s
    }
}

pub open spec fn ls_select(s: ListState, index: int, total: int) -> ListState {
    if total == 0 {
        ls_new()
    } else {
        let sel = (if index < total - 1 { index } else { total - 1 }) as usize;
        ListState { selected: sel, offset: if sel < s.offset { sel } else { s.offset } }
    }
}

/// Room left below `usize::MAX` for list lengths and positions.
pub open spec fn fits(n: int) -> bool {
    n + 12 <= usize::MAX
}

pub open spec fn ls_ok(s: ListState) -> bool {
    s.offset <= s.selected && fits(s.selected as int)
}

pub open spec fn texts(a: AppView, key: Seq<char>) -> Seq<char> {
    text_for(a.lang, key)
}

/// `template` with its first three `{}` replaced by `x`, `y`, `z`.
pub open spec fn fill3(template: Seq<char>, x: Seq<char>, y: Seq<char>, z: Seq<char>) -> Seq<char> {
    replace_first(fill2(template, x, y), "{}"@, z)
}

/// The message dialog with `msg`.
pub open spec fn show(a: AppView, msg: Seq<char>, is_error: bool) -> AppView {
    AppView { message: msg, message_is_error: is_error, mode: AppMode::MessageDialog, ..a }
}

/// The action menu for a GPU: unbind (bound to vfio-pci) or bind (can be
/// passed through), attach and detach (either), then the general entries.
pub open spec fn menu_for(g: GpuDeviceView) -> Seq<Action> {
    (if g.driver == "vfio-pci"@ {
        seq![Action::UnbindVfio]
    } else if g.can_passthrough {
        seq![Action::BindVfio]
    } else {
        Seq::empty()
    }) + (if g.can_passthrough || g.driver == "vfio-pci"@ {
        seq![Action::AttachToVm, Action::DetachFromVm]
    } else {
        Seq::empty()
    }) + seq![Action::AutoPassthrough, Action::ApplyConfig]
}

pub open spec fn build_menu(a: AppView) -> AppView {
    AppView {
        actions: (match a.selected_gpu_index {
            Some(i) => menu_for(a.gpus[i as int]),
            None => Seq::empty(),
        }).push(Action::Back),
        action_list_state: ls_new(),
        ..a
    }
}

/// The first VM (in configuration order) whose assignments hold `pci`.
pub open spec fn first_holder_from(entries: Seq<(Seq<char>, Seq<Seq<char>>)>, pci: Seq<char>, i: int) -> Option<Seq<char>>
    decreases entries.len() - i,
{
    if i < 0 || i >= entries.len() {
        None
    } else if entries[i].1.contains(pci) {
        Some(entries[i].0)
    } else {
        first_holder_from(entries, pci, i + 1)
    }
}

/// The first index of a VM called `name`.
pub open spec fn vm_position(vms: Seq<VmInfoView>, name: Seq<char>, i: int) -> Option<int>
    decreases vms.len() - i,
{
    if i < 0 || i >= vms.len() {
        None
    } else if vms[i].name == name {
        Some(i)
    } else {
        vm_position(vms, name, i + 1)
    }
}

/// The first index of a GPU at `pci`.
pub open spec fn gpu_position(gpus: Seq<GpuDeviceView>, pci: Seq<char>, i: int) -> Option<int>
    decreases gpus.len() - i,
{
    if i < 0 || i >= gpus.len() {
        None
    } else if gpus[i].pci_address == pci {
        Some(i)
    } else {
        gpu_position(gpus, pci, i + 1)
    }
}

/// `base` followed by the addresses of `extra` that it lacks.
pub open spec fn merge_addrs(base: Seq<Seq<char>>, extra: Seq<Seq<char>>) -> Seq<Seq<char>>
    decreases extra.len(),
{
    if extra.len() == 0 {
        base
    } else {
        let m = merge_addrs(base, extra.drop_last());
        if m.contains(extra.last()) { m } else { m.push(extra.last()) }
    }
}

/// Each text preceded by a line feed.
pub open spec fn prefixed_lines(ws: Seq<Seq<char>>) -> Seq<char>
    decreases ws.len(),
{
    if ws.len() == 0 {
        Seq::empty()
    } else {
        prefixed_lines(ws.drop_last()) + "\n"@ + ws.last()
    }
}

pub open spec fn cfg_lang(c: ConfigView, l: Lang) -> ConfigView {
    ConfigView { language: match l { Lang::Zh => "zh"@, Lang::En => "en"@ }, ..c }
}

pub open spec fn cfg_assigned(c: ConfigView, vm: Seq<char>, pci: Seq<char>) -> ConfigView {
    ConfigView { assignments: assigned_after(c.assignments, vm, pci), ..c }
}

pub open spec fn cfg_removed(c: ConfigView, vm: Seq<char>, pci: Seq<char>) -> ConfigView {
    ConfigView { assignments: removed_after(c.assignments, vm, pci), ..c }
}

pub open spec fn cfg_driver(c: ConfigView, pci: Seq<char>, driver: Seq<char>) -> ConfigView {
    if driver.len() > 0 && driver != "vfio-pci"@ {
        ConfigView { drivers: driver_recorded(c.drivers, pci, driver), ..c }
    } else {
        c
    }
}

/// The driver recorded for `pci`, `nouveau` where none is.
pub open spec fn original_driver(c: ConfigView, pci: Seq<char>) -> Seq<char> {
    match key_index(c.drivers, pci) {
        Some(i) => c.drivers[i].1,
        None => "nouveau"@,
    }
}

/// Fresh GPUs, VMs and IOMMU state, selections kept within the lists.
pub open spec fn apply_refresh(a: AppView, gpus: Seq<GpuDeviceView>, vms: Seq<VmInfoView>, iommu: bool) -> AppView {
    AppView {
        gpus,
        vms,
        iommu_enabled: iommu,
        gpu_list_state: if gpus.len() > 0 {
            ls_select(a.gpu_list_state, a.gpu_list_state.selected as int, gpus.len() as int)
        } else {
            a.gpu_list_state
        },
        vm_list_state: if vms.len() > 0 {
            ls_select(a.vm_list_state, a.vm_list_state.selected as int, vms.len() as int)
        } else {
            a.vm_list_state
        },
        ..a
    }
}

pub open spec fn with_task(a: AppView, t: TaskView) -> AppView {
    AppView { task: t, ..a }
}

/// The outside operation that the current task waits for.
pub open spec fn pending_request(a: AppView) -> RequestView {
    match a.task {
        TaskView::Idle => RequestView::Idle,
        TaskView::SaveLang => RequestView::SaveConfig,
        TaskView::Refresh => RequestView::Refresh,
        TaskView::Unassign { vm_name, gpu_index, .. } => RequestView::Detach { vm_name, gpu_index },
        TaskView::UnassignSave { .. } => RequestView::SaveConfig,
        TaskView::UnassignRefresh { .. } => RequestView::Refresh,
        TaskView::AttachWarnings { gpu_idx, .. } => RequestView::QueryGroup { pci_address: a.gpus[gpu_idx].pci_address },
        TaskView::ConfirmBind { gpu_idx } => RequestView::Bind { gpu_index: gpu_idx },
        TaskView::ConfirmBindSave => RequestView::SaveConfig,
        TaskView::ConfirmUnbind { gpu_idx, original_driver } => RequestView::Unbind { gpu_index: gpu_idx, original_driver },
        TaskView::ConfirmAttach { gpu_idx, vm_name } => RequestView::Attach { vm_name, gpu_index: gpu_idx },
        TaskView::ConfirmDetach { gpu_idx, vm_name } => RequestView::Detach { vm_name, gpu_index: gpu_idx },
        TaskView::ConfirmReport { .. } => RequestView::SaveConfig,
        TaskView::ConfirmApply { gpu_indices } => RequestView::ApplyVfio { gpu_indices },
        TaskView::ConfirmInitramfs { .. } => RequestView::UpdateInitramfs,
        TaskView::ConfirmRefresh => RequestView::Refresh,
    }
}

/// Keys in the main view.
pub open spec fn main_key(a: AppView, k: Key) -> (AppView, RequestView) {
    match k {
        Key::Char('q') | Key::Esc => (AppView { should_quit: true, ..a }, RequestView::Idle),
        Key::Up | Key::Char('k') => (match a.panel_focus {
            PanelFocus::GpuList => AppView { gpu_list_state: ls_up(a.gpu_list_state), ..a },
            PanelFocus::VmList => AppView { vm_list_state: ls_up(a.vm_list_state), ..a },
        }, RequestView::Idle),
        Key::Down | Key::Char('j') => (match a.panel_focus {
            PanelFocus::GpuList => AppView { gpu_list_state: ls_down(a.gpu_list_state, a.gpus.len() as int, 10), ..a },
            PanelFocus::VmList => AppView { vm_list_state: ls_down(a.vm_list_state, a.vms.len() as int, 10), ..a },
        }, RequestView::Idle),
        Key::Left | Key::Char('h') => (AppView { panel_focus: PanelFocus::GpuList, ..a }, RequestView::Idle),
        Key::Right | Key::Tab => (AppView { panel_focus: PanelFocus::VmList, ..a }, RequestView::Idle),
        Key::Enter => (match a.panel_focus {
            PanelFocus::GpuList => if a.gpus.len() > 0 {
                AppView {
                    mode: AppMode::ActionMenu,
                    ..build_menu(AppView { selected_gpu_index: Some(a.gpu_list_state.selected), ..a })
                }
            } else {
                a
            },
            PanelFocus::VmList => if a.vms.len() > 0 && a.gpus.len() > 0 {
                AppView {
                    selected_vm_for_assign: Some(a.vm_list_state.selected),
                    selected_gpu_index: if a.selected_gpu_index is None { Some(0usize) } else { a.selected_gpu_index },
                    mode: AppMode::GpuAssign,
                    assign_gpu_state: ls_new(),
                    ..a
                }
            } else {
                show(a, texts(a, "msg.no_gpu_vm"@), true)
            },
        }, RequestView::Idle),
        Key::Char('a') => (if a.gpus.len() > 0 && a.vms.len() > 0 {
            AppView {
                selected_gpu_index: Some(a.gpu_list_state.selected),
                mode: AppMode::GpuAssign,
                assign_gpu_state: ls_new(),
                ..a
            }
        } else {
            show(a, texts(a, "msg.no_gpu_vm"@), true)
        }, RequestView::Idle),
        Key::Char('r') => (with_task(a, TaskView::Refresh), RequestView::Refresh),
        Key::Char('L') => {
            let l = match a.lang { Lang::En => Lang::Zh, Lang::Zh => Lang::En };
            (AppView { lang: l, config: cfg_lang(a.config, l), task: TaskView::SaveLang, ..a }, RequestView::SaveConfig)
        },
        _ => (a, RequestView::Idle),
    }
}

/// What an action-menu entry does for `gpus[gpu_idx]`.
pub open spec fn execute_action(a: AppView, act: Action, gpu_idx: int) -> AppView {
    match act {
        Action::BindVfio => {
            let g = a.gpus[gpu_idx];
            AppView {
                confirm_action: Some(ConfirmView::BindVfio(gpu_idx as usize)),
                confirm_message: fill3(texts(a, "confirm.bind_vfio"@), g.device_name, g.pci_address, g.driver),
                mode: AppMode::ConfirmDialog,
                ..a
            }
        },
        Action::UnbindVfio => {
            let g = a.gpus[gpu_idx];
            AppView {
                confirm_action: Some(ConfirmView::UnbindVfio(gpu_idx as usize)),
                confirm_message: fill3(texts(a, "confirm.unbind_vfio"@), g.device_name, g.pci_address,
                    original_driver(a.config, g.pci_address)),
                mode: AppMode::ConfirmDialog,
                ..a
            }
        },
        Action::AttachToVm => if a.vms.len() == 0 {
            show(a, texts(a, "msg.no_vms"@), true)
        } else {
            AppView { selected_vm_for_assign: None, mode: AppMode::GpuAssign, assign_gpu_state: ls_new(), ..a }
        },
        Action::DetachFromVm => match a.selected_gpu_index {
            Some(gi) => {
                let g = a.gpus[gi as int];
                match first_holder_from(a.config.assignments, g.pci_address, 0) {
                    Some(vm_name) => match vm_position(a.vms, vm_name, 0) {
                        Some(vi) => AppView {
                            confirm_action: Some(ConfirmView::DetachGpuFromVm { gpu_idx: gi, vm_idx: vi as usize }),
                            confirm_message: replace_first(replace_first(
                                replace_all(texts(a, "confirm.detach_gpu"@), "{}"@, g.device_name),
                                "{}"@, g.pci_address), "{}"@, vm_name),
                            mode: AppMode::ConfirmDialog,
                            ..a
                        },
                        None => show(a, replace_all(texts(a, "msg.error"@), "{}"@, "Assigned VM not found in list"@), true),
                    },
                    None => show(a, replace_all(texts(a, "msg.error"@), "{}"@, "This GPU is not assigned to any VM"@), true),
                }
            },
            None => a,
        },
        Action::AutoPassthrough => if a.vms.len() == 0 {
            show(a, texts(a, "msg.no_vms"@), true)
        } else {
            AppView {
                selected_gpu_index: Some(gpu_idx as usize),
                mode: AppMode::GpuAssign,
                assign_gpu_state: ls_new(),
                ..a
            }
        },
        Action::ApplyConfig => AppView {
            confirm_action: Some(ConfirmView::ApplyConfig),
            confirm_message: texts(a, "confirm.apply_config"@),
            mode: AppMode::ConfirmDialog,
            ..a
        },
        Action::Back => AppView { mode: AppMode::Main, ..a },
    }
}

/// Keys in the action menu.
pub open spec fn action_key(a: AppView, k: Key) -> AppView {
    match k {
        Key::Esc | Key::Char('b') => AppView { mode: AppMode::Main, ..a },
        Key::Up | Key::Char('k') => AppView { action_list_state: ls_up(a.action_list_state), ..a },
        Key::Down | Key::Char('j') => AppView {
            action_list_state: ls_down(a.action_list_state, a.actions.len() as int, 10),
            ..a
        },
        Key::Enter => match a.selected_gpu_index {
            Some(gi) => if a.action_list_state.selected < a.actions.len() {
                execute_action(a, a.actions[a.action_list_state.selected as int], gi as int)
            } else {
                a
            },
            None => a,
        },
        _ => a,
    }
}

/// The next step of removing every GPU from `vm_name`: detach the next
/// address that is a known GPU (dropping it from the configuration when
/// that reports back), drop the others at once, then save.
pub open spec fn unassign_advance(a: AppView, vm_name: Seq<char>, assigned: Seq<Seq<char>>, next: int, errors: Seq<Seq<char>>) -> (AppView, RequestView)
    decreases assigned.len() - next,
{
    if next < 0 || next >= assigned.len() {
        (with_task(a, TaskView::UnassignSave { vm_name, errors }), RequestView::SaveConfig)
    } else {
        match gpu_position(a.gpus, assigned[next], 0) {
            Some(gi) => (with_task(a, TaskView::Unassign { vm_name, assigned, next, gpu_index: gi, errors }),
                RequestView::Detach { vm_name, gpu_index: gi }),
            None => unassign_advance(AppView { config: cfg_removed(a.config, vm_name, assigned[next]), ..a },
                vm_name, assigned, next + 1, errors),
        }
    }
}

/// Enter in the GPU choice: the "none" row (after the GPUs) removes every
/// GPU from the VM; a GPU row asks to attach it, after its warnings.
pub open spec fn assign_enter(a: AppView) -> (AppView, RequestView) {
    let total = a.gpus.len() as int;
    let vm_idx: Option<int> = match a.selected_vm_for_assign {
        Some(v) => Some(v as int),
        None => if a.vms.len() > 0 { Some(a.vm_list_state.selected as int) } else { None },
    };
    if a.assign_gpu_state.selected == total {
        match vm_idx {
            None => (show(a, texts(a, "msg.no_vms"@), true), RequestView::Idle),
            Some(vi) => if vi >= a.vms.len() {
                (AppView { mode: AppMode::Main, ..show(a, "Error: VM index out of bounds"@, true) }, RequestView::Idle)
            } else {
                let name = a.vms[vi].name;
                let c = a.config;
                let assigned = merge_addrs(
                    match key_index(c.assignments, name) { Some(i) => c.assignments[i].1, None => Seq::empty() },
                    a.vms[vi].assigned_gpus);
                if assigned.len() == 0 {
                    (AppView { mode: AppMode::Main, ..show(a, replace_all(texts(a, "msg.removed_gpu"@), "{}"@, name), false) },
                        RequestView::Idle)
                } else {
                    unassign_advance(a, name, assigned, 0, Seq::empty())
                }
            },
        }
    } else {
        match vm_idx {
            None => (show(a, texts(a, "msg.no_vms"@), true), RequestView::Idle),
            Some(vi) => if a.assign_gpu_state.selected >= a.gpus.len() {
                (AppView { mode: AppMode::Main, ..show(a, "Error: GPU index out of bounds"@, true) }, RequestView::Idle)
            } else if vi >= a.vms.len() {
                (AppView { mode: AppMode::Main, ..show(a, "Error: VM index out of bounds"@, true) }, RequestView::Idle)
            } else {
                let gi = a.assign_gpu_state.selected as int;
                (with_task(a, TaskView::AttachWarnings { gpu_idx: gi, vm_idx: vi }),
                    RequestView::QueryGroup { pci_address: a.gpus[gi].pci_address })
            },
        }
    }
}

/// Keys in the GPU choice.
pub open spec fn assign_key(a: AppView, k: Key) -> (AppView, RequestView) {
    match k {
        Key::Esc => (AppView { mode: AppMode::Main, ..a }, RequestView::Idle),
        Key::Up | Key::Char('k') => (AppView { assign_gpu_state: ls_up(a.assign_gpu_state), ..a }, RequestView::Idle),
        Key::Down | Key::Char('j') => (AppView {
            assign_gpu_state: ls_down(a.assign_gpu_state, a.gpus.len() + 1int, 10),
            ..a
        }, RequestView::Idle),
        Key::Enter => assign_enter(a),
        _ => (a, RequestView::Idle),
    }
}

/// The indices of the GPUs that the VFIO configuration covers: those that
/// can be passed through or are bound to vfio-pci.
pub open spec fn passable_from(gpus: Seq<GpuDeviceView>, i: int) -> Seq<usize>
    decreases gpus.len() - i,
{
    if i < 0 || i >= gpus.len() {
        Seq::empty()
    } else if gpus[i].can_passthrough || gpus[i].driver == "vfio-pci"@ {
        seq![i as usize] + passable_from(gpus, i + 1)
    } else {
        passable_from(gpus, i + 1)
    }
}

/// A confirmed operation ends in the main view.
pub open spec fn finish_confirm(a: AppView) -> (AppView, RequestView) {
    (AppView { mode: AppMode::Main, task: TaskView::Idle, ..a }, RequestView::Idle)
}

/// Refresh, then end in the main view.
pub open spec fn confirm_refresh(a: AppView) -> (AppView, RequestView) {
    (with_task(a, TaskView::ConfirmRefresh), RequestView::Refresh)
}

/// The start of a confirmed operation.
pub open spec fn begin_confirm(a: AppView, c: ConfirmView) -> (AppView, RequestView) {
    match c {
        ConfirmView::BindVfio(gi) => if gi >= a.gpus.len() {
            confirm_refresh(show(a, "Error: GPU index out of bounds"@, true))
        } else {
            let g = a.gpus[gi as int];
            (AppView {
                config: cfg_driver(a.config, g.pci_address, g.driver),
                task: TaskView::ConfirmBind { gpu_idx: gi as int },
                ..a
            }, RequestView::Bind { gpu_index: gi as int })
        },
        ConfirmView::UnbindVfio(gi) => if gi >= a.gpus.len() {
            confirm_refresh(show(a, "Error: GPU index out of bounds"@, true))
        } else {
            let orig = original_driver(a.config, a.gpus[gi as int].pci_address);
            (with_task(a, TaskView::ConfirmUnbind { gpu_idx: gi as int, original_driver: orig }),
                RequestView::Unbind { gpu_index: gi as int, original_driver: orig })
        },
        ConfirmView::AttachGpuToVm { gpu_idx, vm_idx, .. } => if gpu_idx >= a.gpus.len() {
            confirm_refresh(show(a, "Error: GPU index out of bounds"@, true))
        } else if vm_idx >= a.vms.len() {
            confirm_refresh(show(a, "Error: VM index out of bounds"@, true))
        } else {
            let name = a.vms[vm_idx as int].name;
            (with_task(a, TaskView::ConfirmAttach { gpu_idx: gpu_idx as int, vm_name: name }),
                RequestView::Attach { vm_name: name, gpu_index: gpu_idx as int })
        },
        ConfirmView::DetachGpuFromVm { gpu_idx, vm_idx } => if gpu_idx >= a.gpus.len() {
            confirm_refresh(show(a, "Error: GPU index out of bounds"@, true))
        } else if vm_idx >= a.vms.len() {
            confirm_refresh(show(a, "Error: VM index out of bounds"@, true))
        } else {
            let name = a.vms[vm_idx as int].name;
            (with_task(a, TaskView::ConfirmDetach { gpu_idx: gpu_idx as int, vm_name: name }),
                RequestView::Detach { vm_name: name, gpu_index: gpu_idx as int })
        },
        ConfirmView::ApplyConfig => {
            let idx = passable_from(a.gpus, 0);
            (with_task(a, TaskView::ConfirmApply { gpu_indices: idx }), RequestView::ApplyVfio { gpu_indices: idx })
        },
    }
}

/// Keys in the confirmation dialog.
pub open spec fn confirm_key(a: AppView, k: Key) -> (AppView, RequestView) {
    match k {
        Key::Char('y') | Key::Enter => match a.confirm_action {
            Some(c) => begin_confirm(AppView { confirm_action: None, ..a }, c),
            None => (AppView { mode: AppMode::Main, ..a }, RequestView::Idle),
        },
        Key::Char('n') | Key::Esc => (AppView { confirm_action: None, mode: AppMode::Main, ..a }, RequestView::Idle),
        _ => (a, RequestView::Idle),
    }
}

/// Keys in the message dialog.
pub open spec fn message_key(a: AppView, k: Key) -> AppView {
    match k {
        Key::Enter | Key::Esc | Key::Char('q') => AppView { message: Seq::empty(), mode: AppMode::Main, ..a },
        _ => a,
    }
}

/// A key, by the view it is pressed in.
pub open spec fn key_step(a: AppView, k: Key) -> (AppView, RequestView) {
    match a.mode {
        AppMode::Main => main_key(a, k),
        AppMode::ActionMenu => (action_key(a, k), RequestView::Idle),
        AppMode::GpuAssign => assign_key(a, k),
        AppMode::ConfirmDialog => confirm_key(a, k),
        AppMode::MessageDialog => (message_key(a, k), RequestView::Idle),
    }
}

pub open spec fn save_failed(a: AppView, r: Result<(), Seq<char>>) -> AppView {
    match r {
        Ok(()) => a,
        Err(e) => show(a, "Config save failed: "@ + e, true),
    }
}

pub open spec fn error_text(a: AppView, e: Seq<char>) -> Seq<char> {
    replace_all(texts(a, "msg.error"@), "{}"@, e)
}

/// The confirmation text of an attachment, with its warnings.
pub open spec fn attach_confirm_text(a: AppView, gi: int, vi: int, warnings: Seq<Seq<char>>) -> Seq<char> {
    let g = a.gpus[gi];
    fill3(texts(a, "confirm.attach_gpu"@), g.device_name, g.pci_address, a.vms[vi].name)
        + (if warnings.len() > 0 { "\n\n--- Warnings ---"@ + prefixed_lines(warnings) } else { Seq::empty() })
}

/// A save of the configuration reported back.
pub open spec fn saved_step(a: AppView, r: Result<(), Seq<char>>) -> (AppView, RequestView) {
    match a.task {
        TaskView::SaveLang => (with_task(save_failed(a, r), TaskView::Idle), RequestView::Idle),
        TaskView::UnassignSave { vm_name, errors } =>
            (with_task(save_failed(a, r), TaskView::UnassignRefresh { vm_name, errors }), RequestView::Refresh),
        TaskView::ConfirmBindSave => confirm_refresh(save_failed(a, r)),
        TaskView::ConfirmReport { msg } => {
            let b = save_failed(a, r);
            confirm_refresh(show(b, replace_all(texts(b, "msg.success"@), "{}"@, msg), false))
        },
        _ => (a, pending_request(a)),
    }
}

/// GPUs, VMs and IOMMU state detected anew.
pub open spec fn refreshed_step(a: AppView, gpus: Seq<GpuDeviceView>, vms: Seq<VmInfoView>, iommu: bool) -> (AppView, RequestView) {
    match a.task {
        TaskView::Refresh => (with_task(apply_refresh(a, gpus, vms, iommu), TaskView::Idle), RequestView::Idle),
        TaskView::UnassignRefresh { vm_name, errors } => {
            let b = apply_refresh(a, gpus, vms, iommu);
            (with_task(if errors.len() == 0 {
                show(b, replace_all(texts(b, "msg.removed_gpu"@), "{}"@, vm_name), false)
            } else {
                show(b, "Removed from config. libvirt errors: "@ + join(errors, "; "@), true)
            }, TaskView::Idle), RequestView::Idle)
        },
        TaskView::ConfirmRefresh => finish_confirm(apply_refresh(a, gpus, vms, iommu)),
        _ => (a, pending_request(a)),
    }
}

/// The IOMMU group of the GPU to attach reported back: ask to confirm,
/// with the warnings.
pub open spec fn group_step(a: AppView, gpu_host_display: bool, members: Seq<(Seq<char>, bool)>) -> (AppView, RequestView) {
    match a.task {
        TaskView::AttachWarnings { gpu_idx, vm_idx } => {
            let pci = a.gpus[gpu_idx].pci_address;
            let ws = gpu_warnings(a.lang, pci, gpu_host_display, a.vms) + member_warnings(a.lang, members, a.vms, None);
            (AppView {
                confirm_action: Some(ConfirmView::AttachGpuToVm { gpu_idx: gpu_idx as usize, vm_idx: vm_idx as usize, warnings: ws }),
                confirm_message: attach_confirm_text(a, gpu_idx, vm_idx, ws),
                mode: AppMode::ConfirmDialog,
                task: TaskView::Idle,
                ..a
            }, RequestView::Idle)
        },
        _ => (a, pending_request(a)),
    }
}

/// An attach, a detach or an initramfs update reported back.
pub open spec fn op_done_step(a: AppView, r: Result<Seq<char>, Seq<char>>) -> (AppView, RequestView) {
    match a.task {
        TaskView::Unassign { vm_name, assigned, next, errors, .. } => {
            let errs = match r {
                Ok(_) => errors,
                Err(msg) => errors.push(assigned[next] + ": "@ + msg),
            };
            unassign_advance(AppView { config: cfg_removed(a.config, vm_name, assigned[next]), ..a },
                vm_name, assigned, next + 1, errs)
        },
        TaskView::ConfirmAttach { gpu_idx, vm_name } => match r {
            Ok(msg) => (AppView {
                config: cfg_assigned(a.config, vm_name, a.gpus[gpu_idx].pci_address),
                task: TaskView::ConfirmReport { msg },
                ..a
            }, RequestView::SaveConfig),
            Err(msg) => confirm_refresh(show(a, error_text(a, msg), true)),
        },
        TaskView::ConfirmDetach { gpu_idx, vm_name } => match r {
            Ok(msg) => (AppView {
                config: cfg_removed(a.config, vm_name, a.gpus[gpu_idx].pci_address),
                task: TaskView::ConfirmReport { msg },
                ..a
            }, RequestView::SaveConfig),
            Err(msg) => confirm_refresh(show(a, error_text(a, msg), true)),
        },
        TaskView::ConfirmInitramfs { msg } => match r {
            Ok(init) => finish_confirm(show(a, fill2(texts(a, "msg.initramfs_ok"@), msg, init), false)),
            Err(err) => finish_confirm(show(a, fill2(texts(a, "msg.initramfs_warn"@), msg, err), true)),
        },
        _ => (a, pending_request(a)),
    }
}

/// A bind, an unbind or writing the VFIO configuration reported back.
pub open spec fn passthrough_step(a: AppView, r: Result<PassthroughView, Seq<char>>) -> (AppView, RequestView) {
    match a.task {
        TaskView::ConfirmBind { .. } => match r {
            Ok(p) => (with_task(show(a, outcome_text(a.lang, p), false), TaskView::ConfirmBindSave), RequestView::SaveConfig),
            Err(msg) => confirm_refresh(show(a, error_text(a, msg), true)),
        },
        TaskView::ConfirmUnbind { .. } => match r {
            Ok(p) => confirm_refresh(show(a, outcome_text(a.lang, p), false)),
            Err(msg) => confirm_refresh(show(a, error_text(a, msg), true)),
        },
        TaskView::ConfirmApply { .. } => match r {
            Ok(p) => (with_task(a, TaskView::ConfirmInitramfs { msg: outcome_text(a.lang, p) }), RequestView::UpdateInitramfs),
            Err(msg) => finish_confirm(show(a, error_text(a, msg), true)),
        },
        _ => (a, pending_request(a)),
    }
}

/// What an outside operation's report does, by the task that waits for
/// it; a report that no task waits for changes nothing and repeats the
/// pending request.
pub open spec fn result_step(a: AppView, e: AppEventView) -> (AppView, RequestView) {
    match e {
        AppEventView::Saved(r) => saved_step(a, r),
        AppEventView::Refreshed { gpus, vms, iommu_enabled } => refreshed_step(a, gpus, vms, iommu_enabled),
        AppEventView::Group { gpu_host_display, members } => group_step(a, gpu_host_display, members),
        AppEventView::OpDone(r) => op_done_step(a, r),
        AppEventView::Passthrough(r) => passthrough_step(a, r),
        AppEventView::Key(_) => (a, pending_request(a)),
    }
}

/// An event that a step can take: fresh lists leave room below `usize::MAX`.
pub open spec fn event_fits(e: AppEventView) -> bool {
    e matches AppEventView::Refreshed { gpus, vms, .. } ==> fits(gpus.len() as int) && fits(vms.len() as int)
}

/// One step of the application: a key while nothing is pending, or the
/// report that the pending operation waits for. Anything else changes
/// nothing and repeats the pending request.
pub open spec fn app_step(a: AppView, e: AppEventView) -> (AppView, RequestView) {
    match e {
        AppEventView::Key(k) => if a.task is Idle { key_step(a, k) } else { (a, pending_request(a)) },
        _ => result_step(a, e),
    }
}


pub open spec fn task_wf(a: AppView) -> bool {
    match a.task {
        TaskView::Unassign { assigned, next, gpu_index, .. } =>
            0 <= next < assigned.len() && 0 <= gpu_index < a.gpus.len(),
        TaskView::AttachWarnings { gpu_idx, vm_idx } => 0 <= gpu_idx < a.gpus.len() && 0 <= vm_idx < a.vms.len(),
        TaskView::ConfirmBind { gpu_idx } => 0 <= gpu_idx < a.gpus.len(),
        TaskView::ConfirmUnbind { gpu_idx, .. } => 0 <= gpu_idx < a.gpus.len(),
        TaskView::ConfirmAttach { gpu_idx, .. } => 0 <= gpu_idx < a.gpus.len(),
        TaskView::ConfirmDetach { gpu_idx, .. } => 0 <= gpu_idx < a.gpus.len(),
        TaskView::ConfirmApply { gpu_indices } => forall|k: int| 0 <= k < gpu_indices.len() ==> gpu_indices[k] < a.gpus.len(),
        _ => true,
    }
}

/// The invariant of the application state: the configuration's maps have
/// distinct keys, list positions lie within their lists (with room below
/// `usize::MAX`), the action menu belongs to an existing GPU, and a
/// pending operation names existing GPUs and VMs.
pub open spec fn app_wf(a: AppView) -> bool {
    &&& keys_distinct(a.config.assignments)
    &&& keys_distinct(a.config.drivers)
    &&& fits(a.gpus.len() as int)
    &&& fits(a.vms.len() as int)
    &&& ls_ok(a.gpu_list_state)
    &&& ls_ok(a.vm_list_state)
    &&& ls_ok(a.action_list_state)
    &&& ls_ok(a.assign_gpu_state)
    &&& a.gpus.len() > 0 ==> a.gpu_list_state.selected < a.gpus.len()
    &&& a.vms.len() > 0 ==> a.vm_list_state.selected < a.vms.len()
    &&& a.actions.len() <= 7
    &&& a.mode == AppMode::ActionMenu ==> (a.selected_gpu_index matches Some(i) && i < a.gpus.len())
    &&& !(a.task is Idle) ==> a.mode != AppMode::ActionMenu
    &&& task_wf(a)
}

/// The state right after start-up, from the loaded configuration and
/// the detected GPUs, VMs and IOMMU state.
pub open spec fn initial_app(config: ConfigView, lang: Lang, gpus: Seq<GpuDeviceView>, vms: Seq<VmInfoView>, iommu_enabled: bool) -> AppView {
    AppView {
        mode: AppMode::Main,
        panel_focus: PanelFocus::VmList,
        gpus,
        vms,
        config,
        gpu_list_state: ls_new(),
        vm_list_state: ls_new(),
        action_list_state: ls_new(),
        assign_gpu_state: ls_new(),
        actions: Seq::empty(),
        message: Seq::empty(),
        message_is_error: false,
        confirm_message: Seq::empty(),
        confirm_action: None,
        selected_gpu_index: None,
        selected_vm_for_assign: None,
        iommu_enabled,
        should_quit: false,
        lang,
        task: TaskView::Idle,
    }
}

/// The requests name existing GPUs: in a well-formed state, the operation
/// that the state waits for names GPUs by indices into its list.
pub open spec fn request_in_range(a: AppView, r: RequestView) -> bool {
    match r {
        RequestView::Attach { gpu_index, .. } => 0 <= gpu_index < a.gpus.len(),
        RequestView::Detach { gpu_index, .. } => 0 <= gpu_index < a.gpus.len(),
        RequestView::Bind { gpu_index } => 0 <= gpu_index < a.gpus.len(),
        RequestView::Unbind { gpu_index, .. } => 0 <= gpu_index < a.gpus.len(),
        RequestView::ApplyVfio { gpu_indices } => forall|k: int| 0 <= k < gpu_indices.len() ==> gpu_indices[k] < a.gpus.len(),
        _ => true,
    }
}

/// In a well-formed state the pending operation names only existing GPUs.
pub proof fn lemma_pending_in_range(a: AppView)
    requires
        app_wf(a),
    ensures
        request_in_range(a, pending_request(a)),
{
}

proof fn lemma_unassign_advance_pending(a: AppView, vm_name: Seq<char>, assigned: Seq<Seq<char>>, next: int, errors: Seq<Seq<char>>)
    ensures
        unassign_advance(a, vm_name, assigned, next, errors).1
            == pending_request(unassign_advance(a, vm_name, assigned, next, errors).0),
    decreases assigned.len() - next,
{
    if 0 <= next < assigned.len() {
        match gpu_position(a.gpus, assigned[next], 0) {
            Some(gi) => {},
            None => lemma_unassign_advance_pending(AppView { config: cfg_removed(a.config, vm_name, assigned[next]), ..a },
                vm_name, assigned, next + 1, errors),
        }
    }
}

/// What a step asks for is exactly what the new state waits for: the
/// application never asks for an operation that it does not then expect
/// the report of, and asks for nothing once it waits for nothing.
pub proof fn lemma_step_asks_what_it_awaits(a: AppView, e: AppEventView)
    ensures
        app_step(a, e).1 == pending_request(app_step(a, e).0),
{
    match e {
        AppEventView::Key(k) => {
            if a.task is Idle {
                match a.mode {
                    AppMode::GpuAssign => {
                        if k == Key::Enter {
                            let total = a.gpus.len() as int;
                            if a.assign_gpu_state.selected == total {
                                let vm_idx: Option<int> = match a.selected_vm_for_assign {
                                    Some(v) => Some(v as int),
                                    None => if a.vms.len() > 0 { Some(a.vm_list_state.selected as int) } else { None },
                                };
                                if let Some(vi) = vm_idx {
                                    if vi < a.vms.len() {
                                        let name = a.vms[vi].name;
                                        let c = a.config;
                                        let assigned = merge_addrs(
                                            match key_index(c.assignments, name) { Some(i) => c.assignments[i].1, None => Seq::empty() },
                                            a.vms[vi].assigned_gpus);
                                        lemma_unassign_advance_pending(a, name, assigned, 0, Seq::empty());
                                    }
                                }
                            }
                        }
                    },
                    _ => {},
                }
            }
        },
        AppEventView::OpDone(r) => {
            if let TaskView::Unassign { vm_name, assigned, next, errors, .. } = a.task {
                let errs = match r {
                    Ok(_) => errors,
                    Err(msg) => errors.push(assigned[next] + ": "@ + msg),
                };
                lemma_unassign_advance_pending(AppView { config: cfg_removed(a.config, vm_name, assigned[next]), ..a },
                    vm_name, assigned, next + 1, errs);
            }
        },
        _ => {},
    }
}

/// Pressing the language key in the idle main view switches the language
/// and stores it in the configuration; once the save has reported back,
/// pressing it again brings the first language back.
pub proof fn lemma_language_key_twice(a: AppView)
    requires
        a.mode == AppMode::Main,
        a.task is Idle,
    ensures
        ({
            let (b, r1) = app_step(a, AppEventView::Key(Key::Char('L')));
            let (c, r2) = app_step(b, AppEventView::Saved(Ok(())));
            let (d, r3) = app_step(c, AppEventView::Key(Key::Char('L')));
            &&& b.lang != a.lang
            &&& b.config.language == crate::config::lang_name(b.lang)
            &&& r1 == RequestView::SaveConfig
            &&& c.mode == AppMode::Main && c.task is Idle && r2 == RequestView::Idle
            &&& d.lang == a.lang
            &&& d.config.language == crate::config::lang_name(a.lang)
            &&& crate::config::lang_named(d.config.language) == a.lang
            &&& r3 == RequestView::SaveConfig
        }),
{
    crate::config::lemma_lang_round_trip(a.lang);
}

/// Where the save after the language key fails, the failure is shown, and
/// once the message is closed, pressing the key again still brings the
/// first language back.
pub proof fn lemma_language_key_twice_after_failed_save(a: AppView, msg: Seq<char>)
    requires
        a.mode == AppMode::Main,
        a.task is Idle,
    ensures
        ({
            let (b, r1) = app_step(a, AppEventView::Key(Key::Char('L')));
            let (c, r2) = app_step(b, AppEventView::Saved(Err(msg)));
            let (c2, r3) = app_step(c, AppEventView::Key(Key::Enter));
            let (d, r4) = app_step(c2, AppEventView::Key(Key::Char('L')));
            &&& b.lang != a.lang
            &&& r1 == RequestView::SaveConfig
            &&& c.mode == AppMode::MessageDialog && c.message_is_error && r2 == RequestView::Idle
            &&& c2.mode == AppMode::Main && c2.task is Idle
            &&& d.lang == a.lang
            &&& d.config.language == crate::config::lang_name(a.lang)
            &&& r4 == RequestView::SaveConfig
        }),
{
    crate::config::lemma_lang_round_trip(a.lang);
}

impl App {
    pub open spec fn wf(&self) -> bool {
        app_wf(self@)
    }

    /// The application at start-up, in the configuration's language.
    pub fn new(config: AppConfig, gpus: Vec<GpuDevice>, vms: Vec<VmInfo>, iommu_enabled: bool) -> (r: App)
        requires
            config.wf(),
            fits(gpus@.len() as int),
            fits(vms@.len() as int),
        ensures
            r@ == initial_app(config@, config.lang_of(), gpu_views(gpus@), vm_views(vms@), iommu_enabled),
            r.wf(),
    {
        let lang = config.get_lang();
        App {
            mode: AppMode::Main,
            panel_focus: PanelFocus::VmList,
            gpus,
            vms,
            config,
            gpu_list_state: ListState::new(),
            vm_list_state: ListState::new(),
            action_list_state: ListState::new(),
            assign_gpu_state: ListState::new(),
            actions: Vec::new(),
            message: String::new(),
            message_is_error: false,
            confirm_message: String::new(),
            confirm_action: None,
            selected_gpu_index: None,
            selected_vm_for_assign: None,
            iommu_enabled,
            should_quit: false,
            lang,
            task: Task::Idle,
        }
    }

    fn show_message(&mut self, msg: String, is_error: bool)
        ensures
            final(self)@ == show(old(self)@, msg@, is_error),
    {
        self.message = msg;
        self.message_is_error = is_error;
        self.mode = AppMode::MessageDialog;
    }

    fn build_action_menu(&mut self)
        requires
            old(self).selected_gpu_index matches Some(i) ==> i < old(self).gpus.len(),
        ensures
            final(self)@ == build_menu(old(self)@),
            final(self)@.actions.len() <= 7,
    {
        let mut actions: Vec<Action> = Vec::new();
        if let Some(idx) = self.selected_gpu_index {
            let gpu = &self.gpus[idx];
            assert(gpu_views(self.gpus@)[idx as int] == gpu@);
            let vfio = same(gpu.driver.as_str(), "vfio-pci");
            if vfio {
                actions.push(Action::UnbindVfio);
            } else if gpu.can_passthrough {
                actions.push(Action::BindVfio);
            }
            if gpu.can_passthrough || vfio {
                actions.push(Action::AttachToVm);
                actions.push(Action::DetachFromVm);
            }
            actions.push(Action::AutoPassthrough);
            actions.push(Action::ApplyConfig);
            assert(actions@ =~= menu_for(gpu@));
        } else {
            assert(actions@ =~= Seq::<Action>::empty());
        }
        actions.push(Action::Back);
        self.actions = actions;
        self.action_list_state = ListState::new();
    }
}


fn fill3_exec(template: &String, x: &str, y: &str, z: &str) -> (r: String)
    ensures
        r@ == fill3(template@, x@, y@, z@),
{
    let a = fill(template, x);
    let b = fill(&a, y);
    fill(&b, z)
}

fn first_holder(c: &AppConfig, pci: &str) -> (r: Option<String>)
    ensures
        opt_view(r) == first_holder_from(c@.assignments, pci@, 0),
{
    let mut i: usize = 0;
    while i < c.vm_gpu_assignments.len()
        invariant
            i <= c.vm_gpu_assignments.len(),
            first_holder_from(c@.assignments, pci@, 0) == first_holder_from(c@.assignments, pci@, i as int),
        decreases c.vm_gpu_assignments.len() - i,
    {
        let (name, list) = &c.vm_gpu_assignments[i];
        assert(c@.assignments[i as int] == (name@, str_views(list@)));
        let mut j: usize = 0;
        let mut found = false;
        while j < list.len()
            invariant
                j <= list.len(),
                !found ==> forall|m: int| 0 <= m < j ==> str_views(list@)[m] != pci@,
                found ==> str_views(list@).contains(pci@),
            decreases list.len() - j,
        {
            if same(list[j].as_str(), pci) {
                assert(str_views(list@)[j as int] == pci@);
                found = true;
            }
            j = j + 1;
        }
        if found {
            return Some(name.clone());
        }
        i = i + 1;
    }
    None
}

pub open spec fn opt_view(o: Option<String>) -> Option<Seq<char>> {
    match o {
        Some(s) => Some(s@),
        None => None,
    }
}

fn vm_position_exec(vms: &Vec<VmInfo>, name: &String) -> (r: Option<usize>)
    ensures
        (match r { Some(i) => Some(i as int), None => None }) == vm_position(vm_views(vms@), name@, 0),
        r matches Some(i) ==> i < vms.len(),
{
    let mut i: usize = 0;
    while i < vms.len()
        invariant
            i <= vms.len(),
            vm_position(vm_views(vms@), name@, 0) == vm_position(vm_views(vms@), name@, i as int),
        decreases vms.len() - i,
    {
        assert(vm_views(vms@)[i as int] == vms@[i as int]@);
        if vms[i].name == *name {
            return Some(i);
        }
        i = i + 1;
    }
    None
}

fn gpu_position_exec(gpus: &Vec<GpuDevice>, pci: &String) -> (r: Option<usize>)
    ensures
        (match r { Some(i) => Some(i as int), None => None }) == gpu_position(gpu_views(gpus@), pci@, 0),
        r matches Some(i) ==> i < gpus.len(),
{
    let mut i: usize = 0;
    while i < gpus.len()
        invariant
            i <= gpus.len(),
            gpu_position(gpu_views(gpus@), pci@, 0) == gpu_position(gpu_views(gpus@), pci@, i as int),
        decreases gpus.len() - i,
    {
        assert(gpu_views(gpus@)[i as int] == gpus@[i as int]@);
        if gpus[i].pci_address == *pci {
            return Some(i);
        }
        i = i + 1;
    }
    None
}

fn original_driver_exec(c: &AppConfig, pci: &str) -> (r: String)
    ensures
        r@ == original_driver(c@, pci@),
{
    match c.get_original_driver(pci) {
        Some(d) => d.to_string(),
        None => "nouveau".to_string(),
    }
}

impl App {
    fn handle_main_key(&mut self, k: Key) -> (r: AppRequest)
        requires
            old(self).wf(),
            old(self).mode == AppMode::Main,
            old(self)@.task is Idle,
        ensures
            (final(self)@, r@) == main_key(old(self)@, k),
            final(self).wf(),
    {
        match k {
            Key::Char('q') | Key::Esc => {
                self.should_quit = true;
                AppRequest::Idle
            },
            Key::Up | Key::Char('k') => {
                match self.panel_focus {
                    PanelFocus::GpuList => self.gpu_list_state.move_up(),
                    PanelFocus::VmList => self.vm_list_state.move_up(),
                }
                AppRequest::Idle
            },
            Key::Down | Key::Char('j') => {
                match self.panel_focus {
                    PanelFocus::GpuList => self.gpu_list_state.move_down(self.gpus.len(), 10),
                    PanelFocus::VmList => self.vm_list_state.move_down(self.vms.len(), 10),
                }
                AppRequest::Idle
            },
            Key::Left | Key::Char('h') => {
                self.panel_focus = PanelFocus::GpuList;
                AppRequest::Idle
            },
            Key::Right | Key::Tab => {
                self.panel_focus = PanelFocus::VmList;
                AppRequest::Idle
            },
            Key::Enter => {
                match self.panel_focus {
                    PanelFocus::GpuList => {
                        if self.gpus.len() > 0 {
                            self.selected_gpu_index = Some(self.gpu_list_state.selected);
                            self.build_action_menu();
                            self.mode = AppMode::ActionMenu;
                        }
                    },
                    PanelFocus::VmList => {
                        if self.vms.len() > 0 && self.gpus.len() > 0 {
                            self.selected_vm_for_assign = Some(self.vm_list_state.selected);
                            if self.selected_gpu_index.is_none() {
                                self.selected_gpu_index = Some(0);
                            }
                            self.mode = AppMode::GpuAssign;
                            self.assign_gpu_state = ListState::new();
                        } else {
                            let m = t(self.lang, "msg.no_gpu_vm");
                            self.show_message(m, true);
                        }
                    },
                }
                AppRequest::Idle
            },
            Key::Char('a') => {
                if self.gpus.len() > 0 && self.vms.len() > 0 {
                    self.selected_gpu_index = Some(self.gpu_list_state.selected);
                    self.mode = AppMode::GpuAssign;
                    self.assign_gpu_state = ListState::new();
                } else {
                    let m = t(self.lang, "msg.no_gpu_vm");
                    self.show_message(m, true);
                }
                AppRequest::Idle
            },
            Key::Char('r') => {
                self.task = Task::Refresh;
                AppRequest::Refresh
            },
            Key::Char('L') => {
                let l = match self.lang {
                    Lang::En => Lang::Zh,
                    Lang::Zh => Lang::En,
                };
                self.lang = l;
                self.config.set_lang(l);
                self.task = Task::SaveLang;
                AppRequest::SaveConfig
            },
            _ => AppRequest::Idle,
        }
    }
}


impl App {
    fn execute_action(&mut self, act: Action, gpu_idx: usize)
        requires
            old(self).wf(),
            old(self)@.task is Idle,
            gpu_idx < old(self).gpus.len(),
            old(self).selected_gpu_index == Some(gpu_idx),
        ensures
            final(self)@ == execute_action(old(self)@, act, gpu_idx as int),
            final(self).wf(),
    {
        match act {
            Action::BindVfio => {
                let gpu = &self.gpus[gpu_idx];
                assert(gpu_views(self.gpus@)[gpu_idx as int] == gpu@);
                let tpl = t(self.lang, "confirm.bind_vfio");
                let m = fill3_exec(&tpl, gpu.device_name.as_str(), gpu.pci_address.as_str(), gpu.driver.as_str());
                self.confirm_action = Some(ConfirmAction::BindVfio(gpu_idx));
                self.confirm_message = m;
                self.mode = AppMode::ConfirmDialog;
            },
            Action::UnbindVfio => {
                let gpu = &self.gpus[gpu_idx];
                assert(gpu_views(self.gpus@)[gpu_idx as int] == gpu@);
                let original = original_driver_exec(&self.config, gpu.pci_address.as_str());
                let tpl = t(self.lang, "confirm.unbind_vfio");
                let m = fill3_exec(&tpl, gpu.device_name.as_str(), gpu.pci_address.as_str(), original.as_str());
                self.confirm_action = Some(ConfirmAction::UnbindVfio(gpu_idx));
                self.confirm_message = m;
                self.mode = AppMode::ConfirmDialog;
            },
            Action::AttachToVm => {
                if self.vms.len() == 0 {
                    let m = t(self.lang, "msg.no_vms");
                    self.show_message(m, true);
                    return;
                }
                self.selected_vm_for_assign = None;
                self.mode = AppMode::GpuAssign;
                self.assign_gpu_state = ListState::new();
            },
            Action::DetachFromVm => {
                if let Some(gi) = self.selected_gpu_index {
                    let gpu = &self.gpus[gi];
                    assert(gpu_views(self.gpus@)[gi as int] == gpu@);
                    match first_holder(&self.config, gpu.pci_address.as_str()) {
                        Some(vm_name) => match vm_position_exec(&self.vms, &vm_name) {
                            Some(vi) => {
                                let tpl = t(self.lang, "confirm.detach_gpu");
                                let m1 = fill_all(&tpl, gpu.device_name.as_str());
                                let m2 = fill(&m1, gpu.pci_address.as_str());
                                let m3 = fill(&m2, vm_name.as_str());
                                self.confirm_action = Some(ConfirmAction::DetachGpuFromVm { gpu_idx: gi, vm_idx: vi });
                                self.confirm_message = m3;
                                self.mode = AppMode::ConfirmDialog;
                            },
                            None => {
                                let tpl = t(self.lang, "msg.error");
                                let m = fill_all(&tpl, "Assigned VM not found in list");
                                self.show_message(m, true);
                            },
                        },
                        None => {
                            let tpl = t(self.lang, "msg.error");
                            let m = fill_all(&tpl, "This GPU is not assigned to any VM");
                            self.show_message(m, true);
                        },
                    }
                }
            },
            Action::AutoPassthrough => {
                if self.vms.len() == 0 {
                    let m = t(self.lang, "msg.no_vms");
                    self.show_message(m, true);
                    return;
                }
                self.selected_gpu_index = Some(gpu_idx);
                self.mode = AppMode::GpuAssign;
                self.assign_gpu_state = ListState::new();
            },
            Action::ApplyConfig => {
                self.confirm_action = Some(ConfirmAction::ApplyConfig);
                self.confirm_message = t(self.lang, "confirm.apply_config");
                self.mode = AppMode::ConfirmDialog;
            },
            Action::Back => {
                self.mode = AppMode::Main;
            },
        }
    }

    fn handle_action_key(&mut self, k: Key)
        requires
            old(self).wf(),
            old(self).mode == AppMode::ActionMenu,
            old(self)@.task is Idle,
        ensures
            final(self)@ == action_key(old(self)@, k),
            final(self).wf(),
    {
        match k {
            Key::Esc | Key::Char('b') => {
                self.mode = AppMode::Main;
            },
            Key::Up | Key::Char('k') => {
                self.action_list_state.move_up();
            },
            Key::Down | Key::Char('j') => {
                self.action_list_state.move_down(self.actions.len(), 10);
            },
            Key::Enter => {
                if let Some(gi) = self.selected_gpu_index {
                    if self.action_list_state.selected < self.actions.len() {
                        let act = self.actions[self.action_list_state.selected];
                        self.execute_action(act, gi);
                    }
                }
            },
            _ => {},
        }
    }

    fn handle_message_key(&mut self, k: Key)
        requires
            old(self).wf(),
            old(self).mode == AppMode::MessageDialog,
        ensures
            final(self)@ == message_key(old(self)@, k),
            final(self).wf(),
    {
        match k {
            Key::Enter | Key::Esc | Key::Char('q') => {
                self.message = String::new();
                self.mode = AppMode::Main;
            },
            _ => {},
        }
    }
}


fn merge_addrs_exec(base: &[String], extra: &Vec<String>) -> (r: Vec<String>)
    ensures
        str_views(r@) == merge_addrs(str_views(base@), str_views(extra@)),
{
    let mut out: Vec<String> = Vec::new();
    let mut i: usize = 0;
    while i < base.len()
        invariant
            i <= base.len(),
            str_views(out@) == str_views(base@).take(i as int),
        decreases base.len() - i,
    {
        let x = base[i].clone();
        proof { lemma_str_views_push(out@, x); }
        out.push(x);
        i = i + 1;
        assert(str_views(out@) =~= str_views(base@).take(i as int));
    }
    assert(str_views(base@).take(base.len() as int) =~= str_views(base@));
    let mut k: usize = 0;
    assert(str_views(extra@).take(0) =~= Seq::<Seq<char>>::empty());
    while k < extra.len()
        invariant
            k <= extra.len(),
            str_views(out@) == merge_addrs(str_views(base@), str_views(extra@).take(k as int)),
        decreases extra.len() - k,
    {
        assert(str_views(extra@).take(k + 1).drop_last() =~= str_views(extra@).take(k as int));
        assert(str_views(extra@).take(k + 1).last() == extra@[k as int]@);
        let mut present = false;
        let mut j: usize = 0;
        while j < out.len()
            invariant
                j <= out.len(),
                k < extra.len(),
                !present ==> forall|m: int| 0 <= m < j ==> str_views(out@)[m] != extra@[k as int]@,
                present ==> str_views(out@).contains(extra@[k as int]@),
            decreases out.len() - j,
        {
            if out[j] == extra[k] {
                assert(str_views(out@)[j as int] == extra@[k as int]@);
                present = true;
            }
            j = j + 1;
        }
        if !present {
            let x = extra[k].clone();
            proof { lemma_str_views_push(out@, x); }
            out.push(x);
        }
        k = k + 1;
    }
    assert(str_views(extra@).take(extra.len() as int) =~= str_views(extra@));
    out
}

impl App {
    /// Continues removing every GPU from `vm_name` at `next` (see `unassign_advance`).
    fn unassign_advance_exec(&mut self, vm_name: String, assigned: Vec<String>, next: usize, errors: Vec<String>) -> (r: AppRequest)
        requires
            old(self).wf(),
            old(self)@.task is Idle || old(self)@.task is Unassign,
            old(self).mode != AppMode::ActionMenu,
        ensures
            (final(self)@, r@) == unassign_advance(old(self)@, vm_name@, str_views(assigned@), next as int, str_views(errors@)),
            final(self).wf(),
    {
        let mut i: usize = next;
        while i < assigned.len()
            invariant
                next <= i,
                self.wf(),
                self.mode != AppMode::ActionMenu,
                self@.task is Idle || self@.task is Unassign,
                unassign_advance(old(self)@, vm_name@, str_views(assigned@), next as int, str_views(errors@))
                    == unassign_advance(self@, vm_name@, str_views(assigned@), i as int, str_views(errors@)),
            decreases assigned.len() - i,
        {
            assert(str_views(assigned@)[i as int] == assigned@[i as int]@);
            match gpu_position_exec(&self.gpus, &assigned[i]) {
                Some(gi) => {
                    self.task = Task::Unassign {
                        vm_name: vm_name.clone(),
                        assigned: crate::vm::copy_strings(&assigned),
                        next: i,
                        gpu_index: gi,
                        errors: crate::vm::copy_strings(&errors),
                    };
                    return AppRequest::Detach { vm_name, gpu_index: gi };
                },
                None => {
                    self.config.remove_gpu_from_vm(vm_name.as_str(), assigned[i].as_str());
                },
            }
            i = i + 1;
        }
        self.task = Task::UnassignSave { vm_name, errors };
        AppRequest::SaveConfig
    }

    fn assign_enter(&mut self) -> (r: AppRequest)
        requires
            old(self).wf(),
            old(self)@.task is Idle,
            old(self).mode == AppMode::GpuAssign,
        ensures
            (final(self)@, r@) == assign_enter(old(self)@),
            final(self).wf(),
    {
        let total = self.gpus.len();
        let vm_idx: Option<usize> = match self.selected_vm_for_assign {
            Some(v) => Some(v),
            None => if self.vms.len() > 0 { Some(self.vm_list_state.selected) } else { None },
        };
        if self.assign_gpu_state.selected == total {
            match vm_idx {
                None => {
                    let m = t(self.lang, "msg.no_vms");
                    self.show_message(m, true);
                    AppRequest::Idle
                },
                Some(vi) => {
                    if vi >= self.vms.len() {
                        self.show_message("Error: VM index out of bounds".to_string(), true);
                        self.mode = AppMode::Main;
                        return AppRequest::Idle;
                    }
                    let name = self.vms[vi].name.clone();
                    assert(vm_views(self.vms@)[vi as int] == self.vms@[vi as int]@);
                    let base = self.config.get_vm_assigned_gpus(name.as_str());
                    let assigned = merge_addrs_exec(base, &self.vms[vi].assigned_gpus);
                    if assigned.len() == 0 {
                        let tpl = t(self.lang, "msg.removed_gpu");
                        let m = fill_all(&tpl, name.as_str());
                        self.show_message(m, false);
                        self.mode = AppMode::Main;
                        return AppRequest::Idle;
                    }
                    let ghost a0 = old(self)@;
                    assert(name@ == a0.vms[vi as int].name);
                    assert(str_views(assigned@) == merge_addrs(
                        match key_index(a0.config.assignments, name@) { Some(i) => a0.config.assignments[i].1, None => Seq::empty() },
                        a0.vms[vi as int].assigned_gpus));
                    assert(self@ == a0);
                    let errs: Vec<String> = Vec::new();
                    assert(str_views(errs@) =~= Seq::<Seq<char>>::empty());
                    let r = self.unassign_advance_exec(name, assigned, 0, errs);
                    r
                },
            }
        } else {
            match vm_idx {
                None => {
                    let m = t(self.lang, "msg.no_vms");
                    self.show_message(m, true);
                    AppRequest::Idle
                },
                Some(vi) => {
                    if self.assign_gpu_state.selected >= self.gpus.len() {
                        self.show_message("Error: GPU index out of bounds".to_string(), true);
                        self.mode = AppMode::Main;
                        return AppRequest::Idle;
                    }
                    if vi >= self.vms.len() {
                        self.show_message("Error: VM index out of bounds".to_string(), true);
                        self.mode = AppMode::Main;
                        return AppRequest::Idle;
                    }
                    let gi = self.assign_gpu_state.selected;
                    assert(gpu_views(self.gpus@)[gi as int] == self.gpus@[gi as int]@);
                    self.task = Task::AttachWarnings { gpu_idx: gi, vm_idx: vi };
                    AppRequest::QueryGroup { pci_address: self.gpus[gi].pci_address.clone() }
                },
            }
        }
    }

    fn handle_assign_key(&mut self, k: Key) -> (r: AppRequest)
        requires
            old(self).wf(),
            old(self).mode == AppMode::GpuAssign,
            old(self)@.task is Idle,
        ensures
            (final(self)@, r@) == assign_key(old(self)@, k),
            final(self).wf(),
    {
        match k {
            Key::Esc => {
                self.mode = AppMode::Main;
                AppRequest::Idle
            },
            Key::Up | Key::Char('k') => {
                self.assign_gpu_state.move_up();
                AppRequest::Idle
            },
            Key::Down | Key::Char('j') => {
                let total = self.gpus.len() + 1;
                self.assign_gpu_state.move_down(total, 10);
                AppRequest::Idle
            },
            Key::Enter => self.assign_enter(),
            _ => AppRequest::Idle,
        }
    }
}


fn passable_exec(gpus: &Vec<GpuDevice>) -> (r: Vec<usize>)
    ensures
        r@ == passable_from(gpu_views(gpus@), 0),
        forall|k: int| 0 <= k < r@.len() ==> r@[k] < gpus.len(),
{
    let mut out: Vec<usize> = Vec::new();
    let mut i: usize = gpus.len();
    while i > 0
        invariant
            i <= gpus.len(),
            out@ == passable_from(gpu_views(gpus@), i as int),
            forall|k: int| 0 <= k < out@.len() ==> out@[k] < gpus.len(),
        decreases i,
    {
        i = i - 1;
        let g = &gpus[i];
        assert(gpu_views(gpus@)[i as int] == g@);
        if g.can_passthrough || same(g.driver.as_str(), "vfio-pci") {
            out.insert(0, i);
            assert(out@ =~= seq![i] + passable_from(gpu_views(gpus@), i + 1));
        }
    }
    out
}

impl App {
    fn confirm_refresh_exec(&mut self) -> (r: AppRequest)
        ensures
            (final(self)@, r@) == confirm_refresh(old(self)@),
    {
        self.task = Task::ConfirmRefresh;
        AppRequest::Refresh
    }

    fn begin_confirm(&mut self, c: ConfirmAction) -> (r: AppRequest)
        requires
            old(self).wf(),
            old(self)@.task is Idle,
            old(self).mode == AppMode::ConfirmDialog,
        ensures
            (final(self)@, r@) == begin_confirm(old(self)@, c@),
            final(self).wf(),
    {
        match c {
            ConfirmAction::BindVfio(gi) => {
                if gi >= self.gpus.len() {
                    self.show_message("Error: GPU index out of bounds".to_string(), true);
                    return self.confirm_refresh_exec();
                }
                assert(gpu_views(self.gpus@)[gi as int] == self.gpus@[gi as int]@);
                let pci = self.gpus[gi].pci_address.clone();
                let drv = self.gpus[gi].driver.clone();
                self.config.save_original_driver(pci.as_str(), drv.as_str());
                self.task = Task::ConfirmBind { gpu_idx: gi };
                AppRequest::Bind { gpu_index: gi }
            },
            ConfirmAction::UnbindVfio(gi) => {
                if gi >= self.gpus.len() {
                    self.show_message("Error: GPU index out of bounds".to_string(), true);
                    return self.confirm_refresh_exec();
                }
                assert(gpu_views(self.gpus@)[gi as int] == self.gpus@[gi as int]@);
                let orig = original_driver_exec(&self.config, self.gpus[gi].pci_address.as_str());
                self.task = Task::ConfirmUnbind { gpu_idx: gi, original_driver: orig.clone() };
                AppRequest::Unbind { gpu_index: gi, original_driver: orig }
            },
            ConfirmAction::AttachGpuToVm { gpu_idx, vm_idx, .. } => {
                if gpu_idx >= self.gpus.len() {
                    self.show_message("Error: GPU index out of bounds".to_string(), true);
                    return self.confirm_refresh_exec();
                }
                if vm_idx >= self.vms.len() {
                    self.show_message("Error: VM index out of bounds".to_string(), true);
                    return self.confirm_refresh_exec();
                }
                assert(vm_views(self.vms@)[vm_idx as int] == self.vms@[vm_idx as int]@);
                let name = self.vms[vm_idx].name.clone();
                self.task = Task::ConfirmAttach { gpu_idx, vm_name: name.clone() };
                AppRequest::Attach { vm_name: name, gpu_index: gpu_idx }
            },
            ConfirmAction::DetachGpuFromVm { gpu_idx, vm_idx } => {
                if gpu_idx >= self.gpus.len() {
                    self.show_message("Error: GPU index out of bounds".to_string(), true);
                    return self.confirm_refresh_exec();
                }
                if vm_idx >= self.vms.len() {
                    self.show_message("Error: VM index out of bounds".to_string(), true);
                    return self.confirm_refresh_exec();
                }
                assert(vm_views(self.vms@)[vm_idx as int] == self.vms@[vm_idx as int]@);
                let name = self.vms[vm_idx].name.clone();
                self.task = Task::ConfirmDetach { gpu_idx, vm_name: name.clone() };
                AppRequest::Detach { vm_name: name, gpu_index: gpu_idx }
            },
            ConfirmAction::ApplyConfig => {
                let idx = passable_exec(&self.gpus);
                self.task = Task::ConfirmApply { gpu_indices: idx.clone() };
                AppRequest::ApplyVfio { gpu_indices: idx }
            },
        }
    }

    fn handle_confirm_key(&mut self, k: Key) -> (r: AppRequest)
        requires
            old(self).wf(),
            old(self).mode == AppMode::ConfirmDialog,
            old(self)@.task is Idle,
        ensures
            (final(self)@, r@) == confirm_key(old(self)@, k),
            final(self).wf(),
    {
        match k {
            Key::Char('y') | Key::Enter => {
                let c = self.confirm_action.take();
                match c {
                    Some(c) => self.begin_confirm(c),
                    None => {
                        self.mode = AppMode::Main;
                        AppRequest::Idle
                    },
                }
            },
            Key::Char('n') | Key::Esc => {
                self.confirm_action = None;
                self.mode = AppMode::Main;
                AppRequest::Idle
            },
            _ => AppRequest::Idle,
        }
    }
}


fn prefixed_lines_exec(ws: &Vec<String>, out: &mut Vec<char>)
    ensures
        final(out)@ == old(out)@ + prefixed_lines(str_views(ws@)),
{
    let mut i: usize = 0;
    let ghost base = out@;
    assert(str_views(ws@).take(0) =~= Seq::<Seq<char>>::empty());
    assert(out@ =~= base + prefixed_lines(str_views(ws@).take(0)));
    while i < ws.len()
        invariant
            i <= ws.len(),
            out@ == base + prefixed_lines(str_views(ws@).take(i as int)),
        decreases ws.len() - i,
    {
        assert(str_views(ws@).take(i + 1).drop_last() =~= str_views(ws@).take(i as int));
        crate::text::extend_str(out, "\n");
        crate::text::extend_str(out, ws[i].as_str());
        i = i + 1;
        assert(out@ =~= base + prefixed_lines(str_views(ws@).take(i as int)));
    }
    assert(str_views(ws@).take(ws.len() as int) =~= str_views(ws@));
}

impl App {
    fn apply_refresh_exec(&mut self, gpus: Vec<GpuDevice>, vms: Vec<VmInfo>, iommu_enabled: bool)
        requires
            old(self).wf(),
            fits(gpus@.len() as int),
            fits(vms@.len() as int),
            old(self)@.task is Refresh || old(self)@.task is UnassignRefresh || old(self)@.task is ConfirmRefresh,
            old(self).mode != AppMode::ActionMenu,
        ensures
            final(self)@ == apply_refresh(old(self)@, gpu_views(gpus@), vm_views(vms@), iommu_enabled),
            final(self).wf(),
    {
        self.gpus = gpus;
        self.vms = vms;
        self.iommu_enabled = iommu_enabled;
        if self.gpus.len() > 0 {
            let sel = self.gpu_list_state.selected;
            self.gpu_list_state.select(sel, self.gpus.len());
        }
        if self.vms.len() > 0 {
            let sel = self.vm_list_state.selected;
            self.vm_list_state.select(sel, self.vms.len());
        }
    }

    fn save_failed_exec(&mut self, r: Result<(), String>)
        ensures
            final(self)@ == save_failed(old(self)@, unit_res_view(r)),
    {
        match r {
            Ok(()) => {},
            Err(e) => {
                let mut m = chars_of("Config save failed: ");
                extend_str(&mut m, e.as_str());
                self.show_message(string_of(&m), true);
            },
        }
    }

    fn error_text_exec(&self, e: &str) -> (r: String)
        ensures
            r@ == error_text(self@, e@),
    {
        let tpl = t(self.lang, "msg.error");
        fill_all(&tpl, e)
    }

    fn finish_confirm_exec(&mut self) -> (r: AppRequest)
        ensures
            (final(self)@, r@) == finish_confirm(old(self)@),
    {
        self.mode = AppMode::Main;
        self.task = Task::Idle;
        AppRequest::Idle
    }

    /// The outside operation that the current task waits for.
    pub fn pending_request(&self) -> (r: AppRequest)
        requires
            self.wf(),
        ensures
            r@ == pending_request(self@),
    {
        match &self.task {
            Task::Idle => AppRequest::Idle,
            Task::SaveLang => AppRequest::SaveConfig,
            Task::Refresh => AppRequest::Refresh,
            Task::Unassign { vm_name, gpu_index, .. } => AppRequest::Detach { vm_name: vm_name.clone(), gpu_index: *gpu_index },
            Task::UnassignSave { .. } => AppRequest::SaveConfig,
            Task::UnassignRefresh { .. } => AppRequest::Refresh,
            Task::AttachWarnings { gpu_idx, .. } => {
                assert(gpu_views(self.gpus@)[*gpu_idx as int] == self.gpus@[*gpu_idx as int]@);
                AppRequest::QueryGroup { pci_address: self.gpus[*gpu_idx].pci_address.clone() }
            },
            Task::ConfirmBind { gpu_idx } => AppRequest::Bind { gpu_index: *gpu_idx },
            Task::ConfirmBindSave => AppRequest::SaveConfig,
            Task::ConfirmUnbind { gpu_idx, original_driver } => AppRequest::Unbind {
                gpu_index: *gpu_idx,
                original_driver: original_driver.clone(),
            },
            Task::ConfirmAttach { gpu_idx, vm_name } => AppRequest::Attach { vm_name: vm_name.clone(), gpu_index: *gpu_idx },
            Task::ConfirmDetach { gpu_idx, vm_name } => AppRequest::Detach { vm_name: vm_name.clone(), gpu_index: *gpu_idx },
            Task::ConfirmReport { .. } => AppRequest::SaveConfig,
            Task::ConfirmApply { gpu_indices } => AppRequest::ApplyVfio { gpu_indices: gpu_indices.clone() },
            Task::ConfirmInitramfs { .. } => AppRequest::UpdateInitramfs,
            Task::ConfirmRefresh => AppRequest::Refresh,
        }
    }

    fn on_group(&mut self, gpu_idx: usize, vm_idx: usize, gpu_host_display: bool, members: Vec<(String, bool)>) -> (r: AppRequest)
        requires
            old(self).wf(),
            old(self)@.task == (TaskView::AttachWarnings { gpu_idx: gpu_idx as int, vm_idx: vm_idx as int }),
        ensures
            (final(self)@, r@) == group_step(old(self)@, gpu_host_display, member_views(members@)),
            final(self).wf(),
    {
        assert(gpu_views(self.gpus@)[gpu_idx as int] == self.gpus@[gpu_idx as int]@);
        assert(vm_views(self.vms@)[vm_idx as int] == self.vms@[vm_idx as int]@);
        let gpu = &self.gpus[gpu_idx];
        let ws = attach_warnings(self.lang, gpu.pci_address.as_str(), gpu_host_display, &members, &self.vms, false);
        let tpl = t(self.lang, "confirm.attach_gpu");
        let base = fill3_exec(&tpl, gpu.device_name.as_str(), gpu.pci_address.as_str(), self.vms[vm_idx].name.as_str());
        let ghost a0 = self@;
        let ghost wsv = str_views(ws@);
        assert(wsv == gpu_warnings(a0.lang, a0.gpus[gpu_idx as int].pci_address, gpu_host_display, a0.vms)
            + member_warnings(a0.lang, member_views(members@), a0.vms, None));
        let mut m = chars_of(base.as_str());
        if ws.len() > 0 {
            extend_str(&mut m, "\n\n--- Warnings ---");
            prefixed_lines_exec(&ws, &mut m);
        }
        assert(m@ =~= attach_confirm_text(a0, gpu_idx as int, vm_idx as int, wsv));
        self.confirm_action = Some(ConfirmAction::AttachGpuToVm { gpu_idx, vm_idx, warnings: ws });
        self.confirm_message = string_of(&m);
        self.mode = AppMode::ConfirmDialog;
        self.task = Task::Idle;
        AppRequest::Idle
    }
}


impl App {
    fn on_saved(&mut self, res: Result<(), String>) -> (r: AppRequest)
        requires
            old(self).wf(),
        ensures
            (final(self)@, r@) == saved_step(old(self)@, unit_res_view(res)),
            final(self).wf(),
    {
        match &self.task {
            Task::SaveLang => {
                self.save_failed_exec(res);
                self.task = Task::Idle;
                AppRequest::Idle
            },
            Task::UnassignSave { vm_name, errors } => {
                let vm_name = vm_name.clone();
                let errors = copy_strings(errors);
                self.save_failed_exec(res);
                self.task = Task::UnassignRefresh { vm_name, errors };
                AppRequest::Refresh
            },
            Task::ConfirmBindSave => {
                self.save_failed_exec(res);
                self.confirm_refresh_exec()
            },
            Task::ConfirmReport { msg } => {
                let msg = msg.clone();
                self.save_failed_exec(res);
                let tpl = t(self.lang, "msg.success");
                let m = fill_all(&tpl, msg.as_str());
                self.show_message(m, false);
                self.confirm_refresh_exec()
            },
            _ => self.pending_request(),
        }
    }

    fn on_refreshed(&mut self, gpus: Vec<GpuDevice>, vms: Vec<VmInfo>, iommu_enabled: bool) -> (r: AppRequest)
        requires
            old(self).wf(),
            fits(gpus@.len() as int),
            fits(vms@.len() as int),
        ensures
            (final(self)@, r@) == refreshed_step(old(self)@, gpu_views(gpus@), vm_views(vms@), iommu_enabled),
            final(self).wf(),
    {
        match &self.task {
            Task::Refresh => {
                self.apply_refresh_exec(gpus, vms, iommu_enabled);
                self.task = Task::Idle;
                AppRequest::Idle
            },
            Task::UnassignRefresh { vm_name, errors } => {
                let vm_name = vm_name.clone();
                let errors = copy_strings(errors);
                self.apply_refresh_exec(gpus, vms, iommu_enabled);
                if errors.len() == 0 {
                    let tpl = t(self.lang, "msg.removed_gpu");
                    let m = fill_all(&tpl, vm_name.as_str());
                    self.show_message(m, false);
                } else {
                    let mut m = chars_of("Removed from config. libvirt errors: ");
                    let joined = join_strings(&errors, "; ");
                    extend_str(&mut m, joined.as_str());
                    self.show_message(string_of(&m), true);
                }
                self.task = Task::Idle;
                AppRequest::Idle
            },
            Task::ConfirmRefresh => {
                self.apply_refresh_exec(gpus, vms, iommu_enabled);
                self.finish_confirm_exec()
            },
            _ => self.pending_request(),
        }
    }

    fn on_op_done(&mut self, res: Result<String, String>) -> (r: AppRequest)
        requires
            old(self).wf(),
        ensures
            (final(self)@, r@) == op_done_step(old(self)@, res_view(res)),
            final(self).wf(),
    {
        let ghost a0 = self@;
        match &self.task {
            Task::Unassign { vm_name, assigned, next, errors, .. } => {
                let vm_name = vm_name.clone();
                let assigned = copy_strings(assigned);
                let next = *next;
                let mut errs = copy_strings(errors);
                assert(str_views(assigned@).len() == assigned@.len());
                assert(next < assigned.len());
                assert(str_views(assigned@)[next as int] == assigned@[next as int]@);
                match res {
                    Ok(_) => {},
                    Err(msg) => {
                        let mut m = chars_of(assigned[next].as_str());
                        extend_str(&mut m, ": ");
                        extend_str(&mut m, msg.as_str());
                        let e = string_of(&m);
                        proof { lemma_str_views_push(errs@, e); }
                        errs.push(e);
                    },
                }
                self.config.remove_gpu_from_vm(vm_name.as_str(), assigned[next].as_str());
                self.unassign_advance_exec(vm_name, assigned, next + 1, errs)
            },
            Task::ConfirmAttach { gpu_idx, vm_name } => {
                let gi = *gpu_idx;
                let vm_name = vm_name.clone();
                assert(gpu_views(self.gpus@)[gi as int] == self.gpus@[gi as int]@);
                match res {
                    Ok(msg) => {
                        let pci = self.gpus[gi].pci_address.clone();
                        self.config.assign_gpu_to_vm(vm_name.as_str(), pci.as_str());
                        self.task = Task::ConfirmReport { msg };
                        AppRequest::SaveConfig
                    },
                    Err(msg) => {
                        let m = self.error_text_exec(msg.as_str());
                        self.show_message(m, true);
                        self.confirm_refresh_exec()
                    },
                }
            },
            Task::ConfirmDetach { gpu_idx, vm_name } => {
                let gi = *gpu_idx;
                let vm_name = vm_name.clone();
                assert(gpu_views(self.gpus@)[gi as int] == self.gpus@[gi as int]@);
                match res {
                    Ok(msg) => {
                        let pci = self.gpus[gi].pci_address.clone();
                        self.config.remove_gpu_from_vm(vm_name.as_str(), pci.as_str());
                        self.task = Task::ConfirmReport { msg };
                        AppRequest::SaveConfig
                    },
                    Err(msg) => {
                        let m = self.error_text_exec(msg.as_str());
                        self.show_message(m, true);
                        self.confirm_refresh_exec()
                    },
                }
            },
            Task::ConfirmInitramfs { msg } => {
                let msg = msg.clone();
                match res {
                    Ok(init) => {
                        let tpl = t(self.lang, "msg.initramfs_ok");
                        let m = fill2_exec(&tpl, msg.as_str(), init.as_str());
                        self.show_message(m, false);
                    },
                    Err(err) => {
                        let tpl = t(self.lang, "msg.initramfs_warn");
                        let m = fill2_exec(&tpl, msg.as_str(), err.as_str());
                        self.show_message(m, true);
                    },
                }
                self.finish_confirm_exec()
            },
            _ => self.pending_request(),
        }
    }

    fn on_passthrough(&mut self, res: Result<PassthroughResult, String>) -> (r: AppRequest)
        requires
            old(self).wf(),
        ensures
            (final(self)@, r@) == passthrough_step(old(self)@, passthrough_res_view(res)),
            final(self).wf(),
    {
        match &self.task {
            Task::ConfirmBind { .. } => match res {
                Ok(p) => {
                    let m = format_passthrough_result(self.lang, p);
                    self.show_message(m, false);
                    self.task = Task::ConfirmBindSave;
                    AppRequest::SaveConfig
                },
                Err(msg) => {
                    let m = self.error_text_exec(msg.as_str());
                    self.show_message(m, true);
                    self.confirm_refresh_exec()
                },
            },
            Task::ConfirmUnbind { .. } => {
                match res {
                    Ok(p) => {
                        let m = format_passthrough_result(self.lang, p);
                        self.show_message(m, false);
                    },
                    Err(msg) => {
                        let m = self.error_text_exec(msg.as_str());
                        self.show_message(m, true);
                    },
                }
                self.confirm_refresh_exec()
            },
            Task::ConfirmApply { .. } => match res {
                Ok(p) => {
                    let m = format_passthrough_result(self.lang, p);
                    self.task = Task::ConfirmInitramfs { msg: m };
                    AppRequest::UpdateInitramfs
                },
                Err(msg) => {
                    let m = self.error_text_exec(msg.as_str());
                    self.show_message(m, true);
                    self.finish_confirm_exec()
                },
            },
            _ => self.pending_request(),
        }
    }
}

impl App {
    /// Handles a key: by the view it is pressed in while nothing is
    /// pending; otherwise it changes nothing and repeats the pending request.
    pub fn handle_key(&mut self, key: Key) -> (r: AppRequest)
        requires
            old(self).wf(),
        ensures
            (final(self)@, r@) == app_step(old(self)@, AppEventView::Key(key)),
            final(self).wf(),
    {
        if !matches!(self.task, Task::Idle) {
            return self.pending_request();
        }
        match self.mode {
            AppMode::Main => self.handle_main_key(key),
            AppMode::ActionMenu => {
                self.handle_action_key(key);
                AppRequest::Idle
            },
            AppMode::GpuAssign => self.handle_assign_key(key),
            AppMode::ConfirmDialog => self.handle_confirm_key(key),
            AppMode::MessageDialog => {
                self.handle_message_key(key);
                AppRequest::Idle
            },
        }
    }

    /// One step of the application (see `app_step`): the state after
    /// `event`, and the outside operation to run next.
    pub fn step(&mut self, event: AppEvent) -> (r: AppRequest)
        requires
            old(self).wf(),
            event_fits(event@),
        ensures
            (final(self)@, r@) == app_step(old(self)@, event@),
            final(self).wf(),
            r@ == pending_request(final(self)@),
            request_in_range(final(self)@, r@),
    {
        proof {
            lemma_step_asks_what_it_awaits(self@, event@);
        }
        let r = match event {
            AppEvent::Key(k) => self.handle_key(k),
            AppEvent::Refreshed { gpus, vms, iommu_enabled } => self.on_refreshed(gpus, vms, iommu_enabled),
            AppEvent::Saved(res) => self.on_saved(res),
            AppEvent::Group { gpu_host_display, members } => match self.task {
                Task::AttachWarnings { gpu_idx, vm_idx } => self.on_group(gpu_idx, vm_idx, gpu_host_display, members),
                _ => self.pending_request(),
            },
            AppEvent::OpDone(res) => self.on_op_done(res),
            AppEvent::Passthrough(res) => self.on_passthrough(res),
        };
        proof {
            lemma_pending_in_range(self@);
        }
        r
    }
}

} // verus!
