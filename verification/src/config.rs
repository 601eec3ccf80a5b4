//! The persisted configuration: language, GPU assignments per VM and the
//! drivers that GPUs had before they were bound to vfio-pci.

use vstd::prelude::*;
use crate::gpu::GpuDevice;
use crate::lang::Lang;
use crate::text::{lemma_str_views_push, same, str_views};
use crate::vm::{group_views, key_index, lemma_key_index, lemma_key_index_at, lemma_key_index_none, VmInfo};

verus! {

/// The configuration. The two lists of pairs are maps: no key occurs
/// twice (`wf`).
#[derive(Debug)]
pub struct AppConfig {
    /// Language preference, `en` or `zh`.
    pub language: String,
    /// VM name -> PCI addresses of the GPUs assigned to it.
    pub vm_gpu_assignments: Vec<(String, Vec<String>)>,
    /// GPUs known at the last scan.
    pub known_gpus: Vec<GpuDevice>,
    /// VMs known at the last scan.
    pub known_vms: Vec<VmInfo>,
    /// PCI address -> driver the GPU had before it was bound to vfio-pci.
    pub original_drivers: Vec<(String, String)>,
}

/// The configuration with its texts as character sequences.
pub struct ConfigView {
    pub language: Seq<char>,
    pub assignments: Seq<(Seq<char>, Seq<Seq<char>>)>,
    pub known_gpus: Seq<crate::gpu::GpuDeviceView>,
    pub known_vms: Seq<crate::vm::VmInfoView>,
    pub drivers: Seq<(Seq<char>, Seq<char>)>,
}

impl View for AppConfig {
    type V = ConfigView;

    open spec fn view(&self) -> ConfigView {
        ConfigView {
            language: self.language@,
            assignments: group_views(self.vm_gpu_assignments@),
            known_gpus: crate::gpu::gpu_views(self.known_gpus@),
            known_vms: crate::vm::vm_views(self.known_vms@),
            drivers: driver_views(self.original_drivers@),
        }
    }
}

pub open spec fn driver_views(v: Seq<(String, String)>) -> Seq<(Seq<char>, Seq<char>)> {
    v.map_values(|e: (String, String)| (e.0@, e.1@))
}

/// No key occurs twice.
pub open spec fn keys_distinct<V>(entries: Seq<(Seq<char>, V)>) -> bool {
    forall|i: int, j: int| 0 <= i < entries.len() && 0 <= j < entries.len() && i != j
        ==> entries[i].0 != entries[j].0
}

/// The assignments after `pci` is assigned to `vm`.
pub open spec fn assigned_after(entries: Seq<(Seq<char>, Seq<Seq<char>>)>, vm: Seq<char>, pci: Seq<char>) -> Seq<(Seq<char>, Seq<Seq<char>>)> {
    match key_index(entries, vm) {
        Some(i) => if entries[i].1.contains(pci) {
            entries
        } else {
            entries.update(i, (vm, entries[i].1.push(pci)))
        },
        None => entries.push((vm, seq![pci])),
    }
}

/// The test for an address other than `pci`.
pub open spec fn other_than(pci: Seq<char>) -> spec_fn(Seq<char>) -> bool {
    |g: Seq<char>| g != pci
}

/// The assignments after `pci` is taken from `vm`: the VM's entry loses
/// every copy of it, and goes where that leaves it empty.
pub open spec fn removed_after(entries: Seq<(Seq<char>, Seq<Seq<char>>)>, vm: Seq<char>, pci: Seq<char>) -> Seq<(Seq<char>, Seq<Seq<char>>)> {
    match key_index(entries, vm) {
        Some(i) => {
            let kept = entries[i].1.filter(other_than(pci));
            if kept.len() == 0 {
                entries.remove(i)
            } else {
                entries.update(i, (vm, kept))
            }
        },
        None => entries,
    }
}

/// The drivers after `driver` is recorded for `pci` (replacing an earlier one).
pub open spec fn driver_recorded(entries: Seq<(Seq<char>, Seq<char>)>, pci: Seq<char>, driver: Seq<char>) -> Seq<(Seq<char>, Seq<char>)> {
    match key_index(entries, pci) {
        Some(i) => entries.update(i, (pci, driver)),
        None => entries.push((pci, driver)),
    }
}

/// The GPUs listed under `vm`, none where it has no entry.
pub open spec fn gpus_under(entries: Seq<(Seq<char>, Seq<Seq<char>>)>, vm: Seq<char>) -> Seq<Seq<char>> {
    match key_index(entries, vm) {
        Some(i) => entries[i].1,
        None => Seq::empty(),
    }
}

/// The driver recorded for `pci`.
pub open spec fn driver_under(entries: Seq<(Seq<char>, Seq<char>)>, pci: Seq<char>) -> Option<Seq<char>> {
    match key_index(entries, pci) {
        Some(i) => Some(entries[i].1),
        None => None,
    }
}

/// The language a stored preference names: `zh` is Chinese, anything else
/// English.
pub open spec fn lang_named(s: Seq<char>) -> Lang {
    if s == "zh"@ { Lang::Zh } else { Lang::En }
}

/// The stored name of a language.
pub open spec fn lang_name(l: Lang) -> Seq<char> {
    match l {
        Lang::Zh => "zh"@,
        Lang::En => "en"@,
    }
}

/// Where `entries[i]` is the first entry under `key`, the entries with
/// `entries[i]` replaced by one under the same key still find it first.
proof fn lemma_key_index_update<V>(entries: Seq<(Seq<char>, V)>, key: Seq<char>, i: int, v: V, other: Seq<char>)
    requires
        key_index(entries, key) == Some(i),
    ensures
        key_index(entries.update(i, (key, v)), key) == Some(i),
        other != key ==> key_index(entries.update(i, (key, v)), other) == key_index(entries, other),
{
    lemma_key_index(entries, key);
    let u = entries.update(i, (key, v));
    lemma_key_index_at(u, key, i);
    lemma_key_index(entries, other);
    if other != key {
        match key_index(entries, other) {
            Some(j) => {
                lemma_key_index_at(u, other, j);
            },
            None => {
                lemma_key_index_none(u, other);
            },
        }
    }
}

/// Appending an entry under a new key finds it last, and every other key
/// where it was.
proof fn lemma_key_index_push<V>(entries: Seq<(Seq<char>, V)>, key: Seq<char>, v: V, other: Seq<char>)
    requires
        key_index(entries, key) is None,
    ensures
        key_index(entries.push((key, v)), key) == Some(entries.len() as int),
        other != key ==> key_index(entries.push((key, v)), other) == key_index(entries, other),
{
    lemma_key_index(entries, key);
    let u = entries.push((key, v));
    lemma_key_index_at(u, key, entries.len() as int);
    lemma_key_index(entries, other);
    if other != key {
        match key_index(entries, other) {
            Some(j) => lemma_key_index_at(u, other, j),
            None => lemma_key_index_none(u, other),
        }
    }
}

/// Dropping the only entry under `key` loses it and keeps every other key.
proof fn lemma_key_index_remove<V>(entries: Seq<(Seq<char>, V)>, key: Seq<char>, i: int, other: Seq<char>)
    requires
        keys_distinct(entries),
        key_index(entries, key) == Some(i),
    ensures
        key_index(entries.remove(i), key) is None,
        other != key ==> (match key_index(entries, other) {
            Some(j) => key_index(entries.remove(i), other) == Some(if j < i { j } else { j - 1 }),
            None => key_index(entries.remove(i), other) is None,
        }),
{
    lemma_key_index(entries, key);
    let u = entries.remove(i);
    assert forall|j: int| 0 <= j < u.len() implies u[j].0 != key by {
        if j < i {
            assert(u[j] == entries[j]);
        } else {
            assert(u[j] == entries[j + 1]);
        }
    }
    lemma_key_index_none(u, key);
    lemma_key_index(entries, other);
    if other != key {
        match key_index(entries, other) {
            Some(j) => {
                let k = if j < i { j } else { j - 1 };
                assert forall|m: int| 0 <= m < k implies u[m].0 != other by {
                    if m < i { assert(u[m] == entries[m]); } else { assert(u[m] == entries[m + 1]); }
                }
                if j < i { assert(u[k] == entries[j]); } else { assert(u[k] == entries[j]); }
                lemma_key_index_at(u, other, k);
            },
            None => {
                assert forall|m: int| 0 <= m < u.len() implies u[m].0 != other by {
                    if m < i { assert(u[m] == entries[m]); } else { assert(u[m] == entries[m + 1]); }
                }
                lemma_key_index_none(u, other);
            },
        }
    }
}

/// A list without `pci` is left as it is by dropping `pci`.
proof fn lemma_filter_keeps(l: Seq<Seq<char>>, pci: Seq<char>)
    requires
        !l.contains(pci),
    ensures
        l.filter(other_than(pci)) == l,
    decreases l.len(),
{
    if l.len() == 0 {
        reveal_with_fuel(Seq::filter, 1);
        assert(l.filter(other_than(pci)) =~= l);
    } else {
        let p = l.drop_last();
        assert(!p.contains(pci)) by {
            if p.contains(pci) {
                let k = choose|k: int| 0 <= k < p.len() && p[k] == pci;
                assert(l[k] == pci);
            }
        }
        lemma_filter_keeps(p, pci);
        assert(l == p.push(l.last()));
        p.lemma_filter_push(l.last(), other_than(pci));
    }
}

/// After `pci` is assigned to `vm`, it is among the VM's GPUs, the keys
/// stay distinct, and every other VM keeps its GPUs.
pub proof fn lemma_assign_then_listed(entries: Seq<(Seq<char>, Seq<Seq<char>>)>, vm: Seq<char>, pci: Seq<char>, other: Seq<char>)
    requires
        keys_distinct(entries),
    ensures
        gpus_under(assigned_after(entries, vm, pci), vm).contains(pci),
        keys_distinct(assigned_after(entries, vm, pci)),
        other != vm ==> gpus_under(assigned_after(entries, vm, pci), other) == gpus_under(entries, other),
{
    lemma_key_index(entries, vm);
    match key_index(entries, vm) {
        Some(i) => {
            if !entries[i].1.contains(pci) {
                let l = entries[i].1.push(pci);
                lemma_key_index_update(entries, vm, i, l, other);
                assert(l[l.len() - 1] == pci);
                let u = entries.update(i, (vm, l));
                lemma_key_index(entries, other);
                if let Some(j) = key_index(entries, other) {
                    if other != vm {
                        assert(u[j] == entries[j]);
                    }
                }
                assert forall|a: int, b: int| 0 <= a < u.len() && 0 <= b < u.len() && a != b implies u[a].0 != u[b].0 by {
                    assert(u[a].0 == entries[a].0);
                    assert(u[b].0 == entries[b].0);
                }
            }
        },
        None => {
            lemma_key_index_push(entries, vm, seq![pci], other);
            assert(seq![pci][0] == pci);
            let u = entries.push((vm, seq![pci]));
            lemma_key_index(entries, other);
            if let Some(j) = key_index(entries, other) {
                assert(u[j] == entries[j]);
            }
            assert forall|a: int, b: int| 0 <= a < u.len() && 0 <= b < u.len() && a != b implies u[a].0 != u[b].0 by {
                if a < entries.len() && b < entries.len() {
                    assert(u[a] == entries[a] && u[b] == entries[b]);
                } else if a < entries.len() {
                    assert(u[a] == entries[a]);
                } else if b < entries.len() {
                    assert(u[b] == entries[b]);
                }
            }
        },
    }
}

/// Assigning a GPU that is already assigned changes nothing: assigning
/// twice is assigning once.
pub proof fn lemma_assign_idempotent(entries: Seq<(Seq<char>, Seq<Seq<char>>)>, vm: Seq<char>, pci: Seq<char>)
    requires
        keys_distinct(entries),
    ensures
        assigned_after(assigned_after(entries, vm, pci), vm, pci) == assigned_after(entries, vm, pci),
{
    lemma_assign_then_listed(entries, vm, pci, vm);
}

/// After `pci` is taken from `vm`, it is no longer among the VM's GPUs,
/// the keys stay distinct, and every other VM keeps its GPUs.
pub proof fn lemma_remove_then_unlisted(entries: Seq<(Seq<char>, Seq<Seq<char>>)>, vm: Seq<char>, pci: Seq<char>, other: Seq<char>)
    requires
        keys_distinct(entries),
    ensures
        !gpus_under(removed_after(entries, vm, pci), vm).contains(pci),
        keys_distinct(removed_after(entries, vm, pci)),
        other != vm ==> gpus_under(removed_after(entries, vm, pci), other) == gpus_under(entries, other),
{
    broadcast use vstd::seq_lib::group_filter_ensures;
    lemma_key_index(entries, vm);
    match key_index(entries, vm) {
        Some(i) => {
            let kept = entries[i].1.filter(other_than(pci));
            if kept.len() == 0 {
                lemma_key_index_remove(entries, vm, i, other);
                let u = entries.remove(i);
                assert forall|a: int, b: int| 0 <= a < u.len() && 0 <= b < u.len() && a != b implies u[a].0 != u[b].0 by {
                    let a2 = if a < i { a } else { a + 1 };
                    let b2 = if b < i { b } else { b + 1 };
                    assert(u[a] == entries[a2]);
                    assert(u[b] == entries[b2]);
                }
                lemma_key_index(entries, other);
                match key_index(entries, other) {
                    Some(j) => {
                        if other != vm {
                            let k = if j < i { j } else { j - 1 };
                            assert(u[k] == entries[j]);
                        }
                    },
                    None => {},
                }
            } else {
                lemma_key_index_update(entries, vm, i, kept, other);
                assert(!kept.contains(pci)) by {
                    if kept.contains(pci) {
                        let k = choose|k: int| 0 <= k < kept.len() && kept[k] == pci;
                        assert((other_than(pci))(kept[k]));
                    }
                }
                let u = entries.update(i, (vm, kept));
                lemma_key_index(entries, other);
                if let Some(j) = key_index(entries, other) {
                    if other != vm {
                        assert(u[j] == entries[j]);
                    }
                }
                assert forall|a: int, b: int| 0 <= a < u.len() && 0 <= b < u.len() && a != b implies u[a].0 != u[b].0 by {
                    assert(u[a].0 == entries[a].0);
                    assert(u[b].0 == entries[b].0);
                }
            }
        },
        None => {},
    }
}

/// Taking back a GPU that was just assigned restores the VM's GPUs as they
/// were, where the VM did not have it before.
pub proof fn lemma_remove_undoes_assign(entries: Seq<(Seq<char>, Seq<Seq<char>>)>, vm: Seq<char>, pci: Seq<char>)
    requires
        keys_distinct(entries),
        !gpus_under(entries, vm).contains(pci),
    ensures
        gpus_under(removed_after(assigned_after(entries, vm, pci), vm, pci), vm) == gpus_under(entries, vm),
{
    lemma_key_index(entries, vm);
    match key_index(entries, vm) {
        Some(i) => {
            let l = entries[i].1;
            let pushed = l.push(pci);
            lemma_key_index_update(entries, vm, i, pushed, vm);
            let u = entries.update(i, (vm, pushed));
            l.lemma_filter_push(pci, other_than(pci));
            lemma_filter_keeps(l, pci);
            assert(pushed.filter(other_than(pci)) == l);
            if l.len() == 0 {
                assert forall|a: int, b: int| 0 <= a < u.len() && 0 <= b < u.len() && a != b implies u[a].0 != u[b].0 by {
                    assert(u[a].0 == entries[a].0);
                    assert(u[b].0 == entries[b].0);
                }
                lemma_key_index_remove(u, vm, i, vm);
            } else {
                lemma_key_index_update(u, vm, i, l, vm);
            }
        },
        None => {
            let u = entries.push((vm, seq![pci]));
            lemma_key_index_push(entries, vm, seq![pci], vm);
            let one: Seq<Seq<char>> = seq![pci];
            reveal_with_fuel(Seq::filter, 2);
            assert(one.filter(other_than(pci)) =~= Seq::<Seq<char>>::empty()) by {
                Seq::<Seq<char>>::empty().lemma_filter_push(pci, other_than(pci));
                assert(one =~= Seq::<Seq<char>>::empty().push(pci));
                assert(Seq::<Seq<char>>::empty().filter(other_than(pci)) =~= Seq::<Seq<char>>::empty());
            }
            assert(u.remove(entries.len() as int) =~= entries);
        },
    }
}

/// A recorded driver is the one given back for its GPU; the other GPUs'
/// drivers stay as they were.
pub proof fn lemma_driver_recorded(entries: Seq<(Seq<char>, Seq<char>)>, pci: Seq<char>, driver: Seq<char>, other: Seq<char>)
    ensures
        driver_under(driver_recorded(entries, pci, driver), pci) == Some(driver),
        other != pci ==> driver_under(driver_recorded(entries, pci, driver), other) == driver_under(entries, other),
{
    lemma_key_index(entries, other);
    lemma_key_index(entries, pci);
    match key_index(entries, pci) {
        Some(i) => {
            lemma_key_index_update(entries, pci, i, driver, other);
            let u = entries.update(i, (pci, driver));
            assert(u[i] == (pci, driver));
            if let Some(j) = key_index(entries, other) {
                if other != pci {
                    lemma_key_index(entries, pci);
                    assert(u[j] == entries[j]);
                }
            }
        },
        None => {
            lemma_key_index_push(entries, pci, driver, other);
            let u = entries.push((pci, driver));
            assert(u[entries.len() as int] == (pci, driver));
            if let Some(j) = key_index(entries, other) {
                assert(u[j] == entries[j]);
            }
        },
    }
}

/// A stored language preference reads back as the language stored.
pub proof fn lemma_lang_round_trip(l: Lang)
    ensures
        lang_named(lang_name(l)) == l,
{
    reveal_strlit("zh");
    reveal_strlit("en");
    assert("en"@[0] != "zh"@[0]);
}

impl AppConfig {
    pub open spec fn wf(&self) -> bool {
        &&& keys_distinct(group_views(self.vm_gpu_assignments@))
        &&& keys_distinct(driver_views(self.original_drivers@))
    }

    pub open spec fn assignments(&self) -> Seq<(Seq<char>, Seq<Seq<char>>)> {
        group_views(self.vm_gpu_assignments@)
    }

    pub open spec fn drivers(&self) -> Seq<(Seq<char>, Seq<char>)> {
        driver_views(self.original_drivers@)
    }

    /// The GPUs assigned to `vm` (none where it has no entry).
    pub open spec fn gpus_of(&self, vm: Seq<char>) -> Seq<Seq<char>> {
        gpus_under(self.assignments(), vm)
    }

    /// The driver recorded for `pci`.
    pub open spec fn driver_of(&self, pci: Seq<char>) -> Option<Seq<char>> {
        driver_under(self.drivers(), pci)
    }

    /// The language that the stored preference names: `zh` is Chinese,
    /// anything else English.
    pub open spec fn lang_of(&self) -> Lang {
        lang_named(self.language@)
    }

    /// The configuration with nothing recorded and English as language.
    pub fn new() -> (r: AppConfig)
        ensures
            r.wf(),
            r.language@ == "en"@,
            r.assignments().len() == 0,
            r.drivers().len() == 0,
            r.known_gpus@.len() == 0,
            r.known_vms@.len() == 0,
    {
        let r = AppConfig {
            language: "en".to_string(),
            vm_gpu_assignments: Vec::new(),
            known_gpus: Vec::new(),
            known_vms: Vec::new(),
            original_drivers: Vec::new(),
        };
        assert(group_views(r.vm_gpu_assignments@) =~= Seq::<(Seq<char>, Seq<Seq<char>>)>::empty());
        assert(driver_views(r.original_drivers@) =~= Seq::<(Seq<char>, Seq<char>)>::empty());
        r
    }

    /// The language preference.
    pub fn get_lang(&self) -> (r: Lang)
        ensures
            r == self.lang_of(),
    {
        if same(self.language.as_str(), "zh") { Lang::Zh } else { Lang::En }
    }

    /// Stores a language preference.
    pub fn set_lang(&mut self, lang: Lang)
        ensures
            final(self).language@ == lang_name(lang),
            final(self).lang_of() == lang,
            final(self).vm_gpu_assignments == old(self).vm_gpu_assignments,
            final(self).original_drivers == old(self).original_drivers,
            final(self).known_gpus == old(self).known_gpus,
            final(self).known_vms == old(self).known_vms,
    {
        self.language = match lang {
            Lang::Zh => "zh".to_string(),
            Lang::En => "en".to_string(),
        };
        proof { lemma_lang_round_trip(lang); }
    }

    fn driver_index(&self, pci: &str) -> (r: Option<usize>)
        ensures
            r matches Some(i) ==> key_index(self.drivers(), pci@) == Some(i as int),
            r is None ==> key_index(self.drivers(), pci@) is None,
    {
        let mut i: usize = 0;
        while i < self.original_drivers.len()
            invariant
                i <= self.original_drivers.len(),
                forall|j: int| 0 <= j < i ==> self.drivers()[j].0 != pci@,
            decreases self.original_drivers.len() - i,
        {
            if same(self.original_drivers[i].0.as_str(), pci) {
                proof { lemma_key_index_at(self.drivers(), pci@, i as int); }
                return Some(i);
            }
            i = i + 1;
        }
        proof { lemma_key_index_none(self.drivers(), pci@); }
        None
    }

    /// Records `pci` as assigned to `vm`, once.
    pub fn assign_gpu_to_vm(&mut self, vm_name: &str, pci_address: &str)
        requires
            old(self).wf(),
        ensures
            final(self).wf(),
            final(self).assignments() == assigned_after(old(self).assignments(), vm_name@, pci_address@),
            final(self).original_drivers == old(self).original_drivers,
            final(self).language == old(self).language,
            final(self).known_gpus == old(self).known_gpus,
            final(self).known_vms == old(self).known_vms,
    {
        let ghost o = self.assignments();
        proof { lemma_key_index(o, vm_name@); }
        match crate::vm::group_index(&self.vm_gpu_assignments, vm_name) {
            Some(i) => {
                let (k, mut list) = self.vm_gpu_assignments.remove(i);
                let mut present = false;
                let mut j: usize = 0;
                while j < list.len()
                    invariant
                        j <= list.len(),
                        !present ==> forall|m: int| 0 <= m < j ==> str_views(list@)[m] != pci_address@,
                        present ==> str_views(list@).contains(pci_address@),
                    decreases list.len() - j,
                {
                    if same(list[j].as_str(), pci_address) {
                        assert(str_views(list@)[j as int] == pci_address@);
                        present = true;
                    }
                    j = j + 1;
                }
                let ghost l0 = list@;
                if !present {
                    let s = pci_address.to_string();
                    proof { lemma_str_views_push(list@, s); }
                    list.push(s);
                }
                self.vm_gpu_assignments.insert(i, (k, list));
                proof {
                    assert(self.assignments() =~= assigned_after(o, vm_name@, pci_address@));
                }
            },
            None => {
                let list = vec![pci_address.to_string()];
                self.vm_gpu_assignments.push((vm_name.to_string(), list));
                proof {
                    assert(str_views(list@) =~= seq![pci_address@]);
                    assert(self.assignments() =~= assigned_after(o, vm_name@, pci_address@));
                }
            },
        }
    }

    /// Takes `pci` from `vm`'s assignments, dropping the VM's entry where
    /// nothing is left.
    pub fn remove_gpu_from_vm(&mut self, vm_name: &str, pci_address: &str)
        requires
            old(self).wf(),
        ensures
            final(self).wf(),
            final(self).assignments() == removed_after(old(self).assignments(), vm_name@, pci_address@),
            final(self).original_drivers == old(self).original_drivers,
            final(self).language == old(self).language,
            final(self).known_gpus == old(self).known_gpus,
            final(self).known_vms == old(self).known_vms,
    {
        let ghost o = self.assignments();
        proof { lemma_key_index(o, vm_name@); }
        match crate::vm::group_index(&self.vm_gpu_assignments, vm_name) {
            Some(i) => {
                let (k, list) = self.vm_gpu_assignments.remove(i);
                let mut kept: Vec<String> = Vec::new();
                let mut j: usize = 0;
                assert(str_views(list@).take(0) =~= Seq::<Seq<char>>::empty());
                while j < list.len()
                    invariant
                        j <= list.len(),
                        str_views(kept@) == str_views(list@).take(j as int).filter(other_than(pci_address@)),
                    decreases list.len() - j,
                {
                    assert(str_views(list@).take(j + 1).drop_last() =~= str_views(list@).take(j as int));
                    reveal_with_fuel(Seq::filter, 1);
                    if !same(list[j].as_str(), pci_address) {
                        let g = list[j].clone();
                        proof { lemma_str_views_push(kept@, g); }
                        kept.push(g);
                    }
                    j = j + 1;
                }
                assert(str_views(list@).take(list.len() as int) =~= str_views(list@));
                if kept.len() > 0 {
                    self.vm_gpu_assignments.insert(i, (k, kept));
                }
                proof {
                    assert(self.assignments() =~= removed_after(o, vm_name@, pci_address@));
                }
            },
            None => {},
        }
    }

    /// Records the driver a GPU had before vfio-pci; an empty driver name
    /// or vfio-pci itself is not recorded.
    pub fn save_original_driver(&mut self, pci_address: &str, driver: &str)
        requires
            old(self).wf(),
        ensures
            final(self).wf(),
            final(self).drivers() == (if driver@.len() > 0 && driver@ != "vfio-pci"@ {
                driver_recorded(old(self).drivers(), pci_address@, driver@)
            } else {
                old(self).drivers()
            }),
            final(self).vm_gpu_assignments == old(self).vm_gpu_assignments,
            final(self).language == old(self).language,
            final(self).known_gpus == old(self).known_gpus,
            final(self).known_vms == old(self).known_vms,
    {
        let dv = crate::text::chars_of(driver);
        if dv.len() == 0 || same(driver, "vfio-pci") {
            return;
        }
        let ghost o = self.drivers();
        proof { lemma_key_index(o, pci_address@); }
        match self.driver_index(pci_address) {
            Some(i) => {
                let _ = self.original_drivers.remove(i);
                self.original_drivers.insert(i, (pci_address.to_string(), driver.to_string()));
                proof {
                    assert(self.drivers() =~= driver_recorded(o, pci_address@, driver@));
                }
            },
            None => {
                self.original_drivers.push((pci_address.to_string(), driver.to_string()));
                proof {
                    assert(self.drivers() =~= driver_recorded(o, pci_address@, driver@));
                }
            },
        }
    }

    /// The driver recorded for `pci`.
    pub fn get_original_driver(&self, pci_address: &str) -> (r: Option<&str>)
        ensures
            (match r { Some(s) => Some(s@), None => None }) == self.driver_of(pci_address@),
    {
        proof { lemma_key_index(self.drivers(), pci_address@); }
        match self.driver_index(pci_address) {
            Some(i) => Some(self.original_drivers[i].1.as_str()),
            None => None,
        }
    }

    /// The GPUs assigned to `vm` (none where it has no entry).
    pub fn get_vm_assigned_gpus(&self, vm_name: &str) -> (r: &[String])
        ensures
            str_views(r@) == self.gpus_of(vm_name@),
    {
        proof { lemma_key_index(self.assignments(), vm_name@); }
        match crate::vm::group_index(&self.vm_gpu_assignments, vm_name) {
            Some(i) => self.vm_gpu_assignments[i].1.as_slice(),
            None => {
                let e: &[String] = &[];
                assert(str_views(e@) =~= Seq::<Seq<char>>::empty());
                e
            },
        }
    }
}

} // verus!
