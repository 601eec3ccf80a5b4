//! Virtual machines: the `virsh` listing, libvirt domain XML, and the
//! GPU assignments that the domains hold.

use vstd::prelude::*;
use crate::text::{
    chars_of, contains, contains_str, dec_str, dec_str_exec, eq_str, extend, extend_str, find,
    find_exec, hex_pad, hex_pad_exec, join, join_exec, lemma_find_from_props, lemma_str_views_push,
    lemma_views_push, lines, lines_exec, parse_uint, parse_uint_exec, same, slice, split_by,
    split_by_exec, split_ws, split_ws_exec, starts_with, starts_with_str, str_views, string_of,
    trim, trim_exec, trim_start_matches, trim_start_matches_exec, views, trim_end, contains_exec, trim_end_exec,
    lemma_dec_str_reads_back, lemma_hex_pad_reads_back, occurs_at, lemma_parse_plain_digits, lemma_split_by_append,
    plain_digits,
};

verus! {

/// Run state of a VM as `virsh list` reports it.
#[derive(Debug)]
pub enum VmState {
    Running,
    ShutOff,
    Paused,
    Saved,
    Other(String),
}

/// A VM and the PCI addresses of the devices its definition passes through.
#[derive(Debug)]
pub struct VmInfo {
    pub id: String,
    pub name: String,
    pub state: VmState,
    pub assigned_gpus: Vec<String>,
    pub xml_path: Option<String>,
}

pub enum VmStateView {
    Running,
    ShutOff,
    Paused,
    Saved,
    Other(Seq<char>),
}

pub struct VmInfoView {
    pub id: Seq<char>,
    pub name: Seq<char>,
    pub state: VmStateView,
    pub assigned_gpus: Seq<Seq<char>>,
    pub xml_path: Option<Seq<char>>,
}

impl View for VmState {
    type V = VmStateView;

    open spec fn view(&self) -> VmStateView {
        match self {
            VmState::Running => VmStateView::Running,
            VmState::ShutOff => VmStateView::ShutOff,
            VmState::Paused => VmStateView::Paused,
            VmState::Saved => VmStateView::Saved,
            VmState::Other(s) => VmStateView::Other(s@),
        }
    }
}

pub open spec fn opt_str_view(o: Option<String>) -> Option<Seq<char>> {
    match o {
        Some(s) => Some(s@),
        None => None,
    }
}

impl View for VmInfo {
    type V = VmInfoView;

    open spec fn view(&self) -> VmInfoView {
        VmInfoView {
            id: self.id@,
            name: self.name@,
            state: self.state@,
            assigned_gpus: str_views(self.assigned_gpus@),
            xml_path: opt_str_view(self.xml_path),
        }
    }
}

pub open spec fn vm_views(v: Seq<VmInfo>) -> Seq<VmInfoView> {
    v.map_values(|x: VmInfo| x@)
}

/// The text `virsh` uses for a state.
pub open spec fn state_label(s: VmStateView) -> Seq<char> {
    match s {
        VmStateView::Running => "running"@,
        VmStateView::ShutOff => "shut off"@,
        VmStateView::Paused => "paused"@,
        VmStateView::Saved => "saved"@,
        VmStateView::Other(t) => t,
    }
}

/// The state that a `virsh list` state text names.
pub open spec fn state_from_label(t: Seq<char>) -> VmStateView {
    if t == "running"@ {
        VmStateView::Running
    } else if t == "shut off"@ {
        VmStateView::ShutOff
    } else if t == "paused"@ {
        VmStateView::Paused
    } else if t == "saved"@ {
        VmStateView::Saved
    } else {
        VmStateView::Other(t)
    }
}

impl VmState {
    /// The state as `virsh` writes it.
    pub fn label(&self) -> (r: String)
        ensures
            r@ == state_label(self@),
    {
        match self {
            VmState::Running => "running".to_string(),
            VmState::ShutOff => "shut off".to_string(),
            VmState::Paused => "paused".to_string(),
            VmState::Saved => "saved".to_string(),
            VmState::Other(s) => s.clone(),
        }
    }

    pub fn copy(&self) -> (r: VmState)
        ensures
            r@ == self@,
    {
        match self {
            VmState::Running => VmState::Running,
            VmState::ShutOff => VmState::ShutOff,
            VmState::Paused => VmState::Paused,
            VmState::Saved => VmState::Saved,
            VmState::Other(s) => VmState::Other(s.clone()),
        }
    }
}

pub fn copy_strings(v: &Vec<String>) -> (r: Vec<String>)
    ensures
        r@ == v@,
{
    let mut out: Vec<String> = Vec::new();
    let mut i: usize = 0;
    while i < v.len()
        invariant
            i <= v.len(),
            out@ == v@.take(i as int),
        decreases v.len() - i,
    {
        out.push(v[i].clone());
        i = i + 1;
        assert(out@ =~= v@.take(i as int));
    }
    assert(v@.take(v.len() as int) =~= v@);
    out
}

impl VmInfo {
    /// Whether the VM is running.
    pub fn is_running(&self) -> (r: bool)
        ensures
            r == (self.state@ is Running),
    {
        match self.state {
            VmState::Running => true,
            _ => false,
        }
    }

    pub fn copy(&self) -> (r: VmInfo)
        ensures
            r@ == self@,
    {
        VmInfo {
            id: self.id.clone(),
            name: self.name.clone(),
            state: self.state.copy(),
            assigned_gpus: copy_strings(&self.assigned_gpus),
            xml_path: match &self.xml_path {
                Some(p) => Some(p.clone()),
                None => None,
            },
        }
    }
}

fn state_from_label_exec(t: &Vec<char>) -> (r: VmState)
    ensures
        r@ == state_from_label(t@),
{
    if eq_str(t, "running") {
        VmState::Running
    } else if eq_str(t, "shut off") {
        VmState::ShutOff
    } else if eq_str(t, "paused") {
        VmState::Paused
    } else if eq_str(t, "saved") {
        VmState::Saved
    } else {
        VmState::Other(string_of(t))
    }
}

// ---------------------------------------------------------------------
// `virsh list --all`
// ---------------------------------------------------------------------

/// The VM that one line of `virsh list --all` describes: `id name state...`,
/// or `id name` with an unknown state; headers, rules and blank lines
/// describe none.
pub open spec fn virsh_line(line: Seq<char>) -> Option<VmInfoView> {
    let t = trim(line);
    if t.len() == 0 || starts_with(t, "-"@) || starts_with(t, "Id"@) || starts_with(t, "状态"@) {
        None
    } else {
        let parts = split_ws(t);
        if parts.len() >= 3 {
            Some(VmInfoView {
                id: parts[0],
                name: parts[1],
                state: state_from_label(join(parts.skip(2), " "@)),
                assigned_gpus: Seq::empty(),
                xml_path: None,
            })
        } else if parts.len() == 2 {
            Some(VmInfoView {
                id: parts[0],
                name: parts[1],
                state: VmStateView::Other("unknown"@),
                assigned_gpus: Seq::empty(),
                xml_path: None,
            })
        } else {
            None
        }
    }
}

pub open spec fn virsh_fold(ls: Seq<Seq<char>>) -> Seq<VmInfoView>
    decreases ls.len(),
{
    if ls.len() == 0 {
        Seq::empty()
    } else {
        match virsh_line(ls.last()) {
            Some(v) => virsh_fold(ls.drop_last()).push(v),
            None => virsh_fold(ls.drop_last()),
        }
    }
}

/// The VMs of a `virsh list --all` listing, in order.
pub open spec fn virsh_vms(text: Seq<char>) -> Seq<VmInfoView> {
    virsh_fold(lines(text))
}

fn virsh_line_exec(line: &Vec<char>) -> (r: Option<VmInfo>)
    ensures
        (match r { Some(v) => Some(v@), None => None }) == virsh_line(line@),
{
    let t = trim_exec(line);
    if t.len() == 0 || starts_with_str(&t, "-") || starts_with_str(&t, "Id")
        || starts_with_str(&t, "状态") {
        return None;
    }
    let parts = split_ws_exec(&t);
    if parts.len() >= 3 {
        let rest = slice_parts(&parts, 2);
        let sp = chars_of(" ");
        let st = join_exec(&rest, &sp);
        let v = VmInfo {
            id: string_of(&parts[0]),
            name: string_of(&parts[1]),
            state: state_from_label_exec(&st),
            assigned_gpus: Vec::new(),
            xml_path: None,
        };
        assert(views(parts@)[0] == parts@[0]@);
        assert(views(parts@)[1] == parts@[1]@);
        assert(str_views(v.assigned_gpus@) =~= Seq::<Seq<char>>::empty());
        Some(v)
    } else if parts.len() == 2 {
        let v = VmInfo {
            id: string_of(&parts[0]),
            name: string_of(&parts[1]),
            state: VmState::Other("unknown".to_string()),
            assigned_gpus: Vec::new(),
            xml_path: None,
        };
        assert(views(parts@)[0] == parts@[0]@);
        assert(views(parts@)[1] == parts@[1]@);
        assert(str_views(v.assigned_gpus@) =~= Seq::<Seq<char>>::empty());
        Some(v)
    } else {
        None
    }
}

/// The pieces from index `from` on.
fn slice_parts(parts: &Vec<Vec<char>>, from: usize) -> (r: Vec<Vec<char>>)
    requires
        from <= parts.len(),
    ensures
        views(r@) == views(parts@).skip(from as int),
{
    let mut out: Vec<Vec<char>> = Vec::new();
    let mut i: usize = from;
    while i < parts.len()
        invariant
            from <= i <= parts.len(),
            views(out@) == views(parts@).subrange(from as int, i as int),
        decreases parts.len() - i,
    {
        let p = slice(&parts[i], 0, parts[i].len());
        assert(p@ =~= parts@[i as int]@);
        proof { lemma_views_push(out@, p); }
        out.push(p);
        i = i + 1;
        assert(views(out@) =~= views(parts@).subrange(from as int, i as int));
    }
    assert(views(parts@).subrange(from as int, parts.len() as int) =~= views(parts@).skip(from as int));
    out
}

/// The VMs of a `virsh list --all` listing.
pub fn parse_virsh_list(text: &str) -> (r: Vec<VmInfo>)
    ensures
        vm_views(r@) == virsh_vms(text@),
{
    let v = chars_of(text);
    let ls = lines_exec(&v);
    let mut out: Vec<VmInfo> = Vec::new();
    let mut i: usize = 0;
    assert(views(ls@).take(0) =~= Seq::<Seq<char>>::empty());
    while i < ls.len()
        invariant
            i <= ls.len(),
            vm_views(out@) == virsh_fold(views(ls@).take(i as int)),
        decreases ls.len() - i,
    {
        assert(views(ls@).take(i + 1).drop_last() =~= views(ls@).take(i as int));
        assert(views(ls@).take(i + 1).last() == ls@[i as int]@);
        match virsh_line_exec(&ls[i]) {
            Some(vm) => {
                let ghost o = out@;
                out.push(vm);
                assert(vm_views(out@) =~= vm_views(o).push(vm@));
            },
            None => {},
        }
        i = i + 1;
    }
    assert(views(ls@).take(ls.len() as int) =~= views(ls@));
    out
}

// ---------------------------------------------------------------------
// libvirt domain XML
// ---------------------------------------------------------------------

/// The name of the first line of `xml` that, trimmed, reads `<name>…</name>`.
pub open spec fn xml_vm_name_from(ls: Seq<Seq<char>>) -> Option<Seq<char>>
    decreases ls.len(),
{
    if ls.len() == 0 {
        None
    } else {
        let t = trim(ls[0]);
        if starts_with(t, "<name>"@) && crate::text::ends_with(t, "</name>"@) {
            let inner = t.skip("<name>"@.len() as int);
            if crate::text::ends_with(inner, "</name>"@) {
                Some(trim(inner.take(inner.len() - "</name>"@.len())))
            } else {
                None
            }
        } else {
            xml_vm_name_from(ls.drop_first())
        }
    }
}

/// The domain name that a libvirt XML definition gives.
pub fn extract_vm_name_from_xml(xml: &str) -> (r: Option<String>)
    ensures
        opt_str_view(r) == xml_vm_name_from(lines(xml@)),
{
    let v = chars_of(xml);
    let ls = lines_exec(&v);
    let open = chars_of("<name>");
    let close = chars_of("</name>");
    let mut i: usize = 0;
    assert(views(ls@).skip(0) =~= views(ls@));
    while i < ls.len()
        invariant
            i <= ls.len(),
            open@ == "<name>"@,
            close@ == "</name>"@,
            views(ls@) == lines(xml@),
            xml_vm_name_from(views(ls@)) == xml_vm_name_from(views(ls@).skip(i as int)),
        decreases ls.len() - i,
    {
        let ghost rest = views(ls@).skip(i as int);
        assert(rest[0] == ls@[i as int]@);
        assert(rest.drop_first() =~= views(ls@).skip(i + 1));
        let t = trim_exec(&ls[i]);
        if crate::text::starts_with_exec(&t, &open) && crate::text::ends_with_exec(&t, &close) {
            let inner = slice(&t, open.len(), t.len());
            assert(inner@ =~= t@.skip("<name>"@.len() as int));
            if crate::text::ends_with_exec(&inner, &close) {
                let name = slice(&inner, 0, inner.len() - close.len());
                assert(name@ =~= inner@.take(inner@.len() - "</name>"@.len()));
                let n = trim_exec(&name);
                return Some(string_of(&n));
            } else {
                return None;
            }
        }
        i = i + 1;
    }
    None
}

/// The value of `attr` quoted by `q` after the first `pat` of `line`.
pub open spec fn attr_quoted(line: Seq<char>, pat: Seq<char>, q: Seq<char>) -> Option<Seq<char>> {
    match find(line, pat) {
        Some(st) => {
            let vs = st + pat.len();
            match find(line.skip(vs), q) {
                Some(e) => Some(line.subrange(vs, vs + e)),
                None => None,
            }
        },
        None => None,
    }
}

/// `attr='value'` (or, failing that, `attr="value"`) in an XML line.
pub open spec fn xml_attr(line: Seq<char>, attr: Seq<char>) -> Option<Seq<char>> {
    match attr_quoted(line, attr + "='"@, "'"@) {
        Some(v) => Some(v),
        None => attr_quoted(line, attr + "=\""@, "\""@),
    }
}

fn attr_quoted_exec(line: &Vec<char>, pat: &Vec<char>, q: &Vec<char>) -> (r: Option<Vec<char>>)
    ensures
        (match r { Some(v) => Some(v@), None => None }) == attr_quoted(line@, pat@, q@),
{
    match find_exec(line, pat) {
        Some(st) => {
            proof {
                lemma_find_from_props(line@, pat@, 0);
            }
            assert(st + pat.len() <= line.len());
            let vs: usize = st + pat.len();
            let tail = slice(line, vs, line.len());
            assert(tail@ =~= line@.skip(vs as int));
            match find_exec(&tail, q) {
                Some(e) => {
                    proof {
                        lemma_find_from_props(tail@, q@, 0);
                    }
                    assert(vs + e <= line.len());
                    let ve: usize = vs + e;
                    Some(slice(line, vs, ve))
                },
                None => None,
            }
        },
        None => None,
    }
}

fn xml_attr_chars(line: &Vec<char>, attr: &str) -> (r: Option<Vec<char>>)
    ensures
        (match r { Some(v) => Some(v@), None => None }) == xml_attr(line@, attr@),
{
    let mut p1 = chars_of(attr);
    extend_str(&mut p1, "='");
    let q1 = chars_of("'");
    match attr_quoted_exec(line, &p1, &q1) {
        Some(v) => Some(v),
        None => {
            let mut p2 = chars_of(attr);
            extend_str(&mut p2, "=\"");
            let q2 = chars_of("\"");
            attr_quoted_exec(line, &p2, &q2)
        },
    }
}

/// The value of attribute `attr` in an XML line, in single or else double quotes.
pub fn extract_xml_attr(line: &str, attr: &str) -> (r: Option<String>)
    ensures
        opt_str_view(r) == xml_attr(line@, attr@),
{
    let v = chars_of(line);
    match xml_attr_chars(&v, attr) {
        Some(x) => Some(string_of(&x)),
        None => None,
    }
}


/// A PCI address from the `domain`, `bus`, `slot` and `function` attribute
/// values of a hostdev `<address>` line: each loses its leading `0x`s and
/// is read as a hexadecimal number, as `generate_hostdev_xml` writes it (0
/// where it is none), then written as `dddd:bb:ss.f` (hexadecimal, the
/// function decimal).
pub open spec fn address_from_attrs(d: Seq<char>, b: Seq<char>, s: Seq<char>, f: Seq<char>) -> Seq<char> {
    let dv = match parse_uint(trim_start_matches(d, "0x"@), 16, 0xffff) { Some(x) => x, None => 0 };
    let bv = match parse_uint(trim_start_matches(b, "0x"@), 16, 0xff) { Some(x) => x, None => 0 };
    let sv = match parse_uint(trim_start_matches(s, "0x"@), 16, 0xff) { Some(x) => x, None => 0 };
    let fv = match parse_uint(trim_start_matches(f, "0x"@), 16, 0xff) { Some(x) => x, None => 0 };
    hex_pad(dv, 4) + ":"@ + hex_pad(bv, 2) + ":"@ + hex_pad(sv, 2) + "."@ + dec_str(fv)
}

/// Scan state over domain XML lines: inside a `<hostdev>`, whether it is a
/// PCI one, and the addresses found so far.
pub open spec fn hostdev_step(st: (bool, bool, Seq<Seq<char>>), line: Seq<char>) -> (bool, bool, Seq<Seq<char>>) {
    let t = trim(line);
    if starts_with(t, "<hostdev"@) {
        (true, contains(t, "type='pci'"@) || contains(t, "type=\"pci\""@), st.2)
    } else if t == "</hostdev>"@ {
        (false, false, st.2)
    } else if st.0 && st.1 && starts_with(t, "<address"@) && contains(t, "domain="@) && contains(t, "bus="@) {
        match (xml_attr(line, "domain"@), xml_attr(line, "bus"@), xml_attr(line, "slot"@), xml_attr(line, "function"@)) {
            (Some(d), Some(b), Some(s), Some(f)) => (st.0, st.1, st.2.push(address_from_attrs(d, b, s, f))),
            _ => st,
        }
    } else {
        st
    }
}

pub open spec fn hostdev_fold(ls: Seq<Seq<char>>) -> (bool, bool, Seq<Seq<char>>)
    decreases ls.len(),
{
    if ls.len() == 0 {
        (false, false, Seq::empty())
    } else {
        hostdev_step(hostdev_fold(ls.drop_last()), ls.last())
    }
}

/// The PCI addresses that the PCI `<hostdev>` blocks of a domain XML pass through.
pub open spec fn xml_assigned_gpus(xml: Seq<char>) -> Seq<Seq<char>> {
    hostdev_fold(lines(xml)).2
}

fn attr_number(v: &Vec<char>, max: u64) -> (r: u64)
    requires
        max <= 0xffff,
    ensures
        r == (match parse_uint(trim_start_matches(v@, "0x"@), 16, max as nat) { Some(x) => x, None => 0 }),
{
    let ox = chars_of("0x");
    let t = trim_start_matches_exec(v, &ox);
    match parse_uint_exec(&t, 16, max) {
        Some(x) => x,
        None => 0,
    }
}

fn address_from_attrs_exec(d: &Vec<char>, b: &Vec<char>, s: &Vec<char>, f: &Vec<char>) -> (r: Vec<char>)
    ensures
        r@ == address_from_attrs(d@, b@, s@, f@),
{
    let dv = attr_number(d, 0xffff);
    let bv = attr_number(b, 0xff);
    let sv = attr_number(s, 0xff);
    let fv = attr_number(f, 0xff);
    let mut out = hex_pad_exec(dv, 4);
    extend_str(&mut out, ":");
    let x = hex_pad_exec(bv, 2);
    extend(&mut out, &x);
    extend_str(&mut out, ":");
    let y = hex_pad_exec(sv, 2);
    extend(&mut out, &y);
    extend_str(&mut out, ".");
    let z = dec_str_exec(fv);
    extend(&mut out, &z);
    out
}

/// The PCI addresses passed through by a domain XML's PCI `<hostdev>` blocks.
pub fn parse_assigned_gpus(xml: &str) -> (r: Vec<String>)
    ensures
        str_views(r@) == xml_assigned_gpus(xml@),
{
    let v = chars_of(xml);
    let ls = lines_exec(&v);
    let mut gpus: Vec<String> = Vec::new();
    let mut in_hostdev = false;
    let mut is_pci = false;
    let mut i: usize = 0;
    assert(views(ls@).take(0) =~= Seq::<Seq<char>>::empty());
    while i < ls.len()
        invariant
            i <= ls.len(),
            (in_hostdev, is_pci, str_views(gpus@)) == hostdev_fold(views(ls@).take(i as int)),
        decreases ls.len() - i,
    {
        assert(views(ls@).take(i + 1).drop_last() =~= views(ls@).take(i as int));
        assert(views(ls@).take(i + 1).last() == ls@[i as int]@);
        let line = &ls[i];
        let t = trim_exec(line);
        if starts_with_str(&t, "<hostdev") {
            in_hostdev = true;
            is_pci = contains_str(&t, "type='pci'") || contains_str(&t, "type=\"pci\"");
        } else if eq_str(&t, "</hostdev>") {
            in_hostdev = false;
            is_pci = false;
        } else if in_hostdev && is_pci && starts_with_str(&t, "<address") && contains_str(&t, "domain=")
            && contains_str(&t, "bus=") {
            let d = xml_attr_chars(line, "domain");
            let b = xml_attr_chars(line, "bus");
            let s = xml_attr_chars(line, "slot");
            let f = xml_attr_chars(line, "function");
            match (d, b, s, f) {
                (Some(d), Some(b), Some(s), Some(f)) => {
                    let a = address_from_attrs_exec(&d, &b, &s, &f);
                    let st = string_of(&a);
                    proof { lemma_str_views_push(gpus@, st); }
                    gpus.push(st);
                },
                _ => {},
            }
        }
        i = i + 1;
    }
    assert(views(ls@).take(ls.len() as int) =~= views(ls@));
    gpus
}

// ---------------------------------------------------------------------
// PCI addresses
// ---------------------------------------------------------------------

/// A PCI address split at its colons and dots.
pub open spec fn pci_parts(addr: Seq<char>) -> Seq<Seq<char>> {
    split_by(addr, ":."@)
}

/// The canonical form `dddd:bb:ss.f` of a PCI address whose four parts
/// read as hexadecimal domain, bus, slot and decimal function; any other
/// text stands for itself.
pub open spec fn normalized_pci(addr: Seq<char>) -> Seq<char> {
    let p = pci_parts(addr);
    if p.len() == 4 && parse_uint(p[0], 16, 0xffff) is Some && parse_uint(p[1], 16, 0xff) is Some
        && parse_uint(p[2], 16, 0xff) is Some && parse_uint(p[3], 10, 0xff) is Some {
        hex_pad(parse_uint(p[0], 16, 0xffff)->0, 4) + ":"@ + hex_pad(parse_uint(p[1], 16, 0xff)->0, 2)
            + ":"@ + hex_pad(parse_uint(p[2], 16, 0xff)->0, 2) + "."@ + dec_str(parse_uint(p[3], 10, 0xff)->0)
    } else {
        addr
    }
}

fn normalized_chars(a: &Vec<char>) -> (r: Vec<char>)
    ensures
        r@ == normalized_pci(a@),
{
    let seps = chars_of(":.");
    let p = split_by_exec(a, &seps);
    if p.len() == 4 {
        assert(views(p@)[0] == p@[0]@ && views(p@)[1] == p@[1]@ && views(p@)[2] == p@[2]@ && views(p@)[3] == p@[3]@);
        match (parse_uint_exec(&p[0], 16, 0xffff), parse_uint_exec(&p[1], 16, 0xff),
            parse_uint_exec(&p[2], 16, 0xff), parse_uint_exec(&p[3], 10, 0xff)) {
            (Some(d), Some(b), Some(s), Some(f)) => {
                let mut out = hex_pad_exec(d, 4);
                extend_str(&mut out, ":");
                let x = hex_pad_exec(b, 2);
                extend(&mut out, &x);
                extend_str(&mut out, ":");
                let y = hex_pad_exec(s, 2);
                extend(&mut out, &y);
                extend_str(&mut out, ".");
                let z = dec_str_exec(f);
                extend(&mut out, &z);
                return out;
            },
            _ => {},
        }
    }
    slice(a, 0, a.len())
}

/// The canonical form of a PCI address, for comparing addresses written differently.
pub fn normalize_pci_address(addr: &str) -> (r: String)
    ensures
        r@ == normalized_pci(addr@),
{
    let a = chars_of(addr);
    let n = normalized_chars(&a);
    string_of(&n)
}

/// Splitting `x` followed by a separator gives the pieces of `x` and an
/// empty one.
proof fn lemma_split_after_sep(x: Seq<char>, sep: Seq<char>, seps: Seq<char>)
    requires
        sep.len() == 1,
        seps.contains(sep[0]),
    ensures
        split_by(x + sep, seps) == split_by(x, seps).push(Seq::empty()),
{
    assert((x + sep).drop_last() =~= x);
    assert((x + sep).last() == sep[0]);
}

/// The address that `normalized_pci` writes, split at `:` and `.`, gives
/// back its four parts.
proof fn lemma_pci_parts_of_normal(hd: Seq<char>, hb: Seq<char>, hs: Seq<char>, df: Seq<char>)
    requires
        plain_digits(hd, 16),
        plain_digits(hb, 16),
        plain_digits(hs, 16),
        plain_digits(df, 10),
    ensures
        pci_parts(hd + ":"@ + hb + ":"@ + hs + "."@ + df) == seq![hd, hb, hs, df],
{
    reveal_strlit(":.");
    reveal_strlit(":");
    reveal_strlit(".");
    let seps = ":."@;
    assert(seps.contains(':') && seps.contains('.')) by {
        assert(seps[0] == ':' && seps[1] == '.');
    }
    assert forall|c: char| #[trigger] seps.contains(c) implies c == ':' || c == '.' by {
        let k = choose|k: int| 0 <= k < seps.len() && seps[k] == c;
    }
    let e = Seq::<char>::empty();
    lemma_split_by_append(e, hd, seps);
    assert(e + hd =~= hd);
    assert(split_by(e, seps) == seq![e]);
    assert(split_by(hd, seps) =~= seq![hd]);
    let x1 = hd + ":"@;
    lemma_split_after_sep(hd, ":"@, seps);
    lemma_split_by_append(x1, hb, seps);
    assert(split_by(x1 + hb, seps) =~= seq![hd, hb]);
    let x2 = x1 + hb + ":"@;
    lemma_split_after_sep(x1 + hb, ":"@, seps);
    lemma_split_by_append(x2, hs, seps);
    assert(split_by(x2 + hs, seps) =~= seq![hd, hb, hs]);
    let x3 = x2 + hs + "."@;
    lemma_split_after_sep(x2 + hs, "."@, seps);
    lemma_split_by_append(x3, df, seps);
    assert(split_by(x3 + df, seps) =~= seq![hd, hb, hs, df]);
}

/// The canonical form of a domain, bus, slot and function.
pub open spec fn canonical_pci(d: nat, b: nat, s: nat, f: nat) -> Seq<char> {
    hex_pad(d, 4) + ":"@ + hex_pad(b, 2) + ":"@ + hex_pad(s, 2) + "."@ + dec_str(f)
}

/// A canonical address is its own normal form.
proof fn lemma_canonical_is_normal(d: nat, b: nat, s: nat, f: nat)
    requires
        d <= 0xffff,
        b <= 0xff,
        s <= 0xff,
        f <= 0xff,
    ensures
        normalized_pci(canonical_pci(d, b, s, f)) == canonical_pci(d, b, s, f),
{
    lemma_hex_pad_reads_back(d, 4);
    lemma_hex_pad_reads_back(b, 2);
    lemma_hex_pad_reads_back(s, 2);
    lemma_dec_str_reads_back(f);
    let hd = hex_pad(d, 4);
    let hb = hex_pad(b, 2);
    let hs = hex_pad(s, 2);
    let df = dec_str(f);
    lemma_pci_parts_of_normal(hd, hb, hs, df);
    lemma_parse_plain_digits(hd, 16, 0xffff);
    lemma_parse_plain_digits(hb, 16, 0xff);
    lemma_parse_plain_digits(hs, 16, 0xff);
    lemma_parse_plain_digits(df, 10, 0xff);
}

/// Normalizing a PCI address twice is normalizing it once: the canonical
/// form reads back as the same domain, bus, slot and function.
pub proof fn lemma_normalize_idempotent(addr: Seq<char>)
    ensures
        normalized_pci(normalized_pci(addr)) == normalized_pci(addr),
{
    let p = pci_parts(addr);
    if p.len() == 4 && parse_uint(p[0], 16, 0xffff) is Some && parse_uint(p[1], 16, 0xff) is Some
        && parse_uint(p[2], 16, 0xff) is Some && parse_uint(p[3], 10, 0xff) is Some {
        lemma_canonical_is_normal(parse_uint(p[0], 16, 0xffff)->0, parse_uint(p[1], 16, 0xff)->0,
            parse_uint(p[2], 16, 0xff)->0, parse_uint(p[3], 10, 0xff)->0);
    }
}

proof fn lemma_hostdev_fold_canonical(ls: Seq<Seq<char>>)
    ensures
        forall|k: int| 0 <= k < hostdev_fold(ls).2.len()
            ==> normalized_pci(#[trigger] hostdev_fold(ls).2[k]) == hostdev_fold(ls).2[k],
    decreases ls.len(),
{
    if ls.len() > 0 {
        lemma_hostdev_fold_canonical(ls.drop_last());
        let st = hostdev_fold(ls.drop_last());
        let line = ls.last();
        match (xml_attr(line, "domain"@), xml_attr(line, "bus"@), xml_attr(line, "slot"@), xml_attr(line, "function"@)) {
            (Some(d), Some(b), Some(s), Some(f)) => {
                let dv = match parse_uint(trim_start_matches(d, "0x"@), 16, 0xffff) { Some(x) => x, None => 0 };
                let bv = match parse_uint(trim_start_matches(b, "0x"@), 16, 0xff) { Some(x) => x, None => 0 };
                let sv = match parse_uint(trim_start_matches(s, "0x"@), 16, 0xff) { Some(x) => x, None => 0 };
                let fv = match parse_uint(trim_start_matches(f, "0x"@), 16, 0xff) { Some(x) => x, None => 0 };
                lemma_canonical_is_normal(dv, bv, sv, fv);
                assert(address_from_attrs(d, b, s, f) == canonical_pci(dv, bv, sv, fv));
            },
            _ => {},
        }
    }
}

/// The addresses read from a domain's `<hostdev>` blocks are in canonical
/// form: each is its own normal form, so they compare directly with the
/// normalized addresses of detected GPUs.
pub proof fn lemma_assigned_gpus_canonical(xml: Seq<char>)
    ensures
        forall|k: int| 0 <= k < xml_assigned_gpus(xml).len()
            ==> normalized_pci(#[trigger] xml_assigned_gpus(xml)[k]) == xml_assigned_gpus(xml)[k],
{
    lemma_hostdev_fold_canonical(lines(xml));
}

/// Whether a file of the libvirt directory, by its name, holds a domain
/// definition: its extension is `xml` (a `.xml` after a non-empty stem),
/// which also leaves out the `.bak` backups.
pub fn is_domain_xml(file_name: &str) -> (r: bool)
    ensures
        r == (crate::text::ends_with(file_name@, ".xml"@) && file_name@.len() > 4),
{
    let v = chars_of(file_name);
    crate::text::ends_with_str(&v, ".xml") && v.len() > 4
}

/// The default location of a domain's XML definition.
pub open spec fn default_xml_path(vm_name: Seq<char>) -> Seq<char> {
    "/etc/libvirt/qemu/"@ + vm_name + ".xml"@
}

/// The default location of a domain's XML definition.
pub fn vm_xml_path(vm_name: &str) -> (r: String)
    ensures
        r@ == default_xml_path(vm_name@),
{
    let mut v = chars_of("/etc/libvirt/qemu/");
    extend_str(&mut v, vm_name);
    extend_str(&mut v, ".xml");
    string_of(&v)
}

// ---------------------------------------------------------------------
// Assignments across VMs
// ---------------------------------------------------------------------

/// Conflict report for one GPU.
#[derive(Debug)]
pub struct GpuConflictInfo {
    pub pci_address: String,
    pub conflicting_vms: Vec<String>,
    pub is_host_display_gpu: bool,
    pub warnings: Vec<String>,
}

/// Whether a VM's definition passes through the device at `addr` (compared canonically).
pub open spec fn vm_holds(vm: VmInfoView, addr: Seq<char>) -> bool {
    exists|i: int| 0 <= i < vm.assigned_gpus.len() && normalized_pci(#[trigger] vm.assigned_gpus[i]) == normalized_pci(addr)
}

/// The names of the VMs that hold `addr`, in order.
pub open spec fn holders(vms: Seq<VmInfoView>, addr: Seq<char>) -> Seq<Seq<char>>
    decreases vms.len(),
{
    if vms.len() == 0 {
        Seq::empty()
    } else if vm_holds(vms.last(), addr) {
        holders(vms.drop_last(), addr).push(vms.last().name)
    } else {
        holders(vms.drop_last(), addr)
    }
}

/// One warning per running VM that holds `addr`, in order.
pub open spec fn running_holder_warnings(vms: Seq<VmInfoView>, addr: Seq<char>) -> Seq<Seq<char>>
    decreases vms.len(),
{
    if vms.len() == 0 {
        Seq::empty()
    } else if vm_holds(vms.last(), addr) && vms.last().state is Running {
        running_holder_warnings(vms.drop_last(), addr).push(
            "GPU "@ + addr + " is actively assigned to running VM '"@ + vms.last().name + "'"@)
    } else {
        running_holder_warnings(vms.drop_last(), addr)
    }
}

pub open spec fn host_display_warning(addr: Seq<char>) -> Seq<char> {
    "GPU "@ + addr + " is the host's primary display GPU - passing through will lose host display"@
}

fn vm_holds_exec(vm: &VmInfo, target: &Vec<char>) -> (r: bool)
    ensures
        r == exists|i: int| 0 <= i < vm@.assigned_gpus.len()
            && normalized_pci(#[trigger] vm@.assigned_gpus[i]) == target@,
{
    let mut i: usize = 0;
    while i < vm.assigned_gpus.len()
        invariant
            i <= vm.assigned_gpus.len(),
            forall|j: int| 0 <= j < i ==> normalized_pci(#[trigger] vm@.assigned_gpus[j]) != target@,
        decreases vm.assigned_gpus.len() - i,
    {
        let a = chars_of(vm.assigned_gpus[i].as_str());
        let n = normalized_chars(&a);
        assert(vm@.assigned_gpus[i as int] == vm.assigned_gpus@[i as int]@);
        if crate::text::eq_chars(&n, target) {
            return true;
        }
        i = i + 1;
    }
    false
}

/// Whether a DRM entry of a GPU (its name, and its status file contents
/// where read) is a display connector that reports `connected`.
pub open spec fn connected_card(entry: (Seq<char>, Option<Seq<char>>)) -> bool {
    &&& starts_with(entry.0, "card"@)
    &&& !contains(entry.0, "renderD"@)
    &&& entry.1 matches Some(st) && trim(st) == "connected"@
}

/// Whether the host drives a display with a GPU: its `boot_vga` contents
/// (`None` where unreadable) trim to `1`, or one of its DRM entries is a
/// `card` connector (not a `renderD` node) that reports `connected`.
pub fn is_host_display_gpu(boot_vga: Option<&str>, drm_entries: &Vec<(String, Option<String>)>) -> (r: bool)
    ensures
        r == ((boot_vga matches Some(c) && trim(c@) == "1"@) || exists|i: int|
            0 <= i < drm_entries@.len() && #[trigger] connected_card(
                (drm_entries@[i].0@, opt_str_view(drm_entries@[i].1)),
            )),
{
    if let Some(c) = boot_vga {
        let cv = chars_of(c);
        let t = trim_exec(&cv);
        if eq_str(&t, "1") {
            return true;
        }
    }
    let mut i: usize = 0;
    while i < drm_entries.len()
        invariant
            i <= drm_entries.len(),
            !(boot_vga matches Some(c) && trim(c@) == "1"@),
            forall|j: int| 0 <= j < i ==> !#[trigger] connected_card(
                (drm_entries@[j].0@, opt_str_view(drm_entries@[j].1)),
            ),
        decreases drm_entries.len() - i,
    {
        let (name, status) = &drm_entries[i];
        let nv = chars_of(name.as_str());
        if starts_with_str(&nv, "card") && !contains_str(&nv, "renderD") {
            if let Some(st) = status {
                let sv = chars_of(st.as_str());
                let t = trim_exec(&sv);
                if eq_str(&t, "connected") {
                    assert(connected_card((drm_entries@[i as int].0@, opt_str_view(drm_entries@[i as int].1))));
                    return true;
                }
            }
        }
        i = i + 1;
    }
    false
}

/// Which VMs hold the GPU at `gpu_address` (any spelling of it), with a
/// warning for each running one and, where the host drives a display with
/// it (`is_host_display_gpu`, read from sysfs), a warning for that too.
pub fn check_gpu_conflicts(gpu_address: &str, all_vms: &Vec<VmInfo>, is_host_display_gpu: bool) -> (r: GpuConflictInfo)
    ensures
        r.pci_address@ == gpu_address@,
        str_views(r.conflicting_vms@) == holders(vm_views(all_vms@), gpu_address@),
        r.is_host_display_gpu == is_host_display_gpu,
        str_views(r.warnings@) == running_holder_warnings(vm_views(all_vms@), gpu_address@)
            + (if is_host_display_gpu { seq![host_display_warning(gpu_address@)] } else { Seq::empty() }),
{
    let g = chars_of(gpu_address);
    let target = normalized_chars(&g);
    let mut names: Vec<String> = Vec::new();
    let mut warnings: Vec<String> = Vec::new();
    let mut i: usize = 0;
    assert(vm_views(all_vms@).take(0) =~= Seq::<VmInfoView>::empty());
    while i < all_vms.len()
        invariant
            i <= all_vms.len(),
            target@ == normalized_pci(gpu_address@),
            str_views(names@) == holders(vm_views(all_vms@).take(i as int), gpu_address@),
            str_views(warnings@) == running_holder_warnings(vm_views(all_vms@).take(i as int), gpu_address@),
        decreases all_vms.len() - i,
    {
        let vm = &all_vms[i];
        let ghost pre = vm_views(all_vms@).take(i as int);
        assert(vm_views(all_vms@).take(i + 1).drop_last() =~= pre);
        assert(vm_views(all_vms@).take(i + 1).last() == vm@);
        if vm_holds_exec(vm, &target) {
            if vm.is_running() {
                let mut w = chars_of("GPU ");
                extend_str(&mut w, gpu_address);
                extend_str(&mut w, " is actively assigned to running VM '");
                extend_str(&mut w, vm.name.as_str());
                extend_str(&mut w, "'");
                let ws = string_of(&w);
                proof { lemma_str_views_push(warnings@, ws); }
                warnings.push(ws);
            }
            let n = vm.name.clone();
            proof { lemma_str_views_push(names@, n); }
            names.push(n);
        }
        i = i + 1;
    }
    assert(vm_views(all_vms@).take(all_vms.len() as int) =~= vm_views(all_vms@));
    let ghost w0 = str_views(warnings@);
    if is_host_display_gpu {
        let mut w = chars_of("GPU ");
        extend_str(&mut w, gpu_address);
        extend_str(&mut w, " is the host's primary display GPU - passing through will lose host display");
        let ws = string_of(&w);
        proof { lemma_str_views_push(warnings@, ws); }
        warnings.push(ws);
    }
    assert(str_views(warnings@) =~= w0 + (if is_host_display_gpu { seq![host_display_warning(gpu_address@)] } else { Seq::<Seq<char>>::empty() }));
    GpuConflictInfo {
        pci_address: gpu_address.to_string(),
        conflicting_vms: names,
        is_host_display_gpu,
        warnings,
    }
}


/// The views of (key, list) pairs.
pub open spec fn group_views(v: Seq<(String, Vec<String>)>) -> Seq<(Seq<char>, Seq<Seq<char>>)> {
    v.map_values(|e: (String, Vec<String>)| (e.0@, str_views(e.1@)))
}

/// The index of the first pair with `key`.
pub open spec fn key_index<V>(entries: Seq<(Seq<char>, V)>, key: Seq<char>) -> Option<int>
    decreases entries.len(),
{
    if entries.len() == 0 {
        None
    } else if entries[0].0 == key {
        Some(0)
    } else {
        match key_index(entries.drop_first(), key) {
            Some(i) => Some(i + 1),
            None => None,
        }
    }
}

pub proof fn lemma_key_index<V>(entries: Seq<(Seq<char>, V)>, key: Seq<char>)
    ensures
        key_index(entries, key) matches Some(i) ==> 0 <= i < entries.len() && entries[i].0 == key
            && forall|j: int| 0 <= j < i ==> entries[j].0 != key,
        key_index(entries, key) is None ==> forall|j: int| 0 <= j < entries.len() ==> entries[j].0 != key,
    decreases entries.len(),
{
    if entries.len() > 0 && entries[0].0 != key {
        lemma_key_index(entries.drop_first(), key);
        assert forall|j: int| 1 <= j < entries.len() implies entries[j].0 == entries.drop_first()[j - 1].0 by {}
    }
}

/// `val` added to the list under `key`, a new pair at the end where there is none.
pub open spec fn add_to_group(entries: Seq<(Seq<char>, Seq<Seq<char>>)>, key: Seq<char>, val: Seq<char>) -> Seq<(Seq<char>, Seq<Seq<char>>)> {
    match key_index(entries, key) {
        Some(i) => entries.update(i, (key, entries[i].1.push(val))),
        None => entries.push((key, seq![val])),
    }
}

pub open spec fn add_vm_gpus(entries: Seq<(Seq<char>, Seq<Seq<char>>)>, name: Seq<char>, gpus: Seq<Seq<char>>) -> Seq<(Seq<char>, Seq<Seq<char>>)>
    decreases gpus.len(),
{
    if gpus.len() == 0 {
        entries
    } else {
        add_to_group(add_vm_gpus(entries, name, gpus.drop_last()), normalized_pci(gpus.last()), name)
    }
}

/// Canonical address -> names of the VMs holding it (a name once per
/// holding), keys in order of first appearance.
pub open spec fn assignment_summary(vms: Seq<VmInfoView>) -> Seq<(Seq<char>, Seq<Seq<char>>)>
    decreases vms.len(),
{
    if vms.len() == 0 {
        Seq::empty()
    } else {
        add_vm_gpus(assignment_summary(vms.drop_last()), vms.last().name, vms.last().assigned_gpus)
    }
}

/// The index of the first pair with `key`.
pub fn group_index(entries: &Vec<(String, Vec<String>)>, key: &str) -> (r: Option<usize>)
    ensures
        r matches Some(i) ==> key_index(group_views(entries@), key@) == Some(i as int),
        r is None ==> key_index(group_views(entries@), key@) is None,
{
    let mut i: usize = 0;
    proof { lemma_key_index(group_views(entries@), key@); }
    while i < entries.len()
        invariant
            i <= entries.len(),
            forall|j: int| 0 <= j < i ==> group_views(entries@)[j].0 != key@,
        decreases entries.len() - i,
    {
        if same(entries[i].0.as_str(), key) {
            proof { lemma_key_index_at(group_views(entries@), key@, i as int); }
            return Some(i);
        }
        i = i + 1;
    }
    proof { lemma_key_index_none(group_views(entries@), key@); }
    None
}

pub proof fn lemma_key_index_at<V>(entries: Seq<(Seq<char>, V)>, key: Seq<char>, i: int)
    requires
        0 <= i < entries.len(),
        entries[i].0 == key,
        forall|j: int| 0 <= j < i ==> entries[j].0 != key,
    ensures
        key_index(entries, key) == Some(i),
    decreases i,
{
    if i > 0 {
        lemma_key_index_at(entries.drop_first(), key, i - 1);
    }
}

pub proof fn lemma_key_index_none<V>(entries: Seq<(Seq<char>, V)>, key: Seq<char>)
    requires
        forall|j: int| 0 <= j < entries.len() ==> entries[j].0 != key,
    ensures
        key_index(entries, key) is None,
    decreases entries.len(),
{
    if entries.len() > 0 {
        lemma_key_index_none(entries.drop_first(), key);
    }
}

fn add_to_group_exec(entries: &mut Vec<(String, Vec<String>)>, key: String, val: String)
    ensures
        group_views(final(entries)@) == add_to_group(group_views(old(entries)@), key@, val@),
{
    match group_index(entries, key.as_str()) {
        Some(i) => {
            proof { lemma_key_index(group_views(entries@), key@); }
            let ghost o = entries@;
            let (k, mut list) = entries.remove(i);
            let ghost l0 = list@;
            list.push(val);
            entries.insert(i, (k, list));
            proof {
                lemma_str_views_push(l0, val);
                assert(group_views(entries@) =~= add_to_group(group_views(o), key@, val@));
            }
        },
        None => {
            let ghost o = entries@;
            let list = vec![val];
            entries.push((key, list));
            proof {
                assert(str_views(list@) =~= seq![val@]);
                assert(group_views(entries@) =~= add_to_group(group_views(o), key@, val@));
            }
        },
    }
}

/// For every canonical PCI address that some VM holds, the names of the
/// VMs holding it.
#[verifier::spinoff_prover]
#[verifier::rlimit(30)]
pub fn get_gpu_assignment_summary(all_vms: &Vec<VmInfo>) -> (r: Vec<(String, Vec<String>)>)
    ensures
        group_views(r@) == assignment_summary(vm_views(all_vms@)),
{
    let mut summary: Vec<(String, Vec<String>)> = Vec::new();
    let mut i: usize = 0;
    assert(vm_views(all_vms@).take(0) =~= Seq::<VmInfoView>::empty());
    assert(group_views(summary@) =~= Seq::<(Seq<char>, Seq<Seq<char>>)>::empty());
    while i < all_vms.len()
        invariant
            i <= all_vms.len(),
            group_views(summary@) == assignment_summary(vm_views(all_vms@).take(i as int)),
        decreases all_vms.len() - i,
    {
        let vm = &all_vms[i];
        assert(vm_views(all_vms@).take(i + 1).drop_last() =~= vm_views(all_vms@).take(i as int));
        assert(vm_views(all_vms@).take(i + 1).last() == vm@);
        let ghost base = group_views(summary@);
        let mut k: usize = 0;
        assert(str_views(vm.assigned_gpus@).take(0) =~= Seq::<Seq<char>>::empty());
        while k < vm.assigned_gpus.len()
            invariant
                k <= vm.assigned_gpus.len(),
                group_views(summary@) == add_vm_gpus(base, vm.name@, str_views(vm.assigned_gpus@).take(k as int)),
            decreases vm.assigned_gpus.len() - k,
        {
            assert(str_views(vm.assigned_gpus@).take(k + 1).drop_last() =~= str_views(vm.assigned_gpus@).take(k as int));
            assert(str_views(vm.assigned_gpus@).take(k + 1).last() == vm.assigned_gpus@[k as int]@);
            let n = normalize_pci_address(vm.assigned_gpus[k].as_str());
            add_to_group_exec(&mut summary, n, vm.name.clone());
            k = k + 1;
        }
        assert(str_views(vm.assigned_gpus@).take(vm.assigned_gpus.len() as int) =~= str_views(vm.assigned_gpus@));
        i = i + 1;
    }
    assert(vm_views(all_vms@).take(all_vms.len() as int) =~= vm_views(all_vms@));
    summary
}


// ---------------------------------------------------------------------
// Domains found only as XML files
// ---------------------------------------------------------------------

pub open spec fn pair_views(v: Seq<(String, String)>) -> Seq<(Seq<char>, Seq<char>)> {
    v.map_values(|e: (String, String)| (e.0@, e.1@))
}

pub open spec fn names_of(vms: Seq<VmInfoView>) -> Seq<Seq<char>> {
    vms.map_values(|v: VmInfoView| v.name)
}

/// The VMs defined by XML files (path, contents) whose name neither the
/// listing (`known`) nor an earlier file has: each shut off, with id `-`
/// and its file as definition.
pub open spec fn unregistered_fold(known: Seq<Seq<char>>, files: Seq<(Seq<char>, Seq<char>)>) -> Seq<VmInfoView>
    decreases files.len(),
{
    if files.len() == 0 {
        Seq::empty()
    } else {
        let r = unregistered_fold(known, files.drop_last());
        match xml_vm_name_from(lines(files.last().1)) {
            Some(n) => if known.contains(n) || names_of(r).contains(n) {
                r
            } else {
                r.push(VmInfoView {
                    id: "-"@,
                    name: n,
                    state: VmStateView::ShutOff,
                    assigned_gpus: Seq::empty(),
                    xml_path: Some(files.last().0),
                })
            },
            None => r,
        }
    }
}

fn has_name(vms: &Vec<VmInfo>, name: &String) -> (r: bool)
    ensures
        r == names_of(vm_views(vms@)).contains(name@),
{
    let mut i: usize = 0;
    while i < vms.len()
        invariant
            i <= vms.len(),
            forall|j: int| 0 <= j < i ==> names_of(vm_views(vms@))[j] != name@,
        decreases vms.len() - i,
    {
        if vms[i].name == *name {
            assert(names_of(vm_views(vms@))[i as int] == name@);
            return true;
        }
        i = i + 1;
    }
    false
}

/// The VMs that XML definition files (path, contents) describe and that
/// the `virsh` listing `listed` lacks, in file order, each name once.
pub fn find_unregistered_vms(listed: &Vec<VmInfo>, xml_files: &Vec<(String, String)>) -> (r: Vec<VmInfo>)
    ensures
        vm_views(r@) == unregistered_fold(names_of(vm_views(listed@)), pair_views(xml_files@)),
{
    let mut out: Vec<VmInfo> = Vec::new();
    let mut i: usize = 0;
    let ghost known = names_of(vm_views(listed@));
    assert(pair_views(xml_files@).take(0) =~= Seq::<(Seq<char>, Seq<char>)>::empty());
    while i < xml_files.len()
        invariant
            i <= xml_files.len(),
            known == names_of(vm_views(listed@)),
            vm_views(out@) == unregistered_fold(known, pair_views(xml_files@).take(i as int)),
        decreases xml_files.len() - i,
    {
        assert(pair_views(xml_files@).take(i + 1).drop_last() =~= pair_views(xml_files@).take(i as int));
        assert(pair_views(xml_files@).take(i + 1).last() == (xml_files@[i as int].0@, xml_files@[i as int].1@));
        let (path, content) = &xml_files[i];
        match extract_vm_name_from_xml(content.as_str()) {
            Some(n) => {
                if !has_name(listed, &n) && !has_name(&out, &n) {
                    let vm = VmInfo {
                        id: "-".to_string(),
                        name: n,
                        state: VmState::ShutOff,
                        assigned_gpus: Vec::new(),
                        xml_path: Some(path.clone()),
                    };
                    assert(str_views(vm.assigned_gpus@) =~= Seq::<Seq<char>>::empty());
                    let ghost o = out@;
                    out.push(vm);
                    assert(vm_views(out@) =~= vm_views(o).push(vm@));
                }
            },
            None => {},
        }
        i = i + 1;
    }
    assert(pair_views(xml_files@).take(xml_files.len() as int) =~= pair_views(xml_files@));
    out
}

// ---------------------------------------------------------------------
// Hostdev XML
// ---------------------------------------------------------------------

/// The parts of a PCI address read as hexadecimal numbers (0 where one is not).
pub open spec fn hex_or_zero(s: Seq<char>, max: nat) -> nat {
    match parse_uint(s, 16, max) {
        Some(x) => x,
        None => 0,
    }
}

/// The `<hostdev>` element that passes the device at `pci_address`
/// through, with a `<rom>` element for a (sanitized) VBIOS file; empty
/// where the address does not have four parts.
pub open spec fn hostdev_xml(pci_address: Seq<char>, rom: Option<Seq<char>>) -> Seq<char> {
    let p = pci_parts(pci_address);
    if p.len() != 4 {
        Seq::empty()
    } else {
        "<hostdev mode='subsystem' type='pci' managed='yes'>\n  <source>\n    <address domain='0x"@
            + hex_pad(hex_or_zero(p[0], 0xffff), 4) + "' bus='0x"@ + hex_pad(hex_or_zero(p[1], 0xff), 2)
            + "' slot='0x"@ + hex_pad(hex_or_zero(p[2], 0xff), 2) + "' function='0x"@
            + hex_pad(hex_or_zero(p[3], 0xff), 2) + "'/>\n  </source>"@
            + (match rom {
                Some(r) => "\n      <rom bar='on' file='"@ + r + "'/>"@,
                None => Seq::empty(),
            })
            + "\n</hostdev>"@
    }
}

fn hex_or_zero_exec(v: &Vec<char>, max: u64, w: usize) -> (r: Vec<char>)
    requires
        max <= 0xffff,
    ensures
        r@ == hex_pad(hex_or_zero(v@, max as nat), w as nat),
{
    let x = match parse_uint_exec(v, 16, max) {
        Some(x) => x,
        None => 0,
    };
    hex_pad_exec(x, w)
}

/// The `<hostdev>` element for the device at `pci_address`, naming the
/// VBIOS file `rom_path` (already sanitized) where there is one.
pub fn generate_hostdev_xml(pci_address: &str, rom_path: Option<&str>) -> (r: String)
    ensures
        r@ == hostdev_xml(pci_address@, match rom_path { Some(p) => Some(p@), None => None }),
{
    let a = chars_of(pci_address);
    let seps = chars_of(":.");
    let p = split_by_exec(&a, &seps);
    if p.len() != 4 {
        return String::new();
    }
    assert(views(p@)[0] == p@[0]@ && views(p@)[1] == p@[1]@ && views(p@)[2] == p@[2]@ && views(p@)[3] == p@[3]@);
    let mut out = chars_of("<hostdev mode='subsystem' type='pci' managed='yes'>\n  <source>\n    <address domain='0x");
    let d = hex_or_zero_exec(&p[0], 0xffff, 4);
    extend(&mut out, &d);
    extend_str(&mut out, "' bus='0x");
    let b = hex_or_zero_exec(&p[1], 0xff, 2);
    extend(&mut out, &b);
    extend_str(&mut out, "' slot='0x");
    let s = hex_or_zero_exec(&p[2], 0xff, 2);
    extend(&mut out, &s);
    extend_str(&mut out, "' function='0x");
    let f = hex_or_zero_exec(&p[3], 0xff, 2);
    extend(&mut out, &f);
    extend_str(&mut out, "'/>\n  </source>");
    let ghost before_rom = out@;
    match rom_path {
        Some(rp) => {
            extend_str(&mut out, "\n      <rom bar='on' file='");
            extend_str(&mut out, rp);
            extend_str(&mut out, "'/>");
        },
        None => {},
    }
    extend_str(&mut out, "\n</hostdev>");
    string_of(&out)
}


// ---------------------------------------------------------------------
// Editing domain XML
// ---------------------------------------------------------------------

/// `x` with the section from the first `open` to the next `close` (both
/// included) replaced by `with`; unchanged where there is no such section.
pub open spec fn replace_section(x: Seq<char>, open: Seq<char>, close: Seq<char>, with: Seq<char>) -> Seq<char> {
    match find(x, open) {
        Some(a) => match find(x.skip(a), close) {
            Some(e) => x.take(a) + with + x.skip(a + e + close.len()),
            None => x,
        },
        None => x,
    }
}

/// `x` with `ins` inserted before the first `marker`; unchanged where there is none.
pub open spec fn insert_before(x: Seq<char>, marker: Seq<char>, ins: Seq<char>) -> Seq<char> {
    match find(x, marker) {
        Some(p) => x.take(p) + ins + x.skip(p),
        None => x,
    }
}

fn replace_section_exec(x: &Vec<char>, open: &str, close: &str, with: &str) -> (r: Vec<char>)
    ensures
        r@ == replace_section(x@, open@, close@, with@),
{
    let o = chars_of(open);
    let c = chars_of(close);
    match find_exec(x, &o) {
        Some(a) => {
            proof { lemma_find_from_props(x@, open@, 0); }
            let tail = slice(x, a, x.len());
            assert(tail@ =~= x@.skip(a as int));
            match find_exec(&tail, &c) {
                Some(e) => {
                    proof { lemma_find_from_props(tail@, close@, 0); }
                    assert(a + e + c.len() <= x.len());
                    let end: usize = a + e + c.len();
                    let mut out = slice(x, 0, a);
                    extend_str(&mut out, with);
                    let rest = slice(x, end, x.len());
                    extend(&mut out, &rest);
                    assert(out@ =~= x@.take(a as int) + with@ + x@.skip(a + e + close@.len()));
                    out
                },
                None => slice(x, 0, x.len()),
            }
        },
        None => slice(x, 0, x.len()),
    }
}

fn insert_before_exec(x: &Vec<char>, marker: &str, ins: &str) -> (r: Vec<char>)
    ensures
        r@ == insert_before(x@, marker@, ins@),
{
    let m = chars_of(marker);
    match find_exec(x, &m) {
        Some(p) => {
            proof { lemma_find_from_props(x@, marker@, 0); }
            let mut out = slice(x, 0, p);
            extend_str(&mut out, ins);
            let rest = slice(x, p, x.len());
            extend(&mut out, &rest);
            assert(out@ =~= x@.take(p as int) + ins@ + x@.skip(p as int));
            out
        },
        None => slice(x, 0, x.len()),
    }
}

pub open spec fn kvm_hidden_block() -> Seq<char> {
    "<kvm>\n    <hidden state='on'/>\n  </kvm>"@
}

pub open spec fn hyperv_vendor_block() -> Seq<char> {
    "<hyperv>\n    <vendor_id state='on' value='1234567890ab'/>\n  </hyperv>"@
}

/// The domain XML once the kvm workaround (`<kvm><hidden state='on'/></kvm>`)
/// is there: unchanged where the definition has `<kvm>` and `hidden` text;
/// else the first kvm section replaced by the workaround where the
/// definition has `<kvm>` and `</kvm>`; else the workaround inserted before
/// `</features>`.
pub open spec fn nvidia_kvm_stage(xml: Seq<char>) -> Seq<char> {
    if contains(xml, "<kvm>"@) && contains(xml, "hidden"@) {
        xml
    } else if contains(xml, "<kvm>"@) && contains(xml, "</kvm>"@) {
        replace_section(xml, "<kvm>"@, "</kvm>"@, kvm_hidden_block())
    } else {
        insert_before(xml, "</features>"@, "  <kvm>\n    <hidden state='on'/>\n  </kvm>\n  "@)
    }
}

/// The domain XML once the hyperv workaround (a Hyper-V `vendor_id`) is
/// added to `x1`: the first hyperv section replaced by the workaround where
/// `x1` has `<hyperv>` and `</hyperv>` and no `vendor_id` text; else the
/// workaround inserted before `</features>`.
pub open spec fn nvidia_hyperv_stage(x1: Seq<char>) -> Seq<char> {
    if contains(x1, "<hyperv>"@) && contains(x1, "</hyperv>"@) && !contains(x1, "vendor_id"@) {
        replace_section(x1, "<hyperv>"@, "</hyperv>"@, hyperv_vendor_block())
    } else {
        insert_before(x1, "</features>"@,
            "  <hyperv>\n    <vendor_id state='on' value='1234567890ab'/>\n  </hyperv>\n  "@)
    }
}

/// The domain XML with the workarounds that NVIDIA drivers need in a VM
/// (`<kvm><hidden state='on'/></kvm>` and a Hyper-V `vendor_id`): `None`
/// where both are already present, an error where there is no
/// `<features>` section.
pub open spec fn nvidia_features_xml(xml: Seq<char>) -> Result<Option<Seq<char>>, Seq<char>> {
    let has_hyperv_vendor = contains(xml, "vendor_id"@) && contains(xml, "hyperv"@);
    let has_kvm_hidden = contains(xml, "<kvm>"@) && contains(xml, "hidden"@);
    if has_hyperv_vendor && has_kvm_hidden {
        Ok(None)
    } else if !contains(xml, "<features>"@) || !contains(xml, "</features>"@) {
        Err("VM XML does not have a <features> section - cannot inject NVIDIA workarounds"@)
    } else {
        let x1 = nvidia_kvm_stage(xml);
        Ok(Some(if has_hyperv_vendor { x1 } else { nvidia_hyperv_stage(x1) }))
    }
}

/// The kvm section that `nvidia_features_xml` inserts.
pub open spec fn kvm_insert() -> Seq<char> {
    "  <kvm>\n    <hidden state='on'/>\n  </kvm>\n  "@
}

/// The hyperv section that `nvidia_features_xml` inserts.
pub open spec fn hyperv_insert() -> Seq<char> {
    "  <hyperv>\n    <vendor_id state='on' value='1234567890ab'/>\n  </hyperv>\n  "@
}

proof fn lemma_occurs_contains(s: Seq<char>, q: Seq<char>, j: int)
    requires
        occurs_at(s, q, j),
    ensures
        contains(s, q),
{
    lemma_find_from_props(s, q, 0);
}

/// Text that holds `q` still holds it with more text around it.
proof fn lemma_contains_middle(a: Seq<char>, m: Seq<char>, b: Seq<char>, q: Seq<char>, k: int)
    requires
        occurs_at(m, q, k),
    ensures
        contains(a + m + b, q),
{
    let r = a + m + b;
    assert(r.subrange(a.len() + k, a.len() + k + q.len()) =~= m.subrange(k, k + q.len()));
    lemma_occurs_contains(r, q, a.len() + k);
}

/// Inserting text before a `<` keeps every pattern that has no `<` after
/// its first character.
proof fn lemma_insert_keeps(x: Seq<char>, p: int, ins: Seq<char>, q: Seq<char>)
    requires
        0 <= p < x.len(),
        x[p] == '<',
        q.len() >= 1,
        forall|i: int| 1 <= i < q.len() ==> q[i] != '<',
        contains(x, q),
    ensures
        contains(x.take(p) + ins + x.skip(p), q),
{
    lemma_find_from_props(x, q, 0);
    let j = find(x, q)->0;
    let r = x.take(p) + ins + x.skip(p);
    if j + q.len() <= p {
        assert(r.subrange(j, j + q.len()) =~= x.subrange(j, j + q.len()));
        lemma_occurs_contains(r, q, j);
    } else if j >= p {
        assert(r.subrange(j + ins.len(), j + ins.len() + q.len()) =~= x.subrange(j, j + q.len()));
        lemma_occurs_contains(r, q, j + ins.len());
    } else {
        assert(x.subrange(j, j + q.len())[p - j] == x[p]);
        assert(false);
    }
}

/// Where the first `open` in `x` starts, and where the first `close`
/// after it ends.
pub open spec fn section_bounds(x: Seq<char>, open: Seq<char>, close: Seq<char>) -> Option<(int, int)> {
    match find(x, open) {
        Some(a) => match find(x.skip(a), close) {
            Some(e) => Some((a, a + e + close.len())),
            None => None,
        },
        None => None,
    }
}

/// `q` occurs in `x` before index `a` or from index `b` on.
pub open spec fn occurs_outside(x: Seq<char>, a: int, b: int, q: Seq<char>) -> bool {
    contains(x.take(a), q) || contains(x.skip(b), q)
}

/// A text that occurs outside a span stays when the span is replaced.
proof fn lemma_outside_keeps(x: Seq<char>, a: int, b: int, w: Seq<char>, q: Seq<char>)
    requires
        0 <= a <= b <= x.len(),
        occurs_outside(x, a, b, q),
    ensures
        contains(x.take(a) + w + x.skip(b), q),
{
    let r = x.take(a) + w + x.skip(b);
    if contains(x.take(a), q) {
        lemma_find_from_props(x.take(a), q, 0);
        let j = find(x.take(a), q)->0;
        assert(r.subrange(j, j + q.len()) =~= x.take(a).subrange(j, j + q.len()));
        lemma_occurs_contains(r, q, j);
    } else {
        lemma_find_from_props(x.skip(b), q, 0);
        let j = find(x.skip(b), q)->0;
        let k = a + w.len() + j;
        assert(r.subrange(k, k + q.len()) =~= x.skip(b).subrange(j, j + q.len()));
        lemma_occurs_contains(r, q, k);
    }
}

/// The NVIDIA workarounds survive the rewrite of a definition: each section
/// that a workaround is put in place of is closed, and does not hold the
/// only copy of text that the check for the workarounds reads.
/// - Where the kvm section is replaced, it is closed, and where the
///   definition has `vendor_id` and `hyperv` text, both occur outside it.
/// - Where the hyperv section is then replaced, it is closed, and `<kvm>`
///   and `hidden` occur outside it.
/// - Where the hyperv workaround is inserted instead, `</features>` is
///   still there to insert it before.
pub open spec fn nvidia_workarounds_survive(xml: Seq<char>) -> bool {
    let has_hv = contains(xml, "vendor_id"@) && contains(xml, "hyperv"@);
    let has_kh = contains(xml, "<kvm>"@) && contains(xml, "hidden"@);
    let kvm_replaced = !has_kh && contains(xml, "<kvm>"@) && contains(xml, "</kvm>"@);
    let x1 = nvidia_kvm_stage(xml);
    let hv_replaced = contains(x1, "<hyperv>"@) && contains(x1, "</hyperv>"@) && !contains(x1, "vendor_id"@);
    &&& kvm_replaced ==> match section_bounds(xml, "<kvm>"@, "</kvm>"@) {
        Some((a, b)) => has_hv ==> occurs_outside(xml, a, b, "vendor_id"@) && occurs_outside(xml, a, b, "hyperv"@),
        None => false,
    }
    &&& !has_hv && hv_replaced ==> match section_bounds(x1, "<hyperv>"@, "</hyperv>"@) {
        Some((a, b)) => occurs_outside(x1, a, b, "<kvm>"@) && occurs_outside(x1, a, b, "hidden"@),
        None => false,
    }
    &&& !has_hv && !hv_replaced ==> contains(x1, "</features>"@)
}

/// Text found in a part of `x` is found in `x`.
proof fn lemma_contains_parts(x: Seq<char>, a: int, q: Seq<char>)
    requires
        0 <= a <= x.len(),
    ensures
        contains(x.take(a), q) ==> contains(x, q),
        contains(x.skip(a), q) ==> contains(x, q),
{
    if contains(x.take(a), q) {
        lemma_find_from_props(x.take(a), q, 0);
        let j = find(x.take(a), q)->0;
        assert(x.subrange(j, j + q.len()) =~= x.take(a).subrange(j, j + q.len()));
        lemma_occurs_contains(x, q, j);
    }
    if contains(x.skip(a), q) {
        lemma_find_from_props(x.skip(a), q, 0);
        let j = find(x.skip(a), q)->0;
        assert(x.subrange(a + j, a + j + q.len()) =~= x.skip(a).subrange(j, j + q.len()));
        lemma_occurs_contains(x, q, a + j);
    }
}

/// Putting `w` in place of a span adds no occurrence of `q` where `w` does
/// not hold `q`, `q` has the first character of `w` only at its start and
/// the last character of `w` only at its end, and neither side of the span
/// holds `q`.
proof fn lemma_no_new(x: Seq<char>, a: int, b: int, w: Seq<char>, q: Seq<char>)
    requires
        0 <= a <= b <= x.len(),
        q.len() >= 1,
        w.len() >= 1,
        !contains(x.take(a), q),
        !contains(x.skip(b), q),
        !contains(w, q),
        forall|i: int| 1 <= i < q.len() ==> q[i] != w[0],
        forall|i: int| 0 <= i < q.len() - 1 ==> q[i] != w[w.len() - 1],
    ensures
        !contains(x.take(a) + w + x.skip(b), q),
{
    let r = x.take(a) + w + x.skip(b);
    let n = w.len();
    lemma_find_from_props(r, q, 0);
    lemma_find_from_props(x.take(a), q, 0);
    lemma_find_from_props(x.skip(b), q, 0);
    lemma_find_from_props(w, q, 0);
    if contains(r, q) {
        let j = find(r, q)->0;
        if j + q.len() <= a {
            assert(x.take(a).subrange(j, j + q.len()) =~= r.subrange(j, j + q.len()));
            assert(occurs_at(x.take(a), q, j));
        } else if j >= a + n {
            assert(x.skip(b).subrange(j - a - n, j - a - n + q.len()) =~= r.subrange(j, j + q.len()));
            assert(occurs_at(x.skip(b), q, j - a - n));
        } else if j >= a && j + q.len() <= a + n {
            assert(w.subrange(j - a, j - a + q.len()) =~= r.subrange(j, j + q.len()));
            assert(occurs_at(w, q, j - a));
        } else if j < a {
            assert(r.subrange(j, j + q.len())[a - j] == r[a]);
        } else {
            assert(r.subrange(j, j + q.len())[a + n - 1 - j] == r[a + n - 1]);
        }
    }
}

/// Blocks that the NVIDIA rewrite puts in hold no text of the other
/// workaround.
proof fn lemma_blocks_apart()
    ensures
        !contains(kvm_hidden_block(), "vendor_id"@),
        !contains(kvm_hidden_block(), "hyperv"@),
        !contains(hyperv_vendor_block(), "<kvm>"@),
        !contains(hyperv_vendor_block(), "hidden"@),
        !contains(hyperv_insert(), "<kvm>"@),
        !contains(hyperv_insert(), "hidden"@),
{
    reveal_strlit("<kvm>");
    reveal_strlit("hidden");
    reveal_strlit("hyperv");
    reveal_strlit("vendor_id");
    reveal_strlit("<kvm>\n    <hidden state='on'/>\n  </kvm>");
    reveal_strlit("<hyperv>\n    <vendor_id state='on' value='1234567890ab'/>\n  </hyperv>");
    reveal_strlit("  <hyperv>\n    <vendor_id state='on' value='1234567890ab'/>\n  </hyperv>\n  ");
    let kb = kvm_hidden_block();
    let hb = hyperv_vendor_block();
    let hi = hyperv_insert();
    lemma_find_from_props(kb, "vendor_id"@, 0);
    if contains(kb, "vendor_id"@) {
        let k = find(kb, "vendor_id"@)->0;
        assert(kb.subrange(k, k + 9)[0] == kb[k]);
        assert(kb.subrange(k, k + 9)[1] == kb[k + 1]);
    }
    lemma_find_from_props(kb, "hyperv"@, 0);
    if contains(kb, "hyperv"@) {
        let k = find(kb, "hyperv"@)->0;
        assert(kb.subrange(k, k + 6)[0] == kb[k]);
        assert(kb.subrange(k, k + 6)[1] == kb[k + 1]);
    }
    lemma_find_from_props(hb, "<kvm>"@, 0);
    if contains(hb, "<kvm>"@) {
        let k = find(hb, "<kvm>"@)->0;
        assert(hb.subrange(k, k + 5)[0] == hb[k]);
        assert(hb.subrange(k, k + 5)[1] == hb[k + 1]);
    }
    lemma_find_from_props(hb, "hidden"@, 0);
    if contains(hb, "hidden"@) {
        let k = find(hb, "hidden"@)->0;
        assert(hb.subrange(k, k + 6)[0] == hb[k]);
        assert(hb.subrange(k, k + 6)[1] == hb[k + 1]);
    }
    lemma_find_from_props(hi, "<kvm>"@, 0);
    if contains(hi, "<kvm>"@) {
        let k = find(hi, "<kvm>"@)->0;
        assert(hi.subrange(k, k + 5)[0] == hi[k]);
        assert(hi.subrange(k, k + 5)[1] == hi[k + 1]);
    }
    lemma_find_from_props(hi, "hidden"@, 0);
    if contains(hi, "hidden"@) {
        let k = find(hi, "hidden"@)->0;
        assert(hi.subrange(k, k + 6)[0] == hi[k]);
        assert(hi.subrange(k, k + 6)[1] == hi[k + 1]);
    }
}

/// The hyperv stage adds no `<kvm>` or `hidden` text.
proof fn lemma_hyperv_stage_adds_no_kvm(x1: Seq<char>, q: Seq<char>)
    requires
        q == "<kvm>"@ || q == "hidden"@,
        !contains(x1, q),
    ensures
        !contains(nvidia_hyperv_stage(x1), q),
{
    let hyp_tag = "<hyperv>"@;
    let hyp_close = "</hyperv>"@;
    let feat = "</features>"@;
    reveal_strlit("<kvm>");
    reveal_strlit("hidden");
    reveal_strlit("<hyperv>");
    reveal_strlit("</hyperv>");
    reveal_strlit("</features>");
    reveal_strlit("<hyperv>\n    <vendor_id state='on' value='1234567890ab'/>\n  </hyperv>");
    reveal_strlit("  <hyperv>\n    <vendor_id state='on' value='1234567890ab'/>\n  </hyperv>\n  ");
    lemma_blocks_apart();
    let hb = hyperv_vendor_block();
    let hi = hyperv_insert();
    if contains(x1, hyp_tag) && contains(x1, hyp_close) && !contains(x1, "vendor_id"@) {
        if let Some((a, b)) = section_bounds(x1, hyp_tag, hyp_close) {
            lemma_find_from_props(x1, hyp_tag, 0);
            lemma_find_from_props(x1.skip(a), hyp_close, 0);
            lemma_contains_parts(x1, a, q);
            lemma_contains_parts(x1, b, q);
            lemma_no_new(x1, a, b, hb, q);
            assert(nvidia_hyperv_stage(x1) == x1.take(a) + hb + x1.skip(b));
        }
    } else if contains(x1, feat) {
        lemma_find_from_props(x1, feat, 0);
        let p = find(x1, feat)->0;
        lemma_contains_parts(x1, p, q);
        lemma_no_new(x1, p, p, hi, q);
    }
}

/// Ensuring the NVIDIA workarounds a second time leaves the definition as
/// the first time wrote it exactly where the workarounds survive that
/// rewrite (`nvidia_workarounds_survive`); elsewhere the second time finds
/// a workaround missing again.
pub proof fn lemma_nvidia_features_once(xml: Seq<char>)
    ensures
        (match nvidia_features_xml(xml) {
            Ok(Some(out)) => nvidia_features_xml(out) == Ok::<Option<Seq<char>>, Seq<char>>(None)
                <==> nvidia_workarounds_survive(xml),
            _ => true,
        }),
{
    let kvm = "<kvm>"@;
    let kvm_close = "</kvm>"@;
    let hid = "hidden"@;
    let hyp = "hyperv"@;
    let hyp_tag = "<hyperv>"@;
    let hyp_close = "</hyperv>"@;
    let vid = "vendor_id"@;
    let feat = "</features>"@;
    reveal_strlit("<kvm>");
    reveal_strlit("</kvm>");
    reveal_strlit("hidden");
    reveal_strlit("hyperv");
    reveal_strlit("<hyperv>");
    reveal_strlit("</hyperv>");
    reveal_strlit("vendor_id");
    reveal_strlit("</features>");
    reveal_strlit("<kvm>\n    <hidden state='on'/>\n  </kvm>");
    reveal_strlit("<hyperv>\n    <vendor_id state='on' value='1234567890ab'/>\n  </hyperv>");
    reveal_strlit("  <hyperv>\n    <vendor_id state='on' value='1234567890ab'/>\n  </hyperv>\n  ");
    lemma_blocks_apart();
    let kb = kvm_hidden_block();
    let hb = hyperv_vendor_block();
    let hi = hyperv_insert();
    assert(kb.subrange(0, 5) =~= kvm);
    assert(kb.subrange(11, 17) =~= hid);
    assert(hb.subrange(1, 7) =~= hyp);
    assert(hb.subrange(14, 23) =~= vid);
    assert(hi.subrange(3, 9) =~= hyp);
    assert(hi.subrange(16, 25) =~= vid);
    let has_hv = contains(xml, vid) && contains(xml, hyp);
    let has_kh = contains(xml, kvm) && contains(xml, hid);
    if !(has_hv && has_kh) && contains(xml, "<features>"@) && contains(xml, feat) {
        lemma_find_from_props(xml, feat, 0);
        let p = find(xml, feat)->0;
        let x1 = nvidia_kvm_stage(xml);
        let kvm_replaced = !has_kh && contains(xml, kvm) && contains(xml, kvm_close);
        // Whether the kvm stage already lost a workaround for good.
        let mut lost: bool = false;
        if has_kh {
        } else if kvm_replaced {
            lemma_find_from_props(xml, kvm, 0);
            let a = find(xml, kvm)->0;
            lemma_find_from_props(xml.skip(a), kvm_close, 0);
            if let Some((a, b)) = section_bounds(xml, kvm, kvm_close) {
                assert(x1 == xml.take(a) + kb + xml.skip(b));
                lemma_contains_middle(xml.take(a), kb, xml.skip(b), kvm, 0);
                lemma_contains_middle(xml.take(a), kb, xml.skip(b), hid, 11);
                lemma_contains_parts(xml, a, vid);
                lemma_contains_parts(xml, b, vid);
                lemma_contains_parts(xml, a, hyp);
                lemma_contains_parts(xml, b, hyp);
                if occurs_outside(xml, a, b, vid) {
                    lemma_outside_keeps(xml, a, b, kb, vid);
                } else {
                    lemma_no_new(xml, a, b, kb, vid);
                }
                if occurs_outside(xml, a, b, hyp) {
                    lemma_outside_keeps(xml, a, b, kb, hyp);
                } else {
                    lemma_no_new(xml, a, b, kb, hyp);
                }
                if has_hv && !(occurs_outside(xml, a, b, vid) && occurs_outside(xml, a, b, hyp)) {
                    lost = true;
                }
            } else {
                // No `</kvm>` closes the kvm section: nothing is replaced and
                // no `hidden` text ever comes in.
                assert(x1 == xml);
                lost = true;
                if !has_hv {
                    lemma_hyperv_stage_adds_no_kvm(x1, hid);
                }
            }
        } else {
            assert(x1 == xml.take(p) + kvm_insert() + xml.skip(p));
            lemma_nvidia_kvm_inserted(xml, p);
        }
        if !lost {
            assert(contains(x1, kvm) && contains(x1, hid));
            assert(has_hv ==> contains(x1, vid) && contains(x1, hyp));
            assert(!has_hv ==> !(contains(x1, vid) && contains(x1, hyp)));
            assert(contains(x1, feat) || kvm_replaced);
            if !has_hv {
                if contains(x1, hyp_tag) && contains(x1, hyp_close) && !contains(x1, vid) {
                    lemma_find_from_props(x1, hyp_tag, 0);
                    let a = find(x1, hyp_tag)->0;
                    lemma_find_from_props(x1.skip(a), hyp_close, 0);
                    if let Some((a, b)) = section_bounds(x1, hyp_tag, hyp_close) {
                        let x2 = x1.take(a) + hb + x1.skip(b);
                        assert(nvidia_hyperv_stage(x1) == x2);
                        lemma_contains_middle(x1.take(a), hb, x1.skip(b), hyp, 1);
                        lemma_contains_middle(x1.take(a), hb, x1.skip(b), vid, 14);
                        lemma_contains_parts(x1, a, kvm);
                        lemma_contains_parts(x1, b, kvm);
                        lemma_contains_parts(x1, a, hid);
                        lemma_contains_parts(x1, b, hid);
                        if occurs_outside(x1, a, b, kvm) {
                            lemma_outside_keeps(x1, a, b, hb, kvm);
                        } else {
                            lemma_no_new(x1, a, b, hb, kvm);
                        }
                        if occurs_outside(x1, a, b, hid) {
                            lemma_outside_keeps(x1, a, b, hb, hid);
                        } else {
                            lemma_no_new(x1, a, b, hb, hid);
                        }
                    } else {
                        assert(nvidia_hyperv_stage(x1) == x1);
                    }
                } else if contains(x1, feat) {
                    lemma_find_from_props(x1, feat, 0);
                    let p1 = find(x1, feat)->0;
                    assert(x1.subrange(p1, p1 + feat.len())[0] == x1[p1]);
                    lemma_contains_middle(x1.take(p1), hi, x1.skip(p1), hyp, 3);
                    lemma_contains_middle(x1.take(p1), hi, x1.skip(p1), vid, 16);
                    lemma_insert_keeps(x1, p1, hi, kvm);
                    lemma_insert_keeps(x1, p1, hi, hid);
                } else {
                    assert(nvidia_hyperv_stage(x1) == x1);
                }
            }
        }
    }
}

/// What inserting the kvm workaround before `</features>` keeps.
proof fn lemma_nvidia_kvm_inserted(xml: Seq<char>, p: int)
    requires
        find(xml, "</features>"@) == Some(p),
    ensures
        ({
            let x1 = xml.take(p) + kvm_insert() + xml.skip(p);
            &&& contains(x1, "<kvm>"@)
            &&& contains(x1, "hidden"@)
            &&& contains(x1, "</features>"@)
            &&& contains(xml, "vendor_id"@) <==> contains(x1, "vendor_id"@)
            &&& contains(xml, "hyperv"@) <==> contains(x1, "hyperv"@)
        }),
{
    let kvm = "<kvm>"@;
    let hid = "hidden"@;
    let feat = "</features>"@;
    reveal_strlit("<kvm>");
    reveal_strlit("hidden");
    reveal_strlit("hyperv");
    reveal_strlit("vendor_id");
    reveal_strlit("</features>");
    reveal_strlit("  <kvm>\n    <hidden state='on'/>\n  </kvm>\n  ");
    lemma_find_from_props(xml, feat, 0);
    assert(xml.subrange(p, p + feat.len())[0] == xml[p]);
    let ki = kvm_insert();
    let x1 = xml.take(p) + ki + xml.skip(p);
    assert(ki.subrange(2, 7) =~= kvm);
    assert(ki.subrange(13, 19) =~= hid);
    lemma_contains_middle(xml.take(p), ki, xml.skip(p), kvm, 2);
    lemma_contains_middle(xml.take(p), ki, xml.skip(p), hid, 13);
    assert(x1.subrange(p + ki.len(), p + ki.len() + feat.len()) =~= xml.subrange(p, p + feat.len()));
    lemma_occurs_contains(x1, feat, p + ki.len());
    lemma_contains_parts(xml, p, "vendor_id"@);
    lemma_contains_parts(xml, p, "hyperv"@);
    if contains(xml, "vendor_id"@) {
        lemma_insert_keeps(xml, p, ki, "vendor_id"@);
    } else {
        lemma_insert_lacks(ki, "vendor_id"@);
        lemma_no_new(xml, p, p, ki, "vendor_id"@);
    }
    if contains(xml, "hyperv"@) {
        lemma_insert_keeps(xml, p, ki, "hyperv"@);
    } else {
        lemma_insert_lacks(ki, "hyperv"@);
        lemma_no_new(xml, p, p, ki, "hyperv"@);
    }
}

/// The inserted kvm workaround holds no text of the hyperv one.
proof fn lemma_insert_lacks(ki: Seq<char>, q: Seq<char>)
    requires
        ki == kvm_insert(),
        q == "vendor_id"@ || q == "hyperv"@,
    ensures
        !contains(ki, q),
{
    reveal_strlit("hyperv");
    reveal_strlit("vendor_id");
    reveal_strlit("  <kvm>\n    <hidden state='on'/>\n  </kvm>\n  ");
    lemma_find_from_props(ki, q, 0);
    if contains(ki, q) {
        let k = find(ki, q)->0;
        assert(ki.subrange(k, k + q.len())[0] == ki[k]);
        assert(ki.subrange(k, k + q.len())[1] == ki[k + 1]);
    }
}

/// Adds the NVIDIA workarounds to a domain XML (see `nvidia_features_xml`).
pub fn add_nvidia_features(xml: &str) -> (r: Result<Option<String>, String>)
    ensures
        (match r { Ok(Some(s)) => Ok(Some(s@)), Ok(None) => Ok(None), Err(e) => Err(e@) })
            == nvidia_features_xml(xml@),
{
    let x = chars_of(xml);
    let has_hyperv_vendor = contains_str(&x, "vendor_id") && contains_str(&x, "hyperv");
    let has_kvm_hidden = contains_str(&x, "<kvm>") && contains_str(&x, "hidden");
    if has_hyperv_vendor && has_kvm_hidden {
        return Ok(None);
    }
    if !contains_str(&x, "<features>") || !contains_str(&x, "</features>") {
        return Err("VM XML does not have a <features> section - cannot inject NVIDIA workarounds".to_string());
    }
    let x1 = if has_kvm_hidden {
        slice(&x, 0, x.len())
    } else if contains_str(&x, "<kvm>") && contains_str(&x, "</kvm>") {
        replace_section_exec(&x, "<kvm>", "</kvm>", "<kvm>\n    <hidden state='on'/>\n  </kvm>")
    } else {
        insert_before_exec(&x, "</features>", "  <kvm>\n    <hidden state='on'/>\n  </kvm>\n  ")
    };
    assert(x@.subrange(0, x@.len() as int) =~= x@);
    let x2 = if has_hyperv_vendor {
        x1
    } else if contains_str(&x1, "<hyperv>") && contains_str(&x1, "</hyperv>") && !contains_str(&x1, "vendor_id") {
        replace_section_exec(&x1, "<hyperv>", "</hyperv>",
            "<hyperv>\n    <vendor_id state='on' value='1234567890ab'/>\n  </hyperv>")
    } else {
        insert_before_exec(&x1, "</features>",
            "  <hyperv>\n    <vendor_id state='on' value='1234567890ab'/>\n  </hyperv>\n  ")
    };
    Ok(Some(string_of(&x2)))
}

/// The first line that contains `pat`.
pub open spec fn first_line_with(ls: Seq<Seq<char>>, pat: Seq<char>) -> Option<Seq<char>>
    decreases ls.len(),
{
    if ls.len() == 0 {
        None
    } else if contains(ls[0], pat) {
        Some(ls[0])
    } else {
        first_line_with(ls.drop_first(), pat)
    }
}

/// Scan state for hostdev blocks of trimmed lines: inside a block, the
/// block so far, and whether a completed block matched.
pub open spec fn dup_step(st: (bool, Seq<char>, bool), line: Seq<char>, keys: Seq<Seq<char>>) -> (bool, Seq<char>, bool) {
    if st.2 {
        st
    } else {
        let t = trim(line);
        let st1 = if starts_with(t, "<hostdev"@) { (true, Seq::<char>::empty(), false) } else { st };
        if st1.0 {
            let block = st1.1 + t;
            if t == "</hostdev>"@ {
                if contains(block, keys[0]) && contains(block, keys[1]) && contains(block, keys[2]) && contains(block, keys[3]) {
                    (st1.0, block, true)
                } else {
                    (false, block, false)
                }
            } else {
                (true, block, false)
            }
        } else {
            st1
        }
    }
}

pub open spec fn dup_fold(ls: Seq<Seq<char>>, keys: Seq<Seq<char>>) -> (bool, Seq<char>, bool)
    decreases ls.len(),
{
    if ls.len() == 0 {
        (false, Seq::empty(), false)
    } else {
        dup_step(dup_fold(ls.drop_last(), keys), ls.last(), keys)
    }
}

/// The attribute values (domain, bus, slot, function) of the hostdev's
/// `<address domain=` line, where it has one with all four.
pub open spec fn hostdev_address_attrs(hostdev: Seq<char>) -> Option<Seq<Seq<char>>> {
    match first_line_with(lines(hostdev), "<address domain="@) {
        Some(l) => match (xml_attr(l, "domain"@), xml_attr(l, "bus"@), xml_attr(l, "slot"@), xml_attr(l, "function"@)) {
            (Some(d), Some(b), Some(s), Some(f)) => Some(seq![d, b, s, f]),
            _ => None,
        },
        None => None,
    }
}

/// The `attr='value'` texts a hostdev block must hold to match `vals`.
pub open spec fn match_keys(vals: Seq<Seq<char>>) -> Seq<Seq<char>> {
    seq![
        "domain='"@ + vals[0] + "'"@,
        "bus='"@ + vals[1] + "'"@,
        "slot='"@ + vals[2] + "'"@,
        "function='"@ + vals[3] + "'"@,
    ]
}

/// The domain XML with `hostdev` inserted before `</devices>`: an error
/// where a `<hostdev>` block of the XML already holds the device's
/// address, or where there is no `</devices>`.
pub open spec fn injected_xml(content: Seq<char>, hostdev: Seq<char>) -> Result<Seq<char>, Seq<char>> {
    let dup = match hostdev_address_attrs(hostdev) {
        Some(vals) => dup_fold(lines(content), match_keys(vals)).2,
        None => false,
    };
    if dup {
        let vals = hostdev_address_attrs(hostdev)->0;
        Err("Device with address domain="@ + vals[0] + " bus="@ + vals[1] + " slot="@ + vals[2]
            + " func="@ + vals[3] + " already exists in this VM's XML"@)
    } else {
        match find(content, "</devices>"@) {
            Some(pos) => Ok(content.take(pos) + "    "@ + hostdev + "\n</devices>"@
                + content.skip(pos + "</devices>"@.len())),
            None => Err("Could not find </devices> in VM XML"@),
        }
    }
}

fn first_line_with_exec(ls: &Vec<Vec<char>>, pat: &str) -> (r: Option<usize>)
    ensures
        r matches Some(i) ==> i < ls.len() && first_line_with(views(ls@), pat@) == Some(ls@[i as int]@),
        r is None ==> first_line_with(views(ls@), pat@) is None,
{
    let p = chars_of(pat);
    let mut i: usize = 0;
    assert(views(ls@).skip(0) =~= views(ls@));
    while i < ls.len()
        invariant
            i <= ls.len(),
            p@ == pat@,
            first_line_with(views(ls@), pat@) == first_line_with(views(ls@).skip(i as int), pat@),
        decreases ls.len() - i,
    {
        assert(views(ls@).skip(i as int)[0] == ls@[i as int]@);
        assert(views(ls@).skip(i as int).drop_first() =~= views(ls@).skip(i + 1));
        if contains_exec(&ls[i], &p) {
            return Some(i);
        }
        i = i + 1;
    }
    None
}

fn hostdev_address_attrs_exec(hostdev: &str) -> (r: Option<Vec<Vec<char>>>)
    ensures
        (match r { Some(v) => Some(views(v@)), None => None }) == hostdev_address_attrs(hostdev@),
        r matches Some(v) ==> v@.len() == 4,
{
    let hv = chars_of(hostdev);
    let ls = lines_exec(&hv);
    match first_line_with_exec(&ls, "<address domain=") {
        Some(i) => {
            let l = &ls[i];
            match (xml_attr_chars(l, "domain"), xml_attr_chars(l, "bus"), xml_attr_chars(l, "slot"),
                xml_attr_chars(l, "function")) {
                (Some(d), Some(b), Some(s), Some(f)) => {
                    let v = vec![d, b, s, f];
                    assert(views(v@) =~= seq![v@[0]@, v@[1]@, v@[2]@, v@[3]@]);
                    Some(v)
                },
                _ => None,
            }
        },
        None => None,
    }
}

fn key_text(name: &str, val: &Vec<char>) -> (r: Vec<char>)
    ensures
        r@ == name@ + val@ + "'"@,
{
    let mut k = chars_of(name);
    extend(&mut k, val);
    extend_str(&mut k, "'");
    k
}

/// Inserts a hostdev element into a domain XML (see `injected_xml`).
pub fn inject_hostdev(content: &str, hostdev_xml: &str) -> (r: Result<String, String>)
    ensures
        (match r { Ok(s) => Ok(s@), Err(e) => Err(e@) }) == injected_xml(content@, hostdev_xml@),
{
    let cv = chars_of(content);
    let ls = lines_exec(&cv);
    let attrs = hostdev_address_attrs_exec(hostdev_xml);
    let mut dup = false;
    match &attrs {
        Some(vals) => {
            let keys = vec![
                key_text("domain='", &vals[0]), key_text("bus='", &vals[1]),
                key_text("slot='", &vals[2]), key_text("function='", &vals[3]),
            ];
            let ghost kv = match_keys(views(vals@));
            assert(views(keys@) =~= kv);
            let mut in_hostdev = false;
            let mut block: Vec<char> = Vec::new();
            let mut i: usize = 0;
            assert(views(ls@).take(0) =~= Seq::<Seq<char>>::empty());
            while i < ls.len()
                invariant
                    i <= ls.len(),
                    views(keys@) == kv,
                    keys@.len() == 4,
                    !dup ==> (in_hostdev, block@, false) == dup_fold(views(ls@).take(i as int), kv),
                    dup ==> dup_fold(views(ls@).take(i as int), kv).2,
                decreases ls.len() - i,
            {
                assert(views(ls@).take(i + 1).drop_last() =~= views(ls@).take(i as int));
                assert(views(ls@).take(i + 1).last() == ls@[i as int]@);
                if !dup {
                    let t = trim_exec(&ls[i]);
                    if starts_with_str(&t, "<hostdev") {
                        in_hostdev = true;
                        block = Vec::new();
                    }
                    if in_hostdev {
                        extend(&mut block, &t);
                        if eq_str(&t, "</hostdev>") {
                            if contains_exec(&block, &keys[0]) && contains_exec(&block, &keys[1])
                                && contains_exec(&block, &keys[2]) && contains_exec(&block, &keys[3]) {
                                dup = true;
                            }
                            in_hostdev = false;
                        }
                    }
                }
                i = i + 1;
            }
            assert(views(ls@).take(ls.len() as int) =~= views(ls@));
            if dup {
                let mut e = chars_of("Device with address domain=");
                extend(&mut e, &vals[0]);
                extend_str(&mut e, " bus=");
                extend(&mut e, &vals[1]);
                extend_str(&mut e, " slot=");
                extend(&mut e, &vals[2]);
                extend_str(&mut e, " func=");
                extend(&mut e, &vals[3]);
                extend_str(&mut e, " already exists in this VM's XML");
                return Err(string_of(&e));
            }
        },
        None => {},
    }
    let marker = chars_of("</devices>");
    match find_exec(&cv, &marker) {
        Some(pos) => {
            proof { lemma_find_from_props(cv@, "</devices>"@, 0); }
            let mut out = slice(&cv, 0, pos);
            extend_str(&mut out, "    ");
            extend_str(&mut out, hostdev_xml);
            extend_str(&mut out, "\n</devices>");
            let rest = slice(&cv, pos + marker.len(), cv.len());
            extend(&mut out, &rest);
            Ok(string_of(&out))
        },
        None => Err("Could not find </devices> in VM XML".to_string()),
    }
}


/// Scan state for removing hostdev blocks: inside a block, the block so
/// far (lines with their line feeds), the text kept, and whether a block
/// matched (and was left out).
pub open spec fn remove_step(st: (bool, Seq<char>, Seq<char>, bool), line: Seq<char>, keys: Seq<Seq<char>>) -> (bool, Seq<char>, Seq<char>, bool) {
    let t = trim(line);
    let st1 = if starts_with(t, "<hostdev"@) { (true, Seq::<char>::empty(), st.2, st.3) } else { st };
    if st1.0 {
        let block = st1.1 + line + "\n"@;
        if t == "</hostdev>"@ {
            if contains(block, keys[0]) && contains(block, keys[1]) && contains(block, keys[2]) && contains(block, keys[3]) {
                (false, Seq::empty(), st1.2, true)
            } else {
                (false, Seq::empty(), st1.2 + block, st1.3)
            }
        } else {
            (true, block, st1.2, st1.3)
        }
    } else {
        (st1.0, st1.1, st1.2 + line + "\n"@, st1.3)
    }
}

pub open spec fn remove_fold(ls: Seq<Seq<char>>, keys: Seq<Seq<char>>) -> (bool, Seq<char>, Seq<char>, bool)
    decreases ls.len(),
{
    if ls.len() == 0 {
        (false, Seq::empty(), Seq::empty(), false)
    } else {
        remove_step(remove_fold(ls.drop_last(), keys), ls.last(), keys)
    }
}

/// The `attr='0x…'` texts that identify the device at a four-part
/// address in a hostdev block, as `generate_hostdev_xml` writes them.
pub open spec fn hex_keys(p: Seq<Seq<char>>) -> Seq<Seq<char>> {
    match_keys(seq![
        "0x"@ + hex_pad(hex_or_zero(p[0], 0xffff), 4),
        "0x"@ + hex_pad(hex_or_zero(p[1], 0xff), 2),
        "0x"@ + hex_pad(hex_or_zero(p[2], 0xff), 2),
        "0x"@ + hex_pad(hex_or_zero(p[3], 0xff), 2),
    ])
}

/// The domain XML without the `<hostdev>` blocks that hold the device at
/// `pci_address`, that is, whose `domain`, `bus`, `slot` and `function`
/// attributes carry its values (each line kept with a line feed, the end
/// trimmed): an error where the address does not have four parts or no
/// block holds it.
pub open spec fn removed_xml(content: Seq<char>, pci_address: Seq<char>, xml_path: Seq<char>) -> Result<Seq<char>, Seq<char>> {
    let p = pci_parts(pci_address);
    if p.len() != 4 {
        Err("Invalid PCI address: "@ + pci_address)
    } else {
        let st = remove_fold(lines(content), hex_keys(p));
        if !st.3 {
            Err("GPU "@ + pci_address + " not found in "@ + xml_path)
        } else {
            Ok(trim_end(st.2))
        }
    }
}

/// `<attr>='0x<value in hex>'`.
fn hex_key(attr: &str, v: &Vec<char>, max: u64, w: usize) -> (r: Vec<char>)
    requires
        max <= 0xffff,
    ensures
        r@ == attr@ + "='0x"@ + hex_pad(hex_or_zero(v@, max as nat), w as nat) + "'"@,
{
    let mut k = chars_of(attr);
    extend_str(&mut k, "='0x");
    let h = hex_or_zero_exec(v, max, w);
    extend(&mut k, &h);
    extend_str(&mut k, "'");
    k
}

/// Removes the hostdev blocks of a device from a domain XML (see `removed_xml`).
#[verifier::spinoff_prover]
#[verifier::rlimit(40)]
pub fn remove_hostdev(content: &str, pci_address: &str, xml_path: &str) -> (r: Result<String, String>)
    ensures
        (match r { Ok(s) => Ok(s@), Err(e) => Err(e@) }) == removed_xml(content@, pci_address@, xml_path@),
{
    let a = chars_of(pci_address);
    let seps = chars_of(":.");
    let p = split_by_exec(&a, &seps);
    if p.len() != 4 {
        let mut e = chars_of("Invalid PCI address: ");
        extend_str(&mut e, pci_address);
        return Err(string_of(&e));
    }
    assert(views(p@)[0] == p@[0]@ && views(p@)[1] == p@[1]@ && views(p@)[2] == p@[2]@ && views(p@)[3] == p@[3]@);
    let keys = vec![
        hex_key("domain", &p[0], 0xffff, 4), hex_key("bus", &p[1], 0xff, 2), hex_key("slot", &p[2], 0xff, 2),
        hex_key("function", &p[3], 0xff, 2),
    ];
    let ghost kv = hex_keys(views(p@));
    proof {
        reveal_strlit("domain");
        reveal_strlit("bus");
        reveal_strlit("slot");
        reveal_strlit("function");
        reveal_strlit("='0x");
        reveal_strlit("'");
        reveal_strlit("domain='");
        reveal_strlit("bus='");
        reveal_strlit("slot='");
        reveal_strlit("function='");
        reveal_strlit("0x");
    }
    assert(views(keys@)[0] =~= kv[0]);
    assert(views(keys@)[1] =~= kv[1]);
    assert(views(keys@)[2] =~= kv[2]);
    assert(views(keys@)[3] =~= kv[3]);
    assert(views(keys@) =~= kv);
    let cv = chars_of(content);
    let ls = lines_exec(&cv);
    let mut in_hostdev = false;
    let mut block: Vec<char> = Vec::new();
    let mut out: Vec<char> = Vec::new();
    let mut found = false;
    let mut i: usize = 0;
    assert(views(ls@).take(0) =~= Seq::<Seq<char>>::empty());
    while i < ls.len()
        invariant
            i <= ls.len(),
            views(keys@) == kv,
            keys@.len() == 4,
            (in_hostdev, block@, out@, found) == remove_fold(views(ls@).take(i as int), kv),
        decreases ls.len() - i,
    {
        assert(views(ls@).take(i + 1).drop_last() =~= views(ls@).take(i as int));
        assert(views(ls@).take(i + 1).last() == ls@[i as int]@);
        let line = &ls[i];
        let t = trim_exec(line);
        if starts_with_str(&t, "<hostdev") {
            in_hostdev = true;
            block = Vec::new();
        }
        if in_hostdev {
            extend(&mut block, line);
            extend_str(&mut block, "\n");
            if eq_str(&t, "</hostdev>") {
                in_hostdev = false;
                if contains_exec(&block, &keys[0]) && contains_exec(&block, &keys[1])
                    && contains_exec(&block, &keys[2]) && contains_exec(&block, &keys[3]) {
                    found = true;
                } else {
                    extend(&mut out, &block);
                }
                block = Vec::new();
            }
        } else {
            extend(&mut out, line);
            extend_str(&mut out, "\n");
        }
        i = i + 1;
    }
    assert(views(ls@).take(ls.len() as int) =~= views(ls@));
    if !found {
        let mut e = chars_of("GPU ");
        extend_str(&mut e, pci_address);
        extend_str(&mut e, " not found in ");
        extend_str(&mut e, xml_path);
        return Err(string_of(&e));
    }
    let trimmed = trim_end_exec(&out);
    Ok(string_of(&trimmed))
}

} // verus!
