//! The state of a microVM as a snapshot holds it.

use std::collections::BTreeMap;
use vstd::prelude::*;
use vstd::string::*;

use crate::mmds::json::{self, json_null, json_parse, json_write};
use crate::snapshot::error::SnapshotError;

verus! {

/// Most vCPUs that a microVM has.
pub const MAX_VCPUS: usize = 32;

/// The general-purpose registers of a vCPU.
#[derive(Clone, Debug, PartialEq, Eq)]
pub struct GpRegs {
    /// X0 to X30.
    pub x: [u64; 31],
    pub sp: u64,
    pub pc: u64,
    pub pstate: u64,
}

impl Default for GpRegs {
    fn default() -> (r: Self)
        ensures
            gp_cleared(r),
    {
        GpRegs { x: [0u64; 31], sp: 0, pc: 0, pstate: 0 }
    }
}

/// All general-purpose registers are zero.
pub open spec fn gp_cleared(r: GpRegs) -> bool {
    (forall|i: int| 0 <= i < 31 ==> #[trigger] r.x[i] == 0) && r.sp == 0 && r.pc == 0 && r.pstate
        == 0
}

/// The floating-point registers of a vCPU.
#[derive(Clone, Debug, PartialEq, Eq)]
pub struct FpSimdRegs {
    /// V0 to V31, each as its low and its high half.
    pub v: [[u64; 2]; 32],
    pub fpsr: u64,
    pub fpcr: u64,
}

impl Default for FpSimdRegs {
    fn default() -> (r: Self)
        ensures
            fp_cleared(r),
    {
        FpSimdRegs { v: [[0u64; 2]; 32], fpsr: 0, fpcr: 0 }
    }
}

/// All floating-point registers are zero.
pub open spec fn fp_cleared(r: FpSimdRegs) -> bool {
    (forall|i: int, j: int| 0 <= i < 32 && 0 <= j < 2 ==> #[trigger] r.v[i][j] == 0) && r.fpsr == 0
        && r.fpcr == 0
}

/// The power state of a vCPU.
#[derive(Clone, Copy, Debug, PartialEq, Eq, Structural)]
pub enum PsciVcpuState {
    On,
    Off,
    OnPending,
}

impl Default for PsciVcpuState {
    fn default() -> (s: Self)
        ensures
            s == PsciVcpuState::Off,
    {
        PsciVcpuState::Off
    }
}

/// The state of a vCPU.
#[derive(Clone, Debug, PartialEq, Eq)]
pub struct VcpuState {
    pub mpidr: u64,
    pub regs: GpRegs,
    pub fp_regs: FpSimdRegs,
    /// System registers by their encoded key.
    pub sys_regs: BTreeMap<u64, u64>,
    pub psci_state: PsciVcpuState,
}

impl VcpuState {
    /// A vCPU with all registers cleared.
    pub fn new(mpidr: u64) -> (s: Self)
        ensures
            s.mpidr == mpidr,
            gp_cleared(s.regs),
            fp_cleared(s.fp_regs),
            s.sys_regs@ == Map::<u64, u64>::empty(),
            s.psci_state == PsciVcpuState::Off,
    {
        VcpuState {
            mpidr,
            regs: GpRegs::default(),
            fp_regs: FpSimdRegs::default(),
            sys_regs: BTreeMap::new(),
            psci_state: PsciVcpuState::Off,
        }
    }
}

/// The state of the interrupt controller, as opaque bytes with their length.
#[derive(Clone, Debug, PartialEq, Eq)]
pub struct GicState {
    pub len: u64,
    pub bytes: Vec<u8>,
}

impl GicState {
    /// The state made of `bytes`.
    pub fn from_bytes(bytes: Vec<u8>) -> (s: Self)
        ensures
            s.bytes@ == bytes@,
            s.len == bytes@.len(),
    {
        let len: u64 = bytes.len() as u64;
        GicState { len, bytes }
    }
}

impl Default for GicState {
    fn default() -> (s: Self)
        ensures
            s.len == 0,
            s.bytes@.len() == 0,
    {
        GicState { len: 0, bytes: Vec::new() }
    }
}

/// The state of the metadata service.
#[derive(Clone, Debug, PartialEq, Eq)]
pub struct MmdsState {
    /// The data as JSON text; empty stands for null.
    pub data_json: String,
    /// Lifetime of session tokens, if they are in use.
    pub token_ttl_seconds: Option<u32>,
}

impl MmdsState {
    /// The state with `value` as data.
    pub fn with_data(value: &serde_json::Value, token_ttl_seconds: Option<u32>) -> (r: Result<
        Self,
        serde_json::Error,
    >)
        ensures
            r is Ok,
            r->Ok_0.data_json@ == json::json_text(json::json_tree(*value)),
            r->Ok_0.token_ttl_seconds == token_ttl_seconds,
    {
        match json_write(value) {
            Ok(data_json) => Ok(MmdsState { data_json, token_ttl_seconds }),
            Err(e) => Err(e),
        }
    }

    /// The data as a value.
    pub fn data_value(&self) -> (r: Result<serde_json::Value, serde_json::Error>)
        ensures
            match r {
                Ok(v) => state_data(self.data_json@) == Some(json::json_tree(v)),
                Err(_) => state_data(self.data_json@) is None,
            },
    {
        if self.data_json.as_str().is_empty() {
            return Ok(json_null());
        }
        json_parse(self.data_json.as_str())
    }
}

/// What the data text of a state holds: nothing written down is null.
pub open spec fn state_data(text: Seq<char>) -> Option<json::JsonTree> {
    if text.len() == 0 {
        Some(json::JsonTree::Null)
    } else {
        json::json_parsed(text)
    }
}

impl Default for MmdsState {
    fn default() -> (s: Self)
        ensures
            s.data_json@.len() == 0,
            s.token_ttl_seconds is None,
    {
        MmdsState { data_json: String::new(), token_ttl_seconds: None }
    }
}

/// What the microVM was made of.
#[derive(Clone, Debug, PartialEq, Eq)]
pub struct VmInfo {
    pub mem_size_mib: u64,
    /// Never set on this architecture.
    pub smt: bool,
    pub cpu_template: String,
    pub kernel_image_path: String,
    pub initrd_path: Option<String>,
    pub boot_args: String,
    /// Whether dirty pages were tracked.
    pub track_dirty_pages: bool,
}

impl Default for VmInfo {
    fn default() -> (i: Self)
        ensures
            i.mem_size_mib == 0,
            !i.smt,
            i.cpu_template@.len() == 0,
            i.kernel_image_path@.len() == 0,
            i.initrd_path is None,
            i.boot_args@.len() == 0,
            !i.track_dirty_pages,
    {
        VmInfo {
            mem_size_mib: 0,
            smt: false,
            cpu_template: String::new(),
            kernel_image_path: String::new(),
            initrd_path: None,
            boot_args: String::new(),
            track_dirty_pages: false,
        }
    }
}

/// The state of one device.
#[derive(Clone, Debug, PartialEq, Eq)]
pub struct DeviceState {
    pub kind: String,
    pub id: String,
    pub mmio_slot: u32,
    pub blob: Vec<u8>,
}

/// The states of all devices, in order of their slots and names.
#[derive(Clone, Debug, PartialEq, Eq)]
pub struct DeviceStates {
    pub devices: Vec<DeviceState>,
}

impl Default for DeviceStates {
    fn default() -> (s: Self)
        ensures
            s.devices@.len() == 0,
    {
        DeviceStates { devices: Vec::new() }
    }
}

/// Whether `a` comes before `b` or equals it, byte by byte.
pub open spec fn bytes_le(a: Seq<u8>, b: Seq<u8>) -> bool
    decreases a.len(),
{
    if a.len() == 0 {
        true
    } else if b.len() == 0 {
        false
    } else if a[0] != b[0] {
        a[0] < b[0]
    } else {
        bytes_le(a.drop_first(), b.drop_first())
    }
}

/// The order of devices: by slot, then by the bytes of the name.
pub open spec fn device_le(a: DeviceState, b: DeviceState) -> bool {
    if a.mmio_slot != b.mmio_slot {
        a.mmio_slot < b.mmio_slot
    } else {
        bytes_le(vstd::utf8::encode_utf8(a.id@), vstd::utf8::encode_utf8(b.id@))
    }
}

/// Where `x` goes into `s`: behind everything at the end that does not come after it.
pub open spec fn place_for(s: Seq<DeviceState>, x: DeviceState) -> int
    decreases s.len(),
{
    if s.len() == 0 || device_le(s.last(), x) {
        s.len() as int
    } else {
        place_for(s.drop_last(), x)
    }
}

/// The devices in order; devices that are equal in order stay as they came.
pub open spec fn sorted_devices(s: Seq<DeviceState>) -> Seq<DeviceState>
    decreases s.len(),
{
    if s.len() == 0 {
        s
    } else {
        let rest = sorted_devices(s.drop_last());
        rest.insert(place_for(rest, s.last()), s.last())
    }
}

/// Whether `a` comes before `b` or equals it, byte by byte.
fn bytes_at_most(a: &[u8], b: &[u8]) -> (r: bool)
    ensures
        r == bytes_le(a@, b@),
{
    let mut i: usize = 0;
    assert(a@.skip(0) =~= a@ && b@.skip(0) =~= b@);
    while i < a.len() && i < b.len()
        invariant
            i <= a@.len(),
            i <= b@.len(),
            bytes_le(a@.skip(i as int), b@.skip(i as int)) == bytes_le(a@, b@),
        decreases a@.len() - i,
    {
        if a[i] != b[i] {
            return a[i] < b[i];
        }
        assert(a@.skip(i as int).drop_first() =~= a@.skip(i + 1));
        assert(b@.skip(i as int).drop_first() =~= b@.skip(i + 1));
        i = i + 1;
    }
    i == a.len()
}

fn device_at_most(a: &DeviceState, b: &DeviceState) -> (r: bool)
    ensures
        r == device_le(*a, *b),
{
    if a.mmio_slot != b.mmio_slot {
        a.mmio_slot < b.mmio_slot
    } else {
        bytes_at_most(a.id.as_str().as_bytes(), b.id.as_str().as_bytes())
    }
}

impl DeviceStates {
    /// The states of `devices`, put in order.
    pub fn from_devices(devices: Vec<DeviceState>) -> (s: Self)
        ensures
            s.devices@ == sorted_devices(devices@),
    {
        let mut rest: Vec<DeviceState> = devices;
        let ghost all = rest@;
        let mut sorted: Vec<DeviceState> = Vec::new();
        let ghost mut n: int = 0;
        assert(all.skip(0) =~= all);
        assert(all.take(0) =~= Seq::<DeviceState>::empty());
        while rest.len() > 0
            invariant
                0 <= n <= all.len(),
                rest@ == all.skip(n),
                sorted@ == sorted_devices(all.take(n)),
            decreases rest@.len(),
        {
            let x: DeviceState = rest.remove(0);
            let ghost before = sorted@;
            assert(x == all[n]);
            assert(all.take(n + 1).drop_last() =~= all.take(n));
            let mut i: usize = sorted.len();
            assert(before.take(i as int) =~= before);
            while i > 0 && !device_at_most(&sorted[i - 1], &x)
                invariant
                    i <= sorted@.len(),
                    sorted@ == before,
                    place_for(before.take(i as int), x) == place_for(before, x),
                decreases i,
            {
                assert(before.take(i as int).drop_last() =~= before.take(i - 1));
                i = i - 1;
            }
            sorted.insert(i, x);
            proof {
                n = n + 1;
                assert(rest@ =~= all.skip(n));
            }
        }
        assert(all.take(n) =~= all);
        DeviceStates { devices: sorted }
    }
}

proof fn bytes_le_total(a: Seq<u8>, b: Seq<u8>)
    ensures
        bytes_le(a, b) || bytes_le(b, a),
    decreases a.len(),
{
    if a.len() > 0 && b.len() > 0 {
        bytes_le_total(a.drop_first(), b.drop_first());
    }
}

proof fn bytes_le_transitive(a: Seq<u8>, b: Seq<u8>, c: Seq<u8>)
    requires
        bytes_le(a, b),
        bytes_le(b, c),
    ensures
        bytes_le(a, c),
    decreases a.len(),
{
    if a.len() > 0 && b.len() > 0 && c.len() > 0 && a[0] == b[0] && b[0] == c[0] {
        bytes_le_transitive(a.drop_first(), b.drop_first(), c.drop_first());
    }
}

proof fn device_le_total(a: DeviceState, b: DeviceState)
    ensures
        device_le(a, b) || device_le(b, a),
{
    bytes_le_total(vstd::utf8::encode_utf8(a.id@), vstd::utf8::encode_utf8(b.id@));
}

proof fn device_le_transitive(a: DeviceState, b: DeviceState, c: DeviceState)
    requires
        device_le(a, b),
        device_le(b, c),
    ensures
        device_le(a, c),
{
    if a.mmio_slot == b.mmio_slot && b.mmio_slot == c.mmio_slot {
        bytes_le_transitive(
            vstd::utf8::encode_utf8(a.id@),
            vstd::utf8::encode_utf8(b.id@),
            vstd::utf8::encode_utf8(c.id@),
        );
    }
}

/// Whether devices are in order.
pub open spec fn in_order(s: Seq<DeviceState>) -> bool {
    forall|i: int, j: int| 0 <= i < j < s.len() ==> device_le(#[trigger] s[i], #[trigger] s[j])
}

/// The place for a device splits an ordered sequence into what does not come after it
/// and what does.
proof fn place_splits(s: Seq<DeviceState>, x: DeviceState)
    requires
        in_order(s),
    ensures
        0 <= place_for(s, x) <= s.len(),
        forall|i: int| 0 <= i < place_for(s, x) ==> device_le(#[trigger] s[i], x),
        forall|i: int| place_for(s, x) <= i < s.len() ==> !device_le(#[trigger] s[i], x),
    decreases s.len(),
{
    if s.len() > 0 {
        if device_le(s.last(), x) {
            assert forall|i: int| 0 <= i < s.len() implies device_le(#[trigger] s[i], x) by {
                if i < s.len() - 1 {
                    device_le_transitive(s[i], s.last(), x);
                }
            }
        } else {
            let t = s.drop_last();
            assert forall|i: int, j: int| 0 <= i < j < t.len() implies device_le(
                #[trigger] t[i],
                #[trigger] t[j],
            ) by {
                assert(t[i] == s[i] && t[j] == s[j]);
            }
            place_splits(t, x);
            assert forall|i: int| 0 <= i < place_for(s, x) implies device_le(#[trigger] s[i], x) by {
                assert(t[i] == s[i]);
            }
            assert forall|i: int| place_for(s, x) <= i < s.len() implies !device_le(
                #[trigger] s[i],
                x,
            ) by {
                if i < t.len() {
                    assert(t[i] == s[i]);
                }
            }
        }
    }
}

/// Putting devices in order gives the same devices, in order.
pub proof fn sorted_devices_are_in_order(s: Seq<DeviceState>)
    ensures
        in_order(sorted_devices(s)),
        sorted_devices(s).to_multiset() == s.to_multiset(),
    decreases s.len(),
{
    broadcast use vstd::seq_lib::group_to_multiset_ensures;

    if s.len() > 0 {
        let rest = sorted_devices(s.drop_last());
        let x = s.last();
        sorted_devices_are_in_order(s.drop_last());
        place_splits(rest, x);
        let p = place_for(rest, x);
        let r = rest.insert(p, x);
        assert forall|i: int, j: int| 0 <= i < j < r.len() implies device_le(
            #[trigger] r[i],
            #[trigger] r[j],
        ) by {
            if i < p && j == p {
                assert(r[i] == rest[i]);
            } else if i == p {
                assert(r[j] == rest[j - 1]);
                device_le_total(x, rest[j - 1]);
            } else if i < p && j > p {
                assert(r[i] == rest[i] && r[j] == rest[j - 1]);
            } else if i < p {
                assert(r[i] == rest[i] && r[j] == rest[j]);
            } else {
                assert(r[i] == rest[i - 1] && r[j] == rest[j - 1]);
            }
        }
        assert(s =~= s.drop_last().push(x));
    }
}

/// Devices that are in order stay as they are.
pub proof fn ordered_devices_stay(s: Seq<DeviceState>)
    requires
        in_order(s),
    ensures
        sorted_devices(s) == s,
    decreases s.len(),
{
    if s.len() > 0 {
        let t = s.drop_last();
        assert forall|i: int, j: int| 0 <= i < j < t.len() implies device_le(
            #[trigger] t[i],
            #[trigger] t[j],
        ) by {
            assert(t[i] == s[i] && t[j] == s[j]);
        }
        ordered_devices_stay(t);
        if t.len() > 0 {
            assert(t.last() == s[s.len() - 2]);
            assert(device_le(s[s.len() - 2], s[s.len() - 1]));
        }
        assert(t.insert(t.len() as int, s.last()) =~= s);
    }
}

proof fn bytes_le_antisymmetric(a: Seq<u8>, b: Seq<u8>)
    requires
        bytes_le(a, b),
        bytes_le(b, a),
    ensures
        a == b,
    decreases a.len(),
{
    if a.len() > 0 && b.len() > 0 {
        bytes_le_antisymmetric(a.drop_first(), b.drop_first());
        assert(a =~= seq![a[0]] + a.drop_first());
        assert(b =~= seq![b[0]] + b.drop_first());
    }
    assert(a =~= b);
}

/// Whether two devices have the same slot and the same name.
pub open spec fn same_place(a: DeviceState, b: DeviceState) -> bool {
    a.mmio_slot == b.mmio_slot && a.id@ == b.id@
}

/// Devices that are equal in order have the same slot and the same name.
proof fn ties_have_one_place(a: DeviceState, b: DeviceState)
    ensures
        same_place(a, b) <==> device_le(a, b) && device_le(b, a),
{
    let x = vstd::utf8::encode_utf8(a.id@);
    let y = vstd::utf8::encode_utf8(b.id@);
    if same_place(a, b) {
        bytes_le_total(x, y);
    } else if a.mmio_slot == b.mmio_slot && bytes_le(x, y) && bytes_le(y, x) {
        bytes_le_antisymmetric(x, y);
        vstd::utf8::encode_utf8_decode_utf8(a.id@);
        vstd::utf8::encode_utf8_decode_utf8(b.id@);
    }
}

/// Accepts the devices with the slot and the name of `d`.
pub open spec fn placed_like(d: DeviceState) -> spec_fn(DeviceState) -> bool {
    |x: DeviceState| same_place(x, d)
}

proof fn nothing_accepted(s: Seq<DeviceState>, p: spec_fn(DeviceState) -> bool)
    requires
        forall|i: int| 0 <= i < s.len() ==> !p(#[trigger] s[i]),
    ensures
        s.filter(p).len() == 0,
    decreases s.len(),
{
    reveal(Seq::filter);
    if s.len() > 0 {
        let t = s.drop_last();
        assert forall|i: int| 0 <= i < t.len() implies !p(#[trigger] t[i]) by {
            assert(t[i] == s[i]);
        }
        nothing_accepted(t, p);
        assert(!p(s[s.len() - 1]));
    }
}

/// Devices with one slot and one name stay in the order in which they came.
pub proof fn equal_devices_keep_their_order(s: Seq<DeviceState>, d: DeviceState)
    ensures
        sorted_devices(s).filter(placed_like(d)) == s.filter(placed_like(d)),
    decreases s.len(),
{
    reveal(Seq::filter);
    if s.len() > 0 {
        let f = placed_like(d);
        let x = s.last();
        let rest = sorted_devices(s.drop_last());
        equal_devices_keep_their_order(s.drop_last(), d);
        sorted_devices_are_in_order(s.drop_last());
        place_splits(rest, x);
        let p = place_for(rest, x);
        let front = rest.take(p);
        let back = rest.skip(p);
        assert(rest =~= front + back);
        assert(rest.insert(p, x) =~= front.push(x) + back);
        Seq::filter_distributes_over_add(front, back, f);
        Seq::filter_distributes_over_add(front.push(x), back, f);
        assert(front.push(x).drop_last() =~= front);
        if f(x) {
            assert forall|i: int| 0 <= i < back.len() implies !f(#[trigger] back[i]) by {
                assert(back[i] == rest[p + i]);
                ties_have_one_place(back[i], x);
            }
            nothing_accepted(back, f);
            assert(rest.filter(f) =~= front.filter(f));
            assert(rest.insert(p, x).filter(f) =~= rest.filter(f).push(x));
        }
    }
}

/// Whether a slot and a name tell different devices apart.
pub open spec fn places_tell_apart(s: Seq<DeviceState>) -> bool {
    forall|a: DeviceState, b: DeviceState| #[trigger]
        s.contains(a) && #[trigger] s.contains(b) && same_place(a, b) ==> a == b
}

proof fn same_members(s: Seq<DeviceState>, t: Seq<DeviceState>, x: DeviceState)
    requires
        s.to_multiset() == t.to_multiset(),
    ensures
        s.contains(x) <==> t.contains(x),
{
    broadcast use vstd::seq_lib::group_to_multiset_ensures;

    assert(s.contains(x) <==> s.to_multiset().count(x) > 0);
    assert(t.contains(x) <==> t.to_multiset().count(x) > 0);
}

proof fn ordered_once(a: Seq<DeviceState>, b: Seq<DeviceState>)
    requires
        in_order(a),
        in_order(b),
        a.to_multiset() == b.to_multiset(),
        places_tell_apart(a),
    ensures
        a == b,
    decreases a.len(),
{
    broadcast use vstd::seq_lib::group_to_multiset_ensures;

    assert(a.len() == a.to_multiset().len());
    assert(b.len() == b.to_multiset().len());
    if a.len() > 0 {
        let x = a.last();
        let y = b.last();
        assert(a.contains(x) && b.contains(y)) by {
            assert(a[a.len() - 1] == x && b[b.len() - 1] == y);
        }
        same_members(a, b, x);
        same_members(a, b, y);
        let i = choose|i: int| 0 <= i < a.len() && a[i] == y;
        let j = choose|j: int| 0 <= j < b.len() && b[j] == x;
        ties_have_one_place(x, x);
        ties_have_one_place(y, y);
        assert(device_le(y, x)) by {
            if i < a.len() - 1 {
                assert(device_le(a[i], a[a.len() - 1]));
            }
        }
        assert(device_le(x, y)) by {
            if j < b.len() - 1 {
                assert(device_le(b[j], b[b.len() - 1]));
            }
        }
        ties_have_one_place(x, y);
        assert(x == y);
        let c = a.drop_last();
        let d = b.drop_last();
        assert(a =~= c.push(x) && b =~= d.push(x));
        assert(c.to_multiset() =~= a.to_multiset().remove(x));
        assert(d.to_multiset() =~= b.to_multiset().remove(x));
        assert forall|i: int, j: int| 0 <= i < j < c.len() implies device_le(
            #[trigger] c[i],
            #[trigger] c[j],
        ) by {
            assert(c[i] == a[i] && c[j] == a[j]);
        }
        assert forall|i: int, j: int| 0 <= i < j < d.len() implies device_le(
            #[trigger] d[i],
            #[trigger] d[j],
        ) by {
            assert(d[i] == b[i] && d[j] == b[j]);
        }
        assert forall|u: DeviceState, v: DeviceState| #[trigger]
            c.contains(u) && #[trigger] c.contains(v) && same_place(u, v) implies u == v by {
            let k = choose|k: int| 0 <= k < c.len() && c[k] == u;
            let l = choose|l: int| 0 <= l < c.len() && c[l] == v;
            assert(a[k] == u && a[l] == v);
            assert(a.contains(u) && a.contains(v));
        }
        ordered_once(c, d);
    }
    assert(a =~= b);
}

/// The order in which devices come does not count, as long as their slots and names tell
/// them apart.
pub proof fn order_of_arrival_does_not_count(s: Seq<DeviceState>, t: Seq<DeviceState>)
    requires
        s.to_multiset() == t.to_multiset(),
        places_tell_apart(s),
    ensures
        sorted_devices(s) == sorted_devices(t),
{
    sorted_devices_are_in_order(s);
    sorted_devices_are_in_order(t);
    let a = sorted_devices(s);
    assert forall|u: DeviceState, v: DeviceState| #[trigger]
        a.contains(u) && #[trigger] a.contains(v) && same_place(u, v) implies u == v by {
        same_members(a, s, u);
        same_members(a, s, v);
    }
    ordered_once(a, sorted_devices(t));
}

/// The state of a microVM.
#[derive(Clone, Debug, PartialEq)]
pub struct MicrovmState {
    pub vm_info: VmInfo,
    pub vcpu_states: Vec<VcpuState>,
    pub device_states: DeviceStates,
    pub gic_state: GicState,
    pub mmds_state: Option<MmdsState>,
}

impl Default for MicrovmState {
    fn default() -> (s: Self)
        ensures
            s.vcpu_states@.len() == 0,
            s.device_states.devices@.len() == 0,
            s.gic_state.bytes@.len() == 0,
            s.gic_state.len == 0,
            s.mmds_state is None,
            !s.vm_info.smt,
            !s.vm_info.track_dirty_pages,
            s.vm_info.mem_size_mib == 0,
    {
        MicrovmState {
            vm_info: VmInfo::default(),
            vcpu_states: Vec::new(),
            device_states: DeviceStates::default(),
            gic_state: GicState::default(),
            mmds_state: None,
        }
    }
}

/// Whether a state can have come from this monitor: one to the most vCPUs, no
/// multithreading, and an interrupt-controller state whose length is the one it says.
pub open spec fn is_compatible(s: MicrovmState) -> bool {
    &&& 1 <= s.vcpu_states@.len() <= MAX_VCPUS
    &&& !s.vm_info.smt
    &&& s.gic_state.bytes@.len() > 0
    &&& s.gic_state.bytes@.len() == if s.gic_state.len > usize::MAX {
        usize::MAX as int
    } else {
        s.gic_state.len as int
    }
}

impl MicrovmState {
    /// Refuses a state that cannot have come from this monitor.
    pub fn verify_compatible(&self) -> (r: Result<(), SnapshotError>)
        ensures
            match r {
                Ok(()) => is_compatible(*self),
                Err(SnapshotError::Incompatible) => !is_compatible(*self),
                Err(_) => false,
            },
            self.gic_state.len <= usize::MAX ==> (r is Ok <==> {
                &&& 1 <= self.vcpu_states@.len() <= 32
                &&& !self.vm_info.smt
                &&& self.gic_state.bytes@.len() > 0
                &&& self.gic_state.bytes@.len() == self.gic_state.len
            }),
    {
        if self.vcpu_states.len() == 0 || self.vcpu_states.len() > MAX_VCPUS {
            return Err(SnapshotError::Incompatible);
        }
        if self.vm_info.smt {
            return Err(SnapshotError::Incompatible);
        }
        if self.gic_state.bytes.len() == 0 {
            return Err(SnapshotError::Incompatible);
        }
        let said: usize = if self.gic_state.len > usize::MAX as u64 {
            usize::MAX
        } else {
            self.gic_state.len as usize
        };
        if said != self.gic_state.bytes.len() {
            return Err(SnapshotError::Incompatible);
        }
        Ok(())
    }
}

/// Compatibility depends on the number of vCPUs, multithreading and the state of the
/// interrupt controller alone: one to 32 vCPUs, no multithreading, and a state that is there
/// and as long as it says. (On a host whose lengths are too small to count what it says, the
/// largest of them stands for that.)
pub proof fn compatibility_is_about_vcpus_and_interrupts(s: MicrovmState)
    ensures
        s.gic_state.len <= usize::MAX ==> (is_compatible(s) <==> {
            &&& s.vcpu_states@.len() >= 1
            &&& s.vcpu_states@.len() <= 32
            &&& s.vm_info.smt == false
            &&& s.gic_state.bytes@.len() != 0
            &&& s.gic_state.bytes@.len() == s.gic_state.len
        }),
        s.gic_state.len > usize::MAX ==> (is_compatible(s) <==> {
            &&& s.vcpu_states@.len() >= 1
            &&& s.vcpu_states@.len() <= 32
            &&& s.vm_info.smt == false
            &&& s.gic_state.bytes@.len() == usize::MAX
        }),
{
}

/// Two states with as many vCPUs, the same multithreading and the same state of the
/// interrupt controller are both compatible or neither, whatever else they hold: metadata,
/// devices, boot settings, registers.
pub proof fn other_parts_do_not_decide_compatibility(a: MicrovmState, b: MicrovmState)
    requires
        a.vcpu_states@.len() == b.vcpu_states@.len(),
        a.vm_info.smt == b.vm_info.smt,
        a.gic_state.bytes@.len() == b.gic_state.bytes@.len(),
        a.gic_state.len == b.gic_state.len,
    ensures
        is_compatible(a) == is_compatible(b),
{
}

/// Devices are ordered by their slot; in one slot by the bytes of the name, of which the
/// first that differ decide, and a name comes before any that it begins.
pub proof fn devices_are_ordered_by_slot_then_name(a: DeviceState, b: DeviceState, k: int)
    ensures
        a.mmio_slot < b.mmio_slot ==> device_le(a, b) && !device_le(b, a),
        ({
            let x = vstd::utf8::encode_utf8(a.id@);
            let y = vstd::utf8::encode_utf8(b.id@);
            a.mmio_slot == b.mmio_slot && 0 <= k < x.len() && k < y.len() && x.take(k) == y.take(k)
                && x[k] < y[k] ==> device_le(a, b) && !device_le(b, a)
        }),
        ({
            let x = vstd::utf8::encode_utf8(a.id@);
            let y = vstd::utf8::encode_utf8(b.id@);
            a.mmio_slot == b.mmio_slot && x.is_prefix_of(y) ==> device_le(a, b)
        }),
{
    let x = vstd::utf8::encode_utf8(a.id@);
    let y = vstd::utf8::encode_utf8(b.id@);
    if a.mmio_slot == b.mmio_slot && 0 <= k < x.len() && k < y.len() && x.take(k) == y.take(k)
        && x[k] < y[k] {
        first_difference_decides(x, y, k);
    }
    if a.mmio_slot == b.mmio_slot && x.is_prefix_of(y) {
        prefixes_come_first(x, y);
    }
}

proof fn first_difference_decides(x: Seq<u8>, y: Seq<u8>, k: int)
    requires
        0 <= k < x.len(),
        k < y.len(),
        x.take(k) == y.take(k),
        x[k] < y[k],
    ensures
        bytes_le(x, y),
        !bytes_le(y, x),
    decreases k,
{
    if k > 0 {
        assert(x.take(k)[0] == x[0] && y.take(k)[0] == y[0]);
        assert(x.drop_first().take(k - 1) =~= x.take(k).drop_first());
        assert(y.drop_first().take(k - 1) =~= y.take(k).drop_first());
        first_difference_decides(x.drop_first(), y.drop_first(), k - 1);
    }
}

proof fn prefixes_come_first(x: Seq<u8>, y: Seq<u8>)
    requires
        x.is_prefix_of(y),
    ensures
        bytes_le(x, y),
    decreases x.len(),
{
    if x.len() > 0 {
        assert(x[0] == y.subrange(0, x.len() as int)[0]);
        assert(x.drop_first() =~= y.drop_first().subrange(0, x.len() - 1));
        prefixes_come_first(x.drop_first(), y.drop_first());
    }
}

/// Saved metadata without any text are null; with a text they are what it holds.
pub proof fn metadata_are_what_their_text_holds(text: Seq<char>)
    ensures
        text.len() == 0 ==> state_data(text) == Some(json::JsonTree::Null),
        text.len() > 0 ==> state_data(text) == json::json_parsed(text),
{
}

} // verus!
