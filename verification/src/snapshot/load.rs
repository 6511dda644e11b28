//! Reading a snapshot back, and describing one.

use vstd::prelude::*;
use vstd::string::*;
use vstd::utf8::*;

use crate::mmds::json::{
    self, json_bool, json_empty_object, json_insert, json_list, json_null, json_number,
    json_string,
};
use crate::paths::{self, find_last_dot, is_dots, part_start, trimmed_len};
use crate::snapshot::envelope::{self, snapshot_version, Snapshot, CRC_LEN};
use crate::snapshot::error::SnapshotError;
use crate::snapshot::state::{self, DeviceState, MicrovmState};
use crate::snapshot::version::{self, Version};
use crate::text::{self, push_bool, push_decimal, push_hex_padded};
use crate::wire::push_bytes;

verus! {

/// A state that was read back, with the version of its file.
#[derive(Debug)]
pub struct LoadedSnapshot {
    pub state: MicrovmState,
    pub source_version: Version,
}

/// Accepts a decoded state if it can have come from this monitor.
pub fn load(snapshot: Snapshot<MicrovmState>) -> (r: Result<LoadedSnapshot, SnapshotError>)
    ensures
        match r {
            Ok(l) => state::is_compatible(snapshot.data) && l.state == snapshot.data
                && l.source_version == snapshot.header.version,
            Err(SnapshotError::Incompatible) => !state::is_compatible(snapshot.data),
            Err(_) => false,
        },
{
    match snapshot.data.verify_compatible() {
        Ok(()) => Ok(
            LoadedSnapshot { state: snapshot.data, source_version: snapshot.header.version },
        ),
        Err(e) => Err(e),
    }
}

/// The encoded envelope of a file that is to be described: a wrong checksum does not
/// hide it, but is reported.
pub fn describe_frame(bytes: &[u8]) -> (r: Result<(&[u8], bool), SnapshotError>)
    ensures
        match r {
            Ok((body, true)) => envelope::frame_body(bytes@) == Ok::<Seq<u8>, envelope::FrameFault>(
                body@,
            ),
            Ok((body, false)) => envelope::frame_body(bytes@) == Err::<
                Seq<u8>,
                envelope::FrameFault,
            >(envelope::FrameFault::BadChecksum) && body@ == bytes@.subrange(
                0,
                bytes@.len() - CRC_LEN,
            ),
            Err(SnapshotError::SizeLimitExceeded { limit }) => envelope::frame_body(bytes@)
                == Err::<Seq<u8>, envelope::FrameFault>(envelope::FrameFault::TooLarge) && limit
                == envelope::SNAPSHOT_DESERIALIZATION_BYTES_LIMIT,
            Err(SnapshotError::TooShort) => envelope::frame_body(bytes@) == Err::<
                Seq<u8>,
                envelope::FrameFault,
            >(envelope::FrameFault::TooShort),
            Err(_) => false,
        },
{
    match Snapshot::<MicrovmState>::load_from_slice(bytes) {
        Ok(body) => Ok((body, true)),
        Err(SnapshotError::CrcMismatch) => Ok(
            (vstd::slice::slice_subrange(bytes, 0, bytes.len() - CRC_LEN), false),
        ),
        Err(e) => Err(e),
    }
}

/// One device of a description: its kind, its name and its slot.
#[derive(Debug)]
pub struct DeviceSummary {
    pub kind: String,
    pub id: String,
    pub mmio_slot: u32,
}

/// What a state file holds, for people and for programs.
#[derive(Debug)]
pub struct SnapshotDescription {
    /// The path as it is shown.
    pub state_path: String,
    pub magic: u64,
    pub version: Version,
    pub expected_version: Version,
    pub vcpu_count: usize,
    pub mem_size_mib: u64,
    pub track_dirty_pages: bool,
    pub devices: Vec<DeviceSummary>,
    pub mmds_present: bool,
    /// The path of the memory file that should go with it, as it is shown.
    pub inferred_memory_path: Option<String>,
    pub inferred_memory_exists: bool,
    pub inferred_memory_size: Option<u64>,
    pub crc_ok: bool,
}

/// Describes a decoded state file. `memory_path` is the path of the memory file that
/// should go with it, as it is shown, and `memory_size` its size, if it is there.
pub fn describe(
    snapshot: &Snapshot<MicrovmState>,
    crc_ok: bool,
    state_path: String,
    memory_path: Option<String>,
    memory_size: Option<u64>,
) -> (d: SnapshotDescription)
    ensures
        d.state_path == state_path,
        d.magic == snapshot.header.magic,
        d.version@ == snapshot.header.version@,
        d.expected_version@ == envelope::current_version(),
        d.vcpu_count == snapshot.data.vcpu_states@.len(),
        d.mem_size_mib == snapshot.data.vm_info.mem_size_mib,
        d.track_dirty_pages == snapshot.data.vm_info.track_dirty_pages,
        d.devices@.len() == snapshot.data.device_states.devices@.len(),
        forall|i: int|
            0 <= i < d.devices@.len() ==> summarises(
                #[trigger] d.devices@[i],
                snapshot.data.device_states.devices@[i],
            ),
        d.mmds_present == (snapshot.data.mmds_state is Some),
        d.inferred_memory_path == memory_path,
        d.inferred_memory_exists == (memory_path is Some && memory_size is Some),
        d.inferred_memory_size == if memory_path is Some {
            memory_size
        } else {
            None
        },
        d.crc_ok == crc_ok,
{
    let all: &Vec<DeviceState> = &snapshot.data.device_states.devices;
    let mut devices: Vec<DeviceSummary> = Vec::new();
    let mut i: usize = 0;
    while i < all.len()
        invariant
            i <= all@.len(),
            devices@.len() == i,
            forall|k: int| 0 <= k < i ==> summarises(#[trigger] devices@[k], all@[k]),
        decreases all@.len() - i,
    {
        devices.push(
            DeviceSummary {
                kind: all[i].kind.clone(),
                id: all[i].id.clone(),
                mmio_slot: all[i].mmio_slot,
            },
        );
        i = i + 1;
    }
    let size: Option<u64> = if memory_path.is_some() {
        memory_size
    } else {
        None
    };
    SnapshotDescription {
        state_path,
        magic: snapshot.header.magic,
        version: snapshot.header.version.duplicate(),
        expected_version: snapshot_version(),
        vcpu_count: snapshot.data.vcpu_states.len(),
        mem_size_mib: snapshot.data.vm_info.mem_size_mib,
        track_dirty_pages: snapshot.data.vm_info.track_dirty_pages,
        devices,
        mmds_present: snapshot.data.mmds_state.is_some(),
        inferred_memory_exists: size.is_some(),
        inferred_memory_path: memory_path,
        inferred_memory_size: size,
        crc_ok,
    }
}

/// Whether a summary is that of a device.
pub open spec fn summarises(s: DeviceSummary, d: DeviceState) -> bool {
    s.kind@ == d.kind@ && s.id@ == d.id@ && s.mmio_slot == d.mmio_slot
}

/// The line of one device.
pub open spec fn device_line(s: DeviceSummary) -> Seq<char> {
    "    - "@ + s.kind@ + ": "@ + s.id@ + " (slot "@ + text::decimal(s.mmio_slot as nat) + ")\n"@
}

/// The lines of the first `n` devices.
pub open spec fn device_lines(s: Seq<DeviceSummary>, n: int) -> Seq<char>
    decreases n,
{
    if n <= 0 {
        Seq::empty()
    } else {
        device_lines(s, n - 1) + device_line(s[n - 1])
    }
}

/// What is said of the memory file.
pub open spec fn memory_note(exists: bool, size: Option<u64>) -> Seq<char> {
    if !exists {
        "MISSING"@
    } else {
        match size {
            Some(n) => text::decimal(n as nat) + " bytes"@,
            None => "present"@,
        }
    }
}

/// The lines on the file itself.
pub open spec fn header_lines(d: SnapshotDescription) -> Seq<char> {
    "snapshot: "@ + d.state_path@ + "\n  magic:               0x"@ + text::hex_padded(
        d.magic as nat,
        16,
    ) + "\n  version:             "@ + version::version_text(d.version@) + "\n"@ + (
    if d.version@ != d.expected_version@ {
        "  expected (squib):    "@ + version::version_text(d.expected_version@) + "\n"@
    } else {
        Seq::empty()
    })
}

/// The lines on the machine, up to its devices.
pub open spec fn machine_lines(d: SnapshotDescription) -> Seq<char> {
    "  vcpu_count:          "@ + text::decimal(d.vcpu_count as nat)
        + "\n  mem_size_mib:        "@ + text::decimal(d.mem_size_mib as nat)
        + "\n  track_dirty_pages:   "@ + text::bool_text(d.track_dirty_pages)
        + "\n  devices:             "@ + text::decimal(d.devices@.len()) + "\n"@
}

/// The line on the memory file, if one is expected.
pub open spec fn memory_line(d: SnapshotDescription) -> Seq<char> {
    match d.inferred_memory_path {
        Some(p) => "  memory file:         "@ + p@ + " ("@ + memory_note(
            d.inferred_memory_exists,
            d.inferred_memory_size,
        ) + ")\n"@,
        None => Seq::empty(),
    }
}

/// The line on the checksum.
pub open spec fn crc_line(d: SnapshotDescription) -> Seq<char> {
    "  crc_ok:              "@ + (if d.crc_ok {
        "yes"@
    } else {
        "NO"@
    }) + "\n"@
}

/// The description for people.
pub open spec fn human_text(d: SnapshotDescription) -> Seq<char> {
    header_lines(d) + machine_lines(d) + device_lines(d.devices@, d.devices@.len() as int)
        + "  mmds_present:        "@ + text::bool_text(d.mmds_present) + "\n"@ + memory_line(d)
        + crc_line(d)
}

/// The description of one device for programs.
pub open spec fn device_json(s: DeviceSummary) -> json::JsonTree {
    json::JsonTree::Object(
        Map::empty().insert("kind"@, json::json_of_text(s.kind@)).insert(
            "id"@,
            json::json_of_text(s.id@),
        ).insert("mmio_slot"@, json::json_of_number(s.mmio_slot as u64)),
    )
}

/// A text or null.
pub open spec fn optional_text(s: Option<String>) -> json::JsonTree {
    match s {
        Some(t) => json::json_of_text(t@),
        None => json::JsonTree::Null,
    }
}

/// A number or null.
pub open spec fn optional_number(n: Option<u64>) -> json::JsonTree {
    match n {
        Some(x) => json::json_of_number(x),
        None => json::JsonTree::Null,
    }
}

/// The description for programs.
pub open spec fn description_json(d: SnapshotDescription) -> json::JsonTree {
    json::JsonTree::Object(
        Map::empty().insert("state_path"@, json::json_of_text(d.state_path@)).insert(
            "magic"@,
            json::json_of_text("0x"@ + text::hex_padded(d.magic as nat, 16)),
        ).insert("version"@, json::json_of_text(version::version_text(d.version@))).insert(
            "expected_version"@,
            json::json_of_text(version::version_text(d.expected_version@)),
        ).insert("vcpu_count"@, json::json_of_number(d.vcpu_count as u64)).insert(
            "mem_size_mib"@,
            json::json_of_number(d.mem_size_mib),
        ).insert("track_dirty_pages"@, json::json_of_bool(d.track_dirty_pages)).insert(
            "devices"@,
            json::json_of_list(Seq::new(d.devices@.len(), |i: int| device_json(d.devices@[i]))),
        ).insert("mmds_present"@, json::json_of_bool(d.mmds_present)).insert(
            "inferred_memory_path"@,
            optional_text(d.inferred_memory_path),
        ).insert("inferred_memory_exists"@, json::json_of_bool(d.inferred_memory_exists)).insert(
            "inferred_memory_size"@,
            optional_number(d.inferred_memory_size),
        ).insert("crc_ok"@, json::json_of_bool(d.crc_ok)),
    )
}

fn put(v: &mut serde_json::Value, key: &str, member: serde_json::Value)
    requires
        json::json_tree(*old(v)) is Object,
    ensures
        json::json_tree(*final(v)) == json::JsonTree::Object(
            json::json_tree(*old(v))->Object_0.insert(key@, json::json_tree(member)),
        ),
{
    json_insert(v, String::from_str(key), member);
}

fn version_string(v: &Version) -> (s: String)
    ensures
        s@ == version::version_text(v@),
{
    let mut s = String::new();
    v.push_text(&mut s);
    assert(s@ =~= version::version_text(v@));
    s
}

impl SnapshotDescription {
    /// The description for programs.
    pub fn to_json(&self) -> (v: serde_json::Value)
        ensures
            json::json_tree(v) == description_json(*self),
    {
        let mut magic = String::from_str("0x");
        push_hex_padded(&mut magic, self.magic, 16);
        let mut devices: Vec<serde_json::Value> = Vec::new();
        let mut i: usize = 0;
        while i < self.devices.len()
            invariant
                i <= self.devices@.len(),
                json::trees(devices@) =~= Seq::new(i as nat, |k: int| device_json(self.devices@[k])),
            decreases self.devices@.len() - i,
        {
            let d: &DeviceSummary = &self.devices[i];
            let mut o = json_empty_object();
            put(&mut o, "kind", json_string(d.kind.clone()));
            put(&mut o, "id", json_string(d.id.clone()));
            put(&mut o, "mmio_slot", json_number(d.mmio_slot as u64));
            let ghost so_far = json::trees(devices@);
            devices.push(o);
            assert(json::trees(devices@) =~= so_far.push(device_json(*d)));
            i = i + 1;
        }
        assert(json::trees(devices@) =~= Seq::new(
            self.devices@.len(),
            |k: int| device_json(self.devices@[k]),
        ));
        let mut v = json_empty_object();
        put(&mut v, "state_path", json_string(self.state_path.clone()));
        put(&mut v, "magic", json_string(magic));
        put(&mut v, "version", json_string(version_string(&self.version)));
        put(&mut v, "expected_version", json_string(version_string(&self.expected_version)));
        put(&mut v, "vcpu_count", json_number(self.vcpu_count as u64));
        put(&mut v, "mem_size_mib", json_number(self.mem_size_mib));
        put(&mut v, "track_dirty_pages", json_bool(self.track_dirty_pages));
        put(&mut v, "devices", json_list(devices));
        put(&mut v, "mmds_present", json_bool(self.mmds_present));
        let path = match &self.inferred_memory_path {
            Some(p) => json_string(p.clone()),
            None => json_null(),
        };
        put(&mut v, "inferred_memory_path", path);
        put(&mut v, "inferred_memory_exists", json_bool(self.inferred_memory_exists));
        let size = match self.inferred_memory_size {
            Some(n) => json_number(n),
            None => json_null(),
        };
        put(&mut v, "inferred_memory_size", size);
        put(&mut v, "crc_ok", json_bool(self.crc_ok));
        v
    }

    fn push_device_lines(&self, s: &mut String)
        ensures
            final(s)@ == old(s)@ + device_lines(self.devices@, self.devices@.len() as int),
    {
        let mut i: usize = 0;
        assert(s@ =~= old(s)@ + device_lines(self.devices@, 0));
        while i < self.devices.len()
            invariant
                i <= self.devices@.len(),
                s@ == old(s)@ + device_lines(self.devices@, i as int),
            decreases self.devices@.len() - i,
        {
            let ghost so_far = s@;
            let d: &DeviceSummary = &self.devices[i];
            s.append("    - ");
            s.append(d.kind.as_str());
            s.append(": ");
            s.append(d.id.as_str());
            s.append(" (slot ");
            push_decimal(s, d.mmio_slot as u64);
            s.append(")\n");
            assert(s@ =~= so_far + device_line(*d));
            assert(s@ =~= old(s)@ + device_lines(self.devices@, i + 1));
            i = i + 1;
        }
    }

    fn push_header_lines(&self, s: &mut String)
        ensures
            final(s)@ == old(s)@ + header_lines(*self),
    {
        s.append("snapshot: ");
        s.append(self.state_path.as_str());
        s.append("\n  magic:               0x");
        push_hex_padded(s, self.magic, 16);
        s.append("\n  version:             ");
        self.version.push_text(s);
        s.append("\n");
        if !self.version.same(&self.expected_version) {
            s.append("  expected (squib):    ");
            self.expected_version.push_text(s);
            s.append("\n");
        }
        assert(s@ =~= old(s)@ + header_lines(*self));
    }

    fn push_machine_lines(&self, s: &mut String)
        ensures
            final(s)@ == old(s)@ + machine_lines(*self),
    {
        s.append("  vcpu_count:          ");
        push_decimal(s, self.vcpu_count as u64);
        s.append("\n  mem_size_mib:        ");
        push_decimal(s, self.mem_size_mib);
        s.append("\n  track_dirty_pages:   ");
        push_bool(s, self.track_dirty_pages);
        s.append("\n  devices:             ");
        push_decimal(s, self.devices.len() as u64);
        s.append("\n");
        assert(s@ =~= old(s)@ + machine_lines(*self));
    }

    fn push_memory_line(&self, s: &mut String)
        ensures
            final(s)@ == old(s)@ + memory_line(*self),
    {
        if let Some(p) = &self.inferred_memory_path {
            s.append("  memory file:         ");
            s.append(p.as_str());
            s.append(" (");
            if !self.inferred_memory_exists {
                s.append("MISSING");
            } else {
                match self.inferred_memory_size {
                    Some(n) => {
                        push_decimal(s, n);
                        s.append(" bytes");
                    },
                    None => {
                        s.append("present");
                    },
                }
            }
            s.append(")\n");
        }
        assert(s@ =~= old(s)@ + memory_line(*self));
    }

    fn push_crc_line(&self, s: &mut String)
        ensures
            final(s)@ == old(s)@ + crc_line(*self),
    {
        s.append("  crc_ok:              ");
        if self.crc_ok {
            s.append("yes");
        } else {
            s.append("NO");
        }
        s.append("\n");
        assert(s@ =~= old(s)@ + crc_line(*self));
    }

    /// The description for people.
    pub fn human(&self) -> (s: String)
        ensures
            s@ == human_text(*self),
    {
        let mut s = String::new();
        self.push_header_lines(&mut s);
        self.push_machine_lines(&mut s);
        self.push_device_lines(&mut s);
        s.append("  mmds_present:        ");
        push_bool(&mut s, self.mmds_present);
        s.append("\n");
        self.push_memory_line(&mut s);
        self.push_crc_line(&mut s);
        assert(s@ =~= human_text(*self));
        s
    }
}

/// The path of the memory file that goes with a state file: the same path with the
/// extension `mem` in place of `snap`; none for another extension.
pub open spec fn memory_path_for(p: Seq<u8>) -> Option<Seq<u8>> {
    match paths::file_name(p) {
        None => None,
        Some(name) => match paths::last_dot(name) {
            Some(d) if d > 0 && name.skip(d + 1) == encode_utf8("snap"@) => {
                let t = paths::trimmed(p);
                Some(t.take(paths::last_part_start(t) + d) + encode_utf8(".mem"@))
            },
            _ => None,
        },
    }
}

/// Infers the path of the memory file from that of the state file.
pub fn infer_memory_path(state_path: &[u8]) -> (r: Option<Vec<u8>>)
    ensures
        match r {
            Some(p) => memory_path_for(state_path@) == Some(p@),
            None => memory_path_for(state_path@) is None,
        },
{
    let end: usize = trimmed_len(state_path);
    let start: usize = part_start(state_path, end);
    let name: &[u8] = vstd::slice::slice_subrange(state_path, start, end);
    let ghost t = paths::trimmed(state_path@);
    assert(t =~= state_path@.subrange(0, end as int));
    assert(name@ =~= paths::last_part(state_path@));
    if start == end || is_dots(name) {
        return None;
    }
    match find_last_dot(name) {
        None => None,
        Some(d) => {
            proof {
                paths::last_dot_bounds(name@);
                is_snap();
            }
            if d == 0 || name.len() - d != 5 || name[d + 1] != 115 || name[d + 2] != 110 || name[d
                + 3] != 97 || name[d + 4] != 112 {
                assert(d > 0 ==> name@.skip(d + 1) != encode_utf8("snap"@)) by {
                    if d > 0 && name@.skip(d + 1) == encode_utf8("snap"@) {
                        let e = name@.skip(d + 1);
                        assert(e.len() == 4);
                        assert(e[0] == name@[d + 1] && e[1] == name@[d + 2] && e[2] == name@[d + 3]
                            && e[3] == name@[d + 4]);
                    }
                }
                return None;
            }
            assert(name@.skip(d + 1) =~= encode_utf8("snap"@));
            let mut p: Vec<u8> = Vec::new();
            push_bytes(&mut p, vstd::slice::slice_subrange(state_path, 0, start + d));
            push_bytes(&mut p, ".mem".as_bytes());
            assert(p@ =~= memory_path_for(state_path@)->0);
            Some(p)
        },
    }
}

/// The bytes of the extension of a state file.
proof fn is_snap()
    ensures
        encode_utf8("snap"@) == seq![115u8, 110, 97, 112],
{
    reveal_strlit("snap");
    let s = "snap"@;
    assert(s =~= seq!['s', 'n', 'a', 'p']);
    is_ascii_chars_encode_utf8(s);
    assert(encode_utf8(s) =~= seq![115u8, 110, 97, 112]);
}

/// The bytes of the ending of a memory file.
proof fn is_mem()
    ensures
        encode_utf8(".mem"@) == seq![46u8, 109, 101, 109],
{
    reveal_strlit(".mem");
    let s = ".mem"@;
    assert(s =~= seq!['.', 'm', 'e', 'm']);
    is_ascii_chars_encode_utf8(s);
    assert(encode_utf8(s) =~= seq![46u8, 109, 101, 109]);
}

/// A state file `stem.snap`, in whatever directory, goes with the memory file `stem.mem`.
pub proof fn memory_files_stand_beside_their_state(dir: Seq<u8>, stem: Seq<u8>)
    requires
        dir.len() == 0 || dir.last() == 47,
        stem.len() > 0,
        forall|i: int| 0 <= i < stem.len() ==> #[trigger] stem[i] != 47,
    ensures
        memory_path_for(dir + (stem + seq![46u8, 115, 110, 97, 112])) == Some(
            dir + stem + seq![46u8, 109, 101, 109],
        ),
{
    let name = stem + seq![46u8, 115, 110, 97, 112];
    let p = dir + name;
    let n = stem.len() as int;
    assert(name[n] == 46 && name[n + 1] == 115 && name[n + 2] == 110 && name[n + 3] == 97 && name[n
        + 4] == 112);
    assert forall|i: int| 0 <= i < name.len() implies #[trigger] name[i] != 47 by {
        if i < n {
            assert(name[i] == stem[i]);
        }
    }
    paths::paths_are_split_at_the_last_separator(dir, name);
    is_snap();
    is_mem();
    paths::last_dot_bounds(name);
    assert(paths::last_dot(name) == Some(n)) by {
        let d = paths::last_dot(name);
        if d is None {
            assert(name[n] != 46);
        } else if d->0 < n {
            assert(name[n] != 46);
        }
    }
    assert(name.skip(n + 1) =~= seq![115u8, 110, 97, 112]);
    assert(p.take(dir.len() + n) =~= dir + stem);
}

/// A path that does not end in `.snap` goes with no memory file; one that does goes with
/// the same path but for the last four bytes.
pub proof fn only_state_files_have_memory_files(p: Seq<u8>)
    ensures
        memory_path_for(p) matches Some(m) ==> {
            let t = paths::trimmed(p);
            let n = t.len() - 4;
            &&& n > 1
            &&& t[n - 1] == 46 && t[n] == 115 && t[n + 1] == 110 && t[n + 2] == 97 && t[n + 3]
                == 112
            &&& m == t.take(n) + seq![109u8, 101, 109]
        },
{
    if memory_path_for(p) is Some {
        let t = paths::trimmed(p);
        let start = paths::last_part_start(t);
        let name = paths::last_part(p);
        let d = paths::last_dot(name)->0;
        let m = memory_path_for(p)->0;
        paths::last_part_start_bounds(t);
        paths::last_dot_bounds(name);
        is_snap();
        is_mem();
        let ending = name.skip(d + 1);
        assert(ending.len() == 4);
        assert(ending[0] == t[start + d + 1] && ending[1] == t[start + d + 2] && ending[2]
            == t[start + d + 3] && ending[3] == t[start + d + 4]);
        assert(m =~= t.take(t.len() - 4) + seq![109u8, 101, 109]);
    }
}

/// What is said of the memory file: that it is missing, or how large it is.
pub proof fn memory_files_are_noted(size: u64)
    ensures
        memory_note(false, Some(size)) == "MISSING"@,
        memory_note(false, None) == "MISSING"@,
        memory_note(true, Some(size)) == text::decimal(size as nat) + " bytes"@,
        memory_note(true, None) == "present"@,
{
}

/// The description for programs has a member for each thing that is described, and each
/// holds just that.
pub proof fn descriptions_hold_what_is_described(d: SnapshotDescription)
    ensures
        description_json(d) is Object,
        ({
            let o = description_json(d)->Object_0;
            &&& o.contains_pair("state_path"@, json::json_of_text(d.state_path@))
            &&& o.contains_pair("vcpu_count"@, json::json_of_number(d.vcpu_count as u64))
            &&& o.contains_pair("mem_size_mib"@, json::json_of_number(d.mem_size_mib))
            &&& o.contains_pair("track_dirty_pages"@, json::json_of_bool(d.track_dirty_pages))
            &&& o.contains_pair("mmds_present"@, json::json_of_bool(d.mmds_present))
            &&& o.contains_pair(
                "inferred_memory_exists"@,
                json::json_of_bool(d.inferred_memory_exists),
            )
            &&& o.contains_pair("crc_ok"@, json::json_of_bool(d.crc_ok))
            &&& o.contains_pair("version"@, json::json_of_text(version::version_text(d.version@)))
            &&& o.contains_pair(
                "expected_version"@,
                json::json_of_text(version::version_text(d.expected_version@)),
            )
            &&& o.contains_key("magic"@)
            &&& o.contains_key("devices"@)
            &&& d.inferred_memory_size is None ==> o.contains_pair(
                "inferred_memory_size"@,
                json::JsonTree::Null,
            )
            &&& d.inferred_memory_path is None ==> o.contains_pair(
                "inferred_memory_path"@,
                json::JsonTree::Null,
            )
        }),
{
    reveal_strlit("state_path");
    reveal_strlit("magic");
    reveal_strlit("version");
    reveal_strlit("expected_version");
    reveal_strlit("vcpu_count");
    reveal_strlit("mem_size_mib");
    reveal_strlit("track_dirty_pages");
    reveal_strlit("devices");
    reveal_strlit("mmds_present");
    reveal_strlit("inferred_memory_path");
    reveal_strlit("inferred_memory_exists");
    reveal_strlit("inferred_memory_size");
    reveal_strlit("crc_ok");
    assert("state_path"@.len() == 10 && "vcpu_count"@.len() == 10 && "magic"@.len() == 5);
    assert("version"@.len() == 7 && "devices"@.len() == 7 && "expected_version"@.len() == 16);
    assert("mem_size_mib"@.len() == 12 && "mmds_present"@.len() == 12);
    assert("track_dirty_pages"@.len() == 17 && "crc_ok"@.len() == 6);
    assert("inferred_memory_path"@.len() == 20 && "inferred_memory_size"@.len() == 20);
    assert("inferred_memory_exists"@.len() == 22);
    assert("state_path"@[0] == 's' && "vcpu_count"@[0] == 'v');
    assert("version"@[0] == 'v' && "devices"@[0] == 'd');
    assert("mem_size_mib"@[1] == 'e' && "mmds_present"@[1] == 'm');
    assert("inferred_memory_path"@[16] == 'p' && "inferred_memory_size"@[16] == 's');
}

} // verus!
