//! The lists of audio input and output devices the user can pick from.

use vstd::prelude::*;
use vstd::utf8::*;

verus! {

broadcast use {encode_utf8_decode_utf8, vstd::string::group_string_axioms};

/// Whether two strings are equal, compared byte by byte.
pub fn str_eq(a: &str, b: &str) -> (res: bool)
    ensures
        res == (a@ == b@),
{
    let ab = a.as_bytes();
    let bb = b.as_bytes();
    proof {
        assert(decode_utf8(encode_utf8(a@)) == a@);
        assert(decode_utf8(encode_utf8(b@)) == b@);
    }
    if ab.len() != bb.len() {
        return false;
    }
    let mut i: usize = 0;
    while i < ab.len()
        invariant
            ab@ == encode_utf8(a@),
            bb@ == encode_utf8(b@),
            ab@.len() == bb@.len(),
            0 <= i <= ab@.len(),
            forall|k: int| 0 <= k < i ==> ab@[k] == bb@[k],
        decreases ab@.len() - i,
    {
        if ab[i] != bb[i] {
            return false;
        }
        i = i + 1;
    }
    assert(ab@ =~= bb@);
    true
}

/// An audio device.
#[derive(Debug, Clone)]
pub struct AudioDevice {
    /// Stable identifier of the device.
    pub id: String,
    /// Node of the device in the sound server's graph.
    pub node_id: u32,
    pub display_name: String,
    /// Whether the application's stream is routed through it.
    pub is_active: bool,
}

/// Commands for the audio loop thread.
#[derive(Debug, Clone)]
pub enum AudioLoopCommand {
    SetEnabledCapture(bool),
    SetEnabledPlayback(bool),
    SetActiveInputDevice(AudioDevice),
    SetActiveOutputDevice(AudioDevice),
}

/// Abstract content of a device entry.
pub struct AudioDeviceView {
    pub id: Seq<char>,
    pub node_id: u32,
    pub display_name: Seq<char>,
    pub is_active: bool,
}

impl AudioDevice {
    pub open spec fn view(&self) -> AudioDeviceView {
        AudioDeviceView {
            id: self.id@,
            node_id: self.node_id,
            display_name: self.display_name@,
            is_active: self.is_active,
        }
    }

    /// A copy of the entry.
    pub fn duplicate(&self) -> (d: AudioDevice)
        ensures
            d@ == self@,
    {
        AudioDevice {
            id: self.id.clone(),
            node_id: self.node_id,
            display_name: self.display_name.clone(),
            is_active: self.is_active,
        }
    }
}

/// The entries as plain values.
pub open spec fn devices_view(v: Seq<AudioDevice>) -> Seq<AudioDeviceView> {
    v.map_values(|d: AudioDevice| d@)
}

/// `s` without the entries whose id is `id`.
pub open spec fn without_id(s: Seq<AudioDeviceView>, id: Seq<char>) -> Seq<AudioDeviceView>
    decreases s.len(),
{
    if s.len() == 0 {
        s
    } else {
        let rest = without_id(s.drop_last(), id);
        if s.last().id == id {
            rest
        } else {
            rest.push(s.last())
        }
    }
}

/// `s` with exactly the entries whose id is `id` marked active.
pub open spec fn marked_active(s: Seq<AudioDeviceView>, id: Seq<char>) -> Seq<AudioDeviceView> {
    s.map_values(|d: AudioDeviceView| AudioDeviceView { is_active: d.id == id, ..d })
}

/// Whether `s` has an entry with id `id`.
pub open spec fn has_id(s: Seq<AudioDeviceView>, id: Seq<char>) -> bool {
    exists|i: int| 0 <= i < s.len() && (#[trigger] s[i]).id == id
}

/// Index of the first entry of `s` on node `node`.
pub open spec fn first_on_node(s: Seq<AudioDeviceView>, node: u32, i: int) -> Option<int>
    decreases s.len() - i,
{
    if i < 0 || i >= s.len() {
        None
    } else if s[i].node_id == node {
        Some(i)
    } else {
        first_on_node(s, node, i + 1)
    }
}

proof fn lemma_first_on_node_range(s: Seq<AudioDeviceView>, node: u32, i: int)
    ensures
        first_on_node(s, node, i) matches Some(k) ==> i <= k < s.len() && s[k].node_id == node,
    decreases s.len() - i,
{
    if 0 <= i < s.len() {
        lemma_first_on_node_range(s, node, i + 1);
    }
}

/// Kind of a sound-server node, by its media class.
#[derive(Debug, Clone, Copy, PartialEq, Eq, Structural)]
pub enum NodeClass {
    /// An output device (`Audio/Sink`).
    Sink,
    /// An input device (`Audio/Source`).
    Source,
    /// Anything else; not listed.
    Other,
}

/// The kind of a node with this media class.
pub open spec fn spec_node_class(media_class: Seq<char>) -> NodeClass {
    if media_class == "Audio/Sink"@ {
        NodeClass::Sink
    } else if media_class == "Audio/Source"@ {
        NodeClass::Source
    } else {
        NodeClass::Other
    }
}

/// The kind of a node with this media class.
pub fn node_class(media_class: &str) -> (c: NodeClass)
    ensures
        c == spec_node_class(media_class@),
{
    proof {
        reveal_strlit("Audio/Sink");
        reveal_strlit("Audio/Source");
    }
    if str_eq(media_class, "Audio/Sink") {
        NodeClass::Sink
    } else if str_eq(media_class, "Audio/Source") {
        NodeClass::Source
    } else {
        NodeClass::Other
    }
}

/// The name shown for a node: its nickname, else its name, else
/// "Unknown Device".
pub open spec fn spec_display_name(nick: Option<&str>, name: Option<&str>) -> Seq<char> {
    match nick {
        Some(n) => n@,
        None => match name {
            Some(m) => m@,
            None => "Unknown Device"@,
        },
    }
}

/// The name shown for a node: its nickname, else its name, else
/// "Unknown Device".
pub fn node_display_name(nick: Option<&str>, name: Option<&str>) -> (res: String)
    ensures
        res@ == spec_display_name(nick, name),
{
    proof {
        reveal_strlit("Unknown Device");
    }
    match nick {
        Some(n) => n.to_owned(),
        None => match name {
            Some(m) => m.to_owned(),
            None => "Unknown Device".to_owned(),
        },
    }
}

/// The id a node's device is known by: its name, else its serial number;
/// `None` for a node with neither, which is not listed.
pub open spec fn spec_device_id(name: Option<&str>, serial: Option<&str>) -> Option<Seq<char>> {
    match name {
        Some(m) => Some(m@),
        None => match serial {
            Some(s) => Some(s@),
            None => None,
        },
    }
}

/// The id a node's device is known by: its name, else its serial number;
/// `None` for a node with neither, which is not listed.
pub fn node_device_id(name: Option<&str>, serial: Option<&str>) -> (res: Option<String>)
    ensures
        match spec_device_id(name, serial) {
            Some(id) => res matches Some(r) && r@ == id,
            None => res is None,
        },
{
    match name {
        Some(m) => Some(m.to_owned()),
        None => match serial {
            Some(s) => Some(s.to_owned()),
            None => None,
        },
    }
}

/// Whether a device on graph node `node` is listed.
pub open spec fn has_node(l: DeviceListsView, node: u32) -> bool {
    first_on_node(l.input, node, 0) is Some || first_on_node(l.output, node, 0) is Some
}

/// The id of the first device on graph node `node`, inputs first.
pub open spec fn id_on_node(l: DeviceListsView, node: u32) -> Option<Seq<char>> {
    match first_on_node(l.input, node, 0) {
        Some(i) => Some(l.input[i].id),
        None => match first_on_node(l.output, node, 0) {
            Some(i) => Some(l.output[i].id),
            None => None,
        },
    }
}

/// The devices after a link to the application's stream on `stream_node`,
/// from device node `device_node`: the device on that node is the active one.
pub open spec fn linked(s: Seq<AudioDeviceView>, linked_node: u32, stream_node: u32, device_node: u32) -> Seq<AudioDeviceView> {
    if linked_node == stream_node && first_on_node(s, device_node, 0) is Some {
        marked_active(s, s[first_on_node(s, device_node, 0)->0].id)
    } else {
        s
    }
}

/// The device lists: inputs and outputs.
pub struct DeviceLists {
    input: Vec<AudioDevice>,
    output: Vec<AudioDevice>,
}

/// Abstract content of the device lists.
pub struct DeviceListsView {
    pub input: Seq<AudioDeviceView>,
    pub output: Seq<AudioDeviceView>,
}

fn copy_devices(v: &Vec<AudioDevice>) -> (res: Vec<AudioDevice>)
    ensures
        devices_view(res@) == devices_view(v@),
{
    let mut res: Vec<AudioDevice> = Vec::new();
    let mut i: usize = 0;
    while i < v.len()
        invariant
            0 <= i <= v@.len(),
            res@.len() == i,
            forall|k: int| 0 <= k < i ==> (#[trigger] res@[k])@ == v@[k]@,
        decreases v@.len() - i,
    {
        let d = v[i].duplicate();
        res.push(d);
        i = i + 1;
    }
    assert(devices_view(res@) =~= devices_view(v@));
    res
}

fn any_with_id(v: &Vec<AudioDevice>, id: &str) -> (res: bool)
    ensures
        res == has_id(devices_view(v@), id@),
{
    let mut i: usize = 0;
    while i < v.len()
        invariant
            0 <= i <= v@.len(),
            forall|k: int| 0 <= k < i ==> (#[trigger] v@[k]).id@ != id@,
        decreases v@.len() - i,
    {
        if str_eq(v[i].id.as_str(), id) {
            assert(devices_view(v@)[i as int].id == id@);
            return true;
        }
        i = i + 1;
    }
    proof {
        if has_id(devices_view(v@), id@) {
            let k = choose|k: int|
                0 <= k < devices_view(v@).len() && (#[trigger] devices_view(v@)[k]).id == id@;
            assert(v@[k].id@ == id@);
        }
    }
    false
}

fn remove_with_id(v: &mut Vec<AudioDevice>, id: &str)
    ensures
        devices_view(final(v)@) == without_id(devices_view(old(v)@), id@),
{
    let mut kept: Vec<AudioDevice> = Vec::new();
    let mut i: usize = 0;
    while i < v.len()
        invariant
            0 <= i <= v@.len(),
            v@ == old(v)@,
            devices_view(kept@) == without_id(devices_view(v@.take(i as int)), id@),
        decreases v@.len() - i,
    {
        let ghost prev = kept@;
        proof {
            assert(devices_view(v@.take(i + 1)).drop_last() =~= devices_view(v@.take(i as int)));
        }
        if !str_eq(v[i].id.as_str(), id) {
            kept.push(v[i].duplicate());
            assert(devices_view(kept@) =~= devices_view(prev).push(v@[i as int]@));
        }
        i = i + 1;
    }
    assert(v@.take(v@.len() as int) =~= v@);
    *v = kept;
}

fn mark_with_id(v: &mut Vec<AudioDevice>, id: &str)
    ensures
        devices_view(final(v)@) == marked_active(devices_view(old(v)@), id@),
{
    let n = v.len();
    let mut i: usize = 0;
    while i < n
        invariant
            n == v@.len(),
            n == old(v)@.len(),
            0 <= i <= n,
            forall|k: int|
                0 <= k < i ==> (#[trigger] v@[k])@ == (AudioDeviceView {
                    is_active: old(v)@[k].id@ == id@,
                    ..old(v)@[k]@
                }),
            forall|k: int| i <= k < n ==> (#[trigger] v@[k]) == old(v)@[k],
        decreases n - i,
    {
        let same = str_eq(v[i].id.as_str(), id);
        v[i].is_active = same;
        i = i + 1;
    }
    assert(devices_view(v@) =~= marked_active(devices_view(old(v)@), id@));
}

fn find_node(v: &Vec<AudioDevice>, node: u32) -> (res: Option<usize>)
    ensures
        match res {
            Some(i) => first_on_node(devices_view(v@), node, 0) == Some(i as int),
            None => first_on_node(devices_view(v@), node, 0) is None,
        },
{
    proof {
        lemma_first_on_node_range(devices_view(v@), node, 0);
    }
    let mut i: usize = 0;
    while i < v.len()
        invariant
            0 <= i <= v@.len(),
            first_on_node(devices_view(v@), node, 0) matches Some(k) ==> k < v@.len(),
            first_on_node(devices_view(v@), node, 0) == first_on_node(
                devices_view(v@),
                node,
                i as int,
            ),
        decreases v@.len() - i,
    {
        if v[i].node_id == node {
            return Some(i);
        }
        i = i + 1;
    }
    None
}

impl DeviceLists {
    pub closed spec fn view(&self) -> DeviceListsView {
        DeviceListsView { input: devices_view(self.input@), output: devices_view(self.output@) }
    }

    /// No devices.
    pub fn new() -> (res: Self)
        ensures
            res@.input == Seq::<AudioDeviceView>::empty(),
            res@.output == Seq::<AudioDeviceView>::empty(),
    {
        let res = DeviceLists { input: Vec::new(), output: Vec::new() };
        assert(res@.input =~= Seq::<AudioDeviceView>::empty());
        assert(res@.output =~= Seq::<AudioDeviceView>::empty());
        res
    }

    /// A copy of the input devices.
    pub fn get_input_devices(&self) -> (res: Vec<AudioDevice>)
        ensures
            devices_view(res@) == self@.input,
    {
        copy_devices(&self.input)
    }

    /// A copy of the output devices.
    pub fn get_output_devices(&self) -> (res: Vec<AudioDevice>)
        ensures
            devices_view(res@) == self@.output,
    {
        copy_devices(&self.output)
    }

    /// Appends an input device.
    pub fn add_input(&mut self, device: AudioDevice)
        ensures
            final(self)@.input == old(self)@.input.push(device@),
            final(self)@.output == old(self)@.output,
    {
        self.input.push(device);
        assert(self@.input =~= old(self)@.input.push(device@));
    }

    /// Appends an output device.
    pub fn add_output(&mut self, device: AudioDevice)
        ensures
            final(self)@.output == old(self)@.output.push(device@),
            final(self)@.input == old(self)@.input,
    {
        self.output.push(device);
        assert(self@.output =~= old(self)@.output.push(device@));
    }

    /// The id of the first device on graph node `id`, inputs first.
    pub fn find_by_node_id(&self, id: u32) -> (res: Option<String>)
        ensures
            match first_on_node(self@.input, id, 0) {
                Some(i) => res matches Some(s) && s@ == self@.input[i].id,
                None => match first_on_node(self@.output, id, 0) {
                    Some(i) => res matches Some(s) && s@ == self@.output[i].id,
                    None => res is None,
                },
            },
    {
        proof {
            lemma_first_on_node_range(self@.input, id, 0);
            lemma_first_on_node_range(self@.output, id, 0);
        }
        match find_node(&self.input, id) {
            Some(i) => Some(self.input[i].id.clone()),
            None => match find_node(&self.output, id) {
                Some(i) => Some(self.output[i].id.clone()),
                None => None,
            },
        }
    }

    /// Marks exactly the input devices with id `id` as active.
    pub fn mark_active_input(&mut self, id: &str)
        ensures
            final(self)@.input == marked_active(old(self)@.input, id@),
            final(self)@.output == old(self)@.output,
    {
        mark_with_id(&mut self.input, id);
    }

    /// Marks exactly the output devices with id `id` as active.
    pub fn mark_active_output(&mut self, id: &str)
        ensures
            final(self)@.output == marked_active(old(self)@.output, id@),
            final(self)@.input == old(self)@.input,
    {
        mark_with_id(&mut self.output, id);
    }

    /// Whether a device with id `id` is listed.
    pub fn device_exists(&self, id: &str) -> (res: bool)
        ensures
            res == (has_id(self@.input, id@) || has_id(self@.output, id@)),
    {
        any_with_id(&self.input, id) || any_with_id(&self.output, id)
    }

    /// Removes every device with id `id`.
    pub fn remove_device(&mut self, id: &str)
        ensures
            final(self)@.input == without_id(old(self)@.input, id@),
            final(self)@.output == without_id(old(self)@.output, id@),
    {
        if self.device_exists(id) {
            remove_with_id(&mut self.input, id);
            remove_with_id(&mut self.output, id);
        } else {
            proof {
                lemma_without_absent(self@.input, id@);
                lemma_without_absent(self@.output, id@);
            }
        }
    }

    /// A node appeared in the sound server's graph. An output or input
    /// device with a usable id, on a node not listed yet, is added to its
    /// list, not active; anything else changes nothing. Returns whether a
    /// device was added.
    pub fn on_node_added(
        &mut self,
        node_id: u32,
        media_class: &str,
        nick: Option<&str>,
        name: Option<&str>,
        serial: Option<&str>,
    ) -> (added: bool)
        ensures
            ({
                let class = spec_node_class(media_class@);
                let id = spec_device_id(name, serial);
                let dev = AudioDeviceView {
                    id: id->0,
                    node_id,
                    display_name: spec_display_name(nick, name),
                    is_active: false,
                };
                if class == NodeClass::Other || id is None || has_node(old(self)@, node_id) {
                    !added && final(self)@ == old(self)@
                } else if class == NodeClass::Sink {
                    &&& added
                    &&& final(self)@.output == old(self)@.output.push(dev)
                    &&& final(self)@.input == old(self)@.input
                } else {
                    &&& added
                    &&& final(self)@.input == old(self)@.input.push(dev)
                    &&& final(self)@.output == old(self)@.output
                }
            }),
    {
        let class = node_class(media_class);
        let display_name = node_display_name(nick, name);
        let id = match node_device_id(name, serial) {
            Some(id) => id,
            None => {
                return false;
            },
        };
        if class == NodeClass::Other {
            return false;
        }
        if find_node(&self.input, node_id).is_some() || find_node(&self.output, node_id).is_some() {
            return false;
        }
        let device = AudioDevice { id, node_id, display_name, is_active: false };
        if class == NodeClass::Sink {
            self.add_output(device);
        } else {
            self.add_input(device);
        }
        true
    }

    /// A link appeared between node `output_node` and node `input_node`.
    /// When it feeds the capture stream on `capture_node`, the input device
    /// on `output_node` becomes the active input; when it leaves the
    /// playback stream on `playback_node`, the output device on `input_node`
    /// becomes the active output.
    pub fn on_link(&mut self, input_node: u32, output_node: u32, capture_node: u32, playback_node: u32)
        ensures
            final(self)@.input == linked(old(self)@.input, input_node, capture_node, output_node),
            final(self)@.output == linked(old(self)@.output, output_node, playback_node, input_node),
    {
        proof {
            lemma_first_on_node_range(self@.input, output_node, 0);
            lemma_first_on_node_range(self@.output, input_node, 0);
        }
        if input_node == capture_node {
            if let Some(i) = find_node(&self.input, output_node) {
                let id = self.input[i].id.clone();
                mark_with_id(&mut self.input, id.as_str());
            }
        }
        if output_node == playback_node {
            if let Some(i) = find_node(&self.output, input_node) {
                let id = self.output[i].id.clone();
                mark_with_id(&mut self.output, id.as_str());
            }
        }
    }

    /// A node left the graph: the device on it, if listed, is removed.
    pub fn on_node_removed(&mut self, node_id: u32)
        ensures
            match id_on_node(old(self)@, node_id) {
                Some(id) => final(self)@.input == without_id(old(self)@.input, id)
                    && final(self)@.output == without_id(old(self)@.output, id),
                None => final(self)@ == old(self)@,
            },
    {
        match self.find_by_node_id(node_id) {
            Some(id) => self.remove_device(id.as_str()),
            None => {},
        }
    }
}

proof fn lemma_without_absent(s: Seq<AudioDeviceView>, id: Seq<char>)
    requires
        !has_id(s, id),
    ensures
        without_id(s, id) == s,
    decreases s.len(),
{
    if s.len() > 0 {
        assert(!has_id(s.drop_last(), id)) by {
            if has_id(s.drop_last(), id) {
                let k = choose|k: int|
                    0 <= k < s.drop_last().len() && (#[trigger] s.drop_last()[k]).id == id;
                assert(s[k].id == id);
            }
        }
        lemma_without_absent(s.drop_last(), id);
        assert(s.last().id != id) by {
            assert(s[s.len() - 1].id != id);
        }
        assert(s.drop_last().push(s.last()) =~= s);
    }
}

/// A removed device is gone from both lists.
pub proof fn lemma_removed_device_absent(s: Seq<AudioDeviceView>, id: Seq<char>)
    ensures
        !has_id(without_id(s, id), id),
    decreases s.len(),
{
    if s.len() > 0 {
        lemma_removed_device_absent(s.drop_last(), id);
        let rest = without_id(s.drop_last(), id);
        if s.last().id != id {
            assert forall|i: int| 0 <= i < rest.push(s.last()).len() implies (#[trigger] rest.push(
                s.last(),
            )[i]).id != id by {
                if i < rest.len() {
                    assert(rest.push(s.last())[i] == rest[i]);
                }
            }
        }
    }
}

/// Removing a device keeps every other device, in order.
pub proof fn lemma_removal_keeps_others(s: Seq<AudioDeviceView>, id: Seq<char>, other: Seq<char>)
    requires
        other != id,
    ensures
        has_id(without_id(s, id), other) == has_id(s, other),
    decreases s.len(),
{
    if s.len() > 0 {
        lemma_removal_keeps_others(s.drop_last(), id, other);
        let rest = without_id(s.drop_last(), id);
        let init = s.drop_last();
        if has_id(s, other) {
            let k = choose|k: int| 0 <= k < s.len() && (#[trigger] s[k]).id == other;
            if k < s.len() - 1 {
                assert(init[k].id == other);
            }
        }
        if has_id(init, other) {
            let k = choose|k: int| 0 <= k < init.len() && (#[trigger] init[k]).id == other;
            assert(s[k].id == other);
        }
        if s.last().id != id {
            if has_id(rest, other) {
                let k = choose|k: int| 0 <= k < rest.len() && (#[trigger] rest[k]).id == other;
                assert(rest.push(s.last())[k].id == other);
            }
            if s.last().id == other {
                assert(rest.push(s.last())[rest.len() as int].id == other);
            }
            if has_id(rest.push(s.last()), other) {
                let k = choose|k: int|
                    0 <= k < rest.push(s.last()).len() && (#[trigger] rest.push(s.last())[k]).id
                        == other;
                if k < rest.len() {
                    assert(rest[k].id == other);
                }
            }
        } else {
            assert(s[s.len() - 1].id != other);
        }
    }
}

/// After marking, a device is active exactly when its id is the marked one;
/// so two devices with different ids are never both active.
pub proof fn lemma_single_active_id(s: Seq<AudioDeviceView>, id: Seq<char>, i: int, j: int)
    requires
        0 <= i < s.len(),
        0 <= j < s.len(),
        marked_active(s, id)[i].is_active,
        marked_active(s, id)[j].is_active,
    ensures
        s[i].id == s[j].id,
{
}

/// After a link between the application's stream and a listed device, that
/// device is active and every device is active exactly when its id is the
/// linked device's id; the devices themselves stay as they were. A link
/// that does not touch the stream changes nothing.
pub proof fn lemma_link_activates_only_linked_device(
    s: Seq<AudioDeviceView>,
    linked_node: u32,
    stream_node: u32,
    device_node: u32,
)
    ensures
        ({
            let t = linked(s, linked_node, stream_node, device_node);
            &&& t.len() == s.len()
            &&& forall|k: int|
                0 <= k < s.len() ==> (#[trigger] t[k]).id == s[k].id && t[k].node_id == s[k].node_id
                    && t[k].display_name == s[k].display_name
            &&& linked_node != stream_node ==> t == s
            &&& linked_node == stream_node ==> match first_on_node(s, device_node, 0) {
                Some(i) => {
                    &&& s[i].node_id == device_node
                    &&& t[i].is_active
                    &&& forall|k: int| 0 <= k < s.len() ==> (#[trigger] t[k]).is_active == (s[k].id == s[i].id)
                },
                None => t == s,
            }
        }),
{
    lemma_first_on_node_range(s, device_node, 0);
}

} // verus!
