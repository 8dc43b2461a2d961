use std::collections::VecDeque;

use hazel::audio::{AudioStreamingClientSharedState, VecDequeExt, DEFAULT_BIT_RATE, DEFAULT_CHANNELS, DEFAULT_RATE};
use hazel::devices::{node_class, node_device_id, node_display_name, str_eq, AudioDevice, DeviceLists, NodeClass};

fn device(id: &str, node: u32) -> AudioDevice {
    AudioDevice { id: id.to_string(), node_id: node, display_name: format!("Device {id}"), is_active: false }
}

#[test]
fn audio_defaults() {
    assert_eq!(DEFAULT_RATE, 48000);
    assert_eq!(DEFAULT_CHANNELS, 2);
    assert_eq!(DEFAULT_BIT_RATE, 128000);
    let shared = AudioStreamingClientSharedState::new(4);
    assert_eq!(shared.user_id, 4);
    assert!(!shared.is_talking.load(std::sync::atomic::Ordering::Relaxed));
}

#[test]
fn pop_slice_partial_and_whole() {
    let mut q: VecDeque<i32> = VecDeque::from(vec![1, 2, 3]);
    let mut out = [0; 5];
    assert_eq!(q.pop_slice(&mut out, false), 0);
    assert_eq!(q.len(), 3);
    assert_eq!(q.pop_slice(&mut out, true), 3);
    assert_eq!(out, [1, 2, 3, 0, 0]);
    assert!(q.is_empty());
    let mut q: VecDeque<i32> = VecDeque::from(vec![4, 5, 6]);
    let mut small = [0; 2];
    assert_eq!(q.pop_slice(&mut small, false), 2);
    assert_eq!(small, [4, 5]);
    assert_eq!(q, VecDeque::from(vec![6]));
}

#[test]
fn pop_slice_with_mixes() {
    let mut q: VecDeque<i32> = VecDeque::from(vec![10, 20]);
    let mut out = [1, 2, 3];
    assert_eq!(q.pop_slice_with(&mut out, true, |old, new| old + new), 2);
    assert_eq!(out, [11, 22, 3]);
}

#[test]
fn str_eq_compares_text() {
    assert!(str_eq("alsa.0", "alsa.0"));
    assert!(!str_eq("alsa.0", "alsa.1"));
    assert!(!str_eq("a", "ab"));
    assert!(str_eq("", ""));
}

#[test]
fn device_lists() {
    let mut lists = DeviceLists::new();
    lists.add_input(device("mic", 3));
    lists.add_input(device("cam", 4));
    lists.add_output(device("spk", 3));
    lists.add_output(device("hdmi", 9));
    assert_eq!(lists.get_input_devices().len(), 2);
    assert_eq!(lists.get_output_devices()[1].id, "hdmi");
    assert_eq!(lists.find_by_node_id(3), Some("mic".to_string()));
    assert_eq!(lists.find_by_node_id(9), Some("hdmi".to_string()));
    assert_eq!(lists.find_by_node_id(5), None);
    assert!(lists.device_exists("spk"));
    assert!(!lists.device_exists("usb"));
}

#[test]
fn only_one_device_marked_active() {
    let mut lists = DeviceLists::new();
    lists.add_input(device("mic", 3));
    lists.add_input(device("cam", 4));
    lists.mark_active_input("cam");
    let inputs = lists.get_input_devices();
    assert!(!inputs[0].is_active);
    assert!(inputs[1].is_active);
    lists.mark_active_input("mic");
    let inputs = lists.get_input_devices();
    assert!(inputs[0].is_active);
    assert!(!inputs[1].is_active);
    lists.add_output(device("spk", 1));
    lists.mark_active_output("none");
    assert!(!lists.get_output_devices()[0].is_active);
}

#[test]
fn removed_device_is_gone_everywhere() {
    let mut lists = DeviceLists::new();
    lists.add_input(device("x", 1));
    lists.add_input(device("y", 2));
    lists.add_output(device("x", 1));
    lists.remove_device("x");
    assert!(!lists.device_exists("x"));
    assert_eq!(lists.get_input_devices().len(), 1);
    assert_eq!(lists.get_input_devices()[0].id, "y");
    assert_eq!(lists.get_output_devices().len(), 0);
    lists.remove_device("z");
    assert_eq!(lists.get_input_devices().len(), 1);
}

#[test]
fn duplicate_copies_device() {
    let d = device("mic", 3);
    let c = d.duplicate();
    assert_eq!(c.id, d.id);
    assert_eq!(c.node_id, 3);
    assert_eq!(c.display_name, "Device mic");
}

#[test]
fn node_classes_and_names() {
    assert_eq!(node_class("Audio/Sink"), NodeClass::Sink);
    assert_eq!(node_class("Audio/Source"), NodeClass::Source);
    assert_eq!(node_class("Video/Source"), NodeClass::Other);
    assert_eq!(node_display_name(Some("nick"), Some("name")), "nick");
    assert_eq!(node_display_name(None, Some("name")), "name");
    assert_eq!(node_display_name(None, None), "Unknown Device");
    assert_eq!(node_device_id(Some("alsa.out"), Some("42")), Some("alsa.out".to_string()));
    assert_eq!(node_device_id(None, Some("42")), Some("42".to_string()));
    assert_eq!(node_device_id(None, None), None);
}

#[test]
fn graph_events_update_lists() {
    let mut lists = DeviceLists::new();
    assert!(lists.on_node_added(30, "Audio/Source", Some("Mic"), Some("alsa.in"), None));
    assert!(lists.on_node_added(31, "Audio/Sink", None, Some("alsa.out"), None));
    assert!(!lists.on_node_added(31, "Audio/Sink", None, Some("again"), None));
    assert!(!lists.on_node_added(32, "Midi/Bridge", None, Some("midi"), None));
    assert!(!lists.on_node_added(33, "Audio/Sink", Some("x"), None, None));
    let inputs = lists.get_input_devices();
    assert_eq!(inputs.len(), 1);
    assert_eq!(inputs[0].id, "alsa.in");
    assert_eq!(inputs[0].display_name, "Mic");
    assert_eq!(inputs[0].node_id, 30);
    assert!(!inputs[0].is_active);
    assert_eq!(lists.get_output_devices()[0].display_name, "alsa.out");

    lists.on_link(100, 30, 100, 200);
    assert!(lists.get_input_devices()[0].is_active);
    assert!(!lists.get_output_devices()[0].is_active);
    lists.on_link(31, 200, 100, 200);
    assert!(lists.get_output_devices()[0].is_active);

    lists.on_node_removed(30);
    assert_eq!(lists.get_input_devices().len(), 0);
    lists.on_node_removed(99);
    assert_eq!(lists.get_output_devices().len(), 1);
}
