//! Input devices, and how the listing of the device tool is read.

use crate::background_reader::BackgroundLineReader;
use crate::error::CommandError;
use crate::text::{chars_of, find, starts_with, trim, trimmed};
use vstd::prelude::*;

verus! {

/// An input device that can be locked.
#[derive(Debug)]
pub struct Device {
    /// The device node; no two devices share it.
    pub event_path: String,
    /// The name by which a person picks the device.
    pub name: String,
}

/// What a [`Device`] is: its two texts as sequences of characters.
pub struct DeviceView {
    pub event_path: Seq<char>,
    pub name: Seq<char>,
}

impl View for Device {
    type V = DeviceView;

    open spec fn view(&self) -> DeviceView {
        DeviceView { event_path: self.event_path@, name: self.name@ }
    }
}

impl DeepView for Device {
    type V = DeviceView;

    open spec fn deep_view(&self) -> DeviceView {
        self@
    }
}

impl Clone for Device {
    fn clone(&self) -> (res: Device)
        ensures
            res == *self,
    {
        Device { event_path: self.event_path.clone(), name: self.name.clone() }
    }
}

/// The tool that lists the devices and grabs them.
pub const DEVICE_TOOL: &'static str = "evtest";

/// What the path of every device node begins with.
pub const DEVICE_PATH_PREFIX: &'static str = "/dev/input/event";

/// For so many seconds the listing is given time to come in before it is read:
/// the tool does not end by itself when it has listed the devices.
pub const SETTLE_SECS: u64 = 5;

/// What the path of every device node begins with.
pub open spec fn device_path_prefix() -> Seq<char> {
    DEVICE_PATH_PREFIX@
}

/// The device that a line of the listing names: the line begins with the path
/// of a device node, a colon follows somewhere, and the name is what stands
/// behind the first colon. White space round either part does not count.
pub open spec fn parse_line(line: Seq<char>) -> Option<DeviceView> {
    match line.index_of_first(':') {
        Some(colon) if device_path_prefix().is_prefix_of(line) => Some(
            DeviceView {
                event_path: trimmed(line.take(colon)),
                name: trimmed(line.skip(colon + 1)),
            },
        ),
        _ => None,
    }
}

/// A line made of the path of a device node, a colon and a name names that
/// device, trimmed: the path begins as every such path does and holds no colon
/// itself; the name may hold any.
pub proof fn lemma_parse_line_of_parts(path: Seq<char>, name: Seq<char>)
    requires
        device_path_prefix().is_prefix_of(path),
        !path.contains(':'),
    ensures
        parse_line(path + seq![':'] + name) == Some(
            DeviceView { event_path: trimmed(path), name: trimmed(name) },
        ),
{
    let line = path + seq![':'] + name;
    let at = path.len() as int;
    assert(line[at] == ':');
    line.index_of_first_ensures(':');
    let colon = line.index_of_first(':')->0;
    assert(colon == at) by {
        if colon < at {
            assert(path[colon] == line[colon]);
            assert(path.contains(':'));
        }
    }
    assert(line.take(colon) =~= path);
    assert(line.skip(colon + 1) =~= name);
    assert(device_path_prefix() =~= line.subrange(0, device_path_prefix().len() as int));
}

/// A line that does not begin as the path of a device node does, or that holds
/// no colon, names no device.
pub proof fn lemma_parse_line_of_other(line: Seq<char>)
    requires
        !device_path_prefix().is_prefix_of(line) || !line.contains(':'),
    ensures
        parse_line(line) is None,
{
    line.index_of_first_ensures(':');
}

/// The devices that the lines of a listing name, in the order of the lines.
/// Lines that name no device are passed over.
pub open spec fn parse_lines(lines: Seq<Seq<char>>) -> Seq<DeviceView> {
    lines.filter_map(|line: Seq<char>| parse_line(line))
}

/// Reads one line of the listing.
pub fn parse_device(line: &str) -> (res: Option<Device>)
    ensures
        match res {
            Some(device) => parse_line(line@) == Some(device@),
            None => parse_line(line@) is None,
        },
{
    let chars = chars_of(line);
    if !starts_with(&chars, DEVICE_PATH_PREFIX) {
        return None;
    }
    match find(&chars, ':') {
        None => None,
        Some(colon) => {
            proof {
                chars@.index_of_first_ensures(':');
            }
            let event_path = trim(line.substring_char(0, colon));
            let name = trim(line.substring_char(colon + 1, chars.len()));
            Some(Device { event_path, name })
        },
    }
}

/// Reads a listing line by line.
pub fn parse_devices(lines: &Vec<String>) -> (devices: Vec<Device>)
    ensures
        devices.deep_view() == parse_lines(lines.deep_view()),
{
    let mut devices: Vec<Device> = Vec::new();
    let mut i: usize = 0;
    while i < lines.len()
        invariant
            i <= lines.len(),
            devices.deep_view() == parse_lines(lines.deep_view().take(i as int)),
        decreases lines.len() - i,
    {
        proof {
            let before = lines.deep_view().take(i as int);
            let after = lines.deep_view().take(i + 1);
            assert(after.drop_last() =~= before);
            assert(after.last() == lines@[i as int]@);
        }
        let ghost old_devices = devices.deep_view();
        match parse_device(lines[i].as_str()) {
            Some(device) => {
                devices.push(device);
                assert(devices.deep_view() =~= old_devices + seq![device@]);
            },
            None => {},
        }
        i += 1;
    }
    assert(lines.deep_view().take(i as int) =~= lines.deep_view());
    devices
}

/// Reads the listing that has come into `reader`: the devices that its pending
/// lines name. Where a failure to read is all that `reader` has to give, that
/// failure is the result.
pub fn list(reader: &mut BackgroundLineReader) -> (res: Result<Vec<Device>, CommandError>)
    ensures
        final(reader)@ == old(reader)@.polled(),
        match old(reader)@.poll() {
            Ok(lines) => res is Ok && res.unwrap().deep_view() == parse_lines(lines),
            Err(error) => res is Err && res.unwrap_err() == CommandError::Io(error),
        },
{
    match reader.lines() {
        Ok(lines) => Ok(parse_devices(&lines)),
        Err(error) => Err(CommandError::Io(error)),
    }
}

/// Whether one of `devices` has the device node `event_path`.
pub open spec fn has_path(devices: Seq<DeviceView>, event_path: Seq<char>) -> bool {
    exists|i: int| 0 <= i < devices.len() && (#[trigger] devices[i]).event_path == event_path
}

/// The devices of `devices` that one of `names` picks, in their order, and of
/// those that share a device node the first only.
pub open spec fn selected(devices: Seq<DeviceView>, names: Seq<Seq<char>>) -> Seq<DeviceView>
    decreases devices.len(),
{
    if devices.len() == 0 {
        Seq::empty()
    } else {
        let earlier = selected(devices.drop_last(), names);
        let device = devices.last();
        if names.contains(device.name) && !has_path(earlier, device.event_path) {
            earlier.push(device)
        } else {
            earlier
        }
    }
}

/// What a selection holds: devices of the listing that were picked by name, no
/// device node twice, and the device node of every device that was picked.
pub proof fn lemma_selected(devices: Seq<DeviceView>, names: Seq<Seq<char>>)
    ensures
        ({
            let chosen = selected(devices, names);
            &&& forall|i: int|
                0 <= i < chosen.len() ==> devices.contains(#[trigger] chosen[i]) && names.contains(
                    chosen[i].name,
                )
            &&& forall|i: int, j: int|
                0 <= i < j < chosen.len() ==> (#[trigger] chosen[i]).event_path != (
                #[trigger] chosen[j]).event_path
            &&& forall|k: int|
                0 <= k < devices.len() && names.contains((#[trigger] devices[k]).name) ==> has_path(
                    chosen,
                    devices[k].event_path,
                )
        }),
    decreases devices.len(),
{
    if devices.len() > 0 {
        let rest = devices.drop_last();
        let device = devices.last();
        let earlier = selected(rest, names);
        let chosen = selected(devices, names);
        lemma_selected(rest, names);
        assert(forall|k: int| 0 <= k < rest.len() ==> rest[k] == devices[k]);
        assert forall|i: int| 0 <= i < chosen.len() implies devices.contains(
            #[trigger] chosen[i],
        ) && names.contains(chosen[i].name) by {
            if i < earlier.len() {
                assert(rest.contains(earlier[i]));
                let k = choose|k: int| 0 <= k < rest.len() && rest[k] == earlier[i];
                assert(devices[k] == chosen[i]);
            } else {
                assert(devices[devices.len() - 1] == chosen[i]);
            }
        }
        assert forall|k: int|
            0 <= k < devices.len() && names.contains((#[trigger] devices[k]).name) implies has_path(
            chosen,
            devices[k].event_path,
        ) by {
            if k < rest.len() {
                assert(rest[k] == devices[k]);
                assert(has_path(earlier, devices[k].event_path));
                let i = choose|i: int|
                    0 <= i < earlier.len() && (#[trigger] earlier[i]).event_path
                        == devices[k].event_path;
                assert(chosen[i].event_path == devices[k].event_path);
            } else if has_path(earlier, device.event_path) {
                let i = choose|i: int|
                    0 <= i < earlier.len() && (#[trigger] earlier[i]).event_path
                        == device.event_path;
                assert(chosen[i].event_path == devices[k].event_path);
            } else {
                assert(chosen[chosen.len() - 1].event_path == devices[k].event_path);
            }
        }
    }
}

/// Whether `name` is one of `names`.
fn is_named(names: &Vec<String>, name: &String) -> (res: bool)
    ensures
        res == names.deep_view().contains(name@),
{
    let mut i: usize = 0;
    while i < names.len()
        invariant
            i <= names.len(),
            forall|j: int| 0 <= j < i ==> names.deep_view()[j] != name@,
        decreases names.len() - i,
    {
        if names[i] == *name {
            assert(names.deep_view()[i as int] == name@);
            return true;
        }
        i += 1;
    }
    false
}

/// Whether one of `devices` has the device node `event_path`.
fn holds_path(devices: &Vec<Device>, event_path: &String) -> (res: bool)
    ensures
        res == has_path(devices.deep_view(), event_path@),
{
    let mut i: usize = 0;
    while i < devices.len()
        invariant
            i <= devices.len(),
            forall|j: int| 0 <= j < i ==> devices.deep_view()[j].event_path != event_path@,
        decreases devices.len() - i,
    {
        if devices[i].event_path == *event_path {
            assert(devices.deep_view()[i as int].event_path == event_path@);
            return true;
        }
        i += 1;
    }
    false
}

/// Picks from a listing the devices to lock: those that one of `names` names,
/// and of those that share a device node the first only.
pub fn select(devices: &Vec<Device>, names: &Vec<String>) -> (chosen: Vec<Device>)
    ensures
        chosen.deep_view() == selected(devices.deep_view(), names.deep_view()),
        forall|i: int, j: int|
            0 <= i < j < chosen.len() ==> (#[trigger] chosen[i]).event_path@ != (
            #[trigger] chosen[j]).event_path@,
{
    let mut chosen: Vec<Device> = Vec::new();
    let mut i: usize = 0;
    while i < devices.len()
        invariant
            i <= devices.len(),
            chosen.deep_view() == selected(devices.deep_view().take(i as int), names.deep_view()),
        decreases devices.len() - i,
    {
        proof {
            let before = devices.deep_view().take(i as int);
            let after = devices.deep_view().take(i + 1);
            assert(after.drop_last() =~= before);
            assert(after.last() == devices@[i as int]@);
        }
        let ghost earlier = chosen.deep_view();
        if is_named(names, &devices[i].name) && !holds_path(&chosen, &devices[i].event_path) {
            chosen.push(devices[i].clone());
            assert(chosen.deep_view() =~= earlier.push(devices@[i as int]@));
        }
        i += 1;
    }
    proof {
        assert(devices.deep_view().take(i as int) =~= devices.deep_view());
        lemma_selected(devices.deep_view(), names.deep_view());
        assert forall|i: int, j: int| 0 <= i < j < chosen.len() implies (
        #[trigger] chosen[i]).event_path@ != (#[trigger] chosen[j]).event_path@ by {
            assert(chosen.deep_view()[i].event_path != chosen.deep_view()[j].event_path);
        }
    }
    chosen
}

} // verus!
