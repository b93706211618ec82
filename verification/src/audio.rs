//! Audio output devices: the device list as the sound server reports it, the
//! default device, and the outcome of switching it.
use crate::text::{chars_of, string_from_range, trim_range, trim_whitespace};
use vstd::prelude::*;

verus! {

/// An audio output device.
#[derive(Debug)]
pub struct Device {
    /// The identifier the sound server knows the device by.
    pub id: String,
    /// The name shown to the user.
    pub name: String,
    /// A description of the device.
    pub label: String,
}

/// The mathematical value of a [`Device`].
pub struct DeviceView {
    pub id: Seq<char>,
    pub name: Seq<char>,
    pub label: Seq<char>,
}

impl View for Device {
    type V = DeviceView;

    open spec fn view(&self) -> DeviceView {
        DeviceView { id: self.id@, name: self.name@, label: self.label@ }
    }
}

/// Prepares the audio back end. Nothing has to be set up before the device
/// list can be queried.
pub fn initialise() {
}

/// What a sink object of `pactl -f json list sinks` says about a sink: its
/// `name` and `description` members, each where it is present and is a
/// string.
#[derive(Debug)]
pub struct SinkEntry {
    pub name: Option<String>,
    pub description: Option<String>,
}

/// The mathematical value of a [`SinkEntry`].
pub open spec fn sink_entry_view(e: SinkEntry) -> (Option<Seq<char>>, Option<Seq<char>>) {
    (
        match e.name {
            Some(s) => Some(s@),
            None => None,
        },
        match e.description {
            Some(s) => Some(s@),
            None => None,
        },
    )
}

/// The sink list that the JSON text `json` holds: `None` when `serde_json`
/// does not read the text as an array of JSON values (text that is not a JSON
/// array, or an array nested more than 128 levels deep, which the parser's
/// recursion limit refuses); otherwise, for each element in order, its `name`
/// and `description` string members as [`SinkEntry`] reads them.
pub uninterp spec fn pactl_sinks(json: Seq<char>) -> Option<Seq<(Option<Seq<char>>, Option<Seq<char>>)>>;

/// Parses the JSON output of `pactl -f json list sinks` with
/// `serde_json::from_str` into a list of JSON values, and reads the `name`
/// and `description` members of each with `Value::get` and `Value::as_str`.
/// The contract says that the result is the one that [`pactl_sinks`] names,
/// and that an error comes exactly when that is `None`; the text of the
/// error is `serde_json`'s message and is not described.
#[verifier::external_body]
fn read_sink_list(json: &str) -> (r: Result<Vec<SinkEntry>, String>)
    ensures
        match r {
            Ok(v) => pactl_sinks(json@) == Some(v@.map_values(|e: SinkEntry| sink_entry_view(e))),
            Err(_) => pactl_sinks(json@) is None,
        },
{
    match serde_json::from_str::<Vec<serde_json::Value>>(json) {
        Ok(sinks) => Ok(sinks.iter().map(|s| SinkEntry {
            name: s.get("name").and_then(|v| v.as_str()).map(String::from),
            description: s.get("description").and_then(|v| v.as_str()).map(String::from),
        }).collect()),
        Err(e) => Err(e.to_string()),
    }
}

/// The device that a sink stands for: sinks without a name are left out; the
/// name is the id, and the description, or the name where there is none, is
/// what the user sees.
pub open spec fn sink_device(e: (Option<Seq<char>>, Option<Seq<char>>)) -> Option<DeviceView> {
    match e.0 {
        Some(name) => {
            let shown = match e.1 {
                Some(d) => d,
                None => name,
            };
            Some(DeviceView { id: name, name: shown, label: shown })
        },
        None => None,
    }
}

/// The devices of a sink list, in order.
pub open spec fn sink_devices(es: Seq<(Option<Seq<char>>, Option<Seq<char>>)>) -> Seq<DeviceView>
    decreases es.len(),
{
    if es.len() == 0 {
        Seq::empty()
    } else {
        match sink_device(es.last()) {
            Some(d) => sink_devices(es.drop_last()).push(d),
            None => sink_devices(es.drop_last()),
        }
    }
}

/// Law: every sink with a name becomes a device, in order, and no other sink
/// does. The devices are the named sinks, each with its name as id and its
/// description (or, lacking one, its name) as what the user sees; so there are
/// as many devices as named sinks, and the i-th named sink gives the i-th
/// device.
pub proof fn law_devices_are_named_sinks(es: Seq<(Option<Seq<char>>, Option<Seq<char>>)>)
    ensures
        sink_devices(es) == es.filter(|e: (Option<Seq<char>>, Option<Seq<char>>)| e.0 is Some).map_values(
            |e: (Option<Seq<char>>, Option<Seq<char>>)|
                DeviceView {
                    id: e.0->0,
                    name: if e.1 is Some {
                        e.1->0
                    } else {
                        e.0->0
                    },
                    label: if e.1 is Some {
                        e.1->0
                    } else {
                        e.0->0
                    },
                },
        ),
    decreases es.len(),
{
    reveal_with_fuel(Seq::filter, 1);
    if es.len() > 0 {
        law_devices_are_named_sinks(es.drop_last());
        let pred = |e: (Option<Seq<char>>, Option<Seq<char>>)| e.0 is Some;
        let f = |e: (Option<Seq<char>>, Option<Seq<char>>)|
            DeviceView {
                id: e.0->0,
                name: if e.1 is Some {
                    e.1->0
                } else {
                    e.0->0
                },
                label: if e.1 is Some {
                    e.1->0
                } else {
                    e.0->0
                },
            };
        let rest = es.drop_last().filter(pred);
        if pred(es.last()) {
            assert(es.filter(pred) == rest.push(es.last()));
            assert(rest.push(es.last()).map_values(f) =~= rest.map_values(f).push(f(es.last())));
        } else {
            assert(es.filter(pred) == rest);
        }
    }
}

/// The devices of the sinks that `pactl` listed.
pub fn devices_from_sinks(sinks: &Vec<SinkEntry>) -> (devices: Vec<Device>)
    ensures
        devices@.map_values(|d: Device| d@) == sink_devices(
            sinks@.map_values(|e: SinkEntry| sink_entry_view(e)),
        ),
{
    let ghost es = sinks@.map_values(|e: SinkEntry| sink_entry_view(e));
    let mut devices: Vec<Device> = Vec::new();
    let mut i: usize = 0;
    while i < sinks.len()
        invariant
            0 <= i <= sinks@.len(),
            es == sinks@.map_values(|e: SinkEntry| sink_entry_view(e)),
            devices@.map_values(|d: Device| d@) == sink_devices(es.take(i as int)),
        decreases sinks@.len() - i,
    {
        let ghost before = devices@.map_values(|d: Device| d@);
        let e = &sinks[i];
        assert(es.take(i + 1).drop_last() =~= es.take(i as int));
        assert(es.take(i + 1).last() == sink_entry_view(*e));
        match &e.name {
            Some(name) => {
                let shown = match &e.description {
                    Some(d) => d.clone(),
                    None => name.clone(),
                };
                let device = Device { id: name.clone(), name: shown.clone(), label: shown };
                devices.push(device);
                assert(devices@.map_values(|d: Device| d@) =~= before.push(device@));
            },
            None => {},
        }
        i += 1;
    }
    assert(es.take(sinks@.len() as int) =~= es);
    devices
}

/// The devices listed in the JSON output of `pactl -f json list sinks`; an
/// error with the parser's message when [`pactl_sinks`] reads no sink list.
pub fn list_devices_from_json(json: &str) -> (r: Result<Vec<Device>, String>)
    ensures
        match r {
            Ok(devices) => pactl_sinks(json@) is Some && devices@.map_values(|d: Device| d@)
                == sink_devices(pactl_sinks(json@)->0),
            Err(_) => pactl_sinks(json@) is None,
        },
{
    match read_sink_list(json) {
        Ok(sinks) => Ok(devices_from_sinks(&sinks)),
        Err(e) => Err(e),
    }
}

/// The default sink named by the output of `pactl get-default-sink`: the
/// output without surrounding whitespace, unless nothing is left.
pub open spec fn default_sink_of(output: Seq<char>) -> Option<Seq<char>> {
    if trim_whitespace(output).len() == 0 {
        None
    } else {
        Some(trim_whitespace(output))
    }
}

/// Reads the id of the default device from the output of
/// `pactl get-default-sink`.
pub fn default_sink_from_output(output: &str) -> (r: Option<String>)
    ensures
        match r {
            Some(s) => default_sink_of(output@) == Some(s@),
            None => default_sink_of(output@) is None,
        },
{
    let v = chars_of(output);
    let (a, b) = trim_range(&v);
    if a == b {
        None
    } else {
        Some(string_from_range(&v, a, b))
    }
}

/// The message of a failed `pactl set-default-sink`, followed by what the
/// command wrote to its error stream.
pub open spec fn set_default_failure(stderr: Seq<char>) -> Seq<char> {
    "pactl set-default-sink failed: "@ + stderr
}

/// The outcome of `pactl set-default-sink`: success when the command
/// succeeded, otherwise an error that quotes its error stream.
pub fn set_default_outcome(succeeded: bool, stderr: &str) -> (r: Result<(), String>)
    ensures
        succeeded ==> r is Ok,
        !succeeded ==> (r matches Err(m) && m@ == set_default_failure(stderr@)),
{
    if succeeded {
        Ok(())
    } else {
        let mut m = String::new();
        m.append("pactl set-default-sink failed: ");
        m.append(stderr);
        assert(m@ =~= set_default_failure(stderr@));
        Err(m)
    }
}

/// The device that a Windows audio endpoint stands for: its friendly name is
/// shown, or its id when the friendly name is empty; its description is the
/// label.
pub fn device_from_endpoint(id: String, friendly_name: String, description: String) -> (d: Device)
    ensures
        d@.id == id@,
        d@.name == (if friendly_name@.len() == 0 {
            id@
        } else {
            friendly_name@
        }),
        d@.label == description@,
{
    let name = if friendly_name.as_str().is_empty() {
        id.clone()
    } else {
        friendly_name
    };
    Device { id, name, label: description }
}

} // verus!
