//! The decisions of the audio window: how its state answers each message
//! and what it asks of the sound server and the media players in turn.
//! Volumes are fractional numbers and stay with the window; the state here
//! holds what the decisions read.

use vstd::prelude::*;
use crate::audio::{
    AudioDevice, AudioDeviceView, DeviceManager, device_views, keep_input, sort_devices_spec,
};

verus! {

/// An application's playback stream as the decisions read it: which
/// stream, and whether it is muted.
#[derive(Debug, Clone, Copy)]
pub struct AppStream {
    pub index: u32,
    pub muted: bool,
}

/// The audio window's state that its decisions read and change.
pub struct AudioControls {
    pub muted: bool,
    pub mic_muted: bool,
    pub output_devices: Vec<AudioDevice>,
    pub input_devices: Vec<AudioDevice>,
    pub selected_output: Option<usize>,
    pub selected_input: Option<usize>,
    pub streams: Vec<AppStream>,
    pub show_app_volumes: bool,
    pub show_devices: bool,
    pub notification: Option<String>,
}

/// The content of the audio window's state.
pub struct AudioControlsView {
    pub muted: bool,
    pub mic_muted: bool,
    pub output_devices: Seq<AudioDeviceView>,
    pub input_devices: Seq<AudioDeviceView>,
    pub selected_output: Option<usize>,
    pub selected_input: Option<usize>,
    pub streams: Seq<AppStream>,
    pub show_app_volumes: bool,
    pub show_devices: bool,
    pub notification: Option<Seq<char>>,
}

impl View for AudioControls {
    type V = AudioControlsView;

    open spec fn view(&self) -> AudioControlsView {
        AudioControlsView {
            muted: self.muted,
            mic_muted: self.mic_muted,
            output_devices: device_views(self.output_devices@),
            input_devices: device_views(self.input_devices@),
            selected_output: self.selected_output,
            selected_input: self.selected_input,
            streams: self.streams@,
            show_app_volumes: self.show_app_volumes,
            show_devices: self.show_devices,
            notification: match self.notification {
                Some(s) => Some(s@),
                None => None,
            },
        }
    }
}

/// The messages of the audio window that its decisions answer.
pub enum AudioEvent {
    ToggleMute,
    ToggleMicMute,
    PlayPause,
    Previous,
    Next,
    Seek(u64),
    SelectOutputDevice(usize),
    SelectInputDevice(usize),
    ToggleDevices,
    ToggleAppVolumes,
    AppMuteToggled(u32),
    StreamsUpdate(Vec<AppStream>),
    MuteUpdate(bool),
    MicMuteUpdate(bool),
    DevicesUpdate(Vec<AudioDevice>, Vec<AudioDevice>),
    ClearNotification,
    WindowDragged,
    Minimize,
    Maximize,
    Close,
}

/// What the audio window asks of the sound server, the media players or
/// its toolkit after a message.
#[derive(Debug)]
pub enum AudioAction {
    Nothing,
    SetMute(bool),
    SetMicMute(bool),
    PlayPause,
    Previous,
    Next,
    Seek(u64),
    /// Make the sink with this server index the default output.
    SetDefaultOutput(u32),
    /// Make the source with this server index the default input.
    SetDefaultInput(u32),
    /// Ask the server for the application streams.
    FetchStreams,
    /// Mute (or unmute) the application stream with this index.
    SetStreamMute(u32, bool),
    Drag,
    Minimize,
    Maximize,
    Close,
}

/// Whether `k` is the first position of a stream with index `index`.
pub open spec fn first_stream_at(s: Seq<AppStream>, index: u32, k: int) -> bool {
    0 <= k < s.len() && s[k].index == index && forall|j: int| 0 <= j < k ==> (#[trigger] s[j]).index != index
}

/// The mute state asked for when an application's mute button is pressed:
/// the opposite of its first stream's, or unmuted when no stream has that
/// index.
pub open spec fn stream_mute_target(s: Seq<AppStream>, index: u32) -> bool {
    if exists|k: int| first_stream_at(s, index, k) {
        !s[choose|k: int| first_stream_at(s, index, k)].muted
    } else {
        false
    }
}

fn mute_target(s: &Vec<AppStream>, index: u32) -> (r: bool)
    ensures
        r == stream_mute_target(s@, index),
{
    let mut i: usize = 0;
    while i < s.len()
        invariant
            i <= s@.len(),
            forall|j: int| 0 <= j < i ==> (#[trigger] s@[j]).index != index,
        decreases s.len() - i,
    {
        if s[i].index == index {
            proof {
                assert(first_stream_at(s@, index, i as int));
                let k = choose|k: int| first_stream_at(s@, index, k);
                if k < i {
                    assert(s@[k].index != index);
                } else if k > i {
                    assert(s@[i as int].index != index);
                }
            }
            return !s[i].muted;
        }
        i += 1;
    }
    proof {
        assert forall|k: int| !first_stream_at(s@, index, k) by {
            if 0 <= k < s@.len() {
                assert(s@[k].index != index);
            }
        }
    }
    false
}

impl AudioControls {
    /// The window as it opens: unmuted, no devices or streams yet, the
    /// application volumes shown and the device lists hidden.
    pub fn new() -> (r: Self)
        ensures
            !r@.muted,
            !r@.mic_muted,
            r@.output_devices.len() == 0,
            r@.input_devices.len() == 0,
            r@.selected_output.is_none(),
            r@.selected_input.is_none(),
            r@.streams.len() == 0,
            r@.show_app_volumes,
            !r@.show_devices,
            r@.notification.is_none(),
    {
        AudioControls {
            muted: false,
            mic_muted: false,
            output_devices: Vec::new(),
            input_devices: Vec::new(),
            selected_output: None,
            selected_input: None,
            streams: Vec::new(),
            show_app_volumes: true,
            show_devices: false,
            notification: None,
        }
    }

    /// Answers a message: mute buttons flip the state and ask the server to
    /// follow; a device is selected only when its position is in the list;
    /// new device lists are filtered (no monitors of outputs) and sorted
    /// (defaults first, then by description); an application's mute button
    /// asks for the opposite of its stream's state.
    pub fn update(&mut self, ev: AudioEvent) -> (act: AudioAction)
        ensures
            match ev {
                AudioEvent::ToggleMute => {
                    &&& final(self)@ == (AudioControlsView { muted: !old(self)@.muted, ..old(self)@ })
                    &&& act == AudioAction::SetMute(!old(self)@.muted)
                },
                AudioEvent::ToggleMicMute => {
                    &&& final(self)@ == (AudioControlsView { mic_muted: !old(self)@.mic_muted, ..old(self)@ })
                    &&& act == AudioAction::SetMicMute(!old(self)@.mic_muted)
                },
                AudioEvent::PlayPause => final(self)@ == old(self)@ && act is PlayPause,
                AudioEvent::Previous => final(self)@ == old(self)@ && act is Previous,
                AudioEvent::Next => final(self)@ == old(self)@ && act is Next,
                AudioEvent::Seek(p) => final(self)@ == old(self)@ && act == AudioAction::Seek(p),
                AudioEvent::SelectOutputDevice(i) => if i < old(self)@.output_devices.len() {
                    &&& final(self)@ == (AudioControlsView { selected_output: Some(i), ..old(self)@ })
                    &&& act == AudioAction::SetDefaultOutput(old(self)@.output_devices[i as int].index)
                } else {
                    final(self)@ == old(self)@ && act is Nothing
                },
                AudioEvent::SelectInputDevice(i) => if i < old(self)@.input_devices.len() {
                    &&& final(self)@ == (AudioControlsView { selected_input: Some(i), ..old(self)@ })
                    &&& act == AudioAction::SetDefaultInput(old(self)@.input_devices[i as int].index)
                } else {
                    final(self)@ == old(self)@ && act is Nothing
                },
                AudioEvent::ToggleDevices => {
                    &&& final(self)@ == (AudioControlsView { show_devices: !old(self)@.show_devices, ..old(self)@ })
                    &&& act is Nothing
                },
                AudioEvent::ToggleAppVolumes => {
                    &&& final(self)@ == (AudioControlsView {
                        show_app_volumes: !old(self)@.show_app_volumes,
                        ..old(self)@
                    })
                    &&& act is FetchStreams
                },
                AudioEvent::AppMuteToggled(index) => {
                    &&& final(self)@ == old(self)@
                    &&& act == AudioAction::SetStreamMute(index, stream_mute_target(old(self)@.streams, index))
                },
                AudioEvent::StreamsUpdate(s) => {
                    &&& final(self)@ == (AudioControlsView { streams: s@, ..old(self)@ })
                    &&& act is Nothing
                },
                AudioEvent::MuteUpdate(m) => {
                    &&& final(self)@ == (AudioControlsView { muted: m, ..old(self)@ })
                    &&& act is Nothing
                },
                AudioEvent::MicMuteUpdate(m) => {
                    &&& final(self)@ == (AudioControlsView { mic_muted: m, ..old(self)@ })
                    &&& act is Nothing
                },
                AudioEvent::DevicesUpdate(outs, ins) => {
                    &&& final(self)@ == (AudioControlsView {
                        output_devices: sort_devices_spec(device_views(outs@)),
                        input_devices: sort_devices_spec(device_views(ins@).filter(keep_input(None))),
                        ..old(self)@
                    })
                    &&& act is Nothing
                },
                AudioEvent::ClearNotification => {
                    &&& final(self)@ == (AudioControlsView { notification: None, ..old(self)@ })
                    &&& act is Nothing
                },
                AudioEvent::WindowDragged => final(self)@ == old(self)@ && act is Drag,
                AudioEvent::Minimize => final(self)@ == old(self)@ && act is Minimize,
                AudioEvent::Maximize => final(self)@ == old(self)@ && act is Maximize,
                AudioEvent::Close => final(self)@ == old(self)@ && act is Close,
            },
    {
        match ev {
            AudioEvent::ToggleMute => {
                self.muted = !self.muted;
                AudioAction::SetMute(self.muted)
            },
            AudioEvent::ToggleMicMute => {
                self.mic_muted = !self.mic_muted;
                AudioAction::SetMicMute(self.mic_muted)
            },
            AudioEvent::PlayPause => AudioAction::PlayPause,
            AudioEvent::Previous => AudioAction::Previous,
            AudioEvent::Next => AudioAction::Next,
            AudioEvent::Seek(p) => AudioAction::Seek(p),
            AudioEvent::SelectOutputDevice(i) => {
                if i < self.output_devices.len() {
                    let device_index = self.output_devices[i].index;
                    self.selected_output = Some(i);
                    AudioAction::SetDefaultOutput(device_index)
                } else {
                    AudioAction::Nothing
                }
            },
            AudioEvent::SelectInputDevice(i) => {
                if i < self.input_devices.len() {
                    let device_index = self.input_devices[i].index;
                    self.selected_input = Some(i);
                    AudioAction::SetDefaultInput(device_index)
                } else {
                    AudioAction::Nothing
                }
            },
            AudioEvent::ToggleDevices => {
                self.show_devices = !self.show_devices;
                AudioAction::Nothing
            },
            AudioEvent::ToggleAppVolumes => {
                self.show_app_volumes = !self.show_app_volumes;
                AudioAction::FetchStreams
            },
            AudioEvent::AppMuteToggled(index) => {
                let m = mute_target(&self.streams, index);
                AudioAction::SetStreamMute(index, m)
            },
            AudioEvent::StreamsUpdate(s) => {
                self.streams = s;
                AudioAction::Nothing
            },
            AudioEvent::MuteUpdate(m) => {
                self.muted = m;
                AudioAction::Nothing
            },
            AudioEvent::MicMuteUpdate(m) => {
                self.mic_muted = m;
                AudioAction::Nothing
            },
            AudioEvent::DevicesUpdate(outs, ins) => {
                let (fo, fi) = DeviceManager::filter_devices(outs, ins, None);
                self.output_devices = DeviceManager::sort_devices(fo);
                self.input_devices = DeviceManager::sort_devices(fi);
                AudioAction::Nothing
            },
            AudioEvent::ClearNotification => {
                self.notification = None;
                AudioAction::Nothing
            },
            AudioEvent::WindowDragged => AudioAction::Drag,
            AudioEvent::Minimize => AudioAction::Minimize,
            AudioEvent::Maximize => AudioAction::Maximize,
            AudioEvent::Close => AudioAction::Close,
        }
    }
}

} // verus!
