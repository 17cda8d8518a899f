use xfce_rs::audio::AudioDevice;
use xfce_rs::mixer::{AppStream, AudioAction, AudioControls, AudioEvent};

fn dev(name: &str, desc: &str, index: u32, is_default: bool) -> AudioDevice {
    AudioDevice { name: name.to_string(), description: desc.to_string(), index, is_default }
}

#[test]
fn mute_buttons_flip_and_ask_the_server() {
    let mut c = AudioControls::new();
    assert!(c.show_app_volumes && !c.show_devices);
    assert!(matches!(c.update(AudioEvent::ToggleMute), AudioAction::SetMute(true)));
    assert!(c.muted);
    assert!(matches!(c.update(AudioEvent::ToggleMute), AudioAction::SetMute(false)));
    assert!(matches!(c.update(AudioEvent::ToggleMicMute), AudioAction::SetMicMute(true)));
    assert!(matches!(c.update(AudioEvent::MuteUpdate(true)), AudioAction::Nothing));
    assert!(c.muted);
}

#[test]
fn device_lists_are_filtered_sorted_and_selected() {
    let mut c = AudioControls::new();
    let outs = vec![dev("hdmi", "HDMI", 3, false), dev("spk", "Speakers", 1, true), dev("bt", "Bluetooth", 7, false)];
    let ins = vec![dev("spk.monitor", "Monitor of Speakers", 2, false), dev("mic", "Microphone", 4, true)];
    c.update(AudioEvent::DevicesUpdate(outs, ins));
    let o: Vec<&str> = c.output_devices.iter().map(|d| d.name.as_str()).collect();
    assert_eq!(o, vec!["spk", "bt", "hdmi"]);
    let i: Vec<&str> = c.input_devices.iter().map(|d| d.name.as_str()).collect();
    assert_eq!(i, vec!["mic"]);
    assert!(matches!(c.update(AudioEvent::SelectOutputDevice(2)), AudioAction::SetDefaultOutput(3)));
    assert_eq!(c.selected_output, Some(2));
    assert!(matches!(c.update(AudioEvent::SelectOutputDevice(9)), AudioAction::Nothing));
    assert_eq!(c.selected_output, Some(2));
    assert!(matches!(c.update(AudioEvent::SelectInputDevice(0)), AudioAction::SetDefaultInput(4)));
    assert!(matches!(c.update(AudioEvent::SelectInputDevice(1)), AudioAction::Nothing));
}

#[test]
fn app_mute_asks_for_the_opposite() {
    let mut c = AudioControls::new();
    c.update(AudioEvent::StreamsUpdate(vec![
        AppStream { index: 5, muted: false },
        AppStream { index: 8, muted: true },
        AppStream { index: 5, muted: true },
    ]));
    assert!(matches!(c.update(AudioEvent::AppMuteToggled(5)), AudioAction::SetStreamMute(5, true)));
    assert!(matches!(c.update(AudioEvent::AppMuteToggled(8)), AudioAction::SetStreamMute(8, false)));
    assert!(matches!(c.update(AudioEvent::AppMuteToggled(42)), AudioAction::SetStreamMute(42, false)));
}

#[test]
fn toggles_and_pass_through_messages() {
    let mut c = AudioControls::new();
    assert!(matches!(c.update(AudioEvent::ToggleAppVolumes), AudioAction::FetchStreams));
    assert!(!c.show_app_volumes);
    assert!(matches!(c.update(AudioEvent::ToggleDevices), AudioAction::Nothing));
    assert!(c.show_devices);
    assert!(matches!(c.update(AudioEvent::Seek(1500)), AudioAction::Seek(1500)));
    assert!(matches!(c.update(AudioEvent::PlayPause), AudioAction::PlayPause));
    assert!(matches!(c.update(AudioEvent::Close), AudioAction::Close));
}
