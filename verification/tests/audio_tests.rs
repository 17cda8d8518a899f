use xfce_rs::audio::{
    identity_matches, media_players, player_name_of, AudioDevice, DeviceManager, NowPlaying, PlayerInfo, TrackMetadata,
};

fn dev(name: &str, desc: &str, is_default: bool) -> AudioDevice {
    AudioDevice { name: name.to_string(), description: desc.to_string(), index: 0, is_default }
}

#[test]
fn monitors_are_filtered_except_default() {
    let outputs = vec![dev("out.monitor", "Speakers", true)];
    let inputs = vec![
        dev("mic", "Microphone", false),
        dev("out.monitor", "Monitor of Speakers", false),
        dev("hdmi.monitor", "Monitor of HDMI", false),
    ];
    let (o, i) = DeviceManager::filter_devices(outputs, inputs, Some("hdmi.monitor"));
    assert_eq!(o.len(), 1);
    let names: Vec<&str> = i.iter().map(|d| d.name.as_str()).collect();
    assert_eq!(names, vec!["mic", "hdmi.monitor"]);
    let (_, i2) = DeviceManager::filter_devices(vec![], vec![dev("a.monitor", "A", false)], None);
    assert!(i2.is_empty());
}

#[test]
fn default_first_then_by_description() {
    let devices = vec![dev("c", "Zeta", false), dev("a", "Alpha", false), dev("d", "Mid", true), dev("b", "Alpha", false)];
    let sorted = DeviceManager::sort_devices(devices);
    let names: Vec<&str> = sorted.iter().map(|d| d.name.as_str()).collect();
    assert_eq!(names, vec!["d", "a", "b", "c"]);
}

#[test]
fn media_players_on_the_bus() {
    let names = vec![
        "org.freedesktop.DBus".to_string(),
        "org.mpris.MediaPlayer2.spotify".to_string(),
        ":1.42".to_string(),
        "org.mpris.MediaPlayer2.vlc.instance7".to_string(),
    ];
    let found = media_players(&names);
    let pairs: Vec<(&str, &str)> = found.iter().map(|p| (p.dbus_name.as_str(), p.player_name.as_str())).collect();
    assert_eq!(pairs, vec![("org.mpris.MediaPlayer2.spotify", "spotify"), ("org.mpris.MediaPlayer2.vlc.instance7", "vlc.instance7")]);
    assert_eq!(player_name_of("org.mpris.MediaPlayer2.mpv"), "mpv");
    assert_eq!(player_name_of("mpv"), "mpv");
}

#[test]
fn player_identity_matching() {
    assert!(identity_matches("spotify", "spotify", "org.mpris.MediaPlayer2.spotify"));
    assert!(identity_matches("VLC media player", "VLC", "org.mpris.MediaPlayer2.vlc"));
    assert!(identity_matches("vlc", "vlc.instance7", "org.mpris.MediaPlayer2.vlc.instance7"));
    assert!(!identity_matches("Firefox", "spotify", "org.mpris.MediaPlayer2.spotify"));
}

#[test]
fn player_descriptions_fall_back() {
    let p = PlayerInfo::describe("org.mpris.MediaPlayer2.mpv", "mpv", true, 12, &None);
    assert_eq!(p.title, "Playing from mpv");
    assert_eq!(p.artist, "Unknown Artist");
    assert_eq!(p.album, "Unknown Album");
    assert!(p.album_art.is_none());
    assert_eq!(p.length, 0);
    assert!(p.playing);
    let m = TrackMetadata {
        title: Some("Song".to_string()),
        first_artist: Some("Band".to_string()),
        album: None,
        art_url: Some("file:///a.png".to_string()),
        length: Some(200),
    };
    let p = PlayerInfo::describe("org.mpris.MediaPlayer2.mpv", "mpv", false, 3, &Some(m));
    assert_eq!(p.title, "Song");
    assert_eq!(p.artist, "Band");
    assert_eq!(p.album, "Unknown Album");
    assert_eq!(p.album_art.as_deref(), Some("file:///a.png"));
    assert_eq!(p.length, 200);
    let np = NowPlaying::of_player(&p);
    assert_eq!(np.title, "Song");
    assert_eq!(np.player_name, "mpv");
    assert!(np.has_real_metadata());
    let fallback = NowPlaying::of_player(&PlayerInfo::describe("b", "mpv", true, 0, &None));
    assert!(!fallback.has_real_metadata());
}
