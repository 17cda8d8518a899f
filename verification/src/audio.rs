//! Audio devices and players: the records the audio plugin shows, the
//! filtering and ordering of the device lists, and how media players on the
//! session bus are recognized and described.

use vstd::prelude::*;
use crate::text::{
    chars_of, lemma_text_le_total, lemma_text_le_trans, text_le, text_le_chars, has_prefix, starts_with_chars,
    ends_with_chars, contains_seq, contains_chars, same_chars, string_from_chars,
};

verus! {

/// A sound card sink or source.
#[derive(Debug, Clone)]
pub struct AudioDevice {
    pub name: String,
    pub description: String,
    pub index: u32,
    pub is_default: bool,
}

/// A port of a device.
#[derive(Debug, Clone)]
pub struct DevicePort {
    pub name: String,
    pub description: String,
    pub priority: u32,
    pub available: String,
}

/// What a media player is playing.
#[derive(Debug, Clone)]
pub struct NowPlaying {
    pub title: String,
    pub artist: String,
    pub album: String,
    pub album_art: Option<String>,
    pub position: u64,
    pub length: u64,
    pub playing: bool,
    pub player_name: String,
}

/// A media player found on the session bus.
#[derive(Debug, Clone)]
pub struct PlayerInfo {
    pub dbus_name: String,
    pub player_name: String,
    pub title: String,
    pub artist: String,
    pub album: String,
    pub album_art: Option<String>,
    pub playing: bool,
    pub position: u64,
    pub length: u64,
}

/// Helpers for the device lists.
pub struct DeviceManager {}

/// The content of a device record.
pub struct AudioDeviceView {
    pub name: Seq<char>,
    pub description: Seq<char>,
    pub index: u32,
    pub is_default: bool,
}

impl View for AudioDevice {
    type V = AudioDeviceView;

    open spec fn view(&self) -> AudioDeviceView {
        AudioDeviceView {
            name: self.name@,
            description: self.description@,
            index: self.index,
            is_default: self.is_default,
        }
    }
}

pub open spec fn device_views(ds: Seq<AudioDevice>) -> Seq<AudioDeviceView> {
    ds.map_values(|d: AudioDevice| d@)
}

impl AudioDevice {
    /// A copy of this record.
    pub fn copied(&self) -> (r: Self)
        ensures
            r@ == self@,
    {
        AudioDevice {
            name: self.name.clone(),
            description: self.description.clone(),
            index: self.index,
            is_default: self.is_default,
        }
    }
}

/// Whether `s` ends with `suffix`.
pub open spec fn ends_with(s: Seq<char>, suffix: Seq<char>) -> bool {
    s.len() >= suffix.len() && s.subrange(s.len() - suffix.len(), s.len() as int) == suffix
}

/// Input devices kept in the list: the default source, and any device that
/// is not a monitor of an output.
pub open spec fn keep_input(default_source: Option<Seq<char>>) -> spec_fn(AudioDeviceView) -> bool {
    |d: AudioDeviceView| default_source == Some(d.name) || !ends_with(d.name, ".monitor"@)
}

/// Whether device `a` sorts after `b`: defaults come first, then by description.
pub open spec fn device_after(a: AudioDeviceView, b: AudioDeviceView) -> bool {
    (!a.is_default && b.is_default) || (a.is_default == b.is_default && !text_le(a.description, b.description))
}

/// `s` with `d` inserted after the devices that do not sort after it.
pub open spec fn insert_device(s: Seq<AudioDeviceView>, d: AudioDeviceView) -> Seq<AudioDeviceView>
    decreases s.len(),
{
    if s.len() == 0 {
        seq![d]
    } else if !device_after(s.last(), d) {
        s.push(d)
    } else {
        insert_device(s.drop_last(), d).push(s.last())
    }
}

/// `s` sorted with defaults first, then by description; devices that
/// compare equal keep their order.
pub open spec fn sort_devices_spec(s: Seq<AudioDeviceView>) -> Seq<AudioDeviceView>
    decreases s.len(),
{
    if s.len() == 0 {
        s
    } else {
        insert_device(sort_devices_spec(s.drop_last()), s.last())
    }
}

proof fn lemma_insert_device_at(s: Seq<AudioDeviceView>, d: AudioDeviceView, k: int)
    requires
        0 <= k <= s.len(),
        forall|j: int| k <= j < s.len() ==> device_after(#[trigger] s[j], d),
        k == 0 || !device_after(s[k - 1], d),
    ensures
        insert_device(s, d) == s.take(k) + seq![d] + s.skip(k),
    decreases s.len(),
{
    if s.len() == 0 {
        assert(s.take(k) + seq![d] + s.skip(k) =~= seq![d]);
    } else if k == s.len() {
        assert(s.last() == s[k - 1]);
        assert(s.take(k) + seq![d] + s.skip(k) =~= s.push(d));
    } else {
        let t = s.drop_last();
        assert(device_after(s.last(), d)) by {
            assert(s.last() == s[s.len() - 1]);
        }
        assert forall|j: int| k <= j < t.len() implies device_after(#[trigger] t[j], d) by {
            assert(t[j] == s[j]);
        }
        if k > 0 {
            assert(t[k - 1] == s[k - 1]);
        }
        lemma_insert_device_at(t, d, k);
        assert(t.take(k) + seq![d] + t.skip(k) + seq![s.last()] =~= s.take(k) + seq![d] + s.skip(k));
    }
}

fn device_after_exec(a: &AudioDevice, b: &AudioDevice) -> (r: bool)
    ensures
        r == device_after(a@, b@),
{
    if !a.is_default && b.is_default {
        return true;
    }
    if a.is_default != b.is_default {
        return false;
    }
    !text_le_chars(&chars_of(a.description.as_str()), &chars_of(b.description.as_str()))
}

fn insert_device_exec(v: &mut Vec<AudioDevice>, d: AudioDevice)
    ensures
        device_views(final(v)@) == insert_device(device_views(old(v)@), d@),
{
    let mut k: usize = v.len();
    while k > 0 && device_after_exec(&v[k - 1], &d)
        invariant
            k <= v@.len(),
            forall|j: int| k <= j < v@.len() ==> device_after((#[trigger] v@[j])@, d@),
        decreases k,
    {
        k -= 1;
    }
    let ghost sv = device_views(v@);
    proof {
        assert forall|j: int| k <= j < sv.len() implies device_after(#[trigger] sv[j], d@) by {
            assert(sv[j] == v@[j]@);
        }
        if k > 0 {
            assert(sv[k - 1] == v@[k - 1]@);
        }
        lemma_insert_device_at(sv, d@, k as int);
    }
    let ghost dv = d@;
    v.insert(k, d);
    proof {
        assert(device_views(v@) =~= sv.take(k as int) + seq![dv] + sv.skip(k as int));
    }
}

fn is_monitor(name: &String) -> (r: bool)
    ensures
        r == ends_with(name@, ".monitor"@),
{
    let v = chars_of(name.as_str());
    let suffix = chars_of(".monitor");
    let r = ends_with_chars(&v, &suffix);
    proof {
        if v@.len() >= suffix@.len() {
            assert(v@.skip(v@.len() - suffix@.len()) =~= v@.subrange(v@.len() - suffix@.len(), v@.len() as int));
        }
    }
    r
}

fn same_name(a: &String, b: &str) -> (r: bool)
    ensures
        r == (a@ == b@),
{
    same_chars(&chars_of(a.as_str()), &chars_of(b))
}

impl DeviceManager {
    /// The outputs unchanged, and the inputs without the monitors of
    /// outputs, except the default source.
    pub fn filter_devices(
        outputs: Vec<AudioDevice>,
        inputs: Vec<AudioDevice>,
        default_source_name: Option<&str>,
    ) -> (r: (Vec<AudioDevice>, Vec<AudioDevice>))
        ensures
            r.0@ == outputs@,
            device_views(r.1@) == device_views(inputs@).filter(
                keep_input(
                    match default_source_name {
                        Some(n) => Some(n@),
                        None => None,
                    },
                ),
            ),
    {
        let ghost ds = match default_source_name {
            Some(n) => Some(n@),
            None => None,
        };
        let ghost keep = keep_input(ds);
        let ghost all = device_views(inputs@);
        let mut kept: Vec<AudioDevice> = Vec::new();
        let mut i: usize = 0;
        while i < inputs.len()
            invariant
                i <= inputs@.len(),
                all == device_views(inputs@),
                keep == keep_input(ds),
                ds == (match default_source_name {
                    Some(n) => Some(n@),
                    None => None,
                }),
                device_views(kept@) == all.take(i as int).filter(keep),
            decreases inputs.len() - i,
        {
            let d = &inputs[i];
            let is_default = match default_source_name {
                Some(n) => same_name(&d.name, n),
                None => false,
            };
            let k = is_default || !is_monitor(&d.name);
            proof {
                assert(all.take(i + 1) == all.take(i as int).push(d@));
                all.take(i as int).lemma_filter_push(d@, keep);
                assert(keep(d@) == k);
            }
            if k {
                let ghost before = kept@;
                kept.push(d.copied());
                proof {
                    assert(device_views(kept@) =~= device_views(before).push(d@));
                }
            }
            i += 1;
        }
        proof {
            assert(all.take(inputs@.len() as int) == all);
        }
        (outputs, kept)
    }

    /// The devices with the defaults first, then by description; devices
    /// that compare equal keep their order.
    pub fn sort_devices(devices: Vec<AudioDevice>) -> (r: Vec<AudioDevice>)
        ensures
            device_views(r@) == sort_devices_spec(device_views(devices@)),
    {
        let ghost all = device_views(devices@);
        let mut r: Vec<AudioDevice> = Vec::new();
        let mut i: usize = 0;
        while i < devices.len()
            invariant
                i <= devices@.len(),
                all == device_views(devices@),
                device_views(r@) == sort_devices_spec(all.take(i as int)),
            decreases devices.len() - i,
        {
            let d = devices[i].copied();
            proof {
                assert(all.take(i + 1).drop_last() == all.take(i as int));
                assert(all.take(i + 1).last() == d@);
            }
            insert_device_exec(&mut r, d);
            i += 1;
        }
        proof {
            assert(all.take(devices@.len() as int) == all);
        }
        r
    }
}

/// Whether `s` is in device order: no device sorts after a later one.
pub open spec fn in_device_order(s: Seq<AudioDeviceView>) -> bool {
    forall|i: int, j: int| 0 <= i < j < s.len() ==> !device_after(s[i], s[j])
}

proof fn lemma_device_order_total(a: AudioDeviceView, b: AudioDeviceView)
    ensures
        !device_after(a, b) || !device_after(b, a),
{
    lemma_text_le_total(a.description, b.description);
}

proof fn lemma_device_order_trans(a: AudioDeviceView, b: AudioDeviceView, c: AudioDeviceView)
    requires
        !device_after(a, b),
        !device_after(b, c),
    ensures
        !device_after(a, c),
{
    if a.is_default == b.is_default && b.is_default == c.is_default {
        lemma_text_le_trans(a.description, b.description, c.description);
    }
}

proof fn lemma_insert_device(s: Seq<AudioDeviceView>, d: AudioDeviceView)
    requires
        in_device_order(s),
    ensures
        in_device_order(insert_device(s, d)),
        insert_device(s, d).to_multiset() =~= s.to_multiset().insert(d),
        forall|x: AudioDeviceView| #[trigger] insert_device(s, d).contains(x) ==> x == d || s.contains(x),
    decreases s.len(),
{
    broadcast use vstd::seq_lib::group_to_multiset_ensures;

    if s.len() == 0 {
        assert(insert_device(s, d) == seq![d]);
        assert(seq![d] == Seq::<AudioDeviceView>::empty().push(d));
    } else if !device_after(s.last(), d) {
        let r = s.push(d);
        assert forall|i: int, j: int| 0 <= i < j < r.len() implies !device_after(r[i], r[j]) by {
            if j == r.len() - 1 && i < s.len() - 1 {
                lemma_device_order_trans(s[i], s.last(), d);
            }
        }
    } else {
        let t = s.drop_last();
        let l = s.last();
        lemma_insert_device(t, d);
        let u = insert_device(t, d);
        lemma_device_order_total(l, d);
        assert forall|i: int| 0 <= i < u.len() implies !device_after(#[trigger] u[i], l) by {
            assert(u.contains(u[i]));
            if u[i] != d {
                let k = choose|k: int| 0 <= k < t.len() && t[k] == u[i];
                assert(s[k] == t[k]);
                assert(s[s.len() - 1] == l);
            }
        }
        let r = u.push(l);
        assert forall|i: int, j: int| 0 <= i < j < r.len() implies !device_after(r[i], r[j]) by {
            if j == r.len() - 1 {
                assert(r[i] == u[i]);
            } else {
                assert(r[i] == u[i] && r[j] == u[j]);
            }
        }
        assert forall|x: AudioDeviceView| #[trigger] r.contains(x) implies x == d || s.contains(x) by {
            if x == l {
                assert(s[s.len() - 1] == l);
            } else {
                let k = choose|k: int| 0 <= k < r.len() && r[k] == x;
                assert(u[k] == x);
                assert(u.contains(x));
                if x != d {
                    let m = choose|m: int| 0 <= m < t.len() && t[m] == x;
                    assert(s[m] == x);
                }
            }
        }
        assert(s == t.push(l));
    }
}

proof fn lemma_sort_devices(s: Seq<AudioDeviceView>)
    ensures
        in_device_order(sort_devices_spec(s)),
        sort_devices_spec(s).to_multiset() =~= s.to_multiset(),
    decreases s.len(),
{
    broadcast use vstd::seq_lib::group_to_multiset_ensures;

    if s.len() > 0 {
        lemma_sort_devices(s.drop_last());
        lemma_insert_device(sort_devices_spec(s.drop_last()), s.last());
        assert(s == s.drop_last().push(s.last()));
    }
}

/// Sorting keeps the devices and puts every default device before every
/// other one, and descriptions in order among devices of the same kind.
pub proof fn lemma_sorted_devices_default_first(s: Seq<AudioDeviceView>)
    ensures
        sort_devices_spec(s).to_multiset() =~= s.to_multiset(),
        forall|i: int, j: int|
            0 <= i < j < sort_devices_spec(s).len() && (#[trigger] sort_devices_spec(s)[j]).is_default ==> (
            #[trigger] sort_devices_spec(s)[i]).is_default,
        forall|i: int, j: int|
            0 <= i < j < sort_devices_spec(s).len() && sort_devices_spec(s)[i].is_default == sort_devices_spec(s)[j].is_default
                ==> text_le(sort_devices_spec(s)[i].description, sort_devices_spec(s)[j].description),
{
    lemma_sort_devices(s);
    let r = sort_devices_spec(s);
    assert(in_device_order(r));
    assert forall|i: int, j: int| 0 <= i < j < r.len() && (#[trigger] r[j]).is_default implies (#[trigger] r[i]).is_default by {
        assert(!device_after(r[i], r[j]));
    }
    assert forall|i: int, j: int| 0 <= i < j < r.len() && r[i].is_default == r[j].is_default implies text_le(
        r[i].description,
        r[j].description,
    ) by {
        assert(!device_after(r[i], r[j]));
    }
}

/// A filtered input list holds no monitor of an output, except the
/// default source.
pub proof fn lemma_filtered_inputs(inputs: Seq<AudioDeviceView>, default_source: Option<Seq<char>>)
    ensures
        forall|i: int|
            0 <= i < inputs.filter(keep_input(default_source)).len() ==> {
                let d = #[trigger] inputs.filter(keep_input(default_source))[i];
                default_source == Some(d.name) || !ends_with(d.name, ".monitor"@)
            },
{
    assert forall|i: int| 0 <= i < inputs.filter(keep_input(default_source)).len() implies {
        let d = #[trigger] inputs.filter(keep_input(default_source))[i];
        default_source == Some(d.name) || !ends_with(d.name, ".monitor"@)
    } by {
        inputs.lemma_filter_pred(keep_input(default_source), i);
    }
}

/// The bus names of media players begin with this prefix.
pub open spec fn mpris_prefix() -> Seq<char> {
    "org.mpris.MediaPlayer2."@
}

/// The player name of a bus name: the bus name without the media player
/// prefix, or the whole name when it lacks the prefix.
pub open spec fn spec_player_name(bus_name: Seq<char>) -> Seq<char> {
    if has_prefix(bus_name, mpris_prefix()) {
        bus_name.skip(mpris_prefix().len() as int)
    } else {
        bus_name
    }
}

/// The player name of a bus name.
pub fn player_name_of(bus_name: &str) -> (r: String)
    ensures
        r@ == spec_player_name(bus_name@),
{
    let v = chars_of(bus_name);
    let prefix = chars_of("org.mpris.MediaPlayer2.");
    if starts_with_chars(&v, &prefix) {
        let mut r: Vec<char> = Vec::new();
        let mut i: usize = prefix.len();
        while i < v.len()
            invariant
                prefix@ == mpris_prefix(),
                prefix@.len() <= i <= v@.len(),
                r@ == v@.subrange(prefix@.len() as int, i as int),
            decreases v.len() - i,
        {
            r.push(v[i]);
            proof {
                assert(v@.subrange(prefix@.len() as int, i + 1) == v@.subrange(prefix@.len() as int, i as int).push(
                    v@[i as int],
                ));
            }
            i += 1;
        }
        proof {
            assert(v@.subrange(prefix@.len() as int, v@.len() as int) == v@.skip(prefix@.len() as int));
        }
        string_from_chars(r.as_slice())
    } else {
        String::from_str(bus_name)
    }
}

/// The media players among the names on the session bus, each with its
/// bus name and player name, in the order of the list.
pub open spec fn spec_media_players(names: Seq<Seq<char>>) -> Seq<(Seq<char>, Seq<char>)>
    decreases names.len(),
{
    if names.len() == 0 {
        Seq::empty()
    } else {
        let prev = spec_media_players(names.drop_last());
        let n = names.last();
        if has_prefix(n, mpris_prefix()) {
            prev.push((n, spec_player_name(n)))
        } else {
            prev
        }
    }
}

/// A media player found on the session bus: its bus name and player name.
pub struct BusPlayer {
    pub dbus_name: String,
    pub player_name: String,
}

/// The media players among the names on the session bus.
pub fn media_players(names: &Vec<String>) -> (r: Vec<BusPlayer>)
    ensures
        r@.map_values(|p: BusPlayer| (p.dbus_name@, p.player_name@)) == spec_media_players(
            names@.map_values(|s: String| s@),
        ),
{
    let ghost nv = names@.map_values(|s: String| s@);
    let ghost f = |p: BusPlayer| (p.dbus_name@, p.player_name@);
    let prefix = chars_of("org.mpris.MediaPlayer2.");
    let mut r: Vec<BusPlayer> = Vec::new();
    let mut i: usize = 0;
    while i < names.len()
        invariant
            i <= names@.len(),
            nv == names@.map_values(|s: String| s@),
            f == (|p: BusPlayer| (p.dbus_name@, p.player_name@)),
            prefix@ == mpris_prefix(),
            r@.map_values(f) == spec_media_players(nv.take(i as int)),
        decreases names.len() - i,
    {
        let v = chars_of(names[i].as_str());
        proof {
            assert(nv.take(i + 1).drop_last() == nv.take(i as int));
            assert(nv.take(i + 1).last() == names@[i as int]@);
        }
        if starts_with_chars(&v, &prefix) {
            let p = BusPlayer { dbus_name: names[i].clone(), player_name: player_name_of(names[i].as_str()) };
            let ghost before = r@;
            r.push(p);
            proof {
                assert(r@.map_values(f) =~= before.map_values(f).push(f(p)));
            }
        }
        i += 1;
    }
    proof {
        assert(nv.take(names@.len() as int) == nv);
    }
    r
}

/// Whether a player that calls itself `identity` is the one found on the
/// bus as `dbus_name` with player name `player_name`: the identity is one
/// of the two names, holds the player name, or is held in the bus name.
pub open spec fn spec_identity_matches(identity: Seq<char>, player_name: Seq<char>, dbus_name: Seq<char>) -> bool {
    identity == player_name || identity == dbus_name || contains_seq(identity, player_name) || contains_seq(
        dbus_name,
        identity,
    )
}

/// Whether a player's identity names the player found on the bus.
pub fn identity_matches(identity: &str, player_name: &str, dbus_name: &str) -> (r: bool)
    ensures
        r == spec_identity_matches(identity@, player_name@, dbus_name@),
{
    let i = chars_of(identity);
    let p = chars_of(player_name);
    let d = chars_of(dbus_name);
    same_chars(&i, &p) || same_chars(&i, &d) || contains_chars(i.as_slice(), p.as_slice()) || contains_chars(
        d.as_slice(),
        i.as_slice(),
    )
}

/// What a player's metadata says of the track, each part when present.
pub struct TrackMetadata {
    pub title: Option<String>,
    pub first_artist: Option<String>,
    pub album: Option<String>,
    pub art_url: Option<String>,
    /// The length of the track, in whole seconds.
    pub length: Option<u64>,
}

pub open spec fn opt_text(o: Option<String>) -> Option<Seq<char>> {
    match o {
        Some(s) => Some(s@),
        None => None,
    }
}

pub open spec fn or_text(o: Option<String>, d: Seq<char>) -> Seq<char> {
    match o {
        Some(s) => s@,
        None => d,
    }
}

/// The title shown while a player tells no title.
pub open spec fn default_title(player_name: Seq<char>) -> Seq<char> {
    "Playing from "@ + player_name
}

fn text_or(o: &Option<String>, d: &str) -> (r: String)
    ensures
        r@ == or_text(*o, d@),
{
    match o {
        Some(s) => s.clone(),
        None => String::from_str(d),
    }
}

impl PlayerInfo {
    /// What is known of a player: its names, whether it plays, its position
    /// in whole seconds and, when it could be read, its metadata; a part the
    /// metadata lacks reads `Playing from <player>`, `Unknown Artist`,
    /// `Unknown Album`, no album art, or a length of 0.
    pub fn describe(
        dbus_name: &str,
        player_name: &str,
        playing: bool,
        position: u64,
        metadata: &Option<TrackMetadata>,
    ) -> (r: PlayerInfo)
        ensures
            r.dbus_name@ == dbus_name@,
            r.player_name@ == player_name@,
            r.playing == playing,
            r.position == position,
            match metadata {
                Some(m) => {
                    &&& r.title@ == or_text(m.title, default_title(player_name@))
                    &&& r.artist@ == or_text(m.first_artist, "Unknown Artist"@)
                    &&& r.album@ == or_text(m.album, "Unknown Album"@)
                    &&& opt_text(r.album_art) == opt_text(m.art_url)
                    &&& r.length == (match m.length {
                        Some(l) => l,
                        None => 0,
                    })
                },
                None => {
                    &&& r.title@ == default_title(player_name@)
                    &&& r.artist@ == "Unknown Artist"@
                    &&& r.album@ == "Unknown Album"@
                    &&& r.album_art.is_none()
                    &&& r.length == 0
                },
            },
    {
        let mut fallback = String::from_str("Playing from ");
        fallback.append(player_name);
        match metadata {
            Some(m) => {
                let title = match &m.title {
                    Some(t) => t.clone(),
                    None => fallback,
                };
                PlayerInfo {
                    dbus_name: String::from_str(dbus_name),
                    player_name: String::from_str(player_name),
                    title,
                    artist: text_or(&m.first_artist, "Unknown Artist"),
                    album: text_or(&m.album, "Unknown Album"),
                    album_art: match &m.art_url {
                        Some(u) => Some(u.clone()),
                        None => None,
                    },
                    playing,
                    position,
                    length: match m.length {
                        Some(l) => l,
                        None => 0,
                    },
                }
            },
            None => PlayerInfo {
                dbus_name: String::from_str(dbus_name),
                player_name: String::from_str(player_name),
                title: fallback,
                artist: String::from_str("Unknown Artist"),
                album: String::from_str("Unknown Album"),
                album_art: None,
                playing,
                position,
                length: 0,
            },
        }
    }
}

impl NowPlaying {
    /// What the audio window shows of a player.
    pub fn of_player(p: &PlayerInfo) -> (r: NowPlaying)
        ensures
            r.title@ == p.title@,
            r.artist@ == p.artist@,
            r.album@ == p.album@,
            opt_text(r.album_art) == opt_text(p.album_art),
            r.position == p.position,
            r.length == p.length,
            r.playing == p.playing,
            r.player_name@ == p.player_name@,
    {
        NowPlaying {
            title: p.title.clone(),
            artist: p.artist.clone(),
            album: p.album.clone(),
            album_art: match &p.album_art {
                Some(u) => Some(u.clone()),
                None => None,
            },
            position: p.position,
            length: p.length,
            playing: p.playing,
            player_name: p.player_name.clone(),
        }
    }

    /// Whether the player told real metadata: a title other than the
    /// `Playing from` fallback and without `Unknown` in it, and an artist
    /// other than `Unknown Artist`. Only then is the track shown.
    pub fn has_real_metadata(&self) -> (r: bool)
        ensures
            r == (self.title@ != default_title(self.player_name@) && !contains_seq(self.title@, "Unknown"@)
                && self.artist@ != "Unknown Artist"@),
    {
        let mut fallback = String::from_str("Playing from ");
        fallback.append(self.player_name.as_str());
        let t = chars_of(self.title.as_str());
        let f = chars_of(fallback.as_str());
        let u = chars_of("Unknown");
        let a = chars_of(self.artist.as_str());
        let ua = chars_of("Unknown Artist");
        !same_chars(&t, &f) && !contains_chars(t.as_slice(), u.as_slice()) && !same_chars(&a, &ua)
    }
}

} // verus!
