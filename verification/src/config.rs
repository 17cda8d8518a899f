//! The desktop's configuration store: channels of named properties, what a
//! read gives back of a write, and the names listed.

use vstd::prelude::*;
use crate::menu::join_path;
use crate::panel::settings::user_config_dir;
use crate::text::{chars_of, same_chars};

verus! {

/// Why a configuration operation failed.
#[derive(Debug)]
pub enum ConfigError {
    FileNotFound { path: String },
    InvalidFormat { reason: String },
    /// The channel, or the property in it, does not exist.
    PropertyNotFound { channel: String, property: String },
    /// Reading or writing the file failed, for this reason.
    Io(String),
    /// The file's text is not a configuration, for this reason.
    Parse(String),
}

/// A property's value. A fractional number is kept as the bits of its
/// 64-bit floating-point value.
#[derive(Debug)]
pub enum ConfigValue {
    String(String),
    Integer(i64),
    Boolean(bool),
    Float(u64),
    Array(Vec<ConfigValue>),
}

/// A property of a channel.
#[derive(Debug)]
pub struct ConfigProperty {
    pub name: String,
    pub value: ConfigValue,
}

/// The properties of a channel, each name at most once.
#[derive(Debug)]
pub struct ConfigChannel {
    pub properties: Vec<ConfigProperty>,
}

/// A channel with its name.
#[derive(Debug)]
pub struct NamedChannel {
    pub name: String,
    pub channel: ConfigChannel,
}

/// The configuration: its channels, each name at most once, and the file
/// it is kept in.
#[derive(Debug)]
pub struct XfceConfig {
    pub channels: Vec<NamedChannel>,
    pub config_path: String,
}

pub open spec fn prop_names(ps: Seq<ConfigProperty>) -> Seq<Seq<char>> {
    ps.map_values(|p: ConfigProperty| p.name@)
}

pub open spec fn channel_names(cs: Seq<NamedChannel>) -> Seq<Seq<char>> {
    cs.map_values(|c: NamedChannel| c.name@)
}

/// Whether no name occurs twice.
pub open spec fn unique_names(ns: Seq<Seq<char>>) -> bool {
    forall|i: int, j: int| 0 <= i < j < ns.len() ==> ns[i] != ns[j]
}

/// The position of `k` among the names `ns`, if it is there.
pub open spec fn name_index(ns: Seq<Seq<char>>, k: Seq<char>) -> Option<int> {
    if exists|i: int| 0 <= i < ns.len() && ns[i] == k {
        Some(choose|i: int| 0 <= i < ns.len() && ns[i] == k)
    } else {
        None
    }
}

impl ConfigChannel {
    /// The value of property `k`, if the channel has it.
    pub open spec fn value_of(self, k: Seq<char>) -> Option<ConfigValue> {
        match name_index(prop_names(self.properties@), k) {
            Some(i) => Some(self.properties@[i].value),
            None => None,
        }
    }

    pub open spec fn wf(self) -> bool {
        unique_names(prop_names(self.properties@))
    }
}

impl XfceConfig {
    /// The channel named `c`, if there is one.
    pub open spec fn channel_of(self, c: Seq<char>) -> Option<ConfigChannel> {
        match name_index(channel_names(self.channels@), c) {
            Some(i) => Some(self.channels@[i].channel),
            None => None,
        }
    }

    /// The value of property `p` of channel `c`, if both exist.
    pub open spec fn value_of(self, c: Seq<char>, p: Seq<char>) -> Option<ConfigValue> {
        match self.channel_of(c) {
            Some(ch) => ch.value_of(p),
            None => None,
        }
    }

    pub open spec fn wf(self) -> bool {
        &&& unique_names(channel_names(self.channels@))
        &&& forall|i: int| 0 <= i < self.channels@.len() ==> (#[trigger] self.channels@[i]).channel.wf()
    }
}

/// With unique names, the position of a name is the one that holds it.
proof fn lemma_name_index(ns: Seq<Seq<char>>, k: Seq<char>, i: int)
    requires
        unique_names(ns),
        0 <= i < ns.len(),
        ns[i] == k,
    ensures
        name_index(ns, k) == Some(i),
{
    let j = choose|j: int| 0 <= j < ns.len() && ns[j] == k;
    if j < i {
        assert(ns[j] != ns[i]);
    } else if j > i {
        assert(ns[i] != ns[j]);
    }
}

fn prop_position(ps: &Vec<ConfigProperty>, k: &str) -> (r: Option<usize>)
    ensures
        match r {
            Some(i) => i < ps@.len() && ps@[i as int].name@ == k@,
            None => forall|i: int| 0 <= i < ps@.len() ==> ps@[i].name@ != k@,
        },
{
    let kv = chars_of(k);
    let mut i: usize = 0;
    while i < ps.len()
        invariant
            i <= ps@.len(),
            kv@ == k@,
            forall|j: int| 0 <= j < i ==> ps@[j].name@ != k@,
        decreases ps.len() - i,
    {
        if same_chars(&chars_of(ps[i].name.as_str()), &kv) {
            return Some(i);
        }
        i += 1;
    }
    None
}

fn channel_position(cs: &Vec<NamedChannel>, k: &str) -> (r: Option<usize>)
    ensures
        match r {
            Some(i) => i < cs@.len() && cs@[i as int].name@ == k@,
            None => forall|i: int| 0 <= i < cs@.len() ==> cs@[i].name@ != k@,
        },
{
    let kv = chars_of(k);
    let mut i: usize = 0;
    while i < cs.len()
        invariant
            i <= cs@.len(),
            kv@ == k@,
            forall|j: int| 0 <= j < i ==> cs@[j].name@ != k@,
        decreases cs.len() - i,
    {
        if same_chars(&chars_of(cs[i].name.as_str()), &kv) {
            return Some(i);
        }
        i += 1;
    }
    None
}

/// The configuration file under the configuration directory `dir` (the
/// working directory when there is none).
pub open spec fn spec_config_file(dir: Option<Seq<char>>) -> Seq<char> {
    let base = match dir {
        Some(d) => d,
        None => "."@,
    };
    join_path(join_path(base, "xfce-rs"@), "config.toml"@)
}

impl ConfigChannel {
    /// A channel without properties.
    pub fn new() -> (r: Self)
        ensures
            r.properties@.len() == 0,
            r.wf(),
    {
        ConfigChannel { properties: Vec::new() }
    }

    /// The value of property `property`, if the channel has it.
    pub fn get(&self, property: &str) -> (r: Option<&ConfigValue>)
        requires
            self.wf(),
        ensures
            match r {
                Some(v) => self.value_of(property@) == Some(*v),
                None => self.value_of(property@).is_none(),
            },
    {
        match prop_position(&self.properties, property) {
            Some(i) => {
                proof {
                    lemma_name_index(prop_names(self.properties@), property@, i as int);
                }
                Some(&self.properties[i].value)
            },
            None => {
                proof {
                    assert forall|i: int| 0 <= i < prop_names(self.properties@).len() implies prop_names(
                        self.properties@,
                    )[i] != property@ by {
                        assert(prop_names(self.properties@)[i] == self.properties@[i].name@);
                    }
                }
                None
            },
        }
    }

    /// Sets property `property` to `value`; the other properties keep
    /// theirs.
    pub fn set(&mut self, property: String, value: ConfigValue)
        requires
            old(self).wf(),
        ensures
            final(self).wf(),
            final(self).value_of(property@) == Some(value),
            forall|k: Seq<char>| k != property@ ==> final(self).value_of(k) == old(self).value_of(k),
            forall|k: Seq<char>| #[trigger] prop_names(final(self).properties@).contains(k) <==> (k == property@
                || prop_names(old(self).properties@).contains(k)),
    {
        let ghost old_ps = self.properties@;
        let ghost pv = property@;
        match prop_position(&self.properties, property.as_str()) {
            Some(i) => {
                let name = property;
                self.properties.set(i, ConfigProperty { name, value });
                proof {
                    let ns = prop_names(self.properties@);
                    assert(ns =~= prop_names(old_ps));
                    lemma_name_index(ns, pv, i as int);
                    assert(ns[i as int] == pv);
                    assert forall|k: Seq<char>| k != pv implies self.value_of(k) == old(self).value_of(k) by {
                        if exists|j: int| 0 <= j < ns.len() && ns[j] == k {
                            let j = choose|j: int| 0 <= j < ns.len() && ns[j] == k;
                            lemma_name_index(ns, k, j);
                            assert(j != i);
                            assert(self.properties@[j] == old_ps[j]);
                        }
                    }
                }
            },
            None => {
                let ghost before = self.properties@;
                self.properties.push(ConfigProperty { name: property, value });
                proof {
                    let ns = prop_names(self.properties@);
                    let os = prop_names(before);
                    assert(ns =~= os.push(pv));
                    assert forall|a: int, b: int| 0 <= a < b < ns.len() implies ns[a] != ns[b] by {
                        if b == ns.len() - 1 {
                            assert(os[a] == before[a].name@);
                        }
                    }
                    lemma_name_index(ns, pv, ns.len() - 1);
                    assert forall|k: Seq<char>| k != pv implies self.value_of(k) == old(self).value_of(k) by {
                        if exists|j: int| 0 <= j < os.len() && os[j] == k {
                            let j = choose|j: int| 0 <= j < os.len() && os[j] == k;
                            lemma_name_index(os, k, j);
                            lemma_name_index(ns, k, j);
                            assert(self.properties@[j] == before[j]);
                        } else {
                            assert forall|j: int| 0 <= j < ns.len() implies ns[j] != k by {
                                if j < os.len() {
                                    assert(ns[j] == os[j]);
                                }
                            }
                        }
                    }
                    assert forall|k: Seq<char>| #[trigger] ns.contains(k) <==> (k == pv || os.contains(k)) by {
                        if ns.contains(k) {
                            let j = choose|j: int| 0 <= j < ns.len() && ns[j] == k;
                            if j < os.len() {
                                assert(os[j] == k);
                            }
                        }
                        if os.contains(k) {
                            let j = choose|j: int| 0 <= j < os.len() && os[j] == k;
                            assert(ns[j] == k);
                        }
                        if k == pv {
                            assert(ns[ns.len() - 1] == k);
                        }
                    }
                }
            },
        }
    }
}

impl ConfigChannel {
    /// Removes property `property`, giving its value when the channel had
    /// it; the other properties keep theirs.
    pub fn remove(&mut self, property: &str) -> (r: Option<ConfigValue>)
        requires
            old(self).wf(),
        ensures
            final(self).wf(),
            r == old(self).value_of(property@),
            final(self).value_of(property@).is_none(),
            forall|k: Seq<char>| k != property@ ==> final(self).value_of(k) == old(self).value_of(k),
    {
        let ghost old_ps = self.properties@;
        let ghost pv = property@;
        match prop_position(&self.properties, property) {
            Some(i) => {
                proof {
                    lemma_name_index(prop_names(old_ps), pv, i as int);
                }
                let p = self.properties.remove(i);
                proof {
                    let ns = prop_names(self.properties@);
                    let os = prop_names(old_ps);
                    assert(ns =~= os.remove(i as int));
                    assert forall|a: int, b: int| 0 <= a < b < ns.len() implies ns[a] != ns[b] by {
                        let a2 = if a < i { a } else { a + 1 };
                        let b2 = if b < i { b } else { b + 1 };
                        assert(ns[a] == os[a2]);
                        assert(ns[b] == os[b2]);
                    }
                    assert forall|j: int| 0 <= j < ns.len() implies ns[j] != pv by {
                        let j2 = if j < i { j } else { j + 1 };
                        assert(ns[j] == os[j2]);
                        assert(os[i as int] == pv);
                    }
                    assert forall|k: Seq<char>| k != pv implies self.value_of(k) == old(self).value_of(k) by {
                        if exists|j: int| 0 <= j < os.len() && os[j] == k {
                            let j = choose|j: int| 0 <= j < os.len() && os[j] == k;
                            lemma_name_index(os, k, j);
                            assert(j != i);
                            let j2 = if j < i { j } else { j - 1 };
                            assert(ns[j2] == k);
                            lemma_name_index(ns, k, j2);
                            assert(self.properties@[j2] == old_ps[j]);
                        } else {
                            assert forall|j: int| 0 <= j < ns.len() implies ns[j] != k by {
                                let j3 = if j < i { j } else { j + 1 };
                                assert(ns[j] == os[j3]);
                            }
                        }
                    }
                }
                Some(p.value)
            },
            None => {
                proof {
                    assert forall|j: int| 0 <= j < prop_names(old_ps).len() implies prop_names(old_ps)[j] != pv by {
                        assert(prop_names(old_ps)[j] == old_ps[j].name@);
                    }
                }
                None
            },
        }
    }
}

impl XfceConfig {
    /// An empty configuration kept in the file `config_path` (what a
    /// configuration whose file does not exist yet starts from).
    pub fn new(config_path: String) -> (r: Self)
        ensures
            r.wf(),
            r.channels@.len() == 0,
            r.config_path@ == config_path@,
    {
        XfceConfig { channels: Vec::new(), config_path }
    }

    /// The value of property `property` of channel `channel`; a missing
    /// channel or property is an error that names both.
    pub fn get_property(&self, channel: &str, property: &str) -> (r: Result<&ConfigValue, ConfigError>)
        requires
            self.wf(),
        ensures
            match r {
                Ok(v) => self.value_of(channel@, property@) == Some(*v),
                Err(e) => {
                    &&& self.value_of(channel@, property@).is_none()
                    &&& e matches ConfigError::PropertyNotFound { channel: c, property: p } && c@ == channel@ && p@
                        == property@
                },
            },
    {
        let not_found = ConfigError::PropertyNotFound {
            channel: String::from_str(channel),
            property: String::from_str(property),
        };
        match channel_position(&self.channels, channel) {
            Some(i) => {
                proof {
                    lemma_name_index(channel_names(self.channels@), channel@, i as int);
                    assert(self.channels@[i as int].channel.wf());
                }
                match self.channels[i].channel.get(property) {
                    Some(v) => Ok(v),
                    None => Err(not_found),
                }
            },
            None => {
                proof {
                    assert forall|j: int| 0 <= j < channel_names(self.channels@).len() implies channel_names(
                        self.channels@,
                    )[j] != channel@ by {
                        assert(channel_names(self.channels@)[j] == self.channels@[j].name@);
                    }
                }
                Err(not_found)
            },
        }
    }

    /// Sets property `property` of channel `channel` to `value`, creating
    /// the channel when it does not exist; every other property keeps its
    /// value.
    pub fn set_property(&mut self, channel: &str, property: &str, value: ConfigValue)
        requires
            old(self).wf(),
        ensures
            final(self).wf(),
            final(self).config_path == old(self).config_path,
            final(self).value_of(channel@, property@) == Some(value),
            forall|c: Seq<char>, p: Seq<char>|
                !(c == channel@ && p == property@) ==> #[trigger] final(self).value_of(c, p) == old(self).value_of(c, p),
            forall|c: Seq<char>| #[trigger] channel_names(final(self).channels@).contains(c) <==> (c == channel@
                || channel_names(old(self).channels@).contains(c)),
    {
        let ghost old_cs = self.channels@;
        let ghost cv = channel@;
        let ghost pv = property@;
        match channel_position(&self.channels, channel) {
            Some(i) => {
                let mut nc = self.channels.remove(i);
                proof {
                    assert(old_cs[i as int] == nc);
                    assert(nc.channel.wf());
                }
                let ghost old_ch = nc.channel;
                nc.channel.set(String::from_str(property), value);
                self.channels.insert(i, nc);
                proof {
                    let ns = channel_names(self.channels@);
                    let os = channel_names(old_cs);
                    assert(ns =~= os) by {
                        assert forall|j: int| 0 <= j < ns.len() implies ns[j] == os[j] by {
                            if j != i {
                                assert(self.channels@[j] == old_cs[j]);
                            }
                        }
                    }
                    assert forall|j: int| 0 <= j < self.channels@.len() implies (#[trigger] self.channels@[j]).channel.wf() by {
                        if j != i {
                            assert(self.channels@[j] == old_cs[j]);
                        }
                    }
                    lemma_name_index(ns, cv, i as int);
                    lemma_name_index(os, cv, i as int);
                    assert forall|c: Seq<char>, p: Seq<char>| !(c == cv && p == pv) implies #[trigger] self.value_of(c, p)
                        == old(self).value_of(c, p) by {
                        if c == cv {
                            assert(self.channel_of(c) == Some(self.channels@[i as int].channel));
                        } else if exists|j: int| 0 <= j < ns.len() && ns[j] == c {
                            let j = choose|j: int| 0 <= j < ns.len() && ns[j] == c;
                            lemma_name_index(ns, c, j);
                            lemma_name_index(os, c, j);
                            assert(j != i);
                            assert(self.channels@[j] == old_cs[j]);
                        }
                    }
                    assert forall|c: Seq<char>| #[trigger] ns.contains(c) <==> (c == cv || os.contains(c)) by {
                        if c == cv {
                            assert(ns[i as int] == c);
                        }
                    }
                }
            },
            None => {
                let mut nc = NamedChannel { name: String::from_str(channel), channel: ConfigChannel::new() };
                nc.channel.set(String::from_str(property), value);
                let ghost before = self.channels@;
                self.channels.push(nc);
                proof {
                    let ns = channel_names(self.channels@);
                    let os = channel_names(before);
                    assert(ns =~= os.push(cv));
                    assert forall|a: int, b: int| 0 <= a < b < ns.len() implies ns[a] != ns[b] by {
                        if b == ns.len() - 1 {
                            assert(os[a] == before[a].name@);
                        }
                    }
                    assert forall|j: int| 0 <= j < self.channels@.len() implies (#[trigger] self.channels@[j]).channel.wf() by {
                        if j < before.len() {
                            assert(self.channels@[j] == before[j]);
                        }
                    }
                    lemma_name_index(ns, cv, ns.len() - 1);
                    assert forall|c: Seq<char>, p: Seq<char>| !(c == cv && p == pv) implies #[trigger] self.value_of(c, p)
                        == old(self).value_of(c, p) by {
                        if c == cv {
                            assert forall|j: int| 0 <= j < os.len() implies os[j] != c by {
                                assert(os[j] == before[j].name@);
                            }
                            assert(old(self).channel_of(c).is_none());
                            assert(self.channel_of(c) == Some(self.channels@[ns.len() - 1].channel));
                        } else if exists|j: int| 0 <= j < os.len() && os[j] == c {
                            let j = choose|j: int| 0 <= j < os.len() && os[j] == c;
                            lemma_name_index(os, c, j);
                            lemma_name_index(ns, c, j);
                            assert(self.channels@[j] == before[j]);
                        } else {
                            assert forall|j: int| 0 <= j < ns.len() implies ns[j] != c by {
                                if j < os.len() {
                                    assert(ns[j] == os[j]);
                                }
                            }
                        }
                    }
                    assert forall|c: Seq<char>| #[trigger] ns.contains(c) <==> (c == cv || os.contains(c)) by {
                        if ns.contains(c) {
                            let j = choose|j: int| 0 <= j < ns.len() && ns[j] == c;
                            if j < os.len() {
                                assert(os[j] == c);
                            }
                        }
                        if os.contains(c) {
                            let j = choose|j: int| 0 <= j < os.len() && os[j] == c;
                            assert(ns[j] == c);
                        }
                        if c == cv {
                            assert(ns[ns.len() - 1] == c);
                        }
                    }
                }
            },
        }
    }

    /// The names of the channels, each once.
    pub fn list_channels(&self) -> (r: Vec<String>)
        ensures
            r@.map_values(|s: String| s@) == channel_names(self.channels@),
    {
        let mut r: Vec<String> = Vec::new();
        let mut i: usize = 0;
        while i < self.channels.len()
            invariant
                i <= self.channels@.len(),
                r@.map_values(|s: String| s@) == channel_names(self.channels@).take(i as int),
            decreases self.channels.len() - i,
        {
            let ghost before = r@;
            r.push(self.channels[i].name.clone());
            proof {
                assert(r@.map_values(|s: String| s@) =~= before.map_values(|s: String| s@).push(self.channels@[i as int].name@));
                assert(channel_names(self.channels@).take(i + 1) =~= channel_names(self.channels@).take(i as int).push(
                    self.channels@[i as int].name@,
                ));
            }
            i += 1;
        }
        proof {
            assert(channel_names(self.channels@).take(self.channels@.len() as int) =~= channel_names(self.channels@));
        }
        r
    }

    /// The names of the properties of channel `channel`, each once; a
    /// missing channel is an error naming it (with an empty property).
    pub fn list_properties(&self, channel: &str) -> (r: Result<Vec<String>, ConfigError>)
        requires
            self.wf(),
        ensures
            match r {
                Ok(names) => self.channel_of(channel@) matches Some(ch) && names@.map_values(|s: String| s@)
                    == prop_names(ch.properties@),
                Err(e) => {
                    &&& self.channel_of(channel@).is_none()
                    &&& e matches ConfigError::PropertyNotFound { channel: c, property: p } && c@ == channel@ && p@.len()
                        == 0
                },
            },
    {
        match channel_position(&self.channels, channel) {
            Some(i) => {
                proof {
                    lemma_name_index(channel_names(self.channels@), channel@, i as int);
                }
                let ps = &self.channels[i].channel.properties;
                let mut r: Vec<String> = Vec::new();
                let mut k: usize = 0;
                while k < ps.len()
                    invariant
                        k <= ps@.len(),
                        r@.map_values(|s: String| s@) == prop_names(ps@).take(k as int),
                    decreases ps.len() - k,
                {
                    let ghost before = r@;
                    r.push(ps[k].name.clone());
                    proof {
                        assert(r@.map_values(|s: String| s@) =~= before.map_values(|s: String| s@).push(ps@[k as int].name@));
                        assert(prop_names(ps@).take(k + 1) =~= prop_names(ps@).take(k as int).push(ps@[k as int].name@));
                    }
                    k += 1;
                }
                proof {
                    assert(prop_names(ps@).take(ps@.len() as int) =~= prop_names(ps@));
                }
                Ok(r)
            },
            None => {
                proof {
                    assert forall|j: int| 0 <= j < channel_names(self.channels@).len() implies channel_names(
                        self.channels@,
                    )[j] != channel@ by {
                        assert(channel_names(self.channels@)[j] == self.channels@[j].name@);
                    }
                }
                Err(ConfigError::PropertyNotFound { channel: String::from_str(channel), property: String::new() })
            },
        }
    }

    /// The configuration file of the current user: `xfce-rs/config.toml`
    /// under the configuration directory, or under the working directory
    /// when there is none.
    pub fn default_path() -> (r: String)
        ensures
            exists|d: Option<Seq<char>>| r@ == spec_config_file(d),
    {
        let dir = user_config_dir();
        let base = match dir {
            Some(d) => d,
            None => String::from_str("."),
        };
        let app_dir = crate::menu::join_dir(&base, "xfce-rs");
        let r = crate::menu::join_dir(&app_dir, "config.toml");
        proof {
            assert(r@ == spec_config_file(Some(base@)));
        }
        r
    }
}

impl Default for XfceConfig {
    /// An empty configuration kept in the current user's file.
    fn default() -> (r: Self)
        ensures
            r.wf(),
            r.channels@.len() == 0,
            exists|d: Option<Seq<char>>| r.config_path@ == spec_config_file(d),
    {
        XfceConfig::new(XfceConfig::default_path())
    }
}

} // verus!
