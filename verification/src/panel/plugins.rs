//! State of the separator, show-desktop and tasklist plugins, and the
//! description of an installed plugin.

use vstd::prelude::*;
use crate::text::{
    chars_of, string_from_chars, char_to_uppercase, char_uppercase, has_prefix, has_suffix, starts_with_chars,
    ends_with_chars,
};
use crate::utils::{words, join_words, split_words};

verus! {

/// How a separator is drawn.
#[derive(Debug, Clone, Copy, PartialEq, Eq, Structural)]
pub enum SeparatorStyle {
    Transparent,
    Separator,
    Handle,
    Dots,
}

/// The separator plugin.
pub struct SeparatorApp {
    pub style: SeparatorStyle,
}

impl SeparatorApp {
    /// A separator drawn as a line.
    pub fn new() -> (r: Self)
        ensures
            r.style == SeparatorStyle::Separator,
    {
        SeparatorApp { style: SeparatorStyle::Separator }
    }

    /// The window title.
    pub fn title(&self) -> (r: String)
        ensures
            r@ == "Separator"@,
    {
        String::from_str("Separator")
    }
}

/// The show-desktop plugin: whether the desktop is shown.
pub struct ShowDesktopApp {
    pub is_shown: bool,
}

impl ShowDesktopApp {
    /// The plugin with the windows shown.
    pub fn new() -> (r: Self)
        ensures
            !r.is_shown,
    {
        ShowDesktopApp { is_shown: false }
    }

    /// The window title.
    pub fn title(&self) -> (r: String)
        ensures
            r@ == "Show Desktop"@,
    {
        String::from_str("Show Desktop")
    }

    /// Flips between showing the desktop and showing the windows; gives the
    /// new state, which the window manager is then asked for.
    pub fn toggle(&mut self) -> (r: bool)
        ensures
            final(self).is_shown == !old(self).is_shown,
            r == final(self).is_shown,
    {
        self.is_shown = !self.is_shown;
        self.is_shown
    }

    /// The argument of `wmctrl -k` for the current state.
    pub fn wmctrl_argument(&self) -> (r: String)
        ensures
            self.is_shown ==> r@ == "on"@,
            !self.is_shown ==> r@ == "off"@,
    {
        if self.is_shown {
            String::from_str("on")
        } else {
            String::from_str("off")
        }
    }
}

/// A window listed by the tasklist.
#[derive(Debug, Clone)]
pub struct WindowInfo {
    pub window_id: u32,
    pub name: String,
    pub is_active: bool,
    pub is_minimized: bool,
    pub skip_taskbar: bool,
    pub is_desktop: bool,
    pub is_dock: bool,
}

impl WindowInfo {
    /// A copy of this record.
    pub fn copied(&self) -> (r: Self)
        ensures
            r == *self,
    {
        WindowInfo {
            window_id: self.window_id,
            name: self.name.clone(),
            is_active: self.is_active,
            is_minimized: self.is_minimized,
            skip_taskbar: self.skip_taskbar,
            is_desktop: self.is_desktop,
            is_dock: self.is_dock,
        }
    }
}

/// An installed panel plugin.
#[derive(Debug, Clone)]
pub struct PluginInfo {
    pub name: String,
    /// Path of the plugin's executable.
    pub binary: String,
    pub description: String,
    /// Whether it runs as a window of its own rather than embedded.
    pub detached: bool,
}

/// Plugin executables are named with this prefix.
pub open spec fn plugin_prefix() -> Seq<char> {
    "xfce-rs-"@
}

/// Whether a file of the plugin directory is a plugin: its name has the
/// plugin prefix and does not end in `.toml`.
pub open spec fn spec_is_plugin_file(file_name: Seq<char>) -> bool {
    has_prefix(file_name, plugin_prefix()) && !has_suffix(file_name, ".toml"@)
}

/// A word with its first character upper-cased, the rest as it is.
pub open spec fn capitalized(w: Seq<char>) -> Seq<char> {
    if w.len() == 0 {
        Seq::empty()
    } else {
        char_uppercase(w[0]) + w.drop_first()
    }
}

/// The text with its dashes turned into spaces.
pub open spec fn dashes_to_spaces(s: Seq<char>) -> Seq<char> {
    s.map_values(|c: char| if c == '-' { ' ' } else { c })
}

/// The description of a plugin made from its file name: without the
/// plugin prefix, dashes as spaces, each word capitalized, the words
/// joined by single spaces.
pub open spec fn spec_plugin_description(file_name: Seq<char>) -> Seq<char> {
    let stem = if has_prefix(file_name, plugin_prefix()) {
        file_name.skip(plugin_prefix().len() as int)
    } else {
        file_name
    };
    join_words(words(dashes_to_spaces(stem)).map_values(|w: Seq<char>| capitalized(w)))
}

/// Whether the file named `file_name` in the plugin directory is a plugin.
pub fn is_plugin_file(file_name: &str) -> (r: bool)
    ensures
        r == spec_is_plugin_file(file_name@),
{
    let v = chars_of(file_name);
    let prefix = chars_of("xfce-rs-");
    let suffix = chars_of(".toml");
    starts_with_chars(&v, &prefix) && !ends_with_chars(&v, &suffix)
}

fn capitalize_exec(w: &String) -> (r: Vec<char>)
    ensures
        r@ == capitalized(w@),
{
    let v = chars_of(w.as_str());
    if v.len() == 0 {
        return Vec::new();
    }
    let first = char_to_uppercase(v[0]);
    let mut r = chars_of(first.as_str());
    let ghost r0 = r@;
    let mut i: usize = 1;
    while i < v.len()
        invariant
            1 <= i <= v@.len(),
            v@ == w@,
            r@ == r0 + v@.subrange(1, i as int),
        decreases v.len() - i,
    {
        r.push(v[i]);
        proof {
            assert(v@.subrange(1, i + 1) == v@.subrange(1, i as int).push(v@[i as int]));
        }
        i += 1;
    }
    proof {
        assert(v@.subrange(1, v@.len() as int) == v@.drop_first());
    }
    r
}

/// The description of a plugin made from its file name.
pub fn plugin_description(file_name: &str) -> (r: String)
    ensures
        r@ == spec_plugin_description(file_name@),
{
    let v = chars_of(file_name);
    let prefix = chars_of("xfce-rs-");
    let prefixed = starts_with_chars(&v, &prefix);
    proof {
        reveal_strlit("xfce-rs-");
    }
    let start: usize = if prefixed { 8 } else { 0 };
    let mut spaced: Vec<char> = Vec::new();
    let mut i: usize = start;
    let ghost stem = v@.skip(start as int);
    while i < v.len()
        invariant
            start <= i <= v@.len(),
            v@ == file_name@,
            stem == v@.skip(start as int),
            spaced@ == dashes_to_spaces(v@.subrange(start as int, i as int)),
        decreases v.len() - i,
    {
        let c = v[i];
        spaced.push(if c == '-' { ' ' } else { c });
        proof {
            assert(v@.subrange(start as int, i + 1) == v@.subrange(start as int, i as int).push(c));
            assert(dashes_to_spaces(v@.subrange(start as int, i + 1)) =~= dashes_to_spaces(
                v@.subrange(start as int, i as int),
            ).push(if c == '-' { ' ' } else { c }));
        }
        i += 1;
    }
    proof {
        assert(v@.subrange(start as int, v@.len() as int) == stem);
        if !prefixed {
            assert(stem == v@);
        }
    }
    let ws = split_words(&spaced);
    let ghost wv = ws@.map_values(|s: String| s@);
    let ghost f = |w: Seq<char>| capitalized(w);
    let mut out: Vec<char> = Vec::new();
    let mut k: usize = 0;
    while k < ws.len()
        invariant
            k <= ws@.len(),
            wv == ws@.map_values(|s: String| s@),
            f == (|w: Seq<char>| capitalized(w)),
            out@ == join_words(wv.take(k as int).map_values(f)),
        decreases ws.len() - k,
    {
        let cw = capitalize_exec(&ws[k]);
        let ghost before = out@;
        proof {
            assert(wv.take(k + 1).map_values(f) =~= wv.take(k as int).map_values(f).push(capitalized(wv[k as int])));
            assert(wv[k as int] == ws@[k as int]@);
        }
        if k > 0 {
            out.push(' ');
        }
        let mut j: usize = 0;
        let ghost o0 = out@;
        while j < cw.len()
            invariant
                j <= cw@.len(),
                out@ == o0 + cw@.take(j as int),
            decreases cw.len() - j,
        {
            out.push(cw[j]);
            proof {
                assert(cw@.take(j + 1) == cw@.take(j as int).push(cw@[j as int]));
            }
            j += 1;
        }
        proof {
            assert(cw@.take(cw@.len() as int) == cw@);
            let prev = wv.take(k as int).map_values(f);
            let next = wv.take(k + 1).map_values(f);
            assert(next.drop_last() =~= prev);
            if k == 0 {
                assert(next.len() == 1);
                assert(out@ =~= cw@);
            } else {
                assert(out@ =~= before + seq![' '] + cw@);
            }
        }
        k += 1;
    }
    proof {
        assert(wv.take(ws@.len() as int) == wv);
    }
    string_from_chars(out.as_slice())
}

impl PluginInfo {
    /// The plugin found as the file `file_name` at `path` in the plugin
    /// directory, described by its name and embedded in the panel; none
    /// when the file is not a plugin.
    pub fn discovered(file_name: &str, path: &str) -> (r: Option<PluginInfo>)
        ensures
            match r {
                Some(p) => {
                    &&& spec_is_plugin_file(file_name@)
                    &&& p.name@ == file_name@
                    &&& p.binary@ == path@
                    &&& p.description@ == spec_plugin_description(file_name@)
                    &&& !p.detached
                },
                None => !spec_is_plugin_file(file_name@),
            },
    {
        if !is_plugin_file(file_name) {
            return None;
        }
        Some(
            PluginInfo {
                name: String::from_str(file_name),
                binary: String::from_str(path),
                description: plugin_description(file_name),
                detached: false,
            },
        )
    }
}

/// A plugin's place in the panel: the plugin, whether it runs, and whether
/// the panel has given it a place (the place itself, in fractional
/// coordinates, stays with the panel window).
pub struct PluginSlot {
    pub plugin: PluginInfo,
    pub is_running: bool,
    pub has_position: bool,
}

/// How a plugin's slot is shown: a detached plugin's name, coloured by
/// whether it runs, or an embedded plugin's description.
pub enum SlotLabel {
    Detached { name: String, running: bool },
    Embedded { description: String },
}

impl PluginSlot {
    /// A slot for `plugin`, not running and without a place.
    pub fn new(plugin: PluginInfo) -> (r: Self)
        ensures
            r.plugin == plugin,
            !r.is_running,
            !r.has_position,
    {
        PluginSlot { plugin, is_running: false, has_position: false }
    }

    /// Notes that the panel gave the slot a place.
    pub fn set_position(&mut self)
        ensures
            final(self).has_position,
            final(self).plugin == old(self).plugin,
            final(self).is_running == old(self).is_running,
    {
        self.has_position = true;
    }

    /// Whether the plugin is embedded in the panel: not detached, and
    /// given a place.
    pub fn is_embedded(&self) -> (r: bool)
        ensures
            r == (!self.plugin.detached && self.has_position),
    {
        !self.plugin.detached && self.has_position
    }

    /// Notes whether the plugin runs.
    pub fn set_running(&mut self, running: bool)
        ensures
            final(self).is_running == running,
            final(self).plugin == old(self).plugin,
            final(self).has_position == old(self).has_position,
    {
        self.is_running = running;
    }

    /// The plugin's name.
    pub fn plugin_name(&self) -> (r: &str)
        ensures
            r@ == self.plugin.name@,
    {
        self.plugin.name.as_str()
    }

    /// What the slot shows.
    pub fn label(&self) -> (r: SlotLabel)
        ensures
            self.plugin.detached ==> (r matches SlotLabel::Detached { name, running } && name@ == self.plugin.name@
                && running == self.is_running),
            !self.plugin.detached ==> (r matches SlotLabel::Embedded { description } && description@
                == self.plugin.description@),
    {
        if self.plugin.detached {
            SlotLabel::Detached { name: self.plugin.name.clone(), running: self.is_running }
        } else {
            SlotLabel::Embedded { description: self.plugin.description.clone() }
        }
    }
}

} // verus!
