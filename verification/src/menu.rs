//! Application menu: desktop entries, the `.desktop` key-file format, the
//! category menu built from entries, and search.

use vstd::prelude::*;
use crate::text::{lemma_text_le_total, lemma_text_le_trans, text_le, text_le_chars, chars_of, string_from_chars, trim_chars, trim, to_lowercase, contains_chars, contains_seq, str_lowercase, same_chars};

verus! {

/// What `dirs::home_dir()` finds for the current user, as text.
#[verifier::external_body]
fn home_dir() -> (r: Option<String>) {
    dirs::home_dir().map(|p| p.to_string_lossy().to_string())
}

/// Errors of menu operations.
#[derive(Debug, Clone)]
pub enum MenuError {
    DesktopFileNotFound { path: String },
    InvalidDesktopFile { reason: String },
    MenuFileNotFound { path: String },
    Io(String),
    ParseError(String),
}

/// The fields of a `.desktop` file that the menu uses.
#[derive(Debug, Clone)]
pub struct DesktopEntry {
    pub name: String,
    pub exec_command: String,
    pub icon: String,
    pub description: String,
    pub categories: Vec<String>,
    pub terminal: bool,
    pub no_display: bool,
    pub hidden: bool,
}

/// A menu with its entries and category submenus.
#[derive(Debug)]
pub struct DesktopMenu {
    pub name: String,
    pub icon: Option<String>,
    pub entries: Vec<MenuEntry>,
    /// Submenus, each under a distinct name.
    pub submenus: Vec<DesktopMenu>,
}

#[derive(Debug, Clone)]
pub enum MenuEntry {
    Separator,
    Application(DesktopEntry),
    Submenu(String),
}

/// The content of a desktop entry as text.
pub struct DesktopEntryView {
    pub name: Seq<char>,
    pub exec_command: Seq<char>,
    pub icon: Seq<char>,
    pub description: Seq<char>,
    pub categories: Seq<Seq<char>>,
    pub terminal: bool,
    pub no_display: bool,
    pub hidden: bool,
}

impl View for DesktopEntry {
    type V = DesktopEntryView;

    open spec fn view(&self) -> DesktopEntryView {
        DesktopEntryView {
            name: self.name@,
            exec_command: self.exec_command@,
            icon: self.icon@,
            description: self.description@,
            categories: strs(self.categories@),
            terminal: self.terminal,
            no_display: self.no_display,
            hidden: self.hidden,
        }
    }
}

/// The content of a menu entry.
pub enum MenuEntryView {
    Separator,
    Application(DesktopEntryView),
    Submenu(Seq<char>),
}

impl View for MenuEntry {
    type V = MenuEntryView;

    open spec fn view(&self) -> MenuEntryView {
        match self {
            MenuEntry::Separator => MenuEntryView::Separator,
            MenuEntry::Application(e) => MenuEntryView::Application(e@),
            MenuEntry::Submenu(s) => MenuEntryView::Submenu(s@),
        }
    }
}

/// The contents of a list of entries.
pub open spec fn entry_views(es: Seq<DesktopEntry>) -> Seq<DesktopEntryView> {
    es.map_values(|e: DesktopEntry| e@)
}

/// The contents of a list of menu entries.
pub open spec fn menu_entry_views(es: Seq<MenuEntry>) -> Seq<MenuEntryView> {
    es.map_values(|e: MenuEntry| e@)
}

/// Where desktop files and menu files are looked for.
#[derive(Debug)]
pub struct MenuParser {
    pub desktop_dirs: Vec<String>,
    pub menu_dirs: Vec<String>,
}

/// The view of a list of strings.
pub open spec fn strs(v: Seq<String>) -> Seq<Seq<char>> {
    v.map_values(|s: String| s@)
}

/// A copy of the strings of `v`.
fn copy_strings(v: &Vec<String>) -> (r: Vec<String>)
    ensures
        r@ == v@,
{
    let mut r: Vec<String> = Vec::new();
    let mut i: usize = 0;
    while i < v.len()
        invariant
            i <= v@.len(),
            r@ == v@.take(i as int),
        decreases v.len() - i,
    {
        r.push(v[i].clone());
        proof {
            assert(v@.take(i + 1) == v@.take(i as int).push(v@[i as int]));
        }
        i += 1;
    }
    proof {
        assert(v@.take(v@.len() as int) == v@);
    }
    r
}

impl DesktopEntry {
    /// An entry named `Unknown` with the generic executable icon and nothing else.
    pub fn new_default() -> (r: Self)
        ensures
            r.name@ == "Unknown"@,
            r.exec_command@ == Seq::<char>::empty(),
            r.icon@ == "application-x-executable"@,
            r.description@ == Seq::<char>::empty(),
            r.categories@.len() == 0,
            !r.terminal && !r.no_display && !r.hidden,
    {
        DesktopEntry {
            name: String::from_str("Unknown"),
            exec_command: String::new(),
            icon: String::from_str("application-x-executable"),
            description: String::new(),
            categories: Vec::new(),
            terminal: false,
            no_display: false,
            hidden: false,
        }
    }

    /// A copy of this entry.
    pub fn copied(&self) -> (r: Self)
        ensures
            r@ == self@,
    {
        DesktopEntry {
            name: self.name.clone(),
            exec_command: self.exec_command.clone(),
            icon: self.icon.clone(),
            description: self.description.clone(),
            categories: copy_strings(&self.categories),
            terminal: self.terminal,
            no_display: self.no_display,
            hidden: self.hidden,
        }
    }
}

impl Default for DesktopEntry {
    fn default() -> (r: Self)
        ensures
            r.name@ == "Unknown"@,
            r.exec_command@ == Seq::<char>::empty(),
            r.icon@ == "application-x-executable"@,
            r.description@ == Seq::<char>::empty(),
            r.categories@.len() == 0,
            !r.terminal && !r.no_display && !r.hidden,
    {
        DesktopEntry::new_default()
    }
}

/// The category an entry is filed under: its first one.
pub open spec fn first_category(e: DesktopEntryView) -> Option<Seq<char>> {
    if e.categories.len() == 0 {
        None
    } else {
        Some(e.categories[0])
    }
}

/// The first categories of `es`, each once, in order of first appearance.
pub open spec fn category_order(es: Seq<DesktopEntryView>) -> Seq<Seq<char>>
    decreases es.len(),
{
    if es.len() == 0 {
        Seq::empty()
    } else {
        let prev = category_order(es.drop_last());
        match first_category(es.last()) {
            Some(c) => if prev.contains(c) {
                prev
            } else {
                prev.push(c)
            },
            None => prev,
        }
    }
}

/// The entries of `es` filed under category `c`, in order.
pub open spec fn in_category(es: Seq<DesktopEntryView>, c: Seq<char>) -> Seq<DesktopEntryView> {
    es.filter(|e: DesktopEntryView| first_category(e) == Some(c))
}

/// The entries of `es` without a category, in order.
pub open spec fn uncategorized(es: Seq<DesktopEntryView>) -> Seq<DesktopEntryView> {
    es.filter(|e: DesktopEntryView| first_category(e).is_none())
}

/// The applications of a list of entries, as menu entries.
pub open spec fn as_applications(es: Seq<DesktopEntryView>) -> Seq<MenuEntryView> {
    es.map_values(|e: DesktopEntryView| MenuEntryView::Application(e))
}

/// Whether `m` is the submenu of category `c` over `es`.
pub open spec fn is_category_menu(m: DesktopMenu, es: Seq<DesktopEntryView>, c: Seq<char>) -> bool {
    &&& m.name@ == c
    &&& m.icon matches Some(i) && i@ == "application-x-executable"@
    &&& menu_entry_views(m.entries@) == as_applications(in_category(es, c))
    &&& m.submenus@.len() == 0
}

/// Whether an entry's name or description holds the lower-cased query,
/// both compared in lower case.
pub open spec fn matches_query(e: DesktopEntryView, q: Seq<char>) -> bool {
    contains_seq(str_lowercase(e.name), str_lowercase(q)) || contains_seq(
        str_lowercase(e.description),
        str_lowercase(q),
    )
}

/// `dir` joined with the relative path `rel`, as `Path::join` does: a
/// separator goes between unless `dir` is empty or ends with one.
pub open spec fn join_path(dir: Seq<char>, rel: Seq<char>) -> Seq<char> {
    if dir.len() == 0 || dir.last() == '/' {
        dir + rel
    } else {
        dir + seq!['/'] + rel
    }
}

/// The directories searched for a user whose home is `home`, if known.
pub open spec fn spec_parser_dirs(p: MenuParser, home: Option<Seq<char>>) -> bool {
    let sys = seq!["/usr/share/applications"@, "/usr/local/share/applications"@];
    match home {
        Some(h) => {
            &&& strs(p.desktop_dirs@) == seq![
                join_path(h, ".local/share/applications"@),
                join_path(h, ".share/applications"@),
            ] + sys
            &&& strs(p.menu_dirs@) == seq![join_path(h, ".config/menus"@), "/etc/xdg/menus"@]
        },
        None => {
            &&& strs(p.desktop_dirs@) == sys
            &&& strs(p.menu_dirs@) == seq!["/etc/xdg/menus"@]
        },
    }
}

pub(crate) fn join_dir(dir: &String, rel: &str) -> (r: String)
    ensures
        r@ == join_path(dir@, rel@),
{
    let v = chars_of(dir.as_str());
    let mut r = dir.clone();
    if v.len() == 0 || v[v.len() - 1] == '/' {
        r.append(rel);
    } else {
        r.append("/");
        r.append(rel);
        proof {
            reveal_strlit("/");
        }
    }
    r
}

/// `s` with `e` inserted before the first entry whose name is greater.
pub open spec fn insert_by_name(s: Seq<DesktopEntryView>, e: DesktopEntryView) -> Seq<DesktopEntryView>
    decreases s.len(),
{
    if s.len() == 0 {
        seq![e]
    } else if text_le(s.last().name, e.name) {
        s.push(e)
    } else {
        insert_by_name(s.drop_last(), e).push(s.last())
    }
}

/// `s` sorted by name, equal names keeping their order.
pub open spec fn sort_by_name(s: Seq<DesktopEntryView>) -> Seq<DesktopEntryView>
    decreases s.len(),
{
    if s.len() == 0 {
        s
    } else {
        insert_by_name(sort_by_name(s.drop_last()), s.last())
    }
}

/// The entries a menu lists: those neither hidden nor marked NoDisplay,
/// sorted by name.
pub open spec fn spec_listed_entries(es: Seq<DesktopEntryView>) -> Seq<DesktopEntryView> {
    sort_by_name(es.filter(is_listed()))
}

/// The entries a menu lists: neither hidden nor marked NoDisplay.
pub open spec fn is_listed() -> spec_fn(DesktopEntryView) -> bool {
    |e: DesktopEntryView| !e.no_display && !e.hidden
}

/// The entries a search for `q` finds.
pub open spec fn query_hit(q: Seq<char>) -> spec_fn(DesktopEntryView) -> bool {
    |e: DesktopEntryView| matches_query(e, q)
}

/// The contents of a list of entry references.
pub open spec fn ref_views(es: Seq<&DesktopEntry>) -> Seq<DesktopEntryView> {
    es.map_values(|e: &DesktopEntry| e@)
}

/// `insert_by_name(s, e)` puts `e` at `k` when the entries from `k` on are
/// exactly those with a greater name.
proof fn lemma_insert_at(s: Seq<DesktopEntryView>, e: DesktopEntryView, k: int)
    requires
        0 <= k <= s.len(),
        forall|j: int| k <= j < s.len() ==> !text_le(#[trigger] s[j].name, e.name),
        k == 0 || text_le(s[k - 1].name, e.name),
    ensures
        insert_by_name(s, e) == s.take(k) + seq![e] + s.skip(k),
    decreases s.len(),
{
    if s.len() == 0 {
        assert(s.take(k) + seq![e] + s.skip(k) =~= seq![e]);
    } else if k == s.len() {
        assert(s.last() == s[k - 1]);
        assert(s.take(k) + seq![e] + s.skip(k) =~= s.push(e));
    } else {
        let t = s.drop_last();
        assert(!text_le(s.last().name, e.name)) by {
            assert(s.last() == s[s.len() - 1]);
        }
        assert forall|j: int| k <= j < t.len() implies !text_le(#[trigger] t[j].name, e.name) by {
            assert(t[j] == s[j]);
        }
        if k > 0 {
            assert(t[k - 1] == s[k - 1]);
        }
        lemma_insert_at(t, e, k);
        assert(t.take(k) + seq![e] + t.skip(k) + seq![s.last()] =~= s.take(k) + seq![e] + s.skip(k));
    }
}

impl MenuParser {
    /// A parser looking in the user's and the system's application and menu
    /// directories.
    pub fn new() -> (r: Self)
        ensures
            exists|h: Option<Seq<char>>| spec_parser_dirs(r, h),
    {
        let home = home_dir();
        Self::with_home(&home)
    }

    /// A parser for a user whose home directory is `home`, if known.
    pub fn with_home(home: &Option<String>) -> (r: Self)
        ensures
            spec_parser_dirs(
                r,
                match home {
                    Some(h) => Some(h@),
                    None => None,
                },
            ),
    {
        let mut desktop_dirs: Vec<String> = Vec::new();
        let mut menu_dirs: Vec<String> = Vec::new();
        if let Some(h) = home {
            desktop_dirs.push(join_dir(h, ".local/share/applications"));
            desktop_dirs.push(join_dir(h, ".share/applications"));
        }
        desktop_dirs.push(String::from_str("/usr/share/applications"));
        desktop_dirs.push(String::from_str("/usr/local/share/applications"));
        if let Some(h) = home {
            menu_dirs.push(join_dir(h, ".config/menus"));
        }
        menu_dirs.push(String::from_str("/etc/xdg/menus"));
        proof {
            assert(strs(desktop_dirs@) =~= (match home {
                Some(h) => seq![
                    join_path(h@, ".local/share/applications"@),
                    join_path(h@, ".share/applications"@),
                ] + seq!["/usr/share/applications"@, "/usr/local/share/applications"@],
                None => seq!["/usr/share/applications"@, "/usr/local/share/applications"@],
            }));
            assert(strs(menu_dirs@) =~= (match home {
                Some(h) => seq![join_path(h@, ".config/menus"@), "/etc/xdg/menus"@],
                None => seq!["/etc/xdg/menus"@],
            }));
        }
        MenuParser { desktop_dirs, menu_dirs }
    }

    /// The menu over `entries`: entries without a category at the top level,
    /// and one submenu per first category, in order of first appearance,
    /// holding its entries in order.
    pub fn generate_menu(&self, entries: &[DesktopEntry]) -> (r: DesktopMenu)
        ensures
            r.name@ == "Applications"@,
            r.icon matches Some(i) && i@ == "applications-other"@,
            menu_entry_views(r.entries@) == as_applications(uncategorized(entry_views(entries@))),
            r.submenus@.len() == category_order(entry_views(entries@)).len(),
            forall|k: int|
                0 <= k < r.submenus@.len() ==> is_category_menu(
                    #[trigger] r.submenus@[k],
                    entry_views(entries@),
                    category_order(entry_views(entries@))[k],
                ),
    {
        let mut top: Vec<MenuEntry> = Vec::new();
        let mut subs: Vec<DesktopMenu> = Vec::new();
        let mut i: usize = 0;
        while i < entries.len()
            invariant
                i <= entries@.len(),
                menu_entry_views(top@) == as_applications(uncategorized(entry_views(entries@.take(i as int)))),
                subs@.len() == category_order(entry_views(entries@.take(i as int))).len(),
                forall|k: int|
                    0 <= k < subs@.len() ==> is_category_menu(
                        #[trigger] subs@[k],
                        entry_views(entries@.take(i as int)),
                        category_order(entry_views(entries@.take(i as int)))[k],
                    ),
            decreases entries.len() - i,
        {
            let ghost pre = entry_views(entries@.take(i as int));
            let ghost post = entry_views(entries@.take(i + 1));
            let e = &entries[i];
            proof {
                assert(entries@.take(i + 1) == entries@.take(i as int).push(*e));
                assert(post =~= pre.push(e@));
                assert(post.drop_last() == pre);
                assert(pre.push(e@).last() == e@);
                pre.lemma_filter_push(e@, |x: DesktopEntryView| first_category(x).is_none());
            }
            if e.categories.len() == 0 {
                let ghost old_top = top@;
                top.push(MenuEntry::Application(e.copied()));
                proof {
                    assert(menu_entry_views(top@) =~= menu_entry_views(old_top).push(MenuEntryView::Application(e@)));
                    assert(as_applications(uncategorized(post)) =~= as_applications(uncategorized(pre)).push(
                        MenuEntryView::Application(e@),
                    ));
                    assert forall|k: int| 0 <= k < subs@.len() implies is_category_menu(
                        #[trigger] subs@[k],
                        post,
                        category_order(post)[k],
                    ) by {
                        let c = category_order(pre)[k];
                        pre.lemma_filter_push(e@, |x: DesktopEntryView| first_category(x) == Some(c));
                        assert(in_category(post, c) =~= in_category(pre, c));
                    }
                }
            } else {
                proof {
                    assert(as_applications(uncategorized(post)) =~= as_applications(uncategorized(pre)));
                }
                let cat = &e.categories[0];
                let ghost c = cat@;
                proof {
                    assert(first_category(e@) == Some(c));
                    assert forall|k: int| 0 <= k < category_order(pre).len() implies
                        #[trigger] category_order(pre)[k] == subs@[k].name@ by {
                        assert(is_category_menu(subs@[k], pre, category_order(pre)[k]));
                    }
                }
                match find_menu(&subs, cat) {
                    Some(j) => {
                        let ghost old_subs = subs@;
                        let app = MenuEntry::Application(e.copied());
                        subs[j].entries.push(app);
                        proof {
                            assert(menu_entry_views(subs@[j as int].entries@) =~= menu_entry_views(
                                old_subs[j as int].entries@,
                            ).push(MenuEntryView::Application(e@)));
                        }
                        proof {
                            assert(category_order(pre).contains(c)) by {
                                assert(category_order(pre)[j as int] == c);
                            }
                            assert(category_order(post) == category_order(pre));
                            assert forall|k: int| 0 <= k < subs@.len() implies is_category_menu(
                                #[trigger] subs@[k],
                                post,
                                category_order(post)[k],
                            ) by {
                                let ck = category_order(pre)[k];
                                assert(is_category_menu(old_subs[k], pre, ck));
                                pre.lemma_filter_push(e@, |x: DesktopEntryView| first_category(x) == Some(ck));
                                if k == j {
                                    assert(in_category(post, ck) =~= in_category(pre, ck).push(e@));
                                    assert(as_applications(in_category(post, ck)) =~= as_applications(
                                        in_category(pre, ck),
                                    ).push(MenuEntryView::Application(e@)));
                                } else {
                                    assert(ck != c) by {
                                        assert(old_subs[k].name@ == ck);
                                        assert(old_subs[j as int].name@ == c);
                                        assert(category_order(pre)[j as int] == c);
                                        lemma_category_order_distinct(pre);
                                    }
                                    assert(in_category(post, ck) =~= in_category(pre, ck));
                                }
                            }
                        }
                    },
                    None => {
                        let ghost old_subs = subs@;
                        let mut es: Vec<MenuEntry> = Vec::new();
                        es.push(MenuEntry::Application(e.copied()));
                        let m = DesktopMenu {
                            name: cat.clone(),
                            icon: Some(String::from_str("application-x-executable")),
                            entries: es,
                            submenus: Vec::new(),
                        };
                        subs.push(m);
                        proof {
                            assert(!category_order(pre).contains(c)) by {
                                if category_order(pre).contains(c) {
                                    let k = choose|k: int| 0 <= k < category_order(pre).len() && category_order(pre)[k] == c;
                                    assert(old_subs[k].name@ == c);
                                }
                            }
                            assert(category_order(post) == category_order(pre).push(c));
                            assert forall|k: int| 0 <= k < subs@.len() implies is_category_menu(
                                #[trigger] subs@[k],
                                post,
                                category_order(post)[k],
                            ) by {
                                if k < old_subs.len() {
                                    let ck = category_order(pre)[k];
                                    assert(is_category_menu(old_subs[k], pre, ck));
                                    pre.lemma_filter_push(e@, |x: DesktopEntryView| first_category(x) == Some(ck));
                                    assert(ck != c);
                                    assert(in_category(post, ck) =~= in_category(pre, ck));
                                } else {
                                    pre.lemma_filter_push(e@, |x: DesktopEntryView| first_category(x) == Some(c));
                                    assert(in_category(pre, c).len() == 0) by {
                                        if in_category(pre, c).len() > 0 {
                                            lemma_in_category_listed(pre, c);
                                        }
                                    }
                                    assert(in_category(post, c) =~= seq![e@]);
                                    assert(as_applications(in_category(post, c)) =~= seq![MenuEntryView::Application(e@)]);
                                    assert(menu_entry_views(subs@[k].entries@) =~= seq![MenuEntryView::Application(e@)]);
                                }
                            }
                        }
                    },
                }
            }
            i += 1;
        }
        proof {
            assert(entries@.take(entries@.len() as int) == entries@);
        }
        DesktopMenu {
            name: String::from_str("Applications"),
            icon: Some(String::from_str("applications-other")),
            entries: top,
            submenus: subs,
        }
    }
}


/// Position of the submenu named `name`, if any.
fn find_menu(subs: &Vec<DesktopMenu>, name: &String) -> (r: Option<usize>)
    ensures
        r matches Some(j) ==> j < subs@.len() && subs@[j as int].name@ == name@,
        r is None ==> forall|k: int| 0 <= k < subs@.len() ==> (#[trigger] subs@[k]).name@ != name@,
{
    let nv = chars_of(name.as_str());
    let mut j: usize = 0;
    while j < subs.len()
        invariant
            j <= subs@.len(),
            nv@ == name@,
            forall|k: int| 0 <= k < j ==> (#[trigger] subs@[k]).name@ != name@,
        decreases subs.len() - j,
    {
        let mv = chars_of(subs[j].name.as_str());
        if same_chars(&mv, &nv) {
            return Some(j);
        }
        j += 1;
    }
    None
}

/// The categories of `category_order` are distinct.
proof fn lemma_category_order_distinct(es: Seq<DesktopEntryView>)
    ensures
        forall|a: int, b: int|
            0 <= a < b < category_order(es).len() ==> category_order(es)[a] != category_order(es)[b],
    decreases es.len(),
{
    if es.len() > 0 {
        lemma_category_order_distinct(es.drop_last());
        let prev = category_order(es.drop_last());
        match first_category(es.last()) {
            Some(c) => {
                if !prev.contains(c) {
                    assert forall|a: int, b: int| 0 <= a < b < prev.len() + 1 implies prev.push(c)[a] != prev.push(c)[b] by {
                        if b == prev.len() {
                            assert(prev.push(c)[a] == prev[a]);
                        }
                    }
                }
            },
            None => {},
        }
    }
}

/// A category with entries appears in `category_order`.
proof fn lemma_in_category_listed(es: Seq<DesktopEntryView>, c: Seq<char>)
    requires
        in_category(es, c).len() > 0,
    ensures
        category_order(es).contains(c),
    decreases es.len(),
{
    let pre = es.drop_last();
    assert(es == pre.push(es.last()));
    pre.lemma_filter_push(es.last(), |x: DesktopEntryView| first_category(x) == Some(c));
    if first_category(es.last()) == Some(c) {
        if !category_order(pre).contains(c) {
            assert(category_order(es) == category_order(pre).push(c));
            assert(category_order(es)[category_order(pre).len() as int] == c);
        }
    } else {
        lemma_in_category_listed(pre, c);
        let k = choose|k: int| 0 <= k < category_order(pre).len() && category_order(pre)[k] == c;
        match first_category(es.last()) {
            Some(d) => {
                if !category_order(pre).contains(d) {
                    assert(category_order(es)[k] == c);
                }
            },
            None => {},
        }
    }
}


/// Inserts `e` into `v`, which holds a sorted-by-name list, after the
/// entries whose name is not greater.
fn insert_entry(v: &mut Vec<DesktopEntry>, e: DesktopEntry)
    ensures
        entry_views(final(v)@) == insert_by_name(entry_views(old(v)@), e@),
{
    let en = chars_of(e.name.as_str());
    let mut k: usize = v.len();
    while k > 0 && !text_le_chars(&chars_of(v[k - 1].name.as_str()), &en)
        invariant
            k <= v@.len(),
            en@ == e.name@,
            forall|j: int| k <= j < v@.len() ==> !text_le(#[trigger] v@[j].name@, e.name@),
        decreases k,
    {
        k -= 1;
    }
    let ghost sv = entry_views(v@);
    proof {
        assert forall|j: int| k <= j < sv.len() implies !text_le(#[trigger] sv[j].name, e@.name) by {
            assert(sv[j].name == v@[j].name@);
        }
        if k > 0 {
            assert(sv[k - 1].name == v@[k - 1].name@);
        }
        lemma_insert_at(sv, e@, k as int);
    }
    let ghost ev = e@;
    v.insert(k, e);
    proof {
        assert(entry_views(v@) =~= sv.take(k as int) + seq![ev] + sv.skip(k as int));
    }
}

impl MenuParser {
    /// The entries a menu lists: those neither hidden nor marked NoDisplay,
    /// sorted by name (equal names keep their order).
    pub fn listed_entries(entries: Vec<DesktopEntry>) -> (r: Vec<DesktopEntry>)
        ensures
            entry_views(r@) == spec_listed_entries(entry_views(entries@)),
    {
        let ghost all = entry_views(entries@);
        let ghost keep = is_listed();
        let mut r: Vec<DesktopEntry> = Vec::new();
        let n = entries.len();
        let mut i: usize = 0;
        while i < n
            invariant
                n == all.len(),
                all == entry_views(entries@),
                keep == is_listed(),
                i <= n,
                entry_views(r@) == sort_by_name(all.take(i as int).filter(keep)),
            decreases n - i,
        {
            let e = entries[i].copied();
            proof {
                assert(e@ == all[i as int]);
                assert(all.take(i + 1) == all.take(i as int).push(all[i as int]));
                all.take(i as int).lemma_filter_push(all[i as int], keep);
            }
            let ghost f = all.take(i as int).filter(keep);
            proof {
                assert(keep(all[i as int]) == (!e.no_display && !e.hidden));
            }
            if !e.no_display && !e.hidden {
                insert_entry(&mut r, e);
                proof {
                    assert(f.push(all[i as int]).drop_last() == f);
                    assert(f.push(all[i as int]).last() == all[i as int]);
                    assert(all.take(i + 1).filter(keep) == f.push(all[i as int]));
                }
            } else {
                proof {
                    assert(all.take(i + 1).filter(keep) == f);
                }
            }
            i += 1;
        }
        proof {
            assert(all.take(n as int) == all);
        }
        r
    }

    /// The entries whose name or description holds `query`, ignoring case,
    /// in their order.
    pub fn search_entries<'a>(&self, entries: &'a [DesktopEntry], query: &str) -> (r: Vec<&'a DesktopEntry>)
        ensures
            ref_views(r@) == entry_views(entries@).filter(query_hit(query@)),
    {
        let ql = to_lowercase(query);
        let qv = chars_of(ql.as_str());
        let ghost all = entry_views(entries@);
        let ghost pred = query_hit(query@);
        let mut r: Vec<&'a DesktopEntry> = Vec::new();
        let mut i: usize = 0;
        while i < entries.len()
            invariant
                i <= entries@.len(),
                all == entry_views(entries@),
                pred == query_hit(query@),
                qv@ == str_lowercase(query@),
                ref_views(r@) == all.take(i as int).filter(pred),
            decreases entries.len() - i,
        {
            let e = &entries[i];
            let nl = to_lowercase(e.name.as_str());
            let dl = to_lowercase(e.description.as_str());
            let nv = chars_of(nl.as_str());
            let dv = chars_of(dl.as_str());
            let h1 = contains_chars(nv.as_slice(), qv.as_slice());
            let h2 = contains_chars(dv.as_slice(), qv.as_slice());
            let hit = h1 || h2;

            proof {
                assert(all.take(i + 1) == all.take(i as int).push(e@));
                all.take(i as int).lemma_filter_push(e@, pred);
                assert(pred(e@) == hit);
            }
            if hit {
                let ghost before = r@;
                r.push(e);
                proof {
                    assert(ref_views(r@) =~= ref_views(before).push(e@));
                }
            }
            i += 1;
        }
        proof {
            assert(all.take(entries@.len() as int) == all);
        }
        r
    }
}

/// The parts of `s` between the separator `sep`: `scan_split` gives the
/// finished parts and the part being read after a prefix.
pub open spec fn scan_split(s: Seq<char>, sep: char) -> (Seq<Seq<char>>, Seq<char>)
    decreases s.len(),
{
    if s.len() == 0 {
        (Seq::empty(), Seq::empty())
    } else {
        let (done, cur) = scan_split(s.drop_last(), sep);
        if s.last() == sep {
            (done.push(cur), Seq::empty())
        } else {
            (done, cur.push(s.last()))
        }
    }
}

/// The parts of `s` between occurrences of `sep` (as `str::split` gives them).
pub open spec fn split_on(s: Seq<char>, sep: char) -> Seq<Seq<char>> {
    let (done, cur) = scan_split(s, sep);
    done.push(cur)
}

/// Position of the first `c` in `s`, if any.
pub open spec fn first_index_of(s: Seq<char>, c: char) -> Option<int>
    decreases s.len(),
{
    if s.len() == 0 {
        None
    } else if s[0] == c {
        Some(0)
    } else {
        match first_index_of(s.drop_first(), c) {
            Some(i) => Some(i + 1),
            None => None,
        }
    }
}

/// The categories of a `Categories=` value: the non-empty parts between
/// `;`, each trimmed.
pub open spec fn parse_categories(v: Seq<char>) -> Seq<Seq<char>> {
    split_on(v, ';').filter(|p: Seq<char>| p.len() > 0).map_values(|p: Seq<char>| trim(p))
}

/// The entry after the key-value pair `key=value` of the desktop-entry section.
pub open spec fn apply_key(e: DesktopEntryView, key: Seq<char>, value: Seq<char>) -> DesktopEntryView {
    let k = trim(key);
    let v = trim(value);
    if k == "Name"@ {
        DesktopEntryView { name: v, ..e }
    } else if k == "Exec"@ {
        DesktopEntryView { exec_command: v, ..e }
    } else if k == "Icon"@ {
        DesktopEntryView { icon: v, ..e }
    } else if k == "Comment"@ {
        DesktopEntryView { description: v, ..e }
    } else if k == "Categories"@ {
        DesktopEntryView { categories: parse_categories(value), ..e }
    } else if k == "Terminal"@ {
        DesktopEntryView { terminal: v == "true"@, ..e }
    } else if k == "NoDisplay"@ {
        DesktopEntryView { no_display: v == "true"@, ..e }
    } else if k == "Hidden"@ {
        DesktopEntryView { hidden: v == "true"@, ..e }
    } else {
        e
    }
}

/// The parser state after one line: the entry read so far and whether the
/// line is inside the `[Desktop Entry]` section. Comments and blank lines
/// are skipped; lines of other sections, and lines without `=`, change
/// nothing.
pub open spec fn parse_line(st: (DesktopEntryView, bool), line: Seq<char>) -> (DesktopEntryView, bool) {
    let t = trim(line);
    if t.len() == 0 || t[0] == '#' {
        st
    } else if t == "[Desktop Entry]"@ {
        (st.0, true)
    } else if t[0] == '[' {
        (st.0, false)
    } else if !st.1 {
        st
    } else {
        match first_index_of(t, '=') {
            Some(i) => (apply_key(st.0, t.subrange(0, i), t.subrange(i + 1, t.len() as int)), true),
            None => st,
        }
    }
}

/// The state after the lines `ls`, in order.
pub open spec fn parse_lines(st: (DesktopEntryView, bool), ls: Seq<Seq<char>>) -> (DesktopEntryView, bool)
    decreases ls.len(),
{
    if ls.len() == 0 {
        st
    } else {
        parse_line(parse_lines(st, ls.drop_last()), ls.last())
    }
}

/// The default entry, as text.
pub open spec fn default_entry_view() -> DesktopEntryView {
    DesktopEntryView {
        name: "Unknown"@,
        exec_command: Seq::empty(),
        icon: "application-x-executable"@,
        description: Seq::empty(),
        categories: Seq::empty(),
        terminal: false,
        no_display: false,
        hidden: false,
    }
}

/// The entry a desktop file with the text `content` describes. Lines are
/// the parts between line feeds; a carriage return before a line feed is
/// whitespace that trimming removes.
pub open spec fn spec_parse_desktop(content: Seq<char>) -> DesktopEntryView {
    parse_lines((default_entry_view(), false), split_on(content, '\n')).0
}

fn copy_range(v: &Vec<char>, from: usize, to: usize) -> (r: Vec<char>)
    requires
        from <= to <= v@.len(),
    ensures
        r@ == v@.subrange(from as int, to as int),
{
    let mut r: Vec<char> = Vec::new();
    let mut k: usize = from;
    while k < to
        invariant
            from <= k <= to <= v@.len(),
            r@ == v@.subrange(from as int, k as int),
        decreases to - k,
    {
        r.push(v[k]);
        proof {
            assert(v@.subrange(from as int, k + 1) == v@.subrange(from as int, k as int).push(v@[k as int]));
        }
        k += 1;
    }
    r
}

fn find_char(v: &Vec<char>, c: char) -> (r: Option<usize>)
    ensures
        match r {
            Some(i) => first_index_of(v@, c) == Some(i as int) && i < v@.len(),
            None => first_index_of(v@, c).is_none(),
        },
{
    let mut i: usize = 0;
    proof {
        assert(v@.skip(0) == v@);
    }
    while i < v.len()
        invariant
            i <= v@.len(),
            first_index_of(v@, c) == (match first_index_of(v@.skip(i as int), c) {
                Some(j) => Some(j + i),
                None => None,
            }),
        decreases v.len() - i,
    {
        proof {
            assert(v@.skip(i as int)[0] == v@[i as int]);
            assert(v@.skip(i as int).drop_first() == v@.skip(i + 1));
        }
        if v[i] == c {
            return Some(i);
        }
        i += 1;
    }
    proof {
        assert(v@.skip(i as int).len() == 0);
    }
    None
}

fn is_text(v: &Vec<char>, lit: &str) -> (r: bool)
    ensures
        r == (v@ == lit@),
{
    let l = chars_of(lit);
    same_chars(v, &l)
}

/// The categories of a `Categories=` value.
fn categories_of(value: &Vec<char>) -> (r: Vec<String>)
    ensures
        strs(r@) == parse_categories(value@),
{
    let ghost nonempty = |p: Seq<char>| p.len() > 0;
    let ghost tr = |p: Seq<char>| trim(p);
    let mut r: Vec<String> = Vec::new();
    let mut cur: Vec<char> = Vec::new();
    let ghost mut done: Seq<Seq<char>> = Seq::empty();
    let mut i: usize = 0;
    while i < value.len()
        invariant
            i <= value@.len(),
            scan_split(value@.take(i as int), ';') == (done, cur@),
            strs(r@) == done.filter(nonempty).map_values(tr),
            nonempty == (|p: Seq<char>| p.len() > 0),
            tr == (|p: Seq<char>| trim(p)),
        decreases value.len() - i,
    {
        let c = value[i];
        proof {
            assert(value@.take(i + 1).drop_last() == value@.take(i as int));
            assert(value@.take(i + 1).last() == c);
        }
        if c == ';' {
            proof {
                done.lemma_filter_push(cur@, nonempty);
            }
            if cur.len() > 0 {
                let t = trim_chars(cur.as_slice());
                let ghost before = r@;
                r.push(string_from_chars(t.as_slice()));
                proof {
                    assert(strs(r@) =~= strs(before).push(trim(cur@)));
                    assert(done.push(cur@).filter(nonempty) == done.filter(nonempty).push(cur@));
                    assert(done.push(cur@).filter(nonempty).map_values(tr) =~= done.filter(nonempty).map_values(tr).push(trim(cur@)));
                }
            }
            proof {
                done = done.push(cur@);
            }
            cur = Vec::new();
        } else {
            cur.push(c);
        }
        i += 1;
    }
    proof {
        assert(value@.take(value@.len() as int) == value@);
        done.lemma_filter_push(cur@, nonempty);
    }
    if cur.len() > 0 {
        let t = trim_chars(cur.as_slice());
        let ghost before = r@;
        r.push(string_from_chars(t.as_slice()));
        proof {
            assert(strs(r@) =~= strs(before).push(trim(cur@)));
            assert(done.push(cur@).filter(nonempty) == done.filter(nonempty).push(cur@));
            assert(done.push(cur@).filter(nonempty).map_values(tr) =~= done.filter(nonempty).map_values(tr).push(trim(cur@)));
        }
    }
    r
}

/// Applies the key-value pair `key=value`.
fn apply_pair(e: &mut DesktopEntry, key: &Vec<char>, value: &Vec<char>)
    ensures
        final(e)@ == apply_key(old(e)@, key@, value@),
{
    let k = trim_chars(key.as_slice());
    let v = trim_chars(value.as_slice());
    if is_text(&k, "Name") {
        e.name = string_from_chars(v.as_slice());
    } else if is_text(&k, "Exec") {
        e.exec_command = string_from_chars(v.as_slice());
    } else if is_text(&k, "Icon") {
        e.icon = string_from_chars(v.as_slice());
    } else if is_text(&k, "Comment") {
        e.description = string_from_chars(v.as_slice());
    } else if is_text(&k, "Categories") {
        e.categories = categories_of(value);
    } else if is_text(&k, "Terminal") {
        e.terminal = is_text(&v, "true");
    } else if is_text(&k, "NoDisplay") {
        e.no_display = is_text(&v, "true");
    } else if is_text(&k, "Hidden") {
        e.hidden = is_text(&v, "true");
    }
}

/// Applies one line.
fn apply_line(e: &mut DesktopEntry, in_section: bool, line: &Vec<char>) -> (r: bool)
    ensures
        (final(e)@, r) == parse_line((old(e)@, in_section), line@),
{
    let t = trim_chars(line.as_slice());
    if t.len() == 0 || t[0] == '#' {
        return in_section;
    }
    if is_text(&t, "[Desktop Entry]") {
        return true;
    }
    if t[0] == '[' {
        return false;
    }
    if !in_section {
        return false;
    }
    match find_char(&t, '=') {
        Some(i) => {
            let key = copy_range(&t, 0, i);
            let value = copy_range(&t, i + 1, t.len());
            apply_pair(e, &key, &value);
            true
        },
        None => true,
    }
}

impl MenuParser {
    /// The entry described by the text of a `.desktop` file: the keys Name,
    /// Exec, Icon, Comment, Categories, Terminal, NoDisplay and Hidden of its
    /// `[Desktop Entry]` section, over the defaults.
    pub fn parse_desktop_content(content: &str) -> (r: DesktopEntry)
        ensures
            r@ == spec_parse_desktop(content@),
    {
        let v = chars_of(content);
        let mut e = DesktopEntry::new_default();
        let mut in_section = false;
        let mut cur: Vec<char> = Vec::new();
        let ghost mut done: Seq<Seq<char>> = Seq::empty();
        proof {
            assert(e@.categories =~= Seq::<Seq<char>>::empty());
            assert(e@ == default_entry_view());
        }
        let mut i: usize = 0;
        while i < v.len()
            invariant
                v@ == content@,
                i <= v@.len(),
                scan_split(v@.take(i as int), '\n') == (done, cur@),
                (e@, in_section) == parse_lines((default_entry_view(), false), done),
            decreases v.len() - i,
        {
            let c = v[i];
            proof {
                assert(v@.take(i + 1).drop_last() == v@.take(i as int));
                assert(v@.take(i + 1).last() == c);
            }
            if c == '\n' {
                in_section = apply_line(&mut e, in_section, &cur);
                proof {
                    assert(done.push(cur@).drop_last() == done);
                    done = done.push(cur@);
                }
                cur = Vec::new();
            } else {
                cur.push(c);
            }
            i += 1;
        }
        proof {
            assert(v@.take(v@.len() as int) == v@);
            assert(done.push(cur@).drop_last() == done);
        }
        apply_line(&mut e, in_section, &cur);
        e
    }
}

/// Whether `s` is ordered by name.
pub open spec fn sorted_by_name(s: Seq<DesktopEntryView>) -> bool {
    forall|i: int, j: int| 0 <= i < j < s.len() ==> text_le(s[i].name, s[j].name)
}

proof fn lemma_insert_by_name(s: Seq<DesktopEntryView>, e: DesktopEntryView)
    requires
        sorted_by_name(s),
    ensures
        sorted_by_name(insert_by_name(s, e)),
        insert_by_name(s, e).to_multiset() =~= s.to_multiset().insert(e),
        forall|x: DesktopEntryView| #[trigger] insert_by_name(s, e).contains(x) ==> x == e || s.contains(x),
    decreases s.len(),
{
    broadcast use vstd::seq_lib::group_to_multiset_ensures;

    if s.len() == 0 {
        assert(insert_by_name(s, e) == seq![e]);
        assert(seq![e] == Seq::<DesktopEntryView>::empty().push(e));
    } else if text_le(s.last().name, e.name) {
        let r = s.push(e);
        assert forall|i: int, j: int| 0 <= i < j < r.len() implies text_le(r[i].name, r[j].name) by {
            if j == r.len() - 1 && i < s.len() - 1 {
                lemma_text_le_trans(s[i].name, s.last().name, e.name);
            }
        }
    } else {
        let t = s.drop_last();
        let l = s.last();
        assert(sorted_by_name(t));
        lemma_insert_by_name(t, e);
        let u = insert_by_name(t, e);
        lemma_text_le_total(l.name, e.name);
        assert forall|i: int| 0 <= i < u.len() implies text_le(#[trigger] u[i].name, l.name) by {
            assert(u.contains(u[i]));
            if u[i] != e {
                let k = choose|k: int| 0 <= k < t.len() && t[k] == u[i];
                assert(s[k] == t[k]);
                assert(s[s.len() - 1] == l);
            }
        }
        let r = u.push(l);
        assert forall|i: int, j: int| 0 <= i < j < r.len() implies text_le(r[i].name, r[j].name) by {
            if j == r.len() - 1 {
                assert(r[i] == u[i]);
            } else {
                assert(r[i] == u[i] && r[j] == u[j]);
            }
        }
        assert forall|x: DesktopEntryView| #[trigger] r.contains(x) implies x == e || s.contains(x) by {
            if x == l {
                assert(s[s.len() - 1] == l);
            } else {
                let k = choose|k: int| 0 <= k < r.len() && r[k] == x;
                assert(u[k] == x);
                assert(u.contains(x));
                if x != e {
                    let m = choose|m: int| 0 <= m < t.len() && t[m] == x;
                    assert(s[m] == x);
                }
            }
        }
        assert(s == t.push(l));
    }
}

/// The menu's entry list is ordered by name and holds exactly the entries
/// that are neither hidden nor marked NoDisplay.
pub proof fn lemma_listed_entries_sorted(es: Seq<DesktopEntryView>)
    ensures
        sorted_by_name(spec_listed_entries(es)),
        spec_listed_entries(es).to_multiset() =~= es.filter(is_listed()).to_multiset(),
{
    lemma_sort_by_name(es.filter(is_listed()));
}

proof fn lemma_sort_by_name(s: Seq<DesktopEntryView>)
    ensures
        sorted_by_name(sort_by_name(s)),
        sort_by_name(s).to_multiset() =~= s.to_multiset(),
    decreases s.len(),
{
    broadcast use vstd::seq_lib::group_to_multiset_ensures;

    if s.len() > 0 {
        lemma_sort_by_name(s.drop_last());
        lemma_insert_by_name(sort_by_name(s.drop_last()), s.last());
        assert(s == s.drop_last().push(s.last()));
    }
}

/// Splitting text that ends in a part without separator: the part being
/// read grows by that text.
proof fn lemma_scan_split_plain(s: Seq<char>, t: Seq<char>, sep: char)
    requires
        forall|i: int| 0 <= i < t.len() ==> t[i] != sep,
    ensures
        scan_split(s + t, sep) == (scan_split(s, sep).0, scan_split(s, sep).1 + t),
    decreases t.len(),
{
    if t.len() == 0 {
        assert(s + t =~= s);
        assert(scan_split(s, sep).1 + t =~= scan_split(s, sep).1);
    } else {
        let u = t.drop_last();
        lemma_scan_split_plain(s, u, sep);
        assert((s + t).drop_last() =~= s + u);
        assert((s + t).last() == t.last());
        assert(scan_split(s, sep).1 + u.push(t.last()) =~= scan_split(s, sep).1 + t);
        assert(u.push(t.last()) =~= t);
        assert((scan_split(s, sep).1 + u).push(t.last()) =~= scan_split(s, sep).1 + t);
    }
}

/// A trimmed line that starts and ends with a non-whitespace character is
/// its own trim.
proof fn lemma_trim_plain(t: Seq<char>)
    requires
        t.len() > 0,
        !crate::text::char_is_whitespace(t[0]),
        !crate::text::char_is_whitespace(t.last()),
    ensures
        trim(t) == t,
{
    assert(crate::text::trim_start(t) == t);
    assert(crate::text::trim_end(t) == t);
}

/// Inside the `[Desktop Entry]` section, the line `Terminal=true` marks the
/// entry as run in a terminal and `Terminal=false` as not, whatever the
/// entry read so far; nothing else of the entry changes.
pub proof fn lemma_terminal_line(e: DesktopEntryView)
    ensures
        parse_line((e, true), "Terminal=true"@) == (DesktopEntryView { terminal: true, ..e }, true),
        parse_line((e, true), "Terminal=false"@) == (DesktopEntryView { terminal: false, ..e }, true),
{
    reveal_strlit("Terminal=true");
    reveal_strlit("Terminal=false");
    reveal_strlit("Terminal");
    reveal_strlit("true");
    reveal_strlit("false");
    reveal_strlit("Name");
    reveal_strlit("Exec");
    reveal_strlit("Icon");
    reveal_strlit("Comment");
    reveal_strlit("Categories");
    let l1 = "Terminal=true"@;
    let l2 = "Terminal=false"@;
    lemma_trim_plain(l1);
    lemma_trim_plain(l2);
    reveal_with_fuel(first_index_of, 10);
    assert(first_index_of(l1, '=') == Some(8int));
    assert(first_index_of(l2, '=') == Some(8int));
    assert(l1.subrange(0, 8) =~= "Terminal"@);
    assert(l2.subrange(0, 8) =~= "Terminal"@);
    assert(l1.subrange(9, 13) =~= "true"@);
    assert(l2.subrange(9, 14) =~= "false"@);
    lemma_trim_plain("Terminal"@);
    lemma_trim_plain("true"@);
    lemma_trim_plain("false"@);
    assert("Terminal"@ != "Name"@);
    assert("Terminal"@ != "Exec"@);
    assert("Terminal"@ != "Icon"@);
    assert("Terminal"@ != "Comment"@);
    assert("Terminal"@ != "Categories"@);
    assert("false"@ != "true"@);
    reveal_strlit("[Desktop Entry]");
    assert(l1 != "[Desktop Entry]"@);
    assert(l2 != "[Desktop Entry]"@);
    assert(l1[0] != '#' && l1[0] != '[');
    assert(apply_key(e, "Terminal"@, "true"@) == DesktopEntryView { terminal: true, ..e });
    assert(apply_key(e, "Terminal"@, "false"@) == DesktopEntryView { terminal: false, ..e });
}

/// A desktop file that ends with a `[Desktop Entry]` section holding the
/// line `Terminal=true` describes an application run in a terminal,
/// whatever text comes before.
pub proof fn lemma_terminal_file(c: Seq<char>)
    ensures
        spec_parse_desktop(c + "\n[Desktop Entry]\nTerminal=true"@).terminal,
{
    reveal_strlit("\n[Desktop Entry]\nTerminal=true");
    reveal_strlit("[Desktop Entry]");
    reveal_strlit("Terminal=true");
    let h = "[Desktop Entry]"@;
    let t = "Terminal=true"@;
    let full = c + "\n[Desktop Entry]\nTerminal=true"@;
    let c1 = c.push('\n');
    let c2 = c1 + h;
    let c3 = c2.push('\n');
    assert(full =~= c3 + t);
    let (d, cur) = scan_split(c, '\n');
    assert(c1.drop_last() =~= c);
    assert(scan_split(c1, '\n') == (d.push(cur), Seq::<char>::empty()));
    lemma_scan_split_plain(c1, h, '\n');
    assert(Seq::<char>::empty() + h =~= h);
    assert(c3.drop_last() =~= c2);
    assert(scan_split(c3, '\n') == (d.push(cur).push(h), Seq::<char>::empty()));
    lemma_scan_split_plain(c3, t, '\n');
    assert(Seq::<char>::empty() + t =~= t);
    let ls = d.push(cur).push(h).push(t);
    assert(split_on(full, '\n') == ls);
    assert(ls.drop_last() == d.push(cur).push(h));
    assert(d.push(cur).push(h).drop_last() == d.push(cur));
    let st0 = parse_lines((default_entry_view(), false), d.push(cur));
    lemma_trim_plain(h);
    assert(h.len() > 0 && h[0] != '#');
    assert(parse_line(st0, h) == (st0.0, true));
    let st1 = parse_lines((default_entry_view(), false), d.push(cur).push(h));
    assert(st1 == parse_line(st0, h));
    assert(parse_lines((default_entry_view(), false), ls) == parse_line(st1, t));
    lemma_terminal_line(st0.0);
    assert(parse_line(st1, t).0.terminal);
}

/// The first `c` in `a + b`, where `a` holds none, is the first `c` of `b`,
/// shifted by the length of `a`.
proof fn lemma_first_index_after(a: Seq<char>, b: Seq<char>, c: char)
    requires
        forall|i: int| 0 <= i < a.len() ==> a[i] != c,
    ensures
        first_index_of(a + b, c) == (match first_index_of(b, c) {
            Some(i) => Some(i + a.len()),
            None => None,
        }),
    decreases a.len(),
{
    if a.len() == 0 {
        assert(a + b =~= b);
    } else {
        let a2 = a.drop_first();
        lemma_first_index_after(a2, b, c);
        assert((a + b).drop_first() =~= a2 + b);
        assert((a + b)[0] == a[0]);
    }
}

/// Inside the `[Desktop Entry]` section, the line `key=value` (a key
/// without `=`, and a key and value that start and end with other than
/// whitespace) gives the entry what `apply_key` does for the key and value
/// as written.
proof fn lemma_key_line(e: DesktopEntryView, key: Seq<char>, v: Seq<char>)
    requires
        key.len() > 0,
        v.len() > 0,
        forall|i: int| 0 <= i < key.len() ==> key[i] != '=',
        !crate::text::char_is_whitespace(key[0]),
        !crate::text::char_is_whitespace(key.last()),
        !crate::text::char_is_whitespace(v[0]),
        !crate::text::char_is_whitespace(v.last()),
        key[0] != '#',
        key[0] != '[',
    ensures
        parse_line((e, true), key + seq!['='] + v) == (apply_key(e, key, v), true),
{
    let l = key + seq!['='] + v;
    assert(l[0] == key[0]);
    assert(l.last() == v.last());
    lemma_trim_plain(l);
    assert(l =~= key + (seq!['='] + v));
    lemma_first_index_after(key, seq!['='] + v, '=');
    assert((seq!['='] + v)[0] == '=');
    assert(first_index_of(seq!['='] + v, '=') == Some(0int));
    assert(first_index_of(l, '=') == Some(key.len() as int));
    assert(l.subrange(0, key.len() as int) =~= key);
    assert(l.subrange(key.len() as int + 1, l.len() as int) =~= v);
    reveal_strlit("[Desktop Entry]");
    if l == "[Desktop Entry]"@ {
        assert(l[0] == '[');
    }
}

/// Inside the `[Desktop Entry]` section, each line `Key=value` sets its own
/// field of the entry and leaves the others as they were: Name, Exec, Icon
/// and Comment take the value, Categories the categories it lists, and
/// Terminal, NoDisplay and Hidden become whether the value is `true`.
pub proof fn lemma_entry_key_lines(e: DesktopEntryView, v: Seq<char>)
    requires
        v.len() > 0,
        !crate::text::char_is_whitespace(v[0]),
        !crate::text::char_is_whitespace(v.last()),
    ensures
        parse_line((e, true), "Name="@ + v) == (DesktopEntryView { name: v, ..e }, true),
        parse_line((e, true), "Exec="@ + v) == (DesktopEntryView { exec_command: v, ..e }, true),
        parse_line((e, true), "Icon="@ + v) == (DesktopEntryView { icon: v, ..e }, true),
        parse_line((e, true), "Comment="@ + v) == (DesktopEntryView { description: v, ..e }, true),
        parse_line((e, true), "Categories="@ + v) == (DesktopEntryView { categories: parse_categories(v), ..e }, true),
        parse_line((e, true), "Terminal="@ + v) == (DesktopEntryView { terminal: v == "true"@, ..e }, true),
        parse_line((e, true), "NoDisplay="@ + v) == (DesktopEntryView { no_display: v == "true"@, ..e }, true),
        parse_line((e, true), "Hidden="@ + v) == (DesktopEntryView { hidden: v == "true"@, ..e }, true),
{
    reveal_strlit("Name=");
    reveal_strlit("Exec=");
    reveal_strlit("Icon=");
    reveal_strlit("Comment=");
    reveal_strlit("Categories=");
    reveal_strlit("Terminal=");
    reveal_strlit("NoDisplay=");
    reveal_strlit("Hidden=");
    reveal_strlit("Name");
    reveal_strlit("Exec");
    reveal_strlit("Icon");
    reveal_strlit("Comment");
    reveal_strlit("Categories");
    reveal_strlit("Terminal");
    reveal_strlit("NoDisplay");
    reveal_strlit("Hidden");
    lemma_trim_plain(v);
    let keys = seq!["Name"@, "Exec"@, "Icon"@, "Comment"@, "Categories"@, "Terminal"@, "NoDisplay"@, "Hidden"@];
    assert forall|n: int| 0 <= n < 8 implies trim(#[trigger] keys[n]) == keys[n] by {
        lemma_trim_plain(keys[n]);
    }
    lemma_key_line(e, "Name"@, v);
    assert("Name"@ + seq!['='] + v =~= "Name="@ + v);
    lemma_key_line(e, "Exec"@, v);
    assert("Exec"@ + seq!['='] + v =~= "Exec="@ + v);
    lemma_key_line(e, "Icon"@, v);
    assert("Icon"@ + seq!['='] + v =~= "Icon="@ + v);
    lemma_key_line(e, "Comment"@, v);
    assert("Comment"@ + seq!['='] + v =~= "Comment="@ + v);
    lemma_key_line(e, "Categories"@, v);
    assert("Categories"@ + seq!['='] + v =~= "Categories="@ + v);
    lemma_key_line(e, "Terminal"@, v);
    assert("Terminal"@ + seq!['='] + v =~= "Terminal="@ + v);
    lemma_key_line(e, "NoDisplay"@, v);
    assert("NoDisplay"@ + seq!['='] + v =~= "NoDisplay="@ + v);
    lemma_key_line(e, "Hidden"@, v);
    assert("Hidden"@ + seq!['='] + v =~= "Hidden="@ + v);
}

} // verus!
