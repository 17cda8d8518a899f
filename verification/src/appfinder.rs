//! The application finder: application records read from desktop files,
//! the list it shows, fuzzy search, and the command line of a launch.

use vstd::prelude::*;
use crate::text::{
    chars_of, string_from_chars, trim_chars, trim, to_lowercase, str_lowercase, text_le, text_le_chars, same_chars,
    lemma_text_le_total, lemma_text_le_trans, has_suffix,
};
use crate::utils::words;
use fuzzy_matcher::FuzzyMatcher;
use freedesktop_desktop_entry::DesktopEntry as FdoEntry;

verus! {

/// What `SkimMatcherV2::default().fuzzy_match(choice, pattern)` gives.
pub uninterp spec fn skim_score(choice: Seq<char>, pattern: Seq<char>) -> Option<i64>;

/// What `Path::new(p).file_stem()` gives for the path `p`, as text.
pub uninterp spec fn path_file_stem(p: Seq<char>) -> Option<Seq<char>>;

/// `fuzzy_matcher`'s `SkimMatcherV2::fuzzy_match` with the default matcher:
/// the score of `pattern` in `choice`, if it matches; it depends on the two
/// texts alone.
#[verifier::external_body]
pub(crate) fn fuzzy_score(choice: &str, pattern: &str) -> (r: Option<i64>)
    ensures
        r == skim_score(choice@, pattern@),
{
    fuzzy_matcher::skim::SkimMatcherV2::default().fuzzy_match(choice, pattern)
}

/// `std::path::Path::file_stem` of a path given as text.
#[verifier::external_body]
fn file_stem(p: &str) -> (r: Option<String>)
    ensures
        match r {
            Some(s) => path_file_stem(p@) == Some(s@),
            None => path_file_stem(p@).is_none(),
        },
{
    std::path::Path::new(p).file_stem().and_then(|s| s.to_str()).map(|s| s.to_string())
}

/// The decoded desktop file of the `freedesktop_desktop_entry` crate.
#[verifier::external_type_specification]
#[verifier::external_body]
pub struct ExFdoEntry(FdoEntry);

/// Whether `DesktopEntry::from_str` decodes the text `text` of the desktop
/// file at `path` with the locale filter `locales`.
pub uninterp spec fn fdo_decodes(path: Seq<char>, text: Seq<char>, locales: Seq<Seq<char>>) -> bool;

/// `freedesktop_desktop_entry::DesktopEntry::from_str`: decodes a desktop
/// file's text. Whether it succeeds depends on the path, the text and the
/// locale filter alone; it fails on a path that does not end in `.desktop`
/// (no application ID), and on malformed text. Nothing is claimed of the
/// decoded entry.
#[verifier::external_body]
fn decode_entry(path: &str, text: &str, locales: &[&str]) -> (r: Option<FdoEntry>)
    ensures
        r is Some <==> fdo_decodes(path@, text@, locales@.map_values(|l: &str| l@)),
        !has_suffix(path@, ".desktop"@) ==> r is None,
{
    FdoEntry::from_str(path, text, Some(locales)).ok()
}

/// What `DesktopEntry::from_str(path, text, Some(locales))` followed by
/// `exec()` gives, as text; none where decoding fails.
pub uninterp spec fn fdo_exec(path: Seq<char>, text: Seq<char>, locales: Seq<Seq<char>>) -> Option<Seq<char>>;

/// As `fdo_exec`, for `icon()`.
pub uninterp spec fn fdo_icon(path: Seq<char>, text: Seq<char>, locales: Seq<Seq<char>>) -> Option<Seq<char>>;

/// As `fdo_exec`, for `categories()`.
pub uninterp spec fn fdo_categories(path: Seq<char>, text: Seq<char>, locales: Seq<Seq<char>>) -> Option<
    Seq<Seq<char>>,
>;

/// As `fdo_exec`, for `terminal()`; false where decoding fails.
pub uninterp spec fn fdo_terminal(path: Seq<char>, text: Seq<char>, locales: Seq<Seq<char>>) -> bool;

/// As `fdo_terminal`, for `no_display()`.
pub uninterp spec fn fdo_no_display(path: Seq<char>, text: Seq<char>, locales: Seq<Seq<char>>) -> bool;

/// As `fdo_terminal`, for `hidden()`.
pub uninterp spec fn fdo_hidden(path: Seq<char>, text: Seq<char>, locales: Seq<Seq<char>>) -> bool;

/// `DesktopEntry::exec` of the entry that `DesktopEntry::from_str` decodes
/// from the path, text and locale filter. Both are lookups in the parsed
/// text, so the result depends on these three alone.
#[verifier::external_body]
fn decoded_exec(path: &str, text: &str, locales: &[&str]) -> (r: Option<String>)
    ensures
        opt_view(r) == fdo_exec(path@, text@, locales@.map_values(|l: &str| l@)),
{
    match FdoEntry::from_str(path, text, Some(locales)) {
        Ok(e) => e.exec().map(|s| s.to_string()),
        Err(_) => None,
    }
}

/// `DesktopEntry::icon` of the decoded entry, as for `decoded_exec`.
#[verifier::external_body]
fn decoded_icon(path: &str, text: &str, locales: &[&str]) -> (r: Option<String>)
    ensures
        opt_view(r) == fdo_icon(path@, text@, locales@.map_values(|l: &str| l@)),
{
    match FdoEntry::from_str(path, text, Some(locales)) {
        Ok(e) => e.icon().map(|s| s.to_string()),
        Err(_) => None,
    }
}

/// `DesktopEntry::categories` of the decoded entry, as for `decoded_exec`.
#[verifier::external_body]
fn decoded_categories(path: &str, text: &str, locales: &[&str]) -> (r: Option<Vec<String>>)
    ensures
        match r {
            Some(v) => fdo_categories(path@, text@, locales@.map_values(|l: &str| l@)) == Some(strs_view(v@)),
            None => fdo_categories(path@, text@, locales@.map_values(|l: &str| l@)) is None,
        },
{
    match FdoEntry::from_str(path, text, Some(locales)) {
        Ok(e) => e.categories().map(|cats| cats.into_iter().map(|s| s.to_string()).collect()),
        Err(_) => None,
    }
}

/// `DesktopEntry::terminal` of the decoded entry, as for `decoded_exec`.
#[verifier::external_body]
fn decoded_terminal(path: &str, text: &str, locales: &[&str]) -> (r: bool)
    ensures
        r == fdo_terminal(path@, text@, locales@.map_values(|l: &str| l@)),
{
    match FdoEntry::from_str(path, text, Some(locales)) {
        Ok(e) => e.terminal(),
        Err(_) => false,
    }
}

/// `DesktopEntry::no_display` of the decoded entry, as for `decoded_exec`.
#[verifier::external_body]
fn decoded_no_display(path: &str, text: &str, locales: &[&str]) -> (r: bool)
    ensures
        r == fdo_no_display(path@, text@, locales@.map_values(|l: &str| l@)),
{
    match FdoEntry::from_str(path, text, Some(locales)) {
        Ok(e) => e.no_display(),
        Err(_) => false,
    }
}

/// `DesktopEntry::hidden` of the decoded entry, as for `decoded_exec`.
#[verifier::external_body]
fn decoded_hidden(path: &str, text: &str, locales: &[&str]) -> (r: bool)
    ensures
        r == fdo_hidden(path@, text@, locales@.map_values(|l: &str| l@)),
{
    match FdoEntry::from_str(path, text, Some(locales)) {
        Ok(e) => e.hidden(),
        Err(_) => false,
    }
}

/// As `fdo_exec`, for `name(locales)`.
pub uninterp spec fn fdo_name(path: Seq<char>, text: Seq<char>, locales: Seq<Seq<char>>) -> Option<Seq<char>>;

/// As `fdo_exec`, for `generic_name(locales)`.
pub uninterp spec fn fdo_generic_name(path: Seq<char>, text: Seq<char>, locales: Seq<Seq<char>>) -> Option<
    Seq<char>,
>;

/// As `fdo_exec`, for `comment(locales)`.
pub uninterp spec fn fdo_comment(path: Seq<char>, text: Seq<char>, locales: Seq<Seq<char>>) -> Option<Seq<char>>;

/// As `fdo_exec`, for `keywords(locales)`.
pub uninterp spec fn fdo_keywords(path: Seq<char>, text: Seq<char>, locales: Seq<Seq<char>>) -> Option<
    Seq<Seq<char>>,
>;

/// `DesktopEntry::name` of the decoded entry for the same locales, as for
/// `decoded_exec`: the crate is built without its gettext feature, so the
/// translation is looked up in the parsed text alone.
#[verifier::external_body]
fn decoded_name(path: &str, text: &str, locales: &[&str]) -> (r: Option<String>)
    ensures
        opt_view(r) == fdo_name(path@, text@, locales@.map_values(|l: &str| l@)),
{
    match FdoEntry::from_str(path, text, Some(locales)) {
        Ok(e) => e.name(locales).map(|s| s.to_string()),
        Err(_) => None,
    }
}

/// `DesktopEntry::generic_name` of the decoded entry, as for `decoded_name`.
#[verifier::external_body]
fn decoded_generic_name(path: &str, text: &str, locales: &[&str]) -> (r: Option<String>)
    ensures
        opt_view(r) == fdo_generic_name(path@, text@, locales@.map_values(|l: &str| l@)),
{
    match FdoEntry::from_str(path, text, Some(locales)) {
        Ok(e) => e.generic_name(locales).map(|s| s.to_string()),
        Err(_) => None,
    }
}

/// `DesktopEntry::comment` of the decoded entry, as for `decoded_name`.
#[verifier::external_body]
fn decoded_comment(path: &str, text: &str, locales: &[&str]) -> (r: Option<String>)
    ensures
        opt_view(r) == fdo_comment(path@, text@, locales@.map_values(|l: &str| l@)),
{
    match FdoEntry::from_str(path, text, Some(locales)) {
        Ok(e) => e.comment(locales).map(|s| s.to_string()),
        Err(_) => None,
    }
}

/// `DesktopEntry::keywords` of the decoded entry, as for `decoded_name`.
/// The keywords are the pieces of one value split at `;`, so none of them
/// holds a `;`.
#[verifier::external_body]
fn decoded_keywords(path: &str, text: &str, locales: &[&str]) -> (r: Option<Vec<String>>)
    ensures
        match r {
            Some(v) => fdo_keywords(path@, text@, locales@.map_values(|l: &str| l@)) == Some(strs_view(v@)),
            None => fdo_keywords(path@, text@, locales@.map_values(|l: &str| l@)) is None,
        },
        r matches Some(ks) ==> forall|i: int| 0 <= i < ks@.len() ==> !(#[trigger] ks@[i])@.contains(';'),
{
    match FdoEntry::from_str(path, text, Some(locales)) {
        Ok(e) => e.keywords(locales).map(|kws| kws.into_iter().map(|s| s.to_string()).collect()),
        Err(_) => None,
    }
}

/// An application the finder lists.
#[derive(Debug, Clone)]
pub struct AppEntry {
    pub id: String,
    pub name: String,
    pub generic_name: Option<String>,
    pub comment: Option<String>,
    /// The Exec line of the desktop file.
    pub exec_command: String,
    pub icon: Option<String>,
    pub categories: Vec<String>,
    pub keywords: Vec<String>,
    pub terminal: bool,
}

/// What a desktop file says of an application, before the finder decides
/// whether to list it.
#[derive(Debug, Clone)]
pub struct AppRecord {
    /// The file name without its extension.
    pub id: String,
    pub name: Option<String>,
    pub generic_name: Option<String>,
    pub comment: Option<String>,
    pub exec_command: Option<String>,
    pub icon: Option<String>,
    pub categories: Vec<String>,
    pub keywords: Vec<String>,
    pub terminal: bool,
    pub no_display: bool,
    pub hidden: bool,
}

/// The applications of the finder.
pub struct AppState {
    pub entries: Vec<AppEntry>,
}

pub open spec fn opt_view(o: Option<String>) -> Option<Seq<char>> {
    match o {
        Some(s) => Some(s@),
        None => None,
    }
}

pub open spec fn strs_view(v: Seq<String>) -> Seq<Seq<char>> {
    v.map_values(|s: String| s@)
}

/// The content of an application entry.
pub struct AppEntryView {
    pub id: Seq<char>,
    pub name: Seq<char>,
    pub generic_name: Option<Seq<char>>,
    pub comment: Option<Seq<char>>,
    pub exec_command: Seq<char>,
    pub icon: Option<Seq<char>>,
    pub categories: Seq<Seq<char>>,
    pub keywords: Seq<Seq<char>>,
    pub terminal: bool,
}

impl View for AppEntry {
    type V = AppEntryView;

    open spec fn view(&self) -> AppEntryView {
        AppEntryView {
            id: self.id@,
            name: self.name@,
            generic_name: opt_view(self.generic_name),
            comment: opt_view(self.comment),
            exec_command: self.exec_command@,
            icon: opt_view(self.icon),
            categories: strs_view(self.categories@),
            keywords: strs_view(self.keywords@),
            terminal: self.terminal,
        }
    }
}

/// The content of an application record.
pub struct AppRecordView {
    pub id: Seq<char>,
    pub name: Option<Seq<char>>,
    pub generic_name: Option<Seq<char>>,
    pub comment: Option<Seq<char>>,
    pub exec_command: Option<Seq<char>>,
    pub icon: Option<Seq<char>>,
    pub categories: Seq<Seq<char>>,
    pub keywords: Seq<Seq<char>>,
    pub terminal: bool,
    pub no_display: bool,
    pub hidden: bool,
}

impl View for AppRecord {
    type V = AppRecordView;

    open spec fn view(&self) -> AppRecordView {
        AppRecordView {
            id: self.id@,
            name: opt_view(self.name),
            generic_name: opt_view(self.generic_name),
            comment: opt_view(self.comment),
            exec_command: opt_view(self.exec_command),
            icon: opt_view(self.icon),
            categories: strs_view(self.categories@),
            keywords: strs_view(self.keywords@),
            terminal: self.terminal,
            no_display: self.no_display,
            hidden: self.hidden,
        }
    }
}

pub open spec fn app_views(v: Seq<AppEntry>) -> Seq<AppEntryView> {
    v.map_values(|a: AppEntry| a@)
}

pub open spec fn record_views(v: Seq<AppRecord>) -> Seq<AppRecordView> {
    v.map_values(|a: AppRecord| a@)
}

fn copy_opt(o: &Option<String>) -> (r: Option<String>)
    ensures
        opt_view(r) == opt_view(*o),
{
    match o {
        Some(s) => Some(s.clone()),
        None => None,
    }
}

fn copy_strs(v: &Vec<String>) -> (r: Vec<String>)
    ensures
        strs_view(r@) == strs_view(v@),
{
    let mut r: Vec<String> = Vec::new();
    let mut i: usize = 0;
    while i < v.len()
        invariant
            i <= v@.len(),
            strs_view(r@) == strs_view(v@.take(i as int)),
        decreases v.len() - i,
    {
        let ghost before = r@;
        r.push(v[i].clone());
        proof {
            assert(strs_view(r@) =~= strs_view(before).push(v@[i as int]@));
            assert(v@.take(i + 1) == v@.take(i as int).push(v@[i as int]));
            assert(strs_view(v@.take(i + 1)) =~= strs_view(v@.take(i as int)).push(v@[i as int]@));
        }
        i += 1;
    }
    proof {
        assert(v@.take(v@.len() as int) == v@);
    }
    r
}

impl AppEntry {
    /// A copy of this entry.
    pub fn copied(&self) -> (r: Self)
        ensures
            r@ == self@,
    {
        AppEntry {
            id: self.id.clone(),
            name: self.name.clone(),
            generic_name: copy_opt(&self.generic_name),
            comment: copy_opt(&self.comment),
            exec_command: self.exec_command.clone(),
            icon: copy_opt(&self.icon),
            categories: copy_strs(&self.categories),
            keywords: copy_strs(&self.keywords),
            terminal: self.terminal,
        }
    }
}

/// The entry listed for a record: the record's name, or its ID when it has
/// none.
pub open spec fn entry_of(r: AppRecordView) -> AppEntryView {
    AppEntryView {
        id: r.id,
        name: match r.name {
            Some(n) => n,
            None => r.id,
        },
        generic_name: r.generic_name,
        comment: r.comment,
        exec_command: r.exec_command.unwrap(),
        icon: r.icon,
        categories: r.categories,
        keywords: r.keywords,
        terminal: r.terminal,
    }
}

/// Whether an application with ID `id` is already in `es`.
pub open spec fn has_id(es: Seq<AppEntryView>, id: Seq<char>) -> bool {
    exists|k: int| 0 <= k < es.len() && (#[trigger] es[k]).id == id
}

/// The applications listed for the records `rs`, in order: records that
/// are shown and have an Exec line, the first of each ID.
pub open spec fn kept_apps(rs: Seq<AppRecordView>) -> Seq<AppEntryView>
    decreases rs.len(),
{
    if rs.len() == 0 {
        Seq::empty()
    } else {
        let prev = kept_apps(rs.drop_last());
        let r = rs.last();
        if r.no_display || r.hidden || r.exec_command.is_none() || has_id(prev, r.id) {
            prev
        } else {
            prev.push(entry_of(r))
        }
    }
}

/// Whether application `a` sorts after `b`: by lower-cased name.
pub open spec fn app_after(a: AppEntryView, b: AppEntryView) -> bool {
    !text_le(str_lowercase(a.name), str_lowercase(b.name))
}

pub open spec fn insert_app(s: Seq<AppEntryView>, a: AppEntryView) -> Seq<AppEntryView>
    decreases s.len(),
{
    if s.len() == 0 {
        seq![a]
    } else if !app_after(s.last(), a) {
        s.push(a)
    } else {
        insert_app(s.drop_last(), a).push(s.last())
    }
}

/// `s` sorted by lower-cased name, equal names keeping their order.
pub open spec fn sort_apps(s: Seq<AppEntryView>) -> Seq<AppEntryView>
    decreases s.len(),
{
    if s.len() == 0 {
        s
    } else {
        insert_app(sort_apps(s.drop_last()), s.last())
    }
}

proof fn lemma_insert_app_at(s: Seq<AppEntryView>, a: AppEntryView, k: int)
    requires
        0 <= k <= s.len(),
        forall|j: int| k <= j < s.len() ==> app_after(#[trigger] s[j], a),
        k == 0 || !app_after(s[k - 1], a),
    ensures
        insert_app(s, a) == s.take(k) + seq![a] + s.skip(k),
    decreases s.len(),
{
    if s.len() == 0 {
        assert(s.take(k) + seq![a] + s.skip(k) =~= seq![a]);
    } else if k == s.len() {
        assert(s.last() == s[k - 1]);
        assert(s.take(k) + seq![a] + s.skip(k) =~= s.push(a));
    } else {
        let t = s.drop_last();
        assert(app_after(s.last(), a)) by {
            assert(s.last() == s[s.len() - 1]);
        }
        assert forall|j: int| k <= j < t.len() implies app_after(#[trigger] t[j], a) by {
            assert(t[j] == s[j]);
        }
        if k > 0 {
            assert(t[k - 1] == s[k - 1]);
        }
        lemma_insert_app_at(t, a, k);
        assert(t.take(k) + seq![a] + t.skip(k) + seq![s.last()] =~= s.take(k) + seq![a] + s.skip(k));
    }
}

/// Inserts `a` into `v`, kept with the lower-cased names `keys`.
fn insert_app_exec(v: &mut Vec<AppEntry>, keys: &mut Vec<Vec<char>>, a: AppEntry)
    requires
        old(keys)@.len() == old(v)@.len(),
        forall|j: int| 0 <= j < old(v)@.len() ==> (#[trigger] old(keys)@[j])@ == str_lowercase(old(v)@[j].name@),
    ensures
        final(keys)@.len() == final(v)@.len(),
        forall|j: int| 0 <= j < final(v)@.len() ==> (#[trigger] final(keys)@[j])@ == str_lowercase(final(v)@[j].name@),
        app_views(final(v)@) == insert_app(app_views(old(v)@), a@),
{
    let key = chars_of(to_lowercase(a.name.as_str()).as_str());
    let mut k: usize = v.len();
    while k > 0 && !text_le_chars(&keys[k - 1], &key)
        invariant
            k <= v@.len(),
            keys@.len() == v@.len(),
            key@ == str_lowercase(a.name@),
            forall|j: int| 0 <= j < v@.len() ==> (#[trigger] keys@[j])@ == str_lowercase(v@[j].name@),
            forall|j: int| k <= j < v@.len() ==> app_after((#[trigger] v@[j])@, a@),
        decreases k,
    {
        proof {
            assert(keys@[k - 1]@ == str_lowercase(v@[k - 1].name@));
        }
        k -= 1;
    }
    let ghost sv = app_views(v@);
    proof {
        assert forall|j: int| k <= j < sv.len() implies app_after(#[trigger] sv[j], a@) by {
            assert(sv[j] == v@[j]@);
        }
        if k > 0 {
            assert(sv[k - 1] == v@[k - 1]@);
            assert(keys@[k - 1]@ == str_lowercase(v@[k - 1].name@));
        }
        lemma_insert_app_at(sv, a@, k as int);
    }
    let ghost av = a@;
    let ghost old_keys = keys@;
    let ghost old_v = v@;
    v.insert(k, a);
    keys.insert(k, key);
    proof {
        assert(app_views(v@) =~= sv.take(k as int) + seq![av] + sv.skip(k as int));
        assert forall|j: int| 0 <= j < v@.len() implies (#[trigger] keys@[j])@ == str_lowercase(v@[j].name@) by {
            if j < k {
                assert(keys@[j] == old_keys[j]);
                assert(v@[j] == old_v[j]);
            } else if j > k {
                assert(keys@[j] == old_keys[j - 1]);
                assert(v@[j] == old_v[j - 1]);
            }
        }
    }
}

/// The score of `pattern` for an application: the best match in its name,
/// generic name, comment and keywords, a missing match counting as 0 (a
/// keyword score only when some keyword matches).
pub open spec fn spec_app_score(a: AppEntryView, q: Seq<char>) -> i64 {
    let n = score_or_zero(skim_score(a.name, q));
    let g = match a.generic_name {
        Some(t) => score_or_zero(skim_score(t, q)),
        None => 0,
    };
    let c = match a.comment {
        Some(t) => score_or_zero(skim_score(t, q)),
        None => 0,
    };
    let k = score_or_zero(best_keyword(a.keywords, q));
    max_i64(max_i64(max_i64(n, g), c), k)
}

/// The best keyword score is at least the score of each keyword that
/// matches, and is the score of one of them.
proof fn lemma_best_keyword(ks: Seq<Seq<char>>, q: Seq<char>)
    ensures
        forall|i: int|
            0 <= i < ks.len() && (#[trigger] skim_score(ks[i], q)) is Some ==> best_keyword(ks, q) is Some
                && best_keyword(ks, q).unwrap() >= skim_score(ks[i], q).unwrap(),
        best_keyword(ks, q) is Some ==> exists|i: int|
            0 <= i < ks.len() && #[trigger] skim_score(ks[i], q) == best_keyword(ks, q),
    decreases ks.len(),
{
    if ks.len() > 0 {
        let d = ks.drop_last();
        lemma_best_keyword(d, q);
        assert forall|i: int|
            0 <= i < ks.len() && (#[trigger] skim_score(ks[i], q)) is Some implies best_keyword(ks, q) is Some
                && best_keyword(ks, q).unwrap() >= skim_score(ks[i], q).unwrap() by {
            if i < d.len() {
                assert(ks[i] == d[i]);
                assert(skim_score(d[i], q) is Some);
            }
        }
        if best_keyword(ks, q) is Some {
            if skim_score(ks.last(), q) == best_keyword(ks, q) {
                assert(skim_score(ks[ks.len() - 1], q) == best_keyword(ks, q));
            } else {
                let j = choose|j: int| 0 <= j < d.len() && #[trigger] skim_score(d[j], q) == best_keyword(d, q);
                assert(ks[j] == d[j]);
            }
        }
    }
}

/// An application's search score is at least the score of its name, of its
/// generic name and comment when it has them, and of each keyword that
/// matches;
/// and it is the score of one of these (a missing part or no matching
/// keyword counting 0).
pub proof fn lemma_app_score(a: AppEntryView, q: Seq<char>)
    ensures
        spec_app_score(a, q) >= score_or_zero(skim_score(a.name, q)),
        a.generic_name matches Some(t) ==> spec_app_score(a, q) >= score_or_zero(skim_score(t, q)),
        a.comment matches Some(t) ==> spec_app_score(a, q) >= score_or_zero(skim_score(t, q)),
        forall|i: int|
            0 <= i < a.keywords.len() && (#[trigger] skim_score(a.keywords[i], q)) is Some ==> spec_app_score(a, q)
                >= skim_score(a.keywords[i], q).unwrap(),
        ({
            let r = spec_app_score(a, q);
            ||| r == score_or_zero(skim_score(a.name, q))
            ||| (a.generic_name matches Some(t) && r == score_or_zero(skim_score(t, q)))
            ||| (a.comment matches Some(t) && r == score_or_zero(skim_score(t, q)))
            ||| (exists|i: int| 0 <= i < a.keywords.len() && r == score_or_zero(#[trigger] skim_score(a.keywords[i], q)))
            ||| r == 0
        }),
{
    lemma_best_keyword(a.keywords, q);
}

pub open spec fn score_or_zero(s: Option<i64>) -> i64 {
    match s {
        Some(v) => v,
        None => 0,
    }
}

pub open spec fn max_i64(a: i64, b: i64) -> i64 {
    if a >= b { a } else { b }
}

/// The best score among the keywords that match, if any does.
pub open spec fn best_keyword(ks: Seq<Seq<char>>, q: Seq<char>) -> Option<i64>
    decreases ks.len(),
{
    if ks.len() == 0 {
        None
    } else {
        let prev = best_keyword(ks.drop_last(), q);
        match skim_score(ks.last(), q) {
            Some(s) => match prev {
                Some(p) => Some(max_i64(p, s)),
                None => Some(s),
            },
            None => prev,
        }
    }
}

/// `s` with `(score, a)` inserted after the entries whose score is not
/// lower.
pub open spec fn insert_scored(s: Seq<(i64, AppEntryView)>, x: (i64, AppEntryView)) -> Seq<(i64, AppEntryView)>
    decreases s.len(),
{
    if s.len() == 0 {
        seq![x]
    } else if s.last().0 >= x.0 {
        s.push(x)
    } else {
        insert_scored(s.drop_last(), x).push(s.last())
    }
}

/// The scored applications with a positive score, highest first, equal
/// scores keeping their order.
pub open spec fn rank(s: Seq<(i64, AppEntryView)>) -> Seq<(i64, AppEntryView)>
    decreases s.len(),
{
    if s.len() == 0 {
        s
    } else if s.last().0 > 0 {
        insert_scored(rank(s.drop_last()), s.last())
    } else {
        rank(s.drop_last())
    }
}

proof fn lemma_insert_scored_at(s: Seq<(i64, AppEntryView)>, x: (i64, AppEntryView), k: int)
    requires
        0 <= k <= s.len(),
        forall|j: int| k <= j < s.len() ==> (#[trigger] s[j]).0 < x.0,
        k == 0 || s[k - 1].0 >= x.0,
    ensures
        insert_scored(s, x) == s.take(k) + seq![x] + s.skip(k),
    decreases s.len(),
{
    if s.len() == 0 {
        assert(s.take(k) + seq![x] + s.skip(k) =~= seq![x]);
    } else if k == s.len() {
        assert(s.last() == s[k - 1]);
        assert(s.take(k) + seq![x] + s.skip(k) =~= s.push(x));
    } else {
        let t = s.drop_last();
        assert(s.last().0 < x.0) by {
            assert(s.last() == s[s.len() - 1]);
        }
        assert forall|j: int| k <= j < t.len() implies (#[trigger] t[j]).0 < x.0 by {
            assert(t[j] == s[j]);
        }
        if k > 0 {
            assert(t[k - 1] == s[k - 1]);
        }
        lemma_insert_scored_at(t, x, k);
        assert(t.take(k) + seq![x] + t.skip(k) + seq![s.last()] =~= s.take(k) + seq![x] + s.skip(k));
    }
}

/// The applications of `apps` with their scores.
pub open spec fn scored(apps: Seq<AppEntryView>, scores: Seq<i64>) -> Seq<(i64, AppEntryView)> {
    Seq::new(apps.len(), |i: int| (scores[i], apps[i]))
}

/// The applications of a ranking.
pub open spec fn ranked_apps(s: Seq<(i64, AppEntryView)>) -> Seq<AppEntryView> {
    s.map_values(|x: (i64, AppEntryView)| x.1)
}

/// The placeholders of the Exec line that a launch drops.
pub open spec fn is_field_code(c: char) -> bool {
    c == 'f' || c == 'F' || c == 'u' || c == 'U' || c == 'd' || c == 'D' || c == 'n' || c == 'N' || c == 'k'
        || c == 'v' || c == 'c'
}

/// `s` without the occurrences of `%` followed by `c`, taken from left to
/// right as `str::replace` finds them.
pub open spec fn remove_code(s: Seq<char>, c: char) -> Seq<char>
    decreases s.len(),
{
    if s.len() < 2 {
        s
    } else if s[0] == '%' && s[1] == c {
        remove_code(s.skip(2), c)
    } else {
        seq![s[0]] + remove_code(s.skip(1), c)
    }
}

/// The Exec line with the field codes removed one after another, in the
/// order f F u U d D n N k v c.
pub open spec fn strip_field_codes(s: Seq<char>) -> Seq<char> {
    let s1 = remove_code(remove_code(remove_code(remove_code(s, 'f'), 'F'), 'u'), 'U');
    let s2 = remove_code(remove_code(remove_code(remove_code(s1, 'd'), 'D'), 'n'), 'N');
    remove_code(remove_code(remove_code(s2, 'k'), 'v'), 'c')
}

/// The program and arguments of a launch: the words of the trimmed Exec
/// line without its field codes.
pub open spec fn spec_launch_parts(exec: Seq<char>) -> Seq<Seq<char>> {
    words(trim(strip_field_codes(exec)))
}

pub(crate) fn remove_code_exec(s: &Vec<char>, c: char) -> (r: Vec<char>)
    ensures
        r@ == remove_code(s@, c),
{
    let mut r: Vec<char> = Vec::new();
    let mut i: usize = 0;
    let n = s.len();
    proof {
        assert(s@.skip(0) == s@);
        assert(r@ + remove_code(s@, c) =~= remove_code(s@, c));
    }
    while i < n
        invariant
            n == s@.len(),
            i <= n,
            remove_code(s@, c) == r@ + remove_code(s@.skip(i as int), c),
        decreases n - i,
    {
        proof {
            assert(s@.skip(i as int).skip(1) == s@.skip(i + 1));
            if i + 2 <= n {
                assert(s@.skip(i as int).skip(2) == s@.skip(i + 2));
            }
        }
        if i + 1 < n && s[i] == '%' && s[i + 1] == c {
            proof {
                assert(s@.skip(i as int)[0] == s@[i as int]);
                assert(s@.skip(i as int)[1] == s@[i + 1]);
            }
            i += 2;
        } else {
            proof {
                if i + 1 < n {
                    assert(s@.skip(i as int)[0] == s@[i as int]);
                    assert(s@.skip(i as int)[1] == s@[i + 1]);
                } else {
                    assert(s@.skip(i as int) =~= seq![s@[i as int]]);
                    assert(s@.skip(i + 1).len() == 0);
                }
                assert(r@.push(s@[i as int]) + remove_code(s@.skip(i + 1), c) =~= r@ + (seq![s@[i as int]]
                    + remove_code(s@.skip(i + 1), c)));
            }
            r.push(s[i]);
            i += 1;
        }
    }
    proof {
        assert(s@.skip(n as int).len() == 0);
        assert(r@ + Seq::<char>::empty() =~= r@);
    }
    r
}

impl AppState {
    /// A finder with no applications yet.
    pub fn new() -> (r: Self)
        ensures
            r.entries@.len() == 0,
    {
        AppState { entries: Vec::new() }
    }

    /// The record a desktop file describes, from its path and text, read
    /// with the locales `en_US` and `en`; none exactly when the crate cannot
    /// decode it, as for a path that does not end in `.desktop`. The ID is
    /// the file's stem; Name, GenericName, Comment, Keywords (translated for
    /// the two locales), Exec, Icon, Categories (lists empty when absent),
    /// Terminal, NoDisplay and Hidden are those of the decoded entry.
    pub fn read_record(path: &str, text: &str) -> (r: Option<AppRecord>)
        ensures
            r is Some <==> fdo_decodes(path@, text@, seq!["en_US"@, "en"@]),
            !has_suffix(path@, ".desktop"@) ==> r is None,
            r matches Some(rec) ==> {
                let ls = seq!["en_US"@, "en"@];
                &&& rec.id@ == (match path_file_stem(path@) {
                    Some(s) => s,
                    None => "unknown"@,
                })
                &&& rec@.name == fdo_name(path@, text@, ls)
                &&& rec@.generic_name == fdo_generic_name(path@, text@, ls)
                &&& rec@.comment == fdo_comment(path@, text@, ls)
                &&& rec@.keywords == (match fdo_keywords(path@, text@, ls) {
                    Some(k) => k,
                    None => Seq::empty(),
                })
                &&& rec@.exec_command == fdo_exec(path@, text@, ls)
                &&& rec@.icon == fdo_icon(path@, text@, ls)
                &&& rec@.categories == (match fdo_categories(path@, text@, ls) {
                    Some(c) => c,
                    None => Seq::empty(),
                })
                &&& rec@.terminal == fdo_terminal(path@, text@, ls)
                &&& rec@.no_display == fdo_no_display(path@, text@, ls)
                &&& rec@.hidden == fdo_hidden(path@, text@, ls)
                &&& forall|i: int| 0 <= i < rec@.keywords.len() ==> !(#[trigger] rec@.keywords[i]).contains(';')
            },
    {
        let locales: [&str; 2] = ["en_US", "en"];
        proof {
            assert(locales@.map_values(|l: &str| l@) =~= seq!["en_US"@, "en"@]);
        }
        if decode_entry(path, text, &locales).is_none() {
            return None;
        }
        let id = match file_stem(path) {
            Some(s) => s,
            None => String::from_str("unknown"),
        };
        let categories = match decoded_categories(path, text, &locales) {
            Some(c) => c,
            None => Vec::new(),
        };
        let keywords = match decoded_keywords(path, text, &locales) {
            Some(k) => k,
            None => Vec::new(),
        };
        let rec = AppRecord {
            id,
            name: decoded_name(path, text, &locales),
            generic_name: decoded_generic_name(path, text, &locales),
            comment: decoded_comment(path, text, &locales),
            exec_command: decoded_exec(path, text, &locales),
            icon: decoded_icon(path, text, &locales),
            categories,
            keywords,
            terminal: decoded_terminal(path, text, &locales),
            no_display: decoded_no_display(path, text, &locales),
            hidden: decoded_hidden(path, text, &locales),
        };
        proof {
            assert(rec@.categories == strs_view(rec.categories@));
            assert(rec@.keywords == strs_view(rec.keywords@));
            assert forall|i: int| 0 <= i < rec@.keywords.len() implies !(#[trigger] rec@.keywords[i]).contains(';') by {
                assert(rec@.keywords[i] == rec.keywords@[i]@);
            }
        }
        Some(rec)
    }

    /// The applications to list for the records, in the order of their
    /// files: those shown and with an Exec line, the first of each ID,
    /// sorted by lower-cased name (equal names keep their order).
    pub fn collect_apps(records: &Vec<AppRecord>) -> (r: Vec<AppEntry>)
        ensures
            app_views(r@) == sort_apps(kept_apps(record_views(records@))),
    {
        let ghost all = record_views(records@);
        let mut kept: Vec<AppEntry> = Vec::new();
        let mut i: usize = 0;
        while i < records.len()
            invariant
                i <= records@.len(),
                all == record_views(records@),
                app_views(kept@) == kept_apps(all.take(i as int)),
            decreases records.len() - i,
        {
            let rec = &records[i];
            proof {
                assert(all.take(i + 1).drop_last() == all.take(i as int));
                assert(all.take(i + 1).last() == rec@);
            }
            if !rec.no_display && !rec.hidden {
                if let Some(exec) = &rec.exec_command {
                    let dup = has_app_id(&kept, &rec.id);
                    proof {
                        let pv = app_views(kept@);
                        if dup {
                            let k = choose|k: int| 0 <= k < kept@.len() && kept@[k].id@ == rec.id@;
                            assert(pv[k].id == rec.id@);
                            assert(has_id(pv, rec.id@));
                        } else {
                            assert forall|k: int| 0 <= k < pv.len() implies (#[trigger] pv[k]).id != rec.id@ by {
                                assert(pv[k] == kept@[k]@);
                            }
                        }
                    }
                    if !dup {
                        let name = match &rec.name {
                            Some(n) => n.clone(),
                            None => rec.id.clone(),
                        };
                        let entry = AppEntry {
                            id: rec.id.clone(),
                            name,
                            generic_name: copy_opt(&rec.generic_name),
                            comment: copy_opt(&rec.comment),
                            exec_command: exec.clone(),
                            icon: copy_opt(&rec.icon),
                            categories: copy_strs(&rec.categories),
                            keywords: copy_strs(&rec.keywords),
                            terminal: rec.terminal,
                        };
                        let ghost before = kept@;
                        kept.push(entry);
                        proof {
                            assert(app_views(kept@) =~= app_views(before).push(entry_of(rec@)));
                        }
                    }
                }
            }
            i += 1;
        }
        proof {
            assert(all.take(records@.len() as int) == all);
        }
        let mut sorted: Vec<AppEntry> = Vec::new();
        let mut keys: Vec<Vec<char>> = Vec::new();
        let ghost kv = app_views(kept@);
        let mut k: usize = 0;
        while k < kept.len()
            invariant
                k <= kept@.len(),
                kv == app_views(kept@),
                keys@.len() == sorted@.len(),
                forall|j: int| 0 <= j < sorted@.len() ==> (#[trigger] keys@[j])@ == str_lowercase(sorted@[j].name@),
                app_views(sorted@) == sort_apps(kv.take(k as int)),
            decreases kept.len() - k,
        {
            let a = kept[k].copied();
            proof {
                assert(kv.take(k + 1).drop_last() == kv.take(k as int));
                assert(kv.take(k + 1).last() == a@);
            }
            insert_app_exec(&mut sorted, &mut keys, a);
            k += 1;
        }
        proof {
            assert(kv.take(kept@.len() as int) == kv);
        }
        sorted
    }

    /// The score of `query` for an application.
    pub fn app_score(app: &AppEntry, query: &str) -> (r: i64)
        ensures
            r == spec_app_score(app@, query@),
    {
        let n = match fuzzy_score(app.name.as_str(), query) {
            Some(v) => v,
            None => 0,
        };
        let g = match &app.generic_name {
            Some(t) => match fuzzy_score(t.as_str(), query) {
                Some(v) => v,
                None => 0,
            },
            None => 0,
        };
        let c = match &app.comment {
            Some(t) => match fuzzy_score(t.as_str(), query) {
                Some(v) => v,
                None => 0,
            },
            None => 0,
        };
        let mut best: Option<i64> = None;
        let mut i: usize = 0;
        let ghost ks = strs_view(app.keywords@);
        while i < app.keywords.len()
            invariant
                i <= app.keywords@.len(),
                ks == strs_view(app.keywords@),
                best == best_keyword(ks.take(i as int), query@),
            decreases app.keywords.len() - i,
        {
            let s = fuzzy_score(app.keywords[i].as_str(), query);
            proof {
                assert(ks.take(i + 1).drop_last() == ks.take(i as int));
                assert(ks.take(i + 1).last() == app.keywords@[i as int]@);
            }
            match s {
                Some(v) => {
                    best = match best {
                        Some(p) => Some(if p >= v { p } else { v }),
                        None => Some(v),
                    };
                },
                None => {},
            }
            i += 1;
        }
        proof {
            assert(ks.take(app.keywords@.len() as int) == ks);
        }
        let k = match best {
            Some(v) => v,
            None => 0,
        };
        let m1 = if n >= g { n } else { g };
        let m2 = if m1 >= c { m1 } else { c };
        if m2 >= k { m2 } else { k }
    }

    /// The applications with a positive score, highest score first; equal
    /// scores keep the order of `apps`.
    pub fn rank_apps(apps: &Vec<AppEntry>, scores: &Vec<i64>) -> (r: Vec<AppEntry>)
        requires
            scores@.len() == apps@.len(),
        ensures
            app_views(r@) == ranked_apps(rank(scored(app_views(apps@), scores@))),
    {
        let ghost all = scored(app_views(apps@), scores@);
        let mut out: Vec<AppEntry> = Vec::new();
        let mut sc: Vec<i64> = Vec::new();
        let mut i: usize = 0;
        while i < apps.len()
            invariant
                i <= apps@.len(),
                scores@.len() == apps@.len(),
                all == scored(app_views(apps@), scores@),
                sc@.len() == out@.len(),
                ranked_apps(rank(all.take(i as int))) == app_views(out@),
                forall|j: int| 0 <= j < out@.len() ==> (#[trigger] sc@[j]) == rank(all.take(i as int))[j].0,
                rank(all.take(i as int)).len() == out@.len(),
            decreases apps.len() - i,
        {
            let s = scores[i];
            let ghost pre = rank(all.take(i as int));
            proof {
                assert(all.take(i + 1).drop_last() == all.take(i as int));
                assert(all.take(i + 1).last() == (s, apps@[i as int]@));
            }
            if s > 0 {
                let mut k: usize = out.len();
                while k > 0 && sc[k - 1] < s
                    invariant
                        k <= out@.len(),
                        sc@.len() == out@.len(),
                        pre.len() == out@.len(),
                        forall|j: int| 0 <= j < out@.len() ==> (#[trigger] sc@[j]) == pre[j].0,
                        forall|j: int| k <= j < pre.len() ==> (#[trigger] pre[j]).0 < s,
                    decreases k,
                {
                    k -= 1;
                }
                proof {
                    lemma_insert_scored_at(pre, (s, apps@[i as int]@), k as int);
                }
                let a = apps[i].copied();
                let ghost old_out = out@;
                let ghost old_sc = sc@;
                out.insert(k, a);
                sc.insert(k, s);
                proof {
                    let np = pre.take(k as int) + seq![(s, apps@[i as int]@)] + pre.skip(k as int);
                    assert(ranked_apps(np) =~= app_views(out@)) by {
                        assert forall|j: int| 0 <= j < np.len() implies ranked_apps(np)[j] == app_views(out@)[j] by {
                            if j < k {
                                assert(out@[j] == old_out[j]);
                                assert(np[j] == pre[j]);
                                assert(ranked_apps(pre)[j] == app_views(old_out)[j]);
                            } else if j > k {
                                assert(out@[j] == old_out[j - 1]);
                                assert(np[j] == pre[j - 1]);
                                assert(ranked_apps(pre)[j - 1] == app_views(old_out)[j - 1]);
                            } else {
                                assert(np[j] == (s, apps@[i as int]@));
                            }
                        }
                    }
                    assert forall|j: int| 0 <= j < out@.len() implies (#[trigger] sc@[j]) == np[j].0 by {
                        if j < k {
                            assert(sc@[j] == old_sc[j]);
                        } else if j > k {
                            assert(sc@[j] == old_sc[j - 1]);
                        }
                    }
                }
            }
            i += 1;
        }
        proof {
            assert(all.take(apps@.len() as int) == all);
        }
        out
    }

    /// The applications of `apps` that match `query`, best first; an empty
    /// query lists them all.
    pub fn search_applications(apps: &Vec<AppEntry>, query: &str) -> (r: Vec<AppEntry>)
        ensures
            query@.len() == 0 ==> app_views(r@) == app_views(apps@),
            query@.len() > 0 ==> app_views(r@) == ranked_apps(
                rank(scored(app_views(apps@), app_views(apps@).map_values(|a: AppEntryView| spec_app_score(a, query@)))),
            ),
    {
        if query.is_empty() {
            let mut r: Vec<AppEntry> = Vec::new();
            let mut i: usize = 0;
            while i < apps.len()
                invariant
                    i <= apps@.len(),
                    app_views(r@) == app_views(apps@.take(i as int)),
                decreases apps.len() - i,
            {
                let ghost before = r@;
                r.push(apps[i].copied());
                proof {
                    assert(apps@.take(i + 1) == apps@.take(i as int).push(apps@[i as int]));
                    assert(app_views(r@) =~= app_views(before).push(apps@[i as int]@));
                    assert(app_views(apps@.take(i + 1)) =~= app_views(apps@.take(i as int)).push(apps@[i as int]@));
                }
                i += 1;
            }
            proof {
                assert(apps@.take(apps@.len() as int) == apps@);
            }
            return r;
        }
        let mut scores: Vec<i64> = Vec::new();
        let mut i: usize = 0;
        while i < apps.len()
            invariant
                i <= apps@.len(),
                scores@.len() == i,
                forall|j: int| 0 <= j < i ==> (#[trigger] scores@[j]) == spec_app_score(apps@[j]@, query@),
            decreases apps.len() - i,
        {
            scores.push(Self::app_score(&apps[i], query));
            i += 1;
        }
        proof {
            assert(scores@ =~= app_views(apps@).map_values(|a: AppEntryView| spec_app_score(a, query@)));
        }
        Self::rank_apps(apps, &scores)
    }

    /// The program and arguments to run for an Exec line, or `Empty command`
    /// when nothing is left of it.
    pub fn launch_parts(exec: &str) -> (r: Result<Vec<String>, String>)
        ensures
            spec_launch_parts(exec@).len() == 0 <==> r is Err,
            r matches Err(m) ==> m@ == "Empty command"@,
            r matches Ok(parts) ==> parts@.map_values(|s: String| s@) == spec_launch_parts(exec@),
    {
        let v0 = chars_of(exec);
        let v1 = remove_code_exec(&v0, 'f');
        let v2 = remove_code_exec(&v1, 'F');
        let v3 = remove_code_exec(&v2, 'u');
        let v4 = remove_code_exec(&v3, 'U');
        let v5 = remove_code_exec(&v4, 'd');
        let v6 = remove_code_exec(&v5, 'D');
        let v7 = remove_code_exec(&v6, 'n');
        let v8 = remove_code_exec(&v7, 'N');
        let v9 = remove_code_exec(&v8, 'k');
        let v10 = remove_code_exec(&v9, 'v');
        let v11 = remove_code_exec(&v10, 'c');
        let t = trim_chars(v11.as_slice());
        let ws = crate::utils::split_words(&t);
        if ws.len() == 0 {
            return Err(String::from_str("Empty command"));
        }
        Ok(ws)
    }
}

/// Whether an application with ID `id` is in `v`.
fn has_app_id(v: &Vec<AppEntry>, id: &String) -> (r: bool)
    ensures
        r == exists|k: int| 0 <= k < v@.len() && (#[trigger] v@[k]).id@ == id@,
{
    let idv = chars_of(id.as_str());
    let mut j: usize = 0;
    while j < v.len()
        invariant
            j <= v@.len(),
            idv@ == id@,
            forall|k: int| 0 <= k < j ==> (#[trigger] v@[k]).id@ != id@,
        decreases v.len() - j,
    {
        if same_chars(&chars_of(v[j].id.as_str()), &idv) {
            return true;
        }
        j += 1;
    }
    false
}


/// Whether every entry of `s` has a positive score and the scores do not
/// grow along `s`.
pub open spec fn ranked(s: Seq<(i64, AppEntryView)>) -> bool {
    &&& forall|i: int| 0 <= i < s.len() ==> (#[trigger] s[i]).0 > 0
    &&& forall|i: int, j: int| 0 <= i < j < s.len() ==> s[i].0 >= s[j].0
}

proof fn lemma_insert_scored(s: Seq<(i64, AppEntryView)>, x: (i64, AppEntryView))
    requires
        ranked(s),
        x.0 > 0,
    ensures
        ranked(insert_scored(s, x)),
        insert_scored(s, x).to_multiset() =~= s.to_multiset().insert(x),
        forall|y: (i64, AppEntryView)| #[trigger] insert_scored(s, x).contains(y) ==> y == x || s.contains(y),
    decreases s.len(),
{
    broadcast use vstd::seq_lib::group_to_multiset_ensures;

    if s.len() == 0 {
        assert(insert_scored(s, x) == seq![x]);
        assert(seq![x] == Seq::<(i64, AppEntryView)>::empty().push(x));
    } else if s.last().0 >= x.0 {
        let r = s.push(x);
        assert forall|i: int, j: int| 0 <= i < j < r.len() implies r[i].0 >= r[j].0 by {
            if j == r.len() - 1 && i < s.len() - 1 {
                assert(s[i].0 >= s[s.len() - 1].0);
            }
        }
    } else {
        let t = s.drop_last();
        let l = s.last();
        lemma_insert_scored(t, x);
        let u = insert_scored(t, x);
        assert forall|i: int| 0 <= i < u.len() implies (#[trigger] u[i]).0 >= l.0 by {
            assert(u.contains(u[i]));
            if u[i] != x {
                let k = choose|k: int| 0 <= k < t.len() && t[k] == u[i];
                assert(s[k] == t[k]);
                assert(s[s.len() - 1] == l);
            }
        }
        let r = u.push(l);
        assert forall|i: int, j: int| 0 <= i < j < r.len() implies r[i].0 >= r[j].0 by {
            if j == r.len() - 1 {
                assert(r[i] == u[i]);
            } else {
                assert(r[i] == u[i] && r[j] == u[j]);
            }
        }
        assert forall|i: int| 0 <= i < r.len() implies (#[trigger] r[i]).0 > 0 by {
            if i == r.len() - 1 {
                assert(s[s.len() - 1] == l);
            } else {
                assert(r[i] == u[i]);
            }
        }
        assert forall|y: (i64, AppEntryView)| #[trigger] r.contains(y) implies y == x || s.contains(y) by {
            if y == l {
                assert(s[s.len() - 1] == l);
            } else {
                let k = choose|k: int| 0 <= k < r.len() && r[k] == y;
                assert(u[k] == y);
                assert(u.contains(y));
                if y != x {
                    let m = choose|m: int| 0 <= m < t.len() && t[m] == y;
                    assert(s[m] == y);
                }
            }
        }
        assert(s == t.push(l));
    }
}

/// A search ranking lists only applications with a positive score, best
/// first, and each scored application with a positive score exactly as
/// often as it was scored.
pub proof fn lemma_rank_ordered(s: Seq<(i64, AppEntryView)>)
    ensures
        ranked(rank(s)),
        rank(s).to_multiset() =~= s.filter(|x: (i64, AppEntryView)| x.0 > 0).to_multiset(),
    decreases s.len(),
{
    broadcast use vstd::seq_lib::group_to_multiset_ensures;

    let pos = |x: (i64, AppEntryView)| x.0 > 0;
    if s.len() > 0 {
        lemma_rank_ordered(s.drop_last());
        assert(s == s.drop_last().push(s.last()));
        s.drop_last().lemma_filter_push(s.last(), pos);
        if s.last().0 > 0 {
            lemma_insert_scored(rank(s.drop_last()), s.last());
        }
    } else {
        assert(s.filter(pos) =~= Seq::<(i64, AppEntryView)>::empty());
    }
}

/// Whether the entries are in order of their lower-cased names.
pub open spec fn apps_sorted_by_lowered_name(s: Seq<AppEntryView>) -> bool {
    forall|i: int, j: int| 0 <= i < j < s.len() ==> text_le(str_lowercase(s[i].name), str_lowercase(s[j].name))
}

proof fn lemma_insert_app(s: Seq<AppEntryView>, e: AppEntryView)
    requires
        apps_sorted_by_lowered_name(s),
    ensures
        apps_sorted_by_lowered_name(insert_app(s, e)),
        insert_app(s, e).to_multiset() =~= s.to_multiset().insert(e),
        forall|x: AppEntryView| #[trigger] insert_app(s, e).contains(x) ==> x == e || s.contains(x),
    decreases s.len(),
{
    broadcast use vstd::seq_lib::group_to_multiset_ensures;

    if s.len() == 0 {
        assert(insert_app(s, e) == seq![e]);
        assert(seq![e] == Seq::<AppEntryView>::empty().push(e));
    } else if !app_after(s.last(), e) {
        let r = s.push(e);
        assert forall|i: int, j: int| 0 <= i < j < r.len() implies text_le(
            str_lowercase(r[i].name),
            str_lowercase(r[j].name),
        ) by {
            if j == r.len() - 1 && i < s.len() - 1 {
                lemma_text_le_trans(
                    str_lowercase(s[i].name),
                    str_lowercase(s.last().name),
                    str_lowercase(e.name),
                );
            }
        }
    } else {
        let t = s.drop_last();
        let l = s.last();
        assert(apps_sorted_by_lowered_name(t));
        lemma_insert_app(t, e);
        let u = insert_app(t, e);
        lemma_text_le_total(str_lowercase(l.name), str_lowercase(e.name));
        assert forall|i: int| 0 <= i < u.len() implies text_le(str_lowercase(#[trigger] u[i].name), str_lowercase(l.name)) by {
            assert(u.contains(u[i]));
            if u[i] != e {
                let k = choose|k: int| 0 <= k < t.len() && t[k] == u[i];
                assert(s[k] == t[k]);
                assert(s[s.len() - 1] == l);
            }
        }
        let r = u.push(l);
        assert forall|i: int, j: int| 0 <= i < j < r.len() implies text_le(
            str_lowercase(r[i].name),
            str_lowercase(r[j].name),
        ) by {
            if j == r.len() - 1 {
                assert(r[i] == u[i]);
            } else {
                assert(r[i] == u[i] && r[j] == u[j]);
            }
        }
        assert forall|x: AppEntryView| #[trigger] r.contains(x) implies x == e || s.contains(x) by {
            if x == l {
                assert(s[s.len() - 1] == l);
            } else {
                let k = choose|k: int| 0 <= k < r.len() && r[k] == x;
                assert(u[k] == x);
                assert(u.contains(x));
                if x != e {
                    let m = choose|m: int| 0 <= m < t.len() && t[m] == x;
                    assert(s[m] == x);
                }
            }
        }
        assert(s == t.push(l));
    }
}

/// The finder lists its applications in order of their lower-cased names,
/// each application exactly as often as it was kept.
pub proof fn lemma_apps_sorted(s: Seq<AppEntryView>)
    ensures
        apps_sorted_by_lowered_name(sort_apps(s)),
        sort_apps(s).to_multiset() =~= s.to_multiset(),
    decreases s.len(),
{
    broadcast use vstd::seq_lib::group_to_multiset_ensures;

    if s.len() > 0 {
        lemma_apps_sorted(s.drop_last());
        lemma_insert_app(sort_apps(s.drop_last()), s.last());
        assert(s == s.drop_last().push(s.last()));
    }
}

} // verus!
