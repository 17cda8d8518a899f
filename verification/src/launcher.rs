//! The launcher windows (the app finder and the navigator): the kind of an
//! icon file, the entries they list, their fuzzy filter, and how each
//! window's state answers its messages.

use vstd::prelude::*;
use crate::text::{
    chars_of, trim_chars, trim, to_lowercase, str_lowercase, text_le, text_le_chars, lemma_text_le_total,
    lemma_text_le_trans,
};
use crate::utils::{extension_of, path_extension, same_text, words, split_words};
use crate::appfinder::{AppRecord, AppRecordView, skim_score, fuzzy_score, remove_code, remove_code_exec};

verus! {

/// How an icon file is drawn: as a vector image or as a bitmap.
#[derive(Debug)]
pub enum IconSource {
    Svg(String),
    Raster(String),
}

/// The content of an icon source.
pub enum IconSourceView {
    Svg(Seq<char>),
    Raster(Seq<char>),
}

impl View for IconSource {
    type V = IconSourceView;

    open spec fn view(&self) -> IconSourceView {
        match self {
            IconSource::Svg(p) => IconSourceView::Svg(p@),
            IconSource::Raster(p) => IconSourceView::Raster(p@),
        }
    }
}

pub open spec fn icon_view(o: Option<IconSource>) -> Option<IconSourceView> {
    match o {
        Some(i) => Some(i@),
        None => None,
    }
}

/// The lower-cased extension of `path`, the empty text when it has none.
pub open spec fn lowered_extension(path: Seq<char>) -> Seq<char> {
    str_lowercase(
        match path_extension(path) {
            Some(e) => e,
            None => Seq::empty(),
        },
    )
}

/// How the icon file at `path` is drawn: `svg` as a vector image; `png`,
/// `jpg`, `jpeg` and `xpm` as bitmaps; nothing for any other extension.
pub open spec fn icon_source_of(path: Seq<char>) -> Option<IconSourceView> {
    let e = lowered_extension(path);
    if e == "svg"@ {
        Some(IconSourceView::Svg(path))
    } else if e == "png"@ || e == "jpg"@ || e == "jpeg"@ || e == "xpm"@ {
        Some(IconSourceView::Raster(path))
    } else {
        None
    }
}

/// How the icon file at `path` is drawn, by its extension in any case.
pub fn path_to_icon_source(path: &str) -> (r: Option<IconSource>)
    ensures
        icon_view(r) == icon_source_of(path@),
{
    let ext = match extension_of(path) {
        Some(e) => e,
        None => String::new(),
    };
    let lower = to_lowercase(ext.as_str());
    let e = lower.as_str();
    if same_text(e, "svg") {
        Some(IconSource::Svg(String::from_str(path)))
    } else if same_text(e, "png") || same_text(e, "jpg") || same_text(e, "jpeg") || same_text(e, "xpm") {
        Some(IconSource::Raster(String::from_str(path)))
    } else {
        None
    }
}

impl IconSource {
    /// A copy of this icon source.
    pub fn copied(&self) -> (r: Self)
        ensures
            r@ == self@,
    {
        match self {
            IconSource::Svg(p) => IconSource::Svg(p.clone()),
            IconSource::Raster(p) => IconSource::Raster(p.clone()),
        }
    }
}

/// An application a launcher lists.
#[derive(Debug)]
pub struct LaunchEntry {
    pub name: String,
    /// The Exec line of the desktop file.
    pub exec_command: String,
    pub id: String,
    pub icon: Option<IconSource>,
}

/// The content of a launcher entry.
pub struct LaunchEntryView {
    pub name: Seq<char>,
    pub exec_command: Seq<char>,
    pub id: Seq<char>,
    pub icon: Option<IconSourceView>,
}

impl View for LaunchEntry {
    type V = LaunchEntryView;

    open spec fn view(&self) -> LaunchEntryView {
        LaunchEntryView {
            name: self.name@,
            exec_command: self.exec_command@,
            id: self.id@,
            icon: icon_view(self.icon),
        }
    }
}

pub open spec fn entry_views(v: Seq<LaunchEntry>) -> Seq<LaunchEntryView> {
    v.map_values(|e: LaunchEntry| e@)
}

impl LaunchEntry {
    /// A copy of this entry.
    pub fn copied(&self) -> (r: Self)
        ensures
            r@ == self@,
    {
        LaunchEntry {
            name: self.name.clone(),
            exec_command: self.exec_command.clone(),
            id: self.id.clone(),
            icon: match &self.icon {
                Some(i) => Some(i.copied()),
                None => None,
            },
        }
    }
}

/// Copies of the entries `v[from..from + n]`, as far as `v` reaches.
pub open spec fn window_of(v: Seq<LaunchEntryView>, from: int, n: int) -> Seq<LaunchEntryView> {
    v.skip(from).take(if v.len() - from < n { v.len() - from } else { n })
}

/// Copies of the entries `v[from..]`, at most `n` of them.
pub fn copy_window(v: &Vec<LaunchEntry>, from: usize, n: usize) -> (r: Vec<LaunchEntry>)
    ensures
        from <= v@.len() ==> entry_views(r@) == window_of(entry_views(v@), from as int, n as int),
        from > v@.len() ==> r@.len() == 0,
{
    let mut r: Vec<LaunchEntry> = Vec::new();
    if from >= v.len() {
        proof {
            if from == v@.len() {
                assert(window_of(entry_views(v@), from as int, n as int) =~= Seq::<LaunchEntryView>::empty());
            }
        }
        return r;
    }
    let end: usize = if v.len() - from < n { v.len() } else { from + n };
    let mut i: usize = from;
    while i < end
        invariant
            from <= i <= end <= v@.len(),
            end - from == (if v@.len() - from < n { v@.len() - from } else { n as int }),
            entry_views(r@) == entry_views(v@).subrange(from as int, i as int),
        decreases end - i,
    {
        let ghost before = r@;
        r.push(v[i].copied());
        proof {
            assert(entry_views(r@) =~= entry_views(before).push(v@[i as int]@));
            assert(entry_views(v@).subrange(from as int, i + 1) =~= entry_views(v@).subrange(
                from as int,
                i as int,
            ).push(v@[i as int]@));
        }
        i += 1;
    }
    proof {
        assert(window_of(entry_views(v@), from as int, n as int) =~= entry_views(v@).subrange(
            from as int,
            end as int,
        ));
    }
    r
}

/// Copies of all the entries of `v`.
pub fn copy_entries(v: &Vec<LaunchEntry>) -> (r: Vec<LaunchEntry>)
    ensures
        entry_views(r@) == entry_views(v@),
{
    let mut r: Vec<LaunchEntry> = Vec::new();
    let mut i: usize = 0;
    while i < v.len()
        invariant
            i <= v@.len(),
            entry_views(r@) == entry_views(v@.take(i as int)),
        decreases v.len() - i,
    {
        let ghost before = r@;
        r.push(v[i].copied());
        proof {
            assert(v@.take(i + 1) == v@.take(i as int).push(v@[i as int]));
            assert(entry_views(r@) =~= entry_views(before).push(v@[i as int]@));
            assert(entry_views(v@.take(i + 1)) =~= entry_views(v@.take(i as int)).push(v@[i as int]@));
        }
        i += 1;
    }
    proof {
        assert(v@.take(v@.len() as int) == v@);
    }
    r
}

/// The entry a launcher lists for a desktop file's record, with the icon
/// found for it: none for a record that is hidden, not to be displayed, or
/// without an Exec line; the name falls back to the ID.
pub open spec fn spec_launch_entry(r: AppRecordView, icon: Option<IconSourceView>) -> Option<LaunchEntryView> {
    if r.no_display || r.hidden || r.exec_command.is_none() {
        None
    } else {
        Some(
            LaunchEntryView {
                name: match r.name {
                    Some(n) => n,
                    None => r.id,
                },
                exec_command: r.exec_command.unwrap(),
                id: r.id,
                icon,
            },
        )
    }
}

/// The entry a launcher lists for a desktop file's record and its icon.
pub fn launch_entry(rec: &AppRecord, icon: Option<IconSource>) -> (r: Option<LaunchEntry>)
    ensures
        match r {
            Some(e) => spec_launch_entry(rec@, icon_view(icon)) == Some(e@),
            None => spec_launch_entry(rec@, icon_view(icon)).is_none(),
        },
{
    if rec.no_display || rec.hidden {
        return None;
    }
    match &rec.exec_command {
        Some(exec) => {
            let name = match &rec.name {
                Some(n) => n.clone(),
                None => rec.id.clone(),
            };
            Some(LaunchEntry { name, exec_command: exec.clone(), id: rec.id.clone(), icon })
        },
        None => None,
    }
}

/// Whether entry `a` sorts after `b`: by lower-cased name.
pub open spec fn entry_after(a: LaunchEntryView, b: LaunchEntryView) -> bool {
    !text_le(str_lowercase(a.name), str_lowercase(b.name))
}

pub open spec fn insert_entry(s: Seq<LaunchEntryView>, a: LaunchEntryView) -> Seq<LaunchEntryView>
    decreases s.len(),
{
    if s.len() == 0 {
        seq![a]
    } else if !entry_after(s.last(), a) {
        s.push(a)
    } else {
        insert_entry(s.drop_last(), a).push(s.last())
    }
}

/// `s` sorted by lower-cased name, equal names keeping their order.
pub open spec fn sort_entries(s: Seq<LaunchEntryView>) -> Seq<LaunchEntryView>
    decreases s.len(),
{
    if s.len() == 0 {
        s
    } else {
        insert_entry(sort_entries(s.drop_last()), s.last())
    }
}

proof fn lemma_insert_entry_at(s: Seq<LaunchEntryView>, a: LaunchEntryView, k: int)
    requires
        0 <= k <= s.len(),
        forall|j: int| k <= j < s.len() ==> entry_after(#[trigger] s[j], a),
        k == 0 || !entry_after(s[k - 1], a),
    ensures
        insert_entry(s, a) == s.take(k) + seq![a] + s.skip(k),
    decreases s.len(),
{
    if s.len() == 0 {
        assert(s.take(k) + seq![a] + s.skip(k) =~= seq![a]);
    } else if k == s.len() {
        assert(s.last() == s[k - 1]);
        assert(s.take(k) + seq![a] + s.skip(k) =~= s.push(a));
    } else {
        let t = s.drop_last();
        assert(entry_after(s.last(), a)) by {
            assert(s.last() == s[s.len() - 1]);
        }
        assert forall|j: int| k <= j < t.len() implies entry_after(#[trigger] t[j], a) by {
            assert(t[j] == s[j]);
        }
        if k > 0 {
            assert(t[k - 1] == s[k - 1]);
        }
        lemma_insert_entry_at(t, a, k);
        assert(t.take(k) + seq![a] + t.skip(k) + seq![s.last()] =~= s.take(k) + seq![a] + s.skip(k));
    }
}

/// Inserts `a` into `v`, kept with the lower-cased names `keys`.
fn insert_entry_exec(v: &mut Vec<LaunchEntry>, keys: &mut Vec<Vec<char>>, a: LaunchEntry)
    requires
        old(keys)@.len() == old(v)@.len(),
        forall|j: int| 0 <= j < old(v)@.len() ==> (#[trigger] old(keys)@[j])@ == str_lowercase(old(v)@[j].name@),
    ensures
        final(keys)@.len() == final(v)@.len(),
        forall|j: int| 0 <= j < final(v)@.len() ==> (#[trigger] final(keys)@[j])@ == str_lowercase(final(v)@[j].name@),
        entry_views(final(v)@) == insert_entry(entry_views(old(v)@), a@),
{
    let key = chars_of(to_lowercase(a.name.as_str()).as_str());
    let mut k: usize = v.len();
    while k > 0 && !text_le_chars(&keys[k - 1], &key)
        invariant
            k <= v@.len(),
            keys@.len() == v@.len(),
            key@ == str_lowercase(a.name@),
            forall|j: int| 0 <= j < v@.len() ==> (#[trigger] keys@[j])@ == str_lowercase(v@[j].name@),
            forall|j: int| k <= j < v@.len() ==> entry_after((#[trigger] v@[j])@, a@),
        decreases k,
    {
        proof {
            assert(keys@[k - 1]@ == str_lowercase(v@[k - 1].name@));
        }
        k -= 1;
    }
    let ghost sv = entry_views(v@);
    proof {
        assert forall|j: int| k <= j < sv.len() implies entry_after(#[trigger] sv[j], a@) by {
            assert(sv[j] == v@[j]@);
        }
        if k > 0 {
            assert(sv[k - 1] == v@[k - 1]@);
            assert(keys@[k - 1]@ == str_lowercase(v@[k - 1].name@));
        }
        lemma_insert_entry_at(sv, a@, k as int);
    }
    let ghost av = a@;
    let ghost old_keys = keys@;
    let ghost old_v = v@;
    v.insert(k, a);
    keys.insert(k, key);
    proof {
        assert(entry_views(v@) =~= sv.take(k as int) + seq![av] + sv.skip(k as int));
        assert forall|j: int| 0 <= j < v@.len() implies (#[trigger] keys@[j])@ == str_lowercase(v@[j].name@) by {
            if j < k {
                assert(keys@[j] == old_keys[j]);
                assert(v@[j] == old_v[j]);
            } else if j > k {
                assert(keys@[j] == old_keys[j - 1]);
                assert(v@[j] == old_v[j - 1]);
            }
        }
    }
}

/// The entries sorted by lower-cased name; entries with equal names keep
/// their order.
pub fn sort_by_name(entries: Vec<LaunchEntry>) -> (r: Vec<LaunchEntry>)
    ensures
        entry_views(r@) == sort_entries(entry_views(entries@)),
{
    let ghost ev = entry_views(entries@);
    let mut sorted: Vec<LaunchEntry> = Vec::new();
    let mut keys: Vec<Vec<char>> = Vec::new();
    let rest = entries;
    let mut k: usize = 0;
    let n = rest.len();
    while k < n
        invariant
            n == ev.len(),
            k <= n,
            rest@.len() == n,
            forall|j: int| k <= j < n ==> (#[trigger] rest@[j])@ == ev[j],
            keys@.len() == sorted@.len(),
            forall|j: int| 0 <= j < sorted@.len() ==> (#[trigger] keys@[j])@ == str_lowercase(sorted@[j].name@),
            entry_views(sorted@) == sort_entries(ev.take(k as int)),
        decreases n - k,
    {
        let a = rest[k].copied();
        proof {
            assert(ev.take(k + 1).drop_last() == ev.take(k as int));
            assert(ev.take(k + 1).last() == a@);
        }
        insert_entry_exec(&mut sorted, &mut keys, a);
        k += 1;
    }
    proof {
        assert(ev.take(n as int) == ev);
    }
    sorted
}

/// Whether the entries are in order of their lower-cased names.
pub open spec fn sorted_by_lowered_name(s: Seq<LaunchEntryView>) -> bool {
    forall|i: int, j: int| 0 <= i < j < s.len() ==> text_le(str_lowercase(s[i].name), str_lowercase(s[j].name))
}

proof fn lemma_insert_entry(s: Seq<LaunchEntryView>, e: LaunchEntryView)
    requires
        sorted_by_lowered_name(s),
    ensures
        sorted_by_lowered_name(insert_entry(s, e)),
        insert_entry(s, e).to_multiset() =~= s.to_multiset().insert(e),
        forall|x: LaunchEntryView| #[trigger] insert_entry(s, e).contains(x) ==> x == e || s.contains(x),
    decreases s.len(),
{
    broadcast use vstd::seq_lib::group_to_multiset_ensures;

    if s.len() == 0 {
        assert(insert_entry(s, e) == seq![e]);
        assert(seq![e] == Seq::<LaunchEntryView>::empty().push(e));
    } else if !entry_after(s.last(), e) {
        let r = s.push(e);
        assert forall|i: int, j: int| 0 <= i < j < r.len() implies text_le(
            str_lowercase(r[i].name),
            str_lowercase(r[j].name),
        ) by {
            if j == r.len() - 1 && i < s.len() - 1 {
                lemma_text_le_trans(
                    str_lowercase(s[i].name),
                    str_lowercase(s.last().name),
                    str_lowercase(e.name),
                );
            }
        }
    } else {
        let t = s.drop_last();
        let l = s.last();
        assert(sorted_by_lowered_name(t));
        lemma_insert_entry(t, e);
        let u = insert_entry(t, e);
        lemma_text_le_total(str_lowercase(l.name), str_lowercase(e.name));
        assert forall|i: int| 0 <= i < u.len() implies text_le(str_lowercase(#[trigger] u[i].name), str_lowercase(l.name)) by {
            assert(u.contains(u[i]));
            if u[i] != e {
                let k = choose|k: int| 0 <= k < t.len() && t[k] == u[i];
                assert(s[k] == t[k]);
                assert(s[s.len() - 1] == l);
            }
        }
        let r = u.push(l);
        assert forall|i: int, j: int| 0 <= i < j < r.len() implies text_le(
            str_lowercase(r[i].name),
            str_lowercase(r[j].name),
        ) by {
            if j == r.len() - 1 {
                assert(r[i] == u[i]);
            } else {
                assert(r[i] == u[i] && r[j] == u[j]);
            }
        }
        assert forall|x: LaunchEntryView| #[trigger] r.contains(x) implies x == e || s.contains(x) by {
            if x == l {
                assert(s[s.len() - 1] == l);
            } else {
                let k = choose|k: int| 0 <= k < r.len() && r[k] == x;
                assert(u[k] == x);
                assert(u.contains(x));
                if x != e {
                    let m = choose|m: int| 0 <= m < t.len() && t[m] == x;
                    assert(s[m] == x);
                }
            }
        }
        assert(s == t.push(l));
    }
}

/// A launcher lists its applications in order of their lower-cased names,
/// each application exactly as often as it was found.
pub proof fn lemma_entries_sorted(s: Seq<LaunchEntryView>)
    ensures
        sorted_by_lowered_name(sort_entries(s)),
        sort_entries(s).to_multiset() =~= s.to_multiset(),
    decreases s.len(),
{
    broadcast use vstd::seq_lib::group_to_multiset_ensures;

    if s.len() > 0 {
        lemma_entries_sorted(s.drop_last());
        lemma_insert_entry(sort_entries(s.drop_last()), s.last());
        assert(s == s.drop_last().push(s.last()));
    }
}

/// `s` with `x` inserted after the entries whose score is not lower.
pub open spec fn insert_match(s: Seq<(i64, LaunchEntryView)>, x: (i64, LaunchEntryView)) -> Seq<(i64, LaunchEntryView)>
    decreases s.len(),
{
    if s.len() == 0 {
        seq![x]
    } else if s.last().0 >= x.0 {
        s.push(x)
    } else {
        insert_match(s.drop_last(), x).push(s.last())
    }
}

/// The entries that matched, with their scores, highest first; equal
/// scores keep their order.
pub open spec fn rank_matches(s: Seq<(Option<i64>, LaunchEntryView)>) -> Seq<(i64, LaunchEntryView)>
    decreases s.len(),
{
    if s.len() == 0 {
        Seq::empty()
    } else {
        match s.last().0 {
            Some(v) => insert_match(rank_matches(s.drop_last()), (v, s.last().1)),
            None => rank_matches(s.drop_last()),
        }
    }
}

proof fn lemma_insert_match_at(s: Seq<(i64, LaunchEntryView)>, x: (i64, LaunchEntryView), k: int)
    requires
        0 <= k <= s.len(),
        forall|j: int| k <= j < s.len() ==> (#[trigger] s[j]).0 < x.0,
        k == 0 || s[k - 1].0 >= x.0,
    ensures
        insert_match(s, x) == s.take(k) + seq![x] + s.skip(k),
    decreases s.len(),
{
    if s.len() == 0 {
        assert(s.take(k) + seq![x] + s.skip(k) =~= seq![x]);
    } else if k == s.len() {
        assert(s.last() == s[k - 1]);
        assert(s.take(k) + seq![x] + s.skip(k) =~= s.push(x));
    } else {
        let t = s.drop_last();
        assert(s.last().0 < x.0) by {
            assert(s.last() == s[s.len() - 1]);
        }
        assert forall|j: int| k <= j < t.len() implies (#[trigger] t[j]).0 < x.0 by {
            assert(t[j] == s[j]);
        }
        if k > 0 {
            assert(t[k - 1] == s[k - 1]);
        }
        lemma_insert_match_at(t, x, k);
        assert(t.take(k) + seq![x] + t.skip(k) + seq![s.last()] =~= s.take(k) + seq![x] + s.skip(k));
    }
}

/// Whether the scores of `s` never rise.
pub open spec fn descending(s: Seq<(i64, LaunchEntryView)>) -> bool {
    forall|i: int, j: int| 0 <= i < j < s.len() ==> s[i].0 >= s[j].0
}

proof fn lemma_insert_match(s: Seq<(i64, LaunchEntryView)>, x: (i64, LaunchEntryView))
    requires
        descending(s),
    ensures
        descending(insert_match(s, x)),
        insert_match(s, x).to_multiset() =~= s.to_multiset().insert(x),
        forall|y: (i64, LaunchEntryView)| #[trigger] insert_match(s, x).contains(y) ==> y == x || s.contains(y),
    decreases s.len(),
{
    broadcast use vstd::seq_lib::group_to_multiset_ensures;

    if s.len() == 0 {
        assert(insert_match(s, x) == seq![x]);
        assert(seq![x] == Seq::<(i64, LaunchEntryView)>::empty().push(x));
    } else if s.last().0 >= x.0 {
        let r = s.push(x);
        assert forall|i: int, j: int| 0 <= i < j < r.len() implies r[i].0 >= r[j].0 by {
            if j == r.len() - 1 && i < s.len() - 1 {
                assert(s[i].0 >= s[s.len() - 1].0);
            }
        }
    } else {
        let t = s.drop_last();
        let l = s.last();
        lemma_insert_match(t, x);
        let u = insert_match(t, x);
        assert forall|i: int| 0 <= i < u.len() implies (#[trigger] u[i]).0 >= l.0 by {
            assert(u.contains(u[i]));
            if u[i] != x {
                let k = choose|k: int| 0 <= k < t.len() && t[k] == u[i];
                assert(s[k] == t[k]);
                assert(s[s.len() - 1] == l);
            }
        }
        let r = u.push(l);
        assert forall|i: int, j: int| 0 <= i < j < r.len() implies r[i].0 >= r[j].0 by {
            if j == r.len() - 1 {
                assert(r[i] == u[i]);
            } else {
                assert(r[i] == u[i] && r[j] == u[j]);
            }
        }
        assert forall|y: (i64, LaunchEntryView)| #[trigger] r.contains(y) implies y == x || s.contains(y) by {
            if y == l {
                assert(s[s.len() - 1] == l);
            } else {
                let k = choose|k: int| 0 <= k < r.len() && r[k] == y;
                assert(u[k] == y);
                assert(u.contains(y));
                if y != x {
                    let m = choose|m: int| 0 <= m < t.len() && t[m] == y;
                    assert(s[m] == y);
                }
            }
        }
        assert(s == t.push(l));
    }
}

/// The scored entries that matched, with their scores.
pub open spec fn matches_of(s: Seq<(Option<i64>, LaunchEntryView)>) -> Seq<(i64, LaunchEntryView)> {
    s.filter(|x: (Option<i64>, LaunchEntryView)| x.0 is Some).map_values(
        |x: (Option<i64>, LaunchEntryView)| (x.0.unwrap(), x.1),
    )
}

/// A launcher's filter lists the entries that matched, best first, each
/// as often as it matched: the ranking never rises in score and holds
/// exactly the matches.
pub proof fn lemma_matches_ordered(s: Seq<(Option<i64>, LaunchEntryView)>)
    ensures
        descending(rank_matches(s)),
        rank_matches(s).to_multiset() =~= matches_of(s).to_multiset(),
    decreases s.len(),
{
    broadcast use vstd::seq_lib::group_to_multiset_ensures;

    let some = |x: (Option<i64>, LaunchEntryView)| x.0 is Some;
    let f = |x: (Option<i64>, LaunchEntryView)| (x.0.unwrap(), x.1);
    if s.len() > 0 {
        let t = s.drop_last();
        let l = s.last();
        lemma_matches_ordered(t);
        assert(s == t.push(l));
        t.lemma_filter_push(l, some);
        if l.0 is Some {
            lemma_insert_match(rank_matches(t), (l.0.unwrap(), l.1));
            assert(matches_of(s) =~= matches_of(t).push(f(l)));
        } else {
            assert(matches_of(s) =~= matches_of(t));
        }
    } else {
        assert(matches_of(s) =~= Seq::<(i64, LaunchEntryView)>::empty());
    }
}

/// The entries of `apps` with the score of `query` in their names.
pub open spec fn name_scores(apps: Seq<LaunchEntryView>, query: Seq<char>) -> Seq<(Option<i64>, LaunchEntryView)> {
    Seq::new(apps.len(), |i: int| (skim_score(apps[i].name, query), apps[i]))
}

pub open spec fn matched_entries(s: Seq<(i64, LaunchEntryView)>) -> Seq<LaunchEntryView> {
    s.map_values(|x: (i64, LaunchEntryView)| x.1)
}

/// What a launcher lists for `query`: every entry for an empty query,
/// otherwise the entries whose names match it, best match first.
pub open spec fn spec_filter(apps: Seq<LaunchEntryView>, query: Seq<char>) -> Seq<LaunchEntryView> {
    if query.len() == 0 {
        apps
    } else {
        matched_entries(rank_matches(name_scores(apps, query)))
    }
}

/// The entries of `apps` whose names match `query`, best match first.
pub fn filter_entries(apps: &Vec<LaunchEntry>, query: &str) -> (r: Vec<LaunchEntry>)
    ensures
        entry_views(r@) == spec_filter(entry_views(apps@), query@),
{
    if query.is_empty() {
        return copy_entries(apps);
    }
    let ghost all = name_scores(entry_views(apps@), query@);
    let mut out: Vec<LaunchEntry> = Vec::new();
    let mut sc: Vec<i64> = Vec::new();
    let mut i: usize = 0;
    while i < apps.len()
        invariant
            i <= apps@.len(),
            all == name_scores(entry_views(apps@), query@),
            sc@.len() == out@.len(),
            matched_entries(rank_matches(all.take(i as int))) == entry_views(out@),
            forall|j: int| 0 <= j < out@.len() ==> (#[trigger] sc@[j]) == rank_matches(all.take(i as int))[j].0,
            rank_matches(all.take(i as int)).len() == out@.len(),
        decreases apps.len() - i,
    {
        let score = fuzzy_score(apps[i].name.as_str(), query);
        let ghost pre = rank_matches(all.take(i as int));
        proof {
            assert(all.take(i + 1).drop_last() == all.take(i as int));
            assert(all.take(i + 1).last() == (score, apps@[i as int]@));
        }
        if let Some(s) = score {
            let mut k: usize = out.len();
            while k > 0 && sc[k - 1] < s
                invariant
                    k <= out@.len(),
                    sc@.len() == out@.len(),
                    pre.len() == out@.len(),
                    forall|j: int| 0 <= j < out@.len() ==> (#[trigger] sc@[j]) == pre[j].0,
                    forall|j: int| k <= j < pre.len() ==> (#[trigger] pre[j]).0 < s,
                decreases k,
            {
                k -= 1;
            }
            proof {
                lemma_insert_match_at(pre, (s, apps@[i as int]@), k as int);
            }
            let a = apps[i].copied();
            let ghost old_out = out@;
            let ghost old_sc = sc@;
            out.insert(k, a);
            sc.insert(k, s);
            proof {
                let np = pre.take(k as int) + seq![(s, apps@[i as int]@)] + pre.skip(k as int);
                assert(matched_entries(np) =~= entry_views(out@)) by {
                    assert forall|j: int| 0 <= j < np.len() implies matched_entries(np)[j] == entry_views(out@)[j] by {
                        if j < k {
                            assert(out@[j] == old_out[j]);
                            assert(np[j] == pre[j]);
                            assert(matched_entries(pre)[j] == entry_views(old_out)[j]);
                        } else if j > k {
                            assert(out@[j] == old_out[j - 1]);
                            assert(np[j] == pre[j - 1]);
                            assert(matched_entries(pre)[j - 1] == entry_views(old_out)[j - 1]);
                        } else {
                            assert(np[j] == (s, apps@[i as int]@));
                        }
                    }
                }
                assert forall|j: int| 0 <= j < out@.len() implies (#[trigger] sc@[j]) == np[j].0 by {
                    if j < k {
                        assert(sc@[j] == old_sc[j]);
                    } else if j > k {
                        assert(sc@[j] == old_sc[j - 1]);
                    }
                }
            }
        }
        i += 1;
    }
    proof {
        assert(all.take(apps@.len() as int) == all);
    }
    out
}

/// The Exec line without the `%f`, `%F`, `%u` and `%U` placeholders,
/// removed one after another, and trimmed.
pub open spec fn spec_clean_exec(exec: Seq<char>) -> Seq<char> {
    trim(remove_code(remove_code(remove_code(remove_code(exec, 'f'), 'F'), 'u'), 'U'))
}

/// The command line a launcher runs for an Exec line.
pub fn clean_exec(exec: &str) -> (r: Vec<char>)
    ensures
        r@ == spec_clean_exec(exec@),
{
    let v0 = chars_of(exec);
    let v1 = remove_code_exec(&v0, 'f');
    let v2 = remove_code_exec(&v1, 'F');
    let v3 = remove_code_exec(&v2, 'u');
    let v4 = remove_code_exec(&v3, 'U');
    trim_chars(v4.as_slice())
}

/// What a launcher window asks of its toolkit and of the system after a
/// message.
#[derive(Debug)]
pub enum LauncherAction {
    Nothing,
    /// Start moving the window with the pointer.
    Drag,
    Minimize,
    /// Maximize the window, or restore it.
    Maximize(bool),
    Close,
    /// Run the program with these arguments (nothing when the list is
    /// empty), then leave the process.
    SpawnThenExit(Vec<String>),
    /// Run the command line through `sh -c`, then minimize the window.
    ShellThenMinimize(String),
    /// Clear the notification after a few seconds.
    ClearNotificationLater,
}

pub open spec fn texts(v: Seq<String>) -> Seq<Seq<char>> {
    v.map_values(|s: String| s@)
}

/// The messages of the app finder window.
pub enum FinderMessage {
    QueryChanged(String),
    LaunchApp(String),
    WindowDragged,
    Minimize,
    Maximize,
    Close,
}

/// The app finder window: every application, those the query lists, and
/// whether the window is maximized.
pub struct AppFinder {
    pub query: String,
    pub apps: Vec<LaunchEntry>,
    pub filtered_apps: Vec<LaunchEntry>,
    pub maximized: bool,
}

/// The content of the app finder's state.
pub struct AppFinderView {
    pub query: Seq<char>,
    pub apps: Seq<LaunchEntryView>,
    pub filtered_apps: Seq<LaunchEntryView>,
    pub maximized: bool,
}

impl View for AppFinder {
    type V = AppFinderView;

    open spec fn view(&self) -> AppFinderView {
        AppFinderView {
            query: self.query@,
            apps: entry_views(self.apps@),
            filtered_apps: entry_views(self.filtered_apps@),
            maximized: self.maximized,
        }
    }
}

impl AppFinder {
    /// The window for the applications found, sorted by name, all of them
    /// listed, with an empty query.
    pub fn new(found: Vec<LaunchEntry>) -> (r: Self)
        ensures
            r@.apps == sort_entries(entry_views(found@)),
            r@.filtered_apps == r@.apps,
            r@.query.len() == 0,
            !r@.maximized,
    {
        let apps = sort_by_name(found);
        let filtered_apps = copy_entries(&apps);
        AppFinder { query: String::new(), apps, filtered_apps, maximized: false }
    }

    /// The window title.
    pub fn title(&self) -> (r: String)
        ensures
            r@ == "App Finder"@,
    {
        String::from_str("App Finder")
    }

    /// Answers a message: a new query filters the list again, a launch runs
    /// the cleaned Exec line's program and leaves, maximizing toggles, and
    /// the other window messages go to the toolkit.
    pub fn update(&mut self, msg: FinderMessage) -> (act: LauncherAction)
        ensures
            match msg {
                FinderMessage::QueryChanged(q) => {
                    &&& final(self)@ == (AppFinderView {
                        query: q@,
                        filtered_apps: spec_filter(old(self)@.apps, q@),
                        ..old(self)@
                    })
                    &&& act is Nothing
                },
                FinderMessage::LaunchApp(e) => {
                    &&& final(self)@ == old(self)@
                    &&& act matches LauncherAction::SpawnThenExit(parts) && texts(parts@) == words(spec_clean_exec(e@))
                },
                FinderMessage::WindowDragged => final(self)@ == old(self)@ && act is Drag,
                FinderMessage::Minimize => final(self)@ == old(self)@ && act is Minimize,
                FinderMessage::Maximize => {
                    &&& final(self)@ == (AppFinderView { maximized: !old(self)@.maximized, ..old(self)@ })
                    &&& act == LauncherAction::Maximize(!old(self)@.maximized)
                },
                FinderMessage::Close => final(self)@ == old(self)@ && act is Close,
            },
    {
        match msg {
            FinderMessage::QueryChanged(q) => {
                let filtered = filter_entries(&self.apps, q.as_str());
                self.query = q;
                self.filtered_apps = filtered;
                LauncherAction::Nothing
            },
            FinderMessage::LaunchApp(e) => {
                let cleaned = clean_exec(e.as_str());
                LauncherAction::SpawnThenExit(split_words(&cleaned))
            },
            FinderMessage::WindowDragged => LauncherAction::Drag,
            FinderMessage::Minimize => LauncherAction::Minimize,
            FinderMessage::Maximize => {
                self.maximized = !self.maximized;
                LauncherAction::Maximize(self.maximized)
            },
            FinderMessage::Close => LauncherAction::Close,
        }
    }
}

/// The messages of the navigator window that its state answers (the
/// pointer position it only records stays with the window).
pub enum NavigatorMessage {
    QueryChanged(String),
    LaunchApp(String),
    WindowDragged,
    Minimize,
    Maximize,
    Close,
    AddFavorite(LaunchEntry),
    CloseContextMenu,
    UninstallApp(LaunchEntry),
    ClearNotification,
    ShowMoreSuggestions,
    RightClickApp(LaunchEntry),
}

/// The navigator window: every application, those the query lists, the
/// favorites and suggestions bars, the application a context menu is open
/// for, and a notification.
pub struct Navigator {
    pub query: String,
    pub apps: Vec<LaunchEntry>,
    pub filtered_apps: Vec<LaunchEntry>,
    pub favorites: Vec<LaunchEntry>,
    pub suggestions: Vec<LaunchEntry>,
    pub maximized: bool,
    pub context_menu: Option<LaunchEntry>,
    pub notification: Option<String>,
}

pub open spec fn launch_view(o: Option<LaunchEntry>) -> Option<LaunchEntryView> {
    match o {
        Some(e) => Some(e@),
        None => None,
    }
}

pub open spec fn text_view(o: Option<String>) -> Option<Seq<char>> {
    match o {
        Some(s) => Some(s@),
        None => None,
    }
}

/// The content of the navigator's state.
pub struct NavigatorView {
    pub query: Seq<char>,
    pub apps: Seq<LaunchEntryView>,
    pub filtered_apps: Seq<LaunchEntryView>,
    pub favorites: Seq<LaunchEntryView>,
    pub suggestions: Seq<LaunchEntryView>,
    pub maximized: bool,
    pub context_menu: Option<LaunchEntryView>,
    pub notification: Option<Seq<char>>,
}

impl View for Navigator {
    type V = NavigatorView;

    open spec fn view(&self) -> NavigatorView {
        NavigatorView {
            query: self.query@,
            apps: entry_views(self.apps@),
            filtered_apps: entry_views(self.filtered_apps@),
            favorites: entry_views(self.favorites@),
            suggestions: entry_views(self.suggestions@),
            maximized: self.maximized,
            context_menu: launch_view(self.context_menu),
            notification: text_view(self.notification),
        }
    }
}

/// Whether an entry with ID `id` is in `es`.
pub open spec fn has_entry_id(es: Seq<LaunchEntryView>, id: Seq<char>) -> bool {
    exists|k: int| 0 <= k < es.len() && (#[trigger] es[k]).id == id
}

fn contains_id(v: &Vec<LaunchEntry>, id: &str) -> (r: bool)
    ensures
        r == has_entry_id(entry_views(v@), id@),
{
    let mut i: usize = 0;
    while i < v.len()
        invariant
            i <= v@.len(),
            forall|k: int| 0 <= k < i ==> (#[trigger] v@[k]).id@ != id@,
        decreases v.len() - i,
    {
        if same_text(v[i].id.as_str(), id) {
            proof {
                assert(entry_views(v@)[i as int].id == id@);
            }
            return true;
        }
        i += 1;
    }
    proof {
        assert forall|k: int| 0 <= k < entry_views(v@).len() implies (#[trigger] entry_views(v@)[k]).id != id@ by {
            assert(entry_views(v@)[k] == v@[k]@);
        }
    }
    false
}

/// The favorites after asking to add `app`: unchanged when an entry with
/// its ID is there already.
pub open spec fn with_favorite(favs: Seq<LaunchEntryView>, app: LaunchEntryView) -> Seq<LaunchEntryView> {
    if has_entry_id(favs, app.id) {
        favs
    } else {
        favs.push(app)
    }
}

impl Navigator {
    /// The window for the applications found, sorted by name, all of them
    /// listed; the first five are the favorites, and six from the eleventh
    /// on are suggested.
    pub fn new(found: Vec<LaunchEntry>) -> (r: Self)
        ensures
            r@.apps == sort_entries(entry_views(found@)),
            r@.filtered_apps == r@.apps,
            r@.favorites == window_of(r@.apps, 0, 5),
            r@.suggestions == (if r@.apps.len() < 10 { Seq::empty() } else { window_of(r@.apps, 10, 6) }),
            r@.query.len() == 0,
            !r@.maximized,
            r@.context_menu.is_none(),
            r@.notification.is_none(),
    {
        let apps = sort_by_name(found);
        let filtered_apps = copy_entries(&apps);
        let favorites = copy_window(&apps, 0, 5);
        let suggestions = copy_window(&apps, 10, 6);
        proof {
            if entry_views(apps@).len() < 10 {
                assert(suggestions@.len() == 0);
                assert(entry_views(suggestions@) =~= Seq::<LaunchEntryView>::empty());
            }
        }
        Navigator {
            query: String::new(),
            apps,
            filtered_apps,
            favorites,
            suggestions,
            maximized: false,
            context_menu: None,
            notification: None,
        }
    }

    /// The window title.
    pub fn title(&self) -> (r: String)
        ensures
            r@ == "Navigator"@,
    {
        String::from_str("Navigator")
    }

    /// Answers a message: a new query filters the list again; a launch
    /// runs the cleaned Exec line through the shell and minimizes; a
    /// favorite is added once per ID; an uninstall request only tells of
    /// itself for a while; more suggestions are the fiftieth entries from
    /// the twenty-first on; the context menu opens on a right click and
    /// closes on the other requests about it.
    pub fn update(&mut self, msg: NavigatorMessage) -> (act: LauncherAction)
        ensures
            match msg {
                NavigatorMessage::QueryChanged(q) => {
                    &&& final(self)@ == (NavigatorView {
                        query: q@,
                        filtered_apps: spec_filter(old(self)@.apps, q@),
                        ..old(self)@
                    })
                    &&& act is Nothing
                },
                NavigatorMessage::LaunchApp(e) => {
                    &&& final(self)@ == old(self)@
                    &&& act matches LauncherAction::ShellThenMinimize(c) && c@ == spec_clean_exec(e@)
                },
                NavigatorMessage::WindowDragged => final(self)@ == old(self)@ && act is Drag,
                NavigatorMessage::Minimize => final(self)@ == old(self)@ && act is Minimize,
                NavigatorMessage::Maximize => {
                    &&& final(self)@ == (NavigatorView { maximized: !old(self)@.maximized, ..old(self)@ })
                    &&& act == LauncherAction::Maximize(!old(self)@.maximized)
                },
                NavigatorMessage::Close => final(self)@ == old(self)@ && act is Close,
                NavigatorMessage::AddFavorite(app) => {
                    &&& final(self)@ == (NavigatorView {
                        favorites: with_favorite(old(self)@.favorites, app@),
                        context_menu: None,
                        ..old(self)@
                    })
                    &&& act is Nothing
                },
                NavigatorMessage::CloseContextMenu => {
                    &&& final(self)@ == (NavigatorView { context_menu: None, ..old(self)@ })
                    &&& act is Nothing
                },
                NavigatorMessage::UninstallApp(app) => {
                    &&& final(self)@ == (NavigatorView {
                        notification: Some(app@.name + " uninstalled successfully!"@),
                        context_menu: None,
                        ..old(self)@
                    })
                    &&& act is ClearNotificationLater
                },
                NavigatorMessage::ClearNotification => {
                    &&& final(self)@ == (NavigatorView { notification: None, ..old(self)@ })
                    &&& act is Nothing
                },
                NavigatorMessage::ShowMoreSuggestions => {
                    &&& final(self)@ == (NavigatorView {
                        suggestions: old(self)@.suggestions + (if old(self)@.apps.len() < 20 {
                            Seq::empty()
                        } else {
                            window_of(old(self)@.apps, 20, 50)
                        }),
                        ..old(self)@
                    })
                    &&& act is Nothing
                },
                NavigatorMessage::RightClickApp(app) => {
                    &&& final(self)@ == (NavigatorView { context_menu: Some(app@), ..old(self)@ })
                    &&& act is Nothing
                },
            },
    {
        match msg {
            NavigatorMessage::QueryChanged(q) => {
                let filtered = filter_entries(&self.apps, q.as_str());
                self.query = q;
                self.filtered_apps = filtered;
                LauncherAction::Nothing
            },
            NavigatorMessage::LaunchApp(e) => {
                let cleaned = clean_exec(e.as_str());
                LauncherAction::ShellThenMinimize(crate::text::string_from_chars(cleaned.as_slice()))
            },
            NavigatorMessage::WindowDragged => LauncherAction::Drag,
            NavigatorMessage::Minimize => LauncherAction::Minimize,
            NavigatorMessage::Maximize => {
                self.maximized = !self.maximized;
                LauncherAction::Maximize(self.maximized)
            },
            NavigatorMessage::Close => LauncherAction::Close,
            NavigatorMessage::AddFavorite(app) => {
                if !contains_id(&self.favorites, app.id.as_str()) {
                    let ghost before = self.favorites@;
                    self.favorites.push(app);
                    proof {
                        assert(entry_views(self.favorites@) =~= entry_views(before).push(app@));
                    }
                }
                self.context_menu = None;
                LauncherAction::Nothing
            },
            NavigatorMessage::CloseContextMenu => {
                self.context_menu = None;
                LauncherAction::Nothing
            },
            NavigatorMessage::UninstallApp(app) => {
                let mut note = app.name;
                note.append(" uninstalled successfully!");
                self.notification = Some(note);
                self.context_menu = None;
                LauncherAction::ClearNotificationLater
            },
            NavigatorMessage::ClearNotification => {
                self.notification = None;
                LauncherAction::Nothing
            },
            NavigatorMessage::ShowMoreSuggestions => {
                let mut more = copy_window(&self.apps, 20, 50);
                let ghost before = self.suggestions@;
                let ghost added = more@;
                proof {
                    if self.apps@.len() < 20 {
                        assert(entry_views(more@) =~= Seq::<LaunchEntryView>::empty());
                    }
                }
                self.suggestions.append(&mut more);
                proof {
                    assert(entry_views(self.suggestions@) =~= entry_views(before) + entry_views(added));
                }
                LauncherAction::Nothing
            },
            NavigatorMessage::RightClickApp(app) => {
                self.context_menu = Some(app);
                LauncherAction::Nothing
            },
        }
    }
}

} // verus!
