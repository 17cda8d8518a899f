//! File and string utilities: icons by file type, human-readable sizes,
//! file-name validation and sanitizing, truncation and title case.

use vstd::prelude::*;
use vstd::string::StringSliceAdditionalSpecFns;
use vstd::utf8::encode_utf8;
use crate::text::{
    chars_of, string_from_chars, trim_chars, trim, to_lowercase, char_to_uppercase, is_whitespace,
    push_decimal, decimal, str_lowercase, char_uppercase, char_is_whitespace,
};

verus! {

/// What `Path::new(p).extension()` gives for the path `p`, as text.
pub uninterp spec fn path_extension(p: Seq<char>) -> Option<Seq<char>>;

/// `std::path::Path::extension` of a path given as text; the extension of a
/// `&str` path is valid UTF-8, so it converts back to text.
#[verifier::external_body]
pub(crate) fn extension_of(p: &str) -> (r: Option<String>)
    ensures
        match r {
            Some(e) => path_extension(p@) == Some(e@),
            None => path_extension(p@).is_none(),
        },
{
    std::path::Path::new(p).extension().and_then(|e| e.to_str()).map(|e| e.to_string())
}

/// `std::path::Path::is_dir`: whether a directory is found at the path when
/// the file system is asked; nothing is claimed of the answer.
#[verifier::external_body]
fn path_is_dir(p: &str) -> (r: bool) {
    std::path::Path::new(p).is_dir()
}

/// `std::path::Path::exists`: whether anything is found at the path when
/// the file system is asked; nothing is claimed of the answer.
#[verifier::external_body]
fn path_found(p: &str) -> (r: bool) {
    std::path::Path::new(p).exists()
}

/// Disk usage of a mount point, in bytes.
#[derive(Debug, Clone)]
pub struct DiskUsage {
    pub total: u64,
    pub available: u64,
    pub used: u64,
    pub mount_point: String,
}

/// File-system helpers.
pub struct FileSystemUtils;

/// Process helpers; what they do is run commands, which the program around
/// the library does.
pub struct ProcessUtils;

/// String helpers.
pub struct StringUtils;

/// The characters that file names may not hold.
pub open spec fn is_invalid_filename_char(c: char) -> bool {
    c == '/' || c == '\\' || c == ':' || c == '*' || c == '?' || c == '"' || c == '<' || c == '>' || c == '|'
}

fn invalid_filename_char(c: char) -> (r: bool)
    ensures
        r == is_invalid_filename_char(c),
{
    c == '/' || c == '\\' || c == ':' || c == '*' || c == '?' || c == '"' || c == '<' || c == '>' || c == '|'
}

/// The icon name for a file with the given lower-cased extension.
pub open spec fn icon_for_extension(e: Seq<char>) -> Seq<char> {
    if e == "txt"@ || e == "md"@ {
        "text-plain"@
    } else if e == "pdf"@ {
        "application-pdf"@
    } else if e == "jpg"@ || e == "jpeg"@ || e == "png"@ || e == "gif"@ || e == "svg"@ {
        "image"@
    } else if e == "mp4"@ || e == "avi"@ || e == "mkv"@ || e == "mov"@ {
        "video"@
    } else if e == "mp3"@ || e == "ogg"@ || e == "flac"@ || e == "wav"@ {
        "audio"@
    } else if e == "zip"@ || e == "tar"@ || e == "gz"@ || e == "7z"@ {
        "archive"@
    } else if e == "rs"@ || e == "c"@ || e == "cpp"@ || e == "py"@ || e == "js"@ || e == "html"@ || e == "css"@ {
        "text-code"@
    } else if e == "exe"@ || e == "deb"@ || e == "rpm"@ {
        "application-x-executable"@
    } else {
        "text-x-generic"@
    }
}

/// The icon name for `path`: `folder` for a directory and for a path
/// without an extension, otherwise by the lower-cased extension.
pub open spec fn spec_icon_name(path: Seq<char>, is_dir: bool) -> Seq<char> {
    match path_extension(path) {
        Some(e) => if is_dir {
            "folder"@
        } else {
            icon_for_extension(str_lowercase(e))
        },
        None => "folder"@,
    }
}

/// Whether two strings hold the same characters.
pub(crate) fn same_text(a: &str, b: &str) -> (r: bool)
    ensures
        r == (a@ == b@),
{
    let va = chars_of(a);
    let vb = chars_of(b);
    if va.len() != vb.len() {
        return false;
    }
    let mut i: usize = 0;
    while i < va.len()
        invariant
            va@ == a@,
            vb@ == b@,
            va@.len() == vb@.len(),
            i <= va@.len(),
            forall|k: int| 0 <= k < i ==> va@[k] == vb@[k],
        decreases va.len() - i,
    {
        if va[i] != vb[i] {
            return false;
        }
        i += 1;
    }
    proof {
        assert(va@ =~= vb@);
    }
    true
}

fn icon_for(e: &str) -> (r: String)
    ensures
        r@ == icon_for_extension(e@),
{
    if same_text(e, "txt") || same_text(e, "md") {
        String::from_str("text-plain")
    } else if same_text(e, "pdf") {
        String::from_str("application-pdf")
    } else if same_text(e, "jpg") || same_text(e, "jpeg") || same_text(e, "png") || same_text(e, "gif")
        || same_text(e, "svg") {
        String::from_str("image")
    } else if same_text(e, "mp4") || same_text(e, "avi") || same_text(e, "mkv") || same_text(e, "mov") {
        String::from_str("video")
    } else if same_text(e, "mp3") || same_text(e, "ogg") || same_text(e, "flac") || same_text(e, "wav") {
        String::from_str("audio")
    } else if same_text(e, "zip") || same_text(e, "tar") || same_text(e, "gz") || same_text(e, "7z") {
        String::from_str("archive")
    } else if same_text(e, "rs") || same_text(e, "c") || same_text(e, "cpp") || same_text(e, "py") || same_text(
        e,
        "js",
    ) || same_text(e, "html") || same_text(e, "css") {
        String::from_str("text-code")
    } else if same_text(e, "exe") || same_text(e, "deb") || same_text(e, "rpm") {
        String::from_str("application-x-executable")
    } else {
        String::from_str("text-x-generic")
    }
}

/// 1024 to the power `k`.
pub open spec fn pow1024(k: nat) -> nat
    decreases k,
{
    if k == 0 {
        1
    } else {
        1024 * pow1024((k - 1) as nat)
    }
}

/// The scale (a power of two) by which `n` is divided to fit 53 bits,
/// searching from `p`.
pub open spec fn fit_scale(n: nat, p: nat) -> nat
    decreases n - p,
{
    if p > 0 && p <= n && n / p >= 0x20_0000_0000_0000 {
        proof {
            assert(2 * p <= n) by (nonlinear_arith)
                requires
                    p > 0,
                    n / p >= 0x20_0000_0000_0000,
            {
                assert(n >= p * (n / p));
            }
        }
        fit_scale(n, 2 * p)
    } else {
        p
    }
}

/// `q` rounded to even when the remainder `r` is exactly half of `d`,
/// up when more, down when less.
pub open spec fn round_half_even(q: nat, r: nat, d: nat) -> nat {
    if 2 * r > d || (2 * r == d && q % 2 == 1) {
        q + 1
    } else {
        q
    }
}

/// The value of the `f64` nearest to `n` (ties to even), as `u64 as f64`
/// rounds it.
pub open spec fn f64_of(n: nat) -> nat {
    let p = fit_scale(n, 1);
    round_half_even(n / p, n % p, p) * p
}

/// Number of times a size is divided by 1024 before it is shown: while it
/// is at least 1024, and at most four times.
pub open spec fn size_unit(f: nat) -> nat {
    if f >= pow1024(4) {
        4
    } else if f >= pow1024(3) {
        3
    } else if f >= pow1024(2) {
        2
    } else if f >= pow1024(1) {
        1
    } else {
        0
    }
}

pub open spec fn unit_name(k: nat) -> Seq<char> {
    if k == 0 {
        seq!['B']
    } else if k == 1 {
        seq!['K', 'B']
    } else if k == 2 {
        seq!['M', 'B']
    } else if k == 3 {
        seq!['G', 'B']
    } else {
        seq!['T', 'B']
    }
}

/// The text of a file size: whole bytes under 1 KB, otherwise the size in
/// the largest unit up to TB with one decimal, rounded half to even.
pub open spec fn spec_format_file_size(size: nat) -> Seq<char> {
    let f = f64_of(size);
    let k = size_unit(f);
    if k == 0 {
        decimal(size) + seq![' '] + unit_name(0)
    } else {
        let d = pow1024(k);
        let t = round_half_even(f * 10 / d, f * 10 % d, d);
        decimal(t / 10) + seq!['.'] + decimal(t % 10) + seq![' '] + unit_name(k)
    }
}

/// `s` with each invalid file-name character replaced by `_`.
pub open spec fn replace_invalid(s: Seq<char>) -> Seq<char> {
    s.map_values(|c: char| if is_invalid_filename_char(c) { '_' } else { c })
}

/// The words of `s` as `split_whitespace` gives them: the maximal runs of
/// non-whitespace characters. `scan_words` gives the finished words and the
/// word being read after a prefix.
pub open spec fn scan_words(s: Seq<char>) -> (Seq<Seq<char>>, Seq<char>)
    decreases s.len(),
{
    if s.len() == 0 {
        (Seq::empty(), Seq::empty())
    } else {
        let (done, cur) = scan_words(s.drop_last());
        let c = s.last();
        if char_is_whitespace(c) {
            if cur.len() > 0 {
                (done.push(cur), Seq::empty())
            } else {
                (done, Seq::empty())
            }
        } else {
            (done, cur.push(c))
        }
    }
}

pub open spec fn words(s: Seq<char>) -> Seq<Seq<char>> {
    let (done, cur) = scan_words(s);
    if cur.len() > 0 {
        done.push(cur)
    } else {
        done
    }
}

/// A word with its first character upper-cased and the rest lower-cased.
pub open spec fn title_word(w: Seq<char>) -> Seq<char> {
    if w.len() == 0 {
        Seq::empty()
    } else {
        char_uppercase(w[0]) + str_lowercase(w.drop_first())
    }
}

/// The words joined with single spaces.
pub open spec fn join_words(ws: Seq<Seq<char>>) -> Seq<char>
    decreases ws.len(),
{
    if ws.len() == 0 {
        Seq::empty()
    } else if ws.len() == 1 {
        ws[0]
    } else {
        join_words(ws.drop_last()) + seq![' '] + ws.last()
    }
}

pub open spec fn spec_title_case(s: Seq<char>) -> Seq<char> {
    join_words(words(s).map_values(|w: Seq<char>| title_word(w)))
}

impl FileSystemUtils {
    /// The icon name for the file at `file_path`: `folder` for a path
    /// without an extension and when the file system reports a directory
    /// there, otherwise by its extension.
    pub fn get_file_icon(file_path: &str) -> (r: String)
        ensures
            r@ == spec_icon_name(file_path@, false) || r@ == spec_icon_name(file_path@, true),
            path_extension(file_path@).is_none() ==> r@ == "folder"@,
    {
        let is_dir = path_is_dir(file_path);
        Self::icon_name(file_path, is_dir)
    }

    /// The icon name for `file_path`, given whether it is a directory.
    pub fn icon_name(file_path: &str, is_dir: bool) -> (r: String)
        ensures
            r@ == spec_icon_name(file_path@, is_dir),
    {
        let ext = match extension_of(file_path) {
            Some(e) => e,
            None => {
                return String::from_str("folder");
            },
        };
        if is_dir {
            return String::from_str("folder");
        }
        let lower = to_lowercase(ext.as_str());
        icon_for(lower.as_str())
    }

    /// Whether anything is found at `path`.
    pub fn path_exists(path: &str) -> (r: bool) {
        path_found(path)
    }

    /// A file size in human-readable form, such as `512 B` or `1.5 KB`.
    pub fn format_file_size(size: u64) -> (r: String)
        ensures
            r@ == spec_format_file_size(size as nat),
    {
        let n: u128 = size as u128;
        let mut p: u128 = 1;
        proof {
            assert(fit_scale(n as nat, 1) == fit_scale(n as nat, p as nat));
        }
        while p <= n && n / p >= 0x20_0000_0000_0000
            invariant
                n == size,
                1 <= p <= 0x1000,
                fit_scale(n as nat, 1) == fit_scale(n as nat, p as nat),
            decreases n - p,
        {
            proof {
                assert(p <= 0x800) by (nonlinear_arith)
                    requires
                        n / p >= 0x20_0000_0000_0000,
                        n < 0x1_0000_0000_0000_0000,
                        p >= 1,
                ;
            }
            p = 2 * p;
        }
        let q: u128 = n / p;
        let rem: u128 = n % p;
        proof {
            assert(q <= n) by (nonlinear_arith)
                requires
                    q == n / p,
                    p >= 1,
            ;
            assert(q * p <= n) by (nonlinear_arith)
                requires
                    q == n / p,
                    p >= 1,
            ;
        }
        let rq: u128 = if 2 * rem > p || (2 * rem == p && q % 2 == 1) { q + 1 } else { q };
        proof {
            assert(rq * p <= n + p) by (nonlinear_arith)
                requires
                    rq <= q + 1,
                    q * p <= n,
            ;
        }
        let f: u128 = rq * p;
        proof {
            assert(f == f64_of(size as nat));
            assert(f <= 0x1_0000_0000_0000_1000);
        }
        let mut v: Vec<char> = Vec::new();
        if f < 1024 {
            push_decimal(&mut v, size);
            v.push(' ');
            v.push('B');
            proof {
                reveal_with_fuel(pow1024, 5);
                assert(size_unit(f as nat) == 0);
                assert(v@ == decimal(size as nat) + seq![' '] + unit_name(0));
            }
            return string_from_chars(v.as_slice());
        }
        proof {
            reveal_with_fuel(pow1024, 5);
        }
        let (k, d): (u64, u128) = if f >= 0x100_0000_0000 {
            (4, 0x100_0000_0000)
        } else if f >= 0x4000_0000 {
            (3, 0x4000_0000)
        } else if f >= 0x10_0000 {
            (2, 0x10_0000)
        } else {
            (1, 1024)
        };
        let tq: u128 = f * 10 / d;
        let tr: u128 = f * 10 % d;
        let t: u128 = if 2 * tr > d || (2 * tr == d && tq % 2 == 1) { tq + 1 } else { tq };
        proof {
            assert(tq <= f * 10) by (nonlinear_arith)
                requires
                    tq == (f * 10) as int / d as int,
                    d >= 1,
            ;
        }
        let ip: u128 = t / 10;
        let fp: u128 = t % 10;
        push_decimal(&mut v, ip as u64);
        v.push('.');
        push_decimal(&mut v, fp as u64);
        v.push(' ');
        match k {
            1 => v.push('K'),
            2 => v.push('M'),
            3 => v.push('G'),
            _ => v.push('T'),
        }
        v.push('B');
        proof {
            assert(size_unit(f as nat) == k);
            assert(v@ == decimal(ip as nat) + seq!['.'] + decimal(fp as nat) + seq![' '] + unit_name(k as nat));
        }
        string_from_chars(v.as_slice())
    }

    /// Whether `filename` is a usable file name: not empty, at most 255
    /// bytes long, and free of `/ \ : * ? " < > |`.
    pub fn is_valid_filename(filename: &str) -> (r: bool)
        ensures
            r == (filename@.len() > 0 && filename.len() <= 255 && forall|i: int|
                0 <= i < filename@.len() ==> !is_invalid_filename_char(#[trigger] filename@[i])),
    {
        let v = chars_of(filename);
        let mut i: usize = 0;
        while i < v.len()
            invariant
                v@ == filename@,
                i <= v@.len(),
                forall|k: int| 0 <= k < i ==> !is_invalid_filename_char(#[trigger] v@[k]),
            decreases v.len() - i,
        {
            if invalid_filename_char(v[i]) {
                return false;
            }
            i += 1;
        }
        !filename.is_empty() && filename.len() <= 255
    }

    /// `filename` with each invalid character replaced by `_`, without
    /// leading and trailing whitespace.
    pub fn sanitize_filename(filename: &str) -> (r: String)
        ensures
            r@ == trim(replace_invalid(filename@)),
    {
        let v = chars_of(filename);
        let mut m: Vec<char> = Vec::new();
        let mut i: usize = 0;
        while i < v.len()
            invariant
                v@ == filename@,
                i <= v@.len(),
                m@ == replace_invalid(v@.take(i as int)),
            decreases v.len() - i,
        {
            let c = v[i];
            m.push(if invalid_filename_char(c) { '_' } else { c });
            proof {
                assert(v@.take(i + 1) == v@.take(i as int).push(c));
                assert(replace_invalid(v@.take(i + 1)) =~= replace_invalid(v@.take(i as int)).push(
                    if is_invalid_filename_char(c) { '_' } else { c },
                ));
            }
            i += 1;
        }
        proof {
            assert(v@.take(v@.len() as int) == v@);
        }
        let t = trim_chars(m.as_slice());
        string_from_chars(t.as_slice())
    }
}

/// `w` with its first character upper-cased and the rest lower-cased.
fn title_word_exec(w: &Vec<char>) -> (r: Vec<char>)
    requires
        w@.len() > 0,
    ensures
        r@ == title_word(w@),
{
    let first = char_to_uppercase(w[0]);
    let mut rest: Vec<char> = Vec::new();
    let mut i: usize = 1;
    while i < w.len()
        invariant
            1 <= i <= w@.len(),
            rest@ == w@.subrange(1, i as int),
        decreases w.len() - i,
    {
        rest.push(w[i]);
        proof {
            assert(w@.subrange(1, i + 1) == w@.subrange(1, i as int).push(w@[i as int]));
        }
        i += 1;
    }
    proof {
        assert(w@.subrange(1, w@.len() as int) == w@.drop_first());
    }
    let rest_s = string_from_chars(rest.as_slice());
    let lower = to_lowercase(rest_s.as_str());
    let mut r = chars_of(first.as_str());
    let l = chars_of(lower.as_str());
    let mut k: usize = 0;
    let ghost r0 = r@;
    while k < l.len()
        invariant
            k <= l@.len(),
            r@ == r0 + l@.take(k as int),
        decreases l.len() - k,
    {
        r.push(l[k]);
        proof {
            assert(l@.take(k + 1) == l@.take(k as int).push(l@[k as int]));
        }
        k += 1;
    }
    proof {
        assert(l@.take(l@.len() as int) == l@);
    }
    r
}

/// Appends the title-cased word `w` to the text `out` of the words before it.
fn emit_word(out: &mut Vec<char>, w: &Vec<char>, first: bool, done: Ghost<Seq<Seq<char>>>)
    requires
        w@.len() > 0,
        first == (done@.len() == 0),
        old(out)@ == join_words(done@.map_values(|x: Seq<char>| title_word(x))),
    ensures
        final(out)@ == join_words(done@.push(w@).map_values(|x: Seq<char>| title_word(x))),
{
    let t = title_word_exec(w);
    let ghost f = |x: Seq<char>| title_word(x);
    proof {
        assert(done@.push(w@).map_values(f) =~= done@.map_values(f).push(title_word(w@)));
    }
    let ghost before = out@;
    if !first {
        out.push(' ');
    }
    let mut k: usize = 0;
    let ghost o0 = out@;
    while k < t.len()
        invariant
            k <= t@.len(),
            out@ == o0 + t@.take(k as int),
        decreases t.len() - k,
    {
        out.push(t[k]);
        proof {
            assert(t@.take(k + 1) == t@.take(k as int).push(t@[k as int]));
        }
        k += 1;
    }
    proof {
        assert(t@.take(t@.len() as int) == t@);
        let ws = done@.push(w@).map_values(f);
        assert(ws.drop_last() =~= done@.map_values(f));
        if done@.len() == 0 {
            assert(o0.len() == 0);
            assert(out@ =~= t@);
        } else {
            assert(o0 =~= before + seq![' ']);
            assert(out@ =~= before + seq![' '] + t@);
        }
    }
}

/// The encoding of two character sequences one after the other is the
/// encoding of the first followed by that of the second.
pub proof fn lemma_encode_utf8_concat(a: Seq<char>, b: Seq<char>)
    ensures
        encode_utf8(a + b) == encode_utf8(a) + encode_utf8(b),
    decreases a.len(),
{
    if a.len() == 0 {
        assert(a + b =~= b);
        assert(encode_utf8(a) + encode_utf8(b) =~= encode_utf8(b));
    } else {
        lemma_encode_utf8_concat(a.drop_first(), b);
        assert((a + b).drop_first() =~= a.drop_first() + b);
        assert((a + b)[0] == a[0]);
        let e0 = vstd::utf8::encode_scalar(a[0] as u32);
        assert(encode_utf8(a + b) == e0 + encode_utf8((a + b).drop_first()));
        assert(e0 + (encode_utf8(a.drop_first()) + encode_utf8(b)) =~= (e0 + encode_utf8(a.drop_first())) + encode_utf8(b));
    }
}

impl StringUtils {
    /// `s` unchanged when at most `max_length` bytes long; otherwise its
    /// first `max_length - 3` bytes followed by `...`, or, for a limit below
    /// 3, as many dots as the limit. The result is never longer than the
    /// limit, and a cut must fall on a character boundary.
    pub fn truncate(s: &str, max_length: usize) -> (r: String)
        requires
            s.spec_bytes().len() > max_length && max_length >= 3 ==> vstd::utf8::is_char_boundary(
                s.spec_bytes(),
                max_length - 3,
            ),
        ensures
            s.spec_bytes().len() <= max_length ==> r@ == s@,
            s.spec_bytes().len() > max_length && max_length >= 3 ==> r@ == vstd::utf8::decode_utf8(
                s.spec_bytes().subrange(0, max_length - 3),
            ) + "..."@,
            s.spec_bytes().len() > max_length && max_length < 3 ==> r@ == Seq::new(
                max_length as nat,
                |i: int| '.',
            ),
            encode_utf8(r@).len() <= max_length,
    {
        let n = s.as_bytes().len();
        if n <= max_length {
            return String::from_str(s);
        }
        if max_length < 3 {
            let mut r = String::new();
            let mut i: usize = 0;
            while i < max_length
                invariant
                    i <= max_length < 3,
                    r@ == Seq::new(i as nat, |k: int| '.'),
                decreases max_length - i,
            {
                r.append(".");
                proof {
                    reveal_strlit(".");
                    assert(r@ =~= Seq::new((i + 1) as nat, |k: int| '.'));
                }
                i += 1;
            }
            proof {
                assert(vstd::utf8::is_ascii_chars(r@));
                vstd::utf8::is_ascii_chars_encode_utf8(r@);
            }
            return r;
        }
        let k = max_length - 3;
        let (a, _b) = s.split_at(k);
        proof {
            vstd::utf8::encode_utf8_decode_utf8(a@);
        }
        let mut r = String::from_str(a);
        r.append("...");
        proof {
            reveal_strlit("...");
            lemma_encode_utf8_concat(a@, "..."@);
            assert(vstd::utf8::is_ascii_chars("..."@));
            vstd::utf8::is_ascii_chars_encode_utf8("..."@);
        }
        r
    }

    /// Whether every character of `s` is ASCII.
    pub fn is_ascii(s: &str) -> (r: bool)
        ensures
            r == vstd::utf8::is_ascii_chars(s@),
    {
        s.is_ascii()
    }

    /// The whitespace-separated words of `s`, each with its first character
    /// upper-cased and the rest lower-cased, joined by single spaces.
    pub fn to_title_case(s: &str) -> (r: String)
        ensures
            r@ == spec_title_case(s@),
    {
        let v = chars_of(s);
        let mut out: Vec<char> = Vec::new();
        let mut cur: Vec<char> = Vec::new();
        let ghost mut done: Seq<Seq<char>> = Seq::empty();
        let mut first = true;
        let mut i: usize = 0;
        while i < v.len()
            invariant
                v@ == s@,
                i <= v@.len(),
                scan_words(v@.take(i as int)) == (done, cur@),
                first == (done.len() == 0),
                out@ == join_words(done.map_values(|x: Seq<char>| title_word(x))),
            decreases v.len() - i,
        {
            let c = v[i];
            proof {
                assert(v@.take(i + 1).drop_last() == v@.take(i as int));
                assert(v@.take(i + 1).last() == c);
            }
            if is_whitespace(c) {
                if cur.len() > 0 {
                    emit_word(&mut out, &cur, first, Ghost(done));
                    first = false;
                    proof {
                        done = done.push(cur@);
                    }
                }
                cur = Vec::new();
            } else {
                cur.push(c);
            }
            i += 1;
        }
        proof {
            assert(v@.take(v@.len() as int) == v@);
        }
        if cur.len() > 0 {
            emit_word(&mut out, &cur, first, Ghost(done));
        }
        string_from_chars(out.as_slice())
    }
}

/// The whitespace-separated words of `v`, as strings.
pub fn split_words(v: &Vec<char>) -> (r: Vec<String>)
    ensures
        r@.map_values(|s: String| s@) == words(v@),
{
    let ghost f = |s: String| s@;
    let mut out: Vec<String> = Vec::new();
    let mut cur: Vec<char> = Vec::new();
    let ghost mut done: Seq<Seq<char>> = Seq::empty();
    let mut i: usize = 0;
    while i < v.len()
        invariant
            i <= v@.len(),
            f == (|s: String| s@),
            scan_words(v@.take(i as int)) == (done, cur@),
            out@.map_values(f) == done,
        decreases v.len() - i,
    {
        let c = v[i];
        proof {
            assert(v@.take(i + 1).drop_last() == v@.take(i as int));
            assert(v@.take(i + 1).last() == c);
        }
        if is_whitespace(c) {
            if cur.len() > 0 {
                let ghost before = out@;
                out.push(string_from_chars(cur.as_slice()));
                proof {
                    assert(out@.map_values(f) =~= before.map_values(f).push(cur@));
                    done = done.push(cur@);
                }
            }
            cur = Vec::new();
        } else {
            cur.push(c);
        }
        i += 1;
    }
    proof {
        assert(v@.take(v@.len() as int) == v@);
    }
    if cur.len() > 0 {
        let ghost before = out@;
        out.push(string_from_chars(cur.as_slice()));
        proof {
            assert(out@.map_values(f) =~= before.map_values(f).push(cur@));
        }
    }
    out
}

/// Whether `s` holds none of the characters file names may not hold.
pub open spec fn free_of_invalid(s: Seq<char>) -> bool {
    forall|i: int| 0 <= i < s.len() ==> !is_invalid_filename_char(#[trigger] s[i])
}

proof fn lemma_trim_start_free(s: Seq<char>)
    requires
        free_of_invalid(s),
    ensures
        free_of_invalid(crate::text::trim_start(s)),
    decreases s.len(),
{
    if s.len() > 0 && char_is_whitespace(s[0]) {
        let t = s.drop_first();
        assert forall|i: int| 0 <= i < t.len() implies !is_invalid_filename_char(#[trigger] t[i]) by {
            assert(t[i] == s[i + 1]);
        }
        lemma_trim_start_free(t);
    }
}

proof fn lemma_trim_end_free(s: Seq<char>)
    requires
        free_of_invalid(s),
    ensures
        free_of_invalid(crate::text::trim_end(s)),
    decreases s.len(),
{
    if s.len() > 0 && char_is_whitespace(s.last()) {
        let t = s.drop_last();
        assert forall|i: int| 0 <= i < t.len() implies !is_invalid_filename_char(#[trigger] t[i]) by {
            assert(t[i] == s[i]);
        }
        lemma_trim_end_free(t);
    }
}

/// A sanitized file name holds none of the characters file names may not
/// hold, so it is a valid name whenever it is not empty and at most 255
/// bytes long.
pub proof fn lemma_sanitized_is_clean(s: Seq<char>)
    ensures
        free_of_invalid(trim(replace_invalid(s))),
{
    let m = replace_invalid(s);
    assert forall|i: int| 0 <= i < m.len() implies !is_invalid_filename_char(#[trigger] m[i]) by {}
    lemma_trim_start_free(m);
    lemma_trim_end_free(crate::text::trim_start(m));
}

/// Sanitizing a file name a second time changes nothing.
pub proof fn lemma_sanitize_idempotent(s: Seq<char>)
    ensures
        trim(replace_invalid(trim(replace_invalid(s)))) == trim(replace_invalid(s)),
{
    let t = trim(replace_invalid(s));
    lemma_sanitized_is_clean(s);
    assert(replace_invalid(t) =~= t);
    crate::text::lemma_trim_idempotent(replace_invalid(s));
}

} // verus!
