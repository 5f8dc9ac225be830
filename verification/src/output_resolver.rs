//! Output naming: extension normalisation, base-name cleaning, rename
//! templates, and the choice of output names that never collide.

use vstd::prelude::*;
use vstd::set_lib::lemma_len_subset;
use crate::text::{
    CharClass, lower, trim, trim_start, take_chars, ends_with, decimal, zero_padded, replace_all,
    chars_of, string_of, lower_vec, trim_vec, trim_start_vec, take_vec, ends_with_vec, extend_chars,
    decimal_string, decimal_vec, zero_padded_vec, replace_vec, lemma_decimal_value,
};
use crate::paths::{path_extension, path_file_stem, path_join, extension_text, file_stem_text, join_text};
use crate::crop_runner::same_chars;

verus! {

broadcast use vstd::seq_lib::seq_to_set_is_finite;

/// How renamed outputs are named.
#[derive(Clone, Copy, PartialEq, Eq, Structural, Debug)]
pub enum RenameMode {
    /// One fixed name for every output (made unique by a numeric suffix).
    Custom,
    /// A template with `{name}`, `{index}`, `{date}`, `{time}` and `{ext}`.
    Template,
}

/// Rename rules of a batch request.
#[derive(Debug)]
pub struct RenameConfig {
    pub enabled: bool,
    pub mode: RenameMode,
    pub custom_name: Option<String>,
    pub template: Option<String>,
    pub start_index: u32,
    pub index_padding: u8,
}

/// The first serial number when none is given.
pub fn default_start_index() -> (r: u32)
    ensures
        r == 1,
{
    1
}

impl RenameConfig {
    /// Renaming off, custom mode, serials from 1 without padding.
    pub fn default_config() -> (c: RenameConfig)
        ensures
            !c.enabled,
            c.mode == RenameMode::Custom,
            c.custom_name is None,
            c.template is None,
            c.start_index == 1,
            c.index_padding == 0,
    {
        RenameConfig {
            enabled: false,
            mode: RenameMode::Custom,
            custom_name: None,
            template: None,
            start_index: default_start_index(),
            index_padding: 0,
        }
    }
}

/// An extension without surrounding white space and leading dots, in lower
/// case; `None` when nothing is left.
pub open spec fn normalized_extension(e: Seq<char>) -> Option<Seq<char>> {
    let t = lower(trim_start(trim(e, CharClass::WhiteSpace), CharClass::Exactly('.')));
    if t.len() == 0 { None } else { Some(t) }
}

pub fn normalize_extension(extension: &str) -> (r: Option<String>)
    ensures
        r.deep_view() == normalized_extension(extension@),
{
    let v = chars_of(extension);
    let t = lower_vec(&trim_start_vec(&trim_vec(&v, CharClass::WhiteSpace), CharClass::Exactly('.')));
    if t.len() == 0 {
        None
    } else {
        Some(string_of(&t))
    }
}

/// Characters that file systems refuse in names become `_`.
pub open spec fn sanitize_char(c: char) -> char {
    if c == '\\' || c == '/' || c == ':' || c == '*' || c == '?' || c == '"' || c == '<' || c == '>' || c == '|' {
        '_'
    } else {
        c
    }
}

/// Longest base name kept, in characters.
pub const MAX_BASE_NAME_CHARS: usize = 120;

/// A base name safe for the file system: forbidden characters replaced,
/// white space and then dots stripped from both ends, at most 120
/// characters, and `output` when nothing is left.
pub open spec fn sanitized(raw: Seq<char>) -> Seq<char> {
    let cleaned = raw.map_values(|c: char| sanitize_char(c));
    let t = trim(trim(cleaned, CharClass::WhiteSpace), CharClass::Exactly('.'));
    if t.len() == 0 {
        "output"@
    } else {
        let tr = take_chars(t, MAX_BASE_NAME_CHARS as nat);
        if tr.len() == 0 { "output"@ } else { tr }
    }
}

fn sanitize_char_exec(c: char) -> (d: char)
    ensures
        d == sanitize_char(c),
{
    if c == '\\' || c == '/' || c == ':' || c == '*' || c == '?' || c == '"' || c == '<' || c == '>' || c == '|' {
        '_'
    } else {
        c
    }
}

pub fn sanitize_base_name(raw: &str) -> (r: String)
    ensures
        r@ == sanitized(raw@),
{
    let v = chars_of(raw);
    let mut cleaned: Vec<char> = Vec::new();
    let mut i: usize = 0;
    while i < v.len()
        invariant
            i <= v.len(),
            cleaned@ == v@.map_values(|c: char| sanitize_char(c)).subrange(0, i as int),
        decreases v.len() - i,
    {
        cleaned.push(sanitize_char_exec(v[i]));
        i = i + 1;
        proof {
            assert(cleaned@ =~= v@.map_values(|c: char| sanitize_char(c)).subrange(0, i as int));
        }
    }
    proof {
        assert(cleaned@ =~= v@.map_values(|c: char| sanitize_char(c)));
    }
    let t = trim_vec(&trim_vec(&cleaned, CharClass::WhiteSpace), CharClass::Exactly('.'));
    if t.len() == 0 {
        return String::from_str("output");
    }
    let tr = take_vec(&t, MAX_BASE_NAME_CHARS);
    if tr.len() == 0 {
        String::from_str("output")
    } else {
        string_of(&tr)
    }
}

/// `rendered` without a trailing `.ext` (compared case-insensitively).
pub open spec fn stripped_extension(rendered: Seq<char>, ext: Seq<char>) -> Seq<char> {
    if ext.len() == 0 {
        rendered
    } else {
        let suffix = "."@ + ext;
        if ends_with(lower(rendered), lower(suffix)) {
            rendered.subrange(0, rendered.len() - suffix.len())
        } else {
            rendered
        }
    }
}

pub fn strip_matching_extension(rendered: &str, extension: &str) -> (r: String)
    ensures
        r@ == stripped_extension(rendered@, extension@),
{
    let e = chars_of(extension);
    let v = chars_of(rendered);
    if e.len() == 0 {
        return string_of(&v);
    }
    let mut suffix = chars_of(".");
    extend_chars(&mut suffix, &e);
    if ends_with_vec(&lower_vec(&v), &lower_vec(&suffix)) {
        let n = v.len() - suffix.len();
        let mut r: Vec<char> = Vec::new();
        let mut i: usize = 0;
        while i < n
            invariant
                n <= v.len(),
                i <= n,
                r@ == v@.subrange(0, i as int),
            decreases n - i,
        {
            r.push(v[i]);
            i = i + 1;
        }
        string_of(&r)
    } else {
        string_of(&v)
    }
}

/// A serial number, zero-padded to `padding` digits when `padding > 0`.
pub open spec fn formatted_index(value: u32, padding: u8) -> Seq<char> {
    if padding == 0 { decimal(value as nat) } else { zero_padded(value as nat, padding as nat) }
}

pub fn format_index(value: u32, padding: u8) -> (r: String)
    ensures
        r@ == formatted_index(value, padding),
{
    if padding == 0 {
        return decimal_string(value);
    }
    string_of(&zero_padded_vec(value, padding))
}

/// The rename template with its placeholders filled in, one after the other:
/// `{name}`, `{index}`, `{date}`, `{time}`, `{ext}`.
pub open spec fn rendered_template(
    template: Seq<char>,
    source_name: Seq<char>,
    extension: Seq<char>,
    index: u32,
    padding: u8,
    date: Seq<char>,
    time: Seq<char>,
) -> Seq<char> {
    let s1 = replace_all(template, "{name}"@, source_name);
    let s2 = replace_all(s1, "{index}"@, formatted_index(index, padding));
    let s3 = replace_all(s2, "{date}"@, date);
    let s4 = replace_all(s3, "{time}"@, time);
    replace_all(s4, "{ext}"@, extension)
}

fn replace_text(s: &Vec<char>, pat: &str, to: &Vec<char>) -> (r: Vec<char>)
    requires
        pat@.len() > 0,
    ensures
        r@ == replace_all(s@, pat@, to@),
{
    replace_vec(s, &chars_of(pat), to)
}

/// Fills in the template for a given date (`YYYYMMDD`) and time (`HHMMSS`).
pub fn render_template_at(
    template: &str,
    source_name: &str,
    extension: &str,
    index: u32,
    padding: u8,
    date: &str,
    time: &str,
) -> (r: String)
    ensures
        r@ == rendered_template(template@, source_name@, extension@, index, padding, date@, time@),
{
    proof {
        reveal_strlit("{name}");
        reveal_strlit("{index}");
        reveal_strlit("{date}");
        reveal_strlit("{time}");
        reveal_strlit("{ext}");
    }
    let t = chars_of(template);
    let s1 = replace_text(&t, "{name}", &chars_of(source_name));
    let idx = format_index(index, padding);
    let s2 = replace_text(&s1, "{index}", &chars_of(idx.as_str()));
    let s3 = replace_text(&s2, "{date}", &chars_of(date));
    let s4 = replace_text(&s3, "{time}", &chars_of(time));
    let s5 = replace_text(&s4, "{ext}", &chars_of(extension));
    string_of(&s5)
}

pub open spec fn is_digit(c: char) -> bool {
    '0' <= c && c <= '9'
}

/// What `%Y%m%d` writes: the year zero-padded to at least four digits (with
/// a sign before years outside 0 to 9999), then month and day in two
/// digits each.
pub open spec fn clock_date(d: Seq<char>) -> bool {
    &&& d.len() >= 8
    &&& (is_digit(d[0]) || d[0] == '+' || d[0] == '-')
    &&& forall|i: int| 1 <= i < d.len() ==> is_digit(#[trigger] d[i])
}

/// What `%H%M%S` writes: hour, minute and second in two digits each.
pub open spec fn clock_time(t: Seq<char>) -> bool {
    &&& t.len() == 6
    &&& forall|i: int| 0 <= i < t.len() ==> is_digit(#[trigger] t[i])
}

/// Every date and time of the stamps has the clock's form.
pub open spec fn clock_stamps(stamps: Seq<(Seq<char>, Seq<char>)>) -> bool {
    forall|i: int| 0 <= i < stamps.len() ==> clock_date((#[trigger] stamps[i]).0) && clock_time(stamps[i].1)
}

/// Today's local date as `%Y%m%d` and the local time as `%H%M%S`
/// (`chrono::Local::now` formatted twice). The clock decides the values;
/// only their form is promised, as chrono's format documentation gives it.
#[verifier::external_body]
fn local_date_time() -> (r: (String, String))
    ensures
        clock_date(r.0@),
        clock_time(r.1@),
{
    let now = chrono::Local::now();
    (now.format("%Y%m%d").to_string(), now.format("%H%M%S").to_string())
}

/// Fills in the template with the current local date and time.
pub fn render_template(template: &str, source_name: &str, extension: &str, index: u32, padding: u8) -> (r: String)
    ensures
        exists|date: Seq<char>, time: Seq<char>| clock_date(date) && clock_time(time)
            && r@ == #[trigger] rendered_template(template@, source_name@, extension@, index, padding, date, time),
{
    let (date, time) = local_date_time();
    render_template_at(template, source_name, extension, index, padding, date.as_str(), time.as_str())
}

/// The stem of the input file, or `output` when it has none.
pub open spec fn source_name_of(input: Seq<char>) -> Seq<char> {
    match path_file_stem(input) {
        Some(s) => s,
        None => "output"@,
    }
}

/// Template used when template mode has none.
pub open spec fn default_template() -> Seq<char> {
    "{name}_{index}"@
}

/// The rename rules behind an optional reference.
pub open spec fn config_of(c: Option<&RenameConfig>) -> Option<RenameConfig> {
    match c {
        Some(c) => Some(*c),
        None => None,
    }
}

/// The base name of output number `list_index`, for a given date and time.
pub open spec fn base_name_for(
    input: Seq<char>,
    list_index: int,
    extension: Seq<char>,
    config: Option<RenameConfig>,
    date: Seq<char>,
    time: Seq<char>,
) -> Seq<char> {
    let source = source_name_of(input);
    match config {
        None => sanitized(source),
        Some(c) => if !c.enabled {
            sanitized(source)
        } else {
            let serial = c.start_index.saturating_add(list_index as u32);
            let raw = match c.mode {
                RenameMode::Custom => match c.custom_name {
                    Some(n) => n@,
                    None => source,
                },
                RenameMode::Template => {
                    let t = match c.template {
                        Some(t) => t@,
                        None => default_template(),
                    };
                    stripped_extension(
                        rendered_template(t, source, extension, serial, c.index_padding, date, time),
                        extension,
                    )
                },
            };
            sanitized(raw)
        },
    }
}

/// In template mode the output extension is written once: when the filled
/// template ends with a dot and the output extension (letters compared
/// without case), the base name is made from what comes before that dot,
/// and the extension is added back only when the file name is formed;
/// otherwise the base name is made from the whole filled template.
pub proof fn law_template_extension_written_once(
    input: Seq<char>,
    list_index: int,
    extension: Seq<char>,
    c: RenameConfig,
    date: Seq<char>,
    time: Seq<char>,
)
    requires
        c.enabled,
        c.mode == RenameMode::Template,
        extension.len() > 0,
    ensures
        ({
            let t = match c.template {
                Some(t) => t@,
                None => default_template(),
            };
            let r = rendered_template(t, source_name_of(input), extension, c.start_index.saturating_add(list_index as u32),
                c.index_padding, date, time);
            let n = extension.len() + 1;
            let ends = n <= r.len() && r[r.len() - n] == '.' && lower(r.subrange(r.len() - n + 1, r.len() as int)) == lower(extension);
            &&& ends ==> base_name_for(input, list_index, extension, Some(c), date, time) == sanitized(r.subrange(0, r.len() - n))
            &&& !ends ==> base_name_for(input, list_index, extension, Some(c), date, time) == sanitized(r)
        }),
{
    reveal_strlit(".");
    let t = match c.template {
        Some(t) => t@,
        None => default_template(),
    };
    let r = rendered_template(t, source_name_of(input), extension, c.start_index.saturating_add(list_index as u32),
        c.index_padding, date, time);
    let n = extension.len() + 1;
    let sfx = "."@ + extension;
    assert(sfx.len() == n);
    let ends = n <= r.len() && r[r.len() - n] == '.' && lower(r.subrange(r.len() - n + 1, r.len() as int)) == lower(extension);
    let matches_end = ends_with(lower(r), lower(sfx));
    if n <= r.len() {
        let a = lower(r).subrange(r.len() - n, r.len() as int);
        let b = lower(sfx);
        assert(a.len() == n && b.len() == n);
        assert(b[0] == '.');
        assert forall|i: int| 1 <= i < n implies #[trigger] b[i] == lower(extension)[i - 1] by {
            assert(sfx[i] == extension[i - 1]);
        }
        assert forall|i: int| 1 <= i < n implies #[trigger] a[i] == lower(r.subrange(r.len() - n + 1, r.len() as int))[i - 1] by {}
        if ends {
            assert forall|i: int| 0 <= i < n implies a[i] == b[i] by {
                if i > 0 {
                    assert(lower(r.subrange(r.len() - n + 1, r.len() as int))[i - 1] == lower(extension)[i - 1]);
                }
            }
            assert(a =~= b);
        }
        if matches_end {
            assert(a == b);
            assert(a[0] == b[0]);
            assert(crate::text::lower_char(r[r.len() - n]) == '.');
            assert(r[r.len() - n] == '.');
            assert forall|i: int| 0 <= i < n - 1 implies lower(r.subrange(r.len() - n + 1, r.len() as int))[i] == lower(extension)[i] by {
                assert(a[i + 1] == b[i + 1]);
            }
            assert(lower(r.subrange(r.len() - n + 1, r.len() as int)) =~= lower(extension));
        }
    }
    assert(ends == matches_end);
}

fn source_name(input: &str) -> (r: String)
    ensures
        r@ == source_name_of(input@),
{
    match file_stem_text(input) {
        Some(s) => s,
        None => String::from_str("output"),
    }
}

/// The base name for a given date and time.
pub fn resolve_base_name_at(
    input: &str,
    list_index: usize,
    extension: &str,
    rename_config: Option<&RenameConfig>,
    date: &str,
    time: &str,
) -> (r: String)
    ensures
        r@ == base_name_for(input@, list_index as int, extension@, config_of(rename_config), date@, time@),
{
    let source = source_name(input);
    match rename_config {
        None => sanitize_base_name(source.as_str()),
        Some(config) => {
            if !config.enabled {
                return sanitize_base_name(source.as_str());
            }
            let serial = config.start_index.saturating_add(list_index as u32);
            match config.mode {
                RenameMode::Custom => match &config.custom_name {
                    Some(n) => sanitize_base_name(n.as_str()),
                    None => sanitize_base_name(source.as_str()),
                },
                RenameMode::Template => {
                    let rendered = match &config.template {
                        Some(t) => render_template_at(t.as_str(), source.as_str(), extension, serial, config.index_padding, date, time),
                        None => render_template_at("{name}_{index}", source.as_str(), extension, serial, config.index_padding, date, time),
                    };
                    let stripped = strip_matching_extension(rendered.as_str(), extension);
                    sanitize_base_name(stripped.as_str())
                },
            }
        },
    }
}

/// The base name of output number `list_index`: the sanitized file stem, or
/// the renamed one when renaming is on. Template mode reads the clock.
pub fn resolve_base_name(input: &str, list_index: usize, extension: &str, rename_config: Option<&RenameConfig>) -> (r: String)
    ensures
        exists|date: Seq<char>, time: Seq<char>| clock_date(date) && clock_time(time)
            && r@ == #[trigger] base_name_for(input@, list_index as int, extension@, config_of(rename_config), date, time),
{
    let (date, time) = local_date_time();
    resolve_base_name_at(input, list_index, extension, rename_config, date.as_str(), time.as_str())
}

/// The extension (without dot) of the output for `input`: the preferred one
/// when it normalises to something, else the input's own, else none.
pub open spec fn output_extension_for(input: Seq<char>, preferred: Option<Seq<char>>) -> Seq<char> {
    let from_pref = match preferred {
        Some(p) => normalized_extension(p),
        None => None,
    };
    match from_pref {
        Some(e) => e,
        None => match path_extension(input) {
            Some(e) => match normalized_extension(e) {
                Some(n) => n,
                None => Seq::empty(),
            },
            None => Seq::empty(),
        },
    }
}

pub fn output_extension(input: &str, preferred_extension: Option<&str>) -> (r: String)
    ensures
        r@ == output_extension_for(input@, match preferred_extension { Some(p) => Some(p@), None => None }),
{
    let from_pref = match preferred_extension {
        Some(p) => normalize_extension(p),
        None => None,
    };
    match from_pref {
        Some(e) => e,
        None => match extension_text(input) {
            Some(e) => match normalize_extension(e.as_str()) {
                Some(n) => n,
                None => String::new(),
            },
            None => String::new(),
        },
    }
}

/// `.ext`, or nothing for an empty extension.
pub open spec fn dotted(ext: Seq<char>) -> Seq<char> {
    if ext.len() == 0 { Seq::empty() } else { "."@ + ext }
}

/// `_k` for a conflict number `k > 0`, nothing for `k == 0`.
pub open spec fn conflict_suffix(k: nat) -> Seq<char> {
    if k == 0 { Seq::empty() } else { "_"@ + decimal(k) }
}

/// The `k`-th file name tried for a stem and extension.
pub open spec fn candidate_name(stem: Seq<char>, k: nat, ext: Seq<char>) -> Seq<char> {
    stem + conflict_suffix(k) + dotted(ext)
}

/// A name is taken when it already exists or was planned before.
pub open spec fn taken(name: Seq<char>, existing: Seq<Seq<char>>, used: Seq<Seq<char>>) -> bool {
    existing.contains(name) || used.contains(name)
}

/// `k` is the first conflict number whose name is free.
pub open spec fn first_free(stem: Seq<char>, ext: Seq<char>, existing: Seq<Seq<char>>, used: Seq<Seq<char>>, k: nat) -> bool {
    &&& !taken(candidate_name(stem, k, ext), existing, used)
    &&& forall|j: nat| j < k ==> taken(#[trigger] candidate_name(stem, j, ext), existing, used)
}

/// The file names chosen for outputs with the given stems and extensions,
/// in order: each gets the first free candidate, where names that exist
/// and names chosen before are taken.
pub open spec fn planned_names(stems: Seq<Seq<char>>, exts: Seq<Seq<char>>, existing: Seq<Seq<char>>) -> Seq<Seq<char>>
    decreases stems.len(),
{
    if stems.len() == 0 {
        Seq::empty()
    } else {
        let prev = planned_names(stems.drop_last(), exts.drop_last(), existing);
        let k = choose|k: nat| first_free(stems.last(), exts.last(), existing, prev, k);
        prev.push(candidate_name(stems.last(), k, exts.last()))
    }
}

proof fn lemma_seq_cancel(a: Seq<char>, b: Seq<char>, c: Seq<char>, d: Seq<char>)
    requires
        a + b + c == a + d + c,
    ensures
        b == d,
{
    let l = a + b + c;
    let r = a + d + c;
    assert(l.len() == a.len() + b.len() + c.len());
    assert(r.len() == a.len() + d.len() + c.len());
    assert(l.len() == r.len());
    assert(b.len() == d.len());
    assert forall|i: int| 0 <= i < b.len() implies b[i] == d[i] by {
        assert((a + b)[a.len() + i] == b[i]);
        assert((a + d)[a.len() + i] == d[i]);
        assert(l[a.len() + i] == (a + b)[a.len() + i]);
        assert(r[a.len() + i] == (a + d)[a.len() + i]);
    }
    assert(b =~= d);
}

/// Different conflict numbers give different names.
pub proof fn lemma_candidate_injective(stem: Seq<char>, ext: Seq<char>, j: nat, k: nat)
    requires
        candidate_name(stem, j, ext) == candidate_name(stem, k, ext),
    ensures
        j == k,
{
    reveal_strlit("_");
    lemma_seq_cancel(stem, conflict_suffix(j), dotted(ext), conflict_suffix(k));
    lemma_decimal_value(j);
    lemma_decimal_value(k);
    if j != 0 && k != 0 {
        let sj = conflict_suffix(j);
        let sk = conflict_suffix(k);
        assert(sj.subrange(1, sj.len() as int) =~= decimal(j));
        assert(sk.subrange(1, sk.len() as int) =~= decimal(k));
    }
}

/// `n` distinct names, all taken, need `n` taken slots.
proof fn lemma_pigeonhole(cands: Seq<Seq<char>>, pool: Seq<Seq<char>>)
    requires
        cands.no_duplicates(),
        forall|i: int| 0 <= i < cands.len() ==> pool.contains(#[trigger] cands[i]),
    ensures
        cands.len() <= pool.len(),
{
    cands.unique_seq_to_set();
    assert(cands.to_set().subset_of(pool.to_set())) by {
        assert forall|x: Seq<char>| cands.to_set().contains(x) implies pool.to_set().contains(x) by {
            let i = choose|i: int| 0 <= i < cands.len() && cands[i] == x;
        }
    }
    lemma_len_subset(cands.to_set(), pool.to_set());
    pool.lemma_cardinality_of_set();
}

/// When the first `k` candidates are all taken, `k` is at most the number of
/// taken names.
pub proof fn lemma_taken_prefix_bounded(stem: Seq<char>, ext: Seq<char>, existing: Seq<Seq<char>>, used: Seq<Seq<char>>, k: nat)
    requires
        forall|j: nat| j < k ==> taken(#[trigger] candidate_name(stem, j, ext), existing, used),
    ensures
        k <= existing.len() + used.len(),
{
    let cands = Seq::new(k, |j: int| candidate_name(stem, j as nat, ext));
    let pool = existing + used;
    assert forall|a: int, b: int| 0 <= a < cands.len() && 0 <= b < cands.len() && a != b implies cands[a] != cands[b] by {
        if cands[a] == cands[b] {
            lemma_candidate_injective(stem, ext, a as nat, b as nat);
        }
    }
    assert forall|i: int| 0 <= i < cands.len() implies pool.contains(#[trigger] cands[i]) by {
        assert(taken(candidate_name(stem, i as nat, ext), existing, used));
        if existing.contains(cands[i]) {
            let p = choose|p: int| 0 <= p < existing.len() && existing[p] == cands[i];
            assert(pool[p] == cands[i]);
        } else {
            let p = choose|p: int| 0 <= p < used.len() && used[p] == cands[i];
            assert(pool[existing.len() + p] == cands[i]);
        }
    }
    lemma_pigeonhole(cands, pool);
}

/// The first free conflict number exists, is unique, and is bounded by the
/// number of taken names.
pub proof fn lemma_first_free_exists(stem: Seq<char>, ext: Seq<char>, existing: Seq<Seq<char>>, used: Seq<Seq<char>>)
    ensures
        exists|k: nat| first_free(stem, ext, existing, used, k),
        forall|k: nat| #[trigger] first_free(stem, ext, existing, used, k) ==> k <= existing.len() + used.len(),
{
    let bound = (existing.len() + used.len()) as nat;
    let k = find_first_free(stem, ext, existing, used, bound + 1);
    assert(first_free(stem, ext, existing, used, k));
    assert forall|k2: nat| #[trigger] first_free(stem, ext, existing, used, k2) implies k2 <= bound by {
        lemma_taken_prefix_bounded(stem, ext, existing, used, k2);
    }
}

proof fn find_first_free(stem: Seq<char>, ext: Seq<char>, existing: Seq<Seq<char>>, used: Seq<Seq<char>>, limit: nat) -> (k: nat)
    requires
        (exists|j: nat| j < limit && !taken(#[trigger] candidate_name(stem, j, ext), existing, used))
            || limit == existing.len() + used.len() + 1,
    ensures
        first_free(stem, ext, existing, used, k),
    decreases limit,
{
    if forall|j: nat| j < limit ==> taken(#[trigger] candidate_name(stem, j, ext), existing, used) {
        lemma_taken_prefix_bounded(stem, ext, existing, used, limit);
        assert(false);
        0
    } else {
        let j0 = choose|j: nat| j < limit && !taken(#[trigger] candidate_name(stem, j, ext), existing, used);
        if forall|j: nat| j < j0 ==> taken(#[trigger] candidate_name(stem, j, ext), existing, used) {
            j0
        } else {
            find_first_free(stem, ext, existing, used, j0)
        }
    }
}

/// The first free conflict number is unique.
proof fn lemma_first_free_unique(stem: Seq<char>, ext: Seq<char>, existing: Seq<Seq<char>>, used: Seq<Seq<char>>, a: nat, b: nat)
    requires
        first_free(stem, ext, existing, used, a),
        first_free(stem, ext, existing, used, b),
    ensures
        a == b,
{
    if a < b {
        assert(taken(candidate_name(stem, a, ext), existing, used));
    } else if b < a {
        assert(taken(candidate_name(stem, b, ext), existing, used));
    }
}

/// Planned names never collide: they are pairwise distinct and none of them
/// exists already.
pub proof fn lemma_planned_names_unique(stems: Seq<Seq<char>>, exts: Seq<Seq<char>>, existing: Seq<Seq<char>>)
    requires
        stems.len() == exts.len(),
    ensures
        planned_names(stems, exts, existing).len() == stems.len(),
        planned_names(stems, exts, existing).no_duplicates(),
        forall|i: int| 0 <= i < stems.len() ==> !existing.contains(#[trigger] planned_names(stems, exts, existing)[i]),
    decreases stems.len(),
{
    if stems.len() > 0 {
        let prev = planned_names(stems.drop_last(), exts.drop_last(), existing);
        lemma_planned_names_unique(stems.drop_last(), exts.drop_last(), existing);
        lemma_first_free_exists(stems.last(), exts.last(), existing, prev);
        let k = choose|k: nat| first_free(stems.last(), exts.last(), existing, prev, k);
        let all = planned_names(stems, exts, existing);
        assert(all == prev.push(candidate_name(stems.last(), k, exts.last())));
        assert forall|i: int| 0 <= i < prev.len() implies #[trigger] all[i] != all[prev.len() as int] by {
            assert(prev.contains(prev[i]));
        }
    }
}

/// Whether `name` occurs in `names`.
fn contains_name(names: &Vec<String>, name: &Vec<char>) -> (r: bool)
    ensures
        r == names@.map_values(|s: String| s@).contains(name@),
{
    let ghost views = names@.map_values(|s: String| s@);
    let mut i: usize = 0;
    while i < names.len()
        invariant
            i <= names.len(),
            views == names@.map_values(|s: String| s@),
            forall|j: int| 0 <= j < i ==> views[j] != name@,
        decreases names.len() - i,
    {
        if same_chars(&chars_of(names[i].as_str()), name) {
            proof {
                assert(views[i as int] == name@);
            }
            return true;
        }
        i = i + 1;
    }
    false
}

fn candidate_vec(stem: &Vec<char>, k: u32, ext: &Vec<char>) -> (r: Vec<char>)
    ensures
        r@ == candidate_name(stem@, k as nat, ext@),
{
    let mut r: Vec<char> = Vec::new();
    extend_chars(&mut r, stem);
    if k != 0 {
        extend_chars(&mut r, &chars_of("_"));
        extend_chars(&mut r, &decimal_vec(k));
    }
    if ext.len() > 0 {
        extend_chars(&mut r, &chars_of("."));
        extend_chars(&mut r, ext);
    }
    proof {
        assert(r@ =~= candidate_name(stem@, k as nat, ext@));
    }
    r
}

/// Chooses a file name for every output: output `i` gets `stems[i]`, then
/// `_1`, `_2`, ... until the name neither exists nor was chosen before,
/// then `.exts[i]` when that extension is not empty.
pub fn assign_output_names(stems: &Vec<String>, exts: &Vec<String>, existing: &Vec<String>) -> (names: Vec<String>)
    requires
        stems.len() == exts.len(),
        existing.len() + stems.len() < u32::MAX,
    ensures
        names@.map_values(|s: String| s@) == planned_names(
            stems@.map_values(|s: String| s@),
            exts@.map_values(|s: String| s@),
            existing@.map_values(|s: String| s@),
        ),
{
    let ghost sv = stems@.map_values(|s: String| s@);
    let ghost ev = exts@.map_values(|s: String| s@);
    let ghost xv = existing@.map_values(|s: String| s@);
    let mut names: Vec<String> = Vec::new();
    let mut i: usize = 0;
    while i < stems.len()
        invariant
            stems.len() == exts.len(),
            existing.len() + stems.len() < u32::MAX,
            i <= stems.len(),
            sv == stems@.map_values(|s: String| s@),
            ev == exts@.map_values(|s: String| s@),
            xv == existing@.map_values(|s: String| s@),
            names@.map_values(|s: String| s@) == planned_names(sv.subrange(0, i as int), ev.subrange(0, i as int), xv),
            names.len() == i,
        decreases stems.len() - i,
    {
        let ghost used = names@.map_values(|s: String| s@);
        let stem = chars_of(stems[i].as_str());
        let ext = chars_of(exts[i].as_str());
        let mut k: u32 = 0;
        let mut cand = candidate_vec(&stem, k, &ext);
        while contains_name(existing, &cand) || contains_name(&names, &cand)
            invariant
                stem@ == sv[i as int],
                ext@ == ev[i as int],
                used == names@.map_values(|s: String| s@),
                xv == existing@.map_values(|s: String| s@),
                used.len() == i,
                i < stems.len(),
                existing.len() + stems.len() < u32::MAX,
                cand@ == candidate_name(stem@, k as nat, ext@),
                forall|j: nat| j < k ==> taken(#[trigger] candidate_name(stem@, j, ext@), xv, used),
            decreases (existing.len() + i) - k,
        {
            proof {
                assert forall|j: nat| j < k + 1 implies taken(#[trigger] candidate_name(stem@, j, ext@), xv, used) by {
                }
                lemma_taken_prefix_bounded(stem@, ext@, xv, used, (k + 1) as nat);
            }
            k = k + 1;
            cand = candidate_vec(&stem, k, &ext);
        }
        proof {
            assert(first_free(stem@, ext@, xv, used, k as nat));
            let ss = sv.subrange(0, i + 1);
            let es = ev.subrange(0, i + 1);
            assert(ss.drop_last() =~= sv.subrange(0, i as int));
            assert(es.drop_last() =~= ev.subrange(0, i as int));
            assert(ss.last() == sv[i as int]);
            assert(es.last() == ev[i as int]);
            let kk = choose|kk: nat| first_free(ss.last(), es.last(), xv, used, kk);
            lemma_first_free_unique(stem@, ext@, xv, used, k as nat, kk);
        }
        names.push(string_of(&cand));
        i = i + 1;
        proof {
            assert(names@.map_values(|s: String| s@) =~= used.push(cand@));
        }
    }
    proof {
        assert(sv.subrange(0, stems.len() as int) =~= sv);
        assert(ev.subrange(0, stems.len() as int) =~= ev);
    }
    names
}

/// Extensions of the outputs, per input.
pub open spec fn plan_exts(inputs: Seq<Seq<char>>, preferred: Option<Seq<char>>) -> Seq<Seq<char>> {
    Seq::new(inputs.len(), |i: int| output_extension_for(inputs[i], preferred))
}

/// Base names of the outputs, per input, for the given dates and times.
pub open spec fn plan_stems(
    inputs: Seq<Seq<char>>,
    preferred: Option<Seq<char>>,
    config: Option<RenameConfig>,
    stamps: Seq<(Seq<char>, Seq<char>)>,
) -> Seq<Seq<char>> {
    Seq::new(
        inputs.len(),
        |i: int| base_name_for(inputs[i], i, output_extension_for(inputs[i], preferred), config, stamps[i].0, stamps[i].1),
    )
}

/// The output file names, in input order.
pub open spec fn plan_file_names(
    inputs: Seq<Seq<char>>,
    preferred: Option<Seq<char>>,
    config: Option<RenameConfig>,
    existing: Seq<Seq<char>>,
    stamps: Seq<(Seq<char>, Seq<char>)>,
) -> Seq<Seq<char>> {
    planned_names(plan_stems(inputs, preferred, config, stamps), plan_exts(inputs, preferred), existing)
}

pub open spec fn text_views(v: Seq<String>) -> Seq<Seq<char>> {
    v.map_values(|s: String| s@)
}

pub open spec fn pair_views(v: Seq<(String, String)>) -> Seq<(Seq<char>, Seq<char>)> {
    v.map_values(|p: (String, String)| (p.0@, p.1@))
}

pub open spec fn opt_text(p: Option<&str>) -> Option<Seq<char>> {
    match p {
        Some(s) => Some(s@),
        None => None,
    }
}

/// `plan` pairs every input with `output_dir` joined to its planned name.
pub open spec fn is_output_plan(
    plan: Seq<(Seq<char>, Seq<char>)>,
    inputs: Seq<Seq<char>>,
    output_dir: Seq<char>,
    preferred: Option<Seq<char>>,
    config: Option<RenameConfig>,
    existing: Seq<Seq<char>>,
    stamps: Seq<(Seq<char>, Seq<char>)>,
) -> bool {
    let names = plan_file_names(inputs, preferred, config, existing, stamps);
    &&& plan.len() == inputs.len()
    &&& forall|i: int| 0 <= i < plan.len() ==> (#[trigger] plan[i]).0 == inputs[i] && plan[i].1 == path_join(output_dir, names[i])
}

/// Plans the output path of every input for given dates and times:
/// `output_dir` joined to the first free name (see `assign_output_names`),
/// where the names in `existing_names` are files already in `output_dir`.
pub fn plan_output_paths_at(
    input_files: &Vec<String>,
    output_dir: &str,
    preferred_extension: Option<&str>,
    rename_config: Option<&RenameConfig>,
    existing_names: &Vec<String>,
    stamps: &Vec<(String, String)>,
) -> (plan: Vec<(String, String)>)
    requires
        stamps.len() == input_files.len(),
        existing_names.len() + input_files.len() < u32::MAX,
    ensures
        is_output_plan(
            pair_views(plan@),
            text_views(input_files@),
            output_dir@,
            opt_text(preferred_extension),
            config_of(rename_config),
            text_views(existing_names@),
            pair_views(stamps@),
        ),
{
    let ghost inputs = text_views(input_files@);
    let ghost pref = opt_text(preferred_extension);
    let ghost cfg = config_of(rename_config);
    let ghost st = pair_views(stamps@);
    let mut stems: Vec<String> = Vec::new();
    let mut exts: Vec<String> = Vec::new();
    let mut i: usize = 0;
    while i < input_files.len()
        invariant
            stamps.len() == input_files.len(),
            i <= input_files.len(),
            inputs == text_views(input_files@),
            pref == opt_text(preferred_extension),
            cfg == config_of(rename_config),
            st == pair_views(stamps@),
            stems.len() == i,
            exts.len() == i,
            text_views(exts@) == plan_exts(inputs, pref).subrange(0, i as int),
            text_views(stems@) == plan_stems(inputs, pref, cfg, st).subrange(0, i as int),
        decreases input_files.len() - i,
    {
        let ext = output_extension(input_files[i].as_str(), preferred_extension);
        let stem = resolve_base_name_at(
            input_files[i].as_str(),
            i,
            ext.as_str(),
            rename_config,
            stamps[i].0.as_str(),
            stamps[i].1.as_str(),
        );
        exts.push(ext);
        stems.push(stem);
        i = i + 1;
        proof {
            assert(text_views(exts@) =~= plan_exts(inputs, pref).subrange(0, i as int));
            assert(text_views(stems@) =~= plan_stems(inputs, pref, cfg, st).subrange(0, i as int));
        }
    }
    proof {
        assert(text_views(exts@) =~= plan_exts(inputs, pref));
        assert(text_views(stems@) =~= plan_stems(inputs, pref, cfg, st));
    }
    let names = assign_output_names(&stems, &exts, existing_names);
    let ghost nv = plan_file_names(inputs, pref, cfg, text_views(existing_names@), st);
    proof {
        lemma_planned_names_unique(plan_stems(inputs, pref, cfg, st), plan_exts(inputs, pref), text_views(existing_names@));
        assert(names@.len() == text_views(names@).len());
    }
    let mut plan: Vec<(String, String)> = Vec::new();
    let mut j: usize = 0;
    while j < names.len()
        invariant
            names.len() == input_files.len(),
            j <= names.len(),
            inputs == text_views(input_files@),
            text_views(names@) == nv,
            plan.len() == j,
            forall|k: int| 0 <= k < j ==> (#[trigger] pair_views(plan@)[k]).0 == inputs[k] && pair_views(plan@)[k].1 == path_join(output_dir@, nv[k]),
        decreases names.len() - j,
    {
        let out = join_text(output_dir, names[j].as_str());
        let ghost before = plan@;
        plan.push((input_files[j].clone(), out));
        proof {
            assert(pair_views(plan@) =~= pair_views(before).push((inputs[j as int], path_join(output_dir@, nv[j as int]))));
        }
        j = j + 1;
    }
    plan
}

/// Reads the local clock once per input (`local_date_time`).
fn stamps_for(n: usize) -> (v: Vec<(String, String)>)
    ensures
        v.len() == n,
        clock_stamps(pair_views(v@)),
{
    let mut v: Vec<(String, String)> = Vec::new();
    let mut i: usize = 0;
    while i < n
        invariant
            i <= n,
            v.len() == i,
            clock_stamps(pair_views(v@)),
        decreases n - i,
    {
        let ghost before = v@;
        v.push(local_date_time());
        proof {
            assert(pair_views(v@) =~= pair_views(before).push((v@[i as int].0@, v@[i as int].1@)));
        }
        i = i + 1;
    }
    v
}

/// Plans the output path of every input: `output_dir` joined to a name that
/// neither exists (`existing_names` lists the files already in
/// `output_dir`) nor is planned for another input. Template names read the
/// local clock.
pub fn plan_output_paths(
    input_files: &Vec<String>,
    output_dir: &str,
    preferred_extension: Option<&str>,
    rename_config: Option<&RenameConfig>,
    existing_names: &Vec<String>,
) -> (plan: Vec<(String, String)>)
    requires
        existing_names.len() + input_files.len() < u32::MAX,
    ensures
        exists|stamps: Seq<(Seq<char>, Seq<char>)>| clock_stamps(stamps) && #[trigger] is_output_plan(
            pair_views(plan@),
            text_views(input_files@),
            output_dir@,
            opt_text(preferred_extension),
            config_of(rename_config),
            text_views(existing_names@),
            stamps,
        ),
        exists|names: Seq<Seq<char>>| {
            &&& names.len() == input_files.len()
            &&& names.no_duplicates()
            &&& forall|i: int| 0 <= i < names.len() ==> !text_views(existing_names@).contains(#[trigger] names[i])
            &&& forall|i: int| 0 <= i < names.len() ==> #[trigger] pair_views(plan@)[i].1 == path_join(output_dir@, names[i])
        },
{
    if input_files.len() == 0 {
        let plan: Vec<(String, String)> = Vec::new();
        proof {
            let st = Seq::<(Seq<char>, Seq<char>)>::empty();
            assert(clock_stamps(st));
            assert(is_output_plan(pair_views(plan@), text_views(input_files@), output_dir@, opt_text(preferred_extension), config_of(rename_config), text_views(existing_names@), st));
            assert(Seq::<Seq<char>>::empty().no_duplicates());
        }
        return plan;
    }
    let stamps = stamps_for(input_files.len());
    let plan = plan_output_paths_at(input_files, output_dir, preferred_extension, rename_config, existing_names, &stamps);
    proof {
        let inputs = text_views(input_files@);
        let pref = opt_text(preferred_extension);
        let cfg = config_of(rename_config);
        let st = pair_views(stamps@);
        let names = plan_file_names(inputs, pref, cfg, text_views(existing_names@), st);
        lemma_planned_names_unique(plan_stems(inputs, pref, cfg, st), plan_exts(inputs, pref), text_views(existing_names@));
        assert(forall|i: int| 0 <= i < names.len() ==> #[trigger] pair_views(plan@)[i].1 == path_join(output_dir@, names[i]));
    }
    plan
}

} // verus!
