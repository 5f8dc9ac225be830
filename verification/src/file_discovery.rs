//! Which files of the given inputs a processor can take.

use vstd::prelude::*;
use crate::crop_runner::{extension_of, extension_of_spec, is_text, output_format_for};
use crate::format_convert::target_format_of;
use crate::processor::ProcessError;
use crate::output_resolver::text_views;
use crate::text::chars_of;
use crate::paths::{path_eq, path_lt, PathOrder, compare_paths};

verus! {

/// One entry found below an input directory.
#[derive(Debug)]
pub struct WalkEntry {
    pub path: String,
    /// 1 for a direct child of the input directory.
    pub depth: usize,
    pub is_file: bool,
}

/// What an input path turned out to be on disk.
#[derive(Debug)]
pub enum InputPathKind {
    File,
    /// A directory, with everything below it (errors already dropped).
    Directory(Vec<WalkEntry>),
    /// Neither a file nor a directory (for instance missing).
    Other,
}

#[derive(Debug)]
pub struct InputPath {
    pub path: String,
    pub kind: InputPathKind,
}

/// Extensions a processor accepts.
pub open spec fn supported_exts(processor_id: Seq<char>) -> Seq<Seq<char>> {
    if processor_id == "format-convert"@ || processor_id == "compress"@ || processor_id == "repair"@ {
        seq!["png"@, "jpg"@, "jpeg"@, "webp"@, "bmp"@, "tiff"@]
    } else {
        seq!["png"@]
    }
}

/// Extensions a processor accepts: PNG only, except for format conversion,
/// compression and repair, which also take JPEG, WebP, BMP and TIFF.
pub fn supported_extensions(processor_id: &str) -> (r: Vec<String>)
    ensures
        text_views(r@) == supported_exts(processor_id@),
{
    let id = chars_of(processor_id);
    let mut r: Vec<String> = Vec::new();
    r.push(String::from_str("png"));
    if is_text(&id, "format-convert") || is_text(&id, "compress") || is_text(&id, "repair") {
        r.push(String::from_str("jpg"));
        r.push(String::from_str("jpeg"));
        r.push(String::from_str("webp"));
        r.push(String::from_str("bmp"));
        r.push(String::from_str("tiff"));
    }
    proof {
        assert(text_views(r@) =~= supported_exts(processor_id@));
    }
    r
}

/// Format conversion, compression and repair discover the files of every
/// format that the tool reads and writes by extension (PNG, JPEG under
/// both names, WebP, BMP and TIFF; the short "tif" is not taken), and
/// every file a conversion writes can be converted again; any other
/// processor discovers PNG files only.
pub proof fn law_discovered_extensions(processor_id: Seq<char>, e: Seq<char>, target: Seq<char>)
    ensures
        (processor_id == "format-convert"@ || processor_id == "compress"@ || processor_id == "repair"@) ==>
            (supported_exts(processor_id).contains(e) <==> (output_format_for(e) is Some && e != "tif"@)),
        !(processor_id == "format-convert"@ || processor_id == "compress"@ || processor_id == "repair"@) ==>
            (supported_exts(processor_id).contains(e) <==> e == "png"@),
        target_format_of(target) matches Some((t, _)) ==> supported_exts("format-convert"@).contains(t),
{
    reveal_strlit("png");
    reveal_strlit("jpg");
    reveal_strlit("jpeg");
    reveal_strlit("webp");
    reveal_strlit("bmp");
    reveal_strlit("tiff");
    reveal_strlit("tif");
    reveal_strlit("format-convert");
    reveal_strlit("compress");
    reveal_strlit("repair");
    let wide = seq!["png"@, "jpg"@, "jpeg"@, "webp"@, "bmp"@, "tiff"@];
    let s = supported_exts(processor_id);
    if processor_id == "format-convert"@ || processor_id == "compress"@ || processor_id == "repair"@ {
        assert(s == wide);
        if s.contains(e) {
            let i = choose|i: int| 0 <= i < s.len() && s[i] == e;
            assert(i == 0 || i == 1 || i == 2 || i == 3 || i == 4 || i == 5);
            assert(e != "tif"@) by {
                if e.len() == 3 {
                    assert(e[0] != "tif"@[0] || e[1] != "tif"@[1]);
                }
            }
        }
        if output_format_for(e) is Some && e != "tif"@ {
            if e == "png"@ { assert(s[0] == e); }
            else if e == "jpg"@ { assert(s[1] == e); }
            else if e == "jpeg"@ { assert(s[2] == e); }
            else if e == "webp"@ { assert(s[3] == e); }
            else if e == "bmp"@ { assert(s[4] == e); }
            else { assert(s[5] == e); }
        }
    } else {
        assert(s == seq!["png"@]);
        if s.contains(e) {
            let i = choose|i: int| 0 <= i < s.len() && s[i] == e;
        }
        if e == "png"@ {
            assert(s[0] == e);
        }
    }
    let fc = supported_exts("format-convert"@);
    assert(fc == wide);
    if let Some((t, _)) = target_format_of(target) {
        if t == "png"@ { assert(fc[0] == t); }
        else if t == "jpg"@ { assert(fc[1] == t); }
        else if t == "webp"@ { assert(fc[3] == t); }
        else if t == "bmp"@ { assert(fc[4] == t); }
        else { assert(fc[5] == t); }
    }
}

/// The path's lower-cased extension is one of `extensions`.
pub open spec fn has_ext(path: Seq<char>, extensions: Seq<Seq<char>>) -> bool {
    match extension_of_spec(path) {
        Some(e) => extensions.contains(e),
        None => false,
    }
}

pub fn has_supported_extension(path: &str, extensions: &Vec<String>) -> (r: bool)
    ensures
        r == has_ext(path@, text_views(extensions@)),
{
    match extension_of(path) {
        None => false,
        Some(e) => {
            assert(extension_of_spec(path@) == Some(e@));
            let ev = chars_of(e.as_str());
            let ghost views = text_views(extensions@);
            let mut i: usize = 0;
            while i < extensions.len()
                invariant
                    i <= extensions.len(),
                    views == text_views(extensions@),
                    ev@ == e@,
                    extension_of_spec(path@) == Some(e@),
                    forall|j: int| 0 <= j < i ==> views[j] != ev@,
                decreases extensions.len() - i,
            {
                if is_text(&ev, extensions[i].as_str()) {
                    proof {
                        assert(views[i as int] == ev@);
                        assert(views.contains(ev@));
                        assert(views.contains(e@));
                    }
                    return true;
                }
                i = i + 1;
            }
            proof {
                assert(!views.contains(ev@));
            }
            false
        },
    }
}

/// An entry below a directory is taken when it is a file at depth 1, or at
/// any depth when subdirectories are included, with a supported extension.
pub open spec fn entry_selected(e: WalkEntry, extensions: Seq<Seq<char>>, include_subdirectories: bool) -> bool {
    &&& e.is_file
    &&& e.depth >= 1
    &&& (include_subdirectories || e.depth <= 1)
    &&& has_ext(e.path@, extensions)
}

pub open spec fn selected_in_dir(entries: Seq<WalkEntry>, extensions: Seq<Seq<char>>, include_subdirectories: bool) -> Seq<Seq<char>>
    decreases entries.len(),
{
    if entries.len() == 0 {
        Seq::empty()
    } else {
        let prev = selected_in_dir(entries.drop_last(), extensions, include_subdirectories);
        if entry_selected(entries.last(), extensions, include_subdirectories) {
            prev.push(entries.last().path@)
        } else {
            prev
        }
    }
}

/// Candidate files of the inputs, in walking order, before sorting.
pub open spec fn selected_files(inputs: Seq<InputPath>, extensions: Seq<Seq<char>>, include_subdirectories: bool) -> Seq<Seq<char>>
    decreases inputs.len(),
{
    if inputs.len() == 0 {
        Seq::empty()
    } else {
        let prev = selected_files(inputs.drop_last(), extensions, include_subdirectories);
        let last = inputs.last();
        match last.kind {
            InputPathKind::File => if has_ext(last.path@, extensions) {
                prev.push(last.path@)
            } else {
                prev
            },
            InputPathKind::Directory(entries) => prev + selected_in_dir(entries@, extensions, include_subdirectories),
            InputPathKind::Other => prev,
        }
    }
}

/// `s` is strictly ascending in path order, no two of its paths equal as
/// paths.
pub open spec fn sorted_paths(s: Seq<Seq<char>>) -> bool {
    forall|i: int, j: int| 0 <= i < j < s.len() ==> path_lt(#[trigger] s[i], #[trigger] s[j]) && !path_eq(s[i], s[j])
}

/// Each of the first `n` given paths is listed, or equals a listed one as
/// a path.
pub open spec fn covers(out: Seq<Seq<char>>, given: Seq<Seq<char>>, n: int) -> bool {
    forall|k: int| #![trigger given[k]] 0 <= k < n ==>
        exists|i: int| #![trigger out[i]] 0 <= i < out.len() && (given[k] == out[i] || path_eq(given[k], out[i]))
}

/// Each listed path is one of the first `n` given paths, and the first of
/// them that equals it as a path.
pub open spec fn first_kept(out: Seq<Seq<char>>, given: Seq<Seq<char>>, n: int) -> bool {
    forall|i: int| #![trigger out[i]] 0 <= i < out.len() ==>
        exists|k: int| #![trigger given[k]] 0 <= k < n && given[k] == out[i]
            && forall|j: int| #![trigger given[j]] 0 <= j < k ==> !path_eq(given[j], out[i])
}

/// `out` lists the paths of `given` as a set of paths does: strictly
/// ascending in path order, no two of them equal as paths, every given
/// path listed or equal to a listed one, and every listed path the first
/// given path that equals it.
pub open spec fn sorted_path_set(out: Seq<Seq<char>>, given: Seq<Seq<char>>) -> bool {
    &&& out.no_duplicates()
    &&& sorted_paths(out)
    &&& covers(out, given, given.len() as int)
    &&& first_kept(out, given, given.len() as int)
}

/// `p` is not in `s` and equals none of its paths, and inserting it at
/// `pos` keeps `s` in path order.
pub open spec fn fits_at(s: Seq<Seq<char>>, p: Seq<char>, pos: int) -> bool {
    &&& 0 <= pos <= s.len()
    &&& forall|j: int| 0 <= j < s.len() ==> p != #[trigger] s[j] && !path_eq(p, s[j]) && !path_eq(s[j], p)
        && forall|c: Seq<char>| #[trigger] path_eq(c, s[j]) ==> !path_eq(c, p)
    &&& forall|j: int| 0 <= j < pos ==> path_lt(#[trigger] s[j], p)
    &&& forall|j: int| pos <= j < s.len() ==> path_lt(p, #[trigger] s[j])
}

/// Where `p` goes in the sorted list `out`: `Err(i)` when it equals the
/// path at `i` as a path, else `Ok(pos)`, the place that keeps the list
/// sorted.
fn place_path(out: &Vec<String>, p: &str) -> (r: Result<usize, usize>)
    requires
        sorted_paths(text_views(out@)),
    ensures
        r matches Err(i) ==> i < out@.len() && path_eq(p@, out@[i as int]@),
        r matches Ok(pos) ==> fits_at(text_views(out@), p@, pos as int),
{
    let ghost s = text_views(out@);
    let mut pos: usize = 0;
    let mut found = false;
    let mut j: usize = 0;
    while j < out.len()
        invariant
            s == text_views(out@),
            sorted_paths(s),
            j <= out@.len(),
            pos <= j,
            !found ==> pos == j,
            found ==> pos < j,
            forall|i: int| 0 <= i < j ==> p@ != #[trigger] s[i] && !path_eq(p@, s[i]) && !path_eq(s[i], p@)
                && forall|c: Seq<char>| #[trigger] path_eq(c, s[i]) ==> !path_eq(c, p@),
            forall|i: int| 0 <= i < pos ==> path_lt(#[trigger] s[i], p@),
            forall|i: int| pos <= i < j ==> path_lt(p@, #[trigger] s[i]) && !path_lt(s[i], p@),
        decreases out@.len() - j,
    {
        let c = compare_paths(p, out[j].as_str());
        proof {
            assert(s[j as int] == out@[j as int]@);
        }
        match c {
            PathOrder::Equal => {
                return Err(j);
            },
            PathOrder::Greater => {
                if found {
                    proof {
                        assert(path_lt(s[pos as int], s[j as int]));
                        assert(path_lt(s[pos as int], p@));
                        assert(false);
                    }
                }
                pos = j + 1;
            },
            PathOrder::Less => {
                found = true;
            },
        }
        j = j + 1;
    }
    Ok(pos)
}

/// Sorts the paths by `Path` order and keeps, of several paths equal as
/// paths, the first given, as a `BTreeSet<PathBuf>` filled in the given
/// order and listed would.
fn sorted_unique_paths(paths: Vec<String>) -> (r: Vec<String>)
    ensures
        sorted_path_set(text_views(r@), text_views(paths@)),
{
    let ghost g = text_views(paths@);
    let mut out: Vec<String> = Vec::new();
    let mut n: usize = 0;
    while n < paths.len()
        invariant
            g == text_views(paths@),
            n <= paths@.len(),
            text_views(out@).no_duplicates(),
            sorted_paths(text_views(out@)),
            covers(text_views(out@), g, n as int),
            first_kept(text_views(out@), g, n as int),
        decreases paths@.len() - n,
    {
        let ghost o = text_views(out@);
        let ghost p = g[n as int];
        proof {
            assert(paths@[n as int]@ == p);
        }
        match place_path(&out, paths[n].as_str()) {
            Err(at) => {
                proof {
                    lemma_skip_keeps_set(o, g, n as int, at as int);
                }
            },
            Ok(pos) => {
                out.insert(pos, paths[n].clone());
                proof {
                    lemma_insert_keeps_set(o, g, n as int, pos as int);
                    assert(text_views(out@) =~= o.insert(pos as int, p));
                }
            },
        }
        n = n + 1;
    }
    out
}

/// A given path equal to a listed one leaves the listing as it is, and it
/// is still a sorted set of the given paths so far.
proof fn lemma_skip_keeps_set(o: Seq<Seq<char>>, g: Seq<Seq<char>>, n: int, at: int)
    requires
        0 <= n < g.len(),
        0 <= at < o.len(),
        path_eq(g[n], o[at]),
        covers(o, g, n),
        first_kept(o, g, n),
    ensures
        covers(o, g, n + 1),
        first_kept(o, g, n + 1),
{
    assert forall|k: int| #![trigger g[k]] 0 <= k < n + 1 implies
        exists|i: int| #![trigger o[i]] 0 <= i < o.len() && (g[k] == o[i] || path_eq(g[k], o[i])) by {
        if k == n {
            assert(path_eq(g[k], o[at]));
        }
    }
    assert forall|i: int| #![trigger o[i]] 0 <= i < o.len() implies
        exists|k: int| #![trigger g[k]] 0 <= k < n + 1 && g[k] == o[i]
            && forall|j: int| #![trigger g[j]] 0 <= j < k ==> !path_eq(g[j], o[i]) by {
        let k = choose|k: int| #![trigger g[k]] 0 <= k < n && g[k] == o[i]
            && forall|j: int| #![trigger g[j]] 0 <= j < k ==> !path_eq(g[j], o[i]);
        assert(g[k] == o[i]);
    }
}

/// Inserting the next given path where it fits keeps the listing a sorted
/// set of the given paths so far.
proof fn lemma_insert_keeps_set(o: Seq<Seq<char>>, g: Seq<Seq<char>>, n: int, pos: int)
    requires
        0 <= n < g.len(),
        o.no_duplicates(),
        sorted_paths(o),
        fits_at(o, g[n], pos),
        covers(o, g, n),
        first_kept(o, g, n),
    ensures
        o.insert(pos, g[n]).no_duplicates(),
        sorted_paths(o.insert(pos, g[n])),
        covers(o.insert(pos, g[n]), g, n + 1),
        first_kept(o.insert(pos, g[n]), g, n + 1),
{
    let p = g[n];
    let o2 = o.insert(pos, p);
    assert(o2.len() == o.len() + 1);
    assert forall|i: int| 0 <= i < o2.len() implies #[trigger] o2[i] == (if i < pos { o[i] } else if i == pos { p } else { o[i - 1] }) by {}
    assert forall|a: int, b: int| 0 <= a < b < o2.len() implies o2[a] != o2[b] by {
        if a == pos {
            assert(o2[b] == o[b - 1]);
        } else if b == pos {
            assert(o2[a] == o[a]);
        } else {
            let a0 = if a < pos { a } else { a - 1 };
            let b0 = if b < pos { b } else { b - 1 };
            assert(o2[a] == o[a0] && o2[b] == o[b0] && a0 != b0);
        }
    }
    assert forall|a: int, b: int| 0 <= a < b < o2.len() implies path_lt(#[trigger] o2[a], #[trigger] o2[b]) && !path_eq(o2[a], o2[b]) by {
        if a == pos {
            assert(o2[b] == o[b - 1]);
            assert(path_lt(p, o[b - 1]));
        } else if b == pos {
            assert(o2[a] == o[a]);
            assert(path_lt(o[a], p));
        } else {
            let a0 = if a < pos { a } else { a - 1 };
            let b0 = if b < pos { b } else { b - 1 };
            assert(o2[a] == o[a0] && o2[b] == o[b0] && a0 < b0);
            assert(path_lt(o[a0], o[b0]) && !path_eq(o[a0], o[b0]));
        }
    }
    assert forall|k: int| #![trigger g[k]] 0 <= k < n + 1 implies
        exists|i: int| #![trigger o2[i]] 0 <= i < o2.len() && (g[k] == o2[i] || path_eq(g[k], o2[i])) by {
        if k == n {
            assert(o2[pos] == p);
        } else {
            let i = choose|i: int| #![trigger o[i]] 0 <= i < o.len() && (g[k] == o[i] || path_eq(g[k], o[i]));
            let i2 = if i < pos { i } else { i + 1 };
            assert(o2[i2] == o[i]);
        }
    }
    assert forall|i: int| #![trigger o2[i]] 0 <= i < o2.len() implies
        exists|k: int| #![trigger g[k]] 0 <= k < n + 1 && g[k] == o2[i]
            && forall|j: int| #![trigger g[j]] 0 <= j < k ==> !path_eq(g[j], o2[i]) by {
        if i == pos {
            assert forall|j: int| #![trigger g[j]] 0 <= j < n implies !path_eq(g[j], p) by {
                let m = choose|m: int| #![trigger o[m]] 0 <= m < o.len() && (g[j] == o[m] || path_eq(g[j], o[m]));
                assert(!path_eq(o[m], p));
                if path_eq(g[j], o[m]) {
                    assert(!path_eq(g[j], p));
                }
            }
            assert(g[n] == o2[i]);
        } else {
            let i0 = if i < pos { i } else { i - 1 };
            assert(o2[i] == o[i0]);
            let k = choose|k: int| #![trigger g[k]] 0 <= k < n && g[k] == o[i0]
                && forall|j: int| #![trigger g[j]] 0 <= j < k ==> !path_eq(g[j], o[i0]);
            assert(g[k] == o2[i]);
        }
    }
}

/// The files to process: every supported file given directly, and every
/// supported file found below a given directory (only its direct children
/// unless subdirectories are included), sorted and without duplicates.
pub fn discover_files(input_paths: &Vec<InputPath>, processor_id: &str, include_subdirectories: bool) -> (r: Result<Vec<String>, ProcessError>)
    ensures
        input_paths.len() == 0 ==> (r matches Err(ProcessError::Validation(m)) && m@ == "未提供任何输入路径。"@),
        input_paths.len() > 0 && selected_files(input_paths@, supported_exts(processor_id@), include_subdirectories).len() == 0
            ==> (r matches Err(ProcessError::Validation(m)) && m@ == "未找到可处理的图片文件。"@),
        input_paths.len() > 0 && selected_files(input_paths@, supported_exts(processor_id@), include_subdirectories).len() > 0
            ==> (r matches Ok(files)
                && sorted_path_set(text_views(files@), selected_files(input_paths@, supported_exts(processor_id@), include_subdirectories))),
{
    if input_paths.len() == 0 {
        return Err(ProcessError::Validation(String::from_str("未提供任何输入路径。")));
    }
    let extensions = supported_extensions(processor_id);
    let ghost exts = text_views(extensions@);
    let mut files: Vec<String> = Vec::new();
    let mut i: usize = 0;
    while i < input_paths.len()
        invariant
            i <= input_paths.len(),
            exts == text_views(extensions@),
            exts == supported_exts(processor_id@),
            text_views(files@) == selected_files(input_paths@.subrange(0, i as int), exts, include_subdirectories),
        decreases input_paths.len() - i,
    {
        let input = &input_paths[i];
        proof {
            assert(input_paths@.subrange(0, i + 1).drop_last() =~= input_paths@.subrange(0, i as int));
        }
        match &input.kind {
            InputPathKind::File => {
                if has_supported_extension(input.path.as_str(), &extensions) {
                    files.push(input.path.clone());
                    proof {
                        assert(text_views(files@) =~= selected_files(input_paths@.subrange(0, i + 1), exts, include_subdirectories));
                    }
                }
            },
            InputPathKind::Directory(entries) => {
                let ghost before = text_views(files@);
                let mut k: usize = 0;
                while k < entries.len()
                    invariant
                        k <= entries.len(),
                        exts == text_views(extensions@),
                        text_views(files@) == before + selected_in_dir(entries@.subrange(0, k as int), exts, include_subdirectories),
                    decreases entries.len() - k,
                {
                    let e = &entries[k];
                    proof {
                        assert(entries@.subrange(0, k + 1).drop_last() =~= entries@.subrange(0, k as int));
                        assert(entries@.subrange(0, k + 1).last() == entries@[k as int]);
                        assert(selected_in_dir(entries@.subrange(0, k + 1), exts, include_subdirectories) == (if entry_selected(entries@[k as int], exts, include_subdirectories) {
                            selected_in_dir(entries@.subrange(0, k as int), exts, include_subdirectories).push(entries@[k as int].path@)
                        } else {
                            selected_in_dir(entries@.subrange(0, k as int), exts, include_subdirectories)
                        }));
                    }
                    if e.is_file && e.depth >= 1 && (include_subdirectories || e.depth <= 1)
                        && has_supported_extension(e.path.as_str(), &extensions) {
                        let ghost f0 = files@;
                        files.push(e.path.clone());
                        proof {
                            assert(entry_selected(entries@[k as int], exts, include_subdirectories));
                            assert(text_views(files@) =~= text_views(f0).push(e.path@));
                            assert(text_views(files@) =~= before + selected_in_dir(entries@.subrange(0, k + 1), exts, include_subdirectories));
                        }
                    }
                    k = k + 1;
                }
                proof {
                    assert(entries@.subrange(0, entries@.len() as int) =~= entries@);
                }
            },
            InputPathKind::Other => {},
        }
        i = i + 1;
    }
    proof {
        assert(input_paths@.subrange(0, input_paths@.len() as int) =~= input_paths@);
    }
    if files.len() == 0 {
        return Err(ProcessError::Validation(String::from_str("未找到可处理的图片文件。")));
    }
    Ok(sorted_unique_paths(files))
}

} // verus!
