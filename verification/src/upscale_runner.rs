//! Where the upscaling engine's model files are looked for, and the
//! decisions around preparing them next to the executable.

use vstd::prelude::*;
use crate::paths::{path_join, path_ancestors, join_text, ancestors_text};
use crate::processor::{ErrorKind, ProcessError, error_view};

verus! {

/// `base/a/b`.
pub open spec fn join2(base: Seq<char>, a: Seq<char>, b: Seq<char>) -> Seq<char> {
    path_join(path_join(base, a), b)
}

/// `base/a/b/c`.
pub open spec fn join3(base: Seq<char>, a: Seq<char>, b: Seq<char>, c: Seq<char>) -> Seq<char> {
    path_join(join2(base, a, b), c)
}

/// The places below some ancestors: `src-tauri/binaries/models-se`, then
/// `binaries/models-se`, for each ancestor in turn.
pub open spec fn ancestor_candidates(ancestors: Seq<Seq<char>>) -> Seq<Seq<char>>
    decreases ancestors.len(),
{
    if ancestors.len() == 0 {
        Seq::empty()
    } else {
        let a = ancestors.last();
        ancestor_candidates(ancestors.drop_last()).push(join3(a, "src-tauri"@, "binaries"@, "models-se"@))
            .push(join2(a, "binaries"@, "models-se"@))
    }
}

/// The places searched for the model directory, in order: two below the
/// bundle's resources, then two below each of the first five ancestors of
/// the executable's directory.
pub open spec fn models_candidates(exe_dir: Seq<char>) -> Seq<Seq<char>> {
    let ancestors = path_ancestors(exe_dir);
    let first = if ancestors.len() < 5 { ancestors.len() as int } else { 5 };
    seq![join3(exe_dir, "resources"@, "binaries"@, "models-se"@), join2(exe_dir, "resources"@, "models-se"@)]
        + ancestor_candidates(ancestors.take(first))
}

pub fn models_source_candidates(exe_dir: &str) -> (r: Vec<String>)
    ensures
        r@.map_values(|s: String| s@) == models_candidates(exe_dir@),
{
    let mut r: Vec<String> = Vec::new();
    let res = join_text(exe_dir, "resources");
    let res_bin = join_text(res.as_str(), "binaries");
    r.push(join_text(res_bin.as_str(), "models-se"));
    r.push(join_text(res.as_str(), "models-se"));
    let ancestors = ancestors_text(exe_dir, 5);
    let ghost anc = ancestors@.map_values(|s: String| s@);
    let ghost head = r@.map_values(|s: String| s@);
    proof {
        assert(head =~= seq![join3(exe_dir@, "resources"@, "binaries"@, "models-se"@), join2(exe_dir@, "resources"@, "models-se"@)]);
        assert(anc.take(0) =~= Seq::<Seq<char>>::empty());
        assert(r@.map_values(|s: String| s@) =~= head + ancestor_candidates(anc.take(0)));
    }
    let mut i: usize = 0;
    while i < ancestors.len()
        invariant
            i <= ancestors@.len(),
            anc == ancestors@.map_values(|s: String| s@),
            r@.map_values(|s: String| s@) == head + ancestor_candidates(anc.take(i as int)),
        decreases ancestors.len() - i,
    {
        let a = ancestors[i].as_str();
        let src = join_text(a, "src-tauri");
        let src_bin = join_text(src.as_str(), "binaries");
        let ghost before = r@;
        let p1 = join_text(src_bin.as_str(), "models-se");
        let ghost v1 = p1@;
        r.push(p1);
        let bin = join_text(a, "binaries");
        let p2 = join_text(bin.as_str(), "models-se");
        let ghost v2 = p2@;
        r.push(p2);
        proof {
            assert(a@ == anc[i as int]);
            assert(v1 == join3(anc[i as int], "src-tauri"@, "binaries"@, "models-se"@));
            assert(v2 == join2(anc[i as int], "binaries"@, "models-se"@));
            assert(r@.map_values(|s: String| s@) =~= before.map_values(|s: String| s@).push(v1).push(v2));
            assert(anc.take(i + 1).drop_last() =~= anc.take(i as int));
            assert(anc.take(i + 1).last() == anc[i as int]);
            assert(r@.map_values(|s: String| s@) =~= head + ancestor_candidates(anc.take(i + 1)));
        }
        i = i + 1;
    }
    proof {
        assert(anc.take(i as int) =~= anc);
    }
    r
}

/// The first candidate that is present (`present[i]` tells whether
/// `candidates[i]` exists).
pub open spec fn first_present(candidates: Seq<Seq<char>>, present: Seq<bool>) -> Option<int> {
    if exists|i: int| 0 <= i < candidates.len() && i < present.len() && #[trigger] present[i] {
        Some(choose|i: int| 0 <= i < candidates.len() && i < present.len() && #[trigger] present[i]
            && forall|j: int| 0 <= j < i ==> !#[trigger] present[j])
    } else {
        None
    }
}

/// Picks where the model directory is copied from.
pub fn find_models_source(candidates: &Vec<String>, present: &Vec<bool>) -> (r: Option<String>)
    ensures
        match first_present(candidates@.map_values(|s: String| s@), present@) {
            Some(i) => r matches Some(p) && p@ == candidates@[i]@,
            None => r is None,
        },
{
    let ghost cs = candidates@.map_values(|s: String| s@);
    let mut i: usize = 0;
    while i < candidates.len() && i < present.len()
        invariant
            cs == candidates@.map_values(|s: String| s@),
            i <= candidates@.len(),
            forall|j: int| 0 <= j < i && j < present@.len() ==> !#[trigger] present@[j],
        decreases candidates.len() - i,
    {
        if present[i] {
            proof {
                let k = choose|k: int| 0 <= k < cs.len() && k < present@.len() && #[trigger] present@[k]
                    && forall|j: int| 0 <= j < k ==> !#[trigger] present@[j];
                if k < i {
                    assert(!present@[k]);
                } else if k > i {
                    assert(present@[i as int]);
                }
            }
            return Some(candidates[i].clone());
        }
        i = i + 1;
    }
    None
}

/// The error when no model directory can be found.
pub open spec fn models_missing_message() -> Seq<char> {
    "未找到 models-se，请将模型目录放在可执行文件同级目录，或放在 src-tauri/binaries/models-se。"@
}

/// What preparing the model directory does: nothing when it is already
/// next to the executable, else copy it from the source found, else fail.
pub fn models_dir_action(target_exists: bool, source: Option<String>) -> (r: Result<Option<String>, ProcessError>)
    ensures
        target_exists ==> r matches Ok(None),
        !target_exists ==> match source {
            Some(s) => r matches Ok(Some(t)) && t@ == s@,
            None => r matches Err(e) && error_view(e) == (ErrorKind::Internal, models_missing_message()),
        },
{
    if target_exists {
        return Ok(None);
    }
    match source {
        Some(s) => Ok(Some(s)),
        None => Err(ProcessError::Internal(String::from_str(
            "未找到 models-se，请将模型目录放在可执行文件同级目录，或放在 src-tauri/binaries/models-se。",
        ))),
    }
}

/// After copying, the model directory must be there.
pub fn check_models_copied(target_exists: bool) -> (r: Result<(), ProcessError>)
    ensures
        target_exists <==> r is Ok,
        r matches Err(e) ==> error_view(e) == (ErrorKind::Internal, "模型目录复制失败，请检查 models-se 目录是否完整。"@),
{
    if target_exists {
        Ok(())
    } else {
        Err(ProcessError::Internal(String::from_str("模型目录复制失败，请检查 models-se 目录是否完整。")))
    }
}

} // verus!
