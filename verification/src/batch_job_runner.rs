//! The decisions of a batch job: which steps run, which files, under which
//! names, what each step of each file leads to, and what the job reports.
//! Running the processors, the threads and the clock are outside; they
//! hand their results to the functions here.

use vstd::prelude::*;
use crate::file_discovery::{InputPath, discover_files, selected_files, supported_exts};
use crate::format_convert::target_format_of;
use crate::ordering::{sort_by_text_key, sorted_by_key, stable_rearrangement};
use crate::output_resolver::{RenameConfig, plan_output_paths, is_output_plan, text_views, pair_views, opt_text, config_of};
use crate::paths::{path_extension, path_file_stem, path_join, extension_text, file_stem_text, join_text};
use crate::processor::{ErrorKind, ProcessError, ProcessResult, ProcessStatus, error_view, user_message_spec};
use crate::registry::{ProcessorKind, ProcessorParams, ProcessorRegistry, kind_id, params_problem};
use crate::report::{BatchItemReport, BatchItemStatus, BatchJobReport, BatchStepReport};
use crate::text::{
    CharClass, trim, trim_start, lower, take_chars, decimal, chars_of, trim_vec, trim_start_vec, lower_vec,
    take_vec, string_of, extend_chars, decimal_vec_u64, same_text,
};

verus! {

/// One step of a workflow. `params` holds the parsed parameters, or the
/// text of the error met while parsing them.
#[derive(Debug)]
pub struct WorkflowStep {
    pub step_id: String,
    pub processor_id: String,
    pub params: Result<ProcessorParams, String>,
}

/// A batch job as requested: a single processor with its parameters, or a
/// workflow of steps (which then wins).
#[derive(Debug)]
pub struct BatchJobRequest {
    pub job_id: String,
    pub processor_id: String,
    pub input_paths: Vec<InputPath>,
    pub output_dir: String,
    pub params: Result<ProcessorParams, String>,
    pub workflow_steps: Vec<WorkflowStep>,
    pub rename_config: Option<RenameConfig>,
    pub max_concurrency: Option<usize>,
    pub include_subdirectories: bool,
}

/// The extension a step fixes for its output: only format conversion does,
/// with the extension of its target format.
pub open spec fn step_extension_parts(processor_id: Seq<char>, params: Result<ProcessorParams, String>) -> Option<Seq<char>> {
    if processor_id != "format-convert"@ {
        None
    } else {
        match params {
            Ok(ProcessorParams::FormatConvert(f)) => match target_format_of(f.target_format@) {
                Some((ext, _)) => Some(ext),
                None => None,
            },
            _ => None,
        }
    }
}

pub open spec fn step_extension(step: WorkflowStep) -> Option<Seq<char>> {
    step_extension_parts(step.processor_id@, step.params)
}

pub fn preferred_extension_for_step(step: &WorkflowStep) -> (r: Option<String>)
    ensures
        r.deep_view() == step_extension(*step),
{
    if !crate::crop_runner::is_text(&chars_of(step.processor_id.as_str()), "format-convert") {
        return None;
    }
    match &step.params {
        Ok(ProcessorParams::FormatConvert(f)) => match crate::format_convert::parse_target_format(f.target_format.as_str()) {
            Some((ext, _)) => Some(ext),
            None => None,
        },
        _ => None,
    }
}

/// The extension fixed by the last step that fixes one.
pub open spec fn steps_extension(steps: Seq<WorkflowStep>) -> Option<Seq<char>>
    decreases steps.len(),
{
    if steps.len() == 0 {
        None
    } else {
        match step_extension(steps.last()) {
            Some(e) => Some(e),
            None => steps_extension(steps.drop_last()),
        }
    }
}

pub fn preferred_extension_for_steps(steps: &Vec<WorkflowStep>) -> (r: Option<String>)
    ensures
        r.deep_view() == steps_extension(steps@),
{
    let mut i: usize = steps.len();
    proof {
        assert(steps@.subrange(0, i as int) =~= steps@);
    }
    while i > 0
        invariant
            i <= steps.len(),
            steps_extension(steps@) == steps_extension(steps@.subrange(0, i as int)),
        decreases i,
    {
        let e = preferred_extension_for_step(&steps[i - 1]);
        proof {
            let s = steps@.subrange(0, i as int);
            assert(s.last() == steps@[i - 1]);
            assert(s.drop_last() =~= steps@.subrange(0, i - 1));
        }
        if e.is_some() {
            return e;
        }
        i = i - 1;
    }
    proof {
        assert(steps@.subrange(0, 0) =~= Seq::<WorkflowStep>::empty());
    }
    None
}

/// The steps that run: the workflow when one is given, else a single step
/// of the requested processor with the request's parameters.
pub fn resolve_effective_steps(
    processor_id: &str,
    params: Result<ProcessorParams, String>,
    workflow_steps: Vec<WorkflowStep>,
) -> (r: Vec<WorkflowStep>)
    ensures
        workflow_steps@.len() > 0 ==> r@ == workflow_steps@,
        workflow_steps@.len() == 0 ==> r@.len() == 1 && r@[0].step_id@ == "legacy-step-1"@
            && r@[0].processor_id@ == processor_id@ && r@[0].params == params,
{
    if workflow_steps.len() > 0 {
        return workflow_steps;
    }
    let mut r: Vec<WorkflowStep> = Vec::new();
    r.push(WorkflowStep {
        step_id: String::from_str("legacy-step-1"),
        processor_id: String::from_str(processor_id),
        params,
    });
    r
}

/// The error of one step, given by its processor id and parameters, if
/// any: an empty processor id, an unknown one, parameters that did not
/// parse, or parameters the processor refuses.
pub open spec fn step_problem_parts(
    processor_id: Seq<char>,
    params: Result<ProcessorParams, String>,
    registry: ProcessorRegistry,
) -> Option<(ErrorKind, Seq<char>)> {
    if trim(processor_id, CharClass::WhiteSpace).len() == 0 {
        Some((ErrorKind::Validation, "工作流存在空处理器标识。"@))
    } else {
        match registry.lookup(processor_id) {
            None => Some((ErrorKind::Validation, "处理器不存在或未注册: "@ + processor_id)),
            Some(k) => match params {
                Err(m) => Some((ErrorKind::Json, m@)),
                Ok(p) => match params_problem(k, p) {
                    Some(m) => Some((ErrorKind::Validation, m)),
                    None => None,
                },
            },
        }
    }
}

pub open spec fn step_problem(step: WorkflowStep, registry: ProcessorRegistry) -> Option<(ErrorKind, Seq<char>)> {
    step_problem_parts(step.processor_id@, step.params, registry)
}

/// The error of the first step that has one.
pub open spec fn steps_problem(steps: Seq<WorkflowStep>, registry: ProcessorRegistry) -> Option<(ErrorKind, Seq<char>)>
    decreases steps.len(),
{
    if steps.len() == 0 {
        None
    } else {
        match steps_problem(steps.drop_last(), registry) {
            Some(e) => Some(e),
            None => step_problem(steps.last(), registry),
        }
    }
}

proof fn lemma_steps_problem_extends(all: Seq<WorkflowStep>, n: int, registry: ProcessorRegistry)
    requires
        0 <= n <= all.len(),
        steps_problem(all.subrange(0, n), registry) is Some,
    ensures
        steps_problem(all, registry) == steps_problem(all.subrange(0, n), registry),
    decreases all.len() - n,
{
    if n < all.len() {
        assert(all.subrange(0, n + 1).drop_last() =~= all.subrange(0, n));
        lemma_steps_problem_extends(all, n + 1, registry);
    } else {
        assert(all.subrange(0, n) =~= all);
    }
}

fn validate_step(step: &WorkflowStep, registry: &ProcessorRegistry) -> (r: Result<(), ProcessError>)
    requires
        registry.wf(),
    ensures
        r is Ok <==> step_problem(*step, *registry) is None,
        r matches Err(e) ==> Some(error_view(e)) == step_problem(*step, *registry),
{
    let id = trim_vec(&chars_of(step.processor_id.as_str()), CharClass::WhiteSpace);
    if id.len() == 0 {
        return Err(ProcessError::Validation(String::from_str("工作流存在空处理器标识。")));
    }
    match registry.get(step.processor_id.as_str()) {
        None => {
            let mut m = chars_of("处理器不存在或未注册: ");
            extend_chars(&mut m, &chars_of(step.processor_id.as_str()));
            Err(ProcessError::Validation(string_of(&m)))
        },
        Some(k) => match &step.params {
            Err(m) => Err(ProcessError::Json(m.clone())),
            Ok(p) => k.validate(p),
        },
    }
}

/// Checks the steps in order and reports the first error.
pub fn validate_steps(steps: &Vec<WorkflowStep>, registry: &ProcessorRegistry) -> (r: Result<(), ProcessError>)
    requires
        registry.wf(),
    ensures
        steps@.len() == 0 ==> (r matches Err(e) && error_view(e) == (ErrorKind::Validation, "工作流步骤不能为空。"@)),
        steps@.len() > 0 ==> (r is Ok <==> steps_problem(steps@, *registry) is None),
        steps@.len() > 0 ==> (r matches Err(e) ==> Some(error_view(e)) == steps_problem(steps@, *registry)),
{
    if steps.len() == 0 {
        return Err(ProcessError::Validation(String::from_str("工作流步骤不能为空。")));
    }
    let mut i: usize = 0;
    while i < steps.len()
        invariant
            registry.wf(),
            i <= steps@.len(),
            steps_problem(steps@.subrange(0, i as int), *registry) is None,
        decreases steps.len() - i,
    {
        proof {
            assert(steps@.subrange(0, i + 1).drop_last() =~= steps@.subrange(0, i as int));
        }
        match validate_step(&steps[i], registry) {
            Err(e) => {
                proof {
                    lemma_steps_problem_extends(steps@, i + 1, *registry);
                }
                return Err(e);
            },
            Ok(()) => {},
        }
        i = i + 1;
    }
    proof {
        assert(steps@.subrange(0, steps@.len() as int) =~= steps@);
    }
    Ok(())
}

/// The extension of an input used for intermediate files: its own,
/// trimmed, without leading dots, lower-cased; "png" when there is none.
pub open spec fn extension_for_path_spec(path: Seq<char>) -> Seq<char> {
    match path_extension(path) {
        Some(e) => {
            let t = lower(trim_start(trim(e, CharClass::WhiteSpace), CharClass::Exactly('.')));
            if t.len() == 0 { "png"@ } else { t }
        },
        None => "png"@,
    }
}

pub fn extension_for_path(path: &str) -> (r: String)
    ensures
        r@ == extension_for_path_spec(path@),
{
    match extension_text(path) {
        Some(e) => {
            let t = lower_vec(&trim_start_vec(&trim_vec(&chars_of(e.as_str()), CharClass::WhiteSpace), CharClass::Exactly('.')));
            if t.len() == 0 {
                String::from_str("png")
            } else {
                string_of(&t)
            }
        },
        None => String::from_str("png"),
    }
}

/// ASCII letters, digits, '-' and '_' are kept; anything else becomes '_'.
pub open spec fn fragment_char(c: char) -> char {
    if ('a' <= c && c <= 'z') || ('A' <= c && c <= 'Z') || ('0' <= c && c <= '9') || c == '-' || c == '_' {
        c
    } else {
        '_'
    }
}

/// A file-name fragment: mapped by `fragment_char`, stripped of '_' at
/// both ends, cut to 40 characters; "item" when nothing is left.
pub open spec fn sanitized_fragment(raw: Seq<char>) -> Seq<char> {
    let t = trim(raw.map_values(|c: char| fragment_char(c)), CharClass::Exactly('_'));
    if t.len() == 0 { "item"@ } else { take_chars(t, 40) }
}

pub fn sanitize_fragment(raw: &str) -> (r: String)
    ensures
        r@ == sanitized_fragment(raw@),
{
    let v = chars_of(raw);
    let mut mapped: Vec<char> = Vec::new();
    let mut i: usize = 0;
    while i < v.len()
        invariant
            i <= v.len(),
            mapped@ == v@.map_values(|c: char| fragment_char(c)).subrange(0, i as int),
        decreases v.len() - i,
    {
        let c = v[i];
        let keep = ('a' <= c && c <= 'z') || ('A' <= c && c <= 'Z') || ('0' <= c && c <= '9') || c == '-' || c == '_';
        mapped.push(if keep { c } else { '_' });
        i = i + 1;
        proof {
            assert(mapped@ =~= v@.map_values(|c: char| fragment_char(c)).subrange(0, i as int));
        }
    }
    proof {
        assert(mapped@ =~= v@.map_values(|c: char| fragment_char(c)));
    }
    let t = trim_vec(&mapped, CharClass::Exactly('_'));
    if t.len() == 0 {
        String::from_str("item")
    } else {
        string_of(&take_vec(&t, 40))
    }
}

/// The stem of an input, or "item" when it has none.
pub open spec fn stem_or_item(path: Seq<char>) -> Seq<char> {
    match path_file_stem(path) {
        Some(s) => s,
        None => "item"@,
    }
}

/// Where an intermediate step writes: `item-<file>-step-<step>-<stem>.<ext>`
/// in the job's temporary directory.
pub open spec fn temp_output_path(temp_root: Seq<char>, file_index: nat, step_index: nat, input: Seq<char>, step: WorkflowStep) -> Seq<char> {
    let ext = match step_extension(step) {
        Some(e) => e,
        None => extension_for_path_spec(input),
    };
    path_join(temp_root, "item-"@ + decimal(file_index) + "-step-"@ + decimal(step_index) + "-"@
        + sanitized_fragment(stem_or_item(input)) + "."@ + ext)
}

pub fn build_temp_output_path(temp_root: &str, file_index: usize, step_index: usize, input_path: &str, step: &WorkflowStep) -> (r: String)
    requires
        file_index <= u64::MAX,
        step_index <= u64::MAX,
    ensures
        r@ == temp_output_path(temp_root@, file_index as nat, step_index as nat, input_path@, *step),
{
    let ext = match preferred_extension_for_step(step) {
        Some(e) => e,
        None => extension_for_path(input_path),
    };
    let stem = match file_stem_text(input_path) {
        Some(s) => s,
        None => String::from_str("item"),
    };
    let fragment = sanitize_fragment(stem.as_str());
    let mut name = chars_of("item-");
    extend_chars(&mut name, &decimal_vec_u64(file_index as u64));
    extend_chars(&mut name, &chars_of("-step-"));
    extend_chars(&mut name, &decimal_vec_u64(step_index as u64));
    extend_chars(&mut name, &chars_of("-"));
    extend_chars(&mut name, &chars_of(fragment.as_str()));
    extend_chars(&mut name, &chars_of("."));
    extend_chars(&mut name, &chars_of(ext.as_str()));
    let name_text = string_of(&name);
    proof {
        assert(stem@ == stem_or_item(input_path@));
        assert(name_text@ =~= "item-"@ + decimal(file_index as nat) + "-step-"@ + decimal(step_index as nat) + "-"@
            + sanitized_fragment(stem_or_item(input_path@)) + "."@ + ext@);
    }
    join_text(temp_root, name_text.as_str())
}

/// The job's directory for intermediate files: `.art-tool-tmp/<job id>`
/// below the output directory.
pub open spec fn temp_root_spec(output_dir: Seq<char>, job_id: Seq<char>) -> Seq<char> {
    path_join(path_join(output_dir, ".art-tool-tmp"@), job_id)
}

pub fn temp_root_for(output_dir: &str, job_id: &str) -> (r: String)
    ensures
        r@ == temp_root_spec(output_dir@, job_id@),
{
    let base = join_text(output_dir, ".art-tool-tmp");
    join_text(base.as_str(), job_id)
}

/// The message of an item that ended without one.
pub open spec fn default_final_message_spec(status: BatchItemStatus) -> Seq<char> {
    match status {
        BatchItemStatus::Running => "任务处理中。"@,
        BatchItemStatus::Success => "处理完成。"@,
        BatchItemStatus::Failed => "处理失败。"@,
        BatchItemStatus::Skipped => "已跳过。"@,
        BatchItemStatus::Cancelled => "任务已取消。"@,
    }
}

pub fn default_final_message(status: BatchItemStatus) -> (r: String)
    ensures
        r@ == default_final_message_spec(status),
{
    match status {
        BatchItemStatus::Running => String::from_str("任务处理中。"),
        BatchItemStatus::Success => String::from_str("处理完成。"),
        BatchItemStatus::Failed => String::from_str("处理失败。"),
        BatchItemStatus::Skipped => String::from_str("已跳过。"),
        BatchItemStatus::Cancelled => String::from_str("任务已取消。"),
    }
}

/// Threads of the job: the requested number, else one less than the
/// machine offers (the machine's count is `None` when unknown); at least
/// one.
pub open spec fn concurrency_spec(requested: Option<usize>, available: Option<usize>) -> usize {
    let fallback: usize = match available {
        Some(n) => if n >= 2 { (n - 1) as usize } else { 1 },
        None => 1,
    };
    let chosen = match requested {
        Some(n) => n,
        None => fallback,
    };
    if chosen >= 1 { chosen } else { 1 }
}

pub fn effective_concurrency(requested: Option<usize>, available: Option<usize>) -> (r: usize)
    ensures
        r == concurrency_spec(requested, available),
        r >= 1,
{
    let fallback: usize = match available {
        Some(n) => if n >= 2 { n - 1 } else { 1 },
        None => 1,
    };
    let chosen = match requested {
        Some(n) => n,
        None => fallback,
    };
    if chosen >= 1 { chosen } else { 1 }
}

/// The current time as RFC 3339 text (`chrono::Utc::now().to_rfc3339()`).
/// The clock decides the value; only that the text is not empty is
/// promised.
#[verifier::external_body]
fn utc_now_text() -> (r: String)
    ensures
        r@.len() > 0,
{
    chrono::Utc::now().to_rfc3339()
}

/// The error of the steps of a request (see `steps_problem`).
pub open spec fn request_steps_problem(request: BatchJobRequest, registry: ProcessorRegistry) -> Option<(ErrorKind, Seq<char>)> {
    if request.workflow_steps@.len() > 0 {
        steps_problem(request.workflow_steps@, registry)
    } else {
        step_problem_parts(request.processor_id@, request.params, registry)
    }
}

/// The processor whose accepted extensions select the files: that of the
/// first step.
pub open spec fn discovery_processor(request: BatchJobRequest) -> Seq<char> {
    if request.workflow_steps@.len() > 0 {
        request.workflow_steps@[0].processor_id@
    } else {
        request.processor_id@
    }
}

pub open spec fn request_extension(request: BatchJobRequest) -> Option<Seq<char>> {
    if request.workflow_steps@.len() > 0 {
        steps_extension(request.workflow_steps@)
    } else {
        step_extension_parts(request.processor_id@, request.params)
    }
}

/// The id the report names: the processor, or "workflow" for a workflow.
pub open spec fn report_processor_id(request: BatchJobRequest) -> Seq<char> {
    if request.workflow_steps@.len() > 0 { "workflow"@ } else { request.processor_id@ }
}

/// The candidate files of a request, before sorting.
pub open spec fn request_candidates(request: BatchJobRequest) -> Seq<Seq<char>> {
    selected_files(request.input_paths@, supported_exts(discovery_processor(request)), request.include_subdirectories)
}

/// The error with which planning a request fails, if it does: a step
/// error, then no inputs, then no usable file among them.
pub open spec fn plan_problem(request: BatchJobRequest, registry: ProcessorRegistry) -> Option<(ErrorKind, Seq<char>)> {
    match request_steps_problem(request, registry) {
        Some(e) => Some(e),
        None => if request.input_paths@.len() == 0 {
            Some((ErrorKind::Validation, "未提供任何输入路径。"@))
        } else if request_candidates(request).len() == 0 {
            Some((ErrorKind::Validation, "未找到可处理的图片文件。"@))
        } else {
            None
        },
    }
}

/// The message when more outputs are planned than names can be numbered.
pub open spec fn too_many_files_message() -> Seq<char> {
    "输出文件数量超出上限。"@
}

/// A planned job: the steps every file runs, the input and output path of
/// every file, the report as started, and the directory of intermediate
/// files.
#[derive(Debug)]
pub struct JobPlan {
    pub steps: Vec<WorkflowStep>,
    pub planned: Vec<(String, String)>,
    pub report: BatchJobReport,
    pub temp_root: String,
}

/// Checks the request and plans the job. `existing_names` lists the files
/// already in the output directory. The files are those of
/// `discover_files` for the first step's processor; their outputs are
/// planned by `plan_output_paths`, with the extension of the last step
/// that fixes one. A job without files is reported as finished at once.
pub fn plan_batch_job(request: BatchJobRequest, registry: &ProcessorRegistry, existing_names: &Vec<String>) -> (r: Result<JobPlan, ProcessError>)
    requires
        registry.wf(),
    ensures
        plan_problem(request, *registry) matches Some(e) ==> (r matches Err(x) && error_view(x) == e),
        plan_problem(request, *registry) is None ==> exists|files: Seq<Seq<char>>| {
            &&& #[trigger] crate::file_discovery::sorted_path_set(files, request_candidates(request))
            &&& (r is Ok <==> files.len() + existing_names@.len() < u32::MAX)
            &&& r matches Ok(plan) ==> exists|stamps: Seq<(Seq<char>, Seq<char>)>| {
                &&& crate::output_resolver::clock_stamps(stamps)
                &&& #[trigger] is_output_plan(pair_views(plan.planned@), files, request.output_dir@,
                    request_extension(request), request.rename_config, text_views(existing_names@), stamps)
            }
        },
        r matches Err(x) ==> plan_problem(request, *registry) == Some(error_view(x))
            || (plan_problem(request, *registry) is None && error_view(x) == (ErrorKind::Internal, too_many_files_message())),
        r matches Ok(plan) ==> {
            &&& plan_problem(request, *registry) is None
            &&& (if request.workflow_steps@.len() > 0 {
                plan.steps@ == request.workflow_steps@
            } else {
                plan.steps@.len() == 1 && plan.steps@[0].step_id@ == "legacy-step-1"@
                    && plan.steps@[0].processor_id@ == request.processor_id@ && plan.steps@[0].params == request.params
            })
            &&& exists|names: Seq<Seq<char>>| {
                &&& names.len() == plan.planned@.len()
                &&& names.no_duplicates()
                &&& forall|i: int| 0 <= i < names.len() ==> !text_views(existing_names@).contains(#[trigger] names[i])
                &&& forall|i: int| 0 <= i < names.len() ==> #[trigger] pair_views(plan.planned@)[i].1 == path_join(request.output_dir@, names[i])
            }
            &&& plan.report.job_id@ == request.job_id@
            &&& plan.report.processor_id@ == report_processor_id(request)
            &&& plan.report.total == plan.planned@.len()
            &&& plan.report.succeeded == 0 && plan.report.failed == 0
            &&& plan.report.skipped == 0 && plan.report.cancelled == 0
            &&& plan.report.report_path is None
            &&& plan.report.items@.len() == 0
            &&& (plan.planned@.len() > 0 ==> plan.report.finished_at@.len() == 0)
            &&& (plan.planned@.len() == 0 ==> plan.report.finished_at@.len() > 0)
            &&& plan.report.started_at@.len() > 0
            &&& plan.temp_root@ == temp_root_spec(request.output_dir@, request.job_id@)
        },
{
    let report_pid = if request.workflow_steps.len() > 0 {
        String::from_str("workflow")
    } else {
        request.processor_id.clone()
    };
    let ghost req = request;
    let BatchJobRequest {
        job_id, processor_id, input_paths, output_dir, params, workflow_steps, rename_config, max_concurrency: _,
        include_subdirectories,
    } = request;
    let steps = resolve_effective_steps(processor_id.as_str(), params, workflow_steps);
    proof {
        if req.workflow_steps@.len() == 0 {
            assert(steps@.len() == 1);
            assert(steps@.drop_last() =~= Seq::<WorkflowStep>::empty());
            assert(steps_problem(Seq::<WorkflowStep>::empty(), *registry) is None);
            assert(steps_extension(Seq::<WorkflowStep>::empty()) is None);
            assert(steps@.last() == steps@[0]);
            assert(steps@[0].processor_id@ == req.processor_id@);
            assert(steps@[0].params == req.params);
            assert(steps_problem(steps@, *registry) == step_problem_parts(req.processor_id@, req.params, *registry));
            assert(steps_extension(steps@) == step_extension_parts(req.processor_id@, req.params));
        }
    }
    match validate_steps(&steps, registry) {
        Err(e) => return Err(e),
        Ok(()) => {},
    }
    let files = match discover_files(&input_paths, steps[0].processor_id.as_str(), include_subdirectories) {
        Err(e) => return Err(e),
        Ok(f) => f,
    };
    let preferred = preferred_extension_for_steps(&steps);
    proof {
        assert(steps@[0].processor_id@ == discovery_processor(req));
        assert(files@.len() == text_views(files@).len());
    }
    proof {
        assert(crate::file_discovery::sorted_path_set(text_views(files@), request_candidates(req)));
    }
    if existing_names.len() >= u32::MAX as usize || files.len() >= u32::MAX as usize - existing_names.len() {
        return Err(ProcessError::Internal(String::from_str("输出文件数量超出上限。")));
    }
    let pref_ref: Option<&str> = match &preferred {
        Some(p) => Some(p.as_str()),
        None => None,
    };
    let config_ref = rename_config.as_ref();
    let planned = plan_output_paths(&files, output_dir.as_str(), pref_ref, config_ref, existing_names);
    proof {
        assert(opt_text(pref_ref) == request_extension(req));
        assert(config_of(config_ref) == req.rename_config);
        assert(steps@[0].processor_id@ == discovery_processor(req));
        assert(crate::file_discovery::sorted_path_set(text_views(files@), request_candidates(req)));
    }
    let ghost stamps = choose|stamps: Seq<(Seq<char>, Seq<char>)>| crate::output_resolver::clock_stamps(stamps) && #[trigger] is_output_plan(pair_views(planned@), text_views(files@),
        output_dir@, opt_text(pref_ref), config_of(config_ref), text_views(existing_names@), stamps);
    let total = planned.len() as u64;
    let mut report = BatchJobReport::new(job_id.clone(), report_pid, utc_now_text(), total);
    if planned.len() == 0 {
        report.finished_at = utc_now_text();
    }
    let temp_root = temp_root_for(output_dir.as_str(), job_id.as_str());
    let plan = JobPlan { steps, planned, report, temp_root };
    proof {
        assert(is_output_plan(pair_views(plan.planned@), text_views(files@), req.output_dir@, request_extension(req),
            req.rename_config, text_views(existing_names@), stamps));
    }
    Ok(plan)
}

/// Counts of finished items.
#[derive(Clone, Copy, Debug)]
pub struct BatchTally {
    processed: u64,
    succeeded: u64,
    failed: u64,
    skipped: u64,
    cancelled: u64,
}

/// Counts of a sequence of final statuses: processed, succeeded, failed,
/// skipped, cancelled.
pub open spec fn tally_of(statuses: Seq<BatchItemStatus>) -> (nat, nat, nat, nat, nat)
    decreases statuses.len(),
{
    if statuses.len() == 0 {
        (0, 0, 0, 0, 0)
    } else {
        let t = tally_of(statuses.drop_last());
        let s = statuses.last();
        (
            t.0 + 1,
            t.1 + if s == BatchItemStatus::Success { 1nat } else { 0nat },
            t.2 + if s == BatchItemStatus::Failed { 1nat } else { 0nat },
            t.3 + if s == BatchItemStatus::Skipped { 1nat } else { 0nat },
            t.4 + if s == BatchItemStatus::Cancelled { 1nat } else { 0nat },
        )
    }
}

/// Tallying items none of which is still running: every processed item is
/// counted once as succeeded, failed, skipped or cancelled.
pub proof fn lemma_tally_accounts_for_every_item(statuses: Seq<BatchItemStatus>)
    requires
        forall|i: int| 0 <= i < statuses.len() ==> statuses[i] != BatchItemStatus::Running,
    ensures
        tally_of(statuses).0 == statuses.len(),
        tally_of(statuses).1 + tally_of(statuses).2 + tally_of(statuses).3 + tally_of(statuses).4 == tally_of(statuses).0,
    decreases statuses.len(),
{
    if statuses.len() > 0 {
        lemma_tally_accounts_for_every_item(statuses.drop_last());
    }
}

impl BatchTally {
    pub closed spec fn view(&self) -> (nat, nat, nat, nat, nat) {
        (self.processed as nat, self.succeeded as nat, self.failed as nat, self.skipped as nat, self.cancelled as nat)
    }

    pub fn new() -> (t: BatchTally)
        ensures
            t.view() == tally_of(Seq::empty()),
    {
        BatchTally { processed: 0, succeeded: 0, failed: 0, skipped: 0, cancelled: 0 }
    }

    /// Counts one more finished item.
    pub fn record(&mut self, status: BatchItemStatus)
        requires
            old(self).view().0 < u64::MAX,
            exists|s: Seq<BatchItemStatus>| old(self).view() == #[trigger] tally_of(s),
        ensures
            forall|s: Seq<BatchItemStatus>| old(self).view() == #[trigger] tally_of(s) ==> final(self).view() == tally_of(s.push(status)),
    {
        proof {
            let s = choose|s: Seq<BatchItemStatus>| old(self).view() == #[trigger] tally_of(s);
            lemma_tally_bounded(s);
        }
        match status {
            BatchItemStatus::Success => { self.succeeded = self.succeeded + 1; },
            BatchItemStatus::Failed => { self.failed = self.failed + 1; },
            BatchItemStatus::Skipped => { self.skipped = self.skipped + 1; },
            BatchItemStatus::Cancelled => { self.cancelled = self.cancelled + 1; },
            BatchItemStatus::Running => {},
        }
        self.processed = self.processed + 1;
        proof {
            assert forall|s: Seq<BatchItemStatus>| old(self).view() == #[trigger] tally_of(s) implies self.view() == tally_of(s.push(status)) by {
                assert(s.push(status).drop_last() =~= s);
            }
        }
    }

    pub fn processed(&self) -> (r: u64)
        ensures
            r == self.view().0,
    {
        self.processed
    }

    pub fn succeeded(&self) -> (r: u64)
        ensures
            r == self.view().1,
    {
        self.succeeded
    }

    pub fn failed(&self) -> (r: u64)
        ensures
            r == self.view().2,
    {
        self.failed
    }

    pub fn skipped(&self) -> (r: u64)
        ensures
            r == self.view().3,
    {
        self.skipped
    }

    pub fn cancelled(&self) -> (r: u64)
        ensures
            r == self.view().4,
    {
        self.cancelled
    }
}

/// No count exceeds the number of processed items.
proof fn lemma_tally_bounded(s: Seq<BatchItemStatus>)
    ensures
        tally_of(s).1 <= tally_of(s).0,
        tally_of(s).2 <= tally_of(s).0,
        tally_of(s).3 <= tally_of(s).0,
        tally_of(s).4 <= tally_of(s).0,
    decreases s.len(),
{
    if s.len() > 0 {
        lemma_tally_bounded(s.drop_last());
    }
}

/// A step report records the step's place, processor, outcome, output and
/// duration.
pub open spec fn step_report_is(
    r: BatchStepReport,
    index: int,
    total: int,
    processor_id: Seq<char>,
    status: BatchItemStatus,
    message: Seq<char>,
    output: Option<Seq<char>>,
    duration_ms: u64,
) -> bool {
    &&& r.step_index == index
    &&& r.step_total == total
    &&& r.processor_id@ == processor_id
    &&& r.status == status
    &&& r.message@ == message
    &&& r.output_path.deep_view() == output
    &&& r.duration_ms == duration_ms
}

/// The progress of one file through the steps of a job.
#[derive(Debug)]
pub struct ItemRun {
    pub file_index: usize,
    pub input_path: String,
    pub output_path: String,
    pub status: BatchItemStatus,
    pub message: String,
    pub final_output: Option<String>,
    pub step_reports: Vec<BatchStepReport>,
    pub current_input: String,
    pub temp_outputs: Vec<String>,
    pub next_step: usize,
    pub finished: bool,
}

impl ItemRun {
    /// What holds of a file's progress through `steps`: the status is never
    /// "running"; one report per step run, each naming its place (from 1)
    /// and processor; the steps before the next one succeeded; an
    /// unfinished item has succeeded so far and has steps left.
    pub open spec fn wf(&self, steps: Seq<WorkflowStep>) -> bool {
        &&& self.status != BatchItemStatus::Running
        &&& 0 < steps.len() < u32::MAX
        &&& self.next_step <= steps.len()
        &&& self.step_reports@.len() <= steps.len()
        &&& self.next_step <= self.step_reports@.len()
        &&& forall|i: int| 0 <= i < self.step_reports@.len() ==> {
            &&& (#[trigger] self.step_reports@[i]).step_index == i + 1
            &&& self.step_reports@[i].step_total == steps.len()
            &&& self.step_reports@[i].processor_id@ == steps[i].processor_id@
        }
        &&& forall|i: int| 0 <= i < self.next_step ==> (#[trigger] self.step_reports@[i]).status == BatchItemStatus::Success
        &&& !self.finished ==> {
            &&& self.status == BatchItemStatus::Success
            &&& self.next_step < steps.len()
            &&& self.step_reports@.len() == self.next_step
        }
        &&& self.finished && self.status == BatchItemStatus::Success ==> {
            &&& self.next_step == steps.len()
            &&& self.step_reports@.len() == steps.len()
        }
        &&& self.status == BatchItemStatus::Success && self.next_step > 0 ==> {
            &&& self.final_output is Some
            &&& self.final_output.deep_view() == self.step_reports@[self.next_step - 1].output_path.deep_view()
        }
    }

    /// A file about to run its first step.
    pub fn start(file_index: usize, input_path: String, output_path: String, steps: &Vec<WorkflowStep>) -> (r: ItemRun)
        requires
            0 < steps@.len() < u32::MAX,
        ensures
            r.wf(steps@),
            !r.finished,
            r.file_index == file_index,
            r.input_path@ == input_path@,
            r.output_path@ == output_path@,
            r.status == BatchItemStatus::Success,
            r.message@.len() == 0,
            r.final_output is None,
            r.step_reports@.len() == 0,
            r.current_input@ == input_path@,
            r.temp_outputs@.len() == 0,
            r.next_step == 0,
    {
        let current = input_path.clone();
        ItemRun {
            file_index,
            input_path,
            output_path,
            status: BatchItemStatus::Success,
            message: String::new(),
            final_output: None,
            step_reports: Vec::new(),
            current_input: current,
            temp_outputs: Vec::new(),
            next_step: 0,
            finished: false,
        }
    }

    /// The job was cancelled before the file's next step.
    pub fn cancel(&mut self, steps: &Vec<WorkflowStep>)
        requires
            old(self).wf(steps@),
            !old(self).finished,
        ensures
            final(self).wf(steps@),
            final(self).finished,
            final(self).status == BatchItemStatus::Cancelled,
            final(self).message@ == "任务已取消。"@,
            final(self).final_output == old(self).final_output,
            final(self).step_reports@ == old(self).step_reports@,
            final(self).temp_outputs@ == old(self).temp_outputs@,
            final(self).input_path == old(self).input_path,
            final(self).next_step == old(self).next_step,
    {
        self.status = BatchItemStatus::Cancelled;
        self.message = String::from_str("任务已取消。");
        self.finished = true;
    }

    /// The job's directory for intermediate files could not be made.
    pub fn setup_failed(&mut self, steps: &Vec<WorkflowStep>, error_text: &str)
        requires
            old(self).wf(steps@),
            !old(self).finished,
        ensures
            final(self).wf(steps@),
            final(self).finished,
            final(self).status == BatchItemStatus::Failed,
            final(self).message@ == "创建临时目录失败: "@ + error_text@,
            final(self).final_output == old(self).final_output,
            final(self).step_reports@ == old(self).step_reports@,
            final(self).temp_outputs@ == old(self).temp_outputs@,
            final(self).input_path == old(self).input_path,
    {
        let mut m = chars_of("创建临时目录失败: ");
        extend_chars(&mut m, &chars_of(error_text));
        self.status = BatchItemStatus::Failed;
        self.message = string_of(&m);
        self.finished = true;
    }

    /// Where the next step writes: the planned output for the last step, a
    /// file in the temporary directory otherwise.
    pub fn step_output_path(&self, steps: &Vec<WorkflowStep>, temp_root: &str) -> (r: String)
        requires
            self.wf(steps@),
            !self.finished,
        ensures
            self.next_step + 1 == steps@.len() ==> r@ == self.output_path@,
            self.next_step + 1 < steps@.len() ==> r@ == temp_output_path(temp_root@, self.file_index as nat,
                self.next_step as nat, self.input_path@, steps@[self.next_step as int]),
    {
        if self.next_step + 1 == steps.len() {
            self.output_path.clone()
        } else {
            build_temp_output_path(temp_root, self.file_index, self.next_step, self.input_path.as_str(), &steps[self.next_step])
        }
    }

    /// The next step's processor is not registered: the file fails.
    pub fn missing_processor(&mut self, steps: &Vec<WorkflowStep>)
        requires
            old(self).wf(steps@),
            !old(self).finished,
        ensures
            final(self).wf(steps@),
            final(self).finished,
            final(self).status == BatchItemStatus::Failed,
            final(self).message@ == "处理器不存在或未注册: "@ + steps@[old(self).next_step as int].processor_id@,
            final(self).step_reports@.len() == old(self).step_reports@.len() + 1,
            forall|i: int| 0 <= i < old(self).step_reports@.len() ==> final(self).step_reports@[i] == old(self).step_reports@[i],
            step_report_is(final(self).step_reports@[old(self).next_step as int], old(self).next_step + 1, steps@.len() as int,
                steps@[old(self).next_step as int].processor_id@, BatchItemStatus::Failed, final(self).message@, None, 0),
            final(self).final_output == old(self).final_output,
            final(self).temp_outputs@ == old(self).temp_outputs@,
            final(self).input_path == old(self).input_path,
    {
        let step = &steps[self.next_step];
        let mut m = chars_of("处理器不存在或未注册: ");
        extend_chars(&mut m, &chars_of(step.processor_id.as_str()));
        let message = string_of(&m);
        self.step_reports.push(BatchStepReport {
            step_index: (self.next_step + 1) as u32,
            step_total: steps.len() as u32,
            processor_id: step.processor_id.clone(),
            status: BatchItemStatus::Failed,
            message: message.clone(),
            output_path: None,
            duration_ms: 0,
        });
        self.status = BatchItemStatus::Failed;
        self.message = message;
        self.finished = true;
    }

    /// Takes in what the next step's processor returned. Success moves to
    /// the following step with the written file as input (the file is
    /// intermediate unless the step was the last); a skip or an error ends
    /// the file and drops its output.
    pub fn record_outcome(
        &mut self,
        steps: &Vec<WorkflowStep>,
        expected_output: &str,
        outcome: Result<ProcessResult, ProcessError>,
        duration_ms: u64,
    )
        requires
            old(self).wf(steps@),
            !old(self).finished,
        ensures
            final(self).wf(steps@),
            final(self).file_index == old(self).file_index,
            final(self).input_path == old(self).input_path,
            final(self).output_path == old(self).output_path,
            final(self).step_reports@.len() == old(self).step_reports@.len() + 1,
            forall|i: int| 0 <= i < old(self).step_reports@.len() ==> final(self).step_reports@[i] == old(self).step_reports@[i],
            ({
                let k = old(self).next_step as int;
                let pid = steps@[k].processor_id@;
                let n = steps@.len() as int;
                let last = final(self).step_reports@[k];
                match outcome {
                    Ok(res) => if res.status == ProcessStatus::Success {
                        let next = match res.output_path {
                            Some(p) => p@,
                            None => expected_output@,
                        };
                        &&& step_report_is(last, k + 1, n, pid, BatchItemStatus::Success, res.message@, Some(next), duration_ms)
                        &&& final(self).status == BatchItemStatus::Success
                        &&& final(self).message@ == res.message@
                        &&& final(self).current_input@ == next
                        &&& final(self).final_output.deep_view() == Some(next)
                        &&& final(self).next_step == k + 1
                        &&& (final(self).finished <==> k + 1 == n)
                        &&& final(self).temp_outputs@.len() == old(self).temp_outputs@.len() + (if k + 1 == n { 0int } else { 1int })
                        &&& forall|i: int| 0 <= i < old(self).temp_outputs@.len() ==> final(self).temp_outputs@[i] == old(self).temp_outputs@[i]
                        &&& (k + 1 < n ==> final(self).temp_outputs@.last()@ == next)
                    } else {
                        &&& step_report_is(last, k + 1, n, pid, BatchItemStatus::Skipped, res.message@, None, duration_ms)
                        &&& final(self).status == BatchItemStatus::Skipped
                        &&& final(self).message@ == "步骤 "@ + pid + " 跳过: "@ + res.message@
                        &&& final(self).final_output is None
                        &&& final(self).finished
                        &&& final(self).temp_outputs@ == old(self).temp_outputs@
                    },
                    Err(e) => {
                        &&& step_report_is(last, k + 1, n, pid, BatchItemStatus::Failed, user_message_spec(e), None, duration_ms)
                        &&& final(self).status == BatchItemStatus::Failed
                        &&& final(self).message@ == "步骤 "@ + pid + " 失败: "@ + user_message_spec(e)
                        &&& final(self).final_output is None
                        &&& final(self).finished
                        &&& final(self).temp_outputs@ == old(self).temp_outputs@
                    },
                }
            }),
    {
        let k = self.next_step;
        let step = &steps[k];
        let n = steps.len();
        let is_last = k + 1 == n;
        match outcome {
            Ok(result) => {
                if result.status == ProcessStatus::Success {
                    let next = match result.output_path {
                        Some(p) => p,
                        None => String::from_str(expected_output),
                    };
                    self.step_reports.push(BatchStepReport {
                        step_index: (k + 1) as u32,
                        step_total: n as u32,
                        processor_id: step.processor_id.clone(),
                        status: BatchItemStatus::Success,
                        message: result.message.clone(),
                        output_path: Some(next.clone()),
                        duration_ms,
                    });
                    self.message = result.message;
                    self.status = BatchItemStatus::Success;
                    self.current_input = next.clone();
                    self.final_output = Some(next.clone());
                    if !is_last {
                        self.temp_outputs.push(next);
                    }
                    self.next_step = k + 1;
                    self.finished = is_last;
                } else {
                    self.step_reports.push(BatchStepReport {
                        step_index: (k + 1) as u32,
                        step_total: n as u32,
                        processor_id: step.processor_id.clone(),
                        status: BatchItemStatus::Skipped,
                        message: result.message.clone(),
                        output_path: None,
                        duration_ms,
                    });
                    let mut m = chars_of("步骤 ");
                    extend_chars(&mut m, &chars_of(step.processor_id.as_str()));
                    extend_chars(&mut m, &chars_of(" 跳过: "));
                    extend_chars(&mut m, &chars_of(result.message.as_str()));
                    self.status = BatchItemStatus::Skipped;
                    self.message = string_of(&m);
                    self.final_output = None;
                    self.finished = true;
                }
            },
            Err(err) => {
                let user_message = err.user_message();
                self.step_reports.push(BatchStepReport {
                    step_index: (k + 1) as u32,
                    step_total: n as u32,
                    processor_id: step.processor_id.clone(),
                    status: BatchItemStatus::Failed,
                    message: user_message.clone(),
                    output_path: None,
                    duration_ms,
                });
                let mut m = chars_of("步骤 ");
                extend_chars(&mut m, &chars_of(step.processor_id.as_str()));
                extend_chars(&mut m, &chars_of(" 失败: "));
                extend_chars(&mut m, &chars_of(user_message.as_str()));
                self.status = BatchItemStatus::Failed;
                self.message = string_of(&m);
                self.final_output = None;
                self.finished = true;
            },
        }
    }

    /// The report of a finished file and its intermediate files (to be
    /// removed). A file without a message gets the default one of its
    /// status; only a successful file names an output.
    pub fn finish(self, steps: &Vec<WorkflowStep>, duration_ms: u64) -> (r: (BatchItemReport, Vec<String>))
        requires
            self.wf(steps@),
            self.finished,
        ensures
            r.0.input_path@ == self.input_path@,
            r.0.status == self.status,
            r.0.status != BatchItemStatus::Running,
            r.0.message@ == (if self.message@.len() == 0 { default_final_message_spec(self.status) } else { self.message@ }),
            r.0.output_path.deep_view() == (if self.status == BatchItemStatus::Success { self.final_output.deep_view() } else { None }),
            r.0.steps@ == self.step_reports@,
            r.0.duration_ms == duration_ms,
            r.1@ == self.temp_outputs@,
            item_well_reported(r.0),
            r.0.status == BatchItemStatus::Success ==> {
                &&& r.0.steps@.len() == steps@.len()
                &&& forall|i: int| 0 <= i < r.0.steps@.len() ==> (#[trigger] r.0.steps@[i]).status == BatchItemStatus::Success
                &&& r.0.output_path is Some
                &&& r.0.output_path.deep_view() == r.0.steps@.last().output_path.deep_view()
            },
    {
        let ItemRun { file_index: _, input_path, output_path: _, status, message, final_output, step_reports, current_input: _,
            temp_outputs, next_step: _, finished: _ } = self;
        let message = if message.unicode_len() == 0 { default_final_message(status) } else { message };
        let output = match status {
            BatchItemStatus::Success => final_output,
            _ => None,
        };
        (BatchItemReport { input_path, output_path: output, status, message, duration_ms, steps: step_reports }, temp_outputs)
    }
}

/// A finished file's report: not running, and naming an output exactly
/// when the file succeeded.
pub open spec fn item_well_reported(i: BatchItemReport) -> bool {
    &&& i.status != BatchItemStatus::Running
    &&& (i.output_path is Some <==> i.status == BatchItemStatus::Success)
}

/// The final statuses of some file reports.
pub open spec fn statuses_of(items: Seq<BatchItemReport>) -> Seq<BatchItemStatus> {
    items.map_values(|i: BatchItemReport| i.status)
}

/// A job's report accounts for every file: when the reports of the
/// planned files (one per file, in plan order) were counted by a tally and
/// ordered by `finish_job`, the counts add up to the total, each file has
/// exactly one report, and a report names an output exactly when its file
/// succeeded.
pub proof fn lemma_report_accounts_for_every_file(
    report: BatchJobReport,
    items: Seq<BatchItemReport>,
    inputs: Seq<Seq<char>>,
    perm: Seq<int>,
)
    requires
        items.len() == inputs.len(),
        report.total == inputs.len(),
        forall|k: int| 0 <= k < items.len() ==> item_well_reported(#[trigger] items[k]) && items[k].input_path@ == inputs[k],
        report.succeeded == tally_of(statuses_of(items)).1,
        report.failed == tally_of(statuses_of(items)).2,
        report.skipped == tally_of(statuses_of(items)).3,
        report.cancelled == tally_of(statuses_of(items)).4,
        stable_rearrangement(report.items@, items, perm),
    ensures
        report.succeeded + report.failed + report.skipped + report.cancelled == report.total,
        report.items@.len() == report.total,
        forall|i: int| 0 <= i < report.items@.len() ==> item_well_reported(#[trigger] report.items@[i]),
        forall|i: int| 0 <= i < report.items@.len() ==> 0 <= #[trigger] perm[i] < inputs.len()
            && report.items@[i].input_path@ == inputs[perm[i]],
        forall|a: int, b: int| 0 <= a < b < report.items@.len() ==> #[trigger] perm[a] != #[trigger] perm[b],
{
    let st = statuses_of(items);
    assert forall|i: int| 0 <= i < st.len() implies st[i] != BatchItemStatus::Running by {
        assert(item_well_reported(items[i]));
    }
    lemma_tally_accounts_for_every_item(st);
    assert forall|i: int| 0 <= i < report.items@.len() implies item_well_reported(#[trigger] report.items@[i]) by {
        assert(report.items@[i] == items[perm[i]]);
        assert(item_well_reported(items[perm[i]]));
    }
    assert forall|i: int| 0 <= i < report.items@.len() implies 0 <= #[trigger] perm[i] < inputs.len()
        && report.items@[i].input_path@ == inputs[perm[i]] by {
        assert(report.items@[i] == items[perm[i]]);
        assert(item_well_reported(items[perm[i]]) && items[perm[i]].input_path@ == inputs[perm[i]]);
    }
}

/// A progress event of a job.
#[derive(Debug)]
pub struct BatchProgressPayload {
    pub job_id: String,
    pub processed: u64,
    pub total: u64,
    pub succeeded: u64,
    pub failed: u64,
    pub skipped: u64,
    pub cancelled: u64,
    pub current_file: String,
    pub status: BatchItemStatus,
    pub message: String,
    pub current_step_processor_id: Option<String>,
    pub current_step_index: Option<u32>,
    pub current_step_total: Option<u32>,
    pub current_step_message: Option<String>,
}

/// An event before any file: the counts given, no current file or step,
/// the preparation phase.
pub open spec fn preparing_payload(p: BatchProgressPayload, job_id: Seq<char>, total: u64, message: Seq<char>) -> bool {
    &&& p.job_id@ == job_id
    &&& p.processed == 0 && p.total == total
    &&& p.succeeded == 0 && p.failed == 0 && p.skipped == 0 && p.cancelled == 0
    &&& p.current_file@.len() == 0
    &&& p.status == BatchItemStatus::Running
    &&& p.message@ == message
    &&& p.current_step_processor_id is None && p.current_step_index is None && p.current_step_total is None
    &&& p.current_step_message.deep_view() == Some("准备阶段"@)
}

fn preparing(job_id: &str, total: u64, message: String) -> (p: BatchProgressPayload)
    ensures
        preparing_payload(p, job_id@, total, message@),
{
    BatchProgressPayload {
        job_id: String::from_str(job_id),
        processed: 0,
        total,
        succeeded: 0,
        failed: 0,
        skipped: 0,
        cancelled: 0,
        current_file: String::new(),
        status: BatchItemStatus::Running,
        message,
        current_step_processor_id: None,
        current_step_index: None,
        current_step_total: None,
        current_step_message: Some(String::from_str("准备阶段")),
    }
}

/// The first event of a job, while its inputs are scanned.
pub fn scanning_payload(job_id: &str) -> (p: BatchProgressPayload)
    ensures
        preparing_payload(p, job_id@, 0, "正在扫描输入文件..."@),
{
    preparing(job_id, 0, String::from_str("正在扫描输入文件..."))
}

/// The event once the files are known.
pub fn discovered_payload(job_id: &str, total: u64) -> (p: BatchProgressPayload)
    ensures
        preparing_payload(p, job_id@, total, "已发现 "@ + decimal(total as nat) + " 个文件，准备开始处理。"@),
{
    let mut m = chars_of("已发现 ");
    extend_chars(&mut m, &decimal_vec_u64(total));
    extend_chars(&mut m, &chars_of(" 个文件，准备开始处理。"));
    preparing(job_id, total, string_of(&m))
}

/// The event when a file starts its next step, with the counts so far.
pub fn step_started_payload(job_id: &str, tally: &BatchTally, total: u64, item: &ItemRun, steps: &Vec<WorkflowStep>) -> (p: BatchProgressPayload)
    requires
        item.wf(steps@),
        !item.finished,
    ensures
        p.job_id@ == job_id@,
        p.processed == tally.view().0 && p.total == total,
        p.succeeded == tally.view().1 && p.failed == tally.view().2,
        p.skipped == tally.view().3 && p.cancelled == tally.view().4,
        p.current_file@ == item.input_path@,
        p.status == BatchItemStatus::Running,
        p.message@ == "正在执行步骤 "@ + decimal(item.next_step as nat + 1) + "/"@ + decimal(steps@.len()) + ": "@
            + steps@[item.next_step as int].processor_id@,
        p.current_step_processor_id.deep_view() == Some(steps@[item.next_step as int].processor_id@),
        p.current_step_index == Some((item.next_step + 1) as u32),
        p.current_step_total == Some(steps@.len() as u32),
        p.current_step_message.deep_view() == Some("开始执行"@),
{
    let step = &steps[item.next_step];
    let mut m = chars_of("正在执行步骤 ");
    extend_chars(&mut m, &decimal_vec_u64((item.next_step + 1) as u64));
    extend_chars(&mut m, &chars_of("/"));
    extend_chars(&mut m, &decimal_vec_u64(steps.len() as u64));
    extend_chars(&mut m, &chars_of(": "));
    extend_chars(&mut m, &chars_of(step.processor_id.as_str()));
    BatchProgressPayload {
        job_id: String::from_str(job_id),
        processed: tally.processed(),
        total,
        succeeded: tally.succeeded(),
        failed: tally.failed(),
        skipped: tally.skipped(),
        cancelled: tally.cancelled(),
        current_file: item.input_path.clone(),
        status: BatchItemStatus::Running,
        message: string_of(&m),
        current_step_processor_id: Some(step.processor_id.clone()),
        current_step_index: Some((item.next_step + 1) as u32),
        current_step_total: Some(steps.len() as u32),
        current_step_message: Some(String::from_str("开始执行")),
    }
}

/// The event when a file is done, with the counts including it and the
/// last step it ran.
pub fn item_finished_payload(job_id: &str, tally: &BatchTally, total: u64, item: &BatchItemReport) -> (p: BatchProgressPayload)
    ensures
        p.job_id@ == job_id@,
        p.processed == tally.view().0 && p.total == total,
        p.succeeded == tally.view().1 && p.failed == tally.view().2,
        p.skipped == tally.view().3 && p.cancelled == tally.view().4,
        p.current_file@ == item.input_path@,
        p.status == item.status,
        p.message@ == item.message@,
        item.steps@.len() == 0 ==> p.current_step_processor_id is None && p.current_step_index is None
            && p.current_step_total is None && p.current_step_message is None,
        item.steps@.len() > 0 ==> {
            let last = item.steps@.last();
            &&& p.current_step_processor_id.deep_view() == Some(last.processor_id@)
            &&& p.current_step_index == Some(last.step_index)
            &&& p.current_step_total == Some(last.step_total)
            &&& p.current_step_message.deep_view() == Some(last.message@)
        },
{
    let n = item.steps.len();
    let (pid, index, step_total, step_message) = if n > 0 {
        let last = &item.steps[n - 1];
        (Some(last.processor_id.clone()), Some(last.step_index), Some(last.step_total), Some(last.message.clone()))
    } else {
        (None, None, None, None)
    };
    BatchProgressPayload {
        job_id: String::from_str(job_id),
        processed: tally.processed(),
        total,
        succeeded: tally.succeeded(),
        failed: tally.failed(),
        skipped: tally.skipped(),
        cancelled: tally.cancelled(),
        current_file: item.input_path.clone(),
        status: item.status,
        message: item.message.clone(),
        current_step_processor_id: pid,
        current_step_index: index,
        current_step_total: step_total,
        current_step_message: step_message,
    }
}

/// Completes the report: the counts of the tally, the time it finished,
/// and the file reports ordered by input path.
pub fn finish_job(report: BatchJobReport, tally: &BatchTally, items: Vec<BatchItemReport>) -> (r: BatchJobReport)
    ensures
        r.job_id == report.job_id,
        r.processor_id == report.processor_id,
        r.started_at == report.started_at,
        r.total == report.total,
        r.succeeded == tally.view().1,
        r.failed == tally.view().2,
        r.skipped == tally.view().3,
        r.cancelled == tally.view().4,
        r.report_path == report.report_path,
        r.finished_at@.len() > 0,
        r.items@.to_multiset() == items@.to_multiset(),
        r.items@.len() == items@.len(),
        sorted_by_key(r.items@),
        exists|perm: Seq<int>| #[trigger] stable_rearrangement(r.items@, items@, perm),
{
    let mut r = report;
    r.succeeded = tally.succeeded();
    r.failed = tally.failed();
    r.skipped = tally.skipped();
    r.cancelled = tally.cancelled();
    r.finished_at = utc_now_text();
    r.items = sort_by_text_key(items);
    r
}

/// The input paths of a plan, in plan order.
pub open spec fn planned_inputs(planned: Seq<(String, String)>) -> Seq<Seq<char>> {
    planned.map_values(|p: (String, String)| p.0@)
}

/// `perm` pairs each report with a different one of the files `inputs`:
/// report `i` is that of file `perm[i]`.
pub open spec fn reports_match_files(reports: Seq<BatchItemReport>, inputs: Seq<Seq<char>>, perm: Seq<int>) -> bool {
    &&& forall|i: int| 0 <= i < reports.len() ==> 0 <= #[trigger] perm[i] < inputs.len()
        && reports[i].input_path@ == inputs[perm[i]]
    &&& forall|a: int, b: int| 0 <= a < b < reports.len() ==> #[trigger] perm[a] != #[trigger] perm[b]
}

/// Completes the report of a run from the reports of its files, given in
/// plan order: the counts are those of the files' final statuses, and the
/// file reports are ordered by input path. When there is one well-formed
/// report for each planned file, the counts add up to the total and every
/// planned file has exactly one report in the result.
pub fn complete_job(report: BatchJobReport, planned: &Vec<(String, String)>, items: Vec<BatchItemReport>) -> (r: BatchJobReport)
    ensures
        r.job_id == report.job_id,
        r.processor_id == report.processor_id,
        r.started_at == report.started_at,
        r.total == report.total,
        r.report_path == report.report_path,
        r.finished_at@.len() > 0,
        r.succeeded == tally_of(statuses_of(items@)).1,
        r.failed == tally_of(statuses_of(items@)).2,
        r.skipped == tally_of(statuses_of(items@)).3,
        r.cancelled == tally_of(statuses_of(items@)).4,
        r.items@.len() == items@.len(),
        sorted_by_key(r.items@),
        exists|perm: Seq<int>| #[trigger] stable_rearrangement(r.items@, items@, perm),
        (items@.len() == planned@.len() && report.total == planned@.len()
            && forall|k: int| 0 <= k < items@.len() ==> item_well_reported(#[trigger] items@[k])
                && items@[k].input_path@ == planned@[k].0@) ==> {
            &&& r.succeeded + r.failed + r.skipped + r.cancelled == r.total
            &&& r.items@.len() == r.total
            &&& forall|i: int| 0 <= i < r.items@.len() ==> item_well_reported(#[trigger] r.items@[i])
            &&& exists|perm: Seq<int>| #[trigger] reports_match_files(r.items@, planned_inputs(planned@), perm)
        },
{
    let mut tally = BatchTally::new();
    let mut i: usize = 0;
    while i < items.len()
        invariant
            i <= items@.len(),
            tally.view() == tally_of(statuses_of(items@).subrange(0, i as int)),
            tally.view().0 == i,
        decreases items@.len() - i,
    {
        proof {
            lemma_tally_counts_items(statuses_of(items@).subrange(0, i as int));
            assert(tally.view() == tally_of(statuses_of(items@).subrange(0, i as int)));
        }
        tally.record(items[i].status);
        proof {
            assert(statuses_of(items@).subrange(0, i as int).push(items@[i as int].status)
                =~= statuses_of(items@).subrange(0, i + 1));
            lemma_tally_counts_items(statuses_of(items@).subrange(0, i + 1));
        }
        i = i + 1;
    }
    proof {
        assert(statuses_of(items@).subrange(0, items@.len() as int) =~= statuses_of(items@));
    }
    let ghost old_items = items@;
    let r = finish_job(report, &tally, items);
    proof {
        let perm = choose|perm: Seq<int>| #[trigger] stable_rearrangement(r.items@, old_items, perm);
        if old_items.len() == planned@.len() && report.total == planned@.len()
            && forall|k: int| 0 <= k < old_items.len() ==> item_well_reported(#[trigger] old_items[k])
                && old_items[k].input_path@ == planned@[k].0@ {
            let inputs = planned@.map_values(|p: (String, String)| p.0@);
            assert forall|k: int| 0 <= k < old_items.len() implies item_well_reported(#[trigger] old_items[k])
                && old_items[k].input_path@ == inputs[k] by {
                assert(item_well_reported(old_items[k]) && old_items[k].input_path@ == planned@[k].0@);
            }
            lemma_report_accounts_for_every_file(r, old_items, inputs, perm);
            assert(inputs == planned_inputs(planned@));
            assert(reports_match_files(r.items@, planned_inputs(planned@), perm));
        }
    }
    r
}

/// The reports of a job's files as they finish: one slot for each planned
/// file, filled at most once, and only by a finished report of that file.
pub struct JobRun {
    report: BatchJobReport,
    planned: Vec<(String, String)>,
    slots: Vec<Option<BatchItemReport>>,
}

/// The message of a run completed before every file was reported.
pub open spec fn unfinished_run_message() -> Seq<char> {
    "批处理记录不完整，部分文件没有处理结果。"@
}

/// The reports in filled slots, in slot order.
pub open spec fn filled_reports(slots: Seq<Option<BatchItemReport>>) -> Seq<BatchItemReport> {
    slots.map_values(|o: Option<BatchItemReport>| o.unwrap())
}

impl JobRun {
    /// Every slot belongs to a planned file, the started report counts the
    /// planned files, and a filled slot holds a final report of its file.
    pub closed spec fn wf(self) -> bool {
        &&& self.slots@.len() == self.planned@.len()
        &&& self.report.total == self.planned@.len()
        &&& forall|i: int| 0 <= i < self.slots@.len() ==> (#[trigger] self.slots@[i] matches Some(r)
            ==> item_well_reported(r) && r.input_path@ == self.planned@[i].0@)
    }

    /// The input paths of the planned files.
    pub closed spec fn inputs(self) -> Seq<Seq<char>> {
        planned_inputs(self.planned@)
    }

    /// The slots: the report of each planned file, once it finished.
    pub closed spec fn recorded(self) -> Seq<Option<BatchItemReport>> {
        self.slots@
    }

    /// The report of the job as it was started.
    pub closed spec fn started(self) -> BatchJobReport {
        self.report
    }

    /// A run of the planned files, none of them reported yet.
    pub fn new(report: BatchJobReport, planned: Vec<(String, String)>) -> (r: JobRun)
        requires
            report.total == planned@.len(),
        ensures
            r.wf(),
            r.inputs() == planned_inputs(planned@),
            r.started() == report,
            r.recorded().len() == planned@.len(),
            forall|i: int| 0 <= i < r.recorded().len() ==> #[trigger] r.recorded()[i] is None,
    {
        let mut slots: Vec<Option<BatchItemReport>> = Vec::new();
        let mut i: usize = 0;
        while i < planned.len()
            invariant
                i <= planned@.len(),
                slots@.len() == i,
                forall|j: int| 0 <= j < i ==> #[trigger] slots@[j] is None,
            decreases planned@.len() - i,
        {
            slots.push(None);
            i = i + 1;
        }
        JobRun { report, planned, slots }
    }

    /// Records the report of file `file_index`. It is taken only when that
    /// file has no report yet, the report is of that file's input, and it
    /// is final (not running, with an output exactly on success); the
    /// result says whether it was taken.
    pub fn record(&mut self, file_index: usize, item: BatchItemReport) -> (taken: bool)
        requires
            old(self).wf(),
        ensures
            final(self).wf(),
            taken <==> (file_index < old(self).recorded().len() && old(self).recorded()[file_index as int] is None
                && item_well_reported(item) && item.input_path@ == old(self).inputs()[file_index as int]),
            taken ==> final(self).recorded() == old(self).recorded().update(file_index as int, Some(item)),
            !taken ==> final(self).recorded() == old(self).recorded(),
            final(self).inputs() == old(self).inputs(),
            final(self).started() == old(self).started(),
    {
        if file_index >= self.slots.len() {
            return false;
        }
        let free = match &self.slots[file_index] {
            Some(_) => false,
            None => true,
        };
        let final_status = match item.status {
            BatchItemStatus::Running => false,
            BatchItemStatus::Success => item.output_path.is_some(),
            _ => item.output_path.is_none(),
        };
        if !free || !final_status || !same_text(item.input_path.as_str(), self.planned[file_index].0.as_str()) {
            return false;
        }
        self.slots.set(file_index, Some(item));
        true
    }

    /// The finished report of the job, once every planned file has its
    /// report; an internal error otherwise. The counts add up to the total,
    /// every planned file has exactly one report, and a report names an
    /// output exactly when its file succeeded.
    #[verifier::loop_isolation(false)]
    pub fn complete(self) -> (r: Result<BatchJobReport, ProcessError>)
        requires
            self.wf(),
        ensures
            r is Ok <==> forall|i: int| 0 <= i < self.recorded().len() ==> #[trigger] self.recorded()[i] is Some,
            r matches Err(e) ==> e matches ProcessError::Internal(m) && m@ == unfinished_run_message(),
            r matches Ok(rep) ==> {
                let items = filled_reports(self.recorded());
                &&& rep.job_id == self.started().job_id
                &&& rep.processor_id == self.started().processor_id
                &&& rep.started_at == self.started().started_at
                &&& rep.report_path == self.started().report_path
                &&& rep.total == self.started().total
                &&& rep.total == self.inputs().len()
                &&& rep.finished_at@.len() > 0
                &&& rep.succeeded == tally_of(statuses_of(items)).1
                &&& rep.failed == tally_of(statuses_of(items)).2
                &&& rep.skipped == tally_of(statuses_of(items)).3
                &&& rep.cancelled == tally_of(statuses_of(items)).4
                &&& rep.succeeded + rep.failed + rep.skipped + rep.cancelled == rep.total
                &&& rep.items@.len() == rep.total
                &&& sorted_by_key(rep.items@)
                &&& forall|i: int| 0 <= i < rep.items@.len() ==> item_well_reported(#[trigger] rep.items@[i])
                &&& exists|perm: Seq<int>| #[trigger] reports_match_files(rep.items@, self.inputs(), perm)
            },
    {
        let ghost all = self.slots@;
        let ghost this = self;
        let JobRun { report, planned, mut slots } = self;
        let mut items: Vec<BatchItemReport> = Vec::new();
        proof {
            assert(all.subrange(0, all.len() as int) =~= all);
        }
        while slots.len() > 0
            invariant
                all == this.recorded(),
                items@.len() + slots@.len() == all.len(),
                slots@ == all.subrange(items@.len() as int, all.len() as int),
                forall|j: int| 0 <= j < items@.len() ==> all[j] == Some(#[trigger] items@[j]),
            decreases slots@.len(),
        {
            let s = slots.remove(0);
            proof {
                assert(s == all[items@.len() as int]);
                assert(slots@ =~= all.subrange(items@.len() as int + 1, all.len() as int));
            }
            match s {
                Some(item) => items.push(item),
                None => {
                    assert(this.recorded()[items@.len() as int] is None);
                    return Err(ProcessError::Internal(String::from_str("批处理记录不完整，部分文件没有处理结果。")));
                },
            }
        }
        proof {
            assert forall|i: int| 0 <= i < this.recorded().len() implies #[trigger] this.recorded()[i] is Some by {
                assert(all[i] == Some(items@[i]));
            }
            assert(items@ =~= filled_reports(all));
            assert forall|k: int| 0 <= k < items@.len() implies item_well_reported(#[trigger] items@[k])
                && items@[k].input_path@ == planned@[k].0@ by {
                assert(all[k] == Some(items@[k]));
            }
        }
        let ghost seen = items@;
        let r = complete_job(report, &planned, items);
        proof {
            assert(seen.len() == planned@.len() && this.started().total == planned@.len());
            assert(this.inputs() == planned_inputs(planned@));
            let perm = choose|perm: Seq<int>| #[trigger] reports_match_files(r.items@, planned_inputs(planned@), perm);
            assert(reports_match_files(r.items@, this.inputs(), perm));
        }
        Ok(r)
    }
}

/// The first count of a tally is the number of statuses counted.
proof fn lemma_tally_counts_items(s: Seq<BatchItemStatus>)
    ensures
        tally_of(s).0 == s.len(),
    decreases s.len(),
{
    if s.len() > 0 {
        lemma_tally_counts_items(s.drop_last());
    }
}

} // verus!
