use art_tool::batch_job_runner::{
    build_temp_output_path, complete_job, default_final_message, discovered_payload, effective_concurrency, extension_for_path,
    finish_job, item_finished_payload, plan_batch_job, preferred_extension_for_steps, sanitize_fragment, scanning_payload,
    BatchJobRequest, BatchTally, ItemRun, JobPlan, JobRun, WorkflowStep,
};
use art_tool::file_discovery::{discover_files, InputPath, InputPathKind, WalkEntry};
use art_tool::format_convert::FormatConvertParams;
use art_tool::output_resolver::{RenameConfig, RenameMode};
use art_tool::processor::{ProcessError, ProcessResult};
use art_tool::registry::{ProcessorParams, ProcessorRegistry};
use art_tool::report::BatchItemStatus;
use art_tool::trim_transparent::TrimTransparentParams;
use art_tool::compress::{CompressParams, CompressPlan, CompressProcessor};
use art_tool::repair::{upscale_dimensions, RepairParams};
use art_tool::resolution_transform::{resolve_target_for_input, ResolutionTarget, ResolutionTransformParams};
use art_tool::rename::{RenamePlan, RenameProcessor};

fn trim_params() -> Result<ProcessorParams, String> {
    Ok(ProcessorParams::TrimTransparent(TrimTransparentParams { alpha_threshold: 0, padding: 0 }))
}

fn dir(path: &str, files: &[&str]) -> InputPath {
    InputPath {
        path: path.to_string(),
        kind: InputPathKind::Directory(
            files.iter().map(|f| WalkEntry { path: format!("{path}/{f}"), depth: 1, is_file: true }).collect(),
        ),
    }
}

fn request(job: &str, processor: &str, files: &[&str], steps: Vec<WorkflowStep>, rename: Option<RenameConfig>) -> BatchJobRequest {
    BatchJobRequest {
        job_id: job.to_string(),
        processor_id: processor.to_string(),
        input_paths: vec![dir("in", files)],
        output_dir: "out".to_string(),
        params: trim_params(),
        workflow_steps: steps,
        rename_config: rename,
        max_concurrency: Some(1),
        include_subdirectories: true,
    }
}

fn plan(req: BatchJobRequest) -> JobPlan {
    let registry = ProcessorRegistry::default_registry();
    plan_batch_job(req, &registry, &Vec::new()).expect("plan")
}

fn success(path: &str) -> Result<ProcessResult, ProcessError> {
    Ok(ProcessResult::success("裁剪完成。".to_string(), path.to_string()))
}

#[test]
fn continues_after_single_file_failure() {
    let p = plan(request("job-test-1", "trim-transparent", &["valid.png", "invalid.png"], vec![], None));
    assert_eq!(p.report.total, 2);
    let mut tally = BatchTally::new();
    let mut items = Vec::new();
    for (i, (input, output)) in p.planned.iter().enumerate() {
        let mut run = ItemRun::start(i, input.clone(), output.clone(), &p.steps);
        let expected = run.step_output_path(&p.steps, &p.temp_root);
        assert_eq!(&expected, output);
        let outcome = if input.ends_with("invalid.png") {
            Err(ProcessError::Image("bad data".to_string()))
        } else {
            success(&expected)
        };
        run.record_outcome(&p.steps, &expected, outcome, 3);
        assert!(run.finished);
        let (report, temps) = run.finish(&p.steps, 5);
        assert!(temps.is_empty());
        tally.record(report.status);
        items.push(report);
    }
    assert!(!p.report.started_at.is_empty());
    assert!(p.report.finished_at.is_empty());
    let report = finish_job(p.report, &tally, items);
    assert!(!report.finished_at.is_empty());
    assert_eq!(report.succeeded, 1);
    assert_eq!(report.failed, 1);
    assert_eq!(report.items.len(), 2);
    assert_eq!(report.items[0].input_path, "in/invalid.png");
    assert_eq!(report.items[0].message, "步骤 trim-transparent 失败: 图片解析失败: bad data");
    assert!(report.items[0].output_path.is_none());
    assert_eq!(report.items[1].status, BatchItemStatus::Success);
}

#[test]
fn cancellation_marks_remaining_items() {
    let p = plan(request("job-test-2", "trim-transparent", &["sample.png"], vec![], None));
    assert_eq!(p.report.total, 1);
    let mut tally = BatchTally::new();
    let mut run = ItemRun::start(0, p.planned[0].0.clone(), p.planned[0].1.clone(), &p.steps);
    run.cancel(&p.steps);
    let (item, _) = run.finish(&p.steps, 0);
    assert_eq!(item.message, "任务已取消。");
    tally.record(item.status);
    let report = finish_job(p.report, &tally, vec![item]);
    assert_eq!(report.cancelled, 1);
    assert_eq!(report.succeeded, 0);
}

#[test]
fn format_convert_generates_target_extension() {
    let steps = vec![WorkflowStep {
        step_id: "s".to_string(),
        processor_id: "format-convert".to_string(),
        params: Ok(ProcessorParams::FormatConvert(FormatConvertParams { target_format: "jpg".to_string() })),
    }];
    let p = plan(request("job-test-3", "format-convert", &["sample.png"], steps, None));
    assert!(p.planned[0].1.ends_with(".jpg"));
}

#[test]
fn workflow_steps_with_rename_template_run_successfully() {
    let steps = vec![
        WorkflowStep { step_id: "step-1".to_string(), processor_id: "trim-transparent".to_string(), params: trim_params() },
        WorkflowStep {
            step_id: "step-2".to_string(),
            processor_id: "format-convert".to_string(),
            params: Ok(ProcessorParams::FormatConvert(FormatConvertParams { target_format: "jpg".to_string() })),
        },
    ];
    let rename = RenameConfig {
        enabled: true,
        mode: RenameMode::Template,
        custom_name: None,
        template: Some("asset_{index}".to_string()),
        start_index: 1,
        index_padding: 2,
    };
    let p = plan(request("job-test-8", "trim-transparent", &["sample.png"], steps, Some(rename)));
    assert_eq!(p.report.processor_id, "workflow");
    let (input, output) = p.planned[0].clone();
    assert!(output.ends_with("asset_01.jpg"));
    let mut run = ItemRun::start(0, input.clone(), output.clone(), &p.steps);
    let first = run.step_output_path(&p.steps, &p.temp_root);
    assert!(first.ends_with("item-0-step-0-sample.png"));
    assert!(first.contains(".art-tool-tmp"));
    run.record_outcome(&p.steps, &first, success(&first), 1);
    assert!(!run.finished);
    assert_eq!(run.current_input, first);
    let second = run.step_output_path(&p.steps, &p.temp_root);
    assert_eq!(second, output);
    run.record_outcome(&p.steps, &second, Ok(ProcessResult::success("格式转换完成。".to_string(), second.clone())), 1);
    let (item, temps) = run.finish(&p.steps, 2);
    assert_eq!(temps, vec![first]);
    assert_eq!(item.steps.len(), 2);
    assert_eq!(item.steps[1].step_index, 2);
    assert_eq!(item.output_path.as_deref(), Some(output.as_str()));
}

#[test]
fn skipped_step_ends_the_item() {
    let p = plan(request("job-s", "trim-transparent", &["a.png"], vec![], None));
    let mut run = ItemRun::start(0, p.planned[0].0.clone(), p.planned[0].1.clone(), &p.steps);
    run.record_outcome(&p.steps, "x.png", Ok(ProcessResult::skipped("图片完全透明，已跳过输出。".to_string())), 1);
    let (item, _) = run.finish(&p.steps, 1);
    assert_eq!(item.status, BatchItemStatus::Skipped);
    assert_eq!(item.message, "步骤 trim-transparent 跳过: 图片完全透明，已跳过输出。");
    assert!(item.output_path.is_none());
}

#[test]
fn unknown_processor_and_bad_params_are_refused() {
    let registry = ProcessorRegistry::default_registry();
    let e = plan_batch_job(request("j", "magic", &["a.png"], vec![], None), &registry, &Vec::new()).unwrap_err();
    assert_eq!(e.user_message(), "处理器不存在或未注册: magic");
    let e = plan_batch_job(request("j", "  ", &["a.png"], vec![], None), &registry, &Vec::new()).unwrap_err();
    assert_eq!(e.user_message(), "工作流存在空处理器标识。");
    let mut r = request("j", "trim-transparent", &["a.png"], vec![], None);
    r.params = Err("missing field".to_string());
    let e = plan_batch_job(r, &registry, &Vec::new()).unwrap_err();
    assert_eq!(e.user_message(), "参数格式错误: missing field");
    let e = plan_batch_job(request("j", "trim-transparent", &["a.jpg"], vec![], None), &registry, &Vec::new()).unwrap_err();
    assert_eq!(e.user_message(), "未找到可处理的图片文件。");
}

#[test]
fn helpers_of_intermediate_files() {
    assert_eq!(sanitize_fragment("__my photo!__"), "my_photo");
    assert_eq!(sanitize_fragment("___"), "item");
    assert_eq!(sanitize_fragment(&"a".repeat(50)).len(), 40);
    assert_eq!(extension_for_path("x/y.PNG"), "png");
    assert_eq!(extension_for_path("x/y"), "png");
    let step = WorkflowStep { step_id: String::new(), processor_id: "trim-transparent".to_string(), params: trim_params() };
    let p = build_temp_output_path("tmp", 3, 1, "in/My File.webp", &step);
    assert!(p.ends_with("item-3-step-1-My_File.webp"));
    let steps = vec![step];
    assert_eq!(preferred_extension_for_steps(&steps), None);
}

#[test]
fn messages_and_payloads() {
    assert_eq!(default_final_message(BatchItemStatus::Skipped), "已跳过。");
    assert_eq!(default_final_message(BatchItemStatus::Cancelled), "任务已取消。");
    assert_eq!(scanning_payload("j").message, "正在扫描输入文件...");
    let d = discovered_payload("j", 12);
    assert_eq!(d.message, "已发现 12 个文件，准备开始处理。");
    assert_eq!(d.total, 12);
    assert_eq!(effective_concurrency(None, Some(8)), 7);
    assert_eq!(effective_concurrency(None, None), 1);
    assert_eq!(effective_concurrency(Some(0), Some(8)), 1);
    assert_eq!(effective_concurrency(Some(3), None), 3);
}

#[test]
fn tally_counts_every_item_once() {
    let mut tally = BatchTally::new();
    for s in [BatchItemStatus::Success, BatchItemStatus::Failed, BatchItemStatus::Skipped, BatchItemStatus::Cancelled, BatchItemStatus::Success] {
        tally.record(s);
    }
    assert_eq!(tally.processed(), 5);
    assert_eq!(tally.succeeded() + tally.failed() + tally.skipped() + tally.cancelled(), 5);
    assert_eq!(tally.succeeded(), 2);
}

#[test]
fn finished_payload_names_the_last_step() {
    let p = plan(request("job-p", "trim-transparent", &["a.png"], vec![], None));
    let mut run = ItemRun::start(0, p.planned[0].0.clone(), p.planned[0].1.clone(), &p.steps);
    let out = run.step_output_path(&p.steps, &p.temp_root);
    run.record_outcome(&p.steps, &out, success(&out), 4);
    let (item, _) = run.finish(&p.steps, 4);
    let mut tally = BatchTally::new();
    tally.record(item.status);
    let payload = item_finished_payload("job-p", &tally, 1, &item);
    assert_eq!(payload.processed, 1);
    assert_eq!(payload.current_step_index, Some(1));
    assert_eq!(payload.current_step_total, Some(1));
    assert_eq!(payload.current_step_processor_id.as_deref(), Some("trim-transparent"));
}

#[test]
fn discovered_files_are_sorted_and_unique() {
    let mut req = request("job-d", "trim-transparent", &["b.png", "a.png", "c.PNG", "d.jpg"], vec![], None);
    req.input_paths.push(InputPath { path: "in/a.png".to_string(), kind: InputPathKind::File });
    let p = plan(req);
    let inputs: Vec<String> = p.planned.iter().map(|(i, _)| i.clone()).collect();
    assert_eq!(inputs, vec!["in/a.png".to_string(), "in/b.png".to_string(), "in/c.PNG".to_string()]);
}

fn single(processor: &str, params: Result<ProcessorParams, String>, files: &[&str], rename: Option<RenameConfig>) -> JobPlan {
    let mut req = request("job-x", processor, files, vec![], rename);
    req.params = params;
    plan(req)
}

#[test]
fn compress_batch_runs_successfully() {
    let params = CompressParams { quality: 45, mode: Some("lossy".to_string()) };
    let p = single("compress", Ok(ProcessorParams::Compress(CompressParams { quality: 45, mode: Some("lossy".to_string()) })), &["sample.jpg"], None);
    assert_eq!(p.report.total, 1);
    let (input, output) = &p.planned[0];
    assert!(output.ends_with(".jpg"));
    assert!(matches!(CompressProcessor.plan(&params, input).unwrap(), CompressPlan::Encode { .. }));
}

#[test]
fn repair_batch_runs_successfully() {
    let params = RepairParams { mode: "auto".to_string(), strength: 60, upscale_factor: 2, upscale_sharpness: 70 };
    let p = single("repair", Ok(ProcessorParams::Repair(params)), &["sample.png"], None);
    assert_eq!(p.report.total, 1);
    assert!(p.planned[0].1.ends_with(".png"));
}

#[test]
fn repair_upscale_batch_increases_resolution() {
    let params = RepairParams { mode: "upscale".to_string(), strength: 70, upscale_factor: 2, upscale_sharpness: 70 };
    let p = single("repair", Ok(ProcessorParams::Repair(params)), &["sample.png"], None);
    assert_eq!(p.report.total, 1);
    assert_eq!(upscale_dimensions(20, 20, 2), (40, 40));
}

#[test]
fn resolution_transform_batch_supports_file_override() {
    let make = || ResolutionTransformParams {
        target_width: 120,
        target_height: 120,
        upscale_sharpness: 72,
        file_overrides: vec![("in/sample.png".to_string(), ResolutionTarget { target_width: 64, target_height: 64 })],
    };
    let p = single("resolution-transform", Ok(ProcessorParams::ResolutionTransform(make())), &["sample.png"], None);
    assert_eq!(p.report.total, 1);
    assert_eq!(resolve_target_for_input(&make(), &p.planned[0].0), (64, 64, true));
}

#[test]
fn rename_processor_runs_with_custom_name() {
    let rename = RenameConfig {
        enabled: true,
        mode: RenameMode::Custom,
        custom_name: Some("item".to_string()),
        template: None,
        start_index: 1,
        index_padding: 0,
    };
    let p = single("rename", Ok(ProcessorParams::Rename), &["sample.png"], Some(rename));
    let (input, output) = &p.planned[0];
    assert!(output.ends_with("item.png"));
    match RenameProcessor.plan(input, output) {
        RenamePlan::Copy { result } => assert_eq!(result.output_path.as_deref(), Some(output.as_str())),
        other => panic!("unexpected plan {:?}", other),
    }
}

#[test]
fn complete_job_accounts_for_every_planned_file() {
    let p = plan(request("job-test-complete", "trim-transparent", &["c.png", "a.png", "b.png"], vec![], None));
    assert_eq!(p.report.total, 3);
    let mut items = Vec::new();
    for (i, (input, output)) in p.planned.iter().enumerate() {
        let mut run = ItemRun::start(i, input.clone(), output.clone(), &p.steps);
        let expected = run.step_output_path(&p.steps, &p.temp_root);
        if input.ends_with("b.png") {
            run.cancel(&p.steps);
        } else if input.ends_with("c.png") {
            run.record_outcome(&p.steps, &expected, Err(ProcessError::Image("bad".to_string())), 1);
        } else {
            run.record_outcome(&p.steps, &expected, success(&expected), 1);
        }
        let (report, _) = run.finish(&p.steps, 2);
        items.push(report);
    }
    let report = complete_job(p.report, &p.planned, items);
    assert_eq!(report.job_id, "job-test-complete");
    assert_eq!(report.processor_id, "trim-transparent");
    assert_eq!(report.total, 3);
    assert_eq!(report.succeeded, 1);
    assert_eq!(report.failed, 1);
    assert_eq!(report.cancelled, 1);
    assert_eq!(report.skipped, 0);
    assert_eq!(report.succeeded + report.failed + report.skipped + report.cancelled, report.total);
    assert!(!report.finished_at.is_empty());
    let inputs: Vec<&str> = report.items.iter().map(|i| i.input_path.as_str()).collect();
    assert_eq!(inputs, vec!["in/a.png", "in/b.png", "in/c.png"]);
    for item in &report.items {
        assert_eq!(item.output_path.is_some(), item.status == BatchItemStatus::Success);
    }
}

#[test]
fn job_run_reports_every_planned_file_once() {
    let p = plan(request("job-test-run", "trim-transparent", &["b.png", "a.png"], vec![], None));
    let mut finished = Vec::new();
    for (i, (input, output)) in p.planned.iter().enumerate() {
        let mut run = ItemRun::start(i, input.clone(), output.clone(), &p.steps);
        let expected = run.step_output_path(&p.steps, &p.temp_root);
        run.record_outcome(&p.steps, &expected, success(&expected), 1);
        finished.push(run.finish(&p.steps, 2).0);
    }
    let second = finished.pop().expect("second");
    let first = finished.pop().expect("first");
    let mut job = JobRun::new(p.report, p.planned.clone());
    // A report recorded under another file's index is refused.
    let wrong = ItemRun::start(0, p.planned[0].0.clone(), p.planned[0].1.clone(), &p.steps);
    let mut wrong = wrong;
    wrong.cancel(&p.steps);
    let (wrong_report, _) = wrong.finish(&p.steps, 0);
    assert!(!job.record(1, wrong_report));
    assert!(job.record(1, second));
    assert!(!job.record(5, first_clone_placeholder()));
    assert!(job.record(0, first));
    let report = job.complete().expect("complete");
    assert_eq!(report.total, 2);
    assert_eq!(report.items.len(), 2);
    assert_eq!(report.succeeded, 2);
    assert_eq!(report.succeeded + report.failed + report.skipped + report.cancelled, report.total);
    assert_eq!(report.items[0].input_path, "in/a.png");
    assert_eq!(report.items[1].input_path, "in/b.png");
}

fn first_clone_placeholder() -> art_tool::report::BatchItemReport {
    art_tool::report::BatchItemReport {
        input_path: "in/x.png".to_string(),
        output_path: None,
        status: BatchItemStatus::Skipped,
        message: "跳过".to_string(),
        duration_ms: 0,
        steps: Vec::new(),
    }
}

#[test]
fn job_run_incomplete_is_an_internal_error() {
    let p = plan(request("job-test-run-2", "trim-transparent", &["a.png"], vec![], None));
    let job = JobRun::new(p.report, p.planned.clone());
    match job.complete() {
        Err(ProcessError::Internal(m)) => assert_eq!(m, "批处理记录不完整，部分文件没有处理结果。"),
        other => panic!("unexpected: {other:?}"),
    }
}

#[test]
fn discovery_sorts_by_path_and_keeps_first_of_equal_paths() {
    let inputs = vec![
        InputPath { path: "z/b.png".to_string(), kind: InputPathKind::File },
        InputPath { path: "a.b/c.png".to_string(), kind: InputPathKind::File },
        InputPath { path: "a/c.png".to_string(), kind: InputPathKind::File },
        InputPath { path: "z/./b.png".to_string(), kind: InputPathKind::File },
        InputPath { path: "z/b.png".to_string(), kind: InputPathKind::File },
    ];
    let files = discover_files(&inputs, "trim-transparent", true).expect("files");
    // Path order compares components: "a" sorts before "a.b".
    assert_eq!(files, vec!["a/c.png".to_string(), "a.b/c.png".to_string(), "z/b.png".to_string()]);
}
