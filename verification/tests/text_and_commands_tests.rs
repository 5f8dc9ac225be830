use art_tool::commands::{
    input_label, path_to_open, prepare_batch_job, upscale_error_message, validate_cancel_request, validate_crop_request,
    validate_start_request, validate_upscale_request, CropImageRequest, StartBatchJobRequest, UpscaleAnimeRequest,
};
use art_tool::ordering::text_less;
use art_tool::processor::ProcessError;
use art_tool::report::report_file_path;
use art_tool::text::decimal_string;
use art_tool::upscale_anime::{sidecar_failure, upscale_sidecar_args};
use art_tool::upscale_runner::{find_models_source, models_source_candidates};

#[test]
fn text_order_is_code_point_order() {
    assert!(text_less("a", "b"));
    assert!(text_less("ab", "abc"));
    assert!(!text_less("abc", "ab"));
    assert!(!text_less("a", "a"));
    assert!(text_less("Z", "a"));
    assert!(text_less("图像压缩", "裁剪透明边缘"));
    assert_eq!(decimal_string(0), "0");
    assert_eq!(decimal_string(4294967295), "4294967295");
}

#[test]
fn request_checks() {
    let crop = CropImageRequest { input_path: " ".to_string(), output_path: "o".to_string(), x: 0, y: 0, width: 1, height: 1 };
    assert_eq!(validate_crop_request(&crop), Err("输入路径不能为空。".to_string()));
    let crop = CropImageRequest { input_path: "i".to_string(), output_path: "o".to_string(), x: 0, y: 0, width: 0, height: 1 };
    assert_eq!(validate_crop_request(&crop), Err("裁剪宽高必须大于 0。".to_string()));
    let up = UpscaleAnimeRequest { input_path: "i".to_string(), output_path: "".to_string(), scale: 2, denoise_level: 1 };
    assert_eq!(validate_upscale_request(&up), Err("输出路径不能为空。".to_string()));
    let up = UpscaleAnimeRequest { input_path: "i".to_string(), output_path: "o".to_string(), scale: 4, denoise_level: 3 };
    assert_eq!(validate_upscale_request(&up), Ok(()));
    let start = StartBatchJobRequest {
        processor_id: "repair".to_string(),
        input_paths: vec![],
        output_dir: "o".to_string(),
        max_concurrency: None,
        include_subdirectories: None,
        write_report: None,
    };
    assert_eq!(validate_start_request(&start), Err("未提供输入路径。".to_string()));
    assert_eq!(validate_cancel_request("  "), Err("jobId 不能为空。".to_string()));
    assert_eq!(path_to_open("  /tmp/x  "), Ok("/tmp/x".to_string()));
    assert_eq!(input_label("/a/b/c.png"), "c.png");
    assert_eq!(input_label("/"), "input");
}

#[test]
fn upscale_engine_arguments_and_errors() {
    let args = upscale_sidecar_args("in.png", "out.png", 4, 2);
    assert_eq!(args, vec!["-i", "in.png", "-o", "out.png", "-n", "2", "-s", "4", "-m", "models-se"]);
    assert_eq!(upscale_error_message(sidecar_failure("   ")), "超分失败，请检查模型文件是否正确放置。");
    assert_eq!(upscale_error_message(sidecar_failure(" oops \n")), "oops");
    assert_eq!(upscale_error_message(ProcessError::Io("x".to_string())), "文件读写失败: x");
}

#[test]
fn model_directory_search() {
    let c = models_source_candidates("/opt/app/bin");
    assert_eq!(c[0], "/opt/app/bin/resources/binaries/models-se");
    assert_eq!(c[1], "/opt/app/bin/resources/models-se");
    assert_eq!(c[2], "/opt/app/bin/src-tauri/binaries/models-se");
    assert_eq!(c[4], "/opt/app/src-tauri/binaries/models-se");
    assert_eq!(c[5], "/opt/app/binaries/models-se");
    let present = vec![false, false, false, true, true];
    assert_eq!(find_models_source(&c, &present), Some(c[3].clone()));
    assert_eq!(find_models_source(&c, &vec![false; 3]), None);
}

#[test]
fn report_file_location() {
    assert_eq!(report_file_path("abc", "/out"), "/out/.art-tool-tmp/reports/batch-report-abc.json");
}

#[test]
fn accepted_start_request_gets_an_id_and_defaults() {
    let start = StartBatchJobRequest {
        processor_id: "repair".to_string(),
        input_paths: vec!["a.png".to_string()],
        output_dir: "out".to_string(),
        max_concurrency: None,
        include_subdirectories: None,
        write_report: Some(false),
    };
    let job = prepare_batch_job(&start).expect("accepted");
    assert_eq!(job.job_id.len(), 36);
    assert!(job.include_subdirectories);
    assert!(!job.write_report);
    let mut blank = start;
    blank.output_dir = "  ".to_string();
    assert_eq!(prepare_batch_job(&blank).unwrap_err(), "输出目录不能为空。");
}
