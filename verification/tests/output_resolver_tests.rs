use art_tool::output_resolver::{
    render_template,
    assign_output_names, format_index, normalize_extension, plan_output_paths, render_template_at, resolve_base_name_at,
    sanitize_base_name, strip_matching_extension, RenameConfig, RenameMode,
};

fn custom(name: &str) -> RenameConfig {
    RenameConfig {
        enabled: true,
        mode: RenameMode::Custom,
        custom_name: Some(name.to_string()),
        template: None,
        start_index: 1,
        index_padding: 0,
    }
}

fn file_name(p: &str) -> String {
    std::path::Path::new(p).file_name().unwrap().to_str().unwrap().to_string()
}

#[test]
fn rename_custom_name_resolves_output_conflicts() {
    let inputs = vec!["in/first.png".to_string(), "in/second.png".to_string()];
    let plan = plan_output_paths(&inputs, "out", None, Some(&custom("avatar")), &Vec::new());
    let names: Vec<String> = plan.iter().map(|(_, o)| file_name(o)).collect();
    assert_eq!(names, vec!["avatar.png".to_string(), "avatar_1.png".to_string()]);
    assert_eq!(plan[0].0, "in/first.png");
}

#[test]
fn existing_files_are_not_overwritten() {
    let inputs = vec!["in/a.png".to_string()];
    let existing = vec!["a.png".to_string(), "a_1.png".to_string()];
    let plan = plan_output_paths(&inputs, "out", None, None, &existing);
    assert_eq!(file_name(&plan[0].1), "a_2.png");
}

#[test]
fn template_with_padded_index_and_preferred_extension() {
    let config = RenameConfig {
        enabled: true,
        mode: RenameMode::Template,
        custom_name: None,
        template: Some("asset_{index}".to_string()),
        start_index: 1,
        index_padding: 2,
    };
    let inputs = vec!["in/sample.png".to_string()];
    let plan = plan_output_paths(&inputs, "out", Some("jpg"), Some(&config), &Vec::new());
    assert!(plan[0].1.ends_with("asset_01.jpg"));
}

#[test]
fn template_placeholders() {
    assert_eq!(render_template_at("{name}-{index}-{date}-{time}.{ext}", "cat", "png", 7, 3, "20240101", "120000"), "cat-007-20240101-120000.png");
    assert_eq!(format_index(5, 0), "5");
    assert_eq!(format_index(5, 3), "005");
    assert_eq!(format_index(12345, 2), "12345");
}

#[test]
fn base_names_are_cleaned() {
    assert_eq!(sanitize_base_name("  a/b:c*?.  "), "a_b_c__");
    assert_eq!(sanitize_base_name(" ... "), "output");
    assert_eq!(sanitize_base_name(&"x".repeat(130)).chars().count(), 120);
    assert_eq!(strip_matching_extension("photo.PNG", "png"), "photo");
    assert_eq!(strip_matching_extension("photo.png", ""), "photo.png");
    assert_eq!(normalize_extension("  ..JPG "), Some("jpg".to_string()));
    assert_eq!(normalize_extension(" . "), None);
}

#[test]
fn base_name_follows_rename_rules() {
    let config = RenameConfig {
        enabled: true,
        mode: RenameMode::Template,
        custom_name: None,
        template: None,
        start_index: 10,
        index_padding: 0,
    };
    assert_eq!(resolve_base_name_at("dir/photo.png", 2, "png", Some(&config), "d", "t"), "photo_12");
    assert_eq!(resolve_base_name_at("dir/photo.png", 2, "png", None, "d", "t"), "photo");
    let mut off = custom("x");
    off.enabled = false;
    assert_eq!(resolve_base_name_at("dir/photo.png", 0, "png", Some(&off), "d", "t"), "photo");
}

#[test]
fn assigned_names_are_distinct() {
    let stems = vec!["a".to_string(), "a".to_string(), "a".to_string()];
    let exts = vec!["png".to_string(), "png".to_string(), "".to_string()];
    let names = assign_output_names(&stems, &exts, &vec!["a.png".to_string()]);
    assert_eq!(names, vec!["a_1.png".to_string(), "a_2.png".to_string(), "a".to_string()]);
}

#[test]
fn template_date_and_time_have_the_clock_form() {
    let r = render_template("{date}|{time}", "n", "png", 1, 0);
    let (date, time) = r.split_once('|').expect("separator");
    assert_eq!(time.len(), 6);
    assert!(time.chars().all(|c| c.is_ascii_digit()));
    assert!(date.len() >= 8);
    assert!(date.chars().skip(1).all(|c| c.is_ascii_digit()));
}
