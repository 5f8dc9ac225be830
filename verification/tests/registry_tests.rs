use art_tool::registry::{ProcessorKind, ProcessorParams, ProcessorRegistry};
use art_tool::compress::CompressParams;

#[test]
fn lists_processors_by_display_name() {
    let registry = ProcessorRegistry::default_registry();
    let list = registry.descriptors();
    assert_eq!(list.len(), 8);
    for w in list.windows(2) {
        assert!(w[0].display_name <= w[1].display_name);
    }
    let compress = list.iter().find(|d| d.id == "compress").expect("compress");
    assert!(!compress.enabled);
}

#[test]
fn finds_registered_processors_by_id() {
    let registry = ProcessorRegistry::default_registry();
    assert_eq!(registry.get("repair"), Some(ProcessorKind::Repair));
    assert_eq!(registry.get("rename"), Some(ProcessorKind::Rename));
    assert_eq!(registry.get("manual-crop"), Some(ProcessorKind::ManualCrop));
    assert_eq!(registry.get("upscale-anime"), Some(ProcessorKind::UpscaleAnime));
    assert_eq!(registry.get("magic"), None);
    for id in ["trim-transparent", "format-convert", "compress", "repair", "resolution-transform", "rename", "manual-crop", "upscale-anime"] {
        let kind = registry.get(id).expect("registered");
        assert_eq!(kind.descriptor().id, id);
    }
    let mut r = ProcessorRegistry::new();
    assert_eq!(r.get("repair"), None);
    r.register(ProcessorKind::Repair);
    r.register(ProcessorKind::Repair);
    assert_eq!(r.descriptors().len(), 1);
    assert_eq!(r.get("repair"), Some(ProcessorKind::Repair));
}

#[test]
fn validation_goes_to_the_processor() {
    let ok = ProcessorKind::Compress.validate(&ProcessorParams::Compress(CompressParams { quality: 50, mode: None }));
    assert!(ok.is_ok());
    let wrong = ProcessorKind::Repair.validate(&ProcessorParams::Rename);
    assert_eq!(wrong.unwrap_err().user_message(), "处理器参数类型不匹配。");
    assert!(ProcessorKind::Rename.validate(&ProcessorParams::Rename).is_ok());
}
