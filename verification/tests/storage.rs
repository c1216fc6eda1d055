use capdrop::config::AppConfig;
use capdrop::storage::{save_to_all_targets, SaveAction, SaveEvent, SaveResult, SaveTarget, SaveTargetType};

fn target(t: SaveTargetType, enabled: bool) -> SaveTarget {
    SaveTarget { target_type: t, path: None, enabled }
}

fn config(targets: Vec<SaveTarget>, md: Option<&str>) -> AppConfig {
    let mut c = AppConfig::default();
    c.save_targets = targets;
    c.markdown_path = md.map(|s| s.to_string());
    c.default_save_path = "/data/shots".to_string();
    c.filename_template = "img_{seq}".to_string();
    c
}

fn expect_image(action: &SaveAction, file: &str) {
    match action {
        SaveAction::SaveImage { dir, file: f } => {
            assert_eq!(dir, "/data/shots");
            assert_eq!(f, file);
        }
        _ => panic!("expected an image to be saved"),
    }
}

fn summary(r: &SaveResult) -> (String, bool, Option<String>, Option<String>) {
    (r.target.clone(), r.success, r.path.clone(), r.error.clone())
}

#[test]
fn result_constructors() {
    assert_eq!(summary(&SaveResult::success("Clipboard")), ("Clipboard".into(), true, None, None));
    assert_eq!(
        summary(&SaveResult::success_with_path("LocalFile", "/a.png".into())),
        ("LocalFile".into(), true, Some("/a.png".into()), None)
    );
    assert_eq!(
        summary(&SaveResult::error("Markdown", "bad".into())),
        ("Markdown".into(), false, None, Some("bad".into()))
    );
}

#[test]
fn empty_configuration_finishes_at_once() {
    let c = config(vec![], None);
    let (run, action) = save_to_all_targets(&c, 1);
    assert!(matches!(action, SaveAction::Finished));
    assert_eq!(run.sequence_number(), 1);
    assert!(run.into_results().is_empty());
}

#[test]
fn full_run_in_order() {
    let c = config(
        vec![
            target(SaveTargetType::Clipboard, true),
            target(SaveTargetType::LocalFile, false),
            target(SaveTargetType::LocalFile, true),
            target(SaveTargetType::Markdown, true),
            target(SaveTargetType::Clipboard, true),
        ],
        Some("/notes/a.md"),
    );
    let (mut run, mut action) = save_to_all_targets(&c, 1);
    assert!(matches!(action, SaveAction::CopyToClipboard));
    action = run.step(SaveEvent::Copied(Ok(())));
    expect_image(&action, "/data/shots/img_1.png");
    action = run.step(SaveEvent::ImageSaved(Ok(())));
    expect_image(&action, "/data/shots/img_2.png");
    assert_eq!(run.sequence_number(), 3);
    action = run.step(SaveEvent::ImageSaved(Ok(())));
    match &action {
        SaveAction::AppendMarkdown { md_path, image_path } => {
            assert_eq!(md_path, "/notes/a.md");
            assert_eq!(image_path, "/data/shots/img_2.png");
        }
        _ => panic!("expected a Markdown append"),
    }
    assert!(run.accepts(&SaveEvent::Appended(Ok(()))));
    assert!(!run.accepts(&SaveEvent::Copied(Ok(()))));
    action = run.step(SaveEvent::Appended(Ok(())));
    assert!(matches!(action, SaveAction::CopyToClipboard));
    action = run.step(SaveEvent::Copied(Err("no clipboard".into())));
    assert!(matches!(action, SaveAction::Finished));
    let results: Vec<_> = run.into_results().iter().map(summary).collect();
    assert_eq!(
        results,
        vec![
            ("Clipboard".into(), true, None, None),
            ("LocalFile".into(), true, Some("/data/shots/img_1.png".into()), None),
            ("Markdown".into(), true, Some("/data/shots/img_2.png".into()), None),
            ("Clipboard".into(), false, None, Some("no clipboard".into())),
        ]
    );
}

#[test]
fn markdown_without_file_needs_no_work() {
    let c = config(
        vec![target(SaveTargetType::Markdown, true), target(SaveTargetType::Markdown, false)],
        None,
    );
    let (run, action) = save_to_all_targets(&c, 7);
    assert!(matches!(action, SaveAction::Finished));
    assert_eq!(run.sequence_number(), 7);
    let results: Vec<_> = run.results().iter().map(summary).collect();
    assert_eq!(
        results,
        vec![("Markdown".into(), false, None, Some("No markdown path configured".into()))]
    );
}

#[test]
fn failures_are_reported_per_target() {
    let c = config(
        vec![target(SaveTargetType::Markdown, true), target(SaveTargetType::LocalFile, true), target(SaveTargetType::Markdown, true)],
        Some("/m.md"),
    );
    let (mut run, action) = save_to_all_targets(&c, 4294967295);
    expect_image(&action, "/data/shots/img_4294967295.png");
    let action = run.step(SaveEvent::ImageSaved(Err("Write file error: denied".into())));
    expect_image(&action, "/data/shots/img_0.png");
    let action = run.step(SaveEvent::ImageSaved(Err("Create dir error: x".into())));
    expect_image(&action, "/data/shots/img_1.png");
    let action = run.step(SaveEvent::ImageSaved(Ok(())));
    assert!(matches!(action, SaveAction::AppendMarkdown { .. }));
    let action = run.step(SaveEvent::Appended(Err("Open md error: y".into())));
    assert!(matches!(action, SaveAction::Finished));
    let results: Vec<_> = run.results().iter().map(summary).collect();
    assert_eq!(
        results,
        vec![
            ("Markdown".into(), false, None, Some("Write file error: denied".into())),
            ("LocalFile".into(), false, None, Some("Create dir error: x".into())),
            ("Markdown".into(), false, None, Some("Open md error: y".into())),
        ]
    );
}

fn drive(c: &AppConfig, first_seq: u32) -> (Vec<(String, bool, Option<String>, Option<String>)>, u32) {
    let (mut run, mut action) = save_to_all_targets(c, first_seq);
    loop {
        let event = match &action {
            SaveAction::CopyToClipboard => SaveEvent::Copied(Err("no clipboard".into())),
            SaveAction::SaveImage { file, .. } => {
                if file.ends_with("_2.png") {
                    SaveEvent::ImageSaved(Err("Write file error: full".into()))
                } else {
                    SaveEvent::ImageSaved(Ok(()))
                }
            }
            SaveAction::AppendMarkdown { .. } => SaveEvent::Appended(Ok(())),
            SaveAction::Finished => break,
        };
        action = run.step(event);
    }
    let end = run.sequence_number();
    (run.into_results().iter().map(summary).collect(), end)
}

#[test]
fn run_is_each_target_alone() {
    let targets = vec![
        target(SaveTargetType::LocalFile, true),
        target(SaveTargetType::Clipboard, true),
        target(SaveTargetType::Markdown, true),
        target(SaveTargetType::LocalFile, false),
        target(SaveTargetType::LocalFile, true),
    ];
    let c = config(targets.clone(), Some("/m.md"));
    let (whole, end) = drive(&c, 1);
    assert_eq!(end, 4);
    let mut alone = Vec::new();
    let mut seq = 1;
    for t in targets {
        let (r, next) = drive(&config(vec![t], Some("/m.md")), seq);
        alone.extend(r);
        seq = next;
    }
    assert_eq!(whole, alone);
    assert_eq!(
        whole,
        vec![
            ("LocalFile".into(), true, Some("/data/shots/img_1.png".into()), None),
            ("Clipboard".into(), false, None, Some("no clipboard".into())),
            ("Markdown".into(), false, None, Some("Write file error: full".into())),
            ("LocalFile".into(), true, Some("/data/shots/img_3.png".into()), None),
        ]
    );
}
