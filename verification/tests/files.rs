use capdrop::clipboard::{clipboard_script, clipboard_temp_path};
use capdrop::config::AppConfig;
use capdrop::local::{
    expand_path, expand_path_with_home, fill_filename_template, generate_filename,
    image_destination, TimeStamps,
};
use capdrop::markdown::{compute_relative_path, markdown_header, markdown_image_line};
use capdrop::storage::SaveTargetType;

fn stamps() -> TimeStamps {
    TimeStamps {
        timestamp: "20240102_030405".to_string(),
        date: "2024-01-02".to_string(),
        time: "03-04-05".to_string(),
        millis: "678".to_string(),
    }
}

#[test]
fn template_placeholders() {
    assert_eq!(fill_filename_template("screenshot_{timestamp}", &stamps(), 1), "screenshot_20240102_030405");
    assert_eq!(fill_filename_template("{date}/{time}.{ms}", &stamps(), 1), "2024-01-02/03-04-05.678");
    assert_eq!(fill_filename_template("shot_{date}_{seq}", &stamps(), 42), "shot_2024-01-02_42");
    assert_eq!(fill_filename_template("{seq}{seq}", &stamps(), 7), "77");
    assert_eq!(fill_filename_template("plain", &stamps(), 3), "plain");
}

#[test]
fn generated_filename_shape() {
    let name = generate_filename("screenshot_{timestamp}", 1);
    assert!(name.starts_with("screenshot_"));
    assert_eq!(name.len(), "screenshot_20240102_030405".len());
    assert!(name["screenshot_".len()..].chars().enumerate().all(|(i, c)| if i == 8 { c == '_' } else { c.is_ascii_digit() }));
    let name = generate_filename("{time}-{ms}-{seq}", 12);
    assert_eq!(name.len(), "03-04-05-678-12".len());
    assert!(name.ends_with("-12"));
    assert_eq!(generate_filename("fixed", 5), "fixed");
}

#[test]
fn stamps_share_one_instant() {
    let name = generate_filename("{date}|{timestamp}|{time}|{ms}", 3);
    let parts: Vec<&str> = name.split('|').collect();
    assert_eq!(parts.len(), 4);
    let (date, stamp, time, ms) = (parts[0], parts[1], parts[2], parts[3]);
    assert_eq!(date.len(), 10);
    assert_eq!(date.replace('-', ""), stamp[..8]);
    assert_eq!(time.replace('-', ""), stamp[9..]);
    assert_eq!(ms.len(), 3);
    assert!(ms.chars().all(|c| c.is_ascii_digit()));
    let name = generate_filename("shot_{date}_{seq}", 9);
    assert!(name.starts_with("shot_"));
    assert!(name.ends_with("_9"));
    assert_eq!(name.len(), "shot_2024-01-02_9".len());
}

#[test]
fn tilde_expansion() {
    assert_eq!(expand_path_with_home("~/Pictures/CapDrop", Some("/home/u")).unwrap(), "/home/u/Pictures/CapDrop");
    assert_eq!(expand_path_with_home("~~//x", Some("/home/u")).unwrap(), "/home/u/x");
    assert_eq!(expand_path_with_home("~", Some("/home/u")).unwrap(), "/home/u/");
    assert_eq!(expand_path_with_home("~/a", None), Err("Cannot find home directory".to_string()));
    assert_eq!(expand_path_with_home("/abs/~", None).unwrap(), "/abs/~");
    assert_eq!(expand_path("relative/dir").unwrap(), "relative/dir");
}

#[test]
fn destination_under_configured_folder() {
    let mut config = AppConfig::default();
    config.default_save_path = "/data/shots".to_string();
    config.filename_template = "img".to_string();
    let d = image_destination(&config, 1).unwrap();
    assert_eq!(d.dir, "/data/shots");
    assert_eq!(d.file, "/data/shots/img.png");
    config.filename_template = "img_{seq}".to_string();
    assert_eq!(image_destination(&config, 9).unwrap().file, "/data/shots/img_9.png");
}

#[test]
fn relative_paths() {
    assert_eq!(compute_relative_path("/notes/a.md", "/notes/img/x.png"), "img/x.png");
    assert_eq!(compute_relative_path("/notes/a.md", "/other/x.png"), "/other/x.png");
    assert_eq!(compute_relative_path("a.md", "x.png"), "x.png");
    assert_eq!(compute_relative_path("", "/x.png"), "/x.png");
}

#[test]
fn markdown_lines() {
    assert_eq!(markdown_header(), "# CapDrop Screenshots\n\n");
    assert_eq!(
        markdown_image_line("/notes/a.md", "/notes/shots/s.png", Some("Shot")),
        "![Shot](shots/s.png)\n\n"
    );
    let line = markdown_image_line("/notes/a.md", "/elsewhere/s.png", None);
    assert!(line.starts_with("![CapDrop_"));
    assert!(line.ends_with("](/elsewhere/s.png)\n\n"));
    assert_eq!(line.len(), "![CapDrop_20240102_030405](/elsewhere/s.png)\n\n".len());
}

#[test]
fn clipboard_pieces() {
    assert_eq!(
        clipboard_script("/tmp/c.png"),
        "set the clipboard to (read (POSIX file \"/tmp/c.png\") as \u{ab}class PNGf\u{bb})"
    );
    let p = clipboard_temp_path();
    assert!(p.starts_with("/tmp/capdrop_clip_") && p.ends_with(".png"));
}

#[test]
fn default_config() {
    let c = AppConfig::default();
    assert_eq!(c.hotkey, "Alt+Shift+S");
    assert_eq!(c.save_targets.len(), 2);
    assert_eq!(c.save_targets[0].target_type, SaveTargetType::Clipboard);
    assert_eq!(c.save_targets[0].path, None);
    assert!(c.save_targets[0].enabled);
    assert_eq!(c.save_targets[1].target_type, SaveTargetType::LocalFile);
    assert_eq!(c.save_targets[1].path.as_deref(), Some("~/Pictures/CapDrop"));
    assert!(c.save_targets[1].enabled);
    assert_eq!(c.default_save_path, "~/Pictures/CapDrop");
    assert_eq!(c.filename_template, "screenshot_{timestamp}");
    assert_eq!(c.markdown_path, None);
    assert!(capdrop::hotkey::parse_shortcut(&c.hotkey).is_ok());
}

#[test]
fn update_replaces_settings() {
    let mut c = AppConfig::default();
    let mut n = AppConfig::default();
    n.hotkey = "Ctrl+F1".to_string();
    n.markdown_path = Some("/n.md".to_string());
    c.update(n);
    assert_eq!(c.hotkey, "Ctrl+F1");
    assert_eq!(c.markdown_path.as_deref(), Some("/n.md"));
}

#[test]
fn config_file_location() {
    assert_eq!(AppConfig::config_path_under("/home/u"), "/home/u/.capdrop/config.json");
    assert_eq!(AppConfig::config_path_from_home(Some("/h")).unwrap(), "/h/.capdrop/config.json");
    assert_eq!(AppConfig::config_path_from_home(None), Err("Cannot find home directory".to_string()));
    if let Ok(p) = AppConfig::config_path() {
        assert!(p.ends_with("/.capdrop/config.json"));
    }
}
