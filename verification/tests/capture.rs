use capdrop::capture::{
    bgra_to_rgba, capture_temp_path, crop_screenshot, rgba_to_png, decode_png_base64, decode_screenshot, encode_screenshot,
    region_rect, screencapture_args, screenshot_from_base64, MacCaptureEngine, Screenshot,
    WindowsCaptureEngine,
};

fn png(width: u32, height: u32) -> Vec<u8> {
    let img = image::RgbaImage::new(width, height);
    let mut out = Vec::new();
    img.write_to(&mut std::io::Cursor::new(&mut out), image::ImageFormat::Png).unwrap();
    out
}

#[test]
fn engines() {
    let _m = MacCaptureEngine::new();
    let _w = WindowsCaptureEngine::new();
}

#[test]
fn decode_reads_size() {
    let data = png(2, 3);
    let s = decode_screenshot(data.clone(), "Decode screenshot error: ").unwrap();
    assert_eq!((s.width, s.height), (2, 3));
    assert_eq!(s.data, data);
}

#[test]
fn decode_error_has_prefix() {
    let e = decode_screenshot(vec![1, 2, 3], "Decode region error: ").err().unwrap();
    assert!(e.starts_with("Decode region error: "));
    assert!(e.len() > "Decode region error: ".len());
}

#[test]
fn base64_round_trip() {
    let data = png(4, 1);
    let shot = Screenshot { data: data.clone(), width: 4, height: 1 };
    let text = encode_screenshot(&shot);
    assert_ne!(text.as_bytes(), data.as_slice());
    assert_eq!(decode_png_base64(&text).unwrap(), data);
    let back = screenshot_from_base64(&text).unwrap();
    assert_eq!((back.data, back.width, back.height), (data, 4, 1));
}

#[test]
fn base64_known_values() {
    let shot = Screenshot { data: b"Man".to_vec(), width: 0, height: 0 };
    assert_eq!(encode_screenshot(&shot), "TWFu");
    assert_eq!(decode_png_base64("TWE=").unwrap(), b"Ma".to_vec());
}

#[test]
fn base64_rejects_non_canonical_text() {
    assert!(decode_png_base64("TWF=").is_err());
    assert!(decode_png_base64("TWE").is_err());
    assert!(decode_png_base64("TW==").is_err());
    assert!(decode_png_base64(" TWFu").is_err());
    assert_eq!(decode_png_base64("").unwrap(), Vec::<u8>::new());
}

#[test]
fn transport_errors() {
    let e = screenshot_from_base64("not base64!").err().unwrap();
    assert!(e.starts_with("Base64 decode error: "));
    let e = screenshot_from_base64("TWFu").err().unwrap();
    assert!(e.starts_with("Image decode error: "));
}

#[test]
fn region_argument() {
    assert_eq!(region_rect(10, 20, 300, 4000), "10,20,300,4000");
    assert_eq!(region_rect(0, 0, 0, 0), "0,0,0,0");
}

#[test]
fn screencapture_command_line() {
    assert_eq!(screencapture_args(None, "/tmp/a.png"), vec!["-x", "-t", "png", "/tmp/a.png"]);
    assert_eq!(
        screencapture_args(Some("1,2,3,4"), "/tmp/b.png"),
        vec!["-x", "-t", "png", "-R", "1,2,3,4", "/tmp/b.png"]
    );
}

#[test]
fn capture_temp_path_shape() {
    let p = capture_temp_path();
    assert!(p.starts_with("/tmp/capdrop_"));
    assert!(p.ends_with(".png"));
    let stamp = &p["/tmp/capdrop_".len()..p.len() - 4];
    assert_eq!(stamp.len(), "20250101_120000_123".len());
}

#[test]
fn pixel_order() {
    let mut v = vec![1u8, 2, 3, 4, 5, 6, 7, 8, 9];
    bgra_to_rgba(&mut v);
    assert_eq!(v, vec![3, 2, 1, 4, 7, 6, 5, 8, 9]);
    bgra_to_rgba(&mut v);
    assert_eq!(v, vec![1, 2, 3, 4, 5, 6, 7, 8, 9]);
}

#[test]
fn crop_clamps_to_image() {
    let full = Screenshot { data: png(10, 6), width: 10, height: 6 };
    let c = crop_screenshot(&full, 2, 1, 3, 4).unwrap();
    assert_eq!((c.width, c.height), (3, 4));
    let d = decode_screenshot(c.data, "x").unwrap();
    assert_eq!((d.width, d.height), (3, 4));
    let c = crop_screenshot(&full, 8, 5, 50, 50).unwrap();
    assert_eq!((c.width, c.height), (2, 1));
}

#[test]
fn crop_errors() {
    let bad = Screenshot { data: vec![0, 1, 2], width: 1, height: 1 };
    assert!(crop_screenshot(&bad, 0, 0, 1, 1).err().unwrap().starts_with("Decode for crop: "));
    let full = Screenshot { data: png(4, 4), width: 4, height: 4 };
    assert!(crop_screenshot(&full, 9, 9, 1, 1).err().unwrap().starts_with("PNG encode crop: "));
}

#[test]
fn rgba_buffers_to_png() {
    let png_data = rgba_to_png(2, 2, vec![255u8; 16]).unwrap();
    let s = decode_screenshot(png_data, "x").unwrap();
    assert_eq!((s.width, s.height), (2, 2));
    assert_eq!(rgba_to_png(2, 2, vec![0u8; 15]), Err("Failed to create image buffer".to_string()));
}
