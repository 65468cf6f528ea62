use developer::error::ErrorKind;
use developer::image_processor::ImageProcessor;
use developer::screen_capture::ScreenCapture;

#[test]
fn test_normalize_mac_screenshot_path() {
    let normalized = ImageProcessor::normalize_mac_screenshot_path("Screenshot 2023-12-01 at 10.30.45 AM.png");
    assert!(std::path::Path::new(&normalized).file_name().is_some());
}

#[test]
fn screenshot_names_get_a_narrow_space() {
    let p = ImageProcessor::normalize_mac_screenshot_path("/Users/me/Screenshot 2023-12-01 at 10.30.45 AM.png");
    assert_eq!(p, "/Users/me/Screenshot 2023-12-01 at 10.30.45\u{202F}AM.png");
    let p = ImageProcessor::normalize_mac_screenshot_path("Screenshot 2023-12-01 at 9.30.45 pm (2).png");
    assert_eq!(p, "Screenshot 2023-12-01 at 9.30.45\u{202F}pm (2).png");
}

#[test]
fn other_names_are_kept() {
    for p in ["/tmp/photo.png", "/tmp/Screenshot 2023-12-01 at 10.30.45 AM.jpg", "", "/"] {
        assert_eq!(ImageProcessor::normalize_mac_screenshot_path(p), p);
    }
}

#[test]
fn resize_factors() {
    assert_eq!(ImageProcessor::resize_divisor("1/2").unwrap(), 2);
    assert_eq!(ImageProcessor::resize_divisor("1/4").unwrap(), 4);
    let e = ImageProcessor::resize_divisor("1/3").unwrap_err();
    assert_eq!(e.kind, ErrorKind::InvalidArgument);
    assert!(e.message.contains("Invalid resize factor"));
    assert_eq!(ImageProcessor::scaled_side(1, 4), 1);
    assert_eq!(ImageProcessor::scaled_side(1000, 4), 250);
}

#[test]
fn window_list_skips_minimized_and_untitled() {
    let titles = vec!["Editor".to_string(), "".to_string(), "<No Title>".to_string(), "Hidden".to_string(), "Term".to_string()];
    let minimized = vec![false, false, false, true, false];
    assert_eq!(ScreenCapture::window_list(&titles, &minimized), "Available windows:\nEditor\nTerm");
    assert_eq!(ScreenCapture::window_list(&vec![], &vec![]), "No windows found");
    let _ = ScreenCapture::new();
    let _ = ImageProcessor::new();
}
