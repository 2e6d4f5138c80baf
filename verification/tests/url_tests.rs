use notecrumbs::urls::{ends_with, is_image, is_image_url, is_video, strip_querystring};

#[test]
fn image_url_detection_handles_common_extensions() {
    assert!(is_image_url("https://example.com/cat.png"));
    assert!(is_image_url("https://example.com/PHOTO.JPG"));
    assert!(is_image_url("https://example.com/pic.webp?size=1024"));
    assert!(is_image_url("https://example.com/path/file.avif#anchor"));
}

#[test]
fn image_url_detection_rejects_non_images() {
    assert!(!is_image_url("https://example.com"));
    assert!(!is_image_url(
        "nostr:note1k8fwhsrgyyxd39zs5rzexfpknwzqxvg6gfxw0arjv9nwrsadn0hqcm2y3d"
    ));
    assert!(!is_image_url("https://example.com/not_an_image.png.txt"));
}

#[test]
fn image_url_needs_http() {
    assert!(!is_image_url("ftp://example.com/cat.png"));
    assert!(is_image_url("http://example.com/cat.jfif"));
}

#[test]
fn querystring_and_fragment_are_stripped() {
    assert_eq!(strip_querystring("https://a.b/c.mp4?x=1"), "https://a.b/c.mp4");
    assert_eq!(strip_querystring("https://a.b/c.mp4#t"), "https://a.b/c.mp4");
    assert_eq!(strip_querystring("https://a.b/c"), "https://a.b/c");
}

#[test]
fn media_suffixes_ignore_case() {
    assert!(ends_with("photo.JPEG", "jpeg"));
    assert!(!ends_with("jpg", "jpeg"));
    assert!(is_image("https://a.b/x.PNG?size=2"));
    assert!(is_video("https://a.b/clip.MOV"));
    assert!(!is_video("https://a.b/clip.png"));
    assert!(!is_image("https://a.b/readme.txt"));
}
