use doxx::image_extractor::{media_file_name, ImageExtractor, ImageFormat};
use doxx::terminal_image::{
    ImageProtocol, RenderPlan, TerminalImageRenderer, TerminalImageSupport, TerminalProbe,
};

fn no_probe() -> TerminalProbe {
    TerminalProbe { term_program: None, iterm_supported: false, term: None, size: None }
}

#[test]
fn test_image_format_detection() {
    assert!(matches!(
        ImageFormat::from_filename("image.png"),
        Some(ImageFormat::Png)
    ));
    assert!(matches!(
        ImageFormat::from_filename("photo.jpg"),
        Some(ImageFormat::Jpeg)
    ));
    assert!(matches!(
        ImageFormat::from_filename("photo.jpeg"),
        Some(ImageFormat::Jpeg)
    ));
    assert!(matches!(
        ImageFormat::from_filename("animation.gif"),
        Some(ImageFormat::Gif)
    ));
    assert!(matches!(
        ImageFormat::from_filename("bitmap.bmp"),
        Some(ImageFormat::Bmp)
    ));
    assert!(matches!(
        ImageFormat::from_filename("scan.tiff"),
        Some(ImageFormat::Tiff)
    ));
    assert!(ImageFormat::from_filename("document.txt").is_none());
}

#[test]
fn image_format_by_extension_edge_cases() {
    assert_eq!(ImageFormat::from_filename("word/media/IMAGE1.PNG"), Some(ImageFormat::Png));
    assert_eq!(ImageFormat::from_filename("scan.tif"), Some(ImageFormat::Tiff));
    assert_eq!(ImageFormat::from_filename("archive.tar.gif"), Some(ImageFormat::Gif));
    assert_eq!(ImageFormat::from_filename(".png"), None);
    assert_eq!(ImageFormat::from_filename("png"), None);
    assert_eq!(ImageFormat::from_filename("dir.png/readme"), None);
    assert_eq!(ImageFormat::from_filename("photo."), None);
    assert_eq!(ImageFormat::from_filename(""), None);
}

#[test]
fn extension_of_each_format() {
    assert_eq!(ImageFormat::Png.to_extension(), "png");
    assert_eq!(ImageFormat::Jpeg.to_extension(), "jpg");
    assert_eq!(ImageFormat::Gif.to_extension(), "gif");
    assert_eq!(ImageFormat::Bmp.to_extension(), "bmp");
    assert_eq!(ImageFormat::Tiff.to_extension(), "tiff");
}

#[test]
fn media_entries_are_picked_by_folder_and_extension() {
    assert_eq!(media_file_name("word/media/image1.png"), Some("image1.png".to_string()));
    assert_eq!(media_file_name("word/media/sub/pic.JPG"), Some("pic.JPG".to_string()));
    assert_eq!(media_file_name("word/document.xml"), None);
    assert_eq!(media_file_name("word/media/notes.txt"), None);
    assert_eq!(media_file_name("media/image1.png"), None);
}

#[test]
fn test_image_extractor_creation() {
    let extractor = ImageExtractor::new("/tmp/doxx_images".to_string());
    assert_eq!(extractor.temp_dir(), "/tmp/doxx_images");
    assert!(extractor.list_images().is_empty());
}

#[test]
fn extractor_keeps_one_entry_for_each_id_in_order() {
    let mut extractor = ImageExtractor::new("/tmp/x".to_string());
    extractor.record_image("image2.png".to_string(), "/tmp/x/image2.png".to_string());
    extractor.record_image("image1.png".to_string(), "/tmp/x/image1.png".to_string());
    extractor.record_image("image3.png".to_string(), "/tmp/x/image3.png".to_string());
    extractor.record_image("image2.png".to_string(), "/tmp/x/other.png".to_string());
    assert_eq!(extractor.get_image_path("image2.png"), Some(&"/tmp/x/other.png".to_string()));
    assert_eq!(extractor.get_image_path("image9.png"), None);
    let sorted = extractor.get_extracted_images_sorted();
    assert_eq!(
        sorted,
        vec![
            ("image1.png".to_string(), "/tmp/x/image1.png".to_string()),
            ("image2.png".to_string(), "/tmp/x/other.png".to_string()),
            ("image3.png".to_string(), "/tmp/x/image3.png".to_string()),
        ]
    );
    assert_eq!(extractor.get_extracted_images(), sorted);
    assert_eq!(extractor.list_images().len(), 3);
    assert!(extractor.is_image_file("a.gif"));
    assert!(!extractor.is_image_file("a.doc"));
}

#[test]
fn test_renderer_creation() {
    let renderer = TerminalImageRenderer::new(&no_probe());
    assert!(renderer.max_width() > 0);
    assert!(renderer.max_height() > 0);
}

#[test]
fn test_can_display_images() {
    let renderer = TerminalImageRenderer::with_support(TerminalImageSupport::Kitty, None);
    assert!(renderer.can_display_images());

    let renderer = TerminalImageRenderer::with_support(TerminalImageSupport::TextOnly, None);
    assert!(!renderer.can_display_images());
}

#[test]
fn test_terminal_image_capabilities() {
    // Test that we can create renderers with specific support
    let kitty_renderer = TerminalImageRenderer::with_support(TerminalImageSupport::Kitty, None);
    assert!(kitty_renderer.can_display_images());

    let no_support_renderer =
        TerminalImageRenderer::with_support(TerminalImageSupport::TextOnly, None);
    assert!(!no_support_renderer.can_display_images());
}

#[test]
fn capabilities_follow_the_probe() {
    let mut probe = no_probe();
    assert_eq!(
        TerminalImageRenderer::detect_capabilities(&probe),
        TerminalImageSupport::HalfBlocks
    );
    probe.term = Some("xterm-kitty".to_string());
    assert_eq!(TerminalImageRenderer::detect_capabilities(&probe), TerminalImageSupport::Kitty);
    probe.term = Some("wezterm".to_string());
    assert_eq!(TerminalImageRenderer::detect_capabilities(&probe), TerminalImageSupport::Kitty);
    probe.term = Some("screen".to_string());
    assert_eq!(
        TerminalImageRenderer::detect_capabilities(&probe),
        TerminalImageSupport::HalfBlocks
    );
    probe.iterm_supported = true;
    assert_eq!(TerminalImageRenderer::detect_capabilities(&probe), TerminalImageSupport::ITerm2);
    probe.term_program = Some("WezTerm".to_string());
    assert_eq!(TerminalImageRenderer::detect_capabilities(&probe), TerminalImageSupport::Kitty);
}

#[test]
fn limits_default_to_the_terminal_size() {
    let mut probe = no_probe();
    probe.size = Some((120, 40));
    let renderer = TerminalImageRenderer::new(&probe);
    assert_eq!((renderer.max_width(), renderer.max_height()), (120, 40));
    assert_eq!(renderer.support(), TerminalImageSupport::HalfBlocks);
    let renderer = TerminalImageRenderer::with_size_limits(&probe, Some(30), None);
    assert_eq!((renderer.max_width(), renderer.max_height()), (30, 40));
    let renderer = TerminalImageRenderer::with_size_limits(&no_probe(), None, Some(7));
    assert_eq!((renderer.max_width(), renderer.max_height()), (80, 7));
}

#[test]
fn render_plan_holds_the_image_to_the_screen() {
    let renderer = TerminalImageRenderer::with_support(TerminalImageSupport::Kitty, Some((200, 10)));
    assert_eq!(
        renderer.render_plan(),
        RenderPlan::Inline { width: 80, height: 10, protocol: ImageProtocol::Kitty }
    );
    let renderer = TerminalImageRenderer::with_support(TerminalImageSupport::ITerm2, Some((60, 50)));
    assert_eq!(
        renderer.render_plan(),
        RenderPlan::Inline { width: 60, height: 24, protocol: ImageProtocol::ITerm }
    );
    let renderer = TerminalImageRenderer::with_support(TerminalImageSupport::HalfBlocks, None);
    assert_eq!(
        renderer.render_plan(),
        RenderPlan::Inline { width: 80, height: 24, protocol: ImageProtocol::Automatic }
    );
    let renderer = TerminalImageRenderer::with_support(TerminalImageSupport::TextOnly, None);
    assert_eq!(renderer.render_plan(), RenderPlan::DescriptionOnly);
}
