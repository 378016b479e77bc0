use surya_ui::attachments::image_bytes::encoded_format;
use surya_ui::attachments::staging::{
    ensure_extension, format_by_extension, stage_checks, stage_contents, supported_extensions,
    unreadable, ImageFormat, StagedKind, MAX_ATTACHMENT_BYTES,
};
use surya_ui::attachments::transport::{
    name_from_path, parse_user_message_images, user_message_rail_text, with_attachments,
    FILE_ONLY_TEXT,
};

#[test]
fn text_and_mixed_attachments_round_trip_without_image_wording() {
    for paths in [
        vec!["/uploads/notes.txt".to_string()],
        vec!["pending://a/notes.txt".to_string(), "pending://b/pic.png".to_string()],
    ] {
        let content = with_attachments("Read the note", &paths);
        assert!(content.contains("Attached files"));
        let parsed = parse_user_message_images(&content);
        assert_eq!(parsed.text, "Read the note");
        assert_eq!(
            parsed
                .attachments
                .iter()
                .map(|a| a.path.clone())
                .collect::<Vec<_>>(),
            paths
        );
    }
}

#[test]
fn file_only_prompt_and_sidebar_use_file_wording() {
    let content = with_attachments("", &["/uploads/notes.txt".into()]);
    assert!(content.starts_with(FILE_ONLY_TEXT));
    assert!(parse_user_message_images(&content).text.is_empty());
    assert_eq!(user_message_rail_text(&content), "Attached file");
}

#[test]
fn known_raster_signatures_override_declarations_and_svg_keeps_its_fallback() {
    for (bytes, format) in [
        (&b"\x89PNG\r\n\x1a\n"[..], ImageFormat::Png),
        (&b"\xff\xd8\xff"[..], ImageFormat::Jpeg),
        (&b"GIF89a"[..], ImageFormat::Gif),
        (&b"RIFF\0\0\0\0WEBP"[..], ImageFormat::Webp),
        (&b"BM"[..], ImageFormat::Bmp),
        (&b"II\x2a\0"[..], ImageFormat::Tiff),
        (&b"MM\0\x2a"[..], ImageFormat::Tiff),
    ] {
        assert_eq!(encoded_format(bytes, ImageFormat::Svg), format);
    }
    assert_eq!(
        encoded_format(b"<svg></svg>", ImageFormat::Svg),
        ImageFormat::Svg
    );
}

#[test]
fn image_only_sends_read_back_as_images() {
    let paths = vec!["/tmp/a.PNG".to_string(), "/tmp/b.jpeg".to_string()];
    let content = with_attachments("", &paths);
    assert_eq!(
        content,
        "See the attached image(s).\n\nAttached images (local files \u{2014} open them to view):\n- /tmp/a.PNG\n- /tmp/b.jpeg"
    );
    let parsed = parse_user_message_images(&content);
    assert_eq!(parsed.text, "");
    assert_eq!(parsed.attachments.len(), 2);
    assert_eq!(parsed.attachments[0].id, "0:/tmp/a.PNG");
    assert_eq!(parsed.attachments[1].name, "b.jpeg");
    assert_eq!(user_message_rail_text(&content), "2 attached images");
}

#[test]
fn a_message_without_a_trailer_is_kept_whole() {
    let text = "Attached images (local files): nothing below";
    let parsed = parse_user_message_images(text);
    assert_eq!(parsed.text, text);
    assert!(parsed.attachments.is_empty());
    assert_eq!(user_message_rail_text(text), text);
    assert_eq!(with_attachments("plain", &[]), "plain");
}

#[test]
fn a_marker_line_that_does_not_close_is_skipped() {
    let content = "Body\n\nattached FILES (local files, stray\n\nATTACHED images (local files):\r\n  - one.png \n-two\n- \n- x/y\\z.gif";
    let parsed = parse_user_message_images(content);
    assert_eq!(parsed.text, "Body\n\nattached FILES (local files, stray");
    let paths: Vec<&str> = parsed.attachments.iter().map(|a| a.path.as_str()).collect();
    assert_eq!(paths, ["one.png", "x/y\\z.gif"]);
    assert_eq!(parsed.attachments[1].name, "z.gif");
    assert_eq!(parsed.attachments[1].id, "1:x/y\\z.gif");
}

#[test]
fn mixed_sends_count_files() {
    let content = with_attachments("", &["a.txt".to_string(), "b.png".to_string()]);
    assert_eq!(user_message_rail_text(&content), "2 attached files");
}

#[test]
fn names_come_from_the_last_path_segment() {
    assert_eq!(name_from_path("/a/b/c.png"), "c.png");
    assert_eq!(name_from_path("C:\\x\\y.jpg"), "y.jpg");
    assert_eq!(name_from_path("/a/b/"), "image");
    assert_eq!(name_from_path("  pic.png "), "pic.png");
}

#[test]
fn formats_follow_the_extension_in_any_case() {
    assert_eq!(format_by_extension("/x/shot.PNG"), Some(ImageFormat::Png));
    assert_eq!(format_by_extension("a.jpg"), Some(ImageFormat::Jpeg));
    assert_eq!(format_by_extension("a.tiff"), Some(ImageFormat::Tiff));
    assert_eq!(format_by_extension("a.txt"), None);
    assert_eq!(format_by_extension(".png"), None, "a dot file has no extension");
    assert_eq!(format_by_extension("dir.png/.."), None);
    assert_eq!(format_by_extension("dir/b.webp/."), Some(ImageFormat::Webp));
    assert_eq!(format_by_extension("README"), None);
}

#[test]
fn the_notice_names_every_accepted_spelling() {
    assert_eq!(
        supported_extensions(),
        "png, jpg, jpeg, gif, webp, svg, bmp, tif, tiff"
    );
}

#[test]
fn a_bare_name_gets_its_format_extension() {
    assert_eq!(ensure_extension("image", ImageFormat::Png), "image.png");
    assert_eq!(ensure_extension("shot.png", ImageFormat::Jpeg), "shot.png");
    assert_eq!(ensure_extension(".png", ImageFormat::Gif), ".png.gif");
    assert_eq!(ensure_extension("a.verylong", ImageFormat::Bmp), "a.verylong.bmp");
    assert_eq!(ensure_extension("a.b", ImageFormat::Tiff), "a.b.tiff");
}

#[test]
fn text_files_stage_as_text_and_binaries_are_refused() {
    let bytes = "release code: maple-42\nUnicode: café\n".as_bytes();
    assert_eq!(
        stage_contents("/d/notes.txt", "notes.txt", bytes).unwrap(),
        ("notes.txt".to_string(), StagedKind::Text)
    );
    assert_eq!(
        stage_contents("/d/README", "README", b"").unwrap(),
        ("README".to_string(), StagedKind::Text)
    );
    for bad in [&[0xffu8][..], &[b'a', 0, b'b'][..]] {
        assert_eq!(
            stage_contents("/d/binary.txt", "binary.txt", bad).unwrap_err(),
            "binary.txt is not a supported image or UTF-8 text file."
        );
    }
}

#[test]
fn images_stage_by_what_their_bytes_are() {
    assert_eq!(
        stage_contents("/d/image.png", "image.png", b"\x89PNG\r\n\x1a\n").unwrap(),
        ("image.png".to_string(), StagedKind::Image(ImageFormat::Png))
    );
    assert_eq!(
        stage_contents("/d/screenshot.png", "screenshot.png", b"\xff\xd8\xff\xe0").unwrap(),
        ("screenshot.png".to_string(), StagedKind::Image(ImageFormat::Jpeg))
    );
}

#[test]
fn oversized_and_odd_files_are_refused_before_reading() {
    assert!(stage_checks("big.txt", true, MAX_ATTACHMENT_BYTES + 1)
        .unwrap_err()
        .contains("too large"));
    assert_eq!(stage_checks("dir", false, 0).unwrap_err(), "dir is not a file.");
    assert!(stage_checks("ok.txt", true, MAX_ATTACHMENT_BYTES).is_ok());
    assert_eq!(unreadable("x.txt"), "x.txt could not be read.");
}
