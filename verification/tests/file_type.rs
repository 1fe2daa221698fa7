use pup::file_type::{classify_extension, file_type, FileType, TargetFile};

#[test]
fn test_image() {
    assert_eq!(FileType::Image, file_type("x.jpeg"));
    assert_eq!(FileType::Image, file_type("x.jpg"));
    assert_eq!(FileType::Image, file_type("x.png"));
    assert_eq!(FileType::Image, file_type("x.gif"));
}

#[test]
fn test_markdown() {
    assert_eq!(FileType::Markdown, file_type("x.md"));
}

#[test]
fn test_unknown() {
    assert_eq!(FileType::Unknown, file_type("x"));
    assert_eq!(FileType::Unknown, file_type("x.weird_format"));
}

#[test]
fn extension_case_counts() {
    assert_eq!(FileType::Unknown, file_type("x.MD"));
    assert_eq!(FileType::Unknown, file_type("x.PNG"));
    assert_eq!(FileType::Unknown, file_type("x.Jpg"));
}

#[test]
fn only_the_last_extension_counts() {
    assert_eq!(FileType::Markdown, file_type("dir.png/notes.md"));
    assert_eq!(FileType::Image, file_type("notes.md.png"));
    assert_eq!(FileType::Unknown, file_type("png"));
    assert_eq!(FileType::Unknown, file_type(".png"));
    assert_eq!(FileType::Unknown, file_type("dir.png/notes"));
}

#[test]
fn classification_is_repeatable() {
    for path in ["a.md", "a.gif", "a", "a.txt", ""] {
        assert_eq!(file_type(path), file_type(path));
    }
}

#[test]
fn classify_extension_cases() {
    assert_eq!(FileType::Markdown, classify_extension(Some("md")));
    assert_eq!(FileType::Image, classify_extension(Some("jpeg")));
    assert_eq!(FileType::Image, classify_extension(Some("jpg")));
    assert_eq!(FileType::Image, classify_extension(Some("png")));
    assert_eq!(FileType::Image, classify_extension(Some("gif")));
    assert_eq!(FileType::Unknown, classify_extension(Some("")));
    assert_eq!(FileType::Unknown, classify_extension(Some("mdx")));
    assert_eq!(FileType::Unknown, classify_extension(None));
}

#[test]
fn target_file_keeps_path_and_kind() {
    let target = TargetFile::new("docs/readme.md");
    assert_eq!(target.file_path, "docs/readme.md");
    assert_eq!(target.file_type, FileType::Markdown);
    let image = TargetFile::new("shot.png");
    assert_eq!(image.file_type, FileType::Image);
    assert_eq!(image, TargetFile { file_path: String::from("shot.png"), file_type: FileType::Image });
}
