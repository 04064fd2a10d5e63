use chronicle::ocr::{extract_text, join_observations, ImageFile, OcrError};

fn image(is_file: bool, path: &str) -> ImageFile {
    ImageFile {
        is_file,
        shown: path.to_string(),
        path: Some(path.to_string()),
    }
}

fn found(texts: &[&str]) -> Vec<Option<String>> {
    texts.iter().map(|t| Some(t.to_string())).collect()
}

#[test]
fn extract_text_errors_on_missing_file() {
    let ((), result) = extract_text(&image(false, "/nonexistent/image.png"), (), |(), _: &str| {
        unreachable!("nothing is recognized on a missing file")
    });
    assert!(result.is_err());
    match result.unwrap_err() {
        OcrError::ImageNotFound(p) => {
            assert!(p.contains("nonexistent"));
        }
        other => panic!("expected ImageNotFound, got: {other:?}"),
    }
}

#[test]
fn extract_text_from_image_with_known_text() {
    let (runs, result) = extract_text(&image(true, "/a/sample-text.png"), 0, |runs, path: &str| {
        assert_eq!(path, "/a/sample-text.png");
        (runs + 1, Ok(found(&["Hello", "", "Chronicle"])))
    });
    assert_eq!(result.unwrap(), "Hello\nChronicle");
    assert_eq!(runs, 1, "the recognition runs once");
}

#[test]
fn extract_text_returns_empty_for_blank_image() {
    let ((), result) =
        extract_text(&image(true, "/a/blank.png"), (), |(), _: &str| ((), Ok(Vec::new())));
    let text = result.unwrap();
    assert!(
        text.trim().is_empty(),
        "expected empty text for blank image, got: '{text}'"
    );
}

#[test]
fn observations_without_text_are_left_out() {
    assert_eq!(join_observations(&[]), "");
    assert_eq!(join_observations(&[None, Some(String::new())]), "");
    assert_eq!(
        join_observations(&[None, Some("a".to_string()), None, Some("b c".to_string())]),
        "a\nb c"
    );
}

#[test]
fn every_ocr_error_reads_as_documented() {
    let odd = ImageFile { is_file: true, shown: "?".to_string(), path: None };
    let none = |(), _: &str| ((), Ok(Vec::new()));
    let err = extract_text(&odd, (), none).1.unwrap_err();
    assert_eq!(err.message(), "vision request failed: path is not valid UTF-8");
    let bad = |(), _: &str| ((), Err("bad image".to_string()));
    let err = extract_text(&image(true, "/a"), (), bad).1.unwrap_err();
    assert_eq!(err.message(), "vision request failed: bad image");
    let err = extract_text(&image(false, "/a"), (), none).1.unwrap_err();
    assert_eq!(err.message(), "image not found: /a");
}
