use tork_core::multipart::{boundary_from, check_declared_essence, check_detected_type};
use tork_core::error::ErrorKind;
use tork_core::multipart::{request_boundary, FileBytes, FilePart, FileRule, MultipartForm, UploadBudget, UploadConfig, UploadFile};

#[test]
fn file_bytes_reports_size_and_contents() {
    let file = FileBytes::new(b"hello".to_vec(), Some("a.txt".to_owned()), None);
    assert_eq!(file.len(), 5);
    assert!(!file.is_empty());
    assert_eq!(file.bytes(), b"hello");
    assert_eq!(file.filename(), Some("a.txt"));
    assert_eq!(file.content_type(), None);
}

#[test]
fn file_validation_enforces_size_type_and_sniff() {
    let png_bytes = b"\x89PNG\r\n\x1a\n\x00\x00\x00\x0dIHDR".to_vec();
    let png = FileBytes::new(png_bytes, Some("a.png".to_owned()), Some("image/png".to_owned()));
    let rule = FileRule { max_size: Some(1024), content_types: &["image/png"], sniff: true };
    assert!(png.validate(&rule).is_ok());

    // Declared content type not allowed.
    let txt = FileBytes::new(b"hi".to_vec(), None, Some("text/plain".to_owned()));
    let only_png = FileRule { max_size: None, content_types: &["image/png"], sniff: false };
    assert_eq!(txt.validate(&only_png).err().unwrap().code(), "UNSUPPORTED_MEDIA_TYPE");

    // Too large.
    let big = FileBytes::new(vec![0u8; 100], None, None);
    let small_limit = FileRule { max_size: Some(10), content_types: &[], sniff: false };
    assert_eq!(big.validate(&small_limit).err().unwrap().code(), "FILE_TOO_LARGE");

    // Sniff mismatch: declared png but bytes are not png.
    let fake = FileBytes::new(b"GIF89a....".to_vec(), None, Some("image/png".to_owned()));
    assert!(fake.validate(&rule).is_err());
}

#[test]
fn declared_types_compare_by_essence_ignoring_case() {
    let file = FileBytes::new(b"{}".to_vec(), None, Some("Application/JSON; charset=utf-8".to_owned()));
    let rule = FileRule { max_size: None, content_types: &["application/json"], sniff: false };
    assert!(file.validate(&rule).is_ok());
}

#[test]
fn multipart_form_takes_files_and_values() {
    let part = FilePart { name: "doc".to_owned(), filename: Some("a.bin".to_owned()), content_type: None, storage: b"DATA".to_vec(), size: 4 };
    let mut form = MultipartForm::new(vec![("note".to_owned(), "hi".to_owned())], vec![part]);

    let file = form.take_file("doc").expect("file present");
    assert_eq!(file.storage, b"DATA".to_vec());
    assert_eq!(file.filename.as_deref(), Some("a.bin"));
    assert!(form.take_file("doc").is_none());
    assert_eq!(form.take_form_text("note"), Some("hi".to_owned()));
    assert_eq!(form.take_form_text("note"), None);
}

#[test]
fn taking_all_values_leaves_none() {
    let texts = vec![
        ("tag".to_owned(), "a".to_owned()),
        ("other".to_owned(), "x".to_owned()),
        ("tag".to_owned(), "b".to_owned()),
    ];
    let mut form: MultipartForm<Vec<u8>> = MultipartForm::new(texts, Vec::new());
    assert_eq!(form.take_form_texts("tag"), vec!["a".to_owned(), "b".to_owned()]);
    assert!(form.take_form_texts("tag").is_empty());
    assert_eq!(form.take_form_text("other"), Some("x".to_owned()));
}

#[test]
fn upload_file_reads_and_saves() {
    let part = FilePart { name: "f".to_owned(), filename: Some("a.bin".to_owned()), content_type: None, storage: 7u32, size: 5 };
    let mut file = UploadFile::from_part(part);
    assert_eq!(file.size(), 5);
    assert_eq!(file.filename(), Some("a.bin"));
    assert_eq!(file.take_storage().ok(), Some(7));
    assert!(file.take_storage().is_err());
    file.restore_storage(8);
    assert_eq!(file.take_storage().ok(), Some(8));
}

#[test]
fn upload_budget_enforces_file_count_and_sizes() {
    let config = UploadConfig::new().max_files(1).max_file_size(4).max_body_size(6).resolve();
    let mut budget = UploadBudget::new(config);
    let mut progress = budget.begin_file().ok().unwrap();
    assert!(budget.file_chunk(&mut progress, 3).is_ok());
    assert_eq!(progress.size(), 3);
    assert_eq!(budget.file_chunk(&mut progress, 2).err().unwrap().code(), "FILE_TOO_LARGE");
    assert_eq!(budget.begin_file().err().unwrap().code(), "TOO_MANY_FILES");
    let error = budget.text_field(4).err().unwrap();
    assert_eq!(error.kind(), ErrorKind::PayloadTooLarge);
    assert!(budget.text_field(3).is_ok());
}

#[test]
fn multipart_boundary_comes_from_the_content_type() {
    assert_eq!(request_boundary(Some(b"multipart/form-data; boundary=X")).ok(), Some("X".to_owned()));
    assert_eq!(request_boundary(None).err().unwrap().kind(), ErrorKind::BadRequest);
    assert_eq!(
        request_boundary(Some(b"application/json")).err().unwrap().message(),
        "invalid or missing multipart boundary"
    );
}

#[test]
fn parsed_essences_and_detected_types_are_judged_by_the_rule() {
    let rule = FileRule { max_size: None, content_types: &["image/png"], sniff: true };
    assert!(check_declared_essence(Some("IMAGE/PNG"), &rule).is_ok());
    assert_eq!(check_declared_essence(None, &rule).err().unwrap().code(), "UNSUPPORTED_MEDIA_TYPE");
    assert!(check_detected_type(None, &rule).is_ok());
    assert_eq!(check_detected_type(Some("image/gif"), &rule).err().unwrap().code(), "UNSUPPORTED_MEDIA_TYPE");
    let any = FileRule { max_size: None, content_types: &[], sniff: true };
    assert!(check_declared_essence(None, &any).is_ok());
    assert_eq!(boundary_from(Some("b".to_owned())).ok(), Some("b".to_owned()));
    assert_eq!(boundary_from(None).err().unwrap().kind(), ErrorKind::BadRequest);
}

#[test]
fn accepted_parts_are_collected_in_body_order() {
    let config = UploadConfig::new().max_files(2).max_file_size(8).max_body_size(16).resolve();
    let mut budget = UploadBudget::new(config);
    let mut form: MultipartForm<Vec<u8>> = MultipartForm::new(Vec::new(), Vec::new());
    assert!(form.add_text(&mut budget, "title".to_owned(), "héllo".to_owned()).is_ok());
    let mut progress = budget.begin_file().ok().unwrap();
    assert!(budget.file_chunk(&mut progress, 5).is_ok());
    form.add_file("doc".to_owned(), Some("a.txt".to_owned()), None, b"12345".to_vec(), &progress);
    assert!(form.add_text(&mut budget, "title".to_owned(), "x".to_owned()).is_ok());
    let too_long = form.add_text(&mut budget, "note".to_owned(), "0123456789".to_owned()).err().unwrap();
    assert_eq!(too_long.kind(), ErrorKind::PayloadTooLarge);
    assert_eq!(form.take_form_texts("title"), vec!["héllo".to_owned(), "x".to_owned()]);
    assert_eq!(form.take_form_text("note"), None);
    let files = form.take_files("doc");
    assert_eq!(files.len(), 1);
    assert_eq!((files[0].size, files[0].storage.clone()), (5, b"12345".to_vec()));
}
