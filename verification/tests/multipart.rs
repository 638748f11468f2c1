use workout_tracker::routes::get_random_processed_path;
use workout_tracker::upload::{
    boundary_in, extract_file_data_from_part, extract_filename_from_part, handle_video_upload,
    handle_video_upload_at, name_upload, split_body_by_boundary, store_upload,
};

const FORM: &[u8] = b"--XYZ\r\nContent-Disposition: form-data; name=\"file\"; filename=\"clip.mp4\"\r\nContent-Type: video/mp4\r\n\r\nABC\r\n--XYZ--\r\n";

#[test]
fn split_finds_each_part() {
    let parts = split_body_by_boundary(FORM, b"--XYZ");
    assert_eq!(parts.len(), 3);
    assert_eq!(parts[0], &b""[..]);
    assert_eq!(
        parts[1],
        &b"\r\nContent-Disposition: form-data; name=\"file\"; filename=\"clip.mp4\"\r\nContent-Type: video/mp4\r\n\r\nABC\r\n"[..]
    );
    assert_eq!(parts[2], &b"--\r\n"[..]);
}

#[test]
fn split_of_empty_body_has_no_parts() {
    let parts = split_body_by_boundary(b"", b"--XYZ");
    assert!(parts.is_empty());
}

#[test]
fn split_without_boundary_is_one_part() {
    let parts = split_body_by_boundary(b"hello", b"--XYZ");
    assert_eq!(parts, vec![&b"hello"[..]]);
}

#[test]
fn split_drops_nothing_after_a_final_boundary() {
    let parts = split_body_by_boundary(b"a--XYZb--XYZ", b"--XYZ");
    assert_eq!(parts, vec![&b"a"[..], &b"b"[..]]);
}

#[test]
fn split_keeps_empty_pieces_between_boundaries() {
    let parts = split_body_by_boundary(b"--XYZ--XYZtail", b"--XYZ");
    assert_eq!(parts, vec![&b""[..], &b""[..], &b"tail"[..]]);
}

#[test]
fn split_with_boundary_longer_than_body() {
    let parts = split_body_by_boundary(b"ab", b"--XYZ");
    assert_eq!(parts, vec![&b"ab"[..]]);
}

#[test]
fn filename_is_read_from_the_headers() {
    let parts = split_body_by_boundary(FORM, b"--XYZ");
    assert_eq!(extract_filename_from_part(parts[0]), None);
    assert_eq!(extract_filename_from_part(parts[1]), Some("clip.mp4".to_string()));
    assert_eq!(extract_filename_from_part(parts[2]), None);
}

#[test]
fn filename_needs_its_closing_quote() {
    assert_eq!(extract_filename_from_part(b"filename=\"clip.mp4"), None);
    assert_eq!(extract_filename_from_part(b"filename=\"\""), Some(String::new()));
    assert_eq!(extract_filename_from_part(b"name=\"clip.mp4\""), None);
}

#[test]
fn filename_with_invalid_utf8_is_repaired() {
    let part = b"filename=\"a\xffb\"\r\n\r\nxyz";
    assert_eq!(extract_filename_from_part(part), Some("a\u{fffd}b".to_string()));
}

#[test]
fn filename_in_utf8_is_decoded() {
    let part = "filename=\"\u{e9}t\u{e9}.mp4\"".as_bytes();
    assert_eq!(extract_filename_from_part(part), Some("\u{e9}t\u{e9}.mp4".to_string()));
}

#[test]
fn payload_follows_the_blank_line() {
    let parts = split_body_by_boundary(FORM, b"--XYZ");
    assert_eq!(extract_file_data_from_part(parts[0]), Vec::<u8>::new());
    assert_eq!(extract_file_data_from_part(parts[1]), b"ABC".to_vec());
    assert_eq!(extract_file_data_from_part(parts[2]), Vec::<u8>::new());
}

#[test]
fn payload_loses_all_trailing_line_ends() {
    assert_eq!(extract_file_data_from_part(b"h\r\n\r\nAB\r\nC\r\n\n\r"), b"AB\r\nC".to_vec());
    assert_eq!(extract_file_data_from_part(b"h\r\n\r\n\r\n"), Vec::<u8>::new());
    assert_eq!(extract_file_data_from_part(b"no blank line\r\n"), Vec::<u8>::new());
}

#[test]
fn boundary_is_what_follows_the_marker() {
    assert_eq!(boundary_in("multipart/form-data; boundary=XYZ"), Some("--XYZ".to_string()));
    assert_eq!(boundary_in("multipart/form-data"), None);
    assert_eq!(boundary_in("boundary="), Some("--".to_string()));
    assert_eq!(
        boundary_in("multipart/form-data; boundary=a; charset=x"),
        Some("--a; charset=x".to_string())
    );
}

#[test]
fn upload_names_have_no_colons() {
    assert_eq!(
        name_upload("2024-03-13T10:20:30.5+00:00", "clip.mp4"),
        "2024-03-13T10-20-30.5+00-00_clip.mp4"
    );
}

#[test]
fn upload_stores_the_first_named_part() {
    let upload = handle_video_upload_at(
        FORM,
        "multipart/form-data; boundary=XYZ",
        "2024-03-13T10:20:30+00:00",
    );
    assert_eq!(upload.reply.0, "HTTP/1.1 200 OK");
    assert_eq!(
        upload.reply.1,
        "{\"fileUrl\": \"./uploads/2024-03-13T10-20-30+00-00_clip.mp4\"}"
    );
    assert_eq!(upload.reply.2, "application/json");
    let file = upload.file.expect("a file is stored");
    assert_eq!(file.path, "./uploads/2024-03-13T10-20-30+00-00_clip.mp4");
    assert_eq!(file.data, b"ABC".to_vec());
}

#[test]
fn upload_now_ends_in_the_client_name() {
    let upload = handle_video_upload(FORM, "multipart/form-data; boundary=XYZ");
    assert_eq!(upload.reply.0, "HTTP/1.1 200 OK");
    let file = upload.file.expect("a file is stored");
    assert!(file.path.starts_with("./uploads/"));
    assert!(file.path.ends_with("_clip.mp4"));
    assert!(!file.path["./uploads/".len()..].contains(':'));
    assert_eq!(file.data, b"ABC".to_vec());
    assert_eq!(upload.reply.1, format!("{{\"fileUrl\": \"{}\"}}", file.path));
}

#[test]
fn upload_without_boundary_is_refused() {
    let upload = handle_video_upload_at(FORM, "multipart/form-data", "t");
    assert_eq!(upload.reply.0, "HTTP/1.1 400 BAD REQUEST");
    assert_eq!(upload.reply.1, "{\"error\": \"Boundary not found in Content-Type header\"}");
    assert_eq!(upload.reply.2, "application/json");
    assert!(upload.file.is_none());
}

#[test]
fn upload_without_filename_is_refused() {
    let body = b"--XYZ\r\nContent-Disposition: form-data; name=\"note\"\r\n\r\nhi\r\n--XYZ--\r\n";
    let upload = handle_video_upload_at(body, "multipart/form-data; boundary=XYZ", "t");
    assert_eq!(upload.reply.0, "HTTP/1.1 400 BAD REQUEST");
    assert_eq!(upload.reply.1, "{\"error\": \"No video file provided\"}");
    assert!(upload.file.is_none());
}

#[test]
fn upload_takes_the_first_of_two_files() {
    let body = b"--B\r\nfilename=\"one.mp4\"\r\n\r\n111\r\n--B\r\nfilename=\"two.mp4\"\r\n\r\n222\r\n--B--";
    let upload = handle_video_upload_at(body, "multipart/form-data; boundary=B", "t");
    let file = upload.file.expect("a file is stored");
    assert_eq!(file.path, "./uploads/t_one.mp4");
    assert_eq!(file.data, b"111".to_vec());
}

#[test]
fn processed_paths_are_ten_letters() {
    for _ in 0..20 {
        let path = get_random_processed_path();
        assert_eq!(path.len(), "processed/".len() + 10 + ".mp4".len());
        assert!(path.starts_with("processed/"));
        assert!(path.ends_with(".mp4"));
        let letters = &path["processed/".len()..path.len() - 4];
        assert!(letters.chars().all(|c| ('a'..='y').contains(&c)));
    }
}

#[test]
fn stored_upload_names_its_file() {
    let upload = store_upload("12:30", "a b.mp4", vec![1, 2, 3]);
    assert_eq!(upload.reply.0, "HTTP/1.1 200 OK");
    assert_eq!(upload.reply.1, "{\"fileUrl\": \"./uploads/12-30_a b.mp4\"}");
    assert_eq!(upload.reply.2, "application/json");
    let file = upload.file.expect("a file is stored");
    assert_eq!(file.path, "./uploads/12-30_a b.mp4");
    assert_eq!(file.data, vec![1, 2, 3]);
}
