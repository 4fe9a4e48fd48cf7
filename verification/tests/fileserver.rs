use dlcut::server::{
    extension_of, media_type_for_ext, plan_response, server_url, ServerControl,
};

#[test]
fn range_request_gets_partial_content() {
    let req = b"GET /video HTTP/1.1\r\nHost: 127.0.0.1\r\nRange: bytes=200-299\r\n\r\n";
    let plan = plan_response(req, Some(1000), "/tmp/clip.mp4");
    assert_eq!(plan.status, 206);
    assert_eq!(
        plan.header,
        "HTTP/1.1 206 Partial Content\r\nContent-Range: bytes 200-299/1000\r\n\
         Content-Type: video/mp4\r\nContent-Length: 100\r\nAccept-Ranges: bytes\r\n\
         Connection: close\r\n\r\n"
    );
    assert_eq!(plan.body_start, 200);
    assert_eq!(plan.body_len, 100);
    assert!(plan.send_body);
}

#[test]
fn request_without_range_gets_whole_file() {
    let req = b"GET /video HTTP/1.1\r\nHost: 127.0.0.1\r\n\r\n";
    let plan = plan_response(req, Some(1000), "/tmp/clip.mp4");
    assert_eq!(plan.status, 200);
    assert_eq!(
        plan.header,
        "HTTP/1.1 200 OK\r\nContent-Type: video/mp4\r\nContent-Length: 1000\r\n\
         Accept-Ranges: bytes\r\nConnection: close\r\n\r\n"
    );
    assert_eq!(plan.body_start, 0);
    assert_eq!(plan.body_len, 1000);
    assert!(plan.send_body);
}

#[test]
fn missing_file_gets_not_found_with_empty_body() {
    let req = b"GET /video HTTP/1.1\r\n\r\n";
    let plan = plan_response(req, None, "/tmp/clip.mp4");
    assert_eq!(plan.status, 404);
    assert_eq!(plan.header, "HTTP/1.1 404 Not Found\r\nContent-Length: 0\r\n\r\n");
    assert_eq!(plan.body_len, 0);
    assert!(!plan.send_body);
}

#[test]
fn head_request_gets_headers_without_body() {
    let get = b"GET /video HTTP/1.1\r\nRange: bytes=0-9\r\n\r\n";
    let head = b"HEAD /video HTTP/1.1\r\nRange: bytes=0-9\r\n\r\n";
    let get_plan = plan_response(get, Some(100), "/tmp/clip.mp4");
    let head_plan = plan_response(head, Some(100), "/tmp/clip.mp4");
    assert_eq!(get_plan.header, head_plan.header);
    assert_eq!(head_plan.status, 206);
    assert!(get_plan.send_body);
    assert!(!head_plan.send_body);
}

#[test]
fn open_ended_and_clamped_ranges() {
    let plan = plan_response(b"GET / HTTP/1.1\r\nRange: bytes=990-\r\n\r\n", Some(1000), "a.mp4");
    assert_eq!((plan.status, plan.body_start, plan.body_len), (206, 990, 10));
    let plan = plan_response(
        b"GET / HTTP/1.1\r\nRange: bytes=200-99999\r\n\r\n",
        Some(1000),
        "a.mp4",
    );
    assert_eq!((plan.status, plan.body_start, plan.body_len), (206, 200, 800));
    let plan = plan_response(b"GET / HTTP/1.1\r\nRange: bytes=500\r\n\r\n", Some(1000), "a.mp4");
    assert_eq!((plan.status, plan.body_start, plan.body_len), (206, 500, 500));
}

#[test]
fn bad_or_out_of_bounds_ranges_degrade_to_whole_file() {
    let plan = plan_response(b"GET / HTTP/1.1\r\nRange: bytes=abc-\r\n\r\n", Some(1000), "a.mp4");
    assert_eq!(plan.status, 200);
    let plan = plan_response(
        b"GET / HTTP/1.1\r\nRange: bytes=2000-3000\r\n\r\n",
        Some(1000),
        "a.mp4",
    );
    assert_eq!((plan.status, plan.body_len), (200, 1000));
    let plan = plan_response(b"GET / HTTP/1.1\r\nRange: bytes=9-5\r\n\r\n", Some(1000), "a.mp4");
    assert_eq!((plan.status, plan.body_len), (200, 1000));
    let plan = plan_response(b"", Some(1000), "a.mp4");
    assert_eq!((plan.status, plan.body_len), (200, 1000));
}

#[test]
fn range_header_name_is_case_insensitive() {
    let plan = plan_response(b"GET / HTTP/1.1\r\nrAnGe: bytes=1-2\r\n\r\n", Some(10), "a.mp4");
    assert_eq!((plan.status, plan.body_start, plan.body_len), (206, 1, 2));
}

#[test]
fn content_types_from_extension() {
    assert_eq!(media_type_for_ext("mp4"), "video/mp4");
    assert_eq!(media_type_for_ext("m4v"), "video/mp4");
    assert_eq!(media_type_for_ext("MKV"), "video/x-matroska");
    assert_eq!(media_type_for_ext("avi"), "video/x-msvideo");
    assert_eq!(media_type_for_ext("mov"), "video/quicktime");
    assert_eq!(media_type_for_ext("webm"), "video/webm");
    assert_eq!(media_type_for_ext("flv"), "video/x-flv");
    assert_eq!(media_type_for_ext("wmv"), "video/x-ms-wmv");
    assert_eq!(media_type_for_ext("txt"), "application/octet-stream");
    assert_eq!(media_type_for_ext(""), "application/octet-stream");
}

#[test]
fn extensions_from_paths() {
    assert_eq!(extension_of("/tmp/clip.mp4"), "mp4");
    assert_eq!(extension_of("clip.tar.gz"), "gz");
    assert_eq!(extension_of("/tmp/noext"), "");
    assert_eq!(extension_of("/tmp/.hidden"), "");
    assert_eq!(extension_of("dir.d/noext"), "");
}

#[test]
fn unknown_extension_served_as_binary() {
    let plan = plan_response(b"GET / HTTP/1.1\r\n\r\n", Some(5), "/tmp/file.dat");
    assert!(plan.header.contains("Content-Type: application/octet-stream\r\n"));
}

#[test]
fn stop_is_idempotent_and_blocks_accepts() {
    let mut control = ServerControl::new();
    assert!(control.should_accept());
    control.stop();
    assert!(!control.should_accept());
    control.stop();
    assert!(!control.should_accept());
}

#[test]
fn loopback_url_names_the_port() {
    assert_eq!(server_url(8080), "http://127.0.0.1:8080/video");
    assert_eq!(server_url(1), "http://127.0.0.1:1/video");
}
