use kiss::get_mime_type_enum;

#[test]
fn test_html_mime_types() {
    assert_eq!(get_mime_type_enum("index.html").as_str(), "text/html; charset=utf-8");
    assert_eq!(get_mime_type_enum("page.htm").as_str(), "text/html; charset=utf-8");
    assert_eq!(get_mime_type_enum("INDEX.HTML").as_str(), "text/html; charset=utf-8");
}

#[test]
fn test_css_mime_type() {
    assert_eq!(get_mime_type_enum("style.css").as_str(), "text/css; charset=utf-8");
    assert_eq!(get_mime_type_enum("STYLE.CSS").as_str(), "text/css; charset=utf-8");
}

#[test]
fn test_javascript_mime_type() {
    assert_eq!(get_mime_type_enum("app.js").as_str(), "text/javascript; charset=utf-8");
    assert_eq!(get_mime_type_enum("script.JS").as_str(), "text/javascript; charset=utf-8");
}

#[test]
fn test_json_mime_type() {
    assert_eq!(get_mime_type_enum("data.json").as_str(), "application/json; charset=utf-8");
}

#[test]
fn test_image_mime_types() {
    assert_eq!(get_mime_type_enum("image.png").as_str(), "image/png");
    assert_eq!(get_mime_type_enum("photo.jpg").as_str(), "image/jpeg");
    assert_eq!(get_mime_type_enum("photo.jpeg").as_str(), "image/jpeg");
    assert_eq!(get_mime_type_enum("icon.gif").as_str(), "image/gif");
    assert_eq!(get_mime_type_enum("logo.svg").as_str(), "image/svg+xml");
    assert_eq!(get_mime_type_enum("favicon.ico").as_str(), "image/x-icon");
}

#[test]
fn test_font_mime_types() {
    assert_eq!(get_mime_type_enum("font.woff").as_str(), "font/woff");
    assert_eq!(get_mime_type_enum("font.woff2").as_str(), "font/woff2");
    assert_eq!(get_mime_type_enum("font.ttf").as_str(), "font/ttf");
    assert_eq!(get_mime_type_enum("font.eot").as_str(), "application/vnd.ms-fontobject");
}

#[test]
fn test_other_mime_types() {
    assert_eq!(get_mime_type_enum("document.pdf").as_str(), "application/pdf");
    assert_eq!(get_mime_type_enum("data.xml").as_str(), "application/xml; charset=utf-8");
    assert_eq!(get_mime_type_enum("readme.txt").as_str(), "text/plain; charset=utf-8");
}

#[test]
fn test_no_extension() {
    assert_eq!(get_mime_type_enum("file").as_str(), "application/octet-stream");
    assert_eq!(get_mime_type_enum("Dockerfile").as_str(), "application/octet-stream");
}

#[test]
fn test_unknown_extension() {
    assert_eq!(get_mime_type_enum("file.unknown").as_str(), "application/octet-stream");
    assert_eq!(get_mime_type_enum("data.xyz").as_str(), "application/octet-stream");
}

#[test]
fn test_path_with_directories() {
    assert_eq!(get_mime_type_enum("/css/main.css").as_str(), "text/css; charset=utf-8");
    assert_eq!(get_mime_type_enum("/images/logo.png").as_str(), "image/png");
    assert_eq!(get_mime_type_enum("/js/modules/app.js").as_str(), "text/javascript; charset=utf-8");
}

#[test]
fn test_health_response_format() {
    let expected_json = "{\"status\":\"healthy\",\"timestamp\":\"1234567890\"}";

    assert!(expected_json.contains("\"status\":\"healthy\""));
    assert!(expected_json.contains("\"timestamp\":"));
}

#[test]
fn test_ready_response_format() {
    let expected_json = "{\"status\":\"ready\",\"timestamp\":\"1234567890\"}";

    assert!(expected_json.contains("\"status\":\"ready\""));
    assert!(expected_json.contains("\"timestamp\":"));
}

#[test]
fn test_json_format_validity() {
    let health_json = "{\"status\":\"healthy\",\"timestamp\":\"1234567890\"}";
    let ready_json = "{\"status\":\"ready\",\"timestamp\":\"1234567890\"}";

    assert!(health_json.starts_with('{') && health_json.ends_with('}'));
    assert!(ready_json.starts_with('{') && ready_json.ends_with('}'));

    assert!(health_json.contains("\":"));
    assert!(ready_json.contains("\":"));
}
