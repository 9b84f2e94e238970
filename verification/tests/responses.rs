use formbody::status::code_lookup;
use formbody::util::{
    error, redirect, redirect_with_message, send_file, send_file_raw, send_file_text, send_string,
    send_string_raw, Response, ResponseError,
};

fn headers_of(response: &Response) -> Vec<(String, Vec<u8>)> {
    response.headers.iter().map(|h| (h.name.clone(), h.value.clone())).collect()
}

#[test]
fn standard_codes_have_phrases() {
    assert_eq!(code_lookup(100), Some("Continue"));
    assert_eq!(code_lookup(200), Some("OK"));
    assert_eq!(code_lookup(226), Some("IM Used"));
    assert_eq!(code_lookup(302), Some("Found"));
    assert_eq!(code_lookup(306), Some("Switch Proxy"));
    assert_eq!(code_lookup(404), Some("Not Found"));
    assert_eq!(code_lookup(416), Some("Range not Satisfiable"));
    assert_eq!(code_lookup(418), Some("I'm a teapot"));
    assert_eq!(code_lookup(451), Some("Unavailable For Legal Reasons"));
    assert_eq!(code_lookup(511), Some("Network Authentication Required"));
}

#[test]
fn other_codes_have_none() {
    assert_eq!(code_lookup(0), None);
    assert_eq!(code_lookup(99), None);
    assert_eq!(code_lookup(103), None);
    assert_eq!(code_lookup(209), None);
    assert_eq!(code_lookup(419), None);
    assert_eq!(code_lookup(425), None);
    assert_eq!(code_lookup(509), None);
    assert_eq!(code_lookup(512), None);
    assert_eq!(code_lookup(65535), None);
}

#[test]
fn there_are_sixty_one_standard_codes() {
    let mut count = 0;
    for code in 0..=u16::MAX {
        if code_lookup(code).is_some() {
            count += 1;
        }
    }
    assert_eq!(count, 61);
}

#[test]
fn redirect_with_standard_code() {
    let response = redirect(b"moved", b"/new", 301).ok().unwrap();
    assert_eq!(response.code, 301);
    assert_eq!(response.reason, "Moved Permanently");
    assert_eq!(headers_of(&response), vec![("Location".to_string(), b"/new".to_vec())]);
    assert_eq!(response.body, b"moved".to_vec());
}

#[test]
fn redirect_with_unknown_code() {
    assert_eq!(redirect(b"moved", b"/new", 399).err(), Some(ResponseError::CodeNotFound));
    assert_eq!(ResponseError::CodeNotFound.message(), "Code not found!");
}

#[test]
fn error_page() {
    let response = error(b"nothing here", 404).ok().unwrap();
    assert_eq!(response.code, 404);
    assert_eq!(response.reason, "Not Found");
    assert!(response.headers.is_empty());
    assert_eq!(response.body, b"nothing here".to_vec());
    assert_eq!(error(b"x", 600).err(), Some(ResponseError::CodeNotFound));
}

#[test]
fn redirect_with_own_message() {
    let response = redirect_with_message(b"", b"http://example.org/", 399, "Elsewhere");
    assert_eq!(response.code, 399);
    assert_eq!(response.reason, "Elsewhere");
    assert_eq!(
        headers_of(&response),
        vec![("Location".to_string(), b"http://example.org/".to_vec())]
    );
    assert!(response.body.is_empty());
}

#[test]
fn plain_bodies() {
    let response = send_string(b"hello");
    assert_eq!(response.code, 200);
    assert_eq!(response.reason, "OK");
    assert!(response.headers.is_empty());
    assert_eq!(response.body, b"hello".to_vec());

    let response = send_string_raw(b"hello");
    assert_eq!(response.code, 200);
    assert_eq!(response.reason, "OK");
    assert_eq!(
        headers_of(&response),
        vec![("Content-Type".to_string(), b"text/plain; charset=utf-8".to_vec())]
    );
    assert_eq!(response.body, b"hello".to_vec());
}

#[test]
fn file_bodies() {
    let response = send_file(b"\x00\x01");
    assert_eq!(response.code, 200);
    assert_eq!(response.reason, "OK");
    assert!(response.headers.is_empty());
    assert_eq!(response.body, vec![0, 1]);

    let response = send_file_text(b"text");
    assert_eq!(
        headers_of(&response),
        vec![("Content-Type".to_string(), b"text/plain; charset=utf-8".to_vec())]
    );
    assert_eq!(response.body, b"text".to_vec());

    let response = send_file_raw(b"raw");
    assert_eq!(response.code, 200);
    assert_eq!(response.reason, "OK");
    assert_eq!(
        headers_of(&response),
        vec![("Content-Type".to_string(), b"application/octet-stream; charset=utf-8".to_vec())]
    );
    assert_eq!(response.body, b"raw".to_vec());
}
