use std::cell::RefCell;

use spa_server::path::DocumentPath;
use spa_server::response::{Response, Status};
use spa_server::route::Method;
use spa_server::serve::{handle, serve, Request, Step};

/// Serves a request from documents held in memory, each given by its path
/// below the public root and its content. Also returns the paths that were
/// read, in order.
fn serve_from(documents: &[(&str, &str)], method: Method, path: &str) -> (Response, Vec<String>) {
    let reads: RefCell<Vec<String>> = RefCell::new(Vec::new());
    let read = |document: &DocumentPath| {
        let wanted = document.names().join("/");
        let outcome = documents
            .iter()
            .find(|(name, _)| *name == wanted)
            .map(|(_, content)| content.as_bytes().to_vec());
        reads.borrow_mut().push(wanted);
        outcome
    };
    let response = serve(&Request { method, path: path.to_string() }, read);
    (response, reads.into_inner())
}

fn get(documents: &[(&str, &str)], path: &str) -> Response {
    serve_from(documents, Method::Get, path).0
}

#[test]
fn root_returns_the_index_document() {
    let response = get(&[("index.html", "<html>A</html>")], "/");
    assert_eq!(response.status, Status::Success);
    assert_eq!(response.status.code(), 200);
    assert_eq!(response.body, b"<html>A</html>".to_vec());
    assert_eq!(response.content_type.as_deref(), Some("text/html; charset=utf-8"));
}

#[test]
fn script_is_sent_as_javascript() {
    let response = get(&[("app.js", "console.log(1)")], "/app.js");
    assert_eq!(response.status.code(), 200);
    assert_eq!(response.body, b"console.log(1)".to_vec());
    assert_eq!(response.content_type.as_deref(), Some("text/javascript"));
}

#[test]
fn missing_route_falls_back_to_the_index_document() {
    let documents = [("index.html", "<html>A</html>")];
    let response = get(&documents, "/missing/route");
    assert_eq!(response.status.code(), 200);
    assert_eq!(response.body, b"<html>A</html>".to_vec());
    assert_eq!(response.content_type.as_deref(), Some("text/html; charset=utf-8"));
    assert_eq!(response, get(&documents, "/"));
}

#[test]
fn empty_root_answers_not_found() {
    let root = get(&[], "/");
    assert_eq!(root.status, Status::NotFound);
    assert_eq!(root.status.code(), 404);
    assert_eq!(root.content_type, None);
    assert!(root.body.is_empty());
    let other = get(&[], "/anything");
    assert_eq!(other.status.code(), 404);
    assert_eq!(other, root);
}

#[test]
fn root_without_index_is_not_found_even_with_other_documents() {
    let response = get(&[("app.js", "console.log(1)")], "/");
    assert_eq!(response.status.code(), 404);
    assert_eq!(response, Response::not_found());
}

#[test]
fn missing_document_without_index_is_not_found() {
    let response = get(&[("app.js", "console.log(1)")], "/style.css");
    assert_eq!(response.status.code(), 404);
}

#[test]
fn present_document_wins_over_the_index_document() {
    let documents = [("index.html", "<html>A</html>"), ("assets/site.css", "body{}")];
    let (response, reads) = serve_from(&documents, Method::Get, "/assets/site.css");
    assert_eq!(response.status.code(), 200);
    assert_eq!(response.body, b"body{}".to_vec());
    assert_eq!(response.content_type.as_deref(), Some("text/css; charset=utf-8"));
    assert_eq!(reads, vec!["assets/site.css".to_string()]);
}

#[test]
fn root_reads_the_index_document_only() {
    let (_, reads) = serve_from(&[], Method::Get, "/");
    assert_eq!(reads, vec!["index.html".to_string()]);
}

#[test]
fn missing_document_is_read_before_the_index_document() {
    let (_, reads) = serve_from(&[("index.html", "x")], Method::Get, "/missing/route");
    assert_eq!(reads, vec!["missing/route".to_string(), "index.html".to_string()]);
}

#[test]
fn fallback_is_answered_like_the_root_for_many_paths() {
    let documents = [("index.html", "<html>A</html>"), ("app.js", "console.log(1)")];
    let root = get(&documents, "/");
    for path in ["/a", "/a/b/c", "/app.js/x", "/..", "/.", "//", "", "/a\\b", "/index", "/%2F"] {
        assert_eq!(get(&documents, path), root, "path {:?}", path);
    }
}

#[test]
fn dot_dot_never_leaves_the_public_root() {
    let documents = [("index.html", "<html>A</html>"), ("secret.txt", "inside")];
    for path in [
        "/../secret.txt",
        "/../../secret.txt",
        "/a/../../secret.txt",
        "/%2e%2e/secret.txt",
        "/%2E%2E/%2e%2e/secret.txt",
        "/./../secret.txt",
    ] {
        let (response, reads) = serve_from(&documents, Method::Get, path);
        assert_eq!(reads, vec!["secret.txt".to_string()], "path {:?}", path);
        assert_eq!(response.body, b"inside".to_vec());
    }
}

#[test]
fn no_read_names_a_level_above() {
    for path in [
        "/../../etc/passwd",
        "/a/../../../etc/passwd",
        "/..%2F..%2Fetc%2Fpasswd",
        "/..\\..\\etc\\passwd",
        "/%2e%2e%5c%2e%2e%5cetc",
        "/....//....//etc",
        "/a/b/../../../..",
        "/a\\..\\..\\etc",
        "/a%5C..%5C..%5Cetc",
    ] {
        let (_, reads) = serve_from(&[], Method::Get, path);
        for read in &reads {
            for level in read.split('/') {
                assert_ne!(level, "..", "path {:?}", path);
                assert_ne!(level, ".", "path {:?}", path);
                assert!(!level.is_empty(), "path {:?}", path);
                for part in level.split('\\') {
                    assert_ne!(part, "..", "path {:?}", path);
                }
            }
        }
        assert_eq!(reads.last().map(String::as_str), Some("index.html"));
    }
}

#[test]
fn a_document_with_a_backslash_in_its_name_is_sent() {
    let documents = [("a\\b", "plain file")];
    for path in ["/a\\b", "/a%5Cb", "/a%5cb"] {
        let (response, reads) = serve_from(&documents, Method::Get, path);
        assert_eq!(reads, vec!["a\\b".to_string()], "path {:?}", path);
        assert_eq!(response.status.code(), 200);
        assert_eq!(response.body, b"plain file".to_vec());
    }
}

#[test]
fn a_document_with_a_backslash_in_its_name_wins_over_the_index_document() {
    let documents = [("index.html", "<html>A</html>"), ("dir/a\\b.js", "console.log(2)")];
    let response = get(&documents, "/dir/a\\b.js");
    assert_eq!(response.body, b"console.log(2)".to_vec());
    assert_eq!(response.content_type.as_deref(), Some("text/javascript"));
}

#[test]
fn dot_dot_between_backslashes_is_never_read() {
    let documents = [("index.html", "<html>A</html>"), ("..\\secret.txt", "outside")];
    let (response, reads) = serve_from(&documents, Method::Get, "/..\\secret.txt");
    assert_eq!(reads, vec!["index.html".to_string()]);
    assert_eq!(response.body, b"<html>A</html>".to_vec());
    let (missing, reads) = serve_from(&[], Method::Get, "/x%5C..%5C..%5Csecret.txt");
    assert_eq!(reads, vec!["index.html".to_string()]);
    assert_eq!(missing.status.code(), 404);
}

#[test]
fn encoded_separator_bars_the_path() {
    let documents = [("index.html", "<html>A</html>"), ("a/b", "nested")];
    let (response, reads) = serve_from(&documents, Method::Get, "/a%2Fb");
    assert_eq!(reads, vec!["index.html".to_string()]);
    assert_eq!(response.body, b"<html>A</html>".to_vec());
    assert_eq!(get(&documents, "/a/b").body, b"nested".to_vec());
}

#[test]
fn encoded_name_is_decoded_before_reading() {
    let documents = [("my file.txt", "spaced")];
    let (response, reads) = serve_from(&documents, Method::Get, "/my%20file.txt");
    assert_eq!(reads, vec!["my file.txt".to_string()]);
    assert_eq!(response.status.code(), 200);
    assert_eq!(response.body, b"spaced".to_vec());
}

#[test]
fn other_methods_are_not_found() {
    let documents = [("index.html", "<html>A</html>")];
    for method in [
        Method::Head,
        Method::Post,
        Method::Put,
        Method::Delete,
        Method::Patch,
        Method::Options,
        Method::Trace,
        Method::Connect,
    ] {
        for path in ["/", "/index.html", "/missing"] {
            let (response, reads) = serve_from(&documents, method, path);
            assert_eq!(response, Response::not_found());
            assert!(reads.is_empty());
        }
    }
}

#[test]
fn unknown_extension_is_sent_as_binary() {
    let response = get(&[("data.blob", "\u{1}\u{2}")], "/data.blob");
    assert_eq!(response.status.code(), 200);
    assert_eq!(response.content_type.as_deref(), Some("application/octet-stream"));
    assert_eq!(response.body, vec![1u8, 2u8]);
}

#[test]
fn image_is_sent_as_an_image() {
    let response = get(&[("img/logo.png", "png")], "/img/logo.png");
    assert_eq!(response.content_type.as_deref(), Some("image/png"));
}

#[test]
fn hidden_document_is_served() {
    let response = get(&[(".well-known/info.txt", "hello")], "/.well-known/info.txt");
    assert_eq!(response.status.code(), 200);
    assert_eq!(response.body, b"hello".to_vec());
}

#[test]
fn a_reader_that_fails_once_is_asked_for_the_index_document() {
    let asked: RefCell<Vec<String>> = RefCell::new(Vec::new());
    let read = |document: &DocumentPath| {
        asked.borrow_mut().push(document.file_name().to_string());
        if asked.borrow().len() == 1 {
            None
        } else {
            Some(b"late".to_vec())
        }
    };
    let response = serve(&Request { method: Method::Get, path: "/app.js".to_string() }, read);
    assert_eq!(asked.into_inner(), vec!["app.js".to_string(), "index.html".to_string()]);
    assert_eq!(response.body, b"late".to_vec());
    assert_eq!(response.content_type.as_deref(), Some("text/html; charset=utf-8"));
}

#[test]
fn steps_by_hand_give_what_serve_gives() {
    let documents = [("index.html", "<html>A</html>"), ("app.js", "console.log(1)")];
    for path in ["/", "/app.js", "/missing", "/../app.js", "/a%2Fb"] {
        let mut step = handle(&Request { method: Method::Get, path: path.to_string() });
        let by_hand = loop {
            match step {
                Step::Reply(response) => break response,
                Step::Read(pending) => {
                    let wanted = pending.document.names().join("/");
                    let outcome = documents
                        .iter()
                        .find(|(name, _)| *name == wanted)
                        .map(|(_, content)| content.as_bytes().to_vec());
                    step = pending.resume(outcome);
                }
            }
        };
        assert_eq!(by_hand, get(&documents, path), "path {:?}", path);
    }
}

#[test]
fn a_read_is_resumed_to_a_reply_or_the_index_read() {
    let step = handle(&Request { method: Method::Get, path: "/app.js".to_string() });
    let pending = match step {
        Step::Read(pending) => pending,
        Step::Reply(_) => panic!("a read was expected"),
    };
    assert!(pending.fallback);
    assert_eq!(pending.document.names(), &vec!["app.js".to_string()]);
    let next = match pending.resume(None) {
        Step::Read(next) => next,
        Step::Reply(_) => panic!("the index read was expected"),
    };
    assert!(!next.fallback);
    assert_eq!(next.document.names(), &vec!["index.html".to_string()]);
    assert_eq!(next.resume(None), Step::Reply(Response::not_found()));
}
