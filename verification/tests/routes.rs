use spa_server::route::{dispatch, route, routes, Handler, Pattern, Route};
use spa_server::serve::{files, index, Step};

#[test]
fn root_pattern_covers_the_root_path_only() {
    assert!(Pattern::Root.matches("/"));
    assert!(!Pattern::Root.matches(""));
    assert!(!Pattern::Root.matches("//"));
    assert!(!Pattern::Root.matches("/a"));
    assert!(!Pattern::Root.matches("a"));
}

#[test]
fn any_pattern_covers_every_path() {
    for path in ["/", "", "/a", "/a/b", "//"] {
        assert!(Pattern::Any.matches(path));
    }
}

#[test]
fn server_table_has_the_root_route_first() {
    assert_eq!(
        routes(),
        vec![
            Route { pattern: Pattern::Root, handler: Handler::Index },
            Route { pattern: Pattern::Any, handler: Handler::Files },
        ]
    );
}

#[test]
fn root_goes_to_the_index_handler() {
    assert_eq!(dispatch(&routes(), "/"), Some(Handler::Index));
    assert_eq!(route("/"), Handler::Index);
}

#[test]
fn other_paths_go_to_the_files_handler() {
    for path in ["/app.js", "/a/b", "", "//", "/index.html"] {
        assert_eq!(dispatch(&routes(), path), Some(Handler::Files));
        assert_eq!(route(path), Handler::Files);
    }
}

#[test]
fn first_matching_route_wins() {
    let reversed = vec![
        Route { pattern: Pattern::Any, handler: Handler::Files },
        Route { pattern: Pattern::Root, handler: Handler::Index },
    ];
    assert_eq!(dispatch(&reversed, "/"), Some(Handler::Files));
    let twice = vec![
        Route { pattern: Pattern::Root, handler: Handler::Files },
        Route { pattern: Pattern::Root, handler: Handler::Index },
    ];
    assert_eq!(dispatch(&twice, "/"), Some(Handler::Files));
}

#[test]
fn no_route_no_handler() {
    assert_eq!(dispatch(&Vec::new(), "/"), None);
    let root_only = vec![Route { pattern: Pattern::Root, handler: Handler::Index }];
    assert_eq!(dispatch(&root_only, "/a"), None);
    assert_eq!(dispatch(&root_only, "/"), Some(Handler::Index));
}

#[test]
fn index_handler_asks_for_the_index_document() {
    match index() {
        Step::Read(pending) => {
            assert_eq!(pending.document.names(), &vec!["index.html".to_string()]);
            assert!(!pending.fallback);
        }
        Step::Reply(_) => panic!("a read was expected"),
    }
}

#[test]
fn files_handler_asks_for_the_named_document() {
    match files("/assets/app.js") {
        Step::Read(pending) => {
            assert_eq!(
                pending.document.names(),
                &vec!["assets".to_string(), "app.js".to_string()]
            );
            assert!(pending.fallback);
        }
        Step::Reply(_) => panic!("a read was expected"),
    }
}

#[test]
fn files_handler_asks_for_the_index_document_where_no_document_is_named() {
    for path in ["/", "", "/..", "/a%2Fb", "/..\\b", "/a%5C..%5Cb"] {
        assert_eq!(files(path), index());
    }
}
