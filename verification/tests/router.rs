use asset_server::assets::AssetStore;
use asset_server::mime_mapper::MimeMapper;
use asset_server::router::Response;
use asset_server::router::Router;

fn store_of(files: &[(&str, &[u8])]) -> AssetStore {
    let mut store = AssetStore::new();
    for (path, data) in files {
        store.insert(path, data.to_vec());
    }
    store
}

fn served(response: &Response) -> (&'static str, Vec<u8>) {
    match response {
        Response::Serve { content_type, body } => (*content_type, body.to_vec()),
        Response::Redirect => panic!("redirect"),
        Response::NotFound => panic!("not found"),
    }
}

#[test]
fn root_and_index_html_serve_the_root_index() {
    let store = store_of(&[("index.html", b"<html>root</html>")]);
    let mimes = MimeMapper::new();
    for prefer in [true, false] {
        let router = Router::new(prefer);
        let slash = router.call("/", &store, &mimes);
        let index = router.call("/index.html", &store, &mimes);
        assert_eq!(slash.status_code(), 200);
        assert_eq!(index.status_code(), 200);
        let (slash_type, slash_body) = served(&slash);
        let (index_type, index_body) = served(&index);
        assert_eq!(slash_body, b"<html>root</html>");
        assert_eq!(index_body, b"<html>root</html>");
        assert_eq!(slash_type, "Content-Type: text/html");
        assert_eq!(slash_type, index_type);
    }
}

#[test]
fn root_without_index_is_not_found() {
    let store = store_of(&[("style.css", b"x")]);
    let mimes = MimeMapper::new();
    for prefer in [true, false] {
        let router = Router::new(prefer);
        assert!(matches!(router.call("/", &store, &mimes), Response::NotFound));
        assert!(matches!(router.call("/index.html", &store, &mimes), Response::NotFound));
    }
}

#[test]
fn missing_directory_redirects_when_serving_is_preferred() {
    let store = store_of(&[("index.html", b"root")]);
    let mimes = MimeMapper::new();
    let response = Router::new(true).call("/missingdir/", &store, &mimes);
    assert!(matches!(response, Response::Redirect));
    assert_eq!(response.status_code(), 307);
    assert_eq!(response.header(), Some("Location: /"));
    assert_eq!(response.message(), Some("Temporary Redirect"));
    assert_eq!(response.body(), b"Temporary Redirect");
}

#[test]
fn directory_without_extension_serves_its_index_when_serving_is_preferred() {
    let store = store_of(&[("index.html", b"root"), ("about/index.html", b"about")]);
    let mimes = MimeMapper::new();
    let response = Router::new(true).call("/about", &store, &mimes);
    assert_eq!(response.status_code(), 200);
    let (content_type, body) = served(&response);
    assert_eq!(body, b"about");
    assert_eq!(content_type, "Content-Type: text/html");
}

#[test]
fn directory_with_slash_serves_its_index_when_serving_is_preferred() {
    let store = store_of(&[("index.html", b"root"), ("about/index.html", b"about")]);
    let mimes = MimeMapper::new();
    let response = Router::new(true).call("/about/", &store, &mimes);
    let (content_type, body) = served(&response);
    assert_eq!(body, b"about");
    assert_eq!(content_type, "Content-Type: text/html");
}

#[test]
fn file_is_served_with_its_content_type() {
    let store = store_of(&[("style.css", b"body {}")]);
    let mimes = MimeMapper::new();
    for prefer in [true, false] {
        let response = Router::new(prefer).call("/style.css", &store, &mimes);
        assert_eq!(response.status_code(), 200);
        assert_eq!(response.header(), Some("Content-Type: text/css"));
        assert_eq!(response.message(), None);
        assert_eq!(response.body(), b"body {}");
    }
}

#[test]
fn missing_file_is_not_found() {
    let store = store_of(&[("index.html", b"root")]);
    let mimes = MimeMapper::new();
    for prefer in [true, false] {
        let response = Router::new(prefer).call("/style.css", &store, &mimes);
        assert!(matches!(response, Response::NotFound));
        assert_eq!(response.status_code(), 404);
        assert_eq!(response.header(), None);
        assert_eq!(response.message(), Some("Not Found"));
        assert_eq!(response.body(), b"Not Found");
    }
}

#[test]
fn missing_directory_falls_back_to_root_index_when_serving_is_not_preferred() {
    let store = store_of(&[("index.html", b"root")]);
    let mimes = MimeMapper::new();
    let router = Router::new(false);
    for path in ["/missingdir/", "/missingdir", "/a/b/c"] {
        let response = router.call(path, &store, &mimes);
        let (content_type, body) = served(&response);
        assert_eq!(body, b"root");
        assert_eq!(content_type, "Content-Type: text/html");
    }
}

#[test]
fn missing_directory_without_root_index_redirects_when_serving_is_not_preferred() {
    let store = store_of(&[("style.css", b"x")]);
    let mimes = MimeMapper::new();
    let response = Router::new(false).call("/missingdir/", &store, &mimes);
    assert!(matches!(response, Response::Redirect));
}

#[test]
fn found_directory_is_served_when_serving_is_not_preferred() {
    let store = store_of(&[("index.html", b"root"), ("about/index.html", b"about")]);
    let mimes = MimeMapper::new();
    let response = Router::new(false).call("/about", &store, &mimes);
    let (_, body) = served(&response);
    assert_eq!(body, b"about");
}

#[test]
fn unknown_extension_is_served_as_octet_stream() {
    let store = store_of(&[("blob.no-such-extension", &[0, 159, 146, 150])]);
    let mimes = MimeMapper::new();
    let response = Router::new(true).call("/blob.no-such-extension", &store, &mimes);
    let (content_type, body) = served(&response);
    assert_eq!(content_type, "Content-Type: application/octet-stream");
    assert_eq!(body, vec![0, 159, 146, 150]);
}

#[test]
fn resolve_root() {
    let store = store_of(&[("index.html", b"root")]);
    for prefer in [true, false] {
        let router = Router::new(prefer);
        for path in ["/", "/index.html"] {
            let resolved = router.resolve(path, &store);
            assert_eq!(resolved.lookup_path, "index.html");
            assert!(!resolved.redirect_eligible);
            assert_eq!(resolved.asset.unwrap().data, b"root");
        }
    }
}

#[test]
fn resolve_lookup_paths() {
    let store = AssetStore::new();
    let router = Router::new(true);
    let cases = [
        ("/about", "about/index.html", true),
        ("/about/", "about/index.html", true),
        ("/a/b", "a/b/index.html", true),
        ("/a.b/c/", "a.b/c/index.html", true),
        ("/a.b/c", "a.b/c", false),
        ("/style.css", "style.css", false),
        ("/img/logo.png", "img/logo.png", false),
        ("/file.", "file.", false),
        ("/.hidden", ".hidden", false),
        ("//", "/index.html", true),
        ("//about", "/about/index.html", true),
        ("about", "about/index.html", true),
        ("style.css", "style.css", false),
        ("", "/index.html", true),
        ("/index.htm", "index.htm", false),
        ("/index.html/", "index.html/index.html", true),
        ("/über", "über/index.html", true),
    ];
    for (raw, lookup, redirect) in cases {
        let resolved = router.resolve(raw, &store);
        assert_eq!(resolved.lookup_path, lookup, "lookup path of {raw:?}");
        assert_eq!(resolved.redirect_eligible, redirect, "redirect of {raw:?}");
        assert!(resolved.asset.is_none());
    }
}

#[test]
fn resolve_policy_with_index_present() {
    let store = store_of(&[("index.html", b"root"), ("docs/index.html", b"docs")]);

    let resolved = Router::new(true).resolve("/docs/", &store);
    assert_eq!(resolved.lookup_path, "docs/index.html");
    assert!(!resolved.redirect_eligible);
    assert_eq!(resolved.asset.unwrap().path, "docs/index.html");

    let resolved = Router::new(false).resolve("/docs/", &store);
    assert_eq!(resolved.lookup_path, "docs/index.html");
    assert!(resolved.redirect_eligible);
    assert_eq!(resolved.asset.unwrap().path, "docs/index.html");
}

#[test]
fn resolve_policy_with_index_missing() {
    let store = store_of(&[("index.html", b"root")]);

    let resolved = Router::new(true).resolve("/docs/", &store);
    assert_eq!(resolved.lookup_path, "docs/index.html");
    assert!(resolved.redirect_eligible);
    assert!(resolved.asset.is_none());

    let resolved = Router::new(false).resolve("/docs/", &store);
    assert_eq!(resolved.lookup_path, "docs/index.html");
    assert!(resolved.redirect_eligible);
    assert_eq!(resolved.asset.unwrap().path, "index.html");
}

#[test]
fn router_keeps_its_policy() {
    assert!(Router::new(true).prefer_serve_over_redirect);
    assert!(!Router::new(false).prefer_serve_over_redirect);
}

#[test]
fn serving_fills_the_cache_once_per_media_type() {
    let store = store_of(&[
        ("index.html", b"root"),
        ("about/index.html", b"about"),
        ("style.css", b"css"),
    ]);
    let mimes = MimeMapper::new();
    let router = Router::new(true);
    assert_eq!(mimes.len(), Some(0));
    let _ = router.call("/", &store, &mimes);
    assert_eq!(mimes.len(), Some(1));
    let _ = router.call("/about", &store, &mimes);
    assert_eq!(mimes.len(), Some(1));
    let _ = router.call("/style.css", &store, &mimes);
    assert_eq!(mimes.len(), Some(2));
    let _ = router.call("/missing.png", &store, &mimes);
    let _ = router.call("/missing/", &store, &mimes);
    assert_eq!(mimes.len(), Some(2));
}
