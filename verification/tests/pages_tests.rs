use orangutan::pages::{
    all_profiles, data_file, data_file_path, metadata_base_key, object_key, read_allowed,
    used_profiles, LocalObjectReader, PageMetadata, ReadAllowed,
};
use orangutan::sidecar::{page_metadata, page_metadata_from_json};

fn strings(raw: &[&str]) -> Vec<String> {
    raw.iter().map(|p| p.to_string()).collect()
}

#[test]
fn read_allowed_defaults_when_absent_or_empty() {
    assert_eq!(read_allowed(None), strings(&["_default"]));
    assert_eq!(read_allowed(Some(Vec::new())), strings(&["_default"]));
    assert_eq!(read_allowed(Some(strings(&["friends"]))), strings(&["friends"]));
}

#[test]
fn used_profiles_is_union_of_pages() {
    let metas = vec![
        PageMetadata {
            read_allowed: ReadAllowed(strings(&["friends", "family"])),
            path: "/a.html".to_string(),
        },
        PageMetadata {
            read_allowed: ReadAllowed(strings(&["family", "_default"])),
            path: "/b.html".to_string(),
        },
    ];
    let used = used_profiles(&metas);
    assert!(used.contains(&"friends".to_string()));
    assert!(used.contains(&"family".to_string()));
    assert!(used.contains(&"_default".to_string()));
    assert!(!used.contains(&"stranger".to_string()));
    let all = all_profiles(&metas);
    assert_eq!(used, all);
}

#[test]
fn data_file_paths_follow_the_convention() {
    assert_eq!(data_file_path("/data", "/whatever/index.html"), "/data/whatever/index.orangutan");
    assert_eq!(data_file_path("/data", "page"), "/data/page.orangutan");
    assert_eq!(data_file_path("/data", "/dir.v1/raw"), "/data/dir.v1/raw.orangutan");
    assert_eq!(data_file("/data", "/data/whatever/index.html"), "/data/whatever/index.orangutan");
    assert_eq!(data_file("/data", "/other/p.html"), "/data/other/p.orangutan");
}

#[test]
fn object_keys_suffix_rendered_extensions() {
    assert_eq!(object_key("/index.html", "friends"), "/index.html@friends");
    assert_eq!(object_key("/style.css", "_default"), "/style.css@_default");
    assert_eq!(object_key("/photo.jpg", "friends"), "/photo.jpg");
    assert_eq!(object_key("/no-extension", "friends"), "/no-extension");
    assert_eq!(metadata_base_key("/index.html@friends"), "/index.html");
    assert_eq!(metadata_base_key("/plain.bin"), "/plain.bin");
}

#[test]
fn sidecars_parse_with_public_default() {
    let m = page_metadata_from_json(
        "{\"read_allowed\": [\"friends\", \"family\"], \"path\": \"/a.html\"}",
    )
    .unwrap();
    assert_eq!(m.read_allowed.0, strings(&["friends", "family"]));
    assert_eq!(m.path, "/a.html");

    let public = page_metadata_from_json("{\"path\": \"/b.html\"}").unwrap();
    assert_eq!(public.read_allowed.0, strings(&["_default"]));

    let null = page_metadata_from_json("{\"read_allowed\": null, \"path\": \"/c.html\"}").unwrap();
    assert_eq!(null.read_allowed.0, strings(&["_default"]));

    let empty =
        page_metadata_from_json("{\"read_allowed\": [], \"path\": \"/d.html\"}").unwrap();
    assert_eq!(empty.read_allowed.0, strings(&["_default"]));
}

#[test]
fn unreadable_sidecars_are_errors_not_static_files() {
    // Not JSON, a missing path, a mistyped allowed list, or a non-string
    // item: each is an error, never "no sidecar".
    assert!(page_metadata_from_json("not json").is_err());
    assert!(page_metadata_from_json("{\"read_allowed\": []}").is_err());
    assert!(
        page_metadata_from_json("{\"read_allowed\": \"friends\", \"path\": \"/e.html\"}").is_err()
    );
    assert!(
        page_metadata_from_json("{\"read_allowed\": [\"friends\", 3], \"path\": \"/f.html\"}")
            .is_err()
    );
    assert!(
        page_metadata_from_json("{\"read_allowed\": 7, \"path\": \"/g.html\"}").is_err()
    );
}

#[test]
fn page_metadata_first_document_decides() {
    let docs = strings(&["{\"read_allowed\": [\"friends\"], \"path\": \"/a.html\"}"]);
    let m = page_metadata(&docs).unwrap().unwrap();
    assert_eq!(m.read_allowed.0, strings(&["friends"]));

    // No candidate document: a plain static file.
    assert_eq!(page_metadata(&strings(&[])).unwrap().is_none(), true);

    // An unreadable first document propagates as an error.
    let broken = strings(&["not json", "{\"read_allowed\": [\"friends\"], \"path\": \"/a.html\"}"]);
    assert!(page_metadata(&broken).is_err());
}

#[test]
fn list_objects_maps_files_to_keys() {
    let reader = LocalObjectReader { website_dir: "/dest/website@_default".to_string() };
    let files = strings(&[
        "/dest/website@_default/index.html@_default",
        "/dest/website@_default/whatever/p.html@friends",
    ]);
    assert_eq!(
        reader.list_objects(&files),
        strings(&["/index.html@_default", "/whatever/p.html@friends"])
    );
}
