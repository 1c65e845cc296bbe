use orangutan::matching::matching_files;

fn objects(raw: &[&str]) -> Vec<String> {
    raw.iter().map(|p| p.to_string()).collect()
}

#[test]
fn test_index_html() {
    let stored_objects = objects(&[
        "/index.html@_default",
        "/whatever/index.html@friends",
        "/whatever/index.html@family",
        "/whatever/p.html@_default",
        "/whatever/index.htmlindex.html@_default",
        "/whatever/other-page/index.html@_default",
        "/whatever/a/b.html@_default",
    ]);

    assert_eq!(matching_files("", &stored_objects), objects(&["/index.html@_default"]));
    assert_eq!(matching_files("/", &stored_objects), objects(&["/index.html@_default"]));
    assert_eq!(matching_files("/index.html", &stored_objects), objects(&["/index.html@_default"]));

    assert_eq!(
        matching_files("/whatever", &stored_objects),
        objects(&["/whatever/index.html@friends", "/whatever/index.html@family"])
    );
    assert_eq!(
        matching_files("/whatever/", &stored_objects),
        objects(&["/whatever/index.html@friends", "/whatever/index.html@family"])
    );
    assert_eq!(
        matching_files("/whatever/index.html", &stored_objects),
        objects(&["/whatever/index.html@friends", "/whatever/index.html@family"])
    );

    assert_eq!(matching_files("/whatever/a", &stored_objects), Vec::<String>::new());
    assert_eq!(matching_files("/whatever/a/b", &stored_objects), Vec::<String>::new());
    assert_eq!(
        matching_files("/whatever/a/b.html", &stored_objects),
        objects(&["/whatever/a/b.html@_default"])
    );
}

#[test]
fn server_test_index_html() {
    let stored_objects = objects(&[
        "/index.html@_default",
        "/whatever/index.html@friends",
        "/whatever/index.html@family",
        "/whatever/p.html@_default",
        "/whatever/index.htmlindex.html@_default",
        "/whatever/other-page/index.html@_default",
        "/whatever/a/b.html@_default",
    ]);

    assert_eq!(matching_files("", &stored_objects), objects(&["/index.html@_default"]));
    assert_eq!(matching_files("/", &stored_objects), objects(&["/index.html@_default"]));
    assert_eq!(matching_files("/index.html", &stored_objects), objects(&["/index.html@_default"]));

    assert_eq!(
        matching_files("/whatever", &stored_objects),
        objects(&["/whatever/index.html@friends", "/whatever/index.html@family"])
    );
    assert_eq!(
        matching_files("/whatever/", &stored_objects),
        objects(&["/whatever/index.html@friends", "/whatever/index.html@family"])
    );
    assert_eq!(
        matching_files("/whatever/index.html", &stored_objects),
        objects(&["/whatever/index.html@friends", "/whatever/index.html@family"])
    );

    assert_eq!(matching_files("/whatever/a", &stored_objects), Vec::<String>::new());
    assert_eq!(matching_files("/whatever/a/b", &stored_objects), Vec::<String>::new());
    assert_eq!(
        matching_files("/whatever/a/b.html", &stored_objects),
        objects(&["/whatever/a/b.html@_default"])
    );
}

#[test]
fn test_other_extensions() {
    let stored_objects =
        objects(&["/style.css@_default", "/anything.custom@friends", "/anything.custom@family"]);

    assert_eq!(matching_files("/style.css", &stored_objects), objects(&["/style.css@_default"]));
    assert_eq!(
        matching_files("/anything.custom", &stored_objects),
        objects(&["/anything.custom@friends", "/anything.custom@family"])
    );
}

#[test]
fn server_test_other_extensions() {
    let stored_objects =
        objects(&["/style.css@_default", "/anything.custom@friends", "/anything.custom@family"]);

    assert_eq!(matching_files("/style.css", &stored_objects), objects(&["/style.css@_default"]));
    assert_eq!(
        matching_files("/anything.custom", &stored_objects),
        objects(&["/anything.custom@friends", "/anything.custom@family"])
    );
}
