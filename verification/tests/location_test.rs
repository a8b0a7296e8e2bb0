use thunder_agent::tools::middleware::location::{resolved_location, Ancestor};

fn anc(canonical: Option<&str>, name: Option<&str>) -> Ancestor {
    Ancestor { canonical: canonical.map(String::from), name: name.map(String::from) }
}

#[test]
fn missing_tail_is_put_back_on_the_nearest_existing_ancestor() {
    let chain = vec![anc(None, Some("c.txt")), anc(None, Some("b")), anc(Some("/real/a"), Some("a"))];
    assert_eq!(resolved_location("/link/a/b/c.txt", &chain), "/real/a/b/c.txt");
    let chain = vec![anc(None, Some("new")), anc(Some("/"), None)];
    assert_eq!(resolved_location("/new", &chain), "/new");
}

#[test]
fn an_existing_path_resolves_to_itself_on_disk() {
    let chain = vec![anc(Some("/private/tmp/x"), Some("x"))];
    assert_eq!(resolved_location("/tmp/x", &chain), "/private/tmp/x");
}

#[test]
fn nothing_existing_leaves_the_path_as_given() {
    let chain = vec![anc(None, Some("y")), anc(None, Some("x"))];
    assert_eq!(resolved_location("x/y", &chain), "x/y");
    assert_eq!(resolved_location("z", &Vec::new()), "z");
}
