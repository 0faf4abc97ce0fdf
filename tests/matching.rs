use robotxt::Rule;

#[test]
fn rule_root_none() {
    let r = Rule::new("/", true).unwrap();

    // Matches:
    assert!(r.is_match("/fish"));
}

#[test]
fn rule_root_universal() {
    let r = Rule::new("/*", true).unwrap();

    // Matches:
    assert!(r.is_match("/fish"));
}

#[test]
fn rule_root_ending() {
    let r = Rule::new("/$", true).unwrap();

    // Matches:
    assert!(r.is_match("/"));

    // Doesn't match:
    assert!(!r.is_match("/fish"));
}

#[test]
fn rule_simple() {
    let r = Rule::new("/fish", true).unwrap();

    // Matches:
    assert!(r.is_match("/fish"));
    assert!(r.is_match("/fish.html"));
    assert!(r.is_match("/fish/salmon.html"));
    assert!(r.is_match("/fishheads"));
    assert!(r.is_match("/fishheads/yummy.html"));
    assert!(r.is_match("/fish.php?id=anything"));

    // Doesn't match:
    assert!(!r.is_match("/Fish.asp"));
    assert!(!r.is_match("/catfish"));
    assert!(!r.is_match("/?id=fish"));
    assert!(!r.is_match("/desert/fish"));
}

#[test]
fn rule_folder() {
    let r = Rule::new("/fish/", true).unwrap();

    // Matches:
    assert!(r.is_match("/fish/"));
    assert!(r.is_match("/fish/?id=anything"));
    assert!(r.is_match("/fish/salmon.htm"));

    // Doesn't match:
    assert!(!r.is_match("/fish"));
    assert!(!r.is_match("/fish.html"));
    assert!(!r.is_match("/animals/fish/"));
    assert!(!r.is_match("/Fish/Salmon.asp"));
}

#[test]
fn rule_universal_end() {
    let r = Rule::new("/fish*", true).unwrap();

    // Matches:
    assert!(r.is_match("/fish"));
    assert!(r.is_match("/fish.html"));
    assert!(r.is_match("/fish/salmon.html"));
    assert!(r.is_match("/fishheads"));
    assert!(r.is_match("/fishheads/yummy.html"));
    assert!(r.is_match("/fish.php?id=anything"));

    // Doesn't match:
    assert!(!r.is_match("/Fish.asp"));
    assert!(!r.is_match("/catfish"));
    assert!(!r.is_match("/?id=fish"));
    assert!(!r.is_match("/desert/fish"));
}

#[test]
fn rule_universal_mid() {
    let r = Rule::new("/*.php", true).unwrap();

    // Matches:
    assert!(r.is_match("/index.php"));
    assert!(r.is_match("/filename.php"));
    assert!(r.is_match("/folder/filename.php"));
    assert!(r.is_match("/folder/filename.php?parameters"));
    assert!(r.is_match("/folder/any.php.file.html"));
    assert!(r.is_match("/filename.php/"));

    // Doesn't match:
    assert!(!r.is_match("/"));
    assert!(!r.is_match("/windows.PHP"));
}

#[test]
fn rule_universal_mid2() {
    let r = Rule::new("/fish*.php", true).unwrap();

    // Matches:
    assert!(r.is_match("/fish.php"));
    assert!(r.is_match("/fishheads/catfish.php?parameters"));

    // Doesn't match:
    assert!(!r.is_match("/Fish.PHP"));
}

#[test]
fn rule_both_wildcards() {
    let r = Rule::new("/*.php$", true).unwrap();

    // Matches:
    assert!(r.is_match("/filename.php"));
    assert!(r.is_match("/folder/filename.php"));

    // Doesn't match:
    assert!(!r.is_match("/filename.php?parameters"));
    assert!(!r.is_match("/filename.php/"));
    assert!(!r.is_match("/filename.php5"));
    assert!(!r.is_match("/windows.PHP"));
}
