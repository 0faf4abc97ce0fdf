use robotxt::{Rule, Rules};

#[test]
fn rules_simple() {
    let allow = Rule::new("/p", true).unwrap();
    let disallow = Rule::new("/", false).unwrap();
    let rules = Rules::new(vec![allow, disallow], None);

    assert!(rules.is_match("/page"));
}

#[test]
fn rules_restrictive() {
    let allow = Rule::new("/folder", true).unwrap();
    let disallow = Rule::new("/folder", false).unwrap();
    let rules = Rules::new(vec![allow, disallow], None);

    assert!(rules.is_match("/folder/page"));
}

#[test]
fn rules_restrictive2() {
    let allow = Rule::new("/page", true).unwrap();
    let disallow = Rule::new("/*.ph", false).unwrap();
    let rules = Rules::new(vec![allow, disallow], None);

    assert!(rules.is_match("/page.php5"));
}

#[test]
fn rules_longer() {
    let allow = Rule::new("/page", true).unwrap();
    let disallow = Rule::new("/*.htm", false).unwrap();
    let rules = Rules::new(vec![allow, disallow], None);

    assert!(!rules.is_match("/page.htm"));
}

#[test]
fn rules_specific() {
    let allow = Rule::new("/$", true).unwrap();
    let disallow = Rule::new("/", false).unwrap();
    let rules = Rules::new(vec![allow, disallow], None);

    assert!(rules.is_match("/"));
}

#[test]
fn rules_specific2() {
    let allow = Rule::new("/$", true).unwrap();
    let disallow = Rule::new("/", false).unwrap();
    let rules = Rules::new(vec![allow, disallow], None);

    assert!(!rules.is_match("/page.htm"));
}

#[test]
fn data_simple() {
    let allow = Rule::new("/p", true).unwrap();
    let disallow = Rule::new("/", false).unwrap();
    let rules = Rules::new(vec![allow, disallow], None);

    assert!(rules.is_match("/page"));
}

#[test]
fn data_restrictive() {
    let allow = Rule::new("/folder", true).unwrap();
    let disallow = Rule::new("/folder", false).unwrap();
    let rules = Rules::new(vec![allow, disallow], None);

    assert!(rules.is_match("/folder/page"));
}

#[test]
fn data_restrictive2() {
    let allow = Rule::new("/page", true).unwrap();
    let disallow = Rule::new("/*.ph", false).unwrap();
    let rules = Rules::new(vec![allow, disallow], None);

    assert!(rules.is_match("/page.php5"));
}

#[test]
fn data_longer() {
    let allow = Rule::new("/page", true).unwrap();
    let disallow = Rule::new("/*.htm", false).unwrap();
    let rules = Rules::new(vec![allow, disallow], None);

    assert!(!rules.is_match("/page.htm"));
}

#[test]
fn data_specific() {
    let allow = Rule::new("/$", true).unwrap();
    let disallow = Rule::new("/", false).unwrap();
    let rules = Rules::new(vec![allow, disallow], None);

    assert!(rules.is_match("/"));
}

#[test]
fn data_specific2() {
    let allow = Rule::new("/$", true).unwrap();
    let disallow = Rule::new("/", false).unwrap();
    let rules = Rules::new(vec![allow, disallow], None);

    assert!(!rules.is_match("/page.htm"));
}
