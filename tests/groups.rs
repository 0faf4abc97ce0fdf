use robotxt::{Directive, Robots};

fn directives() -> Vec<Directive> {
    vec![
        Directive::UserAgent(b"bot-robotxt".to_vec()),
        Directive::Allow(b"/1".to_vec()),
        Directive::Disallow(b"/".to_vec()),
        Directive::UserAgent(b"*".to_vec()),
        Directive::Allow(b"/2".to_vec()),
        Directive::Disallow(b"/".to_vec()),
        Directive::UserAgent(b"bot".to_vec()),
        Directive::Allow(b"/3".to_vec()),
        Directive::Disallow(b"/".to_vec()),
    ]
}

#[test]
fn parser_specific() {
    let r = Robots::from_directives(&directives(), "bot-robotxt");

    // Matches:
    assert!(r.is_allowed("/1"));

    // Doesn't match:
    assert!(!r.is_allowed("/2"));
    assert!(!r.is_allowed("/3"));
}

#[test]
fn parser_strict() {
    let r = Robots::from_directives(&directives(), "bot");

    // Matches:
    assert!(r.is_allowed("/3"));

    // Doesn't match:
    assert!(!r.is_allowed("/1"));
    assert!(!r.is_allowed("/2"));
}

#[test]
fn parser_missing() {
    let r = Robots::from_directives(&directives(), "super-bot");

    // Matches:
    assert!(r.is_allowed("/2"));

    // Doesn't match:
    assert!(!r.is_allowed("/1"));
    assert!(!r.is_allowed("/3"));
}

#[test]
fn parser_partial() {
    let r = Robots::from_directives(&directives(), "bot-super");

    // Matches:
    assert!(r.is_allowed("/3"));

    // Doesn't match:
    assert!(!r.is_allowed("/1"));
    assert!(!r.is_allowed("/2"));
}

#[test]
fn single_specific() {
    let r = Robots::from_directives(&directives(), "bot-robotxt");

    // Matches:
    assert!(r.is_allowed("/1"));

    // Doesn't match:
    assert!(!r.is_allowed("/2"));
    assert!(!r.is_allowed("/3"));
}

#[test]
fn single_strict() {
    let r = Robots::from_directives(&directives(), "bot");

    // Matches:
    assert!(r.is_allowed("/3"));

    // Doesn't match:
    assert!(!r.is_allowed("/1"));
    assert!(!r.is_allowed("/2"));
}

#[test]
fn single_missing() {
    let r = Robots::from_directives(&directives(), "super-bot");

    // Matches:
    assert!(r.is_allowed("/2"));

    // Doesn't match:
    assert!(!r.is_allowed("/1"));
    assert!(!r.is_allowed("/3"));
}

#[test]
fn single_partial() {
    let r = Robots::from_directives(&directives(), "bot-super");

    // Matches:
    assert!(r.is_allowed("/3"));

    // Doesn't match:
    assert!(!r.is_allowed("/1"));
    assert!(!r.is_allowed("/2"));
}

#[test]
fn state_specific() {
    let r = Robots::from_directives(&directives(), "bot-robotxt");

    // Matches:
    assert!(r.is_allowed("/1"));

    // Doesn't match:
    assert!(!r.is_allowed("/2"));
    assert!(!r.is_allowed("/3"));
}

#[test]
fn state_strict() {
    let r = Robots::from_directives(&directives(), "bot");

    // Matches:
    assert!(r.is_allowed("/3"));

    // Doesn't match:
    assert!(!r.is_allowed("/1"));
    assert!(!r.is_allowed("/2"));
}

#[test]
fn state_missing() {
    let r = Robots::from_directives(&directives(), "super-bot");

    // Matches:
    assert!(r.is_allowed("/2"));

    // Doesn't match:
    assert!(!r.is_allowed("/1"));
    assert!(!r.is_allowed("/3"));
}

#[test]
fn state_partial() {
    let r = Robots::from_directives(&directives(), "bot-super");

    // Matches:
    assert!(r.is_allowed("/3"));

    // Doesn't match:
    assert!(!r.is_allowed("/1"));
    assert!(!r.is_allowed("/2"));
}

#[test]
fn multi_foo() {
    let r = Robots::from_directives(&[], "foo");
    assert!(r.is_allowed("/anything"));
    assert_eq!(r.user_agent(), "*");
}
