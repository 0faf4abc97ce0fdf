use robotxt::{
    into_directives, normalize_path, pick_agent, try_delay, AccessResult, Directive, Robots, Rule, Rules,
    UserAgent, BYTES_LIMIT,
};

#[test]
fn example_group() {
    let txt = "
        User-Agent: foobot
        Allow: /example/
        Disallow: /example/nope.txt
    ";
    let r = Robots::from_string(txt, "foobot");
    assert!(r.is_allowed("/example/yeah.txt"));
    assert!(!r.is_allowed("/example/nope.txt"));
    assert_eq!(r.user_agent(), "foobot");
}

#[test]
fn scanner_spellings_and_separators() {
    let txt = b"USER-AGENT: Bot\r\nDissallow /a # no\r\nallaw: /a/b\nCrawl Delay 3\nSite-Map: https://example.com/s.xml\nnonsense\n";
    let ds = into_directives(txt);
    assert_eq!(
        ds,
        vec![
            Directive::UserAgent(b"Bot".to_vec()),
            Directive::Disallow(b"/a".to_vec()),
            Directive::Allow(b"/a/b".to_vec()),
            Directive::CrawlDelay(b"3".to_vec()),
            Directive::Sitemap(b"https://example.com/s.xml".to_vec()),
            Directive::Unknown(b"nonsense".to_vec()),
        ]
    );
}

#[test]
fn scanner_empty_disallow_allows_all() {
    let ds = into_directives(b"Disallow:\nDisallow: # comment only");
    assert_eq!(
        ds,
        vec![Directive::Allow(b"/".to_vec()), Directive::Allow(b"/".to_vec())]
    );
}

#[test]
fn scanner_key_running_into_text_is_unknown() {
    let ds = into_directives(b"Allowance: /x\n\nDisallow");
    assert_eq!(
        ds,
        vec![
            Directive::Unknown(b"Allowance: /x".to_vec()),
            Directive::Unknown(Vec::new()),
            Directive::Allow(b"/".to_vec()),
        ]
    );
}

#[test]
fn bom_and_nul_bytes() {
    let mut txt: Vec<u8> = vec![0xEF, 0xBB, 0xBF];
    txt.extend_from_slice(b"User-agent: *\x00Disallow: /private");
    let r = Robots::from_slice(&txt, "bot");
    assert!(!r.is_allowed("/private/x"));
    assert!(r.is_allowed("/public"));
}

#[test]
fn robots_txt_always_allowed() {
    let r = Robots::from_string("User-agent: *\nDisallow: /", "bot");
    assert!(!r.is_allowed("/page"));
    assert!(r.is_allowed("/robots.txt"));
    assert!(r.is_allowed("robots.txt"));
}

#[test]
fn precedence_short_allow_over_root_disallow() {
    let r = Robots::from_string("User-agent: *\nAllow: /p\nDisallow: /", "bot");
    assert!(r.is_allowed("/page"));
}

#[test]
fn precedence_equal_length_allow_wins() {
    let r = Robots::from_string("User-agent: *\nDisallow: /folder\nAllow: /folder", "bot");
    assert!(r.is_allowed("/folder/page"));
}

#[test]
fn precedence_longer_disallow_wins() {
    let r = Robots::from_string("User-agent: *\nAllow: /page\nDisallow: /*.htm", "bot");
    assert!(!r.is_allowed("/page.htm"));
}

#[test]
fn end_anchored_php_pattern() {
    let r = Rule::new("/*.php$", false).unwrap();
    assert!(r.is_match("/filename.php"));
    assert!(r.is_match("/folder/filename.php"));
    assert!(!r.is_match("/filename.php?x=1"));
    assert!(!r.is_match("/filename.php/"));
    assert!(!r.is_match("/filename.php5"));
}

#[test]
fn pattern_metacharacters_are_literal() {
    let r = Rule::new("/a.b+c$", true).unwrap();
    assert!(r.is_match("/a.b+c"));
    assert!(!r.is_match("/axbbc"));
}

#[test]
fn collapsed_stars_match_like_one() {
    let a = Rule::new("/a***b", true).unwrap();
    assert!(a.is_match("/ab"));
    assert!(a.is_match("/axyzb/c"));
    assert!(!a.is_match("/ba"));
}

#[test]
fn oversized_pattern_is_an_error() {
    let mut p = String::from("/");
    for _ in 0..20000 {
        p.push_str("a*");
    }
    p.push('$');
    assert!(Rule::new(&p, true).is_err());
}

#[test]
fn crawl_delay_minimum() {
    let txt = "User-agent: bot\nCrawl-delay: 5\nCrawl-delay: 2.5\nCrawl-delay: 7\nUser-agent: other\nCrawl-delay: 1";
    let r = Robots::from_string(txt, "bot");
    assert_eq!(r.crawl_delay().map(|d| d.as_nanos()), Some(2_500_000_000));
}

#[test]
fn crawl_delay_values() {
    assert_eq!(try_delay(b"1.5").map(|d| d.as_nanos()), Some(1_500_000_000));
    assert_eq!(try_delay(b".25").map(|d| d.as_nanos()), Some(250_000_000));
    assert_eq!(try_delay(b"3.").map(|d| d.as_nanos()), Some(3_000_000_000));
    assert_eq!(try_delay(b"0.0000000019").map(|d| d.as_nanos()), Some(1));
    assert_eq!(try_delay(b"+5").map(|d| d.as_nanos()), Some(5_000_000_000));
    assert!(try_delay(b"+").is_none());
    assert!(try_delay(b"++5").is_none());
    assert!(try_delay(b"1e1").is_none());
    assert!(try_delay(b"-1").is_none());
    assert!(try_delay(b"abc").is_none());
    assert!(try_delay(b"").is_none());
    assert!(try_delay(b".").is_none());
    assert!(try_delay(b"1.2.3").is_none());
    assert!(try_delay(b"18446744074").is_none());
    assert_eq!(
        try_delay(b"18446744073.709551615").map(|d| d.as_nanos()),
        Some(u64::MAX)
    );
    assert!(try_delay(b"18446744073.709551616").is_none());
}

#[test]
fn sitemaps_from_every_group() {
    let txt = "Sitemap: https://Example.com\nUser-agent: a\nSitemap: not a url\nDisallow: /\nUser-agent: b\nSitemap: https://example.com/b.xml";
    let r = Robots::from_string(txt, "zzz");
    assert_eq!(
        r.sitemaps().clone(),
        vec!["https://example.com/".to_string(), "https://example.com/b.xml".to_string()]
    );
}

#[test]
fn reparse_is_deterministic() {
    let txt = b"User-agent: *\nAllow: /a\nDisallow: /*.gif$\nDisallow: /b\nCrawl-delay: 4";
    let a = Robots::from_slice(txt, "bot");
    let b = Robots::from_slice(txt, "bot");
    for p in ["/a", "/a.gif", "/b", "/c", "/b/x.gif", "/robots.txt"] {
        assert_eq!(a.is_allowed(p), b.is_allowed(p));
    }
    assert_eq!(a.crawl_delay(), b.crawl_delay());
    assert_eq!(a.user_agent(), b.user_agent());
}

#[test]
fn oversized_input_is_truncated() {
    let mut txt = b"User-agent: *\nDisallow: /early\n".to_vec();
    while txt.len() < BYTES_LIMIT {
        txt.extend_from_slice(b"# padding\n");
    }
    txt.truncate(BYTES_LIMIT);
    txt.extend_from_slice(b"\nDisallow: /late\n");
    let r = Robots::from_slice(&txt, "bot");
    assert!(!r.is_allowed("/early"));
    assert!(r.is_allowed("/late"));
}

#[test]
fn access_outcomes() {
    let ok = Robots::from_access(AccessResult::Successful(b"User-agent: *\nDisallow: /x"), "Bot");
    assert!(!ok.is_allowed("/x"));
    assert_eq!(ok.is_always(), None);
    let r = Robots::from_access(AccessResult::Redirect, " Bot ");
    assert_eq!(r.is_always(), Some(true));
    assert_eq!(r.user_agent(), "bot");
    assert!(Robots::from_access(AccessResult::Unavailable, "bot").is_allowed("/x"));
    let u = Robots::from_access(AccessResult::Unreachable, "bot");
    assert!(!u.is_allowed("/x"));
    assert!(u.crawl_delay().is_none());
    assert!(u.sitemaps().is_empty());
    assert_eq!(u.user_agent(), "bot");
}

#[test]
fn agent_names_are_trimmed_and_lowercased() {
    let r = Robots::from_string("User-agent:  BOT \nDisallow: /x", "  Bot-Extra ");
    assert_eq!(r.user_agent(), "bot");
    assert!(!r.is_allowed("/x"));
}

#[test]
fn alias_run_and_unknown_lines() {
    let txt = "User-agent: a\nUser-agent: bot\nfoo: bar\nDisallow: /x\nUser-agent: c\nDisallow: /y";
    let r = Robots::from_string(txt, "bot");
    assert!(!r.is_allowed("/x"));
    assert!(r.is_allowed("/y"));
}

#[test]
fn rules_before_any_group_belong_to_wildcard() {
    let r = Robots::from_string("Disallow: /x\nUser-agent: bot\nDisallow: /y", "other");
    assert!(!r.is_allowed("/x"));
    assert!(r.is_allowed("/y"));
}

#[test]
fn invalid_utf8_agent() {
    assert!(UserAgent::new(&[0xff, 0xfe]).is_err());
    let a = UserAgent::new(b" MyBot ").unwrap();
    assert_eq!(a.utf8().as_str(), "mybot");
}

#[test]
fn path_normalization() {
    assert_eq!(normalize_path("fish"), "/fish");
    assert_eq!(normalize_path("/a b\"<>"), "/a%20b%22%3C%3E");
    assert_eq!(normalize_path("/\u{fc}"), "/%C3%BC");
    assert_eq!(normalize_path(""), "/");
}

#[test]
fn rules_empty_allows_everything() {
    let rules = Rules::new(Vec::new(), None);
    assert!(rules.is_empty());
    assert!(rules.is_match("/anything"));
}

#[test]
fn invalid_agent_line_ends_capturing() {
    let mut txt = b"User-agent: bot\nAllow: /a\nUser-agent: ".to_vec();
    txt.extend_from_slice(&[0xff, 0xfe]);
    txt.extend_from_slice(b"\nUser-agent: x\nDisallow: /b\n");
    let r = Robots::from_slice(&txt, "bot");
    assert!(r.is_allowed("/b"));
    let x = Robots::from_slice(&txt, "x");
    assert!(!x.is_allowed("/b"));
}

#[test]
fn invalid_agent_line_alone_captures_nothing() {
    let mut txt = b"User-agent: ".to_vec();
    txt.extend_from_slice(&[0xff]);
    txt.extend_from_slice(b"\nDisallow: /c\n");
    let r = Robots::from_slice(&txt, "bot");
    assert!(r.is_allowed("/c"));
}

#[test]
fn pick_agent_longest_prefix() {
    let names = vec![b"bot-robotxt".to_vec(), b"*".to_vec(), b"bot".to_vec()];
    assert_eq!(pick_agent(&names, b"bot-robotxt"), b"bot-robotxt".to_vec());
    assert_eq!(pick_agent(&names, b"bot-super"), b"bot".to_vec());
    assert_eq!(pick_agent(&names, b"super-bot"), b"*".to_vec());
    assert_eq!(pick_agent(&Vec::new(), b"bot"), b"*".to_vec());
}
