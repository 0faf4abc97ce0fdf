use vstd::prelude::*;

verus! {

/// The kind of a directive line.
#[derive(Clone, Copy, PartialEq, Eq, Structural, Debug)]
pub enum DirectiveKind {
    UserAgent,
    Allow,
    Disallow,
    CrawlDelay,
    Sitemap,
    Unknown,
}

/// One line of a `robots.txt` file: its kind and the raw bytes of its value.
#[derive(Clone, Debug, PartialEq, Eq)]
pub enum Directive {
    UserAgent(Vec<u8>),
    Allow(Vec<u8>),
    Disallow(Vec<u8>),
    CrawlDelay(Vec<u8>),
    Sitemap(Vec<u8>),
    Unknown(Vec<u8>),
}

/// The model of a directive.
pub type DirectiveView = (DirectiveKind, Seq<u8>);

impl View for Directive {
    type V = DirectiveView;

    open spec fn view(&self) -> DirectiveView {
        match self {
            Directive::UserAgent(v) => (DirectiveKind::UserAgent, v@),
            Directive::Allow(v) => (DirectiveKind::Allow, v@),
            Directive::Disallow(v) => (DirectiveKind::Disallow, v@),
            Directive::CrawlDelay(v) => (DirectiveKind::CrawlDelay, v@),
            Directive::Sitemap(v) => (DirectiveKind::Sitemap, v@),
            Directive::Unknown(v) => (DirectiveKind::Unknown, v@),
        }
    }
}

impl Directive {
    /// Creates the directive of kind `kind` with value `value`.
    pub fn new(kind: DirectiveKind, value: Vec<u8>) -> (r: Directive)
        ensures
            r@ == (kind, value@),
    {
        match kind {
            DirectiveKind::UserAgent => Directive::UserAgent(value),
            DirectiveKind::Allow => Directive::Allow(value),
            DirectiveKind::Disallow => Directive::Disallow(value),
            DirectiveKind::CrawlDelay => Directive::CrawlDelay(value),
            DirectiveKind::Sitemap => Directive::Sitemap(value),
            DirectiveKind::Unknown => Directive::Unknown(value),
        }
    }
}

} // verus!
