use vstd::prelude::*;
use vstd::utf8::*;

use crate::delay::Delay;

verus! {

/// The key `User-agent`.
pub open spec fn user_agent_key() -> Seq<u8> {
    seq![85u8, 115, 101, 114, 45, 97, 103, 101, 110, 116]
}

/// The key `Allow`.
pub open spec fn allow_key() -> Seq<u8> {
    seq![65u8, 108, 108, 111, 119]
}

/// The key `Disallow`.
pub open spec fn disallow_key() -> Seq<u8> {
    seq![68u8, 105, 115, 97, 108, 108, 111, 119]
}

/// The key `Crawl-delay`.
pub open spec fn delay_key() -> Seq<u8> {
    seq![67u8, 114, 97, 119, 108, 45, 100, 101, 108, 97, 121]
}

/// The key `Sitemap`.
pub open spec fn sitemap_key() -> Seq<u8> {
    seq![83u8, 105, 116, 101, 109, 97, 112]
}

/// One directive line: the key, `: `, the value and a line break.
pub open spec fn line(key: Seq<u8>, value: Seq<u8>) -> Seq<u8> {
    key + seq![58u8, 32] + value + seq![10u8]
}

/// The decimal digits of `n`, without leading zeros.
pub open spec fn decimal(n: nat) -> Seq<u8>
    decreases n,
{
    if n < 10 {
        seq![(48 + n) as u8]
    } else {
        decimal(n / 10) + seq![(48 + n % 10) as u8]
    }
}

/// The last `w` decimal digits of `n`, with leading zeros.
pub open spec fn padded(n: nat, w: nat) -> Seq<u8>
    decreases w,
{
    if w == 0 {
        Seq::empty()
    } else {
        padded(n / 10, (w - 1) as nat) + seq![(48 + n % 10) as u8]
    }
}

/// A delay written in seconds: the whole seconds, then, where the delay is
/// not a whole number of seconds, a point and nine digits.
pub open spec fn delay_text(d: Delay) -> Seq<u8> {
    let secs = (d.nanos / 1000000000) as nat;
    let frac = (d.nanos % 1000000000) as nat;
    if frac == 0 {
        decimal(secs)
    } else {
        decimal(secs) + seq![46u8] + padded(frac, 9)
    }
}

/// `text` as comment lines: `# ` before it and after each line break, and
/// a line break at the end.
pub open spec fn commented(text: Seq<u8>) -> Seq<u8> {
    seq![35u8, 32] + comment_body(text) + seq![10u8]
}

/// `text` with `# ` after each line break.
pub open spec fn comment_body(text: Seq<u8>) -> Seq<u8>
    decreases text.len(),
{
    if text.len() == 0 {
        Seq::empty()
    } else if text.last() == 10 {
        comment_body(text.drop_last()) + seq![10u8, 35, 32]
    } else {
        comment_body(text.drop_last()) + seq![text.last()]
    }
}

/// The key `User-agent`.
fn user_agent_key_bytes() -> (r: Vec<u8>)
    ensures
        r@ == user_agent_key(),
{
    vec![85u8, 115, 101, 114, 45, 97, 103, 101, 110, 116]
}

/// The key `Allow`.
fn allow_key_bytes() -> (r: Vec<u8>)
    ensures
        r@ == allow_key(),
{
    vec![65u8, 108, 108, 111, 119]
}

/// The key `Disallow`.
fn disallow_key_bytes() -> (r: Vec<u8>)
    ensures
        r@ == disallow_key(),
{
    vec![68u8, 105, 115, 97, 108, 108, 111, 119]
}

/// The key `Crawl-delay`.
fn delay_key_bytes() -> (r: Vec<u8>)
    ensures
        r@ == delay_key(),
{
    vec![67u8, 114, 97, 119, 108, 45, 100, 101, 108, 97, 121]
}

/// The key `Sitemap`.
fn sitemap_key_bytes() -> (r: Vec<u8>)
    ensures
        r@ == sitemap_key(),
{
    vec![83u8, 105, 116, 101, 109, 97, 112]
}

/// Appends `b` to `out`.
fn append(out: &mut Vec<u8>, b: &[u8])
    ensures
        final(out)@ == old(out)@ + b@,
{
    let mut i: usize = 0;
    while i < b.len()
        invariant
            i <= b@.len(),
            out@ == old(out)@ + b@.subrange(0, i as int),
        decreases b@.len() - i,
    {
        out.push(b[i]);
        assert(out@ =~= old(out)@ + b@.subrange(0, i + 1));
        i = i + 1;
    }
    assert(b@.subrange(0, b@.len() as int) =~= b@);
}

/// Appends the directive line `key: value` to `out`.
fn append_line(out: &mut Vec<u8>, key: &[u8], value: &[u8])
    ensures
        final(out)@ == old(out)@ + line(key@, value@),
{
    append(out, key);
    out.push(58);
    out.push(32);
    append(out, value);
    out.push(10);
    assert(final(out)@ =~= old(out)@ + line(key@, value@));
}

/// The decimal digits of `n`.
fn decimal_bytes(n: u64) -> (r: Vec<u8>)
    ensures
        r@ == decimal(n as nat),
    decreases n,
{
    if n < 10 {
        vec![(48 + n) as u8]
    } else {
        let mut v = decimal_bytes(n / 10);
        v.push((48 + n % 10) as u8);
        v
    }
}

/// The last `w` decimal digits of `n`.
fn padded_bytes(n: u64, w: u64) -> (r: Vec<u8>)
    ensures
        r@ == padded(n as nat, w as nat),
    decreases w,
{
    if w == 0 {
        Vec::new()
    } else {
        let mut v = padded_bytes(n / 10, w - 1);
        v.push((48 + n % 10) as u8);
        v
    }
}

/// The text of a delay in seconds.
fn delay_bytes(d: Delay) -> (r: Vec<u8>)
    ensures
        r@ == delay_text(d),
{
    let secs = d.nanos / 1000000000;
    let frac = d.nanos % 1000000000;
    let mut v = decimal_bytes(secs);
    if frac != 0 {
        v.push(46);
        let f = padded_bytes(frac, 9);
        append(&mut v, f.as_slice());
    }
    v
}

/// Appends `text` to `out` as comment lines.
fn append_comment(out: &mut Vec<u8>, text: &[u8])
    ensures
        final(out)@ == old(out)@ + commented(text@),
{
    out.push(35);
    out.push(32);
    let ghost start = out@;
    let mut i: usize = 0;
    while i < text.len()
        invariant
            i <= text@.len(),
            start == old(out)@ + seq![35u8, 32],
            out@ == start + comment_body(text@.subrange(0, i as int)),
        decreases text@.len() - i,
    {
        let c = text[i];
        assert(text@.subrange(0, i + 1).drop_last() =~= text@.subrange(0, i as int));
        if c == 10 {
            out.push(10);
            out.push(35);
            out.push(32);
        } else {
            out.push(c);
        }
        assert(out@ =~= start + comment_body(text@.subrange(0, i + 1)));
        i = i + 1;
    }
    assert(text@.subrange(0, text@.len() as int) =~= text@);
    out.push(10);
    assert(final(out)@ =~= old(out)@ + commented(text@));
}

/// One user-agent group of a `robots.txt` file being written.
#[derive(Debug, Clone)]
pub struct Section {
    user_agent: Vec<u8>,
    body: Vec<u8>,
    crawl_delay: Option<Delay>,
}

impl Section {
    /// The name of the group, as bytes.
    pub closed spec fn agent(&self) -> Seq<u8> {
        self.user_agent@
    }

    /// The rule lines written so far.
    pub closed spec fn body(&self) -> Seq<u8> {
        self.body@
    }

    /// The crawl delay of the group.
    pub closed spec fn delay(&self) -> Option<Delay> {
        self.crawl_delay
    }

    /// The text of the group: its `User-agent` line, its rule lines in the
    /// order they were added, and its `Crawl-delay` line if it has one.
    pub open spec fn text(&self) -> Seq<u8> {
        line(user_agent_key(), self.agent()) + self.body() + match self.delay() {
            Some(d) => line(delay_key(), delay_text(d)),
            None => Seq::empty(),
        }
    }

    /// A group for the crawler named `user_agent`, without rules.
    pub fn new(user_agent: &str) -> (r: Section)
        ensures
            r.agent() == encode_utf8(user_agent@),
            r.body() == Seq::<u8>::empty(),
            r.delay() is None,
    {
        Section {
            user_agent: vstd::slice::slice_to_vec(user_agent.as_bytes()),
            body: Vec::new(),
            crawl_delay: None,
        }
    }

    /// Adds the line `Allow: path`.
    pub fn allow(&mut self, path: &str)
        ensures
            final(self).agent() == old(self).agent(),
            final(self).body() == old(self).body() + line(allow_key(), encode_utf8(path@)),
            final(self).delay() == old(self).delay(),
    {
        let key = allow_key_bytes();
        append_line(&mut self.body, key.as_slice(), path.as_bytes());
    }

    /// Adds the line `Disallow: path`.
    pub fn disallow(&mut self, path: &str)
        ensures
            final(self).agent() == old(self).agent(),
            final(self).body() == old(self).body() + line(disallow_key(), encode_utf8(path@)),
            final(self).delay() == old(self).delay(),
    {
        let key = disallow_key_bytes();
        append_line(&mut self.body, key.as_slice(), path.as_bytes());
    }

    /// Sets the crawl delay of the group.
    pub fn crawl_delay(&mut self, delay: Delay)
        ensures
            final(self).agent() == old(self).agent(),
            final(self).body() == old(self).body(),
            final(self).delay() == Some(delay),
    {
        self.crawl_delay = Some(delay);
    }

    /// The text of the group.
    pub fn build(&self) -> (r: Vec<u8>)
        ensures
            r@ == self.text(),
    {
        let mut out: Vec<u8> = Vec::new();
        let key = user_agent_key_bytes();
        append_line(&mut out, key.as_slice(), self.user_agent.as_slice());
        append(&mut out, self.body.as_slice());
        match self.crawl_delay {
            Some(d) => {
                let key = delay_key_bytes();
                let v = delay_bytes(d);
                append_line(&mut out, key.as_slice(), v.as_slice());
            },
            None => {},
        }
        assert(out@ =~= self.text());
        out
    }
}

/// A `robots.txt` file being written: an optional header comment, groups,
/// sitemaps and an optional footer comment.
#[derive(Debug, Clone)]
pub struct Factory {
    header: Option<Vec<u8>>,
    footer: Option<Vec<u8>>,
    groups: Vec<u8>,
    sitemaps: Vec<u8>,
}

/// `text` as comment lines, or nothing.
pub open spec fn comment_of(text: Option<Seq<u8>>) -> Seq<u8> {
    match text {
        Some(t) => commented(t),
        None => Seq::empty(),
    }
}

impl Factory {
    /// The header text.
    pub closed spec fn header_text(&self) -> Option<Seq<u8>> {
        match self.header {
            Some(h) => Some(h@),
            None => None,
        }
    }

    /// The footer text.
    pub closed spec fn footer_text(&self) -> Option<Seq<u8>> {
        match self.footer {
            Some(f) => Some(f@),
            None => None,
        }
    }

    /// The groups written so far, each followed by a blank line.
    pub closed spec fn groups_text(&self) -> Seq<u8> {
        self.groups@
    }

    /// The sitemap lines written so far.
    pub closed spec fn sitemaps_text(&self) -> Seq<u8> {
        self.sitemaps@
    }

    /// The whole file: header comment, groups, sitemaps, footer comment.
    pub open spec fn text(&self) -> Seq<u8> {
        comment_of(self.header_text()) + self.groups_text() + self.sitemaps_text() + comment_of(
            self.footer_text(),
        )
    }

    /// An empty file.
    pub fn new() -> (r: Factory)
        ensures
            r.header_text() is None,
            r.footer_text() is None,
            r.groups_text() == Seq::<u8>::empty(),
            r.sitemaps_text() == Seq::<u8>::empty(),
    {
        Factory { header: None, footer: None, groups: Vec::new(), sitemaps: Vec::new() }
    }

    /// Sets the comment written before everything else.
    pub fn header(&mut self, header: &str)
        ensures
            final(self).header_text() == Some(encode_utf8(header@)),
            final(self).footer_text() == old(self).footer_text(),
            final(self).groups_text() == old(self).groups_text(),
            final(self).sitemaps_text() == old(self).sitemaps_text(),
    {
        self.header = Some(vstd::slice::slice_to_vec(header.as_bytes()));
    }

    /// Sets the comment written after everything else.
    pub fn footer(&mut self, footer: &str)
        ensures
            final(self).footer_text() == Some(encode_utf8(footer@)),
            final(self).header_text() == old(self).header_text(),
            final(self).groups_text() == old(self).groups_text(),
            final(self).sitemaps_text() == old(self).sitemaps_text(),
    {
        self.footer = Some(vstd::slice::slice_to_vec(footer.as_bytes()));
    }

    /// Adds a group, followed by a blank line.
    pub fn group(&mut self, section: Section)
        ensures
            final(self).groups_text() == old(self).groups_text() + section.text() + seq![10u8],
            final(self).header_text() == old(self).header_text(),
            final(self).footer_text() == old(self).footer_text(),
            final(self).sitemaps_text() == old(self).sitemaps_text(),
    {
        let text = section.build();
        append(&mut self.groups, text.as_slice());
        self.groups.push(10);
    }

    /// Adds the line `Sitemap: url`.
    pub fn sitemap(&mut self, url: &str)
        ensures
            final(self).sitemaps_text() == old(self).sitemaps_text() + line(
                sitemap_key(),
                encode_utf8(url@),
            ),
            final(self).header_text() == old(self).header_text(),
            final(self).footer_text() == old(self).footer_text(),
            final(self).groups_text() == old(self).groups_text(),
    {
        let key = sitemap_key_bytes();
        append_line(&mut self.sitemaps, key.as_slice(), url.as_bytes());
    }

    /// The text of the file.
    pub fn build(&self) -> (r: Vec<u8>)
        ensures
            r@ == self.text(),
    {
        let mut out: Vec<u8> = Vec::new();
        match &self.header {
            Some(h) => append_comment(&mut out, h.as_slice()),
            None => {},
        }
        append(&mut out, self.groups.as_slice());
        append(&mut out, self.sitemaps.as_slice());
        match &self.footer {
            Some(f) => append_comment(&mut out, f.as_slice()),
            None => {},
        }
        assert(out@ =~= self.text());
        out
    }
}

} // verus!
