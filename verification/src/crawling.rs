use vstd::prelude::*;

use crate::model::{rule_pairs, CrawlingRule, IpDetail, IpDetailView};
use crate::html::{ip_details_from_page, page_details};
use crate::text::{
    chars_of, contains, contains_seq, decimal, replace_all, replace_seq, split, split_seq,
    str_eq, string_from_chars, trim, trim_start, trimmed, u8_to_decimal, views,
};

verus! {

// ---------------------------------------------------------------------------
// Protocol and anonymity level
// ---------------------------------------------------------------------------

/// What `str::to_lowercase` returns for `s` (the Unicode lowercase mapping).
pub uninterp spec fn lowercase(s: Seq<char>) -> Seq<char>;

/// `str::to_lowercase`; the result is the Unicode lowercase mapping of `s`,
/// named `lowercase` and not spelled out here, save that the four protocol
/// names, already in lower case, come back unchanged.
#[verifier::external_body]
fn to_lowercase(s: &str) -> (r: String)
    ensures
        r@ == lowercase(s@),
        is_known_protocol(s@) ==> r@ == s@,
{
    s.to_lowercase()
}

/// The protocol named by the lower-case text `lower`: the text itself when it
/// is exactly a known protocol, else the first known protocol it mentions
/// (`socks5`, then `socks4`, then `https`), else `http`.
pub open spec fn protocol_of(lower: Seq<char>) -> Seq<char> {
    if lower == "http"@ || lower == "https"@ || lower == "socks4"@ || lower == "socks5"@ {
        lower
    } else if contains_seq(lower, "socks5"@) || contains_seq(lower, "socks 5"@) {
        "socks5"@
    } else if contains_seq(lower, "socks4"@) || contains_seq(lower, "socks 4"@) {
        "socks4"@
    } else if contains_seq(lower, "https"@) {
        "https"@
    } else {
        "http"@
    }
}

/// One of the four protocols the pool knows.
pub open spec fn is_known_protocol(p: Seq<char>) -> bool {
    p == "http"@ || p == "https"@ || p == "socks4"@ || p == "socks5"@
}

/// The protocol named by `lower`, text already in lower case.
pub fn protocol_from_lowercase(lower: &str) -> (r: String)
    ensures
        r@ == protocol_of(lower@),
        is_known_protocol(r@),
{
    if str_eq(lower, "http") || str_eq(lower, "https") || str_eq(lower, "socks4") || str_eq(
        lower,
        "socks5",
    ) {
        return lower.to_owned();
    }
    let l = chars_of(lower);
    if contains(&l, &chars_of("socks5")) || contains(&l, &chars_of("socks 5")) {
        return String::from_str("socks5");
    }
    if contains(&l, &chars_of("socks4")) || contains(&l, &chars_of("socks 4")) {
        return String::from_str("socks4");
    }
    if contains(&l, &chars_of("https")) {
        return String::from_str("https");
    }
    String::from_str("http")
}

/// Normalises a crawled protocol description to `http`, `https`, `socks4`
/// or `socks5`; a protocol name already normalised is left as it is.
pub fn normalize_protocol(text: &str) -> (r: String)
    ensures
        r@ == protocol_of(lowercase(trimmed(text@))),
        is_known_protocol(r@),
        is_known_protocol(text@) ==> r@ == text@,
{
    proof {
        if is_known_protocol(text@) {
            reveal_strlit("http");
            reveal_strlit("https");
            reveal_strlit("socks4");
            reveal_strlit("socks5");
            assert(trim_start(text@) == text@);
            assert(trimmed(text@) == text@);
        }
    }
    let t = trim(text);
    let lower = to_lowercase(t.as_str());
    protocol_from_lowercase(lower.as_str())
}

/// The anonymity level named by the trimmed text `t`: `1` for high
/// anonymity, `2` ordinary, `3` anonymous, `4` transparent, `5` unknown; a
/// single digit from `1` to `5` stands for itself; anything else is `5`.
pub open spec fn level_of(t: Seq<char>) -> Seq<char> {
    if t == "高匿"@ || t == "高匿名"@ || t == "高匿代理IP"@ {
        "1"@
    } else if t == "普匿"@ || t == "普通匿名"@ || t == "普通代理IP"@ {
        "2"@
    } else if t == "匿名"@ || t == "匿名代理"@ {
        "3"@
    } else if t == "透明"@ || t == "透明代理"@ || t == "无匿"@ || t == "透明代理IP"@ {
        "4"@
    } else if t == "未知"@ {
        "5"@
    } else if is_level_digit(t) {
        t
    } else {
        "5"@
    }
}

/// One of the level digits `1` to `5`.
pub open spec fn is_level_digit(t: Seq<char>) -> bool {
    t.len() == 1 && '1' <= t[0] && t[0] <= '5'
}

/// Normalises a crawled anonymity description to a level digit.
pub fn normalize_level(text: &str) -> (r: String)
    ensures
        r@ == level_of(trimmed(text@)),
        is_level_digit(r@),
{
    proof {
        reveal_strlit("1");
        reveal_strlit("2");
        reveal_strlit("3");
        reveal_strlit("4");
        reveal_strlit("5");
    }
    let t = trim(text);
    let s = t.as_str();
    if str_eq(s, "高匿") || str_eq(s, "高匿名") || str_eq(s, "高匿代理IP") {
        return String::from_str("1");
    }
    if str_eq(s, "普匿") || str_eq(s, "普通匿名") || str_eq(s, "普通代理IP") {
        return String::from_str("2");
    }
    if str_eq(s, "匿名") || str_eq(s, "匿名代理") {
        return String::from_str("3");
    }
    if str_eq(s, "透明") || str_eq(s, "透明代理") || str_eq(s, "无匿") || str_eq(s, "透明代理IP") {
        return String::from_str("4");
    }
    if str_eq(s, "未知") {
        return String::from_str("5");
    }
    let v = chars_of(s);
    if v.len() == 1 && '1' <= v[0] && v[0] <= '5' {
        return t;
    }
    String::from_str("5")
}


// ---------------------------------------------------------------------------
// Cleaning extracted text
// ---------------------------------------------------------------------------

/// `s` after each replacement pair, in order, has replaced all occurrences of
/// its first text by its second.
pub open spec fn apply_replacements(s: Seq<char>, rules: Seq<(Seq<char>, Seq<char>)>) -> Seq<char>
    decreases rules.len(),
{
    if rules.len() == 0 {
        s
    } else {
        replace_seq(
            apply_replacements(s, rules.drop_last()),
            rules.last().0,
            rules.last().1,
        )
    }
}

/// A crawled text as the pool keeps it: trimmed, then rewritten by the
/// replacement pairs.
pub open spec fn cleaned(raw: Seq<char>, rules: Seq<(Seq<char>, Seq<char>)>) -> Seq<char> {
    apply_replacements(trimmed(raw), rules)
}

/// Trims `raw` and applies the replacement pairs `rules` in order.
pub fn clean_text(raw: &str, rules: &Vec<(String, String)>) -> (r: String)
    ensures
        r@ == cleaned(raw@, rule_pairs(rules@)),
{
    let mut cur = trim(raw);
    let ghost pairs = rule_pairs(rules@);
    let mut i: usize = 0;
    assert(pairs.take(0) =~= Seq::<(Seq<char>, Seq<char>)>::empty());
    while i < rules.len()
        invariant
            pairs == rule_pairs(rules@),
            i <= rules.len(),
            cur@ == apply_replacements(trimmed(raw@), pairs.take(i as int)),
        decreases rules.len() - i,
    {
        let next = replace_all(cur.as_str(), rules[i].0.as_str(), rules[i].1.as_str());
        proof {
            assert(pairs.take(i + 1).drop_last() =~= pairs.take(i as int));
            assert(pairs.take(i + 1).last() == (rules@[i as int].0@, rules@[i as int].1@));
        }
        cur = next;
        i = i + 1;
    }
    assert(pairs.take(rules.len() as int) =~= pairs);
    cur
}

// ---------------------------------------------------------------------------
// Pages to crawl
// ---------------------------------------------------------------------------

/// The address of page `page` of a site: the template with every `{page}`
/// replaced by the page number.
pub open spec fn page_url_spec(template: Seq<char>, page: nat) -> Seq<char> {
    replace_seq(template, "{page}"@, decimal(page))
}

/// The address of page `page` of a site whose addresses follow `template`.
pub fn page_url(template: &str, page: u8) -> (r: String)
    ensures
        r@ == page_url_spec(template@, page as nat),
{
    let number = u8_to_decimal(page);
    replace_all(template, "{page}", number.as_str())
}

/// The addresses of pages `1` to `max_page` of the site of `rule`, in order.
pub fn page_urls(rule: &CrawlingRule) -> (r: Vec<String>)
    ensures
        r.len() == rule.max_page,
        forall|i: int| 0 <= i < r.len() ==> #[trigger] r@[i]@ == page_url_spec(rule.url@, (i + 1) as nat),
{
    let mut r: Vec<String> = Vec::new();
    let mut page: u16 = 1;
    while r.len() < rule.max_page as usize
        invariant
            page as int == r.len() + 1,
            r.len() <= rule.max_page,
            forall|i: int| 0 <= i < r.len() ==> #[trigger] r@[i]@ == page_url_spec(rule.url@, (i + 1) as nat),
        decreases rule.max_page - r.len(),
    {
        r.push(page_url(rule.url.as_str(), page as u8));
        page = page + 1;
    }
    r
}

// ---------------------------------------------------------------------------
// From table rows to proxies
// ---------------------------------------------------------------------------

/// The texts extracted from one table row, each already cleaned; `None`
/// where the field's selector was invalid or matched nothing.
pub struct PageRow {
    pub ip: Option<String>,
    pub port: Option<String>,
    pub protocol_type: Option<String>,
    pub level: Option<String>,
    pub region: Option<String>,
}

pub struct PageRowView {
    pub ip: Option<Seq<char>>,
    pub port: Option<Seq<char>>,
    pub protocol_type: Option<Seq<char>>,
    pub level: Option<Seq<char>>,
    pub region: Option<Seq<char>>,
}

pub open spec fn opt_view(o: Option<String>) -> Option<Seq<char>> {
    match o {
        Some(s) => Some(s@),
        None => None,
    }
}

impl View for PageRow {
    type V = PageRowView;

    open spec fn view(&self) -> PageRowView {
        PageRowView {
            ip: opt_view(self.ip),
            port: opt_view(self.port),
            protocol_type: opt_view(self.protocol_type),
            level: opt_view(self.level),
            region: opt_view(self.region),
        }
    }
}

pub open spec fn text_or_empty(o: Option<Seq<char>>) -> Seq<char> {
    match o {
        Some(s) => s,
        None => Seq::empty(),
    }
}

/// The proxy a table row describes, crawled at `time`: none when the row has
/// no (or an empty) address; otherwise a live proxy, never checked yet, with
/// the row's texts, protocol and level normalised, and missing texts empty.
pub open spec fn row_detail(row: PageRowView, time: u64) -> Option<IpDetailView> {
    match row.ip {
        Some(ip) if ip.len() > 0 => Some(
            IpDetailView {
                ip,
                port: text_or_empty(row.port),
                protocol_type: match row.protocol_type {
                    Some(p) => protocol_of(lowercase(trimmed(p))),
                    None => Seq::empty(),
                },
                level: match row.level {
                    Some(l) => level_of(trimmed(l)),
                    None => Seq::empty(),
                },
                region: text_or_empty(row.region),
                crawling_time: time,
                live_time: 0,
                is_live: true,
                verify_count: 0,
                die_verify_count: 0,
            },
        ),
        _ => None,
    }
}

/// The proxies that the rows describe, in row order.
pub open spec fn rows_details(rows: Seq<PageRowView>, time: u64) -> Seq<IpDetailView>
    decreases rows.len(),
{
    if rows.len() == 0 {
        Seq::empty()
    } else {
        let prev = rows_details(rows.drop_last(), time);
        match row_detail(rows.last(), time) {
            Some(d) => prev.push(d),
            None => prev,
        }
    }
}

pub open spec fn row_views(rows: Seq<PageRow>) -> Seq<PageRowView> {
    rows.map_values(|r: PageRow| r@)
}

pub open spec fn detail_views(ds: Seq<IpDetail>) -> Seq<IpDetailView> {
    ds.map_values(|d: IpDetail| d@)
}

fn text_or_default(o: &Option<String>) -> (r: String)
    ensures
        r@ == text_or_empty(opt_view(*o)),
{
    match o {
        Some(s) => s.clone(),
        None => String::new(),
    }
}

/// The proxy that `row` describes, crawled at `time`.
pub fn ip_detail_from_row(row: &PageRow, time: u64) -> (r: Option<IpDetail>)
    ensures
        match r {
            Some(d) => row_detail(row@, time) == Some(d@),
            None => row_detail(row@, time) is None,
        },
{
    let ip = match &row.ip {
        Some(ip) => {
            if ip.as_str().is_empty() {
                return None;
            }
            ip.clone()
        },
        None => return None,
    };
    let protocol_type = match &row.protocol_type {
        Some(p) => normalize_protocol(p.as_str()),
        None => String::new(),
    };
    let level = match &row.level {
        Some(l) => normalize_level(l.as_str()),
        None => String::new(),
    };
    Some(
        IpDetail {
            ip,
            port: text_or_default(&row.port),
            protocol_type,
            level,
            region: text_or_default(&row.region),
            crawling_time: time,
            live_time: 0,
            is_live: true,
            verify_count: 0,
            die_verify_count: 0,
        },
    )
}

/// The proxies that `rows` describe, in row order, all crawled at `time`.
pub fn details_from_rows(rows: &Vec<PageRow>, time: u64) -> (r: Vec<IpDetail>)
    ensures
        detail_views(r@) == rows_details(row_views(rows@), time),
{
    let mut r: Vec<IpDetail> = Vec::new();
    let mut i: usize = 0;
    let ghost rv = row_views(rows@);
    assert(rv.take(0) =~= Seq::<PageRowView>::empty());
    assert(detail_views(r@) =~= Seq::<IpDetailView>::empty());
    while i < rows.len()
        invariant
            rv == row_views(rows@),
            i <= rows.len(),
            detail_views(r@) == rows_details(rv.take(i as int), time),
        decreases rows.len() - i,
    {
        let ghost before = r@;
        proof {
            assert(rv.take(i + 1).drop_last() =~= rv.take(i as int));
            assert(rv.take(i + 1).last() == rows@[i as int]@);
        }
        match ip_detail_from_row(&rows[i], time) {
            Some(d) => {
                r.push(d);
                assert(detail_views(r@) =~= detail_views(before).push(r@.last()@));
            },
            None => {},
        }
        i = i + 1;
    }
    assert(rv.take(rows.len() as int) =~= rv);
    r
}

// ---------------------------------------------------------------------------
// Plain-text sources
// ---------------------------------------------------------------------------

/// Where the first `:` of `t` stands; the length of `t` when it has none.
pub open spec fn colon_index(t: Seq<char>) -> nat
    decreases t.len(),
{
    if t.len() == 0 {
        0
    } else if t[0] == ':' {
        0
    } else {
        1 + colon_index(t.drop_first())
    }
}

pub proof fn lemma_colon_index(t: Seq<char>)
    ensures
        colon_index(t) <= t.len(),
        colon_index(t) < t.len() ==> t[colon_index(t) as int] == ':',
    decreases t.len(),
{
    if t.len() > 0 && t[0] != ':' {
        lemma_colon_index(t.drop_first());
    }
}

/// The proxy that a line `address:port` of a plain-text list describes,
/// crawled at `time`: the line is cleaned like a crawled text, the address is
/// what precedes its first `:` and the port what follows it (empty without a
/// `:`); none when the address is empty. The protocol and level are those
/// the rule names, normalised; the region is empty.
pub open spec fn raw_line_detail(line: Seq<char>, rule: CrawlingRule, time: u64) -> Option<
    IpDetailView,
> {
    let t = cleaned(line, rule_pairs(rule.replace_rules@));
    let k = colon_index(t) as int;
    if k == 0 {
        None
    } else {
        Some(
            IpDetailView {
                ip: t.take(k),
                port: if k < t.len() {
                    t.skip(k + 1)
                } else {
                    Seq::empty()
                },
                protocol_type: protocol_of(lowercase(trimmed(rule.protocol_type_rule@))),
                level: level_of(trimmed(rule.level_rule@)),
                region: Seq::empty(),
                crawling_time: time,
                live_time: 0,
                is_live: true,
                verify_count: 0,
                die_verify_count: 0,
            },
        )
    }
}

/// The proxies that the lines describe, in line order.
pub open spec fn raw_lines_details(lines: Seq<Seq<char>>, rule: CrawlingRule, time: u64) -> Seq<
    IpDetailView,
>
    decreases lines.len(),
{
    if lines.len() == 0 {
        Seq::empty()
    } else {
        let prev = raw_lines_details(lines.drop_last(), rule, time);
        match raw_line_detail(lines.last(), rule, time) {
            Some(d) => prev.push(d),
            None => prev,
        }
    }
}

/// The proxies listed in the plain-text body `body`, one `address:port` per
/// line, crawled at `time`.
pub open spec fn raw_details(body: Seq<char>, rule: CrawlingRule, time: u64) -> Seq<IpDetailView> {
    raw_lines_details(split_seq(body, seq!['\n']), rule, time)
}

fn colon_at(t: &Vec<char>) -> (k: usize)
    ensures
        k == colon_index(t@),
{
    let mut i: usize = 0;
    proof {
        assert(t@.skip(0) =~= t@);
    }
    while i < t.len() && t[i] != ':'
        invariant
            i <= t.len(),
            colon_index(t@) == i + colon_index(t@.skip(i as int)),
        decreases t.len() - i,
    {
        proof {
            assert(t@.skip(i as int)[0] == t@[i as int]);
            assert(t@.skip(i as int).drop_first() =~= t@.skip(i + 1));
        }
        i = i + 1;
    }
    proof {
        if i < t.len() {
            assert(t@.skip(i as int)[0] == ':');
        }
    }
    i
}

fn raw_line_to_detail(
    line: &Vec<char>,
    rule: &CrawlingRule,
    protocol_type: &String,
    level: &String,
    time: u64,
) -> (r: Option<IpDetail>)
    requires
        protocol_type@ == protocol_of(lowercase(trimmed(rule.protocol_type_rule@))),
        level@ == level_of(trimmed(rule.level_rule@)),
    ensures
        match r {
            Some(d) => raw_line_detail(line@, *rule, time) == Some(d@),
            None => raw_line_detail(line@, *rule, time) is None,
        },
{
    let text = string_from_chars(line);
    let t = clean_text(text.as_str(), &rule.replace_rules);
    let tc = chars_of(t.as_str());
    let k = colon_at(&tc);
    proof {
        lemma_colon_index(t@);
    }
    if k == 0 {
        return None;
    }
    let ip = t.as_str().substring_char(0, k).to_owned();
    let port = if k < tc.len() {
        t.as_str().substring_char(k + 1, tc.len()).to_owned()
    } else {
        String::new()
    };
    proof {
        assert(ip@ =~= t@.take(k as int));
        if k < tc.len() {
            assert(port@ =~= t@.skip(k + 1));
        }
    }
    Some(
        IpDetail {
            ip,
            port,
            protocol_type: protocol_type.clone(),
            level: level.clone(),
            region: String::new(),
            crawling_time: time,
            live_time: 0,
            is_live: true,
            verify_count: 0,
            die_verify_count: 0,
        },
    )
}

/// The proxies listed in the plain-text body `body` of the site of `rule`,
/// one `address:port` per line, all crawled at `time`, in line order; lines
/// without an address are skipped.
pub fn ip_details_from_raw(body: &str, rule: &CrawlingRule, time: u64) -> (r: Vec<IpDetail>)
    ensures
        detail_views(r@) == raw_details(body@, *rule, time),
{
    let protocol_type = normalize_protocol(rule.protocol_type_rule.as_str());
    let level = normalize_level(rule.level_rule.as_str());
    let mut newline: Vec<char> = Vec::new();
    newline.push('\n');
    assert(newline@ =~= seq!['\n']);
    let lines = split(&chars_of(body), &newline);
    let ghost lv = views(lines@);
    let mut r: Vec<IpDetail> = Vec::new();
    let mut i: usize = 0;
    assert(lv.take(0) =~= Seq::<Seq<char>>::empty());
    assert(detail_views(r@) =~= Seq::<IpDetailView>::empty());
    while i < lines.len()
        invariant
            lv == views(lines@),
            lv == split_seq(body@, seq!['\n']),
            protocol_type@ == protocol_of(lowercase(trimmed(rule.protocol_type_rule@))),
            level@ == level_of(trimmed(rule.level_rule@)),
            i <= lines.len(),
            detail_views(r@) == raw_lines_details(lv.take(i as int), *rule, time),
        decreases lines.len() - i,
    {
        let ghost before = r@;
        proof {
            assert(lv.take(i + 1).drop_last() =~= lv.take(i as int));
            assert(lv.take(i + 1).last() == lines@[i as int]@);
        }
        match raw_line_to_detail(&lines[i], rule, &protocol_type, &level, time) {
            Some(d) => {
                r.push(d);
                assert(detail_views(r@) =~= detail_views(before).push(r@.last()@));
            },
            None => {},
        }
        i = i + 1;
    }
    assert(lv.take(lines.len() as int) =~= lv);
    r
}

// ---------------------------------------------------------------------------
// Any source
// ---------------------------------------------------------------------------

/// A rule whose site serves a plain-text list rather than an HTML page.
pub open spec fn is_raw_source(rule: CrawlingRule) -> bool {
    rule.source_type@ == "raw"@
}

/// The proxies that the body of a page of the site of `rule` lists, crawled
/// at `time`.
pub open spec fn body_details(body: Seq<char>, rule: CrawlingRule, time: u64) -> Seq<IpDetailView> {
    if is_raw_source(rule) {
        raw_details(body, rule, time)
    } else {
        page_details(body, rule, time)
    }
}

/// The proxies listed in `body`, a page fetched from the site of `rule`, all
/// crawled at `time`: read as a plain-text list when the rule's source type
/// is `raw`, else as an HTML page.
pub fn ip_details_from_body(body: &str, rule: &CrawlingRule, time: u64) -> (r: Vec<IpDetail>)
    ensures
        detail_views(r@) == body_details(body@, *rule, time),
{
    if str_eq(rule.source_type.as_str(), "raw") {
        ip_details_from_raw(body, rule, time)
    } else {
        ip_details_from_page(body, rule, time)
    }
}

/// How long a fetch from the site of `rule` may take, in seconds: fifteen
/// for a plain-text list, ten for an HTML page.
pub fn fetch_timeout_secs(rule: &CrawlingRule) -> (r: u64)
    ensures
        r == if is_raw_source(*rule) {
            15u64
        } else {
            10u64
        },
{
    if str_eq(rule.source_type.as_str(), "raw") {
        15
    } else {
        10
    }
}

// ---------------------------------------------------------------------------
// The crawl's size limit
// ---------------------------------------------------------------------------

/// `s` cut to at most `max_size` items, when there is a limit.
pub open spec fn limited<T>(s: Seq<T>, max_size: Option<usize>) -> Seq<T> {
    match max_size {
        Some(n) => if s.len() > n {
            s.take(n as int)
        } else {
            s
        },
        None => s,
    }
}

/// Whether a crawl that has `count` proxies has reached its limit.
pub fn limit_reached(count: usize, max_size: Option<usize>) -> (r: bool)
    ensures
        r == (max_size matches Some(n) && count >= n),
{
    match max_size {
        Some(n) => count >= n,
        None => false,
    }
}

/// Adds the proxies `more` to those of the crawl so far, keeping at most
/// `max_size` in all.
pub fn append_within_limit(acc: &mut Vec<IpDetail>, more: Vec<IpDetail>, max_size: Option<usize>)
    ensures
        final(acc)@ == limited(old(acc)@ + more@, max_size),
        max_size matches Some(n) ==> final(acc)@.len() <= n,
{
    let mut more = more;
    acc.append(&mut more);
    match max_size {
        Some(n) => acc.truncate(n),
        None => {},
    }
}

} // verus!
