use vstd::prelude::*;

verus! {

/// How long a successful check extends a proxy's lifetime: ten minutes, in
/// milliseconds.
pub const LIVE_EXTENSION_MS: u64 = 600_000;

/// A proxy as the pool stores it.
#[derive(Clone)]
pub struct IpDetail {
    pub ip: String,
    pub port: String,
    /// `http`, `https`, `socks4` or `socks5`.
    pub protocol_type: String,
    /// Anonymity: `1` high, `2` ordinary, `3` anonymous, `4` transparent, `5` unknown.
    pub level: String,
    pub region: String,
    /// When the proxy was crawled, in milliseconds since the Unix epoch.
    pub crawling_time: u64,
    /// How long the proxy has been seen alive, in milliseconds.
    pub live_time: u64,
    pub is_live: bool,
    /// Number of successful checks.
    pub verify_count: u32,
    /// Number of failed checks in a row.
    pub die_verify_count: u32,
}

/// The contents of an `IpDetail`, its texts taken as character sequences.
pub struct IpDetailView {
    pub ip: Seq<char>,
    pub port: Seq<char>,
    pub protocol_type: Seq<char>,
    pub level: Seq<char>,
    pub region: Seq<char>,
    pub crawling_time: u64,
    pub live_time: u64,
    pub is_live: bool,
    pub verify_count: u32,
    pub die_verify_count: u32,
}

impl View for IpDetail {
    type V = IpDetailView;

    open spec fn view(&self) -> IpDetailView {
        IpDetailView {
            ip: self.ip@,
            port: self.port@,
            protocol_type: self.protocol_type@,
            level: self.level@,
            region: self.region@,
            crawling_time: self.crawling_time,
            live_time: self.live_time,
            is_live: self.is_live,
            verify_count: self.verify_count,
            die_verify_count: self.die_verify_count,
        }
    }
}

/// A proxy that passed a check: alive, one more success, ten more minutes
/// of life, and no failures in a row.
pub open spec fn live_spec(d: IpDetailView) -> IpDetailView {
    IpDetailView {
        is_live: true,
        verify_count: (d.verify_count + 1) as u32,
        live_time: (d.live_time + LIVE_EXTENSION_MS) as u64,
        die_verify_count: 0,
        ..d
    }
}

/// A proxy that failed a check: dead, one more failure in a row, and its
/// lifetime reset.
pub open spec fn died_spec(d: IpDetailView) -> IpDetailView {
    IpDetailView { is_live: false, die_verify_count: (d.die_verify_count + 1) as u32, live_time: 0, ..d }
}

/// `live` can count one more success without overflow.
pub open spec fn can_live(d: IpDetailView) -> bool {
    d.verify_count < u32::MAX && d.live_time + LIVE_EXTENSION_MS <= u64::MAX
}

/// `died` can count one more failure without overflow.
pub open spec fn can_die(d: IpDetailView) -> bool {
    d.die_verify_count < u32::MAX
}

impl IpDetail {
    /// Marks the proxy alive after a successful check.
    pub fn live(self) -> (r: Self)
        requires
            can_live(self@),
        ensures
            r@ == live_spec(self@),
    {
        IpDetail {
            is_live: true,
            verify_count: self.verify_count + 1,
            live_time: self.live_time + LIVE_EXTENSION_MS,
            die_verify_count: 0,
            ..self
        }
    }

    /// Marks the proxy dead after a failed check.
    pub fn died(self) -> (r: Self)
        requires
            can_die(self@),
        ensures
            r@ == died_spec(self@),
    {
        IpDetail { is_live: false, die_verify_count: self.die_verify_count + 1, live_time: 0, ..self }
    }
}

/// How to crawl one proxy-list site: the page address (with `{page}` standing
/// for the page number), the pages to read, and the CSS selectors of the
/// table rows and of each field within a row.
#[derive(Clone)]
pub struct CrawlingRule {
    pub name: String,
    pub url: String,
    pub max_page: u8,
    pub max_size: Option<usize>,
    /// Empty or `html` for an HTML page; `raw` for a plain-text list.
    pub source_type: String,
    pub table_rule: String,
    pub ip_rule: String,
    pub port_rule: String,
    pub protocol_type_rule: String,
    pub level_rule: String,
    pub region_rule: String,
    /// Text replacements applied to the extracted fields, each pair being
    /// (what, by what).
    pub replace_rules: Vec<(String, String)>,
}

/// The replacement pairs of a rule, as character sequences.
pub open spec fn rule_pairs(rules: Seq<(String, String)>) -> Seq<(Seq<char>, Seq<char>)> {
    rules.map_values(|p: (String, String)| (p.0@, p.1@))
}

} // verus!
