use vstd::prelude::*;

use crate::model::{IpDetail, IpDetailView};
use crate::text::{
    chars_of, parse_bounded, parse_decimal, split, split_seq, str_eq, string_from_chars, views,
};

verus! {

// ---------------------------------------------------------------------------
// Address checks
// ---------------------------------------------------------------------------

/// `s` is four dot-separated fields, each a number from 0 to 255 as
/// `u8::from_str` reads it.
pub open spec fn valid_ipv4(s: Seq<char>) -> bool {
    let parts = split_seq(s, "."@);
    parts.len() == 4 && forall|i: int| 0 <= i < 4 ==> parse_bounded(#[trigger] parts[i], 255) is Some
}

/// `s` is a port number from 1 to 65535 as `u16::from_str` reads it.
pub open spec fn valid_port(s: Seq<char>) -> bool {
    match parse_bounded(s, 65535) {
        Some(p) => p > 0,
        None => false,
    }
}

/// Whether `s` is an IPv4 address in dotted-quad form.
pub fn is_valid_ip(s: &str) -> (r: bool)
    ensures
        r == valid_ipv4(s@),
{
    let v = chars_of(s);
    let dot = chars_of(".");
    proof {
        reveal_strlit(".");
    }
    let parts = split(&v, &dot);
    let ghost ps = views(parts@);
    if parts.len() != 4 {
        return false;
    }
    let mut i: usize = 0;
    while i < 4
        invariant
            parts.len() == 4,
            ps == views(parts@),
            ps == split_seq(s@, "."@),
            i <= 4,
            forall|k: int| 0 <= k < i ==> parse_bounded(#[trigger] ps[k], 255) is Some,
        decreases 4 - i,
    {
        assert(ps[i as int] == parts@[i as int]@);
        if parse_decimal(&parts[i], 255).is_none() {
            return false;
        }
        i = i + 1;
    }
    true
}

/// Whether `s` is a port number from 1 to 65535.
pub fn is_valid_port(s: &str) -> (r: bool)
    ensures
        r == valid_port(s@),
{
    let v = chars_of(s);
    match parse_decimal(&v, 65535) {
        Some(p) => p > 0,
        None => false,
    }
}

// ---------------------------------------------------------------------------
// Redis keys
// ---------------------------------------------------------------------------

/// The Redis hash holding the proxies of a protocol and level:
/// `ip_cache::{protocol_type}::{level}`.
pub open spec fn cache_key_spec(protocol_type: Seq<char>, level: Seq<char>) -> Seq<char> {
    "ip_cache::"@ + protocol_type + "::"@ + level
}

/// The Redis set of the live proxies of a protocol and level:
/// `ip_live::{protocol_type}::{level}`.
pub open spec fn live_set_key_spec(protocol_type: Seq<char>, level: Seq<char>) -> Seq<char> {
    "ip_live::"@ + protocol_type + "::"@ + level
}

/// The field under which a proxy is stored: `{ip}:{port}`.
pub open spec fn ip_field_spec(ip: Seq<char>, port: Seq<char>) -> Seq<char> {
    ip + ":"@ + port
}

/// The pattern of the live-set keys of one protocol (`ip_live::{p}::*`), or
/// of all protocols (`ip_live::*`).
pub open spec fn live_key_pattern_spec(protocol_type: Option<Seq<char>>) -> Seq<char> {
    match protocol_type {
        Some(p) => "ip_live::"@ + p + "::*"@,
        None => "ip_live::*"@,
    }
}

/// The protocol and level a live-set key names: its second and third
/// `::`-separated fields, when it has at least three.
pub open spec fn live_key_fields_spec(key: Seq<char>) -> Option<(Seq<char>, Seq<char>)> {
    let parts = split_seq(key, "::"@);
    if parts.len() >= 3 {
        Some((parts[1], parts[2]))
    } else {
        None
    }
}

fn join3(a: &str, b: &str, c: &str) -> (r: String)
    ensures
        r@ == a@ + b@ + c@,
{
    let mut r = String::from_str(a);
    r.append(b);
    r.append(c);
    r
}

/// `ip_cache::{protocol_type}::{level}`.
pub fn cache_key(protocol_type: &str, level: &str) -> (r: String)
    ensures
        r@ == cache_key_spec(protocol_type@, level@),
{
    let mut r = join3("ip_cache::", protocol_type, "::");
    r.append(level);
    r
}

/// `ip_live::{protocol_type}::{level}`.
pub fn live_set_key(protocol_type: &str, level: &str) -> (r: String)
    ensures
        r@ == live_set_key_spec(protocol_type@, level@),
{
    let mut r = join3("ip_live::", protocol_type, "::");
    r.append(level);
    r
}

/// `{ip}:{port}`.
pub fn ip_field(ip: &str, port: &str) -> (r: String)
    ensures
        r@ == ip_field_spec(ip@, port@),
{
    join3(ip, ":", port)
}

/// The pattern that selects the live-set keys of `protocol_type`, or all of
/// them.
pub fn live_key_pattern(protocol_type: Option<&str>) -> (r: String)
    ensures
        r@ == live_key_pattern_spec(
            match protocol_type {
                Some(p) => Some(p@),
                None => None,
            },
        ),
{
    match protocol_type {
        Some(p) => join3("ip_live::", p, "::*"),
        None => String::from_str("ip_live::*"),
    }
}

/// The protocol and level that the live-set key `key` names.
pub fn live_key_fields(key: &str) -> (r: Option<(String, String)>)
    ensures
        match r {
            Some((p, l)) => live_key_fields_spec(key@) == Some((p@, l@)),
            None => live_key_fields_spec(key@) is None,
        },
{
    let v = chars_of(key);
    let sep = chars_of("::");
    proof {
        reveal_strlit("::");
    }
    let parts = split(&v, &sep);
    if parts.len() >= 3 {
        let p = string_from_chars(&parts[1]);
        let l = string_from_chars(&parts[2]);
        assert(views(parts@)[1] == parts@[1]@);
        assert(views(parts@)[2] == parts@[2]@);
        Some((p, l))
    } else {
        None
    }
}


// ---------------------------------------------------------------------------
// Checking a proxy
// ---------------------------------------------------------------------------

/// The URL scheme of a proxy of the given protocol.
pub open spec fn proxy_scheme(protocol_type: Seq<char>) -> Seq<char> {
    if protocol_type == "socks4"@ {
        "socks4://"@
    } else if protocol_type == "socks5"@ || protocol_type == "socks"@ {
        "socks5://"@
    } else if protocol_type == "https"@ {
        "https://"@
    } else {
        "http://"@
    }
}

/// The proxy URL through which `d` is checked: none when its address or port
/// is empty or malformed.
pub open spec fn proxy_url_spec(d: IpDetailView) -> Option<Seq<char>> {
    if d.ip.len() == 0 || d.port.len() == 0 || !valid_ipv4(d.ip) || !valid_port(d.port) {
        None
    } else {
        Some(proxy_scheme(d.protocol_type) + d.ip + ":"@ + d.port)
    }
}

/// The URL of the proxy `d`, for checking it; none when `d` cannot be a
/// working proxy (the check fails without any request).
pub fn proxy_url(d: &IpDetail) -> (r: Option<String>)
    ensures
        match r {
            Some(u) => proxy_url_spec(d@) == Some(u@),
            None => proxy_url_spec(d@) is None,
        },
{
    if d.ip.as_str().is_empty() || d.port.as_str().is_empty() || !is_valid_ip(d.ip.as_str())
        || !is_valid_port(d.port.as_str()) {
        return None;
    }
    let p = d.protocol_type.as_str();
    let scheme = if str_eq(p, "socks4") {
        "socks4://"
    } else if str_eq(p, "socks5") || str_eq(p, "socks") {
        "socks5://"
    } else if str_eq(p, "https") {
        "https://"
    } else {
        "http://"
    };
    let mut u = join3(scheme, d.ip.as_str(), ":");
    u.append(d.port.as_str());
    Some(u)
}

// ---------------------------------------------------------------------------
// Storing a proxy
// ---------------------------------------------------------------------------

/// Where a proxy is kept: the field `field` of the hash `cache_key` holds the
/// proxy; the set `live_key` holds `field` exactly while the proxy is live.
pub struct StoragePlan {
    pub cache_key: String,
    pub field: String,
    pub live_key: String,
    pub in_live_set: bool,
}

/// `plan` is where `d` is kept.
pub open spec fn is_storage_plan_of(plan: &StoragePlan, d: IpDetailView) -> bool {
    &&& plan.cache_key@ == cache_key_spec(d.protocol_type, d.level)
    &&& plan.field@ == ip_field_spec(d.ip, d.port)
    &&& plan.live_key@ == live_set_key_spec(d.protocol_type, d.level)
    &&& plan.in_live_set == d.is_live
}

/// Where `d` is stored, and where it is removed from.
pub fn storage_plan(d: &IpDetail) -> (r: StoragePlan)
    ensures
        is_storage_plan_of(&r, d@),
{
    StoragePlan {
        cache_key: cache_key(d.protocol_type.as_str(), d.level.as_str()),
        field: ip_field(d.ip.as_str(), d.port.as_str()),
        live_key: live_set_key(d.protocol_type.as_str(), d.level.as_str()),
        in_live_set: d.is_live,
    }
}

// ---------------------------------------------------------------------------
// Serving a proxy
// ---------------------------------------------------------------------------

/// How a request for a proxy is looked up: straight in the live set of the
/// given protocol and level, or among the live sets whose keys match a
/// pattern.
pub enum IpLookup {
    Direct { set_key: String, protocol_type: String, level: String },
    Scan { pattern: String },
}

/// The lookup for a request naming the protocol `protocol_type` and level
/// `level`, either of which may be absent.
pub fn ip_lookup(protocol_type: Option<&str>, level: Option<&str>) -> (r: IpLookup)
    ensures
        match (protocol_type, level) {
            (Some(p), Some(l)) => r matches IpLookup::Direct { set_key, protocol_type: rp, level: rl }
                && set_key@ == live_set_key_spec(p@, l@) && rp@ == p@ && rl@ == l@,
            _ => r matches IpLookup::Scan { pattern } && pattern@ == live_key_pattern_spec(
                match protocol_type {
                    Some(p) => Some(p@),
                    None => None,
                },
            ),
        },
{
    match (protocol_type, level) {
        (Some(p), Some(l)) => IpLookup::Direct {
            set_key: live_set_key(p, l),
            protocol_type: p.to_owned(),
            level: l.to_owned(),
        },
        _ => IpLookup::Scan { pattern: live_key_pattern(protocol_type) },
    }
}

/// `rand::seq::IteratorRandom::choose` over the indices below `len`, with
/// the thread-local generator: some index below `len`, none when `len` is 0
/// (which index is left to chance).
#[verifier::external_body]
fn choose_index(len: usize) -> (r: Option<usize>)
    ensures
        len == 0 <==> r is None,
        r matches Some(i) ==> i < len,
{
    rand::seq::IteratorRandom::choose(0..len, &mut rand::rng())
}

/// The key `keys[i]` with the protocol and level it names; none when it does
/// not name them.
pub fn live_key_at(keys: &Vec<String>, i: usize) -> (r: Option<(String, String, String)>)
    requires
        i < keys.len(),
    ensures
        match r {
            Some((k, p, l)) => k@ == keys@[i as int]@ && live_key_fields_spec(k@) == Some(
                (p@, l@),
            ),
            None => live_key_fields_spec(keys@[i as int]@) is None,
        },
{
    match live_key_fields(keys[i].as_str()) {
        Some((p, l)) => Some((keys[i].clone(), p, l)),
        None => None,
    }
}

/// Every key of `keys` names a protocol and a level.
pub open spec fn all_live_keys(keys: Seq<String>) -> bool {
    forall|i: int| 0 <= i < keys.len() ==> (#[trigger] live_key_fields_spec(keys[i]@)) is Some
}

/// A live-set key picked at random from `keys`, with the protocol and level
/// it names; none when `keys` is empty or the picked key names none (so
/// always some key when `keys` is not empty and every key names them).
pub fn random_live_key(keys: &Vec<String>) -> (r: Option<(String, String, String)>)
    ensures
        keys.len() == 0 ==> r is None,
        keys.len() > 0 && all_live_keys(keys@) ==> r is Some,
        r matches Some((k, p, l)) ==> exists|i: int|
            0 <= i < keys.len() && #[trigger] keys@[i]@ == k@ && live_key_fields_spec(k@) == Some(
                (p@, l@),
            ),
{
    match choose_index(keys.len()) {
        Some(i) => {
            assert(live_key_fields_spec(keys@[i as int]@) is Some || !all_live_keys(keys@));
            live_key_at(keys, i)
        },
        None => None,
    }
}

/// The search for a proxy among the live sets `keys`: as many random picks as
/// there are keys, after which the pool counts as empty.
pub struct KeySearch {
    /// Picks left.
    pub attempts_left: usize,
}

/// One step of a `KeySearch`.
pub enum SearchStep {
    /// No pick is left: the pool counts as empty.
    Exhausted,
    /// The picked key names no protocol and level; pick again.
    Skip,
    /// Try the live set `key`, of protocol `protocol_type` and level `level`.
    Try { key: String, protocol_type: String, level: String },
}

impl KeySearch {
    /// A search over `keys`: one pick per key.
    pub fn new(keys: &Vec<String>) -> (r: Self)
        ensures
            r.attempts_left == keys.len(),
    {
        KeySearch { attempts_left: keys.len() }
    }

    /// The next live set to try: once all picks are spent, `Exhausted` (and the
    /// search stays as it is); otherwise one pick is spent on a random key of
    /// `keys`, tried when it names a protocol and a level (as every key does
    /// when `keys` holds only live-set keys), skipped when not.
    pub fn next_candidate(&mut self, keys: &Vec<String>) -> (r: SearchStep)
        ensures
            old(self).attempts_left == 0 ==> r is Exhausted && final(self).attempts_left == 0,
            old(self).attempts_left > 0 ==> final(self).attempts_left == old(self).attempts_left - 1
                && !(r is Exhausted),
            old(self).attempts_left > 0 && keys.len() > 0 && all_live_keys(keys@) ==> r is Try,
            r matches SearchStep::Try { key, protocol_type, level } ==> exists|i: int|
                0 <= i < keys.len() && #[trigger] keys@[i]@ == key@ && live_key_fields_spec(key@)
                    == Some((protocol_type@, level@)),
    {
        if self.attempts_left == 0 {
            return SearchStep::Exhausted;
        }
        self.attempts_left = self.attempts_left - 1;
        match random_live_key(keys) {
            Some((key, protocol_type, level)) => SearchStep::Try { key, protocol_type, level },
            None => SearchStep::Skip,
        }
    }
}

// ---------------------------------------------------------------------------
// Counting
// ---------------------------------------------------------------------------

pub open spec fn sum_counts(counts: Seq<i64>) -> int
    decreases counts.len(),
{
    if counts.len() == 0 {
        0
    } else {
        sum_counts(counts.drop_last()) + counts.last()
    }
}

proof fn lemma_sum_counts_prefix(counts: Seq<i64>, i: int, j: int)
    requires
        0 <= i <= j <= counts.len(),
        forall|k: int| 0 <= k < counts.len() ==> #[trigger] counts[k] >= 0,
    ensures
        0 <= sum_counts(counts.take(i)) <= sum_counts(counts.take(j)),
    decreases j,
{
    if j > 0 {
        assert(counts.take(j).drop_last() =~= counts.take(j - 1));
        if i < j {
            lemma_sum_counts_prefix(counts, i, j - 1);
        } else {
            lemma_sum_counts_prefix(counts, i - 1, j - 1);
        }
    } else {
        assert(counts.take(0) =~= Seq::<i64>::empty());
    }
}

/// The number of live proxies: the sum of the sizes of the live sets.
pub fn total_count(counts: &Vec<i64>) -> (r: i64)
    requires
        forall|k: int| 0 <= k < counts.len() ==> #[trigger] counts@[k] >= 0,
        sum_counts(counts@) <= i64::MAX,
    ensures
        r == sum_counts(counts@),
{
    let mut total: i64 = 0;
    let mut i: usize = 0;
    assert(counts@.take(0) =~= Seq::<i64>::empty());
    while i < counts.len()
        invariant
            i <= counts.len(),
            forall|k: int| 0 <= k < counts.len() ==> #[trigger] counts@[k] >= 0,
            sum_counts(counts@) <= i64::MAX,
            total == sum_counts(counts@.take(i as int)),
        decreases counts.len() - i,
    {
        proof {
            assert(counts@.take(i + 1).drop_last() =~= counts@.take(i as int));
            lemma_sum_counts_prefix(counts@, i + 1, counts.len() as int);
            assert(counts@.take(counts.len() as int) =~= counts@);
        }
        total = total + counts[i];
        i = i + 1;
    }
    assert(counts@.take(counts.len() as int) =~= counts@);
    total
}

// ---------------------------------------------------------------------------
// Scanning keys
// ---------------------------------------------------------------------------

/// The texts among `items`, in order.
pub open spec fn present_texts(items: Seq<Option<String>>) -> Seq<Seq<char>>
    decreases items.len(),
{
    if items.len() == 0 {
        Seq::empty()
    } else {
        let prev = present_texts(items.drop_last());
        match items.last() {
            Some(s) => prev.push(s@),
            None => prev,
        }
    }
}

/// The progress of a Redis `SCAN`: the cursor to ask with, the keys found so
/// far, and whether the scan is over.
pub struct KeyScan {
    pub cursor: String,
    pub keys: Vec<String>,
    pub finished: bool,
}

impl KeyScan {
    /// A scan not yet started: cursor `0`, no keys.
    pub fn new() -> (r: Self)
        ensures
            r.cursor@ == "0"@,
            r.keys@.len() == 0,
            !r.finished,
    {
        KeyScan { cursor: String::from_str("0"), keys: Vec::new(), finished: false }
    }

    /// Takes in one `SCAN` reply: `None` when the reply is not an array of
    /// at least two items; otherwise its cursor (when it is a text) and its
    /// keys (when they form an array; items that are not texts are skipped).
    /// The scan is over after a malformed reply or once the cursor is `0`.
    pub fn step(&mut self, reply: Option<(Option<String>, Option<Vec<Option<String>>>)>)
        ensures
            reply is None ==> final(self).finished && final(self).cursor@ == old(self).cursor@
                && views_of(final(self).keys@) == views_of(old(self).keys@),
            reply matches Some((c, ks)) ==> {
                &&& final(self).cursor@ == match c {
                    Some(c) => c@,
                    None => old(self).cursor@,
                }
                &&& views_of(final(self).keys@) == views_of(old(self).keys@) + match ks {
                    Some(ks) => present_texts(ks@),
                    None => Seq::empty(),
                }
                &&& final(self).finished == (final(self).cursor@ == "0"@)
            },
    {
        if reply.is_none() {
            self.finished = true;
            return;
        }
        let (c, ks) = reply.unwrap();
        if let Some(c) = c {
            self.cursor = c;
        }
        if let Some(ks) = ks {
            let mut i: usize = 0;
            let ghost start = views_of(self.keys@);
            let ghost cur = self.cursor@;
            assert(ks@.take(0) =~= Seq::<Option<String>>::empty());
            assert(start + present_texts(ks@.take(0)) =~= start);
            while i < ks.len()
                invariant
                    i <= ks.len(),
                    views_of(self.keys@) == start + present_texts(ks@.take(i as int)),
                    self.cursor@ == cur,
                decreases ks.len() - i,
            {
                proof {
                    assert(ks@.take(i + 1).drop_last() =~= ks@.take(i as int));
                }
                let ghost before = views_of(self.keys@);
                match &ks[i] {
                    Some(k) => {
                        self.keys.push(k.clone());
                        assert(views_of(self.keys@) =~= before.push(k@));
                    },
                    None => {},
                }
                i = i + 1;
            }
            assert(ks@.take(ks.len() as int) =~= ks@);
        } else {
            assert(views_of(self.keys@) =~= views_of(self.keys@) + Seq::<Seq<char>>::empty());
        }
        self.finished = str_eq(self.cursor.as_str(), "0");
    }
}

/// The texts of a list of strings.
pub open spec fn views_of(v: Seq<String>) -> Seq<Seq<char>> {
    v.map_values(|s: String| s@)
}

} // verus!
