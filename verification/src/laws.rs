use vstd::prelude::*;

use crate::cache::{
    distinct_texts, elapsed_ms, is_fresh, keys_matching, lemma_distinct_texts_contains,
    lemma_distinct_texts_distinct, lemma_keys_matching_contains, lemma_keys_matching_distinct,
    lookup_spec, refreshed_spec, LiveKeyCacheView,
};
use crate::crawling::{
    body_details, is_known_protocol, is_level_digit, level_of, protocol_of, raw_line_detail,
    raw_lines_details, row_detail, rows_details, PageRowView,
};
use crate::glob::glob_matches;
use crate::html::page_rows_spec;
use crate::model::CrawlingRule;
use crate::ip_cache::{
    cache_key_spec, ip_field_spec, live_key_fields_spec, live_key_pattern_spec, live_set_key_spec,
};
use crate::model::IpDetailView;
use crate::task::{crawl_due, verify_outcome_spec, MAX_FAILED_CHECKS, RECRAWL_ROUNDS};
use crate::crawling::{cleaned, colon_index};
use crate::model::rule_pairs;
use crate::text::{
    contains_seq, ends_with_seq, lemma_split_prefix, lemma_split_whole, occurs_at, split_seq,
    starts_with_seq, trim_start, trimmed,
};

verus! {

// ---------------------------------------------------------------------------
// Glob patterns
// ---------------------------------------------------------------------------

/// A pattern without `*` matches exactly itself.
pub proof fn law_glob_without_star(pattern: Seq<char>, s: Seq<char>)
    requires
        forall|i: int| 0 <= i < pattern.len() ==> #[trigger] pattern[i] != '*',
    ensures
        glob_matches(pattern, s) == (s == pattern),
{
    lemma_split_whole(pattern, seq!['*']);
}

/// A pattern made of a text without `*` followed by one `*` matches exactly
/// the texts that begin with that text.
pub proof fn law_glob_prefix(prefix: Seq<char>, s: Seq<char>)
    requires
        forall|i: int| 0 <= i < prefix.len() ==> #[trigger] prefix[i] != '*',
    ensures
        glob_matches(prefix + seq!['*'], s) == starts_with_seq(s, prefix),
{
    let empty = Seq::<char>::empty();
    lemma_split_prefix(prefix, seq!['*'], empty);
    assert(prefix + seq!['*'] + empty =~= prefix + seq!['*']);
    assert(split_seq(empty, seq!['*']) == seq![empty]);
    let ps = split_seq(prefix + seq!['*'], seq!['*']);
    assert(ps =~= seq![prefix, empty]);
    assert(ps.drop_first() =~= seq![empty]);
    let t = s.skip(prefix.len() as int);
    if starts_with_seq(s, prefix) {
        assert(t.subrange(t.len() as int, t.len() as int) =~= empty);
        assert(ends_with_seq(t, empty));
    }
}

// ---------------------------------------------------------------------------
// Redis keys
// ---------------------------------------------------------------------------

proof fn lemma_literals()
    ensures
        "ip_live::"@ =~= "ip_live"@ + "::"@,
        forall|i: int| 0 <= i < "ip_live"@.len() ==> #[trigger] "ip_live"@[i] != ':',
        forall|i: int| 0 <= i < "ip_live::"@.len() ==> #[trigger] "ip_live::"@[i] != '*',
        "::*"@ =~= "::"@ + seq!['*'],
        "ip_live::*"@ =~= "ip_live::"@ + seq!['*'],
        "::"@ =~= seq![':', ':'],
{
    reveal_strlit("ip_live::");
    reveal_strlit("ip_live");
    reveal_strlit("::");
    reveal_strlit("::*");
    reveal_strlit("ip_live::*");
}

/// Reading a live-set key gives back the protocol and level it was made of,
/// for protocols and levels without `:`.
pub proof fn law_live_key_round_trip(protocol_type: Seq<char>, level: Seq<char>)
    requires
        forall|i: int| 0 <= i < protocol_type.len() ==> #[trigger] protocol_type[i] != ':',
        forall|i: int| 0 <= i < level.len() ==> #[trigger] level[i] != ':',
    ensures
        live_key_fields_spec(live_set_key_spec(protocol_type, level)) == Some((protocol_type, level)),
{
    lemma_literals();
    let sep = "::"@;
    assert(sep[0] == ':');
    let key = live_set_key_spec(protocol_type, level);
    assert(key =~= "ip_live"@ + sep + (protocol_type + sep + level));
    lemma_split_prefix("ip_live"@, sep, protocol_type + sep + level);
    lemma_split_prefix(protocol_type, sep, level);
    lemma_split_whole(level, sep);
    assert(split_seq(key, sep) =~= seq!["ip_live"@, protocol_type, level]);
}

/// Every live-set key matches the pattern of all live sets, and, for a
/// protocol without `*`, the pattern of the live sets of its protocol.
pub proof fn law_live_keys_match_patterns(protocol_type: Seq<char>, level: Seq<char>)
    requires
        forall|i: int| 0 <= i < protocol_type.len() ==> #[trigger] protocol_type[i] != '*',
    ensures
        glob_matches(live_key_pattern_spec(None), live_set_key_spec(protocol_type, level)),
        glob_matches(
            live_key_pattern_spec(Some(protocol_type)),
            live_set_key_spec(protocol_type, level),
        ),
{
    lemma_literals();
    let key = live_set_key_spec(protocol_type, level);
    law_glob_prefix("ip_live::"@, key);
    assert(key.subrange(0, "ip_live::"@.len() as int) =~= "ip_live::"@);
    let prefix = "ip_live::"@ + protocol_type + "::"@;
    assert forall|i: int| 0 <= i < prefix.len() implies #[trigger] prefix[i] != '*' by {
        if i < "ip_live::"@.len() {
            assert(prefix[i] == "ip_live::"@[i]);
        } else if i < "ip_live::"@.len() + protocol_type.len() {
            assert(prefix[i] == protocol_type[i - "ip_live::"@.len()]);
        } else {
            assert(prefix[i] == "::"@[i - "ip_live::"@.len() - protocol_type.len()]);
        }
    }
    law_glob_prefix(prefix, key);
    assert(live_key_pattern_spec(Some(protocol_type)) =~= prefix + seq!['*']);
    assert(key.subrange(0, prefix.len() as int) =~= prefix);
}

/// Checking a proxy never moves it: whatever the outcome, it is stored in
/// the same hash, field and live set, and it is in the live set exactly when
/// it was found alive.
pub proof fn law_checks_keep_storage_keys(d: IpDetailView, alive: bool)
    ensures
        verify_outcome_spec(d, alive) matches Some(x) ==> {
            &&& cache_key_spec(x.protocol_type, x.level) == cache_key_spec(d.protocol_type, d.level)
            &&& ip_field_spec(x.ip, x.port) == ip_field_spec(d.ip, d.port)
            &&& live_set_key_spec(x.protocol_type, x.level) == live_set_key_spec(
                d.protocol_type,
                d.level,
            )
            &&& x.is_live == alive
        },
{
}

// ---------------------------------------------------------------------------
// Verification
// ---------------------------------------------------------------------------

/// The proxy kept after `n` failed checks in a row starting from `d`; none
/// once it has been removed.
pub open spec fn after_failures(d: IpDetailView, n: nat) -> Option<IpDetailView>
    decreases n,
{
    if n == 0 {
        Some(d)
    } else {
        match after_failures(d, (n - 1) as nat) {
            Some(x) => verify_outcome_spec(x, false),
            None => None,
        }
    }
}

/// A proxy with no failure pending survives `MAX_FAILED_CHECKS` failed checks
/// in a row, marked dead and counting them, and is removed at the next one;
/// a successful check clears the count.
pub proof fn law_removal_after_consecutive_failures(d: IpDetailView, n: nat)
    requires
        d.die_verify_count == 0,
    ensures
        n <= MAX_FAILED_CHECKS ==> (after_failures(d, n) matches Some(x) && x.die_verify_count
            == n && (n > 0 ==> !x.is_live)),
        n > MAX_FAILED_CHECKS ==> after_failures(d, n) is None,
        (verify_outcome_spec(d, true) matches Some(x) && x.die_verify_count == 0 && x.is_live),
    decreases n,
{
    if n > 0 {
        law_removal_after_consecutive_failures(d, (n - 1) as nat);
    }
}

// ---------------------------------------------------------------------------
// Crawled proxies
// ---------------------------------------------------------------------------

/// A proxy as a crawl at `time` records it: with an address, a protocol and
/// a level that are either normalised or empty (empty when the page gave no
/// text for them), alive, and never checked yet.
pub open spec fn freshly_crawled(d: IpDetailView, time: u64) -> bool {
    &&& d.ip.len() > 0
    &&& (d.protocol_type.len() == 0 || is_known_protocol(d.protocol_type))
    &&& (d.level.len() == 0 || is_level_digit(d.level))
    &&& d.crawling_time == time
    &&& d.live_time == 0
    &&& d.is_live
    &&& d.verify_count == 0
    &&& d.die_verify_count == 0
}

proof fn lemma_normalised(t: Seq<char>)
    ensures
        is_known_protocol(protocol_of(t)),
        is_level_digit(level_of(t)),
{
    reveal_strlit("1");
    reveal_strlit("2");
    reveal_strlit("3");
    reveal_strlit("4");
    reveal_strlit("5");
}

proof fn lemma_rows_freshly_crawled(rows: Seq<PageRowView>, time: u64)
    ensures
        forall|i: int|
            0 <= i < rows_details(rows, time).len() ==> freshly_crawled(
                #[trigger] rows_details(rows, time)[i],
                time,
            ),
    decreases rows.len(),
{
    if rows.len() > 0 {
        lemma_rows_freshly_crawled(rows.drop_last(), time);
        let row = rows.last();
        match row.protocol_type {
            Some(p) => lemma_normalised(crate::crawling::lowercase(crate::text::trimmed(p))),
            None => {},
        }
        match row.level {
            Some(l) => lemma_normalised(crate::text::trimmed(l)),
            None => {},
        }
        let prev = rows_details(rows.drop_last(), time);
        match row_detail(row, time) {
            Some(d) => {
                assert(freshly_crawled(d, time));
                assert forall|i: int| 0 <= i < prev.push(d).len() implies freshly_crawled(
                    #[trigger] prev.push(d)[i],
                    time,
                ) by {
                    if i < prev.len() {
                        assert(prev.push(d)[i] == prev[i]);
                    }
                }
            },
            None => {},
        }
    }
}

proof fn lemma_raw_lines_freshly_crawled(lines: Seq<Seq<char>>, rule: CrawlingRule, time: u64)
    ensures
        forall|i: int|
            0 <= i < raw_lines_details(lines, rule, time).len() ==> freshly_crawled(
                #[trigger] raw_lines_details(lines, rule, time)[i],
                time,
            ),
    decreases lines.len(),
{
    if lines.len() > 0 {
        lemma_raw_lines_freshly_crawled(lines.drop_last(), rule, time);
        lemma_normalised(crate::crawling::lowercase(crate::text::trimmed(rule.protocol_type_rule@)));
        lemma_normalised(crate::text::trimmed(rule.level_rule@));
        let prev = raw_lines_details(lines.drop_last(), rule, time);
        crate::crawling::lemma_colon_index(
            crate::crawling::cleaned(lines.last(), crate::model::rule_pairs(rule.replace_rules@)),
        );
        match raw_line_detail(lines.last(), rule, time) {
            Some(d) => {
                assert(freshly_crawled(d, time));
                assert forall|i: int| 0 <= i < prev.push(d).len() implies freshly_crawled(
                    #[trigger] prev.push(d)[i],
                    time,
                ) by {
                    if i < prev.len() {
                        assert(prev.push(d)[i] == prev[i]);
                    }
                }
            },
            None => {},
        }
    }
}

/// Every proxy read from a fetched page, HTML or plain text, is freshly
/// crawled: it has an address, its protocol is `http`, `https`, `socks4` or
/// `socks5` and its level a digit from `1` to `5` (each unless the page gave
/// no text for it, when it is empty), and it is alive, unchecked, and dated
/// `time`.
pub proof fn law_crawled_proxies_are_normalised(body: Seq<char>, rule: CrawlingRule, time: u64)
    ensures
        forall|i: int|
            0 <= i < body_details(body, rule, time).len() ==> freshly_crawled(
                #[trigger] body_details(body, rule, time)[i],
                time,
            ),
{
    lemma_raw_lines_freshly_crawled(crate::text::split_seq(body, seq!['\n']), rule, time);
    match page_rows_spec(body, rule) {
        Some(rows) => lemma_rows_freshly_crawled(rows, time),
        None => {},
    }
}

// ---------------------------------------------------------------------------
// Normalising protocols and levels
// ---------------------------------------------------------------------------

/// Each Chinese anonymity label, whitespace around it aside, stands for its
/// level: high anonymity (`高匿`, `高匿名`, `高匿代理IP`) is `1`, ordinary
/// (`普匿`, `普通匿名`, `普通代理IP`) `2`, anonymous (`匿名`, `匿名代理`) `3`,
/// transparent (`透明`, `透明代理`, `无匿`, `透明代理IP`) `4`, unknown (`未知`)
/// `5`; a digit from `1` to `5` stands for itself, and any other digit for
/// `5`.
pub proof fn law_level_labels(text: Seq<char>)
    ensures
        trimmed(text) == "高匿"@ || trimmed(text) == "高匿名"@ || trimmed(text) == "高匿代理IP"@
            ==> level_of(trimmed(text)) == seq!['1'],
        trimmed(text) == "普匿"@ || trimmed(text) == "普通匿名"@ || trimmed(text) == "普通代理IP"@
            ==> level_of(trimmed(text)) == seq!['2'],
        trimmed(text) == "匿名"@ || trimmed(text) == "匿名代理"@ ==> level_of(trimmed(text))
            == seq!['3'],
        trimmed(text) == "透明"@ || trimmed(text) == "透明代理"@ || trimmed(text) == "无匿"@
            || trimmed(text) == "透明代理IP"@ ==> level_of(trimmed(text)) == seq!['4'],
        trimmed(text) == "未知"@ ==> level_of(trimmed(text)) == seq!['5'],
        forall|c: char|
            '1' <= c <= '5' && trimmed(text) == seq![c] ==> #[trigger] level_of(seq![c]) == seq![c],
        forall|c: char|
            ('0' == c || '6' <= c <= '9') && trimmed(text) == seq![c] ==> #[trigger] level_of(
                seq![c],
            ) == seq!['5'],
{
    reveal_strlit("高匿");
    reveal_strlit("高匿名");
    reveal_strlit("高匿代理IP");
    reveal_strlit("普匿");
    reveal_strlit("普通匿名");
    reveal_strlit("普通代理IP");
    reveal_strlit("匿名");
    reveal_strlit("匿名代理");
    reveal_strlit("透明");
    reveal_strlit("透明代理");
    reveal_strlit("无匿");
    reveal_strlit("透明代理IP");
    reveal_strlit("未知");
    reveal_strlit("1");
    reveal_strlit("2");
    reveal_strlit("3");
    reveal_strlit("4");
    reveal_strlit("5");
    let t = trimmed(text);
    assert("高匿"@[0] == '高' && "高匿名"@[0] == '高' && "高匿代理IP"@[0] == '高');
    assert("普匿"@[0] == '普' && "普通匿名"@[0] == '普' && "普通代理IP"@[0] == '普');
    if t == "普匿"@ || t == "普通匿名"@ || t == "普通代理IP"@ {
        assert(t[0] == '普');
    }
    assert("匿名"@[0] == '匿' && "匿名代理"@[0] == '匿');
    assert("透明"@[0] == '透' && "透明代理"@[0] == '透' && "透明代理IP"@[0] == '透');
    assert("无匿"@[0] == '无');
    if t == "匿名"@ || t == "匿名代理"@ {
        assert(t[0] == '匿');
    }
    if t == "透明"@ || t == "透明代理"@ || t == "透明代理IP"@ {
        assert(t[0] == '透');
    }
    if t == "无匿"@ {
        assert(t[0] == '无');
    }
    if t == "未知"@ {
        assert(t[0] == '未');
    }
    assert forall|c: char| '0' <= c <= '9' implies #[trigger] level_of(seq![c]) == (if '1' <= c
        <= '5' {
        seq![c]
    } else {
        seq!['5']
    }) by {
        let t = seq![c];
        assert(t.len() == 1 && t[0] == c);
        assert(t != "高匿"@ && t != "普匿"@ && t != "匿名"@ && t != "透明"@ && t != "无匿"@);
        assert(t != "未知"@);
    }
}

proof fn lemma_normalised_nonempty()
    ensures
        forall|t: Seq<char>| #[trigger] protocol_of(t).len() > 0,
        forall|t: Seq<char>| #[trigger] level_of(t).len() > 0,
{
    reveal_strlit("http");
    reveal_strlit("https");
    reveal_strlit("socks4");
    reveal_strlit("socks5");
    assert forall|t: Seq<char>| #[trigger] protocol_of(t).len() > 0 by {
        lemma_normalised(t);
    }
    assert forall|t: Seq<char>| #[trigger] level_of(t).len() > 0 by {
        lemma_normalised(t);
    }
}

proof fn lemma_contains_itself(p: Seq<char>)
    ensures
        contains_seq(p, p),
{
    assert(p.subrange(0, p.len() as int) =~= p);
    assert(occurs_at(p, p, 0));
}

/// The protocol of a lower-case description is the strongest it names: any
/// mention of `socks5` (or `socks 5`) gives `socks5`, whatever else the text
/// says; otherwise a mention of `socks4` (or `socks 4`) gives `socks4`;
/// otherwise a mention of `https` gives `https`; a text naming none of them
/// is `http`.
pub proof fn law_protocol_strongest_named(lower: Seq<char>)
    ensures
        contains_seq(lower, "socks5"@) || contains_seq(lower, "socks 5"@) ==> protocol_of(lower)
            == "socks5"@,
        !contains_seq(lower, "socks5"@) && !contains_seq(lower, "socks 5"@) && (contains_seq(
            lower,
            "socks4"@,
        ) || contains_seq(lower, "socks 4"@)) ==> protocol_of(lower) == "socks4"@,
        !contains_seq(lower, "socks5"@) && !contains_seq(lower, "socks 5"@) && !contains_seq(
            lower,
            "socks4"@,
        ) && !contains_seq(lower, "socks 4"@) && contains_seq(lower, "https"@) ==> protocol_of(
            lower,
        ) == "https"@,
        !contains_seq(lower, "socks5"@) && !contains_seq(lower, "socks 5"@) && !contains_seq(
            lower,
            "socks4"@,
        ) && !contains_seq(lower, "socks 4"@) && !contains_seq(lower, "https"@) ==> protocol_of(
            lower,
        ) == "http"@,
{
    reveal_strlit("http");
    reveal_strlit("https");
    reveal_strlit("socks4");
    reveal_strlit("socks5");
    reveal_strlit("socks 4");
    reveal_strlit("socks 5");
    if lower == "https"@ {
        lemma_contains_itself(lower);
    }
    if lower == "socks4"@ {
        lemma_contains_itself(lower);
        if contains_seq(lower, "socks5"@) {
            let i = choose|i: int| occurs_at(lower, "socks5"@, i);
            assert(i == 0);
            assert(lower.subrange(0, 6)[5] == lower[5]);
        }
    }
    if lower == "socks5"@ {
        lemma_contains_itself(lower);
    }
}

// ---------------------------------------------------------------------------
// What a crawled row or line keeps
// ---------------------------------------------------------------------------

/// A table row gives a proxy exactly when it has a non-empty address, and
/// that proxy has the row's address, port and region texts unchanged (empty
/// where the row has none); its protocol and level are empty exactly where
/// the row has no text for them, and a level digit from `1` to `5` in the
/// row is kept.
pub proof fn law_row_keeps_its_texts(row: PageRowView, time: u64)
    ensures
        row_detail(row, time) matches Some(d) ==> (d.protocol_type.len() == 0 <==> row.protocol_type
            is None) && (d.level.len() == 0 <==> row.level is None),
        forall|c: char|
            '1' <= c <= '5' && (row_detail(row, time) matches Some(d) && row.level == Some(
                #[trigger] seq![c],
            )) ==> row_detail(row, time)->0.level == seq![c],
        (row_detail(row, time) is Some) <==> (row.ip matches Some(ip) && ip.len() > 0),
        row_detail(row, time) matches Some(d) ==> {
            &&& Some(d.ip) == row.ip
            &&& d.port == match row.port {
                Some(p) => p,
                None => Seq::<char>::empty(),
            }
            &&& d.region == match row.region {
                Some(r) => r,
                None => Seq::<char>::empty(),
            }
        },
{
    lemma_normalised_nonempty();
    assert forall|c: char| '1' <= c <= '5' implies #[trigger] level_of(trimmed(seq![c])) == seq![c] by {
        law_level_labels(seq![c]);
        assert(trim_start(seq![c]) == seq![c]);
        assert(trimmed(seq![c]) == seq![c]);
    }
}

proof fn lemma_colon_index_of_field(ip: Seq<char>, rest: Seq<char>)
    requires
        forall|i: int| 0 <= i < ip.len() ==> #[trigger] ip[i] != ':',
        rest.len() == 0 || rest[0] == ':',
    ensures
        colon_index(ip + rest) == ip.len(),
    decreases ip.len(),
{
    if ip.len() > 0 {
        let tail = ip.drop_first();
        assert forall|i: int| 0 <= i < tail.len() implies #[trigger] tail[i] != ':' by {
            assert(tail[i] == ip[i + 1]);
        }
        assert((ip + rest).drop_first() =~= tail + rest);
        assert((ip + rest)[0] == ip[0]);
        lemma_colon_index_of_field(tail, rest);
    } else {
        assert(ip + rest =~= rest);
    }
}

/// A line of a plain-text list that reads, once cleaned, `address:port`
/// with a non-empty address free of `:` gives the proxy with exactly that
/// address and that port, whose field `address:port` is the cleaned line
/// itself.
pub proof fn law_raw_line_address_and_port(
    line: Seq<char>,
    rule: CrawlingRule,
    time: u64,
    ip: Seq<char>,
    port: Seq<char>,
)
    requires
        ip.len() > 0,
        forall|i: int| 0 <= i < ip.len() ==> #[trigger] ip[i] != ':',
        cleaned(line, rule_pairs(rule.replace_rules@)) == ip_field_spec(ip, port),
    ensures
        raw_line_detail(line, rule, time) matches Some(d) && d.ip == ip && d.port == port
            && ip_field_spec(d.ip, d.port) == cleaned(line, rule_pairs(rule.replace_rules@)),
{
    reveal_strlit(":");
    let t = cleaned(line, rule_pairs(rule.replace_rules@));
    assert(t =~= ip + (seq![':'] + port));
    lemma_colon_index_of_field(ip, seq![':'] + port);
    assert(t.take(ip.len() as int) =~= ip);
    assert(t.skip(ip.len() as int + 1) =~= port);
}

/// A line of a plain-text list that reads, once cleaned, as a non-empty
/// address without `:` gives the proxy with that address and no port.
pub proof fn law_raw_line_without_port(line: Seq<char>, rule: CrawlingRule, time: u64)
    requires
        cleaned(line, rule_pairs(rule.replace_rules@)).len() > 0,
        forall|i: int|
            0 <= i < cleaned(line, rule_pairs(rule.replace_rules@)).len() ==> #[trigger] cleaned(
                line,
                rule_pairs(rule.replace_rules@),
            )[i] != ':',
    ensures
        raw_line_detail(line, rule, time) matches Some(d) && d.ip == cleaned(
            line,
            rule_pairs(rule.replace_rules@),
        ) && d.port.len() == 0,
{
    let t = cleaned(line, rule_pairs(rule.replace_rules@));
    lemma_colon_index_of_field(t, Seq::empty());
    assert(t + Seq::<char>::empty() =~= t);
    assert(t.take(t.len() as int) =~= t);
}

// ---------------------------------------------------------------------------
// Schedule of the crawl
// ---------------------------------------------------------------------------

/// While the pool holds at least one proxy, a crawl is due exactly every
/// `RECRAWL_ROUNDS` rounds and at no other round; an empty pool calls for a
/// crawl at any round.
pub proof fn law_crawl_due_exactly(rounds_since_crawl: nat, stored_ips: nat)
    ensures
        stored_ips > 0 ==> (crawl_due(rounds_since_crawl, stored_ips) <==> rounds_since_crawl % 72
            == 0),
        stored_ips == 0 ==> crawl_due(rounds_since_crawl, stored_ips),
{
}

// ---------------------------------------------------------------------------
// Key cache
// ---------------------------------------------------------------------------

/// Within its time-to-live, the cache answers a lookup with exactly the keys
/// of its last refresh that match the pattern, each once.
pub proof fn law_cache_serves_last_refresh(
    c: LiveKeyCacheView,
    keys: Seq<Seq<char>>,
    refreshed_at: u64,
    now: u64,
    pattern: Seq<char>,
    k: Seq<char>,
)
    requires
        keys.len() > 0,
        elapsed_ms(refreshed_at, now) < c.ttl_secs * 1000,
    ensures
        (lookup_spec(refreshed_spec(c, keys, refreshed_at), now, pattern) matches Some(found) && (
        found.contains(k) <==> keys.contains(k) && glob_matches(pattern, k))
            && found.no_duplicates()),
{
    lemma_distinct_texts_distinct(keys);
    lemma_keys_matching_distinct(distinct_texts(keys), pattern);
    lemma_distinct_texts_contains(keys, keys[0]);
    assert(keys.contains(keys[0]));
    let d = distinct_texts(keys);
    assert(d.len() > 0);
    assert(is_fresh(refreshed_spec(c, keys, refreshed_at), now));
    lemma_keys_matching_contains(d, pattern, k);
    lemma_distinct_texts_contains(keys, k);
}

/// Once its time-to-live has passed, the cache answers no lookup, so the
/// caller refreshes it.
pub proof fn law_cache_expires(c: LiveKeyCacheView, now: u64, pattern: Seq<char>)
    requires
        elapsed_ms(c.refreshed_at, now) >= c.ttl_secs * 1000,
    ensures
        lookup_spec(c, now, pattern) is None,
{
}

// ---------------------------------------------------------------------------
// Schedule
// ---------------------------------------------------------------------------

/// While the pool holds proxies, a crawl is due at least once every
/// `RECRAWL_ROUNDS` rounds: from any reachable schedule (at most
/// `RECRAWL_ROUNDS` rounds since the last crawl), no longer run of rounds
/// goes without one.
pub proof fn law_recrawl_period(rounds_since_crawl: nat, n: nat)
    requires
        rounds_since_crawl <= RECRAWL_ROUNDS,
        forall|i: nat| i < n ==> !#[trigger] crawl_due(rounds_since_crawl + i, 1),
    ensures
        rounds_since_crawl + n <= RECRAWL_ROUNDS,
{
    if rounds_since_crawl + n > RECRAWL_ROUNDS {
        let i = (RECRAWL_ROUNDS - rounds_since_crawl) as nat;
        assert(!crawl_due(rounds_since_crawl + i, 1));
        assert((rounds_since_crawl + i) % (RECRAWL_ROUNDS as nat) == 0);
    }
}

} // verus!
