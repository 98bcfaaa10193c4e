use ip_pool::crawling::{
    append_within_limit, clean_text, details_from_rows, ip_detail_from_row, ip_details_from_body,
    ip_details_from_raw, limit_reached, normalize_level, normalize_protocol, page_url, page_urls,
    protocol_from_lowercase, PageRow,
};
use ip_pool::html::{extract_text, ip_details_from_page, page_rows, rows_from_cells};
use ip_pool::model::{CrawlingRule, IpDetail};

fn rule(table: &str, replace: Vec<(&str, &str)>) -> CrawlingRule {
    CrawlingRule {
        name: "test".to_string(),
        url: "https://example.com/free/{page}".to_string(),
        max_page: 3,
        max_size: None,
        source_type: String::new(),
        table_rule: table.to_string(),
        ip_rule: "td:nth-child(1)".to_string(),
        port_rule: "td:nth-child(2)".to_string(),
        protocol_type_rule: "td:nth-child(3)".to_string(),
        level_rule: "td:nth-child(4)".to_string(),
        region_rule: "td:nth-child(5)".to_string(),
        replace_rules: replace
            .into_iter()
            .map(|(a, b)| (a.to_string(), b.to_string()))
            .collect(),
    }
}

#[test]
fn protocols_are_normalised() {
    assert_eq!(normalize_protocol(" HTTP "), "http");
    assert_eq!(normalize_protocol("HTTPS"), "https");
    assert_eq!(normalize_protocol("socks4"), "socks4");
    assert_eq!(normalize_protocol("SOCKS5"), "socks5");
    assert_eq!(normalize_protocol("HTTP, SOCKS 5"), "socks5");
    assert_eq!(normalize_protocol("socks4/socks5"), "socks5");
    assert_eq!(normalize_protocol("Socks 4"), "socks4");
    assert_eq!(normalize_protocol("HTTP/HTTPS"), "https");
    assert_eq!(normalize_protocol("未知"), "http");
    assert_eq!(normalize_protocol(""), "http");
    assert_eq!(protocol_from_lowercase("https"), "https");
    assert_eq!(protocol_from_lowercase("HTTPS"), "http");
}

#[test]
fn levels_are_normalised() {
    assert_eq!(normalize_level("高匿"), "1");
    assert_eq!(normalize_level(" 高匿代理IP "), "1");
    assert_eq!(normalize_level("普通匿名"), "2");
    assert_eq!(normalize_level("匿名代理"), "3");
    assert_eq!(normalize_level("透明"), "4");
    assert_eq!(normalize_level("无匿"), "4");
    assert_eq!(normalize_level("未知"), "5");
    assert_eq!(normalize_level("3"), "3");
    assert_eq!(normalize_level("1"), "1");
    assert_eq!(normalize_level(" 5 "), "5");
    assert_eq!(normalize_level(" 7 "), "5");
    assert_eq!(normalize_level("0"), "5");
    assert_eq!(normalize_level("9"), "5");
    assert_eq!(normalize_level("12"), "5");
    assert_eq!(normalize_level("elite"), "5");
    assert_eq!(normalize_level("٣"), "5");
}

#[test]
fn texts_are_trimmed_then_rewritten() {
    let rules = vec![("端口".to_string(), String::new()), ("::".to_string(), ":".to_string())];
    assert_eq!(clean_text("  8080端口 ", &rules), "8080");
    assert_eq!(clean_text(" a::b ", &rules), "a:b");
    assert_eq!(clean_text(" x ", &Vec::new()), "x");
}

#[test]
fn page_addresses() {
    assert_eq!(page_url("https://a/{page}.html", 12), "https://a/12.html");
    assert_eq!(page_url("https://a/list", 2), "https://a/list");
    let urls = page_urls(&rule("tr", vec![]));
    assert_eq!(
        urls,
        vec![
            "https://example.com/free/1",
            "https://example.com/free/2",
            "https://example.com/free/3"
        ]
    );
    let mut r = rule("tr", vec![]);
    r.max_page = 0;
    assert!(page_urls(&r).is_empty());
}

fn row(ip: Option<&str>, port: Option<&str>, p: Option<&str>, l: Option<&str>, reg: Option<&str>) -> PageRow {
    PageRow {
        ip: ip.map(String::from),
        port: port.map(String::from),
        protocol_type: p.map(String::from),
        level: l.map(String::from),
        region: reg.map(String::from),
    }
}

#[test]
fn rows_become_fresh_live_proxies() {
    let d = ip_detail_from_row(&row(Some("1.2.3.4"), Some("80"), Some("HTTPS"), Some("高匿"), Some("北京")), 42)
        .unwrap();
    assert_eq!(d.ip, "1.2.3.4");
    assert_eq!(d.port, "80");
    assert_eq!(d.protocol_type, "https");
    assert_eq!(d.level, "1");
    assert_eq!(d.region, "北京");
    assert_eq!(d.crawling_time, 42);
    assert_eq!(d.live_time, 0);
    assert!(d.is_live);
    assert_eq!(d.verify_count, 0);
    assert_eq!(d.die_verify_count, 0);

    let d = ip_detail_from_row(&row(Some("1.2.3.4"), None, None, None, None), 1).unwrap();
    assert_eq!(d.port, "");
    assert_eq!(d.protocol_type, "");
    assert_eq!(d.level, "");
    assert_eq!(d.region, "");

    assert!(ip_detail_from_row(&row(Some(""), Some("80"), None, None, None), 1).is_none());
    assert!(ip_detail_from_row(&row(None, Some("80"), None, None, None), 1).is_none());

    let rows = vec![
        row(Some("1.1.1.1"), Some("1"), None, None, None),
        row(None, Some("2"), None, None, None),
        row(Some("3.3.3.3"), Some("3"), None, None, None),
    ];
    let ds = details_from_rows(&rows, 5);
    assert_eq!(ds.len(), 2);
    assert_eq!(ds[0].ip, "1.1.1.1");
    assert_eq!(ds[1].ip, "3.3.3.3");
}

const PAGE: &str = r#"<html><body><table>
<tr><th>IP</th><th>PORT</th></tr>
<tr><td> 10.0.0.1 </td><td>8080端口</td><td>HTTP</td><td>高匿名</td><td> 广东 深圳 端口</td></tr>
<tr><td>10.0.0.2</td><td>3128</td><td>socks 5</td><td>透明代理</td><td>北京</td></tr>
</table></body></html>"#;

#[test]
fn pages_are_read_row_by_row() {
    let r = rule("table tr", vec![("端口", "")]);
    let ds = ip_details_from_page(PAGE, &r, 7);
    assert_eq!(ds.len(), 2);
    assert_eq!(ds[0].ip, "10.0.0.1");
    assert_eq!(ds[0].port, "8080");
    assert_eq!(ds[0].protocol_type, "http");
    assert_eq!(ds[0].level, "1");
    // the region is not rewritten by the replacement rules
    assert_eq!(ds[0].region, "广东 深圳 端口");
    assert_eq!(ds[1].ip, "10.0.0.2");
    assert_eq!(ds[1].protocol_type, "socks5");
    assert_eq!(ds[1].level, "4");
    assert_eq!(ds[1].crawling_time, 7);

    // an invalid table selector reads nothing
    assert!(ip_details_from_page(PAGE, &rule("table[", vec![]), 7).is_empty());

    // an empty field rule gives an empty field; an invalid one none
    let mut r = rule("table tr", vec![]);
    r.port_rule = String::new();
    r.level_rule = "td[".to_string();
    let ds = ip_details_from_page(PAGE, &r, 7);
    assert_eq!(ds.len(), 2);
    assert_eq!(ds[0].port, "");
    assert_eq!(ds[0].level, "");
}

#[test]
fn fields_are_extracted_from_first_matches() {
    let rules = vec![("端口".to_string(), "".to_string())];
    assert_eq!(extract_text("td:nth-child(2)", Some(" 8080端口 "), &rules), Some("8080".to_string()));
    assert_eq!(extract_text("td:nth-child(2)", Some("8080端口"), &Vec::new()), Some("8080端口".to_string()));
    assert_eq!(extract_text("", Some("8080"), &rules), Some(String::new()));
    assert_eq!(extract_text("", None, &rules), Some(String::new()));
    assert_eq!(extract_text("span", None, &rules), None);
}

#[test]
fn page_rows_follow_the_table_matches() {
    let r = rule("table tr", vec![("端口", "")]);
    let rows = page_rows(PAGE, &r).unwrap();
    // the header row and the two proxy rows
    assert_eq!(rows.len(), 3);
    assert_eq!(rows[0].ip, None);
    assert_eq!(rows[1].ip, Some("10.0.0.1".to_string()));
    assert_eq!(rows[1].port, Some("8080".to_string()));
    assert_eq!(rows[2].region, Some("北京".to_string()));
    assert!(page_rows(PAGE, &rule("table[", vec![])).is_none());
}

fn bare_rule(url: &str, table: &str) -> CrawlingRule {
    CrawlingRule {
        name: "bare".to_string(),
        url: url.to_string(),
        max_page: 2,
        max_size: None,
        source_type: String::new(),
        table_rule: table.to_string(),
        ip_rule: ".ip".to_string(),
        port_rule: ".port".to_string(),
        protocol_type_rule: String::new(),
        level_rule: String::new(),
        region_rule: String::new(),
        replace_rules: Vec::new(),
    }
}

#[test]
fn one_record_per_table_match_with_an_address() {
    let r = bare_rule("http://h/{page}", "tr");
    assert_eq!(page_urls(&r), vec!["http://h/1", "http://h/2"]);
    let body = "<table><tr><td class=ip>1.2.3.4</td><td class=port>80</td></tr><tr><td class=ip></td></tr></table>";
    let ds = ip_details_from_body(body, &r, 7);
    assert_eq!(ds.len(), 1);
    let d = &ds[0];
    assert_eq!(d.ip, "1.2.3.4");
    assert_eq!(d.port, "80");
    assert_eq!(d.protocol_type, "http");
    assert_eq!(d.level, "5");
    assert_eq!(d.region, "");
    assert_eq!(d.crawling_time, 7);
    assert_eq!(d.live_time, 0);
    assert!(d.is_live);
    assert_eq!(d.verify_count, 0);
    assert_eq!(d.die_verify_count, 0);
}

#[test]
fn raw_sources_list_one_proxy_per_line() {
    let mut r = bare_rule("http://h/list.txt", "");
    r.max_page = 1;
    r.source_type = "raw".to_string();
    let body = "1.2.3.4:80\n5.6.7.8:3128\n";
    let ds = ip_details_from_body(body, &r, 9);
    assert_eq!(ds.len(), 2);
    assert_eq!((ds[0].ip.as_str(), ds[0].port.as_str()), ("1.2.3.4", "80"));
    assert_eq!((ds[1].ip.as_str(), ds[1].port.as_str()), ("5.6.7.8", "3128"));
    assert_eq!(ds[0].protocol_type, "http");
    assert_eq!(ds[0].level, "5");
    assert_eq!(ds[1].crawling_time, 9);
    assert!(ds[1].is_live);

    // blank lines and lines without an address are skipped; a line without
    // a colon is an address without a port; the rule names protocol and level
    r.protocol_type_rule = "SOCKS5".to_string();
    r.level_rule = "高匿".to_string();
    r.replace_rules = vec![("#".to_string(), String::new())];
    let ds = ip_details_from_raw(" 9.9.9.9:1080 \r\n\n:80\n#10.0.0.1\n", &r, 1);
    assert_eq!(ds.len(), 2);
    assert_eq!((ds[0].ip.as_str(), ds[0].port.as_str()), ("9.9.9.9", "1080"));
    assert_eq!((ds[1].ip.as_str(), ds[1].port.as_str()), ("10.0.0.1", ""));
    assert_eq!(ds[0].protocol_type, "socks5");
    assert_eq!(ds[0].level, "1");

    // a page source with the same body finds nothing
    r.source_type = "html".to_string();
    assert!(ip_details_from_body("1.2.3.4:80\n", &r, 1).is_empty());
}

fn proxy(ip: &str) -> IpDetail {
    ip_detail_from_row(&row(Some(ip), Some("80"), None, None, None), 1).unwrap()
}

#[test]
fn crawls_stop_at_their_size_limit() {
    assert!(!limit_reached(5, None));
    assert!(!limit_reached(2, Some(3)));
    assert!(limit_reached(3, Some(3)));
    assert!(limit_reached(0, Some(0)));

    let mut acc = vec![proxy("1.1.1.1")];
    append_within_limit(&mut acc, vec![proxy("2.2.2.2"), proxy("3.3.3.3")], Some(2));
    assert_eq!(acc.len(), 2);
    assert_eq!(acc[0].ip, "1.1.1.1");
    assert_eq!(acc[1].ip, "2.2.2.2");
    append_within_limit(&mut acc, vec![proxy("4.4.4.4")], None);
    assert_eq!(acc.len(), 3);
    assert_eq!(acc[2].ip, "4.4.4.4");
    append_within_limit(&mut acc, Vec::new(), Some(10));
    assert_eq!(acc.len(), 3);
}

#[test]
fn normalised_protocols_stay_normalised() {
    for text in [" HTTP ", "socks 4", "SOCKS5", "https proxy", "", "未知"] {
        let once = normalize_protocol(text);
        assert_eq!(normalize_protocol(&once), once);
    }
    for name in ["http", "https", "socks4", "socks5"] {
        assert_eq!(normalize_protocol(name), name);
    }
}

#[test]
fn cells_become_rows() {
    let r = bare_rule("http://h/{page}", "tr");
    let cells = vec![
        vec![Some(" 1.2.3.4 ".to_string()), Some("80".to_string()), None, None, None],
        vec![Some(String::new())],
        vec![None, Some("81".to_string())],
    ];
    let rows = rows_from_cells(&cells, &r);
    assert_eq!(rows.len(), 3);
    assert_eq!(rows[0].ip, Some("1.2.3.4".to_string()));
    assert_eq!(rows[0].port, Some("80".to_string()));
    // empty rules give empty texts, whatever the cells
    assert_eq!(rows[0].protocol_type, Some(String::new()));
    assert_eq!(rows[0].level, Some(String::new()));
    assert_eq!(rows[0].region, Some(String::new()));
    // missing cells give no text
    assert_eq!(rows[1].ip, Some(String::new()));
    assert_eq!(rows[1].port, None);
    assert_eq!(rows[2].ip, None);
    let ds = details_from_rows(&rows, 7);
    assert_eq!(ds.len(), 1);
    assert_eq!(ds[0].ip, "1.2.3.4");
    assert_eq!(ds[0].protocol_type, "http");
    assert_eq!(ds[0].level, "5");
}

#[test]
fn crawled_proxies_are_normalised() {
    let r = rule("table tr", vec![("端口", "")]);
    for d in ip_details_from_page(PAGE, &r, 3) {
        assert!(!d.ip.is_empty());
        assert!(["http", "https", "socks4", "socks5"].contains(&d.protocol_type.as_str()));
        assert!(["1", "2", "3", "4", "5"].contains(&d.level.as_str()));
        assert_eq!(d.crawling_time, 3);
        assert!(d.is_live);
    }
}
