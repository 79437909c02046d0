use cf_dns_sync::config::config_file_text;
use cf_dns_sync::record::DNSRecord;
use cf_dns_sync::selection::create_selection_list;
use cf_dns_sync::text::{signed_decimal_text, unescape_slashes};

fn rec(id: &str, name: &str, proxy: Option<bool>, ttl: i32) -> DNSRecord {
    DNSRecord {
        record_type: "A".to_string(),
        name: name.to_string(),
        content: "203.0.113.7".to_string(),
        proxy_status: proxy,
        ttl,
        id: id.to_string(),
        sync: None,
    }
}

#[test]
fn selection_lines_are_padded_like_format() {
    let records = vec![rec("i1", "a.example.com", Some(true), 1), rec("i2", "longer.example.com", None, -5)];
    let ((lines, ids), defaults) = create_selection_list(&records);
    let width = "longer.example.com".len() + 3;
    for (k, r) in records.iter().enumerate() {
        let proxy = match r.proxy_status {
            Some(true) => "true",
            Some(false) => "false",
            None => "Unknown",
        };
        let expected = format!(
            "{:7} {:width$} {:10} {:17} {:15} {:8} {:6} {}",
            "Name", r.name, "Content", r.content, "Proxy Status", proxy, "TTL", r.ttl,
            width = width
        );
        assert_eq!(lines[k], expected);
    }
    assert_eq!(ids, vec!["i1".to_string(), "i2".to_string()]);
    assert_eq!(defaults, vec![false, false]);
}

#[test]
fn selection_of_nothing_is_empty() {
    let ((lines, ids), defaults) = create_selection_list(&vec![]);
    assert!(lines.is_empty() && ids.is_empty() && defaults.is_empty());
}

#[test]
fn escaped_slashes_are_written_plainly() {
    assert_eq!(unescape_slashes("a\\/b\\/"), "a/b/");
    assert_eq!(unescape_slashes("\\\\/"), "\\/");
    assert_eq!(unescape_slashes("\\"), "\\");
    assert_eq!(unescape_slashes(""), "");
}

#[test]
fn config_text_is_laid_out_with_tabs() {
    let text = config_file_text("{\"log_folder_path\":\"\\/home\\/me\",\"n\":[1,2]}");
    assert_eq!(text, "{\n\t\"log_folder_path\": \"/home/me\",\n\t\"n\": [\n\t\t1,\n\t\t2\n\t]\n}\n");
}

#[test]
fn signed_numbers() {
    assert_eq!(signed_decimal_text(-2147483648), "-2147483648");
    assert_eq!(signed_decimal_text(0), "0");
    assert_eq!(signed_decimal_text(42), "42");
}
