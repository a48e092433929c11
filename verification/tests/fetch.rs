use autothesis::fetch::{
    check_parsed_url, check_resolved_addresses, check_url_with_resolution, is_disallowed_v4, page_from_parts, ParsedUrl, UrlHost, is_disallowed_v6, page_from_html,
    validate_external_url, IpAddress, UrlCheck, UrlError,
};

#[test]
fn rejects_non_http_schemes() {
    assert!(validate_external_url("file:///etc/passwd").is_err());
    assert!(validate_external_url("ftp://example.com").is_err());
    assert!(validate_external_url("gopher://example.com").is_err());
}

#[test]
fn rejects_loopback_and_private_ips() {
    assert!(validate_external_url("http://127.0.0.1/").is_err());
    assert!(validate_external_url("http://10.0.0.1/").is_err());
    assert!(validate_external_url("http://192.168.1.1/").is_err());
    assert!(validate_external_url("http://169.254.169.254/").is_err());
    assert!(validate_external_url("http://[::1]/").is_err());
}

#[test]
fn accepts_public_hosts() {
    assert!(validate_external_url("https://example.com/path").is_ok());
    assert!(validate_external_url("http://8.8.8.8/").is_ok());
}

#[test]
fn domain_hosts_are_handed_back_with_their_port() {
    match validate_external_url("https://example.com/path") {
        Ok(UrlCheck::ResolveDomain { domain, port }) => {
            assert_eq!(domain, "example.com");
            assert_eq!(port, 443);
        }
        _ => panic!("expected a domain to resolve"),
    }
    match validate_external_url("http://example.com:8080/") {
        Ok(UrlCheck::ResolveDomain { port, .. }) => assert_eq!(port, 8080),
        _ => panic!("expected a domain to resolve"),
    }
    assert!(matches!(validate_external_url("http://8.8.8.8/"), Ok(UrlCheck::Allowed)));
}

#[test]
fn reports_each_kind_of_url_error() {
    assert!(matches!(validate_external_url("not a url"), Err(UrlError::Invalid)));
    match validate_external_url("ftp://example.com") {
        Err(UrlError::DisallowedScheme(s)) => assert_eq!(s, "ftp"),
        _ => panic!("expected a scheme error"),
    }
    assert!(matches!(validate_external_url("http://100.64.0.1/"), Err(UrlError::DisallowedAddress)));
    assert!(matches!(validate_external_url("http://[::ffff:10.0.0.1]/"), Err(UrlError::DisallowedAddress)));
    assert!(matches!(validate_external_url("http://[fe80::1]/"), Err(UrlError::DisallowedAddress)));
    assert!(matches!(validate_external_url("http://[2606:4700::1111]/"), Ok(UrlCheck::Allowed)));
}

#[test]
fn classifies_address_ranges() {
    assert!(is_disallowed_v4(&[172, 16, 0, 1]));
    assert!(is_disallowed_v4(&[172, 31, 255, 255]));
    assert!(!is_disallowed_v4(&[172, 32, 0, 1]));
    assert!(is_disallowed_v4(&[224, 0, 0, 1]));
    assert!(is_disallowed_v4(&[255, 255, 255, 255]));
    assert!(is_disallowed_v4(&[192, 0, 2, 7]));
    assert!(is_disallowed_v4(&[0, 0, 0, 0]));
    assert!(!is_disallowed_v4(&[1, 1, 1, 1]));
    assert!(is_disallowed_v6(&[0, 0, 0, 0, 0, 0, 0, 0]));
    assert!(is_disallowed_v6(&[0xfd00, 0, 0, 0, 0, 0, 0, 1]));
    assert!(is_disallowed_v6(&[0xff02, 0, 0, 0, 0, 0, 0, 1]));
    assert!(!is_disallowed_v6(&[0x2001, 0x4860, 0, 0, 0, 0, 0, 0x8888]));
}

#[test]
fn resolved_addresses_are_checked() {
    assert!(check_resolved_addresses(&vec![IpAddress::V4([93, 184, 216, 34])]).is_ok());
    assert!(check_resolved_addresses(&vec![]).is_ok());
    assert!(matches!(
        check_resolved_addresses(&vec![IpAddress::V4([8, 8, 8, 8]), IpAddress::V4([127, 0, 0, 1])]),
        Err(UrlError::DisallowedAddress)
    ));
    assert!(check_resolved_addresses(&vec![IpAddress::V6([0, 0, 0, 0, 0, 0, 0, 1])]).is_err());
}

#[test]
fn builds_page_records_from_html() {
    let body = "<html><head><title>  Hello \n  World </title></head><body><p>Some   text</p>\n<p>more</p></body></html>";
    let page = page_from_html("https://www.example.com/a", body);
    assert_eq!(page.url, "https://www.example.com/a");
    assert_eq!(page.title.as_deref(), Some("Hello World"));
    assert_eq!(page.domain.as_deref(), Some("www.example.com"));
    assert!(page.text.contains("Some text"), "text: {}", page.text);
    assert!(page.text.contains("more"), "text: {}", page.text);
    assert!(!page.text.contains("  "));

    let untitled = page_from_html("http://10.1.2.3/", "<html><body>x</body></html>");
    assert_eq!(untitled.title, None);
    assert_eq!(untitled.domain, None);
    assert_eq!(untitled.text, "x");

    let blank = page_from_html("https://example.com", "<title>   </title>");
    assert_eq!(blank.title, None);

    let long = format!("<p>{}</p>", "a".repeat(20000));
    assert_eq!(page_from_html("https://example.com", &long).text.chars().count(), 16000);
}

#[test]
fn text_nodes_of_separate_tags_stay_separate_words() {
    let page = page_from_html("https://example.com", "<title>A<b>B</b></title><p>one</p><p>two</p>");
    assert_eq!(page.title.as_deref(), Some("A<b>B</b>"));
    assert!(page.text.contains("one two"), "text: {}", page.text);
}

#[test]
fn domains_are_judged_by_their_resolved_addresses() {
    let private = vec![IpAddress::V4([10, 0, 0, 1])];
    let public = vec![IpAddress::V4([93, 184, 216, 34])];
    assert!(matches!(
        check_url_with_resolution("https://example.com/a", &private),
        Err(UrlError::DisallowedAddress)
    ));
    assert!(check_url_with_resolution("https://example.com/a", &public).is_ok());
    assert!(check_url_with_resolution("https://example.com/a", &Vec::new()).is_ok());
    assert!(matches!(
        check_url_with_resolution("http://127.0.0.1/", &public),
        Err(UrlError::DisallowedAddress)
    ));
    assert!(matches!(
        check_url_with_resolution("ftp://example.com", &public),
        Err(UrlError::DisallowedScheme(_))
    ));
    assert!(matches!(check_url_with_resolution("not a url", &public), Err(UrlError::Invalid)));
}

#[test]
fn pages_are_built_from_parsed_parts() {
    let parsed = ParsedUrl {
        scheme: "https".to_string(),
        host: Some(UrlHost::Domain("example.org".to_string())),
        port: Some(443),
    };
    let page = page_from_parts(
        "https://example.org/x",
        Some(parsed),
        Some(vec!["  My ".to_string(), " Title".to_string()]),
        vec!["one".to_string(), "two\n".to_string(), "  three".to_string()],
    );
    assert_eq!(page.url, "https://example.org/x");
    assert_eq!(page.domain.as_deref(), Some("example.org"));
    assert_eq!(page.title.as_deref(), Some("My Title"));
    assert_eq!(page.text, "one two three");
    let bare = page_from_parts("x", None, Some(vec!["   ".to_string()]), vec![]);
    assert_eq!(bare.title, None);
    assert_eq!(bare.domain, None);
    assert_eq!(bare.text, "");
}

#[test]
fn parsed_urls_are_checked() {
    assert!(matches!(check_parsed_url(None), Err(UrlError::Invalid)));
    let domain = ParsedUrl { scheme: "http".to_string(), host: Some(UrlHost::Domain("a.b".to_string())), port: None };
    assert!(matches!(
        check_parsed_url(Some(domain)),
        Ok(UrlCheck::ResolveDomain { ref domain, port: 80 }) if domain == "a.b"
    ));
    let ftp = ParsedUrl { scheme: "ftp".to_string(), host: None, port: Some(21) };
    assert!(matches!(check_parsed_url(Some(ftp)), Err(UrlError::DisallowedScheme(ref s)) if s == "ftp"));
    let loopback = ParsedUrl { scheme: "https".to_string(), host: Some(UrlHost::Ipv4([127, 0, 0, 1])), port: Some(443) };
    assert!(matches!(check_parsed_url(Some(loopback)), Err(UrlError::DisallowedAddress)));
}
