use tzupdate::service::{request_url, services};

#[test]
fn an_empty_address_asks_for_the_sender() {
    assert_eq!(request_url("https://ipapi.co/{ip}/json/", ""), "https://ipapi.co//json/");
    assert_eq!(request_url("https://ipwho.is/{ip}", ""), "https://ipwho.is/");
}

#[test]
fn the_address_takes_the_place_of_the_placeholder() {
    assert_eq!(
        request_url("https://ipapi.co/{ip}/json/", "203.0.113.7"),
        "https://ipapi.co/203.0.113.7/json/"
    );
    assert_eq!(request_url("https://ipwho.is/{ip}", "2001:db8::1"), "https://ipwho.is/2001:db8::1");
    assert_eq!(request_url("{ip}", "x"), "x");
}

#[test]
fn every_placeholder_is_filled() {
    assert_eq!(request_url("{ip}{ip}/{ip}", "ab"), "abab/ab");
    assert_eq!(request_url("a{ip}b{ip}", ""), "ab");
}

#[test]
fn text_that_only_looks_like_the_placeholder_stays() {
    assert_eq!(request_url("https://example.org/", "203.0.113.7"), "https://example.org/");
    assert_eq!(request_url("{ip", "x"), "{ip");
    assert_eq!(request_url("ip}", "x"), "ip}");
    assert_eq!(request_url("{{ip}}", "x"), "{x}");
    assert_eq!(request_url("{i{ip}p}", "x"), "{ixp}");
    assert_eq!(request_url("", "x"), "");
    assert_eq!(request_url("{IP}", "x"), "{IP}");
}

#[test]
fn a_filled_in_placeholder_is_not_filled_again() {
    assert_eq!(request_url("a{ip}b", "{ip}"), "a{ip}b");
    assert_eq!(request_url("{{ip}ip}", "{ip}"), "{{ip}ip}");
}

#[test]
fn characters_outside_ascii_are_kept() {
    assert_eq!(request_url("https://例え.jp/{ip}?é", "ü"), "https://例え.jp/ü?é");
}

#[test]
fn filling_agrees_with_replacing() {
    for service in services() {
        for ip in ["", "203.0.113.7", "2001:db8::1"] {
            assert_eq!(request_url(service.url, ip), service.url.replace("{ip}", ip));
        }
    }
}

#[test]
fn seven_services_are_asked() {
    let list = services();
    assert_eq!(list.len(), 7);
    let urls: Vec<&str> = list.iter().map(|service| service.url).collect();
    assert_eq!(
        urls,
        vec![
            "https://geoip.chrisdown.name/{ip}",
            "https://api.ipbase.com/v1/json/{ip}",
            "https://ipapi.co/{ip}/json/",
            "https://worldtimeapi.org/api/ip/{ip}",
            "https://reallyfreegeoip.org/json/{ip}",
            "https://ipwho.is/{ip}",
            "https://ipinfo.io/{ip}/json",
        ]
    );
    let keys: Vec<Vec<&str>> = list.iter().map(|service| service.tz_keys.clone()).collect();
    assert_eq!(
        keys,
        vec![
            vec!["location", "time_zone"],
            vec!["time_zone"],
            vec!["timezone"],
            vec!["timezone"],
            vec!["time_zone"],
            vec!["timezone", "id"],
            vec!["timezone"],
        ]
    );
}

#[test]
fn every_service_has_a_placeholder_and_keys() {
    for service in services() {
        assert!(service.url.contains("{ip}"));
        assert!(service.url.starts_with("https://"));
        assert!(!service.tz_keys.is_empty());
    }
}
