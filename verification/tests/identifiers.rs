use bilianalysis::bilibili::{
    check_api_response, extract_cache_key, extract_live_room_id, extract_video_info,
    is_bare_id, is_bilibili_domain, validate_bilibili_url, ApiStatus,
};
use bilianalysis::bvid::av2bv;
use bilianalysis::text::{i64_to_decimal, usize_to_decimal};

#[test]
fn av2bv_known_pairs() {
    assert_eq!(av2bv("170001").unwrap(), "BV17x411w7KC");
    assert_eq!(av2bv("av170001").unwrap(), "BV17x411w7KC");
    assert_eq!(av2bv("455017605").unwrap(), "BV1Q541167Qg");
    assert_eq!(av2bv("882584971").unwrap(), "BV1mK4y1C7Bz");
    assert_eq!(av2bv("+1").unwrap(), "BV1xx411c7mQ");
}

#[test]
fn av2bv_edges_of_the_number_range() {
    assert_eq!(av2bv("0").unwrap(), "BV1xx411c7mX");
    assert_eq!(av2bv("2251799813685247").unwrap(), "BV1aPPTfmvQq");
    // Above the valid range the identifier repeats that of a smaller number.
    assert_eq!(av2bv("2251799813685248").unwrap(), "BV1xx411c7mX");
    // Large numbers overwrite the leading `BV` as well.
    assert_eq!(
        av2bv("340282366920938463463374607431768211455").unwrap(),
        "sfS5xTx9tC1G"
    );
}

#[test]
fn av2bv_rejects_what_is_no_number() {
    assert_eq!(av2bv("abc").unwrap_err(), "invalid AV number: abc");
    assert_eq!(av2bv("av").unwrap_err(), "invalid AV number: av");
    assert_eq!(av2bv("").unwrap_err(), "invalid AV number: ");
    assert_eq!(av2bv("-5").unwrap_err(), "invalid AV number: -5");
    assert_eq!(
        av2bv("340282366920938463463374607431768211456").unwrap_err(),
        "invalid AV number: 340282366920938463463374607431768211456"
    );
}

#[test]
fn bilibili_domains() {
    assert!(is_bilibili_domain("bilibili.com"));
    assert!(is_bilibili_domain("www.bilibili.com"));
    assert!(is_bilibili_domain("live.bilibili.com"));
    assert!(!is_bilibili_domain("evilbilibili.com"));
    assert!(!is_bilibili_domain("bilibili.com.evil.org"));
    assert!(!is_bilibili_domain(""));
}

#[test]
fn validation_of_links() {
    assert_eq!(validate_bilibili_url("https://www.bilibili.com/video/BV17x411w7KC"), Ok(()));
    assert_eq!(
        validate_bilibili_url("https://example.com/video/BV17x411w7KC").unwrap_err(),
        "URL hostname 'example.com' is not bilibili.com"
    );
    assert_eq!(
        validate_bilibili_url("not a link").unwrap_err(),
        "invalid URL: relative URL without a base"
    );
    assert_eq!(
        validate_bilibili_url("mailto:someone@bilibili.com").unwrap_err(),
        "URL has no hostname"
    );
}

#[test]
fn bare_identifiers() {
    assert!(is_bare_id("BV17x411w7KC"));
    assert!(is_bare_id("bv1"));
    assert!(is_bare_id("BV"));
    assert!(is_bare_id("av170001"));
    assert!(is_bare_id("AV170001"));
    assert!(is_bare_id("aV1"));
    assert!(!is_bare_id("av"));
    assert!(!is_bare_id("av12a"));
    assert!(!is_bare_id("Bv17"));
    assert!(!is_bare_id("https://www.bilibili.com/video/BV17x411w7KC"));
    assert!(!is_bare_id(""));
}

#[test]
fn video_info_from_links() {
    let v = extract_video_info("https://www.bilibili.com/video/BV17x411w7KC?p=3").unwrap();
    assert_eq!(v.bvid, "BV17x411w7KC");
    assert_eq!(v.page, 3);
    let v = extract_video_info("https://www.bilibili.com/video/BV17x411w7KC?p=0").unwrap();
    assert_eq!(v.page, 1);
    let v = extract_video_info("https://www.bilibili.com/video/av170001/?spm=1&p=2").unwrap();
    assert_eq!(v.bvid, "BV17x411w7KC");
    assert_eq!(v.page, 2);
    let v = extract_video_info("BV17x411w7KC?p=99999999999999999999999").unwrap();
    assert_eq!(v.page, 1);
    // The first BV identifier wins over an AV number.
    let v = extract_video_info("av170001 BV1Q541167Qg").unwrap();
    assert_eq!(v.bvid, "BV1Q541167Qg");
    assert_eq!(
        extract_video_info("https://www.bilibili.com/").unwrap_err(),
        "Cannot find BV/AV ID"
    );
}

#[test]
fn unicode_digits_follow_the_regex_digit_class() {
    // `\d` takes Arabic-Indic digits, which the number parser then refuses.
    assert_eq!(
        extract_video_info("https://www.bilibili.com/video/av\u{661}\u{662}").unwrap_err(),
        "invalid AV number: \u{661}\u{662}"
    );
    // A page in such digits does not parse and counts as page 1.
    let v = extract_video_info("BV17x411w7KC?p=\u{663}&p=2").unwrap();
    assert_eq!(v.page, 1);
}

#[test]
fn live_room_ids() {
    assert_eq!(
        extract_live_room_id("https://live.bilibili.com/12345?spm=1").as_deref(),
        Some("12345")
    );
    assert_eq!(
        extract_live_room_id("https://live.bilibili.com/blanc/678").as_deref(),
        Some("678")
    );
    assert_eq!(extract_live_room_id("https://live.bilibili.com/blanc/x"), None);
    assert_eq!(extract_live_room_id("https://live.bilibili.com/"), None);
}

#[test]
fn cache_keys() {
    assert_eq!(extract_cache_key("BV17x411w7KC").unwrap(), "vid:BV17x411w7KC:1");
    assert_eq!(extract_cache_key("  av170001 \n").unwrap(), "vid:BV17x411w7KC:1");
    assert_eq!(
        extract_cache_key("\u{3000}https://www.bilibili.com/video/av170001?p=12").unwrap(),
        "vid:BV17x411w7KC:12"
    );
    assert_eq!(extract_cache_key("https://live.bilibili.com/123").unwrap(), "live:123");
    assert_eq!(
        extract_cache_key("https://live.bilibili.com/abc").unwrap_err(),
        "Cannot find live room ID"
    );
    assert_eq!(
        extract_cache_key("https://example.com/video/BV17x411w7KC").unwrap_err(),
        "URL hostname 'example.com' is not bilibili.com"
    );
    assert_eq!(
        extract_cache_key("nonsense").unwrap_err(),
        "invalid URL: relative URL without a base"
    );
    assert_eq!(extract_cache_key("bv").unwrap_err(), "Cannot find BV/AV ID");
}

#[test]
fn whitespace_around_a_request_is_ignored() {
    let plain = extract_cache_key("https://www.bilibili.com/video/BV1Q541167Qg?p=4");
    let padded = extract_cache_key(" \t https://www.bilibili.com/video/BV1Q541167Qg?p=4 \r\n");
    assert_eq!(plain, padded);
}

#[test]
fn api_status_checks() {
    assert_eq!(check_api_response(&ApiStatus { code: Some(0), message: None }), Ok(()));
    assert_eq!(check_api_response(&ApiStatus { code: None, message: Some("x".into()) }), Ok(()));
    assert_eq!(
        check_api_response(&ApiStatus { code: Some(-404), message: Some("啥都木有".into()) })
            .unwrap_err(),
        "API error (code=-404): 啥都木有"
    );
    assert_eq!(
        check_api_response(&ApiStatus { code: Some(62002), message: None }).unwrap_err(),
        "API error (code=62002): unknown error"
    );
}

#[test]
fn decimal_text() {
    assert_eq!(usize_to_decimal(0), "0");
    assert_eq!(usize_to_decimal(1234567), "1234567");
    assert_eq!(i64_to_decimal(-404), "-404");
    assert_eq!(i64_to_decimal(i64::MIN), "-9223372036854775808");
    assert_eq!(i64_to_decimal(i64::MAX), "9223372036854775807");
}

#[test]
fn distinct_av_numbers_have_distinct_bv_ids() {
    let mut ids: Vec<String> = (0u64..3000).map(|n| av2bv(&n.to_string()).unwrap()).collect();
    ids.extend(
        (2251799813682248u64..2251799813685248).map(|n| av2bv(&n.to_string()).unwrap()),
    );
    for id in &ids {
        assert_eq!(id.chars().count(), 12);
        assert!(id.starts_with("BV1"));
    }
    let count = ids.len();
    ids.sort();
    ids.dedup();
    assert_eq!(ids.len(), count);
}

#[test]
fn all_forms_of_one_video_share_a_cache_key() {
    for n in ["170001", "1", "455017605", "2251799813685247"] {
        let b = av2bv(n).unwrap();
        let key = format!("vid:{}:1", b);
        assert_eq!(extract_cache_key(&format!("av{n}")).unwrap(), key);
        assert_eq!(extract_cache_key(&format!("AV{n}")).unwrap(), key);
        assert_eq!(extract_cache_key(&b).unwrap(), key);
        assert_eq!(extract_cache_key(&format!("https://www.bilibili.com/video/av{n}")).unwrap(), key);
        assert_eq!(extract_cache_key(&format!("https://www.bilibili.com/video/{b}")).unwrap(), key);
    }
}
