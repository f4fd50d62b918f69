use bilianalysis::mirror_cdn::{
    choose_cdn, is_mcdn_domain, is_mcdn_ip_port, is_mirror_cdn, is_overseas_cdn, is_proxy_tf,
    mirror_for_index, pick_mirror_china, upgrade_cdn_hostname, CdnChoice, PROXY_TF,
};
use bilianalysis::weburl::UrlParts;
use std::sync::atomic::{AtomicUsize, Ordering};

const DOMESTIC: [&str; 13] = [
    "upos-sz-mirrorali.bilivideo.com",
    "upos-sz-mirroralib.bilivideo.com",
    "upos-sz-mirroralio1.bilivideo.com",
    "upos-sz-mirrorbd.bilivideo.com",
    "upos-sz-mirrorcos.bilivideo.com",
    "upos-sz-mirrorcosb.bilivideo.com",
    "upos-sz-mirrorcoso1.bilivideo.com",
    "upos-sz-mirrorhw.bilivideo.com",
    "upos-sz-mirrorhwb.bilivideo.com",
    "upos-sz-mirrorhwo1.bilivideo.com",
    "upos-sz-mirror08c.bilivideo.com",
    "upos-sz-mirror08h.bilivideo.com",
    "upos-sz-mirror08ct.bilivideo.com",
];

fn parts(host: &str, path: &str, pairs: &[(&str, &str)]) -> UrlParts {
    UrlParts {
        host: Some(host.to_string()),
        path: path.to_string(),
        query_pairs: pairs.iter().map(|(k, v)| (k.to_string(), v.to_string())).collect(),
        serialization: String::new(),
    }
}

#[test]
fn mirror_hosts() {
    assert!(is_mirror_cdn("upos-sz-mirrorali.bilivideo.com"));
    assert!(is_mirror_cdn("upos-hz-mirrorakam.akamaized.net"));
    assert!(is_mirror_cdn("upos-bstar1-mirrorakam.akamaized.net") == false);
    assert!(is_mirror_cdn("upos-bstar-mirrorx1.bilivideo.com"));
    assert!(!is_mirror_cdn("upos-sz-mirror.bilivideo.com"));
    assert!(!is_mirror_cdn("upos-sz-mirrorAli.bilivideo.com"));
    assert!(!is_mirror_cdn("upos-sz-mirrorali.bilivideo.com.cn"));
    assert!(!is_mirror_cdn("upos-sz-estghw.bilivideo.com"));
    for host in DOMESTIC {
        assert!(is_mirror_cdn(host));
        assert!(!is_overseas_cdn(host));
        assert!(!is_proxy_tf(host));
    }
}

#[test]
fn overseas_hosts() {
    assert!(is_overseas_cdn("upos-sz-mirroraliov.bilivideo.com"));
    assert!(is_overseas_cdn("upos-sz-mirrorcosov.bilivideo.com"));
    assert!(is_overseas_cdn("upos-sz-mirrorcf01ov.bilivideo.com"));
    assert!(is_overseas_cdn("upos-sz-mirroralibstar1.bilivideo.com"));
    assert!(is_overseas_cdn("upos-hz-mirrorakam.akamaized.net"));
    assert!(is_overseas_cdn("xmirrorov.y"));
    assert!(!is_overseas_cdn("mirror-ov.y"));
    assert!(!is_overseas_cdn("mirrorov"));
    assert!(!is_overseas_cdn("cn-hncs-cm-03-08.bilivideo.com"));
}

#[test]
fn free_traffic_hosts() {
    assert!(is_proxy_tf(PROXY_TF));
    assert!(is_proxy_tf("upos-tf-x.bilivideo.com"));
    assert!(is_proxy_tf("upos-sz-mirror-tf-1.bilivideo.com"));
    assert!(!is_proxy_tf("cn-tf-x.bilivideo.com"));
    assert!(!is_proxy_tf("proxy-tf.bilivideo.com"));
    assert!(!is_proxy_tf("proxy-tf-x.bilivideo.com.cn"));
    assert!(!is_proxy_tf("proxy\n-tf-x.bilivideo.com"));
}

#[test]
fn pcdn_hosts() {
    assert!(is_mcdn_ip_port("1.2.3.4"));
    assert!(is_mcdn_ip_port("01.2.3.255"));
    assert!(is_mcdn_ip_port("+1.2.3.4"));
    assert!(!is_mcdn_ip_port("256.1.1.1"));
    assert!(!is_mcdn_ip_port("1.2.3"));
    assert!(!is_mcdn_ip_port("1.2.3.4.5"));
    assert!(!is_mcdn_ip_port("1..3.4"));
    assert!(!is_mcdn_ip_port(""));
    assert!(is_mcdn_domain("xy123x.mcdn.bilivideo.cn"));
    assert!(!is_mcdn_domain("cn-gdgz.bilivideo.com"));
}

#[test]
fn mirror_turns() {
    assert_eq!(mirror_for_index(0), DOMESTIC[0]);
    assert_eq!(mirror_for_index(14), DOMESTIC[1]);
    assert_eq!(mirror_for_index(12), DOMESTIC[12]);
    let counter = AtomicUsize::new(3);
    assert_eq!(pick_mirror_china(&counter), DOMESTIC[3]);
    assert_eq!(pick_mirror_china(&counter), DOMESTIC[4]);
    assert_eq!(counter.load(Ordering::Relaxed), 5);
    let mut seen: Vec<&str> = (0..13).map(|_| pick_mirror_china(&counter)).collect();
    seen.sort();
    let mut all = DOMESTIC.to_vec();
    all.sort();
    assert_eq!(seen, all);
}

#[test]
fn cdn_choices_in_order_of_priority() {
    assert!(matches!(choose_cdn(&parts(PROXY_TF, "/", &[])), CdnChoice::Keep));
    assert!(matches!(
        choose_cdn(&parts("upos-sz-mirroraliov.bilivideo.com", "/", &[])),
        CdnChoice::ChinaMirror
    ));
    assert!(matches!(
        choose_cdn(&parts("upos-sz-mirrorcos.bilivideo.com", "/", &[("os", "cos")])),
        CdnChoice::Keep
    ));
    assert!(matches!(
        choose_cdn(&parts("upos-sz-mirrorcoso1.bilivideo.com", "/", &[("os", "mcdn")])),
        CdnChoice::ChinaMirror
    ));
    assert!(matches!(
        choose_cdn(&parts("1.2.3.4", "/anything", &[])),
        CdnChoice::ProxyTf
    ));
    assert!(matches!(
        choose_cdn(&parts("x.mcdn.bilivideo.cn", "/v1/resource/1.m4s", &[])),
        CdnChoice::ProxyTf
    ));
    assert!(matches!(
        choose_cdn(&parts("x.mcdn.bilivideo.cn", "/upgcxcode/1.m4s", &[])),
        CdnChoice::ChinaMirror
    ));
    assert!(matches!(
        choose_cdn(&parts("cn-hncs-cm-03-08.bilivideo.com", "/", &[])),
        CdnChoice::ChinaMirror
    ));
    let no_host = UrlParts { host: None, path: String::new(), query_pairs: vec![], serialization: String::new() };
    assert!(matches!(choose_cdn(&no_host), CdnChoice::ChinaMirror));
}

#[test]
fn upgrades() {
    let counter = AtomicUsize::new(0);
    let kept = "https://proxy-tf-all-ws.bilivideo.com/v1/resource/1.m4s";
    assert_eq!(upgrade_cdn_hostname(kept, &counter), kept);
    assert_eq!(upgrade_cdn_hostname("not a url", &counter), "not a url");
    assert_eq!(
        upgrade_cdn_hostname("HTTPS://upos-sz-mirrorcos.bilivideo.com/a?os=cos", &counter),
        "https://upos-sz-mirrorcos.bilivideo.com/a?os=cos"
    );
    assert_eq!(counter.load(Ordering::Relaxed), 0);
    assert_eq!(
        upgrade_cdn_hostname("http://1.2.3.4:4480/v1/resource/xx.m4s?a=1", &counter),
        "http://proxy-tf-all-ws.bilivideo.com:4480/v1/resource/xx.m4s?a=1"
    );
    assert_eq!(
        upgrade_cdn_hostname("https://cn-hncs-cm-03-08.bilivideo.com/upgcxcode/x.m4s?e=1", &counter),
        "https://upos-sz-mirrorali.bilivideo.com/upgcxcode/x.m4s?e=1"
    );
    assert_eq!(
        upgrade_cdn_hostname("https://upos-sz-mirrorcoso1.bilivideo.com/v?os=mcdn", &counter),
        "https://upos-sz-mirroralib.bilivideo.com/v?os=mcdn"
    );
    assert_eq!(
        upgrade_cdn_hostname("https://upos-hz-mirrorakam.akamaized.net/v", &counter),
        "https://upos-sz-mirroralio1.bilivideo.com/v"
    );
    assert_eq!(counter.load(Ordering::Relaxed), 3);
    // The query is read decoded: `m%63dn` is `mcdn`.
    assert_eq!(
        upgrade_cdn_hostname("https://upos-sz-mirrorhw.bilivideo.com:443/v?os=m%63dn#t", &counter),
        "https://upos-sz-mirrorbd.bilivideo.com/v?os=m%63dn#t"
    );
}

#[test]
fn upgrade_targets_are_kept() {
    for host in DOMESTIC {
        assert!(matches!(choose_cdn(&parts(host, "/v1/resource/x", &[("os", "cos")])), CdnChoice::Keep));
        assert!(matches!(
            choose_cdn(&parts(host, "/", &[("os", "mcdn")])),
            CdnChoice::ChinaMirror
        ));
    }
    assert!(matches!(choose_cdn(&parts(PROXY_TF, "/v1/resource/x", &[("os", "mcdn")])), CdnChoice::Keep));
    let counter = AtomicUsize::new(7);
    let once = upgrade_cdn_hostname("https://cn-sccd-ct-01-02.bilivideo.com/x.m4s?os=bcache", &counter);
    let twice = upgrade_cdn_hostname(&once, &counter);
    assert_eq!(once, twice);
    assert_eq!(counter.load(Ordering::Relaxed), 8);
}
