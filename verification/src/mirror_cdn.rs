//! Classification of Bilibili CDN hosts and the choice of a better host for
//! a stream URL.
use vstd::prelude::*;
use crate::text::{
    chars_eq, contains, contains_seq, ends_with, has_prefix, has_suffix, matches_at, occurs_at,
    parse_unsigned, starts_with, string_option, to_chars, unsigned_value,
};
use crate::weburl::{parse_url, spec_parse_url, spec_url_with_host, url_with_host, UrlParts};

verus! {

/// The free-traffic proxy host that resource paths of PCDN hosts are sent to.
pub const PROXY_TF: &'static str = "proxy-tf-all-ws.bilivideo.com";

pub open spec fn is_lower_alnum(c: char) -> bool {
    ('0' <= c && c <= '9') || ('a' <= c && c <= 'z')
}

pub open spec fn all_lower_alnum(s: Seq<char>) -> bool {
    forall|i: int| 0 <= i < s.len() ==> is_lower_alnum(#[trigger] s[i])
}

fn lower_alnum(c: char) -> (b: bool)
    ensures
        b == is_lower_alnum(c),
{
    ('0' <= c && c <= '9') || ('a' <= c && c <= 'z')
}

/// `upos-<zone>-mirror<tag>.<domain>` with a non-empty tag of ASCII
/// lower-case letters and digits.
pub open spec fn mirror_host_in(host: Seq<char>, zone: Seq<char>, domain: Seq<char>) -> bool {
    let pre = "upos-"@ + zone + "-mirror"@;
    let suf = "."@ + domain;
    &&& has_prefix(host, pre)
    &&& has_suffix(host, suf)
    &&& pre.len() + suf.len() < host.len()
    &&& all_lower_alnum(host.subrange(pre.len() as int, host.len() - suf.len()))
}

/// `host` matches `^upos-(sz|hz|bstar)-mirror([0-9a-z]+)\.(bilivideo\.com|akamaized\.net)$`.
pub open spec fn mirror_host(host: Seq<char>) -> bool {
    ||| mirror_host_in(host, "sz"@, "bilivideo.com"@)
    ||| mirror_host_in(host, "sz"@, "akamaized.net"@)
    ||| mirror_host_in(host, "hz"@, "bilivideo.com"@)
    ||| mirror_host_in(host, "hz"@, "akamaized.net"@)
    ||| mirror_host_in(host, "bstar"@, "bilivideo.com"@)
    ||| mirror_host_in(host, "bstar"@, "akamaized.net"@)
}

fn mirror_host_with(h: &[char], pre: &[char], suf: &[char]) -> (b: bool)
    ensures
        b == {
            &&& has_prefix(h@, pre@)
            &&& has_suffix(h@, suf@)
            &&& pre@.len() + suf@.len() < h@.len()
            &&& all_lower_alnum(h@.subrange(pre@.len() as int, h@.len() - suf@.len()))
        },
{
    if !starts_with(h, pre) || !ends_with(h, suf) || pre.len() >= h.len() || suf.len() >= h.len()
        - pre.len() {
        return false;
    }
    let end = h.len() - suf.len();
    let mut i: usize = pre.len();
    while i < end
        invariant
            pre@.len() <= i <= end == h@.len() - suf@.len(),
            forall|k: int| pre@.len() <= k < i ==> is_lower_alnum(#[trigger] h@[k]),
        decreases end - i,
    {
        if !lower_alnum(h[i]) {
            assert(h@.subrange(pre@.len() as int, end as int)[i - pre@.len()] == h@[i as int]);
            return false;
        }
        i += 1;
    }
    assert forall|k: int|
        0 <= k < h@.subrange(pre@.len() as int, end as int).len() implies is_lower_alnum(
        #[trigger] h@.subrange(pre@.len() as int, end as int)[k],
    ) by {
        assert(h@.subrange(pre@.len() as int, end as int)[k] == h@[k + pre@.len()]);
    }
    true
}

pub fn is_mirror_cdn(hostname: &str) -> (b: bool)
    ensures
        b == mirror_host(hostname@),
{
    let h = to_chars(hostname);
    let bili = to_chars(".bilivideo.com");
    let akam = to_chars(".akamaized.net");
    let sz = to_chars("upos-sz-mirror");
    let hz = to_chars("upos-hz-mirror");
    let bstar = to_chars("upos-bstar-mirror");
    proof {
        reveal_strlit(".bilivideo.com");
        reveal_strlit(".akamaized.net");
        reveal_strlit("upos-sz-mirror");
        reveal_strlit("upos-hz-mirror");
        reveal_strlit("upos-bstar-mirror");
        reveal_strlit(".");
        reveal_strlit("bilivideo.com");
        reveal_strlit("akamaized.net");
        reveal_strlit("upos-");
        reveal_strlit("-mirror");
        reveal_strlit("sz");
        reveal_strlit("hz");
        reveal_strlit("bstar");
        assert("upos-"@ + "sz"@ + "-mirror"@ =~= sz@);
        assert("upos-"@ + "hz"@ + "-mirror"@ =~= hz@);
        assert("upos-"@ + "bstar"@ + "-mirror"@ =~= bstar@);
        assert("."@ + "bilivideo.com"@ =~= bili@);
        assert("."@ + "akamaized.net"@ =~= akam@);
    }
    mirror_host_with(&h, &sz, &bili) || mirror_host_with(&h, &sz, &akam) || mirror_host_with(
        &h,
        &hz,
        &bili,
    ) || mirror_host_with(&h, &hz, &akam) || mirror_host_with(&h, &bstar, &bili)
        || mirror_host_with(&h, &bstar, &akam)
}

/// At `i` stands `mirror`, then ASCII lower-case letters and digits, then
/// `ov.`: a match of `mirror[a-z0-9]*ov\.`.
pub open spec fn overseas_mark_at(host: Seq<char>, i: int) -> bool {
    &&& occurs_at(host, "mirror"@, i)
    &&& exists|k: int|
        i + 6 <= k && all_lower_alnum(#[trigger] host.subrange(i + 6, k)) && occurs_at(
            host,
            "ov."@,
            k,
        )
}

/// `host` is an overseas CDN host: it matches `mirror[a-z0-9]*ov\.`,
/// contains `mirrorcf` or `bstar`, or ends with `akamaized.net`.
pub open spec fn overseas_host(host: Seq<char>) -> bool {
    ||| exists|i: int| overseas_mark_at(host, i)
    ||| contains_seq(host, "mirrorcf"@)
    ||| contains_seq(host, "bstar"@)
    ||| has_suffix(host, "akamaized.net"@)
}

/// The end of the run of ASCII lower-case letters and digits from `j`.
fn lower_alnum_run_end(h: &[char], j: usize) -> (e: usize)
    requires
        j <= h@.len(),
    ensures
        j <= e <= h@.len(),
        forall|m: int| j <= m < e ==> is_lower_alnum(#[trigger] h@[m]),
        e == h@.len() || !is_lower_alnum(h@[e as int]),
{
    let mut e: usize = j;
    while e < h.len() && lower_alnum(h[e])
        invariant
            j <= e <= h@.len(),
            forall|m: int| j <= m < e ==> is_lower_alnum(#[trigger] h@[m]),
        decreases h@.len() - e,
    {
        e += 1;
    }
    e
}

fn has_overseas_mark(h: &[char]) -> (b: bool)
    ensures
        b == exists|i: int| overseas_mark_at(h@, i),
{
    let mirror = to_chars("mirror");
    let ov = to_chars("ov.");
    proof {
        reveal_strlit("mirror");
        reveal_strlit("ov.");
    }
    assert(mirror@.len() == 6);
    assert(ov@ =~= seq!['o', 'v', '.']);
    let mut i: usize = 0;
    while i < h.len()
        invariant
            i <= h@.len(),
            mirror@ == "mirror"@,
            mirror@.len() == 6,
            ov@ == "ov."@,
            ov@ =~= seq!['o', 'v', '.'],
            forall|j: int| 0 <= j < i ==> !overseas_mark_at(h@, j),
        decreases h@.len() - i,
    {
        if matches_at(h, &mirror, i) {
            let e = lower_alnum_run_end(h, i + 6);
            if e - i >= 8 && matches_at(h, &ov, e - 2) {
                assert(all_lower_alnum(h@.subrange(i + 6, e - 2)));
                assert(overseas_mark_at(h@, i as int));
                return true;
            }
            assert(!overseas_mark_at(h@, i as int)) by {
                if overseas_mark_at(h@, i as int) {
                    let k = choose|k: int|
                        i + 6 <= k && all_lower_alnum(#[trigger] h@.subrange(i + 6, k))
                            && occurs_at(h@, "ov."@, k);
                    assert(h@.subrange(k, k + 3)[0] == h@[k]);
                    assert(h@.subrange(k, k + 3)[1] == h@[k + 1]);
                    assert(h@.subrange(k, k + 3)[2] == h@[k + 2]);
                    assert forall|m: int| i + 6 <= m < k + 2 implies is_lower_alnum(h@[m]) by {
                        if m < k {
                            assert(h@.subrange(i + 6, k)[m - (i + 6)] == h@[m]);
                        }
                    }
                    if e < k + 2 {
                        assert(is_lower_alnum(h@[e as int]));
                    }
                    assert(e == k + 2);
                    assert(h@.subrange(e - 2, e + 1) =~= ov@);
                }
            }
        }
        i += 1;
    }
    assert forall|j: int| !overseas_mark_at(h@, j) by {
        if 0 <= j < i {
        } else if overseas_mark_at(h@, j) {
        }
    }
    false
}

pub fn is_overseas_cdn(hostname: &str) -> (b: bool)
    ensures
        b == overseas_host(hostname@),
{
    let h = to_chars(hostname);
    has_overseas_mark(&h) || contains(&h, &to_chars("mirrorcf")) || contains(
        &h,
        &to_chars("bstar"),
    ) || ends_with(&h, &to_chars("akamaized.net"))
}

pub open spec fn no_newline(s: Seq<char>) -> bool {
    forall|i: int| 0 <= i < s.len() ==> #[trigger] s[i] != '\n'
}

/// After the leading `upos` or `proxy` (which ends at `p`), `-tf-` stands
/// at `k`, and neither gap around it holds a line break.
pub open spec fn proxy_tf_split(host: Seq<char>, p: int, k: int) -> bool {
    &&& p <= k
    &&& k + 4 + 14 <= host.len()
    &&& occurs_at(host, "-tf-"@, k)
    &&& no_newline(host.subrange(p, k))
    &&& no_newline(host.subrange(k + 4, host.len() - 14))
}

/// `host` matches `^(upos|proxy).*-tf-.*\.bilivideo\.com$`.
pub open spec fn proxy_tf_host(host: Seq<char>) -> bool {
    &&& has_suffix(host, ".bilivideo.com"@)
    &&& exists|p: int, k: int|
        ((p == 4 && has_prefix(host, "upos"@)) || (p == 5 && has_prefix(host, "proxy"@)))
            && #[trigger] proxy_tf_split(host, p, k)
}

pub fn is_proxy_tf(hostname: &str) -> (b: bool)
    ensures
        b == proxy_tf_host(hostname@),
{
    let h = to_chars(hostname);
    let upos = to_chars("upos");
    let proxy = to_chars("proxy");
    let suffix = to_chars(".bilivideo.com");
    let tf = to_chars("-tf-");
    proof {
        reveal_strlit("upos");
        reveal_strlit("proxy");
        reveal_strlit(".bilivideo.com");
        reveal_strlit("-tf-");
    }
    assert(upos@ =~= seq!['u', 'p', 'o', 's']);
    assert(proxy@ =~= seq!['p', 'r', 'o', 'x', 'y']);
    assert(suffix@.len() == 14);
    assert(tf@ =~= seq!['-', 't', 'f', '-']);
    if !ends_with(&h, &suffix) {
        return false;
    }
    let p: usize = if starts_with(&h, &upos) {
        4
    } else if starts_with(&h, &proxy) {
        5
    } else {
        assert(!proxy_tf_host(h@)) by {
            if proxy_tf_host(h@) {
                let (p, k) = choose|p: int, k: int|
                    ((p == 4 && has_prefix(h@, "upos"@)) || (p == 5 && has_prefix(h@, "proxy"@)))
                        && #[trigger] proxy_tf_split(h@, p, k);
            }
        }
        return false;
    };
    assert(p == 4 ==> has_prefix(h@, "upos"@));
    assert(p == 5 ==> has_prefix(h@, "proxy"@) && !has_prefix(h@, "upos"@));
    if h.len() < p + 18 {
        assert(!proxy_tf_host(h@)) by {
            if proxy_tf_host(h@) {
                let (q, k) = choose|q: int, k: int|
                    ((q == 4 && has_prefix(h@, "upos"@)) || (q == 5 && has_prefix(h@, "proxy"@)))
                        && #[trigger] proxy_tf_split(h@, q, k);
                if q == 5 && p == 4 {
                    assert(h@.subrange(0, 4)[0] == h@.subrange(0, 5)[0]);
                }
            }
        }
        return false;
    }
    let end = h.len() - 14;
    let mut m: usize = p;
    while m < end
        invariant
            p <= m <= end == h@.len() - 14,
            "upos"@ =~= seq!['u', 'p', 'o', 's'],
            "proxy"@ =~= seq!['p', 'r', 'o', 'x', 'y'],
            p == 4 ==> has_prefix(h@, "upos"@),
            p == 5 ==> has_prefix(h@, "proxy"@) && !has_prefix(h@, "upos"@),
            p == 4 || p == 5,
            h@ == hostname@,
            "-tf-"@ =~= seq!['-', 't', 'f', '-'],
            forall|j: int| p <= j < m ==> #[trigger] h@[j] != '\n',
        decreases end - m,
    {
        if h[m] == '\n' {
            assert(!proxy_tf_host(h@)) by {
                if proxy_tf_host(h@) {
                    let (q, k) = choose|q: int, k: int|
                        ((q == 4 && has_prefix(h@, "upos"@)) || (q == 5 && has_prefix(
                            h@,
                            "proxy"@,
                        ))) && #[trigger] proxy_tf_split(h@, q, k);
                    assert(q == p) by {
                        if q != p {
                            assert(h@.subrange(0, 4)[0] == h@[0]);
                            assert(h@.subrange(0, 5)[0] == h@[0]);
                        }
                    }
                    if m < k {
                        assert(h@.subrange(p as int, k)[m - p] == h@[m as int]);
                    } else if m < k + 4 {
                        assert(h@.subrange(k, k + 4)[m - k] == h@[m as int]);
                    } else {
                        assert(h@.subrange(k + 4, h@.len() - 14)[m - (k + 4)] == h@[m as int]);
                    }
                }
            }
            return false;
        }
        m += 1;
    }
    match crate::text::find_from(&h, &tf, p) {
        Some(k) => {
            if k <= end - 4 {
                assert forall|j: int| 0 <= j < h@.subrange(p as int, k as int).len() implies #[trigger] h@.subrange(
                    p as int,
                    k as int,
                )[j] != '\n' by {
                    assert(h@.subrange(p as int, k as int)[j] == h@[p + j]);
                }
                assert forall|j: int|
                    0 <= j < h@.subrange(k + 4, h@.len() - 14).len() implies #[trigger] h@.subrange(
                    k + 4,
                    h@.len() - 14,
                )[j] != '\n' by {
                    assert(h@.subrange(k + 4, h@.len() - 14)[j] == h@[k + 4 + j]);
                }
                assert(proxy_tf_split(h@, p as int, k as int));
                true
            } else {
                assert(!proxy_tf_host(h@)) by {
                    if proxy_tf_host(h@) {
                        let (q, k2) = choose|q: int, k2: int|
                            ((q == 4 && has_prefix(h@, "upos"@)) || (q == 5 && has_prefix(
                                h@,
                                "proxy"@,
                            ))) && #[trigger] proxy_tf_split(h@, q, k2);
                        assert(q == p) by {
                            if q != p {
                                assert(h@.subrange(0, 4)[0] == h@[0]);
                                assert(h@.subrange(0, 5)[0] == h@[0]);
                            }
                        }
                    }
                }
                false
            }
        },
        None => {
            assert(!proxy_tf_host(h@)) by {
                if proxy_tf_host(h@) {
                    let (q, k2) = choose|q: int, k2: int|
                        ((q == 4 && has_prefix(h@, "upos"@)) || (q == 5 && has_prefix(
                            h@,
                            "proxy"@,
                        ))) && #[trigger] proxy_tf_split(h@, q, k2);
                    assert(q == p) by {
                        if q != p {
                            assert(h@.subrange(0, 4)[0] == h@[0]);
                            assert(h@.subrange(0, 5)[0] == h@[0]);
                        }
                    }
                }
            }
            false
        },
    }
}

/// The pieces of `s` between occurrences of `sep`, as `str::split` yields
/// them.
pub open spec fn split_on(s: Seq<char>, sep: char) -> Seq<Seq<char>>
    decreases s.len(),
{
    if s.len() == 0 {
        seq![Seq::<char>::empty()]
    } else {
        let r = split_on(s.drop_last(), sep);
        if s.last() == sep {
            r.push(Seq::<char>::empty())
        } else {
            r.update(r.len() - 1, r.last().push(s.last()))
        }
    }
}

/// How many times `c` occurs in `s`.
pub open spec fn count_char(s: Seq<char>, c: char) -> nat
    decreases s.len(),
{
    if s.len() == 0 {
        0
    } else {
        count_char(s.drop_last(), c) + if s.last() == c {
            1nat
        } else {
            0nat
        }
    }
}

/// `host` is four dot-separated pieces, each of which `str::parse` reads as
/// a `u8`: the address form of a PCDN host.
pub open spec fn mcdn_ip_port(host: Seq<char>) -> bool {
    &&& forall|k: int|
        0 <= k < split_on(host, '.').len() ==> (#[trigger] unsigned_value(
            split_on(host, '.')[k],
            255,
        )) is Some
    &&& count_char(host, '.') == 3
}

fn u8_literal(h: &[char], from: usize, to: usize) -> (b: bool)
    requires
        from <= to <= h@.len(),
    ensures
        b == unsigned_value(h@.subrange(from as int, to as int), 255) is Some,
{
    let piece = crate::text::sub_chars(h, from, to);
    parse_unsigned(&piece, 255).is_some()
}

pub fn is_mcdn_ip_port(hostname: &str) -> (b: bool)
    ensures
        b == mcdn_ip_port(hostname@),
{
    let h = to_chars(hostname);
    let n = h.len();
    let mut start: usize = 0;
    let mut ok = true;
    let mut dots: usize = 0;
    let mut i: usize = 0;
    assert(h@.take(0) =~= Seq::<char>::empty());
    while i < n
        invariant
            n == h@.len(),
            start <= i <= n,
            dots <= i,
            split_on(h@.take(i as int), '.').len() >= 1,
            split_on(h@.take(i as int), '.').last() == h@.subrange(start as int, i as int),
            ok == forall|k: int|
                0 <= k < split_on(h@.take(i as int), '.').len() - 1 ==> (#[trigger] unsigned_value(
                    split_on(h@.take(i as int), '.')[k],
                    255,
                )) is Some,
            dots == count_char(h@.take(i as int), '.'),
        decreases n - i,
    {
        let ghost prev = h@.take(i as int);
        let ghost next = h@.take(i + 1);
        assert(next.drop_last() =~= prev);
        assert(next.last() == h@[i as int]);
        if h[i] == '.' {
            let piece_ok = u8_literal(&h, start, i);
            ok = ok && piece_ok;
            start = i + 1;
            dots = dots + 1;
            assert(h@.subrange(start as int, i + 1) =~= Seq::<char>::empty());
            assert(ok == forall|k: int|
                0 <= k < split_on(next, '.').len() - 1 ==> (#[trigger] unsigned_value(
                    split_on(next, '.')[k],
                    255,
                )) is Some) by {
                let r = split_on(prev, '.');
                assert(split_on(next, '.') == r.push(Seq::<char>::empty()));
                if ok {
                    assert forall|k: int| 0 <= k < split_on(next, '.').len() - 1 implies (#[trigger] unsigned_value(
                        split_on(next, '.')[k],
                        255,
                    )) is Some by {
                        if k < r.len() - 1 {
                            assert(split_on(next, '.')[k] == r[k]);
                        } else {
                            assert(split_on(next, '.')[k] == r.last());
                        }
                    }
                } else {
                    if !piece_ok {
                        assert(split_on(next, '.')[r.len() - 1] == r.last());
                    } else {
                        let k = choose|k: int|
                            0 <= k < r.len() - 1 && !((#[trigger] unsigned_value(r[k], 255)) is Some);
                        assert(split_on(next, '.')[k] == r[k]);
                    }
                }
            }
        } else {
            assert(h@.subrange(start as int, i + 1) =~= h@.subrange(start as int, i as int).push(
                h@[i as int],
            ));
            assert(ok == forall|k: int|
                0 <= k < split_on(next, '.').len() - 1 ==> (#[trigger] unsigned_value(
                    split_on(next, '.')[k],
                    255,
                )) is Some) by {
                let r = split_on(prev, '.');
                assert(split_on(next, '.') == r.update(r.len() - 1, r.last().push(h@[i as int])));
                if !ok {
                    let k = choose|k: int|
                        0 <= k < r.len() - 1 && !((#[trigger] unsigned_value(r[k], 255)) is Some);
                    assert(split_on(next, '.')[k] == r[k]);
                } else {
                    assert forall|k: int| 0 <= k < split_on(next, '.').len() - 1 implies (#[trigger] unsigned_value(
                        split_on(next, '.')[k],
                        255,
                    )) is Some by {
                        assert(split_on(next, '.')[k] == r[k]);
                    }
                }
            }
        }
        i += 1;
    }
    assert(h@.take(n as int) =~= h@);
    let last_ok = u8_literal(&h, start, n);
    let result = ok && last_ok && dots == 3;
    assert(result == mcdn_ip_port(h@)) by {
        let r = split_on(h@, '.');
        if ok && last_ok {
            assert forall|k: int| 0 <= k < r.len() implies (#[trigger] unsigned_value(r[k], 255)) is Some by {
            }
        }
        if !last_ok {
            assert(!((unsigned_value(r[r.len() - 1], 255)) is Some));
        }
    }
    result
}

/// `host` is a PCDN domain: it contains `mcdn.bilivideo`.
pub open spec fn mcdn_domain(host: Seq<char>) -> bool {
    contains_seq(host, "mcdn.bilivideo"@)
}

pub fn is_mcdn_domain(hostname: &str) -> (b: bool)
    ensures
        b == mcdn_domain(hostname@),
{
    contains(&to_chars(hostname), &to_chars("mcdn.bilivideo"))
}

/// The domestic mirror hosts, in the order in which they take turns.
pub open spec fn china_mirrors() -> Seq<Seq<char>> {
    seq![
        "upos-sz-mirrorali.bilivideo.com"@,
        "upos-sz-mirroralib.bilivideo.com"@,
        "upos-sz-mirroralio1.bilivideo.com"@,
        "upos-sz-mirrorbd.bilivideo.com"@,
        "upos-sz-mirrorcos.bilivideo.com"@,
        "upos-sz-mirrorcosb.bilivideo.com"@,
        "upos-sz-mirrorcoso1.bilivideo.com"@,
        "upos-sz-mirrorhw.bilivideo.com"@,
        "upos-sz-mirrorhwb.bilivideo.com"@,
        "upos-sz-mirrorhwo1.bilivideo.com"@,
        "upos-sz-mirror08c.bilivideo.com"@,
        "upos-sz-mirror08h.bilivideo.com"@,
        "upos-sz-mirror08ct.bilivideo.com"@,
    ]
}

/// The domestic mirror whose turn comes at count `n`.
pub fn mirror_for_index(n: usize) -> (host: &'static str)
    ensures
        host@ == china_mirrors()[(n % 13) as int],
        exists|i: int| 0 <= i < 13 && host@ == #[trigger] china_mirrors()[i],
{
    match n % 13 {
        0 => "upos-sz-mirrorali.bilivideo.com",
        1 => "upos-sz-mirroralib.bilivideo.com",
        2 => "upos-sz-mirroralio1.bilivideo.com",
        3 => "upos-sz-mirrorbd.bilivideo.com",
        4 => "upos-sz-mirrorcos.bilivideo.com",
        5 => "upos-sz-mirrorcosb.bilivideo.com",
        6 => "upos-sz-mirrorcoso1.bilivideo.com",
        7 => "upos-sz-mirrorhw.bilivideo.com",
        8 => "upos-sz-mirrorhwb.bilivideo.com",
        9 => "upos-sz-mirrorhwo1.bilivideo.com",
        10 => "upos-sz-mirror08c.bilivideo.com",
        11 => "upos-sz-mirror08h.bilivideo.com",
        _ => "upos-sz-mirror08ct.bilivideo.com",
    }
}

/// Takes the next domestic mirror in turn; `counter` counts the turns taken.
pub fn pick_mirror_china(counter: &std::sync::atomic::AtomicUsize) -> (host: &'static str)
    ensures
        exists|i: int| 0 <= i < 13 && host@ == #[trigger] china_mirrors()[i],
{
    let n = counter.fetch_add(1, std::sync::atomic::Ordering::Relaxed);
    mirror_for_index(n)
}

/// What to do with the host of a stream URL.
pub enum CdnChoice {
    /// Keep the URL as it is.
    Keep,
    /// Send it to the free-traffic proxy host.
    ProxyTf,
    /// Send it to a domestic mirror.
    ChinaMirror,
}

pub open spec fn host_or_empty(host: Option<Seq<char>>) -> Seq<char> {
    match host {
        Some(h) => h,
        None => Seq::<char>::empty(),
    }
}

/// The query holds the pair `os=mcdn`.
pub open spec fn has_os_mcdn(pairs: Seq<(Seq<char>, Seq<char>)>) -> bool {
    exists|i: int| 0 <= i < pairs.len() && #[trigger] pairs[i] == ("os"@, "mcdn"@)
}

/// The choice for a URL with this host, path and query, in order of
/// priority: free-traffic hosts are kept; overseas hosts go to a domestic
/// mirror; mirror hosts are kept unless the query says `os=mcdn`; PCDN
/// addresses, and PCDN domains serving `/v1/resource`, go to the proxy;
/// everything else goes to a domestic mirror.
pub open spec fn cdn_choice(host: Seq<char>, path: Seq<char>, pairs: Seq<(Seq<char>, Seq<char>)>) -> CdnChoice {
    if proxy_tf_host(host) {
        CdnChoice::Keep
    } else if overseas_host(host) {
        CdnChoice::ChinaMirror
    } else if mirror_host(host) {
        if has_os_mcdn(pairs) {
            CdnChoice::ChinaMirror
        } else {
            CdnChoice::Keep
        }
    } else if mcdn_ip_port(host) || (mcdn_domain(host) && has_prefix(path, "/v1/resource"@)) {
        CdnChoice::ProxyTf
    } else {
        CdnChoice::ChinaMirror
    }
}

fn query_has_os_mcdn(pairs: &Vec<(String, String)>) -> (b: bool)
    ensures
        b == has_os_mcdn(pairs@.map_values(|p: (String, String)| (p.0@, p.1@))),
{
    let ghost views = pairs@.map_values(|p: (String, String)| (p.0@, p.1@));
    let os = to_chars("os");
    let mcdn = to_chars("mcdn");
    let mut i: usize = 0;
    while i < pairs.len()
        invariant
            i <= pairs@.len(),
            views == pairs@.map_values(|p: (String, String)| (p.0@, p.1@)),
            os@ == "os"@,
            mcdn@ == "mcdn"@,
            forall|j: int| 0 <= j < i ==> #[trigger] views[j] != ("os"@, "mcdn"@),
        decreases pairs@.len() - i,
    {
        let (k, v) = &pairs[i];
        if chars_eq(&to_chars(k.as_str()), &os) && chars_eq(&to_chars(v.as_str()), &mcdn) {
            assert(views[i as int] == ("os"@, "mcdn"@));
            return true;
        }
        assert(views[i as int] == (k@, v@));
        i += 1;
    }
    false
}

/// The choice for a parsed stream URL.
pub fn choose_cdn(parts: &UrlParts) -> (c: CdnChoice)
    ensures
        c == cdn_choice(host_or_empty(parts@.host), parts@.path, parts@.query_pairs),
{
    let host: &str = match &parts.host {
        Some(h) => h.as_str(),
        None => "",
    };
    proof {
        reveal_strlit("");
    }
    assert(host@ == host_or_empty(parts@.host));
    if is_proxy_tf(host) {
        CdnChoice::Keep
    } else if is_overseas_cdn(host) {
        CdnChoice::ChinaMirror
    } else if is_mirror_cdn(host) {
        if query_has_os_mcdn(&parts.query_pairs) {
            CdnChoice::ChinaMirror
        } else {
            CdnChoice::Keep
        }
    } else if is_mcdn_ip_port(host) || (is_mcdn_domain(host) && starts_with(
        &to_chars(parts.path.as_str()),
        &to_chars("/v1/resource"),
    )) {
        CdnChoice::ProxyTf
    } else {
        CdnChoice::ChinaMirror
    }
}

/// The serialization of `raw` with its host replaced by `host`.
pub open spec fn with_host(raw: Seq<char>, host: Seq<char>) -> Seq<char> {
    match spec_url_with_host(raw, host) {
        Ok(s) => s,
        Err(_) => raw,
    }
}

/// What becomes of the stream URL `raw`, given the mirror it would be sent
/// to: a URL that does not parse is kept as it was.
pub open spec fn upgrade_with(raw: Seq<char>, mirror: Seq<char>) -> Seq<char> {
    match spec_parse_url(raw) {
        Err(_) => raw,
        Ok(p) => match cdn_choice(host_or_empty(p.host), p.path, p.query_pairs) {
            CdnChoice::Keep => p.serialization,
            CdnChoice::ProxyTf => with_host(raw, PROXY_TF@),
            CdnChoice::ChinaMirror => with_host(raw, mirror),
        },
    }
}

/// The error that is logged when the stream URL `raw` does not parse.
pub open spec fn upgrade_log(raw: Seq<char>) -> Option<Seq<char>> {
    match spec_parse_url(raw) {
        Err(e) => Some("[mirror-cdn] Failed to parse URL: "@ + e),
        Ok(_) => None,
    }
}

fn replace_host(raw_url: &str, host: &str) -> (r: String)
    requires
        spec_parse_url(raw_url@) is Ok,
    ensures
        r@ == with_host(raw_url@, host@),
{
    match url_with_host(raw_url, host) {
        Ok(s) => s,
        Err(_) => raw_url.to_string(),
    }
}

/// Moves a stream URL to the best CDN host available for it, and gives the
/// error to log when it does not parse; `counter` counts the turns of the
/// domestic mirrors.
pub fn upgrade_cdn_hostname_logged(raw_url: &str, counter: &std::sync::atomic::AtomicUsize) -> (r: (
    String,
    Option<String>,
))
    ensures
        exists|i: int|
            0 <= i < 13 && r.0@ == upgrade_with(raw_url@, #[trigger] china_mirrors()[i]),
        string_option(r.1) == upgrade_log(raw_url@),
{
    let parts = match parse_url(raw_url) {
        Ok(p) => p,
        Err(e) => {
            let r = raw_url.to_string();
            assert(r@ == upgrade_with(raw_url@, china_mirrors()[0]));
            let mut log = "[mirror-cdn] Failed to parse URL: ".to_string();
            log.append(e.as_str());
            return (r, Some(log));
        },
    };
    let upgraded = match choose_cdn(&parts) {
        CdnChoice::Keep => {
            assert(parts.serialization@ == upgrade_with(raw_url@, china_mirrors()[0]));
            parts.serialization
        },
        CdnChoice::ProxyTf => {
            let r = replace_host(raw_url, PROXY_TF);
            assert(r@ == upgrade_with(raw_url@, china_mirrors()[0]));
            r
        },
        CdnChoice::ChinaMirror => {
            let mirror = pick_mirror_china(counter);
            replace_host(raw_url, mirror)
        },
    };
    (upgraded, None)
}

/// Moves a stream URL to the best CDN host available for it; `counter`
/// counts the turns of the domestic mirrors.
pub fn upgrade_cdn_hostname(raw_url: &str, counter: &std::sync::atomic::AtomicUsize) -> (r: String)
    ensures
        exists|i: int|
            0 <= i < 13 && r@ == upgrade_with(raw_url@, #[trigger] china_mirrors()[i]),
{
    upgrade_cdn_hostname_logged(raw_url, counter).0
}

/// A host `upos-sz-mirror<tag>.bilivideo.com` with a non-empty tag of
/// ASCII lower-case letters and digits matches the mirror pattern.
proof fn lemma_domestic_mirror_shape(tag: Seq<char>)
    requires
        tag.len() > 0,
        all_lower_alnum(tag),
    ensures
        mirror_host("upos-sz-mirror"@ + tag + ".bilivideo.com"@),
{
    reveal_strlit("upos-sz-mirror");
    reveal_strlit(".bilivideo.com");
    reveal_strlit("upos-");
    reveal_strlit("sz");
    reveal_strlit("-mirror");
    reveal_strlit(".");
    reveal_strlit("bilivideo.com");
    let pre = "upos-"@ + "sz"@ + "-mirror"@;
    let suf = "."@ + "bilivideo.com"@;
    assert(pre =~= "upos-sz-mirror"@);
    assert(suf =~= ".bilivideo.com"@);
    let h = "upos-sz-mirror"@ + tag + ".bilivideo.com"@;
    assert(h.subrange(0, pre.len() as int) =~= pre);
    assert(h.subrange(h.len() - suf.len(), h.len() as int) =~= suf);
    assert(h.subrange(pre.len() as int, h.len() - suf.len()) =~= tag);
    assert(mirror_host_in(h, "sz"@, "bilivideo.com"@));
}

/// Every domestic mirror in the pool matches the mirror pattern, and the
/// free-traffic proxy host matches the free-traffic pattern.
pub proof fn lemma_pool_hosts_classified()
    ensures
        forall|i: int| 0 <= i < 13 ==> mirror_host(#[trigger] china_mirrors()[i]),
        proxy_tf_host(PROXY_TF@),
{
    reveal_strlit(".bilivideo.com");
    lemma_pool_shape();
    assert forall|i: int| 0 <= i < 13 implies mirror_host(#[trigger] china_mirrors()[i]) by {
        assert(china_mirrors()[i] == "upos-sz-mirror"@ + china_mirror_tags()[i] + ".bilivideo.com"@);
        lemma_domestic_mirror_shape(china_mirror_tags()[i]);
    }
    reveal_strlit("proxy-tf-all-ws.bilivideo.com");
    reveal_strlit("proxy");
    reveal_strlit("-tf-");
    let h = PROXY_TF@;
    assert(h.subrange(0, 5) =~= "proxy"@);
    assert(h.subrange(5, 9) =~= "-tf-"@);
    assert(h.subrange(h.len() - 14, h.len() as int) =~= ".bilivideo.com"@);
    assert(proxy_tf_split(h, 5, 5));
}

/// The index of the mirror whose turn comes `j` turns after count `n`.
pub open spec fn turn_index(n: nat, j: nat) -> int {
    ((n + j) % 13) as int
}

/// The mirror at index `i` takes a turn within the thirteen turns that
/// follow count `n`.
pub open spec fn turn_within(n: nat, i: int) -> bool {
    exists|j: nat| j < 13 && #[trigger] turn_index(n, j) == i
}

/// Thirteen consecutive turns give every domestic mirror.
pub proof fn lemma_mirror_turns_cycle(n: nat)
    ensures
        forall|i: int| 0 <= i < 13 ==> #[trigger] turn_within(n, i),
{
    assert forall|i: int| 0 <= i < 13 implies #[trigger] turn_within(n, i) by {
        let j: nat = ((i - (n % 13) + 13) % 13) as nat;
        assert(turn_index(n, j) == i);
    }
}

/// A mirror tag that none of the overseas and free-traffic patterns can
/// reach: no `m`, no `bs`, not starting with `cf`, not ending with `ov`.
pub open spec fn plain_mirror_tag(tag: Seq<char>) -> bool {
    &&& tag.len() > 0
    &&& all_lower_alnum(tag)
    &&& forall|j: int| 0 <= j < tag.len() ==> #[trigger] tag[j] != 'm'
    &&& !(tag.len() >= 2 && tag[tag.len() - 2] == 'o' && tag[tag.len() - 1] == 'v')
    &&& !(tag.len() >= 2 && tag[0] == 'c' && tag[1] == 'f')
    &&& forall|j: int| 0 <= j < tag.len() - 1 ==> !(#[trigger] tag[j] == 'b' && tag[j + 1] == 's')
}

/// The characters of `upos-sz-mirror<tag>.bilivideo.com`, by position.
proof fn lemma_mirror_chars(tag: Seq<char>, k: int)
    requires
        0 <= k < 28 + tag.len(),
    ensures
        ({
            let h = "upos-sz-mirror"@ + tag + ".bilivideo.com"@;
            &&& h.len() == 28 + tag.len()
            &&& k < 14 ==> h[k] == "upos-sz-mirror"@[k]
            &&& 14 <= k < 14 + tag.len() ==> h[k] == tag[k - 14]
            &&& 14 + tag.len() <= k ==> h[k] == ".bilivideo.com"@[k - 14 - tag.len()]
        }),
{
    reveal_strlit("upos-sz-mirror");
    reveal_strlit(".bilivideo.com");
}

/// Where `upos-sz-mirror` holds `-`, `m` and `b`.
proof fn lemma_prefix_letters(k: int)
    requires
        0 <= k < 14,
    ensures
        "upos-sz-mirror"@[k] == '-' ==> k == 4 || k == 7,
        "upos-sz-mirror"@[k] == 'm' ==> k == 8,
        "upos-sz-mirror"@[k] != 'b',
{
    reveal_strlit("upos-sz-mirror");
    if k == 0 {} else if k == 1 {} else if k == 2 {} else if k == 3 {} else if k == 4 {} else if k == 5 {} else if k == 6 {} else if k == 7 {} else if k == 8 {} else if k == 9 {} else if k == 10 {} else if k == 11 {} else if k == 12 {} else if k == 13 {}
}

/// Where `.bilivideo.com` holds `-`, `m`, `b` and `.`.
proof fn lemma_suffix_letters(j: int)
    requires
        0 <= j < 14,
    ensures
        ".bilivideo.com"@[j] != '-',
        ".bilivideo.com"@[j] == 'm' ==> j == 13,
        ".bilivideo.com"@[j] == 'b' ==> j == 1,
        ".bilivideo.com"@[j] == '.' ==> j == 0 || j == 10,
{
    reveal_strlit(".bilivideo.com");
    if j == 0 {} else if j == 1 {} else if j == 2 {} else if j == 3 {} else if j == 4 {} else if j == 5 {} else if j == 6 {} else if j == 7 {} else if j == 8 {} else if j == 9 {} else if j == 10 {} else if j == 11 {} else if j == 12 {} else if j == 13 {}
}

/// Every URL on a domestic mirror host with a plain tag is kept as it is,
/// unless its query says `os=mcdn`.
pub proof fn lemma_plain_mirror_kept(tag: Seq<char>, path: Seq<char>, pairs: Seq<(Seq<char>, Seq<char>)>)
    requires
        plain_mirror_tag(tag),
    ensures
        mirror_host("upos-sz-mirror"@ + tag + ".bilivideo.com"@),
        !proxy_tf_host("upos-sz-mirror"@ + tag + ".bilivideo.com"@),
        !overseas_host("upos-sz-mirror"@ + tag + ".bilivideo.com"@),
        cdn_choice("upos-sz-mirror"@ + tag + ".bilivideo.com"@, path, pairs) == (if has_os_mcdn(pairs) {
            CdnChoice::ChinaMirror
        } else {
            CdnChoice::Keep
        }),
{
    reveal_strlit("upos-sz-mirror");
    reveal_strlit(".bilivideo.com");
    reveal_strlit("upos");
    reveal_strlit("proxy");
    reveal_strlit("-tf-");
    reveal_strlit("mirror");
    reveal_strlit("ov.");
    reveal_strlit("mirrorcf");
    reveal_strlit("bstar");
    reveal_strlit("akamaized.net");
    let h = "upos-sz-mirror"@ + tag + ".bilivideo.com"@;
    let n: int = tag.len() as int;
    lemma_domestic_mirror_shape(tag);
    lemma_mirror_chars(tag, 0);
    // No free-traffic host: the only `-` are at 4 and 7, followed by `s` and `m`.
    assert forall|k: int| !occurs_at(h, "-tf-"@, k) by {
        if occurs_at(h, "-tf-"@, k) {
            assert(h.subrange(k, k + 4)[0] == h[k]);
            assert(h.subrange(k, k + 4)[1] == h[k + 1]);
            lemma_mirror_chars(tag, k);
            lemma_mirror_chars(tag, k + 1);
            if k < 14 {
                lemma_prefix_letters(k);
                lemma_prefix_letters(k + 1);
            } else if k < 14 + n {
                assert(is_lower_alnum(tag[k - 14]));
            } else {
                lemma_suffix_letters(k - 14 - n);
            }
        }
    }
    assert(!has_prefix(h, "proxy"@)) by {
        assert(h.subrange(0, 5)[0] == h[0]);
    }
    assert(!proxy_tf_host(h)) by {
        if proxy_tf_host(h) {
            let (p, k) = choose|p: int, k: int|
                ((p == 4 && has_prefix(h, "upos"@)) || (p == 5 && has_prefix(h, "proxy"@)))
                    && #[trigger] proxy_tf_split(h, p, k);
            assert(occurs_at(h, "-tf-"@, k));
        }
    }
    // An `m` only at 8 (and at the very end, too late for `mirror`).
    assert forall|i: int| occurs_at(h, "mirror"@, i) implies i == 8 by {
        assert(h.subrange(i, i + 6)[0] == h[i]);
        lemma_mirror_chars(tag, i);
        if i < 14 {
            lemma_prefix_letters(i);
        } else if i < 14 + n {
        } else {
            lemma_suffix_letters(i - 14 - n);
        }
    }
    assert forall|i: int| !overseas_mark_at(h, i) by {
        if overseas_mark_at(h, i) {
            let k = choose|k: int|
                i + 6 <= k && all_lower_alnum(#[trigger] h.subrange(i + 6, k)) && occurs_at(
                    h,
                    "ov."@,
                    k,
                );
            assert(i == 8);
            assert(h.subrange(k, k + 3)[0] == h[k]);
            assert(h.subrange(k, k + 3)[1] == h[k + 1]);
            assert(h.subrange(k, k + 3)[2] == h[k + 2]);
            lemma_mirror_chars(tag, 14 + n);
            lemma_suffix_letters(0);
            if k > 14 + n {
                assert(h.subrange(14, k)[n] == h[14 + n]);
            }
            lemma_mirror_chars(tag, k + 2);
            if k + 2 < 14 + n {
                assert(is_lower_alnum(tag[k + 2 - 14]));
            } else {
                lemma_suffix_letters(k + 2 - 14 - n);
            }
            assert(k == 12 + n);
            lemma_mirror_chars(tag, k);
            lemma_mirror_chars(tag, k + 1);
        }
    }
    assert(!contains_seq(h, "mirrorcf"@)) by {
        if contains_seq(h, "mirrorcf"@) {
            let i = choose|i: int| occurs_at(h, "mirrorcf"@, i);
            assert(h.subrange(i, i + 8).subrange(0, 6) =~= h.subrange(i, i + 6));
            assert("mirrorcf"@.subrange(0, 6) =~= "mirror"@);
            assert(occurs_at(h, "mirror"@, i));
            assert(h.subrange(i, i + 8)[6] == h[14]);
            assert(h.subrange(i, i + 8)[7] == h[15]);
            lemma_mirror_chars(tag, 14);
            lemma_mirror_chars(tag, 15);
            if n == 1 {
                lemma_suffix_letters(0);
            }
        }
    }
    assert(!contains_seq(h, "bstar"@)) by {
        if contains_seq(h, "bstar"@) {
            let i = choose|i: int| occurs_at(h, "bstar"@, i);
            assert(h.subrange(i, i + 5)[0] == h[i]);
            assert(h.subrange(i, i + 5)[1] == h[i + 1]);
            lemma_mirror_chars(tag, i);
            lemma_mirror_chars(tag, i + 1);
            if i < 14 {
                lemma_prefix_letters(i);
            } else if i < 13 + n {
                assert(!(tag[i - 14] == 'b' && tag[i - 13] == 's'));
            } else if i == 13 + n {
                lemma_suffix_letters(0);
            } else {
                lemma_suffix_letters(i - 14 - n);
                lemma_suffix_letters(i + 1 - 14 - n);
            }
        }
    }
    assert(!has_suffix(h, "akamaized.net"@)) by {
        lemma_mirror_chars(tag, h.len() - 1);
        assert(h.subrange(h.len() - 13, h.len() as int)[12] == h[h.len() - 1]);
    }
}

/// The tags of the domestic mirrors, in the order of the pool.
pub open spec fn china_mirror_tags() -> Seq<Seq<char>> {
    seq![
        "ali"@,
        "alib"@,
        "alio1"@,
        "bd"@,
        "cos"@,
        "cosb"@,
        "coso1"@,
        "hw"@,
        "hwb"@,
        "hwo1"@,
        "08c"@,
        "08h"@,
        "08ct"@,
    ]
}

/// Every mirror of the pool is `upos-sz-mirror<tag>.bilivideo.com` with a
/// plain tag.
proof fn lemma_pool_shape()
    ensures
        forall|i: int|
            0 <= i < 13 ==> #[trigger] china_mirrors()[i] == "upos-sz-mirror"@ + china_mirror_tags()[i]
                + ".bilivideo.com"@ && plain_mirror_tag(china_mirror_tags()[i]),
{
    reveal_strlit("upos-sz-mirror");
    reveal_strlit(".bilivideo.com");
    reveal_strlit("upos-sz-mirrorali.bilivideo.com");
    reveal_strlit("ali");
    assert("upos-sz-mirrorali.bilivideo.com"@ =~= "upos-sz-mirror"@ + "ali"@ + ".bilivideo.com"@);
    lemma_tag_is_plain("ali"@);
    reveal_strlit("upos-sz-mirroralib.bilivideo.com");
    reveal_strlit("alib");
    assert("upos-sz-mirroralib.bilivideo.com"@ =~= "upos-sz-mirror"@ + "alib"@ + ".bilivideo.com"@);
    lemma_tag_is_plain("alib"@);
    reveal_strlit("upos-sz-mirroralio1.bilivideo.com");
    reveal_strlit("alio1");
    assert("upos-sz-mirroralio1.bilivideo.com"@ =~= "upos-sz-mirror"@ + "alio1"@ + ".bilivideo.com"@);
    lemma_tag_is_plain("alio1"@);
    reveal_strlit("upos-sz-mirrorbd.bilivideo.com");
    reveal_strlit("bd");
    assert("upos-sz-mirrorbd.bilivideo.com"@ =~= "upos-sz-mirror"@ + "bd"@ + ".bilivideo.com"@);
    lemma_tag_is_plain("bd"@);
    reveal_strlit("upos-sz-mirrorcos.bilivideo.com");
    reveal_strlit("cos");
    assert("upos-sz-mirrorcos.bilivideo.com"@ =~= "upos-sz-mirror"@ + "cos"@ + ".bilivideo.com"@);
    lemma_tag_is_plain("cos"@);
    reveal_strlit("upos-sz-mirrorcosb.bilivideo.com");
    reveal_strlit("cosb");
    assert("upos-sz-mirrorcosb.bilivideo.com"@ =~= "upos-sz-mirror"@ + "cosb"@ + ".bilivideo.com"@);
    lemma_tag_is_plain("cosb"@);
    reveal_strlit("upos-sz-mirrorcoso1.bilivideo.com");
    reveal_strlit("coso1");
    assert("upos-sz-mirrorcoso1.bilivideo.com"@ =~= "upos-sz-mirror"@ + "coso1"@ + ".bilivideo.com"@);
    lemma_tag_is_plain("coso1"@);
    reveal_strlit("upos-sz-mirrorhw.bilivideo.com");
    reveal_strlit("hw");
    assert("upos-sz-mirrorhw.bilivideo.com"@ =~= "upos-sz-mirror"@ + "hw"@ + ".bilivideo.com"@);
    lemma_tag_is_plain("hw"@);
    reveal_strlit("upos-sz-mirrorhwb.bilivideo.com");
    reveal_strlit("hwb");
    assert("upos-sz-mirrorhwb.bilivideo.com"@ =~= "upos-sz-mirror"@ + "hwb"@ + ".bilivideo.com"@);
    lemma_tag_is_plain("hwb"@);
    reveal_strlit("upos-sz-mirrorhwo1.bilivideo.com");
    reveal_strlit("hwo1");
    assert("upos-sz-mirrorhwo1.bilivideo.com"@ =~= "upos-sz-mirror"@ + "hwo1"@ + ".bilivideo.com"@);
    lemma_tag_is_plain("hwo1"@);
    reveal_strlit("upos-sz-mirror08c.bilivideo.com");
    reveal_strlit("08c");
    assert("upos-sz-mirror08c.bilivideo.com"@ =~= "upos-sz-mirror"@ + "08c"@ + ".bilivideo.com"@);
    lemma_tag_is_plain("08c"@);
    reveal_strlit("upos-sz-mirror08h.bilivideo.com");
    reveal_strlit("08h");
    assert("upos-sz-mirror08h.bilivideo.com"@ =~= "upos-sz-mirror"@ + "08h"@ + ".bilivideo.com"@);
    lemma_tag_is_plain("08h"@);
    reveal_strlit("upos-sz-mirror08ct.bilivideo.com");
    reveal_strlit("08ct");
    assert("upos-sz-mirror08ct.bilivideo.com"@ =~= "upos-sz-mirror"@ + "08ct"@ + ".bilivideo.com"@);
    lemma_tag_is_plain("08ct"@);
    assert forall|i: int| 0 <= i < 13 implies #[trigger] china_mirrors()[i] == "upos-sz-mirror"@
        + china_mirror_tags()[i] + ".bilivideo.com"@ && plain_mirror_tag(china_mirror_tags()[i]) by {
        if i == 0 {
        } else if i == 1 {
        } else if i == 2 {
        } else if i == 3 {
        } else if i == 4 {
        } else if i == 5 {
        } else if i == 6 {
        } else if i == 7 {
        } else if i == 8 {
        } else if i == 9 {
        } else if i == 10 {
        } else if i == 11 {
        } else if i == 12 {
        }
    }
}

/// The tags of the domestic mirrors in the pool are plain.
proof fn lemma_tag_is_plain(tag: Seq<char>)
    requires
        0 < tag.len() <= 5,
        all_lower_alnum(tag),
        forall|j: int| 0 <= j < tag.len() ==> #[trigger] tag[j] != 'm',
        !(tag.len() >= 2 && tag[tag.len() - 2] == 'o' && tag[tag.len() - 1] == 'v'),
        !(tag.len() >= 2 && tag[0] == 'c' && tag[1] == 'f'),
        forall|j: int| 0 <= j < tag.len() - 1 ==> !(#[trigger] tag[j] == 'b' && tag[j + 1] == 's'),
    ensures
        plain_mirror_tag(tag),
{
}

/// The upgrade lands where it stays: a URL on any mirror of the pool is
/// kept as it is unless its query says `os=mcdn`, and a URL on the
/// free-traffic proxy host is kept as it is.
pub proof fn lemma_upgrade_targets_are_kept(path: Seq<char>, pairs: Seq<(Seq<char>, Seq<char>)>)
    ensures
        forall|i: int|
            0 <= i < 13 ==> cdn_choice(#[trigger] china_mirrors()[i], path, pairs) == (if has_os_mcdn(
                pairs,
            ) {
                CdnChoice::ChinaMirror
            } else {
                CdnChoice::Keep
            }),
        cdn_choice(PROXY_TF@, path, pairs) == CdnChoice::Keep,
{
    lemma_pool_shape();
    assert forall|i: int| 0 <= i < 13 implies cdn_choice(#[trigger] china_mirrors()[i], path, pairs) == (
    if has_os_mcdn(pairs) {
        CdnChoice::ChinaMirror
    } else {
        CdnChoice::Keep
    }) by {
        assert(china_mirrors()[i] == "upos-sz-mirror"@ + china_mirror_tags()[i] + ".bilivideo.com"@);
        lemma_plain_mirror_kept(china_mirror_tags()[i], path, pairs);
    }
    lemma_pool_hosts_classified();
}

/// On a mirror host that is neither a free-traffic nor an overseas host, the
/// URL goes to a domestic mirror exactly when some pair of its query, at any
/// position, is `os=mcdn`; otherwise it is kept.
pub proof fn lemma_mirror_moves_on_os_mcdn(
    host: Seq<char>,
    path: Seq<char>,
    pairs: Seq<(Seq<char>, Seq<char>)>,
)
    requires
        mirror_host(host),
        !proxy_tf_host(host),
        !overseas_host(host),
    ensures
        cdn_choice(host, path, pairs) == CdnChoice::ChinaMirror <==> exists|i: int|
            0 <= i < pairs.len() && #[trigger] pairs[i] == ("os"@, "mcdn"@),
        cdn_choice(host, path, pairs) == CdnChoice::ChinaMirror || cdn_choice(host, path, pairs)
            == CdnChoice::Keep,
{
}

/// The choice reads the query as a set of pairs: two queries that hold the
/// same pairs, in whatever order and however often, give the same choice.
pub proof fn lemma_choice_ignores_pair_order(
    host: Seq<char>,
    path: Seq<char>,
    pairs: Seq<(Seq<char>, Seq<char>)>,
    others: Seq<(Seq<char>, Seq<char>)>,
)
    requires
        forall|x: (Seq<char>, Seq<char>)| pairs.contains(x) <==> others.contains(x),
    ensures
        cdn_choice(host, path, pairs) == cdn_choice(host, path, others),
{
    let t = ("os"@, "mcdn"@);
    assert(pairs.contains(t) <==> others.contains(t));
    if has_os_mcdn(pairs) {
        let i = choose|i: int| 0 <= i < pairs.len() && #[trigger] pairs[i] == t;
        assert(pairs.contains(t));
        let j = choose|j: int| 0 <= j < others.len() && others[j] == t;
        assert(others[j] == t);
    }
    if has_os_mcdn(others) {
        let j = choose|j: int| 0 <= j < others.len() && #[trigger] others[j] == t;
        assert(others.contains(t));
        let i = choose|i: int| 0 <= i < pairs.len() && pairs[i] == t;
        assert(pairs[i] == t);
    }
}

/// Pairs put in front of the query change nothing unless one of them is
/// `os=mcdn`.
pub proof fn lemma_choice_ignores_leading_pairs(
    host: Seq<char>,
    path: Seq<char>,
    front: Seq<(Seq<char>, Seq<char>)>,
    pairs: Seq<(Seq<char>, Seq<char>)>,
)
    requires
        forall|i: int| 0 <= i < front.len() ==> #[trigger] front[i] != ("os"@, "mcdn"@),
    ensures
        cdn_choice(host, path, front + pairs) == cdn_choice(host, path, pairs),
{
    let t = ("os"@, "mcdn"@);
    let all = front + pairs;
    if has_os_mcdn(all) {
        let i = choose|i: int| 0 <= i < all.len() && #[trigger] all[i] == t;
        if i < front.len() {
            assert(all[i] == front[i]);
        } else {
            assert(all[i] == pairs[i - front.len()]);
            assert(pairs[i - front.len()] == t);
        }
    }
    if has_os_mcdn(pairs) {
        let j = choose|j: int| 0 <= j < pairs.len() && #[trigger] pairs[j] == t;
        assert(all[j + front.len()] == pairs[j]);
    }
}

/// A host that is none of a free-traffic, an overseas, a mirror or a PCDN
/// host (a UPOS or BCache host, say) goes to a domestic mirror, whatever the
/// path and the query; its URL, where it parses, is the one `Url::set_host`
/// makes with the mirror's host.
pub proof fn lemma_other_hosts_go_to_mirror(
    host: Seq<char>,
    path: Seq<char>,
    pairs: Seq<(Seq<char>, Seq<char>)>,
    raw: Seq<char>,
    mirror: Seq<char>,
)
    requires
        !proxy_tf_host(host),
        !overseas_host(host),
        !mirror_host(host),
        !mcdn_ip_port(host),
        !mcdn_domain(host),
    ensures
        cdn_choice(host, path, pairs) == CdnChoice::ChinaMirror,
        spec_parse_url(raw) matches Ok(p) && host_or_empty(p.host) == host ==> upgrade_with(
            raw,
            mirror,
        ) == with_host(raw, mirror),
{
}

} // verus!
