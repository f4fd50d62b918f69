//! The forms in which one video can be asked for (a bare AV number in either
//! case, its BV identifier, and a video link with either) all share one
//! cache key.
use vstd::prelude::*;
use crate::bilibili::{bare_id, cache_key_of, host_check, plan_key, plan_of, video_of, PlanView, page_of};
use crate::bvid::{
    av2bv_result, av_digits, bv_of_aid, lemma_bv_of_aid_alphanumeric, lemma_bv_of_aid_injective,
    MAX_AID,
};
use crate::patterns::{
    av_at, av_number_in, bv_at, bv_id_in, first_from, is_ascii_alphanumeric, is_decimal_digit,
    live_room_id_in, page_at, page_number_in, run_end_of,
};
use crate::text::{
    all_ascii_digits, ascii_lowercase, contains_seq, decimal_repr, decimal_value, has_prefix,
    is_ascii_digit, is_white_space, occurs_at, trim_end, trim_start, trimmed, unsigned_value,
};
use crate::weburl::spec_parse_url;

verus! {

/// The beginning of a link to a video page.
pub open spec fn video_link_prefix() -> Seq<char> {
    "https://www.bilibili.com/video/"@
}

proof fn lemma_first_from_none(p: spec_fn(int) -> bool, i: int, n: int)
    requires
        forall|j: int| i <= j <= n ==> !#[trigger] p(j),
    ensures
        first_from(p, i, n) is None,
    decreases n + 1 - i,
{
    if i <= n {
        lemma_first_from_none(p, i + 1, n);
    }
}

proof fn lemma_first_from_found(p: spec_fn(int) -> bool, i: int, k: int, n: int)
    requires
        i <= k <= n,
        p(k),
        forall|j: int| i <= j < k ==> !#[trigger] p(j),
    ensures
        first_from(p, i, n) == Some(k),
    decreases k - i,
{
    if i < k {
        lemma_first_from_found(p, i + 1, k, n);
    }
}

proof fn lemma_run_to_end(s: Seq<char>, j: int)
    requires
        0 <= j <= s.len(),
        forall|k: int| j <= k < s.len() ==> is_ascii_digit(#[trigger] s[k]),
    ensures
        run_end_of(s, j) == s.len(),
    decreases s.len() - j,
{
    if j < s.len() {
        assert(is_decimal_digit(s[j]));
        lemma_run_to_end(s, j + 1);
    }
}

proof fn lemma_trim_unchanged(s: Seq<char>)
    requires
        s.len() > 0,
        !is_white_space(s[0]),
        !is_white_space(s.last()),
    ensures
        trimmed(s) == s,
{
    assert(trim_start(s) == s);
    assert(trim_end(s) == s);
}

proof fn lemma_ascii_not_white(c: char)
    requires
        is_ascii_alphanumeric(c),
    ensures
        !is_white_space(c),
{
}

/// What the characters of the video-link prefix are not.
proof fn lemma_prefix_chars(k: int)
    requires
        0 <= k < 31,
    ensures
        video_link_prefix().len() == 31,
        ({
            let c = video_link_prefix()[k];
            &&& c != 'B' && c != 'a' && c != 'A' && c != '?' && c != '&'
            &&& c == 'v' ==> k == 25
            &&& !is_ascii_digit(c)
        }),
        video_link_prefix()[0] == 'h',
        video_link_prefix()[23] == 'm',
        video_link_prefix()[30] == '/',
{
    reveal_strlit("https://www.bilibili.com/video/");
    if k == 0 {
        } else if k == 1 {
        } else if k == 2 {
        } else if k == 3 {
        } else if k == 4 {
        } else if k == 5 {
        } else if k == 6 {
        } else if k == 7 {
        } else if k == 8 {
        } else if k == 9 {
        } else if k == 10 {
        } else if k == 11 {
        } else if k == 12 {
        } else if k == 13 {
        } else if k == 14 {
        } else if k == 15 {
        } else if k == 16 {
        } else if k == 17 {
        } else if k == 18 {
        } else if k == 19 {
        } else if k == 20 {
        } else if k == 21 {
        } else if k == 22 {
        } else if k == 23 {
        } else if k == 24 {
        } else if k == 25 {
        } else if k == 26 {
        } else if k == 27 {
        } else if k == 28 {
        } else if k == 29 {
        } else if k == 30 {
        }
}

/// The facts about a valid AV number's digits that every form needs.
proof fn lemma_number_facts(n: Seq<char>)
    requires
        n.len() > 0,
        all_ascii_digits(n),
        decimal_value(n) < MAX_AID,
    ensures
        av2bv_result(n) == Ok::<Seq<char>, Seq<char>>(bv_of_aid(decimal_value(n) as u128)),
        bv_of_aid(decimal_value(n) as u128).len() == 12,
        bv_of_aid(decimal_value(n) as u128)[0] == 'B',
        bv_of_aid(decimal_value(n) as u128)[1] == 'V',
        forall|k: int|
            0 <= k < 12 ==> is_ascii_alphanumeric(#[trigger] bv_of_aid(decimal_value(n) as u128)[k]),
{
    let aid = decimal_value(n) as u128;
    assert(MAX_AID == 2251799813685248) by (bit_vector);
    reveal_strlit("av");
    assert(is_ascii_digit(n[0]));
    assert(!has_prefix(n, "av"@)) by {
        if has_prefix(n, "av"@) {
            assert(n.subrange(0, 2)[0] == n[0]);
        }
    }
    assert(av_digits(n) == n);
    assert(unsigned_value(n, u128::MAX as nat) == Some(decimal_value(n)));
    lemma_bv_of_aid_injective(aid, aid);
    lemma_bv_of_aid_alphanumeric(aid);
}

/// The video named by the bare number `two + n`, where `two` is `av` or `AV`.
proof fn lemma_bare_number(two: Seq<char>, n: Seq<char>)
    requires
        two == seq!['a', 'v'] || two == seq!['A', 'V'],
        n.len() > 0,
        all_ascii_digits(n),
        decimal_value(n) < MAX_AID,
    ensures
        plan_of(two + n) == Ok::<PlanView, Seq<char>>(
            PlanView::Video(bv_of_aid(decimal_value(n) as u128), 1),
        ),
{
    let s = two + n;
    lemma_number_facts(n);
    assert(s[0] == two[0]);
    assert(s[s.len() - 1] == n[n.len() - 1]);
    lemma_trim_unchanged(s);
    // A bare identifier: `av` (after lower-casing) and digits.
    reveal_strlit("av");
    let lower = ascii_lowercase(s);
    assert(lower.subrange(0, 2) =~= "av"@);
    assert(lower.skip(2) =~= n) by {
        assert forall|k: int| 0 <= k < n.len() implies lower.skip(2)[k] == n[k] by {
            assert(lower.skip(2)[k] == lower[k + 2]);
            assert(s[k + 2] == n[k]);
            assert(is_ascii_digit(n[k]));
        }
    }
    assert(bare_id(s));
    // No BV identifier: no `B` anywhere.
    assert forall|j: int| 0 <= j <= s.len() implies !#[trigger] bv_at(s, j) by {
        if bv_at(s, j) {
            if j >= 2 {
                assert(s[j] == n[j - 2]);
                assert(is_ascii_digit(n[j - 2]));
            }
        }
    }
    lemma_first_from_none(|i: int| bv_at(s, i), 0, s.len() as int);
    assert(bv_id_in(s) is None);
    // The AV number starts at 0 and runs to the end.
    assert(s[2] == n[0]);
    assert(is_ascii_digit(n[0]));
    assert(av_at(s, 0));
    lemma_first_from_found(|i: int| av_at(s, i), 0, 0, s.len() as int);
    assert forall|k: int| 2 <= k < s.len() implies is_ascii_digit(#[trigger] s[k]) by {
        assert(s[k] == n[k - 2]);
    }
    lemma_run_to_end(s, 2);
    assert(s.subrange(2, s.len() as int) =~= n);
    assert(av_number_in(s) == Some(n));
    // No page.
    assert forall|j: int| 0 <= j <= s.len() implies !#[trigger] page_at(s, j) by {
        if page_at(s, j) {
            if j >= 2 {
                assert(s[j] == n[j - 2]);
                assert(is_ascii_digit(n[j - 2]));
            }
        }
    }
    lemma_first_from_none(|i: int| page_at(s, i), 0, s.len() as int);
    assert(page_number_in(s) is None);
    assert(page_of(s) == 1);
    assert(video_of(s) == Ok::<(Seq<char>, nat), Seq<char>>((bv_of_aid(decimal_value(n) as u128), 1)));
}

/// The video named by the bare BV identifier `b`.
proof fn lemma_bare_bv(n: Seq<char>)
    requires
        n.len() > 0,
        all_ascii_digits(n),
        decimal_value(n) < MAX_AID,
    ensures
        plan_of(bv_of_aid(decimal_value(n) as u128)) == Ok::<PlanView, Seq<char>>(
            PlanView::Video(bv_of_aid(decimal_value(n) as u128), 1),
        ),
{
    let b = bv_of_aid(decimal_value(n) as u128);
    lemma_number_facts(n);
    lemma_ascii_not_white(b[0]);
    lemma_ascii_not_white(b[11]);
    lemma_trim_unchanged(b);
    reveal_strlit("BV");
    assert(b.subrange(0, 2) =~= "BV"@);
    assert(bare_id(b));
    assert(bv_at(b, 0));
    lemma_first_from_found(|i: int| bv_at(b, i), 0, 0, b.len() as int);
    assert(b.subrange(0, 12) =~= b);
    assert(bv_id_in(b) == Some(b));
    assert forall|j: int| 0 <= j <= b.len() implies !#[trigger] page_at(b, j) by {
        if page_at(b, j) {
            assert(is_ascii_alphanumeric(b[j]));
        }
    }
    lemma_first_from_none(|i: int| page_at(b, i), 0, b.len() as int);
    assert(page_of(b) == 1);
    assert(video_of(b) == Ok::<(Seq<char>, nat), Seq<char>>((b, 1)));
}

/// The video named by the link `https://www.bilibili.com/video/av<n>`.
proof fn lemma_av_link(n: Seq<char>)
    requires
        n.len() > 0,
        all_ascii_digits(n),
        decimal_value(n) < MAX_AID,
        host_check(spec_parse_url(video_link_prefix() + "av"@ + n)) == Ok::<(), Seq<char>>(()),
    ensures
        plan_of(video_link_prefix() + "av"@ + n) == Ok::<PlanView, Seq<char>>(
            PlanView::Video(bv_of_aid(decimal_value(n) as u128), 1),
        ),
{
    reveal_strlit("av");
    let pre = video_link_prefix();
    let s = pre + "av"@ + n;
    lemma_prefix_chars(0);
    lemma_number_facts(n);
    assert(s.len() == 33 + n.len());
    assert forall|k: int| 31 <= k < s.len() implies #[trigger] s[k] == ("av"@ + n)[k - 31] by {
    }
    assert forall|k: int| 33 <= k < s.len() implies is_ascii_digit(#[trigger] s[k]) by {
        assert(s[k] == n[k - 33]);
    }
    assert(s[0] == 'h');
    assert(is_ascii_digit(s[s.len() - 1]));
    lemma_trim_unchanged(s);
    // Not a bare identifier: it starts with `h`.
    assert(!bare_id(s)) by {
        reveal_strlit("BV");
        reveal_strlit("bv");
        reveal_strlit("av");
        assert("BV"@[0] == 'B' && "bv"@[0] == 'b' && "av"@[0] == 'a');
        assert(s.subrange(0, 2)[0] == s[0]);
        assert(ascii_lowercase(s)[0] == 'h');
        assert(ascii_lowercase(s).subrange(0, 2)[0] == ascii_lowercase(s)[0]);
    }
    // Not a live link.
    reveal_strlit("live.bilibili.com");
    assert(!contains_seq(s, "live.bilibili.com"@)) by {
        if contains_seq(s, "live.bilibili.com"@) {
            let i = choose|i: int| occurs_at(s, "live.bilibili.com"@, i);
            assert(s.subrange(i, i + 17)[0] == s[i]);
            assert(s.subrange(i, i + 17)[2] == s[i + 2]);
            if i + 2 < 31 {
                lemma_prefix_chars(i + 2);
                lemma_prefix_chars(i);
            } else if i + 2 == 31 {
            } else if i + 2 == 32 {
                lemma_prefix_chars(30);
            } else {
                assert(is_ascii_digit(s[i + 2]));
            }
        }
    }
    // No BV identifier.
    assert forall|j: int| 0 <= j <= s.len() implies !#[trigger] bv_at(s, j) by {
        if bv_at(s, j) {
            if j < 31 {
                lemma_prefix_chars(j);
            } else if j >= 33 {
                assert(is_ascii_digit(s[j]));
            }
        }
    }
    lemma_first_from_none(|i: int| bv_at(s, i), 0, s.len() as int);
    // The AV number at 31.
    assert forall|j: int| 0 <= j < 31 implies !#[trigger] av_at(s, j) by {
        lemma_prefix_chars(j);
    }
    assert(av_at(s, 31));
    lemma_first_from_found(|i: int| av_at(s, i), 0, 31, s.len() as int);
    lemma_run_to_end(s, 33);
    assert(s.subrange(33, s.len() as int) =~= n);
    assert(av_number_in(s) == Some(n));
    // No page.
    assert forall|j: int| 0 <= j <= s.len() implies !#[trigger] page_at(s, j) by {
        if page_at(s, j) {
            if j < 31 {
                lemma_prefix_chars(j);
            } else if j >= 33 {
                assert(is_ascii_digit(s[j]));
            }
        }
    }
    lemma_first_from_none(|i: int| page_at(s, i), 0, s.len() as int);
    assert(page_of(s) == 1);
    assert(video_of(s) == Ok::<(Seq<char>, nat), Seq<char>>((bv_of_aid(decimal_value(n) as u128), 1)));
}

/// The video named by the link `https://www.bilibili.com/video/<b>`.
proof fn lemma_bv_link(n: Seq<char>)
    requires
        n.len() > 0,
        all_ascii_digits(n),
        decimal_value(n) < MAX_AID,
        host_check(spec_parse_url(video_link_prefix() + bv_of_aid(decimal_value(n) as u128)))
            == Ok::<(), Seq<char>>(()),
    ensures
        plan_of(video_link_prefix() + bv_of_aid(decimal_value(n) as u128)) == Ok::<
            PlanView,
            Seq<char>,
        >(PlanView::Video(bv_of_aid(decimal_value(n) as u128), 1)),
{
    let b = bv_of_aid(decimal_value(n) as u128);
    let pre = video_link_prefix();
    let s = pre + b;
    lemma_prefix_chars(0);
    lemma_number_facts(n);
    assert(s.len() == 43);
    assert forall|k: int| 31 <= k < 43 implies is_ascii_alphanumeric(#[trigger] s[k]) by {
        assert(s[k] == b[k - 31]);
    }
    assert(s[0] == 'h');
    lemma_ascii_not_white(s[42]);
    lemma_trim_unchanged(s);
    assert(!bare_id(s)) by {
        reveal_strlit("BV");
        reveal_strlit("bv");
        reveal_strlit("av");
        assert("BV"@[0] == 'B' && "bv"@[0] == 'b' && "av"@[0] == 'a');
        assert(s.subrange(0, 2)[0] == s[0]);
        assert(ascii_lowercase(s)[0] == 'h');
        assert(ascii_lowercase(s).subrange(0, 2)[0] == ascii_lowercase(s)[0]);
    }
    reveal_strlit("live.bilibili.com");
    assert(!contains_seq(s, "live.bilibili.com"@)) by {
        if contains_seq(s, "live.bilibili.com"@) {
            let i = choose|i: int| occurs_at(s, "live.bilibili.com"@, i);
            assert(s.subrange(i, i + 17)[0] == s[i]);
            assert(s.subrange(i, i + 17)[2] == s[i + 2]);
            lemma_prefix_chars(i + 2);
            lemma_prefix_chars(i);
        }
    }
    assert forall|j: int| 0 <= j < 31 implies !#[trigger] bv_at(s, j) by {
        lemma_prefix_chars(j);
    }
    assert(s[31] == 'B' && s[32] == 'V');
    assert(bv_at(s, 31));
    lemma_first_from_found(|i: int| bv_at(s, i), 0, 31, s.len() as int);
    assert(s.subrange(31, 43) =~= b);
    assert(bv_id_in(s) == Some(b));
    assert forall|j: int| 0 <= j <= s.len() implies !#[trigger] page_at(s, j) by {
        if page_at(s, j) {
            if j < 31 {
                lemma_prefix_chars(j);
            } else {
                assert(is_ascii_alphanumeric(s[j]));
            }
        }
    }
    lemma_first_from_none(|i: int| page_at(s, i), 0, s.len() as int);
    assert(page_of(s) == 1);
    assert(video_of(s) == Ok::<(Seq<char>, nat), Seq<char>>((b, 1)));
}

/// One video, asked for as `av<n>`, `AV<n>`, its BV identifier `b`, or a
/// video link with `av<n>` or `b`, has one cache key, `vid:<b>:1`; the two
/// links are taken to be ones that `url::Url::parse` reads with a Bilibili
/// host.
pub proof fn lemma_forms_share_cache_key(n: Seq<char>)
    requires
        n.len() > 0,
        all_ascii_digits(n),
        decimal_value(n) < MAX_AID,
        host_check(spec_parse_url(video_link_prefix() + "av"@ + n)) == Ok::<(), Seq<char>>(()),
        host_check(spec_parse_url(video_link_prefix() + bv_of_aid(decimal_value(n) as u128)))
            == Ok::<(), Seq<char>>(()),
    ensures
        ({
            let b = bv_of_aid(decimal_value(n) as u128);
            let key = Ok::<Seq<char>, Seq<char>>("vid:"@ + b + ":"@ + decimal_repr(1));
            &&& cache_key_of(seq!['a', 'v'] + n) == key
            &&& cache_key_of(seq!['A', 'V'] + n) == key
            &&& cache_key_of(b) == key
            &&& cache_key_of(video_link_prefix() + "av"@ + n) == key
            &&& cache_key_of(video_link_prefix() + b) == key
        }),
{
    lemma_bare_number(seq!['a', 'v'], n);
    lemma_bare_number(seq!['A', 'V'], n);
    lemma_bare_bv(n);
    lemma_av_link(n);
    lemma_bv_link(n);
}

} // verus!
