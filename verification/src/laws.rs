//! Properties that hold across the library's functions.
use vstd::prelude::*;
use crate::inscriptions::{Filter, InscriptionsHtml, Rarity, Sort};
use crate::metadata::{
    common_fields, has_key, holds_values, is_metadata_of, key_less, lemma_key_less_irreflexive, lemma_key_less_transitive,
    present_fields, values_of, TagValue,
};
use crate::opus::{body_tags, first_match, is_opus_type, is_picture_key, sanitized, text_tags, SANITIZED_TAG_MAX_LEN};
use crate::text::{drop_controls, is_ascii_control, is_ws, lower_seq, trim, trim_end, trim_start, upper_seq};

verus! {

/// A filter that asks for nothing lets every inscription through.
pub proof fn law_unfiltered_admits_all(filter: Filter, number: i32, charms: u16)
    requires
        filter.unfiltered(),
    ensures
        filter.admits(number, charms),
{
}

/// The page links carry a query string exactly when the sort is not the
/// default or some filter is active.
pub proof fn law_query_empty_iff_defaults(page: InscriptionsHtml)
    ensures
        page.query().len() == 0 <==> (page.sort == Sort::Newest && page.filter.unfiltered()),
{
}

/// Whether a media type is Opus does not depend on ASCII case.
pub proof fn law_opus_type_ignores_case(a: Seq<char>, b: Seq<char>)
    requires
        lower_seq(a) == lower_seq(b),
    ensures
        is_opus_type(a) == is_opus_type(b),
{
}

/// Whether a tag key names picture data does not depend on ASCII case.
pub proof fn law_picture_key_ignores_case(a: Seq<char>, b: Seq<char>)
    requires
        upper_seq(a) == upper_seq(b),
    ensures
        is_picture_key(a) == is_picture_key(b),
{
}

/// Looking a tag up ignores the ASCII case of the key looked for.
pub proof fn law_lookup_ignores_case(tags: Seq<(Seq<char>, Seq<char>)>, a: Seq<char>, b: Seq<char>)
    requires
        lower_seq(a) == lower_seq(b),
    ensures
        first_match(tags, a) == first_match(tags, b),
    decreases tags.len(),
{
    if tags.len() > 0 {
        law_lookup_ignores_case(tags.drop_first(), a, b);
    }
}

/// The tags shown never name picture data, and their keys are trimmed and not
/// empty.
pub proof fn law_shown_tags_have_text_keys(probed: Seq<(Seq<char>, Seq<char>)>)
    ensures
        forall|i: int| 0 <= i < text_tags(probed).len() ==> {
            let key = #[trigger] text_tags(probed)[i].0;
            &&& !is_picture_key(key)
            &&& key.len() > 0
            &&& key == trim(key)
        },
    decreases probed.len(),
{
    if probed.len() > 0 {
        law_shown_tags_have_text_keys(probed.drop_last());
        let key = trim(probed.last().0);
        lemma_trim_idempotent(probed.last().0);
        let rest = text_tags(probed.drop_last());
        if !(key.len() == 0 || is_picture_key(key)) {
            assert forall|i: int| 0 <= i < rest.len() + 1 implies #[trigger] rest.push((key, probed.last().1))[i] == (
                if i < rest.len() { rest[i] } else { (key, probed.last().1) }) by {}
        }
    }
}

/// The tags reported for any body never name picture data, and their keys are
/// trimmed and not empty.
pub proof fn law_reported_tags_have_text_keys(body: Seq<u8>)
    ensures
        forall|i: int| 0 <= i < body_tags(body).len() ==> {
            let key = #[trigger] body_tags(body)[i].0;
            &&& !is_picture_key(key)
            &&& key.len() > 0
            &&& key == trim(key)
        },
{
    if crate::opus::is_probed_body(body) {
        law_shown_tags_have_text_keys(crate::opus::probed_tags(body));
    }
}

proof fn lemma_trim_start_no_ws_start(s: Seq<char>)
    ensures
        trim_start(s).len() > 0 ==> !is_ws(trim_start(s)[0]),
        trim_start(trim_start(s)) == trim_start(s),
    decreases s.len(),
{
    if s.len() > 0 && is_ws(s[0]) {
        lemma_trim_start_no_ws_start(s.drop_first());
    }
}

proof fn lemma_trim_end_keeps_start(s: Seq<char>)
    requires
        s.len() > 0 ==> !is_ws(s[0]),
    ensures
        trim_end(s).len() > 0 ==> !is_ws(trim_end(s)[0]),
        trim_end(s).len() > 0 ==> !is_ws(trim_end(s).last()),
        trim_end(s).len() <= s.len(),
        trim_end(s) == s.take(trim_end(s).len() as int),
    decreases s.len(),
{
    if s.len() > 0 && is_ws(s.last()) {
        lemma_trim_end_keeps_start(s.drop_last());
        assert(s.drop_last().take(trim_end(s).len() as int) =~= s.take(trim_end(s).len() as int));
        if trim_end(s).len() > 0 {
            assert(trim_end(s)[0] == s.drop_last()[0]);
        }
    } else {
        assert(s.take(s.len() as int) =~= s);
    }
}

proof fn lemma_trim_idempotent(s: Seq<char>)
    ensures
        trim(trim(s)) == trim(s),
{
    lemma_trim_start_no_ws_start(s);
    let t = trim_start(s);
    lemma_trim_end_keeps_start(t);
    let u = trim_end(t);
    assert(trim_start(u) == u);
    assert(trim_end(u) == u);
}

proof fn lemma_drop_controls_clean(s: Seq<char>)
    ensures
        forall|i: int| 0 <= i < drop_controls(s).len() ==> !is_ascii_control(#[trigger] drop_controls(s)[i]),
    decreases s.len(),
{
    if s.len() > 0 {
        lemma_drop_controls_clean(s.drop_last());
        let r = drop_controls(s.drop_last());
        if !is_ascii_control(s.last()) {
            assert forall|i: int| 0 <= i < r.len() + 1 implies !is_ascii_control(#[trigger] r.push(s.last())[i]) by {
                if i < r.len() {
                    assert(r.push(s.last())[i] == r[i]);
                }
            }
        }
    }
}

proof fn lemma_trim_is_slice(s: Seq<char>)
    ensures
        exists|a: int, b: int| 0 <= a <= b <= s.len() && trim(s) == s.subrange(a, b),
    decreases s.len(),
{
    lemma_trim_start_slice(s);
    let a = choose|a: int| 0 <= a <= s.len() && trim_start(s) == s.skip(a);
    let t = trim_start(s);
    lemma_trim_start_no_ws_start(s);
    lemma_trim_end_keeps_start(t);
    let n = trim_end(t).len() as int;
    assert(trim(s) =~= s.subrange(a, a + n));
}

proof fn lemma_trim_start_slice(s: Seq<char>)
    ensures
        exists|a: int| 0 <= a <= s.len() && trim_start(s) == s.skip(a),
    decreases s.len(),
{
    if s.len() > 0 && is_ws(s[0]) {
        lemma_trim_start_slice(s.drop_first());
        let a = choose|a: int| 0 <= a <= s.drop_first().len() && trim_start(s.drop_first()) == s.drop_first().skip(a);
        assert(s.drop_first().skip(a) =~= s.skip(a + 1));
    } else {
        assert(s.skip(0) =~= s);
    }
}

/// A sanitized tag value holds no ASCII control character and at most
/// `SANITIZED_TAG_MAX_LEN` characters, and does not start with whitespace; it
/// does not end with whitespace either unless it was cut to that length.
pub proof fn law_sanitized_is_clean(raw: Seq<char>)
    ensures
        sanitized(raw).len() <= SANITIZED_TAG_MAX_LEN,
        forall|i: int| 0 <= i < sanitized(raw).len() ==> !is_ascii_control(#[trigger] sanitized(raw)[i]),
        sanitized(raw).len() > 0 ==> !is_ws(sanitized(raw)[0]),
        trim(drop_controls(raw)).len() <= SANITIZED_TAG_MAX_LEN && sanitized(raw).len() > 0
            ==> !is_ws(sanitized(raw).last()),
{
    let d = drop_controls(raw);
    lemma_drop_controls_clean(raw);
    lemma_trim_is_slice(d);
    let (a, b) = choose|a: int, b: int| 0 <= a <= b <= d.len() && trim(d) == d.subrange(a, b);
    assert forall|i: int| 0 <= i < sanitized(raw).len() implies !is_ascii_control(#[trigger] sanitized(raw)[i]) by {
        assert(sanitized(raw)[i] == d[a + i]);
    }
    lemma_trim_start_no_ws_start(d);
    lemma_trim_end_keeps_start(trim_start(d));
    if sanitized(raw).len() > 0 {
        assert(sanitized(raw)[0] == trim(d)[0]);
    }
}

proof fn lemma_drop_controls_of_clean(s: Seq<char>)
    requires
        forall|i: int| 0 <= i < s.len() ==> !is_ascii_control(#[trigger] s[i]),
    ensures
        drop_controls(s) == s,
    decreases s.len(),
{
    if s.len() > 0 {
        assert(s.drop_last().len() == s.len() - 1);
        assert forall|i: int| 0 <= i < s.drop_last().len() implies !is_ascii_control(#[trigger] s.drop_last()[i]) by {
            assert(s.drop_last()[i] == s[i]);
        }
        lemma_drop_controls_of_clean(s.drop_last());
        assert(!is_ascii_control(s[s.len() - 1]));
        assert(s.drop_last().push(s.last()) =~= s);
    }
}

/// Sanitizing a sanitized value changes nothing, unless cutting it to
/// `SANITIZED_TAG_MAX_LEN` characters left whitespace at its end (which a
/// second pass trims).
pub proof fn law_sanitize_idempotent(raw: Seq<char>)
    requires
        trim_end(sanitized(raw)) == sanitized(raw),
    ensures
        sanitized(sanitized(raw)) == sanitized(raw),
{
    let s = sanitized(raw);
    law_sanitized_is_clean(raw);
    lemma_drop_controls_of_clean(s);
    assert(trim_start(s) == s);
    assert(trim(drop_controls(s)) == s);
}

/// A tag found by lookup is never empty, and is clean in the sense of
/// `law_sanitized_is_clean`.
pub proof fn law_found_tag_is_clean(tags: Seq<(Seq<char>, Seq<char>)>, target: Seq<char>)
    ensures
        first_match(tags, target) matches Some(v) ==> {
            &&& 0 < v.len() <= SANITIZED_TAG_MAX_LEN
            &&& forall|i: int| 0 <= i < v.len() ==> !is_ascii_control(#[trigger] v[i])
        },
    decreases tags.len(),
{
    if tags.len() > 0 {
        law_sanitized_is_clean(tags[0].1);
        law_found_tag_is_clean(tags.drop_first(), target);
    }
}

/// Each field appears at most once in a metadata map.
pub proof fn law_metadata_keys_distinct(m: Seq<(String, TagValue)>, kv: Seq<(Seq<char>, Seq<char>)>)
    requires
        is_metadata_of(m, kv),
    ensures
        forall|i: int, j: int| 0 <= i < j < m.len() ==> #[trigger] m[i].0@ != #[trigger] m[j].0@,
{
    let common = present_fields(kv, common_fields());
    lemma_common_fields_distinct();
    lemma_present_fields_distinct(kv, common_fields());
    assert forall|i: int, j: int| 0 <= i < j < m.len() implies #[trigger] m[i].0@ != #[trigger] m[j].0@ by {
        if j < common.len() {
            assert(m[i].0@ == common[i] && m[j].0@ == common[j]);
        } else if i < common.len() {
            lemma_present_fields_in(kv, common_fields(), i);
            assert(m[i].0@ == common[i]);
            assert(!common_fields().contains(m[j].0@));
        } else {
            assert(key_less(m[i].0@, m[j].0@));
            lemma_key_less_irreflexive(m[i].0@);
        }
    }
}

proof fn lemma_sorted_keys_equal(a: Seq<Seq<char>>, b: Seq<Seq<char>>)
    requires
        forall|i: int, j: int| 0 <= i < j < a.len() ==> key_less(#[trigger] a[i], #[trigger] a[j]),
        forall|i: int, j: int| 0 <= i < j < b.len() ==> key_less(#[trigger] b[i], #[trigger] b[j]),
        forall|x: Seq<char>| a.contains(x) <==> b.contains(x),
    ensures
        a == b,
    decreases a.len(),
{
    if a.len() == 0 {
        if b.len() > 0 {
            assert(b.contains(b[0]));
        }
        assert(a =~= b);
    } else {
        assert(a.contains(a[0]));
        let j = choose|j: int| 0 <= j < b.len() && b[j] == a[0];
        assert(b.contains(b[0]));
        let k = choose|k: int| 0 <= k < a.len() && a[k] == b[0];
        if a[0] != b[0] {
            assert(key_less(b[0], b[j]));
            assert(key_less(a[0], a[k]));
            lemma_key_less_transitive(b[0], a[0], b[0]);
            lemma_key_less_irreflexive(b[0]);
        }
        let a1 = a.drop_first();
        let b1 = b.drop_first();
        assert forall|x: Seq<char>| a1.contains(x) implies b1.contains(x) by {
            let i = choose|i: int| 0 <= i < a1.len() && a1[i] == x;
            assert(a[i + 1] == x && a.contains(x));
            let l = choose|l: int| 0 <= l < b.len() && b[l] == x;
            if l == 0 {
                assert(key_less(a[0], a[i + 1]));
                lemma_key_less_irreflexive(x);
            }
            assert(b1[l - 1] == x);
        }
        assert forall|x: Seq<char>| b1.contains(x) implies a1.contains(x) by {
            let i = choose|i: int| 0 <= i < b1.len() && b1[i] == x;
            assert(b[i + 1] == x && b.contains(x));
            let l = choose|l: int| 0 <= l < a.len() && a[l] == x;
            if l == 0 {
                assert(key_less(b[0], b[i + 1]));
                lemma_key_less_irreflexive(x);
            }
            assert(a1[l - 1] == x);
        }
        lemma_sorted_keys_equal(a1, b1);
        assert(a =~= seq![a[0]] + a1);
        assert(b =~= seq![b[0]] + b1);
    }
}

/// The metadata map of a list of (key, value) pairs is determined by it: two
/// maps of the same pairs have the same fields in the same order, each holding
/// the values given for its field.
pub proof fn law_metadata_is_unique(m1: Seq<(String, TagValue)>, m2: Seq<(String, TagValue)>, kv: Seq<(Seq<char>, Seq<char>)>)
    requires
        is_metadata_of(m1, kv),
        is_metadata_of(m2, kv),
    ensures
        m1.len() == m2.len(),
        forall|i: int| 0 <= i < m1.len() ==> #[trigger] m1[i].0@ == m2[i].0@,
        forall|i: int| 0 <= i < m1.len() ==> holds_values(#[trigger] m1[i].1, values_of(kv, m1[i].0@))
            && holds_values(m2[i].1, values_of(kv, m1[i].0@)),
{
    let c = present_fields(kv, common_fields()).len() as int;
    let a = Seq::new((m1.len() - c) as nat, |i: int| m1[c + i].0@);
    let b = Seq::new((m2.len() - c) as nat, |i: int| m2[c + i].0@);
    assert forall|i: int, j: int| 0 <= i < j < a.len() implies key_less(#[trigger] a[i], #[trigger] a[j]) by {
        assert(key_less(m1[c + i].0@, m1[c + j].0@));
    }
    assert forall|i: int, j: int| 0 <= i < j < b.len() implies key_less(#[trigger] b[i], #[trigger] b[j]) by {
        assert(key_less(m2[c + i].0@, m2[c + j].0@));
    }
    assert forall|x: Seq<char>| a.contains(x) implies b.contains(x) by {
        let i = choose|i: int| 0 <= i < a.len() && a[i] == x;
        assert(m1[c + i].0@ == x);
        assert(has_key(kv, x) && !common_fields().contains(x));
        let l = choose|l: int| c <= l < m2.len() && #[trigger] m2[l].0@ == x;
        assert(b[l - c] == x);
    }
    assert forall|x: Seq<char>| b.contains(x) implies a.contains(x) by {
        let i = choose|i: int| 0 <= i < b.len() && b[i] == x;
        assert(m2[c + i].0@ == x);
        assert(has_key(kv, x) && !common_fields().contains(x));
        let l = choose|l: int| c <= l < m1.len() && #[trigger] m1[l].0@ == x;
        assert(a[l - c] == x);
    }
    lemma_sorted_keys_equal(a, b);
    assert forall|i: int| 0 <= i < m1.len() implies #[trigger] m1[i].0@ == m2[i].0@ by {
        if i >= c {
            assert(a[i - c] == b[i - c]);
        }
    }
}

proof fn lemma_present_fields_in(kv: Seq<(Seq<char>, Seq<char>)>, fields: Seq<Seq<char>>, i: int)
    requires
        0 <= i < present_fields(kv, fields).len(),
    ensures
        fields.contains(present_fields(kv, fields)[i]),
    decreases fields.len(),
{
    if fields.len() > 0 {
        let rest = present_fields(kv, fields.drop_last());
        if i < rest.len() {
            lemma_present_fields_in(kv, fields.drop_last(), i);
            let k = choose|k: int| 0 <= k < fields.drop_last().len() && fields.drop_last()[k] == rest[i];
            assert(fields[k] == rest[i]);
        } else {
            assert(fields[fields.len() - 1] == fields.last());
        }
    }
}

proof fn lemma_present_fields_distinct(kv: Seq<(Seq<char>, Seq<char>)>, fields: Seq<Seq<char>>)
    requires
        forall|i: int, j: int| 0 <= i < j < fields.len() ==> fields[i] != fields[j],
    ensures
        forall|i: int, j: int| 0 <= i < j < present_fields(kv, fields).len() ==>
            present_fields(kv, fields)[i] != present_fields(kv, fields)[j],
    decreases fields.len(),
{
    if fields.len() > 0 {
        let init = fields.drop_last();
        lemma_present_fields_distinct(kv, init);
        let rest = present_fields(kv, init);
        assert forall|i: int| 0 <= i < rest.len() implies rest[i] != fields.last() by {
            lemma_present_fields_in(kv, init, i);
            let k = choose|k: int| 0 <= k < init.len() && init[k] == rest[i];
            assert(fields[k] != fields[fields.len() - 1]);
        }
    }
}


proof fn lemma_common_fields_distinct()
    ensures
        forall|i: int, j: int| 0 <= i < j < common_fields().len() ==> common_fields()[i] != common_fields()[j],
{
    reveal_strlit("title");
    reveal_strlit("artist");
    reveal_strlit("album");
    reveal_strlit("album artist");
    reveal_strlit("date");
    reveal_strlit("track number");
    reveal_strlit("genre");
    reveal_strlit("composer");
    reveal_strlit("copyright");
    reveal_strlit("description");
    reveal_strlit("producer");
    reveal_strlit("engineer");
    reveal_strlit("mixer");
    reveal_strlit("assistant engineer");
    reveal_strlit("songwriter");
    reveal_strlit("mastering");
    reveal_strlit("inscribing");
    reveal_strlit("technology");
    let f = common_fields();
    assert forall|i: int, j: int| 0 <= i < j < f.len() implies f[i] != f[j] by {
        if f[i].len() == f[j].len() {
            assert(f[i][0] != f[j][0] || f[i][1] != f[j][1]);
        }
    }
}

/// A tag is shown when its trimmed key is not empty and does not name picture
/// data.
pub open spec fn is_shown_tag(t: (Seq<char>, Seq<char>)) -> bool {
    trim(t.0).len() > 0 && !is_picture_key(trim(t.0))
}

/// The tags of `probed` whose keys are shown, in order.
pub open spec fn shown_tags(probed: Seq<(Seq<char>, Seq<char>)>) -> Seq<(Seq<char>, Seq<char>)> {
    probed.filter(|t: (Seq<char>, Seq<char>)| is_shown_tag(t))
}

/// Every tag the demuxer reports whose key is shown is kept, repeated keys
/// included: as many tags are kept as there are shown tags.
pub proof fn law_shown_tags_all_kept(probed: Seq<(Seq<char>, Seq<char>)>)
    ensures
        text_tags(probed).len() == shown_tags(probed).len(),
    decreases probed.len(),
{
    if probed.len() > 0 {
        law_shown_tags_all_kept(probed.drop_last());
        reveal(Seq::filter);
        assert(shown_tags(probed) == (if is_shown_tag(probed.last()) {
            shown_tags(probed.drop_last()).push(probed.last())
        } else {
            shown_tags(probed.drop_last())
        }));
    }
}

/// Each shown tag that the demuxer reports appears among the kept tags, with
/// its key trimmed and its value as given.
pub proof fn law_shown_tag_is_kept(probed: Seq<(Seq<char>, Seq<char>)>, i: int)
    requires
        0 <= i < probed.len(),
        is_shown_tag(probed[i]),
    ensures
        text_tags(probed).contains((trim(probed[i].0), probed[i].1)),
    decreases probed.len(),
{
    let rest = text_tags(probed.drop_last());
    if i < probed.len() - 1 {
        assert(probed.drop_last()[i] == probed[i]);
        law_shown_tag_is_kept(probed.drop_last(), i);
        let k = choose|k: int| 0 <= k < rest.len() && rest[k] == (trim(probed[i].0), probed[i].1);
        if is_shown_tag(probed.last()) {
            assert(text_tags(probed)[k] == rest[k]);
        }
    } else {
        assert(text_tags(probed)[rest.len() as int] == (trim(probed[i].0), probed[i].1));
    }
}

/// A rarity filter lets through exactly the inscriptions that carry the charm
/// of the same name, whatever their number: uncommon, rare, epic, legendary
/// and mythic are the charms with discriminants 9, 6, 2, 3 and 11 in
/// `ordinals::Charm`, so their flag bits are 512, 64, 4, 8 and 2048.
pub proof fn law_rarity_filter_reads_its_charm(rarity: Rarity, number: i32, charms: u16)
    ensures
        (Filter { cursed: false, from: None, to: None, rarity }).admits(number, charms) == match rarity {
            Rarity::Any => true,
            Rarity::Uncommon => charms & 512 != 0,
            Rarity::Rare => charms & 64 != 0,
            Rarity::Epic => charms & 4 != 0,
            Rarity::Legendary => charms & 8 != 0,
            Rarity::Mythic => charms & 2048 != 0,
        },
{
}

} // verus!
