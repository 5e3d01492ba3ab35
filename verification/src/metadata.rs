//! Grouping of Opus tags into a metadata map: one entry per field, the
//! common fields first in a fixed order, the others in key order.
use vstd::prelude::*;
use crate::opus::{body_tags, is_picture_key, is_picture_tag, normalize_opus_tag_key, normalized_key, raw_tags};
use crate::text::chars_of;

verus! {

/// The value of one metadata field: its text when a single tag gave it,
/// otherwise the texts of all the tags that gave it, in order.
pub enum TagValue {
    Text(String),
    Array(Vec<String>),
}

/// `v` is the field value made from the texts `vs`.
pub open spec fn holds_values(v: TagValue, vs: Seq<Seq<char>>) -> bool {
    if vs.len() == 1 {
        v matches TagValue::Text(t) && t@ == vs[0]
    } else {
        v matches TagValue::Array(a) && a.deep_view() == vs
    }
}

/// The field value made from a list of tag texts.
pub fn values_to_value(values: Vec<String>) -> (r: TagValue)
    ensures
        holds_values(r, values.deep_view()),
{
    if values.len() == 1 {
        let mut values = values;
        let text = values.pop().unwrap();
        return TagValue::Text(text);
    }
    TagValue::Array(values)
}

/// The fields that come first in a metadata map, in this order.
pub open spec fn common_fields() -> Seq<Seq<char>> {
    seq![
        "title"@,
        "artist"@,
        "album"@,
        "album artist"@,
        "date"@,
        "track number"@,
        "genre"@,
        "composer"@,
        "copyright"@,
        "description"@,
        "producer"@,
        "engineer"@,
        "mixer"@,
        "assistant engineer"@,
        "songwriter"@,
        "mastering"@,
        "inscribing"@,
        "technology"@
    ]
}

fn common_field_names() -> (r: Vec<&'static str>)
    ensures
        r@.len() == common_fields().len(),
        forall|i: int| 0 <= i < r@.len() ==> #[trigger] r@[i]@ == common_fields()[i],
{
    let r = vec![
        "title",
        "artist",
        "album",
        "album artist",
        "date",
        "track number",
        "genre",
        "composer",
        "copyright",
        "description",
        "producer",
        "engineer",
        "mixer",
        "assistant engineer",
        "songwriter",
        "mastering",
        "inscribing",
        "technology"
    ];
    assert forall|i: int| 0 <= i < r@.len() implies #[trigger] r@[i]@ == common_fields()[i] by {}
    r
}

/// The (normalized key, value) pairs that a metadata map is made from:
/// picture tags, and tags whose key normalizes to nothing, left out.
pub open spec fn keyed_values(tags: Seq<(Seq<char>, Seq<char>)>) -> Seq<(Seq<char>, Seq<char>)>
    decreases tags.len(),
{
    if tags.len() == 0 {
        Seq::empty()
    } else {
        let rest = keyed_values(tags.drop_last());
        let key = tags.last().0;
        if is_picture_key(key) || normalized_key(key).len() == 0 {
            rest
        } else {
            rest.push((normalized_key(key), tags.last().1))
        }
    }
}

/// The values given for `key`, in order.
pub open spec fn values_of(kv: Seq<(Seq<char>, Seq<char>)>, key: Seq<char>) -> Seq<Seq<char>>
    decreases kv.len(),
{
    if kv.len() == 0 {
        Seq::empty()
    } else if kv.last().0 == key {
        values_of(kv.drop_last(), key).push(kv.last().1)
    } else {
        values_of(kv.drop_last(), key)
    }
}

/// Some value is given for `key`.
pub open spec fn has_key(kv: Seq<(Seq<char>, Seq<char>)>, key: Seq<char>) -> bool {
    values_of(kv, key).len() > 0
}

/// The fields of `fields` for which some value is given, in order.
pub open spec fn present_fields(kv: Seq<(Seq<char>, Seq<char>)>, fields: Seq<Seq<char>>) -> Seq<Seq<char>>
    decreases fields.len(),
{
    if fields.len() == 0 {
        Seq::empty()
    } else if has_key(kv, fields.last()) {
        present_fields(kv, fields.drop_last()).push(fields.last())
    } else {
        present_fields(kv, fields.drop_last())
    }
}

/// `a` sorts before `b` (how `String`s compare: lexicographically by character).
pub open spec fn key_less(a: Seq<char>, b: Seq<char>) -> bool
    decreases a.len(),
{
    if a.len() == 0 {
        b.len() > 0
    } else if b.len() == 0 {
        false
    } else if a[0] == b[0] {
        key_less(a.drop_first(), b.drop_first())
    } else {
        a[0] < b[0]
    }
}

/// `m` is the metadata map of the pairs `kv`: first an entry for each common
/// field with a value, in the order of `common_fields`; then one entry for each
/// other key with a value, in ascending key order; each entry holding the values
/// given for its key.
pub open spec fn is_metadata_of(m: Seq<(String, TagValue)>, kv: Seq<(Seq<char>, Seq<char>)>) -> bool {
    let common = present_fields(kv, common_fields());
    &&& common.len() <= m.len()
    &&& forall|i: int| 0 <= i < common.len() ==> #[trigger] m[i].0@ == common[i]
    &&& forall|i: int| 0 <= i < m.len() ==> holds_values(#[trigger] m[i].1, values_of(kv, m[i].0@))
    &&& forall|i: int| common.len() <= i < m.len() ==>
        has_key(kv, #[trigger] m[i].0@) && !common_fields().contains(m[i].0@)
    &&& forall|i: int, j: int| common.len() <= i < j < m.len() ==> key_less(#[trigger] m[i].0@, #[trigger] m[j].0@)
    &&& forall|key: Seq<char>| has_key(kv, key) && !common_fields().contains(key) ==>
        exists|i: int| common.len() <= i < m.len() && #[trigger] m[i].0@ == key
}


pub(crate) proof fn lemma_key_less_irreflexive(a: Seq<char>)
    ensures
        !key_less(a, a),
    decreases a.len(),
{
    if a.len() > 0 {
        lemma_key_less_irreflexive(a.drop_first());
    }
}

pub(crate) proof fn lemma_key_less_transitive(a: Seq<char>, b: Seq<char>, c: Seq<char>)
    requires
        key_less(a, b),
        key_less(b, c),
    ensures
        key_less(a, c),
    decreases a.len(),
{
    if a.len() > 0 && b.len() > 0 && c.len() > 0 && a[0] == b[0] && b[0] == c[0] {
        lemma_key_less_transitive(a.drop_first(), b.drop_first(), c.drop_first());
    }
}

proof fn lemma_key_less_total(a: Seq<char>, b: Seq<char>)
    requires
        a != b,
    ensures
        key_less(a, b) || key_less(b, a),
    decreases a.len(),
{
    if a.len() == 0 && b.len() == 0 {
        assert(a =~= b);
    }
    if a.len() > 0 && b.len() > 0 && a[0] == b[0] {
        assert(a =~= seq![a[0]] + a.drop_first());
        assert(b =~= seq![b[0]] + b.drop_first());
        lemma_key_less_total(a.drop_first(), b.drop_first());
    }
}

/// `a` sorts before `b`, as `String`s compare.
pub fn chars_less(a: &Vec<char>, b: &Vec<char>) -> (r: bool)
    ensures
        r == key_less(a@, b@),
{
    let mut i: usize = 0;
    assert(a@.skip(0) =~= a@);
    assert(b@.skip(0) =~= b@);
    loop
        invariant
            i <= a.len(),
            i <= b.len(),
            key_less(a@, b@) == key_less(a@.skip(i as int), b@.skip(i as int)),
        decreases a.len() - i,
    {
        if i == a.len() {
            return i < b.len();
        }
        if i == b.len() {
            return false;
        }
        if a[i] != b[i] {
            return a[i] < b[i];
        }
        assert(a@.skip(i as int).drop_first() =~= a@.skip(i + 1));
        assert(b@.skip(i as int).drop_first() =~= b@.skip(i + 1));
        i = i + 1;
    }
}

proof fn lemma_has_key_of_entry(kv: Seq<(Seq<char>, Seq<char>)>, i: int)
    requires
        0 <= i < kv.len(),
    ensures
        has_key(kv, kv[i].0),
    decreases kv.len(),
{
    if i < kv.len() - 1 {
        assert(kv.drop_last()[i] == kv[i]);
        lemma_has_key_of_entry(kv.drop_last(), i);
    }
}

/// The groups built so far: keys strictly ascending, each with the values given
/// for it, and every key with a value among them.
spec fn grouped(keys: Seq<Seq<char>>, vals: Seq<Seq<Seq<char>>>, kv: Seq<(Seq<char>, Seq<char>)>) -> bool {
    &&& keys.len() == vals.len()
    &&& forall|i: int, j: int| 0 <= i < j < keys.len() ==> key_less(#[trigger] keys[i], #[trigger] keys[j])
    &&& forall|i: int| 0 <= i < keys.len() ==> #[trigger] vals[i] == values_of(kv, keys[i]) && has_key(kv, keys[i])
    &&& forall|key: Seq<char>| has_key(kv, key) ==> exists|i: int| 0 <= i < keys.len() && #[trigger] keys[i] == key
}


proof fn lemma_values_of_push(kv: Seq<(Seq<char>, Seq<char>)>, k: Seq<char>, v: Seq<char>, key: Seq<char>)
    ensures
        values_of(kv.push((k, v)), key) == (if k == key { values_of(kv, key).push(v) } else { values_of(kv, key) }),
{
    assert(kv.push((k, v)).drop_last() =~= kv);
}

/// Adds the value `value` under `key` to the groups.
#[verifier::spinoff_prover]
fn add_to_groups(
    keys: &mut Vec<Vec<char>>,
    vals: &mut Vec<Vec<String>>,
    key: Vec<char>,
    value: String,
    Ghost(kv): Ghost<Seq<(Seq<char>, Seq<char>)>>,
)
    requires
        grouped(old(keys).deep_view(), old(vals).deep_view(), kv),
    ensures
        grouped(final(keys).deep_view(), final(vals).deep_view(), kv.push((key@, value@))),
{
    let ghost gk = keys.deep_view();
    let ghost gv = vals.deep_view();
    let ghost kv1 = kv.push((key@, value@));
    let ghost k = key@;
    let ghost v = value@;
    assert(key.deep_view() =~= key@);
    assert forall|x: Seq<char>| #[trigger] values_of(kv1, x) == (if k == x { values_of(kv, x).push(v) } else { values_of(kv, x) }) by {
        lemma_values_of_push(kv, k, v, x);
    }
    let mut j: usize = 0;
    while j < keys.len() && chars_less(&keys[j], &key)
        invariant
            j <= keys.len(),
            keys.deep_view() == gk,
            k == key@,
            forall|l: int| 0 <= l < j ==> key_less(#[trigger] gk[l], k),
        decreases keys.len() - j,
    {
        assert(keys@[j as int].deep_view() =~= keys@[j as int]@);
        assert(gk[j as int] == keys@[j as int]@);
        j = j + 1;
    }
    if j < keys.len() {
        assert(keys@[j as int].deep_view() =~= keys@[j as int]@);
    }
    if j < keys.len() && crate::text::eq_chars(&keys[j], &key) {
        let mut list = vals.remove(j);
        let ghost before = list.deep_view();
        list.push(value);
        assert(list.deep_view() =~= before.push(v));
        vals.insert(j, list);
        let ghost nv = gv.update(j as int, gv[j as int].push(v));
        assert(vals.deep_view() =~= nv) by {
            assert forall|l: int| 0 <= l < nv.len() implies #[trigger] vals.deep_view()[l] == nv[l] by {
                if l < j {
                    assert(vals@[l] == old(vals)@[l]);
                } else if l > j {
                    assert(vals@[l] == old(vals)@[l]);
                }
            }
        }
        assert(grouped(keys.deep_view(), vals.deep_view(), kv1)) by {
            assert forall|x: Seq<char>| has_key(kv1, x) implies exists|i: int| 0 <= i < gk.len() && #[trigger] gk[i] == x by {
                if x != k {
                    assert(has_key(kv, x));
                } else {
                    assert(gk[j as int] == x);
                }
            }
        }
    } else {
        proof {
            if j < gk.len() {
                lemma_key_less_total(gk[j as int], k);
            }
        }
        let mut list: Vec<String> = Vec::new();
        list.push(value);
        assert(list.deep_view() =~= seq![v]);
        keys.insert(j, key);
        vals.insert(j, list);
        let ghost nk = gk.insert(j as int, k);
        let ghost nv = gv.insert(j as int, seq![v]);
        assert(keys.deep_view() =~= nk) by {
            assert forall|l: int| 0 <= l < nk.len() implies #[trigger] keys.deep_view()[l] == nk[l] by {
                if l < j {
                    assert(keys@[l] == old(keys)@[l]);
                } else if l > j {
                    assert(keys@[l] == old(keys)@[l - 1]);
                } else {
                    assert(keys@[l].deep_view() =~= k);
                }
            }
        }
        assert(vals.deep_view() =~= nv) by {
            assert forall|l: int| 0 <= l < nv.len() implies #[trigger] vals.deep_view()[l] == nv[l] by {
                if l < j {
                    assert(vals@[l] == old(vals)@[l]);
                } else if l > j {
                    assert(vals@[l] == old(vals)@[l - 1]);
                }
            }
        }
        assert forall|a: int, b: int| 0 <= a < b < nk.len() implies key_less(#[trigger] nk[a], #[trigger] nk[b]) by {
            if b < j {
            } else if b == j {
            } else if a < j {
                assert(key_less(gk[a], k));
                if j < gk.len() {
                    assert(key_less(k, gk[j as int]));
                    if b - 1 > j {
                        lemma_key_less_transitive(k, gk[j as int], gk[b - 1]);
                    }
                    lemma_key_less_transitive(gk[a], k, gk[b - 1]);
                }
            } else if a == j {
                assert(key_less(k, gk[j as int]));
                if b - 1 > j {
                    lemma_key_less_transitive(k, gk[j as int], gk[b - 1]);
                }
            } else {
                assert(nk[a] == gk[a - 1] && nk[b] == gk[b - 1]);
            }
        }
        assert forall|i: int| 0 <= i < nk.len() implies #[trigger] nv[i] == values_of(kv1, nk[i]) && has_key(kv1, nk[i]) by {
            if i < j {
                assert(nk[i] == gk[i] && nv[i] == gv[i]);
                assert(key_less(gk[i], k));
                lemma_key_less_irreflexive(k);
            } else if i > j {
                assert(nk[i] == gk[i - 1] && nv[i] == gv[i - 1]);
                assert(key_less(k, gk[j as int]));
                if i - 1 > j {
                    lemma_key_less_transitive(k, gk[j as int], gk[i - 1]);
                }
                lemma_key_less_irreflexive(k);
            } else {
                if has_key(kv, k) {
                    let l = choose|l: int| 0 <= l < gk.len() && gk[l] == k;
                    if l < j {
                        lemma_key_less_irreflexive(k);
                    } else if l > j {
                        lemma_key_less_transitive(k, gk[j as int], gk[l]);
                        lemma_key_less_irreflexive(k);
                    }
                }
            }
        }
        assert forall|x: Seq<char>| has_key(kv1, x) implies exists|i: int| 0 <= i < nk.len() && #[trigger] nk[i] == x by {
            if x == k {
                assert(nk[j as int] == x);
            } else {
                assert(has_key(kv, x));
                let l = choose|l: int| 0 <= l < gk.len() && gk[l] == x;
                if l < j {
                    assert(nk[l] == x);
                } else {
                    assert(nk[l + 1] == x);
                }
            }
        }
        assert(grouped(nk, nv, kv1));
    }
}


/// Groups the values of `tags` by normalized key, keys ascending.
fn group_tags(tags: &Vec<(String, String)>) -> (r: (Vec<Vec<char>>, Vec<Vec<String>>))
    ensures
        grouped(r.0.deep_view(), r.1.deep_view(), keyed_values(tags.deep_view())),
{
    let ghost tv = tags.deep_view();
    let mut keys: Vec<Vec<char>> = Vec::new();
    let mut vals: Vec<Vec<String>> = Vec::new();
    let mut i: usize = 0;
    assert(keys.deep_view() =~= Seq::<Seq<char>>::empty());
    assert(vals.deep_view() =~= Seq::<Seq<Seq<char>>>::empty());
    assert(tv.take(0) =~= Seq::<(Seq<char>, Seq<char>)>::empty());
    while i < tags.len()
        invariant
            i <= tags.len(),
            tv == tags.deep_view(),
            grouped(keys.deep_view(), vals.deep_view(), keyed_values(tv.take(i as int))),
        decreases tags.len() - i,
    {
        let ghost kv0 = keyed_values(tv.take(i as int));
        assert(tv.take(i + 1).drop_last() =~= tv.take(i as int));
        assert(tv.take(i + 1).last() == tv[i as int]);
        assert(tv[i as int].0 == tags@[i as int].0@ && tv[i as int].1 == tags@[i as int].1@);
        if !is_picture_tag(tags[i].0.as_str()) {
            let normalized = normalize_opus_tag_key(tags[i].0.as_str());
            if !normalized.as_str().is_empty() {
                let key = chars_of(normalized.as_str());
                let value = tags[i].1.clone();
                add_to_groups(&mut keys, &mut vals, key, value, Ghost(kv0));
            }
        }
        i = i + 1;
    }
    assert(tv.take(tags.len() as int) =~= tv);
    (keys, vals)
}

/// A copy of a list of strings.
fn copy_strings(v: &Vec<String>) -> (r: Vec<String>)
    ensures
        r.deep_view() == v.deep_view(),
{
    let mut out: Vec<String> = Vec::new();
    let mut i: usize = 0;
    while i < v.len()
        invariant
            i <= v.len(),
            out.deep_view() == v.deep_view().take(i as int),
        decreases v.len() - i,
    {
        let ghost before = out.deep_view();
        out.push(v[i].clone());
        assert(out.deep_view() =~= before.push(v@[i as int]@));
        i = i + 1;
        assert(out.deep_view() =~= v.deep_view().take(i as int));
    }
    assert(v.deep_view().take(v.len() as int) =~= v.deep_view());
    out
}

/// The index of `key` among `keys`, if it is there.
fn position_of(keys: &Vec<Vec<char>>, key: &Vec<char>) -> (r: Option<usize>)
    ensures
        r matches Some(j) ==> j < keys.len() && keys.deep_view()[j as int] == key@,
        r is None ==> forall|l: int| 0 <= l < keys.len() ==> #[trigger] keys.deep_view()[l] != key@,
{
    let mut j: usize = 0;
    while j < keys.len()
        invariant
            j <= keys.len(),
            forall|l: int| 0 <= l < j ==> #[trigger] keys.deep_view()[l] != key@,
        decreases keys.len() - j,
    {
        assert(keys.deep_view()[j as int] =~= keys@[j as int]@);
        if crate::text::eq_chars(&keys[j], key) {
            return Some(j);
        }
        j = j + 1;
    }
    None
}

/// Whether `key` is one of the common fields.
fn is_common_field(names: &Vec<&'static str>, key: &Vec<char>) -> (r: bool)
    requires
        names@.len() == common_fields().len(),
        forall|i: int| 0 <= i < names@.len() ==> #[trigger] names@[i]@ == common_fields()[i],
    ensures
        r == common_fields().contains(key@),
{
    let mut c: usize = 0;
    while c < names.len()
        invariant
            c <= names.len(),
            names@.len() == common_fields().len(),
            forall|i: int| 0 <= i < names@.len() ==> #[trigger] names@[i]@ == common_fields()[i],
            forall|l: int| 0 <= l < c ==> common_fields()[l] != key@,
        decreases names.len() - c,
    {
        let name = chars_of(names[c]);
        if crate::text::eq_chars(&name, key) {
            assert(common_fields()[c as int] == key@);
            return true;
        }
        c = c + 1;
    }
    false
}


/// The metadata map of a list of (key, value) tags: values grouped under their
/// normalized keys, picture tags and keys that normalize to nothing left out;
/// `None` when no tag is left.
pub fn from_tags(tags: Vec<(String, String)>) -> (r: Option<Vec<(String, TagValue)>>)
    ensures
        r is None <==> keyed_values(tags.deep_view()).len() == 0,
        r matches Some(m) ==> is_metadata_of(m@, keyed_values(tags.deep_view())),
{
    let ghost kv = keyed_values(tags.deep_view());
    let (keys, vals) = group_tags(&tags);
    let ghost gk = keys.deep_view();
    let ghost gv = vals.deep_view();
    if keys.len() == 0 {
        proof {
            if kv.len() > 0 {
                lemma_has_key_of_entry(kv, 0);
                let l = choose|l: int| 0 <= l < gk.len() && gk[l] == kv[0].0;
            }
        }
        return None;
    }
    assert(0 < gk.len());
    assert(gv[0] == values_of(kv, gk[0]));
    let names = common_field_names();
    let ghost cf = common_fields();
    let mut m: Vec<(String, TagValue)> = Vec::new();
    let mut c: usize = 0;
    assert(cf.take(0) =~= Seq::<Seq<char>>::empty());
    while c < names.len()
        invariant
            c <= names.len(),
            names@.len() == cf.len(),
            cf == common_fields(),
            forall|i: int| 0 <= i < names@.len() ==> #[trigger] names@[i]@ == cf[i],
            grouped(gk, gv, kv),
            keys.deep_view() == gk,
            vals.deep_view() == gv,
            m@.len() == present_fields(kv, cf.take(c as int)).len(),
            forall|l: int| 0 <= l < m@.len() ==> #[trigger] m@[l].0@ == present_fields(kv, cf.take(c as int))[l],
            forall|l: int| 0 <= l < m@.len() ==> holds_values(#[trigger] m@[l].1, values_of(kv, m@[l].0@)),
        decreases names.len() - c,
    {
        let ghost f = cf[c as int];
        assert(cf.take(c + 1).drop_last() =~= cf.take(c as int));
        assert(cf.take(c + 1).last() == f);
        let name = chars_of(names[c]);
        match position_of(&keys, &name) {
            Some(j) => {
                assert(vals@[j as int].deep_view() == gv[j as int]);
                let value = values_to_value(copy_strings(&vals[j]));
                m.push((names[c].to_owned(), value));
            },
            None => {
                proof {
                    if has_key(kv, f) {
                        let l = choose|l: int| 0 <= l < gk.len() && gk[l] == f;
                    }
                }
            },
        }
        c = c + 1;
    }
    assert(cf.take(cf.len() as int) =~= cf);
    let ghost common = present_fields(kv, cf);
    let ncommon = m.len();
    let mut j: usize = 0;
    while j < keys.len()
        invariant
            j <= keys.len(),
            names@.len() == cf.len(),
            cf == common_fields(),
            forall|i: int| 0 <= i < names@.len() ==> #[trigger] names@[i]@ == cf[i],
            grouped(gk, gv, kv),
            keys.deep_view() == gk,
            vals.deep_view() == gv,
            ncommon == common.len(),
            common == present_fields(kv, cf),
            ncommon <= m@.len(),
            forall|l: int| 0 <= l < ncommon ==> #[trigger] m@[l].0@ == common[l],
            forall|l: int| 0 <= l < m@.len() ==> holds_values(#[trigger] m@[l].1, values_of(kv, m@[l].0@)),
            forall|l: int| ncommon <= l < m@.len() ==>
                has_key(kv, #[trigger] m@[l].0@) && !cf.contains(m@[l].0@),
            forall|l: int, q: int| ncommon <= l < m@.len() && j <= q < gk.len() ==>
                key_less(#[trigger] m@[l].0@, #[trigger] gk[q]),
            forall|a: int, b: int| ncommon <= a < b < m@.len() ==> key_less(#[trigger] m@[a].0@, #[trigger] m@[b].0@),
            forall|q: int| 0 <= q < j && !cf.contains(#[trigger] gk[q]) ==>
                exists|l: int| ncommon <= l < m@.len() && #[trigger] m@[l].0@ == gk[q],
        decreases keys.len() - j,
    {
        assert(keys@[j as int]@ == gk[j as int]) by {
            assert(keys@[j as int].deep_view() =~= keys@[j as int]@);
        }
        if !is_common_field(&names, &keys[j]) {
            assert(vals@[j as int].deep_view() == gv[j as int]);
            let value = values_to_value(copy_strings(&vals[j]));
            let ghost before = m@;
            m.push((crate::text::string_of(&keys[j]), value));
            assert forall|l: int, q: int| ncommon <= l < m@.len() && j + 1 <= q < gk.len() implies
                key_less(#[trigger] m@[l].0@, #[trigger] gk[q]) by {
                if l < before.len() {
                    assert(key_less(m@[l].0@, gk[j as int]));
                    lemma_key_less_transitive(m@[l].0@, gk[j as int], gk[q]);
                }
            }
            assert forall|q: int| 0 <= q < j + 1 && !cf.contains(#[trigger] gk[q]) implies
                exists|l: int| ncommon <= l < m@.len() && #[trigger] m@[l].0@ == gk[q] by {
                if q < j {
                    let l = choose|l: int| ncommon <= l < before.len() && before[l].0@ == gk[q];
                    assert(m@[l] == before[l]);
                } else {
                    assert(m@[before.len() as int].0@ == gk[q]);
                }
            }
        }
        j = j + 1;
    }
    assert forall|key: Seq<char>| has_key(kv, key) && !cf.contains(key) implies
        exists|l: int| ncommon <= l < m@.len() && #[trigger] m@[l].0@ == key by {
        let q = choose|q: int| 0 <= q < gk.len() && gk[q] == key;
    }
    Some(m)
}

/// The metadata map of an Opus stream's tags.
pub fn structured(body: &[u8]) -> (r: Option<Vec<(String, TagValue)>>)
    ensures
        r is None <==> keyed_values(body_tags(body@)).len() == 0,
        r matches Some(m) ==> is_metadata_of(m@, keyed_values(body_tags(body@))),
{
    from_tags(raw_tags(body))
}

} // verus!
