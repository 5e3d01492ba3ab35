//! Reading a pagination query string back: splitting it at `&`, finding the
//! value after each `name=`, and reading numbers back from their decimal text.
use vstd::prelude::*;
use crate::inscriptions::{InscriptionsHtml, Rarity, Sort};
use crate::text::{decimal, digit, digits, join, starts_with};

verus! {

/// The `&`-separated fields of a text, in order (Rust's `str::split('&')`).
pub open spec fn split_fields(s: Seq<char>) -> Seq<Seq<char>>
    decreases s.len(),
{
    if s.len() == 0 {
        seq![Seq::empty()]
    } else if s.last() == '&' {
        split_fields(s.drop_last()).push(Seq::empty())
    } else {
        let p = split_fields(s.drop_last());
        p.update(p.len() - 1, p.last().push(s.last()))
    }
}

/// No `&` occurs in `s`.
pub open spec fn no_separator(s: Seq<char>) -> bool {
    forall|i: int| 0 <= i < s.len() ==> #[trigger] s[i] != '&'
}

/// The value after `prefix` in the first field that starts with it.
pub open spec fn field_value(fields: Seq<Seq<char>>, prefix: Seq<char>) -> Option<Seq<char>>
    decreases fields.len(),
{
    if fields.len() == 0 {
        None
    } else if starts_with(fields[0], prefix) {
        Some(fields[0].skip(prefix.len() as int))
    } else {
        field_value(fields.drop_first(), prefix)
    }
}

/// The number written by a run of decimal digits.
pub open spec fn digits_value(s: Seq<char>) -> int
    decreases s.len(),
{
    if s.len() == 0 {
        0
    } else {
        digits_value(s.drop_last()) * 10 + (s.last() as int - '0' as int)
    }
}

/// The number written by an optional `-` and decimal digits.
pub open spec fn decimal_value(s: Seq<char>) -> int {
    if s.len() > 0 && s[0] == '-' {
        -digits_value(s.drop_first())
    } else {
        digits_value(s)
    }
}

proof fn lemma_split_nonempty(s: Seq<char>)
    ensures
        split_fields(s).len() >= 1,
    decreases s.len(),
{
    if s.len() > 0 {
        lemma_split_nonempty(s.drop_last());
    }
}

proof fn lemma_split_append(a: Seq<char>, b: Seq<char>)
    requires
        no_separator(b),
    ensures
        split_fields(a + b) == split_fields(a).drop_last().push(split_fields(a).last() + b),
    decreases b.len(),
{
    lemma_split_nonempty(a);
    if b.len() == 0 {
        assert(a + b =~= a);
        assert(split_fields(a).last() + b =~= split_fields(a).last());
        assert(split_fields(a).drop_last().push(split_fields(a).last()) =~= split_fields(a));
    } else {
        let b1 = b.drop_last();
        assert(no_separator(b1)) by {
            assert forall|i: int| 0 <= i < b1.len() implies #[trigger] b1[i] != '&' by {
                assert(b1[i] == b[i]);
            }
        }
        lemma_split_append(a, b1);
        assert((a + b).drop_last() =~= a + b1);
        assert((a + b).last() == b[b.len() - 1]);
        let x = split_fields(a).last();
        assert((x + b1).push(b.last()) =~= x + b);
        assert(split_fields(a).drop_last().push(x + b1).update(split_fields(a).len() - 1, (x + b1).push(b.last()))
            =~= split_fields(a).drop_last().push(x + b));
    }
}

/// Fields joined by `&` are split back into the same fields, when none holds `&`.
proof fn lemma_split_join(fields: Seq<Seq<char>>)
    requires
        fields.len() >= 1,
        forall|i: int| 0 <= i < fields.len() ==> no_separator(#[trigger] fields[i]),
    ensures
        split_fields(join(fields, seq!['&'])) == fields,
    decreases fields.len(),
{
    if fields.len() == 1 {
        assert(no_separator(fields[0]));
        lemma_split_append(Seq::empty(), fields[0]);
        assert(Seq::<char>::empty() + fields[0] =~= fields[0]);
        assert(Seq::<Seq<char>>::empty().push(fields[0]) =~= fields);
    } else {
        let init = fields.drop_last();
        assert forall|i: int| 0 <= i < init.len() implies no_separator(#[trigger] init[i]) by {
            assert(init[i] == fields[i]);
        }
        lemma_split_join(init);
        let j = join(init, seq!['&']);
        let a = j + seq!['&'];
        assert(a.drop_last() =~= j);
        assert(split_fields(a) == split_fields(j).push(Seq::empty()));
        assert(no_separator(fields[fields.len() - 1]));
        lemma_split_append(a, fields.last());
        assert(Seq::<char>::empty() + fields.last() =~= fields.last());
        assert(split_fields(a).drop_last() =~= init);
        assert(init.push(fields.last()) =~= fields);
    }
}

proof fn lemma_digits_text(n: nat)
    ensures
        digits(n).len() >= 1,
        forall|i: int| 0 <= i < digits(n).len() ==> '0' <= #[trigger] digits(n)[i] && digits(n)[i] <= '9',
        digits_value(digits(n)) == n,
    decreases n,
{
    if n < 10 {
        assert(digit(n) as int == '0' as int + n);
        assert(seq![digit(n)].drop_last() =~= Seq::<char>::empty());
        assert(digits_value(seq![digit(n)]) == digits_value(Seq::<char>::empty()) * 10 + n);
    } else {
        lemma_digits_text(n / 10);
        let d = digits(n / 10);
        assert(digit(n % 10) as int == '0' as int + n % 10);
        assert(d.push(digit(n % 10)).drop_last() =~= d);
        assert(digits_value(digits(n)) == digits_value(d) * 10 + (n % 10));
        assert(n == (n / 10) * 10 + n % 10);
        assert forall|i: int| 0 <= i < digits(n).len() implies '0' <= #[trigger] digits(n)[i] && digits(n)[i] <= '9' by {
            if i < d.len() {
                assert(digits(n)[i] == d[i]);
            }
        }
    }
}

/// The decimal text of a number reads back as that number; it holds no `&`.
pub proof fn lemma_decimal_reads_back(n: int)
    ensures
        decimal_value(decimal(n)) == n,
        no_separator(decimal(n)),
{
    if n < 0 {
        let m = (-n) as nat;
        lemma_digits_text(m);
        assert((seq!['-'] + digits(m)).drop_first() =~= digits(m));
        assert forall|i: int| 0 <= i < decimal(n).len() implies #[trigger] decimal(n)[i] != '&' by {
            if i > 0 {
                assert(decimal(n)[i] == digits(m)[i - 1]);
            }
        }
    } else {
        lemma_digits_text(n as nat);
        assert(digits(n as nat)[0] != '-');
    }
}

/// The fields of a pagination query string: none when it is empty, else the
/// `&`-separated fields after its leading `?`.
pub open spec fn query_fields(q: Seq<char>) -> Seq<Seq<char>> {
    if q.len() == 0 {
        Seq::empty()
    } else {
        split_fields(q.drop_first())
    }
}

/// The sort that a `sort=` value names: oldest first for `oldest`, else
/// newest first.
pub open spec fn sort_named(v: Option<Seq<char>>) -> Sort {
    if v == Some("oldest"@) {
        Sort::Oldest
    } else {
        Sort::Newest
    }
}

/// The rarity that a `rarity=` value names; any rarity for none.
pub open spec fn rarity_named(v: Option<Seq<char>>) -> Rarity {
    if v == Some("uncommon"@) {
        Rarity::Uncommon
    } else if v == Some("rare"@) {
        Rarity::Rare
    } else if v == Some("epic"@) {
        Rarity::Epic
    } else if v == Some("legendary"@) {
        Rarity::Legendary
    } else if v == Some("mythic"@) {
        Rarity::Mythic
    } else {
        Rarity::Any
    }
}

/// The number that a value reads as, if there is a value.
pub open spec fn number_read(v: Option<Seq<char>>) -> Option<int> {
    match v {
        Some(t) => Some(decimal_value(t)),
        None => None,
    }
}

/// An optional `i32` as an optional integer.
pub open spec fn opt_int(n: Option<i32>) -> Option<int> {
    match n {
        Some(n) => Some(n as int),
        None => None,
    }
}

/// The field `prefix` + `value` when `present`, else no field.
spec fn opt_field(present: bool, prefix: Seq<char>, value: Seq<char>) -> Seq<Seq<char>> {
    if present {
        seq![prefix + value]
    } else {
        Seq::empty()
    }
}

/// `a` when it is a value, else `b`.
spec fn first_some(a: Option<Seq<char>>, b: Option<Seq<char>>) -> Option<Seq<char>> {
    if a is Some {
        a
    } else {
        b
    }
}

/// One of the five prefixes that a pagination query's fields begin with.
pub open spec fn is_query_key(f: Seq<char>) -> bool {
    ||| starts_with(f, "sort="@)
    ||| starts_with(f, "cursed="@)
    ||| starts_with(f, "from="@)
    ||| starts_with(f, "to="@)
    ||| starts_with(f, "rarity="@)
}

proof fn lemma_all_concat(a: Seq<Seq<char>>, b: Seq<Seq<char>>, f: spec_fn(Seq<char>) -> bool)
    requires
        forall|i: int| 0 <= i < a.len() ==> f(#[trigger] a[i]),
        forall|i: int| 0 <= i < b.len() ==> f(#[trigger] b[i]),
    ensures
        forall|i: int| 0 <= i < (a + b).len() ==> f(#[trigger] (a + b)[i]),
{
    assert forall|i: int| 0 <= i < (a + b).len() implies f(#[trigger] (a + b)[i]) by {
        if i < a.len() {
            assert((a + b)[i] == a[i]);
        } else {
            assert((a + b)[i] == b[i - a.len()]);
        }
    }
}

proof fn lemma_concat_no_separator(a: Seq<char>, b: Seq<char>)
    requires
        no_separator(a),
        no_separator(b),
    ensures
        no_separator(a + b),
{
    assert forall|i: int| 0 <= i < (a + b).len() implies #[trigger] (a + b)[i] != '&' by {
        if i < a.len() {
            assert((a + b)[i] == a[i]);
        } else {
            assert((a + b)[i] == b[i - a.len()]);
        }
    }
}

proof fn lemma_short_no_separator(s: Seq<char>)
    requires
        s.len() <= 9,
        s.len() > 0 ==> s[0] != '&',
        s.len() > 1 ==> s[1] != '&',
        s.len() > 2 ==> s[2] != '&',
        s.len() > 3 ==> s[3] != '&',
        s.len() > 4 ==> s[4] != '&',
        s.len() > 5 ==> s[5] != '&',
        s.len() > 6 ==> s[6] != '&',
        s.len() > 7 ==> s[7] != '&',
        s.len() > 8 ==> s[8] != '&',
    ensures
        no_separator(s),
{
    assert forall|i: int| 0 <= i < s.len() implies #[trigger] s[i] != '&' by {
        assert(i == 0 || i == 1 || i == 2 || i == 3 || i == 4 || i == 5 || i == 6 || i == 7 || i == 8);
    }
}

proof fn lemma_field_value_concat(a: Seq<Seq<char>>, b: Seq<Seq<char>>, prefix: Seq<char>)
    ensures
        field_value(a + b, prefix) == first_some(field_value(a, prefix), field_value(b, prefix)),
    decreases a.len(),
{
    if a.len() == 0 {
        assert(a + b =~= b);
    } else {
        assert((a + b)[0] == a[0]);
        assert((a + b).drop_first() =~= a.drop_first() + b);
        lemma_field_value_concat(a.drop_first(), b, prefix);
    }
}

proof fn lemma_opt_field(present: bool, prefix: Seq<char>, value: Seq<char>)
    requires
        prefix.len() > 0,
    ensures
        forall|q: Seq<char>| q.len() > 0 && (q == prefix || q[0] != prefix[0]) ==>
            #[trigger] field_value(opt_field(present, prefix, value), q)
                == (if present && q == prefix { Some(value) } else { None::<Seq<char>> }),
        forall|i: int| 0 <= i < opt_field(present, prefix, value).len()
            ==> #[trigger] opt_field(present, prefix, value)[i] == prefix + value,
        starts_with(prefix + value, prefix),
{
    let f = prefix + value;
    assert(f.take(prefix.len() as int) =~= prefix);
    assert(f.skip(prefix.len() as int) =~= value);
    assert(f.take(prefix.len() as int)[0] == f[0]);
    assert(f[0] == prefix[0]);
    assert(field_value(Seq::<Seq<char>>::empty(), prefix) is None);
    assert forall|q: Seq<char>| q.len() > 0 && (q == prefix || q[0] != prefix[0]) implies
        #[trigger] field_value(opt_field(present, prefix, value), q)
            == (if present && q == prefix { Some(value) } else { None::<Seq<char>> }) by {
        if present {
            let fs = opt_field(present, prefix, value);
            assert(fs[0] == f);
            assert(fs.drop_first() =~= Seq::<Seq<char>>::empty());
            assert(field_value(Seq::<Seq<char>>::empty(), q) is None);
            if q != prefix && starts_with(f, q) {
                assert(f.take(q.len() as int)[0] == f[0]);
            }
        }
    }
}

proof fn lemma_five_fields(
    a1: Seq<Seq<char>>,
    a2: Seq<Seq<char>>,
    a3: Seq<Seq<char>>,
    a4: Seq<Seq<char>>,
    a5: Seq<Seq<char>>,
    q: Seq<char>,
)
    ensures
        field_value(a1 + a2 + a3 + a4 + a5, q) == first_some(
            field_value(a1, q),
            first_some(field_value(a2, q), first_some(field_value(a3, q), first_some(field_value(a4, q), field_value(a5, q)))),
        ),
{
    lemma_field_value_concat(a1 + a2 + a3 + a4, a5, q);
    lemma_field_value_concat(a1 + a2 + a3, a4, q);
    lemma_field_value_concat(a1 + a2, a3, q);
    lemma_field_value_concat(a1, a2, q);
}

/// The text of an optional bound; empty when there is none.
spec fn bound_text(n: Option<i32>) -> Seq<char> {
    match n {
        Some(n) => decimal(n as int),
        None => Seq::empty(),
    }
}

spec fn sort_field(page: InscriptionsHtml) -> Seq<Seq<char>> {
    opt_field(page.sort != Sort::Newest, "sort="@, page.sort.name())
}

spec fn cursed_field(page: InscriptionsHtml) -> Seq<Seq<char>> {
    opt_field(page.filter.cursed, "cursed="@, "1"@)
}

spec fn from_field(page: InscriptionsHtml) -> Seq<Seq<char>> {
    opt_field(page.filter.from is Some, "from="@, bound_text(page.filter.from))
}

spec fn to_field(page: InscriptionsHtml) -> Seq<Seq<char>> {
    opt_field(page.filter.to is Some, "to="@, bound_text(page.filter.to))
}

spec fn rarity_field(page: InscriptionsHtml) -> Seq<Seq<char>> {
    opt_field(page.filter.rarity != Rarity::Any, "rarity="@, page.filter.rarity.name())
}

proof fn lemma_query_parts_shape(page: InscriptionsHtml)
    ensures
        page.query_parts() == sort_field(page) + cursed_field(page) + from_field(page) + to_field(page) + rarity_field(page),
{
    reveal_strlit("cursed=");
    reveal_strlit("1");
    reveal_strlit("cursed=1");
    assert("cursed="@ + "1"@ =~= "cursed=1"@);
    assert(page.query_parts() =~= sort_field(page) + cursed_field(page) + from_field(page) + to_field(page) + rarity_field(page));
}

proof fn lemma_names_clean(page: InscriptionsHtml)
    ensures
        no_separator(page.sort.name()),
        no_separator(page.filter.rarity.name()),
        no_separator(bound_text(page.filter.from)),
        no_separator(bound_text(page.filter.to)),
{
    reveal_strlit("newest");
    reveal_strlit("oldest");
    reveal_strlit("any");
    reveal_strlit("uncommon");
    reveal_strlit("rare");
    reveal_strlit("epic");
    reveal_strlit("legendary");
    reveal_strlit("mythic");
    lemma_short_no_separator(page.sort.name());
    lemma_short_no_separator(page.filter.rarity.name());
    match page.filter.from {
        Some(n) => lemma_decimal_reads_back(n as int),
        None => lemma_short_no_separator(Seq::empty()),
    }
    match page.filter.to {
        Some(n) => lemma_decimal_reads_back(n as int),
        None => lemma_short_no_separator(Seq::empty()),
    }
}

proof fn lemma_query_fields_are_parts(page: InscriptionsHtml)
    ensures
        query_fields(page.query()) == page.query_parts(),
{
    let parts = page.query_parts();
    if parts.len() == 0 {
        assert(query_fields(page.query()) =~= parts);
    } else {
        reveal_strlit("sort=");
        reveal_strlit("cursed=");
        reveal_strlit("1");
        reveal_strlit("from=");
        reveal_strlit("to=");
        reveal_strlit("rarity=");
        lemma_query_parts_shape(page);
        lemma_names_clean(page);
        lemma_short_no_separator("sort="@);
        lemma_short_no_separator("cursed="@);
        lemma_short_no_separator("1"@);
        lemma_short_no_separator("from="@);
        lemma_short_no_separator("to="@);
        lemma_short_no_separator("rarity="@);
        lemma_concat_no_separator("sort="@, page.sort.name());
        lemma_concat_no_separator("cursed="@, "1"@);
        lemma_concat_no_separator("from="@, bound_text(page.filter.from));
        lemma_concat_no_separator("to="@, bound_text(page.filter.to));
        lemma_concat_no_separator("rarity="@, page.filter.rarity.name());
        let (p1, p2, p3, p4, p5) = (sort_field(page), cursed_field(page), from_field(page), to_field(page), rarity_field(page));
        let clean = |f: Seq<char>| no_separator(f);
        lemma_all_concat(p1, p2, clean);
        lemma_all_concat(p1 + p2, p3, clean);
        lemma_all_concat(p1 + p2 + p3, p4, clean);
        lemma_all_concat(p1 + p2 + p3 + p4, p5, clean);
        lemma_split_join(parts);
        assert(page.query().drop_first() =~= join(parts, seq!['&']));
    }
}

/// The pagination query string reads back as the page's sort and filter: the
/// value after `sort=` names the sort, `cursed=1` is there exactly for cursed
/// listings, the values after `from=` and `to=` read as the number bounds, the
/// value after `rarity=` names the rarity, a missing field reading as the
/// default; and every field begins with one of those five names.
pub proof fn law_pagination_query_reads_back(page: InscriptionsHtml)
    ensures
        ({
            let fields = query_fields(page.query());
            &&& sort_named(field_value(fields, "sort="@)) == page.sort
            &&& (field_value(fields, "cursed="@) == Some("1"@)) == page.filter.cursed
            &&& number_read(field_value(fields, "from="@)) == opt_int(page.filter.from)
            &&& number_read(field_value(fields, "to="@)) == opt_int(page.filter.to)
            &&& rarity_named(field_value(fields, "rarity="@)) == page.filter.rarity
            &&& forall|i: int| 0 <= i < fields.len() ==> is_query_key(#[trigger] fields[i])
        }),
{
    reveal_strlit("sort=");
    reveal_strlit("cursed=");
    reveal_strlit("from=");
    reveal_strlit("to=");
    reveal_strlit("rarity=");
    let fields = query_fields(page.query());
    lemma_query_fields_are_parts(page);
    lemma_query_parts_shape(page);
    let (p1, p2, p3, p4, p5) = (sort_field(page), cursed_field(page), from_field(page), to_field(page), rarity_field(page));
    assert(fields == p1 + p2 + p3 + p4 + p5);
    lemma_opt_field(page.sort != Sort::Newest, "sort="@, page.sort.name());
    lemma_opt_field(page.filter.cursed, "cursed="@, "1"@);
    lemma_opt_field(page.filter.from is Some, "from="@, bound_text(page.filter.from));
    lemma_opt_field(page.filter.to is Some, "to="@, bound_text(page.filter.to));
    lemma_opt_field(page.filter.rarity != Rarity::Any, "rarity="@, page.filter.rarity.name());
    assert(sort_named(field_value(fields, "sort="@)) == page.sort) by {
        lemma_five_fields(p1, p2, p3, p4, p5, "sort="@);
        reveal_strlit("newest");
        reveal_strlit("oldest");
    }
    assert((field_value(fields, "cursed="@) == Some("1"@)) == page.filter.cursed) by {
        lemma_five_fields(p1, p2, p3, p4, p5, "cursed="@);
    }
    assert(number_read(field_value(fields, "from="@)) == opt_int(page.filter.from)) by {
        lemma_five_fields(p1, p2, p3, p4, p5, "from="@);
        if let Some(n) = page.filter.from {
            lemma_decimal_reads_back(n as int);
        }
    }
    assert(number_read(field_value(fields, "to="@)) == opt_int(page.filter.to)) by {
        lemma_five_fields(p1, p2, p3, p4, p5, "to="@);
        if let Some(n) = page.filter.to {
            lemma_decimal_reads_back(n as int);
        }
    }
    assert(rarity_named(field_value(fields, "rarity="@)) == page.filter.rarity) by {
        lemma_five_fields(p1, p2, p3, p4, p5, "rarity="@);
        reveal_strlit("any");
        reveal_strlit("uncommon");
        reveal_strlit("rare");
        reveal_strlit("epic");
        reveal_strlit("legendary");
        reveal_strlit("mythic");
    }
    let keyed = |f: Seq<char>| is_query_key(f);
    lemma_all_concat(p1, p2, keyed);
    lemma_all_concat(p1 + p2, p3, keyed);
    lemma_all_concat(p1 + p2 + p3, p4, keyed);
    lemma_all_concat(p1 + p2 + p3 + p4, p5, keyed);
}

} // verus!
