//! Normalizing a tag key twice gives what normalizing it once gives.
use vstd::prelude::*;
use crate::opus::{canonical_key, expand_key, is_key_separator, key_in_words, lower_words, normalized_key, without_spaces, words};
use crate::text::{ascii_lower, is_ascii_upper, is_ws, join, lower_seq, trim, trim_end, trim_start};

verus! {

/// A character that normalization leaves as it is: not an ASCII uppercase
/// letter, not a separator, and a plain space if it is whitespace.
spec fn plain_char(c: char) -> bool {
    !is_ascii_upper(c) && !is_key_separator(c) && (is_ws(c) ==> c == ' ')
}

/// Plain characters, with no whitespace at the start and no two whitespace
/// characters in a row.
spec fn spaced_prefix(s: Seq<char>) -> bool {
    &&& forall|i: int| 0 <= i < s.len() ==> plain_char(#[trigger] s[i])
    &&& s.len() > 0 ==> !is_ws(s[0])
    &&& forall|i: int| 0 <= i < s.len() - 1 ==> !(is_ws(#[trigger] s[i]) && is_ws(s[i + 1]))
}

/// Words of plain characters joined by single spaces.
spec fn spaced(s: Seq<char>) -> bool {
    spaced_prefix(s) && (s.len() > 0 ==> !is_ws(s.last()))
}

proof fn lemma_spaced_prefix_drop_last(s: Seq<char>)
    requires
        spaced_prefix(s),
        s.len() > 0,
    ensures
        spaced_prefix(s.drop_last()),
{
    let p = s.drop_last();
    assert forall|i: int| 0 <= i < p.len() - 1 implies !(is_ws(#[trigger] p[i]) && is_ws(p[i + 1])) by {
        assert(p[i] == s[i] && p[i + 1] == s[i + 1]);
    }
    assert forall|i: int| 0 <= i < p.len() implies plain_char(#[trigger] p[i]) by {
        assert(p[i] == s[i]);
    }
}

proof fn lemma_trim_spaced(s: Seq<char>)
    requires
        spaced(s),
    ensures
        trim(s) == s,
{
}

proof fn lemma_expand_plain(s: Seq<char>)
    requires
        forall|i: int| 0 <= i < s.len() ==> plain_char(#[trigger] s[i]),
    ensures
        expand_key(s) == s,
    decreases s.len(),
{
    if s.len() > 0 {
        let p = s.drop_last();
        assert forall|i: int| 0 <= i < p.len() implies plain_char(#[trigger] p[i]) by {
            assert(p[i] == s[i]);
        }
        lemma_expand_plain(p);
        assert(plain_char(s[s.len() - 1]));
        assert(expand_key(s) =~= s);
    }
}

proof fn lemma_lower_plain(s: Seq<char>)
    requires
        forall|i: int| 0 <= i < s.len() ==> plain_char(#[trigger] s[i]),
    ensures
        lower_seq(s) == s,
{
    assert forall|i: int| 0 <= i < s.len() implies #[trigger] lower_seq(s)[i] == s[i] by {
        assert(plain_char(s[i]));
    }
    assert(lower_seq(s) =~= s);
}

proof fn lemma_join_push(v: Seq<Seq<char>>, y: Seq<char>, sep: Seq<char>)
    ensures
        join(v.push(y), sep) == (if v.len() == 0 { y } else { join(v, sep) + sep + y }),
{
    assert(v.push(y).drop_last() =~= v);
}

proof fn lemma_join_extend_last(v: Seq<Seq<char>>, c: char, sep: Seq<char>)
    requires
        v.len() > 0,
    ensures
        join(v.drop_last().push(v.last().push(c)), sep) == join(v, sep).push(c),
{
    lemma_join_push(v.drop_last(), v.last().push(c), sep);
    lemma_join_push(v.drop_last(), v.last(), sep);
    assert(v.drop_last().push(v.last()) =~= v);
    if v.len() == 1 {
    } else {
        assert(join(v.drop_last(), sep) + sep + v.last().push(c) =~= (join(v.drop_last(), sep) + sep + v.last()).push(c));
    }
}

proof fn lemma_words_nonempty(s: Seq<char>)
    requires
        s.len() > 0,
        !is_ws(s.last()),
    ensures
        words(s).len() > 0,
{
}

/// Joining the words of a spaced prefix gives it back, up to a final space.
proof fn lemma_join_words(s: Seq<char>)
    requires
        spaced_prefix(s),
    ensures
        join(words(s), seq![' ']) + (if s.len() > 0 && is_ws(s.last()) { seq![' '] } else { Seq::<char>::empty() }) == s,
    decreases s.len(),
{
    let sp = seq![' '];
    if s.len() == 0 {
        assert(join(words(s), sp) =~= s);
    } else {
        let p = s.drop_last();
        let c = s.last();
        lemma_spaced_prefix_drop_last(s);
        lemma_join_words(p);
        if is_ws(c) {
            assert(c == ' ');
            assert(p.len() > 0);
            assert(!is_ws(p.last())) by {
                assert(!(is_ws(s[s.len() - 2]) && is_ws(s[s.len() - 1])));
            }
            assert(join(words(s), sp) + sp =~= s);
        } else if p.len() == 0 {
            assert(words(s) =~= seq![seq![c]]);
            assert(join(words(s), sp) =~= s);
        } else if is_ws(p.last()) {
            assert(s[s.len() - 2] == p.last());
            let q = p.drop_last();
            assert(q.len() > 0);
            assert(!is_ws(q.last())) by {
                assert(!(is_ws(s[s.len() - 3]) && is_ws(s[s.len() - 2])));
                assert(q.last() == s[s.len() - 3]);
            }
            assert(words(p) == words(q));
            lemma_words_nonempty(q);
            lemma_join_push(words(p), seq![c], sp);
            assert(join(words(s), sp) =~= s);
        } else {
            assert(s[s.len() - 2] == p.last());
            lemma_words_nonempty(p);
            lemma_join_extend_last(words(p), c, sp);
            assert(join(words(s), sp) =~= s);
        }
    }
}

/// The words of a lowercased text are the lowercased words.
proof fn lemma_words_lower(s: Seq<char>)
    ensures
        words(lower_seq(s)) == lower_words(words(s)),
    decreases s.len(),
{
    if s.len() > 0 {
        let p = s.drop_last();
        lemma_words_lower(p);
        assert(lower_seq(s).drop_last() =~= lower_seq(p));
        let w = words(p);
        let lw = lower_words(w);
        let c = s.last();
        assert(is_ws(ascii_lower(c)) == is_ws(c));
        if s.len() >= 2 {
            assert(lower_seq(s)[s.len() - 2] == ascii_lower(s[s.len() - 2]));
            assert(is_ws(ascii_lower(s[s.len() - 2])) == is_ws(s[s.len() - 2]));
        }
        if is_ws(c) {
        } else if s.len() >= 2 && !is_ws(s[s.len() - 2]) {
            assert(lower_seq(w.last().push(c)) =~= lower_seq(w.last()).push(ascii_lower(c)));
            assert(lower_words(w.drop_last().push(w.last().push(c))) =~= lw.drop_last().push(lw.last().push(ascii_lower(c))));
        } else {
            assert(lower_seq(seq![c]) =~= seq![ascii_lower(c)]);
            assert(lower_words(w.push(seq![c])) =~= lw.push(seq![ascii_lower(c)]));
        }
    }
}

/// A spaced text is its own key in words.
proof fn lemma_key_in_words_spaced(s: Seq<char>)
    requires
        spaced(s),
    ensures
        key_in_words(s) == s,
{
    lemma_trim_spaced(s);
    lemma_expand_plain(s);
    lemma_words_lower(s);
    lemma_lower_plain(s);
    lemma_join_words(s);
    assert(join(words(s), seq![' ']) + Seq::<char>::empty() =~= join(words(s), seq![' ']));
}


/// A non-empty word of plain, non-whitespace characters.
spec fn good_word(w: Seq<char>) -> bool {
    w.len() > 0 && forall|j: int| 0 <= j < w.len() ==> plain_char(#[trigger] w[j]) && !is_ws(w[j])
}

proof fn lemma_expand_no_separator(s: Seq<char>)
    ensures
        forall|i: int| 0 <= i < expand_key(s).len() ==> !is_key_separator(#[trigger] expand_key(s)[i]),
    decreases s.len(),
{
    if s.len() > 0 {
        let p = s.drop_last();
        lemma_expand_no_separator(p);
        let e = expand_key(s);
        let ep = expand_key(p);
        assert forall|i: int| 0 <= i < e.len() implies !is_key_separator(#[trigger] e[i]) by {
            if i < ep.len() {
                assert(e[i] == ep[i]);
            }
        }
    }
}

/// The words of a text without separators are non-empty, without whitespace,
/// and without separators.
proof fn lemma_words_shape(s: Seq<char>)
    requires
        forall|i: int| 0 <= i < s.len() ==> !is_key_separator(#[trigger] s[i]),
    ensures
        forall|k: int| 0 <= k < words(s).len() ==> {
            let w = #[trigger] words(s)[k];
            &&& w.len() > 0
            &&& forall|j: int| 0 <= j < w.len() ==> !is_ws(#[trigger] w[j]) && !is_key_separator(w[j])
        },
    decreases s.len(),
{
    if s.len() > 0 {
        let p = s.drop_last();
        assert forall|i: int| 0 <= i < p.len() implies !is_key_separator(#[trigger] p[i]) by {
            assert(p[i] == s[i]);
        }
        lemma_words_shape(p);
        let w = words(p);
        let c = s.last();
        assert(!is_key_separator(s[s.len() - 1]));
        if is_ws(c) {
        } else if s.len() >= 2 && !is_ws(s[s.len() - 2]) {
            assert(s[s.len() - 2] == p.last());
            lemma_words_nonempty(p);
            let nw = w.drop_last().push(w.last().push(c));
            assert forall|k: int| 0 <= k < nw.len() implies {
                let x = #[trigger] nw[k];
                &&& x.len() > 0
                &&& forall|j: int| 0 <= j < x.len() ==> !is_ws(#[trigger] x[j]) && !is_key_separator(x[j])
            } by {
                if k < w.len() - 1 {
                    assert(nw[k] == w[k]);
                } else {
                    assert(nw[k] == w[w.len() - 1].push(c));
                    let x = nw[k];
                    assert forall|j: int| 0 <= j < x.len() implies !is_ws(#[trigger] x[j]) && !is_key_separator(x[j]) by {
                        if j < x.len() - 1 {
                            assert(x[j] == w[w.len() - 1][j]);
                        }
                    }
                }
            }
        } else {
            let nw = w.push(seq![c]);
            assert forall|k: int| 0 <= k < nw.len() implies {
                let x = #[trigger] nw[k];
                &&& x.len() > 0
                &&& forall|j: int| 0 <= j < x.len() ==> !is_ws(#[trigger] x[j]) && !is_key_separator(x[j])
            } by {
                if k < w.len() {
                    assert(nw[k] == w[k]);
                } else {
                    assert(nw[k] == seq![c]);
                }
            }
        }
    }
}

proof fn lemma_lower_words_good(ws: Seq<Seq<char>>)
    requires
        forall|k: int| 0 <= k < ws.len() ==> {
            let w = #[trigger] ws[k];
            &&& w.len() > 0
            &&& forall|j: int| 0 <= j < w.len() ==> !is_ws(#[trigger] w[j]) && !is_key_separator(w[j])
        },
    ensures
        forall|k: int| 0 <= k < ws.len() ==> good_word(#[trigger] lower_words(ws)[k]),
{
    assert forall|k: int| 0 <= k < ws.len() implies good_word(#[trigger] lower_words(ws)[k]) by {
        let w = ws[k];
        let l = lower_words(ws)[k];
        assert(l == lower_seq(w));
        assert forall|j: int| 0 <= j < l.len() implies plain_char(#[trigger] l[j]) && !is_ws(l[j]) by {
            assert(l[j] == ascii_lower(w[j]));
            assert(!is_ws(w[j]) && !is_key_separator(w[j]));
        }
    }
}

/// Good words joined by single spaces are spaced.
proof fn lemma_join_good_spaced(v: Seq<Seq<char>>)
    requires
        forall|k: int| 0 <= k < v.len() ==> good_word(#[trigger] v[k]),
    ensures
        spaced(join(v, seq![' '])),
    decreases v.len(),
{
    let sp = seq![' '];
    if v.len() > 0 {
        let init = v.drop_last();
        let y = v.last();
        assert forall|k: int| 0 <= k < init.len() implies good_word(#[trigger] init[k]) by {
            assert(init[k] == v[k]);
        }
        lemma_join_good_spaced(init);
        assert(good_word(v[v.len() - 1]));
        lemma_join_push(init, y, sp);
        assert(init.push(y) =~= v);
        let j = join(v, sp);
        if init.len() == 0 {
            assert(j == y);
            assert forall|i: int| 0 <= i < j.len() - 1 implies !(is_ws(#[trigger] j[i]) && is_ws(j[i + 1])) by {}
        } else {
            let a = join(init, sp);
            assert(j =~= a + sp + y);
            assert(a.len() > 0) by {
                assert(good_word(init[init.len() - 1]));
                lemma_join_nonempty(init);
            }
            assert forall|i: int| 0 <= i < j.len() implies plain_char(#[trigger] j[i]) by {
                if i < a.len() {
                    assert(j[i] == a[i]);
                } else if i > a.len() {
                    assert(j[i] == y[i - a.len() - 1]);
                }
            }
            assert forall|i: int| 0 <= i < j.len() - 1 implies !(is_ws(#[trigger] j[i]) && is_ws(j[i + 1])) by {
                if i < a.len() - 1 {
                    assert(j[i] == a[i] && j[i + 1] == a[i + 1]);
                } else if i == a.len() - 1 {
                    assert(j[i] == a.last());
                } else if i == a.len() {
                    assert(j[i + 1] == y[0]);
                } else {
                    assert(j[i] == y[i - a.len() - 1]);
                }
            }
            assert(j[0] == a[0]);
            assert(j.last() == y.last());
        }
    }
}

proof fn lemma_join_nonempty(v: Seq<Seq<char>>)
    requires
        v.len() > 0,
        v.last().len() > 0,
    ensures
        join(v, seq![' ']).len() > 0,
{
    lemma_join_push(v.drop_last(), v.last(), seq![' ']);
    assert(v.drop_last().push(v.last()) =~= v);
}

/// Every key in words is spaced.
proof fn lemma_key_in_words_is_spaced(key: Seq<char>)
    ensures
        spaced(key_in_words(key)),
{
    let e = expand_key(trim(key));
    lemma_expand_no_separator(trim(key));
    lemma_words_shape(e);
    lemma_lower_words_good(words(e));
    lemma_join_good_spaced(lower_words(words(e)));
}


proof fn lemma_single_space()
    ensures
        without_spaces(seq![' ']) == Seq::<char>::empty(),
{
    let s = seq![' '];
    assert(s.last() == ' ');
    assert(s.drop_last() =~= Seq::<char>::empty());
    assert(without_spaces(Seq::<char>::empty()) == Seq::<char>::empty());
}

/// A canonical key is either the key in words or a common field name.
proof fn lemma_canonical_choice(compact: Seq<char>, normalized: Seq<char>)
    ensures
        canonical_key(compact, normalized) == normalized
            || crate::metadata::common_fields().contains(canonical_key(compact, normalized)),
{
    reveal(canonical_key);
    let f = crate::metadata::common_fields();
    let r = canonical_key(compact, normalized);
    if r != normalized {
        assert(exists|i: int| 0 <= i < f.len() && f[i] == r) by {
            if r == "title"@ { assert(f[0] == r); }
            if r == "artist"@ { assert(f[1] == r); }
            if r == "album"@ { assert(f[2] == r); }
            if r == "album artist"@ { assert(f[3] == r); }
            if r == "date"@ { assert(f[4] == r); }
            if r == "track number"@ { assert(f[5] == r); }
            if r == "genre"@ { assert(f[6] == r); }
            if r == "composer"@ { assert(f[7] == r); }
            if r == "copyright"@ { assert(f[8] == r); }
            if r == "description"@ { assert(f[9] == r); }
            if r == "producer"@ { assert(f[10] == r); }
            if r == "engineer"@ { assert(f[11] == r); }
            if r == "mixer"@ { assert(f[12] == r); }
            if r == "assistant engineer"@ { assert(f[13] == r); }
            if r == "songwriter"@ { assert(f[14] == r); }
            if r == "mastering"@ { assert(f[15] == r); }
            if r == "inscribing"@ { assert(f[16] == r); }
            if r == "technology"@ { assert(f[17] == r); }
        }
    }
}

proof fn lemma_no_space(s: Seq<char>)
    requires
        forall|i: int| 0 <= i < s.len() ==> #[trigger] s[i] != ' ',
    ensures
        without_spaces(s) == s,
    decreases s.len(),
{
    if s.len() > 0 {
        let p = s.drop_last();
        assert forall|i: int| 0 <= i < p.len() implies #[trigger] p[i] != ' ' by {
            assert(p[i] == s[i]);
        }
        lemma_no_space(p);
        assert(s[s.len() - 1] != ' ');
        assert(p.push(s.last()) =~= s);
    }
}

proof fn lemma_without_spaces_concat(a: Seq<char>, b: Seq<char>)
    ensures
        without_spaces(a + b) == without_spaces(a) + without_spaces(b),
    decreases b.len(),
{
    if b.len() == 0 {
        assert(a + b =~= a);
        assert(without_spaces(a) + without_spaces(b) =~= without_spaces(a));
    } else {
        lemma_without_spaces_concat(a, b.drop_last());
        assert((a + b).drop_last() =~= a + b.drop_last());
        assert((a + b).last() == b.last());
        if b.last() != ' ' {
            assert(without_spaces(a) + without_spaces(b) =~= (without_spaces(a) + without_spaces(b.drop_last())).push(b.last()));
        }
    }
}

/// Without its spaces, `a b` is `a` followed by `b`.
proof fn lemma_two_words(a: Seq<char>, b: Seq<char>, joined: Seq<char>, compact: Seq<char>)
    requires
        forall|i: int| 0 <= i < a.len() ==> #[trigger] a[i] != ' ',
        forall|i: int| 0 <= i < b.len() ==> #[trigger] b[i] != ' ',
        joined == a + seq![' '] + b,
        compact == a + b,
    ensures
        without_spaces(joined) == compact,
{
    lemma_no_space(a);
    lemma_no_space(b);
    lemma_single_space();
    lemma_without_spaces_concat(a + seq![' '], b);
    lemma_without_spaces_concat(a, seq![' ']);
    assert(a + Seq::<char>::empty() =~= a);
}

/// A spaced field name whose run-together form names that field normalizes to
/// itself.
proof fn lemma_field_fixed(field: Seq<char>)
    requires
        spaced(field),
        canonical_key(without_spaces(field), field) == field,
    ensures
        normalized_key(field) == field,
{
    lemma_key_in_words_spaced(field);
}

/// Every common field name normalizes to itself.
proof fn lemma_fields_fixed()
    ensures
        forall|i: int| 0 <= i < crate::metadata::common_fields().len() ==>
            normalized_key(#[trigger] crate::metadata::common_fields()[i]) == crate::metadata::common_fields()[i],
{
    reveal_strlit("album");
    reveal_strlit("album artist");
    reveal_strlit("albumartist");
    reveal_strlit("artist");
    reveal_strlit("assistant");
    reveal_strlit("assistant engineer");
    reveal_strlit("assistantengineer");
    reveal_strlit("comment");
    reveal_strlit("composer");
    reveal_strlit("copyright");
    reveal_strlit("date");
    reveal_strlit("description");
    reveal_strlit("engineer");
    reveal_strlit("genre");
    reveal_strlit("inscribing");
    reveal_strlit("lyricist");
    reveal_strlit("mastering");
    reveal_strlit("mixer");
    reveal_strlit("number");
    reveal_strlit("producer");
    reveal_strlit("songwriter");
    reveal_strlit("technology");
    reveal_strlit("title");
    reveal_strlit("track");
    reveal_strlit("track number");
    reveal_strlit("tracknumber");
    reveal_strlit("year");
    reveal(canonical_key);
    lemma_no_space("title"@);
    lemma_no_space("artist"@);
    lemma_no_space("album"@);
    assert("album artist"@ =~= "album"@ + seq![' '] + "artist"@);
    assert("albumartist"@ =~= "album"@ + "artist"@);
    lemma_two_words("album"@, "artist"@, "album artist"@, "albumartist"@);
    lemma_no_space("date"@);
    assert("track number"@ =~= "track"@ + seq![' '] + "number"@);
    assert("tracknumber"@ =~= "track"@ + "number"@);
    lemma_two_words("track"@, "number"@, "track number"@, "tracknumber"@);
    lemma_no_space("genre"@);
    lemma_no_space("composer"@);
    lemma_no_space("copyright"@);
    lemma_no_space("description"@);
    lemma_no_space("producer"@);
    lemma_no_space("engineer"@);
    lemma_no_space("mixer"@);
    assert("assistant engineer"@ =~= "assistant"@ + seq![' '] + "engineer"@);
    assert("assistantengineer"@ =~= "assistant"@ + "engineer"@);
    lemma_two_words("assistant"@, "engineer"@, "assistant engineer"@, "assistantengineer"@);
    lemma_no_space("songwriter"@);
    lemma_no_space("mastering"@);
    lemma_no_space("inscribing"@);
    lemma_no_space("technology"@);
    assert("album"@[0] != "title"@[0]);
    assert("tracknumber"@[0] != "albumartist"@[0]);
    assert("genre"@[0] != "title"@[0]);
    assert("genre"@[0] != "album"@[0]);
    assert("genre"@[0] != "track"@[0]);
    assert("description"@[0] != "albumartist"@[0]);
    assert("description"@[0] != "tracknumber"@[0]);
    assert("producer"@[0] != "composer"@[0]);
    assert("engineer"@[0] != "composer"@[0]);
    assert("engineer"@[0] != "producer"@[0]);
    assert("mixer"@[0] != "title"@[0]);
    assert("mixer"@[0] != "album"@[0]);
    assert("mixer"@[0] != "track"@[0]);
    assert("mixer"@[0] != "genre"@[0]);
    assert("mastering"@[0] != "copyright"@[0]);
    assert("inscribing"@[0] != "songwriter"@[0]);
    assert("technology"@[0] != "songwriter"@[0]);
    assert("technology"@[0] != "inscribing"@[0]);
    let f = crate::metadata::common_fields();
    assert forall|i: int| 0 <= i < f.len() implies spaced(#[trigger] f[i])
        && canonical_key(without_spaces(f[i]), f[i]) == f[i] by {}
    assert forall|i: int| 0 <= i < f.len() implies normalized_key(#[trigger] f[i]) == f[i] by {
        lemma_field_fixed(f[i]);
    }
}

/// Normalizing a tag key is idempotent: a normalized key normalizes to itself.
pub proof fn law_normalize_idempotent(key: Seq<char>)
    ensures
        normalized_key(normalized_key(key)) == normalized_key(key),
{
    let n0 = key_in_words(key);
    let c0 = without_spaces(n0);
    let n = canonical_key(c0, n0);
    assert(normalized_key(key) == n);
    lemma_key_in_words_is_spaced(key);
    lemma_key_in_words_spaced(n0);
    lemma_canonical_choice(c0, n0);
    if n == n0 {
        assert(normalized_key(n0) == canonical_key(c0, n0));
    } else {
        lemma_fields_fixed();
        let f = crate::metadata::common_fields();
        let i = choose|i: int| 0 <= i < f.len() && f[i] == n;
        assert(normalized_key(f[i]) == f[i]);
    }
}

/// The other names of the common fields: a key whose words, run together,
/// spell `track` or `tracknumber` is the track number; `year` is the date;
/// `comment` is the description; `lyricist` is the songwriter; and the field
/// names written without their space (`albumartist`, `assistantengineer`)
/// are those fields.
pub proof fn law_field_aliases(key: Seq<char>)
    ensures
        without_spaces(key_in_words(key)) == "tracknumber"@ ==> normalized_key(key) == "track number"@,
        without_spaces(key_in_words(key)) == "track"@ ==> normalized_key(key) == "track number"@,
        without_spaces(key_in_words(key)) == "year"@ ==> normalized_key(key) == "date"@,
        without_spaces(key_in_words(key)) == "date"@ ==> normalized_key(key) == "date"@,
        without_spaces(key_in_words(key)) == "comment"@ ==> normalized_key(key) == "description"@,
        without_spaces(key_in_words(key)) == "description"@ ==> normalized_key(key) == "description"@,
        without_spaces(key_in_words(key)) == "lyricist"@ ==> normalized_key(key) == "songwriter"@,
        without_spaces(key_in_words(key)) == "songwriter"@ ==> normalized_key(key) == "songwriter"@,
        without_spaces(key_in_words(key)) == "albumartist"@ ==> normalized_key(key) == "album artist"@,
        without_spaces(key_in_words(key)) == "assistantengineer"@ ==> normalized_key(key) == "assistant engineer"@,
{
    let compact = without_spaces(key_in_words(key));
    assert(compact == "tracknumber"@ ==> normalized_key(key) == "track number"@) by {
        reveal(canonical_key);
        reveal_strlit("tracknumber");
        reveal_strlit("title");
        assert(("tracknumber"@).len() != ("title"@).len());
        reveal_strlit("artist");
        assert(("tracknumber"@).len() != ("artist"@).len());
        reveal_strlit("album");
        assert(("tracknumber"@).len() != ("album"@).len());
        reveal_strlit("albumartist");
        assert(("tracknumber"@)[0] != ("albumartist"@)[0]);
        reveal_strlit("date");
        assert(("tracknumber"@).len() != ("date"@).len());
        reveal_strlit("year");
        assert(("tracknumber"@).len() != ("year"@).len());
        reveal_strlit("track");
        assert(("tracknumber"@).len() != ("track"@).len());
    }
    assert(compact == "track"@ ==> normalized_key(key) == "track number"@) by {
        reveal(canonical_key);
        reveal_strlit("track");
        reveal_strlit("title");
        assert(("track"@)[1] != ("title"@)[1]);
        reveal_strlit("artist");
        assert(("track"@).len() != ("artist"@).len());
        reveal_strlit("album");
        assert(("track"@)[0] != ("album"@)[0]);
        reveal_strlit("albumartist");
        assert(("track"@).len() != ("albumartist"@).len());
        reveal_strlit("date");
        assert(("track"@).len() != ("date"@).len());
        reveal_strlit("year");
        assert(("track"@).len() != ("year"@).len());
    }
    assert(compact == "year"@ ==> normalized_key(key) == "date"@) by {
        reveal(canonical_key);
        reveal_strlit("year");
        reveal_strlit("title");
        assert(("year"@).len() != ("title"@).len());
        reveal_strlit("artist");
        assert(("year"@).len() != ("artist"@).len());
        reveal_strlit("album");
        assert(("year"@).len() != ("album"@).len());
        reveal_strlit("albumartist");
        assert(("year"@).len() != ("albumartist"@).len());
        reveal_strlit("date");
        assert(("year"@)[0] != ("date"@)[0]);
    }
    assert(compact == "date"@ ==> normalized_key(key) == "date"@) by {
        reveal(canonical_key);
        reveal_strlit("date");
        reveal_strlit("title");
        assert(("date"@).len() != ("title"@).len());
        reveal_strlit("artist");
        assert(("date"@).len() != ("artist"@).len());
        reveal_strlit("album");
        assert(("date"@).len() != ("album"@).len());
        reveal_strlit("albumartist");
        assert(("date"@).len() != ("albumartist"@).len());
    }
    assert(compact == "comment"@ ==> normalized_key(key) == "description"@) by {
        reveal(canonical_key);
        reveal_strlit("comment");
        reveal_strlit("title");
        assert(("comment"@).len() != ("title"@).len());
        reveal_strlit("artist");
        assert(("comment"@).len() != ("artist"@).len());
        reveal_strlit("album");
        assert(("comment"@).len() != ("album"@).len());
        reveal_strlit("albumartist");
        assert(("comment"@).len() != ("albumartist"@).len());
        reveal_strlit("date");
        assert(("comment"@).len() != ("date"@).len());
        reveal_strlit("year");
        assert(("comment"@).len() != ("year"@).len());
        reveal_strlit("track");
        assert(("comment"@).len() != ("track"@).len());
        reveal_strlit("tracknumber");
        assert(("comment"@).len() != ("tracknumber"@).len());
        reveal_strlit("genre");
        assert(("comment"@).len() != ("genre"@).len());
        reveal_strlit("composer");
        assert(("comment"@).len() != ("composer"@).len());
        reveal_strlit("copyright");
        assert(("comment"@).len() != ("copyright"@).len());
        reveal_strlit("description");
        assert(("comment"@).len() != ("description"@).len());
    }
    assert(compact == "description"@ ==> normalized_key(key) == "description"@) by {
        reveal(canonical_key);
        reveal_strlit("description");
        reveal_strlit("title");
        assert(("description"@).len() != ("title"@).len());
        reveal_strlit("artist");
        assert(("description"@).len() != ("artist"@).len());
        reveal_strlit("album");
        assert(("description"@).len() != ("album"@).len());
        reveal_strlit("albumartist");
        assert(("description"@)[0] != ("albumartist"@)[0]);
        reveal_strlit("date");
        assert(("description"@).len() != ("date"@).len());
        reveal_strlit("year");
        assert(("description"@).len() != ("year"@).len());
        reveal_strlit("track");
        assert(("description"@).len() != ("track"@).len());
        reveal_strlit("tracknumber");
        assert(("description"@)[0] != ("tracknumber"@)[0]);
        reveal_strlit("genre");
        assert(("description"@).len() != ("genre"@).len());
        reveal_strlit("composer");
        assert(("description"@).len() != ("composer"@).len());
        reveal_strlit("copyright");
        assert(("description"@).len() != ("copyright"@).len());
    }
    assert(compact == "lyricist"@ ==> normalized_key(key) == "songwriter"@) by {
        reveal(canonical_key);
        reveal_strlit("lyricist");
        reveal_strlit("title");
        assert(("lyricist"@).len() != ("title"@).len());
        reveal_strlit("artist");
        assert(("lyricist"@).len() != ("artist"@).len());
        reveal_strlit("album");
        assert(("lyricist"@).len() != ("album"@).len());
        reveal_strlit("albumartist");
        assert(("lyricist"@).len() != ("albumartist"@).len());
        reveal_strlit("date");
        assert(("lyricist"@).len() != ("date"@).len());
        reveal_strlit("year");
        assert(("lyricist"@).len() != ("year"@).len());
        reveal_strlit("track");
        assert(("lyricist"@).len() != ("track"@).len());
        reveal_strlit("tracknumber");
        assert(("lyricist"@).len() != ("tracknumber"@).len());
        reveal_strlit("genre");
        assert(("lyricist"@).len() != ("genre"@).len());
        reveal_strlit("composer");
        assert(("lyricist"@)[0] != ("composer"@)[0]);
        reveal_strlit("copyright");
        assert(("lyricist"@).len() != ("copyright"@).len());
        reveal_strlit("description");
        assert(("lyricist"@).len() != ("description"@).len());
        reveal_strlit("comment");
        assert(("lyricist"@).len() != ("comment"@).len());
        reveal_strlit("producer");
        assert(("lyricist"@)[0] != ("producer"@)[0]);
        reveal_strlit("engineer");
        assert(("lyricist"@)[0] != ("engineer"@)[0]);
        reveal_strlit("mixer");
        assert(("lyricist"@).len() != ("mixer"@).len());
        reveal_strlit("assistantengineer");
        assert(("lyricist"@).len() != ("assistantengineer"@).len());
        reveal_strlit("songwriter");
        assert(("lyricist"@).len() != ("songwriter"@).len());
    }
    assert(compact == "songwriter"@ ==> normalized_key(key) == "songwriter"@) by {
        reveal(canonical_key);
        reveal_strlit("songwriter");
        reveal_strlit("title");
        assert(("songwriter"@).len() != ("title"@).len());
        reveal_strlit("artist");
        assert(("songwriter"@).len() != ("artist"@).len());
        reveal_strlit("album");
        assert(("songwriter"@).len() != ("album"@).len());
        reveal_strlit("albumartist");
        assert(("songwriter"@).len() != ("albumartist"@).len());
        reveal_strlit("date");
        assert(("songwriter"@).len() != ("date"@).len());
        reveal_strlit("year");
        assert(("songwriter"@).len() != ("year"@).len());
        reveal_strlit("track");
        assert(("songwriter"@).len() != ("track"@).len());
        reveal_strlit("tracknumber");
        assert(("songwriter"@).len() != ("tracknumber"@).len());
        reveal_strlit("genre");
        assert(("songwriter"@).len() != ("genre"@).len());
        reveal_strlit("composer");
        assert(("songwriter"@).len() != ("composer"@).len());
        reveal_strlit("copyright");
        assert(("songwriter"@).len() != ("copyright"@).len());
        reveal_strlit("description");
        assert(("songwriter"@).len() != ("description"@).len());
        reveal_strlit("comment");
        assert(("songwriter"@).len() != ("comment"@).len());
        reveal_strlit("producer");
        assert(("songwriter"@).len() != ("producer"@).len());
        reveal_strlit("engineer");
        assert(("songwriter"@).len() != ("engineer"@).len());
        reveal_strlit("mixer");
        assert(("songwriter"@).len() != ("mixer"@).len());
        reveal_strlit("assistantengineer");
        assert(("songwriter"@).len() != ("assistantengineer"@).len());
    }
    assert(compact == "albumartist"@ ==> normalized_key(key) == "album artist"@) by {
        reveal(canonical_key);
        reveal_strlit("albumartist");
        reveal_strlit("title");
        assert(("albumartist"@).len() != ("title"@).len());
        reveal_strlit("artist");
        assert(("albumartist"@).len() != ("artist"@).len());
        reveal_strlit("album");
        assert(("albumartist"@).len() != ("album"@).len());
    }
    assert(compact == "assistantengineer"@ ==> normalized_key(key) == "assistant engineer"@) by {
        reveal(canonical_key);
        reveal_strlit("assistantengineer");
        reveal_strlit("title");
        assert(("assistantengineer"@).len() != ("title"@).len());
        reveal_strlit("artist");
        assert(("assistantengineer"@).len() != ("artist"@).len());
        reveal_strlit("album");
        assert(("assistantengineer"@).len() != ("album"@).len());
        reveal_strlit("albumartist");
        assert(("assistantengineer"@).len() != ("albumartist"@).len());
        reveal_strlit("date");
        assert(("assistantengineer"@).len() != ("date"@).len());
        reveal_strlit("year");
        assert(("assistantengineer"@).len() != ("year"@).len());
        reveal_strlit("track");
        assert(("assistantengineer"@).len() != ("track"@).len());
        reveal_strlit("tracknumber");
        assert(("assistantengineer"@).len() != ("tracknumber"@).len());
        reveal_strlit("genre");
        assert(("assistantengineer"@).len() != ("genre"@).len());
        reveal_strlit("composer");
        assert(("assistantengineer"@).len() != ("composer"@).len());
        reveal_strlit("copyright");
        assert(("assistantengineer"@).len() != ("copyright"@).len());
        reveal_strlit("description");
        assert(("assistantengineer"@).len() != ("description"@).len());
        reveal_strlit("comment");
        assert(("assistantengineer"@).len() != ("comment"@).len());
        reveal_strlit("producer");
        assert(("assistantengineer"@).len() != ("producer"@).len());
        reveal_strlit("engineer");
        assert(("assistantengineer"@).len() != ("engineer"@).len());
        reveal_strlit("mixer");
        assert(("assistantengineer"@).len() != ("mixer"@).len());
    }
}
/// Every character is an ASCII uppercase letter.
spec fn upper_letters(s: Seq<char>) -> bool {
    forall|i: int| 0 <= i < s.len() ==> is_ascii_upper(#[trigger] s[i])
}

proof fn lemma_upper_letters_drop_last(s: Seq<char>)
    requires
        upper_letters(s),
        s.len() > 0,
    ensures
        upper_letters(s.drop_last()),
        is_ascii_upper(s.last()),
{
    assert forall|i: int| 0 <= i < s.drop_last().len() implies is_ascii_upper(#[trigger] s.drop_last()[i]) by {
        assert(s.drop_last()[i] == s[i]);
    }
    assert(is_ascii_upper(s[s.len() - 1]));
}

proof fn lemma_expand_upper(s: Seq<char>)
    requires
        upper_letters(s),
    ensures
        expand_key(s) == s,
    decreases s.len(),
{
    if s.len() > 0 {
        lemma_upper_letters_drop_last(s);
        lemma_expand_upper(s.drop_last());
        if s.drop_last().len() > 0 {
            lemma_upper_letters_drop_last(s.drop_last());
            assert(s.drop_last().last() == s.drop_last()[s.drop_last().len() - 1]);
        }
        assert(s.drop_last() + Seq::<char>::empty() + seq![s.last()] =~= s);
    }
}

proof fn lemma_words_upper(s: Seq<char>)
    requires
        upper_letters(s),
        s.len() > 0,
    ensures
        words(s) == seq![s],
    decreases s.len(),
{
    lemma_upper_letters_drop_last(s);
    let p = s.drop_last();
    if p.len() == 0 {
        assert(words(p) =~= Seq::<Seq<char>>::empty());
        assert(p.push(s.last()) =~= s);
        assert(seq![s.last()] =~= s);
    } else {
        lemma_words_upper(p);
        assert(is_ascii_upper(s[s.len() - 2]));
        assert(p.push(s.last()) =~= s);
        assert(words(p).drop_last().push(words(p).last().push(s.last())) =~= seq![s]);
    }
}

/// A key written in ASCII uppercase letters only, as Vorbis comment field
/// names are, is in words its lowercase form, which has no spaces.
proof fn lemma_upper_key_in_words(key: Seq<char>)
    requires
        upper_letters(key),
        key.len() > 0,
    ensures
        key_in_words(key) == lower_seq(key),
        without_spaces(key_in_words(key)) == lower_seq(key),
{
    assert(is_ascii_upper(key[0]) && is_ascii_upper(key[key.len() - 1]));
    assert(trim_start(key) == key);
    assert(trim_end(key) == key);
    assert(trim(key) == key);
    lemma_expand_upper(key);
    lemma_words_upper(key);
    assert(lower_words(seq![key]) =~= seq![lower_seq(key)]);
    assert(join(seq![lower_seq(key)], seq![' ']) == lower_seq(key));
    assert forall|i: int| 0 <= i < lower_seq(key).len() implies #[trigger] lower_seq(key)[i] != ' ' by {
        assert(is_ascii_upper(key[i]));
    }
    lemma_no_space(lower_seq(key));
}

/// The standard Vorbis comment field names, in uppercase, name the common
/// fields: `TRACKNUMBER` the track number, `DATE` the date, `ALBUMARTIST` the
/// album artist, `COMMENT` the description, and so on for every uppercase key
/// whose lowercase form is one of the field names run together or an alias.
pub proof fn law_uppercase_field_names(key: Seq<char>)
    requires
        key.len() > 0,
        forall|i: int| 0 <= i < key.len() ==> is_ascii_upper(#[trigger] key[i]),
    ensures
        lower_seq(key) == "tracknumber"@ ==> normalized_key(key) == "track number"@,
        lower_seq(key) == "track"@ ==> normalized_key(key) == "track number"@,
        lower_seq(key) == "date"@ ==> normalized_key(key) == "date"@,
        lower_seq(key) == "year"@ ==> normalized_key(key) == "date"@,
        lower_seq(key) == "comment"@ ==> normalized_key(key) == "description"@,
        lower_seq(key) == "description"@ ==> normalized_key(key) == "description"@,
        lower_seq(key) == "lyricist"@ ==> normalized_key(key) == "songwriter"@,
        lower_seq(key) == "albumartist"@ ==> normalized_key(key) == "album artist"@,
        lower_seq(key) == "assistantengineer"@ ==> normalized_key(key) == "assistant engineer"@,
{
    lemma_upper_key_in_words(key);
    law_field_aliases(key);
}

} // verus!
