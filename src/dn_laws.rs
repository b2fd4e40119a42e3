use vstd::prelude::*;

use crate::dn::{
    common_name_key, dn_matches, insert_entry, is_separator, keys_of, parse, render,
    render_entry, scan, Entry,
};
use crate::text::{is_white_space, trim, trim_end, trim_start};

verus! {

/// A character that may stand in a key written without quotes.
pub open spec fn is_plain_key_char(c: char) -> bool {
    !is_white_space(c) && c != '"' && c != '\\' && c != '=' && !is_separator(c)
}

/// A non-empty key made of plain characters only.
pub open spec fn is_plain_key(k: Seq<char>) -> bool {
    k.len() > 0 && forall|m: int| 0 <= m < k.len() ==> is_plain_key_char(#[trigger] k[m])
}

/// A value that can stand between double quotes.
pub open spec fn is_quotable(v: Seq<char>) -> bool {
    forall|m: int| 0 <= m < v.len() ==> #[trigger] v[m] != '"'
}

/// Entries with distinct plain keys and values without double quotes: those that their
/// written form reads back to.
pub open spec fn is_canonical(entries: Seq<Entry>) -> bool {
    &&& forall|j: int|
        0 <= j < entries.len() ==> is_plain_key(#[trigger] entries[j].0) && is_quotable(
            entries[j].1,
        )
    &&& forall|a: int, b: int|
        0 <= a < b < entries.len() ==> #[trigger] entries[a].0 != #[trigger] entries[b].0
}

proof fn lemma_scan_plain(
    t: Seq<char>,
    i: int,
    j: int,
    key: Option<Seq<char>>,
    token: Seq<char>,
    entries: Seq<Entry>,
)
    requires
        0 <= i <= j <= t.len(),
        forall|m: int| i <= m < j ==> is_plain_key_char(#[trigger] t[m]),
    ensures
        scan(t, i, false, key, token, entries) == scan(
            t,
            j,
            false,
            key,
            token + t.subrange(i, j),
            entries,
        ),
    decreases j - i,
{
    if i < j {
        assert(is_plain_key_char(t[i]));
        lemma_scan_plain(t, i + 1, j, key, token.push(t[i]), entries);
        assert(token.push(t[i]) + t.subrange(i + 1, j) =~= token + t.subrange(i, j));
    } else {
        assert(token + t.subrange(i, j) =~= token);
    }
}

proof fn lemma_scan_quoted(
    t: Seq<char>,
    i: int,
    j: int,
    key: Option<Seq<char>>,
    token: Seq<char>,
    entries: Seq<Entry>,
)
    requires
        0 <= i <= j <= t.len(),
        forall|m: int| i <= m < j ==> #[trigger] t[m] != '"',
    ensures
        scan(t, i, true, key, token, entries) == scan(
            t,
            j,
            true,
            key,
            token + t.subrange(i, j),
            entries,
        ),
    decreases j - i,
{
    if i < j {
        assert(t[i] != '"');
        lemma_scan_quoted(t, i + 1, j, key, token.push(t[i]), entries);
        assert(token.push(t[i]) + t.subrange(i + 1, j) =~= token + t.subrange(i, j));
    } else {
        assert(token + t.subrange(i, j) =~= token);
    }
}

/// The text `k="v"`.
pub open spec fn quoted_pair(k: Seq<char>, v: Seq<char>) -> Seq<char> {
    k + seq!['=', '"'] + v + seq!['"']
}

/// Reading `k="v"` at `i` leaves `k` pending with the value `v`.
proof fn lemma_scan_quoted_pair(t: Seq<char>, i: int, k: Seq<char>, v: Seq<char>, entries: Seq<Entry>)
    requires
        0 <= i,
        i + quoted_pair(k, v).len() <= t.len(),
        t.subrange(i, i + quoted_pair(k, v).len()) == quoted_pair(k, v),
        is_plain_key(k),
        is_quotable(v),
    ensures
        scan(t, i, false, None, Seq::empty(), entries) == scan(
            t,
            i + quoted_pair(k, v).len(),
            false,
            Some(k),
            v,
            entries,
        ),
{
    let r = quoted_pair(k, v);
    let a = i + k.len();
    let b = a + 2 + v.len();
    assert(r.len() == k.len() + 3 + v.len());
    assert forall|m: int| i <= m < a implies is_plain_key_char(#[trigger] t[m]) by {
        assert(t[m] == r[m - i]);
        assert(r[m - i] == k[m - i]);
    }
    lemma_scan_plain(t, i, a, None, Seq::empty(), entries);
    assert(Seq::<char>::empty() + t.subrange(i, a) =~= k) by {
        assert forall|m: int| 0 <= m < k.len() implies t.subrange(i, a)[m] == k[m] by {
            assert(t[i + m] == r[m]);
        }
    }
    assert(t[a] == r[k.len() as int]);
    assert(t[a + 1] == r[k.len() + 1 as int]);
    assert(t[a] == '=');
    assert(t[a + 1] == '"');
    assert(scan(t, a, false, None, k, entries) == scan(
        t,
        a + 1,
        false,
        Some(k),
        Seq::empty(),
        entries,
    ));
    assert(scan(t, a + 1, false, Some(k), Seq::empty(), entries) == scan(
        t,
        a + 2,
        true,
        Some(k),
        Seq::empty(),
        entries,
    ));
    assert forall|m: int| a + 2 <= m < b implies #[trigger] t[m] != '"' by {
        assert(t[m] == r[m - i]);
        assert(r[m - i] == v[m - a - 2]);
    }
    lemma_scan_quoted(t, a + 2, b, Some(k), Seq::empty(), entries);
    assert(Seq::<char>::empty() + t.subrange(a + 2, b) =~= v) by {
        assert forall|m: int| 0 <= m < v.len() implies t.subrange(a + 2, b)[m] == v[m] by {
            assert(t[a + 2 + m] == r[k.len() + 2 + m]);
        }
    }
    assert(t[b] == r[b - i]);
    assert(t[b] == '"');
    assert(scan(t, b, true, Some(k), v, entries) == scan(t, b + 1, false, Some(k), v, entries));
}

/// Reading `k="v",` at `i` stores the pair.
proof fn lemma_scan_entry(t: Seq<char>, i: int, e: Entry, entries: Seq<Entry>)
    requires
        0 <= i,
        i + render_entry(e).len() <= t.len(),
        t.subrange(i, i + render_entry(e).len()) == render_entry(e),
        is_plain_key(e.0),
        is_quotable(e.1),
    ensures
        scan(t, i, false, None, Seq::empty(), entries) == scan(
            t,
            i + render_entry(e).len(),
            false,
            None,
            Seq::empty(),
            insert_entry(entries, e.0, e.1),
        ),
{
    let q = quoted_pair(e.0, e.1);
    let r = render_entry(e);
    assert(r =~= q.push(','));
    assert(t.subrange(i, i + q.len()) =~= q) by {
        assert forall|m: int| 0 <= m < q.len() implies t.subrange(i, i + q.len())[m] == q[m] by {
            assert(t[i + m] == r[m]);
        }
    }
    lemma_scan_quoted_pair(t, i, e.0, e.1, entries);
    let c = i + q.len();
    assert(t[c] == r[q.len() as int]);
    assert(scan(t, c, false, Some(e.0), e.1, entries) == scan(
        t,
        c + 1,
        false,
        None,
        Seq::empty(),
        insert_entry(entries, e.0, e.1),
    ));
}

proof fn lemma_render_concat(a: Seq<Entry>, b: Seq<Entry>)
    ensures
        render(a + b) == render(a) + render(b),
    decreases b.len(),
{
    if b.len() == 0 {
        assert(a + b =~= a);
        assert(render(a) + render(b) =~= render(a));
    } else {
        lemma_render_concat(a, b.drop_last());
        assert((a + b).drop_last() =~= a + b.drop_last());
        assert((a + b).last() == b.last());
        assert(render(a) + render(b.drop_last()) + render_entry(b.last()) =~= render(a) + render(
            b,
        ));
    }
}

proof fn lemma_scan_prefix(m: Seq<Entry>, j: int)
    requires
        is_canonical(m),
        0 <= j <= m.len(),
    ensures
        scan(render(m), 0, false, None, Seq::empty(), Seq::empty()) == scan(
            render(m),
            render(m.subrange(0, j)).len() as int,
            false,
            None,
            Seq::empty(),
            m.subrange(0, j),
        ),
    decreases j,
{
    let t = render(m);
    if j == 0 {
        assert(m.subrange(0, 0) =~= Seq::<Entry>::empty());
    } else {
        lemma_scan_prefix(m, j - 1);
        let p = m.subrange(0, j - 1);
        let q = m.subrange(0, j);
        let e = m[j - 1];
        assert(q.drop_last() =~= p);
        lemma_render_concat(q, m.subrange(j, m.len() as int));
        assert(q + m.subrange(j, m.len() as int) =~= m);
        let i = render(p).len() as int;
        assert(render(q) == render(p) + render_entry(e));
        assert(t.subrange(i, i + render_entry(e).len()) =~= render_entry(e)) by {
            assert forall|x: int| 0 <= x < render_entry(e).len() implies t[i + x]
                == render_entry(e)[x] by {
                assert(t[i + x] == render(q)[i + x]);
            }
        }
        lemma_scan_entry(t, i, e, p);
        assert(!keys_of(p).contains(e.0)) by {
            if keys_of(p).contains(e.0) {
                let x = choose|x: int| 0 <= x < keys_of(p).len() && keys_of(p)[x] == e.0;
                assert(m[x].0 == keys_of(p)[x]);
                assert(m[x].0 != m[j - 1].0);
            }
        }
        assert(p.push(e) =~= q);
    }
}

proof fn lemma_trim_unchanged(s: Seq<char>)
    requires
        s.len() > 0,
        !is_white_space(s[0]),
        !is_white_space(s.last()),
    ensures
        trim(s) == s,
{
    assert(trim_start(s) == s);
    assert(trim_end(s) == s);
}

/// The written form of canonical entries reads back to the same entries, in the same order.
pub proof fn lemma_parse_render(m: Seq<Entry>)
    requires
        is_canonical(m),
    ensures
        parse(render(m)) == m,
{
    let t = render(m);
    if m.len() > 0 {
        lemma_render_concat(m.subrange(0, 1), m.subrange(1, m.len() as int));
        assert(m.subrange(0, 1) + m.subrange(1, m.len() as int) =~= m);
        assert(m.subrange(0, 1).drop_last() =~= Seq::<Entry>::empty());
        assert(render(Seq::<Entry>::empty()) == Seq::<char>::empty());
        assert(m.subrange(0, 1).last() == m[0]);
        assert(render(m.subrange(0, 1)) =~= render_entry(m[0]));
        assert(t[0] == render_entry(m[0])[0]);
        assert(render_entry(m[0])[0] == m[0].0[0]);
        assert(is_plain_key_char(m[0].0[0]));
        assert(t.last() == ',');
        lemma_trim_unchanged(t);
    } else {
        assert(trim_start(t) == t);
        assert(trim_end(t) == t);
    }
    lemma_scan_prefix(m, m.len() as int);
    assert(m.subrange(0, m.len() as int) =~= m);
}

/// Reading is idempotent on the written form: writing what was read from the written form of
/// canonical entries gives that written form again.
pub proof fn lemma_render_parse_render(m: Seq<Entry>)
    requires
        is_canonical(m),
    ensures
        render(parse(render(m))) == render(m),
{
    lemma_parse_render(m);
}

/// A pattern `k="v"` with a plain key and a value without quotes matches a subject exactly
/// when the subject gives `k` the value `v`, whatever other keys it has.
pub proof fn lemma_quoted_pattern_matches(
    subject: Map<Seq<char>, Seq<char>>,
    k: Seq<char>,
    v: Seq<char>,
)
    requires
        is_plain_key(k),
        is_quotable(v),
    ensures
        dn_matches(subject, quoted_pair(k, v)) == (subject.contains_key(k) && subject[k] == v),
{
    let t = quoted_pair(k, v);
    assert(t[0] == k[0]);
    assert(is_plain_key_char(k[0]));
    assert(t.last() == '"');
    lemma_trim_unchanged(t);
    assert(t.subrange(0, t.len() as int) =~= t);
    lemma_scan_quoted_pair(t, 0, k, v, Seq::empty());
    assert(!keys_of(Seq::<Entry>::empty()).contains(k));
    assert(scan(t, t.len() as int, false, Some(k), v, Seq::empty()) == insert_entry(
        Seq::empty(),
        k,
        v,
    ));
    assert(parse(t) =~= seq![(k, v)]);
    assert(parse(t)[0] == (k, v));
    if subject.contains_key(k) && subject[k] == v {
        assert forall|j: int| 0 <= j < parse(t).len() implies subject.contains_key(
            #[trigger] parse(t)[j].0,
        ) && subject[parse(t)[j].0] == parse(t)[j].1 by {
            assert(j == 0);
        }
        assert(dn_matches(subject, t));
    } else {
        assert(parse(t).len() == 1);
        if dn_matches(subject, t) {
            assert(subject.contains_key(parse(t)[0].0) && subject[parse(t)[0].0] == parse(t)[0].1);
        }
    }
}

proof fn lemma_scan_without_equals(t: Seq<char>, i: int, quoted: bool, token: Seq<char>)
    requires
        0 <= i,
        forall|m: int| 0 <= m < t.len() ==> #[trigger] t[m] != '=',
    ensures
        scan(t, i, quoted, None, token, Seq::empty()) == Seq::<Entry>::empty(),
    decreases t.len() - i,
{
    if i < t.len() {
        let c = t[i];
        assert(c != '=');
        if quoted {
            if c == '"' {
                lemma_scan_without_equals(t, i + 1, false, token);
            } else {
                lemma_scan_without_equals(t, i + 1, true, token.push(c));
            }
        } else if c == '"' {
            lemma_scan_without_equals(t, i + 1, true, token);
        } else if c == '\\' {
            if i + 1 >= t.len() {
                lemma_scan_without_equals(t, i + 1, false, token);
            } else if i + 3 < t.len() && crate::dn::hex_byte(t[i + 2], t[i + 3]) is Some {
                lemma_scan_without_equals(
                    t,
                    i + 4,
                    false,
                    token.push(crate::dn::hex_byte(t[i + 2], t[i + 3]).unwrap() as char),
                );
            } else {
                lemma_scan_without_equals(t, i + 2, false, token.push('\\').push(t[i + 1]));
            }
        } else if is_separator(c) {
            lemma_scan_without_equals(t, i + 1, false, token);
        } else if c == ' ' && crate::dn::drops_space(t, i, false, token) {
            lemma_scan_without_equals(t, i + 1, false, token);
        } else {
            lemma_scan_without_equals(t, i + 1, false, token.push(c));
        }
    }
}

proof fn lemma_trim_start_suffix(s: Seq<char>)
    ensures
        trim_start(s).len() <= s.len(),
        forall|m: int|
            0 <= m < trim_start(s).len() ==> #[trigger] trim_start(s)[m] == s[s.len()
                - trim_start(s).len() + m],
    decreases s.len(),
{
    if s.len() > 0 && is_white_space(s[0]) {
        lemma_trim_start_suffix(s.drop_first());
    }
}

proof fn lemma_trim_end_prefix(s: Seq<char>)
    ensures
        trim_end(s).len() <= s.len(),
        forall|m: int| 0 <= m < trim_end(s).len() ==> #[trigger] trim_end(s)[m] == s[m],
    decreases s.len(),
{
    if s.len() > 0 && is_white_space(s.last()) {
        lemma_trim_end_prefix(s.drop_last());
    }
}

/// A pattern without `=` is a bare name: it matches a subject exactly when the subject's
/// `CN` is that name, character for character.
pub proof fn lemma_bare_pattern_matches(subject: Map<Seq<char>, Seq<char>>, name: Seq<char>)
    requires
        forall|m: int| 0 <= m < name.len() ==> #[trigger] name[m] != '=',
    ensures
        dn_matches(subject, name) == (subject.contains_key(common_name_key())
            && subject[common_name_key()] == name),
{
    let front = trim_start(name);
    lemma_trim_start_suffix(name);
    lemma_trim_end_prefix(front);
    let t = trim(name);
    assert forall|m: int| 0 <= m < t.len() implies #[trigger] t[m] != '=' by {
        assert(t[m] == front[m]);
        assert(front[m] == name[name.len() - front.len() + m]);
    }
    lemma_scan_without_equals(t, 0, false, Seq::empty());
}

} // verus!
