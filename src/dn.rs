use vstd::prelude::*;

use crate::text::{push_char, push_str, trim, trimmed_chars};

verus! {

/// A key and its value, as character sequences.
pub type Entry = (Seq<char>, Seq<char>);

/// The keys of `entries`, in order.
pub open spec fn keys_of(entries: Seq<Entry>) -> Seq<Seq<char>> {
    entries.map_values(|e: Entry| e.0)
}

/// `entries` after `k` is given the value `v`: an entry with key `k` takes the new value in
/// place, otherwise the pair is appended. An empty key is never stored.
pub open spec fn insert_entry(entries: Seq<Entry>, k: Seq<char>, v: Seq<char>) -> Seq<Entry> {
    if k.len() == 0 {
        entries
    } else if keys_of(entries).contains(k) {
        entries.map_values(|e: Entry| if e.0 == k { (k, v) } else { e })
    } else {
        entries.push((k, v))
    }
}

/// Entries whose keys are non-empty and distinct.
pub open spec fn well_formed(entries: Seq<Entry>) -> bool {
    &&& forall|j: int| 0 <= j < entries.len() ==> (#[trigger] entries[j]).0.len() > 0
    &&& forall|a: int, b: int|
        0 <= a < b < entries.len() ==> (#[trigger] entries[a]).0 != (#[trigger] entries[b]).0
}

proof fn lemma_insert_well_formed(entries: Seq<Entry>, k: Seq<char>, v: Seq<char>)
    requires
        well_formed(entries),
    ensures
        well_formed(insert_entry(entries, k, v)),
{
    if k.len() > 0 && !keys_of(entries).contains(k) {
        let r = entries.push((k, v));
        assert forall|a: int, b: int| 0 <= a < b < r.len() implies (#[trigger] r[a]).0 != (
        #[trigger] r[b]).0 by {
            if b == entries.len() {
                assert(keys_of(entries)[a] == entries[a].0);
            }
        }
    }
}

proof fn lemma_scan_well_formed(
    t: Seq<char>,
    i: int,
    quoted: bool,
    key: Option<Seq<char>>,
    token: Seq<char>,
    entries: Seq<Entry>,
)
    requires
        well_formed(entries),
    ensures
        well_formed(scan(t, i, quoted, key, token, entries)),
    decreases t.len() - i,
{
    if i >= t.len() {
        if let Some(k) = key {
            lemma_insert_well_formed(entries, k, token);
        }
    } else {
        let c = t[i];
        if quoted {
            if c == '"' {
                lemma_scan_well_formed(t, i + 1, false, key, token, entries);
            } else {
                lemma_scan_well_formed(t, i + 1, true, key, token.push(c), entries);
            }
        } else if c == '"' {
            lemma_scan_well_formed(t, i + 1, true, key, token, entries);
        } else if c == '\\' {
            if i + 1 >= t.len() {
                lemma_scan_well_formed(t, i + 1, false, key, token, entries);
            } else if i + 3 < t.len() && hex_byte(t[i + 2], t[i + 3]) is Some {
                lemma_scan_well_formed(
                    t,
                    i + 4,
                    false,
                    key,
                    token.push(hex_byte(t[i + 2], t[i + 3]).unwrap() as char),
                    entries,
                );
            } else {
                lemma_scan_well_formed(t, i + 2, false, key, token.push('\\').push(t[i + 1]), entries);
            }
        } else if key is None && c == '=' {
            lemma_scan_well_formed(t, i + 1, false, Some(token), Seq::empty(), entries);
        } else if is_separator(c) {
            if let Some(k) = key {
                lemma_insert_well_formed(entries, k, token);
                lemma_scan_well_formed(t, i + 1, false, None, Seq::empty(), insert_entry(entries, k, token));
            } else {
                lemma_scan_well_formed(t, i + 1, false, None, token, entries);
            }
        } else if c == ' ' && drops_space(t, i, key is Some, token) {
            lemma_scan_well_formed(t, i + 1, false, key, token, entries);
        } else {
            lemma_scan_well_formed(t, i + 1, false, key, token.push(c), entries);
        }
    }
}

/// Every key that parsing stores is non-empty, and no key is stored twice.
pub proof fn lemma_parse_well_formed(s: Seq<char>)
    ensures
        well_formed(parse(s)),
{
    lemma_scan_well_formed(trim(s), 0, false, None, Seq::empty(), Seq::empty());
}

/// The mapping that `entries` describe; of two entries with one key, the later one counts.
pub open spec fn entries_map(entries: Seq<Entry>) -> Map<Seq<char>, Seq<char>>
    decreases entries.len(),
{
    if entries.len() == 0 {
        Map::empty()
    } else {
        entries_map(entries.drop_last()).insert(entries.last().0, entries.last().1)
    }
}

/// The characters that end a key/value pair.
pub open spec fn is_separator(c: char) -> bool {
    c == ',' || c == ';' || c == '+'
}

/// The value of an ASCII hexadecimal digit.
pub open spec fn hex_digit(c: char) -> Option<u8> {
    let u = c as u32;
    if 0x30 <= u && u <= 0x39 {
        Some((u - 0x30) as u8)
    } else if 0x61 <= u && u <= 0x66 {
        Some((u - 0x61 + 10) as u8)
    } else if 0x41 <= u && u <= 0x46 {
        Some((u - 0x41 + 10) as u8)
    } else {
        None
    }
}

/// The byte that the two characters `a b` spell in base 16, as Rust's integer parser reads
/// them: two hexadecimal digits, or a plus sign and one digit.
pub open spec fn hex_byte(a: char, b: char) -> Option<u8> {
    if a == '+' {
        hex_digit(b)
    } else {
        match (hex_digit(a), hex_digit(b)) {
            (Some(x), Some(y)) => Some((x * 16 + y) as u8),
            _ => None,
        }
    }
}

/// The first position at or after `j` that does not hold a space.
pub open spec fn next_non_space(t: Seq<char>, j: int) -> int
    decreases t.len() - j,
{
    if 0 <= j < t.len() && t[j] == ' ' {
        next_non_space(t, j + 1)
    } else {
        j
    }
}

/// Whether the space at `i` is left out of the token: the token is still empty, or the next
/// character after the run of spaces ends the key (`=`) or the value (`,`, `;`, and `+` once a
/// key is pending).
pub open spec fn drops_space(t: Seq<char>, i: int, key_pending: bool, token: Seq<char>) -> bool {
    let n = next_non_space(t, i + 1);
    token.len() == 0 || (0 <= n < t.len() && (t[n] == ',' || t[n] == ';' || (!key_pending && t[n]
        == '=') || (key_pending && t[n] == '+')))
}

/// The entries that remain to be found when reading `t` from position `i`, with the reader in
/// the given state: inside quotes or not, a pending key, the token read so far, and the
/// entries found so far.
pub open spec fn scan(
    t: Seq<char>,
    i: int,
    quoted: bool,
    key: Option<Seq<char>>,
    token: Seq<char>,
    entries: Seq<Entry>,
) -> Seq<Entry>
    decreases t.len() - i,
{
    if i >= t.len() {
        match key {
            Some(k) => insert_entry(entries, k, token),
            None => entries,
        }
    } else {
        let c = t[i];
        if quoted {
            if c == '"' {
                scan(t, i + 1, false, key, token, entries)
            } else {
                scan(t, i + 1, true, key, token.push(c), entries)
            }
        } else if c == '"' {
            scan(t, i + 1, true, key, token, entries)
        } else if c == '\\' {
            if i + 1 >= t.len() {
                scan(t, i + 1, false, key, token, entries)
            } else if i + 3 < t.len() && hex_byte(t[i + 2], t[i + 3]) is Some {
                scan(
                    t,
                    i + 4,
                    false,
                    key,
                    token.push(hex_byte(t[i + 2], t[i + 3]).unwrap() as char),
                    entries,
                )
            } else {
                scan(t, i + 2, false, key, token.push('\\').push(t[i + 1]), entries)
            }
        } else if key is None && c == '=' {
            scan(t, i + 1, false, Some(token), Seq::empty(), entries)
        } else if is_separator(c) {
            match key {
                Some(k) => scan(t, i + 1, false, None, Seq::empty(), insert_entry(entries, k, token)),
                None => scan(t, i + 1, false, None, token, entries),
            }
        } else if c == ' ' && drops_space(t, i, key is Some, token) {
            scan(t, i + 1, false, key, token, entries)
        } else {
            scan(t, i + 1, false, key, token.push(c), entries)
        }
    }
}

/// The entries of the distinguished name `s`, in the order in which their keys first appear.
pub open spec fn parse(s: Seq<char>) -> Seq<Entry> {
    scan(trim(s), 0, false, None, Seq::empty(), Seq::empty())
}

/// One entry written as `KEY="value",`.
pub open spec fn render_entry(e: Entry) -> Seq<char> {
    e.0 + seq!['=', '"'] + e.1 + seq!['"', ',']
}

/// The entries written one after the other, each as `KEY="value",`.
pub open spec fn render(entries: Seq<Entry>) -> Seq<char>
    decreases entries.len(),
{
    if entries.len() == 0 {
        Seq::empty()
    } else {
        render(entries.drop_last()) + render_entry(entries.last())
    }
}

/// The key `CN`.
pub open spec fn common_name_key() -> Seq<char> {
    seq!['C', 'N']
}

/// Whether a subject satisfies the publisher pattern `name`: every entry of the parsed
/// pattern is in the subject with the same value; a pattern with no entries is compared,
/// as it stands, with the subject's `CN`.
pub open spec fn dn_matches(subject: Map<Seq<char>, Seq<char>>, name: Seq<char>) -> bool {
    let cand = parse(name);
    if cand.len() > 0 {
        forall|j: int|
            0 <= j < cand.len() ==> subject.contains_key(#[trigger] cand[j].0) && subject[cand[j].0]
                == cand[j].1
    } else {
        subject.contains_key(common_name_key()) && subject[common_name_key()] == name
    }
}

/// The character sequences of a list of string pairs.
pub open spec fn pairs_view(v: Seq<(String, String)>) -> Seq<Entry> {
    v.map_values(|e: (String, String)| (e.0@, e.1@))
}

/// The character sequence of a pending key.
pub open spec fn key_view(key: Option<String>) -> Option<Seq<char>> {
    match key {
        Some(k) => Some(k@),
        None => None,
    }
}

/// The parsed form of a distinguished name: keys with their values.
pub struct DnMap {
    entries: Vec<(String, String)>,
}

impl View for DnMap {
    type V = Seq<Entry>;

    closed spec fn view(&self) -> Seq<Entry> {
        pairs_view(self.entries@)
    }
}

fn clone_pair(p: &(String, String)) -> (r: (String, String))
    ensures
        r == *p,
{
    (p.0.clone(), p.1.clone())
}

/// Gives `k` the value `v` in `entries`, as `insert_entry` says.
fn insert_pair(entries: &mut Vec<(String, String)>, k: String, v: String)
    ensures
        pairs_view(final(entries)@) == insert_entry(pairs_view(old(entries)@), k@, v@),
{
    if k.as_str().unicode_len() == 0 {
        return ;
    }
    let ghost before = pairs_view(entries@);
    let ghost replaced = before.map_values(|e: Entry| if e.0 == k@ { (k@, v@) } else { e });
    let mut out: Vec<(String, String)> = Vec::new();
    let mut found = false;
    let mut j: usize = 0;
    while j < entries.len()
        invariant
            j <= entries@.len(),
            before == pairs_view(entries@),
            replaced == before.map_values(|e: Entry| if e.0 == k@ { (k@, v@) } else { e }),
            pairs_view(out@) == replaced.subrange(0, j as int),
            found == (exists|m: int| 0 <= m < j && before[m].0 == k@),
        decreases entries@.len() - j,
    {
        assert(before[j as int] == (entries@[j as int].0@, entries@[j as int].1@));
        let same = entries[j].0 == k;
        let p = if same {
            found = true;
            (k.clone(), v.clone())
        } else {
            clone_pair(&entries[j])
        };
        let ghost prev = out@;
        out.push(p);
        assert(pairs_view(out@) =~= pairs_view(prev).push(replaced[j as int]));
        assert(pairs_view(out@) =~= replaced.subrange(0, j + 1));
        j = j + 1;
    }
    proof {
        assert(pairs_view(out@) =~= replaced);
        if found {
            let m = choose|m: int| 0 <= m < before.len() && before[m].0 == k@;
            assert(keys_of(before)[m] == k@);
        } else {
            assert forall|m: int| 0 <= m < keys_of(before).len() implies keys_of(before)[m]
                != k@ by {
                assert(before[m].0 == keys_of(before)[m]);
            }
        }
    }
    if found {
        *entries = out;
    } else {
        entries.push((k, v));
        assert(pairs_view(entries@) =~= before.push((k@, v@)));
    }
}

fn is_separator_char(c: char) -> (r: bool)
    ensures
        r == is_separator(c),
{
    c == ',' || c == ';' || c == '+'
}

fn hex_digit_value(c: char) -> (r: Option<u8>)
    ensures
        r == hex_digit(c),
{
    let u = c as u32;
    if 0x30 <= u && u <= 0x39 {
        Some((u - 0x30) as u8)
    } else if 0x61 <= u && u <= 0x66 {
        Some((u - 0x61 + 10) as u8)
    } else if 0x41 <= u && u <= 0x46 {
        Some((u - 0x41 + 10) as u8)
    } else {
        None
    }
}

fn hex_byte_value(a: char, b: char) -> (r: Option<u8>)
    ensures
        r == hex_byte(a, b),
{
    if a == '+' {
        hex_digit_value(b)
    } else {
        match (hex_digit_value(a), hex_digit_value(b)) {
            (Some(x), Some(y)) => Some(x * 16 + y),
            _ => None,
        }
    }
}

/// Whether the space at `i` is left out of the token (see `drops_space`).
fn space_dropped(t: &Vec<char>, i: usize, key_pending: bool, token_len: usize) -> (r: bool)
    requires
        i < t@.len(),
    ensures
        forall|token: Seq<char>|
            token.len() == token_len ==> r == #[trigger] drops_space(t@, i as int, key_pending, token),
{
    if token_len == 0 {
        return true;
    }
    let n = t.len();
    let mut j: usize = i + 1;
    while j < n && t[j] == ' '
        invariant
            n == t@.len(),
            i < j <= n,
            next_non_space(t@, i + 1) == next_non_space(t@, j as int),
        decreases n - j,
    {
        j = j + 1;
    }
    if j >= n {
        false
    } else {
        let c = t[j];
        c == ',' || c == ';' || (!key_pending && c == '=') || (key_pending && c == '+')
    }
}

/// Reads the distinguished name `seq` into its keys and values.
///
/// The text is trimmed, then read left to right. A double quote opens or closes a quoted span,
/// inside which every character is literal. Outside quotes: a backslash followed by one
/// character and two hexadecimal digits stands for that byte, otherwise it and the next
/// character are kept as they are; the first `=` ends the key; `,`, `;` and `+` end the value
/// and store the pair (a later value for the same key replaces the earlier one); a space is
/// dropped at the start of a token and before the `=`, `,`, `;` or `+` that ends it. A pair
/// still open at the end is stored; an empty key is never stored.
pub fn parse_dn(seq: &str) -> (r: DnMap)
    ensures
        r@ == parse(seq@),
        well_formed(r@),
{
    proof {
        lemma_parse_well_formed(seq@);
    }
    let t = trimmed_chars(seq);
    let n = t.len();
    let mut quoted = false;
    let mut key: Option<String> = None;
    let mut token = String::new();
    let mut token_len: usize = 0;
    let mut entries: Vec<(String, String)> = Vec::new();
    let mut i: usize = 0;
    assert(pairs_view(entries@) =~= Seq::<Entry>::empty());
    assert(token@ =~= Seq::<char>::empty());
    while i < n
        invariant
            n == t@.len(),
            i <= n,
            token_len == token@.len(),
            token_len <= i,
            scan(t@, i as int, quoted, key_view(key), token@, pairs_view(entries@))
                == scan(t@, 0, false, None, Seq::empty(), Seq::empty()),
        decreases n - i,
    {
        let c = t[i];
        if quoted {
            if c == '"' {
                quoted = false;
            } else {
                push_char(&mut token, c);
                token_len = token_len + 1;
            }
            i = i + 1;
        } else if c == '"' {
            quoted = true;
            i = i + 1;
        } else if c == '\\' {
            if i + 1 >= n {
                i = i + 1;
            } else {
                let mut decoded = false;
                if n - i > 3 {
                    match hex_byte_value(t[i + 2], t[i + 3]) {
                        Some(b) => {
                            push_char(&mut token, b as char);
                            token_len = token_len + 1;
                            i = i + 4;
                            decoded = true;
                        },
                        None => {},
                    }
                }
                if !decoded {
                    push_char(&mut token, '\\');
                    push_char(&mut token, t[i + 1]);
                    token_len = token_len + 2;
                    i = i + 2;
                }
            }
        } else if key.is_none() && c == '=' {
            key = Some(token);
            token = String::new();
            token_len = 0;
            i = i + 1;
        } else if is_separator_char(c) {
            match key {
                Some(k) => {
                    insert_pair(&mut entries, k, token);
                    token = String::new();
                    token_len = 0;
                },
                None => {},
            }
            key = None;
            i = i + 1;
        } else if c == ' ' && space_dropped(&t, i, key.is_some(), token_len) {
            i = i + 1;
        } else {
            push_char(&mut token, c);
            token_len = token_len + 1;
            i = i + 1;
        }
    }
    match key {
        Some(k) => {
            insert_pair(&mut entries, k, token);
        },
        None => {},
    }
    DnMap { entries }
}

/// Whether `subject` satisfies the publisher pattern `name`: each key of the parsed pattern
/// has the same value in the subject, or, where the pattern holds no pair, the subject's `CN`
/// equals `name` as it stands.
pub fn check_dn_match(subject: &DnMap, name: &str) -> (r: bool)
    ensures
        r == dn_matches(entries_map(subject@), name@),
{
    let cand = parse_dn(name);
    let n = cand.entries.len();
    if n > 0 {
        let mut j: usize = 0;
        while j < n
            invariant
                n == cand@.len(),
                cand@ == parse(name@),
                cand@ == pairs_view(cand.entries@),
                j <= n,
                forall|m: int|
                    0 <= m < j ==> entries_map(subject@).contains_key(#[trigger] cand@[m].0)
                        && entries_map(subject@)[cand@[m].0] == cand@[m].1,
            decreases n - j,
        {
            assert(cand@[j as int] == (cand.entries@[j as int].0@, cand.entries@[j as int].1@));
            let got = subject.get(cand.entries[j].0.as_str());
            match got {
                Some(v) => {
                    if !(v == cand.entries[j].1) {
                        assert(entries_map(subject@)[cand@[j as int].0] != cand@[j as int].1);
                        return false;
                    }
                },
                None => {
                    assert(!entries_map(subject@).contains_key(cand@[j as int].0));
                    return false;
                },
            }
            j = j + 1;
        }
        true
    } else {
        let got = subject.get("CN");
        proof {
            reveal_strlit("CN");
            assert("CN"@ =~= common_name_key());
        }
        match got {
            Some(v) => {
                let mut whole = String::new();
                push_str(&mut whole, name);
                v == whole
            },
            None => false,
        }
    }
}

/// Writes each pair as `KEY="value",`, one after the other.
pub fn render_pairs(pairs: &Vec<(String, String)>) -> (r: String)
    ensures
        r@ == render(pairs_view(pairs@)),
{
    let ghost all = pairs_view(pairs@);
    let mut out = String::new();
    let mut j: usize = 0;
    while j < pairs.len()
        invariant
            j <= pairs@.len(),
            all == pairs_view(pairs@),
            out@ == render(all.subrange(0, j as int)),
        decreases pairs@.len() - j,
    {
        assert(all.subrange(0, j + 1).drop_last() =~= all.subrange(0, j as int));
        assert(all[j as int] == (pairs@[j as int].0@, pairs@[j as int].1@));
        push_str(&mut out, pairs[j].0.as_str());
        push_char(&mut out, '=');
        push_char(&mut out, '"');
        push_str(&mut out, pairs[j].1.as_str());
        push_char(&mut out, '"');
        push_char(&mut out, ',');
        assert(out@ =~= render(all.subrange(0, j as int)) + render_entry(all[j as int]));
        j = j + 1;
    }
    assert(all.subrange(0, j as int) =~= all);
    out
}

impl DnMap {
    /// The number of keys.
    pub fn len(&self) -> (r: usize)
        ensures
            r == self@.len(),
    {
        self.entries.len()
    }

    /// The value of `key`, if it has one.
    pub fn get(&self, key: &str) -> (r: Option<String>)
        ensures
            entries_map(self@).contains_key(key@) == (r is Some),
            r matches Some(v) ==> v@ == entries_map(self@)[key@],
    {
        let mut wanted = String::new();
        push_str(&mut wanted, key);
        let mut found: Option<String> = None;
        let mut j: usize = 0;
        while j < self.entries.len()
            invariant
                j <= self@.len(),
                self@.len() == self.entries@.len(),
                wanted@ == key@,
                entries_map(self@.subrange(0, j as int)).contains_key(key@) == (found is Some),
                found matches Some(v) ==> v@ == entries_map(self@.subrange(0, j as int))[key@],
            decreases self.entries@.len() - j,
        {
            assert(self@.subrange(0, j + 1).drop_last() =~= self@.subrange(0, j as int));
            if self.entries[j].0 == wanted {
                found = Some(self.entries[j].1.clone());
            }
            j = j + 1;
        }
        assert(self@.subrange(0, j as int) =~= self@);
        found
    }

    /// The pairs written as `KEY="value",` one after the other.
    pub fn render(&self) -> (r: String)
        ensures
            r@ == render(self@),
    {
        render_pairs(&self.entries)
    }

    /// The keys and values, in the order in which the keys were first read.
    pub fn pairs(&self) -> (r: Vec<(String, String)>)
        ensures
            pairs_view(r@) == self@,
    {
        let mut out: Vec<(String, String)> = Vec::new();
        let mut j: usize = 0;
        while j < self.entries.len()
            invariant
                j <= self.entries@.len(),
                pairs_view(out@) == pairs_view(self.entries@).subrange(0, j as int),
            decreases self.entries@.len() - j,
        {
            let p = clone_pair(&self.entries[j]);
            let ghost prev = out@;
            out.push(p);
            assert(pairs_view(out@) =~= pairs_view(prev).push(pairs_view(self.entries@)[j as int]));
            assert(pairs_view(out@) =~= pairs_view(self.entries@).subrange(0, j + 1));
            j = j + 1;
        }
        assert(pairs_view(out@) =~= pairs_view(self.entries@));
        out
    }
}

} // verus!
