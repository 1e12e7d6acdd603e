//! The `key=value` settings text: an ordered collection of string pairs with
//! unique keys, parsed from and rendered to a newline-separated text where
//! each non-empty line holding `=` binds the part before the first `=` to the
//! part after it.

use vstd::prelude::*;
use vstd::string::*;

verus! {

/// The first position of `c` in `s`, or `-1` when `s` does not hold `c`.
pub open spec fn first_index_of(s: Seq<char>, c: char) -> int
    decreases s.len(),
{
    if s.len() == 0 {
        -1
    } else if s[0] == c {
        0
    } else {
        let r = first_index_of(s.skip(1), c);
        if r == -1 {
            -1
        } else {
            r + 1
        }
    }
}

/// `first_index_of` finds exactly the first occurrence: it is `i` when `s[i]`
/// is `c` and nothing before it is, and `-1` when no position holds `c`.
pub proof fn lemma_first_index_charac(s: Seq<char>, c: char, i: int)
    requires
        0 <= i <= s.len(),
        forall|k: int| 0 <= k < i ==> s[k] != c,
        i < s.len() ==> s[i] == c,
    ensures
        i < s.len() ==> first_index_of(s, c) == i,
        i == s.len() ==> first_index_of(s, c) == -1,
    decreases s.len(),
{
    if s.len() == 0 {
    } else if i == 0 {
    } else {
        assert(s[0] != c);
        lemma_first_index_charac(s.skip(1), c, i - 1);
        assert forall|k: int| 0 <= k < i - 1 implies s.skip(1)[k] != c by {
            assert(s.skip(1)[k] == s[k + 1]);
        }
    }
}

/// The segments of `s` between occurrences of the separator `sep`, in order;
/// `cur` is the segment read so far.  Splitting keeps empty segments, so a
/// text ending in a separator ends in an empty segment.
pub open spec fn split_acc(s: Seq<char>, sep: char, cur: Seq<char>) -> Seq<Seq<char>>
    decreases s.len(),
{
    if s.len() == 0 {
        seq![cur]
    } else if s[0] == sep {
        seq![cur] + split_acc(s.skip(1), sep, seq![])
    } else {
        split_acc(s.skip(1), sep, cur.push(s[0]))
    }
}

/// The segments of `s` between occurrences of `sep`.
pub open spec fn spec_split(s: Seq<char>, sep: char) -> Seq<Seq<char>> {
    split_acc(s, sep, seq![])
}

/// `line` without one trailing carriage return, if it ends in one.
pub open spec fn spec_trim_cr(line: Seq<char>) -> Seq<char> {
    if line.len() > 0 && line.last() == '\r' {
        line.drop_last()
    } else {
        line
    }
}

/// The binding a line makes: after dropping one trailing carriage return, an
/// empty line or one without `=` binds nothing; any other line binds the part
/// before its first `=` to the part after it.
pub open spec fn spec_parse_line(line: Seq<char>) -> Option<(Seq<char>, Seq<char>)> {
    let l = spec_trim_cr(line);
    if l.len() == 0 {
        None
    } else {
        let i = first_index_of(l, '=');
        if i == -1 {
            None
        } else {
            Some((l.take(i), l.skip(i + 1)))
        }
    }
}

/// Split `s` into its segments between occurrences of `sep`.
pub fn split_exec(s: &str, sep: char) -> (r: Vec<String>)
    ensures
        r@.map_values(|t: String| t@) == spec_split(s@, sep),
{
    let n = s.unicode_len();
    let mut out: Vec<String> = Vec::new();
    let mut start: usize = 0;
    let mut i: usize = 0;
    proof {
        assert(s@.skip(0) =~= s@);
        assert(s@.subrange(0, 0) =~= Seq::<char>::empty());
        assert(out@.map_values(|t: String| t@) + split_acc(s@, sep, Seq::<char>::empty())
            =~= split_acc(s@, sep, Seq::<char>::empty()));
    }
    while i < n
        invariant
            n == s@.len(),
            start <= i <= n,
            spec_split(s@, sep) == out@.map_values(|t: String| t@) + split_acc(
                s@.skip(i as int),
                sep,
                s@.subrange(start as int, i as int),
            ),
        decreases n - i,
    {
        let ghost pre_views = out@.map_values(|t: String| t@);
        let ghost cur = s@.subrange(start as int, i as int);
        let c = s.get_char(i);
        proof {
            assert(s@.skip(i as int)[0] == s@[i as int]);
            assert(s@.skip(i as int).skip(1) =~= s@.skip(i as int + 1));
        }
        if c == sep {
            let piece = s.substring_char(start, i);
            out.push(piece.to_owned());
            start = i + 1;
            proof {
                assert(out@.map_values(|t: String| t@) =~= pre_views.push(cur));
                assert(s@.subrange(start as int, i as int + 1) =~= Seq::<char>::empty());
            }
        } else {
            proof {
                assert(s@.subrange(start as int, i as int + 1) =~= cur.push(s@[i as int]));
            }
        }
        i = i + 1;
    }
    let last = s.substring_char(start, n);
    out.push(last.to_owned());
    proof {
        assert(s@.skip(n as int) =~= Seq::<char>::empty());
        assert(s@.subrange(start as int, n as int) == last@);
        assert(out@.map_values(|t: String| t@) =~= spec_split(s@, sep));
    }
    out
}

/// Read one line's binding; see [`spec_parse_line`].
pub fn parse(line: &str) -> (r: Option<(String, String)>)
    ensures
        (match r {
            None => spec_parse_line(line@) is None,
            Some(kv) => spec_parse_line(line@) == Some((kv.0@, kv.1@)),
        }),
{
    let n0 = line.unicode_len();
    let trimmed: &str = if n0 > 0 && line.get_char(n0 - 1) == '\r' {
        line.substring_char(0, n0 - 1)
    } else {
        line
    };
    proof {
        assert(trimmed@ =~= spec_trim_cr(line@));
    }
    let n = trimmed.unicode_len();
    if n == 0 {
        return None;
    }
    let mut i: usize = 0;
    while i < n
        invariant
            n == trimmed@.len(),
            i <= n,
            trimmed@ == spec_trim_cr(line@),
            forall|k: int| 0 <= k < i ==> trimmed@[k] != '=',
        decreases n - i,
    {
        if trimmed.get_char(i) == '=' {
            let key = trimmed.substring_char(0, i);
            let value = trimmed.substring_char(i + 1, n);
            proof {
                lemma_first_index_charac(trimmed@, '=', i as int);
                assert(key@ =~= spec_trim_cr(line@).take(i as int));
                assert(value@ =~= spec_trim_cr(line@).skip(i as int + 1));
            }
            return Some((key.to_owned(), value.to_owned()));
        }
        i = i + 1;
    }
    proof {
        lemma_first_index_charac(trimmed@, '=', n as int);
    }
    None
}

/// The position of the entry bound to `key`, or `-1` when none is.
pub open spec fn key_index(m: Seq<(Seq<char>, Seq<char>)>, key: Seq<char>) -> int
    decreases m.len(),
{
    if m.len() == 0 {
        -1
    } else if m[0].0 == key {
        0
    } else {
        let r = key_index(m.skip(1), key);
        if r == -1 {
            -1
        } else {
            r + 1
        }
    }
}

/// The value bound to `key`, if any.
pub open spec fn spec_get(m: Seq<(Seq<char>, Seq<char>)>, key: Seq<char>) -> Option<Seq<char>> {
    let i = key_index(m, key);
    if i == -1 {
        None
    } else {
        Some(m[i].1)
    }
}

/// Bind `key` to `value`: replace the value of the entry already bound to
/// `key`, or append a new entry.
pub open spec fn spec_insert(
    m: Seq<(Seq<char>, Seq<char>)>,
    key: Seq<char>,
    value: Seq<char>,
) -> Seq<(Seq<char>, Seq<char>)> {
    let i = key_index(m, key);
    if i == -1 {
        m.push((key, value))
    } else {
        m.update(i, (key, value))
    }
}

/// No two entries bind the same key.
pub open spec fn unique_keys(m: Seq<(Seq<char>, Seq<char>)>) -> bool {
    forall|i: int, j: int| 0 <= i < j < m.len() ==> m[i].0 != m[j].0
}

/// `key_index` finds exactly the first entry bound to `key`.
pub proof fn lemma_key_index_charac(m: Seq<(Seq<char>, Seq<char>)>, key: Seq<char>, i: int)
    requires
        0 <= i <= m.len(),
        forall|k: int| 0 <= k < i ==> m[k].0 != key,
        i < m.len() ==> m[i].0 == key,
    ensures
        i < m.len() ==> key_index(m, key) == i,
        i == m.len() ==> key_index(m, key) == -1,
    decreases m.len(),
{
    if m.len() == 0 {
    } else if i == 0 {
    } else {
        assert(m[0].0 != key);
        lemma_key_index_charac(m.skip(1), key, i - 1);
        assert forall|k: int| 0 <= k < i - 1 implies m.skip(1)[k].0 != key by {
            assert(m.skip(1)[k] == m[k + 1]);
        }
    }
}

/// `key_index` reports `-1` or a valid position.
pub proof fn lemma_key_index_bounds(m: Seq<(Seq<char>, Seq<char>)>, key: Seq<char>)
    ensures
        -1 <= key_index(m, key) < m.len(),
    decreases m.len(),
{
    if m.len() == 0 {
    } else if m[0].0 == key {
    } else {
        lemma_key_index_bounds(m.skip(1), key);
    }
}

/// An absent key: when `key_index` reports `-1`, no entry is bound to `key`.
pub proof fn lemma_key_index_notfound(m: Seq<(Seq<char>, Seq<char>)>, key: Seq<char>)
    requires
        key_index(m, key) == -1,
    ensures
        forall|k: int| 0 <= k < m.len() ==> m[k].0 != key,
    decreases m.len(),
{
    if m.len() == 0 {
    } else {
        lemma_key_index_bounds(m.skip(1), key);
        lemma_key_index_notfound(m.skip(1), key);
        assert forall|k: int| 0 <= k < m.len() implies m[k].0 != key by {
            if k > 0 {
                assert(m.skip(1)[k - 1] == m[k]);
            }
        }
    }
}

/// A found key: `key_index` is in range and names an entry bound to `key`.
pub proof fn lemma_key_index_found(m: Seq<(Seq<char>, Seq<char>)>, key: Seq<char>)
    requires
        key_index(m, key) != -1,
    ensures
        0 <= key_index(m, key) < m.len(),
        m[key_index(m, key)].0 == key,
    decreases m.len(),
{
    if m.len() == 0 {
    } else if m[0].0 == key {
    } else {
        lemma_key_index_bounds(m.skip(1), key);
        lemma_key_index_found(m.skip(1), key);
        assert(m.skip(1)[key_index(m.skip(1), key)] == m[key_index(m, key)]);
    }
}

/// Binding a key keeps the keys unique.
pub proof fn lemma_insert_unique(m: Seq<(Seq<char>, Seq<char>)>, key: Seq<char>, value: Seq<char>)
    requires
        unique_keys(m),
    ensures
        unique_keys(spec_insert(m, key, value)),
{
    let i = key_index(m, key);
    if i == -1 {
        lemma_key_index_notfound(m, key);
        let p = m.push((key, value));
        assert forall|a: int, b: int| 0 <= a < b < p.len() implies p[a].0 != p[b].0 by {
            if b < m.len() {
                assert(p[a] == m[a] && p[b] == m[b]);
            } else {
                assert(p[a] == m[a] && p[b].0 == key);
            }
        }
    } else {
        lemma_key_index_found(m, key);
        let p = m.update(i, (key, value));
        assert forall|a: int, b: int| 0 <= a < b < p.len() implies p[a].0 != p[b].0 by {
            assert(p[a].0 == m[a].0 && p[b].0 == m[b].0);
        }
    }
}

/// The collection folded from the bindings of `lines`, first line first.
pub open spec fn spec_kv_from_lines(ls: Seq<Seq<char>>) -> Seq<(Seq<char>, Seq<char>)>
    decreases ls.len(),
{
    if ls.len() == 0 {
        seq![]
    } else {
        let m = spec_kv_from_lines(ls.drop_last());
        match spec_parse_line(ls.last()) {
            None => m,
            Some(kv) => spec_insert(m, kv.0, kv.1),
        }
    }
}

/// The collection described by a whole settings text.
pub open spec fn spec_kv_of_str(s: Seq<char>) -> Seq<(Seq<char>, Seq<char>)> {
    spec_kv_from_lines(spec_split(s, '\n'))
}

/// The rendering of the entries from position `i` on: `key=value` lines
/// joined by single newlines, no trailing newline.
pub open spec fn spec_render_from(m: Seq<(Seq<char>, Seq<char>)>, i: int) -> Seq<char>
    decreases m.len() - i,
{
    if i < 0 || i >= m.len() {
        Seq::empty()
    } else if i == m.len() - 1 {
        m[i].0 + "="@ + m[i].1
    } else {
        m[i].0 + "="@ + m[i].1 + "\n"@ + spec_render_from(m, i + 1)
    }
}

/// The rendering of a whole collection.
pub open spec fn spec_render(m: Seq<(Seq<char>, Seq<char>)>) -> Seq<char> {
    spec_render_from(m, 0)
}

/// Why a settings text could not be used.
#[derive(Debug)]
pub enum ParseError {
    /// A required key is absent.
    MissingKey(String),
    /// A key's value does not read as the expected form.
    InvalidFormat { key: String, value: String, expected: String, error: String },
}

impl ParseError {
    /// The human-readable description of this error.
    pub open spec fn spec_message(self) -> Seq<char> {
        match self {
            ParseError::MissingKey(key) => "Missing required key: "@ + key@,
            ParseError::InvalidFormat { key, value, expected, error } => "Invalid value '"@
                + value@ + "' for key '"@ + key@ + "': expected "@ + expected@ + ", error: "@
                + error@,
        }
    }

    /// Render the human-readable description of this error.
    pub fn message(&self) -> (r: String)
        ensures
            r@ == self.spec_message(),
    {
        let mut out = String::new();
        match self {
            ParseError::MissingKey(key) => {
                out.append("Missing required key: ");
                out.append(key.as_str());
            },
            ParseError::InvalidFormat { key, value, expected, error } => {
                out.append("Invalid value '");
                out.append(value.as_str());
                out.append("' for key '");
                out.append(key.as_str());
                out.append("': expected ");
                out.append(expected.as_str());
                out.append(", error: ");
                out.append(error.as_str());
            },
        }
        proof {
            assert(out@ =~= self.spec_message());
        }
        out
    }
}

/// An ordered collection of `key=value` string pairs with unique keys.
pub struct KeysAndValues {
    entries: Vec<(String, String)>,
}

impl KeysAndValues {
    /// The entries as (key, value) character sequences, in order.
    pub closed spec fn spec_model(self) -> Seq<(Seq<char>, Seq<char>)> {
        self.entries@.map_values(|p: (String, String)| (p.0@, p.1@))
    }

    /// No two entries bind the same key.
    pub open spec fn wf(self) -> bool {
        unique_keys(self.spec_model())
    }

    /// An empty collection.
    pub fn new() -> (r: KeysAndValues)
        ensures
            r.wf(),
            r.spec_model() == Seq::<(Seq<char>, Seq<char>)>::empty(),
    {
        let r = KeysAndValues { entries: Vec::new() };
        proof {
            assert(r.spec_model() =~= Seq::<(Seq<char>, Seq<char>)>::empty());
        }
        r
    }

    /// Bind `key` to `value`; see [`spec_insert`].
    pub fn set(&mut self, key: &str, value: &str)
        requires
            old(self).wf(),
        ensures
            final(self).wf(),
            final(self).spec_model() == spec_insert(old(self).spec_model(), key@, value@),
    {
        let key_s = key.to_owned();
        let value_s = value.to_owned();
        let n = self.entries.len();
        let mut j: usize = 0;
        while j < n
            invariant
                n == self.entries@.len(),
                j <= n,
                self.entries@ == old(self).entries@,
                old(self).wf(),
                key_s@ == key@,
                value_s@ == value@,
                forall|k: int| 0 <= k < j ==> old(self).spec_model()[k].0 != key@,
            decreases n - j,
        {
            proof {
                assert(old(self).spec_model()[j as int] == (self.entries@[j as int].0@, self.entries@[j as int].1@));
            }
            if self.entries[j].0 == key_s {
                proof {
                    lemma_key_index_charac(old(self).spec_model(), key@, j as int);
                    lemma_insert_unique(old(self).spec_model(), key@, value@);
                }
                self.entries[j] = (key_s, value_s);
                proof {
                    assert(self.spec_model() =~= old(self).spec_model().update(
                        j as int,
                        (key@, value@),
                    ));
                }
                return;
            }
            j = j + 1;
        }
        proof {
            lemma_key_index_charac(old(self).spec_model(), key@, n as int);
            lemma_insert_unique(old(self).spec_model(), key@, value@);
        }
        self.entries.push((key_s, value_s));
        proof {
            assert(self.spec_model() =~= old(self).spec_model().push((key@, value@)));
        }
    }

    /// The value bound to `key`, or a `MissingKey` error naming `key`.
    pub fn get(&self, key: &str) -> (r: Result<&String, ParseError>)
        ensures
            (match spec_get(self.spec_model(), key@) {
                Some(v) => (match r {
                    Ok(s) => s@ == v,
                    Err(_) => false,
                }),
                None => (match r {
                    Ok(_) => false,
                    Err(e) => e matches ParseError::MissingKey(k) && k@ == key@,
                }),
            }),
    {
        let key_s = key.to_owned();
        let n = self.entries.len();
        let mut j: usize = 0;
        while j < n
            invariant
                n == self.entries@.len(),
                j <= n,
                key_s@ == key@,
                forall|k: int| 0 <= k < j ==> self.spec_model()[k].0 != key@,
            decreases n - j,
        {
            proof {
                assert(self.spec_model()[j as int] == (self.entries@[j as int].0@, self.entries@[j as int].1@));
            }
            if self.entries[j].0 == key_s {
                proof {
                    lemma_key_index_charac(self.spec_model(), key@, j as int);
                }
                return Ok(&self.entries[j].1);
            }
            j = j + 1;
        }
        proof {
            lemma_key_index_charac(self.spec_model(), key@, n as int);
        }
        Err(ParseError::MissingKey(key_s))
    }

    /// Parse a whole settings text; every line binds in order, later bindings
    /// of a key replacing earlier ones.  Reading never fails.
    pub fn new_from_str(data: &str) -> (r: Result<KeysAndValues, ParseError>)
        ensures
            (match r {
                Ok(kv) => kv.wf() && kv.spec_model() == spec_kv_of_str(data@),
                Err(_) => false,
            }),
    {
        let lines = split_exec(data, '\n');
        let ghost lviews = lines@.map_values(|t: String| t@);
        let mut kv = KeysAndValues::new();
        let mut i: usize = 0;
        proof {
            assert(lviews.take(0) =~= Seq::<Seq<char>>::empty());
        }
        while i < lines.len()
            invariant
                lviews == lines@.map_values(|t: String| t@),
                lviews == spec_split(data@, '\n'),
                i <= lines@.len(),
                kv.wf(),
                kv.spec_model() == spec_kv_from_lines(lviews.take(i as int)),
            decreases lines@.len() - i,
        {
            let ghost prefix = lviews.take(i as int + 1);
            proof {
                assert(prefix.drop_last() =~= lviews.take(i as int));
                assert(prefix.last() == lviews[i as int]);
            }
            match parse(lines[i].as_str()) {
                None => {},
                Some(pair) => {
                    kv.set(pair.0.as_str(), pair.1.as_str());
                },
            }
            i = i + 1;
        }
        proof {
            assert(lviews.take(lines@.len() as int) =~= lviews);
        }
        Ok(kv)
    }

    /// Render the collection as `key=value` lines joined by newlines.
    pub fn to_string(&self) -> (r: String)
        ensures
            r@ == spec_render(self.spec_model()),
    {
        let n = self.entries.len();
        let mut out = String::new();
        let mut i: usize = 0;
        while i < n
            invariant
                n == self.entries@.len(),
                i <= n,
                out@ + spec_render_from(self.spec_model(), i as int) == spec_render(
                    self.spec_model(),
                ),
                i == n ==> out@ == spec_render(self.spec_model()),
            decreases n - i,
        {
            out.append(self.entries[i].0.as_str());
            out.append("=");
            out.append(self.entries[i].1.as_str());
            if i + 1 < n {
                out.append("\n");
            }
            proof {
                if i as int + 1 < n as int {
                    assert(out@ + spec_render_from(self.spec_model(), i as int + 1)
                        =~= spec_render(self.spec_model()));
                } else {
                    assert(out@ =~= spec_render(self.spec_model()));
                }
            }
            i = i + 1;
        }
        proof {
            if n == 0 {
                assert(out@ =~= spec_render(self.spec_model()));
            }
        }
        out
    }
}

} // verus!
