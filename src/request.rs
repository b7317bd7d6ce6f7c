use vstd::prelude::*;

verus! {

/// The pieces of `s` between `=` signs, with the empty ones left out;
/// `cur` is the piece gathered so far.
pub open spec fn fragments_from(s: Seq<char>, cur: Seq<char>) -> Seq<Seq<char>>
    decreases s.len(),
{
    if s.len() == 0 {
        if cur.len() == 0 {
            seq![]
        } else {
            seq![cur]
        }
    } else if s[0] == '=' {
        let rest = fragments_from(s.drop_first(), seq![]);
        if cur.len() == 0 {
            rest
        } else {
            seq![cur] + rest
        }
    } else {
        fragments_from(s.drop_first(), cur.push(s[0]))
    }
}

/// The non-empty pieces of `s` split on `=`.
pub open spec fn fragments(s: Seq<char>) -> Seq<Seq<char>> {
    fragments_from(s, seq![])
}

/// A `key=value` pair of a request body.
#[derive(Debug, Clone)]
pub struct UrlKV(pub String, pub String);

/// Why a command argument was refused.
#[derive(Debug, Clone)]
pub enum ParseError {
    /// The text is not an absolute URL.
    InvalidUrl(String),
    /// The token is not of the form `key=value`.
    InvalidParam(String),
}

pub open spec fn strings_view(v: Seq<String>) -> Seq<Seq<char>> {
    v.map_values(|x: String| x@)
}

proof fn lemma_fragments_step(s: Seq<char>, i: int, start: int)
    requires
        0 <= start <= i < s.len(),
    ensures
        s[i] == '=' ==> fragments_from(s.subrange(i, s.len() as int), s.subrange(start, i))
            == (if i == start {
            seq![]
        } else {
            seq![s.subrange(start, i)]
        }) + fragments_from(s.subrange(i + 1, s.len() as int), seq![]),
        s[i] != '=' ==> fragments_from(s.subrange(i, s.len() as int), s.subrange(start, i))
            == fragments_from(s.subrange(i + 1, s.len() as int), s.subrange(start, i + 1)),
{
    let t = s.subrange(i, s.len() as int);
    assert(t.drop_first() =~= s.subrange(i + 1, s.len() as int));
    assert(s.subrange(start, i).push(s[i]) =~= s.subrange(start, i + 1));
    if s[i] == '=' && i == start {
        assert(seq![] + fragments_from(s.subrange(i + 1, s.len() as int), seq![])
            =~= fragments_from(s.subrange(i + 1, s.len() as int), seq![]));
    }
}

/// Relies on `String::push_str`: appends `t` to `s`.
#[verifier::external_body]
pub(crate) fn append(s: &mut String, t: &str)
    ensures
        final(s)@ == old(s)@ + t@,
{
    s.push_str(t)
}

impl ParseError {
    /// The message shown to the user.
    pub fn message(&self) -> (r: String)
        ensures
            self matches ParseError::InvalidUrl(t) ==> r@ == "invalid url: "@ + t@,
            self matches ParseError::InvalidParam(t) ==> r@ == "parse url param error: "@ + t@,
    {
        match self {
            ParseError::InvalidUrl(t) => {
                let mut m = "invalid url: ".to_string();
                append(&mut m, t.as_str());
                m
            },
            ParseError::InvalidParam(t) => {
                let mut m = "parse url param error: ".to_string();
                append(&mut m, t.as_str());
                m
            },
        }
    }
}

/// Splits `s` on `=` and keeps the non-empty pieces.
fn split_fragments(s: &str) -> (r: Vec<String>)
    ensures
        strings_view(r@) == fragments(s@),
{
    let n = s.unicode_len();
    let mut out: Vec<String> = Vec::new();
    let mut start: usize = 0;
    let mut i: usize = 0;
    assert(s@.subrange(0, s@.len() as int) =~= s@);
    assert(s@.subrange(0, 0) =~= Seq::<char>::empty());
    assert(strings_view(out@) + fragments_from(s@.subrange(0, n as int), s@.subrange(0, 0))
        =~= fragments(s@));
    while i < n
        invariant
            n == s@.len(),
            start <= i <= n,
            strings_view(out@) + fragments_from(
                s@.subrange(i as int, n as int),
                s@.subrange(start as int, i as int),
            ) == fragments(s@),
        decreases n - i,
    {
        let c = s.get_char(i);
        proof {
            lemma_fragments_step(s@, i as int, start as int);
        }
        if c == '=' {
            if i > start {
                let piece = s.substring_char(start, i).to_string();
                let ghost before = out@;
                out.push(piece);
                assert(strings_view(out@) =~= strings_view(before) + seq![piece@]);
            } else {
                assert(s@.subrange(start as int, i as int).len() == 0);
            }
            start = i + 1;
            i = i + 1;
            assert(s@.subrange(start as int, i as int) =~= Seq::<char>::empty());
        } else {
            i = i + 1;
        }
    }
    assert(s@.subrange(n as int, n as int) =~= Seq::<char>::empty());
    if start < n {
        let piece = s.substring_char(start, n).to_string();
        let ghost before = out@;
        out.push(piece);
        assert(strings_view(out@) =~= strings_view(before) + seq![piece@]);
    }
    assert(strings_view(out@) =~= strings_view(out@) + Seq::<Seq<char>>::empty());
    out
}

impl UrlKV {
    /// Reads a `key=value` token: split on `=`, empty pieces left out,
    /// exactly two pieces must remain.
    pub fn from_str(s: &str) -> (r: Result<UrlKV, ParseError>)
        ensures
            fragments(s@).len() == 2 <==> r is Ok,
            r matches Ok(kv) ==> kv.0@ == fragments(s@)[0] && kv.1@ == fragments(s@)[1],
            r matches Err(e) ==> e matches ParseError::InvalidParam(t) && t@ == s@,
    {
        let mut kv = split_fragments(s);
        if kv.len() != 2 {
            return Err(ParseError::InvalidParam(s.to_string()));
        }
        let value = kv.pop().unwrap();
        let key = kv.pop().unwrap();
        Ok(UrlKV(key, value))
    }
}

/// Whether `reqwest::Url` (the `url` crate's parser) accepts the text as an
/// absolute URL.
pub uninterp spec fn url_parses(s: Seq<char>) -> bool;

/// Relies on `<reqwest::Url as FromStr>::from_str`: whether the text parses as
/// an absolute URL. The parser wants a scheme ended by `:`, so text without a
/// `:` is always refused.
#[verifier::external_body]
fn url_is_valid(s: &str) -> (r: bool)
    ensures
        r == url_parses(s@),
        !s@.contains(':') ==> !r,
{
    s.parse::<reqwest::Url>().is_ok()
}

/// Checks that `s` is an absolute URL and hands it back unchanged.
pub fn parse_url(s: &str) -> (r: Result<String, ParseError>)
    ensures
        r is Ok <==> url_parses(s@),
        r matches Ok(u) ==> u@ == s@,
        r matches Err(e) ==> e matches ParseError::InvalidUrl(t) && t@ == s@,
        !s@.contains(':') ==> r is Err,
{
    if url_is_valid(s) {
        Ok(s.to_string())
    } else {
        Err(ParseError::InvalidUrl(s.to_string()))
    }
}

/// Reads one `key=value` token of a request body.
pub fn parse_url_param(s: &str) -> (r: Result<UrlKV, ParseError>)
    ensures
        fragments(s@).len() == 2 <==> r is Ok,
        r matches Ok(kv) ==> kv.0@ == fragments(s@)[0] && kv.1@ == fragments(s@)[1],
        r matches Err(e) ==> e matches ParseError::InvalidParam(t) && t@ == s@,
{
    UrlKV::from_str(s)
}

/// A token made of a key, one `=` and a value, both non-empty and free of
/// `=`, is read as exactly that key and that value.
pub proof fn lemma_single_equals_splits(k: Seq<char>, v: Seq<char>)
    requires
        k.len() > 0,
        v.len() > 0,
        !k.contains('='),
        !v.contains('='),
    ensures
        fragments(k + seq!['='] + v) == seq![k, v],
{
    let s = k + seq!['='] + v;
    let n = s.len() as int;
    assert(s.subrange(0, n) =~= s);
    lemma_fragments_plain(s, 0, k.len() as int, seq![]);
    assert(Seq::<char>::empty() + s.subrange(0, k.len() as int) =~= k);
    let t = s.subrange(k.len() as int, n);
    assert(t[0] == '=');
    assert(t.drop_first() =~= v);
    assert(fragments(s) == seq![k] + fragments_from(v, seq![]));
    lemma_fragments_plain(v, 0, v.len() as int, seq![]);
    assert(v.subrange(0, v.len() as int) =~= v);
    assert(v.subrange(v.len() as int, v.len() as int) =~= Seq::<char>::empty());
    assert(Seq::<char>::empty() + v.subrange(0, v.len() as int) =~= v);
    assert(fragments_from(v, seq![]) == seq![v]);
    assert(seq![k] + seq![v] =~= seq![k, v]);
}

/// Reading a run of characters without `=` only extends the current piece.
proof fn lemma_fragments_plain(s: Seq<char>, i: int, j: int, cur: Seq<char>)
    requires
        0 <= i <= j <= s.len(),
        forall|m: int| i <= m < j ==> s[m] != '=',
    ensures
        fragments_from(s.subrange(i, s.len() as int), cur) == fragments_from(
            s.subrange(j, s.len() as int),
            cur + s.subrange(i, j),
        ),
    decreases j - i,
{
    if i == j {
        assert(cur + s.subrange(i, j) =~= cur);
    } else {
        assert(s.subrange(i, s.len() as int).drop_first() =~= s.subrange(i + 1, s.len() as int));
        assert(cur.push(s[i]) + s.subrange(i + 1, j) =~= cur + s.subrange(i, j));
        lemma_fragments_plain(s, i + 1, j, cur.push(s[i]));
    }
}

/// The body that a sequence of pairs gives: each key is bound to the value
/// of its last pair.
pub open spec fn body_map(kvs: Seq<(Seq<char>, Seq<char>)>) -> Map<Seq<char>, Seq<char>>
    decreases kvs.len(),
{
    if kvs.len() == 0 {
        Map::empty()
    } else {
        body_map(kvs.drop_last()).insert(kvs.last().0, kvs.last().1)
    }
}

pub open spec fn pairs_view(v: Seq<UrlKV>) -> Seq<(Seq<char>, Seq<char>)> {
    v.map_values(|kv: UrlKV| (kv.0@, kv.1@))
}

pub open spec fn entries_view(v: Seq<(String, String)>) -> Seq<(Seq<char>, Seq<char>)> {
    v.map_values(|e: (String, String)| (e.0@, e.1@))
}

/// The entries `e` hold each key once and hold exactly the map `m`.
pub open spec fn entries_are(e: Seq<(Seq<char>, Seq<char>)>, m: Map<Seq<char>, Seq<char>>) -> bool {
    &&& forall|i: int, j: int| 0 <= i < j < e.len() ==> e[i].0 != e[j].0
    &&& forall|i: int| 0 <= i < e.len() ==> m.contains_key(e[i].0) && m[e[i].0] == e[i].1
    &&& forall|k: Seq<char>| m.contains_key(k) ==> exists|i: int| 0 <= i < e.len() && e[i].0 == k
}

/// Gathers the pairs of a POST body into entries with unique keys; a later
/// pair overwrites an earlier one with the same key.
pub fn build_body(kvs: &Vec<UrlKV>) -> (r: Vec<(String, String)>)
    ensures
        entries_are(entries_view(r@), body_map(pairs_view(kvs@))),
{
    let mut out: Vec<(String, String)> = Vec::new();
    let mut n: usize = 0;
    while n < kvs.len()
        invariant
            n <= kvs.len(),
            entries_are(entries_view(out@), body_map(pairs_view(kvs@.subrange(0, n as int)))),
        decreases kvs.len() - n,
    {
        let ghost prev = body_map(pairs_view(kvs@.subrange(0, n as int)));
        let key = kvs[n].0.clone();
        let value = kvs[n].1.clone();
        assert(pairs_view(kvs@.subrange(0, n + 1)).drop_last() =~= pairs_view(kvs@.subrange(0, n as int)));
        let ghost next = prev.insert(key@, value@);
        assert(body_map(pairs_view(kvs@.subrange(0, n + 1))) == next);
        let mut j: usize = 0;
        let mut found = false;
        while j < out.len() && !found
            invariant
                j <= out.len(),
                entries_are(entries_view(out@), prev),
                found ==> j < out.len() && out@[j as int].0@ == key@,
                !found ==> forall|m: int| 0 <= m < j ==> out@[m].0@ != key@,
            decreases out.len() - j + (if found { 0int } else { 1int }),
        {
            if out[j].0 == key {
                found = true;
            } else {
                j = j + 1;
            }
        }
        let ghost before = entries_view(out@);
        if found {
            out.set(j, (key, value));
            assert(entries_are(entries_view(out@), next)) by {
                assert(entries_view(out@) =~= before.update(j as int, (key@, value@)));
                assert(before[j as int].0 == key@);
                assert forall|i: int| 0 <= i < before.len() && i != j implies before[i].0
                    != key@ by {
                    if i < j {
                        assert(before[i].0 != before[j as int].0);
                    } else {
                        assert(before[j as int].0 != before[i].0);
                    }
                }
                assert forall|k: Seq<char>| next.contains_key(k) implies exists|i: int|
                    0 <= i < entries_view(out@).len() && entries_view(out@)[i].0 == k by {
                    if k != key@ {
                        let i = choose|i: int| 0 <= i < before.len() && before[i].0 == k;
                        assert(entries_view(out@)[i].0 == k);
                    } else {
                        assert(entries_view(out@)[j as int].0 == k);
                    }
                }
            }
        } else {
            out.push((key, value));
            assert(entries_are(entries_view(out@), next)) by {
                assert(entries_view(out@) =~= before.push((key@, value@)));
                assert(forall|i: int| 0 <= i < before.len() ==> before[i].0 != key@);
                assert forall|k: Seq<char>| next.contains_key(k) implies exists|i: int|
                    0 <= i < entries_view(out@).len() && entries_view(out@)[i].0 == k by {
                    if k != key@ {
                        let i = choose|i: int| 0 <= i < before.len() && before[i].0 == k;
                        assert(entries_view(out@)[i].0 == k);
                    } else {
                        assert(entries_view(out@)[before.len() as int].0 == k);
                    }
                }
            }
        }
        n = n + 1;
    }
    assert(kvs@.subrange(0, kvs.len() as int) =~= kvs@);
    out
}

/// A pair whose key no later pair repeats decides that key's value in the
/// body.
pub proof fn lemma_last_pair_wins(kvs: Seq<(Seq<char>, Seq<char>)>, i: int)
    requires
        0 <= i < kvs.len(),
        forall|j: int| i < j < kvs.len() ==> kvs[j].0 != kvs[i].0,
    ensures
        body_map(kvs).contains_key(kvs[i].0),
        body_map(kvs)[kvs[i].0] == kvs[i].1,
    decreases kvs.len(),
{
    if i < kvs.len() - 1 {
        let d = kvs.drop_last();
        lemma_last_pair_wins(d, i);
    }
}

} // verus!
