use vstd::prelude::*;
use vstd::string::*;

verus! {

/// The ASCII digit for a value below ten.
pub open spec fn digit_char(d: nat) -> char {
    if d == 0 { '0' }
    else if d == 1 { '1' }
    else if d == 2 { '2' }
    else if d == 3 { '3' }
    else if d == 4 { '4' }
    else if d == 5 { '5' }
    else if d == 6 { '6' }
    else if d == 7 { '7' }
    else if d == 8 { '8' }
    else { '9' }
}

/// The decimal representation of `n`, without sign or leading zeros.
pub open spec fn decimal(n: nat) -> Seq<char>
    decreases n,
{
    if n < 10 {
        seq![digit_char(n)]
    } else {
        decimal(n / 10).push(digit_char(n % 10))
    }
}

fn digit_str(d: u64) -> (r: &'static str)
    requires
        d < 10,
    ensures
        r@ == seq![digit_char(d as nat)],
{
    proof {
        reveal_strlit("0");
        reveal_strlit("1");
        reveal_strlit("2");
        reveal_strlit("3");
        reveal_strlit("4");
        reveal_strlit("5");
        reveal_strlit("6");
        reveal_strlit("7");
        reveal_strlit("8");
        reveal_strlit("9");
    }
    match d {
        0 => "0",
        1 => "1",
        2 => "2",
        3 => "3",
        4 => "4",
        5 => "5",
        6 => "6",
        7 => "7",
        8 => "8",
        _ => "9",
    }
}

/// Renders `n` in decimal.
pub fn decimal_string(n: u64) -> (r: String)
    ensures
        r@ == decimal(n as nat),
    decreases n,
{
    if n < 10 {
        String::from_str(digit_str(n))
    } else {
        let mut s = decimal_string(n / 10);
        s.append(digit_str(n % 10));
        s
    }
}

/// Optional attributes that qualify a repository locator.
#[derive(Debug, Clone, Default, PartialEq)]
pub struct FlakeRefAttrs {
    /// Branch or tag name (`ref`).
    pub git_ref: Option<String>,
    /// Revision hash (`rev`).
    pub rev: Option<String>,
    /// Subdirectory within the repository (`dir`).
    pub dir: Option<String>,
    /// Content hash (`narHash`).
    pub nar_hash: Option<String>,
    /// Revision count (`revCount`).
    pub rev_count: Option<u64>,
    /// Last modification timestamp (`lastModified`).
    pub last_modified: Option<u64>,
}

/// `key=value` as it appears in a query.
pub open spec fn pair(key: Seq<char>, value: Seq<char>) -> Seq<char> {
    key + seq!['='] + value
}

/// The pair for a textual attribute, if present.
pub open spec fn text_pair(key: Seq<char>, value: Option<String>) -> Seq<Seq<char>> {
    match value {
        Some(v) => seq![pair(key, v@)],
        None => seq![],
    }
}

/// The pair for a numeric attribute, if present.
pub open spec fn number_pair(key: Seq<char>, value: Option<u64>) -> Seq<Seq<char>> {
    match value {
        Some(n) => seq![pair(key, decimal(n as nat))],
        None => seq![],
    }
}

/// The items of `parts` separated by `sep`.
pub open spec fn join(parts: Seq<Seq<char>>, sep: Seq<char>) -> Seq<char>
    decreases parts.len(),
{
    if parts.len() == 0 {
        seq![]
    } else if parts.len() == 1 {
        parts[0]
    } else {
        join(parts.drop_last(), sep) + sep + parts.last()
    }
}

/// `?` followed by the pairs joined by `&`, or nothing when there are no pairs.
pub open spec fn query_of(parts: Seq<Seq<char>>) -> Seq<char> {
    if parts.len() == 0 {
        seq![]
    } else {
        seq!['?'] + join(parts, seq!['&'])
    }
}

impl FlakeRefAttrs {
    /// The present attributes as `key=value` pairs, in the fixed order
    /// `ref`, `rev`, `dir`, `narHash`, `revCount`, `lastModified`.
    pub open spec fn pairs(&self) -> Seq<Seq<char>> {
        text_pair("ref"@, self.git_ref)
            + text_pair("rev"@, self.rev)
            + text_pair("dir"@, self.dir)
            + text_pair("narHash"@, self.nar_hash)
            + number_pair("revCount"@, self.rev_count)
            + number_pair("lastModified"@, self.last_modified)
    }

    /// The query suffix for these attributes.
    pub open spec fn query(&self) -> Seq<char> {
        query_of(self.pairs())
    }

    /// True when no attribute is present.
    pub open spec fn is_empty(&self) -> bool {
        &&& self.git_ref is None
        &&& self.rev is None
        &&& self.dir is None
        &&& self.nar_hash is None
        &&& self.rev_count is None
        &&& self.last_modified is None
    }
}

proof fn lemma_query_push(parts: Seq<Seq<char>>, p: Seq<char>)
    ensures
        query_of(parts.push(p)) == if parts.len() == 0 {
            seq!['?'] + p
        } else {
            query_of(parts) + seq!['&'] + p
        },
{
    assert(parts.push(p).drop_last() =~= parts);
    if parts.len() == 0 {
        assert(join(parts.push(p), seq!['&']) == p);
    } else {
        assert(query_of(parts.push(p)) =~= query_of(parts) + seq!['&'] + p);
    }
}

/// Adds `key=value` to the query held in `q`, built so far from `parts`.
fn push_pair(q: &mut String, key: &str, value: &str, Ghost(parts): Ghost<Seq<Seq<char>>>)
    requires
        old(q)@ == query_of(parts),
    ensures
        final(q)@ == query_of(parts.push(pair(key@, value@))),
{
    proof {
        lemma_query_push(parts, pair(key@, value@));
        reveal_strlit("?");
        reveal_strlit("&");
        reveal_strlit("=");
    }
    if q.as_str().is_empty() {
        q.append("?");
    } else {
        q.append("&");
    }
    q.append(key);
    q.append("=");
    q.append(value);
    assert(final(q)@ =~= query_of(parts.push(pair(key@, value@))));
}

/// `base` with the query of `parts` added: unchanged when there are no pairs,
/// joined with `&` when `base` already holds a `?`, else after a `?`.
pub open spec fn append_query(base: Seq<char>, parts: Seq<Seq<char>>) -> Seq<char> {
    if parts.len() == 0 {
        base
    } else if base.contains('?') {
        base + seq!['&'] + join(parts, seq!['&'])
    } else {
        base + query_of(parts)
    }
}

/// Whether `s` holds a `?`.
fn has_question_mark(s: &str) -> (r: bool)
    ensures
        r == s@.contains('?'),
{
    let n = s.unicode_len();
    let mut i: usize = 0;
    while i < n
        invariant
            n == s@.len(),
            i <= n,
            forall|j: int| 0 <= j < i ==> s@[j] != '?',
        decreases n - i,
    {
        if s.get_char(i) == '?' {
            return true;
        }
        i = i + 1;
    }
    false
}

impl FlakeRefAttrs {
    /// The query suffix: each present attribute as `key=value`, in the fixed
    /// order, joined by `&` after a leading `?`; empty when none is present.
    /// Values are written as they are, without escaping.
    pub fn query_string(&self) -> (r: String)
        ensures
            r@ == self.query(),
            r@.len() == 0 <==> self.is_empty(),
    {
        proof {
            reveal_strlit("ref");
            reveal_strlit("rev");
            reveal_strlit("dir");
            reveal_strlit("narHash");
            reveal_strlit("revCount");
            reveal_strlit("lastModified");
        }
        let mut q = String::new();
        let ghost mut parts: Seq<Seq<char>> = seq![];
        if let Some(v) = &self.git_ref {
            push_pair(&mut q, "ref", v.as_str(), Ghost(parts));
            proof { parts = parts.push(pair("ref"@, v@)); }
        }
        assert(parts =~= text_pair("ref"@, self.git_ref));
        if let Some(v) = &self.rev {
            push_pair(&mut q, "rev", v.as_str(), Ghost(parts));
            proof { parts = parts.push(pair("rev"@, v@)); }
        }
        assert(parts =~= text_pair("ref"@, self.git_ref) + text_pair("rev"@, self.rev));
        if let Some(v) = &self.dir {
            push_pair(&mut q, "dir", v.as_str(), Ghost(parts));
            proof { parts = parts.push(pair("dir"@, v@)); }
        }
        if let Some(v) = &self.nar_hash {
            push_pair(&mut q, "narHash", v.as_str(), Ghost(parts));
            proof { parts = parts.push(pair("narHash"@, v@)); }
        }
        assert(parts =~= text_pair("ref"@, self.git_ref) + text_pair("rev"@, self.rev)
            + text_pair("dir"@, self.dir) + text_pair("narHash"@, self.nar_hash));
        if let Some(n) = self.rev_count {
            let d = decimal_string(n);
            push_pair(&mut q, "revCount", d.as_str(), Ghost(parts));
            proof { parts = parts.push(pair("revCount"@, d@)); }
        }
        if let Some(n) = self.last_modified {
            let d = decimal_string(n);
            push_pair(&mut q, "lastModified", d.as_str(), Ghost(parts));
            proof { parts = parts.push(pair("lastModified"@, d@)); }
        }
        assert(parts =~= self.pairs());
        q
    }

    /// Adds the query of these attributes to `base`: `base` unchanged when no
    /// attribute is present; otherwise joined with `&` when `base` already
    /// carries a `?`, and after a `?` when it does not.
    pub fn append_to(&self, base: &str) -> (r: String)
        ensures
            r@ == append_query(base@, self.pairs()),
    {
        let query = self.query_string();
        if query.as_str().is_empty() {
            String::from_str(base)
        } else if has_question_mark(base) {
            proof { reveal_strlit("&"); }
            let n = query.as_str().unicode_len();
            let mut r = String::from_str(base);
            r.append("&");
            r.append(query.as_str().substring_char(1, n));
            assert(r@ =~= append_query(base@, self.pairs()));
            r
        } else {
            let mut r = String::from_str(base);
            r.append(query.as_str());
            r
        }
    }
}

/// True when `s` holds at most one `?`.
pub open spec fn at_most_one_question_mark(s: Seq<char>) -> bool {
    forall|i: int, j: int| 0 <= i < j < s.len() ==> !(s[i] == '?' && s[j] == '?')
}

impl FlakeRefAttrs {
    /// True when no textual attribute holds a `?`.
    pub open spec fn values_free_of_question_marks(&self) -> bool {
        &&& self.git_ref matches Some(v) ==> !v@.contains('?')
        &&& self.rev matches Some(v) ==> !v@.contains('?')
        &&& self.dir matches Some(v) ==> !v@.contains('?')
        &&& self.nar_hash matches Some(v) ==> !v@.contains('?')
    }
}

proof fn lemma_decimal_has_no_question_mark(n: nat)
    ensures
        !decimal(n).contains('?'),
    decreases n,
{
    if n >= 10 {
        lemma_decimal_has_no_question_mark(n / 10);
        assert(decimal(n) == decimal(n / 10).push(digit_char(n % 10)));
        assert forall|i: int| 0 <= i < decimal(n).len() implies decimal(n)[i] != '?' by {
            if i < decimal(n / 10).len() {
                assert(decimal(n)[i] == decimal(n / 10)[i]);
            }
        }
    }
}

proof fn lemma_concat_has_no_question_mark(a: Seq<char>, b: Seq<char>)
    requires
        !a.contains('?'),
        !b.contains('?'),
    ensures
        !(a + b).contains('?'),
{
    assert forall|i: int| 0 <= i < (a + b).len() implies (a + b)[i] != '?' by {
        if i < a.len() {
            assert((a + b)[i] == a[i]);
        } else {
            assert((a + b)[i] == b[i - a.len()]);
        }
    }
}

proof fn lemma_join_has_no_question_mark(parts: Seq<Seq<char>>, sep: Seq<char>)
    requires
        forall|k: int| 0 <= k < parts.len() ==> !parts[k].contains('?'),
        !sep.contains('?'),
    ensures
        !join(parts, sep).contains('?'),
    decreases parts.len(),
{
    if parts.len() > 1 {
        lemma_join_has_no_question_mark(parts.drop_last(), sep);
        lemma_concat_has_no_question_mark(join(parts.drop_last(), sep), sep);
        lemma_concat_has_no_question_mark(join(parts.drop_last(), sep) + sep, parts.last());
    } else if parts.len() == 0 {
        assert(join(parts, sep).len() == 0);
    }
}

proof fn lemma_text_pair_has_no_question_mark(key: Seq<char>, value: Option<String>)
    requires
        !key.contains('?'),
        value matches Some(v) ==> !v@.contains('?'),
    ensures
        forall|k: int| 0 <= k < text_pair(key, value).len() ==> !(#[trigger] text_pair(key, value)[k]).contains('?'),
{
    if let Some(v) = value {
        assert(!seq!['='].contains('?')) by {
            assert(seq!['='][0] == '=');
        }
        lemma_concat_has_no_question_mark(key, seq!['=']);
        lemma_concat_has_no_question_mark(key + seq!['='], v@);
    }
}

proof fn lemma_number_pair_has_no_question_mark(key: Seq<char>, value: Option<u64>)
    requires
        !key.contains('?'),
    ensures
        forall|k: int| 0 <= k < number_pair(key, value).len() ==> !(#[trigger] number_pair(key, value)[k]).contains('?'),
{
    if let Some(n) = value {
        assert(!seq!['='].contains('?')) by {
            assert(seq!['='][0] == '=');
        }
        lemma_decimal_has_no_question_mark(n as nat);
        lemma_concat_has_no_question_mark(key, seq!['=']);
        lemma_concat_has_no_question_mark(key + seq!['='], decimal(n as nat));
    }
}

proof fn lemma_concat_parts(a: Seq<Seq<char>>, b: Seq<Seq<char>>)
    requires
        forall|k: int| 0 <= k < a.len() ==> !(#[trigger] a[k]).contains('?'),
        forall|k: int| 0 <= k < b.len() ==> !(#[trigger] b[k]).contains('?'),
    ensures
        forall|k: int| 0 <= k < (a + b).len() ==> !(#[trigger] (a + b)[k]).contains('?'),
{
    assert forall|k: int| 0 <= k < (a + b).len() implies !(#[trigger] (a + b)[k]).contains('?') by {
        if k < a.len() {
            assert((a + b)[k] == a[k]);
        } else {
            assert((a + b)[k] == b[k - a.len()]);
        }
    }
}

/// Adding attributes to a locator never produces a second `?` nor a stray
/// `&`: for a base without `?` the result holds at most one `?`, and for a
/// base that has one the attributes follow it after a single `&`. This holds
/// whenever the attribute values themselves hold no `?`, since values are
/// written as they are.
pub proof fn lemma_append_query_marks(attrs: FlakeRefAttrs, base: Seq<char>)
    requires
        attrs.values_free_of_question_marks(),
    ensures
        !base.contains('?') ==> at_most_one_question_mark(append_query(base, attrs.pairs())),
        base.contains('?') && !attrs.is_empty() ==> append_query(base, attrs.pairs())
            == base + seq!['&'] + join(attrs.pairs(), seq!['&']),
        base.contains('?') && attrs.is_empty() ==> append_query(base, attrs.pairs()) == base,
{
    reveal_strlit("ref");
    reveal_strlit("rev");
    reveal_strlit("dir");
    reveal_strlit("narHash");
    reveal_strlit("revCount");
    reveal_strlit("lastModified");
    assert(!"ref"@.contains('?')) by { assert forall|i: int| 0 <= i < 3 implies "ref"@[i] != '?' by {} }
    assert(!"rev"@.contains('?')) by { assert forall|i: int| 0 <= i < 3 implies "rev"@[i] != '?' by {} }
    assert(!"dir"@.contains('?')) by { assert forall|i: int| 0 <= i < 3 implies "dir"@[i] != '?' by {} }
    assert(!"narHash"@.contains('?')) by { assert forall|i: int| 0 <= i < 7 implies "narHash"@[i] != '?' by {} }
    assert(!"revCount"@.contains('?')) by { assert forall|i: int| 0 <= i < 8 implies "revCount"@[i] != '?' by {} }
    assert(!"lastModified"@.contains('?')) by { assert forall|i: int| 0 <= i < 12 implies "lastModified"@[i] != '?' by {} }
    let a = text_pair("ref"@, attrs.git_ref);
    let b = text_pair("rev"@, attrs.rev);
    let c = text_pair("dir"@, attrs.dir);
    let d = text_pair("narHash"@, attrs.nar_hash);
    let e = number_pair("revCount"@, attrs.rev_count);
    let f = number_pair("lastModified"@, attrs.last_modified);
    lemma_text_pair_has_no_question_mark("ref"@, attrs.git_ref);
    lemma_text_pair_has_no_question_mark("rev"@, attrs.rev);
    lemma_text_pair_has_no_question_mark("dir"@, attrs.dir);
    lemma_text_pair_has_no_question_mark("narHash"@, attrs.nar_hash);
    lemma_number_pair_has_no_question_mark("revCount"@, attrs.rev_count);
    lemma_number_pair_has_no_question_mark("lastModified"@, attrs.last_modified);
    lemma_concat_parts(a, b);
    lemma_concat_parts(a + b, c);
    lemma_concat_parts(a + b + c, d);
    lemma_concat_parts(a + b + c + d, e);
    lemma_concat_parts(a + b + c + d + e, f);
    let parts = attrs.pairs();
    assert(parts.len() == 0 <==> attrs.is_empty());
    assert(!seq!['&'].contains('?')) by {
        assert(seq!['&'][0] == '&');
    }
    lemma_join_has_no_question_mark(parts, seq!['&']);
    if !base.contains('?') && parts.len() > 0 {
        let j = join(parts, seq!['&']);
        let r = append_query(base, parts);
        assert(r =~= base + seq!['?'] + j);
        assert forall|i: int, k: int| 0 <= i < k < r.len() implies !(r[i] == '?' && r[k] == '?') by {
            if i < base.len() {
                assert(r[i] == base[i]);
            } else if i == base.len() {
                assert(r[k] == j[k - base.len() - 1]);
            }
        }
    }
}

/// Whether `k` is the key of one of the six attributes.
pub open spec fn is_query_key(k: Seq<char>) -> bool {
    ||| k == "ref"@
    ||| k == "rev"@
    ||| k == "dir"@
    ||| k == "narHash"@
    ||| k == "revCount"@
    ||| k == "lastModified"@
}

proof fn lemma_join_starts_with_first(parts: Seq<Seq<char>>, sep: Seq<char>)
    requires
        parts.len() > 0,
    ensures
        join(parts, sep).len() >= parts[0].len(),
        join(parts, sep).subrange(0, parts[0].len() as int) == parts[0],
    decreases parts.len(),
{
    if parts.len() == 1 {
        assert(join(parts, sep).subrange(0, parts[0].len() as int) =~= parts[0]);
    } else {
        lemma_join_starts_with_first(parts.drop_last(), sep);
        let j = join(parts.drop_last(), sep);
        assert(parts.drop_last()[0] == parts[0]);
        assert(join(parts, sep) == j + sep + parts.last());
        assert((j + sep + parts.last()).subrange(0, parts[0].len() as int) =~= j.subrange(0, parts[0].len() as int));
    }
}

/// When attributes are present, what follows the base is a single separator
/// (`&` after a base that holds a `?`, else `?`) and then directly the first
/// present attribute as `key=value`.
pub proof fn lemma_append_query_separator(attrs: FlakeRefAttrs, base: Seq<char>)
    requires
        !attrs.is_empty(),
    ensures
        attrs.pairs().len() > 0,
        exists|k: Seq<char>, v: Seq<char>| is_query_key(k) && #[trigger] pair(k, v) == attrs.pairs()[0],
        ({
            let r = append_query(base, attrs.pairs());
            let sep = if base.contains('?') { '&' } else { '?' };
            &&& r.len() >= base.len() + 1 + attrs.pairs()[0].len()
            &&& r.subrange(0, (base.len() + 1 + attrs.pairs()[0].len()) as int) == base.push(sep) + attrs.pairs()[0]
        }),
{
    let a = text_pair("ref"@, attrs.git_ref);
    let b = text_pair("rev"@, attrs.rev);
    let c = text_pair("dir"@, attrs.dir);
    let d = text_pair("narHash"@, attrs.nar_hash);
    let e = number_pair("revCount"@, attrs.rev_count);
    let f = number_pair("lastModified"@, attrs.last_modified);
    let parts = attrs.pairs();
    assert(parts == a + b + c + d + e + f);
    if let Some(v) = attrs.git_ref {
        assert(parts[0] == pair("ref"@, v@));
    } else if let Some(v) = attrs.rev {
        assert(parts[0] == pair("rev"@, v@));
    } else if let Some(v) = attrs.dir {
        assert(parts[0] == pair("dir"@, v@));
    } else if let Some(v) = attrs.nar_hash {
        assert(parts[0] == pair("narHash"@, v@));
    } else if let Some(n) = attrs.rev_count {
        assert(parts[0] == pair("revCount"@, decimal(n as nat)));
    } else if let Some(n) = attrs.last_modified {
        assert(parts[0] == pair("lastModified"@, decimal(n as nat)));
    }
    lemma_join_starts_with_first(parts, seq!['&']);
    let j = join(parts, seq!['&']);
    let r = append_query(base, parts);
    let sep = if base.contains('?') { '&' } else { '?' };
    let m = (base.len() + 1 + parts[0].len()) as int;
    assert(r == base + seq![sep] + j);
    assert(r.subrange(0, m) =~= base.push(sep) + j.subrange(0, parts[0].len() as int));
}

/// How many times `c` occurs in `s`.
pub open spec fn count_char(s: Seq<char>, c: char) -> nat
    decreases s.len(),
{
    if s.len() == 0 {
        0
    } else {
        count_char(s.drop_last(), c) + if s.last() == c { 1nat } else { 0nat }
    }
}

proof fn lemma_count_char_concat(a: Seq<char>, b: Seq<char>, c: char)
    ensures
        count_char(a + b, c) == count_char(a, c) + count_char(b, c),
    decreases b.len(),
{
    if b.len() == 0 {
        assert(a + b =~= a);
    } else {
        assert((a + b).drop_last() =~= a + b.drop_last());
        lemma_count_char_concat(a, b.drop_last(), c);
    }
}

/// Adding attributes adds no `?` of its own after a base that holds one, and
/// exactly one before the pairs otherwise: the `?` marks of the result are
/// those of the base, of the separator and of the joined pairs.
pub proof fn lemma_append_query_mark_count(attrs: FlakeRefAttrs, base: Seq<char>)
    ensures
        attrs.is_empty() ==> count_char(append_query(base, attrs.pairs()), '?') == count_char(base, '?'),
        !attrs.is_empty() && base.contains('?') ==> count_char(append_query(base, attrs.pairs()), '?')
            == count_char(base, '?') + count_char(join(attrs.pairs(), seq!['&']), '?'),
        !attrs.is_empty() && !base.contains('?') ==> count_char(append_query(base, attrs.pairs()), '?')
            == count_char(base, '?') + 1 + count_char(join(attrs.pairs(), seq!['&']), '?'),
{
    let parts = attrs.pairs();
    assert(parts.len() == 0 <==> attrs.is_empty());
    let j = join(parts, seq!['&']);
    assert(count_char(seq!['&'], '?') == 0) by {
        reveal_with_fuel(count_char, 2);
        assert(seq!['&'].drop_last() =~= Seq::<char>::empty());
        assert(seq!['&'].last() == '&');
    }
    assert(count_char(seq!['?'], '?') == 1) by {
        reveal_with_fuel(count_char, 2);
        assert(seq!['?'].drop_last() =~= Seq::<char>::empty());
        assert(seq!['?'].last() == '?');
    }
    if parts.len() > 0 {
        if base.contains('?') {
            lemma_count_char_concat(base, seq!['&'], '?');
            lemma_count_char_concat(base + seq!['&'], j, '?');
        } else {
            assert(append_query(base, parts) =~= base + (seq!['?'] + j));
            lemma_count_char_concat(seq!['?'], j, '?');
            lemma_count_char_concat(base, seq!['?'] + j, '?');
        }
    }
}

} // verus!
