//! Character-level string helpers used throughout the crate.
use vstd::prelude::*;

verus! {

/// The UTF-8 encoding of a text.
pub open spec fn utf8_bytes(s: Seq<char>) -> Seq<u8> {
    vstd::utf8::encode_utf8(s)
}

/// The decimal digit character for `d < 10`.
pub open spec fn digit_char(d: nat) -> char {
    ((d + 48) as u8) as char
}

/// The decimal representation of `n`, without leading zeros ("0" for zero).
pub open spec fn decimal(n: nat) -> Seq<char>
    decreases n,
{
    if n < 10 {
        seq![digit_char(n)]
    } else {
        decimal(n / 10).push(digit_char(n % 10))
    }
}

/// Appends one character to a string.
#[verifier::external_body]
pub fn push_char(s: &mut String, c: char)
    ensures
        final(s)@ == old(s)@.push(c),
{
    s.push(c);
}

/// Renders `n` in decimal, as `format!("{n}")` does.
pub fn u64_to_string(n: u64) -> (res: String)
    ensures
        res@ == decimal(n as nat),
    decreases n,
{
    if n < 10 {
        let mut s = String::new();
        let c: char = ((n as u8) + 48) as char;
        push_char(&mut s, c);
        s
    } else {
        let mut s = u64_to_string(n / 10);
        let d: u8 = (n % 10) as u8;
        let c: char = (d + 48) as char;
        push_char(&mut s, c);
        s
    }
}

/// Whether `a` and `b` hold the same characters.
pub fn str_eq(a: &str, b: &str) -> (r: bool)
    ensures
        r == (a@ == b@),
{
    let n = a.unicode_len();
    if n != b.unicode_len() {
        return false;
    }
    let mut i: usize = 0;
    while i < n
        invariant
            n == a@.len(),
            n == b@.len(),
            i <= n,
            forall|j: int| 0 <= j < i ==> a@[j] == b@[j],
        decreases n - i,
    {
        if a.get_char(i) != b.get_char(i) {
            return false;
        }
        i = i + 1;
    }
    assert(a@ =~= b@);
    true
}

/// The texts of a list of strings.
pub open spec fn texts(v: Seq<String>) -> Seq<Seq<char>> {
    v.map_values(|s: String| s@)
}

/// The parts joined with `sep` between consecutive ones, as `[..].join(sep)` does.
pub open spec fn join(parts: Seq<Seq<char>>, sep: Seq<char>) -> Seq<char>
    decreases parts.len(),
{
    if parts.len() == 0 {
        Seq::empty()
    } else if parts.len() == 1 {
        parts[0]
    } else {
        join(parts.drop_last(), sep) + sep + parts.last()
    }
}

/// Joins strings with a separator.
pub fn join_strings(parts: &Vec<String>, sep: &str) -> (r: String)
    ensures
        r@ == join(texts(parts@), sep@),
{
    let mut r = String::new();
    let n = parts.len();
    let mut i: usize = 0;
    while i < n
        invariant
            n == parts@.len(),
            i <= n,
            r@ == join(texts(parts@).take(i as int), sep@),
        decreases n - i,
    {
        assert(texts(parts@).take(i + 1).drop_last() =~= texts(parts@).take(i as int));
        if i > 0 {
            r.append(sep);
        }
        r.append(parts[i].as_str());
        i = i + 1;
    }
    assert(texts(parts@).take(n as int) =~= texts(parts@));
    r
}

/// A query string: empty without parameters, else `?` and the parameters joined by `&`.
pub open spec fn query_text(params: Seq<Seq<char>>) -> Seq<char> {
    if params.len() == 0 {
        Seq::empty()
    } else {
        "?"@ + join(params, "&"@)
    }
}

/// Builds a query string from `name=value` parameters.
pub fn query_string(params: &Vec<String>) -> (r: String)
    ensures
        r@ == query_text(texts(params@)),
{
    if params.len() == 0 {
        String::new()
    } else {
        let joined = join_strings(params, "&");
        let mut r = String::from_str("?");
        r.append(joined.as_str());
        r
    }
}

/// `name` followed by the value's text.
pub fn param_text(name: &str, value: &str) -> (r: String)
    ensures
        r@ == name@ + value@,
{
    let mut r = String::from_str(name);
    r.append(value);
    r
}

/// `name` followed by the number in decimal.
pub fn param_u64(name: &str, value: u64) -> (r: String)
    ensures
        r@ == name@ + decimal(value as nat),
{
    let v = u64_to_string(value);
    param_text(name, v.as_str())
}

/// The parameters `opt` contributes: `name=value` when it is set.
pub open spec fn opt_param(name: Seq<char>, opt: Option<Seq<char>>) -> Seq<Seq<char>> {
    match opt {
        Some(v) => seq![name + v],
        None => Seq::empty(),
    }
}

/// The parameters a numeric `opt` contributes.
pub open spec fn opt_param_u64(name: Seq<char>, opt: Option<u64>) -> Seq<Seq<char>> {
    match opt {
        Some(v) => seq![name + decimal(v as nat)],
        None => Seq::empty(),
    }
}

pub open spec fn opt_text(o: Option<String>) -> Option<Seq<char>> {
    match o {
        Some(s) => Some(s@),
        None => None,
    }
}

pub open spec fn opt_str(o: Option<&str>) -> Option<Seq<char>> {
    match o {
        Some(s) => Some(s@),
        None => None,
    }
}

/// Borrows the text of an optional string.
pub fn opt_as_str(o: &Option<String>) -> (r: Option<&str>)
    ensures
        opt_str(r) == opt_text(*o),
{
    match o {
        Some(s) => Some(s.as_str()),
        None => None,
    }
}

/// `s` without its trailing `/` characters.
pub open spec fn trim_end_slashes(s: Seq<char>) -> Seq<char>
    decreases s.len(),
{
    if s.len() > 0 && s.last() == '/' {
        trim_end_slashes(s.drop_last())
    } else {
        s
    }
}

/// Removes every trailing `/`, as `trim_end_matches('/')` does.
pub fn trim_trailing_slashes(s: &str) -> (r: String)
    ensures
        r@ == trim_end_slashes(s@),
{
    let mut k = s.unicode_len();
    assert(s@.subrange(0, k as int) =~= s@);
    while k > 0 && s.get_char(k - 1) == '/'
        invariant
            k <= s@.len(),
            trim_end_slashes(s@) == trim_end_slashes(s@.subrange(0, k as int)),
        decreases k,
    {
        assert(s@.subrange(0, k as int).drop_last() =~= s@.subrange(0, k - 1));
        k = k - 1;
    }
    String::from_str(s.substring_char(0, k))
}

/// Appends `name=value` when a value is given.
pub fn push_opt_param(params: &mut Vec<String>, name: &str, value: Option<&str>)
    ensures
        texts(final(params)@) == texts(old(params)@) + opt_param(name@, opt_str(value)),
{
    if let Some(v) = value {
        params.push(param_text(name, v));
        assert(texts(final(params)@) =~= texts(old(params)@) + opt_param(name@, opt_str(value)));
    } else {
        assert(texts(final(params)@) =~= texts(old(params)@) + opt_param(name@, opt_str(value)));
    }
}

/// Appends `name=value` when a number is given.
pub fn push_opt_param_u64(params: &mut Vec<String>, name: &str, value: Option<u64>)
    ensures
        texts(final(params)@) == texts(old(params)@) + opt_param_u64(name@, value),
{
    if let Some(v) = value {
        params.push(param_u64(name, v));
        assert(texts(final(params)@) =~= texts(old(params)@) + opt_param_u64(name@, value));
    } else {
        assert(texts(final(params)@) =~= texts(old(params)@) + opt_param_u64(name@, value));
    }
}

/// The result of comparing two texts character by character.
#[derive(PartialEq, Eq, Structural, Clone, Copy, Debug)]
pub enum TextOrder {
    Less,
    Equal,
    Greater,
}

/// Lexicographic order on character sequences; it is the order of `String`,
/// since UTF-8 keeps code point order byte by byte.
pub open spec fn lex_lt(a: Seq<char>, b: Seq<char>) -> bool
    decreases a.len(),
{
    if b.len() == 0 {
        false
    } else if a.len() == 0 {
        true
    } else if a[0] < b[0] {
        true
    } else if a[0] == b[0] {
        lex_lt(a.drop_first(), b.drop_first())
    } else {
        false
    }
}

/// Exactly one of `a < b`, `a == b`, `b < a` holds.
pub proof fn lemma_lex_trichotomy(a: Seq<char>, b: Seq<char>)
    ensures
        !lex_lt(a, a),
        a != b ==> (lex_lt(a, b) || lex_lt(b, a)),
        !(lex_lt(a, b) && lex_lt(b, a)),
    decreases a.len(),
{
    if a.len() > 0 {
        lemma_lex_trichotomy(a.drop_first(), a.drop_first());
    }
    if a.len() > 0 && b.len() > 0 {
        lemma_lex_trichotomy(a.drop_first(), b.drop_first());
        if a[0] == b[0] && a != b {
            assert(a.drop_first() != b.drop_first()) by {
                if a.drop_first() == b.drop_first() {
                    assert(a =~= seq![a[0]] + a.drop_first());
                    assert(b =~= seq![b[0]] + b.drop_first());
                }
            }
        }
    }
    if a.len() == 0 && b.len() == 0 {
        assert(a =~= b);
    }
}

/// The order is transitive.
pub proof fn lemma_lex_transitive(a: Seq<char>, b: Seq<char>, c: Seq<char>)
    requires
        lex_lt(a, b),
        lex_lt(b, c),
    ensures
        lex_lt(a, c),
    decreases a.len(),
{
    if a.len() > 0 && b.len() > 0 && c.len() > 0 && a[0] == b[0] && b[0] == c[0] {
        lemma_lex_transitive(a.drop_first(), b.drop_first(), c.drop_first());
    }
}

/// Compares two texts in the order of `lex_lt`.
pub fn compare_text(a: &str, b: &str) -> (r: TextOrder)
    ensures
        r == TextOrder::Less <==> lex_lt(a@, b@),
        r == TextOrder::Equal <==> a@ == b@,
        r == TextOrder::Greater <==> lex_lt(b@, a@),
{
    proof {
        lemma_lex_trichotomy(a@, b@);
    }
    let n = a.unicode_len();
    let m = b.unicode_len();
    let mut i: usize = 0;
    assert(a@.skip(0) =~= a@);
    assert(b@.skip(0) =~= b@);
    while i < n && i < m
        invariant
            n == a@.len(),
            m == b@.len(),
            i <= n,
            i <= m,
            a@.subrange(0, i as int) == b@.subrange(0, i as int),
            lex_lt(a@, b@) == lex_lt(a@.skip(i as int), b@.skip(i as int)),
            lex_lt(b@, a@) == lex_lt(b@.skip(i as int), a@.skip(i as int)),
        decreases n - i,
    {
        let x = a.get_char(i);
        let y = b.get_char(i);
        assert(a@.skip(i as int)[0] == x && b@.skip(i as int)[0] == y);
        if x < y {
            return TextOrder::Less;
        }
        if y < x {
            return TextOrder::Greater;
        }
        assert(a@.skip(i as int).drop_first() =~= a@.skip(i + 1));
        assert(b@.skip(i as int).drop_first() =~= b@.skip(i + 1));
        assert(a@.subrange(0, i + 1) =~= a@.subrange(0, i as int).push(x));
        assert(b@.subrange(0, i + 1) =~= b@.subrange(0, i as int).push(y));
        i = i + 1;
    }
    if n == m {
        assert(a@ =~= a@.subrange(0, i as int));
        assert(b@ =~= b@.subrange(0, i as int));
        TextOrder::Equal
    } else if i == n {
        assert(a@.skip(i as int).len() == 0);
        assert(a@ != b@);
        TextOrder::Less
    } else {
        assert(b@.skip(i as int).len() == 0);
        assert(a@ != b@);
        TextOrder::Greater
    }
}

/// Non-decreasing in the order of `lex_lt`.
pub open spec fn sorted_texts(s: Seq<Seq<char>>) -> bool {
    forall|i: int, j: int| 0 <= i < j < s.len() ==> !lex_lt(#[trigger] s[j], #[trigger] s[i])
}

/// Where `x` goes into the sorted `v`: after every item that is not greater.
fn insertion_point(v: &Vec<String>, x: &str) -> (p: usize)
    requires
        sorted_texts(texts(v@)),
    ensures
        p <= v@.len(),
        forall|i: int| 0 <= i < p ==> !lex_lt(x@, #[trigger] v@[i]@),
        forall|i: int| p <= i < v@.len() ==> lex_lt(x@, #[trigger] v@[i]@),
{
    let mut p: usize = 0;
    while p < v.len()
        invariant
            p <= v@.len(),
            sorted_texts(texts(v@)),
            forall|i: int| 0 <= i < p ==> !lex_lt(x@, #[trigger] v@[i]@),
        decreases v@.len() - p,
    {
        if compare_text(x, v[p].as_str()) == TextOrder::Less {
            proof {
                assert forall|i: int| p <= i < v@.len() implies lex_lt(x@, #[trigger] v@[i]@) by {
                    if i > p {
                        assert(!lex_lt(texts(v@)[i], texts(v@)[p as int]));
                        lemma_lex_trichotomy(v@[i]@, v@[p as int]@);
                        if v@[i]@ != v@[p as int]@ {
                            lemma_lex_transitive(x@, v@[p as int]@, v@[i]@);
                        }
                    }
                }
            }
            return p;
        }
        p = p + 1;
    }
    p
}

/// The strings of `v` in ascending order, as `sort` leaves them.
pub fn sort_strings(v: &Vec<String>) -> (r: Vec<String>)
    ensures
        sorted_texts(texts(r@)),
        texts(r@).to_multiset() == texts(v@).to_multiset(),
{
    broadcast use vstd::seq_lib::group_to_multiset_ensures;

    let mut out: Vec<String> = Vec::new();
    let mut k: usize = 0;
    while k < v.len()
        invariant
            k <= v@.len(),
            sorted_texts(texts(out@)),
            texts(out@).to_multiset() == texts(v@).take(k as int).to_multiset(),
        decreases v@.len() - k,
    {
        let x = v[k].clone();
        let p = insertion_point(&out, x.as_str());
        let ghost before = out@;
        out.insert(p, x);
        proof {
            assert(texts(out@) =~= texts(before).insert(p as int, v@[k as int]@));
            assert(texts(v@).take(k + 1) =~= texts(v@).take(k as int).push(v@[k as int]@));
            vstd::seq_lib::to_multiset_insert(texts(before), p as int, v@[k as int]@);
            vstd::seq_lib::to_multiset_build(texts(v@).take(k as int), v@[k as int]@);
            assert forall|i: int, j: int| 0 <= i < j < texts(out@).len() implies !lex_lt(
                #[trigger] texts(out@)[j],
                #[trigger] texts(out@)[i],
            ) by {
                lemma_lex_trichotomy(texts(out@)[i], texts(out@)[j]);
                if j < p {
                    assert(texts(out@)[i] == texts(before)[i] && texts(out@)[j] == texts(before)[j]);
                } else if j == p {
                    assert(texts(out@)[i] == before[i]@);
                } else if i == p {
                    assert(texts(out@)[j] == before[j - 1]@);
                } else if i < p {
                    assert(texts(out@)[i] == texts(before)[i] && texts(out@)[j] == texts(before)[j - 1]);
                } else {
                    assert(texts(out@)[i] == texts(before)[i - 1] && texts(out@)[j] == texts(before)[j - 1]);
                }
            }
        }
        k = k + 1;
    }
    assert(texts(v@).take(v@.len() as int) =~= texts(v@));
    out
}

/// A copy of `s` without its last character (empty text stays empty), as
/// `String::pop` leaves it.
pub fn without_last(s: &str) -> (r: String)
    ensures
        r@ == if s@.len() == 0 {
            s@
        } else {
            s@.drop_last()
        },
{
    let n = s.unicode_len();
    let mut r = String::new();
    if n == 0 {
        return r;
    }
    let mut i: usize = 0;
    while i + 1 < n
        invariant
            n == s@.len(),
            n > 0,
            i + 1 <= n,
            r@ == s@.take(i as int),
        decreases n - i,
    {
        push_char(&mut r, s.get_char(i));
        assert(s@.take(i + 1) =~= s@.take(i as int).push(s@[i as int]));
        i = i + 1;
    }
    assert(s@.take(i as int) =~= s@.drop_last());
    r
}

/// The encoding of joined texts is the joined encodings.
pub proof fn lemma_utf8_concat(a: Seq<char>, b: Seq<char>)
    ensures
        utf8_bytes(a + b) == utf8_bytes(a) + utf8_bytes(b),
    decreases a.len(),
{
    if a.len() > 0 {
        lemma_utf8_concat(a.drop_first(), b);
        assert((a + b).drop_first() =~= a.drop_first() + b);
        assert((a + b)[0] == a[0]);
        assert(utf8_bytes(a + b) =~= vstd::utf8::encode_scalar(a[0] as u32) + utf8_bytes(
            a.drop_first() + b,
        ));
    } else {
        assert(a + b =~= b);
    }
}

/// White space as `char::is_whitespace` defines it (the Unicode
/// `White_Space` property).
pub open spec fn is_white(c: char) -> bool {
    ||| c == ' ' || c == '\t' || c == '\n' || c == '\x0B' || c == '\x0C' || c == '\r'
    ||| c == '\u{85}' || c == '\u{A0}' || c == '\u{1680}'
    ||| ('\u{2000}' <= c && c <= '\u{200A}')
    ||| c == '\u{2028}' || c == '\u{2029}' || c == '\u{202F}' || c == '\u{205F}' || c == '\u{3000}'
}

pub fn is_white_char(c: char) -> (r: bool)
    ensures
        r == is_white(c),
{
    c == ' ' || c == '\t' || c == '\n' || c == '\x0B' || c == '\x0C' || c == '\r' || c == '\u{85}'
        || c == '\u{A0}' || c == '\u{1680}' || ('\u{2000}' <= c && c <= '\u{200A}') || c == '\u{2028}'
        || c == '\u{2029}' || c == '\u{202F}' || c == '\u{205F}' || c == '\u{3000}'
}

/// Where the text starts once leading white space is skipped.
pub open spec fn trim_start_at(s: Seq<char>, i: int) -> int
    decreases s.len() - i,
{
    if i >= s.len() || i < 0 {
        s.len() as int
    } else if is_white(s[i]) {
        trim_start_at(s, i + 1)
    } else {
        i
    }
}

/// Where the text ends once trailing white space is dropped (`s[..j]`).
pub open spec fn trim_end_at(s: Seq<char>, j: int) -> int
    decreases j,
{
    if j <= 0 || j > s.len() {
        0
    } else if is_white(s[j - 1]) {
        trim_end_at(s, j - 1)
    } else {
        j
    }
}

/// `s` without leading and trailing white space, as `str::trim` leaves it.
pub open spec fn trimmed(s: Seq<char>) -> Seq<char> {
    let a = trim_start_at(s, 0);
    let b = trim_end_at(s, s.len() as int);
    if a < b {
        s.subrange(a, b)
    } else {
        Seq::empty()
    }
}

proof fn lemma_trim_start_range(s: Seq<char>, i: int)
    requires
        0 <= i <= s.len(),
    ensures
        i <= trim_start_at(s, i) <= s.len(),
    decreases s.len() - i,
{
    if i < s.len() && is_white(s[i]) {
        lemma_trim_start_range(s, i + 1);
    }
}

proof fn lemma_trim_end_range(s: Seq<char>, j: int)
    requires
        0 <= j <= s.len(),
    ensures
        0 <= trim_end_at(s, j) <= j,
    decreases j,
{
    if j > 0 && is_white(s[j - 1]) {
        lemma_trim_end_range(s, j - 1);
    }
}

/// The characters `s[from..to]` as a new string.
pub fn substring(s: &str, from: usize, to: usize) -> (r: String)
    requires
        from <= to <= s@.len(),
    ensures
        r@ == s@.subrange(from as int, to as int),
{
    let mut r = String::new();
    let mut i: usize = from;
    while i < to
        invariant
            from <= i <= to,
            to <= s@.len(),
            r@ == s@.subrange(from as int, i as int),
        decreases to - i,
    {
        push_char(&mut r, s.get_char(i));
        assert(s@.subrange(from as int, i + 1) =~= s@.subrange(from as int, i as int).push(s@[i as int]));
        i = i + 1;
    }
    r
}

/// `s` without leading and trailing white space.
pub fn trim(s: &str) -> (r: String)
    ensures
        r@ == trimmed(s@),
{
    let n = s.unicode_len();
    let mut a: usize = 0;
    while a < n && is_white_char(s.get_char(a))
        invariant
            n == s@.len(),
            a <= n,
            trim_start_at(s@, 0) == trim_start_at(s@, a as int),
        decreases n - a,
    {
        a = a + 1;
    }
    let mut b: usize = n;
    while b > 0 && is_white_char(s.get_char(b - 1))
        invariant
            n == s@.len(),
            b <= n,
            trim_end_at(s@, n as int) == trim_end_at(s@, b as int),
        decreases b,
    {
        b = b - 1;
    }
    if a < b {
        substring(s, a, b)
    } else {
        String::new()
    }
}

/// `s` with every occurrence of `pat` replaced by `rep`, left to right,
/// as `str::replace` does.
pub open spec fn replaced(s: Seq<char>, pat: Seq<char>, rep: Seq<char>) -> Seq<char>
    decreases s.len(),
{
    if pat.len() == 0 || s.len() < pat.len() {
        s
    } else if s.take(pat.len() as int) == pat {
        rep + replaced(s.skip(pat.len() as int), pat, rep)
    } else {
        seq![s[0]] + replaced(s.drop_first(), pat, rep)
    }
}

/// Whether `pat` occurs in `s` at `i`.
fn occurs_at(s: &str, i: usize, pat: &str) -> (r: bool)
    requires
        i <= s@.len(),
    ensures
        r == (s@.len() - i >= pat@.len() && s@.subrange(i as int, i + pat@.len()) == pat@),
{
    let n = s.unicode_len();
    let m = pat.unicode_len();
    if n - i < m {
        return false;
    }
    let mut k: usize = 0;
    while k < m
        invariant
            n == s@.len(),
            m == pat@.len(),
            i + m <= n,
            k <= m,
            forall|j: int| 0 <= j < k ==> s@[i + j] == pat@[j],
        decreases m - k,
    {
        if s.get_char(i + k) != pat.get_char(k) {
            assert(s@.subrange(i as int, i + m)[k as int] != pat@[k as int]);
            return false;
        }
        k = k + 1;
    }
    assert(s@.subrange(i as int, i + m) =~= pat@);
    true
}

/// `s` with every occurrence of `pat` replaced by `rep`.
pub fn replace_all(s: &str, pat: &str, rep: &str) -> (r: String)
    ensures
        r@ == replaced(s@, pat@, rep@),
{
    let n = s.unicode_len();
    let m = pat.unicode_len();
    let mut r = String::new();
    let mut i: usize = 0;
    assert(s@.skip(0) =~= s@);
    while i < n
        invariant
            n == s@.len(),
            m == pat@.len(),
            i <= n,
            r@ + replaced(s@.skip(i as int), pat@, rep@) == replaced(s@, pat@, rep@),
        decreases n - i,
    {
        let ghost t = s@.skip(i as int);
        if m > 0 && occurs_at(s, i, pat) {
            assert(t.take(m as int) =~= s@.subrange(i as int, i + m));
            assert(t.skip(m as int) =~= s@.skip(i + m));
            r.append(rep);
            assert(r@ + replaced(s@.skip(i + m), pat@, rep@) =~= replaced(s@, pat@, rep@));
            i = i + m;
        } else {
            proof {
                if m > 0 && t.len() >= m {
                    assert(t.take(m as int) =~= s@.subrange(i as int, i + m));
                }
            }
            if m == 0 || n - i < m {
                assert(replaced(t, pat@, rep@) == t);
                let rest = substring(s, i, n);
                assert(rest@ =~= t);
                r.append(rest.as_str());
                assert(s@.skip(n as int) =~= Seq::<char>::empty());
                assert(replaced(s@.skip(n as int), pat@, rep@) =~= Seq::<char>::empty());
                assert(r@ + replaced(s@.skip(n as int), pat@, rep@) =~= replaced(s@, pat@, rep@));
                i = n;
            } else {
                push_char(&mut r, s.get_char(i));
                assert(t.drop_first() =~= s@.skip(i + 1));
                assert(r@ + replaced(s@.skip(i + 1), pat@, rep@) =~= replaced(s@, pat@, rep@));
                i = i + 1;
            }
        }
    }
    assert(s@.skip(n as int) =~= Seq::<char>::empty());
    assert(r@ =~= replaced(s@, pat@, rep@));
    r
}

/// Whether `s` starts with `p`.
pub fn starts_with(s: &str, p: &str) -> (r: bool)
    ensures
        r == (p@.len() <= s@.len() && s@.take(p@.len() as int) == p@),
{
    let r = occurs_at(s, 0, p);
    proof {
        if p@.len() <= s@.len() {
            assert(s@.subrange(0, p@.len() as int) =~= s@.take(p@.len() as int));
        }
    }
    r
}

/// The number of bytes the UTF-8 encoding of `c` takes.
pub open spec fn char_width(c: char) -> nat {
    if (c as u32) < 0x80 {
        1
    } else if (c as u32) < 0x800 {
        2
    } else if (c as u32) < 0x10000 {
        3
    } else {
        4
    }
}

/// The encoding of one character takes `char_width` bytes.
proof fn lemma_char_bytes(c: char)
    ensures
        utf8_bytes(seq![c]).len() == char_width(c),
{
    vstd::utf8::char_is_scalar(c);
    assert(seq![c].drop_first() =~= Seq::<char>::empty());
    assert(seq![c][0] == c);
    assert(utf8_bytes(seq![c].drop_first()) =~= Seq::<u8>::empty());
    assert(utf8_bytes(seq![c]) =~= vstd::utf8::encode_scalar(c as u32) + Seq::<u8>::empty());
}

/// The length in bytes of the UTF-8 encoding of `s`, as `str::len` gives it.
pub fn utf8_len(s: &str) -> (r: u128)
    ensures
        r == utf8_bytes(s@).len(),
{
    let n = s.unicode_len();
    let mut total: u128 = 0;
    let mut i: usize = 0;
    assert(s@.take(0) =~= Seq::<char>::empty());
    while i < n
        invariant
            n == s@.len(),
            i <= n,
            total == utf8_bytes(s@.take(i as int)).len(),
            total <= 4 * i,
        decreases n - i,
    {
        let c = s.get_char(i);
        proof {
            lemma_utf8_concat(s@.take(i as int), seq![c]);
            assert(s@.take(i + 1) =~= s@.take(i as int) + seq![c]);
            lemma_char_bytes(c);
        }
        let u = c as u32;
        let w: u128 = if u < 0x80 {
            1
        } else if u < 0x800 {
            2
        } else if u < 0x10000 {
            3
        } else {
            4
        };
        total = total + w;
        i = i + 1;
    }
    assert(s@.take(n as int) =~= s@);
    total
}

/// The lines of `s` as `str::lines` gives them: split at each `\n` (a `\r`
/// just before it goes too), with no empty line after a final `\n`.
pub open spec fn lines_of(s: Seq<char>) -> Seq<Seq<char>>
    decreases s.len(),
{
    if s.len() == 0 {
        Seq::empty()
    } else {
        match first_nl(s) {
            None => seq![s],
            Some(i) => {
                proof {
                    lemma_first_nl(s);
                }
                let line = s.take(i);
                let stripped = if line.len() > 0 && line.last() == '\r' {
                    line.drop_last()
                } else {
                    line
                };
                seq![stripped] + lines_of(s.skip(i + 1))
            },
        }
    }
}

/// The first `\n` in `s`.
pub open spec fn first_nl(s: Seq<char>) -> Option<int>
    decreases s.len(),
{
    if s.len() == 0 {
        None
    } else if s[0] == '\n' {
        Some(0)
    } else {
        match first_nl(s.drop_first()) {
            Some(i) => Some(i + 1),
            None => None,
        }
    }
}

pub proof fn lemma_first_nl(s: Seq<char>)
    ensures
        match first_nl(s) {
            Some(i) => 0 <= i < s.len() && s[i] == '\n' && forall|j: int| 0 <= j < i ==> s[j] != '\n',
            None => forall|j: int| 0 <= j < s.len() ==> s[j] != '\n',
        },
    decreases s.len(),
{
    if s.len() > 0 {
        lemma_first_nl(s.drop_first());
        if s[0] != '\n' {
            assert forall|j: int| 1 <= j < s.len() implies s[j] == s.drop_first()[j - 1] by {}
        }
    }
}

/// The lines of `s`, as `str::lines` gives them.
pub fn text_lines(s: &str) -> (r: Vec<String>)
    ensures
        texts(r@) == lines_of(s@),
{
    let n = s.unicode_len();
    let mut out: Vec<String> = Vec::new();
    let mut start: usize = 0;
    let mut i: usize = 0;
    assert(s@.skip(0) =~= s@);
    while i < n
        invariant
            n == s@.len(),
            start <= i <= n,
            forall|j: int| start <= j < i ==> s@[j] != '\n',
            texts(out@) + lines_of(s@.skip(start as int)) == lines_of(s@),
        decreases n - i,
    {
        if s.get_char(i) == '\n' {
            let ghost rest = s@.skip(start as int);
            proof {
                lemma_first_nl(rest);
                assert forall|j: int| 0 <= j < i - start implies rest[j] != '\n' by {
                    assert(rest[j] == s@[start + j]);
                }
                assert(rest[i - start] == '\n');
                if first_nl(rest) != Some(i - start) {
                    let k = first_nl(rest)->Some_0;
                    assert(rest[k] == s@[start + k]);
                }
                assert(rest.skip(i - start + 1) =~= s@.skip(i + 1));
                assert(rest.take(i - start) =~= s@.subrange(start as int, i as int));
            }
            let mut end = i;
            if end > start && s.get_char(end - 1) == '\r' {
                end = end - 1;
            }
            let line = substring(s, start, end);
            proof {
                let l = s@.subrange(start as int, i as int);
                if i > start && l.last() == '\r' {
                    assert(line@ =~= l.drop_last());
                } else {
                    assert(line@ =~= l);
                }
            }
            let ghost before = texts(out@);
            out.push(line);
            assert(texts(out@) =~= before.push(line@));
            assert(texts(out@) + lines_of(s@.skip(i + 1)) =~= before + lines_of(rest));
            start = i + 1;
        }
        i = i + 1;
    }
    if start < n {
        let ghost rest = s@.skip(start as int);
        proof {
            lemma_first_nl(rest);
            assert forall|j: int| 0 <= j < rest.len() implies rest[j] != '\n' by {
                assert(rest[j] == s@[start + j]);
            }
            if first_nl(rest) is Some {
                let k = first_nl(rest)->Some_0;
                assert(rest[k] == s@[start + k]);
            }
        }
        let line = substring(s, start, n);
        assert(line@ =~= rest);
        let ghost before = texts(out@);
        out.push(line);
        assert(texts(out@) =~= before + seq![rest]);
    } else {
        assert(s@.skip(start as int) =~= Seq::<char>::empty());
        assert(texts(out@) + Seq::<Seq<char>>::empty() =~= texts(out@));
    }
    out
}

/// The pieces of `s` between its `\n`s, as `str::split('\n')` gives them:
/// one piece for a text without any, an empty piece after a final one.
pub open spec fn split_parts(s: Seq<char>) -> Seq<Seq<char>>
    decreases s.len(),
{
    match first_nl(s) {
        None => seq![s],
        Some(i) => {
            proof {
                lemma_first_nl(s);
            }
            seq![s.take(i)] + split_parts(s.skip(i + 1))
        },
    }
}

/// The pieces of `s` between its `\n`s.
pub fn split_newlines(s: &str) -> (r: Vec<String>)
    ensures
        texts(r@) == split_parts(s@),
{
    let n = s.unicode_len();
    let mut out: Vec<String> = Vec::new();
    let mut start: usize = 0;
    let mut i: usize = 0;
    assert(s@.skip(0) =~= s@);
    while i < n
        invariant
            n == s@.len(),
            start <= i <= n,
            forall|j: int| start <= j < i ==> s@[j] != '\n',
            texts(out@) + split_parts(s@.skip(start as int)) == split_parts(s@),
        decreases n - i,
    {
        if s.get_char(i) == '\n' {
            let ghost rest = s@.skip(start as int);
            proof {
                lemma_first_nl(rest);
                assert forall|j: int| 0 <= j < i - start implies rest[j] != '\n' by {
                    assert(rest[j] == s@[start + j]);
                }
                assert(rest[i - start] == '\n');
                if first_nl(rest) != Some(i - start) {
                    let k = first_nl(rest)->Some_0;
                    assert(rest[k] == s@[start + k]);
                }
                assert(rest.skip(i - start + 1) =~= s@.skip(i + 1));
                assert(rest.take(i - start) =~= s@.subrange(start as int, i as int));
            }
            let part = substring(s, start, i);
            let ghost before = texts(out@);
            out.push(part);
            assert(texts(out@) =~= before.push(part@));
            assert(texts(out@) + split_parts(s@.skip(i + 1)) =~= before + split_parts(rest));
            start = i + 1;
        }
        i = i + 1;
    }
    let ghost rest = s@.skip(start as int);
    proof {
        lemma_first_nl(rest);
        assert forall|j: int| 0 <= j < rest.len() implies rest[j] != '\n' by {
            assert(rest[j] == s@[start + j]);
        }
        if first_nl(rest) is Some {
            let k = first_nl(rest)->Some_0;
            assert(rest[k] == s@[start + k]);
        }
    }
    let part = substring(s, start, n);
    assert(part@ =~= rest);
    let ghost before = texts(out@);
    out.push(part);
    assert(texts(out@) =~= before + seq![rest]);
    out
}

/// `n` spaces.
pub open spec fn spaces(n: nat) -> Seq<char> {
    Seq::new(n, |_i: int| ' ')
}

/// `n` spaces.
pub fn spaces_text(n: usize) -> (r: String)
    ensures
        r@ == spaces(n as nat),
{
    let mut r = String::new();
    let mut i: usize = 0;
    while i < n
        invariant
            i <= n,
            r@ == spaces(i as nat),
        decreases n - i,
    {
        push_char(&mut r, ' ');
        assert(spaces((i + 1) as nat) =~= spaces(i as nat).push(' '));
        i = i + 1;
    }
    assert(spaces(0) =~= Seq::<char>::empty());
    r
}

/// A character takes at most four bytes.
pub proof fn lemma_utf8_len_bound(s: Seq<char>)
    ensures
        utf8_bytes(s).len() <= 4 * s.len(),
    decreases s.len(),
{
    if s.len() > 0 {
        lemma_utf8_len_bound(s.drop_first());
        lemma_utf8_concat(seq![s[0]], s.drop_first());
        assert(seq![s[0]] + s.drop_first() =~= s);
        lemma_char_bytes(s[0]);
    }
}

} // verus!
