//! Character-level text handling shared by the parsers of this crate.
//!
//! Text is handled as vectors of `char`; the spec side works on `Seq<char>`.
//! The specifications follow the documented behaviour of the corresponding
//! `str` methods (`trim`, `split_whitespace`, `lines`, `split`, `starts_with`,
//! `contains`).
use vstd::prelude::*;

verus! {

broadcast use vstd::seq_lib::group_seq_properties;

// ---------------------------------------------------------------------------
// Conversions between strings and character vectors
// ---------------------------------------------------------------------------

/// The characters of `s`, in order.
pub(crate) fn chars_of(s: &str) -> (r: Vec<char>)
    ensures
        r@ == s@,
{
    broadcast use vstd::string::axiom_spec_iter;

    let mut v: Vec<char> = Vec::new();
    for c in it: s.chars()
        invariant
            it.seq() == s@,
            v@ == it.seq().take(it.index() as int),
    {
        v.push(c);
    }
    v
}

/// The string made of the characters of `v`, in order (`String: FromIterator<char>`).
#[verifier::external_body]
pub(crate) fn string_of(v: &[char]) -> (r: String)
    ensures
        r@ == v@,
{
    v.iter().collect()
}

/// What `str::to_lowercase` returns for a string with these characters
/// (Unicode lowercase mapping, which may change the length).
pub uninterp spec fn lowercase_of(s: Seq<char>) -> Seq<char>;

/// The characters of an optional string.
pub open spec fn opt_chars(o: Option<String>) -> Option<Seq<char>> {
    match o {
        Some(s) => Some(s@),
        None => None,
    }
}

/// The characters of an optional string slice.
pub open spec fn opt_str(o: Option<&str>) -> Option<Seq<char>> {
    match o {
        Some(s) => Some(s@),
        None => None,
    }
}

/// ASCII lowercase of a single character.
pub open spec fn ascii_lower(c: char) -> char {
    if 'A' <= c <= 'Z' {
        ((c as u32) + 32) as char
    } else {
        c
    }
}

pub open spec fn is_ascii_seq(s: Seq<char>) -> bool {
    forall|i: int| 0 <= i < s.len() ==> (s[i] as u32) < 128
}

/// `str::to_lowercase`. The result is named by `lowercase_of`; for ASCII text
/// it is the ASCII lowercase of each character, which the documentation of
/// `to_lowercase` (Unicode `Lowercase` mapping) gives for that range.
#[verifier::external_body]
pub(crate) fn lowercase(s: &str) -> (r: String)
    ensures
        r@ == lowercase_of(s@),
        is_ascii_seq(s@) ==> r@ == s@.map_values(|c: char| ascii_lower(c)),
{
    s.to_lowercase()
}

/// The lowercase of `s` as `str::to_lowercase` gives it: the ASCII lowercase
/// of each character for ASCII text, `lowercase_of` otherwise.
pub open spec fn lower_text(s: Seq<char>) -> Seq<char> {
    if is_ascii_seq(s) {
        s.map_values(|c: char| ascii_lower(c))
    } else {
        lowercase_of(s)
    }
}

/// The lowercase of `s` (`str::to_lowercase`).
pub fn to_lower(s: &str) -> (r: String)
    ensures
        r@ == lower_text(s@),
        r@ == lowercase_of(s@),
{
    lowercase(s)
}

/// Appends the characters of `s` to `out`.
pub fn push_str(out: &mut Vec<char>, s: &str)
    ensures
        final(out)@ == old(out)@ + s@,
{
    let c = chars_of(s);
    let mut i: usize = 0;
    while i < c.len()
        invariant
            i <= c@.len(),
            c@ == s@,
            out@ == old(out)@ + c@.take(i as int),
        decreases c.len() - i,
    {
        out.push(c[i]);
        assert(c@.take(i + 1) == c@.take(i as int).push(c@[i as int]));
        i = i + 1;
    }
    assert(c@.take(c@.len() as int) == c@);
}

// ---------------------------------------------------------------------------
// Character classes
// ---------------------------------------------------------------------------

/// The Unicode `White_Space` property, as used by `char::is_whitespace`.
pub open spec fn is_white(c: char) -> bool {
    let u = c as u32;
    ||| 0x9 <= u <= 0xD
    ||| u == 0x20
    ||| u == 0x85
    ||| u == 0xA0
    ||| u == 0x1680
    ||| 0x2000 <= u <= 0x200A
    ||| u == 0x2028
    ||| u == 0x2029
    ||| u == 0x202F
    ||| u == 0x205F
    ||| u == 0x3000
}

pub fn is_whitespace(c: char) -> (r: bool)
    ensures
        r == is_white(c),
{
    let u = c as u32;
    (0x9 <= u && u <= 0xD) || u == 0x20 || u == 0x85 || u == 0xA0 || u == 0x1680 || (0x2000 <= u
        && u <= 0x200A) || u == 0x2028 || u == 0x2029 || u == 0x202F || u == 0x205F || u == 0x3000
}

// ---------------------------------------------------------------------------
// First position satisfying a predicate
// ---------------------------------------------------------------------------

/// Index of the first element satisfying `p`, or the length when there is none.
pub open spec fn first_such(s: Seq<char>, p: spec_fn(char) -> bool) -> nat
    decreases s.len(),
{
    if s.len() == 0 {
        0
    } else if p(s[0]) {
        0
    } else {
        1 + first_such(s.drop_first(), p)
    }
}

pub proof fn lemma_first_such(s: Seq<char>, p: spec_fn(char) -> bool, k: int)
    requires
        0 <= k <= s.len(),
        forall|j: int| 0 <= j < k ==> !p(#[trigger] s[j]),
        k == s.len() || p(s[k]),
    ensures
        first_such(s, p) == k,
    decreases k,
{
    if k > 0 {
        assert(!p(s[0]));
        assert forall|j: int| 0 <= j < k - 1 implies !p(#[trigger] s.drop_first()[j]) by {
            assert(s.drop_first()[j] == s[j + 1]);
        }
        if k < s.len() {
            assert(s.drop_first()[k - 1] == s[k]);
        }
        lemma_first_such(s.drop_first(), p, k - 1);
    }
}

pub proof fn lemma_first_such_props(s: Seq<char>, p: spec_fn(char) -> bool)
    ensures
        first_such(s, p) <= s.len(),
        forall|j: int| 0 <= j < first_such(s, p) ==> !p(#[trigger] s[j]),
        first_such(s, p) < s.len() ==> p(s[first_such(s, p) as int]),
    decreases s.len(),
{
    if s.len() > 0 && !p(s[0]) {
        lemma_first_such_props(s.drop_first(), p);
        assert forall|j: int| 0 <= j < first_such(s, p) implies !p(#[trigger] s[j]) by {
            if j > 0 {
                assert(s[j] == s.drop_first()[j - 1]);
            }
        }
    }
}

/// Number of trailing elements satisfying `p`.
pub open spec fn trail_such(s: Seq<char>, p: spec_fn(char) -> bool) -> nat
    decreases s.len(),
{
    if s.len() == 0 {
        0
    } else if !p(s.last()) {
        0
    } else {
        1 + trail_such(s.drop_last(), p)
    }
}

pub proof fn lemma_trail_such(s: Seq<char>, p: spec_fn(char) -> bool, k: int)
    requires
        0 <= k <= s.len(),
        forall|j: int| s.len() - k <= j < s.len() ==> p(#[trigger] s[j]),
        k == s.len() || !p(s[s.len() - k - 1]),
    ensures
        trail_such(s, p) == k,
    decreases k,
{
    if k > 0 {
        assert(p(s[s.len() - 1]));
        assert forall|j: int|
            s.drop_last().len() - (k - 1) <= j < s.drop_last().len() implies p(
            #[trigger] s.drop_last()[j],
        ) by {
            assert(s.drop_last()[j] == s[j]);
        }
        if k < s.len() {
            assert(s.drop_last()[s.drop_last().len() - (k - 1) - 1] == s[s.len() - k - 1]);
        }
        lemma_trail_such(s.drop_last(), p, k - 1);
    }
}

pub proof fn lemma_trail_such_len(s: Seq<char>, p: spec_fn(char) -> bool)
    ensures
        trail_such(s, p) <= s.len(),
    decreases s.len(),
{
    if s.len() > 0 && p(s.last()) {
        lemma_trail_such_len(s.drop_last(), p);
    }
}

// ---------------------------------------------------------------------------
// Trimming
// ---------------------------------------------------------------------------

pub open spec fn not_white_fn() -> spec_fn(char) -> bool {
    |c: char| !is_white(c)
}

pub open spec fn white_fn() -> spec_fn(char) -> bool {
    |c: char| is_white(c)
}

/// `str::trim_start`.
pub open spec fn trim_start(s: Seq<char>) -> Seq<char> {
    s.skip(first_such(s, not_white_fn()) as int)
}

/// `str::trim_end`.
pub open spec fn trim_end(s: Seq<char>) -> Seq<char> {
    s.take(s.len() - trail_such(s, white_fn()))
}

/// `str::trim`: leading and trailing white space removed.
pub open spec fn trim(s: Seq<char>) -> Seq<char> {
    trim_end(trim_start(s))
}

/// Bounds `(lo, hi)` of the trimmed part of `v`.
pub fn trim_bounds(v: &[char]) -> (r: (usize, usize))
    ensures
        r.0 <= r.1 <= v@.len(),
        v@.subrange(r.0 as int, r.1 as int) == trim(v@),
{
    let n = v.len();
    let mut lo: usize = 0;
    while lo < n && is_whitespace(v[lo])
        invariant
            lo <= n == v@.len(),
            forall|j: int| 0 <= j < lo ==> is_white(#[trigger] v@[j]),
        decreases n - lo,
    {
        lo = lo + 1;
    }
    proof {
        assert forall|j: int| 0 <= j < lo implies !(#[trigger] not_white_fn()(v@[j])) by {
            assert(is_white(v@[j]));
        }
        lemma_first_such(v@, not_white_fn(), lo as int);
    }
    let mut hi: usize = n;
    while hi > lo && is_whitespace(v[hi - 1])
        invariant
            lo <= hi <= n == v@.len(),
            forall|j: int| hi <= j < n ==> is_white(#[trigger] v@[j]),
        decreases hi,
    {
        hi = hi - 1;
    }
    proof {
        let t = v@.skip(lo as int);
        assert(trim_start(v@) == t);
        let k = (n - hi) as int;
        assert forall|j: int| t.len() - k <= j < t.len() implies #[trigger] white_fn()(t[j]) by {
            assert(t[j] == v@[j + lo]);
        }
        if k < t.len() {
            assert(t[t.len() - k - 1] == v@[hi - 1]);
        }
        lemma_trail_such(t, white_fn(), k);
        assert(trim_end(t) == t.take(t.len() - k));
        assert(v@.subrange(lo as int, hi as int) == t.take(t.len() - k));
    }
    (lo, hi)
}

pub open spec fn ne_fn(c: char) -> spec_fn(char) -> bool {
    |x: char| x != c
}

/// `str::trim_matches` with a `char` pattern: every leading and trailing `c`
/// removed.
pub open spec fn trim_char(s: Seq<char>, c: char) -> Seq<char> {
    let t = s.skip(first_such(s, ne_fn(c)) as int);
    t.take(t.len() - trail_such(t, eq_fn(c)))
}

/// `str::trim_matches` with a `char` pattern on a character vector.
pub fn trim_char_chars(v: &[char], c: char) -> (r: Vec<char>)
    ensures
        r@ == trim_char(v@, c),
{
    let n = v.len();
    let mut lo: usize = 0;
    while lo < n && v[lo] == c
        invariant
            lo <= n == v@.len(),
            forall|j: int| 0 <= j < lo ==> #[trigger] v@[j] == c,
        decreases n - lo,
    {
        lo = lo + 1;
    }
    proof {
        assert forall|j: int| 0 <= j < lo implies !(#[trigger] ne_fn(c)(v@[j])) by {}
        lemma_first_such(v@, ne_fn(c), lo as int);
    }
    let mut hi: usize = n;
    while hi > lo && v[hi - 1] == c
        invariant
            lo <= hi <= n == v@.len(),
            forall|j: int| hi <= j < n ==> #[trigger] v@[j] == c,
        decreases hi,
    {
        hi = hi - 1;
    }
    proof {
        let t = v@.skip(lo as int);
        let k = (n - hi) as int;
        assert forall|j: int| t.len() - k <= j < t.len() implies #[trigger] eq_fn(c)(t[j]) by {
            assert(t[j] == v@[j + lo]);
        }
        if k < t.len() {
            assert(t[t.len() - k - 1] == v@[hi - 1]);
        }
        lemma_trail_such(t, eq_fn(c), k);
        assert(v@.subrange(lo as int, hi as int) == t.take(t.len() - k));
    }
    sub_vec(v, lo, hi)
}

/// Number of bytes of `c` in UTF-8.
pub open spec fn utf8_width(c: char) -> nat {
    if (c as u32) < 0x80 {
        1
    } else if (c as u32) < 0x800 {
        2
    } else if (c as u32) < 0x10000 {
        3
    } else {
        4
    }
}

/// Number of bytes of `s` in UTF-8 (`str::len`).
pub open spec fn utf8_len(s: Seq<char>) -> nat
    decreases s.len(),
{
    if s.len() == 0 {
        0
    } else {
        utf8_len(s.drop_last()) + utf8_width(s.last())
    }
}

/// The UTF-8 length of `s` (`str::len`) when it is at most `cap`; some
/// number above `cap` otherwise.
pub fn utf8_len_upto(s: &str, cap: u64) -> (r: u128)
    ensures
        utf8_len(s@) <= cap ==> r == utf8_len(s@),
        utf8_len(s@) > cap ==> r > cap,
{
    let v = chars_of(s);
    let mut total: u128 = 0;
    let mut i: usize = 0;
    while i < v.len()
        invariant
            i <= v@.len(),
            v@ == s@,
            total == utf8_len(v@.take(i as int)),
            total <= cap,
        decreases v.len() - i,
    {
        let u = v[i] as u32;
        let w: u128 = if u < 0x80 {
            1
        } else if u < 0x800 {
            2
        } else if u < 0x10000 {
            3
        } else {
            4
        };
        assert(v@.take(i + 1).drop_last() == v@.take(i as int));
        assert(v@.take(i + 1).last() == v@[i as int]);
        total = total + w;
        assert(total == utf8_len(v@.take(i + 1)));
        if total > cap as u128 {
            proof {
                lemma_utf8_len_prefix(v@, i + 1);
            }
            return total;
        }
        i = i + 1;
    }
    assert(v@.take(i as int) == v@);
    total
}

proof fn lemma_utf8_len_prefix(s: Seq<char>, k: int)
    requires
        0 <= k <= s.len(),
    ensures
        utf8_len(s.take(k)) <= utf8_len(s),
    decreases s.len() - k,
{
    if k < s.len() {
        lemma_utf8_len_prefix(s, k + 1);
        assert(s.take(k + 1).drop_last() == s.take(k));
    } else {
        assert(s.take(k) == s);
    }
}

/// Copy of `v[lo..hi]`.
pub fn sub_vec(v: &[char], lo: usize, hi: usize) -> (r: Vec<char>)
    requires
        lo <= hi <= v@.len(),
    ensures
        r@ == v@.subrange(lo as int, hi as int),
{
    let mut r: Vec<char> = Vec::new();
    let mut i = lo;
    while i < hi
        invariant
            lo <= i <= hi <= v@.len(),
            r@ == v@.subrange(lo as int, i as int),
        decreases hi - i,
    {
        r.push(v[i]);
        i = i + 1;
    }
    r
}

/// `str::trim` on a character vector.
pub fn trim_chars(v: &[char]) -> (r: Vec<char>)
    ensures
        r@ == trim(v@),
{
    let (lo, hi) = trim_bounds(v);
    sub_vec(v, lo, hi)
}

// ---------------------------------------------------------------------------
// Prefixes, suffixes and substrings
// ---------------------------------------------------------------------------

pub open spec fn has_prefix(s: Seq<char>, p: Seq<char>) -> bool {
    p.len() <= s.len() && s.take(p.len() as int) == p
}

pub open spec fn has_suffix(s: Seq<char>, p: Seq<char>) -> bool {
    p.len() <= s.len() && s.skip(s.len() - p.len()) == p
}

/// `s` contains `p` at position `i`.
pub open spec fn occurs_at(s: Seq<char>, p: Seq<char>, i: int) -> bool {
    0 <= i && i + p.len() <= s.len() && s.subrange(i, i + p.len()) == p
}

/// `str::contains` with a string pattern.
pub open spec fn has_sub(s: Seq<char>, p: Seq<char>) -> bool {
    exists|i: int| occurs_at(s, p, i)
}

fn matches_at(s: &[char], p: &[char], i: usize) -> (r: bool)
    requires
        i + p@.len() <= s@.len(),
    ensures
        r == (s@.subrange(i as int, i + p@.len()) == p@),
{
    let mut j: usize = 0;
    let n = s.len();
    while j < p.len()
        invariant
            j <= p@.len(),
            n == s@.len(),
            i + p@.len() <= s@.len(),
            forall|k: int| 0 <= k < j ==> s@[i + k] == p@[k],
        decreases p.len() - j,
    {
        if s[i + j] != p[j] {
            assert(s@.subrange(i as int, i + p@.len())[j as int] != p@[j as int]);
            return false;
        }
        j = j + 1;
    }
    assert(s@.subrange(i as int, i + p@.len()) == p@);
    true
}

pub fn starts_with(s: &[char], p: &[char]) -> (r: bool)
    ensures
        r == has_prefix(s@, p@),
{
    if p.len() > s.len() {
        return false;
    }
    let r = matches_at(s, p, 0);
    assert(s@.subrange(0, p@.len() as int) == s@.take(p@.len() as int));
    r
}

pub fn ends_with(s: &[char], p: &[char]) -> (r: bool)
    ensures
        r == has_suffix(s@, p@),
{
    if p.len() > s.len() {
        return false;
    }
    let r = matches_at(s, p, s.len() - p.len());
    assert(s@.subrange(s@.len() - p@.len(), s@.len() as int) == s@.skip(s@.len() - p@.len()));
    r
}

/// `str::contains` with a string pattern.
pub fn contains(s: &[char], p: &[char]) -> (r: bool)
    ensures
        r == has_sub(s@, p@),
{
    if p.len() > s.len() {
        assert forall|i: int| !occurs_at(s@, p@, i) by {}
        return false;
    }
    let last = s.len() - p.len();
    let mut i: usize = 0;
    while i < last
        invariant
            last + p@.len() == s@.len(),
            i <= last,
            forall|k: int| 0 <= k < i ==> !occurs_at(s@, p@, k),
        decreases last - i,
    {
        if matches_at(s, p, i) {
            assert(occurs_at(s@, p@, i as int));
            return true;
        }
        i = i + 1;
    }
    if matches_at(s, p, last) {
        assert(occurs_at(s@, p@, last as int));
        return true;
    }
    assert forall|k: int| !occurs_at(s@, p@, k) by {
        if 0 <= k < i {
        }
    }
    false
}

pub fn chars_equal(a: &[char], b: &[char]) -> (r: bool)
    ensures
        r == (a@ == b@),
{
    if a.len() != b.len() {
        return false;
    }
    let r = matches_at(a, b, 0);
    assert(a@.subrange(0, b@.len() as int) == a@);
    r
}

// ---------------------------------------------------------------------------
// Splitting
// ---------------------------------------------------------------------------

/// The character sequences held by a vector of character vectors.
pub open spec fn views(v: Seq<Vec<char>>) -> Seq<Seq<char>> {
    v.map_values(|w: Vec<char>| w@)
}

pub open spec fn eq_fn(c: char) -> spec_fn(char) -> bool {
    |x: char| x == c
}

/// Position of the first `c` in `s` (the length when absent).
pub open spec fn pos_of(s: Seq<char>, c: char) -> nat {
    first_such(s, eq_fn(c))
}

/// Length of the word at the start of `s`.
pub open spec fn word_len(s: Seq<char>) -> nat {
    first_such(s, white_fn())
}

/// `str::split_whitespace`.
pub open spec fn words(s: Seq<char>) -> Seq<Seq<char>>
    decreases s.len(),
{
    if s.len() == 0 {
        seq![]
    } else if is_white(s[0]) {
        words(s.drop_first())
    } else {
        proof {
            lemma_first_such_props(s, white_fn());
        }
        seq![s.take(word_len(s) as int)] + words(s.skip(word_len(s) as int))
    }
}

/// `str::split` with a `char` pattern: always at least one piece.
pub open spec fn split(s: Seq<char>, c: char) -> Seq<Seq<char>>
    decreases s.len(),
{
    proof {
        lemma_first_such_props(s, eq_fn(c));
    }
    if pos_of(s, c) == s.len() {
        seq![s]
    } else {
        seq![s.take(pos_of(s, c) as int)] + split(s.skip(pos_of(s, c) + 1int), c)
    }
}

/// One line as produced by `str::lines` from the text before a `'\n'`.
pub open spec fn strip_cr(line: Seq<char>) -> Seq<char> {
    if line.len() > 0 && line.last() == '\r' {
        line.drop_last()
    } else {
        line
    }
}

/// `str::lines`: split at `'\n'`, a `'\r'` right before it is dropped, and a
/// final line ending is optional.
pub open spec fn lines(s: Seq<char>) -> Seq<Seq<char>>
    decreases s.len(),
{
    proof {
        lemma_first_such_props(s, eq_fn('\n'));
    }
    if s.len() == 0 {
        seq![]
    } else if pos_of(s, '\n') == s.len() {
        seq![s]
    } else {
        seq![strip_cr(s.take(pos_of(s, '\n') as int))] + lines(s.skip(pos_of(s, '\n') + 1int))
    }
}

/// Position of the first `c` at or after `from` (`v.len()` when absent).
pub fn find_char(v: &[char], from: usize, c: char) -> (r: usize)
    requires
        from <= v@.len(),
    ensures
        r == from + pos_of(v@.skip(from as int), c),
        r <= v@.len(),
{
    let mut i = from;
    while i < v.len() && v[i] != c
        invariant
            from <= i <= v@.len(),
            forall|j: int| from <= j < i ==> v@[j] != c,
        decreases v.len() - i,
    {
        i = i + 1;
    }
    proof {
        let t = v@.skip(from as int);
        assert forall|j: int| 0 <= j < i - from implies !(#[trigger] eq_fn(c)(t[j])) by {
            assert(t[j] == v@[j + from]);
        }
        if i < v@.len() {
            assert(t[i - from] == v@[i as int]);
        }
        lemma_first_such(t, eq_fn(c), i - from);
    }
    i
}

/// `str::split` with a `char` pattern.
pub fn split_char(v: &[char], c: char) -> (r: Vec<Vec<char>>)
    ensures
        views(r@) == split(v@, c),
{
    let mut out: Vec<Vec<char>> = Vec::new();
    let mut start: usize = 0;
    loop
        invariant
            start <= v@.len(),
            split(v@, c) == views(out@) + split(v@.skip(start as int), c),
        decreases v@.len() - start,
    {
        let p = find_char(v, start, c);
        let piece = sub_vec(v, start, p);
        let ghost t = v@.skip(start as int);
        proof {
            assert(piece@ == t.take(pos_of(t, c) as int));
        }
        let ghost before = views(out@);
        if p == v.len() {
            out.push(piece);
            proof {
                assert(split(t, c) == seq![t]);
                assert(piece@ == t);
                assert(views(out@) =~= before.push(piece@));
                assert(before.push(piece@) == before + seq![t]);
            }
            return out;
        }
        out.push(piece);
        proof {
            assert(views(out@) =~= before.push(piece@));
            assert(t.skip(pos_of(t, c) + 1int) == v@.skip(p + 1));
            assert(split(t, c) == seq![piece@] + split(v@.skip(p + 1), c));
            assert(before + split(t, c) == before.push(piece@) + split(v@.skip(p + 1), c));
        }
        start = p + 1;
    }
}

/// Position of the first white-space character at or after `from`.
fn find_white(v: &[char], from: usize) -> (r: usize)
    requires
        from <= v@.len(),
    ensures
        r == from + word_len(v@.skip(from as int)),
        r <= v@.len(),
{
    let mut i = from;
    while i < v.len() && !is_whitespace(v[i])
        invariant
            from <= i <= v@.len(),
            forall|j: int| from <= j < i ==> !is_white(#[trigger] v@[j]),
        decreases v.len() - i,
    {
        i = i + 1;
    }
    proof {
        let t = v@.skip(from as int);
        assert forall|j: int| 0 <= j < i - from implies !(#[trigger] white_fn()(t[j])) by {
            assert(t[j] == v@[j + from]);
        }
        if i < v@.len() {
            assert(t[i - from] == v@[i as int]);
        }
        lemma_first_such(t, white_fn(), i - from);
    }
    i
}

/// `str::split_whitespace`.
pub fn split_ws(v: &[char]) -> (r: Vec<Vec<char>>)
    ensures
        views(r@) == words(v@),
{
    let mut out: Vec<Vec<char>> = Vec::new();
    let mut i: usize = 0;
    let n = v.len();
    loop
        invariant
            i <= n == v@.len(),
            words(v@) == views(out@) + words(v@.skip(i as int)),
        decreases n - i,
    {
        let ghost t = v@.skip(i as int);
        if i == n {
            assert(t.len() == 0);
            assert(views(out@) + words(t) =~= views(out@));
            return out;
        }
        assert(t[0] == v@[i as int]);
        if is_whitespace(v[i]) {
            assert(t.drop_first() == v@.skip(i + 1));
            i = i + 1;
        } else {
            let j = find_white(v, i);
            let piece = sub_vec(v, i, j);
            let ghost before = views(out@);
            proof {
                lemma_first_such_props(t, white_fn());
                assert(piece@ == t.take(word_len(t) as int));
                assert(t.skip(word_len(t) as int) == v@.skip(j as int));
                assert(words(t) == seq![piece@] + words(v@.skip(j as int)));
            }
            out.push(piece);
            proof {
                assert(views(out@) =~= before.push(piece@));
                assert(before + words(t) == before.push(piece@) + words(v@.skip(j as int)));
            }
            i = j;
        }
    }
}

/// `str::lines`.
pub fn split_lines(v: &[char]) -> (r: Vec<Vec<char>>)
    ensures
        views(r@) == lines(v@),
{
    let mut out: Vec<Vec<char>> = Vec::new();
    let mut i: usize = 0;
    let n = v.len();
    loop
        invariant
            i <= n == v@.len(),
            lines(v@) == views(out@) + lines(v@.skip(i as int)),
        decreases n - i,
    {
        let ghost t = v@.skip(i as int);
        let ghost before = views(out@);
        if i == n {
            assert(t.len() == 0);
            assert(views(out@) + lines(t) =~= views(out@));
            return out;
        }
        let j = find_char(v, i, '\n');
        if j == n {
            let piece = sub_vec(v, i, n);
            assert(piece@ == t);
            out.push(piece);
            assert(views(out@) =~= before.push(piece@));
            assert(lines(t) == seq![t]);
            assert(before + lines(t) =~= before.push(piece@));
            return out;
        }
        let e = if j > i && v[j - 1] == '\r' {
            j - 1
        } else {
            j
        };
        let piece = sub_vec(v, i, e);
        proof {
            let k = pos_of(t, '\n');
            assert(k == j - i);
            assert(t.take(k as int) == v@.subrange(i as int, j as int));
            if j > i {
                assert(t.take(k as int).last() == v@[j - 1]);
            }
            assert(piece@ == strip_cr(t.take(k as int)));
            assert(t.skip(k + 1int) == v@.skip(j + 1));
        }
        out.push(piece);
        proof {
            assert(views(out@) =~= before.push(piece@));
            assert(before + lines(t) == before.push(piece@) + lines(v@.skip(j + 1)));
        }
        i = j + 1;
    }
}

} // verus!
