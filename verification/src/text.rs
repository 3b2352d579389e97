//! Character-level building blocks shared by the text-processing modules.
//!
//! Strings are modelled by their character sequences (`s@: Seq<char>`); the
//! executable helpers here work on `Vec<char>` copies and hand back `String`s.
use vstd::prelude::*;

verus! {

/// Appending one character to a `String` extends its character sequence by that character.
pub assume_specification[ String::push ](s: &mut String, ch: char)
    ensures
        final(s)@ == old(s)@.push(ch),
;

/// Unicode lowercase mapping of a whole string, as `str::to_lowercase` computes it.
pub uninterp spec fn unicode_lowercase(s: Seq<char>) -> Seq<char>;

/// `str::to_lowercase` (std): the result is the Unicode lowercase mapping of `s`,
/// a function of the characters of `s` alone, and it is empty exactly when `s`
/// is (every character maps to at least one character).  The mapping itself is
/// not spelled out.
#[verifier::external_body]
pub(crate) fn to_lowercase(s: &str) -> (r: String)
    ensures
        r@ == unicode_lowercase(s@),
        r@.len() == 0 <==> s@.len() == 0,
{
    s.to_lowercase()
}

/// The characters of `s`, in order.
pub fn chars_of(s: &str) -> (v: Vec<char>)
    ensures
        v@ == s@,
{
    let mut v: Vec<char> = Vec::new();
    for c in it: s.chars()
        invariant
            v@ == it.seq().take(it.index() as int),
            it.seq() == s@,
    {
        v.push(c);
    }
    v
}

/// A `String` holding exactly the characters `v`.
pub fn string_of(v: &Vec<char>) -> (s: String)
    ensures
        s@ == v@,
{
    let mut s = String::new();
    let mut i: usize = 0;
    while i < v.len()
        invariant
            i <= v.len(),
            s@ == v@.take(i as int),
        decreases v.len() - i,
    {
        s.push(v[i]);
        i = i + 1;
        assert(s@ =~= v@.take(i as int));
    }
    assert(v@.take(v.len() as int) =~= v@);
    s
}

/// The copy `v[a..b]`.
pub fn sub_vec(v: &Vec<char>, a: usize, b: usize) -> (r: Vec<char>)
    requires
        a <= b <= v.len(),
    ensures
        r@ == v@.subrange(a as int, b as int),
{
    let mut r: Vec<char> = Vec::new();
    let mut i: usize = a;
    while i < b
        invariant
            a <= i <= b <= v.len(),
            r@ == v@.subrange(a as int, i as int),
        decreases b - i,
    {
        r.push(v[i]);
        i = i + 1;
        assert(r@ =~= v@.subrange(a as int, i as int));
    }
    r
}

/// `char::is_whitespace`: the Unicode `White_Space` property.
pub open spec fn is_ws(c: char) -> bool {
    let u = c as u32;
    ||| 9 <= u <= 13
    ||| u == 32
    ||| u == 0x85
    ||| u == 0xa0
    ||| u == 0x1680
    ||| 0x2000 <= u <= 0x200a
    ||| u == 0x2028
    ||| u == 0x2029
    ||| u == 0x202f
    ||| u == 0x205f
    ||| u == 0x3000
}

/// The classes of characters that the trimming operations strip.
#[derive(Clone, Copy, PartialEq, Eq, Structural, Debug)]
pub enum CharSet {
    /// Unicode white space (`str::trim`).
    Whitespace,
    /// `'\r'` and `'\n'`.
    LineBreak,
    /// `'"'` and `'\''`.
    Quote,
    /// `'.'`, `','` and `')'`: punctuation that ends a sentence around a URL.
    UrlTail,
}

pub open spec fn in_set(set: CharSet, c: char) -> bool {
    match set {
        CharSet::Whitespace => is_ws(c),
        CharSet::LineBreak => c == '\r' || c == '\n',
        CharSet::Quote => c == '"' || c == '\'',
        CharSet::UrlTail => c == '.' || c == ',' || c == ')',
    }
}

pub fn member(set: CharSet, c: char) -> (b: bool)
    ensures
        b == in_set(set, c),
{
    match set {
        CharSet::Whitespace => {
            let u = c as u32;
            (9 <= u && u <= 13) || u == 32 || u == 0x85 || u == 0xa0 || u == 0x1680 || (0x2000
                <= u && u <= 0x200a) || u == 0x2028 || u == 0x2029 || u == 0x202f || u == 0x205f
                || u == 0x3000
        },
        CharSet::LineBreak => c == '\r' || c == '\n',
        CharSet::Quote => c == '"' || c == '\'',
        CharSet::UrlTail => c == '.' || c == ',' || c == ')',
    }
}

/// First index at or after `i` whose character is not in `set` (or `s.len()`).
pub open spec fn skip_fwd(s: Seq<char>, set: CharSet, i: int) -> int
    decreases s.len() - i,
{
    if 0 <= i < s.len() && in_set(set, s[i]) {
        skip_fwd(s, set, i + 1)
    } else {
        i
    }
}

/// Walking back from `j` (not below `lo`), the end of the last character not in `set`.
pub open spec fn skip_back(s: Seq<char>, set: CharSet, lo: int, j: int) -> int
    decreases j - lo,
{
    if lo < j && j <= s.len() && in_set(set, s[j - 1]) {
        skip_back(s, set, lo, j - 1)
    } else {
        j
    }
}

/// `s` without its leading characters from `set`.
pub open spec fn trim_start_set(s: Seq<char>, set: CharSet) -> Seq<char> {
    s.subrange(skip_fwd(s, set, 0), s.len() as int)
}

/// `s` without its trailing characters from `set`.
pub open spec fn trim_end_set(s: Seq<char>, set: CharSet) -> Seq<char> {
    s.subrange(0, skip_back(s, set, 0, s.len() as int))
}

/// `s` without its leading and trailing characters from `set`.
pub open spec fn trim_set(s: Seq<char>, set: CharSet) -> Seq<char> {
    let a = skip_fwd(s, set, 0);
    s.subrange(a, skip_back(s, set, a, s.len() as int))
}

/// `str::trim`.
pub open spec fn trim(s: Seq<char>) -> Seq<char> {
    trim_set(s, CharSet::Whitespace)
}

pub proof fn lemma_skip_fwd_bounds(s: Seq<char>, set: CharSet, i: int)
    requires
        0 <= i <= s.len(),
    ensures
        i <= skip_fwd(s, set, i) <= s.len(),
        forall|k: int| i <= k < skip_fwd(s, set, i) ==> in_set(set, #[trigger] s[k]),
        skip_fwd(s, set, i) < s.len() ==> !in_set(set, s[skip_fwd(s, set, i)]),
    decreases s.len() - i,
{
    if i < s.len() && in_set(set, s[i]) {
        lemma_skip_fwd_bounds(s, set, i + 1);
    }
}

pub proof fn lemma_skip_back_bounds(s: Seq<char>, set: CharSet, lo: int, j: int)
    requires
        0 <= lo <= j <= s.len(),
    ensures
        lo <= skip_back(s, set, lo, j) <= j,
        forall|k: int| skip_back(s, set, lo, j) <= k < j ==> in_set(set, #[trigger] s[k]),
        skip_back(s, set, lo, j) > lo ==> !in_set(set, s[skip_back(s, set, lo, j) - 1]),
    decreases j - lo,
{
    if lo < j && in_set(set, s[j - 1]) {
        lemma_skip_back_bounds(s, set, lo, j - 1);
    }
}

/// Trimming never lengthens a sequence, and the result is a contiguous piece of it.
pub proof fn lemma_trim_set_shape(s: Seq<char>, set: CharSet)
    ensures
        trim_set(s, set).len() <= s.len(),
        trim_start_set(s, set).len() <= s.len(),
        trim_end_set(s, set).len() <= s.len(),
        trim_set(s, set).len() > 0 ==> !in_set(set, trim_set(s, set)[0]) && !in_set(
            set,
            trim_set(s, set).last(),
        ),
        trim_start_set(s, set).len() > 0 ==> !in_set(set, trim_start_set(s, set)[0]),
        trim_end_set(s, set).len() > 0 ==> !in_set(set, trim_end_set(s, set).last()),
{
    lemma_skip_fwd_bounds(s, set, 0);
    let a = skip_fwd(s, set, 0);
    lemma_skip_back_bounds(s, set, a, s.len() as int);
    lemma_skip_back_bounds(s, set, 0, s.len() as int);
}

/// A text that neither starts nor ends with white space is its own trim.
pub proof fn lemma_trim_unpadded(s: Seq<char>)
    requires
        s.len() > 0,
        !is_ws(s[0]),
        !is_ws(s.last()),
    ensures
        trim(s) == s,
{
    assert(skip_fwd(s, CharSet::Whitespace, 0) == 0);
    assert(skip_back(s, CharSet::Whitespace, 0, s.len() as int) == s.len());
    assert(trim(s) =~= s);
}

/// Position of the first non-`set` character at or after `i`.
pub fn scan_fwd(v: &Vec<char>, set: CharSet, i: usize) -> (r: usize)
    requires
        i <= v.len(),
    ensures
        r == skip_fwd(v@, set, i as int),
{
    let mut j = i;
    while j < v.len() && member(set, v[j])
        invariant
            i <= j <= v.len(),
            skip_fwd(v@, set, j as int) == skip_fwd(v@, set, i as int),
        decreases v.len() - j,
    {
        j = j + 1;
    }
    j
}

/// Walking back from `j` towards `lo`, the end of the last non-`set` character.
pub fn scan_back(v: &Vec<char>, set: CharSet, lo: usize, j: usize) -> (r: usize)
    requires
        lo <= j <= v.len(),
    ensures
        r == skip_back(v@, set, lo as int, j as int),
{
    let mut k = j;
    while lo < k && member(set, v[k - 1])
        invariant
            lo <= k <= j <= v.len(),
            skip_back(v@, set, lo as int, k as int) == skip_back(v@, set, lo as int, j as int),
        decreases k - lo,
    {
        k = k - 1;
    }
    k
}

pub fn trim_vec(v: &Vec<char>, set: CharSet) -> (r: Vec<char>)
    ensures
        r@ == trim_set(v@, set),
{
    let a = scan_fwd(v, set, 0);
    proof {
        lemma_skip_fwd_bounds(v@, set, 0);
    }
    let b = scan_back(v, set, a, v.len());
    proof {
        lemma_skip_back_bounds(v@, set, a as int, v.len() as int);
    }
    sub_vec(v, a, b)
}

pub fn trim_start_vec(v: &Vec<char>, set: CharSet) -> (r: Vec<char>)
    ensures
        r@ == trim_start_set(v@, set),
{
    let a = scan_fwd(v, set, 0);
    proof {
        lemma_skip_fwd_bounds(v@, set, 0);
    }
    sub_vec(v, a, v.len())
}

pub fn trim_end_vec(v: &Vec<char>, set: CharSet) -> (r: Vec<char>)
    ensures
        r@ == trim_end_set(v@, set),
{
    let b = scan_back(v, set, 0, v.len());
    proof {
        lemma_skip_back_bounds(v@, set, 0, v.len() as int);
    }
    sub_vec(v, 0, b)
}

/// `s.trim().to_string()`.
pub fn trim_str(s: &str) -> (r: String)
    ensures
        r@ == trim(s@),
{
    let v = chars_of(s);
    let t = trim_vec(&v, CharSet::Whitespace);
    string_of(&t)
}

/// First index at or after `i` whose character is in `set` (or `s.len()`).
pub open spec fn find_set(s: Seq<char>, set: CharSet, i: int) -> int
    decreases s.len() - i,
{
    if i < 0 || i >= s.len() {
        s.len() as int
    } else if in_set(set, s[i]) {
        i
    } else {
        find_set(s, set, i + 1)
    }
}

pub proof fn lemma_find_set(s: Seq<char>, set: CharSet, i: int)
    requires
        0 <= i <= s.len(),
    ensures
        i <= find_set(s, set, i) <= s.len(),
        find_set(s, set, i) < s.len() ==> in_set(set, s[find_set(s, set, i)]),
        forall|k: int| i <= k < find_set(s, set, i) ==> !in_set(set, #[trigger] s[k]),
    decreases s.len() - i,
{
    if i < s.len() && !in_set(set, s[i]) {
        lemma_find_set(s, set, i + 1);
    }
}

/// Position of the first character from `set` at or after `i`.
pub fn scan_to_set(v: &Vec<char>, set: CharSet, i: usize) -> (r: usize)
    requires
        i <= v.len(),
    ensures
        r == find_set(v@, set, i as int),
{
    let mut j = i;
    while j < v.len() && !member(set, v[j])
        invariant
            i <= j <= v.len(),
            find_set(v@, set, j as int) == find_set(v@, set, i as int),
        decreases v.len() - j,
    {
        j = j + 1;
    }
    j
}

/// Whether `s` begins with `p`.
pub open spec fn has_prefix(s: Seq<char>, p: Seq<char>) -> bool {
    p.len() <= s.len() && s.subrange(0, p.len() as int) == p
}

/// Whether `s` ends with `p`.
pub open spec fn has_suffix(s: Seq<char>, p: Seq<char>) -> bool {
    p.len() <= s.len() && s.subrange(s.len() - p.len(), s.len() as int) == p
}

/// Whether `p` occurs in `s` at position `i`.
pub open spec fn occurs_at(s: Seq<char>, p: Seq<char>, i: int) -> bool {
    0 <= i && i + p.len() <= s.len() && s.subrange(i, i + p.len()) == p
}

/// `str::contains` with a string pattern.
pub open spec fn contains_seq(s: Seq<char>, p: Seq<char>) -> bool {
    exists|i: int| occurs_at(s, p, i)
}

pub fn starts_with_vec(v: &Vec<char>, p: &Vec<char>) -> (b: bool)
    ensures
        b == has_prefix(v@, p@),
{
    if p.len() > v.len() {
        return false;
    }
    let mut i: usize = 0;
    while i < p.len()
        invariant
            p.len() <= v.len(),
            i <= p.len(),
            forall|k: int| 0 <= k < i ==> v@[k] == p@[k],
        decreases p.len() - i,
    {
        if v[i] != p[i] {
            assert(v@.subrange(0, p.len() as int)[i as int] != p@[i as int]);
            return false;
        }
        i = i + 1;
    }
    assert(v@.subrange(0, p.len() as int) =~= p@);
    true
}

pub fn ends_with_vec(v: &Vec<char>, p: &Vec<char>) -> (b: bool)
    ensures
        b == has_suffix(v@, p@),
{
    if p.len() > v.len() {
        return false;
    }
    let off = v.len() - p.len();
    let mut i: usize = 0;
    while i < p.len()
        invariant
            p.len() <= v.len(),
            off == v.len() - p.len(),
            i <= p.len(),
            forall|k: int| 0 <= k < i ==> v@[off + k] == p@[k],
        decreases p.len() - i,
    {
        if v[off + i] != p[i] {
            assert(v@.subrange(off as int, v.len() as int)[i as int] != p@[i as int]);
            return false;
        }
        i = i + 1;
    }
    assert(v@.subrange(off as int, v.len() as int) =~= p@);
    true
}

/// Whether `p` occurs in `v` at position `i`.
pub fn matches_at(v: &Vec<char>, p: &Vec<char>, i: usize) -> (b: bool)
    ensures
        b == occurs_at(v@, p@, i as int),
{
    if i > v.len() || p.len() > v.len() - i {
        return false;
    }
    let mut k: usize = 0;
    while k < p.len()
        invariant
            i + p.len() <= v.len(),
            k <= p.len(),
            forall|m: int| 0 <= m < k ==> v@[i + m] == p@[m],
        decreases p.len() - k,
    {
        if v[i + k] != p[k] {
            assert(v@.subrange(i as int, i + p.len())[k as int] != p@[k as int]);
            return false;
        }
        k = k + 1;
    }
    assert(v@.subrange(i as int, i + p.len()) =~= p@);
    true
}

/// `hay.contains(p)`.
pub fn contains_vec(hay: &Vec<char>, p: &Vec<char>) -> (b: bool)
    ensures
        b == contains_seq(hay@, p@),
{
    if p.len() > hay.len() {
        return false;
    }
    let last = hay.len() - p.len();
    let mut i: usize = 0;
    while i < last
        invariant
            last == hay.len() - p.len(),
            i <= last,
            forall|k: int| 0 <= k < i ==> !occurs_at(hay@, p@, k),
        decreases last - i,
    {
        if matches_at(hay, p, i) {
            return true;
        }
        i = i + 1;
    }
    if matches_at(hay, p, last) {
        return true;
    }
    assert forall|k: int| !occurs_at(hay@, p@, k) by {
        if 0 <= k <= last {
        }
    }
    false
}

/// Index of the first `c` at or after `i` (or `s.len()` when there is none).
pub open spec fn index_of(s: Seq<char>, c: char, i: int) -> int
    decreases s.len() - i,
{
    if i < 0 || i >= s.len() {
        s.len() as int
    } else if s[i] == c {
        i
    } else {
        index_of(s, c, i + 1)
    }
}

pub proof fn lemma_index_of(s: Seq<char>, c: char, i: int)
    requires
        0 <= i <= s.len(),
    ensures
        i <= index_of(s, c, i) <= s.len(),
        index_of(s, c, i) < s.len() ==> s[index_of(s, c, i)] == c,
        forall|k: int| i <= k < index_of(s, c, i) ==> #[trigger] s[k] != c,
    decreases s.len() - i,
{
    if i < s.len() && s[i] != c {
        lemma_index_of(s, c, i + 1);
    }
}

pub fn find_char(v: &Vec<char>, c: char, i: usize) -> (r: usize)
    requires
        i <= v.len(),
    ensures
        r == index_of(v@, c, i as int),
{
    let mut j = i;
    while j < v.len() && v[j] != c
        invariant
            i <= j <= v.len(),
            index_of(v@, c, j as int) == index_of(v@, c, i as int),
        decreases v.len() - j,
    {
        j = j + 1;
    }
    j
}

/// `str::lines`: split at `'\n'`, drop one `'\r'` before each `'\n'`, and yield no
/// empty line after a final line ending.
pub open spec fn lines(s: Seq<char>) -> Seq<Seq<char>>
    decreases s.len(),
{
    if s.len() == 0 {
        Seq::empty()
    } else {
        let k = index_of(s, '\n', 0);
        if k >= s.len() {
            seq![s]
        } else {
            let line = s.subrange(0, k);
            let line = if line.len() > 0 && line.last() == '\r' {
                line.drop_last()
            } else {
                line
            };
            proof {
                lemma_index_of(s, '\n', 0);
            }
            seq![line].add(lines(s.subrange(k + 1, s.len() as int)))
        }
    }
}

/// `index_of` inside a suffix of `s` is `index_of` in `s`, shifted.
pub proof fn lemma_index_of_shift(s: Seq<char>, c: char, pos: int, i: int)
    requires
        0 <= pos <= s.len(),
        0 <= i <= s.len() - pos,
    ensures
        index_of(s.subrange(pos, s.len() as int), c, i) == index_of(s, c, pos + i) - pos,
    decreases s.len() - pos - i,
{
    let t = s.subrange(pos, s.len() as int);
    if i < t.len() && t[i] != c {
        lemma_index_of_shift(s, c, pos, i + 1);
    }
}

/// The first line of `v[pos..]` and the position just after its line ending.
pub fn next_line(v: &Vec<char>, pos: usize) -> (r: (Vec<char>, usize))
    requires
        pos < v.len(),
    ensures
        pos < r.1 <= v.len(),
        lines(v@.subrange(pos as int, v.len() as int)) == seq![r.0@].add(
            lines(v@.subrange(r.1 as int, v.len() as int)),
        ),
{
    let ghost t = v@.subrange(pos as int, v.len() as int);
    let k = find_char(v, '\n', pos);
    proof {
        lemma_index_of_shift(v@, '\n', pos as int, 0);
        lemma_index_of(v@, '\n', pos as int);
    }
    if k >= v.len() {
        let line = sub_vec(v, pos, v.len());
        assert(lines(v@.subrange(v.len() as int, v.len() as int)) =~= Seq::<Seq<char>>::empty());
        assert(seq![line@].add(Seq::<Seq<char>>::empty()) =~= seq![line@]);
        (line, v.len())
    } else {
        let mut line = sub_vec(v, pos, k);
        if line.len() > 0 && line[line.len() - 1] == '\r' {
            line.pop();
        }
        assert(t.subrange(0, (k - pos) as int) =~= v@.subrange(pos as int, k as int));
        assert(t.subrange((k - pos) + 1, t.len() as int) =~= v@.subrange(k + 1, v.len() as int));
        (line, k + 1)
    }
}

/// One decimal digit.
pub open spec fn digit_char(d: nat) -> char {
    if d == 0 {
        '0'
    } else if d == 1 {
        '1'
    } else if d == 2 {
        '2'
    } else if d == 3 {
        '3'
    } else if d == 4 {
        '4'
    } else if d == 5 {
        '5'
    } else if d == 6 {
        '6'
    } else if d == 7 {
        '7'
    } else if d == 8 {
        '8'
    } else {
        '9'
    }
}

/// Decimal notation of a natural number, without leading zeros.
pub open spec fn decimal(n: nat) -> Seq<char>
    decreases n,
{
    if n < 10 {
        seq![digit_char(n)]
    } else {
        decimal(n / 10).push(digit_char(n % 10))
    }
}

/// Decimal notation of an integer, as `i64`'s `Display` writes it.
pub open spec fn int_decimal(n: int) -> Seq<char> {
    if n < 0 {
        seq!['-'] + decimal((-n) as nat)
    } else {
        decimal(n as nat)
    }
}

fn digit(d: u64) -> (c: char)
    requires
        d < 10,
    ensures
        c == digit_char(d as nat),
{
    if d == 0 {
        '0'
    } else if d == 1 {
        '1'
    } else if d == 2 {
        '2'
    } else if d == 3 {
        '3'
    } else if d == 4 {
        '4'
    } else if d == 5 {
        '5'
    } else if d == 6 {
        '6'
    } else if d == 7 {
        '7'
    } else if d == 8 {
        '8'
    } else {
        '9'
    }
}

/// Decimal digits of `n`.
pub fn u64_digits(n: u64) -> (r: Vec<char>)
    ensures
        r@ == decimal(n as nat),
    decreases n,
{
    if n < 10 {
        vec![digit(n)]
    } else {
        let mut r = u64_digits(n / 10);
        r.push(digit(n % 10));
        r
    }
}

/// `n.to_string()` for an `i64`.
pub fn i64_to_string(n: i64) -> (s: String)
    ensures
        s@ == int_decimal(n as int),
{
    if n < 0 {
        let mag: u64 = if n == i64::MIN {
            9223372036854775808u64
        } else {
            (-n) as u64
        };
        let d = u64_digits(mag);
        let mut v: Vec<char> = vec!['-'];
        let mut i: usize = 0;
        while i < d.len()
            invariant
                i <= d.len(),
                v@ == seq!['-'] + d@.take(i as int),
            decreases d.len() - i,
        {
            v.push(d[i]);
            i = i + 1;
            assert(v@ =~= seq!['-'] + d@.take(i as int));
        }
        assert(d@.take(d.len() as int) =~= d@);
        string_of(&v)
    } else {
        let d = u64_digits(n as u64);
        string_of(&d)
    }
}

/// Concatenation of two character vectors.
pub fn concat_vec(a: &Vec<char>, b: &Vec<char>) -> (r: Vec<char>)
    ensures
        r@ == a@ + b@,
{
    let mut r = sub_vec(a, 0, a.len());
    let mut i: usize = 0;
    assert(r@ =~= a@);
    while i < b.len()
        invariant
            i <= b.len(),
            r@ == a@ + b@.take(i as int),
        decreases b.len() - i,
    {
        r.push(b[i]);
        i = i + 1;
        assert(r@ =~= a@ + b@.take(i as int));
    }
    assert(b@.take(b.len() as int) =~= b@);
    r
}

} // verus!
