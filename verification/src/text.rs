//! Character-level text model: whitespace, trimming, line splitting,
//! ASCII case folding and substring tests, each with an executable
//! counterpart that is proved against its specification.
use vstd::prelude::*;

verus! {

// ----------------------------------------------------------------------
// Conversions between `str`/`String` and character vectors
// ----------------------------------------------------------------------

/// The characters of `s`, in order.
pub fn chars_of(s: &str) -> (v: Vec<char>)
    ensures
        v@ == s@,
{
    broadcast use vstd::string::group_string_axioms;

    let mut v: Vec<char> = Vec::new();
    for c in it: s.chars()
        invariant
            v@ == it.seq().take(it.index() as int),
    {
        v.push(c);
    }
    v
}

/// `String::push`: appends one character at the end of the string.
#[verifier::external_body]
pub(crate) fn push_char(s: &mut String, c: char)
    ensures
        final(s)@ == old(s)@.push(c),
{
    s.push(c);
}

/// The string made of the characters of `v`.
pub fn string_of(v: &Vec<char>) -> (s: String)
    ensures
        s@ == v@,
{
    let mut s = String::new();
    let mut i: usize = 0;
    while i < v.len()
        invariant
            i <= v.len(),
            s@ == v@.take(i as int),
        decreases v.len() - i,
    {
        push_char(&mut s, v[i]);
        assert(v@.take(i + 1) =~= v@.take(i as int).push(v@[i as int]));
        i = i + 1;
    }
    assert(v@.take(v.len() as int) =~= v@);
    s
}

/// The characters of `s`, owned.
pub fn string_from(s: &str) -> (r: String)
    ensures
        r@ == s@,
{
    s.to_owned()
}

/// Appends the characters of `t` to `s`.
pub fn append_str(s: &mut String, t: &str)
    ensures
        final(s)@ == old(s)@ + t@,
{
    s.append(t);
}

/// Appends the characters of `t` to `s`.
pub fn append_chars(s: &mut String, t: &Vec<char>)
    ensures
        final(s)@ == old(s)@ + t@,
{
    let mut i: usize = 0;
    while i < t.len()
        invariant
            i <= t.len(),
            s@ == old(s)@ + t@.take(i as int),
        decreases t.len() - i,
    {
        push_char(s, t[i]);
        assert(t@.take(i + 1) =~= t@.take(i as int).push(t@[i as int]));
        i = i + 1;
    }
    assert(t@.take(t.len() as int) =~= t@);
}

/// The characters `v[lo..hi]`.
pub fn slice_chars(v: &Vec<char>, lo: usize, hi: usize) -> (r: Vec<char>)
    requires
        lo <= hi <= v.len(),
    ensures
        r@ == v@.subrange(lo as int, hi as int),
{
    let mut r: Vec<char> = Vec::new();
    let mut i: usize = lo;
    while i < hi
        invariant
            lo <= i <= hi <= v.len(),
            r@ == v@.subrange(lo as int, i as int),
        decreases hi - i,
    {
        r.push(v[i]);
        assert(v@.subrange(lo as int, i + 1) =~= v@.subrange(lo as int, i as int).push(
            v@[i as int],
        ));
        i = i + 1;
    }
    r
}

/// Whether two character sequences are equal.
pub fn chars_eq(a: &Vec<char>, b: &Vec<char>) -> (r: bool)
    ensures
        r == (a@ == b@),
{
    if a.len() != b.len() {
        return false;
    }
    let mut i: usize = 0;
    while i < a.len()
        invariant
            a.len() == b.len(),
            i <= a.len(),
            forall|j: int| 0 <= j < i ==> a@[j] == b@[j],
        decreases a.len() - i,
    {
        if a[i] != b[i] {
            return false;
        }
        i = i + 1;
    }
    assert(a@ =~= b@);
    true
}

// ----------------------------------------------------------------------
// Whitespace and trimming
// ----------------------------------------------------------------------

/// A character with the Unicode `White_Space` property (what `char::is_whitespace`,
/// `str::trim` and `str::split_whitespace` treat as whitespace).
pub open spec fn is_ws(c: char) -> bool {
    let u = c as u32;
    ||| 0x9 <= u <= 0xD
    ||| u == 0x20
    ||| u == 0x85
    ||| u == 0xA0
    ||| u == 0x1680
    ||| 0x2000 <= u <= 0x200A
    ||| u == 0x2028
    ||| u == 0x2029
    ||| u == 0x202F
    ||| u == 0x205F
    ||| u == 0x3000
}

/// Whether `c` is whitespace.
pub fn is_ws_char(c: char) -> (b: bool)
    ensures
        b == is_ws(c),
{
    let u = c as u32;
    (0x9 <= u && u <= 0xD) || u == 0x20 || u == 0x85 || u == 0xA0 || u == 0x1680 || (0x2000 <= u
        && u <= 0x200A) || u == 0x2028 || u == 0x2029 || u == 0x202F || u == 0x205F || u == 0x3000
}

/// `s` without its leading whitespace.
pub open spec fn trim_start(s: Seq<char>) -> Seq<char>
    decreases s.len(),
{
    if s.len() > 0 && is_ws(s[0]) {
        trim_start(s.drop_first())
    } else {
        s
    }
}

/// `s` without its trailing whitespace.
pub open spec fn trim_end(s: Seq<char>) -> Seq<char>
    decreases s.len(),
{
    if s.len() > 0 && is_ws(s.last()) {
        trim_end(s.drop_last())
    } else {
        s
    }
}

/// `s` without leading and trailing whitespace (`str::trim`).
pub open spec fn trim(s: Seq<char>) -> Seq<char> {
    trim_end(trim_start(s))
}

/// Index of the first non-whitespace character of `v[lo..hi]`, or `hi`.
fn skip_ws(v: &Vec<char>, lo: usize, hi: usize) -> (k: usize)
    requires
        lo <= hi <= v.len(),
    ensures
        lo <= k <= hi,
        trim_start(v@.subrange(lo as int, hi as int)) == v@.subrange(k as int, hi as int),
        forall|j: int| lo <= j < k ==> is_ws(#[trigger] v@[j]),
{
    let mut k = lo;
    while k < hi && is_ws_char(v[k])
        invariant
            lo <= k <= hi <= v.len(),
            trim_start(v@.subrange(lo as int, hi as int)) == trim_start(
                v@.subrange(k as int, hi as int),
            ),
            forall|j: int| lo <= j < k ==> is_ws(#[trigger] v@[j]),
        decreases hi - k,
    {
        assert(v@.subrange(k as int, hi as int).drop_first() =~= v@.subrange(k + 1, hi as int));
        k = k + 1;
    }
    k
}

/// `v[lo..hi]` without leading and trailing whitespace.
pub fn trim_range(v: &Vec<char>, lo: usize, hi: usize) -> (r: Vec<char>)
    requires
        lo <= hi <= v.len(),
    ensures
        r@ == trim(v@.subrange(lo as int, hi as int)),
{
    let k = skip_ws(v, lo, hi);
    let mut e = hi;
    while e > k && is_ws_char(v[e - 1])
        invariant
            lo <= k <= e <= hi <= v.len(),
            trim_end(v@.subrange(k as int, hi as int)) == trim_end(v@.subrange(k as int, e as int)),
        decreases e,
    {
        assert(v@.subrange(k as int, e as int).drop_last() =~= v@.subrange(k as int, e - 1));
        e = e - 1;
    }
    slice_chars(v, k, e)
}

/// `v` without leading and trailing whitespace.
pub fn trim_chars(v: &Vec<char>) -> (r: Vec<char>)
    ensures
        r@ == trim(v@),
{
    assert(v@.subrange(0, v.len() as int) =~= v@);
    trim_range(v, 0, v.len())
}

/// `s` without its trailing `'\r'` characters (`trim_end_matches('\r')`).
pub open spec fn trim_end_cr(s: Seq<char>) -> Seq<char>
    decreases s.len(),
{
    if s.len() > 0 && s.last() == '\r' {
        trim_end_cr(s.drop_last())
    } else {
        s
    }
}

/// `v` without its trailing `'\r'` characters.
pub fn trim_end_cr_chars(v: &Vec<char>) -> (r: Vec<char>)
    ensures
        r@ == trim_end_cr(v@),
{
    let mut e = v.len();
    assert(v@.subrange(0, v.len() as int) =~= v@);
    while e > 0 && v[e - 1] == '\r'
        invariant
            e <= v.len(),
            trim_end_cr(v@) == trim_end_cr(v@.subrange(0, e as int)),
        decreases e,
    {
        assert(v@.subrange(0, e as int).drop_last() =~= v@.subrange(0, e - 1));
        e = e - 1;
    }
    assert(v@.subrange(0, v.len() as int) =~= v@);
    slice_chars(v, 0, e)
}

// ----------------------------------------------------------------------
// Searching
// ----------------------------------------------------------------------

/// `k` is the position of the first `c` in `s`.
pub open spec fn is_first(s: Seq<char>, c: char, k: int) -> bool {
    &&& 0 <= k < s.len()
    &&& s[k] == c
    &&& forall|j: int| 0 <= j < k ==> s[j] != c
}

/// `s` holds `c`.
pub open spec fn has_char(s: Seq<char>, c: char) -> bool {
    exists|k: int| 0 <= k < s.len() && s[k] == c
}

/// The position of the first `c` in `s` (meaningful when `has_char(s, c)`).
pub open spec fn first_index(s: Seq<char>, c: char) -> int {
    choose|k: int| is_first(s, c, k)
}

/// If `s` holds `c`, `first_index` is its first position.
pub proof fn lemma_first_index(s: Seq<char>, c: char)
    requires
        has_char(s, c),
    ensures
        is_first(s, c, first_index(s, c)),
    decreases s.len(),
{
    if s[0] == c {
        assert(is_first(s, c, 0));
    } else {
        let t = s.drop_first();
        let k = choose|k: int| 0 <= k < s.len() && s[k] == c;
        assert(t[k - 1] == c);
        lemma_first_index(t, c);
        let j = first_index(t, c);
        assert forall|m: int| 0 <= m < j + 1 implies s[m] != c by {
            if m > 0 {
                assert(s[m] == t[m - 1]);
            }
        };
        assert(is_first(s, c, j + 1));
    }
}

/// Position of the first `c` in `v[lo..hi]`, relative to `lo`.
pub fn find_char(v: &Vec<char>, lo: usize, hi: usize, c: char) -> (r: Option<usize>)
    requires
        lo <= hi <= v.len(),
    ensures
        match r {
            Some(k) => is_first(v@.subrange(lo as int, hi as int), c, k as int) && k
                == first_index(v@.subrange(lo as int, hi as int), c),
            None => !has_char(v@.subrange(lo as int, hi as int), c),
        },
{
    let ghost s = v@.subrange(lo as int, hi as int);
    let mut i = lo;
    while i < hi
        invariant
            lo <= i <= hi <= v.len(),
            s == v@.subrange(lo as int, hi as int),
            forall|j: int| lo <= j < i ==> v@[j] != c,
        decreases hi - i,
    {
        if v[i] == c {
            proof {
                assert(is_first(s, c, i - lo));
                lemma_first_index(s, c);
            }
            return Some(i - lo);
        }
        i = i + 1;
    }
    assert(!has_char(s, c)) by {
        if has_char(s, c) {
            let k = choose|k: int| 0 <= k < s.len() && s[k] == c;
            assert(v@[lo + k] == c);
        }
    };
    None
}

/// `p` is a prefix of `s`.
pub open spec fn starts_with(s: Seq<char>, p: Seq<char>) -> bool {
    p.len() <= s.len() && s.take(p.len() as int) == p
}

/// Whether `p` is a prefix of `v`.
pub fn starts_with_chars(v: &Vec<char>, p: &Vec<char>) -> (r: bool)
    ensures
        r == starts_with(v@, p@),
{
    if p.len() > v.len() {
        return false;
    }
    let mut i: usize = 0;
    while i < p.len()
        invariant
            p.len() <= v.len(),
            i <= p.len(),
            forall|j: int| 0 <= j < i ==> v@[j] == p@[j],
        decreases p.len() - i,
    {
        if v[i] != p[i] {
            assert(v@.take(p.len() as int)[i as int] != p@[i as int]);
            return false;
        }
        i = i + 1;
    }
    assert(v@.take(p.len() as int) =~= p@);
    true
}

/// `p` occurs in `s` at position `i`.
pub open spec fn occurs_at(s: Seq<char>, p: Seq<char>, i: int) -> bool {
    0 <= i && i + p.len() <= s.len() && s.subrange(i, i + p.len()) == p
}

/// `p` occurs somewhere in `s` (`str::contains`).
pub open spec fn contains(s: Seq<char>, p: Seq<char>) -> bool {
    exists|i: int| occurs_at(s, p, i)
}

/// Whether `p` occurs in `v` at position `i`.
fn occurs_at_chars(v: &Vec<char>, p: &Vec<char>, i: usize) -> (r: bool)
    ensures
        r == occurs_at(v@, p@, i as int),
{
    if i > v.len() || p.len() > v.len() - i {
        return false;
    }
    let mut j: usize = 0;
    while j < p.len()
        invariant
            i + p.len() <= v.len(),
            j <= p.len(),
            forall|t: int| 0 <= t < j ==> v@[i + t] == p@[t],
        decreases p.len() - j,
    {
        if v[i + j] != p[j] {
            assert(v@.subrange(i as int, i + p.len())[j as int] != p@[j as int]);
            return false;
        }
        j = j + 1;
    }
    assert(v@.subrange(i as int, i + p.len()) =~= p@);
    true
}

/// Whether `p` occurs in `v`.
pub fn contains_chars(v: &Vec<char>, p: &Vec<char>) -> (r: bool)
    ensures
        r == contains(v@, p@),
{
    let mut i: usize = 0;
    loop
        invariant
            i <= v.len(),
            forall|t: int| 0 <= t < i ==> !occurs_at(v@, p@, t),
        ensures
            forall|t: int| 0 <= t <= v.len() ==> !occurs_at(v@, p@, t),
        decreases v.len() - i,
    {
        if occurs_at_chars(v, p, i) {
            return true;
        }
        if i == v.len() {
            break;
        }
        i = i + 1;
    }
    false
}

/// Whether `p` occurs in `s`.
pub fn str_contains(s: &Vec<char>, p: &str) -> (r: bool)
    ensures
        r == contains(s@, p@),
{
    let pv = chars_of(p);
    contains_chars(s, &pv)
}

/// Whether `s` starts with `p`.
pub fn str_starts_with(s: &Vec<char>, p: &str) -> (r: bool)
    ensures
        r == starts_with(s@, p@),
{
    let pv = chars_of(p);
    starts_with_chars(s, &pv)
}

// ----------------------------------------------------------------------
// ASCII case folding
// ----------------------------------------------------------------------

/// `c` with an ASCII upper-case letter mapped to lower case.
pub open spec fn ascii_lower(c: char) -> char {
    if 'A' <= c <= 'Z' {
        ((c as u32) + 32) as char
    } else {
        c
    }
}

/// `c` with an ASCII upper-case letter mapped to lower case.
pub fn ascii_lower_char(c: char) -> (r: char)
    ensures
        r == ascii_lower(c),
{
    if 'A' <= c && c <= 'Z' {
        ((c as u8) + 32) as char
    } else {
        c
    }
}

/// Equality of `a` and `b` ignoring ASCII case (`eq_ignore_ascii_case`).
pub open spec fn eq_ignore_ascii_case(a: Seq<char>, b: Seq<char>) -> bool {
    a.len() == b.len() && forall|i: int| 0 <= i < a.len() ==> ascii_lower(a[i]) == ascii_lower(b[i])
}

/// Whether `a` and `b` are equal ignoring ASCII case.
pub fn eq_ignore_ascii_case_chars(a: &Vec<char>, b: &Vec<char>) -> (r: bool)
    ensures
        r == eq_ignore_ascii_case(a@, b@),
{
    if a.len() != b.len() {
        return false;
    }
    let mut i: usize = 0;
    while i < a.len()
        invariant
            a.len() == b.len(),
            i <= a.len(),
            forall|j: int| 0 <= j < i ==> ascii_lower(a@[j]) == ascii_lower(b@[j]),
        decreases a.len() - i,
    {
        if ascii_lower_char(a[i]) != ascii_lower_char(b[i]) {
            return false;
        }
        i = i + 1;
    }
    true
}

// ----------------------------------------------------------------------
// Lines, separators and words
// ----------------------------------------------------------------------

/// `t` without one final `'\r'`.
pub open spec fn strip_one_cr(t: Seq<char>) -> Seq<char> {
    if t.len() > 0 && t.last() == '\r' {
        t.drop_last()
    } else {
        t
    }
}

/// The lines of `s` as `str::lines` yields them: split after each `'\n'`, a line
/// that ended in `"\r\n"` loses its `'\r'`, and a final empty piece is not a line.
pub open spec fn lines(s: Seq<char>) -> Seq<Seq<char>>
    decreases s.len(),
{
    if s.len() == 0 {
        seq![]
    } else if has_char(s, '\n') {
        let k = first_index(s, '\n');
        proof {
            lemma_first_index(s, '\n');
        }
        seq![strip_one_cr(s.take(k))] + lines(s.skip(k + 1))
    } else {
        seq![s]
    }
}

/// `v[lo..hi]` without one final `'\r'`.
fn strip_one_cr_range(v: &Vec<char>, lo: usize, hi: usize) -> (r: Vec<char>)
    requires
        lo <= hi <= v.len(),
    ensures
        r@ == strip_one_cr(v@.subrange(lo as int, hi as int)),
{
    if hi > lo && v[hi - 1] == '\r' {
        assert(v@.subrange(lo as int, hi as int).drop_last() =~= v@.subrange(lo as int, hi - 1));
        slice_chars(v, lo, hi - 1)
    } else {
        slice_chars(v, lo, hi)
    }
}

/// The character sequences held by a vector of character vectors.
pub open spec fn vecs_view(r: Seq<Vec<char>>) -> Seq<Seq<char>> {
    r.map_values(|v: Vec<char>| v@)
}

/// The lines of `v`.
pub fn split_lines(v: &Vec<char>) -> (r: Vec<Vec<char>>)
    ensures
        vecs_view(r@) == lines(v@),
{
    let n = v.len();
    let mut r: Vec<Vec<char>> = Vec::new();
    let mut pos: usize = 0;
    assert(v@.subrange(0, n as int) =~= v@);
    loop
        invariant_except_break
            vecs_view(r@) + lines(v@.subrange(pos as int, n as int)) == lines(v@),
        invariant
            n == v.len(),
            pos <= n,
        ensures
            vecs_view(r@) == lines(v@),
        decreases n - pos,
    {
        let ghost sub = v@.subrange(pos as int, n as int);
        if pos == n {
            assert(vecs_view(r@) + lines(sub) =~= vecs_view(r@));
            break;
        }
        match find_char(v, pos, n, '\n') {
            Some(k) => {
                let line = strip_one_cr_range(v, pos, pos + k);
                proof {
                    assert(sub.take(k as int) =~= v@.subrange(pos as int, pos + k));
                    assert(sub.skip(k + 1) =~= v@.subrange(pos + k + 1, n as int));
                    assert(lines(sub) == seq![strip_one_cr(sub.take(k as int))] + lines(
                        sub.skip(k + 1),
                    ));
                }
                let ghost before = vecs_view(r@);
                let ghost rb = r@;
                r.push(line);
                assert(r@ == rb.push(line));
                assert(vecs_view(r@) =~= before.push(line@));
                pos = pos + k + 1;
                assert(vecs_view(r@) + lines(v@.subrange(pos as int, n as int)) =~= before + lines(
                    sub,
                ));
            },
            None => {
                let line = slice_chars(v, pos, n);
                let ghost before = vecs_view(r@);
                let ghost rb = r@;
                r.push(line);
                assert(r@ == rb.push(line));
                assert(vecs_view(r@) =~= before.push(line@));
                assert(lines(sub) == seq![sub]);
                assert(vecs_view(r@) =~= before + lines(sub));
                break;
            },
        }
    }
    r
}

/// `s` split at its first `c` (`split_once`).
pub open spec fn split_once(s: Seq<char>, c: char) -> Option<(Seq<char>, Seq<char>)> {
    if has_char(s, c) {
        let k = first_index(s, c);
        Some((s.take(k), s.skip(k + 1)))
    } else {
        None
    }
}

/// `v` split at its first `c`.
pub fn split_once_chars(v: &Vec<char>, c: char) -> (r: Option<(Vec<char>, Vec<char>)>)
    ensures
        match r {
            Some((a, b)) => split_once(v@, c) == Some((a@, b@)),
            None => split_once(v@, c) is None,
        },
{
    let n = v.len();
    assert(v@.subrange(0, n as int) =~= v@);
    match find_char(v, 0, n, c) {
        Some(k) => {
            let a = slice_chars(v, 0, k);
            let b = slice_chars(v, k + 1, n);
            assert(v@.take(k as int) =~= a@);
            assert(v@.skip(k + 1) =~= b@);
            Some((a, b))
        },
        None => None,
    }
}

/// Length of the run of non-whitespace characters at the start of `t`.
pub open spec fn word_len(t: Seq<char>) -> nat
    decreases t.len(),
{
    if t.len() == 0 || is_ws(t[0]) {
        0
    } else {
        1 + word_len(t.drop_first())
    }
}

/// `trim_start` drops a whitespace prefix.
pub proof fn lemma_trim_start(s: Seq<char>)
    ensures
        trim_start(s).len() <= s.len(),
        trim_start(s) == s.skip(s.len() - trim_start(s).len()),
        trim_start(s).len() > 0 ==> !is_ws(trim_start(s)[0]),
    decreases s.len(),
{
    if s.len() > 0 && is_ws(s[0]) {
        lemma_trim_start(s.drop_first());
        assert(s.drop_first().skip(s.drop_first().len() - trim_start(s).len()) =~= s.skip(
            s.len() - trim_start(s).len(),
        ));
    } else {
        assert(s.skip(0) =~= s);
    }
}

/// A word is a prefix of what it is taken from.
pub proof fn lemma_word_len(t: Seq<char>)
    ensures
        word_len(t) <= t.len(),
        t.len() > 0 && !is_ws(t[0]) ==> word_len(t) >= 1,
    decreases t.len(),
{
    if t.len() > 0 && !is_ws(t[0]) {
        lemma_word_len(t.drop_first());
    }
}

/// The whitespace-separated words of `s` (`str::split_whitespace`).
pub open spec fn words(s: Seq<char>) -> Seq<Seq<char>>
    decreases s.len(),
{
    let t = trim_start(s);
    proof {
        lemma_trim_start(s);
        lemma_word_len(t);
    }
    if t.len() == 0 {
        seq![]
    } else {
        let w = word_len(t);
        seq![t.take(w as int)] + words(t.skip(w as int))
    }
}

/// The first word of `v[pos..]`: it spans `v[start..end]`, and the words after it
/// are those of `v[end..]`; `start == v.len()` when there is none.
pub fn next_word(v: &Vec<char>, pos: usize) -> (r: (usize, usize))
    requires
        pos <= v.len(),
    ensures
        pos <= r.0 <= r.1 <= v.len(),
        words(v@.subrange(pos as int, v.len() as int)).len() == 0 <==> r.0 == v.len(),
        r.0 < v.len() ==> words(v@.subrange(pos as int, v.len() as int)) == seq![
            v@.subrange(r.0 as int, r.1 as int),
        ] + words(v@.subrange(r.1 as int, v.len() as int)),
{
    let n = v.len();
    let start = skip_ws(v, pos, n);
    let ghost s = v@.subrange(pos as int, n as int);
    let ghost t = v@.subrange(start as int, n as int);
    proof {
        lemma_trim_start(s);
        lemma_word_len(t);
    }
    if start == n {
        return (n, n);
    }
    let mut e = start;
    while e < n && !is_ws_char(v[e])
        invariant
            start <= e <= n == v.len(),
            t == v@.subrange(start as int, n as int),
            word_len(t) == (e - start) + word_len(v@.subrange(e as int, n as int)),
        decreases n - e,
    {
        assert(v@.subrange(e as int, n as int).drop_first() =~= v@.subrange(e + 1, n as int));
        e = e + 1;
    }
    proof {
        assert(word_len(v@.subrange(e as int, n as int)) == 0);
        assert(t.take(word_len(t) as int) =~= v@.subrange(start as int, e as int));
        assert(t.skip(word_len(t) as int) =~= v@.subrange(e as int, n as int));
    }
    (start, e)
}

// ----------------------------------------------------------------------
// UTF-8 length
// ----------------------------------------------------------------------

/// The number of bytes of the UTF-8 encoding of `c`.
pub open spec fn utf8_width(c: char) -> nat {
    let u = c as u32;
    if u <= 0x7F {
        1
    } else if u <= 0x7FF {
        2
    } else if u <= 0xFFFF {
        3
    } else {
        4
    }
}

/// The number of bytes of the UTF-8 encoding of `s` (what `str::len` returns).
pub open spec fn utf8_len(s: Seq<char>) -> nat {
    vstd::utf8::encode_utf8(s).len()
}

/// Encoding distributes over concatenation.
pub proof fn lemma_encode_concat(a: Seq<char>, b: Seq<char>)
    ensures
        vstd::utf8::encode_utf8(a + b) == vstd::utf8::encode_utf8(a) + vstd::utf8::encode_utf8(b),
    decreases a.len(),
{
    if a.len() == 0 {
        assert(a + b =~= b);
    } else {
        assert((a + b).drop_first() =~= a.drop_first() + b);
        lemma_encode_concat(a.drop_first(), b);
        assert((a + b)[0] == a[0]);
    }
}

/// A character is encoded in `utf8_width` bytes.
pub proof fn lemma_encode_char(c: char)
    ensures
        vstd::utf8::encode_utf8(seq![c]).len() == utf8_width(c),
{
    broadcast use vstd::utf8::char_is_scalar;

    assert(seq![c].drop_first() =~= Seq::<char>::empty());
    assert(vstd::utf8::is_scalar(c as u32));
    assert(vstd::utf8::encode_utf8(seq![c]) == vstd::utf8::encode_scalar(c as u32)
        + vstd::utf8::encode_utf8(Seq::<char>::empty()));
    assert(vstd::utf8::encode_utf8(Seq::<char>::empty()) =~= Seq::<u8>::empty());
    assert(vstd::utf8::encode_utf8(seq![c]) =~= vstd::utf8::encode_scalar(c as u32));
}

/// Adding one character adds its width.
pub proof fn lemma_utf8_len_push(s: Seq<char>, c: char)
    ensures
        utf8_len(s.push(c)) == utf8_len(s) + utf8_width(c),
{
    assert(s.push(c) =~= s + seq![c]);
    lemma_encode_concat(s, seq![c]);
    lemma_encode_char(c);
}

/// The UTF-8 width of `c`.
pub fn utf8_width_char(c: char) -> (w: usize)
    ensures
        w == utf8_width(c),
{
    let u = c as u32;
    if u <= 0x7F {
        1
    } else if u <= 0x7FF {
        2
    } else if u <= 0xFFFF {
        3
    } else {
        4
    }
}

/// Whether the UTF-8 encoding of `v` is at most `n` bytes long.
pub fn utf8_len_le(v: &Vec<char>, n: usize) -> (r: bool)
    ensures
        r == (utf8_len(v@) <= n),
{
    let mut total: usize = 0;
    let mut i: usize = 0;
    assert(v@.take(0) =~= Seq::<char>::empty());
    assert(utf8_len(Seq::<char>::empty()) == 0);
    while i < v.len()
        invariant
            i <= v.len(),
            total == utf8_len(v@.take(i as int)),
            total <= n,
        decreases v.len() - i,
    {
        let w = utf8_width_char(v[i]);
        proof {
            assert(v@.take(i + 1) =~= v@.take(i as int).push(v@[i as int]));
            lemma_utf8_len_push(v@.take(i as int), v@[i as int]);
        }
        if w > n - total {
            proof {
                lemma_utf8_len_prefix(v@, i + 1);
            }
            return false;
        }
        total = total + w;
        i = i + 1;
    }
    assert(v@.take(v.len() as int) =~= v@);
    true
}

/// A prefix is encoded in no more bytes than the whole.
pub proof fn lemma_utf8_len_prefix(s: Seq<char>, k: int)
    requires
        0 <= k <= s.len(),
    ensures
        utf8_len(s.take(k)) <= utf8_len(s),
{
    assert(s =~= s.take(k) + s.skip(k));
    lemma_encode_concat(s.take(k), s.skip(k));
}

// ----------------------------------------------------------------------
// Unicode lower case
// ----------------------------------------------------------------------

/// What `str::to_lowercase` returns for `s`.
pub uninterp spec fn lowercase(s: Seq<char>) -> Seq<char>;

/// Every character of `s` is ASCII.
pub open spec fn is_ascii_text(s: Seq<char>) -> bool {
    forall|i: int| 0 <= i < s.len() ==> (s[i] as u32) < 128
}

/// What `str::to_lowercase` gives for `s`: the ASCII lower-casing of each
/// character for ASCII text, the named Unicode mapping otherwise.
pub open spec fn lower_text(s: Seq<char>) -> Seq<char> {
    if is_ascii_text(s) {
        s.map_values(|c: char| ascii_lower(c))
    } else {
        lowercase(s)
    }
}

/// `str::to_lowercase`: the string mapped to lower case by the Unicode
/// `Lowercase` property. For ASCII text that is the ASCII lower-casing of each
/// character (each ASCII character lowers to one ASCII character); beyond ASCII
/// the mapping is left unstated and only named.
#[verifier::external_body]
pub(crate) fn to_lowercase_str(s: &str) -> (r: String)
    ensures
        r@ == lowercase(s@),
        is_ascii_text(s@) ==> r@ == s@.map_values(|c: char| ascii_lower(c)),
{
    s.to_lowercase()
}

} // verus!
