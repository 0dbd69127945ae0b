//! The decisions of the headless HTTP API: which binds are local, how a request
//! line and its headers are read, who is authorized, what each request is
//! answered, and how the Prometheus exposition is written.
use vstd::prelude::*;
use vstd::string::StringSliceAdditionalSpecFns;
use crate::text::{
    chars_of, string_of, string_from, push_char, append_str, append_chars, chars_eq, slice_chars,
    trim, trim_chars, starts_with, str_starts_with, lower_text, to_lowercase_str, utf8_len,
    utf8_len_le, lemma_encode_concat, lines, split_lines, vecs_view, trim_end_cr,
    trim_end_cr_chars, split_once, split_once_chars, eq_ignore_ascii_case,
    eq_ignore_ascii_case_chars, has_char, first_index, find_char, words, next_word, lemma_first_index,
};
use crate::num::{all_digits, digits_value, digits_value_range, radix_digits, dec_string, radix_chars, milli_digits, milli_string, milli_string_u64};
use crate::gpu::{GpuInfo, ProcessInfo};

verus! {

// ----------------------------------------------------------------------
// Loopback binds
// ----------------------------------------------------------------------

/// `c` is `[` or `]`.
pub open spec fn is_bracket(c: char) -> bool {
    c == '[' || c == ']'
}

/// `s` without leading brackets.
pub open spec fn trim_brackets_start(s: Seq<char>) -> Seq<char>
    decreases s.len(),
{
    if s.len() > 0 && is_bracket(s[0]) {
        trim_brackets_start(s.drop_first())
    } else {
        s
    }
}

/// `s` without trailing brackets.
pub open spec fn trim_brackets_end(s: Seq<char>) -> Seq<char>
    decreases s.len(),
{
    if s.len() > 0 && is_bracket(s.last()) {
        trim_brackets_end(s.drop_last())
    } else {
        s
    }
}

/// The host part of a bind address: trimmed, then without surrounding brackets
/// (`listen.trim().trim_matches(['[', ']'])`).
pub open spec fn bind_host_text(listen: Seq<char>) -> Seq<char> {
    trim_brackets_end(trim_brackets_start(trim(listen)))
}

/// A decimal field of a dotted IPv4 address: one to three digits, at most 255.
pub open spec fn is_octet(f: Seq<char>) -> bool {
    1 <= f.len() <= 3 && all_digits(f, 10) && digits_value(f, 10) <= 255
}

/// A dotted IPv4 address in 127/8: `127.a.b.c` with three more decimal fields.
pub open spec fn is_loopback_ipv4(s: Seq<char>) -> bool {
    match split_once(s, '.') {
        Some((a, r1)) => a == "127"@ && match split_once(r1, '.') {
            Some((b, r2)) => is_octet(b) && match split_once(r2, '.') {
                Some((c, d)) => is_octet(c) && is_octet(d),
                None => false,
            },
            None => false,
        },
        None => false,
    }
}

/// A lower-cased host name that stays on this machine: `localhost`, `::1`, or a
/// dotted IPv4 address in 127/8. Any other name, even one that starts with
/// `127.`, is remote.
pub open spec fn is_loopback_name(h: Seq<char>) -> bool {
    ||| h == "localhost"@
    ||| h == "::1"@
    ||| is_loopback_ipv4(h)
}

/// Whether `v` is a decimal field of a dotted IPv4 address.
fn octet_chars(v: &Vec<char>) -> (r: bool)
    ensures
        r == is_octet(v@),
{
    if v.len() < 1 || v.len() > 3 {
        return false;
    }
    let n = v.len();
    assert(v@.subrange(0, n as int) =~= v@);
    digits_value_range(v, 0, n, 10, 255).is_some()
}

/// Whether `v` is a dotted IPv4 address in 127/8.
fn loopback_ipv4_chars(v: &Vec<char>) -> (r: bool)
    ensures
        r == is_loopback_ipv4(v@),
{
    match split_once_chars(v, '.') {
        Some((a, r1)) => {
            if !chars_eq(&a, &chars_of("127")) {
                return false;
            }
            match split_once_chars(&r1, '.') {
                Some((b, r2)) => {
                    if !octet_chars(&b) {
                        return false;
                    }
                    match split_once_chars(&r2, '.') {
                        Some((c, d)) => octet_chars(&c) && octet_chars(&d),
                        None => false,
                    }
                },
                None => false,
            }
        },
        None => false,
    }
}

/// Whether a lower-cased host name stays on this machine.
pub fn loopback_host_name(h: &str) -> (r: bool)
    ensures
        r == is_loopback_name(h@),
{
    let v = chars_of(h);
    chars_eq(&v, &chars_of("localhost")) || chars_eq(&v, &chars_of("::1")) || loopback_ipv4_chars(&v)
}

/// `v` without surrounding brackets.
fn trim_brackets_chars(v: &Vec<char>) -> (r: Vec<char>)
    ensures
        r@ == trim_brackets_end(trim_brackets_start(v@)),
{
    let n = v.len();
    let mut k: usize = 0;
    assert(v@.subrange(0, n as int) =~= v@);
    while k < n && (v[k] == '[' || v[k] == ']')
        invariant
            k <= n == v.len(),
            trim_brackets_start(v@) == trim_brackets_start(v@.subrange(k as int, n as int)),
        decreases n - k,
    {
        assert(v@.subrange(k as int, n as int).drop_first() =~= v@.subrange(k + 1, n as int));
        k = k + 1;
    }
    assert(k < n ==> !is_bracket(v@.subrange(k as int, n as int)[0]));
    let mut e = n;
    while e > k && (v[e - 1] == '[' || v[e - 1] == ']')
        invariant
            k <= e <= n == v.len(),
            trim_brackets_end(v@.subrange(k as int, n as int)) == trim_brackets_end(
                v@.subrange(k as int, e as int),
            ),
        decreases e,
    {
        assert(v@.subrange(k as int, e as int).drop_last() =~= v@.subrange(k as int, e - 1));
        e = e - 1;
    }
    slice_chars(v, k, e)
}

/// True for loopback binds (127/8, localhost, ::1), compared after trimming,
/// removing brackets and lower-casing. Anything else (0.0.0.0, ::, a LAN address,
/// a host name) counts as remote.
pub fn is_loopback_bind(listen: &str) -> (r: bool)
    ensures
        r == is_loopback_name(lower_text(bind_host_text(listen@))),
{
    let v = chars_of(listen);
    let t = trim_chars(&v);
    let h = trim_brackets_chars(&t);
    let hs = string_of(&h);
    let lower = to_lowercase_str(hs.as_str());
    loopback_host_name(lower.as_str())
}

// ----------------------------------------------------------------------
// Constant-time comparison
// ----------------------------------------------------------------------

/// Equality of two strings that, when the byte lengths agree, looks at every byte
/// whatever their contents.
pub fn ct_eq(a: &str, b: &str) -> (r: bool)
    ensures
        r == (a@ == b@),
{
    let ab = a.as_bytes();
    let bb = b.as_bytes();
    proof {
        vstd::utf8::encode_utf8_decode_utf8(a@);
        vstd::utf8::encode_utf8_decode_utf8(b@);
    }
    if ab.len() != bb.len() {
        return false;
    }
    let mut diff: u8 = 0;
    let mut i: usize = 0;
    while i < ab.len()
        invariant
            ab.len() == bb.len(),
            i <= ab.len(),
            (diff == 0) <==> (forall|j: int| 0 <= j < i ==> ab@[j] == bb@[j]),
        decreases ab.len() - i,
    {
        let x = ab[i];
        let y = bb[i];
        let d = diff;
        assert(((d | (x ^ y)) == 0) <==> (d == 0 && x == y)) by (bit_vector);
        diff = diff | (x ^ y);
        i = i + 1;
    }
    if diff == 0 {
        assert(ab@ =~= bb@);
    }
    diff == 0
}

// ----------------------------------------------------------------------
// Prometheus label escaping
// ----------------------------------------------------------------------

/// How one character of a label value is written: `\` as `\\`, `"` as `\"`,
/// a newline or carriage return as a space.
pub open spec fn escape_char(c: char) -> Seq<char> {
    if c == '\\' {
        seq!['\\', '\\']
    } else if c == '"' {
        seq!['\\', '"']
    } else if c == '\n' || c == '\r' {
        seq![' ']
    } else {
        seq![c]
    }
}

/// A Prometheus label value written out.
pub open spec fn prom_escaped(s: Seq<char>) -> Seq<char>
    decreases s.len(),
{
    if s.len() == 0 {
        seq![]
    } else {
        prom_escaped(s.drop_last()) + escape_char(s.last())
    }
}

/// Escape a Prometheus label value per the exposition format.
pub fn prom_escape(s: &str) -> (r: String)
    ensures
        r@ == prom_escaped(s@),
{
    let v = chars_of(s);
    let mut out = String::new();
    let mut i: usize = 0;
    assert(v@.take(0) =~= Seq::<char>::empty());
    while i < v.len()
        invariant
            i <= v.len(),
            out@ == prom_escaped(v@.take(i as int)),
        decreases v.len() - i,
    {
        let c = v[i];
        let ghost before = out@;
        if c == '\\' {
            push_char(&mut out, '\\');
            push_char(&mut out, '\\');
        } else if c == '"' {
            push_char(&mut out, '\\');
            push_char(&mut out, '"');
        } else if c == '\n' || c == '\r' {
            push_char(&mut out, ' ');
        } else {
            push_char(&mut out, c);
        }
        proof {
            assert(v@.take(i + 1).drop_last() =~= v@.take(i as int));
            assert(out@ =~= before + escape_char(c));
        }
        i = i + 1;
    }
    assert(v@.take(v.len() as int) =~= v@);
    out
}

/// An escaped label value stays on one line: it holds no newline and no
/// carriage return.
pub proof fn law_prom_escaped_one_line(s: Seq<char>)
    ensures
        forall|i: int|
            0 <= i < prom_escaped(s).len() ==> #[trigger] prom_escaped(s)[i] != '\n'
                && prom_escaped(s)[i] != '\r',
    decreases s.len(),
{
    if s.len() > 0 {
        law_prom_escaped_one_line(s.drop_last());
        let a = prom_escaped(s.drop_last());
        let e = escape_char(s.last());
        assert forall|i: int| 0 <= i < prom_escaped(s).len() implies #[trigger] prom_escaped(s)[i] != '\n'
            && prom_escaped(s)[i] != '\r' by {
            if i < a.len() {
                assert(prom_escaped(s)[i] == a[i]);
            } else {
                assert(prom_escaped(s)[i] == e[i - a.len()]);
            }
        };
    }
}

/// An escaped label value read back: `\\` gives `\`, `\"` gives `"` (a
/// backslash and the character after it give that character).
pub open spec fn prom_unescaped(t: Seq<char>) -> Seq<char>
    decreases t.len(),
{
    if t.len() == 0 {
        seq![]
    } else if t[0] == '\\' && t.len() >= 2 {
        seq![t[1]] + prom_unescaped(t.skip(2))
    } else {
        seq![t[0]] + prom_unescaped(t.skip(1))
    }
}

/// No quote stands bare in `t`: read left to right, every `"` is the second half
/// of a backslash pair.
pub open spec fn quotes_escaped(t: Seq<char>) -> bool
    decreases t.len(),
{
    if t.len() == 0 {
        true
    } else if t[0] == '\\' && t.len() >= 2 {
        quotes_escaped(t.skip(2))
    } else {
        t[0] != '"' && quotes_escaped(t.skip(1))
    }
}

/// A newline or carriage return as a space, any other character as it is.
pub open spec fn fold_line_break(c: char) -> char {
    if c == '\n' || c == '\r' {
        ' '
    } else {
        c
    }
}

/// Escaping a value is escaping its first character, then the rest.
proof fn lemma_prom_escaped_first(s: Seq<char>)
    requires
        s.len() > 0,
    ensures
        prom_escaped(s) == escape_char(s[0]) + prom_escaped(s.drop_first()),
    decreases s.len(),
{
    if s.len() == 1 {
        assert(s.drop_last() =~= Seq::<char>::empty());
        assert(s.drop_first() =~= Seq::<char>::empty());
        assert(prom_escaped(s.drop_first()) =~= Seq::<char>::empty());
        assert(prom_escaped(s) =~= escape_char(s[0]));
    } else {
        let init = s.drop_last();
        lemma_prom_escaped_first(init);
        assert(init.drop_first() =~= s.drop_first().drop_last());
        assert(s.drop_first().last() == s.last());
        assert(init[0] == s[0]);
        assert(prom_escaped(s.drop_first()) == prom_escaped(init.drop_first()) + escape_char(s.last()));
        assert(prom_escaped(s) =~= escape_char(s[0]) + prom_escaped(s.drop_first()));
    }
}

/// Escaping loses nothing but line breaks: reading the escaped value back
/// gives the value with each newline and carriage return turned into a space,
/// and no quote in the escaped value is left bare.
pub proof fn law_prom_escape_round_trip(s: Seq<char>)
    ensures
        prom_unescaped(prom_escaped(s)) == s.map_values(|c: char| fold_line_break(c)),
        quotes_escaped(prom_escaped(s)),
    decreases s.len(),
{
    if s.len() == 0 {
        assert(s.map_values(|c: char| fold_line_break(c)) =~= Seq::<char>::empty());
    } else {
        lemma_prom_escaped_first(s);
        law_prom_escape_round_trip(s.drop_first());
        let e = escape_char(s[0]);
        let rest = prom_escaped(s.drop_first());
        let t = e + rest;
        if e.len() == 2 {
            assert(t[0] == '\\' && t[1] == e[1]);
            assert(t.skip(2) =~= rest);
        } else {
            assert(t[0] == e[0] && t[0] != '\\');
            assert(t.skip(1) =~= rest);
        }
        assert(s.map_values(|c: char| fold_line_break(c)) =~= seq![fold_line_break(s[0])]
            + s.drop_first().map_values(|c: char| fold_line_break(c)));
    }
}

/// Escaping never drops a character: the escaped value is at least as long.
pub proof fn law_prom_escaped_len(s: Seq<char>)
    ensures
        prom_escaped(s).len() >= s.len(),
    decreases s.len(),
{
    if s.len() > 0 {
        law_prom_escaped_len(s.drop_last());
    }
}

// ----------------------------------------------------------------------
// Column truncation
// ----------------------------------------------------------------------

/// Shorten `s` to `n` bytes for a table column: kept whole when its UTF-8 form
/// fits, else its first `n - 3` bytes followed by `...`. The cut must fall on a
/// character boundary.
pub fn truncate(s: &str, n: usize) -> (r: String)
    requires
        utf8_len(s@) > n ==> n >= 3 && vstd::utf8::is_char_boundary(
            vstd::utf8::encode_utf8(s@),
            n - 3,
        ),
    ensures
        utf8_len(s@) <= n ==> r@ == s@,
        utf8_len(s@) > n ==> vstd::utf8::encode_utf8(r@) == vstd::utf8::encode_utf8(s@).take(
            n - 3,
        ) + vstd::utf8::encode_utf8("..."@),
        r@ == truncate_text(s@, n as nat),
        utf8_len(r@) <= n,
{
    let v = chars_of(s);
    if utf8_len_le(&v, n) {
        return string_from(s);
    }
    let (head, _tail) = s.split_at(n - 3);
    let mut r = string_from(head);
    append_str(&mut r, "...");
    proof {
        lemma_encode_concat(head@, "..."@);
        assert(encode_utf8_take(s@, n - 3) == head.spec_bytes());
        vstd::utf8::encode_utf8_decode_utf8(r@);
        reveal_strlit("...");
        assert("..."@ =~= seq!['.'].push('.').push('.'));
        crate::text::lemma_utf8_len_push(seq!['.'].push('.'), '.');
        crate::text::lemma_utf8_len_push(seq!['.'], '.');
        crate::text::lemma_encode_char('.');
        assert(utf8_len("..."@) == 3);
    }
    r
}

/// What `truncate` makes of `s` for a column of `n` bytes: `s` when it fits,
/// else the text of its first `n - 3` bytes followed by `...`.
pub open spec fn truncate_text(s: Seq<char>, n: nat) -> Seq<char> {
    if utf8_len(s) <= n {
        s
    } else {
        vstd::utf8::decode_utf8(
            vstd::utf8::encode_utf8(s).take(n - 3) + vstd::utf8::encode_utf8("..."@),
        )
    }
}

/// The first `k` bytes of the UTF-8 form of `s`.
pub open spec fn encode_utf8_take(s: Seq<char>, k: int) -> Seq<u8> {
    vstd::utf8::encode_utf8(s).take(k)
}

// ----------------------------------------------------------------------
// Request line and headers
// ----------------------------------------------------------------------

/// `s` without its first element (empty stays empty).
pub open spec fn after_first(s: Seq<Seq<char>>) -> Seq<Seq<char>> {
    if s.len() == 0 {
        s
    } else {
        s.skip(1)
    }
}

/// The header lines of a request: every line after the request line.
pub open spec fn header_lines(req: Seq<char>) -> Seq<Seq<char>> {
    after_first(lines(req))
}

/// The credential of an `Authorization` header value of the `Bearer` scheme
/// (scheme compared without ASCII case, value and credential trimmed).
pub open spec fn bearer_credential(value: Seq<char>) -> Option<Seq<char>> {
    match split_once(trim(value), ' ') {
        Some((scheme, cred)) => if eq_ignore_ascii_case(scheme, "bearer"@) {
            Some(trim(cred))
        } else {
            None
        },
        None => None,
    }
}

/// What scanning the header lines `hs` decides about a bearer token `expected`:
/// the scan stops at the first empty line; lines shorter than 14 bytes, lines
/// without `:`, other headers and `Authorization` headers of another scheme are
/// passed over; the first `Authorization: Bearer` header decides.
pub open spec fn bearer_scan(hs: Seq<Seq<char>>, expected: Seq<char>) -> bool
    decreases hs.len(),
{
    if hs.len() == 0 {
        false
    } else {
        let line = trim_end_cr(hs[0]);
        if line.len() == 0 {
            false
        } else if utf8_len(line) < 14 {
            bearer_scan(hs.drop_first(), expected)
        } else {
            match split_once(line, ':') {
                Some((name, value)) => if eq_ignore_ascii_case(name, "authorization"@) {
                    match bearer_credential(value) {
                        Some(cred) => cred == expected,
                        None => bearer_scan(hs.drop_first(), expected),
                    }
                } else {
                    bearer_scan(hs.drop_first(), expected)
                },
                None => bearer_scan(hs.drop_first(), expected),
            }
        }
    }
}

/// The request carries `Authorization: Bearer <expected>`.
pub open spec fn bearer_ok(req: Seq<char>, expected: Seq<char>) -> bool {
    bearer_scan(header_lines(req), expected)
}

/// A request is authorized only by an `Authorization` header that carries
/// exactly the expected token in the `Bearer` scheme.
pub proof fn law_bearer_needs_token(hs: Seq<Seq<char>>, expected: Seq<char>)
    requires
        bearer_scan(hs, expected),
    ensures
        exists|i: int|
            0 <= i < hs.len() && (split_once(trim_end_cr(#[trigger] hs[i]), ':') matches Some(
                (name, value),
            ) && eq_ignore_ascii_case(name, "authorization"@) && bearer_credential(value) == Some(
                expected,
            )),
    decreases hs.len(),
{
    let line = trim_end_cr(hs[0]);
    if utf8_len(line) < 14 || !(split_once(line, ':') matches Some((name, value)) && eq_ignore_ascii_case(
        name,
        "authorization"@,
    ) && bearer_credential(value) is Some) {
        law_bearer_needs_token(hs.drop_first(), expected);
        let i = choose|i: int|
            0 <= i < hs.drop_first().len() && (split_once(trim_end_cr(#[trigger] hs.drop_first()[i]), ':') matches Some(
                (name, value),
            ) && eq_ignore_ascii_case(name, "authorization"@) && bearer_credential(value) == Some(
                expected,
            ));
        assert(hs[i + 1] == hs.drop_first()[i]);
    } else {
        assert(split_once(trim_end_cr(hs[0]), ':') matches Some((name, value)) && eq_ignore_ascii_case(
            name,
            "authorization"@,
        ) && bearer_credential(value) == Some(expected));
    }
}

/// The first `Bearer` header decides: no request is authorized for two
/// different tokens.
pub proof fn law_bearer_token_unique(hs: Seq<Seq<char>>, a: Seq<char>, b: Seq<char>)
    requires
        bearer_scan(hs, a),
        bearer_scan(hs, b),
    ensures
        a == b,
    decreases hs.len(),
{
    let line = trim_end_cr(hs[0]);
    if utf8_len(line) < 14 || !(split_once(line, ':') matches Some((name, value)) && eq_ignore_ascii_case(
        name,
        "authorization"@,
    ) && bearer_credential(value) is Some) {
        law_bearer_token_unique(hs.drop_first(), a, b);
    }
}

/// A request without a `Host` header (before the empty line) counts as local.
pub proof fn law_missing_host_allowed(hs: Seq<Seq<char>>)
    requires
        forall|i: int| 0 <= i < hs.len() ==> host_value(trim_end_cr(#[trigger] hs[i])) is None,
    ensures
        host_scan(hs),
    decreases hs.len(),
{
    if hs.len() > 0 {
        assert(host_value(trim_end_cr(hs[0])) is None);
        assert forall|i: int| 0 <= i < hs.drop_first().len() implies host_value(
            trim_end_cr(#[trigger] hs.drop_first()[i]),
        ) is None by {
            assert(hs.drop_first()[i] == hs[i + 1]);
        };
        law_missing_host_allowed(hs.drop_first());
    }
}

/// The bearer credential of an `Authorization` header value, if it has that scheme.
fn bearer_credential_chars(value: &Vec<char>) -> (r: Option<Vec<char>>)
    ensures
        match r {
            Some(c) => bearer_credential(value@) == Some(c@),
            None => bearer_credential(value@) is None,
        },
{
    let v = trim_chars(value);
    match split_once_chars(&v, ' ') {
        Some((scheme, cred)) => {
            if eq_ignore_ascii_case_chars(&scheme, &chars_of("bearer")) {
                Some(trim_chars(&cred))
            } else {
                None
            }
        },
        None => None,
    }
}

/// Check `Authorization: Bearer <token>` (scheme case-insensitive); the token is
/// compared with `ct_eq`.
pub fn bearer_authorized(req: &str, expected: &str) -> (r: bool)
    ensures
        r == bearer_ok(req@, expected@),
{
    let ls = split_lines(&chars_of(req));
    let ghost all = vecs_view(ls@);
    if ls.len() == 0 {
        return false;
    }
    let mut i: usize = 1;
    assert(all.skip(1) =~= header_lines(req@));
    while i < ls.len()
        invariant
            1 <= i <= ls.len(),
            all == vecs_view(ls@),
            all == lines(req@),
            bearer_scan(all.skip(i as int), expected@) == bearer_ok(req@, expected@),
        decreases ls.len() - i,
    {
        let ghost hs = all.skip(i as int);
        assert(hs[0] == ls@[i as int]@);
        assert(hs.drop_first() =~= all.skip(i + 1));
        let line = trim_end_cr_chars(&ls[i]);
        if line.len() == 0 {
            return false;
        }
        if !utf8_len_le(&line, 13) {
            match split_once_chars(&line, ':') {
                Some((name, value)) => {
                    if eq_ignore_ascii_case_chars(&name, &chars_of("authorization")) {
                        match bearer_credential_chars(&value) {
                            Some(cred) => {
                                let got = string_of(&cred);
                                return ct_eq(got.as_str(), expected);
                            },
                            None => {},
                        }
                    }
                },
                None => {},
            }
        }
        i = i + 1;
    }
    assert(all.skip(i as int) =~= Seq::<Seq<char>>::empty());
    false
}

/// The value of a `Host` header line written `Host:`, `host:` or `HOST:`.
pub open spec fn host_value(line: Seq<char>) -> Option<Seq<char>> {
    if starts_with(line, "Host:"@) || starts_with(line, "host:"@) || starts_with(line, "HOST:"@) {
        Some(line.skip(5))
    } else {
        None
    }
}

/// A port after a host name: one or more decimal digits.
pub open spec fn is_port(p: Seq<char>) -> bool {
    p.len() > 0 && all_digits(p, 10)
}

/// A lower-cased `Host` value that names this machine: `[::1]` or `::1`, or
/// `localhost` or a dotted IPv4 address in 127/8, each optionally followed by
/// `:` and a port (`[::1]:port` for the bracketed form). Any other host, even one
/// that starts with a loopback name, is foreign.
pub open spec fn is_loopback_host_value(h: Seq<char>) -> bool {
    if h == "[::1]"@ || h == "::1"@ {
        true
    } else if starts_with(h, "[::1]:"@) {
        is_port(h.skip(6))
    } else {
        match split_once(h, ':') {
            Some((name, port)) => (name == "localhost"@ || is_loopback_ipv4(name)) && is_port(port),
            None => h == "localhost"@ || is_loopback_ipv4(h),
        }
    }
}

/// Whether `v` is a port.
fn port_chars(v: &Vec<char>) -> (r: bool)
    ensures
        r == is_port(v@),
{
    if v.len() == 0 {
        return false;
    }
    let mut i: usize = 0;
    while i < v.len()
        invariant
            i <= v.len(),
            forall|j: int| 0 <= j < i ==> crate::num::digit_value(#[trigger] v@[j]) < 10,
        decreases v.len() - i,
    {
        if crate::num::digit_value_char(v[i]) >= 10 {
            return false;
        }
        i = i + 1;
    }
    true
}

/// What scanning the header lines decides about the `Host` header: the first
/// `Host` line before the empty line decides; without one the request is local.
pub open spec fn host_scan(hs: Seq<Seq<char>>) -> bool
    decreases hs.len(),
{
    if hs.len() == 0 {
        true
    } else {
        let line = trim_end_cr(hs[0]);
        if line.len() == 0 {
            true
        } else {
            match host_value(line) {
                Some(v) => is_loopback_host_value(lower_text(trim(v))),
                None => host_scan(hs.drop_first()),
            }
        }
    }
}

/// Whether a lower-cased `Host` value names this machine.
pub fn loopback_host_value(h: &str) -> (r: bool)
    ensures
        r == is_loopback_host_value(h@),
{
    let v = chars_of(h);
    if chars_eq(&v, &chars_of("[::1]")) || chars_eq(&v, &chars_of("::1")) {
        return true;
    }
    if str_starts_with(&v, "[::1]:") {
        proof {
            reveal_strlit("[::1]:");
        }
        let rest = slice_chars(&v, 6, v.len());
        assert(rest@ =~= v@.skip(6));
        return port_chars(&rest);
    }
    match split_once_chars(&v, ':') {
        Some((name, port)) => (chars_eq(&name, &chars_of("localhost")) || loopback_ipv4_chars(&name))
            && port_chars(&port),
        None => chars_eq(&v, &chars_of("localhost")) || loopback_ipv4_chars(&v),
    }
}

/// Allow only loopback `Host` headers (a guard against DNS rebinding of the
/// unauthenticated local API). A request without `Host` is allowed.
pub fn host_is_loopback(req: &str) -> (r: bool)
    ensures
        r == host_scan(header_lines(req@)),
{
    let ls = split_lines(&chars_of(req));
    let ghost all = vecs_view(ls@);
    if ls.len() == 0 {
        assert(header_lines(req@) =~= Seq::<Seq<char>>::empty());
        return true;
    }
    let mut i: usize = 1;
    assert(all.skip(1) =~= header_lines(req@));
    while i < ls.len()
        invariant
            1 <= i <= ls.len(),
            all == vecs_view(ls@),
            all == lines(req@),
            host_scan(all.skip(i as int)) == host_scan(header_lines(req@)),
        decreases ls.len() - i,
    {
        let ghost hs = all.skip(i as int);
        assert(hs[0] == ls@[i as int]@);
        assert(hs.drop_first() =~= all.skip(i + 1));
        let line = trim_end_cr_chars(&ls[i]);
        if line.len() == 0 {
            return true;
        }
        if str_starts_with(&line, "Host:") || str_starts_with(&line, "host:") || str_starts_with(
            &line,
            "HOST:",
        ) {
            proof {
                reveal_strlit("Host:");
                reveal_strlit("host:");
                reveal_strlit("HOST:");
            }
            let n = line.len();
            let value = slice_chars(&line, 5, n);
            assert(value@ =~= line@.skip(5));
            let t = string_of(&trim_chars(&value));
            let lower = to_lowercase_str(t.as_str());
            return loopback_host_value(lower.as_str());
        }
        i = i + 1;
    }
    assert(all.skip(i as int) =~= Seq::<Seq<char>>::empty());
    true
}

/// The part of a request target before any `?`.
pub open spec fn before_query(raw: Seq<char>) -> Seq<char> {
    if has_char(raw, '?') {
        raw.take(first_index(raw, '?'))
    } else {
        raw
    }
}

/// The first line of a request (empty when there is none).
pub open spec fn first_line(req: Seq<char>) -> Seq<char> {
    if lines(req).len() > 0 {
        lines(req)[0]
    } else {
        seq![]
    }
}

/// Method and path of a request: the first two words of its first line, the
/// path without its query string; both empty when the method or target is
/// missing or the target does not start with `/`.
pub open spec fn request_line_parts(req: Seq<char>) -> (Seq<char>, Seq<char>) {
    let w = words(first_line(req));
    let method = if w.len() > 0 {
        w[0]
    } else {
        seq![]
    };
    let raw = if w.len() > 1 {
        w[1]
    } else {
        seq![]
    };
    if method.len() == 0 || raw.len() == 0 || raw[0] != '/' {
        (seq![], seq![])
    } else {
        (method, before_query(raw))
    }
}

/// Parse `METHOD PATH HTTP/x` from the request line, dropping the query string.
/// Gives two empty strings on malformed input.
pub fn parse_request_line(req: &str) -> (r: (String, String))
    ensures
        (r.0@, r.1@) == request_line_parts(req@),
{
    let ls = split_lines(&chars_of(req));
    let line: Vec<char> = if ls.len() > 0 {
        slice_chars(&ls[0], 0, ls[0].len())
    } else {
        Vec::new()
    };
    assert(line@ =~= first_line(req@));
    let n = line.len();
    assert(line@.subrange(0, n as int) =~= line@);
    let (s1, e1) = next_word(&line, 0);
    if s1 == n {
        return (String::new(), String::new());
    }
    let (s2, e2) = next_word(&line, e1);
    if s2 == n {
        return (String::new(), String::new());
    }
    let method = slice_chars(&line, s1, e1);
    let raw = slice_chars(&line, s2, e2);
    proof {
        let w = words(first_line(req@));
        assert(w[0] == method@);
        assert(w[1] == raw@);
    }
    if method.len() == 0 || raw.len() == 0 || raw[0] != '/' {
        return (String::new(), String::new());
    }
    let m = raw.len();
    assert(raw@.subrange(0, m as int) =~= raw@);
    let path = match find_char(&raw, 0, m, '?') {
        Some(k) => slice_chars(&raw, 0, k),
        None => slice_chars(&raw, 0, m),
    };
    assert(path@ =~= before_query(raw@));
    (string_of(&method), string_of(&path))
}

// ----------------------------------------------------------------------
// Routing
// ----------------------------------------------------------------------

/// What a request is answered.
#[derive(PartialEq, Eq, Structural, Clone, Copy, Debug)]
pub enum Route {
    /// 403: no token is configured and the `Host` header is not local.
    ForbiddenHost,
    /// 405: the method is not `GET`.
    MethodNotAllowed,
    /// 401: a token is configured and the request does not carry it.
    Unauthorized,
    /// `GET /metrics`: Prometheus exposition.
    Metrics,
    /// `GET /health`: always open.
    Health,
    /// `GET /`: the GPUs as JSON.
    Json,
    /// 404 for any other path.
    NotFound,
}

/// The views of an optional string.
pub open spec fn opt_str_view(t: Option<&str>) -> Option<Seq<char>> {
    match t {
        Some(x) => Some(x@),
        None => None,
    }
}

/// The answer to `req` when the server runs with the bearer token `token`:
/// without a token the `Host` must be local; only `GET` is served; with a
/// token, every path but `/health` needs it.
pub open spec fn route_for(req: Seq<char>, token: Option<Seq<char>>) -> Route {
    let (method, path) = request_line_parts(req);
    if token is None && !host_scan(header_lines(req)) {
        Route::ForbiddenHost
    } else if method != "GET"@ {
        Route::MethodNotAllowed
    } else if token matches Some(t) && path != "/health"@ && !bearer_ok(req, t) {
        Route::Unauthorized
    } else if path == "/metrics"@ {
        Route::Metrics
    } else if path == "/health"@ {
        Route::Health
    } else if path == "/"@ {
        Route::Json
    } else {
        Route::NotFound
    }
}

/// Whether `s` holds exactly the characters of `lit`.
pub fn str_is(s: &String, lit: &str) -> (r: bool)
    ensures
        r == (s@ == lit@),
{
    chars_eq(&chars_of(s.as_str()), &chars_of(lit))
}

/// Decide what the request `req` is answered.
pub fn route_request(req: &str, token: Option<&str>) -> (r: Route)
    ensures
        r == route_for(req@, opt_str_view(token)),
{
    let (method, path) = parse_request_line(req);
    if token.is_none() && !host_is_loopback(req) {
        return Route::ForbiddenHost;
    }
    if !str_is(&method, "GET") {
        return Route::MethodNotAllowed;
    }
    match token {
        Some(expected) => {
            if !str_is(&path, "/health") && !bearer_authorized(req, expected) {
                return Route::Unauthorized;
            }
        },
        None => {},
    }
    if str_is(&path, "/metrics") {
        Route::Metrics
    } else if str_is(&path, "/health") {
        Route::Health
    } else if str_is(&path, "/") {
        Route::Json
    } else {
        Route::NotFound
    }
}

/// The path of a parsed request line never holds a query string: it is empty
/// or starts with `/` and has no `?`; the method is empty exactly when the path is.
pub proof fn law_request_path_clean(req: Seq<char>)
    ensures
        ({
            let (method, path) = request_line_parts(req);
            &&& !has_char(path, '?')
            &&& (path.len() == 0 || path[0] == '/')
            &&& (method.len() == 0 <==> path.len() == 0)
        }),
{
    let w = words(first_line(req));
    let method = if w.len() > 0 { w[0] } else { seq![] };
    let raw = if w.len() > 1 { w[1] } else { seq![] };
    if !(method.len() == 0 || raw.len() == 0 || raw[0] != '/') {
        if has_char(raw, '?') {
            lemma_first_index(raw, '?');
            let k = first_index(raw, '?');
            assert(k > 0);
            let p = raw.take(k);
            assert(p[0] == raw[0]);
            if has_char(p, '?') {
                let j = choose|j: int| 0 <= j < p.len() && p[j] == '?';
                assert(raw[j] == '?');
            }
        }
    }
}

/// `/health` stays open: it is never refused for want of the bearer token.
pub proof fn law_health_open(req: Seq<char>, token: Option<Seq<char>>)
    requires
        request_line_parts(req).1 == "/health"@,
    ensures
        route_for(req, token) != Route::Unauthorized,
{
}

/// Without a token the server is loopback-only: a request whose `Host` header is
/// not local is answered 403, whatever it asks for.
pub proof fn law_foreign_host_forbidden(req: Seq<char>)
    requires
        !host_scan(header_lines(req)),
    ensures
        route_for(req, None) == Route::ForbiddenHost,
{
}

/// With a token the `Host` check gives way to the token: no request is refused
/// for its `Host` header.
pub proof fn law_token_mode_ignores_host(req: Seq<char>, t: Seq<char>)
    ensures
        route_for(req, Some(t)) != Route::ForbiddenHost,
{
}

/// With a token, GPU data (`/`, `/metrics`) and 404s go only to requests that
/// carry it.
pub proof fn law_token_guards_data(req: Seq<char>, t: Seq<char>)
    requires
        route_for(req, Some(t)) is Metrics || route_for(req, Some(t)) is Json || route_for(
            req,
            Some(t),
        ) is NotFound,
    ensures
        bearer_ok(req, t),
{
    reveal_strlit("/health");
    reveal_strlit("/metrics");
    reveal_strlit("/");
    assert("/health"@.len() == 7 && "/metrics"@.len() == 8 && "/"@.len() == 1);
}

/// Only `GET` is ever served: any answer other than 403, 405 and 401 goes to a
/// `GET` request.
pub proof fn law_only_get_served(req: Seq<char>, token: Option<Seq<char>>)
    requires
        !(route_for(req, token) is ForbiddenHost || route_for(req, token) is MethodNotAllowed
            || route_for(req, token) is Unauthorized),
    ensures
        request_line_parts(req).0 == "GET"@,
{
}

/// The message of the refusal to serve a remote bind without a token.
pub open spec fn remote_bind_refusal(listen: Seq<char>, port: u16) -> Seq<char> {
    "refusing unauthenticated remote bind on "@ + listen + ":"@ + radix_digits(port as nat, 10)
        + " \u{2014} set --token/--token-file or GPU_SMI_TOKEN"@
}

/// Fail closed: a bind that is not loopback needs a bearer token. Gives whether
/// the bind is remote, or the refusal.
pub fn check_bind(listen: &str, port: u16, has_token: bool) -> (r: Result<bool, String>)
    ensures
        ({
            let remote = !is_loopback_name(lower_text(bind_host_text(listen@)));
            match r {
                Ok(b) => b == remote && (has_token || !remote),
                Err(m) => remote && !has_token && m@ == remote_bind_refusal(listen@, port),
            }
        }),
{
    let remote = !is_loopback_bind(listen);
    if remote && !has_token {
        let mut m = string_from("refusing unauthenticated remote bind on ");
        append_str(&mut m, listen);
        append_str(&mut m, ":");
        append_chars(&mut m, &radix_chars(port as u64, 10));
        append_str(&mut m, " \u{2014} set --token/--token-file or GPU_SMI_TOKEN");
        return Err(m);
    }
    Ok(remote)
}

// ----------------------------------------------------------------------
// Responses
// ----------------------------------------------------------------------

/// The fixed headers that end every response.
pub open spec fn trailer_headers() -> Seq<char> {
    "\r\nX-Content-Type-Options: nosniff\r\nCache-Control: no-store\r\nConnection: close\r\n\r\n"@
}

/// A response: status line, content type, the body's length in bytes, the fixed
/// headers, and the body.
pub open spec fn response_text(status: Seq<char>, ctype: Seq<char>, body: Seq<char>) -> Seq<char> {
    status + "\r\nContent-Type: "@ + ctype + "\r\nContent-Length: "@ + radix_digits(
        (utf8_len(body) as usize) as nat,
        10,
    ) + trailer_headers() + body
}

/// The length of `s` in bytes, as `str::len` gives it.
fn byte_len(s: &str) -> (n: usize)
    ensures
        n == utf8_len(s@) as usize,
{
    s.len()
}

/// Write a response with the given status line, content type and body.
pub fn response(status: &str, ctype: &str, body: &str) -> (r: String)
    ensures
        r@ == response_text(status@, ctype@, body@),
{
    let mut r = string_from(status);
    append_str(&mut r, "\r\nContent-Type: ");
    append_str(&mut r, ctype);
    append_str(&mut r, "\r\nContent-Length: ");
    append_chars(&mut r, &radix_chars(byte_len(body) as u64, 10));
    append_str(&mut r, "\r\nX-Content-Type-Options: nosniff\r\nCache-Control: no-store\r\nConnection: close\r\n\r\n");
    append_str(&mut r, body);
    assert(r@ =~= response_text(status@, ctype@, body@));
    r
}

/// A successful answer: status `200 OK`, the content type, the body's length
/// in bytes, `Access-Control-Allow-Origin: *` (the API is open to scripts of
/// any origin), the fixed headers, and the body.
pub open spec fn served_text(ctype: Seq<char>, body: Seq<char>) -> Seq<char> {
    "HTTP/1.1 200 OK\r\nContent-Type: "@ + ctype + "\r\nContent-Length: "@ + radix_digits(
        (utf8_len(body) as usize) as nat,
        10,
    ) + "\r\nAccess-Control-Allow-Origin: *"@ + trailer_headers() + body
}

/// Write a successful answer with the given content type and body.
pub fn served_response(ctype: &str, body: &str) -> (r: String)
    ensures
        r@ == served_text(ctype@, body@),
{
    let mut r = string_from("HTTP/1.1 200 OK\r\nContent-Type: ");
    append_str(&mut r, ctype);
    append_str(&mut r, "\r\nContent-Length: ");
    append_chars(&mut r, &radix_chars(byte_len(body) as u64, 10));
    append_str(&mut r, "\r\nAccess-Control-Allow-Origin: *");
    append_str(&mut r, "\r\nX-Content-Type-Options: nosniff\r\nCache-Control: no-store\r\nConnection: close\r\n\r\n");
    append_str(&mut r, body);
    assert(r@ =~= served_text(ctype@, body@));
    r
}

/// The 401 response, which also names the `Bearer` scheme.
pub open spec fn unauthorized_text() -> Seq<char> {
    let body = "{\"error\":\"unauthorized\"}"@;
    "HTTP/1.1 401 Unauthorized\r\nContent-Type: application/json\r\nContent-Length: "@
        + radix_digits((utf8_len(body) as usize) as nat, 10) + "\r\nWWW-Authenticate: Bearer"@
        + trailer_headers() + body
}

/// The whole answer for the routes whose answer does not depend on the GPUs
/// (`None` for `/metrics` and `/`).
pub open spec fn canned_text(route: Route) -> Option<Seq<char>> {
    match route {
        Route::ForbiddenHost => Some(
            response_text(
                "HTTP/1.1 403 Forbidden"@,
                "application/json"@,
                "{\"error\":\"forbidden host\"}"@,
            ),
        ),
        Route::MethodNotAllowed => Some(
            response_text(
                "HTTP/1.1 405 Method Not Allowed"@,
                "application/json"@,
                "{\"error\":\"method not allowed\"}"@,
            ),
        ),
        Route::Unauthorized => Some(unauthorized_text()),
        Route::Health => Some(served_text("application/json"@, "{\"status\":\"ok\"}"@)),
        Route::NotFound => Some(
            response_text(
                "HTTP/1.1 404 Not Found"@,
                "application/json"@,
                "{\"error\":\"not found\"}"@,
            ),
        ),
        Route::Metrics => None,
        Route::Json => None,
    }
}

/// The answer for a route that does not depend on the GPUs.
pub fn canned_response(route: Route) -> (r: Option<String>)
    ensures
        match r {
            Some(t) => canned_text(route) == Some(t@),
            None => canned_text(route) is None,
        },
{
    match route {
        Route::ForbiddenHost => Some(
            response("HTTP/1.1 403 Forbidden", "application/json", "{\"error\":\"forbidden host\"}"),
        ),
        Route::MethodNotAllowed => Some(
            response(
                "HTTP/1.1 405 Method Not Allowed",
                "application/json",
                "{\"error\":\"method not allowed\"}",
            ),
        ),
        Route::Unauthorized => {
            let body = "{\"error\":\"unauthorized\"}";
            let mut r = string_from(
                "HTTP/1.1 401 Unauthorized\r\nContent-Type: application/json\r\nContent-Length: ",
            );
            append_chars(&mut r, &radix_chars(byte_len(body) as u64, 10));
            append_str(&mut r, "\r\nWWW-Authenticate: Bearer");
            append_str(&mut r, "\r\nX-Content-Type-Options: nosniff\r\nCache-Control: no-store\r\nConnection: close\r\n\r\n");
            append_str(&mut r, body);
            assert(r@ =~= unauthorized_text());
            Some(r)
        },
        Route::Health => Some(served_response("application/json", "{\"status\":\"ok\"}")),
        Route::NotFound => Some(
            response("HTTP/1.1 404 Not Found", "application/json", "{\"error\":\"not found\"}"),
        ),
        Route::Metrics => None,
        Route::Json => None,
    }
}

// ----------------------------------------------------------------------
// Prometheus exposition
// ----------------------------------------------------------------------

/// The `id` label of a GPU.
pub open spec fn id_label(id: u32) -> Seq<char> {
    "id=\""@ + radix_digits(id as nat, 10) + "\""@
}

/// One sample line: metric name, labels in braces, a space, the value.
pub open spec fn metric_line(name: Seq<char>, labels: Seq<char>, value: Seq<char>) -> Seq<char> {
    name + "{"@ + labels + "} "@ + value + "\n"@
}

/// A sample line for an optional integer reading (nothing when absent).
pub open spec fn opt_u32_line(name: Seq<char>, id: u32, v: Option<u32>) -> Seq<char> {
    match v {
        Some(x) => metric_line(name, id_label(id), radix_digits(x as nat, 10)),
        None => seq![],
    }
}

/// A sample line for an optional reading in thousandths (nothing when absent).
pub open spec fn opt_milli_line(name: Seq<char>, id: u32, v: Option<int>) -> Seq<char> {
    match v {
        Some(x) => metric_line(name, id_label(id), milli_digits(x)),
        None => seq![],
    }
}

/// An optional `i64` as an optional integer.
pub open spec fn opt_i64_int(v: Option<i64>) -> Option<int> {
    match v {
        Some(x) => Some(x as int),
        None => None,
    }
}

/// An optional `u64` as an optional integer.
pub open spec fn opt_u64_int(v: Option<u64>) -> Option<int> {
    match v {
        Some(x) => Some(x as int),
        None => None,
    }
}

/// The sample line of one process.
pub open spec fn process_line(id: u32, p: ProcessInfo) -> Seq<char> {
    metric_line(
        "amd_gpu_process_mem_mb"@,
        id_label(id) + ",pid=\""@ + radix_digits(p.pid as nat, 10) + "\",name=\""@ + prom_escaped(
            p.name@,
        ) + "\",type=\""@ + p.proc_type@ + "\""@,
        radix_digits(p.mem_used_mb as nat, 10),
    )
}

/// The sample lines of the processes `ps` of GPU `id`.
pub open spec fn process_lines(id: u32, ps: Seq<ProcessInfo>) -> Seq<char>
    decreases ps.len(),
{
    if ps.len() == 0 {
        seq![]
    } else {
        process_lines(id, ps.drop_last()) + process_line(id, ps.last())
    }
}

/// The sample lines of one GPU: memory always, sensors when present, then one
/// line per process. Temperatures are in degrees and power in watts.
pub open spec fn gpu_metrics(g: GpuInfo) -> Seq<char> {
    memory_lines(g) + sensor_lines(g) + process_lines(g.index, g.processes@)
}

/// The exposition for all GPUs, in order.
pub open spec fn metrics_text(gs: Seq<GpuInfo>) -> Seq<char>
    decreases gs.len(),
{
    if gs.len() == 0 {
        seq![]
    } else {
        metrics_text(gs.drop_last()) + gpu_metrics(gs.last())
    }
}

/// Append one sample line.
fn push_metric(out: &mut String, name: &str, labels: &String, value: &String)
    ensures
        final(out)@ == old(out)@ + metric_line(name@, labels@, value@),
{
    append_str(out, name);
    append_str(out, "{");
    append_str(out, labels.as_str());
    append_str(out, "} ");
    append_str(out, value.as_str());
    append_str(out, "\n");
    assert(out@ =~= old(out)@ + metric_line(name@, labels@, value@));
}

/// The `id` label of GPU `id`.
fn id_label_string(id: u32) -> (s: String)
    ensures
        s@ == id_label(id),
{
    let mut s = string_from("id=\"");
    append_chars(&mut s, &radix_chars(id as u64, 10));
    append_str(&mut s, "\"");
    s
}

/// Append the sample line of one process.
fn push_process_line(out: &mut String, id: u32, p: &ProcessInfo)
    ensures
        final(out)@ == old(out)@ + process_line(id, *p),
{
    let mut labels = id_label_string(id);
    append_str(&mut labels, ",pid=\"");
    append_chars(&mut labels, &radix_chars(p.pid as u64, 10));
    append_str(&mut labels, "\",name=\"");
    let esc = prom_escape(p.name.as_str());
    append_str(&mut labels, esc.as_str());
    append_str(&mut labels, "\",type=\"");
    append_str(&mut labels, p.proc_type.as_str());
    append_str(&mut labels, "\"");
    let value = dec_string(p.mem_used_mb as u64);
    push_metric(out, "amd_gpu_process_mem_mb", &labels, &value);
    assert(labels@ =~= id_label(id) + ",pid=\""@ + radix_digits(p.pid as nat, 10) + "\",name=\""@
        + prom_escaped(p.name@) + "\",type=\""@ + p.proc_type@ + "\""@);
}

/// Append the sample line of an optional integer reading.
fn push_opt_u32(out: &mut String, name: &str, id: u32, label: &String, v: Option<u32>)
    requires
        label@ == id_label(id),
    ensures
        final(out)@ == old(out)@ + opt_u32_line(name@, id, v),
{
    match v {
        Some(x) => push_metric(out, name, label, &dec_string(x as u64)),
        None => {
            assert(out@ =~= old(out)@ + opt_u32_line(name@, id, v));
        },
    }
}

/// Append the sample line of an optional reading in thousandths.
fn push_opt_milli(out: &mut String, name: &str, id: u32, label: &String, v: Option<i64>)
    requires
        label@ == id_label(id),
    ensures
        final(out)@ == old(out)@ + opt_milli_line(name@, id, opt_i64_int(v)),
{
    match v {
        Some(x) => push_metric(out, name, label, &milli_string(x)),
        None => {
            assert(out@ =~= old(out)@ + opt_milli_line(name@, id, opt_i64_int(v)));
        },
    }
}

/// Append the sample line of an optional unsigned reading in thousandths.
fn push_opt_milli_u64(out: &mut String, name: &str, id: u32, label: &String, v: Option<u64>)
    requires
        label@ == id_label(id),
    ensures
        final(out)@ == old(out)@ + opt_milli_line(name@, id, opt_u64_int(v)),
{
    match v {
        Some(x) => push_metric(out, name, label, &milli_string_u64(x)),
        None => {
            assert(out@ =~= old(out)@ + opt_milli_line(name@, id, opt_u64_int(v)));
        },
    }
}

/// The memory lines of one GPU: its total, used and pinned memory.
pub open spec fn memory_lines(g: GpuInfo) -> Seq<char> {
    metric_line(
        "amd_gpu_vram_total_mb"@,
        id_label(g.index),
        radix_digits(g.vram_total_mb as nat, 10),
    ) + metric_line(
        "amd_gpu_vram_used_mb"@,
        id_label(g.index),
        radix_digits(g.vram_used_mb as nat, 10),
    ) + metric_line(
        "amd_gpu_vram_pinned_mb"@,
        id_label(g.index),
        radix_digits(g.vram_pinned_mb as nat, 10),
    )
}

/// The sensor lines of one GPU.
pub open spec fn sensor_lines(g: GpuInfo) -> Seq<char> {
    let id = g.index;
    opt_milli_line("amd_gpu_temp_edge_c"@, id, opt_i64_int(g.temp_edge_mc)) + opt_milli_line(
        "amd_gpu_temp_hotspot_c"@,
        id,
        opt_i64_int(g.temp_hotspot_mc),
    ) + opt_u32_line("amd_gpu_gfx_clock_mhz"@, id, g.gfx_clock_mhz) + opt_u32_line(
        "amd_gpu_mem_clock_mhz"@,
        id,
        g.mem_clock_mhz,
    ) + opt_u32_line("amd_gpu_util_percent"@, id, g.gfx_util_percent) + opt_milli_line(
        "amd_gpu_power_watts"@,
        id,
        opt_u64_int(g.power_mw),
    )
}

/// Append the memory lines of one GPU.
fn push_memory_lines(out: &mut String, g: &GpuInfo)
    ensures
        final(out)@ == old(out)@ + memory_lines(*g),
{
    let id = g.index;
    let label = id_label_string(id);
    push_metric(out, "amd_gpu_vram_total_mb", &label, &dec_string(g.vram_total_mb as u64));
    push_metric(out, "amd_gpu_vram_used_mb", &label, &dec_string(g.vram_used_mb as u64));
    push_metric(out, "amd_gpu_vram_pinned_mb", &label, &dec_string(g.vram_pinned_mb as u64));
    assert(out@ =~= old(out)@ + memory_lines(*g));
}

/// Append the sensor lines of one GPU.
#[verifier::spinoff_prover]
#[verifier::rlimit(40)]
fn push_sensor_lines(out: &mut String, g: &GpuInfo)
    ensures
        final(out)@ == old(out)@ + sensor_lines(*g),
{
    let id = g.index;
    let label = id_label_string(id);
    push_opt_milli(out, "amd_gpu_temp_edge_c", id, &label, g.temp_edge_mc);
    push_opt_milli(out, "amd_gpu_temp_hotspot_c", id, &label, g.temp_hotspot_mc);
    push_opt_u32(out, "amd_gpu_gfx_clock_mhz", id, &label, g.gfx_clock_mhz);
    push_opt_u32(out, "amd_gpu_mem_clock_mhz", id, &label, g.mem_clock_mhz);
    push_opt_u32(out, "amd_gpu_util_percent", id, &label, g.gfx_util_percent);
    push_opt_milli_u64(out, "amd_gpu_power_watts", id, &label, g.power_mw);
    assert(out@ =~= old(out)@ + sensor_lines(*g));
}

/// Append the sample lines of one GPU.
pub fn push_gpu_metrics(out: &mut String, g: &GpuInfo)
    ensures
        final(out)@ == old(out)@ + gpu_metrics(*g),
{
    let id = g.index;
    push_memory_lines(out, g);
    push_sensor_lines(out, g);
    let ghost mid = out@;
    let mut i: usize = 0;
    assert(g.processes@.take(0) =~= Seq::<ProcessInfo>::empty());
    while i < g.processes.len()
        invariant
            i <= g.processes.len(),
            out@ == mid + process_lines(id, g.processes@.take(i as int)),
        decreases g.processes.len() - i,
    {
        push_process_line(out, id, &g.processes[i]);
        assert(g.processes@.take(i + 1).drop_last() =~= g.processes@.take(i as int));
        i = i + 1;
    }
    assert(g.processes@.take(g.processes.len() as int) =~= g.processes@);
    assert(out@ =~= old(out)@ + gpu_metrics(*g));
}

/// The Prometheus exposition of `gpus`.
pub fn render_metrics(gpus: &Vec<GpuInfo>) -> (r: String)
    ensures
        r@ == metrics_text(gpus@),
{
    let mut out = String::new();
    let mut i: usize = 0;
    assert(gpus@.take(0) =~= Seq::<GpuInfo>::empty());
    while i < gpus.len()
        invariant
            i <= gpus.len(),
            out@ == metrics_text(gpus@.take(i as int)),
        decreases gpus.len() - i,
    {
        push_gpu_metrics(&mut out, &gpus[i]);
        assert(gpus@.take(i + 1).drop_last() =~= gpus@.take(i as int));
        i = i + 1;
    }
    assert(gpus@.take(gpus.len() as int) =~= gpus@);
    out
}

// ----------------------------------------------------------------------
// Bearer token configuration
// ----------------------------------------------------------------------

/// Where the bearer token comes from, by precedence: `--token-file`, then
/// `$GPU_SMI_TOKEN_FILE`, then `--token`, then `$GPU_SMI_TOKEN`.
pub enum TokenPlan {
    /// Read the file named by `--token-file`.
    ReadArgFile,
    /// Read the file named by `$GPU_SMI_TOKEN_FILE` (trimmed).
    ReadEnvFile(String),
    /// Use the trimmed `--token` value (which shows in process listings).
    FromArg(String),
    /// Refuse: the trimmed `--token` value is shorter than 16 bytes.
    ArgTooShort(String),
    /// Use the trimmed `$GPU_SMI_TOKEN` value.
    FromEnv(String),
    /// Refuse: the trimmed `$GPU_SMI_TOKEN` value is shorter than 16 bytes.
    EnvTooShort(String),
    /// Serve without a token.
    NoToken,
}

/// The views of an optional `String`.
pub open spec fn opt_string_view(o: Option<String>) -> Option<Seq<char>> {
    match o {
        Some(x) => Some(x@),
        None => None,
    }
}

/// The refusal of a short `--token`.
pub open spec fn arg_too_short_text() -> Seq<char> {
    "--token too short (need >=16 chars, use `openssl rand -hex 32`)"@
}

/// The refusal of a short `$GPU_SMI_TOKEN`.
pub open spec fn env_too_short_text() -> Seq<char> {
    "GPU_SMI_TOKEN too short (need >=16 chars)"@
}

/// `r` is the plan for the given flags and environment: `--token-file` wins;
/// then a non-blank `$GPU_SMI_TOKEN_FILE`; then `--token`, trimmed and at least
/// 16 bytes; then a non-blank `$GPU_SMI_TOKEN`, trimmed and at least 16 bytes;
/// else no token.
pub open spec fn token_plan_is(
    r: TokenPlan,
    has_token_file_arg: bool,
    env_token_file: Option<Seq<char>>,
    token_arg: Option<Seq<char>>,
    env_token: Option<Seq<char>>,
) -> bool {
    if has_token_file_arg {
        r is ReadArgFile
    } else if env_token_file matches Some(p) && trim(p).len() > 0 {
        r matches TokenPlan::ReadEnvFile(q) && q@ == trim(env_token_file->0)
    } else if token_arg is Some {
        if utf8_len(trim(token_arg->0)) < 16 {
            r matches TokenPlan::ArgTooShort(m) && m@ == arg_too_short_text()
        } else {
            r matches TokenPlan::FromArg(x) && x@ == trim(token_arg->0)
        }
    } else if env_token matches Some(e) && trim(e).len() > 0 {
        if utf8_len(trim(env_token->0)) < 16 {
            r matches TokenPlan::EnvTooShort(m) && m@ == env_too_short_text()
        } else {
            r matches TokenPlan::FromEnv(x) && x@ == trim(env_token->0)
        }
    } else {
        r is NoToken
    }
}

/// Token precedence: `--token-file` > `$GPU_SMI_TOKEN_FILE` > `--token` >
/// `$GPU_SMI_TOKEN`. Flag and environment values are trimmed; a token under 16
/// bytes is refused.
pub fn resolve_token(
    has_token_file_arg: bool,
    env_token_file: Option<String>,
    token_arg: Option<String>,
    env_token: Option<String>,
) -> (r: TokenPlan)
    ensures
        token_plan_is(
            r,
            has_token_file_arg,
            opt_string_view(env_token_file),
            opt_string_view(token_arg),
            opt_string_view(env_token),
        ),
{
    if has_token_file_arg {
        return TokenPlan::ReadArgFile;
    }
    match &env_token_file {
        Some(p) => {
            let t = trim_chars(&chars_of(p.as_str()));
            if t.len() > 0 {
                return TokenPlan::ReadEnvFile(string_of(&t));
            }
        },
        None => {},
    }
    match &token_arg {
        Some(t) => {
            let v = trim_chars(&chars_of(t.as_str()));
            if utf8_len_le(&v, 15) {
                return TokenPlan::ArgTooShort(
                    string_from("--token too short (need >=16 chars, use `openssl rand -hex 32`)"),
                );
            }
            return TokenPlan::FromArg(string_of(&v));
        },
        None => {},
    }
    match &env_token {
        Some(e) => {
            let v = trim_chars(&chars_of(e.as_str()));
            if v.len() > 0 {
                if utf8_len_le(&v, 15) {
                    return TokenPlan::EnvTooShort(
                        string_from("GPU_SMI_TOKEN too short (need >=16 chars)"),
                    );
                }
                return TokenPlan::FromEnv(string_of(&v));
            }
        },
        None => {},
    }
    TokenPlan::NoToken
}

/// The refusal of a short token read from the file `path`.
pub open spec fn file_too_short_text(path: Seq<char>) -> Seq<char> {
    "token in "@ + path + " too short (need >=16 chars, use `openssl rand -hex 32`)"@
}

/// The token held in a token file: its trimmed contents, refused when shorter
/// than 16 bytes (a trailing newline in the file is fine).
pub fn token_from_file(contents: &str, path: &str) -> (r: Result<String, String>)
    ensures
        match r {
            Ok(t) => utf8_len(trim(contents@)) >= 16 && t@ == trim(contents@),
            Err(m) => utf8_len(trim(contents@)) < 16 && m@ == file_too_short_text(path@),
        },
{
    let v = trim_chars(&chars_of(contents));
    if utf8_len_le(&v, 15) {
        let mut m = string_from("token in ");
        append_str(&mut m, path);
        append_str(&mut m, " too short (need >=16 chars, use `openssl rand -hex 32`)");
        return Err(m);
    }
    Ok(string_of(&v))
}

/// The warning about a token file whose permission bits `mode` let group or
/// others read it.
pub open spec fn permissive_warning(path: Seq<char>, mode: u32) -> Seq<char> {
    "warning: token file "@ + path + " has mode "@ + radix_digits(mode as nat, 8)
        + " (group/other-readable); run `chmod 600 "@ + path + "`"@
}

/// The warning for a token file with the given file mode bits, if group or
/// others may access it (mode shown in octal, permission bits only).
pub fn warn_if_token_file_permissive(path: &str, mode_bits: u32) -> (r: Option<String>)
    ensures
        ({
            let mode = mode_bits & 0o777;
            match r {
                Some(m) => mode & 0o077 != 0 && m@ == permissive_warning(path@, mode),
                None => mode & 0o077 == 0,
            }
        }),
{
    let mode = mode_bits & 0o777;
    if mode & 0o077 == 0 {
        return None;
    }
    let mut m = string_from("warning: token file ");
    append_str(&mut m, path);
    append_str(&mut m, " has mode ");
    append_chars(&mut m, &radix_chars(mode as u64, 8));
    append_str(&mut m, " (group/other-readable); run `chmod 600 ");
    append_str(&mut m, path);
    append_str(&mut m, "`");
    Some(m)
}

// ----------------------------------------------------------------------
// Laws of the exposition, the routing and the token choice
// ----------------------------------------------------------------------

/// The exposition lists every GPU in turn: the empty list gives nothing, and a
/// list with one more GPU gives the exposition of the list followed by the new
/// GPU's own lines. So every GPU's lines appear, in the order of the list.
pub proof fn law_metrics_every_gpu(gs: Seq<GpuInfo>, g: GpuInfo)
    ensures
        metrics_text(Seq::<GpuInfo>::empty()) == Seq::<char>::empty(),
        metrics_text(gs.push(g)) == metrics_text(gs) + gpu_metrics(g),
        metrics_text(gs.push(g)).len() == metrics_text(gs).len() + gpu_metrics(g).len(),
{
    assert(gs.push(g).drop_last() =~= gs);
    assert(gs.push(g).last() == g);
}

/// The lines of every GPU begin with its total-memory sample,
/// `amd_gpu_vram_total_mb{id="<index>"} <MiB>`.
pub proof fn law_gpu_metrics_start_with_total(g: GpuInfo)
    ensures
        ({
            let head = "amd_gpu_vram_total_mb{id=\""@ + radix_digits(g.index as nat, 10) + "\"} "@
                + radix_digits(g.vram_total_mb as nat, 10) + "\n"@;
            &&& gpu_metrics(g).len() >= head.len()
            &&& gpu_metrics(g).subrange(0, head.len() as int) == head
        }),
{
    let head = "amd_gpu_vram_total_mb{id=\""@ + radix_digits(g.index as nat, 10) + "\"} "@
        + radix_digits(g.vram_total_mb as nat, 10) + "\n"@;
    let first = metric_line(
        "amd_gpu_vram_total_mb"@,
        id_label(g.index),
        radix_digits(g.vram_total_mb as nat, 10),
    );
    reveal_strlit("{");
    reveal_strlit("} ");
    reveal_strlit("\"} ");
    reveal_strlit("id=\"");
    reveal_strlit("\"");
    reveal_strlit("amd_gpu_vram_total_mb");
    reveal_strlit("amd_gpu_vram_total_mb{id=\"");
    assert("amd_gpu_vram_total_mb{id=\""@ =~= "amd_gpu_vram_total_mb"@ + "{"@ + "id=\""@);
    assert("\"} "@ =~= "\""@ + "} "@);
    assert(first =~= head);
    assert(gpu_metrics(g) =~= first + (gpu_metrics(g).subrange(first.len() as int, gpu_metrics(g).len() as int)));
}

/// Once a `GET` request is let through, the page depends on its path alone,
/// with a token and a matching `Bearer` header just as on a local request
/// without a token: `/metrics` gives the exposition, `/` the JSON, `/health`
/// the status, any other path 404.
pub proof fn law_page_by_path(req: Seq<char>, token: Option<Seq<char>>)
    requires
        request_line_parts(req).0 == "GET"@,
        match token {
            Some(t) => bearer_ok(req, t),
            None => host_scan(header_lines(req)),
        },
    ensures
        ({
            let path = request_line_parts(req).1;
            &&& path == "/metrics"@ ==> route_for(req, token) == Route::Metrics
            &&& path == "/"@ ==> route_for(req, token) == Route::Json
            &&& path == "/health"@ ==> route_for(req, token) == Route::Health
            &&& (path != "/metrics"@ && path != "/"@ && path != "/health"@) ==> route_for(req, token)
                == Route::NotFound
        }),
{
    reveal_strlit("/health");
    reveal_strlit("/metrics");
    reveal_strlit("/");
    assert("/health"@.len() == 7 && "/metrics"@.len() == 8 && "/"@.len() == 1);
}

/// `/health` is answered to every `GET` that is let past the `Host` guard,
/// token or no token, `Bearer` header or none.
pub proof fn law_health_served(req: Seq<char>, token: Option<Seq<char>>)
    requires
        request_line_parts(req).0 == "GET"@,
        request_line_parts(req).1 == "/health"@,
        token is Some || host_scan(header_lines(req)),
    ensures
        route_for(req, token) == Route::Health,
{
    reveal_strlit("/health");
    reveal_strlit("/metrics");
    assert("/health"@.len() == 7 && "/metrics"@.len() == 8);
}

/// `--token-file` outranks every other source.
pub proof fn law_token_file_flag_first(
    r: TokenPlan,
    env_token_file: Option<Seq<char>>,
    token_arg: Option<Seq<char>>,
    env_token: Option<Seq<char>>,
)
    requires
        token_plan_is(r, true, env_token_file, token_arg, env_token),
    ensures
        r is ReadArgFile,
{
}

/// A non-blank `$GPU_SMI_TOKEN_FILE` outranks `--token` and `$GPU_SMI_TOKEN`.
pub proof fn law_env_file_before_tokens(
    r: TokenPlan,
    p: Seq<char>,
    token_arg: Option<Seq<char>>,
    env_token: Option<Seq<char>>,
)
    requires
        token_plan_is(r, false, Some(p), token_arg, env_token),
        trim(p).len() > 0,
    ensures
        r matches TokenPlan::ReadEnvFile(q) && q@ == trim(p),
{
}

/// Without a token file, a `--token` of at least 16 bytes (trimmed) is the
/// token whatever `$GPU_SMI_TOKEN` holds, and a shorter one is refused whatever
/// it holds: the environment token counts only when there is no `--token`.
pub proof fn law_token_flag_before_env(
    r: TokenPlan,
    env_token_file: Option<Seq<char>>,
    a: Seq<char>,
    env_token: Option<Seq<char>>,
)
    requires
        token_plan_is(r, false, env_token_file, Some(a), env_token),
        !(env_token_file matches Some(p) && trim(p).len() > 0),
    ensures
        utf8_len(trim(a)) >= 16 ==> (r matches TokenPlan::FromArg(x) && x@ == trim(a)),
        utf8_len(trim(a)) < 16 ==> r is ArgTooShort,
{
}

} // verus!
