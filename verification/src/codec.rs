//! Character-level primitives for the shell's wire format.
//!
//! The front-end and the native side exchange commands, events and results as
//! compact JSON text.  Everything here works on the canonical form of that
//! text: strings are quoted with the escapes that `JSON.stringify` emits,
//! numbers are plain decimal without leading zeros, and no whitespace stands
//! between tokens.  Writers produce exactly the canonical text of a value and
//! parsers accept exactly it, which is what makes decoding after encoding
//! return the original value.

use vstd::prelude::*;

verus! {

/// `t` stands in `inp` at position `pos`.
pub open spec fn lit_at(inp: Seq<char>, pos: int, t: Seq<char>) -> bool {
    &&& 0 <= pos
    &&& pos + t.len() <= inp.len()
    &&& inp.subrange(pos, pos + t.len()) == t
}

/// Appends one character to a string.
///
/// Relies on `String::push` of std: it appends the given `char` to the end of
/// the `String`.
#[verifier::external_body]
pub(crate) fn push_char(s: &mut String, c: char)
    ensures
        final(s)@ == old(s)@.push(c),
{
    s.push(c);
}

/// Copies the characters of a string slice into a vector, so that parsers can
/// address them by position.
pub fn chars_of(s: &str) -> (r: Vec<char>)
    ensures
        r@ == s@,
{
    let n: usize = s.unicode_len();
    let mut r: Vec<char> = Vec::new();
    let mut i: usize = 0;
    while i < n
        invariant
            i <= n,
            n == s@.len(),
            r@ == s@.take(i as int),
        decreases n - i,
    {
        r.push(s.get_char(i));
        assert(r@ =~= s@.take(i + 1 as int));
        i = i + 1;
    }
    assert(r@ =~= s@);
    r
}

/// Matches the literal `t` at `pos`; consumes exactly `t` or nothing.
pub fn tag(input: &Vec<char>, pos: usize, t: &str) -> (r: Option<usize>)
    requires
        pos <= input@.len(),
    ensures
        r matches Some(q) ==> lit_at(input@, pos as int, t@) && q == pos + t@.len(),
        lit_at(input@, pos as int, t@) ==> r is Some,
{
    let tlen: usize = t.unicode_len();
    let n: usize = input.len();
    if n - pos < tlen {
        assert(!lit_at(input@, pos as int, t@));
        return None;
    }
    let mut i: usize = 0;
    while i < tlen
        invariant
            i <= tlen,
            tlen == t@.len(),
            n == input@.len(),
            pos + tlen <= n,
            forall|k: int| 0 <= k < i ==> input@[pos + k] == t@[k],
        decreases tlen - i,
    {
        if input[pos + i] != t.get_char(i) {
            assert(!lit_at(input@, pos as int, t@)) by {
                if lit_at(input@, pos as int, t@) {
                    assert(input@.subrange(pos as int, pos + t@.len())[i as int] == t@[i as int]);
                }
            }
            return None;
        }
        i = i + 1;
    }
    assert(lit_at(input@, pos as int, t@)) by {
        assert(input@.subrange(pos as int, pos + t@.len()) =~= t@);
    }
    Some(pos + tlen)
}

/// Compares two string slices character by character.
pub fn str_eq(a: &str, b: &str) -> (r: bool)
    ensures
        r == (a@ == b@),
{
    let na: usize = a.unicode_len();
    let nb: usize = b.unicode_len();
    if na != nb {
        return false;
    }
    let mut i: usize = 0;
    while i < na
        invariant
            i <= na,
            na == a@.len(),
            na == b@.len(),
            forall|k: int| 0 <= k < i ==> a@[k] == b@[k],
        decreases na - i,
    {
        if a.get_char(i) != b.get_char(i) {
            return false;
        }
        i = i + 1;
    }
    assert(a@ =~= b@);
    true
}

/// Two string views differ when they differ at one position.
pub proof fn lemma_str_neq(a: Seq<char>, b: Seq<char>, i: int)
    requires
        0 <= i < a.len(),
        i < b.len(),
        a[i] != b[i],
    ensures
        a != b,
{
}

/// The lower-case hexadecimal digit for `d` (`d < 16`).
pub open spec fn hex_lo(d: nat) -> char {
    if d == 0 { '0' } else if d == 1 { '1' } else if d == 2 { '2' } else if d == 3 { '3' }
    else if d == 4 { '4' } else if d == 5 { '5' } else if d == 6 { '6' } else if d == 7 { '7' }
    else if d == 8 { '8' } else if d == 9 { '9' } else if d == 10 { 'a' } else if d == 11 { 'b' }
    else if d == 12 { 'c' } else if d == 13 { 'd' } else if d == 14 { 'e' } else { 'f' }
}

/// How one character appears inside a canonical JSON string: the escapes that
/// `JSON.stringify` emits, and the character itself otherwise.
pub open spec fn esc_char(c: char) -> Seq<char> {
    if c == '"' { seq!['\\', '"'] }
    else if c == '\\' { seq!['\\', '\\'] }
    else if c == '\u{8}' { seq!['\\', 'b'] }
    else if c == '\u{c}' { seq!['\\', 'f'] }
    else if c == '\n' { seq!['\\', 'n'] }
    else if c == '\r' { seq!['\\', 'r'] }
    else if c == '\t' { seq!['\\', 't'] }
    else if (c as u32) < 32 {
        seq!['\\', 'u', '0', '0', hex_lo((c as u32 / 16) as nat), hex_lo((c as u32 % 16) as nat)]
    } else { seq![c] }
}

/// The body of a canonical JSON string: each character escaped in turn.
pub open spec fn esc_seq(s: Seq<char>) -> Seq<char>
    decreases s.len(),
{
    if s.len() == 0 { Seq::empty() } else { esc_char(s[0]) + esc_seq(s.skip(1)) }
}

/// The canonical JSON string for `s`: quoted and escaped.
pub open spec fn quoted(s: Seq<char>) -> Seq<char> {
    seq!['"'] + esc_seq(s) + seq!['"']
}

/// Escaping distributes over concatenation.
pub proof fn lemma_esc_append(a: Seq<char>, b: Seq<char>)
    ensures
        esc_seq(a + b) == esc_seq(a) + esc_seq(b),
    decreases a.len(),
{
    if a.len() == 0 {
        assert(a + b =~= b);
        assert(esc_seq(a) + esc_seq(b) =~= esc_seq(b));
    } else {
        assert((a + b).skip(1) =~= a.skip(1) + b);
        lemma_esc_append(a.skip(1), b);
        assert(esc_seq(a + b) =~= esc_seq(a) + esc_seq(b));
    }
}

/// Escaping one more character extends the escaped body.
pub proof fn lemma_esc_push(s: Seq<char>, c: char)
    ensures
        esc_seq(s.push(c)) == esc_seq(s) + esc_char(c),
{
    assert(s.push(c) =~= s + seq![c]);
    lemma_esc_append(s, seq![c]);
    assert(esc_seq(seq![c]) =~= esc_char(c)) by {
        assert(seq![c].skip(1) =~= Seq::<char>::empty());
        assert(esc_seq(Seq::<char>::empty()) =~= Seq::<char>::empty());
        assert(esc_seq(seq![c]) =~= esc_char(seq![c][0]) + esc_seq(seq![c].skip(1)));
    }
}

/// The lower-case hexadecimal digit for `d`, executable form.
fn hex_lo_exec(d: u32) -> (r: char)
    requires
        d < 16,
    ensures
        r == hex_lo(d as nat),
{
    if d == 0 { '0' } else if d == 1 { '1' } else if d == 2 { '2' } else if d == 3 { '3' }
    else if d == 4 { '4' } else if d == 5 { '5' } else if d == 6 { '6' } else if d == 7 { '7' }
    else if d == 8 { '8' } else if d == 9 { '9' } else if d == 10 { 'a' } else if d == 11 { 'b' }
    else if d == 12 { 'c' } else if d == 13 { 'd' } else if d == 14 { 'e' } else { 'f' }
}

/// Appends the canonical JSON string for `s`, quotes and escapes included.
pub fn write_qstr(out: &mut String, s: &str)
    ensures
        final(out)@ == old(out)@ + quoted(s@),
{
    push_char(out, '"');
    let n: usize = s.unicode_len();
    let mut i: usize = 0;
    while i < n
        invariant
            i <= n,
            n == s@.len(),
            out@ == old(out)@.push('"') + esc_seq(s@.take(i as int)),
        decreases n - i,
    {
        let c = s.get_char(i);
        if c == '"' {
            push_char(out, '\\');
            push_char(out, '"');
        } else if c == '\\' {
            push_char(out, '\\');
            push_char(out, '\\');
        } else if c == '\u{8}' {
            push_char(out, '\\');
            push_char(out, 'b');
        } else if c == '\u{c}' {
            push_char(out, '\\');
            push_char(out, 'f');
        } else if c == '\n' {
            push_char(out, '\\');
            push_char(out, 'n');
        } else if c == '\r' {
            push_char(out, '\\');
            push_char(out, 'r');
        } else if c == '\t' {
            push_char(out, '\\');
            push_char(out, 't');
        } else if (c as u32) < 32 {
            push_char(out, '\\');
            push_char(out, 'u');
            push_char(out, '0');
            push_char(out, '0');
            push_char(out, hex_lo_exec((c as u32) / 16));
            push_char(out, hex_lo_exec((c as u32) % 16));
        } else {
            push_char(out, c);
        }
        proof {
            lemma_esc_push(s@.take(i as int), c);
            assert(s@.take(i + 1) =~= s@.take(i as int).push(c));
            assert(out@ =~= old(out)@.push('"') + esc_seq(s@.take(i + 1)));
        }
        i = i + 1;
    }
    push_char(out, '"');
    proof {
        assert(s@.take(n as int) =~= s@);
        assert(out@ =~= old(out)@ + quoted(s@));
    }
}

/// A canonical quoted string for `s` stands in `inp` at `pos`.
pub open spec fn qstr_at(inp: Seq<char>, pos: int, s: Seq<char>) -> bool {
    lit_at(inp, pos, quoted(s))
}

/// The shape of a single escaped character: never empty, never starting with
/// a quote, and starting with a backslash exactly when it is an escape.
proof fn lemma_esc_char_shape(c: char)
    ensures
        1 <= esc_char(c).len() <= 6,
        esc_char(c)[0] != '"',
        esc_char(c).len() == 1 ==> esc_char(c) == seq![c] && c != '"' && c != '\\' && (c as u32)
            >= 32,
        esc_char(c).len() >= 2 ==> esc_char(c)[0] == '\\',
        esc_char(c).len() >= 2 ==> (esc_char(c)[1] == '"' || esc_char(c)[1] == '\\' || esc_char(
            c,
        )[1] == 'b' || esc_char(c)[1] == 'f' || esc_char(c)[1] == 'n' || esc_char(c)[1] == 'r'
            || esc_char(c)[1] == 't' || esc_char(c)[1] == 'u'),
{
}

/// The second character of an escape pins down the escaped character.
proof fn lemma_esc_char_second(c: char)
    requires
        esc_char(c).len() >= 2,
    ensures
        esc_char(c)[1] == '"' ==> c == '"',
        esc_char(c)[1] == '\\' ==> c == '\\',
        esc_char(c)[1] == 'b' ==> c == '\u{8}',
        esc_char(c)[1] == 'f' ==> c == '\u{c}',
        esc_char(c)[1] == 'n' ==> c == '\n',
        esc_char(c)[1] == 'r' ==> c == '\r',
        esc_char(c)[1] == 't' ==> c == '\t',
        esc_char(c)[1] == 'u' ==> ((c as u32) < 32 && esc_char(c).len() == 6 && esc_char(c)[2]
            == '0' && esc_char(c)[3] == '0' && esc_char(c)[4] == hex_lo((c as u32 / 16) as nat)
            && esc_char(c)[5] == hex_lo((c as u32 % 16) as nat) && c != '\u{8}' && c != '\u{c}'
            && c != '\n' && c != '\r' && c != '\t'),
{
}

/// Splits the escaped body of `s` around character `k`.
proof fn lemma_esc_split(s: Seq<char>, k: int)
    requires
        0 <= k < s.len(),
    ensures
        esc_seq(s) == esc_seq(s.take(k)) + esc_char(s[k]) + esc_seq(s.skip(k + 1)),
{
    assert(s =~= s.take(k) + s.skip(k));
    lemma_esc_append(s.take(k), s.skip(k));
    assert(esc_seq(s.take(k) + s.skip(k)) == esc_seq(s));
    assert(s.skip(k)[0] == s[k]);
    assert(s.skip(k).skip(1) =~= s.skip(k + 1));
    assert(esc_seq(s.skip(k)) == esc_char(s[k]) + esc_seq(s.skip(k + 1)));
    assert(esc_seq(s) =~= esc_seq(s.take(k)) + esc_char(s[k]) + esc_seq(s.skip(k + 1)));
}

/// Reads one character of `inp` out of the escaped body of a matching string.
proof fn lemma_qstr_index(inp: Seq<char>, pos: int, s: Seq<char>, i: int)
    requires
        qstr_at(inp, pos, s),
        0 <= i < esc_seq(s).len(),
    ensures
        inp[pos + 1 + i] == esc_seq(s)[i],
{
    assert(inp.subrange(pos, pos + quoted(s).len())[1 + i] == quoted(s)[1 + i]);
    assert(quoted(s)[1 + i] == esc_seq(s)[i]);
}

/// The closing quote of a matching string stands right after its body.
proof fn lemma_qstr_close(inp: Seq<char>, pos: int, s: Seq<char>)
    requires
        qstr_at(inp, pos, s),
    ensures
        inp[pos + 1 + esc_seq(s).len()] == '"',
        pos + 2 + esc_seq(s).len() <= inp.len(),
{
    let q = quoted(s);
    let j = 1 + esc_seq(s).len() as int;
    assert(inp.subrange(pos, pos + q.len())[j] == q[j]);
    assert(q[j] == '"');
}

/// The value of a lower-case hexadecimal digit, if `c` is one.
fn hex_val(c: char) -> (r: Option<u32>)
    ensures
        forall|d: nat| d < 16 && c == hex_lo(d) ==> r == Some(d as u32),
        r matches Some(d) ==> d < 16 && c == hex_lo(d as nat),
{
    if c == '0' { Some(0) } else if c == '1' { Some(1) } else if c == '2' { Some(2) }
    else if c == '3' { Some(3) } else if c == '4' { Some(4) } else if c == '5' { Some(5) }
    else if c == '6' { Some(6) } else if c == '7' { Some(7) } else if c == '8' { Some(8) }
    else if c == '9' { Some(9) } else if c == 'a' { Some(10) } else if c == 'b' { Some(11) }
    else if c == 'c' { Some(12) } else if c == 'd' { Some(13) } else if c == 'e' { Some(14) }
    else if c == 'f' { Some(15) } else { None }
}

/// The control character with scalar value `v`.
fn ctrl_char(v: u32) -> (r: char)
    requires
        v < 32,
    ensures
        r as u32 == v,
{
    if v == 0 { '\u{0}' } else if v == 1 { '\u{1}' } else if v == 2 { '\u{2}' }
    else if v == 3 { '\u{3}' } else if v == 4 { '\u{4}' } else if v == 5 { '\u{5}' }
    else if v == 6 { '\u{6}' } else if v == 7 { '\u{7}' } else if v == 8 { '\u{8}' }
    else if v == 9 { '\u{9}' } else if v == 10 { '\u{a}' } else if v == 11 { '\u{b}' }
    else if v == 12 { '\u{c}' } else if v == 13 { '\u{d}' } else if v == 14 { '\u{e}' }
    else if v == 15 { '\u{f}' } else if v == 16 { '\u{10}' } else if v == 17 { '\u{11}' }
    else if v == 18 { '\u{12}' } else if v == 19 { '\u{13}' } else if v == 20 { '\u{14}' }
    else if v == 21 { '\u{15}' } else if v == 22 { '\u{16}' } else if v == 23 { '\u{17}' }
    else if v == 24 { '\u{18}' } else if v == 25 { '\u{19}' } else if v == 26 { '\u{1a}' }
    else if v == 27 { '\u{1b}' } else if v == 28 { '\u{1c}' } else if v == 29 { '\u{1d}' }
    else if v == 30 { '\u{1e}' } else { '\u{1f}' }
}

/// Parses a canonical quoted string at `pos`.
///
/// On success the consumed segment is exactly the canonical form of the
/// returned string; and whenever a canonical quoted string stands at `pos`,
/// parsing succeeds and returns exactly it.
pub fn parse_qstr(input: &Vec<char>, pos: usize) -> (r: Option<(String, usize)>)
    requires
        pos <= input@.len(),
    ensures
        r matches Some(t) ==> pos + 2 <= t.1 <= input@.len() && input@.subrange(
            pos as int,
            t.1 as int,
        ) == quoted(t.0@),
        forall|s: Seq<char>| #[trigger] qstr_at(input@, pos as int, s) ==> (r matches Some(t)
            && t.0@ == s && t.1 == pos + quoted(s).len()),
{
    let n: usize = input.len();
    if n - pos < 2 || input[pos] != '"' {
        proof {
            assert forall|s: Seq<char>| !qstr_at(input@, pos as int, s) by {
                if qstr_at(input@, pos as int, s) {
                    assert(input@.subrange(pos as int, pos + quoted(s).len())[0] == quoted(s)[0]);
                }
            }
        }
        return None;
    }
    let mut acc = String::new();
    let mut cur: usize = pos + 1;
    loop
        invariant
            pos + 1 <= cur <= n,
            n == input@.len(),
            input@[pos as int] == '"',
            cur == pos + 1 + esc_seq(acc@).len(),
            input@.subrange(pos + 1, cur as int) == esc_seq(acc@),
            forall|s: Seq<char>| #[trigger] qstr_at(input@, pos as int, s) ==> s.len()
                >= acc@.len() && s.take(acc@.len() as int) == acc@,
        decreases n - cur,
    {
        let ghost acc0 = acc@;
        let ghost k = acc@.len() as int;
        if cur == n {
            proof {
                assert forall|s: Seq<char>| !qstr_at(input@, pos as int, s) by {
                    if qstr_at(input@, pos as int, s) {
                        lemma_esc_append(s.take(k), s.skip(k));
                        assert(s =~= s.take(k) + s.skip(k));
                        lemma_qstr_close(input@, pos as int, s);
                    }
                }
            }
            return None;
        }
        let c = input[cur];
        if c == '"' {
            proof {
                assert forall|s: Seq<char>| #[trigger] qstr_at(input@, pos as int, s) implies s
                    == acc0 by {
                    if s.len() > k {
                        lemma_esc_split(s, k);
                        lemma_esc_char_shape(s[k]);
                        lemma_qstr_index(input@, pos as int, s, esc_seq(acc0).len() as int);
                        assert(esc_seq(s)[esc_seq(acc0).len() as int] == esc_char(s[k])[0]);
                    } else {
                        assert(s =~= s.take(k));
                    }
                }
                assert(input@.subrange(pos as int, cur + 1) =~= quoted(acc0));
            }
            return Some((acc, cur + 1));
        }
        // Any string matching here continues past the characters read so far.
        proof {
            assert forall|s: Seq<char>| #[trigger] qstr_at(input@, pos as int, s) implies s.len()
                > k by {
                if s.len() == k {
                    lemma_qstr_close(input@, pos as int, s);
                    assert(s =~= s.take(k));
                }
            }
            assert forall|s: Seq<char>| #[trigger] qstr_at(input@, pos as int, s) implies {
                &&& esc_seq(s) == esc_seq(acc0) + esc_char(s[k]) + esc_seq(s.skip(k + 1))
                &&& esc_char(s[k])[0] == c
            } by {
                lemma_esc_split(s, k);
                assert(s.take(k) == acc0);
                lemma_qstr_index(input@, pos as int, s, esc_seq(acc0).len() as int);
                assert(esc_seq(s)[esc_seq(acc0).len() as int] == esc_char(s[k])[0]);
            }
        }
        if c == '\\' {
            if n - cur < 2 {
                proof {
                    assert forall|s: Seq<char>| !qstr_at(input@, pos as int, s) by {
                        if qstr_at(input@, pos as int, s) {
                            lemma_esc_char_shape(s[k]);
                            lemma_qstr_close(input@, pos as int, s);
                        }
                    }
                }
                return None;
            }
            let e = input[cur + 1];
            proof {
                assert forall|s: Seq<char>| #[trigger] qstr_at(input@, pos as int, s) implies {
                    &&& esc_char(s[k]).len() >= 2
                    &&& esc_char(s[k])[1] == e
                } by {
                    lemma_esc_char_shape(s[k]);
                    lemma_qstr_index(input@, pos as int, s, esc_seq(acc0).len() as int + 1);
                    assert(esc_seq(s)[esc_seq(acc0).len() as int + 1] == esc_char(s[k])[1]);
                }
            }
            let decoded: char;
            let width: usize;
            if e == '"' {
                decoded = '"';
                width = 2;
            } else if e == '\\' {
                decoded = '\\';
                width = 2;
            } else if e == 'b' {
                decoded = '\u{8}';
                width = 2;
            } else if e == 'f' {
                decoded = '\u{c}';
                width = 2;
            } else if e == 'n' {
                decoded = '\n';
                width = 2;
            } else if e == 'r' {
                decoded = '\r';
                width = 2;
            } else if e == 't' {
                decoded = '\t';
                width = 2;
            } else if e == 'u' {
                if n - cur < 6 {
                    proof {
                        assert forall|s: Seq<char>| !qstr_at(input@, pos as int, s) by {
                            if qstr_at(input@, pos as int, s) {
                                lemma_esc_char_second(s[k]);
                                lemma_qstr_close(input@, pos as int, s);
                            }
                        }
                    }
                    return None;
                }
                proof {
                    assert forall|s: Seq<char>| #[trigger] qstr_at(input@, pos as int, s) implies {
                        &&& (s[k] as u32) < 32
                        &&& esc_char(s[k]).len() == 6
                        &&& input@[cur + 2] == '0'
                        &&& input@[cur + 3] == '0'
                        &&& input@[cur + 4] == hex_lo((s[k] as u32 / 16) as nat)
                        &&& input@[cur + 5] == hex_lo((s[k] as u32 % 16) as nat)
                    } by {
                        lemma_esc_char_second(s[k]);
                        lemma_qstr_index(input@, pos as int, s, esc_seq(acc0).len() as int + 2);
                        lemma_qstr_index(input@, pos as int, s, esc_seq(acc0).len() as int + 3);
                        lemma_qstr_index(input@, pos as int, s, esc_seq(acc0).len() as int + 4);
                        lemma_qstr_index(input@, pos as int, s, esc_seq(acc0).len() as int + 5);
                    }
                }
                if input[cur + 2] != '0' || input[cur + 3] != '0' {
                    return None;
                }
                let d1 = match hex_val(input[cur + 4]) {
                    Some(d) => d,
                    None => {
                        return None;
                    },
                };
                let d2 = match hex_val(input[cur + 5]) {
                    Some(d) => d,
                    None => {
                        return None;
                    },
                };
                let v = d1 * 16 + d2;
                if v >= 32 || v == 8 || v == 9 || v == 10 || v == 12 || v == 13 {
                    proof {
                        assert forall|s: Seq<char>| !qstr_at(input@, pos as int, s) by {
                            if qstr_at(input@, pos as int, s) {
                                lemma_esc_char_second(s[k]);
                                assert(d1 == s[k] as u32 / 16 && d2 == s[k] as u32 % 16);
                                assert(s[k] as u32 == 16 * (s[k] as u32 / 16) + (
                                s[k] as u32 % 16));
                                assert(s[k] as u32 == v);
                                vstd::utf8::char_u32_cast(s[k], v);
                                if v == 8 {
                                    vstd::utf8::char_u32_cast('\u{8}', v);
                                } else if v == 9 {
                                    vstd::utf8::char_u32_cast('\t', v);
                                } else if v == 10 {
                                    vstd::utf8::char_u32_cast('\n', v);
                                } else if v == 12 {
                                    vstd::utf8::char_u32_cast('\u{c}', v);
                                } else if v == 13 {
                                    vstd::utf8::char_u32_cast('\r', v);
                                }
                            }
                        }
                    }
                    return None;
                }
                decoded = ctrl_char(v);
                width = 6;
                proof {
                    assert forall|s: Seq<char>| #[trigger] qstr_at(
                        input@,
                        pos as int,
                        s,
                    ) implies s[k] == decoded && esc_char(s[k]).len() == width by {
                        lemma_esc_char_second(s[k]);
                        assert(d1 == s[k] as u32 / 16 && d2 == s[k] as u32 % 16);
                        assert(s[k] as u32 == 16 * (s[k] as u32 / 16) + (s[k] as u32 % 16));
                        assert(s[k] as u32 == v);
                        vstd::utf8::char_u32_cast(s[k], v);
                        vstd::utf8::char_u32_cast(decoded, v);
                    }
                }
            } else {
                proof {
                    assert forall|s: Seq<char>| !qstr_at(input@, pos as int, s) by {
                        if qstr_at(input@, pos as int, s) {
                            lemma_esc_char_shape(s[k]);
                        }
                    }
                }
                return None;
            }
            proof {
                assert forall|s: Seq<char>| #[trigger] qstr_at(
                    input@,
                    pos as int,
                    s,
                ) implies s[k] == decoded && esc_char(s[k]).len() == width by {
                    lemma_esc_char_second(s[k]);
                }
                assert(esc_char(decoded) == input@.subrange(cur as int, cur + width)) by {
                    lemma_esc_char_shape(decoded);
                    lemma_esc_char_second(decoded);
                    assert(input@.subrange(cur as int, cur + width) =~= esc_char(decoded));
                }
            }
            push_char(&mut acc, decoded);
            cur = cur + width;
            proof {
                lemma_esc_push(acc0, decoded);
                assert(input@.subrange(pos + 1, cur as int) =~= esc_seq(acc@));
                assert forall|s: Seq<char>| #[trigger] qstr_at(input@, pos as int, s) implies s.len()
                    >= acc@.len() && s.take(acc@.len() as int) == acc@ by {
                    assert(s.take(k + 1) =~= s.take(k).push(s[k]));
                }
            }
        } else {
            if (c as u32) < 32 {
                proof {
                    assert forall|s: Seq<char>| !qstr_at(input@, pos as int, s) by {
                        if qstr_at(input@, pos as int, s) {
                            lemma_esc_char_shape(s[k]);
                        }
                    }
                }
                return None;
            }
            proof {
                assert forall|s: Seq<char>| #[trigger] qstr_at(input@, pos as int, s) implies s[k]
                    == c && esc_char(s[k]).len() == 1 by {
                    lemma_esc_char_shape(s[k]);
                }
            }
            push_char(&mut acc, c);
            cur = cur + 1;
            proof {
                lemma_esc_push(acc0, c);
                assert(esc_char(c) =~= seq![c]);
                assert(input@.subrange(pos + 1, cur as int) =~= esc_seq(acc@));
                assert forall|s: Seq<char>| #[trigger] qstr_at(input@, pos as int, s) implies s.len()
                    >= acc@.len() && s.take(acc@.len() as int) == acc@ by {
                    assert(s.take(k + 1) =~= s.take(k).push(s[k]));
                }
            }
        }
    }
}

/// `c` is a decimal digit.
pub open spec fn is_digit(c: char) -> bool {
    c == '0' || c == '1' || c == '2' || c == '3' || c == '4' || c == '5' || c == '6' || c == '7'
        || c == '8' || c == '9'
}

/// The canonical decimal text of `m`: plain digits, no leading zero.
pub open spec fn dec(m: nat) -> Seq<char>
    decreases m,
{
    if m < 10 { seq![hex_lo(m)] } else { dec(m / 10).push(hex_lo(m % 10)) }
}

/// Powers of ten.
pub open spec fn pow10(k: nat) -> nat
    decreases k,
{
    if k == 0 { 1 } else { 10 * pow10((k - 1) as nat) }
}

/// Decimal text is made of digits, has no leading zero unless it is `"0"`,
/// and its length counts the value's digits.
proof fn lemma_dec_shape(m: nat)
    ensures
        dec(m).len() >= 1,
        forall|i: int| 0 <= i < dec(m).len() ==> is_digit(#[trigger] dec(m)[i]),
        dec(m)[0] == '0' <==> m == 0,
    decreases m,
{
    if m >= 10 {
        lemma_dec_shape(m / 10);
    }
}

/// A value has at most `k` digits exactly when it is under the `k`-th power
/// of ten.
proof fn lemma_dec_len(m: nat, k: nat)
    requires
        k >= 1,
    ensures
        dec(m).len() <= k <==> m < pow10(k),
    decreases k,
{
    if m < 10 {
        assert(pow10(k) >= 10) by {
            lemma_pow10_ge(k);
        }
    } else {
        lemma_dec_shape(m / 10);
        if k == 1 {
            assert(pow10(0) == 1);
            assert(pow10(1) == 10);
        } else {
            lemma_dec_len(m / 10, (k - 1) as nat);
            let p = pow10((k - 1) as nat);
            lemma_pow10_pos((k - 1) as nat);
            assert(m / 10 < p <==> m < 10 * p) by (nonlinear_arith)
                requires
                    p >= 1,
            ;
        }
    }
}

/// Ten to the `k` is at least ten for positive `k`.
proof fn lemma_pow10_ge(k: nat)
    requires
        k >= 1,
    ensures
        pow10(k) >= 10,
    decreases k,
{
    if k == 1 {
        assert(pow10(0) == 1);
    } else {
        lemma_pow10_ge((k - 1) as nat);
    }
}

/// Distinct values have distinct decimal texts.
proof fn lemma_dec_injective(a: nat, b: nat)
    requires
        dec(a) == dec(b),
    ensures
        a == b,
    decreases a,
{
    if a < 10 && b < 10 {
        assert(dec(a)[0] == hex_lo(a) && dec(b)[0] == hex_lo(b));
    } else if a < 10 {
        lemma_dec_shape(b / 10);
        assert(dec(b).len() >= 2);
    } else if b < 10 {
        lemma_dec_shape(a / 10);
        assert(dec(a).len() >= 2);
    } else {
        assert(dec(a).last() == hex_lo(a % 10) && dec(b).last() == hex_lo(b % 10));
        assert(a % 10 == b % 10);
        assert(dec(a).drop_last() =~= dec(a / 10));
        assert(dec(b).drop_last() =~= dec(b / 10));
        lemma_dec_injective(a / 10, b / 10);
        assert(a == 10 * (a / 10) + a % 10);
        assert(b == 10 * (b / 10) + b % 10);
    }
}

/// Appends the canonical decimal text of `x`.
pub fn write_u64(out: &mut String, x: u64)
    ensures
        final(out)@ == old(out)@ + dec(x as nat),
{
    if x == 0 {
        push_char(out, '0');
        assert(final(out)@ =~= old(out)@ + dec(0));
        return;
    }
    let mut digits: Vec<char> = Vec::new();
    let mut m: u64 = x;
    while m > 0
        invariant
            m > 0 ==> dec(x as nat) == dec(m as nat) + digits@.reverse(),
            m == 0 ==> dec(x as nat) == digits@.reverse(),
            m == 0 ==> digits@.len() >= 1,
        decreases m,
    {
        let d: u64 = m % 10;
        let ghost digits0 = digits@;
        let ghost m0 = m as nat;
        digits.push(hex_lo_exec(d as u32));
        m = m / 10;
        proof {
            assert(digits@.reverse() =~= seq![hex_lo(d as nat)] + digits0.reverse());
            if m0 >= 10 {
                assert(dec(m0) == dec(m0 / 10).push(hex_lo(m0 % 10)));
                assert(dec(m0) + digits0.reverse() =~= dec(m0 / 10) + digits@.reverse());
            } else {
                assert(dec(m0) =~= seq![hex_lo(m0)]);
                assert(dec(m0) + digits0.reverse() =~= digits@.reverse());
            }
        }
    }
    let cnt: usize = digits.len();
    let mut i: usize = 0;
    while i < cnt
        invariant
            i <= cnt,
            cnt == digits@.len(),
            dec(x as nat) == digits@.reverse(),
            out@ == old(out)@ + dec(x as nat).take(i as int),
        decreases cnt - i,
    {
        push_char(out, digits[cnt - 1 - i]);
        proof {
            assert(digits@.reverse()[i as int] == digits@[cnt - 1 - i]);
            assert(out@ =~= old(out)@ + dec(x as nat).take(i + 1));
        }
        i = i + 1;
    }
    assert(dec(x as nat).take(cnt as int) =~= dec(x as nat));
}

/// The value of a decimal digit, if `c` is one.
fn digit_val(c: char) -> (r: Option<u64>)
    ensures
        forall|d: nat| d < 10 && c == hex_lo(d) ==> r == Some(d as u64),
        r matches Some(d) ==> d < 10 && c == hex_lo(d as nat),
        r is None ==> !is_digit(c),
{
    if c == '0' { Some(0) } else if c == '1' { Some(1) } else if c == '2' { Some(2) }
    else if c == '3' { Some(3) } else if c == '4' { Some(4) } else if c == '5' { Some(5) }
    else if c == '6' { Some(6) } else if c == '7' { Some(7) } else if c == '8' { Some(8) }
    else if c == '9' { Some(9) } else { None }
}

/// The canonical decimal text of `m` stands at `pos`, ended by the input or by
/// a character that is no digit.
pub open spec fn num_at(inp: Seq<char>, pos: int, m: nat) -> bool {
    &&& lit_at(inp, pos, dec(m))
    &&& (pos + dec(m).len() == inp.len() || !is_digit(inp[pos + dec(m).len()]))
}

/// Parses a canonical decimal number of at most ten digits at `pos`.
///
/// On success the consumed segment is exactly the decimal text of the result;
/// and whenever the text of a value under `4294967296` stands at `pos`,
/// delimited as `num_at` asks, parsing returns exactly that value.
pub fn parse_num(input: &Vec<char>, pos: usize) -> (r: Option<(u64, usize)>)
    requires
        pos <= input@.len(),
    ensures
        r matches Some(t) ==> pos < t.1 <= input@.len() && input@.subrange(pos as int, t.1 as int)
            == dec(t.0 as nat),
        forall|m: nat|
            m < 4294967296 && #[trigger] num_at(input@, pos as int, m) ==> (r matches Some(t)
                && t.0 == m && t.1 == pos + dec(m).len()),
{
    let n: usize = input.len();
    if pos == n {
        proof {
            assert forall|m: nat| !num_at(input@, pos as int, m) by {
                lemma_dec_shape(m);
            }
        }
        return None;
    }
    let first = match digit_val(input[pos]) {
        Some(d) => d,
        None => {
            proof {
                assert forall|m: nat| !num_at(input@, pos as int, m) by {
                    if num_at(input@, pos as int, m) {
                        lemma_dec_shape(m);
                        assert(input@.subrange(pos as int, pos + dec(m).len())[0] == dec(m)[0]);
                    }
                }
            }
            return None;
        },
    };
    if first == 0 {
        proof {
            assert(input@.subrange(pos as int, pos + 1) =~= dec(0)) by {
                assert(input@[pos as int] == hex_lo(0));
            }
            assert forall|m: nat| #[trigger] num_at(input@, pos as int, m) implies m == 0 by {
                lemma_dec_shape(m);
                assert(input@.subrange(pos as int, pos + dec(m).len())[0] == dec(m)[0]);
                assert(input@[pos as int] == dec(m)[0]);
            }
        }
        return Some((0, pos + 1));
    }
    let mut acc: u64 = first;
    let mut cur: usize = pos + 1;
    let mut cnt: usize = 1;
    proof {
        assert(input@.subrange(pos as int, pos + 1) =~= dec(first as nat)) by {
            assert(input@[pos as int] == hex_lo(first as nat));
        }
        assert(pow10(0) == 1);
        assert(pow10(1) == 10);
    }
    let mut next_d: Option<u64> = if cur < n { digit_val(input[cur]) } else { None };
    while next_d.is_some() && cnt < 10
        invariant
            pos + cnt == cur <= n,
            1 <= cnt <= 10,
            n == input@.len(),
            1 <= acc < pow10(cnt as nat),
            input@.subrange(pos as int, cur as int) == dec(acc as nat),
            dec(acc as nat).len() == cnt,
            next_d matches Some(d) ==> cur < n && d < 10 && input@[cur as int] == hex_lo(d as nat),
            next_d is None ==> cur == n || !is_digit(input@[cur as int]),
        decreases n - cur,
    {
        let d = next_d.unwrap();
        proof {
            lemma_pow10_mono(cnt as nat, 10);
            reveal_with_fuel(pow10, 11);
            assert(pow10(10) == 10000000000);
            assert(acc * 10 + d < 100000000000) by (nonlinear_arith)
                requires
                    acc < 10000000000,
                    d < 10,
            ;
            assert((acc * 10 + d) / 10 == acc && (acc * 10 + d) % 10 == d) by (nonlinear_arith)
                requires
                    d < 10,
                    acc >= 0,
            ;
            assert(dec((acc * 10 + d) as nat) == dec(acc as nat).push(hex_lo(d as nat)));
            assert(input@.subrange(pos as int, cur + 1) =~= dec(acc as nat).push(
                hex_lo(d as nat),
            ));
            assert(acc * 10 + d < pow10((cnt + 1) as nat)) by {
                assert(pow10((cnt + 1) as nat) == 10 * pow10(cnt as nat));
                assert(acc * 10 + d < 10 * pow10(cnt as nat)) by (nonlinear_arith)
                    requires
                        acc < pow10(cnt as nat),
                        d < 10,
                ;
            }
        }
        acc = acc * 10 + d;
        cur = cur + 1;
        cnt = cnt + 1;
        next_d = if cur < n { digit_val(input[cur]) } else { None };
    }
    if next_d.is_some() {
        // Ten digits read and an eleventh follows: no value under the
        // bound can match here.
        proof {
            assert(is_digit(input@[cur as int]));
            lemma_dec_shape(acc as nat);
            assert forall|m: nat|
                m < 4294967296 && #[trigger] num_at(input@, pos as int, m) implies false by {
                lemma_dec_shape(m);
                let lm = dec(m).len() as int;
                if lm < 10 {
                    assert(input@.subrange(pos as int, cur as int)[lm] == dec(acc as nat)[lm]);
                    assert(input@[pos + lm] == dec(acc as nat)[lm]);
                    assert(is_digit(input@[pos + lm]));
                } else if lm == 10 {
                    assert(pos + lm == cur);
                } else {
                    lemma_dec_len(m, 10);
                    reveal_with_fuel(pow10, 11);
                    assert(pow10(10) == 10000000000);
                }
            }
        }
        return None;
    }
    proof {
        assert forall|m: nat|
            m < 4294967296 && #[trigger] num_at(input@, pos as int, m) implies m == acc as nat
            && pos + dec(m).len() == cur by {
            lemma_dec_shape(m);
            lemma_dec_shape(acc as nat);
            let lm = dec(m).len() as int;
            if lm < cnt {
                assert(input@.subrange(pos as int, cur as int)[lm] == dec(acc as nat)[lm]);
                assert(input@[pos + lm] == dec(acc as nat)[lm]);
                assert(is_digit(input@[pos + lm]));
            } else if lm > cnt {
                assert(dec(m)[cnt as int] == input@.subrange(pos as int, pos + lm)[cnt as int]);
                assert(is_digit(input@[pos + cnt]));
            } else {
                assert(dec(m) =~= dec(acc as nat));
                lemma_dec_injective(m, acc as nat);
            }
        }
    }
    Some((acc, cur))
}

/// Powers of ten grow with the exponent.
proof fn lemma_pow10_mono(a: nat, b: nat)
    requires
        a <= b,
    ensures
        pow10(a) <= pow10(b),
    decreases b,
{
    if a < b {
        lemma_pow10_mono(a, (b - 1) as nat);
        lemma_pow10_pos((b - 1) as nat);
    }
}

/// Powers of ten are positive.
proof fn lemma_pow10_pos(k: nat)
    ensures
        pow10(k) >= 1,
    decreases k,
{
    if k > 0 {
        lemma_pow10_pos((k - 1) as nat);
    }
}

/// A literal made of two parts stands at `pos` exactly when the parts stand
/// one after the other.
pub proof fn lemma_lit_split(inp: Seq<char>, pos: int, a: Seq<char>, b: Seq<char>)
    ensures
        lit_at(inp, pos, a + b) <==> lit_at(inp, pos, a) && lit_at(inp, pos + a.len(), b),
{
    if lit_at(inp, pos, a + b) {
        assert(inp.subrange(pos, pos + a.len()) =~= a) by {
            assert forall|i: int| 0 <= i < a.len() implies inp.subrange(pos, pos + a.len())[i]
                == a[i] by {
                assert(inp.subrange(pos, pos + (a + b).len())[i] == (a + b)[i]);
            }
        }
        assert(inp.subrange(pos + a.len(), pos + a.len() + b.len()) =~= b) by {
            assert forall|i: int| 0 <= i < b.len() implies inp.subrange(
                pos + a.len(),
                pos + a.len() + b.len(),
            )[i] == b[i] by {
                assert(inp.subrange(pos, pos + (a + b).len())[a.len() + i] == (a + b)[a.len()
                    + i]);
            }
        }
    }
    if lit_at(inp, pos, a) && lit_at(inp, pos + a.len(), b) {
        assert(inp.subrange(pos, pos + (a + b).len()) =~= a + b) by {
            assert forall|i: int| 0 <= i < (a + b).len() implies inp.subrange(
                pos,
                pos + (a + b).len(),
            )[i] == (a + b)[i] by {
                if i < a.len() {
                    assert(inp.subrange(pos, pos + a.len())[i] == a[i]);
                } else {
                    assert(inp.subrange(pos + a.len(), pos + a.len() + b.len())[i - a.len()]
                        == b[i - a.len()]);
                }
            }
        }
    }
}

/// The canonical text of a boolean.
pub open spec fn bool_text(b: bool) -> Seq<char> {
    if b { "true"@ } else { "false"@ }
}

/// Appends the canonical text of a boolean.
pub fn write_bool(out: &mut String, b: bool)
    ensures
        final(out)@ == old(out)@ + bool_text(b),
{
    if b {
        out.append("true");
    } else {
        out.append("false");
    }
}

/// Parses a canonical boolean at `pos`.
pub fn parse_bool(input: &Vec<char>, pos: usize) -> (r: Option<(bool, usize)>)
    requires
        pos <= input@.len(),
    ensures
        r matches Some(t) ==> pos < t.1 <= input@.len() && input@.subrange(pos as int, t.1 as int)
            == bool_text(t.0),
        forall|b: bool| lit_at(input@, pos as int, #[trigger] bool_text(b)) ==> (r matches Some(t)
            && t.0 == b && t.1 == pos + bool_text(b).len()),
{
    proof {
        reveal_strlit("true");
        reveal_strlit("false");
    }
    if let Some(p) = tag(input, pos, "true") {
        assert(input@.subrange(pos as int, p as int) == bool_text(true));
        assert(!lit_at(input@, pos as int, bool_text(false))) by {
            if lit_at(input@, pos as int, bool_text(false)) {
                assert(input@.subrange(pos as int, pos + 5)[0] == 'f');
                assert(input@.subrange(pos as int, pos + 4)[0] == 't');
            }
        }
        Some((true, p))
    } else if let Some(p) = tag(input, pos, "false") {
        assert(input@.subrange(pos as int, p as int) == bool_text(false));
        Some((false, p))
    } else {
        None
    }
}

/// The canonical text of a signed number: a minus sign for negative values,
/// then the decimal digits of the magnitude.
pub open spec fn int_text(v: int) -> Seq<char> {
    if v < 0 { seq!['-'] + dec((-v) as nat) } else { dec(v as nat) }
}

/// Appends the canonical text of a 32-bit signed number.
pub fn write_i32(out: &mut String, x: i32)
    ensures
        final(out)@ == old(out)@ + int_text(x as int),
{
    if x < 0 {
        push_char(out, '-');
        let m: u64 = (-(x as i64)) as u64;
        write_u64(out, m);
        assert(final(out)@ =~= old(out)@ + int_text(x as int));
    } else {
        write_u64(out, x as u64);
    }
}

/// The canonical signed text of `v` stands at `pos`, delimited as a number.
pub open spec fn int_at(inp: Seq<char>, pos: int, v: int) -> bool {
    if v < 0 { inp[pos] == '-' && num_at(inp, pos + 1, (-v) as nat) } else { num_at(inp, pos, v as nat) }
}

/// Parses a canonical 32-bit signed number at `pos`.
pub fn parse_i32(input: &Vec<char>, pos: usize) -> (r: Option<(i32, usize)>)
    requires
        pos <= input@.len(),
    ensures
        r matches Some(t) ==> pos < t.1 <= input@.len() && input@.subrange(pos as int, t.1 as int)
            == int_text(t.0 as int),
        forall|v: i32| pos + int_text(v as int).len() <= input@.len() && #[trigger] int_at(
            input@,
            pos as int,
            v as int,
        ) ==> (r matches Some(t) && t.0 == v && t.1 == pos + int_text(v as int).len()),
{
    let n: usize = input.len();
    if pos < n && input[pos] == '-' {
        match parse_num(input, pos + 1) {
            Some((m, p)) => {
                if 1 <= m && m <= 2147483648 {
                    let v: i32 = if m == 2147483648 {
                        i32::MIN
                    } else {
                        -((m as i32))
                    };
                    proof {
                        assert(input@.subrange(pos as int, p as int) =~= seq!['-'] + dec(
                        m as nat,
                        ));
                        assert(input@.subrange(pos as int, p as int) == int_text(v as int));
                        assert forall|w: i32| pos + int_text(w as int).len() <= input@.len()
                            && #[trigger] int_at(input@, pos as int, w as int) implies w == v && pos
                            + int_text(w as int).len() == p by {
                            if (w as int) >= 0 {
                                lemma_dec_shape(w as nat);
                                assert(input@[pos as int] == '-');
                                assert(input@.subrange(pos as int, pos + dec(w as nat).len())[0]
                                    == dec(w as nat)[0]);
                            } else {
                                assert(num_at(input@, pos + 1, (-(w as int)) as nat));
                            }
                        }
                    }
                    Some((v, p))
                } else {
                    proof {
                        assert forall|w: i32| !(pos + int_text(w as int).len() <= input@.len()
                            && int_at(input@, pos as int, w as int)) by {
                            if pos + int_text(w as int).len() <= input@.len() && int_at(
                                input@,
                                pos as int,
                                w as int,
                            ) {
                                if (w as int) >= 0 {
                                    lemma_dec_shape(w as nat);
                                    assert(input@.subrange(
                                        pos as int,
                                        pos + dec(w as nat).len(),
                                    )[0] == dec(w as nat)[0]);
                                } else {
                                    assert(num_at(input@, pos + 1, (-(w as int)) as nat));
                                }
                            }
                        }
                    }
                    None
                }
            },
            None => {
                proof {
                    assert forall|w: i32| !(pos + int_text(w as int).len() <= input@.len()
                        && int_at(input@, pos as int, w as int)) by {
                        if pos + int_text(w as int).len() <= input@.len() && int_at(
                            input@,
                            pos as int,
                            w as int,
                        ) {
                            if (w as int) >= 0 {
                                lemma_dec_shape(w as nat);
                                assert(input@.subrange(pos as int, pos + dec(w as nat).len())[0]
                                    == dec(w as nat)[0]);
                            } else {
                                assert(num_at(input@, pos + 1, (-(w as int)) as nat));
                            }
                        }
                    }
                }
                None
            },
        }
    } else {
        match parse_num(input, pos) {
            Some((m, p)) => {
                if m <= 2147483647 {
                    let v: i32 = m as i32;
                    proof {
                        assert forall|w: i32| pos + int_text(w as int).len() <= input@.len()
                            && #[trigger] int_at(input@, pos as int, w as int) implies (w == v && pos
                            + int_text(w as int).len() == p) by {
                            if (w as int) < 0 {
                                assert(input@[pos as int] == '-');
                            }
                        }
                    }
                    Some((v, p))
                } else {
                    proof {
                        assert forall|w: i32| !(pos + int_text(w as int).len() <= input@.len()
                            && int_at(input@, pos as int, w as int)) by {
                            if pos + int_text(w as int).len() <= input@.len() && int_at(
                                input@,
                                pos as int,
                                w as int,
                            ) {
                                if (w as int) < 0 {
                                    assert(input@[pos as int] == '-');
                                }
                            }
                        }
                    }
                    None
                }
            },
            None => {
                proof {
                    assert forall|w: i32| !(pos + int_text(w as int).len() <= input@.len()
                        && int_at(input@, pos as int, w as int)) by {
                        if pos + int_text(w as int).len() <= input@.len() && int_at(
                            input@,
                            pos as int,
                            w as int,
                        ) {
                            if (w as int) < 0 {
                                assert(input@[pos as int] == '-');
                            }
                        }
                    }
                }
                None
            },
        }
    }
}

/// The text of a run of array elements, each followed by a comma.
pub open spec fn sarr_pre(ts: Seq<Seq<char>>) -> Seq<char>
    decreases ts.len(),
{
    if ts.len() == 0 { Seq::empty() } else {
        quoted(ts[0]) + seq![','] + sarr_pre(ts.skip(1))
    }
}

/// The body of a canonical string array: elements separated by commas.
pub open spec fn sarr_body(ts: Seq<Seq<char>>) -> Seq<char>
    decreases ts.len(),
{
    if ts.len() == 0 { Seq::empty() } else if ts.len() == 1 { quoted(ts[0]) } else {
        quoted(ts[0]) + seq![','] + sarr_body(ts.skip(1))
    }
}

/// The canonical text of a string array.
pub open spec fn sarr_text(ts: Seq<Seq<char>>) -> Seq<char> {
    seq!['['] + sarr_body(ts) + seq![']']
}

/// The views of a vector of strings.
pub open spec fn str_views(items: Seq<String>) -> Seq<Seq<char>> {
    items.map_values(|s: String| s@)
}

proof fn lemma_sarr_pre_push(ts: Seq<Seq<char>>, x: Seq<char>)
    ensures
        sarr_pre(ts.push(x)) == sarr_pre(ts) + quoted(x) + seq![','],
    decreases ts.len(),
{
    if ts.len() == 0 {
        assert(ts.push(x) =~= seq![x]);
        assert(seq![x].skip(1) =~= Seq::<Seq<char>>::empty());
        assert(sarr_pre(Seq::<Seq<char>>::empty()) =~= Seq::<char>::empty());
        assert(seq![x][0] == x);
        assert(sarr_pre(ts.push(x)) =~= sarr_pre(ts) + quoted(x) + seq![',']);
    } else {
        assert(ts.push(x).skip(1) =~= ts.skip(1).push(x));
        lemma_sarr_pre_push(ts.skip(1), x);
        assert(ts.push(x)[0] == ts[0]);
        assert(sarr_pre(ts.push(x)) =~= sarr_pre(ts) + quoted(x) + seq![',']);
    }
}

proof fn lemma_sarr_body_push(ts: Seq<Seq<char>>, x: Seq<char>)
    ensures
        sarr_body(ts.push(x)) == sarr_pre(ts) + quoted(x),
    decreases ts.len(),
{
    if ts.len() == 0 {
        assert(ts.push(x) =~= seq![x]);
        assert(sarr_body(ts.push(x)) =~= sarr_pre(ts) + quoted(x));
    } else {
        assert(ts.push(x).skip(1) =~= ts.skip(1).push(x));
        lemma_sarr_body_push(ts.skip(1), x);
        assert(sarr_body(ts.push(x)) =~= sarr_pre(ts) + quoted(x));
    }
}

proof fn lemma_sarr_split(ts: Seq<Seq<char>>, k: int)
    requires
        0 <= k < ts.len(),
    ensures
        sarr_body(ts) == sarr_pre(ts.take(k)) + sarr_body(ts.skip(k)),
    decreases k,
{
    if k == 0 {
        assert(ts.take(0) =~= Seq::<Seq<char>>::empty());
        assert(ts.skip(0) =~= ts);
        assert(sarr_body(ts) =~= sarr_pre(ts.take(0)) + sarr_body(ts.skip(0)));
    } else {
        lemma_sarr_split(ts, k - 1);
        let tail = ts.skip(k - 1);
        assert(tail.len() >= 2);
        assert(tail.skip(1) =~= ts.skip(k));
        assert(sarr_body(tail) == quoted(tail[0]) + seq![','] + sarr_body(ts.skip(k)));
        assert(ts.take(k) =~= ts.take(k - 1).push(ts[k - 1]));
        lemma_sarr_pre_push(ts.take(k - 1), ts[k - 1]);
        assert(tail[0] == ts[k - 1]);
        assert(sarr_body(ts) =~= sarr_pre(ts.take(k)) + sarr_body(ts.skip(k)));
    }
}

/// Where the next element and its separator stand, for an array matching at
/// `pos` of which the first `vs` elements are already read.
proof fn lemma_sarr_elem(
    inp: Seq<char>,
    pos: int,
    cur: int,
    ts: Seq<Seq<char>>,
    vs: Seq<Seq<char>>,
)
    requires
        lit_at(inp, pos, sarr_text(ts)),
        vs.len() < ts.len(),
        ts.take(vs.len() as int) == vs,
        cur == pos + 1 + sarr_pre(vs).len(),
    ensures
        qstr_at(inp, cur, ts[vs.len() as int]),
        ts.len() == vs.len() + 1 ==> lit_at(
            inp,
            cur + quoted(ts[vs.len() as int]).len(),
            seq![']'],
        ),
        ts.len() > vs.len() + 1 ==> lit_at(
            inp,
            cur + quoted(ts[vs.len() as int]).len(),
            seq![','],
        ),
{
    let k = vs.len() as int;
    lemma_sarr_split(ts, k);
    let rest = sarr_body(ts.skip(k)) + seq![']'];
    assert(sarr_text(ts) =~= seq!['['] + (sarr_pre(vs) + rest));
    lemma_lit_split(inp, pos, seq!['['], sarr_pre(vs) + rest);
    lemma_lit_split(inp, pos + 1, sarr_pre(vs), rest);
    assert(lit_at(inp, cur, rest));
    let q = quoted(ts[k]);
    assert(ts.skip(k)[0] == ts[k]);
    if ts.len() == k + 1 {
        assert(sarr_body(ts.skip(k)) == q);
        assert(rest =~= q + seq![']']);
        lemma_lit_split(inp, cur, q, seq![']']);
    } else {
        assert(ts.skip(k).len() >= 2);
        assert(sarr_body(ts.skip(k)) == q + seq![','] + sarr_body(ts.skip(k).skip(1)));
        assert(rest =~= q + (seq![','] + (sarr_body(ts.skip(k).skip(1)) + seq![']'])));
        lemma_lit_split(inp, cur, q, seq![','] + (sarr_body(ts.skip(k).skip(1)) + seq![']']));
        lemma_lit_split(
            inp,
            cur + q.len(),
            seq![','],
            sarr_body(ts.skip(k).skip(1)) + seq![']'],
        );
    }
}

/// Appends the canonical text of a string array.
pub fn write_sarr(out: &mut String, items: &Vec<String>)
    ensures
        final(out)@ == old(out)@ + sarr_text(str_views(items@)),
{
    push_char(out, '[');
    let n: usize = items.len();
    let mut i: usize = 0;
    while i < n
        invariant
            i <= n,
            n == items@.len(),
            i == 0 ==> out@ == old(out)@.push('['),
            i > 0 ==> out@ == old(out)@.push('[') + sarr_body(str_views(items@.take(i as int))),
        decreases n - i,
    {
        let ghost vs_i = str_views(items@.take(i as int));
        if i > 0 {
            push_char(out, ',');
        }
        write_qstr(out, items[i].as_str());
        proof {
            assert(str_views(items@.take(i + 1)) =~= vs_i.push(items@[i as int]@));
            lemma_sarr_body_push(vs_i, items@[i as int]@);
            if i == 0 {
                assert(vs_i =~= Seq::<Seq<char>>::empty());
                assert(out@ =~= old(out)@.push('[') + sarr_body(str_views(items@.take(i + 1))));
            } else {
                assert(vs_i.len() > 0);
                let prev = str_views(items@.take(i as int - 1));
                assert(vs_i =~= prev.push(items@[i as int - 1]@));
                lemma_sarr_body_push(prev, items@[i as int - 1]@);
                lemma_sarr_pre_push(prev, items@[i as int - 1]@);
                assert(out@ =~= old(out)@.push('[') + sarr_body(str_views(items@.take(i + 1))));
            }
        }
        i = i + 1;
    }
    push_char(out, ']');
    proof {
        if n == 0 {
            assert(str_views(items@) =~= Seq::<Seq<char>>::empty());
            assert(final(out)@ =~= old(out)@ + sarr_text(str_views(items@)));
        } else {
            assert(items@.take(n as int) =~= items@);
            assert(final(out)@ =~= old(out)@ + sarr_text(str_views(items@)));
        }
    }
}

/// Parses a canonical string array at `pos`.
#[verifier::loop_isolation(false)]
pub fn parse_sarr(input: &Vec<char>, pos: usize) -> (r: Option<(Vec<String>, usize)>)
    requires
        pos <= input@.len(),
    ensures
        r matches Some(t) ==> pos < t.1 <= input@.len() && input@.subrange(pos as int, t.1 as int)
            == sarr_text(str_views(t.0@)),
        forall|ts: Seq<Seq<char>>| lit_at(input@, pos as int, #[trigger] sarr_text(ts)) ==> (
        r matches Some(t) && str_views(t.0@) == ts && t.1 == pos + sarr_text(ts).len()),
{
    let n: usize = input.len();
    proof {
        reveal_strlit("[");
        reveal_strlit("]");
        reveal_strlit(",");
        assert("["@ =~= seq!['[']);
        assert("]"@ =~= seq![']']);
        assert(","@ =~= seq![',']);
    }
    let p0 = match tag(input, pos, "[") {
        Some(p) => p,
        None => {
            proof {
                assert forall|ts: Seq<Seq<char>>| !lit_at(
                    input@,
                    pos as int,
                    #[trigger] sarr_text(ts),
                ) by {
                    if lit_at(input@, pos as int, sarr_text(ts)) {
                        assert(sarr_text(ts) =~= seq!['['] + (sarr_body(ts) + seq![']']));
                        lemma_lit_split(input@, pos as int, seq!['['], sarr_body(ts) + seq![']']);
                        assert(lit_at(input@, pos as int, "["@));
                    }
                }
            }
            return None;
        },
    };
    if let Some(p1) = tag(input, p0, "]") {
        proof {
            assert(input@.subrange(pos as int, p1 as int) =~= sarr_text(
                str_views(Seq::<String>::empty()),
            ));
            assert forall|ts: Seq<Seq<char>>| lit_at(
                input@,
                pos as int,
                #[trigger] sarr_text(ts),
            ) implies ts =~= str_views(Seq::<String>::empty()) && pos + sarr_text(ts).len()
                == p1 by {
                if ts.len() > 0 {
                    assert(sarr_pre(Seq::<Seq<char>>::empty()) =~= Seq::<char>::empty());
                    assert(ts.take(0) =~= Seq::<Seq<char>>::empty());
                    lemma_sarr_elem(input@, pos as int, p0 as int, ts, Seq::empty());
                    assert(input@.subrange(p0 as int, p0 + quoted(ts[0]).len())[0] == quoted(
                        ts[0],
                    )[0]);
                    assert(input@.subrange(p0 as int, p0 + 1)[0] == ']');
                } else {
                    assert(sarr_text(ts).len() == 2);
                }
            }
        }
        let items: Vec<String> = Vec::new();
        assert(str_views(items@) =~= Seq::<String>::empty().map_values(|s: String| s@));
        return Some((items, p1));
    }
    let mut items: Vec<String> = Vec::new();
    let mut cur: usize = p0;
    proof {
        assert(str_views(items@) =~= Seq::<Seq<char>>::empty());
        assert(sarr_pre(Seq::<Seq<char>>::empty()) =~= Seq::<char>::empty());
        assert(input@.subrange(pos as int, pos + 1) =~= seq!['[']);
        assert(seq!['['] + sarr_pre(str_views(items@)) =~= seq!['[']);
        assert(lit_at(input@, pos as int, seq!['['] + sarr_pre(str_views(items@))));
        assert forall|ts: Seq<Seq<char>>| lit_at(
            input@,
            pos as int,
            #[trigger] sarr_text(ts),
        ) implies ts.len() > 0 by {
            if ts.len() == 0 {
                assert(sarr_text(ts) =~= seq!['[', ']']);
                assert(input@.subrange(pos as int, pos + 2)[1] == ']');
                assert(lit_at(input@, p0 as int, "]"@)) by {
                    assert(input@.subrange(p0 as int, p0 + 1) =~= seq![']']);
                }
            }
        }
    }
    loop
        invariant
            pos < p0 == pos + 1 <= cur <= n,
            n == input@.len(),
            cur == pos + 1 + sarr_pre(str_views(items@)).len(),
            lit_at(input@, pos as int, seq!['['] + sarr_pre(str_views(items@))),
            forall|ts: Seq<Seq<char>>| lit_at(input@, pos as int, #[trigger] sarr_text(ts)) ==> (
            ts.len() > items@.len() && ts.take(items@.len() as int) == str_views(items@)),
        decreases n - cur,
    {
        let ghost vs = str_views(items@);
        let ghost k = items@.len() as int;
        let (s, p) = match parse_qstr(input, cur) {
            Some(t) => t,
            None => {
                proof {
                    assert forall|ts: Seq<Seq<char>>| !lit_at(
                        input@,
                        pos as int,
                        #[trigger] sarr_text(ts),
                    ) by {
                        if lit_at(input@, pos as int, sarr_text(ts)) {
                            lemma_sarr_elem(input@, pos as int, cur as int, ts, vs);
                        }
                    }
                }
                return None;
            },
        };
        proof {
            assert forall|ts: Seq<Seq<char>>| lit_at(
                input@,
                pos as int,
                #[trigger] sarr_text(ts),
            ) implies ts[k] == s@ && cur + quoted(ts[k]).len() == p by {
                lemma_sarr_elem(input@, pos as int, cur as int, ts, vs);
            }
        }
        items.push(s);
        proof {
            assert(str_views(items@) =~= vs.push(s@));
            lemma_sarr_pre_push(vs, s@);
        }
        if let Some(p2) = tag(input, p, "]") {
            proof {
                lemma_sarr_body_push(vs, s@);
                assert(lit_at(input@, cur as int, quoted(s@)));
                assert(lit_at(input@, p as int, seq![']'])) by {
                    assert(input@.subrange(p as int, p2 as int) =~= seq![']']);
                }
                lemma_lit_split(input@, pos as int, seq!['['] + sarr_pre(vs), quoted(s@));
                lemma_lit_split(
                    input@,
                    pos as int,
                    (seq!['['] + sarr_pre(vs)) + quoted(s@),
                    seq![']'],
                );
                assert(((seq!['['] + sarr_pre(vs)) + quoted(s@)) + seq![']'] =~= sarr_text(
                    str_views(items@),
                ));
                assert(input@.subrange(pos as int, p2 as int) == sarr_text(str_views(items@)));
                assert forall|ts: Seq<Seq<char>>| lit_at(
                    input@,
                    pos as int,
                    #[trigger] sarr_text(ts),
                ) implies ts =~= str_views(items@) && pos + sarr_text(ts).len() == p2 by {
                    lemma_sarr_elem(input@, pos as int, cur as int, ts, vs);
                    assert(ts[k] == s@ && cur + quoted(ts[k]).len() == p);
                    if ts.len() > k + 1 {
                        assert(lit_at(input@, p as int, seq![',']));
                        assert(input@.subrange(p as int, p + 1)[0] == ',');
                        assert(lit_at(input@, p as int, "]"@));
                        assert(input@.subrange(p as int, p + 1)[0] == ']');
                    }
                    assert(ts.len() == k + 1);
                    assert forall|i: int| 0 <= i < k implies ts[i] == #[trigger] vs[i] by {
                        assert(ts.take(k)[i] == vs[i]);
                    }
                    assert(ts =~= str_views(items@));
                }
            }
            return Some((items, p2));
        }
        if let Some(p3) = tag(input, p, ",") {
            proof {
                assert forall|ts: Seq<Seq<char>>| lit_at(
                    input@,
                    pos as int,
                    #[trigger] sarr_text(ts),
                ) implies ts.len() > k + 1 && ts.take(k + 1) == str_views(items@) by {
                    lemma_sarr_elem(input@, pos as int, cur as int, ts, vs);
                    assert(ts[k] == s@ && cur + quoted(ts[k]).len() == p);
                    if ts.len() == k + 1 {
                        assert(lit_at(input@, p as int, seq![']']));
                        assert(input@.subrange(p as int, p + 1)[0] == ']');
                        assert(lit_at(input@, p as int, ","@));
                        assert(input@.subrange(p as int, p + 1)[0] == ',');
                    }
                    assert forall|i: int| 0 <= i < k implies ts.take(k + 1)[i] == #[trigger] vs[i] by {
                        assert(ts.take(k)[i] == vs[i]);
                    }
                    assert(ts.take(k + 1) =~= vs.push(ts[k]));
                }
                assert(lit_at(input@, cur as int, quoted(s@)));
                assert(lit_at(input@, p as int, seq![','])) by {
                    assert(input@.subrange(p as int, p3 as int) =~= seq![',']);
                }
                lemma_lit_split(input@, pos as int, seq!['['] + sarr_pre(vs), quoted(s@));
                lemma_lit_split(
                    input@,
                    pos as int,
                    (seq!['['] + sarr_pre(vs)) + quoted(s@),
                    seq![','],
                );
                assert(((seq!['['] + sarr_pre(vs)) + quoted(s@)) + seq![','] =~= seq!['[']
                    + sarr_pre(str_views(items@)));
                assert(lit_at(input@, pos as int, seq!['['] + sarr_pre(str_views(items@))));
            }
            cur = p3;
        } else {
            proof {
                assert forall|ts: Seq<Seq<char>>| !lit_at(
                    input@,
                    pos as int,
                    #[trigger] sarr_text(ts),
                ) by {
                    if lit_at(input@, pos as int, sarr_text(ts)) {
                        lemma_sarr_elem(input@, pos as int, cur as int, ts, vs);
                        if ts.len() == k + 1 {
                            assert(lit_at(input@, p as int, "]"@));
                        } else {
                            assert(lit_at(input@, p as int, ","@));
                        }
                    }
                }
            }
            return None;
        }
    }
}

/// The text of a run of byte-array elements, each followed by a comma.
pub open spec fn barr_pre(bs: Seq<u8>) -> Seq<char>
    decreases bs.len(),
{
    if bs.len() == 0 { Seq::empty() } else {
        dec(bs[0] as nat) + seq![','] + barr_pre(bs.skip(1))
    }
}

/// The body of a canonical byte array: decimal elements separated by commas.
pub open spec fn barr_body(bs: Seq<u8>) -> Seq<char>
    decreases bs.len(),
{
    if bs.len() == 0 { Seq::empty() } else if bs.len() == 1 { dec(bs[0] as nat) } else {
        dec(bs[0] as nat) + seq![','] + barr_body(bs.skip(1))
    }
}

/// The canonical text of a byte array.
pub open spec fn barr_text(bs: Seq<u8>) -> Seq<char> {
    seq!['['] + barr_body(bs) + seq![']']
}

proof fn lemma_barr_pre_push(bs: Seq<u8>, x: u8)
    ensures
        barr_pre(bs.push(x)) == barr_pre(bs) + dec(x as nat) + seq![','],
    decreases bs.len(),
{
    if bs.len() == 0 {
        assert(bs.push(x) =~= seq![x]);
        assert(seq![x].skip(1) =~= Seq::<u8>::empty());
        assert(barr_pre(Seq::<u8>::empty()) =~= Seq::<char>::empty());
        assert(seq![x][0] == x);
        assert(barr_pre(bs.push(x)) =~= barr_pre(bs) + dec(x as nat) + seq![',']);
    } else {
        assert(bs.push(x).skip(1) =~= bs.skip(1).push(x));
        lemma_barr_pre_push(bs.skip(1), x);
        assert(bs.push(x)[0] == bs[0]);
        assert(barr_pre(bs.push(x)) =~= barr_pre(bs) + dec(x as nat) + seq![',']);
    }
}

proof fn lemma_barr_body_push(bs: Seq<u8>, x: u8)
    ensures
        barr_body(bs.push(x)) == barr_pre(bs) + dec(x as nat),
    decreases bs.len(),
{
    if bs.len() == 0 {
        assert(bs.push(x) =~= seq![x]);
        assert(barr_body(bs.push(x)) =~= barr_pre(bs) + dec(x as nat));
    } else {
        assert(bs.push(x).skip(1) =~= bs.skip(1).push(x));
        lemma_barr_body_push(bs.skip(1), x);
        assert(bs.push(x)[0] == bs[0]);
        assert(barr_body(bs.push(x)) =~= barr_pre(bs) + dec(x as nat));
    }
}

proof fn lemma_barr_split(bs: Seq<u8>, k: int)
    requires
        0 <= k < bs.len(),
    ensures
        barr_body(bs) == barr_pre(bs.take(k)) + barr_body(bs.skip(k)),
    decreases k,
{
    if k == 0 {
        assert(bs.take(0) =~= Seq::<u8>::empty());
        assert(bs.skip(0) =~= bs);
        assert(barr_body(bs) =~= barr_pre(bs.take(0)) + barr_body(bs.skip(0)));
    } else {
        lemma_barr_split(bs, k - 1);
        let tail = bs.skip(k - 1);
        assert(tail.len() >= 2);
        assert(tail.skip(1) =~= bs.skip(k));
        assert(barr_body(tail) == dec(tail[0] as nat) + seq![','] + barr_body(bs.skip(k)));
        assert(bs.take(k) =~= bs.take(k - 1).push(bs[k - 1]));
        lemma_barr_pre_push(bs.take(k - 1), bs[k - 1]);
        assert(tail[0] == bs[k - 1]);
        assert(barr_body(bs) =~= barr_pre(bs.take(k)) + barr_body(bs.skip(k)));
    }
}

/// Where the next byte element stands, with its delimiter, for an array
/// matching at `pos` of which the first `ws` elements are already read.
proof fn lemma_barr_elem(inp: Seq<char>, pos: int, cur: int, bs: Seq<u8>, ws: Seq<u8>)
    requires
        lit_at(inp, pos, barr_text(bs)),
        ws.len() < bs.len(),
        bs.take(ws.len() as int) == ws,
        cur == pos + 1 + barr_pre(ws).len(),
    ensures
        num_at(inp, cur, bs[ws.len() as int] as nat),
        bs.len() == ws.len() + 1 ==> lit_at(
            inp,
            cur + dec(bs[ws.len() as int] as nat).len(),
            seq![']'],
        ),
        bs.len() > ws.len() + 1 ==> lit_at(
            inp,
            cur + dec(bs[ws.len() as int] as nat).len(),
            seq![','],
        ),
{
    let k = ws.len() as int;
    lemma_barr_split(bs, k);
    let rest = barr_body(bs.skip(k)) + seq![']'];
    assert(barr_text(bs) =~= seq!['['] + (barr_pre(ws) + rest));
    lemma_lit_split(inp, pos, seq!['['], barr_pre(ws) + rest);
    lemma_lit_split(inp, pos + 1, barr_pre(ws), rest);
    assert(lit_at(inp, cur, rest));
    let q = dec(bs[k] as nat);
    assert(bs.skip(k)[0] == bs[k]);
    if bs.len() == k + 1 {
        assert(barr_body(bs.skip(k)) == q);
        assert(rest =~= q + seq![']']);
        lemma_lit_split(inp, cur, q, seq![']']);
        assert(inp[cur + q.len()] == ']') by {
            assert(inp.subrange(cur + q.len(), cur + q.len() + 1)[0] == ']');
        }
    } else {
        assert(bs.skip(k).len() >= 2);
        assert(barr_body(bs.skip(k)) == q + seq![','] + barr_body(bs.skip(k).skip(1)));
        assert(rest =~= q + (seq![','] + (barr_body(bs.skip(k).skip(1)) + seq![']'])));
        lemma_lit_split(inp, cur, q, seq![','] + (barr_body(bs.skip(k).skip(1)) + seq![']']));
        lemma_lit_split(inp, cur + q.len(), seq![','], barr_body(bs.skip(k).skip(1)) + seq![']']);
        assert(inp[cur + q.len()] == ',') by {
            assert(inp.subrange(cur + q.len(), cur + q.len() + 1)[0] == ',');
        }
    }
}

/// Appends the canonical text of a byte array.
pub fn write_barr(out: &mut String, items: &Vec<u8>)
    ensures
        final(out)@ == old(out)@ + barr_text(items@),
{
    push_char(out, '[');
    let n: usize = items.len();
    let mut i: usize = 0;
    while i < n
        invariant
            i <= n,
            n == items@.len(),
            i == 0 ==> out@ == old(out)@.push('['),
            i > 0 ==> out@ == old(out)@.push('[') + barr_body(items@.take(i as int)),
        decreases n - i,
    {
        let ghost ws = items@.take(i as int);
        if i > 0 {
            push_char(out, ',');
        }
        write_u64(out, items[i] as u64);
        proof {
            assert(items@.take(i + 1) =~= ws.push(items@[i as int]));
            lemma_barr_body_push(ws, items@[i as int]);
            if i == 0 {
                assert(ws =~= Seq::<u8>::empty());
                assert(barr_pre(Seq::<u8>::empty()) =~= Seq::<char>::empty());
                assert(out@ =~= old(out)@.push('[') + barr_body(items@.take(i + 1)));
            } else {
                let prev = items@.take(i as int - 1);
                assert(ws =~= prev.push(items@[i as int - 1]));
                lemma_barr_body_push(prev, items@[i as int - 1]);
                lemma_barr_pre_push(prev, items@[i as int - 1]);
                assert(out@ =~= old(out)@.push('[') + barr_body(items@.take(i + 1)));
            }
        }
        i = i + 1;
    }
    push_char(out, ']');
    proof {
        if n == 0 {
            assert(barr_body(items@) =~= Seq::<char>::empty());
            assert(final(out)@ =~= old(out)@ + barr_text(items@));
        } else {
            assert(items@.take(n as int) =~= items@);
            assert(final(out)@ =~= old(out)@ + barr_text(items@));
        }
    }
}

/// Parses a canonical byte array at `pos`.
#[verifier::loop_isolation(false)]
pub fn parse_barr(input: &Vec<char>, pos: usize) -> (r: Option<(Vec<u8>, usize)>)
    requires
        pos <= input@.len(),
    ensures
        r matches Some(t) ==> pos < t.1 <= input@.len() && input@.subrange(pos as int, t.1 as int)
            == barr_text(t.0@),
        forall|bs: Seq<u8>| lit_at(input@, pos as int, #[trigger] barr_text(bs)) ==> (r matches Some(
            t,
        ) && t.0@ == bs && t.1 == pos + barr_text(bs).len()),
{
    let n: usize = input.len();
    proof {
        reveal_strlit("[");
        reveal_strlit("]");
        reveal_strlit(",");
        assert("["@ =~= seq!['[']);
        assert("]"@ =~= seq![']']);
        assert(","@ =~= seq![',']);
    }
    let p0 = match tag(input, pos, "[") {
        Some(p) => p,
        None => {
            proof {
                assert forall|bs: Seq<u8>| !lit_at(input@, pos as int, #[trigger] barr_text(bs)) by {
                    if lit_at(input@, pos as int, barr_text(bs)) {
                        assert(barr_text(bs) =~= seq!['['] + (barr_body(bs) + seq![']']));
                        lemma_lit_split(input@, pos as int, seq!['['], barr_body(bs) + seq![']']);
                        assert(lit_at(input@, pos as int, "["@));
                    }
                }
            }
            return None;
        },
    };
    if let Some(p1) = tag(input, p0, "]") {
        proof {
            assert(input@.subrange(pos as int, p1 as int) =~= barr_text(Seq::<u8>::empty()));
            assert forall|bs: Seq<u8>| lit_at(
                input@,
                pos as int,
                #[trigger] barr_text(bs),
            ) implies bs =~= Seq::<u8>::empty() && pos + barr_text(bs).len() == p1 by {
                if bs.len() > 0 {
                    assert(barr_pre(Seq::<u8>::empty()) =~= Seq::<char>::empty());
                    assert(bs.take(0) =~= Seq::<u8>::empty());
                    lemma_barr_elem(input@, pos as int, p0 as int, bs, Seq::empty());
                    lemma_dec_shape(bs[0] as nat);
                    assert(input@.subrange(p0 as int, p0 + dec(bs[0] as nat).len())[0] == dec(
                        bs[0] as nat,
                    )[0]);
                    assert(input@.subrange(p0 as int, p0 + 1)[0] == ']');
                } else {
                    assert(barr_text(bs).len() == 2);
                }
            }
        }
        let items: Vec<u8> = Vec::new();
        return Some((items, p1));
    }
    let mut items: Vec<u8> = Vec::new();
    let mut cur: usize = p0;
    proof {
        assert(barr_pre(Seq::<u8>::empty()) =~= Seq::<char>::empty());
        assert(input@.subrange(pos as int, pos + 1) =~= seq!['[']);
        assert(seq!['['] + barr_pre(items@) =~= seq!['[']);
        assert(lit_at(input@, pos as int, seq!['['] + barr_pre(items@)));
        assert forall|bs: Seq<u8>| lit_at(
            input@,
            pos as int,
            #[trigger] barr_text(bs),
        ) implies bs.len() > 0 by {
            if bs.len() == 0 {
                assert(barr_text(bs) =~= seq!['[', ']']);
                assert(input@.subrange(pos as int, pos + 2)[1] == ']');
                assert(lit_at(input@, p0 as int, "]"@)) by {
                    assert(input@.subrange(p0 as int, p0 + 1) =~= seq![']']);
                }
            }
        }
    }
    loop
        invariant
            pos < p0 == pos + 1 <= cur <= n,
            n == input@.len(),
            cur == pos + 1 + barr_pre(items@).len(),
            lit_at(input@, pos as int, seq!['['] + barr_pre(items@)),
            forall|bs: Seq<u8>| lit_at(input@, pos as int, #[trigger] barr_text(bs)) ==> (bs.len()
                > items@.len() && bs.take(items@.len() as int) == items@),
        decreases n - cur,
    {
        let ghost ws = items@;
        let ghost k = items@.len() as int;
        let (v, p) = match parse_num(input, cur) {
            Some(t) => t,
            None => {
                proof {
                    assert forall|bs: Seq<u8>| !lit_at(
                        input@,
                        pos as int,
                        #[trigger] barr_text(bs),
                    ) by {
                        if lit_at(input@, pos as int, barr_text(bs)) {
                            lemma_barr_elem(input@, pos as int, cur as int, bs, ws);
                        }
                    }
                }
                return None;
            },
        };
        proof {
            assert forall|bs: Seq<u8>| lit_at(
                input@,
                pos as int,
                #[trigger] barr_text(bs),
            ) implies bs[k] as nat == v as nat && cur + dec(bs[k] as nat).len() == p by {
                lemma_barr_elem(input@, pos as int, cur as int, bs, ws);
            }
        }
        if v > 255 {
            proof {
                assert forall|bs: Seq<u8>| !lit_at(
                    input@,
                    pos as int,
                    #[trigger] barr_text(bs),
                ) by {
                    if lit_at(input@, pos as int, barr_text(bs)) {
                        assert(bs[k] as nat == v as nat);
                    }
                }
            }
            return None;
        }
        let b: u8 = v as u8;
        items.push(b);
        proof {
            assert(items@ =~= ws.push(b));
            lemma_barr_pre_push(ws, b);
        }
        if let Some(p2) = tag(input, p, "]") {
            proof {
                lemma_barr_body_push(ws, b);
                assert(lit_at(input@, cur as int, dec(b as nat)));
                assert(lit_at(input@, p as int, seq![']'])) by {
                    assert(input@.subrange(p as int, p2 as int) =~= seq![']']);
                }
                lemma_lit_split(input@, pos as int, seq!['['] + barr_pre(ws), dec(b as nat));
                lemma_lit_split(
                    input@,
                    pos as int,
                    (seq!['['] + barr_pre(ws)) + dec(b as nat),
                    seq![']'],
                );
                assert(((seq!['['] + barr_pre(ws)) + dec(b as nat)) + seq![']'] =~= barr_text(
                    items@,
                ));
                assert(input@.subrange(pos as int, p2 as int) == barr_text(items@));
                assert forall|bs: Seq<u8>| lit_at(
                    input@,
                    pos as int,
                    #[trigger] barr_text(bs),
                ) implies bs =~= items@ && pos + barr_text(bs).len() == p2 by {
                    lemma_barr_elem(input@, pos as int, cur as int, bs, ws);
                    assert(bs[k] as nat == v as nat && cur + dec(bs[k] as nat).len() == p);
                    if bs.len() > k + 1 {
                        assert(lit_at(input@, p as int, seq![',']));
                        assert(input@.subrange(p as int, p + 1)[0] == ',');
                        assert(input@.subrange(p as int, p + 1) =~= seq![']']);
                    }
                    assert(bs.len() == k + 1);
                    assert forall|i: int| 0 <= i < k implies bs[i] == #[trigger] ws[i] by {
                        assert(bs.take(k)[i] == ws[i]);
                    }
                    assert(bs =~= items@);
                }
            }
            return Some((items, p2));
        }
        if let Some(p3) = tag(input, p, ",") {
            proof {
                assert forall|bs: Seq<u8>| lit_at(
                    input@,
                    pos as int,
                    #[trigger] barr_text(bs),
                ) implies bs.len() > k + 1 && bs.take(k + 1) == items@ by {
                    lemma_barr_elem(input@, pos as int, cur as int, bs, ws);
                    assert(bs[k] as nat == v as nat && cur + dec(bs[k] as nat).len() == p);
                    if bs.len() == k + 1 {
                        assert(lit_at(input@, p as int, seq![']']));
                        assert(input@.subrange(p as int, p + 1)[0] == ']');
                        assert(input@.subrange(p as int, p + 1) =~= seq![',']);
                    }
                    assert forall|i: int| 0 <= i < k implies bs.take(k + 1)[i] == #[trigger] ws[i]
                        by {
                        assert(bs.take(k)[i] == ws[i]);
                    }
                    assert(bs.take(k + 1) =~= ws.push(bs[k]));
                }
                assert(lit_at(input@, cur as int, dec(b as nat)));
                assert(lit_at(input@, p as int, seq![','])) by {
                    assert(input@.subrange(p as int, p3 as int) =~= seq![',']);
                }
                lemma_lit_split(input@, pos as int, seq!['['] + barr_pre(ws), dec(b as nat));
                lemma_lit_split(
                    input@,
                    pos as int,
                    (seq!['['] + barr_pre(ws)) + dec(b as nat),
                    seq![','],
                );
                assert(((seq!['['] + barr_pre(ws)) + dec(b as nat)) + seq![','] =~= seq!['[']
                    + barr_pre(items@));
                assert(lit_at(input@, pos as int, seq!['['] + barr_pre(items@)));
            }
            cur = p3;
        } else {
            proof {
                assert forall|bs: Seq<u8>| !lit_at(
                    input@,
                    pos as int,
                    #[trigger] barr_text(bs),
                ) by {
                    if lit_at(input@, pos as int, barr_text(bs)) {
                        lemma_barr_elem(input@, pos as int, cur as int, bs, ws);
                        assert(bs[k] as nat == v as nat && cur + dec(bs[k] as nat).len() == p);
                        if bs.len() == k + 1 {
                            assert(lit_at(input@, p as int, "]"@));
                        } else {
                            assert(lit_at(input@, p as int, ","@));
                        }
                    }
                }
            }
            return None;
        }
    }
}

} // verus!
