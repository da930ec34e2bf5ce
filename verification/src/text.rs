//! Character-level helpers shared by the renderers: decimal and hexadecimal
//! numerals, character extraction, and row escaping.

use vstd::prelude::*;

verus! {

use vstd::std_specs::iter::IteratorSpec;
use vstd::string::StrSliceExecFns;

/// `String::push` appends one character to the end of the string.
pub assume_specification[ String::push ](s: &mut String, ch: char)
    ensures
        final(s)@ == old(s)@.push(ch),
;

/// The ASCII digit for a value below ten.
pub open spec fn digit_char(d: nat) -> char {
    (48 + d) as char
}

/// The decimal numeral of `n`, as `Display` writes it for unsigned integers.
pub open spec fn decimal(n: nat) -> Seq<char>
    decreases n,
{
    if n < 10 {
        seq![digit_char(n)]
    } else {
        decimal(n / 10).push(digit_char(n % 10))
    }
}

/// Appends the decimal numeral of `n`.
pub fn push_decimal(buf: &mut String, n: u64)
    ensures
        final(buf)@ == old(buf)@ + decimal(n as nat),
    decreases n,
{
    if n >= 10 {
        push_decimal(buf, n / 10);
    }
    let d: u8 = (n % 10) as u8;
    buf.push((48u8 + d) as char);
    proof {
        assert(decimal(n as nat) =~= if n < 10 { seq![digit_char(n as nat)] } else {
            decimal((n / 10) as nat).push(digit_char((n % 10) as nat))
        });
    }
}


/// The lowercase hexadecimal digit for a value below sixteen.
pub open spec fn hex_digit_char(d: nat) -> char {
    if d < 10 {
        (48 + d) as char
    } else {
        (87 + d) as char
    }
}

/// The last `k` lowercase hexadecimal digits of `n`, most significant first,
/// zero-padded: for `k == 16` and `n` a `u64`, what `{:016x}` writes.
pub open spec fn hex_digits(n: nat, k: nat) -> Seq<char>
    decreases k,
{
    if k == 0 {
        Seq::empty()
    } else {
        hex_digits(n / 16, (k - 1) as nat).push(hex_digit_char(n % 16))
    }
}

/// Whether `c` is a lowercase hexadecimal digit.
pub open spec fn is_lower_hex(c: char) -> bool {
    ('0' <= c && c <= '9') || ('a' <= c && c <= 'f')
}

/// The digits of [`hex_digits`] are `k` lowercase hexadecimal digits.
pub proof fn lemma_hex_digits_shape(n: nat, k: nat)
    ensures
        hex_digits(n, k).len() == k,
        forall|i: int| 0 <= i < k ==> is_lower_hex(#[trigger] hex_digits(n, k)[i]),
    decreases k,
{
    if k > 0 {
        lemma_hex_digits_shape(n / 16, (k - 1) as nat);
        let d = n % 16;
        assert(is_lower_hex(hex_digit_char(d)));
        assert forall|i: int| 0 <= i < k implies is_lower_hex(#[trigger] hex_digits(n, k)[i]) by {
            if i < k - 1 {
                assert(hex_digits(n, k)[i] == hex_digits(n / 16, (k - 1) as nat)[i]);
            }
        }
    }
}

/// Appends the last `k` lowercase hexadecimal digits of `n`.
pub fn push_hex_digits(buf: &mut String, n: u64, k: u32)
    ensures
        final(buf)@ == old(buf)@ + hex_digits(n as nat, k as nat),
    decreases k,
{
    if k > 0 {
        push_hex_digits(buf, n / 16, k - 1);
        let d: u8 = (n % 16) as u8;
        if d < 10 {
            buf.push((48u8 + d) as char);
        } else {
            buf.push((87u8 + d) as char);
        }
    }
    proof {
        assert(hex_digits(n as nat, k as nat) =~= if k == 0 { Seq::<char>::empty() } else {
            hex_digits((n / 16) as nat, (k - 1) as nat).push(hex_digit_char((n % 16) as nat))
        });
    }
}

/// The characters of a string slice, in order.
pub fn chars_of(s: &str) -> (v: Vec<char>)
    ensures
        v@ == s@,
{
    broadcast use vstd::string::group_string_axioms;

    let n = s.unicode_len();
    let mut it = s.chars();
    let mut v: Vec<char> = Vec::new();
    let mut i: usize = 0;
    while i < n
        invariant
            n == s@.len(),
            i == v@.len(),
            v@ + it.remaining() == s@,
            it.obeys_prophetic_iter_laws(),
        decreases n - i,
    {
        if let Some(c) = it.next() {
            v.push(c);
        }
        i = i + 1;
    }
    v
}

/// The escape sequence that stands for one character inside a tabular row:
/// backslash, newline, carriage return and comma get a backslash in front
/// (newline and carriage return as `\n` and `\r`); every other character
/// stands for itself.
pub open spec fn escape_char(c: char) -> Seq<char> {
    if c == '\\' {
        seq!['\\', '\\']
    } else if c == '\n' {
        seq!['\\', 'n']
    } else if c == '\r' {
        seq!['\\', 'r']
    } else if c == ',' {
        seq!['\\', ',']
    } else {
        seq![c]
    }
}

/// The escaped form of a character sequence, one escape per character.
pub open spec fn escape_seq(s: Seq<char>) -> Seq<char>
    decreases s.len(),
{
    if s.len() == 0 {
        Seq::empty()
    } else {
        escape_char(s[0]) + escape_seq(s.drop_first())
    }
}

/// Escaping one more character appends its escape.
pub proof fn lemma_escape_push(s: Seq<char>, c: char)
    ensures
        escape_seq(s.push(c)) == escape_seq(s) + escape_char(c),
    decreases s.len(),
{
    if s.len() == 0 {
        assert(s.push(c).drop_first() =~= Seq::<char>::empty());
        assert(s.push(c)[0] == c);
        assert(escape_seq(Seq::<char>::empty()) =~= Seq::<char>::empty());
        assert(escape_seq(s.push(c)) =~= escape_char(c));
        assert(escape_seq(s) + escape_char(c) =~= escape_char(c));
    } else {
        assert(s.push(c).drop_first() =~= s.drop_first().push(c));
        lemma_escape_push(s.drop_first(), c);
        assert(escape_seq(s.push(c)) =~= escape_seq(s) + escape_char(c));
    }
}

/// The character that a backslash escape `\x` stands for.
pub open spec fn unescape_char(x: char) -> char {
    if x == 'n' {
        '\n'
    } else if x == 'r' {
        '\r'
    } else {
        x
    }
}

/// Reads an escaped row field back: a backslash and the next character
/// stand for one character, any other character for itself.
pub open spec fn unescape_seq(s: Seq<char>) -> Seq<char>
    decreases s.len(),
{
    if s.len() == 0 {
        Seq::empty()
    } else if s[0] == '\\' && s.len() >= 2 {
        seq![unescape_char(s[1])] + unescape_seq(s.skip(2))
    } else {
        seq![s[0]] + unescape_seq(s.drop_first())
    }
}

/// Law: escaping loses nothing; reading the escaped field back gives the
/// original content.
pub proof fn law_escape_roundtrip(s: Seq<char>)
    ensures
        unescape_seq(escape_seq(s)) == s,
    decreases s.len(),
{
    if s.len() > 0 {
        law_escape_roundtrip(s.drop_first());
        let e = escape_char(s[0]);
        let rest = escape_seq(s.drop_first());
        assert(escape_seq(s) == e + rest);
        if e.len() == 2 {
            assert((e + rest).skip(2) =~= rest);
        } else {
            assert((e + rest).drop_first() =~= rest);
        }
        assert(unescape_seq(escape_seq(s)) =~= s);
    }
}

/// Law: an escaped field holds no newline and no carriage return, so a row
/// stays on one line.
pub proof fn law_escape_single_line(s: Seq<char>)
    ensures
        !escape_seq(s).contains('\n'),
        !escape_seq(s).contains('\r'),
    decreases s.len(),
{
    if s.len() > 0 {
        law_escape_single_line(s.drop_first());
        let e = escape_char(s[0]);
        let rest = escape_seq(s.drop_first());
        assert(escape_seq(s) == e + rest);
        assert forall|k: int| 0 <= k < (e + rest).len() implies (e + rest)[k] != '\n' && (e
            + rest)[k] != '\r' by {
            if k >= e.len() {
                assert((e + rest)[k] == rest[k - e.len()]);
            }
        }
    }
}

/// Escapes a line's content for a single-line tabular row.
pub fn escape_content(s: &str) -> (r: String)
    ensures
        r@ == escape_seq(s@),
{
    let cs = chars_of(s);
    let mut r = String::new();
    let mut i: usize = 0;
    while i < cs.len()
        invariant
            i <= cs@.len(),
            cs@ == s@,
            r@ == escape_seq(cs@.take(i as int)),
        decreases cs@.len() - i,
    {
        let c = cs[i];
        if c == '\\' {
            r.push('\\');
            r.push('\\');
        } else if c == '\n' {
            r.push('\\');
            r.push('n');
        } else if c == '\r' {
            r.push('\\');
            r.push('r');
        } else if c == ',' {
            r.push('\\');
            r.push(',');
        } else {
            r.push(c);
        }
        proof {
            assert(cs@.take(i + 1) =~= cs@.take(i as int).push(c));
            lemma_escape_push(cs@.take(i as int), c);
        }
        i = i + 1;
    }
    proof {
        assert(cs@.take(cs@.len() as int) =~= cs@);
    }
    r
}


/// Whether `c` has the Unicode `White_Space` property, the set that
/// `str::trim` removes.
pub open spec fn is_white_space(c: char) -> bool {
    let u = c as u32;
    ||| 0x09 <= u <= 0x0D
    ||| u == 0x20
    ||| u == 0x85
    ||| u == 0xA0
    ||| u == 0x1680
    ||| 0x2000 <= u <= 0x200A
    ||| u == 0x2028
    ||| u == 0x2029
    ||| u == 0x202F
    ||| u == 0x205F
    ||| u == 0x3000
}

/// Decides [`is_white_space`].
pub fn white_space(c: char) -> (b: bool)
    ensures
        b == is_white_space(c),
{
    let u = c as u32;
    (0x09 <= u && u <= 0x0D) || u == 0x20 || u == 0x85 || u == 0xA0 || u == 0x1680 || (0x2000
        <= u && u <= 0x200A) || u == 0x2028 || u == 0x2029 || u == 0x202F || u == 0x205F || u
        == 0x3000
}

/// `s` without its leading white space.
pub open spec fn trim_start(s: Seq<char>) -> Seq<char>
    decreases s.len(),
{
    if s.len() > 0 && is_white_space(s[0]) {
        trim_start(s.drop_first())
    } else {
        s
    }
}

/// `s` without its trailing white space.
pub open spec fn trim_end(s: Seq<char>) -> Seq<char>
    decreases s.len(),
{
    if s.len() > 0 && is_white_space(s.last()) {
        trim_end(s.drop_last())
    } else {
        s
    }
}

/// `s` without leading and trailing white space, as `str::trim` gives it.
pub open spec fn trimmed(s: Seq<char>) -> Seq<char> {
    trim_end(trim_start(s))
}

proof fn lemma_trim_start_shape(s: Seq<char>)
    ensures
        trim_start(s).len() > 0 ==> !is_white_space(trim_start(s)[0]),
    decreases s.len(),
{
    if s.len() > 0 && is_white_space(s[0]) {
        lemma_trim_start_shape(s.drop_first());
    }
}

proof fn lemma_trim_end_shape(s: Seq<char>)
    ensures
        trim_end(s).len() <= s.len(),
        trim_end(s) == s.take(trim_end(s).len() as int),
        trim_end(s).len() > 0 ==> !is_white_space(trim_end(s).last()),
    decreases s.len(),
{
    if s.len() > 0 && is_white_space(s.last()) {
        lemma_trim_end_shape(s.drop_last());
        let t = trim_end(s.drop_last());
        assert(s.drop_last().take(t.len() as int) =~= s.take(t.len() as int));
    } else {
        assert(s.take(s.len() as int) =~= s);
    }
}

/// Law: trimming twice is trimming once; a trimmed text starts and ends
/// with no white space.
pub proof fn law_trim_idempotent(s: Seq<char>)
    ensures
        trimmed(trimmed(s)) == trimmed(s),
{
    let t = trim_start(s);
    let u = trim_end(t);
    lemma_trim_start_shape(s);
    lemma_trim_end_shape(t);
    if u.len() > 0 {
        assert(u[0] == t.take(u.len() as int)[0]);
        assert(u[0] == t[0]);
    }
    assert(trim_start(u) == u);
    assert(trim_end(u) == u);
}

/// The string made of the characters `cs[from..to]`.
pub fn string_of_range(cs: &Vec<char>, from: usize, to: usize) -> (r: String)
    requires
        from <= to <= cs@.len(),
    ensures
        r@ == cs@.subrange(from as int, to as int),
{
    let mut r = String::new();
    let mut i = from;
    while i < to
        invariant
            from <= i <= to <= cs@.len(),
            r@ == cs@.subrange(from as int, i as int),
        decreases to - i,
    {
        r.push(cs[i]);
        proof {
            assert(cs@.subrange(from as int, i + 1) =~= cs@.subrange(from as int, i as int).push(
                cs@[i as int],
            ));
        }
        i = i + 1;
    }
    r
}

/// Removes leading and trailing white space.
pub fn trim(s: &str) -> (r: String)
    ensures
        r@ == trimmed(s@),
{
    let cs = chars_of(s);
    let n = cs.len();
    let mut a: usize = 0;
    proof {
        assert(cs@.skip(0) =~= cs@);
    }
    while a < n && white_space(cs[a])
        invariant
            a <= n == cs@.len(),
            cs@ == s@,
            trim_start(cs@.skip(a as int)) == trim_start(s@),
        decreases n - a,
    {
        proof {
            assert(cs@.skip(a as int).drop_first() =~= cs@.skip(a + 1));
        }
        a = a + 1;
    }
    proof {
        assert(trim_start(cs@.skip(a as int)) == cs@.skip(a as int));
        assert(cs@.skip(a as int) =~= cs@.subrange(a as int, n as int));
    }
    let mut b: usize = n;
    while b > a && white_space(cs[b - 1])
        invariant
            a <= b <= n == cs@.len(),
            trim_end(cs@.subrange(a as int, b as int)) == trimmed(s@),
        decreases b,
    {
        proof {
            assert(cs@.subrange(a as int, b as int).drop_last() =~= cs@.subrange(
                a as int,
                b - 1,
            ));
        }
        b = b - 1;
    }
    string_of_range(&cs, a, b)
}

} // verus!
