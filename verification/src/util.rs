//! Text utilities over Unicode scalar sequences.

use vstd::prelude::*;

verus! {

/// The ASCII digit for a value below ten.
pub open spec fn digit_char(d: nat) -> char
    recommends
        d < 10,
{
    ((d + 48) as u8) as char
}

/// Decimal notation of a natural number, without sign or leading zeros.
pub open spec fn decimal(n: nat) -> Seq<char>
    decreases n,
{
    if n < 10 {
        seq![digit_char(n)]
    } else {
        decimal(n / 10).push(digit_char(n % 10))
    }
}

/// Appends one character to a string by `String::push`, which this contract
/// trusts to add exactly `c` at the end.
#[verifier::external_body]
fn push_char(s: &mut String, c: char)
    ensures
        final(s)@ == old(s)@.push(c),
{
    s.push(c);
}

fn digit(d: usize) -> (c: char)
    requires
        d < 10,
    ensures
        c == digit_char(d as nat),
{
    ((d as u8) + 48u8) as char
}

/// Decimal notation of `n`, as `format!("{n}")` writes it.
pub fn decimal_string(n: usize) -> (r: String)
    ensures
        r@ == decimal(n as nat),
    decreases n,
{
    if n < 10 {
        let mut s = String::new();
        push_char(&mut s, digit(n));
        assert(s@ =~= decimal(n as nat));
        s
    } else {
        let mut s = decimal_string(n / 10);
        push_char(&mut s, digit(n % 10));
        s
    }
}

/// The characters of a string slice, in order.
pub fn chars_of(s: &str) -> (v: Vec<char>)
    ensures
        v@ == s@,
{
    broadcast use vstd::string::group_string_axioms;
    let mut v: Vec<char> = Vec::new();
    for c in iter: s.chars()
        invariant
            v@ == iter.seq().take(iter.index() as int),
    {
        v.push(c);
    }
    v
}

/// A string holding exactly the given characters.
pub fn string_of(v: &Vec<char>) -> (r: String)
    ensures
        r@ == v@,
{
    let mut r = String::new();
    let mut i: usize = 0;
    while i < v.len()
        invariant
            i <= v.len(),
            r@ == v@.take(i as int),
        decreases v.len() - i,
    {
        push_char(&mut r, v[i]);
        assert(v@.take(i + 1) =~= v@.take(i as int).push(v@[i as int]));
        i = i + 1;
    }
    assert(v@.take(v.len() as int) =~= v@);
    r
}

/// `s` left-padded with zeros to at least `width` characters, as `{:0width$}` does.
pub open spec fn zero_pad(s: Seq<char>, width: nat) -> Seq<char> {
    if s.len() >= width {
        s
    } else {
        Seq::new((width - s.len()) as nat, |i: int| '0') + s
    }
}

/// Appends the decimal notation of `n`.
pub fn push_decimal(s: &mut String, n: usize)
    ensures
        final(s)@ == old(s)@ + decimal(n as nat),
{
    let digits = decimal_string(n);
    s.append(digits.as_str());
}

/// Decimal notation of `n`, left-padded with zeros to `width` characters.
pub fn zero_padded(n: usize, width: usize) -> (r: String)
    ensures
        r@ == zero_pad(decimal(n as nat), width as nat),
{
    let digits = decimal_string(n);
    let len = digits.as_str().unicode_len();
    let mut r = String::new();
    let mut k: usize = len;
    while k < width
        invariant
            len == decimal(n as nat).len(),
            len <= k,
            k == len || k <= width,
            r@ == Seq::new((k - len) as nat, |i: int| '0'),
        decreases width - k,
    {
        push_char(&mut r, '0');
        assert(r@ =~= Seq::new((k + 1 - len) as nat, |i: int| '0'));
        k = k + 1;
    }
    r.append(digits.as_str());
    assert(r@ =~= zero_pad(decimal(n as nat), width as nat));
    r
}

/// Whether `c` has the Unicode White_Space property, as `char::is_whitespace` decides.
pub open spec fn is_whitespace(c: char) -> bool {
    let u = c as u32;
    ||| 9 <= u <= 13
    ||| u == 32
    ||| u == 0x85
    ||| u == 0xA0
    ||| u == 0x1680
    ||| 0x2000 <= u <= 0x200A
    ||| u == 0x2028
    ||| u == 0x2029
    ||| u == 0x202F
    ||| u == 0x205F
    ||| u == 0x3000
}

pub fn whitespace(c: char) -> (b: bool)
    ensures
        b == is_whitespace(c),
{
    let u = c as u32;
    (9 <= u && u <= 13) || u == 32 || u == 0x85 || u == 0xA0 || u == 0x1680 || (0x2000 <= u && u
        <= 0x200A) || u == 0x2028 || u == 0x2029 || u == 0x202F || u == 0x205F || u == 0x3000
}

/// `s` without its leading whitespace.
pub open spec fn trim_start(s: Seq<char>) -> Seq<char>
    decreases s.len(),
{
    if s.len() > 0 && is_whitespace(s[0]) {
        trim_start(s.drop_first())
    } else {
        s
    }
}

/// `s` without its trailing whitespace.
pub open spec fn trim_end(s: Seq<char>) -> Seq<char>
    decreases s.len(),
{
    if s.len() > 0 && is_whitespace(s.last()) {
        trim_end(s.drop_last())
    } else {
        s
    }
}

/// `s` without leading and trailing whitespace, as `str::trim` gives it.
pub open spec fn trim(s: Seq<char>) -> Seq<char> {
    trim_end(trim_start(s))
}

proof fn lemma_trim_start_cut(s: Seq<char>) -> (a: int)
    ensures
        0 <= a <= s.len(),
        trim_start(s) == s.subrange(a, s.len() as int),
        forall|i: int| 0 <= i < a ==> is_whitespace(#[trigger] s[i]),
        a < s.len() ==> !is_whitespace(s[a]),
    decreases s.len(),
{
    if s.len() > 0 && is_whitespace(s[0]) {
        let rest = s.drop_first();
        let a1 = lemma_trim_start_cut(rest);
        assert(rest.subrange(a1, rest.len() as int) =~= s.subrange(a1 + 1, s.len() as int));
        assert forall|i: int| 0 <= i < a1 + 1 implies is_whitespace(#[trigger] s[i]) by {
            if i > 0 {
                assert(s[i] == rest[i - 1]);
            }
        }
        if a1 + 1 < s.len() {
            assert(s[a1 + 1] == rest[a1]);
        }
        a1 + 1
    } else {
        assert(s.subrange(0, s.len() as int) =~= s);
        0
    }
}

proof fn lemma_trim_end_cut(s: Seq<char>) -> (b: int)
    ensures
        0 <= b <= s.len(),
        trim_end(s) == s.subrange(0, b),
        forall|i: int| b <= i < s.len() ==> is_whitespace(#[trigger] s[i]),
        b > 0 ==> !is_whitespace(s[b - 1]),
    decreases s.len(),
{
    if s.len() > 0 && is_whitespace(s.last()) {
        let rest = s.drop_last();
        let b1 = lemma_trim_end_cut(rest);
        assert(rest.subrange(0, b1) =~= s.subrange(0, b1));
        assert forall|i: int| b1 <= i < s.len() implies is_whitespace(#[trigger] s[i]) by {
            if i < s.len() - 1 {
                assert(s[i] == rest[i]);
            }
        }
        if b1 > 0 {
            assert(s[b1 - 1] == rest[b1 - 1]);
        }
        b1
    } else {
        assert(s.subrange(0, s.len() as int) =~= s);
        s.len() as int
    }
}

/// Trimming removes whitespace at both ends and nothing else: the result is a
/// stretch of `s` with only whitespace before and after it, and it neither
/// starts nor ends with whitespace.
pub proof fn trim_cuts_only_outer_whitespace(s: Seq<char>)
    ensures
        exists|a: int, b: int|
            #![trigger s.subrange(a, b)]
            {
                &&& 0 <= a <= b <= s.len()
                &&& trim(s) == s.subrange(a, b)
                &&& forall|i: int| 0 <= i < a ==> is_whitespace(#[trigger] s[i])
                &&& forall|i: int| b <= i < s.len() ==> is_whitespace(#[trigger] s[i])
                &&& a < b ==> !is_whitespace(s[a]) && !is_whitespace(s[b - 1])
            },
{
    let a = lemma_trim_start_cut(s);
    let front = s.subrange(a, s.len() as int);
    let b1 = lemma_trim_end_cut(front);
    let b = a + b1;
    assert(front.subrange(0, b1) =~= s.subrange(a, b));
    assert forall|i: int| b <= i < s.len() implies is_whitespace(#[trigger] s[i]) by {
        assert(s[i] == front[i - a]);
    }
    if a < b {
        assert(s[b - 1] == front[b1 - 1]);
    }
    assert(trim(s) == s.subrange(a, b));
}

/// The characters of `v` without leading and trailing whitespace.
pub fn trim_chars(v: &Vec<char>) -> (r: Vec<char>)
    ensures
        r@ == trim(v@),
{
    let len = v.len();
    let mut lo: usize = 0;
    assert(v@.subrange(0, len as int) =~= v@);
    while lo < len && whitespace(v[lo])
        invariant
            lo <= len == v@.len(),
            trim_start(v@) == trim_start(v@.subrange(lo as int, len as int)),
        decreases len - lo,
    {
        assert(v@.subrange(lo as int, len as int).drop_first() =~= v@.subrange(
            lo + 1,
            len as int,
        ));
        lo = lo + 1;
    }
    let ghost front = v@.subrange(lo as int, len as int);
    assert(trim_start(v@) == front);
    let mut hi: usize = len;
    while hi > lo && whitespace(v[hi - 1])
        invariant
            lo <= hi <= len == v@.len(),
            front == v@.subrange(lo as int, len as int),
            trim_end(front) == trim_end(v@.subrange(lo as int, hi as int)),
        decreases hi - lo,
    {
        assert(v@.subrange(lo as int, hi as int).drop_last() =~= v@.subrange(
            lo as int,
            hi - 1,
        ));
        hi = hi - 1;
    }
    let mut r: Vec<char> = Vec::new();
    let mut i: usize = lo;
    while i < hi
        invariant
            lo <= i <= hi <= len == v@.len(),
            r@ == v@.subrange(lo as int, i as int),
        decreases hi - i,
    {
        r.push(v[i]);
        assert(r@ =~= v@.subrange(lo as int, i + 1));
        i = i + 1;
    }
    r
}

/// `text` cut to `max_chars` characters: a longer text keeps its first
/// `max_chars - 1` characters (none when `max_chars` is zero) followed by `…`.
pub open spec fn ellipsized(text: Seq<char>, max_chars: nat) -> Seq<char> {
    if text.len() <= max_chars {
        text
    } else {
        let keep: nat = if max_chars >= 1 { (max_chars - 1) as nat } else { 0 };
        text.take(keep as int).push('…')
    }
}

/// Shortens `text` to at most `max_chars` characters with a trailing ellipsis.
pub fn ellipsize(text: &str, max_chars: usize) -> (r: String)
    ensures
        r@ == ellipsized(text@, max_chars as nat),
{
    let chars = chars_of(text);
    if chars.len() <= max_chars {
        return String::from_str(text);
    }
    let keep = max_chars.saturating_sub(1);
    let mut out: Vec<char> = Vec::new();
    let mut i: usize = 0;
    while i < keep
        invariant
            keep < chars.len(),
            i <= keep,
            out@ == chars@.take(i as int),
        decreases keep - i,
    {
        out.push(chars[i]);
        assert(out@ =~= chars@.take(i + 1));
        i = i + 1;
    }
    out.push('…');
    string_of(&out)
}

/// The pieces of `s` between newline characters, as `str::split('\n')` yields them.
pub open spec fn split_lines(s: Seq<char>) -> Seq<Seq<char>>
    decreases s.len(),
{
    if s.len() == 0 {
        seq![Seq::empty()]
    } else {
        let pieces = split_lines(s.drop_last());
        if s.last() == '\n' {
            pieces.push(Seq::empty())
        } else {
            pieces.update(pieces.len() - 1, pieces.last().push(s.last()))
        }
    }
}

pub proof fn lemma_split_lines_nonempty(s: Seq<char>)
    ensures
        split_lines(s).len() >= 1,
    decreases s.len(),
{
    if s.len() > 0 {
        lemma_split_lines_nonempty(s.drop_last());
    }
}

/// The trimmed pieces that are not empty, in order.
pub open spec fn nonblank_trimmed(pieces: Seq<Seq<char>>) -> Seq<Seq<char>>
    decreases pieces.len(),
{
    if pieces.len() == 0 {
        Seq::empty()
    } else {
        let kept = nonblank_trimmed(pieces.drop_last());
        let t = trim(pieces.last());
        if t.len() > 0 {
            kept.push(t)
        } else {
            kept
        }
    }
}

/// The parts joined with `sep` between neighbours.
pub open spec fn join(parts: Seq<Seq<char>>, sep: Seq<char>) -> Seq<char>
    decreases parts.len(),
{
    if parts.len() == 0 {
        Seq::empty()
    } else if parts.len() == 1 {
        parts[0]
    } else {
        join(parts.drop_last(), sep) + sep + parts.last()
    }
}

/// The last `count` non-blank lines of `text`, trimmed and joined with `"; "`.
/// Lines are split at `\n`; a `\r` before it is whitespace and goes with the trim,
/// so this is what `str::lines` followed by `trim` and a blank filter gives.
pub open spec fn last_lines(text: Seq<char>, count: nat) -> Seq<char> {
    let kept = nonblank_trimmed(split_lines(text));
    let start = if kept.len() > count { kept.len() - count } else { 0 };
    join(kept.subrange(start, kept.len() as int), "; "@)
}

/// The last lines of a process output, for readable error messages.
pub fn tail_lines(text: &str, lines: usize) -> (r: String)
    ensures
        r@ == last_lines(text@, lines as nat),
{
    let chars = chars_of(text);
    let mut kept: Vec<Vec<char>> = Vec::new();
    let ghost mut kept_view: Seq<Seq<char>> = Seq::empty();
    let mut cur: Vec<char> = Vec::new();
    let mut i: usize = 0;
    assert(text@.take(0) =~= Seq::<char>::empty());
    while i < chars.len()
        invariant
            i <= chars.len(),
            chars@ == text@,
            cur@ == split_lines(text@.take(i as int)).last(),
            kept_view == nonblank_trimmed(split_lines(text@.take(i as int)).drop_last()),
            kept@.len() == kept_view.len(),
            forall|k: int| 0 <= k < kept_view.len() ==> #[trigger] kept@[k]@ == kept_view[k],
        decreases chars.len() - i,
    {
        let ghost prefix = text@.take(i as int);
        let ghost next = text@.take(i + 1);
        proof {
            assert(next.drop_last() =~= prefix);
            lemma_split_lines_nonempty(prefix);
        }
        let c = chars[i];
        if c == '\n' {
            let t = trim_chars(&cur);
            if t.len() > 0 {
                kept.push(t);
                proof {
                    kept_view = kept_view.push(t@);
                }
            }
            assert(split_lines(next).drop_last() =~= split_lines(prefix));
            cur = Vec::new();
            assert(cur@ =~= split_lines(next).last());
        } else {
            cur.push(c);
            assert(split_lines(next).drop_last() =~= split_lines(prefix).drop_last());
            assert(cur@ =~= split_lines(next).last());
        }
        i = i + 1;
    }
    assert(text@.take(chars.len() as int) =~= text@);
    let ghost pieces = split_lines(text@);
    proof {
        lemma_split_lines_nonempty(text@);
    }
    let t = trim_chars(&cur);
    if t.len() > 0 {
        kept.push(t);
        proof {
            kept_view = kept_view.push(t@);
        }
    }
    assert(pieces.drop_last().push(pieces.last()) =~= pieces);
    assert(kept_view == nonblank_trimmed(pieces));
    let total = kept.len();
    let start = if total > lines { total - lines } else { 0 };
    let mut r = String::new();
    let mut j: usize = start;
    while j < total
        invariant
            start <= j <= total == kept@.len() == kept_view.len(),
            forall|k: int| 0 <= k < kept_view.len() ==> #[trigger] kept@[k]@ == kept_view[k],
            r@ == join(kept_view.subrange(start as int, j as int), "; "@),
        decreases total - j,
    {
        let ghost done = kept_view.subrange(start as int, j as int);
        assert(kept_view.subrange(start as int, j + 1).drop_last() =~= done);
        if j > start {
            r.append("; ");
        } else {
            assert(done.len() == 0);
        }
        let piece = string_of(&kept[j]);
        r.append(piece.as_str());
        assert(kept@[j as int]@ == kept_view[j as int]);
        j = j + 1;
    }
    r
}

/// ASCII letters mapped to lower case, as `char::to_ascii_lowercase` does.
pub open spec fn ascii_lower(c: char) -> char {
    if 'A' <= c && c <= 'Z' {
        ((c as u32) + 32) as char
    } else {
        c
    }
}

pub fn to_ascii_lower(c: char) -> (r: char)
    ensures
        r == ascii_lower(c),
{
    if 'A' <= c && c <= 'Z' {
        ((c as u8) + 32u8) as char
    } else {
        c
    }
}

/// The number that a string of ASCII digits denotes.
pub open spec fn digits_value(s: Seq<char>) -> int
    decreases s.len(),
{
    if s.len() == 0 {
        0
    } else {
        digits_value(s.drop_last()) * 10 + (s.last() as int - 48)
    }
}

proof fn lemma_decimal_value(n: nat)
    ensures
        digits_value(decimal(n)) == n,
        decimal(n).len() >= 1,
    decreases n,
{
    if n >= 10 {
        lemma_decimal_value(n / 10);
        assert(decimal(n).drop_last() =~= decimal(n / 10));
        assert((n / 10) * 10 + n % 10 == n);
        assert(digit_char(n % 10) as int == n % 10 + 48);
        assert(decimal(n).last() == digit_char(n % 10));
        assert(digits_value(decimal(n)) == digits_value(decimal(n / 10)) * 10 + (n % 10));
    } else {
        assert(digit_char(n) as int == n + 48);
        assert(decimal(n).last() == digit_char(n));
        assert(digits_value(decimal(n)) == digits_value(decimal(n).drop_last()) * 10 + n);
        assert(seq![digit_char(n)].drop_last() =~= Seq::<char>::empty());
    }
}

proof fn lemma_zeros_value(k: nat)
    ensures
        digits_value(Seq::new(k, |i: int| '0')) == 0,
    decreases k,
{
    if k > 0 {
        assert(Seq::new(k, |i: int| '0').drop_last() =~= Seq::new((k - 1) as nat, |i: int| '0'));
        lemma_zeros_value((k - 1) as nat);
    }
}

proof fn lemma_leading_zeros_value(k: nat, s: Seq<char>)
    ensures
        digits_value(Seq::new(k, |i: int| '0') + s) == digits_value(s),
    decreases s.len(),
{
    let z = Seq::new(k, |i: int| '0');
    if s.len() == 0 {
        assert(z + s =~= z);
        lemma_zeros_value(k);
    } else {
        assert((z + s).drop_last() =~= z + s.drop_last());
        lemma_leading_zeros_value(k, s.drop_last());
    }
}

/// Zero padding keeps the number: the padded decimal notation of `n` denotes `n`.
pub proof fn zero_padded_denotes_number(n: nat, width: nat)
    ensures
        digits_value(zero_pad(decimal(n), width)) == n,
{
    lemma_decimal_value(n);
    if decimal(n).len() < width {
        lemma_leading_zeros_value((width - decimal(n).len()) as nat, decimal(n));
    }
}

/// An ellipsized text never exceeds its limit (one character when the limit is
/// zero), a text within the limit is returned whole, and a longer one keeps its
/// first characters and ends in the ellipsis.
pub proof fn ellipsized_fits(text: Seq<char>, max_chars: nat)
    ensures
        ellipsized(text, max_chars).len() <= if max_chars == 0 { 1 } else { max_chars },
        text.len() <= max_chars ==> ellipsized(text, max_chars) == text,
        text.len() > max_chars ==> ellipsized(text, max_chars).last() == '…',
        text.len() > max_chars && max_chars >= 1 ==> ellipsized(text, max_chars).len() == max_chars,
        text.len() > max_chars ==> forall|i: int|
            0 <= i < max_chars - 1 ==> #[trigger] ellipsized(text, max_chars)[i] == text[i],
        text.len() > max_chars && max_chars == 0 ==> ellipsized(text, max_chars) == seq!['…'],
{
    if text.len() > max_chars && max_chars == 0 {
        assert(ellipsized(text, max_chars) =~= seq!['…']);
    }
}

} // verus!
