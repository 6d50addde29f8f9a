//! Character-level helpers shared by the cron and configuration code.

use vstd::prelude::*;
use vstd::std_specs::iter::IteratorSpec;

verus! {

broadcast use vstd::string::group_string_axioms;

/// Appends one character to a string (`String::push`).
#[verifier::external_body]
fn push_char(s: &mut String, c: char)
    ensures
        final(s)@ == old(s)@.push(c),
{
    s.push(c);
}

/// The characters of `s`, in order.
pub fn chars_of(s: &str) -> (r: Vec<char>)
    ensures
        r@ == s@,
{
    let mut out: Vec<char> = Vec::new();
    for c in iter: s.chars()
        invariant
            out@ == iter.seq().take(iter.index() as int),
    {
        out.push(c);
    }
    assert(out@ == s@);
    out
}

/// The string made of the characters of `v`, in order.
pub fn string_of(v: &[char]) -> (r: String)
    ensures
        r@ == v@,
{
    let mut s = String::new();
    let mut i: usize = 0;
    while i < v.len()
        invariant
            i <= v@.len(),
            s@ == v@.subrange(0, i as int),
        decreases v@.len() - i,
    {
        push_char(&mut s, v[i]);
        i = i + 1;
        assert(s@ == v@.subrange(0, i as int));
    }
    assert(v@.subrange(0, v@.len() as int) == v@);
    s
}

} // verus!

verus! {

/// The Unicode `White_Space` characters, which is what `char::is_whitespace`
/// and `str::split_whitespace` treat as blanks.
pub open spec fn is_ws(c: char) -> bool {
    let u = c as u32;
    ||| 0x9 <= u && u <= 0xd
    ||| u == 0x20
    ||| u == 0x85
    ||| u == 0xa0
    ||| u == 0x1680
    ||| 0x2000 <= u && u <= 0x200a
    ||| u == 0x2028
    ||| u == 0x2029
    ||| u == 0x202f
    ||| u == 0x205f
    ||| u == 0x3000
}

/// Whether `c` is a Unicode blank.
pub fn is_whitespace(c: char) -> (r: bool)
    ensures
        r == is_ws(c),
{
    let u = c as u32;
    (0x9 <= u && u <= 0xd) || u == 0x20 || u == 0x85 || u == 0xa0 || u == 0x1680 || (0x2000
        <= u && u <= 0x200a) || u == 0x2028 || u == 0x2029 || u == 0x202f || u == 0x205f || u
        == 0x3000
}

/// Every character of `s` is a blank (so `s.trim()` is empty).
pub open spec fn is_blank(s: Seq<char>) -> bool {
    forall|i: int| 0 <= i < s.len() ==> is_ws(#[trigger] s[i])
}

/// Whether every character of `s` is a blank.
pub fn all_blank(s: &[char]) -> (r: bool)
    ensures
        r == is_blank(s@),
{
    let mut i: usize = 0;
    while i < s.len()
        invariant
            i <= s@.len(),
            forall|k: int| 0 <= k < i ==> is_ws(#[trigger] s@[k]),
        decreases s@.len() - i,
    {
        if !is_whitespace(s[i]) {
            return false;
        }
        i = i + 1;
    }
    true
}

/// The longest prefix of `s` in which no character satisfies `stop`.
pub open spec fn prefix_before(s: Seq<char>, stop: spec_fn(char) -> bool) -> Seq<char>
    decreases s.len(),
{
    if s.len() == 0 || stop(s[0]) {
        Seq::empty()
    } else {
        seq![s[0]] + prefix_before(s.drop_first(), stop)
    }
}

/// `prefix_before` is a prefix, holds no stop character, and is followed by
/// a stop character unless it is all of `s`.
pub proof fn lemma_prefix_before(s: Seq<char>, stop: spec_fn(char) -> bool)
    ensures
        prefix_before(s, stop).len() <= s.len(),
        prefix_before(s, stop) == s.subrange(0, prefix_before(s, stop).len() as int),
        forall|k: int| 0 <= k < prefix_before(s, stop).len() ==> !stop(#[trigger] s[k]),
        prefix_before(s, stop).len() < s.len() ==> stop(s[prefix_before(s, stop).len() as int]),
        s.len() > 0 && !stop(s[0]) ==> prefix_before(s, stop).len() > 0,
    decreases s.len(),
{
    if s.len() > 0 && !stop(s[0]) {
        lemma_prefix_before(s.drop_first(), stop);
        let p = prefix_before(s.drop_first(), stop);
        assert forall|k: int| 0 <= k < prefix_before(s, stop).len() implies !stop(
            #[trigger] s[k],
        ) by {
            if k > 0 {
                assert(s[k] == s.drop_first()[k - 1]);
            }
        }
        assert(prefix_before(s, stop) == s.subrange(0, p.len() + 1 as int));
    }
}

/// If `s[i..j]` holds no stop character and `j` ends `s` or holds one, then
/// `s[i..j]` is the stop-free prefix of `s[i..]`.
pub proof fn lemma_prefix_before_exact(s: Seq<char>, stop: spec_fn(char) -> bool, i: int, j: int)
    requires
        0 <= i <= j <= s.len(),
        forall|k: int| i <= k < j ==> !stop(#[trigger] s[k]),
        j == s.len() || stop(s[j]),
    ensures
        prefix_before(s.skip(i), stop) == s.subrange(i, j),
    decreases j - i,
{
    if i == j {
        assert(s.skip(i).len() == 0 || stop(s.skip(i)[0]));
        assert(s.subrange(i, j) == Seq::<char>::empty());
    } else {
        lemma_prefix_before_exact(s, stop, i + 1, j);
        assert(s.skip(i).drop_first() == s.skip(i + 1));
        assert(!stop(s.skip(i)[0]));
        assert(s.subrange(i, j) == seq![s[i]] + s.subrange(i + 1, j));
    }
}

/// The blank predicate as a closure.
pub open spec fn blank() -> spec_fn(char) -> bool {
    |c: char| is_ws(c)
}

/// The words of `s`: its maximal runs of non-blank characters, in order
/// (`str::split_whitespace`).
pub open spec fn words(s: Seq<char>) -> Seq<Seq<char>>
    decreases s.len(),
{
    if s.len() == 0 {
        Seq::empty()
    } else if is_ws(s[0]) {
        words(s.drop_first())
    } else {
        let w = prefix_before(s, blank());
        proof {
            lemma_prefix_before(s, blank());
        }
        seq![w] + words(s.skip(w.len() as int))
    }
}

/// The views of a sequence of character vectors.
pub open spec fn views(v: Seq<Vec<char>>) -> Seq<Seq<char>> {
    v.map_values(|x: Vec<char>| x@)
}

/// The words of `s`, in order.
pub fn split_words(s: &[char]) -> (r: Vec<Vec<char>>)
    ensures
        views(r@) == words(s@),
{
    let mut out: Vec<Vec<char>> = Vec::new();
    let mut i: usize = 0;
    assert(s@.skip(0) == s@);
    assert(views(out@) == Seq::<Seq<char>>::empty());
    assert(views(out@) + words(s@) == words(s@));
    while i < s.len()
        invariant
            i <= s@.len(),
            words(s@) == views(out@) + words(s@.skip(i as int)),
        decreases s@.len() - i,
    {
        if is_whitespace(s[i]) {
            assert(s@.skip(i as int).drop_first() == s@.skip(i + 1));
            i = i + 1;
        } else {
            let mut w: Vec<char> = Vec::new();
            let mut j: usize = i;
            while j < s.len() && !is_whitespace(s[j])
                invariant
                    i <= j <= s@.len(),
                    w@ == s@.subrange(i as int, j as int),
                    forall|k: int| i <= k < j ==> !is_ws(#[trigger] s@[k]),
                decreases s@.len() - j,
            {
                w.push(s[j]);
                j = j + 1;
            }
            proof {
                lemma_prefix_before_exact(s@, blank(), i as int, j as int);
                assert(s@.skip(i as int).skip(j - i) == s@.skip(j as int));
                assert(views(out@.push(w)) == views(out@) + seq![w@]);
            }
            out.push(w);
            i = j;
        }
    }
    proof {
        assert(s@.skip(i as int).len() == 0);
        assert(views(out@) + Seq::<Seq<char>>::empty() == views(out@));
    }
    out
}

/// The parts joined with `sep` between consecutive parts (`[..].join(sep)`).
pub open spec fn join(parts: Seq<Seq<char>>, sep: Seq<char>) -> Seq<char>
    decreases parts.len(),
{
    if parts.len() == 0 {
        Seq::empty()
    } else if parts.len() == 1 {
        parts[0]
    } else {
        join(parts.drop_last(), sep) + sep + parts.last()
    }
}

/// Appends the characters of `s` to `out`.
pub fn append_chars(out: &mut Vec<char>, s: &[char])
    ensures
        final(out)@ == old(out)@ + s@,
{
    let mut i: usize = 0;
    while i < s.len()
        invariant
            i <= s@.len(),
            out@ == old(out)@ + s@.subrange(0, i as int),
        decreases s@.len() - i,
    {
        out.push(s[i]);
        i = i + 1;
        assert(out@ == old(out)@ + s@.subrange(0, i as int));
    }
    assert(s@.subrange(0, s@.len() as int) == s@);
}

/// The parts joined with `sep`.
pub fn join_parts(parts: &Vec<Vec<char>>, sep: &[char]) -> (r: Vec<char>)
    ensures
        r@ == join(views(parts@), sep@),
{
    let mut out: Vec<char> = Vec::new();
    let mut i: usize = 0;
    while i < parts.len()
        invariant
            i <= parts@.len(),
            out@ == join(views(parts@).take(i as int), sep@),
        decreases parts@.len() - i,
    {
        proof {
            let t = views(parts@).take(i + 1);
            assert(t.drop_last() == views(parts@).take(i as int));
            assert(t.last() == parts@[i as int]@);
        }
        if i > 0 {
            append_chars(&mut out, sep);
        }
        append_chars(&mut out, parts[i].as_slice());
        i = i + 1;
    }
    assert(views(parts@).take(parts@.len() as int) == views(parts@));
    out
}

} // verus!

verus! {

/// The decimal digit character for `d < 10`.
pub open spec fn digit_char(d: nat) -> char {
    seq!['0', '1', '2', '3', '4', '5', '6', '7', '8', '9'][d as int]
}

/// The decimal representation of `n` (`n.to_string()` for unsigned `n`).
pub open spec fn decimal(n: nat) -> Seq<char>
    decreases n,
{
    if n < 10 {
        seq![digit_char(n)]
    } else {
        decimal(n / 10) + seq![digit_char(n % 10)]
    }
}

/// The decimal representation of a signed `n` (`n.to_string()`).
pub open spec fn signed_decimal(n: int) -> Seq<char> {
    if n < 0 {
        seq!['-'] + decimal((-n) as nat)
    } else {
        decimal(n as nat)
    }
}

fn digit_of(d: u64) -> (r: char)
    requires
        d < 10,
    ensures
        r == digit_char(d as nat),
{
    if d == 0 {
        '0'
    } else if d == 1 {
        '1'
    } else if d == 2 {
        '2'
    } else if d == 3 {
        '3'
    } else if d == 4 {
        '4'
    } else if d == 5 {
        '5'
    } else if d == 6 {
        '6'
    } else if d == 7 {
        '7'
    } else if d == 8 {
        '8'
    } else {
        '9'
    }
}

/// Appends the decimal representation of `n` to `out`.
pub fn push_decimal(out: &mut Vec<char>, n: u64)
    ensures
        final(out)@ == old(out)@ + decimal(n as nat),
    decreases n,
{
    if n < 10 {
        out.push(digit_of(n));
    } else {
        push_decimal(out, n / 10);
        out.push(digit_of(n % 10));
    }
}

/// Appends the decimal representation of the signed `n` to `out`.
pub fn push_signed_decimal(out: &mut Vec<char>, n: i64)
    ensures
        final(out)@ == old(out)@ + signed_decimal(n as int),
{
    if n < 0 {
        out.push('-');
        let m: u64 = (-(n as i128)) as u64;
        push_decimal(out, m);
    } else {
        push_decimal(out, n as u64);
    }
}

} // verus!

verus! {

/// Appends the characters of `s` to `out`.
pub fn push_str(out: &mut Vec<char>, s: &str)
    ensures
        final(out)@ == old(out)@ + s@,
{
    let c = chars_of(s);
    append_chars(out, c.as_slice());
}

} // verus!

verus! {

/// Whether two character sequences are equal.
pub fn chars_eq(a: &[char], b: &[char]) -> (r: bool)
    ensures
        r == (a@ == b@),
{
    if a.len() != b.len() {
        return false;
    }
    let mut i: usize = 0;
    while i < a.len()
        invariant
            a@.len() == b@.len(),
            i <= a@.len(),
            forall|k: int| 0 <= k < i ==> a@[k] == b@[k],
        decreases a@.len() - i,
    {
        if a[i] != b[i] {
            return false;
        }
        i = i + 1;
    }
    assert(a@ == b@);
    true
}

/// Whether two strings hold the same characters.
pub fn str_eq(a: &str, b: &str) -> (r: bool)
    ensures
        r == (a@ == b@),
{
    let x = chars_of(a);
    let y = chars_of(b);
    chars_eq(x.as_slice(), y.as_slice())
}

} // verus!

verus! {

/// The view of an optional string.
pub open spec fn opt_string_view(s: Option<String>) -> Option<Seq<char>> {
    match s {
        Some(x) => Some(x@),
        None => None,
    }
}

/// The views of a sequence of strings.
pub open spec fn string_views(v: Seq<String>) -> Seq<Seq<char>> {
    v.map_values(|s: String| s@)
}

/// The views of a sequence of string pairs.
pub open spec fn pair_views(v: Seq<(String, String)>) -> Seq<(Seq<char>, Seq<char>)> {
    v.map_values(|p: (String, String)| (p.0@, p.1@))
}

/// A copy of a list of strings.
pub fn copy_strings(v: &Vec<String>) -> (r: Vec<String>)
    ensures
        string_views(r@) == string_views(v@),
{
    let mut out: Vec<String> = Vec::new();
    let mut i: usize = 0;
    while i < v.len()
        invariant
            i <= v@.len(),
            string_views(out@) == string_views(v@.take(i as int)),
        decreases v@.len() - i,
    {
        let ghost before = out@;
        out.push(v[i].clone());
        assert(v@.take(i + 1) == v@.take(i as int).push(v@[i as int]));
        assert(string_views(out@) =~= string_views(before).push(v@[i as int]@));
        assert(string_views(v@.take(i + 1)) =~= string_views(v@.take(i as int)).push(v@[i as int]@));
        i = i + 1;
    }
    assert(v@.take(v@.len() as int) == v@);
    out
}

/// A copy of a list of string pairs.
pub fn copy_pairs(v: &Vec<(String, String)>) -> (r: Vec<(String, String)>)
    ensures
        pair_views(r@) == pair_views(v@),
{
    let mut out: Vec<(String, String)> = Vec::new();
    let mut i: usize = 0;
    while i < v.len()
        invariant
            i <= v@.len(),
            pair_views(out@) == pair_views(v@.take(i as int)),
        decreases v@.len() - i,
    {
        let ghost before = out@;
        let a = v[i].0.clone();
        let b = v[i].1.clone();
        out.push((a, b));
        assert(v@.take(i + 1) == v@.take(i as int).push(v@[i as int]));
        assert(pair_views(out@) =~= pair_views(before).push((v@[i as int].0@, v@[i as int].1@)));
        assert(pair_views(v@.take(i + 1)) =~= pair_views(v@.take(i as int)).push(
            (v@[i as int].0@, v@[i as int].1@),
        ));
        i = i + 1;
    }
    assert(v@.take(v@.len() as int) == v@);
    out
}

/// A copy of an optional string.
pub fn copy_opt_string(s: &Option<String>) -> (r: Option<String>)
    ensures
        opt_string_view(r) == opt_string_view(*s),
{
    match s {
        Some(x) => Some(x.clone()),
        None => None,
    }
}

} // verus!

verus! {

/// `s` without its leading blanks (`str::trim_start`).
pub open spec fn trim_start(s: Seq<char>) -> Seq<char>
    decreases s.len(),
{
    if s.len() > 0 && is_ws(s[0]) {
        trim_start(s.drop_first())
    } else {
        s
    }
}

/// `s` without its trailing blanks (`str::trim_end`).
pub open spec fn trim_end(s: Seq<char>) -> Seq<char>
    decreases s.len(),
{
    if s.len() > 0 && is_ws(s.last()) {
        trim_end(s.drop_last())
    } else {
        s
    }
}

/// `s` without its leading and trailing blanks (`str::trim`).
pub open spec fn trimmed(s: Seq<char>) -> Seq<char> {
    trim_end(trim_start(s))
}

/// `s` without its leading and trailing blanks.
pub fn trim_chars(s: &str) -> (r: String)
    ensures
        r@ == trimmed(s@),
{
    let c = chars_of(s);
    let n = c.len();
    let mut a: usize = 0;
    assert(c@.subrange(0, n as int) =~= c@);
    while a < n && is_whitespace(c[a])
        invariant
            a <= n,
            n == c@.len(),
            trim_start(c@) == trim_start(c@.subrange(a as int, n as int)),
        decreases n - a,
    {
        assert(c@.subrange(a as int, n as int).drop_first() =~= c@.subrange(a + 1, n as int));
        a = a + 1;
    }
    let ghost rest = c@.subrange(a as int, n as int);
    assert(trim_start(c@) == rest) by {
        if a < n {
            assert(rest[0] == c@[a as int]);
        }
    }
    let mut b: usize = n;
    while b > a && is_whitespace(c[b - 1])
        invariant
            a <= b <= n,
            n == c@.len(),
            rest == c@.subrange(a as int, n as int),
            trim_end(rest) == trim_end(c@.subrange(a as int, b as int)),
        decreases b,
    {
        assert(c@.subrange(a as int, b as int).drop_last() =~= c@.subrange(a as int, b - 1));
        b = b - 1;
    }
    let ghost kept = c@.subrange(a as int, b as int);
    assert(trim_end(rest) == kept) by {
        if b > a {
            assert(kept.last() == c@[b - 1]);
        }
    }
    let mut out: Vec<char> = Vec::new();
    let mut i: usize = a;
    while i < b
        invariant
            a <= i <= b,
            b <= c@.len(),
            out@ == c@.subrange(a as int, i as int),
        decreases b - i,
    {
        out.push(c[i]);
        i = i + 1;
        assert(out@ =~= c@.subrange(a as int, i as int));
    }
    string_of(out.as_slice())
}

/// The ASCII lower case of a character; other characters are unchanged.
pub open spec fn ascii_lower(c: char) -> char {
    if 'A' <= c && c <= 'Z' {
        ((c as u32) + 32) as char
    } else {
        c
    }
}

/// `s` with its ASCII letters in lower case.
pub open spec fn lower_ascii(s: Seq<char>) -> Seq<char> {
    s.map_values(|c: char| ascii_lower(c))
}

/// The characters of `s`, with ASCII letters in lower case.
pub fn to_ascii_lower(s: &str) -> (r: Vec<char>)
    ensures
        r@ == lower_ascii(s@),
{
    let c = chars_of(s);
    let mut out: Vec<char> = Vec::new();
    let mut i: usize = 0;
    while i < c.len()
        invariant
            i <= c@.len(),
            out@ == lower_ascii(c@.take(i as int)),
        decreases c@.len() - i,
    {
        let ch = c[i];
        let low = if 'A' <= ch && ch <= 'Z' {
            let u: u32 = (ch as u32) + 32;
            assert(0x61 <= u && u <= 0x7a);
            char_of(u)
        } else {
            ch
        };
        out.push(low);
        i = i + 1;
        assert(out@ =~= lower_ascii(c@.take(i as int)));
    }
    assert(c@.take(c@.len() as int) =~= c@);
    out
}

/// The character with a code point of the basic Latin letters.
fn char_of(u: u32) -> (r: char)
    requires
        0x61 <= u <= 0x7a,
    ensures
        r == u as char,
{
    let b: u8 = u as u8;
    b as char
}

/// `s` padded with spaces on the right to `width` characters (`{:<width}`);
/// a longer `s` is kept whole.
pub open spec fn pad_right(s: Seq<char>, width: nat) -> Seq<char> {
    if s.len() < width {
        s + Seq::new((width - s.len()) as nat, |i: int| ' ')
    } else {
        s
    }
}

/// Appends `s` padded with spaces on the right to `width` characters.
pub fn push_padded(out: &mut Vec<char>, s: &str, width: usize)
    ensures
        final(out)@ == old(out)@ + pad_right(s@, width as nat),
{
    let c = chars_of(s);
    append_chars(out, c.as_slice());
    let mut k: usize = c.len();
    assert(out@ =~= old(out)@ + s@ + Seq::new((k - s@.len()) as nat, |i: int| ' '));
    while k < width
        invariant
            c@ == s@,
            k >= c@.len(),
            c@.len() < width ==> k <= width,
            c@.len() >= width ==> k == c@.len(),
            out@ =~= old(out)@ + s@ + Seq::new((k - s@.len()) as nat, |i: int| ' '),
        decreases width - k,
    {
        out.push(' ');
        k = k + 1;
        assert(out@ =~= old(out)@ + s@ + Seq::new((k - s@.len()) as nat, |i: int| ' '));
    }
    proof {
        let pad = Seq::new((k - s@.len()) as nat, |i: int| ' ');
        if s@.len() < width {
            assert(k == width);
            assert(pad_right(s@, width as nat) == s@ + pad);
            assert(old(out)@ + s@ + pad =~= old(out)@ + (s@ + pad));
        } else {
            assert(pad =~= Seq::<char>::empty());
            assert(old(out)@ + s@ + pad =~= old(out)@ + s@);
        }
    }
}

/// The first `n` characters of `s` (`s.chars().take(n)`).
pub open spec fn first_chars(s: Seq<char>, n: nat) -> Seq<char> {
    if s.len() <= n {
        s
    } else {
        s.take(n as int)
    }
}

/// The first `n` characters of `s`.
pub fn take_chars(s: &str, n: usize) -> (r: String)
    ensures
        r@ == first_chars(s@, n as nat),
{
    let c = chars_of(s);
    if c.len() <= n {
        string_of(c.as_slice())
    } else {
        let mut out: Vec<char> = Vec::new();
        let mut i: usize = 0;
        while i < n
            invariant
                i <= n < c@.len(),
                out@ == c@.take(i as int),
            decreases n - i,
        {
            out.push(c[i]);
            i = i + 1;
            assert(out@ =~= c@.take(i as int));
        }
        string_of(out.as_slice())
    }
}

} // verus!
