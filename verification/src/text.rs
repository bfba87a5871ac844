use vstd::prelude::*;

verus! {

/// Unicode `White_Space` code points, the set that `char::is_whitespace` and `str::trim` use.
pub open spec fn is_white_space(c: char) -> bool {
    ||| ('\u{9}' <= c && c <= '\u{d}')
    ||| c == ' '
    ||| c == '\u{85}'
    ||| c == '\u{a0}'
    ||| c == '\u{1680}'
    ||| ('\u{2000}' <= c && c <= '\u{200a}')
    ||| c == '\u{2028}'
    ||| c == '\u{2029}'
    ||| c == '\u{202f}'
    ||| c == '\u{205f}'
    ||| c == '\u{3000}'
}

/// A text is blank when trimming it leaves nothing: every character is white space.
pub open spec fn is_blank(s: Seq<char>) -> bool {
    forall|i: int| 0 <= i < s.len() ==> is_white_space(#[trigger] s[i])
}

pub fn white_space(c: char) -> (r: bool)
    ensures
        r == is_white_space(c),
{
    ('\u{9}' <= c && c <= '\u{d}') || c == ' ' || c == '\u{85}' || c == '\u{a0}' || c == '\u{1680}'
        || ('\u{2000}' <= c && c <= '\u{200a}') || c == '\u{2028}' || c == '\u{2029}' || c
        == '\u{202f}' || c == '\u{205f}' || c == '\u{3000}'
}

/// Whether `s.trim().is_empty()`.
pub fn blank(s: &str) -> (r: bool)
    ensures
        r == is_blank(s@),
{
    for c in it: s.chars()
        invariant
            it.seq() == s@,
            forall|j: int| 0 <= j < it.index() ==> is_white_space(#[trigger] s@[j]),
    {
        if !white_space(c) {
            return false;
        }
    }
    true
}

/// The characters of a text, one by one.
pub fn chars_of(s: &str) -> (r: Vec<char>)
    ensures
        r@ == s@,
{
    let mut r: Vec<char> = Vec::new();
    for c in it: s.chars()
        invariant
            it.seq() == s@,
            r@ == s@.take(it.index() as int),
    {
        r.push(c);
        assert(r@ =~= s@.take(it.index() + 1));
    }
    assert(s@.take(s@.len() as int) =~= s@);
    r
}

/// Calls `String::push`, which appends one character. Claimed: the text grows by that character.
#[verifier::external_body]
pub(crate) fn push_char(s: &mut String, c: char)
    ensures
        final(s)@ == old(s)@.push(c),
{
    s.push(c)
}

/// A text made of the given characters.
pub fn string_from_chars(chars: &Vec<char>) -> (r: String)
    ensures
        r@ == chars@,
{
    let mut r = String::new();
    for i in 0..chars.len()
        invariant
            r@ == chars@.take(i as int),
    {
        push_char(&mut r, chars[i]);
        assert(r@ =~= chars@.take(i + 1));
    }
    assert(chars@.take(chars.len() as int) =~= chars@);
    r
}

/// A text made of the characters `from..to` of `chars`.
pub fn string_from_range(chars: &Vec<char>, from: usize, to: usize) -> (r: String)
    requires
        from <= to <= chars.len(),
    ensures
        r@ == chars@.subrange(from as int, to as int),
{
    let mut r = String::new();
    let mut i = from;
    while i < to
        invariant
            from <= i <= to <= chars.len(),
            r@ == chars@.subrange(from as int, i as int),
        decreases to - i,
    {
        push_char(&mut r, chars[i]);
        assert(r@ =~= chars@.subrange(from as int, i + 1));
        i = i + 1;
    }
    r
}

/// Whether two texts hold the same characters.
pub fn same_chars(a: &Vec<char>, b: &Vec<char>) -> (r: bool)
    ensures
        r == (a@ == b@),
{
    if a.len() != b.len() {
        return false;
    }
    for i in 0..a.len()
        invariant
            a.len() == b.len(),
            forall|j: int| 0 <= j < i ==> a@[j] == b@[j],
    {
        if a[i] != b[i] {
            return false;
        }
    }
    assert(a@ =~= b@);
    true
}

/// Whether two texts are equal, as `==` on `str` decides.
pub fn same_text(a: &str, b: &str) -> (r: bool)
    ensures
        r == (a@ == b@),
{
    let ac = chars_of(a);
    let bc = chars_of(b);
    same_chars(&ac, &bc)
}

pub open spec fn starts_with(s: Seq<char>, prefix: Seq<char>) -> bool {
    prefix.len() <= s.len() && s.subrange(0, prefix.len() as int) == prefix
}

/// Whether `s.starts_with(prefix)`.
pub fn text_starts_with(s: &str, prefix: &str) -> (r: bool)
    ensures
        r == starts_with(s@, prefix@),
{
    let sc = chars_of(s);
    let pc = chars_of(prefix);
    if pc.len() > sc.len() {
        return false;
    }
    for i in 0..pc.len()
        invariant
            pc.len() <= sc.len(),
            sc@ == s@,
            pc@ == prefix@,
            forall|j: int| 0 <= j < i ==> sc@[j] == pc@[j],
    {
        if sc[i] != pc[i] {
            assert(sc@.subrange(0, pc@.len() as int)[i as int] == sc@[i as int]);
            assert(sc@.subrange(0, pc@.len() as int) != pc@);
            assert(!starts_with(sc@, pc@));
            return false;
        }
    }
    assert(sc@.subrange(0, pc@.len() as int) =~= pc@);
    true
}

/// The ASCII lower-case form of a character; others are kept.
pub open spec fn ascii_lower(c: char) -> char {
    if 'A' <= c && c <= 'Z' {
        ((c as u32) + 32) as char
    } else {
        c
    }
}

/// What `to_ascii_lowercase` gives.
pub open spec fn ascii_lowercase(s: Seq<char>) -> Seq<char> {
    s.map_values(|c: char| ascii_lower(c))
}

pub fn lower_char(c: char) -> (r: char)
    ensures
        r == ascii_lower(c),
{
    if 'A' <= c && c <= 'Z' {
        let b: u8 = c as u8;
        assert(b as u32 == c as u32);
        ((b + 32) as char)
    } else {
        c
    }
}

/// `to_ascii_lowercase` on a run of characters.
pub fn lowercase_chars(chars: &Vec<char>) -> (r: Vec<char>)
    ensures
        r@ == ascii_lowercase(chars@),
{
    let mut r: Vec<char> = Vec::new();
    for i in 0..chars.len()
        invariant
            r@ == ascii_lowercase(chars@.take(i as int)),
    {
        r.push(lower_char(chars[i]));
        assert(r@ =~= ascii_lowercase(chars@.take(i + 1)));
    }
    assert(chars@.take(chars.len() as int) =~= chars@);
    r
}

/// The position of the last character of `s` that is `sep`, or -1 where there is none.
pub open spec fn last_index_of(s: Seq<char>, sep: char) -> int
    decreases s.len(),
{
    if s.len() == 0 {
        -1
    } else if s.last() == sep {
        s.len() - 1
    } else {
        last_index_of(s.drop_last(), sep)
    }
}

pub proof fn lemma_last_index_of_bounds(s: Seq<char>, sep: char)
    ensures
        -1 <= last_index_of(s, sep) < s.len(),
        last_index_of(s, sep) >= 0 ==> s[last_index_of(s, sep)] == sep,
        forall|j: int| last_index_of(s, sep) < j < s.len() ==> s[j] != sep,
    decreases s.len(),
{
    if s.len() > 0 && s.last() != sep {
        lemma_last_index_of_bounds(s.drop_last(), sep);
        assert forall|j: int| last_index_of(s, sep) < j < s.len() implies s[j] != sep by {
            if j < s.len() - 1 {
                assert(s.drop_last()[j] == s[j]);
            }
        }
    }
}

/// The position of the last `sep` in `chars`, if any.
pub fn find_last(chars: &Vec<char>, sep: char) -> (r: Option<usize>)
    ensures
        match r {
            Some(i) => i == last_index_of(chars@, sep),
            None => last_index_of(chars@, sep) == -1,
        },
{
    let mut found: Option<usize> = None;
    for i in 0..chars.len()
        invariant
            match found {
                Some(k) => k == last_index_of(chars@.take(i as int), sep),
                None => last_index_of(chars@.take(i as int), sep) == -1,
            },
    {
        assert(chars@.take(i + 1).drop_last() =~= chars@.take(i as int));
        if chars[i] == sep {
            found = Some(i);
        }
    }
    assert(chars@.take(chars.len() as int) =~= chars@);
    found
}

/// The part of `s` after its last `sep`, the whole of `s` where it has none: what
/// `s.rsplit(sep).next()` gives.
pub open spec fn after_last(s: Seq<char>, sep: char) -> Seq<char> {
    s.subrange(last_index_of(s, sep) + 1, s.len() as int)
}

/// What `s.rsplit_once(sep)` gives: the parts before and after the last `sep`.
pub open spec fn split_last(s: Seq<char>, sep: char) -> Option<(Seq<char>, Seq<char>)> {
    let k = last_index_of(s, sep);
    if k < 0 {
        None
    } else {
        Some((s.subrange(0, k), s.subrange(k + 1, s.len() as int)))
    }
}

/// The position of the last character of `s` that is `/` or `\`, or -1 where there is none.
pub open spec fn last_separator_index(s: Seq<char>) -> int
    decreases s.len(),
{
    if s.len() == 0 {
        -1
    } else if s.last() == '/' || s.last() == '\\' {
        s.len() - 1
    } else {
        last_separator_index(s.drop_last())
    }
}

pub proof fn lemma_last_separator_index_bounds(s: Seq<char>)
    ensures
        -1 <= last_separator_index(s) < s.len(),
        forall|j: int| last_separator_index(s) < j < s.len() ==> s[j] != '/' && s[j] != '\\',
    decreases s.len(),
{
    if s.len() > 0 && !(s.last() == '/' || s.last() == '\\') {
        lemma_last_separator_index_bounds(s.drop_last());
        assert forall|j: int| last_separator_index(s) < j < s.len() implies s[j] != '/' && s[j]
            != '\\' by {
            if j < s.len() - 1 {
                assert(s.drop_last()[j] == s[j]);
            }
        }
    }
}

/// The part of `s` after its last `/` or `\`: what `s.rsplit(['/', '\\']).next()` gives.
pub open spec fn after_last_separator(s: Seq<char>) -> Seq<char> {
    s.subrange(last_separator_index(s) + 1, s.len() as int)
}

/// The position just after the last `/` or `\` in `chars`, 0 where there is none.
pub fn start_after_last_separator(chars: &Vec<char>) -> (r: usize)
    ensures
        r == last_separator_index(chars@) + 1,
        r <= chars@.len(),
{
    let mut start: usize = 0;
    for i in 0..chars.len()
        invariant
            start == last_separator_index(chars@.take(i as int)) + 1,
            start <= i,
    {
        assert(chars@.take(i + 1).drop_last() =~= chars@.take(i as int));
        if chars[i] == '/' || chars[i] == '\\' {
            start = i + 1;
        }
    }
    assert(chars@.take(chars.len() as int) =~= chars@);
    start
}

/// A text that is blank is replaced by `fallback`.
pub open spec fn fallback_text(value: Seq<char>, fallback: Seq<char>) -> Seq<char> {
    if is_blank(value) {
        fallback
    } else {
        value
    }
}

/// `value` unless it is blank, `fallback` where it is.
pub fn fallback_title<'a>(value: &'a str, fallback: &'a str) -> (r: &'a str)
    ensures
        r@ == fallback_text(value@, fallback@),
{
    if blank(value) {
        fallback
    } else {
        value
    }
}

/// The decimal digit of a number below ten.
pub open spec fn digit_char(d: nat) -> char {
    if d == 0 {
        '0'
    } else if d == 1 {
        '1'
    } else if d == 2 {
        '2'
    } else if d == 3 {
        '3'
    } else if d == 4 {
        '4'
    } else if d == 5 {
        '5'
    } else if d == 6 {
        '6'
    } else if d == 7 {
        '7'
    } else if d == 8 {
        '8'
    } else {
        '9'
    }
}

/// The decimal form of a number, without sign or leading zeros, as `to_string` writes it.
pub open spec fn decimal(n: nat) -> Seq<char>
    decreases n,
{
    if n < 10 {
        seq![digit_char(n)]
    } else {
        decimal(n / 10).push(digit_char(n % 10))
    }
}

fn digit(d: u64) -> (r: char)
    requires
        d < 10,
    ensures
        r == digit_char(d as nat),
{
    match d {
        0 => '0',
        1 => '1',
        2 => '2',
        3 => '3',
        4 => '4',
        5 => '5',
        6 => '6',
        7 => '7',
        8 => '8',
        _ => '9',
    }
}

/// Appends the decimal form of `n`.
pub fn push_decimal(s: &mut String, n: u64)
    ensures
        final(s)@ == old(s)@ + decimal(n as nat),
    decreases n,
{
    if n < 10 {
        push_char(s, digit(n));
        assert(old(s)@.push(digit_char(n as nat)) =~= old(s)@ + decimal(n as nat));
    } else {
        push_decimal(s, n / 10);
        push_char(s, digit(n % 10));
        assert(old(s)@ + decimal((n / 10) as nat) + seq![digit_char((n % 10) as nat)] =~= old(
            s,
        )@ + decimal(n as nat));
    }
}

/// The decimal form of `n`, as `n.to_string()` gives it.
pub fn decimal_string(n: u64) -> (r: String)
    ensures
        r@ == decimal(n as nat),
{
    let mut s = String::new();
    push_decimal(&mut s, n);
    assert(Seq::<char>::empty() + decimal(n as nat) =~= decimal(n as nat));
    s
}

} // verus!
