//! Text as a sequence of characters: the helpers the rest of the crate shares.

use vstd::prelude::*;

verus! {

/// `String::push` of std appends one character.
pub assume_specification[ String::push ](s: &mut String, c: char)
    ensures
        final(s)@ == old(s)@.push(c),
;

/// `String::pop` of std removes and returns the last character, if there is one.
pub assume_specification[ String::pop ](s: &mut String) -> (r: Option<char>)
    ensures
        old(s)@.len() == 0 ==> r is None && final(s)@ == old(s)@,
        old(s)@.len() > 0 ==> r == Some(old(s)@.last()) && final(s)@ == old(s)@.drop_last(),
;

/// The view of an optional text.
pub open spec fn opt_text(o: Option<String>) -> Option<Seq<char>> {
    match o {
        Some(s) => Some(s@),
        None => None,
    }
}

/// The views of a list of texts.
pub open spec fn texts(v: Seq<String>) -> Seq<Seq<char>> {
    v.map_values(|s: String| s@)
}

/// Control characters: the C0 block, DEL and the C1 block.
pub open spec fn control(c: char) -> bool {
    c as u32 <= 0x1f || 0x7f <= c as u32 <= 0x9f
}

/// Whether `c` is a control character (Unicode category Cc).
pub fn is_control(c: char) -> (r: bool)
    ensures
        r == control(c),
{
    let n: u32 = c as u32;
    n <= 0x1f || (0x7f <= n && n <= 0x9f)
}

/// The code points with the Unicode property White_Space.
pub open spec fn whitespace(c: char) -> bool {
    let n = c as u32;
    ||| 0x09 <= n <= 0x0d
    ||| n == 0x20
    ||| n == 0x85
    ||| n == 0xa0
    ||| n == 0x1680
    ||| 0x2000 <= n <= 0x200a
    ||| n == 0x2028
    ||| n == 0x2029
    ||| n == 0x202f
    ||| n == 0x205f
    ||| n == 0x3000
}

/// Whether `c` is white space.
pub fn is_whitespace(c: char) -> (r: bool)
    ensures
        r == whitespace(c),
{
    let n: u32 = c as u32;
    (0x09 <= n && n <= 0x0d) || n == 0x20 || n == 0x85 || n == 0xa0 || n == 0x1680 || (0x2000 <= n
        && n <= 0x200a) || n == 0x2028 || n == 0x2029 || n == 0x202f || n == 0x205f || n == 0x3000
}

/// The characters of `s`, in order.
pub fn chars_of(s: &str) -> (r: Vec<char>)
    ensures
        r@ == s@,
{
    let mut out: Vec<char> = Vec::new();
    for c in it: s.chars()
        invariant
            out@ == it.seq().take(it.index() as int),
            it.seq() == s@,
    {
        out.push(c);
    }
    out
}

/// The text made of the characters `cs[from..to]`.
pub fn string_of(cs: &Vec<char>, from: usize, to: usize) -> (r: String)
    requires
        from <= to <= cs@.len(),
    ensures
        r@ == cs@.subrange(from as int, to as int),
{
    let mut out = String::new();
    let mut i: usize = from;
    while i < to
        invariant
            from <= i <= to <= cs@.len(),
            out@ == cs@.subrange(from as int, i as int),
        decreases to - i,
    {
        out.push(cs[i]);
        i += 1;
    }
    out
}

/// An owned copy of `s`.
pub fn owned(s: &str) -> (r: String)
    ensures
        r@ == s@,
{
    s.to_owned()
}

/// An owned copy of an optional text.
pub fn copy_opt(o: &Option<String>) -> (r: Option<String>)
    ensures
        opt_text(r) == opt_text(*o),
{
    match o {
        Some(s) => Some(s.clone()),
        None => None,
    }
}

/// Owned copies of a list of texts.
pub fn copy_texts(v: &Vec<String>) -> (r: Vec<String>)
    ensures
        texts(r@) == texts(v@),
        r@.len() == v@.len(),
{
    let mut out: Vec<String> = Vec::new();
    let mut i: usize = 0;
    while i < v.len()
        invariant
            i <= v@.len(),
            out@.len() == i,
            texts(out@) == texts(v@).take(i as int),
        decreases v@.len() - i,
    {
        out.push(v[i].clone());
        assert(texts(out@) =~= texts(v@).take(i + 1));
        i += 1;
    }
    assert(texts(v@).take(i as int) =~= texts(v@));
    out
}

/// Whether two texts hold the same characters.
pub fn same_text(a: &str, b: &str) -> (r: bool)
    ensures
        r == (a@ == b@),
{
    let ca = chars_of(a);
    let cb = chars_of(b);
    if ca.len() != cb.len() {
        return false;
    }
    let mut i: usize = 0;
    while i < ca.len()
        invariant
            i <= ca@.len(),
            ca@ == a@,
            cb@ == b@,
            ca@.len() == cb@.len(),
            ca@.take(i as int) == cb@.take(i as int),
        decreases ca@.len() - i,
    {
        if ca[i] != cb[i] {
            return false;
        }
        assert(ca@.take(i + 1) =~= ca@.take(i as int).push(ca@[i as int]));
        assert(cb@.take(i + 1) =~= cb@.take(i as int).push(cb@[i as int]));
        i += 1;
    }
    assert(ca@.take(i as int) =~= ca@);
    assert(cb@.take(i as int) =~= cb@);
    true
}

/// `needle` stands in `hay` at position `i`.
pub open spec fn stands_at(hay: Seq<char>, needle: Seq<char>, i: int) -> bool {
    &&& 0 <= i
    &&& i + needle.len() <= hay.len()
    &&& hay.subrange(i, i + needle.len()) == needle
}

/// `needle` is a contiguous part of `hay`.
pub open spec fn has_part(hay: Seq<char>, needle: Seq<char>) -> bool {
    exists|i: int| stands_at(hay, needle, i)
}

/// Whether `needle` stands in `hay` at position `i`.
pub fn part_at(hay: &Vec<char>, needle: &Vec<char>, i: usize) -> (r: bool)
    requires
        i <= hay@.len(),
    ensures
        r == stands_at(hay@, needle@, i as int),
{
    if hay.len() - i < needle.len() {
        return false;
    }
    let mut k: usize = 0;
    while k < needle.len()
        invariant
            k <= needle@.len(),
            i + needle.len() <= hay.len(),
            hay@.subrange(i as int, i + k) == needle@.take(k as int),
        decreases needle@.len() - k,
    {
        if hay[i + k] != needle[k] {
            assert(hay@.subrange(i as int, i + needle@.len())[k as int] == hay@[i + k]);
            return false;
        }
        assert(hay@.subrange(i as int, i + k + 1) =~= hay@.subrange(i as int, i + k).push(
            hay@[i + k],
        ));
        assert(needle@.take(k + 1) =~= needle@.take(k as int).push(needle@[k as int]));
        k += 1;
    }
    assert(needle@.take(k as int) =~= needle@);
    true
}

/// Whether `needle` occurs in `hay`.
pub fn contains(hay: &str, needle: &str) -> (r: bool)
    ensures
        r == has_part(hay@, needle@),
{
    let h = chars_of(hay);
    let n = chars_of(needle);
    let mut i: usize = 0;
    while i <= h.len()
        invariant
            i <= h@.len() + 1,
            h@ == hay@,
            n@ == needle@,
            forall|j: int| 0 <= j < i ==> !stands_at(hay@, needle@, j),
        decreases h@.len() + 1 - i,
    {
        if part_at(&h, &n, i) {
            return true;
        }
        if i == h.len() {
            return false;
        }
        i += 1;
    }
    false
}

/// `s` begins with `prefix`.
pub open spec fn begins_with(s: Seq<char>, prefix: Seq<char>) -> bool {
    stands_at(s, prefix, 0)
}

/// `s` without the white space it starts with.
pub open spec fn trimmed_start(s: Seq<char>) -> Seq<char>
    decreases s.len(),
{
    if s.len() == 0 || !whitespace(s[0]) {
        s
    } else {
        trimmed_start(s.drop_first())
    }
}

/// `s` without the white space it ends with.
pub open spec fn trimmed_end(s: Seq<char>) -> Seq<char>
    decreases s.len(),
{
    if s.len() == 0 || !whitespace(s.last()) {
        s
    } else {
        trimmed_end(s.drop_last())
    }
}

/// `s` without the white space it starts and ends with.
pub open spec fn trimmed(s: Seq<char>) -> Seq<char> {
    trimmed_end(trimmed_start(s))
}

/// What is left after trimming was there before.
pub proof fn trimming_adds_nothing(s: Seq<char>, i: int)
    requires
        0 <= i < trimmed(s).len(),
    ensures
        s.contains(trimmed(s)[i]),
{
    lemma_trimmed_end_part(trimmed_start(s), i);
    lemma_trimmed_start_part(s, i);
}

/// Trimming the start leaves an end of the text.
proof fn lemma_trimmed_start_part(s: Seq<char>, i: int)
    requires
        0 <= i < trimmed_start(s).len(),
    ensures
        s.contains(trimmed_start(s)[i]),
    decreases s.len(),
{
    if s.len() == 0 || !whitespace(s[0]) {
        assert(s[i] == trimmed_start(s)[i]);
    } else {
        let rest = s.drop_first();
        lemma_trimmed_start_part(rest, i);
        let j = rest.index_of(trimmed_start(rest)[i]);
        assert(s[j + 1] == rest[j]);
    }
}

/// Trimming the end leaves a beginning of the text.
proof fn lemma_trimmed_end_part(s: Seq<char>, i: int)
    requires
        0 <= i < trimmed_end(s).len(),
    ensures
        i < s.len(),
        trimmed_end(s)[i] == s[i],
    decreases s.len(),
{
    if s.len() > 0 && whitespace(s.last()) {
        lemma_trimmed_end_part(s.drop_last(), i);
    }
}

/// Where `cs` continues after its leading white space.
pub fn skip_blank(cs: &Vec<char>) -> (r: usize)
    ensures
        r <= cs@.len(),
        cs@.skip(r as int) == trimmed_start(cs@),
{
    let mut i: usize = 0;
    assert(cs@.skip(0) =~= cs@);
    while i < cs.len() && is_whitespace(cs[i])
        invariant
            i <= cs@.len(),
            trimmed_start(cs@.skip(i as int)) == trimmed_start(cs@),
        decreases cs@.len() - i,
    {
        assert(cs@.skip(i as int)[0] == cs@[i as int]);
        assert(cs@.skip(i as int).drop_first() =~= cs@.skip(i + 1));
        i += 1;
    }
    proof {
        if i < cs@.len() {
            assert(cs@.skip(i as int)[0] == cs@[i as int]);
        }
    }
    i
}

/// Where `cs[from..]` ends once its trailing white space is dropped.
pub fn drop_blank(cs: &Vec<char>, from: usize) -> (r: usize)
    requires
        from <= cs@.len(),
    ensures
        from <= r <= cs@.len(),
        cs@.subrange(from as int, r as int) == trimmed_end(cs@.skip(from as int)),
{
    let mut e: usize = cs.len();
    assert(cs@.subrange(from as int, e as int) =~= cs@.skip(from as int));
    while e > from && is_whitespace(cs[e - 1])
        invariant
            from <= e <= cs@.len(),
            trimmed_end(cs@.subrange(from as int, e as int)) == trimmed_end(cs@.skip(from as int)),
        decreases e,
    {
        assert(cs@.subrange(from as int, e as int).last() == cs@[e - 1]);
        assert(cs@.subrange(from as int, e as int).drop_last() =~= cs@.subrange(
            from as int,
            e - 1,
        ));
        e -= 1;
    }
    proof {
        if e > from {
            assert(cs@.subrange(from as int, e as int).last() == cs@[e - 1]);
        }
    }
    e
}

/// The text without the white space around it.
pub fn trim(s: &str) -> (r: String)
    ensures
        r@ == trimmed(s@),
{
    let cs = chars_of(s);
    let from = skip_blank(&cs);
    let to = drop_blank(&cs, from);
    string_of(&cs, from, to)
}

/// One decimal digit.
pub open spec fn digit(d: nat) -> char
    recommends
        d < 10,
{
    ('0' as u32 + d) as char
}

/// A number in decimal, without leading zeros.
pub open spec fn decimal(n: nat) -> Seq<char>
    decreases n,
{
    if n < 10 {
        seq![digit(n)]
    } else {
        decimal(n / 10).push(digit(n % 10))
    }
}

/// The decimal form of `n`.
pub fn decimal_of(n: u64) -> (r: String)
    ensures
        r@ == decimal(n as nat),
    decreases n,
{
    if n < 10 {
        let mut s = String::new();
        s.push((48u8 + n as u8) as char);
        assert(s@ =~= seq![digit(n as nat)]);
        s
    } else {
        let mut s = decimal_of(n / 10);
        s.push((48u8 + (n % 10) as u8) as char);
        s
    }
}

/// Two numbers with the same decimal form are the same number.
pub proof fn decimal_is_injective(a: nat, b: nat)
    requires
        decimal(a) == decimal(b),
    ensures
        a == b,
    decreases a,
{
    reveal_with_fuel(decimal, 2);
    decimal_len(a);
    decimal_len(b);
    if a < 10 {
        if b < 10 {
            assert(decimal(a)[0] == digit(a) && decimal(b)[0] == digit(b));
            assert(digit(a) as u32 == 48 + a && digit(b) as u32 == 48 + b);
        } else {
            decimal_len(b / 10);
            assert(decimal(b).len() >= 2);
        }
    } else if b < 10 {
        decimal_len(a / 10);
        assert(decimal(a).len() >= 2);
    } else {
        assert(decimal(a).drop_last() =~= decimal(a / 10));
        assert(decimal(b).drop_last() =~= decimal(b / 10));
        assert(decimal(a).last() == digit(a % 10) && decimal(b).last() == digit(b % 10));
        assert(digit(a % 10) as u32 == 48 + a % 10 && digit(b % 10) as u32 == 48 + b % 10);
        decimal_is_injective(a / 10, b / 10);
    }
}

/// A decimal form is never empty, and a digit in it is never a closing bracket.
pub proof fn decimal_len(n: nat)
    ensures
        decimal(n).len() >= 1,
        forall|i: int| 0 <= i < decimal(n).len() ==> '0' <= #[trigger] decimal(n)[i] <= '9',
    decreases n,
{
    if n >= 10 {
        decimal_len(n / 10);
    }
}

/// `s` with every `from` replaced by `to`.
pub open spec fn replaced(s: Seq<char>, from: char, to: Seq<char>) -> Seq<char>
    decreases s.len(),
{
    if s.len() == 0 {
        seq![]
    } else {
        replaced(s.drop_last(), from, to) + (if s.last() == from {
            to
        } else {
            seq![s.last()]
        })
    }
}

/// The text with every `from` replaced by `to`.
pub fn replace_char(s: &str, from: char, to: &str) -> (r: String)
    ensures
        r@ == replaced(s@, from, to@),
{
    let cs = chars_of(s);
    let mut out = String::new();
    let mut i: usize = 0;
    while i < cs.len()
        invariant
            i <= cs@.len(),
            cs@ == s@,
            out@ == replaced(cs@.take(i as int), from, to@),
        decreases cs@.len() - i,
    {
        assert(cs@.take(i + 1).drop_last() =~= cs@.take(i as int));
        if cs[i] == from {
            out.append(to);
        } else {
            out.push(cs[i]);
        }
        assert(out@ =~= replaced(cs@.take(i + 1), from, to@));
        i += 1;
    }
    assert(cs@.take(i as int) =~= cs@);
    out
}

/// The control characters: those before the space, and from DEL up to but not
/// including the no-break space.
pub proof fn control_characters_come_in_two_blocks(c: char)
    ensures
        c < ' ' ==> control(c),
        ' ' <= c < '\u{7f}' ==> !control(c),
        '\u{7f}' <= c < '\u{a0}' ==> control(c),
        '\u{a0}' <= c ==> !control(c),
{
}

/// White space: the space, the tab, the line ends and the spaces of other
/// scripts; no letter, digit or other visible character of ASCII.
pub proof fn white_space_is_blank(c: char)
    ensures
        whitespace(' ') && whitespace('\t') && whitespace('\n') && whitespace('\r'),
        whitespace('\u{b}') && whitespace('\u{c}') && whitespace('\u{85}') && whitespace('\u{a0}'),
        whitespace('\u{1680}') && whitespace('\u{2028}') && whitespace('\u{2029}'),
        whitespace('\u{202f}') && whitespace('\u{205f}') && whitespace('\u{3000}'),
        '\u{2000}' <= c <= '\u{200a}' ==> whitespace(c),
        '!' <= c <= '~' ==> !whitespace(c),
        c < '\t' || '\r' < c < ' ' || '~' < c < '\u{85}' ==> !whitespace(c),
        '\u{85}' < c < '\u{a0}' || '\u{a0}' < c < '\u{1680}' ==> !whitespace(c),
        '\u{1680}' < c < '\u{2000}' || '\u{200a}' < c < '\u{2028}' ==> !whitespace(c),
        '\u{2029}' < c < '\u{202f}' || '\u{202f}' < c < '\u{205f}' ==> !whitespace(c),
        '\u{205f}' < c < '\u{3000}' || '\u{3000}' < c ==> !whitespace(c),
{
}

/// Trimming takes white space away and nothing else: the text is what was
/// trimmed off its start, what is left, and what was trimmed off its end, the
/// first and the last all white space; and what is left neither begins nor ends
/// with white space.
pub proof fn trimming_takes_all_the_white_space_around(s: Seq<char>) -> (r: (int, int))
    ensures
        0 <= r.0 <= r.1 <= s.len(),
        trimmed(s) == s.subrange(r.0, r.1),
        forall|i: int| 0 <= i < r.0 ==> whitespace(#[trigger] s[i]),
        forall|i: int| r.1 <= i < s.len() ==> whitespace(#[trigger] s[i]),
        trimmed(s).len() > 0 ==> !whitespace(trimmed(s)[0]) && !whitespace(trimmed(s).last()),
{
    let a = lemma_trimmed_start_at(s);
    let t = trimmed_start(s);
    let b = lemma_trimmed_end_at(t);
    let e = if t.len() == 0 {
        s.len() as int
    } else {
        a + b
    };
    assert forall|i: int| e <= i < s.len() implies whitespace(#[trigger] s[i]) by {
        if a <= i {
            assert(t[i - a] == s[i]);
        }
    }
    if t.len() == 0 {
        assert(trimmed(s) =~= s.subrange(e, e));
        (e, e)
    } else {
        assert(trimmed(s) =~= s.subrange(a, e));
        (a, e)
    }
}

proof fn lemma_trimmed_start_at(s: Seq<char>) -> (a: int)
    ensures
        0 <= a <= s.len(),
        trimmed_start(s) == s.skip(a),
        forall|i: int| 0 <= i < a ==> whitespace(#[trigger] s[i]),
        trimmed_start(s).len() > 0 ==> !whitespace(trimmed_start(s)[0]),
    decreases s.len(),
{
    if s.len() == 0 || !whitespace(s[0]) {
        assert(s.skip(0) =~= s);
        0
    } else {
        let rest = s.drop_first();
        let a = lemma_trimmed_start_at(rest);
        assert(rest.skip(a) =~= s.skip(a + 1));
        assert forall|i: int| 0 <= i < a + 1 implies whitespace(#[trigger] s[i]) by {
            if i > 0 {
                assert(rest[i - 1] == s[i]);
            }
        }
        a + 1
    }
}

proof fn lemma_trimmed_end_at(s: Seq<char>) -> (b: int)
    ensures
        0 <= b <= s.len(),
        trimmed_end(s) == s.take(b),
        forall|i: int| b <= i < s.len() ==> whitespace(#[trigger] s[i]),
        trimmed_end(s).len() > 0 ==> !whitespace(trimmed_end(s).last()),
        s.len() > 0 && !whitespace(s[0]) ==> b > 0,
    decreases s.len(),
{
    if s.len() == 0 || !whitespace(s.last()) {
        assert(s.take(s.len() as int) =~= s);
        s.len() as int
    } else {
        let rest = s.drop_last();
        let b = lemma_trimmed_end_at(rest);
        assert(rest.take(b) =~= s.take(b));
        assert forall|i: int| b <= i < s.len() implies whitespace(#[trigger] s[i]) by {
            if i < rest.len() {
                assert(rest[i] == s[i]);
            }
        }
        b
    }
}

/// A text stands in another at a position exactly where the other holds its
/// characters, one for one, from there on; it is a part of the other where it
/// stands in it at all, and its beginning where it stands at the start.
pub proof fn a_part_is_there_character_by_character(hay: Seq<char>, needle: Seq<char>, i: int)
    ensures
        0 <= i && i + needle.len() <= hay.len() && (forall|j: int|
            0 <= j < needle.len() ==> #[trigger] needle[j] == hay[i + j]) ==> stands_at(
            hay,
            needle,
            i,
        ) && has_part(hay, needle),
        stands_at(hay, needle, i) ==> 0 <= i && i + needle.len() <= hay.len() && (forall|j: int|
            0 <= j < needle.len() ==> #[trigger] needle[j] == hay[i + j]),
        has_part(hay, needle) ==> exists|k: int| stands_at(hay, needle, k),
        begins_with(hay, needle) <==> needle.len() <= hay.len() && forall|j: int|
            0 <= j < needle.len() ==> #[trigger] needle[j] == hay[j],
{
    if 0 <= i && i + needle.len() <= hay.len() && (forall|j: int|
        0 <= j < needle.len() ==> #[trigger] needle[j] == hay[i + j]) {
        assert(hay.subrange(i, i + needle.len()) =~= needle);
        assert(stands_at(hay, needle, i));
    }
    if stands_at(hay, needle, i) {
        assert forall|j: int| 0 <= j < needle.len() implies #[trigger] needle[j] == hay[i + j] by {
            assert(hay.subrange(i, i + needle.len())[j] == hay[i + j]);
        }
    }
    let n = needle.len() as int;
    if n <= hay.len() && forall|j: int| 0 <= j < needle.len() ==> #[trigger] needle[j] == hay[j] {
        assert(hay.subrange(0, n) =~= needle);
    }
    if begins_with(hay, needle) {
        assert forall|j: int| 0 <= j < needle.len() implies #[trigger] needle[j] == hay[j] by {
            assert(hay.subrange(0, n)[j] == hay[j]);
        }
    }
}

/// The number a text of decimal digits writes.
pub open spec fn number_written(s: Seq<char>) -> int
    decreases s.len(),
{
    if s.len() == 0 {
        0
    } else {
        10 * number_written(s.drop_last()) + (s.last() as int - '0' as int)
    }
}

/// The decimal form of a number writes that number, and begins with a zero only
/// where it is the zero.
pub proof fn a_decimal_writes_its_number(n: nat)
    ensures
        number_written(decimal(n)) == n,
        n > 0 ==> decimal(n)[0] != '0',
        decimal(0) == seq!['0'],
    decreases n,
{
    reveal_with_fuel(number_written, 2);
    if n < 10 {
        assert(decimal(n).drop_last() =~= Seq::empty());
        assert(decimal(n).last() as int == 48 + n);
        assert(decimal(n)[0] as int == 48 + n);
    } else {
        a_decimal_writes_its_number(n / 10);
        decimal_len(n / 10);
        assert(decimal(n).drop_last() =~= decimal(n / 10));
        assert(decimal(n).last() as int == 48 + n % 10);
        assert(decimal(n)[0] == decimal(n / 10)[0]);
    }
}

/// Replacing looks at each character alone: every `from` becomes `to`, any other
/// stays, and of two texts in a row it makes what it makes of each.
pub proof fn replacing_goes_by_the_character(
    s: Seq<char>,
    t: Seq<char>,
    from: char,
    to: Seq<char>,
    c: char,
)
    ensures
        replaced(s + t, from, to) == replaced(s, from, to) + replaced(t, from, to),
        replaced(seq![from], from, to) == to,
        c != from ==> replaced(seq![c], from, to) == seq![c],
        replaced(Seq::empty(), from, to) == Seq::<char>::empty(),
    decreases t.len(),
{
    reveal_with_fuel(replaced, 2);
    assert(seq![from].drop_last() =~= Seq::empty());
    assert(seq![c].drop_last() =~= Seq::empty());
    assert(replaced(seq![from], from, to) =~= to);
    assert(replaced(seq![c], from, to) =~= (if c == from {
        to
    } else {
        seq![c]
    }));
    if t.len() == 0 {
        assert(s + t =~= s);
        assert(replaced(s, from, to) + replaced(t, from, to) =~= replaced(s, from, to));
    } else {
        replacing_goes_by_the_character(s, t.drop_last(), from, to, c);
        assert((s + t).drop_last() =~= s + t.drop_last());
        assert((s + t).last() == t.last());
        let end = if t.last() == from {
            to
        } else {
            seq![t.last()]
        };
        assert(replaced(s + t, from, to) =~= replaced(s, from, to) + (replaced(
            t.drop_last(),
            from,
            to,
        ) + end));
    }
}

} // verus!
