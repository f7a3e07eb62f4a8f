//! Character and string helpers shared by the whole library, each with a
//! specification over `Seq<char>`.
use vstd::prelude::*;

verus! {

/// `String::push` appends one character.
pub assume_specification[ String::push ](s: &mut String, ch: char)
    ensures
        final(s)@ == old(s)@.push(ch),
;

// ---------------------------------------------------------------- characters

pub open spec fn is_ascii_upper(c: char) -> bool {
    65 <= (c as u32) <= 90
}

pub open spec fn is_ascii_alnum(c: char) -> bool {
    ||| 48 <= (c as u32) <= 57
    ||| 65 <= (c as u32) <= 90
    ||| 97 <= (c as u32) <= 122
}

/// ASCII lower-casing of one character: `A`..`Z` become `a`..`z`, all else is kept.
pub open spec fn ascii_lower(c: char) -> char {
    if is_ascii_upper(c) {
        ((c as u32) + 32) as char
    } else {
        c
    }
}

pub open spec fn seq_ascii_lower(s: Seq<char>) -> Seq<char> {
    s.map_values(|c: char| ascii_lower(c))
}

pub fn char_is_ascii_alnum(c: char) -> (b: bool)
    ensures
        b == is_ascii_alnum(c),
{
    let x = c as u32;
    (48 <= x && x <= 57) || (65 <= x && x <= 90) || (97 <= x && x <= 122)
}

pub fn char_ascii_lower(c: char) -> (r: char)
    ensures
        r == ascii_lower(c),
{
    let x = c as u32;
    if 65 <= x && x <= 90 {
        let b: u8 = (x + 32) as u8;
        b as char
    } else {
        c
    }
}

} // verus!

verus! {

// ---------------------------------------------------------------- conversions

/// The characters of each string in a list.
pub open spec fn views(v: Seq<String>) -> Seq<Seq<char>> {
    v.map_values(|s: String| s@)
}

/// The characters of a string slice, in order.
pub fn chars_of(s: &str) -> (v: Vec<char>)
    ensures
        v@ == s@,
{
    let mut v: Vec<char> = Vec::new();
    for c in it: s.chars()
        invariant
            v@ == it.seq().take(it.index() as int),
    {
        v.push(c);
    }
    v
}

/// Appends the characters of `t` to `s`.
pub fn push_str(s: &mut String, t: &str)
    ensures
        final(s)@ == old(s)@ + t@,
{
    let v = chars_of(t);
    let ghost s0 = s@;
    for i in 0..v.len()
        invariant
            s@ == s0 + v@.take(i as int),
    {
        s.push(v[i]);
        assert(v@.take(i + 1) == v@.take(i as int).push(v@[i as int]));
    }
    assert(v@.take(v@.len() as int) == v@);
}

/// `a` followed by `b`, as a new string.
pub fn concat2(a: &str, b: &str) -> (r: String)
    ensures
        r@ == a@ + b@,
{
    let mut r = String::new();
    push_str(&mut r, a);
    push_str(&mut r, b);
    assert(Seq::<char>::empty() + a@ == a@);
    r
}

/// `a`, `b` and `c` one after another, as a new string.
pub fn concat3(a: &str, b: &str, c: &str) -> (r: String)
    ensures
        r@ == a@ + b@ + c@,
{
    let mut r = concat2(a, b);
    push_str(&mut r, c);
    r
}

/// Equality of two string slices, character by character.
pub fn str_eq(a: &str, b: &str) -> (r: bool)
    ensures
        r == (a@ == b@),
{
    let va = chars_of(a);
    let vb = chars_of(b);
    if va.len() != vb.len() {
        return false;
    }
    for i in 0..va.len()
        invariant
            va@.len() == vb@.len(),
            va@ == a@,
            vb@ == b@,
            forall|j: int| 0 <= j < i ==> va@[j] == vb@[j],
    {
        if va[i] != vb[i] {
            return false;
        }
    }
    assert(va@ =~= vb@);
    true
}

// ---------------------------------------------------------------- order

/// Lexicographic order on character sequences, by code point; this is the
/// order of `String`'s `Ord` (UTF-8 preserves code point order).
pub open spec fn lex_lt(a: Seq<char>, b: Seq<char>) -> bool
    decreases a.len(),
{
    if a.len() == 0 {
        b.len() > 0
    } else if b.len() == 0 {
        false
    } else if a[0] != b[0] {
        (a[0] as u32) < (b[0] as u32)
    } else {
        lex_lt(a.drop_first(), b.drop_first())
    }
}

pub proof fn lemma_lex_irreflexive(a: Seq<char>)
    ensures
        !lex_lt(a, a),
    decreases a.len(),
{
    if a.len() > 0 {
        lemma_lex_irreflexive(a.drop_first());
    }
}

pub proof fn lemma_lex_transitive(a: Seq<char>, b: Seq<char>, c: Seq<char>)
    requires
        lex_lt(a, b),
        lex_lt(b, c),
    ensures
        lex_lt(a, c),
    decreases a.len(),
{
    if a.len() > 0 && b.len() > 0 && c.len() > 0 {
        if a[0] == b[0] && b[0] == c[0] {
            lemma_lex_transitive(a.drop_first(), b.drop_first(), c.drop_first());
        }
    }
}

pub proof fn lemma_lex_total(a: Seq<char>, b: Seq<char>)
    ensures
        a != b ==> (lex_lt(a, b) || lex_lt(b, a)),
    decreases a.len(),
{
    if a.len() > 0 && b.len() > 0 && a[0] == b[0] {
        lemma_lex_total(a.drop_first(), b.drop_first());
        if a.drop_first() == b.drop_first() {
            assert(a =~= seq![a[0]] + a.drop_first());
            assert(b =~= seq![b[0]] + b.drop_first());
        }
    } else if a.len() > 0 && b.len() > 0 {
        let x = a[0] as u32;
        let y = b[0] as u32;
        vstd::utf8::char_u32_cast(a[0], x);
        vstd::utf8::char_u32_cast(b[0], y);
        assert(x != y);
    } else if a.len() == 0 && b.len() == 0 {
        assert(a =~= b);
    }
}

proof fn lemma_lex_skip(a: Seq<char>, b: Seq<char>, i: int)
    requires
        0 <= i < a.len(),
        i < b.len(),
        a[i] == b[i],
    ensures
        lex_lt(a.skip(i), b.skip(i)) == lex_lt(a.skip(i + 1), b.skip(i + 1)),
{
    assert(a.skip(i).drop_first() =~= a.skip(i + 1));
    assert(b.skip(i).drop_first() =~= b.skip(i + 1));
}

/// `a < b` in the order of `String`.
pub fn str_lt(a: &str, b: &str) -> (r: bool)
    ensures
        r == lex_lt(a@, b@),
{
    let va = chars_of(a);
    let vb = chars_of(b);
    let mut i: usize = 0;
    assert(a@.skip(0) =~= a@);
    assert(b@.skip(0) =~= b@);
    while i < va.len() && i < vb.len() && va[i] == vb[i]
        invariant
            va@ == a@,
            vb@ == b@,
            i <= va@.len(),
            i <= vb@.len(),
            lex_lt(a@, b@) == lex_lt(a@.skip(i as int), b@.skip(i as int)),
        decreases va@.len() - i,
    {
        proof {
            lemma_lex_skip(a@, b@, i as int);
        }
        i = i + 1;
    }
    if i == va.len() {
        i < vb.len()
    } else if i == vb.len() {
        false
    } else {
        assert(a@.skip(i as int)[0] == a@[i as int]);
        assert(b@.skip(i as int)[0] == b@[i as int]);
        (va[i] as u32) < (vb[i] as u32)
    }
}

} // verus!

verus! {

/// Whether some string of the list has the characters of `s`.
pub fn contains_str(v: &Vec<String>, s: &str) -> (b: bool)
    ensures
        b == views(v@).contains(s@),
{
    for i in 0..v.len()
        invariant
            forall|j: int| 0 <= j < i ==> v@[j]@ != s@,
    {
        if str_eq(v[i].as_str(), s) {
            assert(views(v@)[i as int] == s@);
            return true;
        }
    }
    proof {
        if views(v@).contains(s@) {
            let j = choose|j: int| 0 <= j < views(v@).len() && views(v@)[j] == s@;
            assert(v@[j]@ == s@);
        }
    }
    false
}

} // verus!

verus! {

// ---------------------------------------------------------------- affixes

pub open spec fn has_prefix(s: Seq<char>, p: Seq<char>) -> bool {
    p.len() <= s.len() && s.subrange(0, p.len() as int) == p
}

pub open spec fn has_suffix(s: Seq<char>, p: Seq<char>) -> bool {
    p.len() <= s.len() && s.subrange(s.len() - p.len(), s.len() as int) == p
}

/// Some stretch of `s` equals `p`.
pub open spec fn has_infix(s: Seq<char>, p: Seq<char>) -> bool {
    exists|i: int| 0 <= i && i + p.len() <= s.len() && #[trigger] s.subrange(i, i + p.len()) == p
}

pub fn vec_has_prefix_at(s: &Vec<char>, p: &Vec<char>, at: usize) -> (b: bool)
    requires
        at <= s@.len(),
    ensures
        b == (at + p@.len() <= s@.len() && s@.subrange(at as int, at + p@.len()) == p@),
{
    if p.len() > s.len() - at {
        return false;
    }
    let n = s.len();
    for i in 0..p.len()
        invariant
            n == s@.len(),
            at <= s@.len(),
            at + p@.len() <= s@.len(),
            forall|j: int| 0 <= j < i ==> s@[at + j] == p@[j],
    {
        let idx: usize = at + i;
        if s[idx] != p[i] {
            assert(s@.subrange(at as int, at + p@.len())[i as int] != p@[i as int]);
            return false;
        }
    }
    assert(s@.subrange(at as int, at + p@.len()) =~= p@);
    true
}

pub fn starts_with(s: &str, p: &str) -> (b: bool)
    ensures
        b == has_prefix(s@, p@),
{
    let sv = chars_of(s);
    let pv = chars_of(p);
    vec_has_prefix_at(&sv, &pv, 0)
}

pub fn ends_with(s: &str, p: &str) -> (b: bool)
    ensures
        b == has_suffix(s@, p@),
{
    let sv = chars_of(s);
    let pv = chars_of(p);
    if pv.len() > sv.len() {
        return false;
    }
    vec_has_prefix_at(&sv, &pv, sv.len() - pv.len())
}

pub fn contains_sub(s: &str, p: &str) -> (b: bool)
    ensures
        b == has_infix(s@, p@),
{
    let sv = chars_of(s);
    let pv = chars_of(p);
    if pv.len() > sv.len() {
        return false;
    }
    if pv.len() == 0 {
        assert(s@.subrange(0, 0int + p@.len()) =~= p@);
        return true;
    }
    let last = sv.len() - pv.len();
    for i in 0..last + 1
        invariant
            last == sv@.len() - pv@.len(),
            sv@ == s@,
            pv@ == p@,
            forall|j: int| 0 <= j < i ==> #[trigger] s@.subrange(j, j + p@.len()) != p@,
    {
        if vec_has_prefix_at(&sv, &pv, i) {
            return true;
        }
    }
    assert forall|j: int| 0 <= j && j + p@.len() <= s@.len() implies #[trigger] s@.subrange(j, j + p@.len()) != p@ by {}
    false
}

/// The characters of `v` from `from` up to `to`, as a string.
pub fn string_of_range(v: &Vec<char>, from: usize, to: usize) -> (s: String)
    requires
        from <= to <= v@.len(),
    ensures
        s@ == v@.subrange(from as int, to as int),
{
    let mut s = String::new();
    for i in from..to
        invariant
            to <= v@.len(),
            s@ == v@.subrange(from as int, i as int),
    {
        s.push(v[i]);
        assert(v@.subrange(from as int, i + 1) == v@.subrange(from as int, i as int).push(v@[i as int]));
    }
    s
}

// ---------------------------------------------------------------- trimming

/// The Unicode `White_Space` characters, which `char::is_whitespace` accepts.
pub open spec fn is_white(c: char) -> bool {
    let x = c as u32;
    ||| 9 <= x <= 13
    ||| x == 32
    ||| x == 0x85
    ||| x == 0xA0
    ||| x == 0x1680
    ||| 0x2000 <= x <= 0x200A
    ||| x == 0x2028
    ||| x == 0x2029
    ||| x == 0x202F
    ||| x == 0x205F
    ||| x == 0x3000
}

/// What a trim cuts: white space when `white`, else the character `c`.
pub open spec fn cut(white: bool, c: char, x: char) -> bool {
    if white { is_white(x) } else { x == c }
}

pub open spec fn trim_start_by(s: Seq<char>, white: bool, c: char) -> Seq<char>
    decreases s.len(),
{
    if s.len() > 0 && cut(white, c, s[0]) {
        trim_start_by(s.drop_first(), white, c)
    } else {
        s
    }
}

pub open spec fn trim_end_by(s: Seq<char>, white: bool, c: char) -> Seq<char>
    decreases s.len(),
{
    if s.len() > 0 && cut(white, c, s.last()) {
        trim_end_by(s.drop_last(), white, c)
    } else {
        s
    }
}

pub open spec fn trim_by(s: Seq<char>, white: bool, c: char) -> Seq<char> {
    trim_end_by(trim_start_by(s, white, c), white, c)
}

/// `s` without white space at either end (`str::trim`).
pub open spec fn trim_ws(s: Seq<char>) -> Seq<char> {
    trim_by(s, true, ' ')
}

/// `s` without the character `c` at either end (`str::trim_matches`).
pub open spec fn trim_ch(s: Seq<char>, c: char) -> Seq<char> {
    trim_by(s, false, c)
}

pub fn char_is_white(c: char) -> (b: bool)
    ensures
        b == is_white(c),
{
    let x = c as u32;
    (9 <= x && x <= 13) || x == 32 || x == 0x85 || x == 0xA0 || x == 0x1680 || (0x2000 <= x && x
        <= 0x200A) || x == 0x2028 || x == 0x2029 || x == 0x202F || x == 0x205F || x == 0x3000
}

proof fn lemma_trim_start_skip(s: Seq<char>, white: bool, c: char, i: int)
    requires
        0 <= i <= s.len(),
        forall|j: int| 0 <= j < i ==> cut(white, c, #[trigger] s[j]),
    ensures
        trim_start_by(s, white, c) == trim_start_by(s.skip(i), white, c),
    decreases i,
{
    if i > 0 {
        assert(s.drop_first().skip(i - 1) =~= s.skip(i));
        assert forall|j: int| 0 <= j < i - 1 implies cut(white, c, #[trigger] s.drop_first()[j]) by {
            assert(s.drop_first()[j] == s[j + 1]);
        }
        lemma_trim_start_skip(s.drop_first(), white, c, i - 1);
    } else {
        assert(s.skip(0) =~= s);
    }
}

proof fn lemma_trim_end_take(s: Seq<char>, white: bool, c: char, i: int)
    requires
        0 <= i <= s.len(),
        forall|j: int| i <= j < s.len() ==> cut(white, c, #[trigger] s[j]),
    ensures
        trim_end_by(s, white, c) == trim_end_by(s.take(i), white, c),
    decreases s.len() - i,
{
    if i < s.len() {
        assert(s.drop_last().take(i) =~= s.take(i));
        lemma_trim_end_take(s.drop_last(), white, c, i);
    } else {
        assert(s.take(i) =~= s);
    }
}

fn cut_at(v: &Vec<char>, i: usize, white: bool, c: char) -> (b: bool)
    requires
        i < v@.len(),
    ensures
        b == cut(white, c, v@[i as int]),
{
    if white {
        char_is_white(v[i])
    } else {
        v[i] == c
    }
}

/// The positions `[a, b)` that remain of `v` once the cut characters are
/// taken from both ends.
fn trim_bounds(v: &Vec<char>, white: bool, c: char) -> (r: (usize, usize))
    ensures
        r.0 <= r.1 <= v@.len(),
        v@.subrange(r.0 as int, r.1 as int) == trim_by(v@, white, c),
{
    let mut a: usize = 0;
    while a < v.len() && cut_at(v, a, white, c)
        invariant
            a <= v@.len(),
            forall|j: int| 0 <= j < a ==> cut(white, c, #[trigger] v@[j]),
        decreases v@.len() - a,
    {
        a = a + 1;
    }
    proof {
        lemma_trim_start_skip(v@, white, c, a as int);
        if a < v@.len() {
            assert(v@.skip(a as int)[0] == v@[a as int]);
        }
    }
    let mut b: usize = v.len();
    while b > a && cut_at(v, b - 1, white, c)
        invariant
            a <= b <= v@.len(),
            forall|j: int| b <= j < v@.len() ==> cut(white, c, #[trigger] v@[j]),
        decreases b,
    {
        b = b - 1;
    }
    proof {
        let t = v@.skip(a as int);
        assert(trim_start_by(v@, white, c) == t);
        assert forall|j: int| (b - a) <= j < t.len() implies cut(white, c, #[trigger] t[j]) by {
            assert(t[j] == v@[a + j]);
        }
        lemma_trim_end_take(t, white, c, (b - a) as int);
        assert(t.take((b - a) as int) =~= v@.subrange(a as int, b as int));
        if b > a {
            assert(v@.subrange(a as int, b as int).last() == v@[b - 1]);
        }
    }
    (a, b)
}

/// `s` without white space at either end, as `str::trim` gives it.
pub fn trim_white(s: &str) -> (r: String)
    ensures
        r@ == trim_ws(s@),
{
    let v = chars_of(s);
    let (a, b) = trim_bounds(&v, true, ' ');
    string_of_range(&v, a, b)
}

/// `s` without the character `c` at either end, as `str::trim_matches` gives it.
pub fn trim_char(s: &str, c: char) -> (r: String)
    ensures
        r@ == trim_ch(s@, c),
{
    let v = chars_of(s);
    let (a, b) = trim_bounds(&v, false, c);
    string_of_range(&v, a, b)
}

} // verus!

verus! {

// ---------------------------------------------------------------- splitting

/// The pieces of `s` between the occurrences of `sep`, as `str::split` yields
/// them: one more piece than there are separators.
pub open spec fn split_seq(s: Seq<char>, sep: char) -> Seq<Seq<char>>
    decreases s.len(),
{
    if s.len() == 0 {
        seq![Seq::<char>::empty()]
    } else {
        let r = split_seq(s.drop_last(), sep);
        if s.last() == sep {
            r.push(Seq::<char>::empty())
        } else {
            r.update(r.len() - 1, r.last().push(s.last()))
        }
    }
}

pub proof fn lemma_split_len(s: Seq<char>, sep: char)
    ensures
        split_seq(s, sep).len() >= 1,
    decreases s.len(),
{
    if s.len() > 0 {
        lemma_split_len(s.drop_last(), sep);
    }
}

/// A string without the separator is one piece.
pub proof fn lemma_split_no_sep(s: Seq<char>, sep: char)
    requires
        !s.contains(sep),
    ensures
        split_seq(s, sep) == seq![s],
    decreases s.len(),
{
    if s.len() > 0 {
        assert(!s.drop_last().contains(sep)) by {
            if s.drop_last().contains(sep) {
                let i = choose|i: int| 0 <= i < s.drop_last().len() && s.drop_last()[i] == sep;
                assert(s[i] == sep);
            }
        }
        lemma_split_no_sep(s.drop_last(), sep);
        assert(s.last() != sep) by {
            assert(s[s.len() - 1] == s.last());
        }
        assert(s.drop_last().push(s.last()) =~= s);
        assert(seq![s.drop_last()].update(0, s) =~= seq![s]);
    } else {
        assert(s =~= Seq::<char>::empty());
    }
}

/// Appending text without the separator extends the last piece.
pub proof fn lemma_split_append(s: Seq<char>, t: Seq<char>, sep: char)
    requires
        !t.contains(sep),
    ensures
        split_seq(s + t, sep).len() == split_seq(s, sep).len(),
        split_seq(s + t, sep) == split_seq(s, sep).update(
            split_seq(s, sep).len() - 1,
            split_seq(s, sep).last() + t,
        ),
    decreases t.len(),
{
    lemma_split_len(s, sep);
    if t.len() == 0 {
        assert(s + t =~= s);
        assert(split_seq(s, sep).last() + t =~= split_seq(s, sep).last());
        assert(split_seq(s, sep).update(split_seq(s, sep).len() - 1, split_seq(s, sep).last()) =~= split_seq(s, sep));
    } else {
        let u = t.drop_last();
        assert(!u.contains(sep)) by {
            if u.contains(sep) {
                let i = choose|i: int| 0 <= i < u.len() && u[i] == sep;
                assert(t[i] == sep);
            }
        }
        assert(t.last() != sep) by {
            assert(t[t.len() - 1] == t.last());
        }
        lemma_split_append(s, u, sep);
        assert((s + t).drop_last() =~= s + u);
        assert((s + t).last() == t.last());
        let r = split_seq(s, sep);
        let ru = split_seq(s + u, sep);
        assert(ru.last() == r.last() + u);
        assert((r.last() + u).push(t.last()) =~= r.last() + t);
        assert(ru.update(ru.len() - 1, ru.last().push(t.last())) =~= r.update(r.len() - 1, r.last() + t));
    }
}

/// The pieces of `s` between the occurrences of `sep`.
pub fn split_char(s: &str, sep: char) -> (r: Vec<String>)
    ensures
        views(r@) == split_seq(s@, sep),
{
    let v = chars_of(s);
    let mut pieces: Vec<String> = Vec::new();
    let mut cur = String::new();
    assert(v@.take(0) =~= Seq::<char>::empty());
    assert(views(pieces@).push(cur@) =~= split_seq(v@.take(0), sep));
    for i in 0..v.len()
        invariant
            v@ == s@,
            views(pieces@).push(cur@) == split_seq(v@.take(i as int), sep),
    {
        proof { lemma_split_len(v@.take(i as int), sep); }
        assert(v@.take(i + 1).drop_last() =~= v@.take(i as int));
        assert(v@.take(i + 1).last() == v@[i as int]);
        let ghost before = views(pieces@);
        if v[i] == sep {
            let done = cur;
            pieces.push(done);
            cur = String::new();
            assert(views(pieces@) =~= before.push(done@));
            assert(views(pieces@).push(cur@) =~= before.push(done@).push(Seq::<char>::empty()));
        } else {
            let ghost c0 = cur@;
            cur.push(v[i]);
            assert(views(pieces@).push(cur@) =~= before.push(c0).update(before.len() as int, c0.push(v@[i as int])));
        }
    }
    assert(v@.take(v@.len() as int) =~= v@);
    pieces.push(cur);
    pieces
}

// ---------------------------------------------------------------- numbers

pub open spec fn is_digit(c: char) -> bool {
    48 <= (c as u32) <= 57
}

pub open spec fn all_digits(s: Seq<char>) -> bool {
    forall|i: int| 0 <= i < s.len() ==> is_digit(#[trigger] s[i])
}

/// The number that a string of decimal digits writes.
pub open spec fn digits_value(s: Seq<char>) -> nat
    decreases s.len(),
{
    if s.len() == 0 {
        0
    } else {
        digits_value(s.drop_last()) * 10 + ((s.last() as u32) - 48) as nat
    }
}

/// What `str::parse::<u32>` accepts and gives: an optional `+`, then at least
/// one decimal digit, with a value that fits in `u32`.
pub open spec fn parse_u32_spec(s: Seq<char>) -> Option<u32> {
    let d = if s.len() > 0 && s[0] == '+' { s.drop_first() } else { s };
    if d.len() > 0 && all_digits(d) && digits_value(d) <= u32::MAX {
        Some(digits_value(d) as u32)
    } else {
        None
    }
}

proof fn lemma_digits_monotone(s: Seq<char>, j: int)
    requires
        all_digits(s),
        0 <= j <= s.len(),
    ensures
        digits_value(s.take(j)) <= digits_value(s),
    decreases s.len() - j,
{
    if j < s.len() {
        assert(s.drop_last().take(j) =~= s.take(j));
        assert forall|i: int| 0 <= i < s.drop_last().len() implies is_digit(#[trigger] s.drop_last()[i]) by {
            assert(s.drop_last()[i] == s[i]);
        }
        lemma_digits_monotone(s.drop_last(), j);
        assert(is_digit(s.last()));
    } else {
        assert(s.take(j) =~= s);
    }
}

/// `s` read as a `u32`, as `str::parse::<u32>` reads it.
pub fn parse_u32(s: &str) -> (r: Option<u32>)
    ensures
        r == parse_u32_spec(s@),
{
    let v = chars_of(s);
    let start: usize = if v.len() > 0 && v[0] == '+' { 1 } else { 0 };
    let ghost d = if s@.len() > 0 && s@[0] == '+' { s@.drop_first() } else { s@ };
    assert(d =~= v@.skip(start as int));
    assert(parse_u32_spec(s@) == (if d.len() > 0 && all_digits(d) && digits_value(d) <= u32::MAX {
        Some(digits_value(d) as u32) } else { None }));
    if start >= v.len() {
        return None;
    }
    let mut acc: u64 = 0;
    let mut i: usize = start;
    while i < v.len()
        invariant
            v@ == s@,
            d == v@.skip(start as int),
            parse_u32_spec(s@) == (if d.len() > 0 && all_digits(d) && digits_value(d) <= u32::MAX {
                Some(digits_value(d) as u32) } else { None }),
            start <= i <= v@.len(),
            start < v@.len(),
            all_digits(v@.subrange(start as int, i as int)),
            acc == digits_value(v@.subrange(start as int, i as int)),
            acc <= u32::MAX,
        decreases v@.len() - i,
    {
        let c = v[i];
        let x = c as u32;
        let ghost pre = v@.subrange(start as int, i as int);
        let ghost next = v@.subrange(start as int, i + 1);
        assert(next.drop_last() =~= pre);
        assert(next.last() == c);
        if !(48 <= x && x <= 57) {
            assert(d[i - start] == c);
            assert(!is_digit(d[i - start]));
            assert(!all_digits(d));
            return None;
        }
        let nv: u64 = acc * 10 + (x - 48) as u64;
        if nv > 0xFFFF_FFFF {
            proof {
                assert forall|j: int| 0 <= j < next.len() implies is_digit(#[trigger] next[j]) by {
                    if j < pre.len() {
                        assert(next[j] == pre[j]);
                    }
                }
                assert(digits_value(next) == digits_value(pre) * 10 + ((c as u32) - 48) as nat);
                assert(digits_value(next) == nv);
                if all_digits(d) {
                    assert(d.take(i + 1 - start) =~= next);
                    lemma_digits_monotone(d, i + 1 - start);
                    assert(digits_value(d) > u32::MAX);
                }
                assert(parse_u32_spec(s@) is None);
            }
            return None;
        }
        acc = nv;
        i = i + 1;
    }
    assert(v@.subrange(start as int, v@.len() as int) =~= d);
    Some(acc as u32)
}

pub open spec fn digit_char(d: nat) -> char {
    (48 + d) as char
}

/// The decimal digits of `n`, as `to_string` writes an unsigned number.
pub open spec fn dec(n: nat) -> Seq<char>
    decreases n,
{
    if n < 10 {
        seq![digit_char(n)]
    } else {
        dec(n / 10).push(digit_char(n % 10))
    }
}

/// A signed number as `to_string` writes it.
pub open spec fn dec_int(n: int) -> Seq<char> {
    if n < 0 {
        seq!['-'] + dec((-n) as nat)
    } else {
        dec(n as nat)
    }
}

pub open spec fn bool_text(b: bool) -> Seq<char> {
    if b { "true"@ } else { "false"@ }
}

fn digit(d: u64) -> (c: char)
    requires
        d < 10,
    ensures
        c == digit_char(d as nat),
{
    let b: u8 = (48 + d) as u8;
    b as char
}

/// `n` in decimal.
pub fn u64_to_string(n: u64) -> (s: String)
    ensures
        s@ == dec(n as nat),
    decreases n,
{
    if n < 10 {
        let mut s = String::new();
        s.push(digit(n));
        assert(s@ =~= seq![digit_char(n as nat)]);
        s
    } else {
        let mut s = u64_to_string(n / 10);
        s.push(digit(n % 10));
        s
    }
}

/// `n` in decimal, with a `-` when negative.
pub fn i64_to_string(n: i64) -> (s: String)
    ensures
        s@ == dec_int(n as int),
{
    if n < 0 {
        let m: u64 = (0 - (n as i128)) as u64;
        let mut s = String::new();
        s.push('-');
        let t = u64_to_string(m);
        push_str(&mut s, t.as_str());
        assert(s@ =~= seq!['-'] + dec((-n) as nat));
        s
    } else {
        u64_to_string(n as u64)
    }
}

/// `true` or `false`.
pub fn bool_to_string(b: bool) -> (s: String)
    ensures
        s@ == bool_text(b),
{
    if b {
        "true".to_owned()
    } else {
        "false".to_owned()
    }
}

} // verus!

verus! {

/// What `str::to_lowercase` gives for a string: its Unicode lower-case
/// mapping, a function of the characters alone.
pub uninterp spec fn lowercase(s: Seq<char>) -> Seq<char>;

/// Calls `str::to_lowercase`. Claimed: the result is `lowercase` of the
/// argument's characters; nothing more is stated of the Unicode mapping.
#[verifier::external_body]
pub(crate) fn to_lowercase(s: &str) -> (r: String)
    ensures
        r@ == lowercase(s@),
{
    s.to_lowercase()
}

} // verus!

verus! {

// ---------------------------------------------------------------- lines

pub open spec fn strip_cr(s: Seq<char>) -> Seq<char> {
    if s.len() > 0 && s.last() == '\r' { s.drop_last() } else { s }
}

pub open spec fn strip_all(ps: Seq<Seq<char>>) -> Seq<Seq<char>> {
    ps.map_values(|x: Seq<char>| strip_cr(x))
}

/// The lines of `s`, as `str::lines` yields them: split at `\n`, a `\r`
/// right before a `\n` dropped, and no empty line after a final `\n`.
pub open spec fn lines_seq(s: Seq<char>) -> Seq<Seq<char>> {
    let p = split_seq(s, '\n');
    let head = strip_all(p.drop_last());
    if p.last().len() == 0 { head } else { head.push(p.last()) }
}

/// The parts one after another with `sep` between them, as `join` writes them.
pub open spec fn join_seq(parts: Seq<Seq<char>>, sep: Seq<char>) -> Seq<char>
    decreases parts.len(),
{
    if parts.len() == 0 {
        Seq::empty()
    } else if parts.len() == 1 {
        parts[0]
    } else {
        join_seq(parts.drop_last(), sep) + sep + parts.last()
    }
}

pub fn strip_cr_string(s: String) -> (r: String)
    ensures
        r@ == strip_cr(s@),
{
    let v = chars_of(s.as_str());
    if v.len() > 0 && v[v.len() - 1] == '\r' {
        string_of_range(&v, 0, v.len() - 1)
    } else {
        s
    }
}

/// The lines of `s` (see `lines_seq`).
pub fn lines_of(s: &str) -> (r: Vec<String>)
    ensures
        views(r@) == lines_seq(s@),
{
    let mut parts = split_char(s, '\n');
    proof { lemma_split_len(s@, '\n'); }
    let ghost p = views(parts@);
    let last = parts.pop().unwrap();
    assert(views(parts@) =~= p.drop_last());
    let mut out: Vec<String> = Vec::new();
    let n = parts.len();
    for i in 0..n
        invariant
            n == parts@.len(),
            p.len() >= 1,
            views(parts@) == p.drop_last(),
            out@.len() == i,
            views(out@) == strip_all(p.drop_last().take(i as int)),
    {
        let piece = parts[i].clone();
        let ghost prev = out@;
        out.push(strip_cr_string(piece));
        assert forall|j: int| 0 <= j < i + 1 implies #[trigger] views(out@)[j] == strip_all(p.drop_last().take(i + 1))[j] by {
            if j < i {
                assert(out@[j] == prev[j]);
                assert(views(prev)[j] == strip_all(p.drop_last().take(i as int))[j]);
            } else {
                assert(views(parts@)[j] == p.drop_last()[j]);
            }
        }
        assert(views(out@) =~= strip_all(p.drop_last().take(i + 1)));
    }
    assert(p.drop_last().take(n as int) =~= p.drop_last());
    if !last.as_str().is_empty() {
        let ghost before = views(out@);
        let ghost lv = last@;
        out.push(last);
        assert(views(out@) =~= before.push(lv));
    }
    out
}

/// The strings one after another with `sep` between them.
pub fn join_strings(parts: &Vec<String>, sep: &str) -> (r: String)
    ensures
        r@ == join_seq(views(parts@), sep@),
{
    let mut r = String::new();
    let ghost ps = views(parts@);
    assert(ps.take(0) =~= Seq::<Seq<char>>::empty());
    for i in 0..parts.len()
        invariant
            ps == views(parts@),
            r@ == join_seq(ps.take(i as int), sep@),
    {
        assert(ps.take(i + 1).drop_last() =~= ps.take(i as int));
        assert(ps.take(i + 1).last() == parts@[i as int]@);
        if i > 0 {
            push_str(&mut r, sep);
        } else {
            assert(r@ =~= Seq::<char>::empty());
        }
        let ghost before = r@;
        push_str(&mut r, parts[i].as_str());
        if i == 0 {
            assert(r@ =~= ps.take(1)[0]);
        }
    }
    assert(ps.take(parts@.len() as int) =~= ps);
    r
}

} // verus!

verus! {

/// Whether `c` occurs in `s`.
pub fn has_char(s: &str, c: char) -> (b: bool)
    ensures
        b == s@.contains(c),
{
    let v = chars_of(s);
    for i in 0..v.len()
        invariant
            v@ == s@,
            forall|j: int| 0 <= j < i ==> v@[j] != c,
    {
        if v[i] == c {
            assert(s@[i as int] == c);
            return true;
        }
    }
    false
}

/// Whether `s` begins with `c`.
pub fn first_is(s: &str, c: char) -> (b: bool)
    ensures
        b == (s@.len() > 0 && s@[0] == c),
{
    let v = chars_of(s);
    v.len() > 0 && v[0] == c
}

} // verus!

verus! {

/// Equal once ASCII letters are lower-cased on both sides
/// (`str::eq_ignore_ascii_case`).
pub open spec fn eq_ignore_ascii_case(a: Seq<char>, b: Seq<char>) -> bool {
    seq_ascii_lower(a) == seq_ascii_lower(b)
}

pub fn str_eq_ignore_ascii_case(a: &str, b: &str) -> (r: bool)
    ensures
        r == eq_ignore_ascii_case(a@, b@),
{
    let va = chars_of(a);
    let vb = chars_of(b);
    if va.len() != vb.len() {
        assert(seq_ascii_lower(a@).len() != seq_ascii_lower(b@).len());
        return false;
    }
    for i in 0..va.len()
        invariant
            va@ == a@,
            vb@ == b@,
            va@.len() == vb@.len(),
            forall|j: int| 0 <= j < i ==> ascii_lower(#[trigger] va@[j]) == ascii_lower(vb@[j]),
    {
        if char_ascii_lower(va[i]) != char_ascii_lower(vb[i]) {
            assert(seq_ascii_lower(a@)[i as int] != seq_ascii_lower(b@)[i as int]);
            return false;
        }
    }
    assert(seq_ascii_lower(a@) =~= seq_ascii_lower(b@));
    true
}

} // verus!

verus! {

// ---------------------------------------------------------------- replacing

/// `s` with every occurrence of `pat` replaced by `rep`, the occurrences
/// taken from the left and not overlapping (`str::replace`).
pub open spec fn replace_all(s: Seq<char>, pat: Seq<char>, rep: Seq<char>) -> Seq<char>
    decreases s.len(),
{
    if s.len() == 0 || pat.len() == 0 {
        s
    } else if has_prefix(s, pat) {
        rep + replace_all(s.skip(pat.len() as int), pat, rep)
    } else {
        seq![s[0]] + replace_all(s.skip(1), pat, rep)
    }
}

/// Replaces every occurrence of a non-empty `pat` in `s` by `rep`.
pub fn replace_str(s: &str, pat: &str, rep: &str) -> (r: String)
    requires
        pat@.len() > 0,
    ensures
        r@ == replace_all(s@, pat@, rep@),
{
    let sv = chars_of(s);
    let pv = chars_of(pat);
    let mut out = String::new();
    let mut i: usize = 0;
    proof {
        assert(s@.skip(0) =~= s@);
        assert(out@ + s@ =~= s@);
    }
    while i < sv.len()
        invariant
            i <= sv@.len(),
            sv@ == s@,
            pv@ == pat@,
            pat@.len() > 0,
            out@ + replace_all(s@.skip(i as int), pat@, rep@) == replace_all(s@, pat@, rep@),
        decreases sv@.len() - i,
    {
        let ghost t = s@.skip(i as int);
        if vec_has_prefix_at(&sv, &pv, i) {
            proof {
                assert(t.subrange(0, pat@.len() as int) =~= s@.subrange(i as int, i + pat@.len()));
                assert(has_prefix(t, pat@));
                assert(t.skip(pat@.len() as int) =~= s@.skip(i + pat@.len()));
            }
            push_str(&mut out, rep);
            i = i + pv.len();
        } else {
            proof {
                if has_prefix(t, pat@) {
                    assert(t.subrange(0, pat@.len() as int) =~= s@.subrange(i as int, i + pat@.len()));
                }
                assert(t.skip(1) =~= s@.skip(i + 1));
                assert(t[0] == s@[i as int]);
            }
            out.push(sv[i]);
            i = i + 1;
        }
    }
    proof {
        assert(s@.skip(i as int).len() == 0);
        assert(out@ + s@.skip(i as int) =~= out@);
    }
    out
}

} // verus!

verus! {

/// A text without the separator is one piece.
pub proof fn lemma_split_whole(s: Seq<char>, sep: char)
    requires
        !s.contains(sep),
    ensures
        split_seq(s, sep) == seq![s],
    decreases s.len(),
{
    if s.len() > 0 {
        assert(!s.drop_last().contains(sep)) by {
            if s.drop_last().contains(sep) {
                let i = choose|i: int| 0 <= i < s.drop_last().len() && s.drop_last()[i] == sep;
                assert(s[i] == sep);
            }
        }
        lemma_split_whole(s.drop_last(), sep);
        assert(s.last() != sep) by {
            assert(s[s.len() - 1] == s.last());
        }
        assert(s.drop_last().push(s.last()) =~= s);
        let r = seq![s.drop_last()];
        assert(r.update(0, r.last().push(s.last())) =~= seq![s]);
    } else {
        assert(s =~= Seq::<char>::empty());
    }
}

/// Text after a separator, holding none itself, is the last piece.
pub proof fn lemma_split_after_sep(a: Seq<char>, b: Seq<char>, sep: char)
    requires
        !b.contains(sep),
    ensures
        split_seq(a + seq![sep] + b, sep) == split_seq(a, sep).push(b),
    decreases b.len(),
{
    let s = a + seq![sep] + b;
    if b.len() == 0 {
        assert(s.drop_last() =~= a);
        assert(b =~= Seq::<char>::empty());
    } else {
        assert(!b.drop_last().contains(sep)) by {
            if b.drop_last().contains(sep) {
                let i = choose|i: int| 0 <= i < b.drop_last().len() && b.drop_last()[i] == sep;
                assert(b[i] == sep);
            }
        }
        lemma_split_after_sep(a, b.drop_last(), sep);
        assert(s.drop_last() =~= a + seq![sep] + b.drop_last());
        assert(s.last() == b.last());
        assert(b.last() != sep) by {
            assert(b[b.len() - 1] == b.last());
        }
        lemma_split_len(a, sep);
        assert(b.drop_last().push(b.last()) =~= b);
        assert(split_seq(a, sep).push(b.drop_last()).update(
            split_seq(a, sep).len() as int,
            b.drop_last().push(b.last()),
        ) =~= split_seq(a, sep).push(b));
    }
}

/// Splitting the pieces joined by the separator gives the pieces back,
/// when none holds the separator.
pub proof fn lemma_split_join(ps: Seq<Seq<char>>, sep: char)
    requires
        ps.len() > 0,
        forall|i: int| 0 <= i < ps.len() ==> !(#[trigger] ps[i]).contains(sep),
    ensures
        split_seq(join_seq(ps, seq![sep]), sep) == ps,
    decreases ps.len(),
{
    if ps.len() == 1 {
        lemma_split_whole(ps[0], sep);
        assert(ps =~= seq![ps[0]]);
    } else {
        let rest = ps.drop_last();
        assert forall|i: int| 0 <= i < rest.len() implies !(#[trigger] rest[i]).contains(sep) by {
            assert(rest[i] == ps[i]);
        }
        lemma_split_join(rest, sep);
        assert(!ps.last().contains(sep)) by {
            assert(ps[ps.len() - 1] == ps.last());
        }
        lemma_split_after_sep(join_seq(rest, seq![sep]), ps.last(), sep);
        assert(rest.push(ps.last()) =~= ps);
    }
}

/// Lines that hold no `\n`, of which none but the last ends in `\r` and
/// the last is not empty: joined by `\n`, they read back as themselves.
pub open spec fn lines_read_back(ls: Seq<Seq<char>>) -> bool {
    &&& forall|i: int| 0 <= i < ls.len() ==> !(#[trigger] ls[i]).contains('\n')
    &&& forall|i: int| 0 <= i < ls.len() - 1 ==> !((#[trigger] ls[i]).len() > 0 && ls[i].last() == '\r')
    &&& ls.len() > 0 ==> ls.last().len() > 0
}

pub proof fn lemma_lines_join(ls: Seq<Seq<char>>)
    requires
        lines_read_back(ls),
    ensures
        lines_seq(join_seq(ls, "\n"@)) == ls,
{
    reveal_strlit("\n");
    assert("\n"@ =~= seq!['\n']);
    if ls.len() == 0 {
        assert(split_seq(Seq::<char>::empty(), '\n') == seq![Seq::<char>::empty()]);
        assert(strip_all(Seq::<Seq<char>>::empty()) =~= Seq::<Seq<char>>::empty());
    } else {
        lemma_split_join(ls, '\n');
        let head = ls.drop_last();
        assert(strip_all(head) =~= head) by {
            assert forall|i: int| 0 <= i < head.len() implies strip_cr(head[i]) == head[i] by {
                assert(head[i] == ls[i]);
            }
        }
        assert(head.push(ls.last()) =~= ls);
    }
}

/// Text added after a separator leaves the first piece as it was.
pub proof fn lemma_split_first(s: Seq<char>, t: Seq<char>, sep: char)
    requires
        split_seq(s, sep).len() >= 2,
    ensures
        split_seq(s + t, sep).len() >= 2,
        split_seq(s + t, sep)[0] == split_seq(s, sep)[0],
    decreases t.len(),
{
    if t.len() == 0 {
        assert(s + t =~= s);
    } else {
        lemma_split_first(s, t.drop_last(), sep);
        assert((s + t).drop_last() =~= s + t.drop_last());
    }
}

/// The first piece of `k`, a separator and more is `k`, when `k` holds no
/// separator.
pub proof fn lemma_split_key(k: Seq<char>, v: Seq<char>, sep: char)
    requires
        !k.contains(sep),
    ensures
        split_seq(k + seq![sep] + v, sep)[0] == k,
{
    lemma_split_whole(k, sep);
    lemma_split_after_sep(k, Seq::empty(), sep);
    assert(k + seq![sep] + Seq::<char>::empty() =~= k + seq![sep]);
    lemma_split_first(k + seq![sep], v, sep);
}

} // verus!
