//! Character-level building blocks shared by every emitter: splitting,
//! case conversion, identifier casing, number rendering.
use vstd::prelude::*;
use vstd::std_specs::iter::IteratorSpec;
use vstd::string::*;

verus! {

broadcast use vstd::string::group_string_axioms;

// ─── Outside behaviour: Unicode case mapping and classification ─────────────

/// Whether `c` is an ASCII character.
pub open spec fn is_ascii_char(c: char) -> bool {
    (c as u32) < 128
}

/// The ASCII uppercase of `c`: `a`..`z` become `A`..`Z`, the rest stay.
pub open spec fn ascii_upper(c: char) -> char {
    if 'a' <= c && c <= 'z' {
        ((c as u32) - 32) as char
    } else {
        c
    }
}

/// The ASCII lowercase of `c`: `A`..`Z` become `a`..`z`, the rest stay.
pub open spec fn ascii_lower(c: char) -> char {
    if 'A' <= c && c <= 'Z' {
        ((c as u32) + 32) as char
    } else {
        c
    }
}

/// Whether every character of `s` is ASCII.
#[verifier::opaque]
pub open spec fn all_ascii(s: Seq<char>) -> bool {
    forall|i: int| 0 <= i < s.len() ==> is_ascii_char(#[trigger] s[i])
}

/// What `char::to_uppercase` yields for a non-ASCII `c`, collected into a string.
pub uninterp spec fn char_uppercase(c: char) -> Seq<char>;

/// What `str::to_uppercase` returns for a string with characters `s` that are not all ASCII.
pub uninterp spec fn str_uppercase(s: Seq<char>) -> Seq<char>;

/// What `str::to_lowercase` returns for a string with characters `s` that are not all ASCII.
pub uninterp spec fn str_lowercase(s: Seq<char>) -> Seq<char>;

/// Whether `char::is_alphabetic` holds of a non-ASCII `c`.
pub uninterp spec fn char_alphabetic(c: char) -> bool;

/// Whether `char::is_numeric` holds of a non-ASCII `c`.
pub uninterp spec fn char_numeric(c: char) -> bool;

/// `char::to_uppercase(c)` as a string: for ASCII the ASCII uppercase, as
/// Unicode maps it; beyond ASCII the named mapping.
#[verifier::opaque]
pub open spec fn upper_char(c: char) -> Seq<char> {
    if is_ascii_char(c) {
        seq![ascii_upper(c)]
    } else {
        char_uppercase(c)
    }
}

/// `str::to_uppercase(s)`: character by character for an ASCII string,
/// otherwise the named mapping.
#[verifier::opaque]
pub open spec fn upper_str(s: Seq<char>) -> Seq<char> {
    if all_ascii(s) {
        s.map_values(|c: char| ascii_upper(c))
    } else {
        str_uppercase(s)
    }
}

/// `str::to_lowercase(s)`: character by character for an ASCII string,
/// otherwise the named mapping.
#[verifier::opaque]
pub open spec fn lower_str(s: Seq<char>) -> Seq<char> {
    if all_ascii(s) {
        s.map_values(|c: char| ascii_lower(c))
    } else {
        str_lowercase(s)
    }
}

/// `char::is_alphabetic`: among ASCII characters exactly the letters.
#[verifier::opaque]
pub open spec fn alphabetic(c: char) -> bool {
    if is_ascii_char(c) {
        ('a' <= c && c <= 'z') || ('A' <= c && c <= 'Z')
    } else {
        char_alphabetic(c)
    }
}

/// `char::is_numeric`: among ASCII characters exactly the digits.
#[verifier::opaque]
pub open spec fn numeric(c: char) -> bool {
    if is_ascii_char(c) {
        '0' <= c && c <= '9'
    } else {
        char_numeric(c)
    }
}

/// `char::is_alphanumeric`: alphabetic or numeric, as its documentation says.
pub open spec fn alphanumeric(c: char) -> bool {
    alphabetic(c) || numeric(c)
}

/// `char::is_whitespace`: the Unicode `White_Space` property, which holds of
/// U+0009..U+000D, U+0020, U+0085, U+00A0, U+1680, U+2000..U+200A, U+2028,
/// U+2029, U+202F, U+205F and U+3000.
#[verifier::opaque]
pub open spec fn white_space(c: char) -> bool {
    let u = c as u32;
    ||| 0x9 <= u <= 0xD
    ||| u == 0x20
    ||| u == 0x85
    ||| u == 0xA0
    ||| u == 0x1680
    ||| 0x2000 <= u <= 0x200A
    ||| u == 0x2028
    ||| u == 0x2029
    ||| u == 0x202F
    ||| u == 0x205F
    ||| u == 0x3000
}

/// Appends one character (`String::push`).
#[verifier::external_body]
pub(crate) fn push_char(out: &mut String, c: char)
    ensures
        final(out)@ == old(out)@.push(c),
{
    out.push(c);
}

/// The uppercase mapping of `c` (`char::to_uppercase`), as a string. For
/// ASCII it is the ASCII uppercase; beyond ASCII the Unicode tables behind it
/// are not restated: the result is the named mapping `char_uppercase` of `c`.
#[verifier::external_body]
pub(crate) fn char_to_uppercase(c: char) -> (r: String)
    ensures
        r@ == upper_char(c),
        !is_ascii_char(c) ==> r@ == char_uppercase(c),
{
    c.to_uppercase().collect::<String>()
}

/// `str::to_uppercase`: the ASCII uppercase of an ASCII string, otherwise
/// the named mapping of the input's characters.
#[verifier::external_body]
pub(crate) fn to_uppercase(s: &str) -> (r: String)
    ensures
        r@ == upper_str(s@),
        !all_ascii(s@) ==> r@ == str_uppercase(s@),
{
    s.to_uppercase()
}

/// `str::to_lowercase`: the ASCII lowercase of an ASCII string, otherwise
/// the named mapping of the input's characters.
#[verifier::external_body]
pub(crate) fn to_lowercase(s: &str) -> (r: String)
    ensures
        r@ == lower_str(s@),
        !all_ascii(s@) ==> r@ == str_lowercase(s@),
{
    s.to_lowercase()
}

/// `char::is_alphabetic`: the ASCII letters among ASCII characters, the
/// named property beyond.
#[verifier::external_body]
pub(crate) fn is_alphabetic(c: char) -> (r: bool)
    ensures
        r == alphabetic(c),
        !is_ascii_char(c) ==> r == char_alphabetic(c),
{
    c.is_alphabetic()
}

/// `char::is_alphanumeric`, which holds exactly when `c` is alphabetic or
/// numeric: ASCII letters and digits among ASCII characters, the named
/// properties beyond.
#[verifier::external_body]
pub(crate) fn is_alphanumeric(c: char) -> (r: bool)
    ensures
        r == alphanumeric(c),
        !is_ascii_char(c) ==> r == (char_alphabetic(c) || char_numeric(c)),
{
    c.is_alphanumeric()
}

/// Whether `c` is white space (as `char::is_whitespace`): the Unicode
/// `White_Space` code points, compared one by one.
pub(crate) fn is_whitespace(c: char) -> (r: bool)
    ensures
        r == white_space(c),
{
    proof {
        reveal(white_space);
    }
    let u: u32 = c as u32;
    (0x9 <= u && u <= 0xD) || u == 0x20 || u == 0x85 || u == 0xA0 || u == 0x1680 || (0x2000 <= u && u <= 0x200A)
        || u == 0x2028 || u == 0x2029 || u == 0x202F || u == 0x205F || u == 0x3000
}

// ─── Sequences of characters ────────────────────────────────────────────────

/// The characters of `s`, in order.
pub fn chars_of(s: &str) -> (v: Vec<char>)
    ensures
        v@ == s@,
{
    let mut v: Vec<char> = Vec::new();
    let mut it = s.chars();
    let ghost all = s@;
    loop
        invariant
            it.remaining() == all.skip(v@.len() as int),
            v@ == all.take(v@.len() as int),
            v@.len() <= all.len(),
        ensures
            v@ == all,
        decreases all.len() - v@.len(),
    {
        match it.next() {
            Some(c) => {
                v.push(c);
            },
            None => {
                break ;
            },
        }
    }
    v
}

/// Appends every character of `v` to `out`.
pub fn push_chars(out: &mut String, v: &Vec<char>)
    ensures
        final(out)@ == old(out)@ + v@,
{
    let n: usize = v.len();
    let mut i: usize = 0;
    while i < n
        invariant
            n == v@.len(),
            i <= n,
            out@ == old(out)@ + v@.take(i as int),
        decreases n - i,
    {
        push_char(out, v[i]);
        i = i + 1;
        assert(v@.take(i as int) =~= v@.take((i - 1) as int).push(v@[i - 1]));
    }
    assert(v@.take(n as int) =~= v@);
}

/// A string holding exactly the characters of `v`.
pub fn string_of(v: &Vec<char>) -> (r: String)
    ensures
        r@ == v@,
{
    let mut r: String = String::new();
    push_chars(&mut r, v);
    assert(r@ =~= v@);
    r
}

/// Whether two strings hold the same characters.
pub fn str_eq(a: &str, b: &str) -> (r: bool)
    ensures
        r == (a@ == b@),
{
    let x: Vec<char> = chars_of(a);
    let y: Vec<char> = chars_of(b);
    if x.len() != y.len() {
        return false;
    }
    let n: usize = x.len();
    let mut i: usize = 0;
    while i < n
        invariant
            n == x@.len(),
            n == y@.len(),
            x@ == a@,
            y@ == b@,
            i <= n,
            forall|j: int| 0 <= j < i ==> x@[j] == y@[j],
        decreases n - i,
    {
        if x[i] != y[i] {
            assert(x@[i as int] != y@[i as int]);
            return false;
        }
        i = i + 1;
    }
    assert(x@ =~= y@);
    true
}

/// Whether `s` begins with the characters of `p`.
pub open spec fn has_prefix(s: Seq<char>, p: Seq<char>) -> bool {
    p.len() <= s.len() && s.take(p.len() as int) == p
}

/// Whether `s` begins with `p` (`str::starts_with`).
pub fn starts_with(s: &str, p: &str) -> (r: bool)
    ensures
        r == has_prefix(s@, p@),
{
    let x: Vec<char> = chars_of(s);
    let y: Vec<char> = chars_of(p);
    if y.len() > x.len() {
        return false;
    }
    let n: usize = y.len();
    let mut i: usize = 0;
    while i < n
        invariant
            n == y@.len(),
            n <= x@.len(),
            x@ == s@,
            y@ == p@,
            i <= n,
            forall|j: int| 0 <= j < i ==> x@[j] == y@[j],
        decreases n - i,
    {
        if x[i] != y[i] {
            assert(x@.take(n as int)[i as int] != y@[i as int]);
            return false;
        }
        i = i + 1;
    }
    assert(x@.take(n as int) =~= y@);
    true
}

/// `s` without the prefix `p` when it has one (`str::strip_prefix`, with
/// `unwrap_or` falling back to `s`).
pub open spec fn strip_prefix_or_self(s: Seq<char>, p: Seq<char>) -> Seq<char> {
    if has_prefix(s, p) {
        s.skip(p.len() as int)
    } else {
        s
    }
}

/// The characters of `s` without the prefix `p`, or all of them when `s`
/// does not begin with `p`.
pub fn strip_prefix_or_self_chars(s: &str, p: &str) -> (r: Vec<char>)
    ensures
        r@ == strip_prefix_or_self(s@, p@),
{
    let all: Vec<char> = chars_of(s);
    if starts_with(s, p) {
        let k: usize = chars_of(p).len();
        let mut r: Vec<char> = Vec::new();
        let mut i: usize = k;
        while i < all.len()
            invariant
                k <= i <= all@.len(),
                k == p@.len(),
                all@ == s@,
                r@ == all@.subrange(k as int, i as int),
            decreases all@.len() - i,
        {
            r.push(all[i]);
            i = i + 1;
            assert(all@.subrange(k as int, i as int) =~= all@.subrange(k as int, (i - 1) as int).push(all@[i - 1]));
        }
        assert(r@ =~= s@.skip(p@.len() as int));
        r
    } else {
        all
    }
}

/// Whether `needle` occurs in `s` as a contiguous run.
pub open spec fn has_infix(s: Seq<char>, needle: Seq<char>) -> bool {
    exists|i: int| 0 <= i && i + needle.len() <= s.len() && #[trigger] s.subrange(i, i + needle.len()) == needle
}

/// Whether `needle` occurs in `s` (`str::contains` with a string pattern).
pub fn contains_str(s: &str, needle: &str) -> (r: bool)
    ensures
        r == has_infix(s@, needle@),
{
    let x: Vec<char> = chars_of(s);
    let y: Vec<char> = chars_of(needle);
    let n: usize = x.len();
    let m: usize = y.len();
    if m > n {
        assert forall|i: int| 0 <= i && i + m <= n implies #[trigger] x@.subrange(i, i + m) != y@ by {}
        return false;
    }
    let mut i: usize = 0;
    while i <= n - m
        invariant
            n == x@.len(),
            m == y@.len(),
            m <= n,
            x@ == s@,
            y@ == needle@,
            i <= n - m + 1,
            forall|k: int| 0 <= k < i ==> #[trigger] x@.subrange(k, k + m) != y@,
        decreases n - m + 1 - i,
    {
        let mut j: usize = 0;
        let mut same: bool = true;
        while j < m
            invariant
                n == x@.len(),
                m == y@.len(),
                i + m <= n,
                j <= m,
                same == (forall|t: int| 0 <= t < j ==> x@[i + t] == y@[t]),
            decreases m - j,
        {
            if x[i + j] != y[j] {
                same = false;
            }
            j = j + 1;
        }
        if same {
            assert(x@.subrange(i as int, i + m) =~= y@);
            return true;
        }
        assert(x@.subrange(i as int, i + m)[0] == x@[i as int] || m == 0);
        assert(x@.subrange(i as int, i + m) != y@) by {
            let t = choose|t: int| 0 <= t < m && x@[i + t] != y@[t];
            assert(x@.subrange(i as int, i + m)[t] != y@[t]);
        }
        i = i + 1;
    }
    false
}

// ─── Splitting and joining ──────────────────────────────────────────────────

/// The pieces of `s` between occurrences of `sep` (`str::split` with a char
/// pattern): always at least one piece, empty pieces kept.
pub open spec fn split_seq(s: Seq<char>, sep: char) -> Seq<Seq<char>>
    decreases s.len(),
{
    if s.len() == 0 {
        seq![Seq::<char>::empty()]
    } else {
        let rest = split_seq(s.drop_last(), sep);
        if s.last() == sep {
            rest.push(Seq::<char>::empty())
        } else {
            rest.update(rest.len() - 1, rest.last().push(s.last()))
        }
    }
}

/// `split_seq` never yields an empty list of pieces.
pub proof fn lemma_split_nonempty(s: Seq<char>, sep: char)
    ensures
        split_seq(s, sep).len() >= 1,
    decreases s.len(),
{
    if s.len() > 0 {
        lemma_split_nonempty(s.drop_last(), sep);
    }
}

/// The pieces of `s` between occurrences of `sep`.
pub fn split_chars(s: &Vec<char>, sep: char) -> (r: Vec<Vec<char>>)
    ensures
        r@.len() == split_seq(s@, sep).len(),
        forall|i: int| 0 <= i < r@.len() ==> #[trigger] r@[i]@ == split_seq(s@, sep)[i],
{
    let mut done: Vec<Vec<char>> = Vec::new();
    let mut cur: Vec<char> = Vec::new();
    let n: usize = s.len();
    let mut i: usize = 0;
    while i < n
        invariant
            n == s@.len(),
            i <= n,
            done@.len() + 1 == split_seq(s@.take(i as int), sep).len(),
            forall|k: int| 0 <= k < done@.len() ==> #[trigger] done@[k]@ == split_seq(s@.take(i as int), sep)[k],
            cur@ == split_seq(s@.take(i as int), sep).last(),
        decreases n - i,
    {
        let c: char = s[i];
        proof {
            lemma_split_nonempty(s@.take(i as int), sep);
            assert(s@.take(i + 1).drop_last() =~= s@.take(i as int));
        }
        if c == sep {
            let finished: Vec<char> = cur;
            done.push(finished);
            cur = Vec::new();
        } else {
            cur.push(c);
        }
        i = i + 1;
    }
    assert(s@.take(n as int) =~= s@);
    done.push(cur);
    done
}

/// `c` made uppercase if it begins a piece: the first character goes through
/// `char::to_uppercase`, the rest stay as they are.
pub open spec fn capitalize(p: Seq<char>) -> Seq<char> {
    if p.len() == 0 {
        Seq::<char>::empty()
    } else {
        upper_char(p[0]) + p.drop_first()
    }
}

/// The pieces joined with nothing between them, each capitalised.
pub open spec fn concat_capitalized(pieces: Seq<Seq<char>>) -> Seq<char>
    decreases pieces.len(),
{
    if pieces.len() == 0 {
        Seq::<char>::empty()
    } else {
        concat_capitalized(pieces.drop_last()) + capitalize(pieces.last())
    }
}

/// `s` split on `sep`, each piece capitalised, joined with nothing between.
pub open spec fn pascal(s: Seq<char>, sep: char) -> Seq<char> {
    concat_capitalized(split_seq(s, sep))
}

/// Appends `capitalize(p)` to `out`.
pub fn push_capitalized(out: &mut String, p: &Vec<char>)
    ensures
        final(out)@ == old(out)@ + capitalize(p@),
{
    if p.len() == 0 {
        assert(old(out)@ + capitalize(p@) =~= old(out)@);
        return;
    }
    let first: String = char_to_uppercase(p[0]);
    out.append(first.as_str());
    let n: usize = p.len();
    let mut i: usize = 1;
    while i < n
        invariant
            n == p@.len(),
            1 <= i <= n,
            out@ == old(out)@ + upper_char(p@[0]) + p@.subrange(1, i as int),
        decreases n - i,
    {
        push_char(out, p[i]);
        i = i + 1;
        assert(p@.subrange(1, i as int) =~= p@.subrange(1, (i - 1) as int).push(p@[i - 1]));
    }
    assert(p@.subrange(1, n as int) =~= p@.drop_first());
    assert(old(out)@ + upper_char(p@[0]) + p@.drop_first() =~= old(out)@ + capitalize(p@));
}

/// Capitalise the first character of `s` (the rest unchanged).
pub fn capitalise_first(s: &str) -> (r: String)
    ensures
        r@ == capitalize(s@),
{
    let mut r: String = String::new();
    let v: Vec<char> = chars_of(s);
    push_capitalized(&mut r, &v);
    assert(r@ =~= capitalize(s@));
    r
}

/// Appends `pascal(v, sep)` to `out`.
pub fn push_pascal(out: &mut String, v: &Vec<char>, sep: char)
    ensures
        final(out)@ == old(out)@ + pascal(v@, sep),
{
    let pieces: Vec<Vec<char>> = split_chars(v, sep);
    let ghost all = split_seq(v@, sep);
    let n: usize = pieces.len();
    let mut i: usize = 0;
    while i < n
        invariant
            n == pieces@.len(),
            n == all.len(),
            all == split_seq(v@, sep),
            forall|k: int| 0 <= k < n ==> #[trigger] pieces@[k]@ == all[k],
            i <= n,
            out@ == old(out)@ + concat_capitalized(all.take(i as int)),
        decreases n - i,
    {
        push_capitalized(out, &pieces[i]);
        proof {
            let t = all.take(i + 1);
            assert(t.drop_last() =~= all.take(i as int));
            assert(t.last() == pieces@[i as int]@);
        }
        i = i + 1;
    }
    assert(all.take(n as int) =~= all);
}

/// `s` with every character in `from` replaced by `to`.
pub open spec fn replace_chars(s: Seq<char>, from: Seq<char>, to: char) -> Seq<char> {
    s.map_values(|c: char| if from.contains(c) { to } else { c })
}

/// `s` with every occurrence of each character in `from` replaced by `to`
/// (`str::replace` with a char or char-array pattern and a one-char replacement).
pub fn replace_chars_str(s: &str, from: &Vec<char>, to: char) -> (r: String)
    ensures
        r@ == replace_chars(s@, from@, to),
{
    let v: Vec<char> = chars_of(s);
    let mut r: String = String::new();
    let n: usize = v.len();
    let mut i: usize = 0;
    while i < n
        invariant
            n == v@.len(),
            v@ == s@,
            i <= n,
            r@ == replace_chars(v@.take(i as int), from@, to),
        decreases n - i,
    {
        let c: char = v[i];
        let mut hit: bool = false;
        let mut j: usize = 0;
        while j < from.len()
            invariant
                j <= from@.len(),
                hit == (exists|k: int| 0 <= k < j && from@[k] == c),
            decreases from@.len() - j,
        {
            if from[j] == c {
                hit = true;
            }
            j = j + 1;
        }
        if hit {
            push_char(&mut r, to);
        } else {
            push_char(&mut r, c);
        }
        i = i + 1;
        assert(replace_chars(v@.take(i as int), from@, to) =~= replace_chars(v@.take((i - 1) as int), from@, to).push(
            if from@.contains(c) { to } else { c }));
    }
    assert(v@.take(n as int) =~= v@);
    r
}

/// `s` with `.` replaced by `_`.
pub fn dots_to_underscores(s: &str) -> (r: String)
    ensures
        r@ == replace_chars(s@, seq!['.'], '_'),
{
    let mut from: Vec<char> = Vec::new();
    from.push('.');
    assert(from@ =~= seq!['.']);
    replace_chars_str(s, &from, '_')
}

/// `s` with `.` and `-` replaced by `_`.
pub fn dots_dashes_to_underscores(s: &str) -> (r: String)
    ensures
        r@ == replace_chars(s@, seq!['.', '-'], '_'),
{
    let mut from: Vec<char> = Vec::new();
    from.push('.');
    from.push('-');
    assert(from@ =~= seq!['.', '-']);
    replace_chars_str(s, &from, '_')
}

// ─── Numbers ────────────────────────────────────────────────────────────────

/// The hexadecimal digit for `d` (uppercase letters).
pub open spec fn hex_digit(d: nat) -> char {
    if d < 10 {
        (48 + d) as char
    } else {
        (55 + d) as char
    }
}

/// The last `n` hexadecimal digits of `v`, most significant first.
pub open spec fn hex_digits(v: nat, n: nat) -> Seq<char>
    decreases n,
{
    if n == 0 {
        Seq::<char>::empty()
    } else {
        hex_digits(v / 16, (n - 1) as nat).push(hex_digit(v % 16))
    }
}

fn hex_char(d: u64) -> (c: char)
    requires
        d < 16,
    ensures
        c == hex_digit(d as nat),
{
    if d < 10 {
        ((48 + d) as u8) as char
    } else {
        ((55 + d) as u8) as char
    }
}

/// Appends `v` as sixteen uppercase hexadecimal digits (`{:016X}`).
pub fn push_hex16(out: &mut String, v: u64)
    ensures
        final(out)@ == old(out)@ + hex_digits(v as nat, 16),
{
    push_hex_n(out, v, 16);
}

/// Appends `v` as eight uppercase hexadecimal digits (`{:08X}`).
pub fn push_hex8(out: &mut String, v: u32)
    ensures
        final(out)@ == old(out)@ + hex_digits(v as nat, 8),
{
    push_hex_n(out, v as u64, 8);
}

fn push_hex_n(out: &mut String, v: u64, n: u64)
    requires
        n <= 16,
    ensures
        final(out)@ == old(out)@ + hex_digits(v as nat, n as nat),
{
    let mut digits: Vec<char> = Vec::new();
    let mut cur: u64 = v;
    let mut k: u64 = n;
    while k > 0
        invariant
            k <= n,
            hex_digits(v as nat, n as nat) == hex_digits(cur as nat, k as nat) + digits@,
        decreases k,
    {
        let d: char = hex_char(cur % 16);
        proof {
            assert(hex_digits(cur as nat, k as nat) == hex_digits((cur / 16) as nat, (k - 1) as nat).push(hex_digit((cur % 16) as nat)));
            assert(hex_digits(cur as nat, k as nat) + digits@ =~= hex_digits((cur / 16) as nat, (k - 1) as nat) + (seq![d] + digits@));
        }
        let ghost before = digits@;
        digits.insert(0, d);
        assert(digits@ =~= seq![d] + before);
        cur = cur / 16;
        k = k - 1;
    }
    assert(hex_digits(cur as nat, 0) + digits@ =~= digits@);
    push_chars(out, &digits);
}

/// The decimal digit for `d`.
pub open spec fn dec_digit(d: nat) -> char {
    (48 + d) as char
}

/// `v` in decimal, no leading zeros (`{}` on an unsigned integer).
pub open spec fn dec_digits(v: nat) -> Seq<char>
    decreases v,
{
    if v < 10 {
        seq![dec_digit(v)]
    } else {
        dec_digits(v / 10).push(dec_digit(v % 10))
    }
}

/// Appends `v` in decimal.
pub fn push_u128(out: &mut String, v: u128)
    ensures
        final(out)@ == old(out)@ + dec_digits(v as nat),
{
    let mut digits: Vec<char> = Vec::new();
    let mut cur: u128 = v;
    while cur >= 10
        invariant
            dec_digits(v as nat) == dec_digits(cur as nat) + digits@,
        decreases cur,
    {
        let d: char = ((48 + cur % 10) as u8) as char;
        proof {
            assert(dec_digits(cur as nat) == dec_digits((cur / 10) as nat).push(dec_digit((cur % 10) as nat)));
            assert(dec_digits(cur as nat) + digits@ =~= dec_digits((cur / 10) as nat) + (seq![d] + digits@));
        }
        let ghost before = digits@;
        digits.insert(0, d);
        assert(digits@ =~= seq![d] + before);
        cur = cur / 10;
    }
    let d: char = ((48 + cur) as u8) as char;
    digits.insert(0, d);
    assert(digits@ =~= dec_digits(v as nat));
    push_chars(out, &digits);
}

/// Appends `v` in decimal.
pub fn push_u64(out: &mut String, v: u64)
    ensures
        final(out)@ == old(out)@ + dec_digits(v as nat),
{
    push_u128(out, v as u128);
}

/// Appends `v` in decimal.
pub fn push_u32(out: &mut String, v: u32)
    ensures
        final(out)@ == old(out)@ + dec_digits(v as nat),
{
    push_u64(out, v as u64);
}

/// Appends `v` in decimal.
pub fn push_usize(out: &mut String, v: usize)
    ensures
        final(out)@ == old(out)@ + dec_digits(v as nat),
{
    push_u64(out, v as u64);
}

// ─── Trimming and identifiers ───────────────────────────────────────────────

/// Index of the first non-whitespace character at or after `i` (or `s.len()`).
pub open spec fn skip_ws(s: Seq<char>, i: int) -> int
    decreases s.len() - i,
{
    if i < 0 || i >= s.len() {
        s.len() as int
    } else if white_space(s[i]) {
        skip_ws(s, i + 1)
    } else {
        i
    }
}

/// One past the last non-whitespace character before `j` (or `lo` when none is at or after `lo`).
pub open spec fn skip_ws_back(s: Seq<char>, lo: int, j: int) -> int
    decreases j - lo,
{
    if j <= lo || j > s.len() {
        lo
    } else if white_space(s[j - 1]) {
        skip_ws_back(s, lo, j - 1)
    } else {
        j
    }
}

/// `s` without leading and trailing whitespace (`str::trim`).
pub open spec fn trim(s: Seq<char>) -> Seq<char> {
    let lo = skip_ws(s, 0);
    s.subrange(lo, skip_ws_back(s, lo, s.len() as int))
}

/// Bounds of the whitespace skips.
pub proof fn lemma_skip_ws_bounds(s: Seq<char>, i: int)
    requires
        0 <= i <= s.len(),
    ensures
        i <= skip_ws(s, i) <= s.len(),
    decreases s.len() - i,
{
    if i < s.len() && white_space(s[i]) {
        lemma_skip_ws_bounds(s, i + 1);
    }
}

/// Bounds of the backward whitespace skip.
pub proof fn lemma_skip_ws_back_bounds(s: Seq<char>, lo: int, j: int)
    requires
        0 <= lo <= j <= s.len(),
    ensures
        lo <= skip_ws_back(s, lo, j) <= j,
    decreases j - lo,
{
    if j > lo && white_space(s[j - 1]) {
        lemma_skip_ws_back_bounds(s, lo, j - 1);
    }
}

/// Trimming never makes a string longer.
pub proof fn lemma_trim_len(s: Seq<char>)
    ensures
        trim(s).len() <= s.len(),
{
    lemma_skip_ws_bounds(s, 0);
    lemma_skip_ws_back_bounds(s, skip_ws(s, 0), s.len() as int);
}

/// `v` without leading and trailing whitespace.
pub fn trim_chars(v: &Vec<char>) -> (r: Vec<char>)
    ensures
        r@ == trim(v@),
{
    let n: usize = v.len();
    let mut lo: usize = 0;
    while lo < n && is_whitespace(v[lo])
        invariant
            n == v@.len(),
            lo <= n,
            skip_ws(v@, lo as int) == skip_ws(v@, 0),
        decreases n - lo,
    {
        lo = lo + 1;
    }
    let mut hi: usize = n;
    while hi > lo && is_whitespace(v[hi - 1])
        invariant
            n == v@.len(),
            lo <= hi <= n,
            lo == skip_ws(v@, 0),
            skip_ws_back(v@, lo as int, hi as int) == skip_ws_back(v@, lo as int, n as int),
        decreases hi - lo,
    {
        hi = hi - 1;
    }
    let mut r: Vec<char> = Vec::new();
    let mut i: usize = lo;
    while i < hi
        invariant
            n == v@.len(),
            lo <= i <= hi <= n,
            r@ == v@.subrange(lo as int, i as int),
        decreases hi - i,
    {
        r.push(v[i]);
        i = i + 1;
        assert(v@.subrange(lo as int, i as int) =~= v@.subrange(lo as int, (i - 1) as int).push(v@[i - 1]));
    }
    r
}

/// Whether `c` can start an identifier in a value expression.
pub open spec fn ident_start(c: char) -> bool {
    alphabetic(c) || c == '_'
}

/// Whether `c` can continue an identifier in a value expression.
pub open spec fn ident_cont(c: char) -> bool {
    alphanumeric(c) || c == '_'
}

/// One past the end of the identifier run that starts at `i`.
pub open spec fn ident_end(s: Seq<char>, i: int) -> int
    decreases s.len() - i,
{
    if i < 0 || i >= s.len() {
        s.len() as int
    } else if ident_cont(s[i]) {
        ident_end(s, i + 1)
    } else {
        i
    }
}

/// Bounds of an identifier run.
pub proof fn lemma_ident_end_bounds(s: Seq<char>, i: int)
    requires
        0 <= i <= s.len(),
    ensures
        i <= ident_end(s, i) <= s.len(),
        i < s.len() && ident_cont(s[i]) ==> i < ident_end(s, i),
    decreases s.len() - i,
{
    if i < s.len() && ident_cont(s[i]) {
        lemma_ident_end_bounds(s, i + 1);
    }
}

/// Finds the end of the identifier run that starts at `i`.
pub fn scan_ident(v: &Vec<char>, i: usize) -> (j: usize)
    requires
        i <= v@.len(),
    ensures
        j as int == ident_end(v@, i as int),
{
    let mut j: usize = i;
    while j < v.len() && (is_alphanumeric(v[j]) || v[j] == '_')
        invariant
            i <= j <= v@.len(),
            ident_end(v@, j as int) == ident_end(v@, i as int),
        decreases v@.len() - j,
    {
        j = j + 1;
    }
    j
}

/// The characters `v[lo..hi]`.
pub fn slice_chars(v: &Vec<char>, lo: usize, hi: usize) -> (r: Vec<char>)
    requires
        lo <= hi <= v@.len(),
    ensures
        r@ == v@.subrange(lo as int, hi as int),
{
    let mut r: Vec<char> = Vec::new();
    let mut i: usize = lo;
    while i < hi
        invariant
            lo <= i <= hi <= v@.len(),
            r@ == v@.subrange(lo as int, i as int),
        decreases hi - i,
    {
        r.push(v[i]);
        i = i + 1;
        assert(v@.subrange(lo as int, i as int) =~= v@.subrange(lo as int, (i - 1) as int).push(v@[i - 1]));
    }
    r
}

// ─── Parameter lists ────────────────────────────────────────────────────────

/// The names of `params` joined with `", "`.
pub open spec fn join_param_names(params: Seq<crate::ir::ResolvedParam>) -> Seq<char>
    decreases params.len(),
{
    if params.len() == 0 {
        Seq::<char>::empty()
    } else if params.len() == 1 {
        params[0].name@
    } else {
        join_param_names(params.drop_last()) + ", "@ + params.last().name@
    }
}

/// Appends the names of `params` joined with `", "`.
pub fn push_param_names(out: &mut String, params: &Vec<crate::ir::ResolvedParam>)
    ensures
        final(out)@ == old(out)@ + join_param_names(params@),
{
    let n: usize = params.len();
    let mut i: usize = 0;
    while i < n
        invariant
            n == params@.len(),
            i <= n,
            out@ == old(out)@ + join_param_names(params@.take(i as int)),
        decreases n - i,
    {
        let ghost before = out@;
        if i > 0 {
            out.append(", ");
        }
        out.append(params[i].name.as_str());
        proof {
            let t = params@.take(i + 1);
            assert(t.drop_last() =~= params@.take(i as int));
            if i == 0 {
                assert(join_param_names(params@.take(0)) =~= Seq::<char>::empty());
                assert(out@ =~= old(out)@ + join_param_names(t));
            } else {
                assert(out@ =~= old(out)@ + join_param_names(t));
            }
        }
        i = i + 1;
    }
    assert(params@.take(n as int) =~= params@);
}

} // verus!
