//! Character-level text utilities with their specifications.
//!
//! Strings are modelled by their view, a `Seq<char>`. Executable helpers work
//! on `Vec<char>` buffers and convert to `String` at the edges.

use vstd::prelude::*;

verus! {

broadcast use vstd::string::group_string_axioms;

// ─── std's Unicode character classes and case mappings ───────────────────────
//
// On ASCII characters these are stated; beyond ASCII they are named.

/// Whether a character is ASCII.
pub open spec fn is_ascii_char(c: char) -> bool {
    (c as u32) < 128
}

/// Whether a character is an ASCII uppercase letter.
pub open spec fn is_ascii_upper(c: char) -> bool {
    'A' <= c && c <= 'Z'
}

/// Whether a character is an ASCII lowercase letter.
pub open spec fn is_ascii_lower(c: char) -> bool {
    'a' <= c && c <= 'z'
}

/// The ASCII lowercase of a character: letters `A` to `Z` become `a` to `z`.
pub open spec fn ascii_lower(c: char) -> char {
    if is_ascii_upper(c) {
        ((c as u32) + 32) as char
    } else {
        c
    }
}

/// The ASCII uppercase of a character: letters `a` to `z` become `A` to `Z`.
pub open spec fn ascii_upper(c: char) -> char {
    if is_ascii_lower(c) {
        ((c as u32) - 32) as char
    } else {
        c
    }
}

/// Whether a character has the Unicode `White_Space` property
/// (`char::is_whitespace`): U+0009 to U+000D, U+0020, U+0085, U+00A0,
/// U+1680, U+2000 to U+200A, U+2028, U+2029, U+202F, U+205F and U+3000.
pub open spec fn is_ws(c: char) -> bool {
    let n = c as u32;
    (0x09 <= n && n <= 0x0D) || n == 0x20 || n == 0x85 || n == 0xA0 || n == 0x1680 || (0x2000
        <= n && n <= 0x200A) || n == 0x2028 || n == 0x2029 || n == 0x202F || n == 0x205F || n
        == 0x3000
}

/// The Unicode `Lowercase` property beyond ASCII (`char::is_lowercase`).
pub uninterp spec fn unicode_lowercase(c: char) -> bool;

/// The Unicode `Uppercase` property beyond ASCII (`char::is_uppercase`).
pub uninterp spec fn unicode_uppercase(c: char) -> bool;

/// Whether a character beyond ASCII is numeric (`char::is_numeric`).
pub uninterp spec fn unicode_numeric(c: char) -> bool;

/// The first character of `char::to_lowercase` beyond ASCII.
pub uninterp spec fn unicode_lower_first(c: char) -> char;

/// The first character of `char::to_uppercase` beyond ASCII.
pub uninterp spec fn unicode_upper_first(c: char) -> char;

/// `str::to_lowercase` of a text that is not all ASCII.
pub uninterp spec fn unicode_str_lower(s: Seq<char>) -> Seq<char>;

/// `str::to_uppercase` of a text that is not all ASCII.
pub uninterp spec fn unicode_str_upper(s: Seq<char>) -> Seq<char>;

/// Whether a character has the Unicode `Lowercase` property: on ASCII, the
/// letters `a` to `z`.
pub open spec fn is_lower(c: char) -> bool {
    if is_ascii_char(c) {
        is_ascii_lower(c)
    } else {
        unicode_lowercase(c)
    }
}

/// Whether a character has the Unicode `Uppercase` property: on ASCII, the
/// letters `A` to `Z`.
pub open spec fn is_upper(c: char) -> bool {
    if is_ascii_char(c) {
        is_ascii_upper(c)
    } else {
        unicode_uppercase(c)
    }
}

/// Whether a character is numeric in Unicode's sense: on ASCII, the digits.
pub open spec fn is_numeric(c: char) -> bool {
    if is_ascii_char(c) {
        '0' <= c && c <= '9'
    } else {
        unicode_numeric(c)
    }
}

/// The first character of `char::to_lowercase`: on ASCII, `ascii_lower`.
pub open spec fn lower_first(c: char) -> char {
    if is_ascii_char(c) {
        ascii_lower(c)
    } else {
        unicode_lower_first(c)
    }
}

/// The first character of `char::to_uppercase`: on ASCII, `ascii_upper`.
pub open spec fn upper_first(c: char) -> char {
    if is_ascii_char(c) {
        ascii_upper(c)
    } else {
        unicode_upper_first(c)
    }
}

/// Whether every character of a text is ASCII.
pub open spec fn all_ascii(s: Seq<char>) -> bool {
    forall|i: int| 0 <= i < s.len() ==> is_ascii_char(#[trigger] s[i])
}

/// `str::to_lowercase`: on an all-ASCII text, each character's `ascii_lower`.
pub open spec fn str_lower(s: Seq<char>) -> Seq<char> {
    if all_ascii(s) {
        s.map_values(|c: char| ascii_lower(c))
    } else {
        unicode_str_lower(s)
    }
}

/// `str::to_uppercase`: on an all-ASCII text, each character's `ascii_upper`.
pub open spec fn str_upper(s: Seq<char>) -> Seq<char> {
    if all_ascii(s) {
        s.map_values(|c: char| ascii_upper(c))
    } else {
        unicode_str_upper(s)
    }
}

/// The ASCII case mappings of an ASCII character stay ASCII, and a
/// lowercase letter is given back by lowercasing its uppercase.
pub proof fn lemma_ascii_case(c: char)
    requires
        is_ascii_char(c),
    ensures
        is_ascii_char(ascii_upper(c)),
        is_ascii_char(ascii_lower(c)),
        ascii_lower(ascii_upper(c)) == ascii_lower(c),
        is_ascii_lower(c) ==> is_ascii_upper(ascii_upper(c)) && ascii_lower(c) == c,
        !is_ascii_upper(c) ==> ascii_lower(c) == c,
{
    if is_ascii_lower(c) {
        let u = ((c as u32) - 32) as char;
        assert(u as u32 == (c as u32) - 32);
        assert(is_ascii_upper(u));
        assert((((u as u32) + 32) as char) == c);
    } else if is_ascii_upper(c) {
        let l = ((c as u32) + 32) as char;
        assert(l as u32 == (c as u32) + 32);
    }
}

/// On an all-ASCII text, lowercasing the uppercase gives the lowercase.
pub proof fn lemma_lower_of_upper(s: Seq<char>)
    requires
        all_ascii(s),
    ensures
        all_ascii(str_upper(s)),
        str_lower(str_upper(s)) == str_lower(s),
{
    let u = s.map_values(|c: char| ascii_upper(c));
    assert forall|i: int| 0 <= i < u.len() implies is_ascii_char(#[trigger] u[i]) by {
        lemma_ascii_case(s[i]);
    }
    assert forall|i: int| 0 <= i < s.len() implies #[trigger] str_lower(u)[i] == str_lower(s)[i] by {
        lemma_ascii_case(s[i]);
    }
    assert(str_lower(str_upper(s)) =~= str_lower(s));
}

/// An all-ASCII text without uppercase letters is its own lowercase.
pub proof fn lemma_lower_of_lowercase(s: Seq<char>)
    requires
        all_ascii(s),
        forall|i: int| 0 <= i < s.len() ==> !is_ascii_upper(#[trigger] s[i]),
    ensures
        str_lower(s) == s,
{
    assert forall|i: int| 0 <= i < s.len() implies #[trigger] str_lower(s)[i] == s[i] by {
        lemma_ascii_case(s[i]);
    }
    assert(str_lower(s) =~= s);
}

/// `char::is_whitespace`: whether `c` has the `White_Space` property.
pub fn char_is_whitespace(c: char) -> (b: bool)
    ensures
        b == is_ws(c),
{
    let n = c as u32;
    (0x09 <= n && n <= 0x0D) || n == 0x20 || n == 0x85 || n == 0xA0 || n == 0x1680 || (0x2000 <= n
        && n <= 0x200A) || n == 0x2028 || n == 0x2029 || n == 0x202F || n == 0x205F || n == 0x3000
}

/// `char::is_lowercase`: the `Lowercase` property of `c`, which on ASCII
/// holds of the letters `a` to `z` only.
#[verifier::external_body]
pub fn char_is_lowercase(c: char) -> (b: bool)
    ensures
        b == is_lower(c),
        !is_ascii_char(c) ==> b == unicode_lowercase(c),
{
    c.is_lowercase()
}

/// `char::is_uppercase`: the `Uppercase` property of `c`, which on ASCII
/// holds of the letters `A` to `Z` only.
#[verifier::external_body]
pub fn char_is_uppercase(c: char) -> (b: bool)
    ensures
        b == is_upper(c),
        !is_ascii_char(c) ==> b == unicode_uppercase(c),
{
    c.is_uppercase()
}

/// `char::is_numeric`: whether `c` is numeric, which on ASCII holds of the
/// digits only.
#[verifier::external_body]
pub fn char_is_numeric(c: char) -> (b: bool)
    ensures
        b == is_numeric(c),
        !is_ascii_char(c) ==> b == unicode_numeric(c),
{
    c.is_numeric()
}

/// `char::to_lowercase`, of which the first produced character is returned
/// (the mapping always produces at least one character); on ASCII it is
/// `to_ascii_lowercase`.
#[verifier::external_body]
pub fn char_lower_first(c: char) -> (r: char)
    ensures
        r == lower_first(c),
        !is_ascii_char(c) ==> r == unicode_lower_first(c),
{
    c.to_lowercase().next().unwrap()
}

/// `char::to_uppercase`, of which the first produced character is returned
/// (the mapping always produces at least one character); on ASCII it is
/// `to_ascii_uppercase`.
#[verifier::external_body]
pub fn char_upper_first(c: char) -> (r: char)
    ensures
        r == upper_first(c),
        !is_ascii_char(c) ==> r == unicode_upper_first(c),
{
    c.to_uppercase().next().unwrap()
}

/// `str::to_lowercase`: the lowercase mapping of `s`, which on an all-ASCII
/// text is `to_ascii_lowercase`.
#[verifier::external_body]
pub fn str_to_lowercase(s: &str) -> (r: String)
    ensures
        r@ == str_lower(s@),
        !all_ascii(s@) ==> r@ == unicode_str_lower(s@),
{
    s.to_lowercase()
}

/// `str::to_uppercase`: the uppercase mapping of `s`, which on an all-ASCII
/// text is `to_ascii_uppercase`.
#[verifier::external_body]
pub fn str_to_uppercase(s: &str) -> (r: String)
    ensures
        r@ == str_upper(s@),
        !all_ascii(s@) ==> r@ == unicode_str_upper(s@),
{
    s.to_uppercase()
}

/// Appends one character to a string (std's `String::push`).
#[verifier::external_body]
pub fn push_char(s: &mut String, c: char)
    ensures
        final(s)@ == old(s)@.push(c),
{
    s.push(c);
}

// ─── Specifications ──────────────────────────────────────────────────────────

/// `p` occurs in `s` starting at index `i`.
pub open spec fn has_at(s: Seq<char>, p: Seq<char>, i: int) -> bool {
    0 <= i && i + p.len() <= s.len() && s.subrange(i, i + p.len()) == p
}

/// `s` starts with `p`.
pub open spec fn starts_with(s: Seq<char>, p: Seq<char>) -> bool {
    has_at(s, p, 0)
}

/// `s` ends with `p`.
pub open spec fn ends_with(s: Seq<char>, p: Seq<char>) -> bool {
    p.len() <= s.len() && has_at(s, p, s.len() - p.len())
}

/// `p` occurs somewhere in `s`.
pub open spec fn contains(s: Seq<char>, p: Seq<char>) -> bool {
    exists|i: int| has_at(s, p, i)
}

/// The number of non-overlapping occurrences of a non-empty `p`, found left to right
/// (what `str::matches(p).count()` gives).
pub open spec fn count_matches(s: Seq<char>, p: Seq<char>) -> nat
    decreases s.len(),
{
    if p.len() == 0 || s.len() < p.len() {
        0
    } else if s.take(p.len() as int) == p {
        1 + count_matches(s.skip(p.len() as int), p)
    } else {
        count_matches(s.drop_first(), p)
    }
}

/// `s` without its leading whitespace.
pub open spec fn trim_start(s: Seq<char>) -> Seq<char>
    decreases s.len(),
{
    if s.len() > 0 && is_ws(s[0]) {
        trim_start(s.drop_first())
    } else {
        s
    }
}

/// `s` without its trailing whitespace.
pub open spec fn trim_end(s: Seq<char>) -> Seq<char>
    decreases s.len(),
{
    if s.len() > 0 && is_ws(s.last()) {
        trim_end(s.drop_last())
    } else {
        s
    }
}

/// `s` without leading and trailing whitespace (`str::trim`).
pub open spec fn trim(s: Seq<char>) -> Seq<char> {
    trim_end(trim_start(s))
}

/// Index of the first `'\n'` in `s`, or `s.len()` when there is none.
pub open spec fn first_nl(s: Seq<char>) -> nat
    decreases s.len(),
{
    if s.len() == 0 {
        0
    } else if s[0] == '\n' {
        0
    } else {
        1 + first_nl(s.drop_first())
    }
}

/// A line with the `'\r'` of a `"\r\n"` ending removed.
pub open spec fn strip_cr(l: Seq<char>) -> Seq<char> {
    if l.len() > 0 && l.last() == '\r' {
        l.drop_last()
    } else {
        l
    }
}

/// The lines of `s` as `str::lines` yields them: split at `'\n'`, a `'\r'`
/// before the `'\n'` removed, no final empty line after a trailing newline.
pub open spec fn lines(s: Seq<char>) -> Seq<Seq<char>>
    decreases s.len(),
{
    if s.len() == 0 {
        seq![]
    } else {
        let k = first_nl(s);
        if k >= s.len() {
            seq![s]
        } else {
            seq![strip_cr(s.take(k as int))] + lines(s.skip(k as int + 1))
        }
    }
}

/// The pieces of `v` joined by `sep` (`[T]::join`).
pub open spec fn join(v: Seq<Seq<char>>, sep: Seq<char>) -> Seq<char>
    decreases v.len(),
{
    if v.len() == 0 {
        seq![]
    } else if v.len() == 1 {
        v[0]
    } else {
        join(v.drop_last(), sep) + sep + v.last()
    }
}

/// The decimal digit character for `d < 10`.
pub open spec fn digit(d: nat) -> char {
    (48 + d) as char
}

/// The decimal representation of `n`, without leading zeros.
pub open spec fn dec(n: nat) -> Seq<char>
    decreases n,
{
    if n < 10 {
        seq![digit(n)]
    } else {
        dec(n / 10).push(digit(n % 10))
    }
}

/// The decimal representation of a signed integer.
pub open spec fn dec_int(n: int) -> Seq<char> {
    if n < 0 {
        seq!['-'] + dec((-n) as nat)
    } else {
        dec(n as nat)
    }
}

/// Views of a sequence of character buffers.
pub open spec fn views(v: Seq<Vec<char>>) -> Seq<Seq<char>> {
    v.map_values(|x: Vec<char>| x@)
}

/// Views of a sequence of strings.
pub open spec fn string_views(v: Seq<String>) -> Seq<Seq<char>> {
    v.map_values(|x: String| x@)
}

/// The number of bytes of a character in UTF-8.
pub open spec fn utf8_width(c: char) -> nat {
    if (c as u32) < 0x80 {
        1
    } else if (c as u32) < 0x800 {
        2
    } else if (c as u32) < 0x10000 {
        3
    } else {
        4
    }
}

/// The number of bytes of a character sequence in UTF-8 (`str::len`).
pub open spec fn utf8_len(s: Seq<char>) -> nat
    decreases s.len(),
{
    if s.len() == 0 {
        0
    } else {
        utf8_len(s.drop_last()) + utf8_width(s.last())
    }
}

/// `s` with every leading repetition of a non-empty `p` removed
/// (`str::trim_start_matches`).
pub open spec fn strip_all(s: Seq<char>, p: Seq<char>) -> Seq<char>
    decreases s.len(),
{
    if p.len() > 0 && starts_with(s, p) {
        strip_all(s.skip(p.len() as int), p)
    } else {
        s
    }
}

/// The pieces of `s` between occurrences of `c` (`str::split` with a character):
/// always at least one piece, empty pieces included.
pub open spec fn split_char(s: Seq<char>, c: char) -> Seq<Seq<char>>
    decreases s.len(),
{
    if s.len() == 0 {
        seq![seq![]]
    } else {
        let prev = split_char(s.drop_last(), c);
        if s.last() == c {
            prev.push(seq![])
        } else {
            prev.update(prev.len() - 1, prev.last().push(s.last()))
        }
    }
}

/// Whether `c` is an ASCII decimal digit.
pub open spec fn is_ascii_digit(c: char) -> bool {
    '0' <= c <= '9'
}

/// The value of a sequence of ASCII digits.
pub open spec fn digits_value(s: Seq<char>) -> int
    decreases s.len(),
{
    if s.len() == 0 {
        0
    } else {
        digits_value(s.drop_last()) * 10 + ((s.last() as int) - 48)
    }
}

/// What `str::parse::<i64>` gives: an optional `+` or `-` sign followed by one
/// or more ASCII digits whose value fits in `i64`; anything else is an error.
pub open spec fn parse_i64_spec(s: Seq<char>) -> Option<i64> {
    let d = digit_part(s);
    if d.len() == 0 || !all_digits(d) {
        None
    } else {
        let v = if is_negative_literal(s) { -digits_value(d) } else { digits_value(d) };
        if i64::MIN <= v <= i64::MAX {
            Some(v as i64)
        } else {
            None
        }
    }
}

/// The literal starts with a minus sign.
pub open spec fn is_negative_literal(s: Seq<char>) -> bool {
    s.len() > 0 && s[0] == '-'
}

/// The literal without its sign.
pub open spec fn digit_part(s: Seq<char>) -> Seq<char> {
    if s.len() > 0 && (s[0] == '-' || s[0] == '+') {
        s.drop_first()
    } else {
        s
    }
}

/// Every character is an ASCII digit.
pub open spec fn all_digits(d: Seq<char>) -> bool {
    forall|i: int| 0 <= i < d.len() ==> is_ascii_digit(#[trigger] d[i])
}

/// Total number of characters in a sequence of lines.
pub open spec fn total_len(ls: Seq<Seq<char>>) -> nat
    decreases ls.len(),
{
    if ls.len() == 0 {
        0
    } else {
        total_len(ls.drop_last()) + ls.last().len()
    }
}

// ─── Lemmas ──────────────────────────────────────────────────────────────────

/// `first_nl` points at the first newline, or past the end.
pub proof fn lemma_first_nl(s: Seq<char>)
    ensures
        first_nl(s) <= s.len(),
        forall|j: int| 0 <= j < first_nl(s) ==> s[j] != '\n',
        first_nl(s) < s.len() ==> s[first_nl(s) as int] == '\n',
    decreases s.len(),
{
    if s.len() > 0 && s[0] != '\n' {
        lemma_first_nl(s.drop_first());
        assert forall|j: int| 0 <= j < first_nl(s) implies s[j] != '\n' by {
            if j > 0 {
                assert(s[j] == s.drop_first()[j - 1]);
            }
        }
    }
}

/// A newline-free prefix followed by a newline (or the end) fixes `first_nl`.
pub proof fn lemma_first_nl_at(s: Seq<char>, k: int)
    requires
        0 <= k <= s.len(),
        forall|j: int| 0 <= j < k ==> s[j] != '\n',
        k < s.len() ==> s[k] == '\n',
    ensures
        first_nl(s) == k,
    decreases s.len(),
{
    if s.len() > 0 && s[0] != '\n' {
        assert(k > 0);
        let t = s.drop_first();
        assert forall|j: int| 0 <= j < k - 1 implies t[j] != '\n' by {
            assert(t[j] == s[j + 1]);
        }
        lemma_first_nl_at(t, k - 1);
    }
}

/// The value of a digit prefix never exceeds that of a longer all-digit sequence.
pub proof fn lemma_digits_value_grows(d: Seq<char>, k: int)
    requires
        0 <= k <= d.len(),
        forall|i: int| 0 <= i < d.len() ==> is_ascii_digit(#[trigger] d[i]),
    ensures
        digits_value(d.take(k)) <= digits_value(d),
        0 <= digits_value(d),
    decreases d.len(),
{
    if d.len() > 0 {
        if k < d.len() {
            assert(d.drop_last().take(k) == d.take(k));
            lemma_digits_value_grows(d.drop_last(), k);
        } else {
            assert(d.take(k) == d);
            lemma_digits_value_grows(d.drop_last(), 0);
        }
        assert(is_ascii_digit(d[d.len() - 1]));
    } else {
        assert(d.take(k).len() == 0);
    }
}

/// The decimal representation has at least one digit.
pub proof fn lemma_dec_nonempty(n: nat)
    ensures
        dec(n).len() >= 1,
    decreases n,
{
    if n >= 10 {
        lemma_dec_nonempty(n / 10);
    }
}

/// The lines of `s` are no longer, in total and in number, than `s`.
pub proof fn lemma_lines_bound(s: Seq<char>)
    ensures
        lines(s).len() <= s.len(),
        total_len(lines(s)) <= s.len(),
    decreases s.len(),
{
    if s.len() > 0 {
        let k = first_nl(s);
        lemma_first_nl(s);
        if k < s.len() {
            let t = s.skip(k as int + 1);
            lemma_lines_bound(t);
            let first = strip_cr(s.take(k as int));
            lemma_total_len_prepend(first, lines(t));
        } else {
            assert(total_len(seq![s]) == total_len(seq![s].drop_last()) + s.len());
            assert(seq![s].drop_last() =~= Seq::<Seq<char>>::empty());
        }
    }
}

/// Total length of a sequence with one more line in front.
pub proof fn lemma_total_len_prepend(a: Seq<char>, ls: Seq<Seq<char>>)
    ensures
        total_len(seq![a] + ls) == a.len() + total_len(ls),
    decreases ls.len(),
{
    if ls.len() == 0 {
        assert(seq![a] + ls =~= seq![a]);
        assert(seq![a].drop_last() =~= Seq::<Seq<char>>::empty());
        assert(seq![a].last() == a);
        assert(total_len(seq![a]) == total_len(seq![a].drop_last()) + a.len());
    } else {
        assert((seq![a] + ls).drop_last() =~= seq![a] + ls.drop_last());
        assert((seq![a] + ls).last() == ls.last());
        lemma_total_len_prepend(a, ls.drop_last());
    }
}

/// A prefix of the lines has no larger total.
pub proof fn lemma_total_len_mono(ls: Seq<Seq<char>>, k: int)
    requires
        0 <= k <= ls.len(),
    ensures
        total_len(ls.take(k)) <= total_len(ls),
        k < ls.len() ==> total_len(ls.take(k)) + ls[k].len() <= total_len(ls),
    decreases ls.len(),
{
    if k < ls.len() {
        assert(ls.drop_last().take(k) == ls.take(k));
        if k < ls.len() - 1 {
            lemma_total_len_mono(ls.drop_last(), k);
            assert(ls.drop_last()[k] == ls[k]);
        } else {
            assert(ls.take(k) == ls.drop_last());
        }
    } else {
        assert(ls.take(k) == ls);
    }
}

/// Each line is no longer than the total.
pub proof fn lemma_total_len_each(ls: Seq<Seq<char>>, i: int)
    requires
        0 <= i < ls.len(),
    ensures
        ls[i].len() <= total_len(ls),
    decreases ls.len(),
{
    if i < ls.len() - 1 {
        lemma_total_len_each(ls.drop_last(), i);
    }
}

/// The UTF-8 length of a prefix is at most that of the whole.
pub proof fn lemma_utf8_len_take(s: Seq<char>, k: int)
    requires
        0 <= k <= s.len(),
    ensures
        utf8_len(s.take(k)) <= utf8_len(s),
    decreases s.len(),
{
    if k < s.len() {
        assert(s.drop_last().take(k) == s.take(k));
        lemma_utf8_len_take(s.drop_last(), k);
    } else {
        assert(s.take(k) == s);
    }
}

/// Removing leading characters never lengthens the UTF-8 encoding.
pub proof fn lemma_utf8_len_suffix(s: Seq<char>, k: int)
    requires
        0 <= k <= s.len(),
    ensures
        utf8_len(s.skip(k)) <= utf8_len(s),
    decreases s.len(),
{
    if k < s.len() && s.len() > 0 {
        assert(s.skip(k).drop_last() =~= s.drop_last().skip(k));
        lemma_utf8_len_suffix(s.drop_last(), k);
    } else {
        assert(s.skip(k).len() == 0);
    }
}

/// `trim_start` removes a prefix.
pub proof fn lemma_trim_start_suffix(s: Seq<char>)
    ensures
        trim_start(s).len() <= s.len(),
        trim_start(s) == s.skip(s.len() - trim_start(s).len()),
    decreases s.len(),
{
    if s.len() > 0 && is_ws(s[0]) {
        lemma_trim_start_suffix(s.drop_first());
        assert(s.drop_first().skip(s.drop_first().len() - trim_start(s).len()) =~= s.skip(
            s.len() - trim_start(s).len(),
        ));
    } else {
        assert(s.skip(0) == s);
    }
}

// ─── Executable helpers ──────────────────────────────────────────────────────

/// The characters of a string slice, in order.
pub fn chars_of(s: &str) -> (v: Vec<char>)
    ensures
        v@ == s@,
{
    let mut v: Vec<char> = Vec::new();
    for c in it: s.chars()
        invariant
            it.seq() == s@,
            v@ == it.seq().take(it.index()),
    {
        v.push(c);
    }
    v
}

/// A string holding the given characters.
pub fn string_from_chars(v: &[char]) -> (s: String)
    ensures
        s@ == v@,
{
    let mut s = String::new();
    let mut i: usize = 0;
    while i < v.len()
        invariant
            i <= v.len(),
            s@ == v@.take(i as int),
        decreases v.len() - i,
    {
        push_char(&mut s, v[i]);
        assert(v@.take(i + 1) == v@.take(i as int).push(v@[i as int]));
        i += 1;
    }
    assert(v@.take(v.len() as int) == v@);
    s
}

/// Appends the characters of `s` to `v`.
pub fn extend_str(v: &mut Vec<char>, s: &str)
    ensures
        final(v)@ == old(v)@ + s@,
{
    let ghost start = v@;
    for c in it: s.chars()
        invariant
            it.seq() == s@,
            v@ == start + it.seq().take(it.index()),
    {
        v.push(c);
        assert(start + it.seq().take(it.index() + 1) == (start + it.seq().take(it.index()))
            .push(c));
    }
    assert(s@.take(s@.len() as int) == s@);
}

/// Appends the characters of `s` to `v`.
pub fn extend_chars(v: &mut Vec<char>, s: &[char])
    ensures
        final(v)@ == old(v)@ + s@,
{
    let ghost start = v@;
    let mut i: usize = 0;
    while i < s.len()
        invariant
            i <= s.len(),
            v@ == start + s@.take(i as int),
        decreases s.len() - i,
    {
        v.push(s[i]);
        assert(start + s@.take(i + 1) == (start + s@.take(i as int)).push(s@[i as int]));
        i += 1;
    }
    assert(s@.take(s.len() as int) == s@);
}

/// A fresh buffer holding the characters of `s`.
pub fn buf(s: &str) -> (v: Vec<char>)
    ensures
        v@ == s@,
{
    chars_of(s)
}

/// A fresh string holding the characters of `s`.
pub fn owned(s: &str) -> (r: String)
    ensures
        r@ == s@,
{
    let v = chars_of(s);
    string_from_chars(&v)
}

/// Equality of two character slices.
pub fn chars_eq(a: &[char], b: &[char]) -> (r: bool)
    ensures
        r == (a@ == b@),
{
    if a.len() != b.len() {
        return false;
    }
    let mut i: usize = 0;
    while i < a.len()
        invariant
            i <= a.len(),
            a.len() == b.len(),
            a@.take(i as int) == b@.take(i as int),
        decreases a.len() - i,
    {
        if a[i] != b[i] {
            assert(a@[i as int] != b@[i as int]);
            return false;
        }
        assert(a@.take(i + 1) == a@.take(i as int).push(a@[i as int]));
        assert(b@.take(i + 1) == b@.take(i as int).push(b@[i as int]));
        i += 1;
    }
    assert(a@ == a@.take(a.len() as int));
    assert(b@ == b@.take(b.len() as int));
    true
}

/// Equality of two string slices.
pub fn str_eq(a: &str, b: &str) -> (r: bool)
    ensures
        r == (a@ == b@),
{
    let x = chars_of(a);
    let y = chars_of(b);
    chars_eq(&x, &y)
}

/// Whether `p` occurs in `s` at index `i`.
pub fn matches_at(s: &[char], p: &[char], i: usize) -> (r: bool)
    ensures
        r == has_at(s@, p@, i as int),
{
    if i > s.len() || p.len() > s.len() - i {
        return false;
    }
    let mut j: usize = 0;
    while j < p.len()
        invariant
            j <= p.len(),
            i + p.len() <= s.len(),
            forall|k: int| 0 <= k < j ==> s@[i + k] == p@[k],
        decreases p.len() - j,
    {
        if s[i + j] != p[j] {
            assert(s@.subrange(i as int, i + p.len())[j as int] != p@[j as int]);
            return false;
        }
        j += 1;
    }
    assert(s@.subrange(i as int, i + p.len()) =~= p@);
    true
}

/// The first index at which `p` occurs in `s`.
pub fn find_sub(s: &[char], p: &[char]) -> (r: Option<usize>)
    ensures
        r matches Some(i) ==> has_at(s@, p@, i as int) && forall|j: int|
            0 <= j < i ==> !has_at(s@, p@, j),
        r is None ==> !contains(s@, p@),
{
    if p.len() > s.len() {
        return None;
    }
    let last = s.len() - p.len();
    let mut i: usize = 0;
    loop
        invariant
            p.len() <= s.len(),
            last == s.len() - p.len(),
            i <= last,
            forall|j: int| 0 <= j < i ==> !has_at(s@, p@, j),
        decreases last - i,
    {
        if matches_at(s, p, i) {
            return Some(i);
        }
        if i == last {
            assert forall|j: int| has_at(s@, p@, j) implies false by {
                assert(j <= last);
            }
            return None;
        }
        i += 1;
    }
}

/// Whether `p` occurs in `s`.
pub fn contains_chars(s: &[char], p: &[char]) -> (r: bool)
    ensures
        r == contains(s@, p@),
{
    match find_sub(s, p) {
        Some(i) => true,
        None => false,
    }
}

/// Whether the literal `p` occurs in `s`.
pub fn has_lit(s: &[char], p: &str) -> (r: bool)
    ensures
        r == contains(s@, p@),
{
    let pc = chars_of(p);
    contains_chars(s, &pc)
}

/// Whether `s` starts with the literal `p`.
pub fn begins(s: &[char], p: &str) -> (r: bool)
    ensures
        r == starts_with(s@, p@),
{
    let pc = chars_of(p);
    matches_at(s, &pc, 0)
}

/// Whether `s` ends with the literal `p`.
pub fn finishes(s: &[char], p: &str) -> (r: bool)
    ensures
        r == ends_with(s@, p@),
{
    let pc = chars_of(p);
    if pc.len() > s.len() {
        return false;
    }
    matches_at(s, &pc, s.len() - pc.len())
}

/// Whether the character `c` occurs in `s`.
pub fn has_char(s: &[char], c: char) -> (r: bool)
    ensures
        r == s@.contains(c),
{
    let mut i: usize = 0;
    while i < s.len()
        invariant
            i <= s.len(),
            forall|j: int| 0 <= j < i ==> s@[j] != c,
        decreases s.len() - i,
    {
        if s[i] == c {
            assert(s@[i as int] == c);
            return true;
        }
        i += 1;
    }
    false
}

/// The number of non-overlapping occurrences of `p` in `s` (zero for an empty `p`).
pub fn count_sub(s: &[char], p: &[char]) -> (r: usize)
    ensures
        r == count_matches(s@, p@),
{
    if p.len() == 0 {
        return 0;
    }
    let mut i: usize = 0;
    let mut n: usize = 0;
    assert(s@.skip(0) == s@);
    while p.len() <= s.len() - i
        invariant
            p.len() > 0,
            i <= s.len(),
            n <= i,
            n + count_matches(s@.skip(i as int), p@) == count_matches(s@, p@),
        decreases s.len() - i,
    {
        let ghost t = s@.skip(i as int);
        assert(t.take(p.len() as int) == s@.subrange(i as int, i + p.len()));
        if matches_at(s, p, i) {
            assert(t.skip(p.len() as int) == s@.skip(i + p.len()));
            n += 1;
            i += p.len();
        } else {
            assert(t.drop_first() == s@.skip(i + 1));
            i += 1;
        }
    }
    assert(s@.skip(i as int).len() < p.len());
    n
}

/// The number of non-overlapping occurrences of the literal `p` in `s`.
pub fn count_str(s: &[char], p: &str) -> (r: usize)
    ensures
        r == count_matches(s@, p@),
{
    let pc = chars_of(p);
    count_sub(s, &pc)
}

/// `s` with leading whitespace removed.
pub fn trim_start_chars(s: &[char]) -> (r: Vec<char>)
    ensures
        r@ == trim_start(s@),
{
    let mut i: usize = 0;
    assert(s@.skip(0) == s@);
    while i < s.len() && char_is_whitespace(s[i])
        invariant
            i <= s.len(),
            trim_start(s@.skip(i as int)) == trim_start(s@),
        decreases s.len() - i,
    {
        assert(s@.skip(i as int).drop_first() == s@.skip(i + 1));
        i += 1;
    }
    let mut r: Vec<char> = Vec::new();
    let mut j: usize = i;
    while j < s.len()
        invariant
            i <= j <= s.len(),
            r@ == s@.subrange(i as int, j as int),
        decreases s.len() - j,
    {
        r.push(s[j]);
        assert(s@.subrange(i as int, j + 1) == s@.subrange(i as int, j as int).push(s@[j as int]));
        j += 1;
    }
    assert(r@ == s@.skip(i as int));
    r
}

/// `s` with trailing whitespace removed.
pub fn trim_end_chars(s: &[char]) -> (r: Vec<char>)
    ensures
        r@ == trim_end(s@),
{
    let mut e: usize = s.len();
    assert(s@.take(s.len() as int) == s@);
    while e > 0 && char_is_whitespace(s[e - 1])
        invariant
            e <= s.len(),
            trim_end(s@.take(e as int)) == trim_end(s@),
        decreases e,
    {
        assert(s@.take(e as int).drop_last() == s@.take(e - 1));
        e -= 1;
    }
    let mut r: Vec<char> = Vec::new();
    let mut j: usize = 0;
    while j < e
        invariant
            j <= e <= s.len(),
            r@ == s@.take(j as int),
        decreases e - j,
    {
        r.push(s[j]);
        assert(s@.take(j + 1) == s@.take(j as int).push(s@[j as int]));
        j += 1;
    }
    assert(s@.take(e as int) =~= r@);
    r
}

/// `s` with leading and trailing whitespace removed.
pub fn trim_chars(s: &[char]) -> (r: Vec<char>)
    ensures
        r@ == trim(s@),
{
    let a = trim_start_chars(s);
    trim_end_chars(&a)
}

/// The lines of `s` (`str::lines`).
pub fn lines_of(s: &[char]) -> (r: Vec<Vec<char>>)
    ensures
        views(r@) == lines(s@),
{
    let mut out: Vec<Vec<char>> = Vec::new();
    let mut cur: Vec<char> = Vec::new();
    let mut start: usize = 0;
    let mut i: usize = 0;
    assert(s@.skip(0) == s@);
    assert(views(out@) =~= seq![]);
    while i < s.len()
        invariant
            start <= i <= s.len(),
            cur@ == s@.subrange(start as int, i as int),
            forall|j: int| start <= j < i ==> s@[j] != '\n',
            views(out@) + lines(s@.skip(start as int)) == lines(s@),
        decreases s.len() - i,
    {
        if s[i] == '\n' {
            let ghost t = s@.skip(start as int);
            proof {
                lemma_first_nl_at(t, i - start);
                assert(t.take(i - start) == cur@);
                assert(t.skip(i - start + 1) == s@.skip(i + 1));
            }
            let ghost line = strip_cr(cur@);
            if cur.len() > 0 && cur[cur.len() - 1] == '\r' {
                cur.pop();
            }
            assert(cur@ == line);
            let ghost prev = out@;
            out.push(cur);
            assert(views(out@) =~= views(prev).push(line));
            cur = Vec::new();
            start = i + 1;
        } else {
            cur.push(s[i]);
            assert(s@.subrange(start as int, i + 1) == s@.subrange(start as int, i as int).push(
                s@[i as int],
            ));
        }
        i += 1;
    }
    if start < s.len() {
        let ghost t = s@.skip(start as int);
        proof {
            lemma_first_nl_at(t, t.len() as int);
            assert(cur@ == t);
        }
        out.push(cur);
        assert(views(out@) =~= views(out@.drop_last()).push(t));
    } else {
        assert(s@.skip(start as int).len() == 0);
    }
    assert(views(out@) =~= lines(s@));
    out
}

/// The pieces joined by `sep`.
pub fn join_chars(v: &[Vec<char>], sep: &[char]) -> (r: Vec<char>)
    ensures
        r@ == join(views(v@), sep@),
{
    let mut out: Vec<char> = Vec::new();
    let mut i: usize = 0;
    while i < v.len()
        invariant
            i <= v.len(),
            out@ == join(views(v@.take(i as int)), sep@),
        decreases v.len() - i,
    {
        let ghost pre = views(v@.take(i as int));
        assert(views(v@.take(i + 1)) =~= pre.push(v@[i as int]@));
        if i > 0 {
            extend_chars(&mut out, sep);
        }
        extend_chars(&mut out, &v[i]);
        proof {
            let nxt = pre.push(v@[i as int]@);
            assert(nxt.drop_last() =~= pre);
        }
        i += 1;
    }
    assert(v@.take(v.len() as int) =~= v@);
    out
}

/// The decimal digit character of `d < 10`.
pub fn digit_char(d: u64) -> (c: char)
    requires
        d < 10,
    ensures
        c == digit(d as nat),
{
    if d == 0 { '0' }
    else if d == 1 { '1' }
    else if d == 2 { '2' }
    else if d == 3 { '3' }
    else if d == 4 { '4' }
    else if d == 5 { '5' }
    else if d == 6 { '6' }
    else if d == 7 { '7' }
    else if d == 8 { '8' }
    else { '9' }
}

/// The number of UTF-8 bytes of `c`.
pub fn char_utf8_width(c: char) -> (r: usize)
    ensures
        r == utf8_width(c),
{
    let v = c as u32;
    if v < 0x80 {
        1
    } else if v < 0x800 {
        2
    } else if v < 0x10000 {
        3
    } else {
        4
    }
}

/// The number of UTF-8 bytes of `s`.
pub fn utf8_length(s: &[char]) -> (r: u64)
    requires
        4 * s@.len() <= u64::MAX,
    ensures
        r == utf8_len(s@),
{
    let mut n: u64 = 0;
    let mut i: usize = 0;
    while i < s.len()
        invariant
            i <= s.len(),
            4 * s@.len() <= u64::MAX,
            n <= 4 * i,
            n == utf8_len(s@.take(i as int)),
        decreases s.len() - i,
    {
        assert(s@.take(i + 1).drop_last() =~= s@.take(i as int));
        n = n + char_utf8_width(s[i]) as u64;
        i += 1;
    }
    assert(s@.take(s.len() as int) =~= s@);
    n
}

/// `s` with every leading repetition of the literal `p` removed.
pub fn strip_all_lit(s: &[char], p: &str) -> (r: Vec<char>)
    ensures
        r@ == strip_all(s@, p@),
{
    let pc = chars_of(p);
    let mut i: usize = 0;
    assert(s@.skip(0) == s@);
    if pc.len() > 0 {
        while i <= s.len() && matches_at(s, &pc, i)
            invariant
                pc.len() > 0,
                pc@ == p@,
                i <= s.len(),
                strip_all(s@.skip(i as int), p@) == strip_all(s@, p@),
            decreases s.len() - i,
        {
            assert(s@.skip(i as int).take(pc.len() as int) == s@.subrange(i as int, i + pc.len()));
            assert(s@.skip(i as int).skip(pc.len() as int) == s@.skip(i + pc.len()));
            i = i + pc.len();
        }
        assert(!starts_with(s@.skip(i as int), p@)) by {
            if starts_with(s@.skip(i as int), p@) {
                assert(s@.skip(i as int).subrange(0, p@.len() as int) == s@.subrange(
                    i as int,
                    i + p@.len(),
                ));
            }
        }
    }
    let mut r: Vec<char> = Vec::new();
    let mut j: usize = i;
    while j < s.len()
        invariant
            i <= j <= s.len(),
            r@ == s@.subrange(i as int, j as int),
        decreases s.len() - j,
    {
        r.push(s[j]);
        assert(s@.subrange(i as int, j + 1) == s@.subrange(i as int, j as int).push(s@[j as int]));
        j += 1;
    }
    assert(r@ == s@.skip(i as int));
    r
}

/// The pieces of `s` between occurrences of `c`.
pub fn split_on_char(s: &[char], c: char) -> (r: Vec<Vec<char>>)
    ensures
        views(r@) == split_char(s@, c),
{
    let mut out: Vec<Vec<char>> = Vec::new();
    let mut cur: Vec<char> = Vec::new();
    let mut i: usize = 0;
    assert(s@.take(0) =~= Seq::<char>::empty());
    while i < s.len()
        invariant
            i <= s.len(),
            views(out@).push(cur@) == split_char(s@.take(i as int), c),
        decreases s.len() - i,
    {
        assert(s@.take(i + 1).drop_last() =~= s@.take(i as int));
        let ghost prev = views(out@).push(cur@);
        if s[i] == c {
            let ghost o = out@;
            out.push(cur);
            cur = Vec::new();
            assert(views(out@) =~= views(o).push(prev.last()));
            assert(views(out@).push(cur@) =~= prev.push(seq![]));
        } else {
            cur.push(s[i]);
            assert(views(out@).push(cur@) =~= prev.update(prev.len() - 1, prev.last().push(s@[i as int])));
        }
        i += 1;
    }
    assert(s@.take(s.len() as int) =~= s@);
    let ghost o = out@;
    out.push(cur);
    assert(views(out@) =~= views(o).push(cur@));
    out
}

/// Whether every character of `d` is an ASCII digit.
fn all_ascii_digits(d: &[char]) -> (r: bool)
    ensures
        r == all_digits(d@),
{
    let mut i: usize = 0;
    while i < d.len()
        invariant
            i <= d.len(),
            forall|k: int| 0 <= k < i ==> is_ascii_digit(#[trigger] d@[k]),
        decreases d.len() - i,
    {
        if !('0' <= d[i] && d[i] <= '9') {
            assert(!is_ascii_digit(d@[i as int]));
            return false;
        }
        i += 1;
    }
    true
}

/// The value of an all-digit sequence, or `None` when it exceeds `i64::MAX + 1`.
fn digits_value_capped(d: &[char]) -> (r: Option<i128>)
    requires
        all_digits(d@),
    ensures
        r matches Some(v) ==> v == digits_value(d@) && 0 <= v <= i64::MAX as int + 1,
        r is None ==> digits_value(d@) > i64::MAX as int + 1,
{
    let mut v: i128 = 0;
    let mut i: usize = 0;
    while i < d.len()
        invariant
            i <= d.len(),
            forall|k: int| 0 <= k < d@.len() ==> is_ascii_digit(#[trigger] d@[k]),
            v == digits_value(d@.take(i as int)),
            0 <= v <= i64::MAX as int + 1,
        decreases d.len() - i,
    {
        assert(d@.take(i + 1).drop_last() =~= d@.take(i as int));
        assert(d@.take(i + 1).last() == d@[i as int]);
        assert(is_ascii_digit(d@[i as int]));
        let dv = (d[i] as u32 - 48) as i128;
        v = v * 10 + dv;
        if v > i64::MAX as i128 + 1 {
            proof {
                lemma_digits_value_grows(d@, i + 1);
            }
            return None;
        }
        i += 1;
    }
    assert(d@.take(d.len() as int) =~= d@);
    Some(v)
}

/// `str::parse::<i64>`.
pub fn parse_i64(s: &[char]) -> (r: Option<i64>)
    ensures
        r == parse_i64_spec(s@),
{
    let neg = s.len() > 0 && s[0] == '-';
    let signed = s.len() > 0 && (s[0] == '-' || s[0] == '+');
    let mut d: Vec<char> = Vec::new();
    let mut i: usize = if signed { 1 } else { 0 };
    let start = i;
    while i < s.len()
        invariant
            start <= i <= s.len(),
            d@ == s@.subrange(start as int, i as int),
        decreases s.len() - i,
    {
        d.push(s[i]);
        assert(s@.subrange(start as int, i + 1) == s@.subrange(start as int, i as int).push(s@[i as int]));
        i += 1;
    }
    assert(d@ == digit_part(s@));
    assert(neg == is_negative_literal(s@));
    if d.len() == 0 || !all_ascii_digits(&d) {
        return None;
    }
    match digits_value_capped(&d) {
        None => {
            assert(digits_value(d@) > i64::MAX as int + 1);
            None
        },
        Some(v) => {
            if neg {
                let w: i128 = 0 - v;
                assert(i64::MIN <= w <= 0);
                Some(w as i64)
            } else if v > i64::MAX as i128 {
                None
            } else {
                Some(v as i64)
            }
        },
    }
}

/// Appends the decimal representation of `n` to `v`.
pub fn push_dec(v: &mut Vec<char>, n: u64)
    ensures
        final(v)@ == old(v)@ + dec(n as nat),
    decreases n,
{
    if n < 10 {
        v.push(digit_char(n));
        assert(dec(n as nat) == seq![digit(n as nat)]);
    } else {
        push_dec(v, n / 10);
        v.push(digit_char(n % 10));
    }
}

/// Appends the decimal representation of `n` to `v`.
pub fn push_dec_u128(v: &mut Vec<char>, n: u128)
    ensures
        final(v)@ == old(v)@ + dec(n as nat),
    decreases n,
{
    if n < 10 {
        v.push(digit_char(n as u64));
        assert(dec(n as nat) == seq![digit(n as nat)]);
    } else {
        push_dec_u128(v, n / 10);
        v.push(digit_char((n % 10) as u64));
    }
}

/// Appends the decimal representation of a signed `n` to `v`.
pub fn push_dec_i64(v: &mut Vec<char>, n: i64)
    ensures
        final(v)@ == old(v)@ + dec_int(n as int),
{
    if n < 0 {
        v.push('-');
        let m: u64 = if n == i64::MIN { 9223372036854775808u64 } else { (-n) as u64 };
        push_dec(v, m);
    } else {
        push_dec(v, n as u64);
    }
}

// ─── Splitting, words and replacement ────────────────────────────────────────

/// `r` with `c` put in front of its first piece.
pub open spec fn prepend_first(c: Seq<char>, r: Seq<Seq<char>>) -> Seq<Seq<char>> {
    r.update(0, c + r[0])
}

/// The pieces of `s` between the non-overlapping occurrences of a non-empty
/// `sep`, found left to right (`str::split` with a string pattern).
pub open spec fn split_on(s: Seq<char>, sep: Seq<char>) -> Seq<Seq<char>>
    decreases s.len(),
{
    if sep.len() == 0 || s.len() < sep.len() {
        seq![s]
    } else if s.take(sep.len() as int) == sep {
        seq![seq![]] + split_on(s.skip(sep.len() as int), sep)
    } else {
        prepend_first(seq![s[0]], split_on(s.drop_first(), sep))
    }
}

/// `split_on` always yields at least one piece.
pub proof fn lemma_split_on_nonempty(s: Seq<char>, sep: Seq<char>)
    ensures
        split_on(s, sep).len() >= 1,
    decreases s.len(),
{
    if sep.len() > 0 && s.len() >= sep.len() {
        if s.take(sep.len() as int) == sep {
            lemma_split_on_nonempty(s.skip(sep.len() as int), sep);
        } else {
            lemma_split_on_nonempty(s.drop_first(), sep);
        }
    }
}

/// The pieces of `s` between occurrences of the non-empty `sep`.
pub fn split_on_str(s: &[char], sep: &[char]) -> (r: Vec<Vec<char>>)
    requires
        sep@.len() > 0,
    ensures
        views(r@) == split_on(s@, sep@),
        r@.len() >= 1,
{
    let mut out: Vec<Vec<char>> = Vec::new();
    let mut cur: Vec<char> = Vec::new();
    let mut i: usize = 0;
    assert(s@.skip(0) =~= s@);
    assert(prepend_first(seq![], split_on(s@, sep@)) =~= split_on(s@, sep@)) by {
        lemma_split_on_nonempty(s@, sep@);
    }
    while sep.len() <= s.len() - i
        invariant
            sep@.len() > 0,
            i <= s.len(),
            split_on(s@, sep@) == views(out@) + prepend_first(cur@, split_on(s@.skip(i as int), sep@)),
        decreases s.len() - i,
    {
        let ghost t = s@.skip(i as int);
        proof {
            lemma_split_on_nonempty(t, sep@);
        }
        assert(t.take(sep.len() as int) == s@.subrange(i as int, i + sep.len()));
        if matches_at(s, sep, i) {
            let ghost rest = split_on(s@.skip(i + sep.len()), sep@);
            assert(t.skip(sep.len() as int) =~= s@.skip(i + sep.len()));
            proof {
                lemma_split_on_nonempty(s@.skip(i + sep.len()), sep@);
            }
            let ghost o = views(out@);
            let ghost c = cur@;
            out.push(cur);
            cur = Vec::new();
            assert(views(out@) =~= o.push(c));
            assert(prepend_first(c, seq![seq![]] + rest) =~= seq![c] + rest);
            assert(prepend_first(seq![], rest) =~= rest);
            assert(o + (seq![c] + rest) =~= o.push(c) + rest);
            i += sep.len();
        } else {
            let ghost rest = split_on(s@.skip(i + 1), sep@);
            assert(t.drop_first() =~= s@.skip(i + 1));
            proof {
                lemma_split_on_nonempty(s@.skip(i + 1), sep@);
            }
            let ghost c = cur@;
            cur.push(s[i]);
            assert(c + (seq![s@[i as int]] + rest[0]) =~= c.push(s@[i as int]) + rest[0]);
            assert(prepend_first(c, prepend_first(seq![s@[i as int]], rest)) =~= prepend_first(
                c.push(s@[i as int]),
                rest,
            ));
            i += 1;
        }
    }
    let ghost t = s@.skip(i as int);
    assert(split_on(t, sep@) == seq![t]);
    let ghost o = views(out@);
    let ghost c = cur@;
    extend_chars(&mut cur, &tail_of(s, i));
    out.push(cur);
    assert(views(out@) =~= o.push(c + t));
    assert(prepend_first(c, seq![t]) =~= seq![c + t]);
    out
}

/// The characters of `s` from index `i` on.
pub fn tail_of(s: &[char], i: usize) -> (r: Vec<char>)
    requires
        i <= s.len(),
    ensures
        r@ == s@.skip(i as int),
{
    let mut r: Vec<char> = Vec::new();
    let mut j: usize = i;
    while j < s.len()
        invariant
            i <= j <= s.len(),
            r@ == s@.subrange(i as int, j as int),
        decreases s.len() - j,
    {
        r.push(s[j]);
        assert(s@.subrange(i as int, j + 1) == s@.subrange(i as int, j as int).push(s@[j as int]));
        j += 1;
    }
    r
}

/// The words of `s` after the current word `cur`: the maximal runs of
/// non-whitespace characters.
pub open spec fn words_from(s: Seq<char>, cur: Seq<char>) -> Seq<Seq<char>>
    decreases s.len(),
{
    if s.len() == 0 {
        if cur.len() > 0 { seq![cur] } else { seq![] }
    } else if is_ws(s[0]) {
        (if cur.len() > 0 { seq![cur] } else { seq![] }) + words_from(s.drop_first(), seq![])
    } else {
        words_from(s.drop_first(), cur.push(s[0]))
    }
}

/// The whitespace-separated words of `s` (`str::split_whitespace`).
pub open spec fn words(s: Seq<char>) -> Seq<Seq<char>> {
    words_from(s, seq![])
}

/// The whitespace-separated words of `s`.
pub fn split_words(s: &[char]) -> (r: Vec<Vec<char>>)
    ensures
        views(r@) == words(s@),
{
    let mut out: Vec<Vec<char>> = Vec::new();
    let mut cur: Vec<char> = Vec::new();
    let mut i: usize = 0;
    assert(s@.skip(0) =~= s@);
    while i < s.len()
        invariant
            i <= s.len(),
            words(s@) == views(out@) + words_from(s@.skip(i as int), cur@),
        decreases s.len() - i,
    {
        let ghost t = s@.skip(i as int);
        assert(t.drop_first() =~= s@.skip(i + 1));
        assert(t[0] == s@[i as int]);
        if char_is_whitespace(s[i]) {
            if cur.len() > 0 {
                let ghost o = views(out@);
                let ghost c = cur@;
                out.push(cur);
                cur = Vec::new();
                assert(views(out@) =~= o.push(c));
                assert(o + (seq![c] + words_from(s@.skip(i + 1), seq![])) =~= o.push(c) + words_from(
                    s@.skip(i + 1),
                    seq![],
                ));
            } else {
                assert(seq![] + words_from(s@.skip(i + 1), seq![]) =~= words_from(s@.skip(i + 1), seq![]));
                cur = Vec::new();
                assert(cur@ =~= seq![]);
            }
        } else {
            cur.push(s[i]);
        }
        i += 1;
    }
    assert(s@.skip(i as int) =~= seq![]);
    if cur.len() > 0 {
        let ghost o = views(out@);
        let ghost c = cur@;
        out.push(cur);
        assert(views(out@) =~= o + seq![c]);
    } else {
        assert(views(out@) + seq![] =~= views(out@));
    }
    out
}

/// `s` with every non-overlapping occurrence of a non-empty `p`, found left to
/// right, replaced by `t` (`str::replace`).
pub open spec fn replace_all(s: Seq<char>, p: Seq<char>, t: Seq<char>) -> Seq<char>
    decreases s.len(),
{
    if p.len() == 0 || s.len() < p.len() {
        s
    } else if s.take(p.len() as int) == p {
        t + replace_all(s.skip(p.len() as int), p, t)
    } else {
        seq![s[0]] + replace_all(s.drop_first(), p, t)
    }
}

/// `s` with every occurrence of the non-empty literal `p` replaced by `t`.
pub fn replace_lit(s: &[char], p: &str, t: &str) -> (r: Vec<char>)
    requires
        p@.len() > 0,
    ensures
        r@ == replace_all(s@, p@, t@),
{
    let pc = chars_of(p);
    let tc = chars_of(t);
    let mut out: Vec<char> = Vec::new();
    let mut i: usize = 0;
    assert(s@.skip(0) =~= s@);
    while pc.len() <= s.len() - i
        invariant
            pc@ == p@,
            tc@ == t@,
            pc@.len() > 0,
            i <= s.len(),
            replace_all(s@, p@, t@) == out@ + replace_all(s@.skip(i as int), p@, t@),
        decreases s.len() - i,
    {
        let ghost u = s@.skip(i as int);
        assert(u.take(pc.len() as int) == s@.subrange(i as int, i + pc.len()));
        if matches_at(s, &pc, i) {
            assert(u.skip(pc.len() as int) =~= s@.skip(i + pc.len()));
            let ghost o = out@;
            extend_chars(&mut out, &tc);
            assert(o + (t@ + replace_all(s@.skip(i + pc.len()), p@, t@)) =~= out@ + replace_all(
                s@.skip(i + pc.len()),
                p@,
                t@,
            ));
            i += pc.len();
        } else {
            assert(u.drop_first() =~= s@.skip(i + 1));
            let ghost o = out@;
            out.push(s[i]);
            assert(o + (seq![s@[i as int]] + replace_all(s@.skip(i + 1), p@, t@)) =~= out@ + replace_all(
                s@.skip(i + 1),
                p@,
                t@,
            ));
            i += 1;
        }
    }
    let ghost o = out@;
    extend_chars(&mut out, &tail_of(s, i));
    assert(out@ =~= o + s@.skip(i as int));
    out
}

/// What `char::to_uppercase` produces beyond ASCII, collected.
pub uninterp spec fn unicode_char_upper(c: char) -> Seq<char>;

/// What `char::to_uppercase` produces, collected: on ASCII, the one
/// character `ascii_upper`.
pub open spec fn char_upper(c: char) -> Seq<char> {
    if is_ascii_char(c) {
        seq![ascii_upper(c)]
    } else {
        unicode_char_upper(c)
    }
}

/// `char::to_uppercase`, collected into a string: the full uppercase
/// mapping of `c`, which on ASCII is `to_ascii_uppercase`.
#[verifier::external_body]
pub fn char_to_upper_string(c: char) -> (r: String)
    ensures
        r@ == char_upper(c),
        !is_ascii_char(c) ==> r@ == unicode_char_upper(c),
{
    c.to_uppercase().collect::<String>()
}

/// A copy of a list of strings.
pub fn copy_strings(v: &Vec<String>) -> (r: Vec<String>)
    ensures
        string_views(r@) == string_views(v@),
{
    let mut out: Vec<String> = Vec::new();
    let mut i: usize = 0;
    while i < v.len()
        invariant
            i <= v@.len(),
            string_views(out@) == string_views(v@.take(i as int)),
        decreases v@.len() - i,
    {
        let ghost o = out@;
        out.push(owned(v[i].as_str()));
        assert(string_views(out@) =~= string_views(o).push(v@[i as int]@));
        assert(string_views(v@.take(i + 1)) =~= string_views(v@.take(i as int)).push(v@[i as int]@));
        i += 1;
    }
    assert(v@.take(v@.len() as int) =~= v@);
    out
}

/// The strings of `s` in the order of their first occurrence, each once.
pub open spec fn unique_views(s: Seq<Seq<char>>) -> Seq<Seq<char>>
    decreases s.len(),
{
    if s.len() == 0 {
        s
    } else {
        let rest = unique_views(s.drop_last());
        if rest.contains(s.last()) {
            rest
        } else {
            rest.push(s.last())
        }
    }
}

/// `unique_views` holds no string twice, and holds exactly the strings of
/// its argument.
pub proof fn lemma_unique_views(s: Seq<Seq<char>>)
    ensures
        unique_views(s).no_duplicates(),
        forall|x: Seq<char>| #[trigger] unique_views(s).contains(x) <==> s.contains(x),
    decreases s.len(),
{
    if s.len() > 0 {
        let p = s.drop_last();
        lemma_unique_views(p);
        assert forall|x: Seq<char>| #[trigger] s.contains(x) <==> (p.contains(x) || x == s.last()) by {
            if s.contains(x) {
                let j = choose|j: int| 0 <= j < s.len() && s[j] == x;
                if j < s.len() - 1 {
                    assert(p[j] == x);
                }
            }
            if p.contains(x) {
                let j = choose|j: int| 0 <= j < p.len() && p[j] == x;
                assert(s[j] == x);
            }
            if x == s.last() {
                assert(s[s.len() - 1] == x);
            }
        }
        let rest = unique_views(p);
        if !rest.contains(s.last()) {
            let t = rest.push(s.last());
            assert forall|x: Seq<char>| #[trigger] t.contains(x) <==> (rest.contains(x) || x == s.last()) by {
                if t.contains(x) {
                    let j = choose|j: int| 0 <= j < t.len() && t[j] == x;
                    if j < rest.len() {
                        assert(rest[j] == x);
                    }
                }
                if rest.contains(x) {
                    let j = choose|j: int| 0 <= j < rest.len() && rest[j] == x;
                    assert(t[j] == x);
                }
                if x == s.last() {
                    assert(t[t.len() - 1] == x);
                }
            }
            assert forall|i: int, j: int| 0 <= i < t.len() && 0 <= j < t.len() && i != j implies t[i]
                != t[j] by {
                if i < rest.len() && j < rest.len() {
                } else if i < rest.len() {
                    assert(rest.contains(t[i]));
                } else {
                    assert(rest.contains(t[j]));
                }
            }
        }
    }
}

/// The strings of `v` in the order of their first occurrence, each once.
pub fn unique_strings(v: Vec<String>) -> (r: Vec<String>)
    ensures
        string_views(r@) == unique_views(string_views(v@)),
{
    let mut out: Vec<String> = Vec::new();
    let mut i: usize = 0;
    while i < v.len()
        invariant
            i <= v@.len(),
            string_views(out@) == unique_views(string_views(v@.take(i as int))),
        decreases v@.len() - i,
    {
        let ghost o = out@;
        assert(string_views(v@.take(i + 1)).drop_last() =~= string_views(v@.take(i as int)));
        assert(string_views(v@.take(i + 1)).last() == v@[i as int]@);
        if !contains_str(&out, v[i].as_str()) {
            out.push(owned(v[i].as_str()));
            assert(string_views(out@) =~= string_views(o).push(v@[i as int]@));
        }
        i += 1;
    }
    assert(v@.take(v@.len() as int) =~= v@);
    out
}

/// Whether the list holds the string.
pub fn contains_str(v: &Vec<String>, s: &str) -> (r: bool)
    ensures
        r == string_views(v@).contains(s@),
{
    let mut i: usize = 0;
    while i < v.len()
        invariant
            i <= v@.len(),
            forall|j: int| 0 <= j < i ==> #[trigger] v@[j]@ != s@,
        decreases v@.len() - i,
    {
        if str_eq(v[i].as_str(), s) {
            assert(string_views(v@)[i as int] == s@);
            return true;
        }
        i += 1;
    }
    proof {
        if string_views(v@).contains(s@) {
            let j = choose|j: int| 0 <= j < string_views(v@).len() && string_views(v@)[j] == s@;
            assert(v@[j]@ == s@);
        }
    }
    false
}

} // verus!
