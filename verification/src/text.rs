//! Character-level text utilities shared by the parsers and renderers.
//!
//! Text is handled as sequences of `char`; the spec functions here state how
//! the standard library's `split`, `split_once`, `split_whitespace` and
//! `trim` cut such a sequence.

use vstd::prelude::*;

verus! {

broadcast use vstd::string::group_string_axioms;

// ----- specifications -------------------------------------------------------

/// `pat` occurs in `s` starting at index `i`.
pub open spec fn occurs_at(s: Seq<char>, pat: Seq<char>, i: int) -> bool {
    0 <= i && i + pat.len() <= s.len() && s.subrange(i, i + pat.len()) == pat
}

/// The leftmost index at or after `k` at which the (non-empty) pattern `pat`
/// occurs in `s`.
pub open spec fn find_from(s: Seq<char>, pat: Seq<char>, k: nat) -> Option<nat>
    decreases s.len() - k,
{
    if pat.len() == 0 || k + pat.len() > s.len() {
        None
    } else if occurs_at(s, pat, k as int) {
        Some(k)
    } else {
        find_from(s, pat, k + 1)
    }
}

/// The pieces of `s` between the non-overlapping, leftmost occurrences of the
/// non-empty pattern `pat`, as `str::split` yields them.
pub open spec fn split_pieces(s: Seq<char>, pat: Seq<char>) -> Seq<Seq<char>>
    decreases s.len(),
{
    match find_from(s, pat, 0) {
        Some(i) => {
            proof {
                lemma_find_from_found(s, pat, 0);
            }
            seq![s.take(i as int)] + split_pieces(s.skip((i + pat.len()) as int), pat)
        },
        None => seq![s],
    }
}

/// The first piece of `split_pieces(s, pat)`.
pub open spec fn first_piece(s: Seq<char>, pat: Seq<char>) -> Seq<char> {
    match find_from(s, pat, 0) {
        Some(i) => s.take(i as int),
        None => s,
    }
}

/// What follows the first occurrence of `pat` in `s`, if it occurs.
pub open spec fn after_first(s: Seq<char>, pat: Seq<char>) -> Option<Seq<char>> {
    match find_from(s, pat, 0) {
        Some(i) => Some(s.skip((i + pat.len()) as int)),
        None => None,
    }
}

/// `str::split_once`: the text before and after the first occurrence of `pat`.
pub open spec fn split_once(s: Seq<char>, pat: Seq<char>) -> Option<(Seq<char>, Seq<char>)> {
    match find_from(s, pat, 0) {
        Some(i) => Some((s.take(i as int), s.skip((i + pat.len()) as int))),
        None => None,
    }
}

/// Unicode `White_Space`, the property behind `char::is_whitespace`.
pub open spec fn is_whitespace(c: char) -> bool {
    ||| ('\u{9}' <= c && c <= '\u{d}')
    ||| c == ' '
    ||| c == '\u{85}'
    ||| c == '\u{a0}'
    ||| c == '\u{1680}'
    ||| ('\u{2000}' <= c && c <= '\u{200a}')
    ||| c == '\u{2028}'
    ||| c == '\u{2029}'
    ||| c == '\u{202f}'
    ||| c == '\u{205f}'
    ||| c == '\u{3000}'
}

/// The index of the first character at or after `i` that is not whitespace
/// (or the length of `s`).
pub open spec fn skip_ws_from(s: Seq<char>, i: nat) -> nat
    decreases s.len() - i,
{
    if i < s.len() && is_whitespace(s[i as int]) {
        skip_ws_from(s, i + 1)
    } else {
        i
    }
}

/// The index of the first whitespace character at or after `i` (or the
/// length of `s`).
pub open spec fn skip_word_from(s: Seq<char>, i: nat) -> nat
    decreases s.len() - i,
{
    if i < s.len() && !is_whitespace(s[i as int]) {
        skip_word_from(s, i + 1)
    } else {
        i
    }
}

/// The first word of `s` as `split_whitespace` yields it (empty when `s`
/// holds no word).
pub open spec fn first_word(s: Seq<char>) -> Seq<char> {
    let a = skip_ws_from(s, 0);
    s.subrange(a as int, skip_word_from(s, a) as int)
}

/// The second word of `s` as `split_whitespace` yields it (empty when `s`
/// holds fewer than two words).
pub open spec fn second_word(s: Seq<char>) -> Seq<char> {
    let b = skip_word_from(s, skip_ws_from(s, 0));
    let c = skip_ws_from(s, b);
    s.subrange(c as int, skip_word_from(s, c) as int)
}

/// The index of the last non-whitespace character of `s[..j]`, plus one.
pub open spec fn trim_end_at(s: Seq<char>, j: nat) -> nat
    decreases j,
{
    if j > 0 && j <= s.len() && is_whitespace(s[j - 1]) {
        trim_end_at(s, (j - 1) as nat)
    } else {
        j
    }
}

/// `str::trim`: `s` without leading and trailing whitespace.
pub open spec fn trim(s: Seq<char>) -> Seq<char> {
    let a = skip_ws_from(s, 0);
    let b = trim_end_at(s, s.len());
    if a < b { s.subrange(a as int, b as int) } else { Seq::empty() }
}

/// The decimal digit for `d < 10`.
pub open spec fn digit_char(d: nat) -> char {
    if d == 0 { '0' }
    else if d == 1 { '1' }
    else if d == 2 { '2' }
    else if d == 3 { '3' }
    else if d == 4 { '4' }
    else if d == 5 { '5' }
    else if d == 6 { '6' }
    else if d == 7 { '7' }
    else if d == 8 { '8' }
    else { '9' }
}

/// The decimal notation of `n`, as `Display` writes an unsigned integer.
pub open spec fn decimal(n: nat) -> Seq<char>
    decreases n,
{
    if n < 10 {
        seq![digit_char(n)]
    } else {
        decimal(n / 10).push(digit_char(n % 10))
    }
}

/// The elements of `list` with `sep` between each two, as `join` writes them.
pub open spec fn join(list: Seq<Seq<char>>, sep: Seq<char>) -> Seq<char>
    decreases list.len(),
{
    if list.len() == 0 {
        Seq::empty()
    } else if list.len() == 1 {
        list[0]
    } else {
        join(list.drop_last(), sep) + sep + list.last()
    }
}

/// `c` is an ASCII decimal digit.
pub open spec fn is_digit(c: char) -> bool {
    '0' <= c && c <= '9'
}

/// The value of an ASCII decimal digit.
pub open spec fn digit_value(c: char) -> nat {
    ((c as u32) - ('0' as u32)) as nat
}

/// The value of a sequence of decimal digits.
pub open spec fn digits_value(s: Seq<char>) -> nat
    decreases s.len(),
{
    if s.len() == 0 {
        0
    } else {
        digits_value(s.drop_last()) * 10 + digit_value(s.last())
    }
}

/// `s` without its carriage returns (`'\r'`).
pub open spec fn without_cr(s: Seq<char>) -> Seq<char>
    decreases s.len(),
{
    if s.len() == 0 {
        s
    } else if s.last() == '\r' {
        without_cr(s.drop_last())
    } else {
        without_cr(s.drop_last()).push(s.last())
    }
}

/// Every character of `s` is a decimal digit.
pub open spec fn all_digits(s: Seq<char>) -> bool {
    forall|i: int| 0 <= i < s.len() ==> is_digit(#[trigger] s[i])
}

/// The digits of a number: `s` without one leading `+`.
pub open spec fn unsigned_part(s: Seq<char>) -> Seq<char> {
    if s.len() > 0 && s[0] == '+' {
        s.drop_first()
    } else {
        s
    }
}

/// `str::parse::<usize>`: an optional `+` followed by at least one decimal
/// digit, of a value that fits in `usize`.
pub open spec fn parse_usize(s: Seq<char>) -> Option<usize> {
    let digits = unsigned_part(s);
    if digits.len() > 0 && all_digits(digits) && digits_value(digits) <= usize::MAX {
        Some(digits_value(digits) as usize)
    } else {
        None
    }
}

/// The lowercase form of a text, as `str::to_lowercase` gives it.
pub uninterp spec fn lowercase(s: Seq<char>) -> Seq<char>;

/// The lowercase form of an ASCII character: `A`..`Z` become `a`..`z`,
/// any other character is kept.
pub open spec fn ascii_lower(c: char) -> char {
    if 'A' <= c && c <= 'Z' {
        ((c as u32) + 32) as char
    } else {
        c
    }
}

/// `str::to_lowercase`. The result is a function of the text; of an ASCII
/// text it is the text with `A`..`Z` lowered to `a`..`z` (Unicode's lowercase
/// mapping of the ASCII letters). Nothing more is claimed of other texts.
#[verifier::external_body]
pub(crate) fn to_lowercase(s: &str) -> (r: String)
    ensures
        r@ == lowercase(s@),
        vstd::utf8::is_ascii_chars(s@) ==> r@ == s@.map_values(|c: char| ascii_lower(c)),
{
    s.to_lowercase()
}

// ----- lemmas ---------------------------------------------------------------

/// A found index lies at or after `k` and the pattern occurs there, and
/// nowhere between `k` and it.
pub proof fn lemma_find_from_found(s: Seq<char>, pat: Seq<char>, k: nat)
    ensures
        find_from(s, pat, k) matches Some(i) ==> {
            &&& k <= i
            &&& i + pat.len() <= s.len()
            &&& pat.len() > 0
            &&& occurs_at(s, pat, i as int)
            &&& forall|j: int| k <= j < i ==> !occurs_at(s, pat, j)
        },
        find_from(s, pat, k) is None ==> forall|j: int| k <= j ==> !occurs_at(s, pat, j)
            || pat.len() == 0,
    decreases s.len() - k,
{
    if pat.len() == 0 || k + pat.len() > s.len() {
    } else if occurs_at(s, pat, k as int) {
    } else {
        lemma_find_from_found(s, pat, k + 1);
    }
}

/// The search finds `p` when the pattern occurs there and not between `k`
/// and `p`.
pub proof fn lemma_find_from_first(s: Seq<char>, pat: Seq<char>, k: nat, p: nat)
    requires
        k <= p,
        pat.len() > 0,
        occurs_at(s, pat, p as int),
        forall|j: int| k <= j < p ==> !occurs_at(s, pat, j),
    ensures
        find_from(s, pat, k) == Some(p),
    decreases p - k,
{
    if k < p {
        assert(!occurs_at(s, pat, k as int));
        lemma_find_from_first(s, pat, k + 1, p);
    }
}

/// The search finds nothing when the pattern occurs nowhere at or after `k`.
pub proof fn lemma_find_from_absent(s: Seq<char>, pat: Seq<char>, k: nat)
    requires
        forall|j: int| k <= j ==> !occurs_at(s, pat, j),
    ensures
        find_from(s, pat, k) is None,
    decreases s.len() - k,
{
    if pat.len() == 0 || k + pat.len() > s.len() {
    } else {
        assert(!occurs_at(s, pat, k as int));
        lemma_find_from_absent(s, pat, k + 1);
    }
}

/// A pattern that starts with a character absent from `s` occurs nowhere
/// in `s`.
pub proof fn lemma_absent_char(s: Seq<char>, pat: Seq<char>)
    requires
        pat.len() > 0,
        forall|i: int| 0 <= i < s.len() ==> s[i] != pat[0],
    ensures
        find_from(s, pat, 0) is None,
{
    assert forall|j: int| 0 <= j implies !occurs_at(s, pat, j) by {
        if occurs_at(s, pat, j) {
            assert(s.subrange(j, j + pat.len())[0] == s[j]);
        }
    }
    lemma_find_from_absent(s, pat, 0);
}

/// Decimal notation is its own trimmed form and parses back to its value.
pub proof fn lemma_decimal_parses(n: usize)
    ensures
        trim(decimal(n as nat)) == decimal(n as nat),
        parse_usize(decimal(n as nat)) == Some(n),
{
    let d = decimal(n as nat);
    lemma_decimal_digits(n as nat);
    assert(!is_whitespace(d[0]));
    assert(skip_ws_from(d, 0) == 0);
    assert(!is_whitespace(d[d.len() - 1]));
    assert(trim_end_at(d, d.len()) == d.len());
    assert(d.subrange(0, d.len() as int) =~= d);
    assert(unsigned_part(d) == d);
}

/// `split_pieces` always yields at least one piece, the first being
/// `first_piece`.
pub proof fn lemma_split_first(s: Seq<char>, pat: Seq<char>)
    ensures
        split_pieces(s, pat).len() >= 1,
        split_pieces(s, pat)[0] == first_piece(s, pat),
        after_first(s, pat) matches Some(rest) ==> split_pieces(s, pat).drop_first()
            == split_pieces(rest, pat),
        after_first(s, pat) is None ==> split_pieces(s, pat).len() == 1,
    decreases s.len(),
{
    match find_from(s, pat, 0) {
        Some(i) => {
            lemma_find_from_found(s, pat, 0);
            lemma_split_first(s.skip((i + pat.len()) as int), pat);
            assert(split_pieces(s, pat).drop_first() =~= split_pieces(s.skip((i + pat.len()) as int), pat));
        },
        None => {},
    }
}

/// `digit_char` gives a digit of the right value.
pub proof fn lemma_digit_char(d: nat)
    requires
        d < 10,
    ensures
        is_digit(digit_char(d)),
        digit_value(digit_char(d)) == d,
{
}

/// Decimal notation is non-empty and made of digits whose value is `n`.
pub proof fn lemma_decimal_digits(n: nat)
    ensures
        decimal(n).len() >= 1,
        forall|i: int| 0 <= i < decimal(n).len() ==> is_digit(#[trigger] decimal(n)[i]),
        digits_value(decimal(n)) == n,
        decimal(n)[0] != '+',
    decreases n,
{
    lemma_digit_char(n % 10);
    if n < 10 {
        assert(decimal(n).drop_last() =~= Seq::<char>::empty());
        assert(digits_value(decimal(n)) == digits_value(Seq::<char>::empty()) * 10 + digit_value(
            digit_char(n),
        ));
    } else {
        lemma_decimal_digits(n / 10);
        let d = decimal(n / 10);
        assert(decimal(n).drop_last() =~= d);
        assert(decimal(n).last() == digit_char(n % 10));
        assert(n == (n / 10) * 10 + n % 10);
        assert forall|i: int| 0 <= i < decimal(n).len() implies is_digit(#[trigger] decimal(n)[i]) by {
            if i < d.len() {
                assert(decimal(n)[i] == d[i]);
            }
        }
    }
}

/// The scanning functions stay within `s` and move forward.
pub proof fn lemma_skip_bounds(s: Seq<char>, i: nat)
    requires
        i <= s.len(),
    ensures
        i <= skip_ws_from(s, i) <= s.len(),
        i <= skip_word_from(s, i) <= s.len(),
    decreases s.len() - i,
{
    if i < s.len() {
        lemma_skip_bounds(s, i + 1);
    }
}

/// Scanning a run of whitespace that ends at `j` stops at `j`.
pub proof fn lemma_skip_ws_run(s: Seq<char>, i: nat, j: nat)
    requires
        i <= j <= s.len(),
        forall|k: int| i <= k < j ==> is_whitespace(#[trigger] s[k]),
        j == s.len() || !is_whitespace(s[j as int]),
    ensures
        skip_ws_from(s, i) == j,
    decreases j - i,
{
    if i < j {
        lemma_skip_ws_run(s, i + 1, j);
    }
}

/// Scanning a word that ends at `j` stops at `j`.
pub proof fn lemma_skip_word_run(s: Seq<char>, i: nat, j: nat)
    requires
        i <= j <= s.len(),
        forall|k: int| i <= k < j ==> !is_whitespace(#[trigger] s[k]),
        j == s.len() || is_whitespace(s[j as int]),
    ensures
        skip_word_from(s, i) == j,
    decreases j - i,
{
    if i < j {
        lemma_skip_word_run(s, i + 1, j);
    }
}

/// The value of a prefix of digits is at most that of the whole.
pub proof fn lemma_digits_value_prefix(s: Seq<char>, k: int)
    requires
        0 <= k <= s.len(),
    ensures
        digits_value(s.take(k)) <= digits_value(s),
    decreases s.len(),
{
    if k < s.len() {
        assert(s.drop_last().take(k) =~= s.take(k));
        lemma_digits_value_prefix(s.drop_last(), k);
    } else {
        assert(s.take(k) =~= s);
    }
}

// ----- executable helpers ---------------------------------------------------

/// Appends one character to a string (`String::push`).
#[verifier::external_body]
pub(crate) fn push_char(s: &mut String, c: char)
    ensures
        final(s)@ == old(s)@.push(c),
{
    s.push(c);
}

/// Whether two strings hold the same characters.
pub fn str_eq(a: &str, b: &str) -> (r: bool)
    ensures
        r == (a@ == b@),
{
    let x = string_to_chars(a);
    let y = string_to_chars(b);
    if x.len() != y.len() {
        return false;
    }
    let mut i: usize = 0;
    while i < x.len()
        invariant
            x.len() == y.len(),
            x@ == a@,
            y@ == b@,
            i <= x.len(),
            forall|k: int| 0 <= k < i ==> x@[k] == y@[k],
        decreases x.len() - i,
    {
        if x[i] != y[i] {
            assert(a@[i as int] != b@[i as int]);
            return false;
        }
        i = i + 1;
    }
    assert(x@ =~= y@);
    true
}

/// The characters of `s`, in order.
pub fn string_to_chars(s: &str) -> (r: Vec<char>)
    ensures
        r@ == s@,
{
    let mut r: Vec<char> = Vec::new();
    for c in it: s.chars()
        invariant
            r@ == it.seq().take(it.index() as int),
            it.seq() == s@,
    {
        r.push(c);
    }
    r
}

/// Appends the characters `v[lo..hi]` to `s`.
pub fn push_chars(s: &mut String, v: &Vec<char>, lo: usize, hi: usize)
    requires
        lo <= hi <= v.len(),
    ensures
        final(s)@ == old(s)@ + v@.subrange(lo as int, hi as int),
{
    let ghost start = s@;
    let mut i = lo;
    while i < hi
        invariant
            lo <= i <= hi <= v.len(),
            s@ == start + v@.subrange(lo as int, i as int),
        decreases hi - i,
    {
        push_char(s, v[i]);
        assert(v@.subrange(lo as int, i + 1) == v@.subrange(lo as int, i as int).push(v@[i as int]));
        i = i + 1;
    }
}

/// The string made of the characters `v[lo..hi]`.
pub fn chars_to_string(v: &Vec<char>, lo: usize, hi: usize) -> (r: String)
    requires
        lo <= hi <= v.len(),
    ensures
        r@ == v@.subrange(lo as int, hi as int),
{
    let mut r = String::new();
    push_chars(&mut r, v, lo, hi);
    r
}

/// A copy of `v[lo..hi]`.
pub fn sub_chars(v: &Vec<char>, lo: usize, hi: usize) -> (r: Vec<char>)
    requires
        lo <= hi <= v.len(),
    ensures
        r@ == v@.subrange(lo as int, hi as int),
{
    let mut r: Vec<char> = Vec::new();
    let mut i = lo;
    while i < hi
        invariant
            lo <= i <= hi <= v.len(),
            r@ == v@.subrange(lo as int, i as int),
        decreases hi - i,
    {
        r.push(v[i]);
        assert(v@.subrange(lo as int, i + 1) == v@.subrange(lo as int, i as int).push(v@[i as int]));
        i = i + 1;
    }
    r
}

/// Whether `pat` occurs in `s` at index `i`.
pub fn occurs_at_exec(s: &Vec<char>, pat: &Vec<char>, i: usize) -> (b: bool)
    ensures
        b == occurs_at(s@, pat@, i as int),
{
    if pat.len() > s.len() || i > s.len() - pat.len() {
        return false;
    }
    let mut j: usize = 0;
    while j < pat.len()
        invariant
            i + pat.len() <= s.len(),
            j <= pat.len(),
            forall|k: int| 0 <= k < j ==> s@[i + k] == pat@[k],
        decreases pat.len() - j,
    {
        if s[i + j] != pat[j] {
            assert(s@.subrange(i as int, i + pat.len())[j as int] != pat@[j as int]);
            return false;
        }
        j = j + 1;
    }
    assert(s@.subrange(i as int, i + pat.len()) =~= pat@);
    true
}

/// The leftmost occurrence of `pat` in `s` at or after `k`.
pub fn find_from_exec(s: &Vec<char>, pat: &Vec<char>, k: usize) -> (r: Option<usize>)
    ensures
        match r {
            Some(i) => find_from(s@, pat@, k as nat) == Some(i as nat),
            None => find_from(s@, pat@, k as nat) is None,
        },
{
    if pat.len() == 0 {
        return None;
    }
    let mut i = k;
    while i <= s.len() && pat.len() <= s.len() - i
        invariant
            pat.len() > 0,
            k <= i,
            find_from(s@, pat@, k as nat) == find_from(s@, pat@, i as nat),
        decreases s.len() - i,
    {
        if occurs_at_exec(s, pat, i) {
            return Some(i);
        }
        i = i + 1;
    }
    None
}

/// `s` without its carriage returns.
pub fn remove_carriage_returns(s: &Vec<char>) -> (r: Vec<char>)
    ensures
        r@ == without_cr(s@),
{
    let mut r: Vec<char> = Vec::new();
    for i in 0..s.len()
        invariant
            r@ == without_cr(s@.take(i as int)),
    {
        assert(s@.take(i + 1).drop_last() == s@.take(i as int));
        if s[i] != '\r' {
            r.push(s[i]);
        }
    }
    assert(s@.take(s.len() as int) == s@);
    r
}

/// Whether `c` is whitespace (`char::is_whitespace`).
pub fn is_whitespace_exec(c: char) -> (b: bool)
    ensures
        b == is_whitespace(c),
{
    ('\u{9}' <= c && c <= '\u{d}') || c == ' ' || c == '\u{85}' || c == '\u{a0}' || c == '\u{1680}'
        || ('\u{2000}' <= c && c <= '\u{200a}') || c == '\u{2028}' || c == '\u{2029}' || c
        == '\u{202f}' || c == '\u{205f}' || c == '\u{3000}'
}

/// `skip_ws_from` computed.
pub fn skip_ws_exec(s: &Vec<char>, i: usize) -> (r: usize)
    requires
        i <= s.len(),
    ensures
        r == skip_ws_from(s@, i as nat),
        i <= r <= s.len(),
{
    let mut j = i;
    while j < s.len() && is_whitespace_exec(s[j])
        invariant
            i <= j <= s.len(),
            skip_ws_from(s@, i as nat) == skip_ws_from(s@, j as nat),
        decreases s.len() - j,
    {
        j = j + 1;
    }
    j
}

/// `skip_word_from` computed.
pub fn skip_word_exec(s: &Vec<char>, i: usize) -> (r: usize)
    requires
        i <= s.len(),
    ensures
        r == skip_word_from(s@, i as nat),
        i <= r <= s.len(),
{
    let mut j = i;
    while j < s.len() && !is_whitespace_exec(s[j])
        invariant
            i <= j <= s.len(),
            skip_word_from(s@, i as nat) == skip_word_from(s@, j as nat),
        decreases s.len() - j,
    {
        j = j + 1;
    }
    j
}

/// The digit character for `d < 10`.
pub fn digit_char_exec(d: u64) -> (c: char)
    requires
        d < 10,
    ensures
        c == digit_char(d as nat),
{
    if d == 0 { '0' }
    else if d == 1 { '1' }
    else if d == 2 { '2' }
    else if d == 3 { '3' }
    else if d == 4 { '4' }
    else if d == 5 { '5' }
    else if d == 6 { '6' }
    else if d == 7 { '7' }
    else if d == 8 { '8' }
    else { '9' }
}

/// Appends the decimal notation of `n` to `s`.
pub fn push_decimal(s: &mut String, n: u64)
    ensures
        final(s)@ == old(s)@ + decimal(n as nat),
    decreases n,
{
    if n >= 10 {
        push_decimal(s, n / 10);
    }
    push_char(s, digit_char_exec(n % 10));
    assert(decimal(n as nat) == if n < 10 { seq![digit_char(n as nat)] } else {
        decimal((n / 10) as nat).push(digit_char((n % 10) as nat))
    });
}

/// `trim_end_at` computed.
fn trim_end_exec(s: &Vec<char>, j: usize) -> (r: usize)
    requires
        j <= s.len(),
    ensures
        r == trim_end_at(s@, j as nat),
        r <= j,
{
    let mut k = j;
    while k > 0 && is_whitespace_exec(s[k - 1])
        invariant
            k <= j <= s.len(),
            trim_end_at(s@, j as nat) == trim_end_at(s@, k as nat),
        decreases k,
    {
        k = k - 1;
    }
    k
}

/// `s` without leading and trailing whitespace.
pub fn trim_chars(s: &Vec<char>) -> (r: Vec<char>)
    ensures
        r@ == trim(s@),
{
    let a = skip_ws_exec(s, 0);
    let b = trim_end_exec(s, s.len());
    if a < b {
        sub_chars(s, a, b)
    } else {
        Vec::new()
    }
}

/// The value of the decimal digit `c`.
fn digit_value_exec(c: char) -> (d: usize)
    requires
        is_digit(c),
    ensures
        d == digit_value(c),
        d < 10,
{
    if c == '0' { 0 }
    else if c == '1' { 1 }
    else if c == '2' { 2 }
    else if c == '3' { 3 }
    else if c == '4' { 4 }
    else if c == '5' { 5 }
    else if c == '6' { 6 }
    else if c == '7' { 7 }
    else if c == '8' { 8 }
    else { 9 }
}

/// `str::parse::<usize>` on the characters `s`.
pub fn parse_usize_exec(s: &Vec<char>) -> (r: Option<usize>)
    ensures
        r == parse_usize(s@),
{
    let start: usize = if s.len() > 0 && s[0] == '+' { 1 } else { 0 };
    let ghost digits = unsigned_part(s@);
    assert(digits =~= s@.skip(start as int));
    if start == s.len() {
        return None;
    }
    let mut acc: usize = 0;
    let mut i = start;
    while i < s.len()
        invariant
            start <= i <= s.len(),
            start < s.len(),
            digits =~= s@.skip(start as int),
            digits == unsigned_part(s@),
            forall|k: int| 0 <= k < i - start ==> is_digit(#[trigger] digits[k]),
            acc == digits_value(digits.take(i - start)),
        decreases s.len() - i,
    {
        let c = s[i];
        if !('0' <= c && c <= '9') {
            assert(digits[i - start] == c);
            assert(!is_digit(digits[i - start]));
            return None;
        }
        let d = digit_value_exec(c);
        assert(digits.take(i + 1 - start).drop_last() =~= digits.take(i - start));
        assert(digits.take(i + 1 - start).last() == c);
        if acc > (usize::MAX - d) / 10 {
            assert(digits_value(digits.take(i + 1 - start)) > usize::MAX) by (nonlinear_arith)
                requires
                    digits_value(digits.take(i + 1 - start)) == acc * 10 + d,
                    acc > (usize::MAX - d) / 10,
                    d < 10,
            ;
            proof {
                lemma_digits_value_prefix(digits, i + 1 - start);
            }
            return None;
        }
        assert(acc * 10 + d <= usize::MAX) by (nonlinear_arith)
            requires
                acc <= (usize::MAX - d) / 10,
                d < 10,
        ;
        acc = acc * 10 + d;
        i = i + 1;
    }
    assert(digits.take(i - start) =~= digits);
    Some(acc)
}

/// The strings of `list` with `sep` between each two.
pub fn join_strings(list: &Vec<String>, sep: &str) -> (r: String)
    ensures
        r@ == join(list@.map_values(|v: String| v@), sep@),
{
    let ghost views = list@.map_values(|v: String| v@);
    let mut r = String::new();
    for i in 0..list.len()
        invariant
            views.len() == list.len(),
            views == list@.map_values(|v: String| v@),
            r@ == join(views.take(i as int), sep@),
    {
        assert(views.take(i + 1).drop_last() =~= views.take(i as int));
        assert(views[i as int] == list[i as int]@);
        if i != 0 {
            r.append(sep);
        } else {
            assert(r@ =~= Seq::<char>::empty());
        }
        r.append(list[i].as_str());
        assert(r@ =~= join(views.take(i + 1), sep@));
    }
    assert(views.take(list.len() as int) =~= views);
    r
}

} // verus!
