//! Character-level helpers shared by the normalisers and parsers.
//!
//! Text is handled as a sequence of Unicode scalar values. Executable code
//! works on `Vec<char>`; the two conversions at the ends are [`chars_of`] and
//! [`string_of`].

use vstd::prelude::*;

verus! {

/// A lower-case ASCII letter.
pub open spec fn is_lower(c: char) -> bool {
    'a' <= c <= 'z'
}

/// An upper-case ASCII letter.
pub open spec fn is_upper(c: char) -> bool {
    'A' <= c <= 'Z'
}

/// An ASCII decimal digit.
pub open spec fn is_digit(c: char) -> bool {
    '0' <= c <= '9'
}

/// A character of the ASCII range.
pub open spec fn is_ascii_char(c: char) -> bool {
    c <= '\x7f'
}

/// Every character of `s` is in the ASCII range.
pub open spec fn all_ascii(s: Seq<char>) -> bool {
    forall|i: int| 0 <= i < s.len() ==> is_ascii_char(#[trigger] s[i])
}

/// The lower-case form of an ASCII character: `A`..`Z` move to `a`..`z`,
/// everything else stays.
pub open spec fn ascii_lower(c: char) -> char {
    if is_upper(c) {
        ((c as u8) + 32) as char
    } else {
        c
    }
}

/// Whether `char::is_whitespace` holds of `c`: whether Unicode gives the
/// character the White_Space property.
pub uninterp spec fn unicode_white_space(c: char) -> bool;

/// What `str::to_lowercase` returns for the text `s`: its lower-case form
/// under the Unicode case mappings.
pub uninterp spec fn unicode_lowercased(s: Seq<char>) -> Seq<char>;

/// White space. In the ASCII range these are the tab, the line feed, the
/// vertical tab, the form feed, the carriage return and the space; beyond it,
/// whatever Unicode classes as white space.
pub open spec fn is_space(c: char) -> bool {
    if is_ascii_char(c) {
        ('\t' <= c <= '\r') || c == ' '
    } else {
        unicode_white_space(c)
    }
}

/// The lower-case form of a text. A text within the ASCII range is lowered
/// letter by letter; any other text is lowered under the Unicode mappings.
pub open spec fn lowercased(s: Seq<char>) -> Seq<char> {
    if all_ascii(s) {
        s.map_values(|c: char| ascii_lower(c))
    } else {
        unicode_lowercased(s)
    }
}

/// What is cut from the two ends of a text by [`trim`].
#[derive(Clone, Copy, Debug, PartialEq, Eq, Structural)]
pub enum Trim {
    /// White space, as [`is_space`] defines it.
    Whitespace,
    /// The dash `-`.
    Dashes,
}

impl Trim {
    /// Whether `c` is of the kind that is cut away.
    pub open spec fn covers(self, c: char) -> bool {
        match self {
            Trim::Whitespace => is_space(c),
            Trim::Dashes => c == '-',
        }
    }

    /// Tests whether `c` is of the kind that is cut away.
    pub fn test(self, c: char) -> (b: bool)
        ensures
            b == self.covers(c),
    {
        match self {
            Trim::Whitespace => char_is_space(c),
            Trim::Dashes => c == '-',
        }
    }
}

/// How many characters at the front of `s` are of the kind `what`.
pub open spec fn leading(s: Seq<char>, what: Trim) -> nat
    decreases s.len(),
{
    if s.len() > 0 && what.covers(s[0]) {
        1 + leading(s.drop_first(), what)
    } else {
        0
    }
}

/// How many characters at the back of `s` are of the kind `what`.
pub open spec fn trailing(s: Seq<char>, what: Trim) -> nat
    decreases s.len(),
{
    if s.len() > 0 && what.covers(s.last()) {
        1 + trailing(s.drop_last(), what)
    } else {
        0
    }
}

/// `s` without the characters of kind `what` at its front and at its back.
pub open spec fn trim_of(s: Seq<char>, what: Trim) -> Seq<char> {
    let front = s.skip(leading(s, what) as int);
    front.take(front.len() - trailing(front, what))
}

/// The pieces into which the separator `sep` cuts `text`. There is always at
/// least one piece, and a piece may be empty.
pub open spec fn split_on(text: Seq<char>, sep: char) -> Seq<Seq<char>>
    decreases text.len(),
{
    if text.len() == 0 {
        seq![Seq::empty()]
    } else {
        let before = split_on(text.drop_last(), sep);
        if text.last() == sep {
            before.push(Seq::empty())
        } else {
            before.drop_last().push(before.last().push(text.last()))
        }
    }
}

/// The texts held by a vector of character vectors.
pub open spec fn pieces_of(v: Seq<Vec<char>>) -> Seq<Seq<char>> {
    v.map_values(|p: Vec<char>| p@)
}

/// The characters of `s`, in order, as a vector.
pub fn chars_of(s: &str) -> (out: Vec<char>)
    ensures
        out@ == s@,
{
    let mut out: Vec<char> = Vec::new();
    for c in it: s.chars()
        invariant
            out@ == it.seq().take(it.index()),
            it.seq() == s@,
    {
        out.push(c);
    }
    out
}

/// `String::push`: the text with the character `c` added at its end.
#[verifier::external_body]
pub(crate) fn push_char(text: &mut String, c: char)
    ensures
        final(text)@ == old(text)@.push(c),
{
    text.push(c)
}

/// The text made of the characters of `chars`, in their order.
pub fn string_of(chars: &Vec<char>) -> (out: String)
    ensures
        out@ == chars@,
{
    let mut out = String::new();
    let mut i: usize = 0;
    while i < chars.len()
        invariant
            i <= chars.len(),
            out@ == chars@.take(i as int),
        decreases chars.len() - i,
    {
        push_char(&mut out, chars[i]);
        i += 1;
        assert(out@ == chars@.take(i as int));
    }
    assert(chars@.take(chars.len() as int) == chars@);
    out
}

/// Whether `c` is one of `a`..`z`.
pub fn char_is_lower(c: char) -> (b: bool)
    ensures
        b == is_lower(c),
{
    'a' <= c && c <= 'z'
}

/// Whether `c` is one of `0`..`9`.
pub fn char_is_digit(c: char) -> (b: bool)
    ensures
        b == is_digit(c),
{
    '0' <= c && c <= '9'
}

/// Whether `c` is in the ASCII range.
pub fn char_is_ascii(c: char) -> (b: bool)
    ensures
        b == is_ascii_char(c),
{
    c <= '\x7f'
}

/// The lower-case form of an ASCII character; see [`ascii_lower`].
pub fn to_ascii_lower(c: char) -> (l: char)
    ensures
        l == ascii_lower(c),
{
    if 'A' <= c && c <= 'Z' {
        ((c as u8) + 32) as char
    } else {
        c
    }
}

/// Whether `s` and `t` hold the same characters.
pub fn chars_eq(s: &Vec<char>, t: &Vec<char>) -> (b: bool)
    ensures
        b == (s@ == t@),
{
    if s.len() != t.len() {
        return false;
    }
    let mut i: usize = 0;
    while i < s.len()
        invariant
            i <= s.len(),
            s.len() == t.len(),
            s@.take(i as int) == t@.take(i as int),
        decreases s.len() - i,
    {
        if s[i] != t[i] {
            return false;
        }
        assert(s@.take(i + 1) == s@.take(i as int).push(s@[i as int]));
        assert(t@.take(i + 1) == t@.take(i as int).push(t@[i as int]));
        i += 1;
    }
    assert(s@.take(s.len() as int) == s@);
    assert(t@.take(t.len() as int) == t@);
    true
}

/// The decimal digit for a value below ten.
pub open spec fn digit_char(d: nat) -> char
    recommends
        d < 10,
{
    ((d + 48) as u8) as char
}

/// The decimal notation of `n`, without leading zeros.
pub open spec fn decimal_of(n: nat) -> Seq<char>
    decreases n,
{
    if n < 10 {
        seq![digit_char(n)]
    } else {
        decimal_of(n / 10).push(digit_char(n % 10))
    }
}

/// Writes `n` in decimal notation.
pub fn decimal(n: usize) -> (text: String)
    ensures
        text@ == decimal_of(n as nat),
{
    let mut low: Vec<char> = Vec::new();
    let mut rest: usize = n;
    while rest >= 10
        invariant
            decimal_of(n as nat) == decimal_of(rest as nat) + low@.reverse(),
        decreases rest,
    {
        let d: u8 = (rest % 10) as u8;
        let ghost before = low@;
        low.push((d + 48) as char);
        assert(low@.reverse() == seq![digit_char((rest % 10) as nat)] + before.reverse());
        assert(decimal_of(rest as nat) == decimal_of((rest / 10) as nat).push(
            digit_char((rest % 10) as nat),
        ));
        assert(decimal_of((rest / 10) as nat).push(digit_char((rest % 10) as nat))
            + before.reverse() == decimal_of((rest / 10) as nat) + (seq![
            digit_char((rest % 10) as nat),
        ] + before.reverse()));
        rest = rest / 10;
    }
    let mut out: Vec<char> = Vec::new();
    out.push(((rest as u8) + 48) as char);
    let mut k: usize = low.len();
    while k > 0
        invariant
            k <= low.len(),
            out@ == decimal_of(rest as nat) + low@.reverse().take(low.len() - k),
        decreases k,
    {
        k -= 1;
        out.push(low[k]);
        assert(low@.reverse().take(low.len() - k) == low@.reverse().take(low.len() - k - 1).push(
            low@[k as int],
        ));
    }
    assert(low@.reverse().take(low.len() as int) == low@.reverse());
    string_of(&out)
}

/// Whether two texts hold the same characters.
pub fn str_eq(a: &str, b: &str) -> (same: bool)
    ensures
        same == (a@ == b@),
{
    chars_eq(&chars_of(a), &chars_of(b))
}

/// An owned copy of an optional text.
pub fn owned(text: Option<&str>) -> (copy: Option<String>)
    ensures
        match text {
            Some(t) => copy matches Some(c) && c@ == t@,
            None => copy is None,
        },
{
    match text {
        Some(t) => Some(t.to_owned()),
        None => None,
    }
}

/// Whether `s` begins with the characters of `prefix`.
pub fn starts_with(s: &Vec<char>, prefix: &Vec<char>) -> (b: bool)
    ensures
        b == prefix@.is_prefix_of(s@),
{
    if prefix.len() > s.len() {
        return false;
    }
    let mut i: usize = 0;
    while i < prefix.len()
        invariant
            i <= prefix.len() <= s.len(),
            prefix@.take(i as int) == s@.take(i as int),
        decreases prefix.len() - i,
    {
        if s[i] != prefix[i] {
            assert(s@.subrange(0, prefix.len() as int)[i as int] == s@[i as int]);
            return false;
        }
        assert(s@.take(i + 1) == s@.take(i as int).push(s@[i as int]));
        assert(prefix@.take(i + 1) == prefix@.take(i as int).push(prefix@[i as int]));
        i += 1;
    }
    assert(prefix@.take(prefix.len() as int) == prefix@);
    true
}

/// The characters of `s` from position `from` up to, not including, `to`.
pub fn slice_of(s: &Vec<char>, from: usize, to: usize) -> (out: Vec<char>)
    requires
        from <= to <= s.len(),
    ensures
        out@ == s@.subrange(from as int, to as int),
{
    let mut out: Vec<char> = Vec::new();
    let mut i: usize = from;
    while i < to
        invariant
            from <= i <= to <= s.len(),
            out@ == s@.subrange(from as int, i as int),
        decreases to - i,
    {
        out.push(s[i]);
        i += 1;
    }
    out
}

/// Whether `c` occurs in `s`.
pub fn contains_char(s: &Vec<char>, c: char) -> (b: bool)
    ensures
        b == s@.contains(c),
{
    let mut i: usize = 0;
    while i < s.len()
        invariant
            i <= s.len(),
            forall|j: int| 0 <= j < i ==> s@[j] != c,
        decreases s.len() - i,
    {
        if s[i] == c {
            return true;
        }
        i += 1;
    }
    false
}

/// `char::is_whitespace`. The contract claims only that the answer depends on
/// the character alone.
#[verifier::external_body]
pub(crate) fn unicode_is_whitespace(c: char) -> (b: bool)
    ensures
        b == unicode_white_space(c),
{
    c.is_whitespace()
}

/// `str::to_lowercase`. The contract claims only that the result depends on
/// the characters of `s` alone.
#[verifier::external_body]
pub(crate) fn unicode_lowercase(s: &str) -> (out: String)
    ensures
        out@ == unicode_lowercased(s@),
{
    s.to_lowercase()
}

/// Whether `c` is white space; see [`is_space`].
pub fn char_is_space(c: char) -> (b: bool)
    ensures
        b == is_space(c),
{
    if char_is_ascii(c) {
        ('\t' <= c && c <= '\r') || c == ' '
    } else {
        unicode_is_whitespace(c)
    }
}

/// Whether every character of `s` is in the ASCII range.
pub fn is_all_ascii(s: &Vec<char>) -> (b: bool)
    ensures
        b == all_ascii(s@),
{
    let mut i: usize = 0;
    while i < s.len()
        invariant
            i <= s.len(),
            forall|j: int| 0 <= j < i ==> is_ascii_char(#[trigger] s@[j]),
        decreases s.len() - i,
    {
        if !char_is_ascii(s[i]) {
            return false;
        }
        i += 1;
    }
    true
}

/// `s` with each of `A`..`Z` moved to `a`..`z` and everything else as it is.
pub fn ascii_lowercase(s: &Vec<char>) -> (out: Vec<char>)
    ensures
        out@ == s@.map_values(|c: char| ascii_lower(c)),
{
    let mut out: Vec<char> = Vec::new();
    let mut i: usize = 0;
    while i < s.len()
        invariant
            i <= s.len(),
            out@ == s@.take(i as int).map_values(|c: char| ascii_lower(c)),
        decreases s.len() - i,
    {
        out.push(to_ascii_lower(s[i]));
        i += 1;
        assert(out@ == s@.take(i as int).map_values(|c: char| ascii_lower(c)));
    }
    assert(s@.take(s.len() as int) == s@);
    out
}

/// The lower-case form of `s`.
pub fn lowercase(s: &Vec<char>) -> (out: Vec<char>)
    ensures
        out@ == lowercased(s@),
{
    if is_all_ascii(s) {
        ascii_lowercase(s)
    } else {
        let text = string_of(s);
        let lowered = unicode_lowercase(text.as_str());
        chars_of(lowered.as_str())
    }
}

/// The number of characters of kind `what` at the front of `s`.
pub fn count_leading(s: &Vec<char>, what: Trim) -> (n: usize)
    ensures
        n == leading(s@, what),
        n <= s.len(),
{
    let mut i: usize = 0;
    assert(s@.skip(0) == s@);
    while i < s.len() && what.test(s[i])
        invariant
            i <= s.len(),
            leading(s@, what) == i + leading(s@.skip(i as int), what),
        decreases s.len() - i,
    {
        assert(s@.skip(i as int).drop_first() == s@.skip(i + 1));
        i += 1;
    }
    i
}

/// The number of characters of kind `what` at the back of `s`.
pub fn count_trailing(s: &Vec<char>, what: Trim) -> (n: usize)
    ensures
        n == trailing(s@, what),
        n <= s.len(),
{
    let mut k: usize = s.len();
    assert(s@.take(s.len() as int) == s@);
    while k > 0 && what.test(s[k - 1])
        invariant
            k <= s.len(),
            trailing(s@, what) == (s.len() - k) + trailing(s@.take(k as int), what),
        decreases k,
    {
        assert(s@.take(k as int).drop_last() == s@.take(k - 1));
        k -= 1;
    }
    s.len() - k
}

/// `s` without the characters of kind `what` at either end.
pub fn trim(s: &Vec<char>, what: Trim) -> (out: Vec<char>)
    ensures
        out@ == trim_of(s@, what),
{
    let start = count_leading(s, what);
    let front = slice_of(s, start, s.len());
    let cut = count_trailing(&front, what);
    slice_of(&front, 0, front.len() - cut)
}

/// The front count stays within the text, covers what it counts, and stops at
/// the first character of another kind.
pub proof fn lemma_leading(s: Seq<char>, what: Trim)
    ensures
        leading(s, what) <= s.len(),
        forall|j: int| 0 <= j < leading(s, what) ==> what.covers(#[trigger] s[j]),
        leading(s, what) < s.len() ==> !what.covers(s[leading(s, what) as int]),
    decreases s.len(),
{
    if s.len() > 0 && what.covers(s[0]) {
        let rest = s.drop_first();
        lemma_leading(rest, what);
        assert forall|j: int| 0 <= j < leading(s, what) implies what.covers(#[trigger] s[j]) by {
            if j > 0 {
                assert(s[j] == rest[j - 1]);
            }
        }
        if leading(s, what) < s.len() {
            assert(s[leading(s, what) as int] == rest[leading(rest, what) as int]);
        }
    }
}

/// The back count stays within the text and stops at the last character of
/// another kind.
pub proof fn lemma_trailing(s: Seq<char>, what: Trim)
    ensures
        trailing(s, what) <= s.len(),
        trailing(s, what) < s.len() ==> !what.covers(s[s.len() - trailing(s, what) - 1]),
    decreases s.len(),
{
    if s.len() > 0 && what.covers(s.last()) {
        let rest = s.drop_last();
        lemma_trailing(rest, what);
        if trailing(s, what) < s.len() {
            assert(s[s.len() - trailing(s, what) - 1] == rest[rest.len() - trailing(rest, what)
                - 1]);
        }
    }
}

/// Trimming cuts a piece out of the text: the result is the part of `s`
/// between two positions, and where it is not empty neither its first nor its
/// last character is of the kind that was cut.
pub proof fn lemma_trim_is_piece(s: Seq<char>, what: Trim) -> (bounds: (int, int))
    ensures
        0 <= bounds.0 <= bounds.1 <= s.len(),
        trim_of(s, what) == s.subrange(bounds.0, bounds.1),
        trim_of(s, what).len() > 0 ==> !what.covers(trim_of(s, what)[0]) && !what.covers(
            trim_of(s, what).last(),
        ),
{
    lemma_leading(s, what);
    let start = leading(s, what) as int;
    let front = s.skip(start);
    lemma_trailing(front, what);
    let end = s.len() - trailing(front, what);
    assert(front.take(front.len() - trailing(front, what)) == s.subrange(start, end));
    (start, end)
}

/// A text that neither begins nor ends with a character of kind `what` is
/// left as it is.
pub proof fn lemma_trim_keeps(s: Seq<char>, what: Trim)
    requires
        s.len() > 0 ==> !what.covers(s[0]) && !what.covers(s.last()),
    ensures
        trim_of(s, what) == s,
{
    assert(leading(s, what) == 0);
    assert(s.skip(0) == s);
    assert(trailing(s, what) == 0);
    assert(s.take(s.len() as int) == s);
}

/// Cuts `text` at every `sep`; see [`split_on`].
pub fn split(text: &Vec<char>, sep: char) -> (pieces: Vec<Vec<char>>)
    ensures
        pieces_of(pieces@) == split_on(text@, sep),
        pieces@.len() >= 1,
{
    let mut pieces: Vec<Vec<char>> = Vec::new();
    let mut piece: Vec<char> = Vec::new();
    let mut i: usize = 0;
    assert(text@.take(0) == Seq::<char>::empty());
    assert(pieces_of(pieces@).push(piece@) == seq![Seq::<char>::empty()]);
    while i < text.len()
        invariant
            i <= text.len(),
            pieces_of(pieces@).push(piece@) == split_on(text@.take(i as int), sep),
        decreases text.len() - i,
    {
        let ghost done = pieces_of(pieces@);
        let ghost before = split_on(text@.take(i as int), sep);
        assert(text@.take(i + 1).drop_last() == text@.take(i as int));
        assert(text@.take(i + 1).last() == text@[i as int]);
        assert(before.last() == piece@);
        assert(before.drop_last() == done);
        let c = text[i];
        if c == sep {
            pieces.push(piece);
            piece = Vec::new();
            assert(pieces_of(pieces@) == before);
        } else {
            piece.push(c);
        }
        i += 1;
    }
    assert(text@.take(text.len() as int) == text@);
    let ghost done = pieces_of(pieces@);
    pieces.push(piece);
    assert(pieces_of(pieces@) == done.push(piece@));
    pieces
}

} // verus!
