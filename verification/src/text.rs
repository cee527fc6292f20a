//! Text helpers: decimal rendering and the small amount of scanning that the
//! kernel's line-oriented control files need.

use vstd::prelude::*;

verus! {

/// The character for a single decimal digit.
pub open spec fn digit_char(d: nat) -> char {
    if d == 0 {
        '0'
    } else if d == 1 {
        '1'
    } else if d == 2 {
        '2'
    } else if d == 3 {
        '3'
    } else if d == 4 {
        '4'
    } else if d == 5 {
        '5'
    } else if d == 6 {
        '6'
    } else if d == 7 {
        '7'
    } else if d == 8 {
        '8'
    } else {
        '9'
    }
}

/// Decimal digits of a natural number, most significant first, without
/// leading zeros (zero itself is `"0"`).
pub open spec fn decimal_nat(n: nat) -> Seq<char>
    decreases n,
{
    if n < 10 {
        seq![digit_char(n)]
    } else {
        decimal_nat(n / 10).push(digit_char(n % 10))
    }
}

/// Decimal rendering of an integer: a minus sign for negative values, then
/// the digits of the magnitude.
pub open spec fn decimal_int(n: int) -> Seq<char> {
    if n < 0 {
        seq!['-'] + decimal_nat((-n) as nat)
    } else {
        decimal_nat(n as nat)
    }
}

/// The digits of a number are decimal digits, and there is at least one.
pub proof fn lemma_decimal_nat_shape(n: nat)
    ensures
        decimal_nat(n).len() >= 1,
        n >= 10 ==> decimal_nat(n).len() >= 2,
        forall|i: int|
            0 <= i < decimal_nat(n).len() ==> '0' <= #[trigger] decimal_nat(n)[i] <= '9',
    decreases n,
{
    if n >= 10 {
        lemma_decimal_nat_shape(n / 10);
    }
}

/// Different numbers have different digits.
pub proof fn lemma_decimal_nat_injective(a: nat, b: nat)
    requires
        decimal_nat(a) == decimal_nat(b),
    ensures
        a == b,
    decreases a,
{
    lemma_decimal_nat_shape(a);
    lemma_decimal_nat_shape(b);
    if a < 10 {
        assert(decimal_nat(a)[0] == digit_char(a));
    } else {
        let da = decimal_nat(a / 10);
        let db = decimal_nat(b / 10);
        assert(decimal_nat(a).last() == digit_char(a % 10));
        assert(decimal_nat(a).drop_last() =~= da);
        assert(decimal_nat(b).drop_last() =~= db);
        lemma_decimal_nat_injective(a / 10, b / 10);
    }
}

/// Different integers are rendered differently.
pub proof fn lemma_decimal_int_injective(a: int, b: int)
    requires
        decimal_int(a) == decimal_int(b),
    ensures
        a == b,
{
    let ma = (if a < 0 { -a } else { a }) as nat;
    let mb = (if b < 0 { -b } else { b }) as nat;
    lemma_decimal_nat_shape(ma);
    lemma_decimal_nat_shape(mb);
    assert(decimal_nat(ma)[0] != '-');
    assert(decimal_nat(mb)[0] != '-');
    if a < 0 {
        assert(decimal_int(a).skip(1) =~= decimal_nat(ma));
        assert(decimal_int(b).skip(1) =~= decimal_nat(mb));
    }
    lemma_decimal_nat_injective(ma, mb);
}

fn digit_str(d: u64) -> (s: &'static str)
    requires
        d < 10,
    ensures
        s@ == seq![digit_char(d as nat)],
{
    proof {
        reveal_strlit("0");
        reveal_strlit("1");
        reveal_strlit("2");
        reveal_strlit("3");
        reveal_strlit("4");
        reveal_strlit("5");
        reveal_strlit("6");
        reveal_strlit("7");
        reveal_strlit("8");
        reveal_strlit("9");
    }
    let s = if d == 0 {
        "0"
    } else if d == 1 {
        "1"
    } else if d == 2 {
        "2"
    } else if d == 3 {
        "3"
    } else if d == 4 {
        "4"
    } else if d == 5 {
        "5"
    } else if d == 6 {
        "6"
    } else if d == 7 {
        "7"
    } else if d == 8 {
        "8"
    } else {
        "9"
    };
    s
}

/// Renders an unsigned number in decimal.
pub fn decimal_u64(n: u64) -> (s: String)
    ensures
        s@ == decimal_nat(n as nat),
    decreases n,
{
    if n < 10 {
        String::from_str(digit_str(n))
    } else {
        let mut s = decimal_u64(n / 10);
        s.append(digit_str(n % 10));
        s
    }
}

/// Renders a signed number in decimal, as a process id is written into a
/// path or a control file.
pub fn decimal_i32(n: i32) -> (s: String)
    ensures
        s@ == decimal_int(n as int),
{
    if n < 0 {
        let magnitude: u64 = (-(n as i64)) as u64;
        let digits = decimal_u64(magnitude);
        proof {
            reveal_strlit("-");
        }
        String::from_str("-").concat(digits.as_str())
    } else {
        decimal_u64(n as u64)
    }
}

/// The characters of a string slice, in order.
pub fn chars_of(s: &str) -> (chars: Vec<char>)
    ensures
        chars@ == s@,
{
    let mut chars: Vec<char> = Vec::new();
    for c in it: s.chars()
        invariant
            chars@ == it.seq().take(it.index()),
            it.seq() == s@,
    {
        chars.push(c);
    }
    chars
}

/// Unicode white space: the characters that separate the words of a control
/// file and that trimming removes.
pub open spec fn is_space(c: char) -> bool {
    let u = c as u32;
    ||| 0x09 <= u <= 0x0D
    ||| u == 0x20
    ||| u == 0x85
    ||| u == 0xA0
    ||| u == 0x1680
    ||| 0x2000 <= u <= 0x200A
    ||| u == 0x2028
    ||| u == 0x2029
    ||| u == 0x202F
    ||| u == 0x205F
    ||| u == 0x3000
}

/// Executable form of [`is_space`].
pub fn is_space_char(c: char) -> (yes: bool)
    ensures
        yes == is_space(c),
{
    let u: u32 = c as u32;
    (0x09 <= u && u <= 0x0D) || u == 0x20 || u == 0x85 || u == 0xA0 || u == 0x1680 || (0x2000 <= u
        && u <= 0x200A) || u == 0x2028 || u == 0x2029 || u == 0x202F || u == 0x205F || u == 0x3000
}

/// A string with nothing but white space in it (the empty string included).
pub open spec fn is_blank(s: Seq<char>) -> bool {
    forall|i: int| 0 <= i < s.len() ==> is_space(#[trigger] s[i])
}

/// First position at or after `i` that does not hold white space, or the
/// length of `s` if there is none.
pub open spec fn skip_spaces(s: Seq<char>, i: int) -> int
    decreases s.len() - i,
{
    if 0 <= i < s.len() && is_space(s[i]) {
        skip_spaces(s, i + 1)
    } else {
        i
    }
}

/// First position at or after `i` that holds white space, or the length of
/// `s` if there is none.
pub open spec fn word_end(s: Seq<char>, i: int) -> int
    decreases s.len() - i,
{
    if 0 <= i < s.len() && !is_space(s[i]) {
        word_end(s, i + 1)
    } else {
        i
    }
}

/// The white-space separated words of `s` that start at or after `i`.
pub open spec fn words_from(s: Seq<char>, i: int) -> Seq<Seq<char>>
    decreases s.len() - i,
{
    let start = skip_spaces(s, i);
    if 0 <= i && start < s.len() {
        let end = word_end(s, start);
        proof {
            lemma_skip_spaces_bounds(s, i);
            lemma_word_end_bounds(s, start);
        }
        seq![s.subrange(start, end)] + words_from(s, end)
    } else {
        Seq::empty()
    }
}

/// The white-space separated words of `s`, in order.  Leading, trailing and
/// repeated white space produce no empty words.
pub open spec fn words(s: Seq<char>) -> Seq<Seq<char>> {
    words_from(s, 0)
}

/// What [`skip_spaces`] finds: a position within the text, with white space
/// all the way up to it and none at it.
pub proof fn lemma_skip_spaces_bounds(s: Seq<char>, i: int)
    requires
        0 <= i <= s.len(),
    ensures
        i <= skip_spaces(s, i) <= s.len(),
        forall|j: int| i <= j < skip_spaces(s, i) ==> is_space(#[trigger] s[j]),
        skip_spaces(s, i) < s.len() ==> !is_space(s[skip_spaces(s, i)]),
    decreases s.len() - i,
{
    if i < s.len() && is_space(s[i]) {
        lemma_skip_spaces_bounds(s, i + 1);
    }
}

/// What [`word_end`] finds: a position within the text, with no white space
/// all the way up to it and white space, or the end, at it.
pub proof fn lemma_word_end_bounds(s: Seq<char>, i: int)
    requires
        0 <= i <= s.len(),
    ensures
        i <= word_end(s, i) <= s.len(),
        forall|j: int| i <= j < word_end(s, i) ==> !is_space(#[trigger] s[j]),
        word_end(s, i) < s.len() ==> is_space(s[word_end(s, i)]),
        i < s.len() && !is_space(s[i]) ==> word_end(s, i) > i,
    decreases s.len() - i,
{
    if i < s.len() && !is_space(s[i]) {
        lemma_word_end_bounds(s, i + 1);
    }
}

/// A string has no words exactly when it is blank.
pub proof fn lemma_no_words_iff_blank(s: Seq<char>)
    ensures
        words(s).len() == 0 <==> is_blank(s),
{
    lemma_skip_spaces_bounds(s, 0);
    let start = skip_spaces(s, 0);
    if start < s.len() {
        lemma_word_end_bounds(s, start);
    }
}

/// A word: at least one character, none of them white space.
pub open spec fn is_word(t: Seq<char>) -> bool {
    &&& t.len() > 0
    &&& forall|j: int| 0 <= j < t.len() ==> !is_space(#[trigger] t[j])
}

/// Every word that splitting produces is a word.
pub proof fn lemma_words_are_words(s: Seq<char>, i: int)
    requires
        0 <= i <= s.len(),
    ensures
        forall|k: int| 0 <= k < words_from(s, i).len() ==> is_word(#[trigger] words_from(s, i)[k]),
    decreases s.len() - i,
{
    lemma_skip_spaces_bounds(s, i);
    let start = skip_spaces(s, i);
    if start < s.len() {
        lemma_word_end_bounds(s, start);
        let end = word_end(s, start);
        lemma_words_are_words(s, end);
        let first = s.subrange(start, end);
        assert(is_word(first));
        assert forall|k: int| 0 <= k < words_from(s, i).len() implies is_word(
            #[trigger] words_from(s, i)[k],
        ) by {
            if k > 0 {
                assert(words_from(s, i)[k] == words_from(s, end)[k - 1]);
            }
        }
    }
}

/// The position that [`skip_spaces`] finds is the only one with white space
/// all the way up to it and none at it.
pub proof fn lemma_skip_spaces_unique(s: Seq<char>, i: int, r: int)
    requires
        0 <= i <= r <= s.len(),
        forall|j: int| i <= j < r ==> is_space(#[trigger] s[j]),
        r < s.len() ==> !is_space(s[r]),
    ensures
        skip_spaces(s, i) == r,
    decreases r - i,
{
    if i < r {
        lemma_skip_spaces_unique(s, i + 1, r);
    }
}

/// The position that [`word_end`] finds is the only one with no white space
/// all the way up to it and white space, or the end, at it.
pub proof fn lemma_word_end_unique(s: Seq<char>, i: int, r: int)
    requires
        0 <= i <= r <= s.len(),
        forall|j: int| i <= j < r ==> !is_space(#[trigger] s[j]),
        r < s.len() ==> is_space(s[r]),
    ensures
        word_end(s, i) == r,
    decreases r - i,
{
    if i < r {
        lemma_word_end_unique(s, i + 1, r);
    }
}

/// A word on its own splits into itself.
pub proof fn lemma_words_of_word(t: Seq<char>)
    requires
        is_word(t),
    ensures
        words(t) == seq![t],
{
    lemma_skip_spaces_unique(t, 0, 0);
    lemma_word_end_unique(t, 0, t.len() as int);
    lemma_skip_spaces_unique(t, t.len() as int, t.len() as int);
    assert(t.subrange(0, t.len() as int) =~= t);
    assert(words_from(t, t.len() as int) =~= Seq::<Seq<char>>::empty());
}

/// Appending a space and a word to any text appends that word to the words
/// of the text, from whatever position the splitting starts.
pub proof fn lemma_words_append(a: Seq<char>, t: Seq<char>, i: int)
    requires
        is_word(t),
        0 <= i <= a.len(),
    ensures
        words_from(a + seq![' '] + t, i) == words_from(a, i).push(t),
    decreases a.len() - i,
{
    let whole = a + seq![' '] + t;
    let n = a.len() as int;
    assert forall|j: int| 0 <= j < n implies #[trigger] whole[j] == a[j] by {}
    assert forall|j: int| n < j < whole.len() implies !is_space(#[trigger] whole[j]) by {
        assert(whole[j] == t[j - n - 1]);
    }
    lemma_skip_spaces_bounds(a, i);
    let start = skip_spaces(a, i);
    if start < n {
        lemma_skip_spaces_unique(whole, i, start);
        lemma_word_end_bounds(a, start);
        let end = word_end(a, start);
        lemma_word_end_unique(whole, start, end);
        lemma_words_append(a, t, end);
        assert(whole.subrange(start, end) =~= a.subrange(start, end));
    } else {
        lemma_skip_spaces_unique(whole, i, n + 1);
        lemma_word_end_unique(whole, n + 1, whole.len() as int);
        lemma_skip_spaces_unique(whole, whole.len() as int, whole.len() as int);
        assert(whole.subrange(n + 1, whole.len() as int) =~= t);
        assert(words_from(whole, whole.len() as int) =~= Seq::<Seq<char>>::empty());
    }
}

/// Position of the first line feed at or after `i`, or the length of `s` if
/// no line feed follows.
pub open spec fn line_end(s: Seq<char>, i: int) -> int
    decreases s.len() - i,
{
    if 0 <= i < s.len() && s[i] != '\n' {
        line_end(s, i + 1)
    } else {
        i
    }
}

/// The line of `s` that starts at `start`, without its terminator.  A line
/// ends at a line feed or at the end of the text; a carriage return directly
/// before the line feed belongs to the terminator.
pub open spec fn line_at(s: Seq<char>, start: int) -> Seq<char> {
    let end = line_end(s, start);
    if start < end < s.len() && s[end - 1] == '\r' {
        s.subrange(start, end - 1)
    } else {
        s.subrange(start, end)
    }
}

/// What [`line_end`] finds: a position within the text, with no line feed
/// all the way up to it and a line feed, or the end, at it.
pub proof fn lemma_line_end_bounds(s: Seq<char>, i: int)
    requires
        0 <= i <= s.len(),
    ensures
        i <= line_end(s, i) <= s.len(),
        forall|j: int| i <= j < line_end(s, i) ==> #[trigger] s[j] != '\n',
        line_end(s, i) < s.len() ==> s[line_end(s, i)] == '\n',
    decreases s.len() - i,
{
    if i < s.len() && s[i] != '\n' {
        lemma_line_end_bounds(s, i + 1);
    }
}

/// `s` with every leading repetition of `prefix` removed.
pub open spec fn strip_repeated_prefix(s: Seq<char>, prefix: Seq<char>) -> Seq<char>
    decreases s.len(),
{
    if prefix.len() > 0 && prefix.is_prefix_of(s) {
        strip_repeated_prefix(s.skip(prefix.len() as int), prefix)
    } else {
        s
    }
}

/// Finds where the line starting at `start` ends.
pub(crate) fn find_line_end(chars: &Vec<char>, start: usize) -> (end: usize)
    requires
        start <= chars.len(),
    ensures
        end == line_end(chars@, start as int),
        start <= end <= chars.len(),
{
    let mut end = start;
    while end < chars.len() && chars[end] != '\n'
        invariant
            start <= end <= chars.len(),
            line_end(chars@, end as int) == line_end(chars@, start as int),
        decreases chars.len() - end,
    {
        end += 1;
    }
    end
}

/// Whether the characters of `chars` from `from` up to `to` begin with
/// `prefix`.
pub(crate) fn has_prefix_at(
    chars: &Vec<char>,
    from: usize,
    to: usize,
    prefix: &Vec<char>,
) -> (yes: bool)
    requires
        from <= to <= chars.len(),
    ensures
        yes == prefix@.is_prefix_of(chars@.subrange(from as int, to as int)),
{
    let ghost window = chars@.subrange(from as int, to as int);
    if prefix.len() > to - from {
        return false;
    }
    let mut k: usize = 0;
    while k < prefix.len()
        invariant
            k <= prefix.len() <= to - from,
            from <= to <= chars.len(),
            window == chars@.subrange(from as int, to as int),
            forall|j: int| 0 <= j < k ==> prefix@[j] == window[j],
        decreases prefix.len() - k,
    {
        if chars[from + k] != prefix[k] {
            return false;
        }
        k += 1;
    }
    true
}

/// Finds the first position at or after `from` that is not white space.
pub(crate) fn find_word_start(chars: &Vec<char>, from: usize) -> (start: usize)
    requires
        from <= chars.len(),
    ensures
        start == skip_spaces(chars@, from as int),
        from <= start <= chars.len(),
{
    let mut start = from;
    while start < chars.len() && is_space_char(chars[start])
        invariant
            from <= start <= chars.len(),
            skip_spaces(chars@, start as int) == skip_spaces(chars@, from as int),
        decreases chars.len() - start,
    {
        start += 1;
    }
    start
}

/// Finds the first position at or after `from` that is white space.
pub(crate) fn find_word_end(chars: &Vec<char>, from: usize) -> (end: usize)
    requires
        from <= chars.len(),
    ensures
        end == word_end(chars@, from as int),
        from <= end <= chars.len(),
{
    let mut end = from;
    while end < chars.len() && !is_space_char(chars[end])
        invariant
            from <= end <= chars.len(),
            word_end(chars@, end as int) == word_end(chars@, from as int),
        decreases chars.len() - end,
    {
        end += 1;
    }
    end
}

/// Whether a NUL character occurs in `s`.  Such a string cannot be handed to
/// the system as a path or an argument.
pub open spec fn has_nul(s: Seq<char>) -> bool {
    exists|i: int| 0 <= i < s.len() && s[i] == '\0'
}

/// Executable form of [`has_nul`].
pub fn contains_nul(s: &str) -> (yes: bool)
    ensures
        yes == has_nul(s@),
{
    let chars = chars_of(s);
    let mut i: usize = 0;
    while i < chars.len()
        invariant
            chars@ == s@,
            i <= chars.len(),
            forall|j: int| 0 <= j < i ==> chars@[j] != '\0',
        decreases chars.len() - i,
    {
        if chars[i] == '\0' {
            return true;
        }
        i += 1;
    }
    false
}

} // verus!
