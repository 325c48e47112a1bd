//! Text as a sequence of characters: lines, words and decimal numerals.

use vstd::prelude::*;
use vstd::slice::slice_subrange;

verus! {

/// White space, as Unicode defines it.
pub open spec fn is_space(c: char) -> bool {
    let n = c as u32;
    ||| 0x09 <= n <= 0x0D
    ||| n == 0x20
    ||| n == 0x85
    ||| n == 0xA0
    ||| n == 0x1680
    ||| 0x2000 <= n <= 0x200A
    ||| n == 0x2028
    ||| n == 0x2029
    ||| n == 0x202F
    ||| n == 0x205F
    ||| n == 0x3000
}

/// A set of characters that a scan runs over.
#[derive(Clone, Copy, Debug, PartialEq, Eq, Structural)]
pub enum Class {
    /// White space.
    Space,
    /// Everything but white space.
    Word,
    /// Everything but the one character.
    Except(char),
}

impl Class {
    /// Whether `c` belongs to the class.
    pub open spec fn holds(self, c: char) -> bool {
        match self {
            Class::Space => is_space(c),
            Class::Word => !is_space(c),
            Class::Except(stop) => c != stop,
        }
    }

    /// Whether `c` belongs to the class.
    pub fn contains(self, c: char) -> (r: bool)
        ensures
            r == self.holds(c),
    {
        match self {
            Class::Space => is_whitespace(c),
            Class::Word => !is_whitespace(c),
            Class::Except(stop) => c != stop,
        }
    }
}

/// The length of the longest prefix of `s` whose characters all belong to
/// `class`.
pub open spec fn run_length(s: Seq<char>, class: Class) -> nat
    decreases s.len(),
{
    if s.len() > 0 && class.holds(s[0]) {
        1 + run_length(s.skip(1), class)
    } else {
        0
    }
}

/// The lines of a text: the pieces between its line feeds.
pub open spec fn lines(text: Seq<char>) -> Seq<Seq<char>>
    decreases text.len(),
{
    let n = run_length(text, Class::Except('\n'));
    if n < text.len() {
        seq![text.take(n as int)] + lines(text.skip(n as int + 1))
    } else {
        seq![text]
    }
}

/// The words of a text: its longest runs of characters that are not white
/// space, in order.
pub open spec fn words(s: Seq<char>) -> Seq<Seq<char>>
    decreases s.len(),
{
    let start = run_length(s, Class::Space);
    let stop = start + run_length(s.skip(start as int), Class::Word);
    if start < stop <= s.len() {
        seq![s.subrange(start as int, stop as int)] + words(s.skip(stop as int))
    } else {
        Seq::empty()
    }
}

/// Whether `c` is one of the ten decimal digits.
pub open spec fn is_digit(c: char) -> bool {
    '0' <= c <= '9'
}

/// Whether `s` holds decimal digits only.
pub open spec fn all_digits(s: Seq<char>) -> bool {
    forall|i: int| 0 <= i < s.len() ==> is_digit(#[trigger] s[i])
}

/// The number that a run of decimal digits stands for.
pub open spec fn decimal(s: Seq<char>) -> nat
    decreases s.len(),
{
    if s.len() == 0 {
        0
    } else {
        decimal(s.drop_last()) * 10 + (s.last() as u32 - '0' as u32) as nat
    }
}

/// What follows the sign of a numeral, or the numeral itself where it has
/// none. A minus sign counts only where `signed` is set.
pub open spec fn digits_of(s: Seq<char>, signed: bool) -> Seq<char> {
    if s.len() > 0 && (s[0] == '+' || (signed && s[0] == '-')) {
        s.skip(1)
    } else {
        s
    }
}

/// The value of an unsigned decimal literal: an optional plus sign and at
/// least one digit, standing for a number that is at most `max`. Anything
/// else is no literal.
pub open spec fn unsigned_literal(s: Seq<char>, max: nat) -> Option<nat> {
    let digits = digits_of(s, false);
    if digits.len() > 0 && all_digits(digits) && decimal(digits) <= max {
        Some(decimal(digits))
    } else {
        None
    }
}

/// The value of a signed decimal literal: an optional sign and at least
/// one digit, standing for a number from `-limit - 1` to `limit`. Anything
/// else is no literal.
pub open spec fn signed_literal(s: Seq<char>, limit: nat) -> Option<int> {
    let digits = digits_of(s, true);
    let negative = s.len() > 0 && s[0] == '-';
    let value = if negative {
        -(decimal(digits) as int)
    } else {
        decimal(digits) as int
    };
    if digits.len() > 0 && all_digits(digits) && -limit - 1 <= value <= limit {
        Some(value)
    } else {
        None
    }
}

/// The views of a sequence of slices.
pub open spec fn views(v: Seq<&[char]>) -> Seq<Seq<char>> {
    Seq::new(v.len(), |i: int| v[i]@)
}

/// A run ends inside the text, holds members of the class only, and is
/// followed by none.
pub proof fn lemma_run_length(s: Seq<char>, class: Class)
    ensures
        run_length(s, class) <= s.len(),
        forall|i: int| 0 <= i < run_length(s, class) ==> class.holds(#[trigger] s[i]),
        run_length(s, class) < s.len() ==> !class.holds(s[run_length(s, class) as int]),
    decreases s.len(),
{
    if s.len() > 0 && class.holds(s[0]) {
        let rest = s.skip(1);
        lemma_run_length(rest, class);
        assert forall|i: int| 0 <= i < run_length(s, class) implies class.holds(#[trigger] s[i]) by {
            if i > 0 {
                assert(s[i] == rest[i - 1]);
            }
        }
    }
}

/// A prefix of members of the class that no member follows is the run.
pub proof fn lemma_run_length_is(s: Seq<char>, class: Class, n: nat)
    requires
        n <= s.len(),
        forall|i: int| 0 <= i < n ==> class.holds(#[trigger] s[i]),
        n < s.len() ==> !class.holds(s[n as int]),
    ensures
        run_length(s, class) == n,
    decreases n,
{
    if n > 0 {
        lemma_run_length_is(s.skip(1), class, (n - 1) as nat);
    }
}

/// The pieces of a text put together again, a line feed between each two.
pub open spec fn joined(pieces: Seq<Seq<char>>) -> Seq<char>
    decreases pieces.len(),
{
    if pieces.len() == 0 {
        Seq::empty()
    } else if pieces.len() == 1 {
        pieces[0]
    } else {
        pieces[0] + seq!['\n'] + joined(pieces.skip(1))
    }
}

/// A text has at least one line, no line holds a line feed, and the lines
/// joined by line feeds are the text.
pub proof fn lemma_lines(text: Seq<char>)
    ensures
        lines(text).len() >= 1,
        forall|i: int, j: int|
            0 <= i < lines(text).len() && 0 <= j < lines(text)[i].len() ==> lines(text)[i][j]
                != '\n',
        joined(lines(text)) == text,
    decreases text.len(),
{
    let n = run_length(text, Class::Except('\n'));
    lemma_run_length(text, Class::Except('\n'));
    if n < text.len() {
        let rest = text.skip(n as int + 1);
        lemma_lines(rest);
        assert(lines(text).skip(1) =~= lines(rest));
    }
}

/// No word is empty, and no word holds white space.
pub proof fn lemma_words(s: Seq<char>)
    ensures
        forall|i: int| 0 <= i < words(s).len() ==> (#[trigger] words(s)[i]).len() > 0,
        forall|i: int, j: int|
            0 <= i < words(s).len() && 0 <= j < words(s)[i].len() ==> !is_space(words(s)[i][j]),
    decreases s.len(),
{
    let start = run_length(s, Class::Space);
    let tail = s.skip(start as int);
    let stop = start + run_length(tail, Class::Word);
    lemma_run_length(s, Class::Space);
    if start < stop <= s.len() {
        let rest = s.skip(stop as int);
        lemma_words(rest);
        lemma_run_length(tail, Class::Word);
        assert(words(s) == seq![s.subrange(start as int, stop as int)] + words(rest));
    }
}

/// The number that a run of digits stands for is at least the number that
/// any prefix of it stands for.
pub proof fn lemma_decimal_prefix(s: Seq<char>, n: nat)
    requires
        n <= s.len(),
        all_digits(s),
    ensures
        decimal(s.take(n as int)) <= decimal(s),
    decreases s.len(),
{
    if n < s.len() {
        let init = s.drop_last();
        lemma_decimal_prefix(init, n);
        assert(init.take(n as int) =~= s.take(n as int));
    } else {
        assert(s.take(n as int) =~= s);
    }
}

/// The characters of a string, in order.
pub fn characters(text: &str) -> (chars: Vec<char>)
    ensures
        chars@ == text@,
{
    let mut chars: Vec<char> = Vec::new();
    for c in it: text.chars()
        invariant
            chars@ == it.seq().take(it.index() as int),
    {
        chars.push(c);
    }
    chars
}

/// Whether a character is white space.
pub fn is_whitespace(c: char) -> (r: bool)
    ensures
        r == is_space(c),
{
    let n = c as u32;
    (0x09 <= n && n <= 0x0D) || n == 0x20 || n == 0x85 || n == 0xA0 || n == 0x1680 || (0x2000 <= n
        && n <= 0x200A) || n == 0x2028 || n == 0x2029 || n == 0x202F || n == 0x205F || n == 0x3000
}

/// The index at which the run of members of `class` that starts at `from`
/// ends.
pub fn scan(s: &[char], from: usize, class: Class) -> (to: usize)
    requires
        from <= s@.len(),
    ensures
        to == from + run_length(s@.skip(from as int), class),
        from <= to <= s@.len(),
{
    let mut to = from;
    while to < s.len() && class.contains(s[to])
        invariant
            from <= to <= s@.len(),
            forall|i: int| from <= i < to ==> class.holds(#[trigger] s@[i]),
        decreases s@.len() - to,
    {
        to = to + 1;
    }
    proof {
        lemma_run_length_is(s@.skip(from as int), class, (to - from) as nat);
    }
    to
}

/// Splits a text into its words.
pub fn split_words(s: &[char]) -> (found: Vec<&[char]>)
    ensures
        views(found@) == words(s@),
{
    let mut found: Vec<&[char]> = Vec::new();
    let mut at: usize = 0;
    assert(s@.skip(0) =~= s@);
    loop
        invariant
            at <= s@.len(),
            views(found@) + words(s@.skip(at as int)) == words(s@),
        ensures
            views(found@) == words(s@),
        decreases s@.len() - at,
    {
        let start = scan(s, at, Class::Space);
        let ghost tail = s@.skip(at as int);
        proof {
            assert(tail.skip(start - at) =~= s@.skip(start as int));
        }
        if start >= s.len() {
            proof {
                lemma_run_length(tail.skip(start - at), Class::Word);
            }
            break ;
        }
        let stop = scan(s, start, Class::Word);
        let word = slice_subrange(s, start, stop);
        proof {
            lemma_run_length(tail, Class::Space);
            lemma_run_length(s@.skip(start as int), Class::Word);
            assert(tail.subrange(start - at, stop - at) =~= word@);
            assert(tail.skip(stop - at) =~= s@.skip(stop as int));
        }
        found.push(word);
        at = stop;
    }
    found
}

/// Whether a word is, character for character, the given name.
pub fn word_is(word: &[char], name: &str) -> (r: bool)
    ensures
        r == (word@ == name@),
{
    let mut same = true;
    let mut i: usize = 0;
    for c in it: name.chars()
        invariant
            same ==> i == it.index() && i <= word@.len(),
            same ==> forall|j: int| 0 <= j < i ==> word@[j] == it.seq()[j],
            !same ==> word@ != it.seq(),
    {
        if same {
            if i < word.len() && word[i] == c {
                i = i + 1;
            } else {
                same = false;
            }
        }
    }
    proof {
        if same && i == word@.len() {
            assert(word@ =~= name@);
        }
    }
    same && i == word.len()
}

/// Whether two words are the same, character for character.
pub fn same_word(a: &[char], b: &[char]) -> (r: bool)
    ensures
        r == (a@ == b@),
{
    if a.len() != b.len() {
        return false;
    }
    let mut i: usize = 0;
    while i < a.len()
        invariant
            i <= a@.len(),
            a@.len() == b@.len(),
            forall|j: int| 0 <= j < i ==> a@[j] == b@[j],
        decreases a@.len() - i,
    {
        if a[i] != b[i] {
            return false;
        }
        i = i + 1;
    }
    assert(a@ =~= b@);
    true
}

/// Whether a word ends in the given characters.
pub fn word_ends_with(word: &[char], suffix: &[char]) -> (r: bool)
    ensures
        r == (word@.len() >= suffix@.len() && word@.skip(word@.len() - suffix@.len()) == suffix@),
{
    if word.len() < suffix.len() {
        return false;
    }
    let tail = slice_subrange(word, word.len() - suffix.len(), word.len());
    same_word(tail, suffix)
}

/// Reads an unsigned decimal literal that stands for a number up to `max`.
pub fn parse_unsigned(s: &[char], max: u64) -> (r: Option<u64>)
    ensures
        match r {
            Some(v) => unsigned_literal(s@, max as nat) == Some(v as nat),
            None => unsigned_literal(s@, max as nat) is None,
        },
{
    let first: usize = if s.len() > 0 && s[0] == '+' {
        1
    } else {
        0
    };
    let digits = slice_subrange(s, first, s.len());
    assert(digits@ =~= digits_of(s@, false));
    parse_digits(digits, max)
}

/// Reads a run of at least one decimal digit that stands for a number up
/// to `max`.
pub fn parse_digits(digits: &[char], max: u64) -> (r: Option<u64>)
    ensures
        match r {
            Some(v) => digits@.len() > 0 && all_digits(digits@) && decimal(digits@) == v && v
                <= max,
            None => !(digits@.len() > 0 && all_digits(digits@) && decimal(digits@) <= max),
        },
{
    if digits.len() == 0 {
        return None;
    }
    let mut value: u64 = 0;
    let mut i: usize = 0;
    while i < digits.len()
        invariant
            i <= digits@.len(),
            all_digits(digits@.take(i as int)),
            value == decimal(digits@.take(i as int)),
            value <= max,
        decreases digits@.len() - i,
    {
        let c = digits[i];
        if !('0' <= c && c <= '9') {
            return None;
        }
        let d = (c as u32 - '0' as u32) as u64;
        proof {
            let next = digits@.take(i + 1);
            assert(next.drop_last() =~= digits@.take(i as int));
            if all_digits(digits@) {
                lemma_decimal_prefix(digits@, (i + 1) as nat);
            }
        }
        if d > max || value > (max - d) / 10 {
            return None;
        }
        value = value * 10 + d;
        i = i + 1;
    }
    assert(digits@.take(i as int) =~= digits@);
    Some(value)
}

/// Reads a signed decimal literal that stands for a number from
/// `-limit - 1` to `limit`. A number below zero comes back as the pair of
/// `true` and its distance from zero.
pub fn parse_signed(s: &[char], limit: u64) -> (r: Option<(bool, u64)>)
    requires
        limit < u64::MAX,
    ensures
        match r {
            Some((negative, magnitude)) => signed_literal(s@, limit as nat) == Some(
                if negative {
                    -(magnitude as int)
                } else {
                    magnitude as int
                },
            ) && (negative ==> magnitude > 0),
            None => signed_literal(s@, limit as nat) is None,
        },
{
    let negative = s.len() > 0 && s[0] == '-';
    let first: usize = if s.len() > 0 && (s[0] == '+' || s[0] == '-') {
        1
    } else {
        0
    };
    let digits = slice_subrange(s, first, s.len());
    assert(digits@ =~= digits_of(s@, true));
    let max = if negative {
        limit + 1
    } else {
        limit
    };
    match parse_digits(digits, max) {
        Some(magnitude) => Some((negative && magnitude > 0, magnitude)),
        None => None,
    }
}

} // verus!
