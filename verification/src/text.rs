//! Text as sequences of characters: whitespace, tokens, lines and
//! substrings.

use vstd::prelude::*;

verus! {

/// Whether `c` is whitespace: one of the characters that Unicode lists as
/// `White_Space`.
pub open spec fn whitespace(c: char) -> bool {
    let n = c as u32;
    ||| 0x09 <= n <= 0x0d
    ||| n == 0x20
    ||| n == 0x85
    ||| n == 0xa0
    ||| n == 0x1680
    ||| 0x2000 <= n <= 0x200a
    ||| n == 0x2028
    ||| n == 0x2029
    ||| n == 0x202f
    ||| n == 0x205f
    ||| n == 0x3000
}

/// Whether `s` holds nothing but whitespace.
pub open spec fn blank(s: Seq<char>) -> bool {
    forall|i: int| 0 <= i < s.len() ==> whitespace(#[trigger] s[i])
}

/// The end of the run that starts at `from`: the first index at or after
/// `from` whose character is not of the kind `white` (whitespace or not), or
/// the length of `s` where the run reaches the end.
pub open spec fn run_end(s: Seq<char>, from: int, white: bool) -> int
    decreases s.len() - from,
{
    if 0 <= from < s.len() && whitespace(s[from]) == white {
        run_end(s, from + 1, white)
    } else {
        from
    }
}

/// The tokens of `s` that start at or after `from`: skip whitespace, take
/// the run of other characters, and go on behind it.
pub open spec fn tokens_from(s: Seq<char>, from: int) -> Seq<Seq<char>>
    decreases s.len() - from,
{
    let start = run_end(s, from, true);
    if 0 <= from && start < s.len() {
        let end = run_end(s, start, false);
        proof {
            lemma_run_end(s, from, true);
            lemma_run_end(s, start + 1, false);
        }
        seq![s.subrange(start, end)] + tokens_from(s, end)
    } else {
        Seq::empty()
    }
}

/// The whitespace-separated tokens of `s`, in order: its maximal runs of
/// characters that are not whitespace.
pub open spec fn tokens(s: Seq<char>) -> Seq<Seq<char>> {
    tokens_from(s, 0)
}

/// Whether `word` holds at least one character and no whitespace.
pub open spec fn is_word(word: Seq<char>) -> bool {
    word.len() > 0 && forall|i: int| 0 <= i < word.len() ==> !whitespace(#[trigger] word[i])
}

/// The index of the first line feed at or after `from`, or the length of
/// `s` where none follows.
pub open spec fn line_end(s: Seq<char>, from: int) -> int
    decreases s.len() - from,
{
    if 0 <= from < s.len() && s[from] != '\n' {
        line_end(s, from + 1)
    } else {
        from
    }
}

/// The text of the line that starts at `start` and whose line feed, if it
/// has one, stands at `end`: a carriage return just before the line feed
/// belongs to the line ending, one at the end of the text to the line.
pub open spec fn line_text(s: Seq<char>, start: int, end: int) -> Seq<char> {
    if start < end < s.len() && s[end - 1] == '\r' {
        s.subrange(start, end - 1)
    } else {
        s.subrange(start, end)
    }
}

/// The lines of `s` that start at or after `from`.
pub open spec fn lines_from(s: Seq<char>, from: int) -> Seq<Seq<char>>
    decreases s.len() - from,
{
    if 0 <= from < s.len() {
        let end = line_end(s, from);
        proof {
            lemma_line_end(s, from);
        }
        seq![line_text(s, from, end)] + if end < s.len() {
            lines_from(s, end + 1)
        } else {
            Seq::empty()
        }
    } else {
        Seq::empty()
    }
}

/// The lines of `s`, in order and without their line endings. A line ends
/// with a line feed or with a carriage return and a line feed; the last
/// line may end with the text. An empty text has no line.
pub open spec fn lines(s: Seq<char>) -> Seq<Seq<char>> {
    lines_from(s, 0)
}

/// Whether `pat` stands in `s` at index `at`.
pub open spec fn occurs_at(s: Seq<char>, pat: Seq<char>, at: int) -> bool {
    &&& 0 <= at
    &&& at + pat.len() <= s.len()
    &&& s.subrange(at, at + pat.len()) == pat
}

/// Whether `pat` stands somewhere in `s`.
pub open spec fn occurs_in(s: Seq<char>, pat: Seq<char>) -> bool {
    exists|at: int| occurs_at(s, pat, at)
}

/// The decimal digit for `d`.
pub open spec fn digit(d: nat) -> char {
    if d == 0 {
        '0'
    } else if d == 1 {
        '1'
    } else if d == 2 {
        '2'
    } else if d == 3 {
        '3'
    } else if d == 4 {
        '4'
    } else if d == 5 {
        '5'
    } else if d == 6 {
        '6'
    } else if d == 7 {
        '7'
    } else if d == 8 {
        '8'
    } else {
        '9'
    }
}

/// The number `n` written in decimal digits, without leading zeros.
pub open spec fn decimal(n: nat) -> Seq<char>
    decreases n,
{
    if n < 10 {
        seq![digit(n)]
    } else {
        decimal(n / 10).push(digit(n % 10))
    }
}

/// What each of the strings in `v` holds.
pub open spec fn texts(v: Seq<String>) -> Seq<Seq<char>> {
    v.map_values(|s: String| s@)
}

/// A run ends between its start and the end of the text, holds only
/// characters of its kind, and stops before a character of the other kind.
pub proof fn lemma_run_end(s: Seq<char>, from: int, white: bool)
    requires
        0 <= from <= s.len(),
    ensures
        from <= run_end(s, from, white) <= s.len(),
        forall|i: int| from <= i < run_end(s, from, white) ==> whitespace(#[trigger] s[i]) == white,
        run_end(s, from, white) < s.len() ==> whitespace(s[run_end(s, from, white)]) != white,
    decreases s.len() - from,
{
    if from < s.len() && whitespace(s[from]) == white {
        lemma_run_end(s, from + 1, white);
    }
}

/// Every token is a word: it holds at least one character and no
/// whitespace.
pub proof fn lemma_tokens_are_words(s: Seq<char>, from: int)
    requires
        0 <= from <= s.len(),
    ensures
        forall|k: int| 0 <= k < tokens_from(s, from).len() ==> is_word(#[trigger] tokens_from(s, from)[k]),
    decreases s.len() - from,
{
    let start = run_end(s, from, true);
    lemma_run_end(s, from, true);
    if start < s.len() {
        let end = run_end(s, start, false);
        lemma_run_end(s, start, false);
        lemma_run_end(s, start + 1, false);
        lemma_tokens_are_words(s, end);
        let first = s.subrange(start, end);
        assert forall|i: int| 0 <= i < first.len() implies !whitespace(#[trigger] first[i]) by {
            assert(first[i] == s[start + i]);
        }
        assert(is_word(first));
        assert forall|k: int| 0 <= k < tokens_from(s, from).len() implies is_word(
            #[trigger] tokens_from(s, from)[k],
        ) by {
            if k > 0 {
                assert(tokens_from(s, from)[k] == tokens_from(s, end)[k - 1]);
            }
        }
    }
}

/// A text has no token exactly if it is blank.
pub proof fn lemma_blank_has_no_token(s: Seq<char>)
    ensures
        tokens(s).len() == 0 <==> blank(s),
{
    lemma_run_end(s, 0, true);
}

/// A line ends between its start and the end of the text, at the first line
/// feed there is.
pub proof fn lemma_line_end(s: Seq<char>, from: int)
    requires
        0 <= from <= s.len(),
    ensures
        from <= line_end(s, from) <= s.len(),
        forall|i: int| from <= i < line_end(s, from) ==> #[trigger] s[i] != '\n',
        line_end(s, from) < s.len() ==> s[line_end(s, from)] == '\n',
    decreases s.len() - from,
{
    if from < s.len() && s[from] != '\n' {
        lemma_line_end(s, from + 1);
    }
}

/// No line holds a line feed.
pub proof fn lemma_lines_hold_no_line_feed(s: Seq<char>, from: int)
    requires
        0 <= from <= s.len(),
    ensures
        forall|k: int, i: int|
            0 <= k < lines_from(s, from).len() && 0 <= i < lines_from(s, from)[k].len() ==> (
            #[trigger] lines_from(s, from)[k][i]) != '\n',
    decreases s.len() - from,
{
    if from < s.len() {
        let end = line_end(s, from);
        lemma_line_end(s, from);
        let first = line_text(s, from, end);
        let rest = if end < s.len() {
            lines_from(s, end + 1)
        } else {
            Seq::empty()
        };
        if end < s.len() {
            lemma_lines_hold_no_line_feed(s, end + 1);
        }
        assert forall|k: int, i: int|
            0 <= k < lines_from(s, from).len() && 0 <= i < lines_from(s, from)[k].len() implies (
        #[trigger] lines_from(s, from)[k][i]) != '\n' by {
            if k == 0 {
                assert(first[i] == s[from + i]);
            } else {
                assert(lines_from(s, from)[k] == rest[k - 1]);
            }
        }
    }
}

/// The texts of a list with one more string are the texts of the list with
/// that string's text behind them.
pub proof fn lemma_texts_push(v: Seq<String>, s: String)
    ensures
        texts(v.push(s)) == texts(v).push(s@),
{
    assert(texts(v.push(s)) =~= texts(v).push(s@));
}

/// Tells whether `c` is whitespace.
pub fn is_whitespace(c: char) -> (white: bool)
    ensures
        white == whitespace(c),
{
    let n: u32 = c as u32;
    (0x09 <= n && n <= 0x0d) || n == 0x20 || n == 0x85 || n == 0xa0 || n == 0x1680 || (0x2000 <= n
        && n <= 0x200a) || n == 0x2028 || n == 0x2029 || n == 0x202f || n == 0x205f || n == 0x3000
}

/// The characters of `s`, one by one.
pub fn chars_of(s: &str) -> (chars: Vec<char>)
    ensures
        chars@ == s@,
{
    let mut chars: Vec<char> = Vec::new();
    for c in it: s.chars()
        invariant
            it.seq() == s@,
            chars@ == s@.take(it.index()),
    {
        chars.push(c);
    }
    chars
}

/// Finds the end of the run of `white` characters that starts at `from`.
fn skip_run(chars: &Vec<char>, from: usize, white: bool) -> (end: usize)
    requires
        from <= chars.len(),
    ensures
        end == run_end(chars@, from as int, white),
        from <= end <= chars.len(),
{
    let mut end: usize = from;
    while end < chars.len() && is_whitespace(chars[end]) == white
        invariant
            from <= end <= chars.len(),
            run_end(chars@, from as int, white) == run_end(chars@, end as int, white),
        decreases chars.len() - end,
    {
        end += 1;
    }
    end
}

/// Splits `s` at whitespace into its tokens, in order. A string of
/// whitespace alone, or an empty one, has none.
pub fn split_whitespace(s: &str) -> (words: Vec<String>)
    ensures
        texts(words@) == tokens(s@),
{
    let chars = chars_of(s);
    let mut words: Vec<String> = Vec::new();
    let mut at: usize = 0;
    loop
        invariant
            chars@ == s@,
            at <= chars.len(),
            texts(words@) + tokens_from(chars@, at as int) == tokens(chars@),
        ensures
            texts(words@) == tokens(chars@),
        decreases chars.len() - at,
    {
        let start = skip_run(&chars, at, true);
        if start >= chars.len() {
            break;
        }
        let end = skip_run(&chars, start, false);
        let word = String::from_str(s.substring_char(start, end));
        proof {
            lemma_run_end(chars@, at as int, true);
            lemma_run_end(chars@, start + 1, false);
            assert(texts(words@.push(word)) == texts(words@).push(word@));
        }
        words.push(word);
        at = end;
    }
    words
}

/// Finds the end of the line that starts at `from`.
fn skip_line(chars: &Vec<char>, from: usize) -> (end: usize)
    requires
        from <= chars.len(),
    ensures
        end == line_end(chars@, from as int),
        from <= end <= chars.len(),
{
    let mut end: usize = from;
    while end < chars.len() && chars[end] != '\n'
        invariant
            from <= end <= chars.len(),
            line_end(chars@, from as int) == line_end(chars@, end as int),
        decreases chars.len() - end,
    {
        end += 1;
    }
    end
}

/// Splits `s` into its lines, in order and without their line endings.
pub fn split_lines(s: &str) -> (found: Vec<String>)
    ensures
        texts(found@) == lines(s@),
{
    let chars = chars_of(s);
    let mut found: Vec<String> = Vec::new();
    let mut at: usize = 0;
    while at < chars.len()
        invariant
            chars@ == s@,
            at <= chars.len(),
            texts(found@) + lines_from(chars@, at as int) == lines(chars@),
        decreases chars.len() - at,
    {
        let end = skip_line(&chars, at);
        let stop = if at < end && end < chars.len() && chars[end - 1] == '\r' {
            end - 1
        } else {
            end
        };
        let line = String::from_str(s.substring_char(at, stop));
        proof {
            assert(texts(found@.push(line)) == texts(found@).push(line@));
        }
        found.push(line);
        at = if end < chars.len() {
            end + 1
        } else {
            end
        };
    }
    found
}

/// Tells whether `pat` stands in `chars` at index `at`.
fn matches_at(chars: &Vec<char>, pat: &Vec<char>, at: usize) -> (same: bool)
    requires
        at + pat.len() <= chars.len(),
    ensures
        same == occurs_at(chars@, pat@, at as int),
{
    let mut i: usize = 0;
    while i < pat.len()
        invariant
            at + pat.len() <= chars.len(),
            i <= pat.len(),
            chars@.subrange(at as int, at + i) == pat@.take(i as int),
        decreases pat.len() - i,
    {
        if chars[at + i] != pat[i] {
            proof {
                let whole = chars@.subrange(at as int, at + pat.len());
                assert(whole[i as int] != pat@[i as int]);
            }
            return false;
        }
        proof {
            assert(chars@.subrange(at as int, at + i + 1) == chars@.subrange(at as int, at + i).push(
                chars@[at + i],
            ));
            assert(pat@.take(i + 1) == pat@.take(i as int).push(pat@[i as int]));
        }
        i += 1;
    }
    proof {
        assert(pat@.take(pat.len() as int) == pat@);
    }
    true
}

/// Tells whether `s` starts with `pat`.
pub fn starts_with(s: &str, pat: &str) -> (found: bool)
    ensures
        found == pat@.is_prefix_of(s@),
{
    let chars = chars_of(s);
    let wanted = chars_of(pat);
    if wanted.len() > chars.len() {
        return false;
    }
    matches_at(&chars, &wanted, 0)
}

/// Tells whether `pat` stands somewhere in `s`.
pub fn contains(s: &str, pat: &str) -> (found: bool)
    ensures
        found == occurs_in(s@, pat@),
{
    let chars = chars_of(s);
    let wanted = chars_of(pat);
    if wanted.len() > chars.len() {
        return false;
    }
    let last: usize = chars.len() - wanted.len();
    let mut at: usize = 0;
    loop
        invariant
            chars@ == s@,
            wanted@ == pat@,
            last + wanted.len() == chars.len(),
            at <= last,
            forall|i: int| 0 <= i < at ==> !occurs_at(chars@, wanted@, i),
        decreases last - at,
    {
        if matches_at(&chars, &wanted, at) {
            return true;
        }
        if at == last {
            return false;
        }
        at += 1;
    }
}

/// The decimal digit for `d`, as a string.
fn digit_str(d: u32) -> (s: &'static str)
    requires
        d < 10,
    ensures
        s@ == seq![digit(d as nat)],
{
    proof {
        reveal_strlit("0");
        reveal_strlit("1");
        reveal_strlit("2");
        reveal_strlit("3");
        reveal_strlit("4");
        reveal_strlit("5");
        reveal_strlit("6");
        reveal_strlit("7");
        reveal_strlit("8");
        reveal_strlit("9");
    }
    let s = if d == 0 {
        "0"
    } else if d == 1 {
        "1"
    } else if d == 2 {
        "2"
    } else if d == 3 {
        "3"
    } else if d == 4 {
        "4"
    } else if d == 5 {
        "5"
    } else if d == 6 {
        "6"
    } else if d == 7 {
        "7"
    } else if d == 8 {
        "8"
    } else {
        "9"
    };
    assert(s@ =~= seq![digit(d as nat)]);
    s
}

/// Writes `n` in decimal digits.
pub fn to_decimal(n: u32) -> (s: String)
    ensures
        s@ == decimal(n as nat),
    decreases n,
{
    if n < 10 {
        String::from_str(digit_str(n))
    } else {
        let mut s = to_decimal(n / 10);
        s.append(digit_str(n % 10));
        s
    }
}

} // verus!
