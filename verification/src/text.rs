//! Text helpers: ASCII case folding, white space, words and decimal numbers.
use vstd::prelude::*;

verus! {

/// The lower-case form of an ASCII letter; every other character as it is.
pub open spec fn lower(c: char) -> char {
    if 'A' <= c && c <= 'Z' {
        ((c as u8) + 32) as char
    } else {
        c
    }
}

/// `text` with each ASCII letter in lower case.
pub open spec fn lowered(text: Seq<char>) -> Seq<char> {
    text.map_values(|c: char| lower(c))
}

/// `needle` stands in `hay` at offset `at`.
pub open spec fn stands_at(hay: Seq<char>, needle: Seq<char>, at: int) -> bool {
    0 <= at && at + needle.len() <= hay.len() && hay.subrange(at, at + needle.len()) == needle
}

/// `needle` stands somewhere in `hay`.
pub open spec fn holds(hay: Seq<char>, needle: Seq<char>) -> bool {
    exists|at: int| #[trigger] stands_at(hay, needle, at)
}

/// The characters with the Unicode `White_Space` property.
pub open spec fn white(c: char) -> bool {
    ||| '\u{9}' <= c && c <= '\u{d}'
    ||| c == ' '
    ||| c == '\u{85}'
    ||| c == '\u{a0}'
    ||| c == '\u{1680}'
    ||| '\u{2000}' <= c && c <= '\u{200a}'
    ||| c == '\u{2028}'
    ||| c == '\u{2029}'
    ||| c == '\u{202f}'
    ||| c == '\u{205f}'
    ||| c == '\u{3000}'
}

/// The control characters (general category `Cc`).
pub open spec fn control(c: char) -> bool {
    c <= '\u{1f}' || ('\u{7f}' <= c && c <= '\u{9f}')
}

/// The decimal digit `d`.
pub open spec fn digit(d: nat) -> char
    recommends
        d < 10,
{
    "0123456789"@[d as int]
}

/// `n` written in decimal, without leading zeros.
pub open spec fn decimal(n: nat) -> Seq<char>
    decreases n,
{
    if n < 10 {
        seq![digit(n)]
    } else {
        decimal(n / 10).push(digit(n % 10))
    }
}

/// Lower-cases an ASCII letter and leaves every other character alone.
pub fn ascii_lower(c: char) -> (r: char)
    ensures
        r == lower(c),
{
    if 'A' <= c && c <= 'Z' {
        ((c as u8) + 32) as char
    } else {
        c
    }
}

/// Whether `c` is white space.
pub fn is_white(c: char) -> (r: bool)
    ensures
        r == white(c),
{
    ('\u{9}' <= c && c <= '\u{d}') || c == ' ' || c == '\u{85}' || c == '\u{a0}' || c == '\u{1680}'
        || ('\u{2000}' <= c && c <= '\u{200a}') || c == '\u{2028}' || c == '\u{2029}' || c
        == '\u{202f}' || c == '\u{205f}' || c == '\u{3000}'
}

/// Whether `c` is a control character.
pub fn is_control(c: char) -> (r: bool)
    ensures
        r == control(c),
{
    c <= '\u{1f}' || ('\u{7f}' <= c && c <= '\u{9f}')
}

/// The characters of a string, for random access.
pub fn characters(s: &str) -> (v: Vec<char>)
    ensures
        v@ == s@,
{
    let mut v: Vec<char> = Vec::new();
    for c in it: s.chars()
        invariant
            it.seq() == s@,
            v@ == s@.take(it.index()),
    {
        v.push(c);
    }
    v
}

/// Whether `needle` stands at offset `at` once `hay` is folded to ASCII lower case.
fn stands_at_folded(hay: &Vec<char>, needle: &Vec<char>, at: usize) -> (r: bool)
    requires
        at + needle@.len() <= hay@.len(),
    ensures
        r == stands_at(lowered(hay@), needle@, at as int),
{
    let size: usize = hay.len();
    let mut k: usize = 0;
    while k < needle.len()
        invariant
            k <= needle@.len(),
            size == hay@.len(),
            at + needle@.len() <= size,
            forall|j: int| 0 <= j < k ==> lower(hay@[at + j]) == #[trigger] needle@[j],
        decreases needle@.len() - k,
    {
        if ascii_lower(hay[at + k]) != needle[k] {
            assert(lowered(hay@).subrange(at as int, at + needle@.len())[k as int] == lower(
                hay@[at + k],
            ));
            return false;
        }
        k = k + 1;
    }
    assert(lowered(hay@).subrange(at as int, at + needle@.len()) =~= needle@);
    true
}

/// Whether `hay`, folded to ASCII lower case, holds `needle`.
pub fn holds_folded(hay: &str, needle: &str) -> (r: bool)
    ensures
        r == holds(lowered(hay@), needle@),
{
    let text: Vec<char> = characters(hay);
    let word: Vec<char> = characters(needle);
    if word.len() > text.len() {
        return false;
    }
    let last: usize = text.len() - word.len();
    let mut at: usize = 0;
    loop
        invariant
            text@ == hay@,
            word@ == needle@,
            last + word@.len() == text@.len(),
            at <= last,
            forall|j: int| 0 <= j < at ==> !#[trigger] stands_at(lowered(text@), word@, j),
        decreases last - at,
    {
        if stands_at_folded(&text, &word, at) {
            return true;
        }
        if at == last {
            assert forall|j: int| !#[trigger] stands_at(lowered(text@), word@, j) by {
                if 0 <= j && j + word@.len() <= lowered(text@).len() {
                    assert(j <= last);
                }
            }
            return false;
        }
        at = at + 1;
    }
}

/// One decimal digit as a string.
fn digit_str(d: usize) -> (s: &'static str)
    requires
        d < 10,
    ensures
        s@ == seq![digit(d as nat)],
{
    proof {
        reveal_strlit("0123456789");
    }
    let all: &'static str = "0123456789";
    assert(all.is_ascii());
    let s: &'static str = all.substring_ascii(d, d + 1);
    assert(s@ =~= seq![digit(d as nat)]);
    s
}

/// Writes `n` in decimal.
pub fn to_decimal(n: usize) -> (s: String)
    ensures
        s@ == decimal(n as nat),
    decreases n,
{
    if n < 10 {
        digit_str(n).to_owned()
    } else {
        let mut s: String = to_decimal(n / 10);
        s.append(digit_str(n % 10));
        assert(s@ =~= decimal(n as nat));
        s
    }
}

/// The kinds of characters that are trimmed from a setting.
#[derive(Debug, Clone, Copy, PartialEq, Eq, Structural)]
pub enum Margin {
    /// White space.
    White,
    /// Single and double quotes.
    Quote,
}

/// `c` is trimmed as part of this margin.
pub open spec fn in_margin(c: char, margin: Margin) -> bool {
    match margin {
        Margin::White => white(c),
        Margin::Quote => c == '\'' || c == '"',
    }
}

/// `text` without the margin characters at either end.
pub open spec fn trimmed(text: Seq<char>, margin: Margin) -> Seq<char>
    decreases text.len(),
{
    if text.len() > 0 && in_margin(text[0], margin) {
        trimmed(text.skip(1), margin)
    } else if text.len() > 0 && in_margin(text.last(), margin) {
        trimmed(text.drop_last(), margin)
    } else {
        text
    }
}

/// `kept` stands in `text` at `from`, and all around it is margin.
pub open spec fn framed(text: Seq<char>, from: int, kept: Seq<char>, margin: Margin) -> bool {
    &&& 0 <= from
    &&& from + kept.len() <= text.len()
    &&& text.subrange(from, from + kept.len()) =~= kept
    &&& forall|k: int|
        #![trigger text[k]]
        0 <= k < from || from + kept.len() <= k < text.len() ==> in_margin(text[k], margin)
}

/// What is left of `text` has no margin, and only margin was taken away.
pub proof fn law_trim_takes_the_margin_alone(text: Seq<char>, margin: Margin)
    ensures
        trimmed(text, margin).len() > 0 ==> !in_margin(trimmed(text, margin)[0], margin)
            && !in_margin(trimmed(text, margin).last(), margin),
        exists|from: int| #[trigger] framed(text, from, trimmed(text, margin), margin),
    decreases text.len(),
{
    let kept = trimmed(text, margin);
    if text.len() > 0 && in_margin(text[0], margin) {
        let rest = text.skip(1);
        law_trim_takes_the_margin_alone(rest, margin);
        let from = choose|from: int| #[trigger] framed(rest, from, kept, margin);
        assert forall|k: int|
            #![trigger text[k]]
            0 <= k < from + 1 || from + 1 + kept.len() <= k < text.len() implies in_margin(
            text[k],
            margin,
        ) by {
            if k > 0 {
                assert(rest[k - 1] == text[k]);
            }
        }
        assert(text.subrange(from + 1, from + 1 + kept.len()) =~= rest.subrange(
            from,
            from + kept.len(),
        ));
        assert(framed(text, from + 1, kept, margin));
    } else if text.len() > 0 && in_margin(text.last(), margin) {
        let rest = text.drop_last();
        law_trim_takes_the_margin_alone(rest, margin);
        let from = choose|from: int| #[trigger] framed(rest, from, kept, margin);
        assert forall|k: int|
            #![trigger text[k]]
            0 <= k < from || from + kept.len() <= k < text.len() implies in_margin(
            text[k],
            margin,
        ) by {
            if k < rest.len() {
                assert(rest[k] == text[k]);
            }
        }
        assert(text.subrange(from, from + kept.len()) =~= rest.subrange(from, from + kept.len()));
        assert(framed(text, from, kept, margin));
    } else {
        assert(framed(text, 0, kept, margin));
    }
}

fn is_in_margin(c: char, margin: Margin) -> (r: bool)
    ensures
        r == in_margin(c, margin),
{
    match margin {
        Margin::White => is_white(c),
        Margin::Quote => c == '\'' || c == '"',
    }
}

/// Trims the margin off both ends of `text`.
pub fn trim<'a>(text: &'a str, margin: Margin) -> (r: &'a str)
    ensures
        r@ == trimmed(text@, margin),
{
    let chars: Vec<char> = characters(text);
    let n: usize = chars.len();
    let mut i: usize = 0;
    assert(chars@.subrange(0, n as int) =~= text@);
    while i < n && is_in_margin(chars[i], margin)
        invariant
            n == chars@.len(),
            chars@ == text@,
            i <= n,
            trimmed(text@, margin) == trimmed(chars@.subrange(i as int, n as int), margin),
        decreases n - i,
    {
        assert(chars@.subrange(i as int, n as int).skip(1) =~= chars@.subrange(i + 1, n as int));
        i = i + 1;
    }
    let mut j: usize = n;
    while i < j && is_in_margin(chars[j - 1], margin)
        invariant
            n == chars@.len(),
            chars@ == text@,
            i <= j <= n,
            i < n ==> !in_margin(chars@[i as int], margin),
            trimmed(text@, margin) == trimmed(chars@.subrange(i as int, j as int), margin),
        decreases j - i,
    {
        assert(chars@.subrange(i as int, j as int).drop_last() =~= chars@.subrange(
            i as int,
            j - 1,
        ));
        j = j - 1;
    }
    text.substring_char(i, j)
}

/// The value of a textual setting: without surrounding white space, then without quotes, then
/// without white space again.
pub open spec fn setting(raw: Seq<char>) -> Seq<char> {
    trimmed(trimmed(trimmed(raw, Margin::White), Margin::Quote), Margin::White)
}

/// Reads a printed setting such as `'Cantarell 11'`.
pub fn setting_value<'a>(raw: &'a str) -> (r: &'a str)
    ensures
        r@ == setting(raw@),
{
    trim(trim(trim(raw, Margin::White), Margin::Quote), Margin::White)
}

/// The length of the word that `text` begins with.
pub open spec fn word_len(text: Seq<char>) -> nat
    decreases text.len(),
{
    if text.len() == 0 || white(text[0]) {
        0
    } else {
        1 + word_len(text.skip(1))
    }
}

/// The words of `text`: its longest runs without white space, in order.
pub open spec fn words(text: Seq<char>) -> Seq<Seq<char>>
    decreases text.len(),
{
    if text.len() == 0 {
        Seq::empty()
    } else if white(text[0]) {
        words(text.skip(1))
    } else {
        proof {
            lemma_word_len(text);
        }
        seq![text.take(word_len(text) as int)] + words(text.skip(word_len(text) as int))
    }
}

/// A word ends inside the text.
pub proof fn lemma_word_len(text: Seq<char>)
    ensures
        word_len(text) <= text.len(),
        text.len() > 0 && !white(text[0]) ==> word_len(text) > 0,
    decreases text.len(),
{
    if text.len() > 0 && !white(text[0]) {
        lemma_word_len(text.skip(1));
    }
}

/// The texts of a list of strings.
pub open spec fn texts(list: Seq<String>) -> Seq<Seq<char>> {
    list.map_values(|s: String| s@)
}

/// Splits `text` at white space.
pub fn split_words(text: &str) -> (r: Vec<String>)
    ensures
        texts(r@) == words(text@),
{
    let chars: Vec<char> = characters(text);
    let n: usize = chars.len();
    let mut r: Vec<String> = Vec::new();
    let mut i: usize = 0;
    assert(chars@.skip(0) =~= text@);
    assert(texts(r@) + words(chars@) =~= words(chars@));
    while i < n
        invariant
            n == chars@.len(),
            chars@ == text@,
            i <= n,
            words(text@) == texts(r@) + words(chars@.skip(i as int)),
        decreases n - i,
    {
        if is_white(chars[i]) {
            assert(chars@.skip(i as int).skip(1) =~= chars@.skip(i + 1));
            i = i + 1;
        } else {
            let mut j: usize = i;
            while j < n && !is_white(chars[j])
                invariant
                    n == chars@.len(),
                    chars@ == text@,
                    i <= j <= n,
                    i < n,
                    !white(chars@[i as int]),
                    word_len(chars@.skip(i as int)) == (j - i) + word_len(chars@.skip(j as int)),
                decreases n - j,
            {
                assert(chars@.skip(j as int).skip(1) =~= chars@.skip(j + 1));
                j = j + 1;
            }
            assert(word_len(chars@.skip(j as int)) == 0);
            proof {
                lemma_word_len(chars@.skip(i as int));
            }
            let ghost before = r@;
            r.push(text.substring_char(i, j).to_owned());
            proof {
                let word = chars@.skip(i as int).take(j - i);
                assert(r@.last()@ =~= word);
                assert(chars@.skip(i as int).skip(j - i) =~= chars@.skip(j as int));
                assert(texts(r@) =~= texts(before).push(word));
                assert(texts(before) + (seq![word] + words(chars@.skip(j as int))) =~= texts(r@)
                    + words(chars@.skip(j as int)));
            }
            i = j;
        }
    }
    assert(texts(r@) + words(chars@.skip(i as int)) =~= texts(r@));
    r
}

/// The words written one after the other with single spaces between them.
pub open spec fn joined(list: Seq<Seq<char>>) -> Seq<char>
    decreases list.len(),
{
    if list.len() == 0 {
        Seq::empty()
    } else if list.len() == 1 {
        list[0]
    } else {
        joined(list.drop_last()) + seq![' '] + list.last()
    }
}

/// Joins the first `n` words with single spaces.
pub fn join_words(list: &Vec<String>, n: usize) -> (r: String)
    requires
        n <= list@.len(),
    ensures
        r@ == joined(texts(list@).take(n as int)),
{
    let mut r: String = String::new();
    let mut k: usize = 0;
    while k < n
        invariant
            n <= list@.len(),
            k <= n,
            r@ == joined(texts(list@).take(k as int)),
        decreases n - k,
    {
        proof {
            reveal_strlit(" ");
            assert(" "@ =~= seq![' ']);
            assert(texts(list@).take(k + 1).drop_last() =~= texts(list@).take(k as int));
        }
        if k > 0 {
            r.append(" ");
        }
        r.append(list[k].as_str());
        assert(r@ =~= joined(texts(list@).take(k + 1)));
        k = k + 1;
    }
    r
}

/// Whether two strings are the same text.
pub fn same_text(a: &str, b: &str) -> (r: bool)
    ensures
        r == (a@ == b@),
{
    let x: Vec<char> = characters(a);
    let y: Vec<char> = characters(b);
    if x.len() != y.len() {
        return false;
    }
    let mut k: usize = 0;
    while k < x.len()
        invariant
            x@ == a@,
            y@ == b@,
            x@.len() == y@.len(),
            k <= x@.len(),
            forall|j: int| 0 <= j < k ==> #[trigger] x@[j] == y@[j],
        decreases x@.len() - k,
    {
        if x[k] != y[k] {
            return false;
        }
        k = k + 1;
    }
    assert(x@ =~= y@);
    true
}

/// Whether `text`, folded to ASCII lower case, is exactly `word`.
pub fn same_folded(text: &str, word: &str) -> (r: bool)
    ensures
        r == (lowered(text@) == word@),
{
    let x: Vec<char> = characters(text);
    let y: Vec<char> = characters(word);
    if x.len() != y.len() {
        return false;
    }
    let r: bool = stands_at_folded(&x, &y, 0);
    assert(lowered(x@).subrange(0, y@.len() as int) =~= lowered(x@));
    r
}

/// Two characters fold alike exactly where they are the same or differ only in the case of an ASCII
/// letter, and folding again changes nothing.
pub proof fn law_folding_forgets_ascii_case_alone(a: char, b: char)
    ensures
        lower(lower(a)) == lower(a),
        lower(a) == lower(b) <==> a == b || ('A' <= a <= 'Z' && b as int == a as int + 32) || ('A'
            <= b <= 'Z' && a as int == b as int + 32),
        !('A' <= lower(a) <= 'Z'),
{
}

/// A number is written in decimal: its last digit is the rest of its division by ten, what precedes
/// it is the tenth, and it has no leading zero.
pub proof fn law_decimal_digits_make_up_the_number(n: nat)
    ensures
        decimal(n).len() > 0,
        decimal(n).last() as int == '0' as int + n % 10,
        n >= 10 ==> decimal(n).drop_last() == decimal(n / 10),
        n < 10 ==> decimal(n).len() == 1,
        n > 0 ==> decimal(n)[0] != '0',
    decreases n,
{
    reveal_strlit("0123456789");
    let digits = "0123456789"@;
    assert(digits[0] == '0' && digits[1] == '1' && digits[2] == '2' && digits[3] == '3' && digits[4]
        == '4' && digits[5] == '5' && digits[6] == '6' && digits[7] == '7' && digits[8] == '8'
        && digits[9] == '9');
    if n >= 10 {
        law_decimal_digits_make_up_the_number(n / 10);
        assert(decimal(n).drop_last() =~= decimal(n / 10));
    }
}

/// The word holds no white space, and is there at all.
pub open spec fn is_word(word: Seq<char>) -> bool {
    word.len() > 0 && forall|k: int| 0 <= k < word.len() ==> !white(#[trigger] word[k])
}

proof fn lemma_word_len_is(word: Seq<char>, rest: Seq<char>)
    requires
        forall|k: int| 0 <= k < word.len() ==> !white(#[trigger] word[k]),
        rest.len() == 0 || white(rest[0]),
    ensures
        word_len(word + rest) == word.len(),
    decreases word.len(),
{
    if word.len() == 0 {
        assert(word + rest =~= rest);
    } else {
        assert((word + rest)[0] == word[0]);
        assert((word + rest).skip(1) =~= word.skip(1) + rest);
        assert forall|k: int| 0 <= k < word.skip(1).len() implies !white(
            #[trigger] word.skip(1)[k],
        ) by {
            assert(word.skip(1)[k] == word[k + 1]);
        }
        lemma_word_len_is(word.skip(1), rest);
    }
}

/// Splitting finds the words of a text: white space at the front is passed over, a word ends at the
/// first white space behind it, and the rest is split likewise.
pub proof fn law_splitting_finds_the_words(word: Seq<char>, gap: char, rest: Seq<char>)
    requires
        is_word(word),
        white(gap),
    ensures
        words(Seq::empty()) == Seq::<Seq<char>>::empty(),
        words(word) == seq![word],
        words(seq![gap] + rest) == words(rest),
        words(word + seq![gap] + rest) == seq![word] + words(rest),
{
    let none = Seq::<char>::empty();
    assert(word + none =~= word);
    lemma_word_len_is(word, none);
    assert(!white(word[0]));
    assert(word.take(word.len() as int) =~= word);
    assert(word.skip(word.len() as int) =~= none);
    assert(words(none) =~= Seq::<Seq<char>>::empty());
    assert(words(word) =~= seq![word]);
    assert((seq![gap] + rest).skip(1) =~= rest);
    let tail = seq![gap] + rest;
    let all = word + tail;
    assert(word + seq![gap] + rest =~= all);
    lemma_word_len_is(word, tail);
    assert(all[0] == word[0]);
    assert(all.take(word.len() as int) =~= word);
    assert(all.skip(word.len() as int) =~= tail);
}

/// Joining words puts one space between each two of them and nothing else, and splitting gives the
/// words back.
pub proof fn law_splitting_undoes_joining(list: Seq<Seq<char>>)
    requires
        forall|k: int| 0 <= k < list.len() ==> is_word(#[trigger] list[k]),
    ensures
        words(joined(list)) == list,
        list.len() > 1 ==> joined(list) == list[0] + seq![' '] + joined(list.skip(1)),
    decreases list.len(),
{
    if list.len() == 0 {
        assert(words(joined(list)) =~= list);
    } else if list.len() == 1 {
        law_splitting_finds_the_words(list[0], ' ', Seq::empty());
        assert(words(joined(list)) =~= list);
    } else {
        lemma_joined_front(list);
        let rest = list.skip(1);
        assert forall|k: int| 0 <= k < rest.len() implies is_word(#[trigger] rest[k]) by {
            assert(rest[k] == list[k + 1]);
        }
        law_splitting_undoes_joining(rest);
        law_splitting_finds_the_words(list[0], ' ', joined(rest));
        assert(seq![list[0]] + rest =~= list);
    }
}

proof fn lemma_joined_front(list: Seq<Seq<char>>)
    requires
        list.len() > 1,
    ensures
        joined(list) == list[0] + seq![' '] + joined(list.skip(1)),
    decreases list.len(),
{
    let front = list.drop_last();
    if list.len() == 2 {
        assert(front.len() == 1);
        assert(joined(front) == list[0]);
        assert(list.skip(1).len() == 1);
        assert(joined(list.skip(1)) == list[1]);
    } else {
        lemma_joined_front(front);
        assert(front.skip(1) =~= list.skip(1).drop_last());
        assert(joined(list) =~= list[0] + seq![' '] + joined(list.skip(1)));
    }
}

/// Trimming undoes wrapping: margin put around a text that has none at its ends is taken off again,
/// however much there is of it.
pub proof fn law_trimming_undoes_wrapping(
    before: Seq<char>,
    text: Seq<char>,
    after: Seq<char>,
    margin: Margin,
)
    requires
        forall|k: int| 0 <= k < before.len() ==> in_margin(#[trigger] before[k], margin),
        forall|k: int| 0 <= k < after.len() ==> in_margin(#[trigger] after[k], margin),
        text.len() > 0 ==> !in_margin(text[0], margin) && !in_margin(text.last(), margin),
    ensures
        trimmed(before + text + after, margin) == text,
    decreases before.len() + after.len(),
{
    let all = before + text + after;
    if before.len() > 0 {
        assert(all[0] == before[0]);
        assert(all.skip(1) =~= before.skip(1) + text + after);
        assert forall|k: int| 0 <= k < before.skip(1).len() implies in_margin(
            #[trigger] before.skip(1)[k],
            margin,
        ) by {
            assert(before.skip(1)[k] == before[k + 1]);
        }
        law_trimming_undoes_wrapping(before.skip(1), text, after, margin);
    } else if after.len() > 0 {
        if text.len() > 0 {
            assert(all[0] == text[0]);
            assert(all.last() == after.last());
            assert(all.drop_last() =~= before + text + after.drop_last());
            assert forall|k: int| 0 <= k < after.drop_last().len() implies in_margin(
                #[trigger] after.drop_last()[k],
                margin,
            ) by {
                assert(after.drop_last()[k] == after[k]);
            }
            law_trimming_undoes_wrapping(before, text, after.drop_last(), margin);
        } else {
            assert(all[0] == after[0]);
            assert(all.skip(1) =~= before + text + after.skip(1));
            assert forall|k: int| 0 <= k < after.skip(1).len() implies in_margin(
                #[trigger] after.skip(1)[k],
                margin,
            ) by {
                assert(after.skip(1)[k] == after[k + 1]);
            }
            law_trimming_undoes_wrapping(before, text, after.skip(1), margin);
        }
    } else {
        assert(all =~= text);
    }
}

/// What is trimmed: the white space of Unicode, and the two quotes.
pub proof fn law_what_is_trimmed(c: char)
    ensures
        in_margin(c, Margin::Quote) <==> c == '\'' || c == '"',
        in_margin(c, Margin::White) == white(c),
        white(' ') && white('\t') && white('\n') && white('\r'),
        c as u32 > 0x20 && (c as u32) < 0x7f ==> !white(c),
        white(c) ==> !(c == '\'' || c == '"'),
{
}

/// The value of a setting stands inside its quotes: white space and quotes around it are taken off
/// and those inside it stay.
pub proof fn law_a_setting_is_read_inside_its_quotes(text: Seq<char>, quote: char, before: Seq<char>, after: Seq<char>)
    requires
        quote == '\'' || quote == '"',
        text.len() > 0,
        !white(text[0]) && !white(text.last()),
        !(text[0] == '\'' || text[0] == '"') && !(text.last() == '\'' || text.last() == '"'),
        forall|k: int| 0 <= k < before.len() ==> white(#[trigger] before[k]),
        forall|k: int| 0 <= k < after.len() ==> white(#[trigger] after[k]),
    ensures
        setting(before + (seq![quote] + text + seq![quote]) + after) == text,
        setting(before + text + after) == text,
{
    let none = Seq::<char>::empty();
    let quoted = seq![quote] + text + seq![quote];
    law_trimming_undoes_wrapping(before, quoted, after, Margin::White);
    law_trimming_undoes_wrapping(seq![quote], text, seq![quote], Margin::Quote);
    law_trimming_undoes_wrapping(before, text, after, Margin::White);
    law_trimming_undoes_wrapping(none, text, none, Margin::Quote);
    law_trimming_undoes_wrapping(none, text, none, Margin::White);
    assert(none + text + none =~= text);
}

/// White space is that of Unicode: the six ASCII ones, the next-line and the no-break space, and the
/// spaces and separators of the general punctuation and beyond.
pub proof fn law_what_is_white_space(c: char)
    ensures
        ({
            let v = c as u32;
            white(c) <==> 0x9 <= v <= 0xd || v == 0x20 || v == 0x85 || v == 0xa0 || v == 0x1680
                || 0x2000 <= v <= 0x200a || v == 0x2028 || v == 0x2029 || v == 0x202f || v == 0x205f
                || v == 0x3000
        }),
        control(c) <==> (c as u32) < 0x20 || 0x7f <= c as u32 <= 0x9f,
{
}

} // verus!
