//! Text as sequences of characters: padding, numerals, trimming and splitting.
use vstd::prelude::*;

verus! {

/// The text of a list of strings, one sequence of characters for each.
pub open spec fn texts(list: Seq<String>) -> Seq<Seq<char>> {
    Seq::new(list.len(), |i: int| list[i]@)
}

/// The text of an optional string.
pub open spec fn optional_text(text: Option<String>) -> Option<Seq<char>> {
    match text {
        Some(text) => Some(text@),
        None => None,
    }
}

/// Copies an optional string.
pub fn copy_optional(text: &Option<String>) -> (result: Option<String>)
    ensures
        optional_text(result) == optional_text(*text),
{
    match text {
        Some(text) => Some(text.clone()),
        None => None,
    }
}

/// Copies a list of strings.
pub fn copy_texts(list: &Vec<String>) -> (result: Vec<String>)
    ensures
        texts(result@) == texts(list@),
{
    let mut result: Vec<String> = Vec::new();
    let mut at: usize = 0;
    while at < list.len()
        invariant
            at <= list.len(),
            texts(result@) =~= texts(list@).take(at as int),
        decreases list.len() - at,
    {
        let ghost before = texts(result@);
        result.push(list[at].clone());
        assert(texts(result@) =~= before.push(list[at as int]@));
        at = at + 1;
    }
    assert(texts(result@) =~= texts(list@));
    result
}

/// `count` times the character `c`.
pub open spec fn repeated(c: char, count: nat) -> Seq<char> {
    Seq::new(count, |i: int| c)
}

/// `text` followed by as many spaces as it takes to be `width` characters long.
pub open spec fn padded(text: Seq<char>, width: nat) -> Seq<char> {
    if text.len() < width {
        text + repeated(' ', (width - text.len()) as nat)
    } else {
        text
    }
}

/// Writes `text` left-aligned in a column of `width` characters.
pub fn pad_right(text: &str, width: usize) -> (result: String)
    ensures
        result@ == padded(text@, width as nat),
{
    let mut result: String = text.to_owned();
    let mut length: usize = text.unicode_len();
    proof {
        reveal_strlit(" ");
    }
    while length < width
        invariant
            " "@ =~= seq![' '],
            text@.len() <= length,
            length <= width || length == text@.len(),
            result@ =~= text@ + repeated(' ', (length - text@.len()) as nat),
        decreases width - length,
    {
        result.append(" ");
        length = length + 1;
    }
    result
}

/// Writes a line of `count` dashes.
pub fn dashes(count: usize) -> (result: String)
    ensures
        result@ == repeated('-', count as nat),
{
    let mut result: String = String::new();
    let mut length: usize = 0;
    proof {
        reveal_strlit("-");
    }
    while length < count
        invariant
            "-"@ =~= seq!['-'],
            length <= count,
            result@ =~= repeated('-', length as nat),
        decreases count - length,
    {
        result.append("-");
        length = length + 1;
    }
    result
}

/// The digit character of `digit`.
pub open spec fn digit_char(digit: nat) -> char {
    ('0' as nat + digit) as char
}

/// The decimal numeral of `n`, without leading zeros.
pub open spec fn decimal(n: nat) -> Seq<char>
    decreases n,
{
    if n < 10 {
        seq![digit_char(n)]
    } else {
        decimal(n / 10).push(digit_char(n % 10))
    }
}

fn digit_text(digit: u128) -> (result: &'static str)
    requires
        digit < 10,
    ensures
        result@ == seq![digit_char(digit as nat)],
{
    proof {
        reveal_strlit("0");
        reveal_strlit("1");
        reveal_strlit("2");
        reveal_strlit("3");
        reveal_strlit("4");
        reveal_strlit("5");
        reveal_strlit("6");
        reveal_strlit("7");
        reveal_strlit("8");
        reveal_strlit("9");
    }
    if digit == 0 {
        "0"
    } else if digit == 1 {
        "1"
    } else if digit == 2 {
        "2"
    } else if digit == 3 {
        "3"
    } else if digit == 4 {
        "4"
    } else if digit == 5 {
        "5"
    } else if digit == 6 {
        "6"
    } else if digit == 7 {
        "7"
    } else if digit == 8 {
        "8"
    } else {
        "9"
    }
}

/// Writes `n` in decimal.
pub fn decimal_text(n: u128) -> (result: String)
    ensures
        result@ == decimal(n as nat),
    decreases n,
{
    if n < 10 {
        digit_text(n).to_owned()
    } else {
        let mut result: String = decimal_text(n / 10);
        result.append(digit_text(n % 10));
        assert(result@ =~= decimal((n / 10) as nat).push(digit_char((n % 10) as nat)));
        result
    }
}

/// Whether `text` is not empty and made of the digits `0` to `9` alone.
pub open spec fn all_digits(text: Seq<char>) -> bool {
    &&& text.len() > 0
    &&& forall|i: int| 0 <= i < text.len() ==> '0' <= #[trigger] text[i] <= '9'
}

/// The number that a row of digits stands for; leading zeros count for nothing.
pub open spec fn digits_value(digits: Seq<char>) -> nat
    decreases digits.len(),
{
    if digits.len() == 0 {
        0
    } else {
        10 * digits_value(digits.drop_last()) + (digits.last() as nat - '0' as nat) as nat
    }
}

/// The number that `text` spells: decimal digits, with one `+` in front of them or none.
pub open spec fn numeral(text: Seq<char>) -> Option<nat> {
    let digits = if text.len() > 0 && text[0] == '+' {
        text.skip(1)
    } else {
        text
    };
    if all_digits(digits) {
        Some(digits_value(digits))
    } else {
        None
    }
}

proof fn lemma_digits_value_grows(digits: Seq<char>, n: int)
    requires
        0 <= n <= digits.len(),
    ensures
        digits_value(digits.take(n)) <= digits_value(digits),
    decreases digits.len() - n,
{
    if n < digits.len() {
        assert(digits.take(n + 1).drop_last() =~= digits.take(n));
        lemma_digits_value_grows(digits, n + 1);
    } else {
        assert(digits.take(n) =~= digits);
    }
}

/// Reads a numeral that fits in a `usize`.
pub fn parse_usize(text: &str) -> (result: Option<usize>)
    ensures
        result == (match numeral(text@) {
            Some(value) if value <= usize::MAX => Some(value as usize),
            _ => None,
        }),
{
    let length: usize = text.unicode_len();
    let start: usize = if length > 0 && text.get_char(0) == '+' {
        1
    } else {
        0
    };
    let ghost digits = if start == 1 {
        text@.skip(1)
    } else {
        text@
    };
    if start == length {
        return None;
    }
    let mut value: usize = 0;
    let mut fits: bool = true;
    let mut at: usize = start;
    while at < length
        invariant
            length == text@.len(),
            start <= at <= length,
            start < length,
            digits.len() == length - start,
            forall|i: int| 0 <= i < digits.len() ==> digits[i] == text@[i + start],
            forall|i: int| 0 <= i < at - start ==> '0' <= #[trigger] digits[i] <= '9',
            fits ==> value == digits_value(digits.take(at - start)),
            !fits ==> digits_value(digits) > usize::MAX,
            digits == (if text@.len() > 0 && text@[0] == '+' {
                text@.skip(1)
            } else {
                text@
            }),
        decreases length - at,
    {
        let c: char = text.get_char(at);
        assert(digits[at - start] == c);
        if c < '0' || '9' < c {
            return None;
        }
        proof {
            assert(digits.take(at - start + 1).drop_last() =~= digits.take(at - start));
            assert(digits.take(at - start + 1).last() == c);
            lemma_digits_value_grows(digits, at - start + 1);
        }
        if fits {
            let digit: usize = (c as u32 - '0' as u32) as usize;
            match value.checked_mul(10) {
                Some(tens) => {
                    match tens.checked_add(digit) {
                        Some(sum) => {
                            value = sum;
                        },
                        None => {
                            fits = false;
                        },
                    }
                },
                None => {
                    fits = false;
                },
            }
        }
        at = at + 1;
    }
    assert(digits.take(length - start) =~= digits);
    if fits {
        Some(value)
    } else {
        None
    }
}

/// Whether `c` has the Unicode property `White_Space`.
pub open spec fn is_space(c: char) -> bool {
    ||| '\u{9}' <= c <= '\u{D}'
    ||| c == ' '
    ||| c == '\u{85}'
    ||| c == '\u{A0}'
    ||| c == '\u{1680}'
    ||| '\u{2000}' <= c <= '\u{200A}'
    ||| c == '\u{2028}'
    ||| c == '\u{2029}'
    ||| c == '\u{202F}'
    ||| c == '\u{205F}'
    ||| c == '\u{3000}'
}

/// Tells white space from other characters.
pub fn white_space(c: char) -> (result: bool)
    ensures
        result == is_space(c),
{
    ('\u{9}' <= c && c <= '\u{D}') || c == ' ' || c == '\u{85}' || c == '\u{A0}' || c == '\u{1680}'
        || ('\u{2000}' <= c && c <= '\u{200A}') || c == '\u{2028}' || c == '\u{2029}'
        || c == '\u{202F}' || c == '\u{205F}' || c == '\u{3000}'
}

/// `text` without the white space that it starts with.
pub open spec fn without_leading_space(text: Seq<char>) -> Seq<char>
    decreases text.len(),
{
    if text.len() > 0 && is_space(text[0]) {
        without_leading_space(text.drop_first())
    } else {
        text
    }
}

/// `text` without the white space that it ends with.
pub open spec fn without_trailing_space(text: Seq<char>) -> Seq<char>
    decreases text.len(),
{
    if text.len() > 0 && is_space(text.last()) {
        without_trailing_space(text.drop_last())
    } else {
        text
    }
}

/// `text` without the white space at its two ends.
pub open spec fn trimmed(text: Seq<char>) -> Seq<char> {
    without_trailing_space(without_leading_space(text))
}

/// Cuts the white space off both ends of `text`.
pub fn trim(text: &str) -> (result: String)
    ensures
        result@ == trimmed(text@),
{
    let length: usize = text.unicode_len();
    let mut start: usize = 0;
    assert(text@.skip(0) =~= text@);
    while start < length && white_space(text.get_char(start))
        invariant
            length == text@.len(),
            start <= length,
            without_leading_space(text@) == without_leading_space(text@.skip(start as int)),
        decreases length - start,
    {
        assert(text@.skip(start as int).drop_first() =~= text@.skip(start + 1));
        start = start + 1;
    }
    let ghost rest = text@.skip(start as int);
    let mut end: usize = length;
    assert(text@.subrange(start as int, length as int) =~= rest);
    while start < end && white_space(text.get_char(end - 1))
        invariant
            length == text@.len(),
            start <= end <= length,
            without_trailing_space(rest) == without_trailing_space(
                text@.subrange(start as int, end as int),
            ),
        decreases end - start,
    {
        assert(text@.subrange(start as int, end as int).drop_last() =~= text@.subrange(
            start as int,
            end - 1,
        ));
        end = end - 1;
    }
    text.substring_char(start, end).to_owned()
}

/// `text` without the `/` that it ends with.
pub open spec fn without_trailing_slashes(text: Seq<char>) -> Seq<char>
    decreases text.len(),
{
    if text.len() > 0 && text.last() == '/' {
        without_trailing_slashes(text.drop_last())
    } else {
        text
    }
}

/// Cuts every `/` off the end of `text`.
pub fn trim_end_slashes(text: &str) -> (result: String)
    ensures
        result@ == without_trailing_slashes(text@),
{
    let mut end: usize = text.unicode_len();
    assert(text@.take(end as int) =~= text@);
    while 0 < end && text.get_char(end - 1) == '/'
        invariant
            end <= text@.len(),
            without_trailing_slashes(text@) == without_trailing_slashes(text@.take(end as int)),
        decreases end,
    {
        assert(text@.take(end as int).drop_last() =~= text@.take(end - 1));
        end = end - 1;
    }
    assert(text@.take(end as int) =~= text@.subrange(0, end as int));
    text.substring_char(0, end).to_owned()
}

/// The pieces of `text` between one `separator` and the next; always one more than there are
/// separators.
pub open spec fn split<T>(text: Seq<T>, separator: T) -> Seq<Seq<T>>
    decreases text.len(),
{
    if text.len() == 0 {
        seq![Seq::empty()]
    } else {
        let before = split(text.drop_last(), separator);
        if text.last() == separator {
            before.push(Seq::empty())
        } else {
            before.drop_last().push(before.last().push(text.last()))
        }
    }
}

/// The pieces joined again, with `separator` between each and the next.
pub open spec fn joined<T>(pieces: Seq<Seq<T>>, separator: Seq<T>) -> Seq<T>
    decreases pieces.len(),
{
    if pieces.len() == 0 {
        Seq::empty()
    } else if pieces.len() == 1 {
        pieces[0]
    } else {
        joined(pieces.drop_last(), separator) + separator + pieces.last()
    }
}

/// Splitting undoes nothing and adds nothing: the pieces joined again are the text, there is at
/// least one of them, and none holds the separator.
pub proof fn law_split_pieces<T>(text: Seq<T>, separator: T)
    ensures
        split(text, separator).len() > 0,
        joined(split(text, separator), seq![separator]) == text,
        forall|i: int|
            0 <= i < split(text, separator).len() ==> !(#[trigger] split(text, separator)[i]).contains(
                separator,
            ),
    decreases text.len(),
{
    if text.len() > 0 {
        let before = split(text.drop_last(), separator);
        let after = split(text, separator);
        law_split_pieces(text.drop_last(), separator);
        if text.last() == separator {
            assert(after.drop_last() =~= before);
            assert(joined(after, seq![separator]) =~= text);
        } else {
            assert(after.drop_last() =~= before.drop_last());
            assert forall|i: int| 0 <= i < after.len() implies !(#[trigger] after[i]).contains(
                separator,
            ) by {
                if i < before.len() - 1 {
                    assert(after[i] == before[i]);
                } else {
                    let last = before.last();
                    assert(!before[before.len() - 1].contains(separator));
                    assert(after[i] == last.push(text.last()));
                    if after[i].contains(separator) {
                        let k = choose|k: int| 0 <= k < after[i].len() && after[i][k] == separator;
                        assert(last[k] == separator);
                    }
                }
            }
            assert(after.last() == before.last().push(text.last()));
            assert(joined(after, seq![separator]) =~= joined(before, seq![separator]).push(
                text.last(),
            ));
            assert(text.drop_last().push(text.last()) =~= text);
        }
    }
}

/// Writes the pieces one after the other, with `separator` between each and the next.
pub fn join(pieces: &Vec<String>, separator: &str) -> (result: String)
    ensures
        result@ == joined(texts(pieces@), separator@),
{
    let mut result: String = String::new();
    let mut at: usize = 0;
    let ghost all = texts(pieces@);
    assert(all.take(0) =~= Seq::empty());
    while at < pieces.len()
        invariant
            at <= pieces.len(),
            all == texts(pieces@),
            result@ == joined(all.take(at as int), separator@),
        decreases pieces.len() - at,
    {
        assert(all.take(at + 1).drop_last() =~= all.take(at as int));
        assert(all.take(at + 1).last() == pieces[at as int]@);
        if at > 0 {
            result.append(separator);
        }
        result.append(pieces[at].as_str());
        assert(at == 0 ==> result@ =~= pieces[at as int]@);
        at = at + 1;
    }
    assert(all.take(pieces.len() as int) =~= all);
    result
}

/// The entries of a comma-separated list: each piece trimmed, and those that are then empty left
/// out.
pub open spec fn comma_list(text: Seq<char>) -> Seq<Seq<char>> {
    nonblank(split(text, ','))
}

/// The pieces trimmed, without those that hold white space alone.
pub open spec fn nonblank(pieces: Seq<Seq<char>>) -> Seq<Seq<char>>
    decreases pieces.len(),
{
    if pieces.len() == 0 {
        Seq::empty()
    } else if trimmed(pieces.last()).len() == 0 {
        nonblank(pieces.drop_last())
    } else {
        nonblank(pieces.drop_last()).push(trimmed(pieces.last()))
    }
}

fn push_nonblank(list: &mut Vec<String>, piece: &str)
    ensures
        texts(final(list)@) == (if trimmed(piece@).len() == 0 {
            texts(old(list)@)
        } else {
            texts(old(list)@).push(trimmed(piece@))
        }),
{
    let entry: String = trim(piece);
    if !entry.as_str().is_empty() {
        list.push(entry);
        assert(texts(list@) =~= texts(old(list)@).push(trimmed(piece@)));
    }
}

/// Reads a comma-separated list.
pub fn split_commas(text: &str) -> (result: Vec<String>)
    ensures
        texts(result@) == comma_list(text@),
{
    let length: usize = text.unicode_len();
    let mut result: Vec<String> = Vec::new();
    let mut start: usize = 0;
    let mut at: usize = 0;
    assert(texts(result@) =~= Seq::empty());
    assert(split(text@.take(0), ',') =~= seq![Seq::empty()]);
    assert(split(text@.take(0), ',').drop_last() =~= Seq::empty());
    while at < length
        invariant
            length == text@.len(),
            start <= at <= length,
            split(text@.take(at as int), ',').len() > 0,
            split(text@.take(at as int), ',').last() =~= text@.subrange(start as int, at as int),
            texts(result@) == nonblank(split(text@.take(at as int), ',').drop_last()),
        decreases length - at,
    {
        let ghost before = split(text@.take(at as int), ',');
        let ghost after = split(text@.take(at + 1), ',');
        assert(text@.take(at + 1).drop_last() =~= text@.take(at as int));
        if text.get_char(at) == ',' {
            push_nonblank(&mut result, text.substring_char(start, at));
            start = at + 1;
            assert(after.drop_last() =~= before);
        } else {
            assert(after.drop_last() =~= before.drop_last());
        }
        at = at + 1;
    }
    assert(text@.take(length as int) =~= text@);
    push_nonblank(&mut result, text.substring_char(start, length));
    result
}

/// Whether `text` is the letter `y`, small or capital.
pub open spec fn is_yes(text: Seq<char>) -> bool {
    text == "y"@ || text == "Y"@
}

/// Reads the answer to a yes-or-no question: anything but `y` and `Y` is a no.
pub fn says_yes(text: &String) -> (result: bool)
    ensures
        result == is_yes(text@),
{
    *text == "y".to_owned() || *text == "Y".to_owned()
}

/// Trimming leaves no white space at either end.
pub proof fn law_trimmed_ends(text: Seq<char>)
    ensures
        trimmed(text).len() > 0 ==> !is_space(trimmed(text)[0]) && !is_space(trimmed(text).last()),
{
    lemma_leading(text);
    lemma_trailing(without_leading_space(text));
}

proof fn lemma_leading(text: Seq<char>)
    ensures
        without_leading_space(text).len() > 0 ==> !is_space(without_leading_space(text)[0]),
    decreases text.len(),
{
    if text.len() > 0 && is_space(text[0]) {
        lemma_leading(text.drop_first());
    }
}

proof fn lemma_trailing(text: Seq<char>)
    ensures
        without_trailing_space(text).len() > 0 ==> !is_space(without_trailing_space(text).last())
            && without_trailing_space(text)[0] == text[0],
    decreases text.len(),
{
    if text.len() > 0 && is_space(text.last()) {
        lemma_trailing(text.drop_last());
    }
}

/// The entries of a comma-separated list are not empty, hold no comma, and neither start nor end
/// with white space.
pub proof fn law_comma_list_entries(text: Seq<char>)
    ensures
        forall|i: int|
            0 <= i < comma_list(text).len() ==> {
                &&& (#[trigger] comma_list(text)[i]).len() > 0
                &&& !comma_list(text)[i].contains(',')
                &&& !is_space(comma_list(text)[i][0])
                &&& !is_space(comma_list(text)[i].last())
            },
{
    law_split_pieces(text, ',');
    lemma_nonblank(split(text, ','));
}

proof fn lemma_nonblank(pieces: Seq<Seq<char>>)
    requires
        forall|i: int| 0 <= i < pieces.len() ==> !(#[trigger] pieces[i]).contains(','),
    ensures
        forall|i: int|
            0 <= i < nonblank(pieces).len() ==> {
                &&& (#[trigger] nonblank(pieces)[i]).len() > 0
                &&& !nonblank(pieces)[i].contains(',')
                &&& !is_space(nonblank(pieces)[i][0])
                &&& !is_space(nonblank(pieces)[i].last())
            },
    decreases pieces.len(),
{
    if pieces.len() > 0 {
        let shorter = pieces.drop_last();
        assert forall|i: int| 0 <= i < shorter.len() implies !(#[trigger] shorter[i]).contains(
            ',',
        ) by {
            assert(shorter[i] == pieces[i]);
        }
        lemma_nonblank(shorter);
        assert(!pieces[pieces.len() - 1].contains(','));
        law_trimmed_ends(pieces.last());
        lemma_trimmed_part(pieces.last(), ',');
        let before = nonblank(shorter);
        let after = nonblank(pieces);
        assert forall|i: int| 0 <= i < after.len() implies {
            &&& (#[trigger] after[i]).len() > 0
            &&& !after[i].contains(',')
            &&& !is_space(after[i][0])
            &&& !is_space(after[i].last())
        } by {
            if i < before.len() {
                assert(after[i] == before[i]);
            } else {
                assert(after[i] == trimmed(pieces.last()));
            }
        }
    }
}

proof fn lemma_trimmed_part(text: Seq<char>, c: char)
    requires
        !text.contains(c),
    ensures
        !trimmed(text).contains(c),
{
    lemma_leading_part(text, c);
    lemma_trailing_part(without_leading_space(text), c);
}

proof fn lemma_leading_part(text: Seq<char>, c: char)
    requires
        !text.contains(c),
    ensures
        !without_leading_space(text).contains(c),
    decreases text.len(),
{
    if text.len() > 0 && is_space(text[0]) {
        assert(!text.drop_first().contains(c)) by {
            if text.drop_first().contains(c) {
                let i = choose|i: int| 0 <= i < text.len() - 1 && text.drop_first()[i] == c;
                assert(text[i + 1] == c);
            }
        }
        lemma_leading_part(text.drop_first(), c);
    }
}

proof fn lemma_trailing_part(text: Seq<char>, c: char)
    requires
        !text.contains(c),
    ensures
        !without_trailing_space(text).contains(c),
    decreases text.len(),
{
    if text.len() > 0 && is_space(text.last()) {
        assert(!text.drop_last().contains(c)) by {
            if text.drop_last().contains(c) {
                let i = choose|i: int| 0 <= i < text.len() - 1 && text.drop_last()[i] == c;
                assert(text[i] == c);
            }
        }
        lemma_trailing_part(text.drop_last(), c);
    }
}

/// A number that is written in decimal reads as the number that it was.
pub proof fn law_decimal_reads_back(n: nat)
    ensures
        numeral(decimal(n)) == Some(n),
        decimal(n).len() > 0,
{
    lemma_decimal(n);
    assert(decimal(n)[0] != '+');
}

proof fn lemma_decimal(n: nat)
    ensures
        all_digits(decimal(n)),
        digits_value(decimal(n)) == n,
    decreases n,
{
    if n < 10 {
        assert(decimal(n).drop_last() =~= Seq::empty());
        assert(digits_value(Seq::<char>::empty()) == 0);
        assert(decimal(n).last() == digit_char(n));
    } else {
        lemma_decimal(n / 10);
        let digits = decimal(n);
        assert(digits.drop_last() =~= decimal(n / 10));
        assert(digits.last() == digit_char(n % 10));
        assert forall|i: int| 0 <= i < digits.len() implies '0' <= #[trigger] digits[i] <= '9' by {
            if i < digits.len() - 1 {
                assert(digits[i] == decimal(n / 10)[i]);
            }
        }
    }
}

/// White space is made of these characters and no others.
pub proof fn law_white_space(c: char)
    ensures
        is_space(c) <==> ({
            let number = c as int;
            ||| 9 <= number <= 13
            ||| number == 0x20
            ||| number == 0x85
            ||| number == 0xa0
            ||| number == 0x1680
            ||| 0x2000 <= number <= 0x200a
            ||| number == 0x2028
            ||| number == 0x2029
            ||| number == 0x202f
            ||| number == 0x205f
            ||| number == 0x3000
        }),
{
}

/// Whether `part` is what stands in `text` from `start` to `end`, and nothing but white space
/// stands round it.
pub open spec fn stands_between(text: Seq<char>, part: Seq<char>, start: int, end: int) -> bool {
    &&& 0 <= start <= end <= text.len()
    &&& part == text.subrange(start, end)
    &&& forall|i: int| 0 <= i < start ==> is_space(text[i])
    &&& forall|i: int| end <= i < text.len() ==> is_space(text[i])
}

/// Trimming takes away nothing but white space, and only at the two ends.
pub proof fn law_trimmed_is_the_middle(text: Seq<char>)
    ensures
        exists|start: int, end: int| stands_between(text, trimmed(text), start, end),
{
    let start = lemma_leading_start(text);
    let rest = without_leading_space(text);
    let length = lemma_trailing_length(rest);
    assert forall|i: int| start + length <= i < text.len() implies is_space(text[i]) by {
        assert(text[i] == rest[i - start]);
    }
    assert(trimmed(text) =~= text.subrange(start, start + length));
    assert(stands_between(text, trimmed(text), start, start + length));
}

proof fn lemma_leading_start(text: Seq<char>) -> (start: int)
    ensures
        0 <= start <= text.len(),
        without_leading_space(text) == text.skip(start),
        forall|i: int| 0 <= i < start ==> is_space(text[i]),
    decreases text.len(),
{
    if text.len() > 0 && is_space(text[0]) {
        let rest = text.drop_first();
        let start = lemma_leading_start(rest);
        assert(rest.skip(start) =~= text.skip(start + 1));
        assert forall|i: int| 0 <= i < start + 1 implies is_space(text[i]) by {
            if i > 0 {
                assert(text[i] == rest[i - 1]);
            }
        }
        start + 1
    } else {
        assert(text.skip(0) =~= text);
        0
    }
}

proof fn lemma_trailing_length(text: Seq<char>) -> (length: int)
    ensures
        0 <= length <= text.len(),
        without_trailing_space(text) == text.take(length),
        forall|i: int| length <= i < text.len() ==> is_space(text[i]),
    decreases text.len(),
{
    if text.len() > 0 && is_space(text.last()) {
        let rest = text.drop_last();
        let length = lemma_trailing_length(rest);
        assert(rest.take(length) =~= text.take(length));
        assert forall|i: int| length <= i < text.len() implies is_space(text[i]) by {
            if i < text.len() - 1 {
                assert(text[i] == rest[i]);
            }
        }
        length
    } else {
        assert(text.take(text.len() as int) =~= text);
        text.len() as int
    }
}

/// Padding changes nothing of a text and cuts nothing off: it adds spaces behind it up to the width,
/// and none where the text is that long already.
pub proof fn law_padded(text: Seq<char>, width: nat)
    ensures
        padded(text, width).len() == (if text.len() < width {
            width
        } else {
            text.len()
        }),
        padded(text, width).take(text.len() as int) == text,
        forall|i: int| text.len() <= i < padded(text, width).len() ==> padded(text, width)[i] == ' ',
{
    assert(padded(text, width).take(text.len() as int) =~= text);
}

/// A repeated character comes as often as it was asked for, and no other comes.
pub proof fn law_repeated(c: char, count: nat)
    ensures
        repeated(c, count).len() == count,
        forall|i: int| 0 <= i < count ==> repeated(c, count)[i] == c,
{
}

/// A single digit stands for its own number.
pub proof fn law_digit_is_a_numeral(c: char)
    requires
        '0' <= c <= '9',
    ensures
        numeral(seq![c]) == Some((c as int - '0' as int) as nat),
{
    assert(seq![c].drop_last() =~= Seq::empty());
    assert(digits_value(Seq::<char>::empty()) == 0);
    assert(all_digits(seq![c]));
}

/// A digit more makes a numeral ten times as large, and as much larger as the digit says.
pub proof fn law_digit_appended(text: Seq<char>, c: char)
    requires
        numeral(text) is Some,
        '0' <= c <= '9',
    ensures
        numeral(text.push(c)) == Some((10 * numeral(text)->0 + c as int - '0' as int) as nat),
{
    let signed = text.len() > 0 && text[0] == '+';
    let digits = if signed {
        text.skip(1)
    } else {
        text
    };
    let more = digits.push(c);
    if signed {
        assert(text.push(c).skip(1) =~= more);
    }
    assert(more.drop_last() =~= digits);
    assert(all_digits(more)) by {
        assert forall|i: int| 0 <= i < more.len() implies '0' <= #[trigger] more[i] <= '9' by {
            if i < digits.len() {
                assert(more[i] == digits[i]);
            }
        }
    }
}

/// A `+` in front of a numeral changes nothing; a second one, or one that stands alone, is none.
pub proof fn law_plus_sign(text: Seq<char>)
    ensures
        numeral(seq!['+'] + text) == (if text.len() > 0 && text[0] == '+' {
            None
        } else {
            numeral(text)
        }),
{
    let signed = seq!['+'] + text;
    assert(signed.skip(1) =~= text);
}

/// A numeral holds digits and nothing else, but for a `+` in front of them.
pub proof fn law_numeral_is_made_of_digits(text: Seq<char>, i: int)
    requires
        numeral(text) is Some,
        0 <= i < text.len(),
    ensures
        ('0' <= text[i] <= '9') || (i == 0 && text[0] == '+' && text.len() > 1),
{
    if text[0] == '+' {
        if i > 0 {
            assert(text.skip(1)[i - 1] == text[i]);
        }
    }
}

/// An empty text is no numeral.
pub proof fn law_empty_is_no_numeral()
    ensures
        numeral(Seq::empty()) is None,
{
}

/// A number is written in digits alone, and with a zero in front only where it is zero.
pub proof fn law_decimal_is_plain(n: nat)
    ensures
        forall|i: int| 0 <= i < decimal(n).len() ==> '0' <= #[trigger] decimal(n)[i] <= '9',
        decimal(n).len() > 0,
        n > 0 ==> decimal(n)[0] != '0',
        n == 0 ==> decimal(n) == seq!['0'],
    decreases n,
{
    lemma_decimal(n);
    if n >= 10 {
        law_decimal_is_plain(n / 10);
        assert(decimal(n)[0] == decimal(n / 10)[0]);
    }
}

/// Joining puts the separator between each piece and the next, and nowhere else.
pub proof fn law_joined<T>(pieces: Seq<Seq<T>>, piece: Seq<T>, separator: Seq<T>)
    ensures
        joined(Seq::<Seq<T>>::empty(), separator) == Seq::<T>::empty(),
        joined(seq![piece], separator) == piece,
        pieces.len() > 0 ==> joined(pieces.push(piece), separator) == joined(pieces, separator)
            + separator + piece,
{
    if pieces.len() > 0 {
        assert(pieces.push(piece).drop_last() =~= pieces);
    }
}

/// Only the letter `y` is a yes, small or capital, and only where it stands alone.
pub proof fn law_yes_is_one_letter(text: Seq<char>)
    ensures
        is_yes(text) <==> text.len() == 1 && (text[0] == 'y' || text[0] == 'Y'),
{
    reveal_strlit("y");
    reveal_strlit("Y");
    if text.len() == 1 && text[0] == 'y' {
        assert(text =~= "y"@);
    }
    if text.len() == 1 && text[0] == 'Y' {
        assert(text =~= "Y"@);
    }
}

/// However many `/` stand at the end of a text, all of them are cut off, and nothing else.
pub proof fn law_trailing_slashes(text: Seq<char>, count: nat)
    requires
        text.len() > 0 ==> text.last() != '/',
    ensures
        without_trailing_slashes(text + Seq::new(count, |i: int| '/')) == text,
    decreases count,
{
    let whole = text + Seq::new(count, |i: int| '/');
    if count > 0 {
        let fewer = (count - 1) as nat;
        law_trailing_slashes(text, fewer);
        assert(whole.drop_last() =~= text + Seq::new(fewer, |i: int| '/'));
    } else {
        assert(whole =~= text);
    }
}

proof fn lemma_split_two<T>(left: Seq<T>, right: Seq<T>, separator: T)
    ensures
        split(left.push(separator) + right, separator) == split(left, separator) + split(
            right,
            separator,
        ),
        split(right, separator).len() > 0,
    decreases right.len(),
{
    let whole = left.push(separator) + right;
    let first = split(left, separator);
    if right.len() == 0 {
        assert(whole =~= left.push(separator));
        assert(whole.drop_last() =~= left);
        assert(split(whole, separator) =~= first + split(right, separator));
    } else {
        let shorter = right.drop_last();
        lemma_split_two(left, shorter, separator);
        assert(whole.drop_last() =~= left.push(separator) + shorter);
        assert(split(whole, separator) =~= first + split(right, separator));
    }
}

proof fn lemma_nonblank_two(left: Seq<Seq<char>>, right: Seq<Seq<char>>)
    ensures
        nonblank(left + right) == nonblank(left) + nonblank(right),
    decreases right.len(),
{
    if right.len() == 0 {
        assert(left + right =~= left);
        assert(nonblank(left) + nonblank(right) =~= nonblank(left));
    } else {
        lemma_nonblank_two(left, right.drop_last());
        assert((left + right).drop_last() =~= left + right.drop_last());
        assert(nonblank(left + right) =~= nonblank(left) + nonblank(right));
    }
}

proof fn lemma_split_one<T>(text: Seq<T>, separator: T)
    requires
        forall|i: int| 0 <= i < text.len() ==> text[i] != separator,
    ensures
        split(text, separator) == seq![text],
    decreases text.len(),
{
    if text.len() > 0 {
        let shorter = text.drop_last();
        assert forall|i: int| 0 <= i < shorter.len() implies shorter[i] != separator by {
            assert(shorter[i] == text[i]);
        }
        lemma_split_one(shorter, separator);
        assert(shorter.push(text.last()) =~= text);
        assert(split(text, separator) =~= seq![text]);
    } else {
        assert(text =~= Seq::empty());
    }
}

/// A comma parts a list in two: its entries are those before the comma and then those behind it.
pub proof fn law_comma_parts_a_list(left: Seq<char>, right: Seq<char>)
    ensures
        comma_list(left.push(',') + right) == comma_list(left) + comma_list(right),
{
    lemma_split_two(left, right, ',');
    lemma_nonblank_two(split(left, ','), split(right, ','));
}

/// A text without a comma is one entry, trimmed, or none where it holds white space alone.
pub proof fn law_text_without_comma_is_one_entry(text: Seq<char>)
    requires
        forall|i: int| 0 <= i < text.len() ==> text[i] != ',',
    ensures
        comma_list(text) == (if trimmed(text).len() == 0 {
            Seq::empty()
        } else {
            seq![trimmed(text)]
        }),
{
    lemma_split_one(text, ',');
    let pieces = seq![text];
    assert(pieces.drop_last() =~= Seq::empty());
    assert(nonblank(Seq::empty()) =~= Seq::empty());
    assert(comma_list(text) =~= (if trimmed(text).len() == 0 {
        Seq::empty()
    } else {
        seq![trimmed(text)]
    }));
}

} // verus!
