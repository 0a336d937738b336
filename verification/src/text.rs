//! Small operations on text.

use vstd::prelude::*;

verus! {

/// The digit character of a number below ten.
pub open spec fn digit(n: nat) -> char {
    (('0' as nat) + n) as char
}

/// A natural number written in decimal, without leading zeros.
pub open spec fn decimal(n: nat) -> Seq<char>
    decreases n,
{
    if n < 10 {
        seq![digit(n)]
    } else {
        decimal(n / 10).push(digit(n % 10))
    }
}

/// An integer written in decimal, with a minus sign where it is negative.
pub open spec fn signed_decimal(n: int) -> Seq<char> {
    if n < 0 {
        seq!['-'] + decimal((-n) as nat)
    } else {
        decimal(n as nat)
    }
}

proof fn digits_differ(first: nat, second: nat)
    requires
        first < 10,
        second < 10,
        digit(first) == digit(second),
    ensures
        first == second,
{
}

/// Different natural numbers are written differently.
pub proof fn decimal_is_injective(first: nat, second: nat)
    requires
        decimal(first) == decimal(second),
    ensures
        first == second,
    decreases first,
{
    let a = decimal(first);
    let b = decimal(second);
    decimal_has_digits(first);
    decimal_has_digits(second);
    assert(a.last() == b.last());
    digits_differ(first % 10, second % 10);
    if first >= 10 && second >= 10 {
        assert(a.drop_last() =~= decimal(first / 10));
        assert(b.drop_last() =~= decimal(second / 10));
        decimal_is_injective(first / 10, second / 10);
    }
}

/// A natural number is written with at least one digit, from ten on with two, and with nothing but
/// digits.
proof fn decimal_has_digits(n: nat)
    ensures
        decimal(n).len() > 0,
        (decimal(n).len() == 1) == (n < 10),
        decimal(n).last() == digit(n % 10),
        decimal(n)[0] != '-',
    decreases n,
{
    if n >= 10 {
        decimal_has_digits(n / 10);
    }
}

/// Different integers are written differently.
pub proof fn signed_decimal_is_injective(first: int, second: int)
    requires
        signed_decimal(first) == signed_decimal(second),
    ensures
        first == second,
{
    if first < 0 {
        decimal_has_digits((-first) as nat);
        assert(signed_decimal(first)[0] == '-');
        assert(signed_decimal(first).skip(1) =~= decimal((-first) as nat));
    } else {
        decimal_has_digits(first as nat);
    }
    if second < 0 {
        decimal_has_digits((-second) as nat);
        assert(signed_decimal(second)[0] == '-');
        assert(signed_decimal(second).skip(1) =~= decimal((-second) as nat));
    } else {
        decimal_has_digits(second as nat);
    }
    if first < 0 && second < 0 {
        decimal_is_injective((-first) as nat, (-second) as nat);
    } else if first >= 0 && second >= 0 {
        decimal_is_injective(first as nat, second as nat);
    }
}

/// Adds one character at the end, by `String::push`.
#[verifier::external_body]
pub(crate) fn push_char(text: &mut String, c: char)
    ensures
        final(text)@ == old(text)@.push(c),
{
    text.push(c)
}

/// The characters of a text.
pub fn chars_of(text: &str) -> (chars: Vec<char>)
    ensures
        chars@ == text@,
{
    let mut chars: Vec<char> = Vec::new();
    for c in iter: text.chars()
        invariant
            chars@ == iter.seq().take(iter.index() as int),
            iter.seq() == text@,
    {
        chars.push(c);
    }
    assert(chars@ =~= text@);
    chars
}

/// The text made of the characters from `from` up to `to`.
pub fn text_of(chars: &Vec<char>, from: usize, to: usize) -> (text: String)
    requires
        from <= to <= chars@.len(),
    ensures
        text@ == chars@.subrange(from as int, to as int),
{
    let mut text = String::new();
    let mut at: usize = from;
    assert(text@ =~= chars@.subrange(from as int, from as int));
    while at < to
        invariant
            from <= at <= to <= chars@.len(),
            text@ == chars@.subrange(from as int, at as int),
        decreases to - at,
    {
        push_char(&mut text, chars[at]);
        at = at + 1;
        assert(text@ =~= chars@.subrange(from as int, at as int));
    }
    text
}

fn digit_char(n: u64) -> (c: char)
    requires
        n < 10,
    ensures
        c == digit(n as nat),
{
    if n == 0 {
        '0'
    } else if n == 1 {
        '1'
    } else if n == 2 {
        '2'
    } else if n == 3 {
        '3'
    } else if n == 4 {
        '4'
    } else if n == 5 {
        '5'
    } else if n == 6 {
        '6'
    } else if n == 7 {
        '7'
    } else if n == 8 {
        '8'
    } else {
        '9'
    }
}

/// A number written in decimal.
pub fn decimal_text(n: u64) -> (text: String)
    ensures
        text@ == decimal(n as nat),
    decreases n,
{
    if n < 10 {
        let mut text = String::new();
        push_char(&mut text, digit_char(n));
        assert(text@ =~= decimal(n as nat));
        text
    } else {
        let mut text = decimal_text(n / 10);
        push_char(&mut text, digit_char(n % 10));
        text
    }
}

/// An integer written in decimal.
pub fn signed_decimal_text(n: i64) -> (text: String)
    ensures
        text@ == signed_decimal(n as int),
{
    if n < 0 {
        let mut text = String::new();
        push_char(&mut text, '-');
        let magnitude: u64 = (-(n as i128)) as u64;
        text.append(decimal_text(magnitude).as_str());
        assert(text@ =~= signed_decimal(n as int));
        text
    } else {
        decimal_text(n as u64)
    }
}

/// Two texts, one behind the other.
pub fn joined(first: &str, second: &str) -> (text: String)
    ensures
        text@ == first@ + second@,
{
    let mut text = first.to_owned();
    text.append(second);
    text
}

/// Whether two texts are the same.
pub fn same_text(first: &str, second: &str) -> (same: bool)
    ensures
        same == (first@ == second@),
{
    first.to_owned() == second.to_owned()
}

/// Texts one behind the other, with a separator between each two.
pub open spec fn join(parts: Seq<Seq<char>>, separator: Seq<char>) -> Seq<char>
    decreases parts.len(),
{
    if parts.len() == 0 {
        Seq::empty()
    } else if parts.len() == 1 {
        parts[0]
    } else {
        join(parts.drop_last(), separator) + separator + parts.last()
    }
}

/// What the texts of a list say.
pub open spec fn texts(parts: Seq<String>) -> Seq<Seq<char>> {
    Seq::new(parts.len(), |i: int| parts[i]@)
}

/// Texts one behind the other, with a separator between each two.
pub fn join_texts(parts: &Vec<String>, separator: &str) -> (text: String)
    ensures
        text@ == join(texts(parts@), separator@),
{
    let mut text = String::new();
    let mut at: usize = 0;
    assert(text@ =~= join(texts(parts@).take(0), separator@));
    while at < parts.len()
        invariant
            at <= parts@.len(),
            text@ == join(texts(parts@).take(at as int), separator@),
        decreases parts@.len() - at,
    {
        let ghost before = text@;
        if at > 0 {
            text.append(separator);
        }
        text.append(parts[at].as_str());
        proof {
            let longer = texts(parts@).take(at + 1);
            assert(longer.drop_last() =~= texts(parts@).take(at as int));
            assert(longer.last() == parts@[at as int]@);
            assert(text@ =~= join(longer, separator@));
        }
        at = at + 1;
    }
    assert(texts(parts@).take(at as int) =~= texts(parts@));
    text
}

/// Whether two lists hold the same texts in the same order.
pub fn same_texts(first: &Vec<String>, second: &Vec<String>) -> (same: bool)
    ensures
        same == (texts(first@) == texts(second@)),
{
    if first.len() != second.len() {
        assert(texts(first@).len() != texts(second@).len());
        return false;
    }
    let mut at: usize = 0;
    while at < first.len()
        invariant
            at <= first@.len(),
            first@.len() == second@.len(),
            forall|i: int| 0 <= i < at ==> texts(first@)[i] == texts(second@)[i],
        decreases first@.len() - at,
    {
        if first[at] != second[at] {
            assert(texts(first@)[at as int] != texts(second@)[at as int]);
            return false;
        }
        at = at + 1;
    }
    assert(texts(first@) =~= texts(second@));
    true
}

/// Whether a text is in a list.
pub fn contains_text(list: &Vec<String>, wanted: &str) -> (contains: bool)
    ensures
        contains == texts(list@).contains(wanted@),
{
    let mut at: usize = 0;
    while at < list.len()
        invariant
            at <= list@.len(),
            forall|i: int| 0 <= i < at ==> texts(list@)[i] != wanted@,
        decreases list@.len() - at,
    {
        if same_text(list[at].as_str(), wanted) {
            assert(texts(list@)[at as int] == wanted@);
            return true;
        }
        at = at + 1;
    }
    false
}

/// Whether a text begins with another.
pub open spec fn begins_with(text: Seq<char>, prefix: Seq<char>) -> bool {
    prefix.len() <= text.len() && text.take(prefix.len() as int) == prefix
}

/// Whether the characters begin with a text.
pub fn chars_begin_with(chars: &Vec<char>, prefix: &str) -> (begins: bool)
    ensures
        begins == begins_with(chars@, prefix@),
{
    let wanted = chars_of(prefix);
    if wanted.len() > chars.len() {
        return false;
    }
    let mut at: usize = 0;
    while at < wanted.len()
        invariant
            wanted@ == prefix@,
            at <= prefix@.len() <= chars@.len(),
            forall|i: int| 0 <= i < at ==> chars@[i] == prefix@[i],
        decreases prefix@.len() - at,
    {
        if chars[at] != wanted[at] {
            assert(chars@.take(prefix@.len() as int)[at as int] != prefix@[at as int]);
            return false;
        }
        at = at + 1;
    }
    assert(chars@.take(prefix@.len() as int) =~= prefix@);
    true
}

/// Whether a text begins with another.
pub fn starts_with(text: &str, prefix: &str) -> (begins: bool)
    ensures
        begins == begins_with(text@, prefix@),
{
    let chars = chars_of(text);
    chars_begin_with(&chars, prefix)
}

/// What follows a text that it begins with.
pub fn strip_prefix(text: &str, prefix: &str) -> (rest: Option<String>)
    ensures
        match rest {
            Some(rest) => begins_with(text@, prefix@) && rest@ == text@.skip(prefix@.len() as int),
            None => !begins_with(text@, prefix@),
        },
{
    let chars = chars_of(text);
    if !chars_begin_with(&chars, prefix) {
        return None;
    }
    let from: usize = chars_of(prefix).len();
    let rest = text_of(&chars, from, chars.len());
    assert(rest@ =~= text@.skip(prefix@.len() as int));
    Some(rest)
}

/// The pieces of a text between the characters that separate them. There is always one piece
/// more than there are separators, and a piece may be empty.
pub open spec fn split(text: Seq<char>, separates: spec_fn(char) -> bool) -> Seq<Seq<char>>
    decreases text.len(),
{
    if text.len() == 0 {
        seq![Seq::empty()]
    } else {
        let pieces = split(text.drop_last(), separates);
        if separates(text.last()) {
            pieces.push(Seq::empty())
        } else {
            pieces.update(pieces.len() - 1, pieces.last().push(text.last()))
        }
    }
}

/// Says of a character whether it is the given one.
pub open spec fn is_char(wanted: char) -> spec_fn(char) -> bool {
    |c: char| c == wanted
}

/// Says of a character whether it is white space.
pub open spec fn is_white_space() -> spec_fn(char) -> bool {
    |c: char|
        '\u{9}' <= c <= '\u{d}' || c == ' ' || c == '\u{85}' || c == '\u{a0}' || c == '\u{1680}'
            || '\u{2000}' <= c <= '\u{200a}' || c == '\u{2028}' || c == '\u{2029}' || c
            == '\u{202f}' || c == '\u{205f}' || c == '\u{3000}'
}

/// What separates the pieces of a text.
#[derive(Clone, Copy, Debug)]
pub enum Separator {
    Char(char),
    WhiteSpace,
}

impl Separator {
    /// Says of a character whether it separates.
    pub open spec fn separates(self) -> spec_fn(char) -> bool {
        match self {
            Separator::Char(wanted) => is_char(wanted),
            Separator::WhiteSpace => is_white_space(),
        }
    }

    fn matches(&self, c: char) -> (separates: bool)
        ensures
            separates == self.separates()(c),
    {
        match self {
            Separator::Char(wanted) => c == *wanted,
            Separator::WhiteSpace => '\u{9}' <= c && c <= '\u{d}' || c == ' ' || c == '\u{85}' || c
                == '\u{a0}' || c == '\u{1680}' || '\u{2000}' <= c && c <= '\u{200a}' || c
                == '\u{2028}' || c == '\u{2029}' || c == '\u{202f}' || c == '\u{205f}' || c
                == '\u{3000}',
        }
    }
}

/// The pieces of a text.
pub fn split_text(text: &str, separator: Separator) -> (pieces: Vec<String>)
    ensures
        texts(pieces@) == split(text@, separator.separates()),
        pieces@.len() > 0,
{
    let chars = chars_of(text);
    let mut pieces: Vec<String> = Vec::new();
    let mut piece = String::new();
    let mut at: usize = 0;
    assert(chars@.take(0) =~= Seq::empty());
    assert(texts(pieces@).push(piece@) =~= seq![Seq::<char>::empty()]);
    while at < chars.len()
        invariant
            at <= chars@.len(),
            texts(pieces@).push(piece@) == split(chars@.take(at as int), separator.separates()),
        decreases chars@.len() - at,
    {
        let ghost before = texts(pieces@);
        let ghost so_far = piece@;
        let c = chars[at];
        assert(chars@.take(at + 1).drop_last() =~= chars@.take(at as int));
        if separator.matches(c) {
            pieces.push(piece);
            piece = String::new();
            assert(texts(pieces@) =~= before.push(so_far));
        } else {
            push_char(&mut piece, c);
        }
        at = at + 1;
        assert(texts(pieces@).push(piece@) =~= split(
            chars@.take(at as int),
            separator.separates(),
        ));
    }
    assert(chars@.take(at as int) =~= chars@);
    let ghost before = texts(pieces@);
    let ghost so_far = piece@;
    pieces.push(piece);
    assert(texts(pieces@) =~= before.push(so_far));
    pieces
}

/// What a text says that may be missing.
pub open spec fn said(text: Option<String>) -> Option<Seq<char>> {
    match text {
        Some(text) => Some(text@),
        None => None,
    }
}

/// A copy of a list of texts.
pub fn copied_texts(parts: &Vec<String>) -> (copy: Vec<String>)
    ensures
        texts(copy@) == texts(parts@),
{
    let mut copy: Vec<String> = Vec::new();
    let mut at: usize = 0;
    while at < parts.len()
        invariant
            at <= parts@.len(),
            copy@ == parts@.take(at as int),
        decreases parts@.len() - at,
    {
        copy.push(parts[at].clone());
        at = at + 1;
        assert(copy@ =~= parts@.take(at as int));
    }
    assert(parts@.take(at as int) =~= parts@);
    copy
}

/// A copy of a text that may be missing.
pub fn copied(text: &Option<String>) -> (copy: Option<String>)
    ensures
        copy == *text,
{
    match text {
        Some(text) => Some(text.clone()),
        None => None,
    }
}

/// What pairs of texts say.
pub open spec fn text_pairs(pairs: Seq<(String, String)>) -> Seq<(Seq<char>, Seq<char>)> {
    Seq::new(pairs.len(), |i: int| (pairs[i].0@, pairs[i].1@))
}

/// The number that decimal digits stand for.
pub open spec fn value_of(digits: Seq<char>) -> int
    decreases digits.len(),
{
    if digits.len() == 0 {
        0
    } else {
        10 * value_of(digits.drop_last()) + (digits.last() as int - '0' as int)
    }
}

/// A natural number is written with nothing but digits, without a zero in front, and so that it
/// can be read again.
pub proof fn decimal_can_be_read(n: nat)
    ensures
        value_of(decimal(n)) == n,
        forall|i: int| 0 <= i < decimal(n).len() ==> '0' <= #[trigger] decimal(n)[i] <= '9',
        n > 0 ==> decimal(n)[0] != '0',
        n < 10 ==> decimal(n).len() == 1,
    decreases n,
{
    if n < 10 {
        assert(decimal(n).drop_last() =~= Seq::empty());
        assert(value_of(decimal(n).drop_last()) == 0);
    } else {
        decimal_can_be_read(n / 10);
        decimal_has_digits(n / 10);
        assert(decimal(n).drop_last() =~= decimal(n / 10));
        assert forall|i: int| 0 <= i < decimal(n).len() implies '0' <= #[trigger] decimal(n)[i]
            <= '9' by {
            if i < decimal(n / 10).len() {
                assert(decimal(n)[i] == decimal(n / 10)[i]);
            }
        }
        assert(decimal(n)[0] == decimal(n / 10)[0]);
    }
}

/// An integer is written as its size is, with a minus sign in front where it is negative.
pub proof fn signed_decimal_can_be_read(n: nat)
    ensures
        value_of(signed_decimal(n as int)) == n,
        n > 0 ==> signed_decimal(-(n as int))[0] == '-' && value_of(
            signed_decimal(-(n as int)).skip(1),
        ) == n,
{
    decimal_can_be_read(n);
    if n > 0 {
        assert(signed_decimal(-(n as int)).skip(1) =~= decimal(n));
    }
}

/// Joining one text gives that text, joining none gives nothing, and joining more texts behind
/// others puts one separator between the two.
pub proof fn joined_texts_stand_one_behind_the_other(
    front: Seq<Seq<char>>,
    back: Seq<Seq<char>>,
    one: Seq<char>,
    separator: Seq<char>,
)
    ensures
        join(Seq::empty(), separator) == Seq::<char>::empty(),
        join(seq![one], separator) == one,
        front.len() > 0 && back.len() > 0 ==> join(front + back, separator) == join(
            front,
            separator,
        ) + separator + join(back, separator),
    decreases back.len(),
{
    if front.len() > 0 && back.len() > 0 {
        let all = front + back;
        assert(all.drop_last() =~= front + back.drop_last());
        if back.len() == 1 {
            assert(front + back.drop_last() =~= front);
        } else {
            joined_texts_stand_one_behind_the_other(front, back.drop_last(), one, separator);
            assert(join(all, separator) =~= join(front, separator) + separator + join(
                back,
                separator,
            ));
        }
    }
}

/// A text without anything that separates is one piece, and where a character separates, the
/// pieces before it are followed by those behind it.
pub proof fn text_is_split_at_separators(
    front: Seq<char>,
    c: char,
    back: Seq<char>,
    separates: spec_fn(char) -> bool,
)
    ensures
        (forall|i: int| 0 <= i < front.len() ==> !separates(#[trigger] front[i])) ==> split(
            front,
            separates,
        ) == seq![front],
        separates(c) ==> split(front.push(c) + back, separates) == split(front, separates) + split(
            back,
            separates,
        ),
    decreases front.len() + back.len(),
{
    if forall|i: int| 0 <= i < front.len() ==> !separates(#[trigger] front[i]) {
        if front.len() > 0 {
            let shorter = front.drop_last();
            assert(forall|i: int| 0 <= i < shorter.len() ==> shorter[i] == front[i]);
            text_is_split_at_separators(shorter, c, Seq::empty(), separates);
            assert(!separates(front[front.len() - 1]));
            assert(shorter.push(front.last()) =~= front);
        } else {
            assert(front =~= Seq::empty());
        }
        assert(split(front, separates) =~= seq![front]);
    }
    if separates(c) {
        let all = front.push(c) + back;
        if back.len() == 0 {
            assert(all.drop_last() =~= front);
            assert(all.last() == c);
        } else {
            assert(all.drop_last() =~= front.push(c) + back.drop_last());
            text_is_split_at_separators(front, c, back.drop_last(), separates);
            split_has_a_piece(back.drop_last(), separates);
            split_has_a_piece(front, separates);
        }
        assert(split(all, separates) =~= split(front, separates) + split(back, separates));
    }
}

proof fn split_has_a_piece(text: Seq<char>, separates: spec_fn(char) -> bool)
    ensures
        split(text, separates).len() > 0,
    decreases text.len(),
{
    if text.len() > 0 {
        split_has_a_piece(text.drop_last(), separates);
    }
}

/// The pieces of a text, joined by what they were split at, are the text again.
pub proof fn joining_undoes_splitting(text: Seq<char>, c: char)
    ensures
        split(text, is_char(c)).len() > 0,
        join(split(text, is_char(c)), seq![c]) == text,
    decreases text.len(),
{
    let pieces = split(text, is_char(c));
    if text.len() == 0 {
        assert(text =~= Seq::empty());
    } else {
        let shorter = text.drop_last();
        let fewer = split(shorter, is_char(c));
        joining_undoes_splitting(shorter, c);
        if text.last() == c {
            assert(pieces.drop_last() =~= fewer);
            assert(join(pieces, seq![c]) =~= shorter.push(c));
        } else {
            assert(pieces.drop_last() =~= fewer.drop_last());
            if fewer.len() == 1 {
                assert(join(pieces, seq![c]) =~= shorter.push(text.last()));
            } else {
                assert(join(pieces, seq![c]) =~= shorter.push(text.last()));
            }
        }
        assert(shorter.push(text.last()) =~= text);
    }
}

/// A text begins with another exactly where it is that one and something behind it.
pub proof fn beginning_and_rest_make_the_text(
    text: Seq<char>,
    prefix: Seq<char>,
    rest: Seq<char>,
)
    ensures
        begins_with(prefix + rest, prefix),
        (prefix + rest).skip(prefix.len() as int) == rest,
        begins_with(text, prefix) ==> prefix + text.skip(prefix.len() as int) == text,
{
    assert((prefix + rest).take(prefix.len() as int) =~= prefix);
    assert((prefix + rest).skip(prefix.len() as int) =~= rest);
    if begins_with(text, prefix) {
        assert(text.take(prefix.len() as int) + text.skip(prefix.len() as int) =~= text);
    }
}

} // verus!
