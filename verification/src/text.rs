//! Text as sequences of characters: splitting, joining, replacing, letter case and decimal
//! numbers, each with a mathematical definition and an executable function proved against it.
use std::collections::VecDeque;
use vstd::prelude::*;
use vstd::utf8::is_ascii_chars;

verus! {

/// `String::push` appends the given character to the end of the string.
pub assume_specification[ String::push ](s: &mut String, c: char)
    ensures
        final(s)@ == old(s)@.push(c),
;

/// What `str::to_lowercase` makes of a text.
pub uninterp spec fn lowercase(s: Seq<char>) -> Seq<char>;

/// `str::to_lowercase` maps a text to its small letters by the rules of Unicode, which for ASCII
/// text change the letters `A` to `Z` and nothing else.
#[verifier::external_body]
pub(crate) fn lowercase_text(s: &str) -> (r: String)
    ensures
        r@ == lowercase(s@),
        is_ascii_chars(s@) ==> r@ == ascii_lowercase(s@),
{
    s.to_lowercase()
}

/// The characters of a text that may be missing.
pub open spec fn optional_str(text: Option<&str>) -> Option<Seq<char>> {
    match text {
        Some(text) => Some(text@),
        None => None,
    }
}

/// The characters of each string of a list.
pub open spec fn texts(list: Seq<String>) -> Seq<Seq<char>> {
    list.map_values(|s: String| s@)
}

/// The characters of both strings of each pair of a list.
pub open spec fn pair_texts(list: Seq<(String, String)>) -> Seq<(Seq<char>, Seq<char>)> {
    list.map_values(|p: (String, String)| (p.0@, p.1@))
}

/// Whether no name occurs twice in a list of named things.
pub open spec fn names_differ<T>(list: Seq<(Seq<char>, T)>) -> bool {
    forall|i: int, j: int|
        0 <= i < j < list.len() ==> (#[trigger] list[i]).0 != (#[trigger] list[j]).0
}

/// The characters of the strings in a queue.
pub open spec fn queue_texts(queue: Seq<&String>) -> Seq<Seq<char>> {
    queue.map_values(|s: &String| s@)
}

/// The text cut at every occurrence of `sep`: one field more than there are separators.
pub open spec fn split(s: Seq<char>, sep: char) -> Seq<Seq<char>>
    decreases s.len(),
{
    if s.len() == 0 {
        seq![Seq::empty()]
    } else {
        let before = split(s.drop_last(), sep);
        if s.last() == sep {
            before.push(Seq::empty())
        } else {
            before.drop_last().push(before.last().push(s.last()))
        }
    }
}

/// The fields one after the other, with `sep` between each two neighbours.
pub open spec fn join(fields: Seq<Seq<char>>, sep: Seq<char>) -> Seq<char>
    decreases fields.len(),
{
    if fields.len() == 0 {
        Seq::empty()
    } else if fields.len() == 1 {
        fields[0]
    } else {
        join(fields.drop_last(), sep) + sep + fields.last()
    }
}

/// Every occurrence of `from`, found left to right without overlap, replaced by `to`.
pub open spec fn replaced(s: Seq<char>, from: Seq<char>, to: Seq<char>) -> Seq<char>
    decreases s.len(),
{
    if from.len() == 0 || s.len() < from.len() {
        s
    } else if s.take(from.len() as int) == from {
        to + replaced(s.skip(from.len() as int), from, to)
    } else {
        seq![s[0]] + replaced(s.skip(1), from, to)
    }
}

/// An ASCII capital letter as a small letter; any other character as it is.
pub open spec fn ascii_lower(c: char) -> char {
    if 'A' <= c <= 'Z' {
        ((c as u32 + 32) as u32) as char
    } else {
        c
    }
}

/// The text with its ASCII capital letters made small.
pub open spec fn ascii_lowercase(s: Seq<char>) -> Seq<char> {
    s.map_values(|c: char| ascii_lower(c))
}

/// The value of a decimal digit, or `None` for any other character.
pub open spec fn digit_value(c: char) -> Option<nat> {
    if '0' <= c <= '9' {
        Some((c as u32 - '0' as u32) as nat)
    } else {
        None
    }
}

/// The decimal digit of a number below ten.
pub open spec fn digit_char(d: nat) -> char {
    (('0' as u32 + d) as u32) as char
}

/// Whether the text consists of decimal digits alone, one at least.
pub open spec fn is_digits(s: Seq<char>) -> bool {
    s.len() > 0 && forall|i: int| 0 <= i < s.len() ==> digit_value(#[trigger] s[i]) is Some
}

/// The number that a text of decimal digits stands for.
pub open spec fn digits_value(s: Seq<char>) -> nat
    decreases s.len(),
{
    if s.len() == 0 {
        0
    } else {
        digits_value(s.drop_last()) * 10 + digit_value(s.last()).unwrap()
    }
}

/// The text without a leading plus sign, where it has one.
pub open spec fn without_plus(s: Seq<char>) -> Seq<char> {
    if s.len() > 0 && s[0] == '+' {
        s.skip(1)
    } else {
        s
    }
}

/// The number below 65536 that a text writes down: decimal digits, with an optional plus sign
/// in front of them and nothing else.
pub open spec fn u16_of_text(s: Seq<char>) -> Option<u16> {
    let digits = without_plus(s);
    if is_digits(digits) && digits_value(digits) <= u16::MAX {
        Some(digits_value(digits) as u16)
    } else {
        None
    }
}

/// A number in decimal digits, without leading zeros.
pub open spec fn decimal(n: nat) -> Seq<char>
    decreases n,
{
    if n < 10 {
        seq![digit_char(n)]
    } else {
        decimal(n / 10).push(digit_char(n % 10))
    }
}

/// Compares two texts character by character.
pub fn same_text(a: &str, b: &str) -> (r: bool)
    ensures
        r == (a@ == b@),
{
    a.to_owned() == b.to_owned()
}

/// The characters of a text in a list.
pub fn chars_of(s: &str) -> (r: Vec<char>)
    ensures
        r@ == s@,
{
    let mut out: Vec<char> = Vec::new();
    for c in it: s.chars()
        invariant
            out@ == it.seq().take(it.index() as int),
            it.seq() == s@,
    {
        out.push(c);
    }
    out
}

/// Whether the list holds a text.
pub fn contains_text(list: &[String], text: &str) -> (r: bool)
    ensures
        r == texts(list@).contains(text@),
{
    let mut i: usize = 0;
    while i < list.len()
        invariant
            i <= list@.len(),
            forall|j: int| 0 <= j < i ==> texts(list@)[j] != text@,
        decreases list@.len() - i,
    {
        if same_text(list[i].as_str(), text) {
            assert(texts(list@)[i as int] == text@);
            return true;
        }
        i += 1;
    }
    false
}

/// A copy of a list of texts.
pub fn copy_texts(list: &Vec<String>) -> (r: Vec<String>)
    ensures
        texts(r@) == texts(list@),
        r@.len() == list@.len(),
{
    let mut out: Vec<String> = Vec::new();
    let mut i: usize = 0;
    while i < list.len()
        invariant
            i <= list@.len(),
            texts(out@) == texts(list@).take(i as int),
        decreases list@.len() - i,
    {
        let ghost before = texts(out@);
        out.push(list[i].clone());
        assert(texts(out@) =~= before.push(texts(list@)[i as int]));
        assert(texts(out@) =~= texts(list@).take(i + 1));
        i += 1;
    }
    assert(texts(list@).take(i as int) =~= texts(list@));
    assert(texts(out@).len() == out@.len());
    out
}

/// A copy of a list of texts without the first.
pub fn copy_tail(list: &Vec<String>) -> (r: Vec<String>)
    requires
        list@.len() > 0,
    ensures
        texts(r@) == texts(list@).skip(1),
{
    let mut out: Vec<String> = Vec::new();
    let mut i: usize = 1;
    assert(texts(out@) =~= texts(list@).subrange(1, 1));
    while i < list.len()
        invariant
            1 <= i <= list@.len(),
            texts(out@) == texts(list@).subrange(1, i as int),
        decreases list@.len() - i,
    {
        let ghost before = texts(out@);
        out.push(list[i].clone());
        assert(texts(out@) =~= before.push(texts(list@)[i as int]));
        assert(texts(out@) =~= texts(list@).subrange(1, i + 1));
        i += 1;
    }
    assert(texts(list@).subrange(1, i as int) =~= texts(list@).skip(1));
    out
}

/// Puts the elements of a path into a queue.
pub fn path_queue(path: &Vec<String>) -> (r: VecDeque<&String>)
    ensures
        queue_texts(r@) == texts(path@),
{
    let mut queue: VecDeque<&String> = VecDeque::new();
    let mut i: usize = 0;
    while i < path.len()
        invariant
            i <= path@.len(),
            queue_texts(queue@) == texts(path@).take(i as int),
        decreases path@.len() - i,
    {
        let ghost before = queue_texts(queue@);
        queue.push_back(&path[i]);
        assert(queue_texts(queue@) =~= before.push(texts(path@)[i as int]));
        assert(queue_texts(queue@) =~= texts(path@).take(i + 1));
        i += 1;
    }
    assert(texts(path@).take(i as int) =~= texts(path@));
    queue
}

/// Cuts a text at every occurrence of a character, as [`split`] defines it.
pub fn split_text(s: &str, sep: char) -> (r: Vec<String>)
    ensures
        texts(r@) == split(s@, sep),
{
    let mut done: Vec<String> = Vec::new();
    let mut field: String = String::new();
    assert(s@.take(0) =~= Seq::<char>::empty());
    assert(texts(done@).push(field@) =~= split(s@.take(0), sep));
    for c in it: s.chars()
        invariant
            it.seq() == s@,
            texts(done@).push(field@) == split(s@.take(it.index() as int), sep),
    {
        let ghost before = texts(done@);
        let ghost i = it.index() as int;
        assert(s@.take(i + 1).drop_last() =~= s@.take(i));
        assert(split(s@.take(i), sep).last() == field@);
        assert(split(s@.take(i), sep).drop_last() =~= before);
        if c == sep {
            done.push(field);
            field = String::new();
            assert(texts(done@) =~= split(s@.take(i), sep));
        } else {
            field.push(c);
        }
        assert(texts(done@).push(field@) =~= split(s@.take(i + 1), sep));
    }
    assert(s@.take(s@.len() as int) =~= s@);
    let ghost fields = texts(done@).push(field@);
    done.push(field);
    assert(texts(done@) =~= fields);
    done
}

/// Puts a separator between the texts of a list, as [`join`] defines it.
pub fn join_texts(list: &Vec<String>, sep: &str) -> (r: String)
    ensures
        r@ == join(texts(list@), sep@),
{
    let mut out: String = String::new();
    let mut i: usize = 0;
    while i < list.len()
        invariant
            i <= list@.len(),
            out@ == join(texts(list@).take(i as int), sep@),
        decreases list@.len() - i,
    {
        let ghost fields = texts(list@);
        assert(fields.take(i + 1).drop_last() =~= fields.take(i as int));
        assert(fields.take(i + 1).last() == list@[i as int]@);
        if i > 0 {
            out.append(sep);
        }
        out.append(list[i].as_str());
        assert(out@ =~= join(fields.take(i + 1), sep@));
        i += 1;
    }
    assert(texts(list@).take(i as int) =~= texts(list@));
    out
}

/// Whether `part` stands in `whole` at position `at`.
fn stands_at(whole: &Vec<char>, at: usize, part: &Vec<char>) -> (r: bool)
    requires
        at + part@.len() <= whole@.len(),
    ensures
        r == (whole@.skip(at as int).take(part@.len() as int) == part@),
{
    let ghost there = whole@.skip(at as int).take(part@.len() as int);
    let total = whole.len();
    let mut j: usize = 0;
    while j < part.len()
        invariant
            j <= part@.len(),
            total == whole@.len(),
            at + part@.len() <= total,
            there == whole@.skip(at as int).take(part@.len() as int),
            forall|k: int| 0 <= k < j ==> there[k] == part@[k],
        decreases part@.len() - j,
    {
        if whole[at + j] != part[j] {
            assert(there[j as int] != part@[j as int]);
            return false;
        }
        j += 1;
    }
    assert(there =~= part@);
    true
}

/// Replaces every occurrence of a text by another, as [`replaced`] defines it.
pub fn replace_text(s: &str, from: &str, to: &str) -> (r: String)
    requires
        from@.len() > 0,
    ensures
        r@ == replaced(s@, from@, to@),
{
    let whole = chars_of(s);
    let part = chars_of(from);
    let mut out: String = String::new();
    let mut i: usize = 0;
    assert(whole@.skip(0) =~= whole@);
    while part.len() <= whole.len() - i
        invariant
            i <= whole@.len(),
            whole@ == s@,
            part@ == from@,
            part@.len() > 0,
            out@ + replaced(s@.skip(i as int), from@, to@) == replaced(s@, from@, to@),
        decreases whole@.len() - i,
    {
        let ghost rest = s@.skip(i as int);
        let ghost target = replaced(s@, from@, to@);
        if stands_at(&whole, i, &part) {
            out.append(to);
            assert(rest.skip(from@.len() as int) =~= s@.skip(i + from@.len()));
            i += part.len();
        } else {
            out.push(whole[i]);
            assert(rest.skip(1) =~= s@.skip(i + 1));
            i += 1;
        }
        assert(out@ + replaced(s@.skip(i as int), from@, to@) =~= target);
    }
    let ghost before = out@;
    let ghost start = i;
    while i < whole.len()
        invariant
            start <= i <= whole@.len(),
            whole@ == s@,
            out@ == before + s@.subrange(start as int, i as int),
        decreases whole@.len() - i,
    {
        out.push(whole[i]);
        i += 1;
        assert(out@ =~= before + s@.subrange(start as int, i as int));
    }
    assert(s@.subrange(start as int, i as int) =~= s@.skip(start as int));
    out
}

/// Makes the ASCII capital letters of a text small.
pub fn ascii_lowercase_text(s: &str) -> (r: String)
    ensures
        r@ == ascii_lowercase(s@),
{
    let mut out: String = String::new();
    for c in it: s.chars()
        invariant
            it.seq() == s@,
            out@ == ascii_lowercase(s@.take(it.index() as int)),
    {
        let small: char = if 'A' <= c && c <= 'Z' {
            small_letter(c)
        } else {
            c
        };
        out.push(small);
        assert(out@ =~= ascii_lowercase(s@.take(it.index() as int + 1)));
    }
    assert(s@.take(s@.len() as int) =~= s@);
    out
}

/// The small letter of an ASCII capital letter.
fn small_letter(c: char) -> (r: char)
    requires
        'A' <= c <= 'Z',
    ensures
        r == ascii_lower(c),
{
    (c as u8 + 32) as char
}

/// The number that a decimal digit stands for.
fn digit_of(c: char) -> (r: Option<u32>)
    ensures
        match r {
            Some(d) => digit_value(c) == Some(d as nat) && d < 10,
            None => digit_value(c) is None,
        },
{
    if '0' <= c && c <= '9' {
        Some(c as u32 - '0' as u32)
    } else {
        None
    }
}

/// Reads a number below 65536, as [`u16_of_text`] defines it.
pub fn parse_u16(s: &str) -> (r: Option<u16>)
    ensures
        r == u16_of_text(s@),
{
    let chars = chars_of(s);
    let start: usize = if chars.len() > 0 && chars[0] == '+' {
        1
    } else {
        0
    };
    let ghost digits = without_plus(s@);
    assert(digits =~= s@.skip(start as int));
    if start == chars.len() {
        return None;
    }
    let mut value: u32 = 0;
    let mut too_large: bool = false;
    let mut i: usize = start;
    while i < chars.len()
        invariant
            start <= i <= chars@.len(),
            start <= 1,
            chars@ == s@,
            digits == s@.skip(start as int),
            digits == without_plus(s@),
            forall|k: int| 0 <= k < i - start ==> digit_value(#[trigger] digits[k]) is Some,
            too_large <==> digits_value(digits.take(i - start)) > u16::MAX,
            !too_large ==> value == digits_value(digits.take(i - start)),
        decreases chars@.len() - i,
    {
        let ghost k = i - start;
        assert(digits[k] == chars@[i as int]);
        assert(digits.take(k + 1).drop_last() =~= digits.take(k));
        match digit_of(chars[i]) {
            None => {
                return None;
            },
            Some(d) => {
                if !too_large {
                    value = value * 10 + d;
                    if value > 65535 {
                        too_large = true;
                    }
                }
            },
        }
        i += 1;
    }
    assert(digits.take(i - start) =~= digits);
    if too_large {
        None
    } else {
        Some(value as u16)
    }
}

/// Writes a number in decimal digits, as [`decimal`] defines it.
pub fn decimal_text(n: u16) -> (r: String)
    ensures
        r@ == decimal(n as nat),
    decreases n,
{
    let digit = (48u8 + (n % 10) as u8) as char;
    if n < 10 {
        let mut out = String::new();
        out.push(digit);
        assert(out@ =~= seq![digit]);
        out
    } else {
        let mut out = decimal_text(n / 10);
        out.push(digit);
        out
    }
}

/// Cutting a text gives one field at least.
pub proof fn split_has_a_field(s: Seq<char>, sep: char)
    ensures
        split(s, sep).len() >= 1,
    decreases s.len(),
{
    if s.len() > 0 {
        split_has_a_field(s.drop_last(), sep);
    }
}

/// No field of a text that was cut holds the separator.
pub proof fn split_fields_hold_no_separator(s: Seq<char>, sep: char)
    ensures
        forall|i: int|
            0 <= i < split(s, sep).len() ==> !(#[trigger] split(s, sep)[i]).contains(sep),
    decreases s.len(),
{
    if s.len() > 0 {
        let before = split(s.drop_last(), sep);
        split_has_a_field(s.drop_last(), sep);
        split_fields_hold_no_separator(s.drop_last(), sep);
        if s.last() != sep {
            let field = before.last().push(s.last());
            assert(!before[before.len() - 1].contains(sep));
            assert(!field.contains(sep)) by {
                if field.contains(sep) {
                    let k = choose|k: int| 0 <= k < field.len() && field[k] == sep;
                    assert(before.last()[k] == sep);
                }
            }
        }
    }
}

/// The fields of a text that was cut, joined again, are the text.
pub proof fn join_undoes_split(s: Seq<char>, sep: char)
    ensures
        join(split(s, sep), seq![sep]) == s,
    decreases s.len(),
{
    if s.len() > 0 {
        let before = split(s.drop_last(), sep);
        split_has_a_field(s.drop_last(), sep);
        join_undoes_split(s.drop_last(), sep);
        if s.last() == sep {
            assert(before.push(Seq::empty()).drop_last() =~= before);
            assert(join(split(s, sep), seq![sep]) =~= s);
        } else {
            let fields = before.drop_last().push(before.last().push(s.last()));
            assert(fields.drop_last() =~= before.drop_last());
            if before.len() == 1 {
                assert(join(fields, seq![sep]) == fields[0]);
                assert(join(before, seq![sep]) == before[0]);
            } else {
                let head = join(before.drop_last(), seq![sep]) + seq![sep];
                assert(join(fields, seq![sep]) == head + fields.last());
                assert(join(before, seq![sep]) == head + before.last());
                assert(head + fields.last() =~= (head + before.last()).push(s.last()));
            }
            assert(s.drop_last().push(s.last()) =~= s);
        }
    }
}

/// Cutting a text with more characters at its end extends its last field, where none of them is
/// the separator.
proof fn lemma_split_of_extension(s: Seq<char>, more: Seq<char>, sep: char)
    requires
        !more.contains(sep),
    ensures
        split(s + more, sep) == split(s, sep).drop_last().push(split(s, sep).last() + more),
    decreases more.len(),
{
    split_has_a_field(s, sep);
    if more.len() == 0 {
        assert(s + more =~= s);
        assert(split(s, sep).last() + more =~= split(s, sep).last());
        assert(split(s, sep).drop_last().push(split(s, sep).last()) =~= split(s, sep));
    } else {
        let rest = more.drop_last();
        assert(!rest.contains(sep)) by {
            if rest.contains(sep) {
                let k = choose|k: int| 0 <= k < rest.len() && rest[k] == sep;
                assert(more[k] == sep);
            }
        }
        assert(more.contains(more.last()));
        lemma_split_of_extension(s, rest, sep);
        assert((s + more).drop_last() =~= s + rest);
        assert((s + more).last() == more.last());
        let before = split(s + rest, sep);
        assert(before.drop_last() =~= split(s, sep).drop_last());
        assert(before.last().push(more.last()) =~= split(s, sep).last() + more);
    }
}

/// Fields that were joined, cut again, are the fields, where there is one and none of them holds
/// the separator.
pub proof fn split_undoes_join(fields: Seq<Seq<char>>, sep: char)
    requires
        fields.len() > 0,
        forall|i: int| 0 <= i < fields.len() ==> !(#[trigger] fields[i]).contains(sep),
    ensures
        split(join(fields, seq![sep]), sep) == fields,
    decreases fields.len(),
{
    let empty = Seq::<char>::empty();
    if fields.len() == 1 {
        lemma_split_of_extension(empty, fields[0], sep);
        assert(empty + fields[0] =~= fields[0]);
        assert(split(fields[0], sep) =~= fields);
    } else {
        let rest = fields.drop_last();
        assert forall|i: int| 0 <= i < rest.len() implies !(#[trigger] rest[i]).contains(sep) by {
            assert(!fields[i].contains(sep));
        }
        split_undoes_join(rest, sep);
        let head = join(rest, seq![sep]) + seq![sep];
        assert(head.drop_last() =~= join(rest, seq![sep]));
        assert(split(head, sep) =~= rest.push(empty));
        assert(!fields[fields.len() - 1].contains(sep));
        lemma_split_of_extension(head, fields.last(), sep);
        assert(split(head, sep).drop_last() =~= rest);
        assert(empty + fields.last() =~= fields.last());
        assert(rest.push(fields.last()) =~= fields);
    }
}

/// Whether a text occurs in another at a position.
pub open spec fn occurs_at(s: Seq<char>, part: Seq<char>, at: int) -> bool {
    0 <= at && at + part.len() <= s.len() && s.subrange(at, at + part.len() as int) == part
}

/// Whether a text occurs in another.
pub open spec fn occurs(s: Seq<char>, part: Seq<char>) -> bool {
    exists|at: int| occurs_at(s, part, at)
}

/// A text that occurs behind the first characters of another occurs in the whole of it.
pub(crate) proof fn lemma_occurs_in_rest(s: Seq<char>, part: Seq<char>, skipped: int)
    requires
        0 <= skipped <= s.len(),
        occurs(s.skip(skipped), part),
    ensures
        occurs(s, part),
{
    let at = choose|at: int| occurs_at(s.skip(skipped), part, at);
    assert(s.subrange(at + skipped, at + skipped + part.len()) =~= s.skip(skipped).subrange(
        at,
        at + part.len() as int,
    ));
    assert(occurs_at(s, part, at + skipped));
}

/// A text in which another does not occur is left as it is when that other is replaced.
pub proof fn replacing_nothing_changes_nothing(s: Seq<char>, from: Seq<char>, to: Seq<char>)
    requires
        !occurs(s, from),
    ensures
        replaced(s, from, to) == s,
    decreases s.len(),
{
    if from.len() > 0 && s.len() >= from.len() {
        if s.take(from.len() as int) == from {
            assert(s.subrange(0, from.len() as int) =~= s.take(from.len() as int));
            assert(occurs_at(s, from, 0));
        } else {
            if occurs(s.skip(1), from) {
                lemma_occurs_in_rest(s, from, 1);
            }
            replacing_nothing_changes_nothing(s.skip(1), from, to);
            assert(seq![s[0]] + s.skip(1) =~= s);
        }
    }
}

/// Making letters small a second time changes nothing.
pub proof fn ascii_lowercase_is_idempotent(s: Seq<char>)
    ensures
        ascii_lowercase(ascii_lowercase(s)) == ascii_lowercase(s),
{
    assert(ascii_lowercase(ascii_lowercase(s)) =~= ascii_lowercase(s));
}

/// A decimal number is digits alone, and their value is the number.
pub(crate) proof fn lemma_decimal_digits(n: nat)
    ensures
        is_digits(decimal(n)),
        digits_value(decimal(n)) == n,
    decreases n,
{
    if n < 10 {
        reveal_with_fuel(digits_value, 2);
        assert(decimal(n).drop_last() =~= Seq::empty());
        assert(digit_value(digit_char(n)) == Some(n));
    } else {
        lemma_decimal_digits(n / 10);
        let head = decimal(n / 10);
        assert(head.push(digit_char(n % 10)).drop_last() =~= head);
        assert(digit_value(digit_char(n % 10)) == Some((n % 10) as nat));
        assert forall|i: int| 0 <= i < decimal(n).len() implies digit_value(
            #[trigger] decimal(n)[i],
        ) is Some by {
            if i < head.len() {
                assert(decimal(n)[i] == head[i]);
            }
        }
    }
}

/// A number below 65536 is read back from its decimal digits.
pub proof fn number_is_read_back(n: u16)
    ensures
        u16_of_text(decimal(n as nat)) == Some(n),
{
    lemma_decimal_digits(n as nat);
    assert(digit_value(decimal(n as nat)[0]) is Some);
    assert(without_plus(decimal(n as nat)) == decimal(n as nat));
}

/// A text that stands alone is its own joining, and the joining of two lists that are put together
/// is the joining of the one, the separator, and the joining of the other.
pub proof fn lists_are_joined_piece_by_piece(
    a: Seq<Seq<char>>,
    b: Seq<Seq<char>>,
    field: Seq<char>,
    sep: Seq<char>,
)
    ensures
        join(Seq::empty(), sep) == Seq::<char>::empty(),
        join(seq![field], sep) == field,
        a.len() > 0 && b.len() > 0 ==> join(a + b, sep) == join(a, sep) + sep + join(b, sep),
    decreases b.len(),
{
    if a.len() > 0 && b.len() == 1 {
        assert((a + b).drop_last() =~= a);
    } else if a.len() > 0 && b.len() > 1 {
        let rest = b.drop_last();
        lists_are_joined_piece_by_piece(a, rest, field, sep);
        assert((a + b).drop_last() =~= a + rest);
        assert(join(a + b, sep) =~= join(a, sep) + sep + join(b, sep));
    }
}

/// What stands in front of the first occurrence of a text is left as it is when that text is
/// replaced, then comes the replacement, and what stands behind is dealt with likewise.
pub proof fn first_occurrence_is_replaced(
    s: Seq<char>,
    from: Seq<char>,
    to: Seq<char>,
    at: int,
)
    requires
        from.len() > 0,
        occurs_at(s, from, at),
        forall|j: int| 0 <= j < at ==> !occurs_at(s, from, j),
    ensures
        replaced(s, from, to) == s.take(at) + to + replaced(
            s.skip(at + from.len() as int),
            from,
            to,
        ),
    decreases s.len(),
{
    let n = from.len() as int;
    assert(s.subrange(0, n) =~= s.take(n));
    if at == 0 {
        assert(s.take(0) + to =~= to);
    } else {
        assert(!occurs_at(s, from, 0));
        let rest = s.skip(1);
        assert(rest.subrange(at - 1, at - 1 + n) =~= s.subrange(at, at + n));
        assert forall|j: int| 0 <= j < at - 1 implies !occurs_at(rest, from, j) by {
            assert(!occurs_at(s, from, j + 1));
            if occurs_at(rest, from, j) {
                assert(rest.subrange(j, j + n) =~= s.subrange(j + 1, j + 1 + n));
            }
        }
        first_occurrence_is_replaced(rest, from, to, at - 1);
        assert(rest.skip(at - 1 + n) =~= s.skip(at + n));
        assert(seq![s[0]] + (rest.take(at - 1) + to + replaced(s.skip(at + n), from, to))
            =~= s.take(at) + to + replaced(s.skip(at + n), from, to));
    }
}

/// Making letters small turns each of the capital letters into the one that ASCII has 32 places
/// later, leaves every other character as it is, and keeps the length.
pub proof fn capital_letters_are_made_small(s: Seq<char>)
    ensures
        ascii_lowercase(s).len() == s.len(),
        forall|i: int|
            0 <= i < s.len() ==> if 'A' <= s[i] <= 'Z' {
                (#[trigger] ascii_lowercase(s)[i]) as u32 == s[i] as u32 + 32
            } else {
                ascii_lowercase(s)[i] == s[i]
            },
{
}

/// A number is written by its digits: the last one behind those of the tenth part.
pub proof fn numbers_are_written_by_their_digits(n: nat, d: nat)
    requires
        d < 10,
    ensures
        decimal(d) == seq!["0123456789"@[d as int]],
        n > 0 ==> decimal(10 * n + d) == decimal(n).push("0123456789"@[d as int]),
{
    reveal_strlit("0123456789");
    assert((10 * n + d) / 10 == n && (10 * n + d) % 10 == d);
}

/// Zeros in a row.
pub open spec fn zeros_text(count: nat) -> Seq<char> {
    Seq::new(count, |i: int| '0')
}

/// A number as it can be written: with a plus sign or without, and with any number of leading
/// zeros.
pub open spec fn number_text(plus: bool, zeros: nat, n: nat) -> Seq<char> {
    (if plus {
        seq!['+']
    } else {
        Seq::empty()
    }) + (zeros_text(zeros) + decimal(n))
}

/// Digits are leading zeros and then the decimal digits of their value.
proof fn lemma_digits_are_decimal(s: Seq<char>) -> (zeros: nat)
    requires
        is_digits(s),
    ensures
        s == zeros_text(zeros) + decimal(digits_value(s)),
    decreases s.len(),
{
    let head = s.drop_last();
    let c = s.last();
    let d = digit_value(c).unwrap();
    assert(digit_value(s[s.len() - 1]) is Some);
    assert(digit_char(d) == c);
    if head.len() == 0 {
        assert(digits_value(head) == 0);
        assert(s =~= zeros_text(0) + decimal(d));
        0
    } else {
        assert forall|i: int| 0 <= i < head.len() implies digit_value(
            #[trigger] head[i],
        ) is Some by {
            assert(digit_value(s[i]) is Some);
        }
        let k = lemma_digits_are_decimal(head);
        let v = digits_value(head);
        if v == 0 {
            assert(decimal(0) =~= seq!['0']);
            assert(head =~= zeros_text((k + 1) as nat));
            assert(s =~= zeros_text((k + 1) as nat) + decimal(d));
            (k + 1) as nat
        } else {
            assert((v * 10 + d) / 10 == v && (v * 10 + d) % 10 == d as int);
            assert(decimal(v * 10 + d) =~= decimal(v).push(c));
            assert(s =~= head.push(c));
            assert((zeros_text(k) + decimal(v)).push(c) =~= zeros_text(k) + decimal(v).push(c));
            k
        }
    }
}

/// Leading zeros do not change a value.
proof fn lemma_zeros_in_front(zeros: nat, s: Seq<char>)
    requires
        is_digits(s),
    ensures
        is_digits(zeros_text(zeros) + s),
        digits_value(zeros_text(zeros) + s) == digits_value(s),
    decreases zeros + s.len(),
{
    let front = zeros_text(zeros);
    let whole = front + s;
    assert forall|i: int| 0 <= i < whole.len() implies digit_value(#[trigger] whole[i]) is Some by {
        if i >= zeros {
            assert(digit_value(s[i - zeros]) is Some);
        }
    }
    assert(whole.drop_last() =~= front + s.drop_last());
    if s.len() == 1 {
        assert(front + s.drop_last() =~= front);
        lemma_zeros_are_nothing(zeros);
        assert(s.drop_last() =~= Seq::empty());
        assert(digits_value(s.drop_last()) == 0);
    } else {
        let head = s.drop_last();
        assert forall|i: int| 0 <= i < head.len() implies digit_value(
            #[trigger] head[i],
        ) is Some by {
            assert(digit_value(s[i]) is Some);
        }
        lemma_zeros_in_front(zeros, head);
    }
}

/// Zeros alone have the value zero.
proof fn lemma_zeros_are_nothing(zeros: nat)
    ensures
        digits_value(zeros_text(zeros)) == 0,
    decreases zeros,
{
    let all = zeros_text(zeros);
    if zeros > 0 {
        assert(all.drop_last() =~= zeros_text((zeros - 1) as nat));
        lemma_zeros_are_nothing((zeros - 1) as nat);
    }
}

/// A text is read as a number below 65536 exactly where it writes that number down, with a plus
/// sign or without, and with any number of leading zeros.
pub proof fn numbers_are_read_exactly(s: Seq<char>, n: u16)
    ensures
        u16_of_text(s) == Some(n) <==> exists|plus: bool, zeros: nat|
            s == #[trigger] number_text(plus, zeros, n as nat),
{
    if u16_of_text(s) == Some(n) {
        let plus = s.len() > 0 && s[0] == '+';
        let zeros = lemma_digits_are_decimal(without_plus(s));
        assert(s =~= number_text(plus, zeros, n as nat));
    }
    if exists|plus: bool, zeros: nat| s == #[trigger] number_text(plus, zeros, n as nat) {
        let (plus, zeros) = choose|plus: bool, zeros: nat|
            s == #[trigger] number_text(plus, zeros, n as nat);
        let digits = zeros_text(zeros) + decimal(n as nat);
        lemma_decimal_digits(n as nat);
        lemma_zeros_in_front(zeros, decimal(n as nat));
        assert(digit_value(digits[0]) is Some);
        assert(without_plus(s) =~= digits);
    }
}

/// A text with a separator in its midst is cut into the fields of what stands in front of it and
/// those of what stands behind it.
pub proof fn texts_are_cut_at_a_separator(a: Seq<char>, b: Seq<char>, sep: char)
    ensures
        split(a.push(sep) + b, sep) == split(a, sep) + split(b, sep),
    decreases b.len(),
{
    split_has_a_field(a, sep);
    split_has_a_field(b, sep);
    let whole = a.push(sep) + b;
    if b.len() == 0 {
        assert(whole =~= a.push(sep));
        assert(whole.drop_last() =~= a);
        assert(split(whole, sep) =~= split(a, sep) + split(b, sep));
    } else {
        let rest = b.drop_last();
        texts_are_cut_at_a_separator(a, rest, sep);
        split_has_a_field(rest, sep);
        assert(whole.drop_last() =~= a.push(sep) + rest);
        let (front, behind) = (split(a, sep), split(rest, sep));
        assert((front + behind).drop_last() =~= front + behind.drop_last());
        assert(split(whole, sep) =~= front + split(b, sep));
    }
}

/// A text without the separator is its own only field.
pub proof fn text_without_separator_is_one_field(s: Seq<char>, sep: char)
    requires
        !s.contains(sep),
    ensures
        split(s, sep) == seq![s],
{
    let fields = seq![s];
    split_undoes_join(fields, sep);
}

/// Where a text occurs at none of the first positions of another, what stands there is left as it
/// is when the text is replaced.
pub proof fn front_without_occurrence_is_kept(
    s: Seq<char>,
    from: Seq<char>,
    to: Seq<char>,
    front: int,
)
    requires
        from.len() > 0,
        0 <= front <= s.len(),
        forall|j: int| 0 <= j < front ==> !occurs_at(s, from, j),
    ensures
        replaced(s, from, to) == s.take(front) + replaced(s.skip(front), from, to),
    decreases front,
{
    let n = from.len() as int;
    if front == 0 {
        assert(s.skip(0) =~= s);
        assert(s.take(0) + replaced(s, from, to) =~= replaced(s, from, to));
    } else if s.len() < n {
        assert(s.take(front) + s.skip(front) =~= s);
    } else {
        assert(!occurs_at(s, from, 0));
        assert(s.subrange(0, n) =~= s.take(n));
        let rest = s.skip(1);
        assert forall|j: int| 0 <= j < front - 1 implies !occurs_at(rest, from, j) by {
            assert(!occurs_at(s, from, j + 1));
            if occurs_at(rest, from, j) {
                assert(rest.subrange(j, j + n) =~= s.subrange(j + 1, j + 1 + n));
            }
        }
        front_without_occurrence_is_kept(rest, from, to, front - 1);
        assert(rest.skip(front - 1) =~= s.skip(front));
        assert(seq![s[0]] + (rest.take(front - 1) + replaced(s.skip(front), from, to)) =~= s.take(
            front,
        ) + replaced(s.skip(front), from, to));
    }
}

} // verus!
