//! Text as sequences of characters: searching, splitting and trimming.

use vstd::prelude::*;
use vstd::utf8::is_ascii_chars;

verus! {

broadcast use vstd::string::group_string_axioms;

/// A character with the Unicode property `White_Space`.
pub open spec fn is_white_space(c: char) -> bool {
    let code = c as u32;
    ||| 0x9 <= code <= 0xd
    ||| code == 0x20
    ||| code == 0x85
    ||| code == 0xa0
    ||| code == 0x1680
    ||| 0x2000 <= code <= 0x200a
    ||| code == 0x2028
    ||| code == 0x2029
    ||| code == 0x202f
    ||| code == 0x205f
    ||| code == 0x3000
}

/// The text without its leading white space.
pub open spec fn trim_start(text: Seq<char>) -> Seq<char>
    decreases text.len(),
{
    if text.len() > 0 && is_white_space(text.first()) {
        trim_start(text.drop_first())
    } else {
        text
    }
}

/// The text without its trailing white space.
pub open spec fn trim_end(text: Seq<char>) -> Seq<char>
    decreases text.len(),
{
    if text.len() > 0 && is_white_space(text.last()) {
        trim_end(text.drop_last())
    } else {
        text
    }
}

/// The text without the white space at either end.
pub open spec fn trim(text: Seq<char>) -> Seq<char> {
    trim_end(trim_start(text))
}

/// Whether the text holds nothing but white space.
pub open spec fn is_blank(text: Seq<char>) -> bool {
    trim(text).len() == 0
}

/// The lower case letter of an ASCII capital; any other character is itself.
pub open spec fn ascii_lowercase(c: char) -> char {
    if 'A' <= c <= 'Z' {
        (c as u32 + 32) as char
    } else {
        c
    }
}

/// The text in lower case, as Unicode defines it.
pub uninterp spec fn lowercase(text: Seq<char>) -> Seq<char>;

/// The lower case of a text without characters beyond ASCII is that of its letters.
pub open spec fn lowers_ascii(text: Seq<char>) -> bool {
    is_ascii_chars(text) ==> lowercase(text) == text.map_values(|c: char| ascii_lowercase(c))
}

/// Whether `text` begins with `prefix`.
pub open spec fn starts_with(text: Seq<char>, prefix: Seq<char>) -> bool {
    occurs_at(text, prefix, 0)
}

/// Whether `part` stands in `text` at position `i`.
pub open spec fn occurs_at(text: Seq<char>, part: Seq<char>, i: int) -> bool {
    &&& 0 <= i
    &&& i + part.len() <= text.len()
    &&& text.subrange(i, i + part.len()) == part
}

/// Whether `part` stands anywhere in `text`.
pub open spec fn contains(text: Seq<char>, part: Seq<char>) -> bool {
    exists|i: int| occurs_at(text, part, i)
}

/// The first position from `start` on at which `part` stands in `text`.
pub open spec fn find_from(text: Seq<char>, part: Seq<char>, start: int) -> Option<int>
    decreases text.len() - start + 1,
{
    if start < 0 || start + part.len() > text.len() {
        None
    } else if occurs_at(text, part, start) {
        Some(start)
    } else {
        find_from(text, part, start + 1)
    }
}

/// The first position at which `part` stands in `text`.
pub open spec fn find(text: Seq<char>, part: Seq<char>) -> Option<int> {
    find_from(text, part, 0)
}

/// The last position up to `start` at which `part` stands in `text`.
pub open spec fn rfind_to(text: Seq<char>, part: Seq<char>, start: int) -> Option<int>
    decreases start + 1,
{
    if start < 0 {
        None
    } else if occurs_at(text, part, start) {
        Some(start)
    } else {
        rfind_to(text, part, start - 1)
    }
}

/// The last position at which `part` stands in `text`.
pub open spec fn rfind(text: Seq<char>, part: Seq<char>) -> Option<int> {
    rfind_to(text, part, text.len() - part.len())
}

/// The pieces of `text` between the occurrences of `separator`: always one more than
/// there are separators.
pub open spec fn split(text: Seq<char>, separator: char) -> Seq<Seq<char>>
    decreases text.len(),
{
    if text.len() == 0 {
        seq![Seq::empty()]
    } else {
        let before = split(text.drop_last(), separator);
        if text.last() == separator {
            before.push(Seq::empty())
        } else {
            before.drop_last().push(before.last().push(text.last()))
        }
    }
}

/// What each of these strings holds.
pub open spec fn texts(strings: Seq<String>) -> Seq<Seq<char>> {
    strings.map_values(|s: String| s@)
}

/// What an optional string holds.
pub open spec fn optional(text: Option<String>) -> Option<Seq<char>> {
    match text {
        Some(text) => Some(text@),
        None => None,
    }
}

/// `String::push`: the character comes after all others.
pub assume_specification[ String::push ](text: &mut String, c: char)
    ensures
        final(text)@ == old(text)@.push(c),
;

/// `str::trim`: the text without the `White_Space` characters at either end.
#[verifier::external_body]
pub(crate) fn trimmed(text: &str) -> (inner: &str)
    ensures
        inner@ == trim(text@),
{
    text.trim()
}

/// `str::to_lowercase`: Unicode's lower case of the whole text. It lowers ASCII capitals
/// to the ASCII letters and leaves the other ASCII characters alone.
#[verifier::external_body]
pub(crate) fn lowercased(text: &str) -> (lower: String)
    ensures
        lower@ == lowercase(text@),
        text.is_ascii() ==> lower@ == text@.map_values(|c: char| ascii_lowercase(c)),
{
    text.to_lowercase()
}

/// Whether both hold the same characters.
pub(crate) fn same(a: &str, b: &str) -> (equal: bool)
    ensures
        equal == (a@ == b@),
{
    a.to_owned() == b.to_owned()
}

/// The characters of a text.
pub(crate) fn chars(text: &str) -> (list: Vec<char>)
    ensures
        list@ == text@,
{
    let mut list: Vec<char> = Vec::new();
    for c in it: text.chars()
        invariant
            it.seq() == text@,
            list@ == text@.take(it.index()),
    {
        list.push(c);
    }
    list
}

/// The text that the characters from `start` up to `end` make.
pub(crate) fn between(list: &Vec<char>, start: usize, end: usize) -> (text: String)
    requires
        start <= end <= list.len(),
    ensures
        text@ == list@.subrange(start as int, end as int),
{
    let mut text = String::new();
    for i in start..end
        invariant
            start <= i <= end <= list.len(),
            text@ == list@.subrange(start as int, i as int),
    {
        text.push(list[i]);
    }
    text
}

/// Whether `part` stands in `list` at position `i`.
pub(crate) fn stands_at(list: &Vec<char>, part: &Vec<char>, i: usize) -> (found: bool)
    ensures
        found == occurs_at(list@, part@, i as int),
{
    if part.len() > list.len() || i > list.len() - part.len() {
        return false;
    }
    for k in 0..part.len()
        invariant
            i + part.len() <= list.len(),
            list@.subrange(i as int, i + k) == part@.take(k as int),
    {
        if list[i + k] != part[k] {
            proof {
                assert(list@.subrange(i as int, i + part.len())[k as int] != part@[k as int]);
            }
            return false;
        }
        proof {
            assert(list@.subrange(i as int, i + k + 1) =~= list@.subrange(i as int, i + k).push(
                list@[i + k],
            ));
            assert(part@.take(k + 1) =~= part@.take(k as int).push(part@[k as int]));
        }
    }
    proof {
        assert(part@.take(part.len() as int) =~= part@);
    }
    true
}

/// The first position of `part` in `list`.
pub(crate) fn position(list: &Vec<char>, part: &Vec<char>) -> (found: Option<usize>)
    ensures
        match found {
            Some(i) => find(list@, part@) == Some(i as int) && i + part.len() <= list.len(),
            None => find(list@, part@) is None,
        },
{
    if part.len() > list.len() {
        return None;
    }
    let last: usize = list.len() - part.len();
    let mut i: usize = 0;
    while i < last
        invariant
            last + part.len() == list.len(),
            i <= last,
            find(list@, part@) == find_from(list@, part@, i as int),
        decreases last - i,
    {
        if stands_at(list, part, i) {
            return Some(i);
        }
        i += 1;
    }
    proof {
        assert(find_from(list@, part@, last + 1) is None);
    }
    if stands_at(list, part, last) {
        Some(last)
    } else {
        None
    }
}

/// The last position of `part` in `list`.
pub(crate) fn last_position(list: &Vec<char>, part: &Vec<char>) -> (found: Option<usize>)
    ensures
        match found {
            Some(i) => rfind(list@, part@) == Some(i as int) && i + part.len() <= list.len(),
            None => rfind(list@, part@) is None,
        },
{
    if part.len() > list.len() {
        return None;
    }
    let mut i: usize = list.len() - part.len();
    while i > 0
        invariant
            rfind(list@, part@) == rfind_to(list@, part@, i as int),
        decreases i,
    {
        if stands_at(list, part, i) {
            return Some(i);
        }
        i -= 1;
    }
    proof {
        assert(rfind_to(list@, part@, -1) is None);
    }
    if stands_at(list, part, 0) {
        Some(0)
    } else {
        None
    }
}

/// Where `find` answers: the first position, or nowhere.
pub proof fn lemma_find(text: Seq<char>, part: Seq<char>, start: int)
    requires
        0 <= start,
    ensures
        match find_from(text, part, start) {
            Some(i) => start <= i && occurs_at(text, part, i) && forall|j: int|
                start <= j < i ==> !occurs_at(text, part, j),
            None => forall|j: int| start <= j ==> !occurs_at(text, part, j),
        },
    decreases text.len() - start + 1,
{
    if start + part.len() <= text.len() && !occurs_at(text, part, start) {
        lemma_find(text, part, start + 1);
    }
}

/// Where `rfind` answers: the last position, or nowhere.
pub proof fn lemma_rfind(text: Seq<char>, part: Seq<char>, start: int)
    ensures
        match rfind_to(text, part, start) {
            Some(i) => i <= start && occurs_at(text, part, i) && forall|j: int|
                i < j <= start ==> !occurs_at(text, part, j),
            None => forall|j: int| j <= start ==> !occurs_at(text, part, j),
        },
    decreases start + 1,
{
    if start >= 0 && !occurs_at(text, part, start) {
        lemma_rfind(text, part, start - 1);
    }
}

/// Whether every character is white space.
pub open spec fn all_white_space(text: Seq<char>) -> bool {
    forall|i: int| 0 <= i < text.len() ==> is_white_space(#[trigger] text[i])
}

proof fn lemma_trim_start(text: Seq<char>)
    ensures
        trim_start(text).len() <= text.len(),
        trim_start(text) == text.skip(text.len() - trim_start(text).len()),
        trim_start(text).len() > 0 ==> !is_white_space(trim_start(text).first()),
        trim_start(text).len() == 0 <==> all_white_space(text),
    decreases text.len(),
{
    if text.len() > 0 && is_white_space(text.first()) {
        let rest = text.drop_first();
        lemma_trim_start(rest);
        assert(rest.skip(rest.len() - trim_start(rest).len()) =~= text.skip(
            text.len() - trim_start(rest).len(),
        ));
        assert(forall|i: int| 0 <= i < rest.len() ==> rest[i] == text[i + 1]);
        if all_white_space(rest) {
            assert forall|i: int| 0 <= i < text.len() implies is_white_space(
                #[trigger] text[i],
            ) by {
                if i > 0 {
                    assert(is_white_space(rest[i - 1]));
                }
            }
        }
    } else {
        assert(text.skip(0) =~= text);
    }
}

proof fn lemma_trim_end(text: Seq<char>)
    ensures
        trim_end(text).len() <= text.len(),
        trim_end(text) == text.take(trim_end(text).len() as int),
        trim_end(text).len() > 0 ==> !is_white_space(trim_end(text).last()),
        trim_end(text).len() == 0 <==> all_white_space(text),
    decreases text.len(),
{
    if text.len() > 0 && is_white_space(text.last()) {
        let rest = text.drop_last();
        lemma_trim_end(rest);
        assert(rest.take(trim_end(rest).len() as int) =~= text.take(trim_end(rest).len() as int));
        assert(forall|i: int| 0 <= i < rest.len() ==> rest[i] == text[i]);
        if all_white_space(rest) {
            assert forall|i: int| 0 <= i < text.len() implies is_white_space(
                #[trigger] text[i],
            ) by {
                if i < rest.len() {
                    assert(is_white_space(rest[i]));
                }
            }
        }
    } else {
        assert(text.take(text.len() as int) =~= text);
    }
}

/// A text is blank if and only if each of its characters is white space.
pub proof fn lemma_blank(text: Seq<char>)
    ensures
        is_blank(text) <==> all_white_space(text),
{
    lemma_trim_start(text);
    let rest = trim_start(text);
    lemma_trim_end(rest);
    if rest.len() > 0 {
        assert(!is_white_space(rest[0]));
    }
}

/// Trimming a text a second time changes nothing.
pub proof fn lemma_trim_twice(text: Seq<char>)
    ensures
        trim(trim(text)) == trim(text),
{
    lemma_trim_start(text);
    let rest = trim_start(text);
    lemma_trim_end(rest);
    let inner = trim_end(rest);
    if inner.len() > 0 {
        assert(inner[0] == rest[0]);
    }
}

/// Whether `part` stands anywhere in `list`.
pub(crate) fn holds(list: &Vec<char>, part: &Vec<char>) -> (found: bool)
    ensures
        found == contains(list@, part@),
{
    proof {
        lemma_find(list@, part@, 0);
    }
    position(list, part).is_some()
}

/// The pieces of `list` between the occurrences of `separator`.
pub(crate) fn pieces(list: &Vec<char>, separator: char) -> (parts: Vec<Vec<char>>)
    ensures
        parts@.map_values(|part: Vec<char>| part@) == split(list@, separator),
{
    let mut parts: Vec<Vec<char>> = Vec::new();
    let mut current: Vec<char> = Vec::new();
    for i in 0..list.len()
        invariant
            parts@.map_values(|part: Vec<char>| part@).push(current@) == split(
                list@.take(i as int),
                separator,
            ),
    {
        let ghost done = parts@.map_values(|part: Vec<char>| part@);
        let ghost open = current@;
        proof {
            assert(list@.take(i + 1).drop_last() =~= list@.take(i as int));
            assert(done.push(open).drop_last() =~= done);
        }
        if list[i] == separator {
            parts.push(current);
            current = Vec::new();
            proof {
                assert(parts@.map_values(|part: Vec<char>| part@) =~= done.push(open));
            }
        } else {
            current.push(list[i]);
        }
    }
    let ghost done = parts@.map_values(|part: Vec<char>| part@);
    let ghost open = current@;
    parts.push(current);
    proof {
        assert(list@.take(list.len() as int) =~= list@);
        assert(parts@.map_values(|part: Vec<char>| part@) =~= done.push(open));
    }
    parts
}

/// A part stands in a text at the place where cutting it out leaves what is before it and
/// what is after it.
pub proof fn law_parts_stand_between(before: Seq<char>, part: Seq<char>, after: Seq<char>)
    ensures
        occurs_at(before + part + after, part, before.len() as int),
        contains(before + part + after, part),
        starts_with(part + after, part),
{
    let text = before + part + after;
    assert(text.subrange(before.len() as int, before.len() as int + part.len()) =~= part);
    assert(occurs_at(text, part, before.len() as int));
    assert((part + after).subrange(0, part.len() as int) =~= part);
}

/// Where a part stands, the text is what is before it, the part, and what is after it.
pub proof fn law_found_parts_are_there(text: Seq<char>, part: Seq<char>, i: int)
    requires
        occurs_at(text, part, i),
    ensures
        text == text.take(i) + part + text.skip(i + part.len()),
        forall|k: int| 0 <= k < part.len() ==> text[i + k] == #[trigger] part[k],
{
    assert(text.subrange(i, i + part.len()) =~= part);
    assert(text =~= text.take(i) + part + text.skip(i + part.len()));
    assert forall|k: int| 0 <= k < part.len() implies text[i + k] == #[trigger] part[k] by {
        assert(text.subrange(i, i + part.len())[k] == text[i + k]);
    }
}

/// Two texts with a separator between them split into the pieces of the one and the pieces of
/// the other, and a text without a separator is one piece.
pub proof fn law_split_at_separators(first: Seq<char>, separator: char, second: Seq<char>)
    ensures
        split(first.push(separator) + second, separator) == split(first, separator) + split(
            second,
            separator,
        ),
        !first.contains(separator) ==> split(first, separator) == seq![first],
    decreases first.len() + second.len(),
{
    let whole = first.push(separator) + second;
    if second.len() > 0 {
        let shorter = second.drop_last();
        law_split_at_separators(first, separator, shorter);
        assert(whole.drop_last() =~= first.push(separator) + shorter);
        lemma_split_not_empty(shorter, separator);
        let pieces = split(shorter, separator);
        let all = split(first, separator) + pieces;
        assert(all.last() == pieces.last());
        assert(all.drop_last() =~= split(first, separator) + pieces.drop_last());
        assert(split(whole, separator) =~= split(first, separator) + split(second, separator));
    } else {
        assert(whole.drop_last() =~= first);
        assert(split(whole, separator) =~= split(first, separator) + split(second, separator));
    }
    if !first.contains(separator) && first.len() > 0 {
        let shorter = first.drop_last();
        assert(first.last() == first[first.len() - 1]);
        assert forall|c: char| shorter.contains(c) implies first.contains(c) by {
            let k = choose|k: int| 0 <= k < shorter.len() && shorter[k] == c;
            assert(first[k] == c);
        }
        law_split_at_separators(shorter, separator, Seq::empty());
        assert(shorter.push(first.last()) =~= first);
        assert(split(first, separator) =~= seq![first]);
    } else if first.len() == 0 {
        assert(first =~= Seq::empty());
    }
}

proof fn lemma_split_not_empty(text: Seq<char>, separator: char)
    ensures
        split(text, separator).len() > 0,
    decreases text.len(),
{
    if text.len() > 0 {
        lemma_split_not_empty(text.drop_last(), separator);
    }
}

} // verus!
