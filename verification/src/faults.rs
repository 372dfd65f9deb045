//! Page-fault counts, read off a thread's line of kernel statistics.

use vstd::prelude::*;
use crate::text;
use crate::text::{chars_of, parse_unsigned_chars};

verus! {

/// Whether `c` separates words: the characters with the Unicode `White_Space` property.
pub open spec fn is_white_space(c: char) -> bool {
    let n = c as u32;
    ||| 0x9 <= n <= 0xd
    ||| n == 0x20
    ||| n == 0x85
    ||| n == 0xa0
    ||| n == 0x1680
    ||| 0x2000 <= n <= 0x200a
    ||| n == 0x2028
    ||| n == 0x2029
    ||| n == 0x202f
    ||| n == 0x205f
    ||| n == 0x3000
}

/// Whether `c` separates words.
pub fn white_space(c: char) -> (r: bool)
    ensures
        r == is_white_space(c),
{
    let n: u32 = c as u32;
    (0x9 <= n && n <= 0xd) || n == 0x20 || n == 0x85 || n == 0xa0 || n == 0x1680 || (0x2000 <= n && n
        <= 0x200a) || n == 0x2028 || n == 0x2029 || n == 0x202f || n == 0x205f || n == 0x3000
}

/// The words of a text: its longest runs of characters that are not white space, in order.
pub open spec fn words(s: Seq<char>) -> Seq<Seq<char>>
    decreases s.len(),
{
    if s.len() == 0 {
        Seq::empty()
    } else {
        let before = words(s.drop_last());
        let c = s.last();
        if is_white_space(c) {
            before
        } else if s.len() == 1 || is_white_space(s[s.len() - 2]) {
            before.push(seq![c])
        } else {
            before.drop_last().push(before.last().push(c))
        }
    }
}

/// A text that does not end in white space has a last word.
proof fn lemma_last_word(s: Seq<char>)
    requires
        s.len() > 0,
        !is_white_space(s.last()),
    ensures
        words(s).len() > 0,
{
}

/// Splits a text into its words.
pub fn split_words(s: &Vec<char>) -> (r: Vec<Vec<char>>)
    ensures
        r@.len() == words(s@).len(),
        forall|i: int| 0 <= i < r@.len() ==> (#[trigger] r@[i])@ == words(s@)[i],
{
    let mut out: Vec<Vec<char>> = Vec::new();
    let mut i: usize = 0;
    while i < s.len()
        invariant
            i <= s.len(),
            out@.len() == words(s@.take(i as int)).len(),
            forall|j: int|
                0 <= j < out@.len() ==> (#[trigger] out@[j])@ == words(s@.take(i as int))[j],
        decreases s.len() - i,
    {
        let c = s[i];
        let ghost shorter = s@.take(i as int);
        let ghost longer = s@.take(i + 1);
        assert(longer.drop_last() =~= shorter);
        assert(longer.last() == c);
        if !white_space(c) {
            if i == 0 || white_space(s[i - 1]) {
                let mut word: Vec<char> = Vec::new();
                word.push(c);
                assert(word@ =~= seq![c]);
                out.push(word);
            } else {
                proof {
                    lemma_last_word(shorter);
                }
                let ghost before = out@;
                let last = out.pop();
                if let Some(mut word) = last {
                    word.push(c);
                    out.push(word);
                    assert forall|j: int| 0 <= j < out@.len() implies (#[trigger] out@[j])@ == words(
                        longer,
                    )[j] by {
                        if j < out@.len() - 1 {
                            assert(out@[j] == before[j]);
                        }
                    }
                }
            }
        }
        i += 1;
    }
    assert(s@.take(s@.len() as int) =~= s@);
    out
}

/// The number in a field of a list of words, zero where the field is missing or is no unsigned
/// 64-bit number.
pub open spec fn field_number(fields: Seq<Seq<char>>, index: int) -> nat {
    if 0 <= index < fields.len() {
        match text::unsigned_number(fields[index], u64::MAX as nat) {
            Some(n) => n,
            None => 0,
        }
    } else {
        0
    }
}

/// The number in a field, zero where there is none.
fn field(fields: &Vec<Vec<char>>, index: usize, Ghost(all): Ghost<Seq<Seq<char>>>) -> (r: u64)
    requires
        fields@.len() == all.len(),
        forall|i: int| 0 <= i < fields@.len() ==> (#[trigger] fields@[i])@ == all[i],
    ensures
        r == field_number(all, index as int),
{
    if index < fields.len() {
        match parse_unsigned_chars(&fields[index], u64::MAX as u128) {
            Some(n) => n as u64,
            None => 0,
        }
    } else {
        0
    }
}

/// Where the count of faults served without disk I/O stands, after the command name.
pub const MINOR_FAULTS_FIELD: usize = 7;

/// Where the count of faults that required disk I/O stands, after the command name.
pub const MAJOR_FAULTS_FIELD: usize = 9;

/// The fields of a statistics line that follow the command name. That name stands in parentheses
/// and can itself hold spaces and parentheses, so the fields start after the last `)`. `None` where
/// there is none.
pub open spec fn stat_fields(stat: Seq<char>) -> Option<Seq<Seq<char>>> {
    match stat.index_of_last(')') {
        Some(i) => Some(words(stat.skip(i + 1))),
        None => None,
    }
}

/// The minor and major page faults that a statistics line reports, zeros where it cannot be read.
pub fn thread_faults(stat: &str) -> (r: (u64, u64))
    ensures
        match stat_fields(stat@) {
            Some(fields) => {
                &&& r.0 == field_number(fields, MINOR_FAULTS_FIELD as int)
                &&& r.1 == field_number(fields, MAJOR_FAULTS_FIELD as int)
            },
            None => r == (0u64, 0u64),
        },
{
    let chars = chars_of(stat);
    proof {
        stat@.index_of_last_ensures(')');
    }
    let mut end: usize = chars.len();
    while end > 0 && chars[end - 1] != ')'
        invariant
            end <= chars.len(),
            chars@ == stat@,
            forall|j: int| end <= j < chars.len() ==> chars@[j] != ')',
        decreases end,
    {
        end -= 1;
    }
    if end == 0 {
        return (0, 0);
    }
    assert(chars@[end - 1] == ')');
    assert(stat@.index_of_last(')') == Some(end - 1));
    let mut tail: Vec<char> = Vec::new();
    let mut i: usize = end;
    while i < chars.len()
        invariant
            end <= i <= chars.len(),
            chars@ == stat@,
            tail@ == stat@.subrange(end as int, i as int),
        decreases chars.len() - i,
    {
        tail.push(chars[i]);
        i += 1;
        assert(tail@ =~= stat@.subrange(end as int, i as int));
    }
    assert(tail@ =~= stat@.skip(end as int));
    let fields = split_words(&tail);
    let ghost all = words(tail@);
    (field(&fields, MINOR_FAULTS_FIELD, Ghost(all)), field(&fields, MAJOR_FAULTS_FIELD, Ghost(all)))
}

/// What stands before the last `)` of a statistics line, whatever it holds, does not change what is
/// read from the line.
pub proof fn command_name_does_not_matter(name: Seq<char>, other: Seq<char>, tail: Seq<char>)
    requires
        !tail.contains(')'),
    ensures
        stat_fields(name.push(')') + tail) == stat_fields(other.push(')') + tail),
        stat_fields(name.push(')') + tail) == Some(words(tail)),
{
    lemma_fields_after(name, tail);
    lemma_fields_after(other, tail);
}

/// The fields of a line are the words after its last `)`.
proof fn lemma_fields_after(name: Seq<char>, tail: Seq<char>)
    requires
        !tail.contains(')'),
    ensures
        stat_fields(name.push(')') + tail) == Some(words(tail)),
{
    let line = name.push(')') + tail;
    line.index_of_last_ensures(')');
    assert(line[name.len() as int] == ')');
    assert(line.contains(')'));
    let i = line.index_of_last(')')->0;
    if i > name.len() {
        assert(line[i] == tail[i - name.len() - 1]);
        assert(tail.contains(')'));
    }
    assert(i == name.len());
    assert(line.skip(i + 1) =~= tail);
}

/// White space between two texts splits their words and belongs to neither: the words of the whole are
/// those of the first and then those of the second.
pub proof fn white_space_splits_words(s: Seq<char>, space: char, t: Seq<char>)
    requires
        is_white_space(space),
    ensures
        words(s.push(space) + t) == words(s) + words(t),
    decreases t.len(),
{
    let all = s.push(space) + t;
    if t.len() == 0 {
        assert(all =~= s.push(space));
        assert(all.drop_last() =~= s);
        assert(words(s) + words(t) =~= words(s));
    } else {
        let shorter = t.drop_last();
        white_space_splits_words(s, space, shorter);
        assert(all.drop_last() =~= s.push(space) + shorter);
        assert(all.last() == t.last());
        let c = t.last();
        let before = words(s) + words(shorter);
        if is_white_space(c) {
        } else if t.len() == 1 {
            assert(all[all.len() - 2] == space);
            assert(shorter =~= Seq::<char>::empty());
            assert(words(s) + words(t) =~= before.push(seq![c]));
        } else {
            assert(all[all.len() - 2] == t[t.len() - 2]);
            if is_white_space(t[t.len() - 2]) {
                assert(words(s) + words(t) =~= before.push(seq![c]));
            } else {
                assert(shorter.last() == t[t.len() - 2]);
                lemma_last_word(shorter);
                assert(before.last() == words(shorter).last());
                assert(words(s) + words(t) =~= before.drop_last().push(before.last().push(c)));
            }
        }
    }
}

/// A text without white space is one word, the whole of it; an empty one is none.
pub proof fn a_text_without_white_space_is_one_word(s: Seq<char>)
    requires
        forall|i: int| 0 <= i < s.len() ==> !is_white_space(#[trigger] s[i]),
    ensures
        s.len() > 0 ==> words(s) == seq![s],
        s.len() == 0 ==> words(s).len() == 0,
    decreases s.len(),
{
    if s.len() > 0 {
        let shorter = s.drop_last();
        assert forall|i: int| 0 <= i < shorter.len() implies !is_white_space(#[trigger] shorter[i]) by {
            assert(shorter[i] == s[i]);
        }
        a_text_without_white_space_is_one_word(shorter);
        assert(!is_white_space(s[s.len() - 1]));
        if s.len() == 1 {
            assert(words(shorter) =~= Seq::<Seq<char>>::empty());
            assert(s =~= seq![s.last()]);
            assert(words(s) =~= seq![s]);
        } else {
            assert(!is_white_space(s[s.len() - 2]));
            assert(shorter.push(s.last()) =~= s);
            assert(words(s) =~= seq![s]);
        }
    }
}

/// White space is the blank, the tab, the line breaks, and the spaces and separators of other scripts;
/// digits, letters and punctuation belong to words.
pub proof fn blanks_tabs_and_breaks_are_white_space(c: char)
    ensures
        '\t' <= c <= '\r' || c == ' ' ==> is_white_space(c),
        c == '\u{85}' || c == '\u{a0}' || c == '\u{1680}' ==> is_white_space(c),
        '\u{2000}' <= c <= '\u{200a}' || '\u{2028}' <= c <= '\u{2029}' ==> is_white_space(c),
        c == '\u{202f}' || c == '\u{205f}' || c == '\u{3000}' ==> is_white_space(c),
        c < '\t' || '\r' < c < ' ' || ' ' < c < '\u{85}' ==> !is_white_space(c),
        '\u{85}' < c < '\u{a0}' || '\u{a0}' < c < '\u{1680}' ==> !is_white_space(c),
        '\u{1680}' < c < '\u{2000}' || '\u{200a}' < c < '\u{2028}' ==> !is_white_space(c),
        '\u{2029}' < c < '\u{202f}' || '\u{202f}' < c < '\u{205f}' ==> !is_white_space(c),
        '\u{205f}' < c < '\u{3000}' || '\u{3000}' < c ==> !is_white_space(c),
{
}

/// A field is read as the number it spells, and as zero where it is missing or spells no 64-bit number.
/// The minor faults are the eighth field, the major ones the tenth.
pub proof fn a_field_is_read_as_its_number(fields: Seq<Seq<char>>, index: int)
    ensures
        0 <= index < fields.len() ==> match text::unsigned_number(fields[index], u64::MAX as nat) {
            Some(n) => field_number(fields, index) == n,
            None => field_number(fields, index) == 0,
        },
        !(0 <= index < fields.len()) ==> field_number(fields, index) == 0,
        MINOR_FAULTS_FIELD == 7,
        MAJOR_FAULTS_FIELD == 9,
{
}

/// A line without a `)` has no fields.
pub proof fn a_line_without_a_name_has_no_fields(line: Seq<char>)
    requires
        !line.contains(')'),
    ensures
        stat_fields(line) is None,
{
    line.index_of_last_ensures(')');
}

} // verus!
