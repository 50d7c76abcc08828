//! Property lists, as far as they are read: tags, the texts behind them, and the values of the keys
//! of the outermost dictionary. White space between tags does not matter, nor do comments there.
use crate::launch_agent;
use crate::text;
use vstd::prelude::*;

verus! {

/// A tag, and the text behind it.
#[derive(Debug, PartialEq, Eq)]
pub struct Mark {
    pub tag: String,
    pub text: String,
}

/// The content of a [`Mark`].
pub struct MarkView {
    pub tag: Seq<char>,
    pub text: Seq<char>,
}

impl DeepView for Mark {
    type V = MarkView;

    open spec fn deep_view(&self) -> MarkView {
        MarkView { tag: self.tag@, text: self.text@ }
    }
}

/// Where a character stands first in a text; the length of the text where it does not.
pub open spec fn position(text: Seq<char>, c: char) -> nat
    decreases text.len(),
{
    if text.len() == 0 || text[0] == c {
        0
    } else {
        1 + position(text.skip(1), c)
    }
}

/// The length of what is left of a comment, with its end.
pub open spec fn comment_end(text: Seq<char>) -> nat
    decreases text.len(),
{
    if text.len() == 0 {
        0
    } else if text.len() >= 3 && "-->"@.is_prefix_of(text) {
        3
    } else {
        1 + comment_end(text.skip(1))
    }
}

/// What follows the first `n` characters of a text.
pub open spec fn behind(text: Seq<char>, n: nat) -> Seq<char> {
    if n <= text.len() {
        text.skip(n as int)
    } else {
        Seq::empty()
    }
}

/// The tag that is written between two angle brackets, without white space at its ends and before
/// the slash of a tag that ends itself.
pub open spec fn tag_name(written: Seq<char>) -> Seq<char> {
    let tag = text::trimmed(written);
    if tag.len() > 0 && tag.last() == '/' {
        text::trimmed(tag.drop_last()).push('/')
    } else {
        tag
    }
}

/// The tags of a document, each with the text behind it, up to the next tag. A comment counts as a
/// tag `!--` without text.
pub open spec fn marks(document: Seq<char>) -> Seq<MarkView>
    decreases document.len(),
{
    let rest = behind(document, position(document, '<'));
    let end = position(rest, '>');
    if rest.len() == 0 {
        Seq::empty()
    } else if rest.len() >= 4 && "<!--"@.is_prefix_of(rest) {
        seq![MarkView { tag: "!--"@, text: Seq::empty() }] + marks(
            behind(rest.skip(4), comment_end(rest.skip(4))),
        )
    } else if end >= rest.len() {
        Seq::empty()
    } else {
        let after = rest.skip(end as int + 1);
        seq![
            MarkView {
                tag: tag_name(rest.subrange(1, end as int)),
                text: after.take(position(after, '<') as int),
            },
        ] + marks(after)
    }
}

/// How deep inside dictionaries and arrays the marks behind a tag are.
pub open spec fn depth_behind(depth: nat, tag: Seq<char>) -> nat {
    if tag == "dict"@ || tag == "array"@ {
        depth + 1
    } else if (tag == "/dict"@ || tag == "/array"@) && depth > 0 {
        (depth - 1) as nat
    } else {
        depth
    }
}

/// The marks behind all comments that come first.
pub open spec fn without_comments(marks: Seq<MarkView>) -> Seq<MarkView>
    decreases marks.len(),
{
    if marks.len() > 0 && marks[0].tag == "!--"@ {
        without_comments(marks.skip(1))
    } else {
        marks
    }
}

/// The marks from the value of a key of the outermost dictionary on, where the first of `marks` is
/// `depth` levels inside dictionaries and arrays.
pub open spec fn value_of(marks: Seq<MarkView>, key: Seq<char>, depth: nat) -> Option<Seq<MarkView>>
    decreases marks.len(),
{
    if marks.len() == 0 {
        None
    } else if depth == 1 && marks[0].tag == "key"@ && launch_agent::unescaped(marks[0].text) == key
        && marks.len() > 1 && marks[1].tag == "/key"@ {
        Some(without_comments(marks.skip(2)))
    } else {
        value_of(marks.skip(1), key, depth_behind(depth, marks[0].tag))
    }
}

/// The strings of an array up to its end, behind `found`; nothing where it holds anything else.
pub open spec fn array_strings(marks: Seq<MarkView>, found: Seq<Seq<char>>) -> Option<Seq<Seq<char>>>
    decreases marks.len(),
{
    if marks.len() == 0 {
        None
    } else if marks[0].tag == "/array"@ {
        Some(found)
    } else if marks[0].tag == "!--"@ {
        array_strings(marks.skip(1), found)
    } else if marks[0].tag == "string/"@ {
        array_strings(marks.skip(1), found.push(Seq::empty()))
    } else if marks[0].tag == "string"@ && marks.len() > 1 && marks[1].tag == "/string"@ {
        array_strings(marks.skip(2), found.push(launch_agent::unescaped(marks[0].text)))
    } else {
        None
    }
}

/// The value of a key, where it is an array of strings.
pub open spec fn strings_of(marks: Seq<MarkView>, key: Seq<char>) -> Option<Seq<Seq<char>>> {
    match value_of(marks, key, 0) {
        None => None,
        Some(value) => if value.len() > 0 && value[0].tag == "array"@ {
            array_strings(value.skip(1), Seq::empty())
        } else if value.len() > 0 && value[0].tag == "array/"@ {
            Some(Seq::empty())
        } else {
            None
        },
    }
}

/// The value of a key, where it is a number.
pub open spec fn number_of(marks: Seq<MarkView>, key: Seq<char>) -> Option<nat> {
    match value_of(marks, key, 0) {
        None => None,
        Some(value) => if value.len() > 1 && value[0].tag == "integer"@ && value[1].tag
            == "/integer"@ {
            text::parse_unsigned(text::trimmed(value[0].text), u64::MAX as nat)
        } else {
            None
        },
    }
}

fn find_char(chars: &Vec<char>, from: usize, c: char) -> (place: usize)
    requires
        from <= chars.len(),
    ensures
        from <= place <= chars.len(),
        place - from == position(chars@.skip(from as int), c),
        place < chars.len() ==> chars[place as int] == c,
{
    let mut place: usize = from;
    while place < chars.len() && chars[place] != c
        invariant
            from <= place <= chars.len(),
            position(chars@.skip(from as int), c) == place - from + position(
                chars@.skip(place as int),
                c,
            ),
        decreases chars.len() - place,
    {
        assert(chars@.skip(place as int).skip(1) =~= chars@.skip(place + 1));
        place += 1;
    }
    place
}

fn find_comment_end(chars: &Vec<char>, from: usize) -> (place: usize)
    requires
        from <= chars.len(),
    ensures
        from <= place <= chars.len(),
        place - from == comment_end(chars@.skip(from as int)),
{
    proof {
        reveal_strlit("-->");
    }
    let mut place: usize = from;
    while place < chars.len()
        invariant
            from <= place <= chars.len(),
            comment_end(chars@.skip(from as int)) == place - from + comment_end(
                chars@.skip(place as int),
            ),
        decreases chars.len() - place,
    {
        let ghost rest = chars@.skip(place as int);
        proof {
            reveal_strlit("-->");
        }
        if chars.len() - place >= 3 && chars[place] == '-' && chars[place + 1] == '-'
            && chars[place + 2] == '>' {
            assert(rest.subrange(0, 3) =~= "-->"@);
            return place + 3;
        }
        assert(!(rest.len() >= 3 && "-->"@.is_prefix_of(rest))) by {
            if rest.len() >= 3 && "-->"@.is_prefix_of(rest) {
                assert(rest[0] == "-->"@[0] && rest[1] == "-->"@[1] && rest[2] == "-->"@[2]);
            }
        }
        assert(rest.skip(1) =~= chars@.skip(place + 1));
        place += 1;
    }
    place
}

fn read_tag(written: &str) -> (tag: String)
    ensures
        tag@ == tag_name(written@),
{
    let tag = text::trim(written);
    let chars = text::to_chars(tag.as_str());
    if chars.len() > 0 && chars[chars.len() - 1] == '/' {
        let front = text::from_chars(&chars, 0, chars.len() - 1);
        assert(front@ =~= tag@.drop_last());
        let mut name = text::trim(front.as_str());
        name.push('/');
        return name;
    }
    tag
}

fn push_mark(found: &mut Vec<Mark>, mark: Mark)
    ensures
        final(found).deep_view() == old(found).deep_view().push(mark.deep_view()),
{
    let ghost before = found.deep_view();
    let ghost added = mark.deep_view();
    found.push(mark);
    assert(found.deep_view() =~= before.push(added));
}

/// Reads the tags of a document, each with the text behind it.
pub fn read_marks(document: &str) -> (found: Vec<Mark>)
    ensures
        found.deep_view() == marks(document@),
{
    let chars = text::to_chars(document);
    let mut found: Vec<Mark> = Vec::new();
    let mut i: usize = 0;
    assert(found.deep_view() =~= Seq::empty());
    assert(chars@.skip(0) =~= chars@);
    assert(Seq::<MarkView>::empty() + marks(document@) =~= marks(document@));
    while i < chars.len()
        invariant
            i <= chars.len(),
            chars@ == document@,
            marks(document@) == found.deep_view() + marks(chars@.skip(i as int)),
        decreases chars.len() - i,
    {
        let ghost here = chars@.skip(i as int);
        let ghost before = found.deep_view();
        let start = find_char(&chars, i, '<');
        let ghost rest = chars@.skip(start as int);
        assert(behind(here, position(here, '<')) =~= rest);
        if start >= chars.len() {
            assert(before + marks(here) =~= before);
            return found;
        }
        let tail = text::from_chars(&chars, start, chars.len());
        assert(tail@ =~= rest);
        proof {
            reveal_strlit("<!--");
        }
        if text::starts_with(tail.as_str(), "<!--") {
            let end = find_comment_end(&chars, start + 4);
            assert(chars@.skip(start + 4) =~= rest.skip(4));
            assert(behind(rest.skip(4), comment_end(rest.skip(4))) =~= chars@.skip(end as int));
            let mark = Mark { tag: "!--".to_owned(), text: String::new() };
            assert(mark.deep_view().text =~= Seq::empty());
            let ghost added = mark.deep_view();
            push_mark(&mut found, mark);
            assert(before + (seq![added] + marks(chars@.skip(end as int))) =~= found.deep_view()
                + marks(chars@.skip(end as int)));
            i = end;
        } else {
            let end = find_char(&chars, start, '>');
            if end >= chars.len() {
                assert(before + marks(here) =~= before);
                return found;
            }
            let ghost after = chars@.skip(end + 1);
            assert(rest.skip(end - start + 1) =~= after);
            let next = find_char(&chars, end + 1, '<');
            let written = text::from_chars(&chars, start + 1, end);
            assert(written@ =~= rest.subrange(1, end - start));
            let shown = text::from_chars(&chars, end + 1, next);
            assert(shown@ =~= after.take(position(after, '<') as int));
            let mark = Mark { tag: read_tag(written.as_str()), text: shown };
            let ghost added = mark.deep_view();
            push_mark(&mut found, mark);
            assert(before + (seq![added] + marks(after)) =~= found.deep_view() + marks(after));
            i = end + 1;
        }
    }
    assert(chars@.skip(i as int) =~= Seq::empty());
    assert(found.deep_view() + marks(Seq::empty()) =~= found.deep_view());
    found
}

fn skip_comments(all: &Vec<Mark>, from: usize) -> (place: usize)
    requires
        from <= all.len(),
    ensures
        from <= place <= all.len(),
        all.deep_view().skip(place as int) == without_comments(all.deep_view().skip(from as int)),
{
    let ghost marked = all.deep_view();
    let mut place: usize = from;
    while place < all.len() && text::same_text(all[place].tag.as_str(), "!--")
        invariant
            from <= place <= all.len(),
            marked == all.deep_view(),
            without_comments(marked.skip(from as int)) == without_comments(
                marked.skip(place as int),
            ),
        decreases all.len() - place,
    {
        assert(marked.skip(place as int)[0] == all[place as int].deep_view());
        assert(marked.skip(place as int).skip(1) =~= marked.skip(place + 1));
        place += 1;
    }
    proof {
        if place < all.len() {
            assert(marked.skip(place as int)[0] == all[place as int].deep_view());
        }
    }
    place
}

fn find_value(all: &Vec<Mark>, key: &str) -> (place: Option<usize>)
    ensures
        place is Some <==> value_of(all.deep_view(), key@, 0) is Some,
        place matches Some(place) ==> place <= all.len() && value_of(all.deep_view(), key@, 0)
            == Some(all.deep_view().skip(place as int)),
{
    let ghost marked = all.deep_view();
    let mut depth: usize = 0;
    let mut i: usize = 0;
    assert(marked.skip(0) =~= marked);
    while i < all.len()
        invariant
            i <= all.len(),
            depth <= i,
            marked == all.deep_view(),
            value_of(marked, key@, 0) == value_of(marked.skip(i as int), key@, depth as nat),
        decreases all.len() - i,
    {
        let ghost here = marked.skip(i as int);
        assert(here[0] == all[i as int].deep_view());
        assert(here.skip(1) =~= marked.skip(i + 1));
        let tag = all[i].tag.as_str();
        if depth == 1 && text::same_text(tag, "key") && i + 1 < all.len() {
            assert(here[1] == all[i + 1].deep_view());
            let name = launch_agent::xml_unescape(all[i].text.as_str());
            if text::same_text(name.as_str(), key) && text::same_text(
                all[i + 1].tag.as_str(),
                "/key",
            ) {
                assert(here.skip(2) =~= marked.skip(i + 2));
                return Some(skip_comments(all, i + 2));
            }
        }
        if text::same_text(tag, "dict") || text::same_text(tag, "array") {
            depth += 1;
        } else if (text::same_text(tag, "/dict") || text::same_text(tag, "/array")) && depth > 0 {
            depth -= 1;
        }
        i += 1;
    }
    assert(marked.skip(i as int) =~= Seq::empty());
    None
}

fn take_strings(all: &Vec<Mark>, from: usize) -> (strings: Option<Vec<String>>)
    requires
        from <= all.len(),
    ensures
        strings.deep_view() == array_strings(all.deep_view().skip(from as int), Seq::empty()),
{
    let ghost marked = all.deep_view();
    let ghost goal = array_strings(marked.skip(from as int), Seq::empty());
    let mut strings: Vec<String> = Vec::new();
    let mut i: usize = from;
    assert(strings.deep_view() =~= Seq::empty());
    while i < all.len()
        invariant
            i <= all.len(),
            from <= all.len(),
            marked == all.deep_view(),
            goal == array_strings(all.deep_view().skip(from as int), Seq::empty()),
            goal == array_strings(marked.skip(i as int), strings.deep_view()),
        decreases all.len() - i,
    {
        let ghost here = marked.skip(i as int);
        assert(here[0] == all[i as int].deep_view());
        assert(here.skip(1) =~= marked.skip(i + 1));
        let tag = all[i].tag.as_str();
        if text::same_text(tag, "/array") {
            return Some(strings);
        }
        if text::same_text(tag, "!--") {
            i += 1;
        } else if text::same_text(tag, "string/") {
            let nothing = String::new();
            assert(nothing@ =~= Seq::empty());
            text::push_text(&mut strings, nothing.as_str());
            i += 1;
        } else {
            if !text::same_text(tag, "string") || i + 1 >= all.len() {
                return None;
            }
            assert(here[1] == all[i + 1].deep_view());
            if !text::same_text(all[i + 1].tag.as_str(), "/string") {
                return None;
            }
            assert(here.skip(2) =~= marked.skip(i + 2));
            let value = launch_agent::xml_unescape(all[i].text.as_str());
            text::push_text(&mut strings, value.as_str());
            i += 2;
        }
    }
    assert(marked.skip(i as int) =~= Seq::empty());
    None
}

/// The value of a key of the outermost dictionary, where it is an array of strings.
pub fn find_strings(all: &Vec<Mark>, key: &str) -> (strings: Option<Vec<String>>)
    ensures
        strings.deep_view() == strings_of(all.deep_view(), key@),
{
    let ghost marked = all.deep_view();
    match find_value(all, key) {
        None => None,
        Some(place) => {
            if place >= all.len() {
                return None;
            }
            assert(marked.skip(place as int)[0] == all[place as int].deep_view());
            if text::same_text(all[place].tag.as_str(), "array") {
                assert(marked.skip(place as int).skip(1) =~= marked.skip(place + 1));
                return take_strings(all, place + 1);
            }
            if text::same_text(all[place].tag.as_str(), "array/") {
                let none: Vec<String> = Vec::new();
                assert(none.deep_view() =~= Seq::empty());
                return Some(none);
            }
            None
        },
    }
}

/// The value of a key of the outermost dictionary, where it is a number.
pub fn find_number(all: &Vec<Mark>, key: &str) -> (number: Option<u64>)
    ensures
        number is Some <==> number_of(all.deep_view(), key@) is Some,
        number matches Some(number) ==> number_of(all.deep_view(), key@) == Some(number as nat),
{
    let ghost marked = all.deep_view();
    match find_value(all, key) {
        None => None,
        Some(place) => {
            if place >= all.len() || all.len() - place < 2 {
                return None;
            }
            assert(marked.skip(place as int)[0] == all[place as int].deep_view());
            assert(marked.skip(place as int)[1] == all[place + 1].deep_view());
            if !text::same_text(all[place].tag.as_str(), "integer") || !text::same_text(
                all[place + 1].tag.as_str(),
                "/integer",
            ) {
                return None;
            }
            text::parse_number(text::trim(all[place].text.as_str()).as_str(), u64::MAX)
        },
    }
}

} // verus!
