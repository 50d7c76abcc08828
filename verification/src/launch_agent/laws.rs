//! What holds of all LaunchAgents that are written.
use crate::launch_agent;
use crate::launch_agent::property_list;
use crate::launch_agent::property_list::MarkView;
use crate::launch_agent::{InstalledCommandView, ScheduleEnvironmentView, SchedulePathsView};
use crate::launch_agent::{ScheduleSettings, LABEL};
use crate::text;
use vstd::prelude::*;

verus! {

/// A line of a property list: a tag, or a tag with a text and the tag that ends it.
enum Line {
    Tag(Seq<char>, Seq<char>),
    Element(Seq<char>, Seq<char>, Seq<char>),
}

/// A line as it is written.
spec fn written(line: Line) -> Seq<char> {
    match line {
        Line::Tag(indent, tag) => launch_agent::tag_line(indent, tag),
        Line::Element(indent, name, value) => launch_agent::element_line(indent, name, value),
    }
}

/// Whether a tag can be read back: it has no brackets, no white space at its ends, and it starts
/// no comment.
spec fn good_tag(tag: Seq<char>) -> bool {
    &&& tag.len() > 0
    &&& !tag.contains('>')
    &&& !text::white_space(tag[0])
    &&& !text::white_space(tag.last())
    &&& tag.last() == '/' ==> tag.len() > 1 && !text::white_space(tag[tag.len() - 2])
    &&& tag[0] == '!' ==> tag.len() > 1 && tag[1] != '-'
}

/// Whether a line can be read back.
spec fn good_line(line: Line) -> bool {
    match line {
        Line::Tag(indent, tag) => !indent.contains('<') && good_tag(tag),
        Line::Element(indent, name, value) => !indent.contains('<') && good_tag(name) && name.last()
            != '/' && name[0] != '/' && !value.contains('<'),
    }
}

/// Whether marks start with those of the lines.
spec fn begins_with(marks: Seq<MarkView>, lines: Seq<Line>) -> bool
    decreases lines.len(),
{
    if lines.len() == 0 {
        true
    } else {
        match lines[0] {
            Line::Tag(_, tag) => marks.len() > 0 && marks[0].tag == tag && begins_with(
                marks.skip(1),
                lines.skip(1),
            ),
            Line::Element(_, name, value) => marks.len() > 1 && marks[0] == (MarkView {
                tag: name,
                text: value,
            }) && marks[1].tag == seq!['/'] + name && begins_with(marks.skip(2), lines.skip(1)),
        }
    }
}

proof fn lemma_position(front: Seq<char>, c: char, back: Seq<char>)
    requires
        !front.contains(c),
    ensures
        property_list::position(front + back, c) == front.len() + property_list::position(back, c),
    decreases front.len(),
{
    if front.len() == 0 {
        assert(front + back =~= back);
    } else {
        let rest = front.skip(1);
        assert(!rest.contains(c)) by {
            if rest.contains(c) {
                let k = choose|k: int| 0 <= k < rest.len() && rest[k] == c;
                assert(front[k + 1] == c);
            }
        }
        assert(front[0] != c);
        lemma_position(rest, c, back);
        assert((front + back).skip(1) =~= rest + back);
    }
}

proof fn lemma_trimmed(value: Seq<char>)
    requires
        value.len() > 0,
        !text::white_space(value[0]),
        !text::white_space(value.last()),
    ensures
        text::trimmed(value) == value,
{
}

proof fn lemma_tag_name(tag: Seq<char>)
    requires
        good_tag(tag),
    ensures
        property_list::tag_name(tag) == tag,
{
    lemma_trimmed(tag);
    if tag.last() == '/' {
        let name = tag.drop_last();
        assert(name.last() == tag[tag.len() - 2]);
        lemma_trimmed(name);
        assert(name.push('/') =~= tag);
    }
}

proof fn lemma_marks_behind(front: Seq<char>, back: Seq<char>)
    requires
        !front.contains('<'),
    ensures
        property_list::marks(front + back) == property_list::marks(back),
{
    lemma_position(front, '<', back);
    let n = property_list::position(back, '<');
    if n <= back.len() {
        assert((front + back).skip((front.len() + n) as int) =~= back.skip(n as int));
    }
    assert(property_list::behind(front + back, front.len() + n) =~= property_list::behind(back, n));
}

proof fn lemma_mark(indent: Seq<char>, tag: Seq<char>, back: Seq<char>)
    requires
        !indent.contains('<'),
        good_tag(tag),
    ensures
        property_list::marks(indent + (seq!['<'] + tag + seq!['>'] + back)) == seq![
            MarkView { tag, text: back.take(property_list::position(back, '<') as int) },
        ] + property_list::marks(back),
{
    let document = seq!['<'] + tag + seq!['>'] + back;
    lemma_marks_behind(indent, document);
    assert(property_list::position(document, '<') == 0);
    assert(document.skip(0) =~= document);
    let front = seq!['<'] + tag;
    assert(!front.contains('>')) by {
        if front.contains('>') {
            let k = choose|k: int| 0 <= k < front.len() && front[k] == '>';
            if k > 0 {
                assert(tag[k - 1] == '>');
            }
        }
    }
    assert(document =~= front + (seq!['>'] + back));
    lemma_position(front, '>', seq!['>'] + back);
    assert(property_list::position(seq!['>'] + back, '>') == 0);
    let end = front.len() as int;
    assert(document.subrange(1, end) =~= tag);
    assert(document.skip(end + 1) =~= back);
    lemma_tag_name(tag);
    reveal_strlit("<!--");
    assert(!"<!--"@.is_prefix_of(document)) by {
        if "<!--"@.is_prefix_of(document) {
            assert(document.subrange(0, 4)[1] == "<!--"@[1]);
            assert(document.subrange(0, 4)[2] == "<!--"@[2]);
            assert(document[1] == tag[0]);
            if tag.len() > 1 {
                assert(document[2] == tag[1]);
            }
        }
    }
}

proof fn lemma_read_tag(indent: Seq<char>, tag: Seq<char>, back: Seq<char>)
    requires
        !indent.contains('<'),
        good_tag(tag),
    ensures
        ({
            let marks = property_list::marks(launch_agent::tag_line(indent, tag) + back);
            marks.len() > 0 && marks[0].tag == tag && marks.skip(1) == property_list::marks(back)
        }),
{
    reveal_strlit("<");
    reveal_strlit(">");
    lemma_mark(indent, tag, back);
    let line = launch_agent::tag_line(indent, tag);
    assert(line + back =~= indent + (seq!['<'] + tag + seq!['>'] + back));
    let marks = property_list::marks(line + back);
    assert(marks.skip(1) =~= property_list::marks(back));
}

proof fn lemma_end_tag(name: Seq<char>, back: Seq<char>)
    requires
        good_tag(name),
        name.last() != '/',
        name[0] != '/',
    ensures
        ({
            let closing = seq!['<'] + (seq!['/'] + name) + seq!['>'] + back;
            let marks = property_list::marks(closing);
            marks.len() > 0 && marks[0].tag == seq!['/'] + name && marks.skip(1)
                == property_list::marks(back)
        }),
{
    let end = seq!['/'] + name;
    let nothing = Seq::<char>::empty();
    let closing = seq!['<'] + end + seq!['>'] + back;
    assert(good_tag(end)) by {
        assert(end.last() == name.last());
        if end.contains('>') {
            let k = choose|k: int| 0 <= k < end.len() && end[k] == '>';
            assert(name[k - 1] == '>');
        }
    }
    lemma_mark(nothing, end, back);
    assert(nothing + closing =~= closing);
    assert(property_list::marks(closing).skip(1) =~= property_list::marks(back));
}

proof fn lemma_read_element(
    indent: Seq<char>,
    name: Seq<char>,
    value: Seq<char>,
    back: Seq<char>,
)
    requires
        good_line(Line::Element(indent, name, value)),
    ensures
        ({
            let marks = property_list::marks(
                launch_agent::element_line(indent, name, value) + back,
            );
            marks.len() > 1 && marks[0] == (MarkView { tag: name, text: value }) && marks[1].tag
                == seq!['/'] + name && marks.skip(2) == property_list::marks(back)
        }),
{
    reveal_strlit("<");
    reveal_strlit(">");
    reveal_strlit("</");
    let closing = seq!['<'] + (seq!['/'] + name) + seq!['>'] + back;
    lemma_end_tag(name, back);
    lemma_mark(indent, name, value + closing);
    lemma_position(value, '<', closing);
    assert(property_list::position(closing, '<') == 0);
    assert((value + closing).take(value.len() as int) =~= value);
    lemma_marks_behind(value, closing);
    let line = launch_agent::element_line(indent, name, value);
    assert(line + back =~= indent + (seq!['<'] + name + seq!['>'] + (value + closing)));
    let marks = property_list::marks(line + back);
    let ended = property_list::marks(closing);
    assert(marks == seq![MarkView { tag: name, text: value }] + ended);
    assert(marks[1] == ended[0]);
    assert(marks.skip(2) =~= ended.skip(1));
}

/// The lines as they are written.
spec fn all_written(lines: Seq<Line>) -> Seq<Seq<char>> {
    Seq::new(lines.len(), |i: int| written(lines[i]))
}

proof fn lemma_joined_front(texts: Seq<Seq<char>>)
    requires
        texts.len() > 1,
    ensures
        text::joined_text(texts, seq!['\n']) == texts[0] + (seq!['\n'] + text::joined_text(
            texts.skip(1),
            seq!['\n'],
        )),
    decreases texts.len(),
{
    let shorter = texts.drop_last();
    let rest = texts.skip(1);
    assert(rest.last() == texts.last());
    if texts.len() == 2 {
        assert(shorter =~= seq![texts[0]]);
        assert(rest =~= seq![texts[1]]);
        assert(text::joined_text(shorter, seq!['\n']) == texts[0]);
        assert(text::joined_text(rest, seq!['\n']) == texts[1]);
        assert(text::joined_text(texts, seq!['\n']) =~= texts[0] + (seq!['\n'] + texts[1]));
    } else {
        lemma_joined_front(shorter);
        assert(shorter.skip(1) =~= rest.drop_last());
        assert(text::joined_text(texts, seq!['\n']) =~= texts[0] + (seq!['\n']
            + text::joined_text(rest, seq!['\n'])));
    }
}

proof fn lemma_lines(lines: Seq<Line>, more: Seq<Seq<char>>)
    requires
        more.len() > 0,
        forall|i: int| 0 <= i < lines.len() ==> good_line(#[trigger] lines[i]),
    ensures
        begins_with(
            property_list::marks(text::joined_text(all_written(lines) + more, seq!['\n'])),
            lines,
        ),
    decreases lines.len(),
{
    if lines.len() > 0 {
        let rest = lines.skip(1);
        let texts = all_written(lines) + more;
        assert forall|i: int| 0 <= i < rest.len() implies good_line(#[trigger] rest[i]) by {
            assert(good_line(lines[i + 1]));
        }
        lemma_lines(rest, more);
        lemma_joined_front(texts);
        assert(texts.skip(1) =~= all_written(rest) + more);
        let back = text::joined_text(all_written(rest) + more, seq!['\n']);
        assert(good_line(lines[0]));
        match lines[0] {
            Line::Tag(indent, tag) => lemma_read_tag(indent, tag, seq!['\n'] + back),
            Line::Element(indent, name, value) => {
                lemma_read_element(indent, name, value, seq!['\n'] + back)
            },
        }
        lemma_marks_behind(seq!['\n'], back);
    }
}

proof fn lemma_unescaped_plain(value: Seq<char>)
    requires
        !value.contains('&'),
    ensures
        launch_agent::unescaped(value) == value,
    decreases value.len(),
{
    reveal_strlit("&amp;");
    reveal_strlit("&lt;");
    reveal_strlit("&gt;");
    reveal_strlit("&quot;");
    reveal_strlit("&apos;");
    if value.len() == 0 {
        assert(value =~= Seq::empty());
    } else {
        assert(value[0] != '&');
        assert("&amp;"@[0] == '&');
        assert("&lt;"@[0] == '&');
        assert("&gt;"@[0] == '&');
        assert("&quot;"@[0] == '&');
        assert("&apos;"@[0] == '&');
        let rest = value.skip(1);
        assert(!rest.contains('&')) by {
            if rest.contains('&') {
                let k = choose|k: int| 0 <= k < rest.len() && rest[k] == '&';
                assert(value[k + 1] == '&');
            }
        }
        lemma_unescaped_plain(rest);
        assert(seq![value[0]] + rest =~= value);
    }
}

/// Whether a tag is none of those that matter for finding a key.
spec fn indifferent(tag: Seq<char>) -> bool {
    &&& tag != "key"@
    &&& tag != "dict"@
    &&& tag != "array"@
    &&& tag != "/dict"@
    &&& tag != "/array"@
}

proof fn lemma_pass_tag(marks: Seq<MarkView>, lines: Seq<Line>, key: Seq<char>, depth: nat)
    requires
        lines.len() > 0,
        begins_with(marks, lines),
        lines[0] matches Line::Tag(_, tag) && tag != "key"@,
    ensures
        lines[0] matches Line::Tag(_, tag) && property_list::value_of(marks, key, depth)
            == property_list::value_of(
            marks.skip(1),
            key,
            property_list::depth_behind(depth, tag),
        ),
        begins_with(marks.skip(1), lines.skip(1)),
{
}

proof fn lemma_pass_element(marks: Seq<MarkView>, lines: Seq<Line>, key: Seq<char>, depth: nat)
    requires
        lines.len() > 0,
        begins_with(marks, lines),
        lines[0] matches Line::Element(_, name, value) && (name == "key"@ || indifferent(name))
            && indifferent(seq!['/'] + name) && !(name == "key"@ && launch_agent::unescaped(value)
            == key),
    ensures
        property_list::value_of(marks, key, depth) == property_list::value_of(
            marks.skip(2),
            key,
            depth,
        ),
        begins_with(marks.skip(2), lines.skip(1)),
{
    reveal_strlit("key");
    reveal_strlit("dict");
    reveal_strlit("array");
    reveal_strlit("/dict");
    reveal_strlit("/array");
    assert("key"@.len() == 3 && "dict"@.len() == 4 && "array"@.len() == 5);
    assert("/dict"@.len() == 5 && "/array"@.len() == 6);
    let rest = marks.skip(1);
    assert(rest[0] == marks[1]);
    assert(rest.skip(1) =~= marks.skip(2));
    assert(property_list::value_of(rest, key, depth) == property_list::value_of(
        marks.skip(2),
        key,
        depth,
    ));
}

proof fn lemma_reach_element(marks: Seq<MarkView>, lines: Seq<Line>, key: Seq<char>)
    requires
        lines.len() > 1,
        begins_with(marks, lines),
        lines[0] matches Line::Element(_, name, value) && name == "key"@ && launch_agent::unescaped(
            value,
        ) == key,
        lines[1] matches Line::Tag(_, tag) ==> tag != "!--"@,
        lines[1] matches Line::Element(_, name, _) ==> name != "!--"@,
    ensures
        property_list::value_of(marks, key, 1) == Some(marks.skip(2)),
        begins_with(marks.skip(2), lines.skip(1)),
{
    reveal_strlit("key");
    reveal_strlit("/key");
    assert(seq!['/'] + "key"@ =~= "/key"@);
    let value = marks.skip(2);
    let rest = lines.skip(1);
    assert(rest[0] == lines[1]);
    assert(begins_with(value, rest));
}

proof fn lemma_array(marks: Seq<MarkView>, lines: Seq<Line>, arguments: Seq<Seq<char>>, found: Seq<Seq<char>>)
    requires
        begins_with(marks, lines),
        lines.len() > arguments.len(),
        forall|i: int|
            0 <= i < arguments.len() ==> lines[i] == Line::Element(
                "        "@,
                "string"@,
                launch_agent::escaped(#[trigger] arguments[i]),
            ),
        lines[arguments.len() as int] matches Line::Tag(_, tag) && tag == "/array"@,
    ensures
        property_list::array_strings(marks, found) == Some(found + arguments),
    decreases arguments.len(),
{
    reveal_strlit("string");
    reveal_strlit("/string");
    reveal_strlit("string/");
    reveal_strlit("/array");
    reveal_strlit("!--");
    assert("string"@[0] == 's' && "/array"@[0] == '/' && "!--"@[0] == '!');
    assert("string"@.len() == 6 && "string/"@.len() == 7);
    if arguments.len() == 0 {
        assert(found + arguments =~= found);
    } else {
        let first = arguments[0];
        assert(lines[0] == Line::Element("        "@, "string"@, launch_agent::escaped(first)));
        assert(seq!['/'] + "string"@ =~= "/string"@);
        launch_agent::law_escaped_texts_read_back(first);
        let rest = arguments.skip(1);
        assert forall|i: int| 0 <= i < rest.len() implies lines.skip(1)[i] == Line::Element(
            "        "@,
            "string"@,
            launch_agent::escaped(#[trigger] rest[i]),
        ) by {
            assert(rest[i] == arguments[i + 1]);
        }
        lemma_array(marks.skip(2), lines.skip(1), rest, found.push(first));
        assert(found.push(first) + rest =~= found + arguments);
    }
}

/// The first lines of a LaunchAgent.
spec fn head() -> Seq<Line> {
    seq![
        Line::Tag(""@, "?xml version=\"1.0\" encoding=\"UTF-8\"?"@),
        Line::Tag(
            ""@,
            "!DOCTYPE plist PUBLIC \"-//Apple//DTD PLIST 1.0//EN\" \"http://www.apple.com/DTDs/PropertyList-1.0.dtd\""@,
        ),
        Line::Tag(""@, "plist version=\"1.0\""@),
        Line::Tag(""@, "dict"@),
        Line::Element("    "@, "key"@, "Label"@),
        Line::Element("    "@, "string"@, LABEL@),
        Line::Element("    "@, "key"@, "ProgramArguments"@),
        Line::Tag("    "@, "array"@),
    ]
}

/// The lines with the arguments of a LaunchAgent.
spec fn middle(arguments: Seq<Seq<char>>) -> Seq<Line> {
    Seq::new(
        arguments.len(),
        |i: int| Line::Element("        "@, "string"@, launch_agent::escaped(arguments[i])),
    )
}

/// The lines of a LaunchAgent behind its arguments, up to the interval.
spec fn tail(interval: u64) -> Seq<Line> {
    seq![
        Line::Tag("    "@, "/array"@),
        Line::Element("    "@, "key"@, "RunAtLoad"@),
        Line::Tag("    "@, "true/"@),
        Line::Element("    "@, "key"@, "StartInterval"@),
        Line::Element("    "@, "integer"@, text::decimal_text(interval as nat)),
    ]
}

proof fn lemma_good_head()
    ensures
        forall|i: int| 0 <= i < 8 ==> good_line(#[trigger] head()[i]),
        head().len() == 8,
{
    reveal_strlit("");
    reveal_strlit("    ");
    reveal_strlit("?xml version=\"1.0\" encoding=\"UTF-8\"?");
    reveal_strlit(
        "!DOCTYPE plist PUBLIC \"-//Apple//DTD PLIST 1.0//EN\" \"http://www.apple.com/DTDs/PropertyList-1.0.dtd\"",
    );
    reveal_strlit("plist version=\"1.0\"");
    reveal_strlit("dict");
    reveal_strlit("key");
    reveal_strlit("Label");
    reveal_strlit("string");
    reveal_strlit("org.nixos.lop");
    reveal_strlit("ProgramArguments");
    reveal_strlit("array");
    let doctype = "!DOCTYPE plist PUBLIC \"-//Apple//DTD PLIST 1.0//EN\" \"http://www.apple.com/DTDs/PropertyList-1.0.dtd\""@;
    assert(doctype[0] == '!' && doctype[1] == 'D');
    assert(good_tag(doctype));
    assert(good_tag("?xml version=\"1.0\" encoding=\"UTF-8\"?"@));
    assert(good_tag("plist version=\"1.0\""@));
    assert(good_tag("dict"@));
    assert(good_tag("key"@));
    assert(good_tag("string"@));
    assert(good_tag("array"@));
    assert(!""@.contains('<'));
    assert(!"    "@.contains('<'));
    assert(!"Label"@.contains('<'));
    assert(!LABEL@.contains('<'));
    assert(!"ProgramArguments"@.contains('<'));
}

proof fn lemma_good_middle(arguments: Seq<Seq<char>>)
    ensures
        forall|i: int| 0 <= i < arguments.len() ==> good_line(#[trigger] middle(arguments)[i]),
{
    reveal_strlit("        ");
    reveal_strlit("string");
    assert(!"        "@.contains('<'));
    assert(good_tag("string"@));
    assert forall|i: int| 0 <= i < arguments.len() implies good_line(
        #[trigger] middle(arguments)[i],
    ) by {
        launch_agent::law_escaped_texts_hold_no_marks(arguments[i]);
        let value = launch_agent::escaped(arguments[i]);
        if value.contains('<') {
            let k = choose|k: int| 0 <= k < value.len() && value[k] == '<';
            assert(launch_agent::escaped(arguments[i])[k] != '<');
        }
    }
}

proof fn lemma_good_tail(interval: u64)
    ensures
        forall|i: int| 0 <= i < 5 ==> good_line(#[trigger] tail(interval)[i]),
        tail(interval).len() == 5,
{
    reveal_strlit("    ");
    reveal_strlit("/array");
    reveal_strlit("key");
    reveal_strlit("RunAtLoad");
    reveal_strlit("true/");
    reveal_strlit("StartInterval");
    reveal_strlit("integer");
    text::lemma_decimal_reads_back(interval as nat);
    let number = text::decimal_text(interval as nat);
    assert(!number.contains('<'));
    assert(good_tag("/array"@));
    assert(good_tag("key"@));
    assert(good_tag("true/"@));
    assert(good_tag("integer"@));
    assert(!"    "@.contains('<'));
    assert(!"RunAtLoad"@.contains('<'));
    assert(!"StartInterval"@.contains('<'));
}

proof fn lemma_words()
    ensures
        indifferent("?xml version=\"1.0\" encoding=\"UTF-8\"?"@),
        indifferent(
            "!DOCTYPE plist PUBLIC \"-//Apple//DTD PLIST 1.0//EN\" \"http://www.apple.com/DTDs/PropertyList-1.0.dtd\""@,
        ),
        indifferent("plist version=\"1.0\""@),
        indifferent("true/"@),
        indifferent("string"@),
        indifferent(seq!['/'] + "string"@),
        indifferent(seq!['/'] + "key"@),
        "dict"@ != "key"@,
        "array"@ != "key"@,
        "array"@ != "dict"@,
        "array"@ != "!--"@,
        "/array"@ != "key"@,
        "/array"@ != "dict"@,
        "/array"@ != "array"@,
        "integer"@ != "!--"@,
        seq!['/'] + "integer"@ == "/integer"@,
        launch_agent::unescaped("Label"@) != "ProgramArguments"@,
        launch_agent::unescaped("ProgramArguments"@) == "ProgramArguments"@,
        launch_agent::unescaped("Label"@) != "StartInterval"@,
        launch_agent::unescaped("ProgramArguments"@) != "StartInterval"@,
        launch_agent::unescaped("RunAtLoad"@) != "StartInterval"@,
        launch_agent::unescaped("StartInterval"@) == "StartInterval"@,
{
    reveal_strlit("?xml version=\"1.0\" encoding=\"UTF-8\"?");
    reveal_strlit(
        "!DOCTYPE plist PUBLIC \"-//Apple//DTD PLIST 1.0//EN\" \"http://www.apple.com/DTDs/PropertyList-1.0.dtd\"",
    );
    reveal_strlit("plist version=\"1.0\"");
    reveal_strlit("true/");
    reveal_strlit("string");
    reveal_strlit("key");
    reveal_strlit("dict");
    reveal_strlit("array");
    reveal_strlit("/dict");
    reveal_strlit("/array");
    reveal_strlit("integer");
    reveal_strlit("/integer");
    reveal_strlit("!--");
    reveal_strlit("Label");
    reveal_strlit("ProgramArguments");
    reveal_strlit("RunAtLoad");
    reveal_strlit("StartInterval");
    assert("key"@.len() == 3 && "dict"@.len() == 4 && "array"@.len() == 5 && "/dict"@.len() == 5
        && "/array"@.len() == 6 && "!--"@.len() == 3 && "integer"@.len() == 7);
    assert("true/"@.len() == 5 && "true/"@[0] == 't' && "array"@[0] == 'a' && "/dict"@[0] == '/');
    assert("string"@.len() == 6 && "string"@[0] == 's' && "/array"@[0] == '/');
    assert((seq!['/'] + "string"@).len() == 7);
    assert((seq!['/'] + "key"@).len() == 4 && (seq!['/'] + "key"@)[0] == '/' && "dict"@[0] == 'd');
    assert(seq!['/'] + "integer"@ =~= "/integer"@);
    assert("?xml version=\"1.0\" encoding=\"UTF-8\"?"@.len() > 6);
    assert("plist version=\"1.0\""@.len() > 6);
    assert("!DOCTYPE plist PUBLIC \"-//Apple//DTD PLIST 1.0//EN\" \"http://www.apple.com/DTDs/PropertyList-1.0.dtd\""@.len()
        > 6);
    lemma_unescaped_plain("Label"@);
    lemma_unescaped_plain("ProgramArguments"@);
    lemma_unescaped_plain("RunAtLoad"@);
    lemma_unescaped_plain("StartInterval"@);
    assert("Label"@.len() == 5 && "ProgramArguments"@.len() == 16 && "RunAtLoad"@.len() == 9
        && "StartInterval"@.len() == 13);
}

/// Goes through the first lines, up to the arguments: they are where the key says, and another key
/// is not found before them.
proof fn lemma_through_head(marks: Seq<MarkView>, lines: Seq<Line>, key: Seq<char>)
    requires
        lines.len() > 8,
        head().is_prefix_of(lines),
        begins_with(marks, lines),
        key == "ProgramArguments"@ || key == "StartInterval"@,
    ensures
        key == "ProgramArguments"@ ==> property_list::value_of(marks, key, 0) == Some(
            marks.skip(10),
        ),
        key == "StartInterval"@ ==> property_list::value_of(marks, key, 0)
            == property_list::value_of(marks.skip(11), key, 2),
        marks.len() > 10,
        marks[10].tag == "array"@,
        begins_with(marks.skip(11), lines.skip(8)),
{
    lemma_words();
    assert(forall|i: int| 0 <= i < 8 ==> #[trigger] lines[i] == head()[i]) by {
        assert forall|i: int| 0 <= i < 8 implies #[trigger] lines[i] == head()[i] by {
            assert(lines.subrange(0, 8)[i] == head()[i]);
        }
    }
    lemma_pass_tag(marks, lines, key, 0);
    let (m1, l1) = (marks.skip(1), lines.skip(1));
    assert(l1[0] == lines[1]);
    lemma_pass_tag(m1, l1, key, 0);
    let (m2, l2) = (marks.skip(2), lines.skip(2));
    assert(m1.skip(1) =~= m2 && l1.skip(1) =~= l2);
    assert(l2[0] == lines[2]);
    lemma_pass_tag(m2, l2, key, 0);
    let (m3, l3) = (marks.skip(3), lines.skip(3));
    assert(m2.skip(1) =~= m3 && l2.skip(1) =~= l3);
    assert(l3[0] == lines[3]);
    lemma_pass_tag(m3, l3, key, 0);
    let (m4, l4) = (marks.skip(4), lines.skip(4));
    assert(m3.skip(1) =~= m4 && l3.skip(1) =~= l4);
    assert(l4[0] == lines[4]);
    lemma_pass_element(m4, l4, key, 1);
    let (m5, l5) = (marks.skip(6), lines.skip(5));
    assert(m4.skip(2) =~= m5 && l4.skip(1) =~= l5);
    assert(l5[0] == lines[5]);
    lemma_pass_element(m5, l5, key, 1);
    let (m6, l6) = (marks.skip(8), lines.skip(6));
    assert(m5.skip(2) =~= m6 && l5.skip(1) =~= l6);
    assert(l6[0] == lines[6]);
    assert(l6[1] == lines[7]);
    let (m7, l7) = (marks.skip(10), lines.skip(7));
    assert(m6.skip(2) =~= m7 && l6.skip(1) =~= l7);
    assert(l7[0] == lines[7]);
    assert(begins_with(m7, l7));
    assert(m7[0] == marks[10]);
    assert(m7.skip(1) =~= marks.skip(11) && l7.skip(1) =~= lines.skip(8));
    if key == "ProgramArguments"@ {
        lemma_reach_element(m6, l6, key);
    } else {
        lemma_pass_element(m6, l6, key, 1);
        lemma_pass_tag(m7, l7, key, 1);
    }
}

proof fn lemma_through_middle(
    marks: Seq<MarkView>,
    lines: Seq<Line>,
    arguments: Seq<Seq<char>>,
    key: Seq<char>,
    depth: nat,
)
    requires
        lines.len() > arguments.len(),
        middle(arguments).is_prefix_of(lines),
        begins_with(marks, lines),
    ensures
        property_list::value_of(marks, key, depth) == property_list::value_of(
            marks.skip(2 * arguments.len() as int),
            key,
            depth,
        ),
        begins_with(
            marks.skip(2 * arguments.len() as int),
            lines.skip(arguments.len() as int),
        ),
        marks.len() >= 2 * arguments.len(),
    decreases arguments.len(),
{
    lemma_words();
    if arguments.len() == 0 {
        assert(marks.skip(0) =~= marks);
        assert(lines.skip(0) =~= lines);
    } else {
        let n = arguments.len() as int;
        let rest = arguments.skip(1);
        assert(lines.subrange(0, n)[0] == middle(arguments)[0]);
        reveal_strlit("string");
        reveal_strlit("key");
        assert("string"@.len() != "key"@.len());
        lemma_pass_element(marks, lines, key, depth);
        assert(lines.skip(1).subrange(0, n - 1) =~= middle(rest)) by {
            assert forall|i: int| 0 <= i < n - 1 implies lines.skip(1).subrange(0, n - 1)[i]
                == middle(rest)[i] by {
                assert(lines.subrange(0, n)[i + 1] == middle(arguments)[i + 1]);
            }
        }
        lemma_through_middle(marks.skip(2), lines.skip(1), rest, key, depth);
        assert(marks.skip(2).skip(2 * rest.len() as int) =~= marks.skip(2 * n));
        assert(lines.skip(1).skip(rest.len() as int) =~= lines.skip(n));
    }
}

proof fn lemma_through_tail(marks: Seq<MarkView>, lines: Seq<Line>, interval: u64)
    requires
        lines == tail(interval),
        begins_with(marks, lines),
    ensures
        property_list::value_of(marks, "StartInterval"@, 2) matches Some(value) && value.len() > 1
            && value[0] == (MarkView {
            tag: "integer"@,
            text: text::decimal_text(interval as nat),
        }) && value[1].tag == "/integer"@,
{
    lemma_words();
    let key = "StartInterval"@;
    lemma_pass_tag(marks, lines, key, 2);
    let (m1, l1) = (marks.skip(1), lines.skip(1));
    assert(l1[0] == lines[1]);
    lemma_pass_element(m1, l1, key, 1);
    let (m2, l2) = (marks.skip(3), lines.skip(2));
    assert(m1.skip(2) =~= m2 && l1.skip(1) =~= l2);
    assert(l2[0] == lines[2]);
    lemma_pass_tag(m2, l2, key, 1);
    let (m3, l3) = (marks.skip(4), lines.skip(3));
    assert(m2.skip(1) =~= m3 && l2.skip(1) =~= l3);
    assert(l3[0] == lines[3]);
    assert(l3[1] == lines[4]);
    lemma_reach_element(m3, l3, key);
    assert(l3.skip(1)[0] == lines[4]);
}

/// A LaunchAgent that was written for a schedule says, when it is read back, that the command of
/// the schedule is run, and as often as its settings say: it is in step with them.
pub proof fn law_launch_agents_read_back(
    settings: ScheduleSettings,
    environment: ScheduleEnvironmentView,
    paths: SchedulePathsView,
)
    ensures
        launch_agent::installed_command(
            launch_agent::launch_agent_text(settings, environment, paths),
        ) == Some(
            InstalledCommandView {
                arguments: launch_agent::scheduled_command(
                    settings.mode,
                    environment.programs.lop,
                ),
                interval_seconds: settings.interval_seconds,
            },
        ),
        launch_agent::matches_settings(
            launch_agent::installed_command(
                launch_agent::launch_agent_text(settings, environment, paths),
            ),
            settings,
        ),
{
    let command = launch_agent::scheduled_command(settings.mode, environment.programs.lop);
    let interval = settings.interval_seconds;
    let n = command.len() as int;
    let back = launch_agent::environment_lines(environment) + launch_agent::tail_lines(
        paths.log_directory,
    );
    let lines = head() + middle(command) + tail(interval);
    lemma_good_head();
    lemma_good_middle(command);
    lemma_good_tail(interval);
    assert(middle(command).len() == n);
    assert forall|i: int| 0 <= i < lines.len() implies good_line(#[trigger] lines[i]) by {
        if i < 8 {
            assert(lines[i] == head()[i]);
        } else if i < 8 + n {
            assert(lines[i] == middle(command)[i - 8]);
        } else {
            assert(lines[i] == tail(interval)[i - 8 - n]);
        }
    }
    lemma_lines(lines, back);
    let document = launch_agent::launch_agent_text(settings, environment, paths);
    assert(all_written(head()) =~= launch_agent::head_lines());
    assert(all_written(middle(command)) =~= launch_agent::argument_lines(command));
    assert(all_written(tail(interval)) =~= launch_agent::interval_lines(interval));
    assert(all_written(lines) =~= all_written(head()) + all_written(middle(command)) + all_written(
        tail(interval),
    ));
    assert(all_written(lines) == launch_agent::front_lines(settings, environment.programs.lop));
    assert(launch_agent::front_lines(settings, environment.programs.lop)
        + launch_agent::environment_lines(environment) + launch_agent::tail_lines(
        paths.log_directory,
    ) =~= all_written(lines) + back);
    let marks = property_list::marks(document);
    assert(begins_with(marks, lines));
    assert(head().is_prefix_of(lines)) by {
        assert(lines.subrange(0, 8) =~= head());
    }
    lemma_through_head(marks, lines, "ProgramArguments"@);
    lemma_through_head(marks, lines, "StartInterval"@);
    let (m1, l1) = (marks.skip(11), lines.skip(8));
    assert(l1 =~= middle(command) + tail(interval));
    assert forall|i: int| 0 <= i < n implies l1[i] == Line::Element(
        "        "@,
        "string"@,
        launch_agent::escaped(#[trigger] command[i]),
    ) by {
        assert(l1[i] == middle(command)[i]);
    }
    assert(l1[n] == tail(interval)[0]);
    lemma_array(m1, l1, command, Seq::empty());
    assert(Seq::<Seq<char>>::empty() + command =~= command);
    let value = marks.skip(10);
    assert(value[0] == marks[10]);
    assert(value.skip(1) =~= m1);
    assert(property_list::strings_of(marks, "ProgramArguments"@) == Some(command));
    assert(l1.subrange(0, n) =~= middle(command));
    lemma_through_middle(m1, l1, command, "StartInterval"@, 2);
    assert(l1.skip(n) =~= tail(interval));
    lemma_through_tail(m1.skip(2 * n), l1.skip(n), interval);
    text::lemma_decimal_reads_back(interval as nat);
    let number = text::decimal_text(interval as nat);
    assert(!text::white_space(number[0]) && !text::white_space(number.last()));
    lemma_trimmed(number);
    launch_agent::law_scheduled_pruning_is_explicit(settings.mode, environment.programs.lop);
    assert(command.skip(1) =~= launch_agent::mode_arguments(settings.mode));
}

} // verus!
