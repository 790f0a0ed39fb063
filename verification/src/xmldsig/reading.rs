//! Reading XML text, to say what the documents hold that this library writes.
//!
//! A text is read as a row of tags, each with the text behind it. An empty tag reads as a start tag
//! and an end tag.

use vstd::prelude::*;

use super::xml;
use crate::crypto;

verus! {

/// A tag and the text between it and the next tag.
pub struct Mark {
    /// What stands between the brackets.
    pub tag: Seq<char>,
    /// The text, with entities read as the characters they stand for.
    pub text: Seq<char>,
}

/// A text with its entities read as the characters they stand for.
pub open spec fn unescaped(text: Seq<char>) -> Seq<char>
    decreases text.len(),
{
    if text.len() == 0 {
        seq![]
    } else if text.len() >= 5 && text.take(5) == "&amp;"@ {
        seq!['&'] + unescaped(text.skip(5))
    } else if text.len() >= 4 && text.take(4) == "&lt;"@ {
        seq!['<'] + unescaped(text.skip(4))
    } else if text.len() >= 4 && text.take(4) == "&gt;"@ {
        seq!['>'] + unescaped(text.skip(4))
    } else if text.len() >= 6 && text.take(6) == "&quot;"@ {
        seq!['"'] + unescaped(text.skip(6))
    } else {
        seq![text[0]] + unescaped(text.skip(1))
    }
}

/// The position of the first `c` in `text` from `from` on, or the end of the text.
pub open spec fn position(text: Seq<char>, c: char, from: int) -> int
    decreases text.len() - from,
{
    if from < 0 || from >= text.len() {
        text.len() as int
    } else if text[from] == c {
        from
    } else {
        position(text, c, from + 1)
    }
}

/// The name at the start of a tag.
pub open spec fn name_of(tag: Seq<char>) -> Seq<char> {
    tag.take(position(tag, ' ', 0))
}

/// The tags of a text that starts with one, each with the text behind it. What is no markup reads as
/// text behind a tag without a name.
pub open spec fn marks(text: Seq<char>) -> Seq<Mark>
    decreases text.len(),
{
    let end = position(text, '>', 0);
    let next = position(text, '<', end + 1);
    if text.len() == 0 {
        seq![]
    } else if text[0] != '<' || !(0 < end < next <= text.len()) {
        seq![Mark { tag: seq![], text }]
    } else {
        let tag = text.subrange(1, end);
        let behind = unescaped(text.subrange(end + 1, next));
        let first = if tag.len() > 0 && tag.last() == '/' {
            seq![
                Mark { tag: tag.drop_last(), text: seq![] },
                Mark { tag: seq!['/'] + name_of(tag.drop_last()), text: behind },
            ]
        } else {
            seq![Mark { tag, text: behind }]
        };
        first + marks(text.skip(next))
    }
}

/// Whether a text is empty, or starts and ends with a bracket.
pub open spec fn is_markup(text: Seq<char>) -> bool {
    text.len() > 0 ==> text[0] == '<' && text.last() == '>'
}

/// Whether a text can be the name of an element.
#[verifier::opaque]
pub open spec fn is_name(name: Seq<char>) -> bool {
    &&& name.len() > 0
    &&& forall|i: int|
        0 <= i < name.len() ==> #[trigger] name[i] != '<' && name[i] != '>' && name[i] != ' '
            && name[i] != '/'
}

/// Whether a text can stand behind the name in a start tag: it is empty, or starts with a space, ends
/// with a quote, and holds no bracket.
#[verifier::opaque]
pub open spec fn are_attributes(text: Seq<char>) -> bool {
    &&& text.len() > 0 ==> text[0] == ' ' && text.last() == '"'
    &&& xml::lacks(text, '<')
    &&& xml::lacks(text, '>')
}

/// A tag with nothing behind it.
pub open spec fn tag(inside: Seq<char>) -> Seq<Mark> {
    seq![Mark { tag: inside, text: seq![] }]
}

/// The tag that ends an element.
pub open spec fn end(name: Seq<char>) -> Seq<Mark> {
    seq![Mark { tag: seq!['/'] + name, text: seq![] }]
}

/// An element without attributes that says `text`.
pub open spec fn says(name: Seq<char>, text: Seq<char>) -> Seq<Mark> {
    seq![Mark { tag: name, text }, Mark { tag: seq!['/'] + name, text: seq![] }]
}

proof fn lemma_position(text: Seq<char>, c: char, from: int)
    requires
        0 <= from,
    ensures
        ({
            let at = position(text, c, from);
            &&& at <= text.len()
            &&& from <= text.len() ==> from <= at
            &&& forall|i: int| from <= i < at ==> #[trigger] text[i] != c
            &&& at < text.len() ==> text[at] == c
        }),
    decreases text.len() - from,
{
    if from < text.len() && text[from] != c {
        lemma_position(text, c, from + 1);
    }
}

/// A position is told by what it is.
proof fn lemma_position_is(text: Seq<char>, c: char, from: int, at: int)
    requires
        0 <= from <= at <= text.len(),
        forall|i: int| from <= i < at ==> #[trigger] text[i] != c,
        at < text.len() ==> text[at] == c,
    ensures
        position(text, c, from) == at,
    decreases at - from,
{
    if from < at {
        assert(text[from] != c);
        lemma_position_is(text, c, from + 1, at);
    }
}

/// Two texts in a row read as the first and then the second.
pub proof fn lemma_marks_in_a_row(a: Seq<char>, b: Seq<char>)
    requires
        is_markup(a),
        is_markup(b),
    ensures
        is_markup(a + b),
        marks(a + b) == marks(a) + marks(b),
    decreases a.len(),
{
    let whole = a + b;
    if a.len() == 0 {
        assert(whole =~= b);
        assert(marks(a) + marks(b) =~= marks(b));
    } else {
        assert(whole[0] == a[0]);
        assert(whole.last() == if b.len() > 0 { b.last() } else { a.last() });
        let end = position(a, '>', 0);
        lemma_position(a, '>', 0);
        assert(a[a.len() - 1] == '>');
        let next = position(a, '<', end + 1);
        lemma_position(a, '<', end + 1);
        lemma_part_position(a, b, '>', 0);
        lemma_part_position(a, b, '<', end + 1);
        let rest = a.skip(next);
        assert(whole.subrange(1, end) =~= a.subrange(1, end));
        assert(whole.subrange(end + 1, next) =~= a.subrange(end + 1, next));
        assert(whole.skip(next) =~= rest + b);
        if rest.len() > 0 {
            assert(rest[0] == a[next]);
            assert(rest.last() == a.last());
        }
        lemma_marks_in_a_row(rest, b);
        assert(marks(a) + marks(b) =~= marks(whole));
    }
}

proof fn lemma_part_position(a: Seq<char>, b: Seq<char>, c: char, from: int)
    requires
        0 <= from <= a.len(),
        position(a, c, from) < a.len() || b.len() == 0 || b[0] == c,
    ensures
        position(a + b, c, from) == position(a, c, from),
{
    let at = position(a, c, from);
    lemma_position(a, c, from);
    let whole = a + b;
    assert forall|i: int| from <= i < at implies #[trigger] whole[i] != c by {
        assert(whole[i] == a[i]);
    }
    if at < a.len() {
        assert(whole[at] == a[at]);
    } else if b.len() > 0 {
        assert(whole[at] == b[0]);
    }
    lemma_position_is(whole, c, from, at);
}

/// One tag and the text behind it.
pub proof fn lemma_one_tag(inside: Seq<char>, text: Seq<char>)
    requires
        inside.len() > 0,
        inside.last() != '/',
        xml::lacks(inside, '>'),
        xml::lacks(text, '<'),
    ensures
        marks(seq!['<'] + inside + seq!['>'] + text) == seq![
            Mark { tag: inside, text: unescaped(text) },
        ],
        position(seq!['<'] + inside + seq!['>'] + text, '>', 0) == 1 + inside.len(),
        position(seq!['<'] + inside + seq!['>'] + text, '<', 2 + inside.len() as int) == 2
            + inside.len() + text.len(),
{
    let whole = seq!['<'] + inside + seq!['>'] + text;
    let end = 1 + inside.len() as int;
    assert forall|i: int| 0 <= i < end implies #[trigger] whole[i] != '>' by {
        if i > 0 {
            assert(whole[i] == inside[i - 1]);
        }
    }
    lemma_position_is(whole, '>', 0, end);
    assert forall|i: int| end + 1 <= i < whole.len() implies #[trigger] whole[i] != '<' by {
        assert(whole[i] == text[i - end - 1]);
    }
    lemma_position_is(whole, '<', end + 1, whole.len() as int);
    assert(whole.subrange(1, end) =~= inside);
    assert(whole.subrange(end + 1, whole.len() as int) =~= text);
    assert(whole.skip(whole.len() as int) =~= Seq::<char>::empty());
    assert(marks(Seq::<char>::empty()) =~= Seq::<Mark>::empty());
    assert(marks(whole) =~= seq![Mark { tag: inside, text: unescaped(text) }]);
}

/// A tag that is closed at once.
proof fn lemma_empty_tag(name: Seq<char>, attributes: Seq<char>)
    requires
        is_name(name),
        are_attributes(attributes),
    ensures
        marks(seq!['<'] + name + attributes + seq!['/', '>']) == tag(name + attributes) + end(name),
{
    reveal(is_name);
    reveal(are_attributes);
    let inside = name + attributes + seq!['/'];
    let whole = seq!['<'] + name + attributes + seq!['/', '>'];
    let at = 1 + inside.len() as int;
    assert(inside.drop_last() =~= name + attributes);
    assert forall|i: int| 0 <= i < at implies #[trigger] whole[i] != '>' by {
        if i > 0 && i <= name.len() {
            assert(whole[i] == name[i - 1]);
        } else if i > name.len() && i < at - 1 {
            assert(whole[i] == attributes[i - 1 - name.len()]);
        }
    }
    lemma_position_is(whole, '>', 0, at);
    lemma_position_is(whole, '<', at + 1, whole.len() as int);
    assert(whole.subrange(1, at) =~= inside);
    assert(whole.subrange(at + 1, whole.len() as int) =~= Seq::<char>::empty());
    assert(whole.skip(whole.len() as int) =~= Seq::<char>::empty());
    lemma_name(name, attributes);
    assert(marks(Seq::<char>::empty()) =~= Seq::<Mark>::empty());
    assert(unescaped(Seq::<char>::empty()) =~= Seq::<char>::empty());
    assert(marks(whole) =~= tag(name + attributes) + end(name));
}

proof fn lemma_name(name: Seq<char>, attributes: Seq<char>)
    requires
        is_name(name),
        are_attributes(attributes),
    ensures
        name_of(name + attributes) == name,
{
    reveal(is_name);
    reveal(are_attributes);
    let whole = name + attributes;
    assert forall|i: int| 0 <= i < name.len() implies #[trigger] whole[i] != ' ' by {
        assert(whole[i] == name[i]);
    }
    if attributes.len() > 0 {
        assert(whole[name.len() as int] == attributes[0]);
    }
    lemma_position_is(whole, ' ', 0, name.len() as int);
    assert(whole.take(name.len() as int) =~= name);
}

proof fn lemma_start_inside(name: Seq<char>, attributes: Seq<char>)
    requires
        is_name(name),
        are_attributes(attributes),
    ensures
        (name + attributes).len() > 0,
        (name + attributes).last() != '/',
        xml::lacks(name + attributes, '>'),
        xml::lacks(seq!['/'] + name, '>'),
        (seq!['/'] + name).last() != '/',
{
    reveal(is_name);
    reveal(are_attributes);
    let inside = name + attributes;
    assert forall|i: int| 0 <= i < inside.len() implies #[trigger] inside[i] != '>' by {
        if i < name.len() {
            assert(inside[i] == name[i]);
        } else {
            assert(inside[i] == attributes[i - name.len()]);
        }
    }
    assert(name[name.len() - 1] != '/');
    let ending = seq!['/'] + name;
    assert forall|i: int| 0 <= i < ending.len() implies #[trigger] ending[i] != '>' by {
        if i > 0 {
            assert(ending[i] == name[i - 1]);
        }
    }
}

/// What stands inside an end tag.
pub proof fn lemma_end_inside(name: Seq<char>)
    requires
        is_name(name),
    ensures
        xml::lacks(seq!['/'] + name, '>'),
        (seq!['/'] + name).len() > 0,
        (seq!['/'] + name).last() != '/',
{
    reveal(are_attributes);
    lemma_start_inside(name, seq![]);
}

/// An element reads as its start tag, what it holds, and its end tag.
pub proof fn law_element_holds_its_content(name: Seq<char>, attributes: Seq<char>, content: Seq<char>)
    requires
        is_name(name),
        are_attributes(attributes),
        is_markup(content),
    ensures
        is_markup(xml::element(name, attributes, content)),
        marks(xml::element(name, attributes, content)) == tag(name + attributes) + marks(content)
            + end(name),
{
    reveal(is_name);
    reveal(are_attributes);
    reveal(xml::element);
    reveal_strlit("<");
    reveal_strlit(">");
    reveal_strlit("/>");
    reveal_strlit("</");
    let whole = xml::element(name, attributes, content);
    if content.len() == 0 {
        assert(whole =~= seq!['<'] + name + attributes + seq!['/', '>']);
        lemma_empty_tag(name, attributes);
        assert(tag(name + attributes) + marks(content) + end(name) =~= tag(name + attributes) + end(
            name,
        ));
    } else {
        let inside = name + attributes;
        let ending = seq!['/'] + name;
        let start = seq!['<'] + inside + seq!['>'] + Seq::<char>::empty();
        let stop = seq!['<'] + ending + seq!['>'] + Seq::<char>::empty();
        lemma_start_inside(name, attributes);
        assert(unescaped(Seq::<char>::empty()) =~= Seq::<char>::empty());
        lemma_one_tag(inside, Seq::empty());
        lemma_one_tag(ending, Seq::empty());
        assert(whole =~= start + content + stop);
        lemma_marks_in_a_row(start, content);
        lemma_marks_in_a_row(start + content, stop);
    }
}

/// An element with text reads as its start tag with that text, and its end tag.
pub proof fn law_element_says_its_text(name: Seq<char>, attributes: Seq<char>, text: Seq<char>)
    requires
        is_name(name),
        are_attributes(attributes),
    ensures
        is_markup(xml::element(name, attributes, xml::escaped_text(text))),
        marks(xml::element(name, attributes, xml::escaped_text(text))) == seq![
            Mark { tag: name + attributes, text },
        ] + end(name),
{
    reveal(is_name);
    reveal(are_attributes);
    reveal(xml::element);
    reveal_strlit("<");
    reveal_strlit(">");
    reveal_strlit("/>");
    reveal_strlit("</");
    let content = xml::escaped_text(text);
    let whole = xml::element(name, attributes, content);
    law_text_reads_back(text);
    if content.len() == 0 {
        assert(content =~= Seq::<char>::empty());
        assert(text =~= Seq::<char>::empty());
        assert(whole =~= seq!['<'] + name + attributes + seq!['/', '>']);
        lemma_empty_tag(name, attributes);
    } else {
        let inside = name + attributes;
        let ending = seq!['/'] + name;
        let start = seq!['<'] + inside + seq!['>'] + content;
        let stop = seq!['<'] + ending + seq!['>'] + Seq::<char>::empty();
        lemma_start_inside(name, attributes);
        xml::law_escaped_text_lacks_brackets(text);
        assert(unescaped(Seq::<char>::empty()) =~= Seq::<char>::empty());
        lemma_one_tag(inside, content);
        lemma_one_tag(ending, Seq::empty());
        assert(whole =~= start + stop);
        lemma_text_then_tag(start, stop);
        assert(marks(whole) =~= seq![Mark { tag: inside, text }] + end(name));
    }
}

/// A tag with text behind it, and then another tag.
pub proof fn lemma_text_then_tag(a: Seq<char>, b: Seq<char>)
    requires
        a.len() > 0,
        a[0] == '<',
        position(a, '>', 0) < a.len(),
        position(a, '<', position(a, '>', 0) + 1) == a.len(),
        b.len() > 0,
        b[0] == '<',
    ensures
        marks(a + b) == marks(a) + marks(b),
{
    let whole = a + b;
    let end = position(a, '>', 0);
    lemma_position(a, '>', 0);
    lemma_part_position(a, b, '>', 0);
    lemma_part_position(a, b, '<', end + 1);
    let next = a.len() as int;
    assert(whole.subrange(1, end) =~= a.subrange(1, end));
    assert(whole.subrange(end + 1, next) =~= a.subrange(end + 1, next));
    assert(whole.skip(next) =~= b);
    assert(a.skip(next) =~= Seq::<char>::empty());
    assert(marks(Seq::<char>::empty()) =~= Seq::<Mark>::empty());
    assert(marks(a) + marks(b) =~= marks(whole));
}

proof fn lemma_char_reads_back(c: char, rest: Seq<char>)
    ensures
        unescaped(xml::text_char(c) + rest) == seq![c] + unescaped(rest),
        unescaped(xml::value_char(c) + rest) == seq![c] + unescaped(rest),
{
    reveal_strlit("&amp;");
    reveal_strlit("&lt;");
    reveal_strlit("&gt;");
    reveal_strlit("&quot;");
    assert("&amp;"@ =~= seq!['&', 'a', 'm', 'p', ';']);
    assert("&lt;"@ =~= seq!['&', 'l', 't', ';']);
    assert("&gt;"@ =~= seq!['&', 'g', 't', ';']);
    assert("&quot;"@ =~= seq!['&', 'q', 'u', 'o', 't', ';']);
    let a = "&amp;"@ + rest;
    assert(a.take(5) =~= "&amp;"@ && a.skip(5) =~= rest);
    let l = "&lt;"@ + rest;
    assert(l[1] == 'l');
    assert(l.take(4) =~= "&lt;"@ && l.skip(4) =~= rest);
    assert(l.len() >= 5 ==> l.take(5)[1] == 'l');
    let g = "&gt;"@ + rest;
    assert(g.len() >= 5 ==> g.take(5)[1] == 'g');
    assert(g.take(4)[1] == 'g');
    assert(g.take(4) =~= "&gt;"@ && g.skip(4) =~= rest);
    let q = "&quot;"@ + rest;
    assert(q.take(5)[1] == 'q' && q.take(4)[1] == 'q');
    assert(q.take(6) =~= "&quot;"@ && q.skip(6) =~= rest);
    let o = seq![c] + rest;
    assert(o.skip(1) =~= rest);
    if c != '&' {
        assert(o.len() >= 5 ==> o.take(5)[0] == c);
        assert(o.len() >= 4 ==> o.take(4)[0] == c);
        assert(o.len() >= 6 ==> o.take(6)[0] == c);
    }
}

proof fn lemma_text_reads_back(text: Seq<char>, rest: Seq<char>)
    ensures
        unescaped(xml::escaped_text(text) + rest) == text + unescaped(rest),
    decreases text.len(),
{
    if text.len() == 0 {
        assert(xml::escaped_text(text) + rest =~= rest);
        assert(text + unescaped(rest) =~= unescaped(rest));
    } else {
        let before = text.drop_last();
        let last = xml::text_char(text.last());
        assert(xml::escaped_text(text) + rest =~= xml::escaped_text(before) + (last + rest));
        lemma_text_reads_back(before, last + rest);
        lemma_char_reads_back(text.last(), rest);
        assert(before + (seq![text.last()] + unescaped(rest)) =~= text + unescaped(rest));
    }
}

proof fn lemma_value_reads_back(value: Seq<char>, rest: Seq<char>)
    ensures
        unescaped(xml::escaped_value(value) + rest) == value + unescaped(rest),
    decreases value.len(),
{
    if value.len() == 0 {
        assert(xml::escaped_value(value) + rest =~= rest);
        assert(value + unescaped(rest) =~= unescaped(rest));
    } else {
        let before = value.drop_last();
        let last = xml::value_char(value.last());
        assert(xml::escaped_value(value) + rest =~= xml::escaped_value(before) + (last + rest));
        lemma_value_reads_back(before, last + rest);
        lemma_char_reads_back(value.last(), rest);
        assert(before + (seq![value.last()] + unescaped(rest)) =~= value + unescaped(rest));
    }
}

/// What is written for text reads as that text, and is as long at least.
pub proof fn law_text_reads_back(text: Seq<char>)
    ensures
        unescaped(xml::escaped_text(text)) == text,
        xml::escaped_text(text).len() == 0 <==> text.len() == 0,
{
    lemma_text_reads_back(text, Seq::empty());
    assert(xml::escaped_text(text) + Seq::<char>::empty() =~= xml::escaped_text(text));
    assert(unescaped(Seq::<char>::empty()) =~= Seq::<char>::empty());
    assert(text + Seq::<char>::empty() =~= text);
}

/// An attribute is its name and, between quotes, what reads as its value; the value cannot end the
/// quotes or the tag.
pub proof fn law_attribute_reads_back(name: Seq<char>, value: Seq<char>)
    ensures
        ({
            let quoted = xml::escaped_value(value);
            &&& xml::attribute(name, value) == seq![' '] + name + seq!['=', '"'] + quoted + seq!['"']
            &&& unescaped(quoted) == value
            &&& xml::lacks(quoted, '"')
            &&& xml::lacks(quoted, '<')
            &&& xml::lacks(quoted, '>')
        }),
{
    reveal(xml::attribute);
    reveal_strlit(" ");
    reveal_strlit("=\"");
    reveal_strlit("\"");
    lemma_value_reads_back(value, Seq::empty());
    assert(xml::escaped_value(value) + Seq::<char>::empty() =~= xml::escaped_value(value));
    assert(unescaped(Seq::<char>::empty()) =~= Seq::<char>::empty());
    assert(value + Seq::<char>::empty() =~= value);
    xml::law_escaped_value_stays_in_quotes(value);
    let quoted = xml::escaped_value(value);
    assert(xml::attribute(name, value) =~= seq![' '] + name + seq!['=', '"'] + quoted + seq!['"']);
}

/// An attribute with a plain name can stand in a start tag.
pub proof fn lemma_attribute(name: Seq<char>, value: Seq<char>)
    requires
        xml::is_plain(name),
    ensures
        are_attributes(xml::attribute(name, value)),
        xml::attribute(name, value).len() > 0,
{
    reveal(are_attributes);
    law_attribute_reads_back(name, value);
    let quoted = xml::escaped_value(value);
    let whole = xml::attribute(name, value);
    assert forall|i: int| 0 <= i < whole.len() implies #[trigger] whole[i] != '<' && whole[i]
        != '>' by {
        if 1 <= i <= name.len() {
            assert(whole[i] == name[i - 1]);
        } else if name.len() + 3 <= i < whole.len() - 1 {
            assert(whole[i] == quoted[i - 3 - name.len()]);
        }
    }
}

/// Attributes in a row.
pub proof fn lemma_attributes_in_a_row(a: Seq<char>, b: Seq<char>)
    requires
        are_attributes(a),
        are_attributes(b),
    ensures
        are_attributes(a + b),
{
    reveal(are_attributes);
    xml::lemma_lacks_concat(a, b, '<');
    xml::lemma_lacks_concat(a, b, '>');
    let whole = a + b;
    if whole.len() > 0 {
        assert(whole[0] == if a.len() > 0 { a[0] } else { b[0] });
        assert(whole.last() == if b.len() > 0 { b.last() } else { a.last() });
    }
}

/// A name in which a scan finds no bracket, no space and no slash is the name of an element.
pub proof fn lemma_is_name(name: Seq<char>)
    requires
        name.len() > 0,
        xml::scan_misses(name, '<', 0),
        xml::scan_misses(name, '>', 0),
        xml::scan_misses(name, ' ', 0),
        xml::scan_misses(name, '/', 0),
    ensures
        is_name(name),
{
    reveal(is_name);
    xml::lemma_scan(name, '<', 0);
    xml::lemma_scan(name, '>', 0);
    xml::lemma_scan(name, ' ', 0);
    xml::lemma_scan(name, '/', 0);
}

/// The names of the attributes that this library writes hold no bracket.
#[verifier::spinoff_prover]
pub proof fn lemma_attribute_names()
    ensures
        xml::is_plain("Id"@),
        xml::is_plain("Type"@),
        xml::is_plain("URI"@),
        xml::is_plain("Algorithm"@),
        xml::is_plain("Target"@),
        xml::is_plain("ObjectReference"@),
        xml::is_plain("xmlns:asic"@),
        xml::is_plain("xmlns:ds"@),
        xml::is_plain("xmlns:xades"@),
        xml::is_plain("xmlns:manifest"@),
        xml::is_plain("manifest:full-path"@),
        xml::is_plain("manifest:media-type"@),
{
    assert(xml::is_plain("Id"@)) by {
        reveal_strlit("Id");
        reveal_with_fuel(xml::scan_misses, 4);
        xml::lemma_plain("Id"@);
    }
    assert(xml::is_plain("Type"@)) by {
        reveal_strlit("Type");
        reveal_with_fuel(xml::scan_misses, 6);
        xml::lemma_plain("Type"@);
    }
    assert(xml::is_plain("URI"@)) by {
        reveal_strlit("URI");
        reveal_with_fuel(xml::scan_misses, 5);
        xml::lemma_plain("URI"@);
    }
    assert(xml::is_plain("Algorithm"@)) by {
        reveal_strlit("Algorithm");
        reveal_with_fuel(xml::scan_misses, 11);
        xml::lemma_plain("Algorithm"@);
    }
    assert(xml::is_plain("Target"@)) by {
        reveal_strlit("Target");
        reveal_with_fuel(xml::scan_misses, 8);
        xml::lemma_plain("Target"@);
    }
    assert(xml::is_plain("ObjectReference"@)) by {
        reveal_strlit("ObjectReference");
        reveal_with_fuel(xml::scan_misses, 17);
        xml::lemma_plain("ObjectReference"@);
    }
    assert(xml::is_plain("xmlns:asic"@)) by {
        reveal_strlit("xmlns:asic");
        reveal_with_fuel(xml::scan_misses, 12);
        xml::lemma_plain("xmlns:asic"@);
    }
    assert(xml::is_plain("xmlns:ds"@)) by {
        reveal_strlit("xmlns:ds");
        reveal_with_fuel(xml::scan_misses, 10);
        xml::lemma_plain("xmlns:ds"@);
    }
    assert(xml::is_plain("xmlns:xades"@)) by {
        reveal_strlit("xmlns:xades");
        reveal_with_fuel(xml::scan_misses, 13);
        xml::lemma_plain("xmlns:xades"@);
    }
    assert(xml::is_plain("xmlns:manifest"@)) by {
        reveal_strlit("xmlns:manifest");
        reveal_with_fuel(xml::scan_misses, 16);
        xml::lemma_plain("xmlns:manifest"@);
    }
    assert(xml::is_plain("manifest:full-path"@)) by {
        reveal_strlit("manifest:full-path");
        reveal_with_fuel(xml::scan_misses, 20);
        xml::lemma_plain("manifest:full-path"@);
    }
    assert(xml::is_plain("manifest:media-type"@)) by {
        reveal_strlit("manifest:media-type");
        reveal_with_fuel(xml::scan_misses, 21);
        xml::lemma_plain("manifest:media-type"@);
    }
}

/// The names of signature elements.
#[verifier::spinoff_prover]
pub proof fn lemma_signature_names()
    ensures
        is_name("asic:XAdESSignatures"@),
        is_name("ds:Signature"@),
        is_name("ds:SignedInfo"@),
        is_name("ds:CanonicalizationMethod"@),
        is_name("ds:SignatureMethod"@),
        is_name("ds:Reference"@),
        is_name("ds:Transforms"@),
        is_name("ds:Transform"@),
        is_name("ds:DigestMethod"@),
        is_name("ds:DigestValue"@),
        is_name("ds:SignatureValue"@),
        is_name("ds:KeyInfo"@),
        is_name("ds:X509Data"@),
        is_name("ds:X509Certificate"@),
        is_name("ds:Object"@),
        is_name("ds:X509IssuerName"@),
        is_name("ds:X509SerialNumber"@),
        is_name("ds:KeyValue"@),
        is_name("ds:RSAKeyValue"@),
        is_name("ds:Modulus"@),
        is_name("ds:Exponent"@),
{
    assert(is_name("asic:XAdESSignatures"@)) by {
        reveal_strlit("asic:XAdESSignatures");
        reveal_with_fuel(xml::scan_misses, 22);
        lemma_is_name("asic:XAdESSignatures"@);
    }
    assert(is_name("ds:Signature"@)) by {
        reveal_strlit("ds:Signature");
        reveal_with_fuel(xml::scan_misses, 14);
        lemma_is_name("ds:Signature"@);
    }
    assert(is_name("ds:SignedInfo"@)) by {
        reveal_strlit("ds:SignedInfo");
        reveal_with_fuel(xml::scan_misses, 15);
        lemma_is_name("ds:SignedInfo"@);
    }
    assert(is_name("ds:CanonicalizationMethod"@)) by {
        reveal_strlit("ds:CanonicalizationMethod");
        reveal_with_fuel(xml::scan_misses, 27);
        lemma_is_name("ds:CanonicalizationMethod"@);
    }
    assert(is_name("ds:SignatureMethod"@)) by {
        reveal_strlit("ds:SignatureMethod");
        reveal_with_fuel(xml::scan_misses, 20);
        lemma_is_name("ds:SignatureMethod"@);
    }
    assert(is_name("ds:Reference"@)) by {
        reveal_strlit("ds:Reference");
        reveal_with_fuel(xml::scan_misses, 14);
        lemma_is_name("ds:Reference"@);
    }
    assert(is_name("ds:Transforms"@)) by {
        reveal_strlit("ds:Transforms");
        reveal_with_fuel(xml::scan_misses, 15);
        lemma_is_name("ds:Transforms"@);
    }
    assert(is_name("ds:Transform"@)) by {
        reveal_strlit("ds:Transform");
        reveal_with_fuel(xml::scan_misses, 14);
        lemma_is_name("ds:Transform"@);
    }
    assert(is_name("ds:DigestMethod"@)) by {
        reveal_strlit("ds:DigestMethod");
        reveal_with_fuel(xml::scan_misses, 17);
        lemma_is_name("ds:DigestMethod"@);
    }
    assert(is_name("ds:DigestValue"@)) by {
        reveal_strlit("ds:DigestValue");
        reveal_with_fuel(xml::scan_misses, 16);
        lemma_is_name("ds:DigestValue"@);
    }
    assert(is_name("ds:SignatureValue"@)) by {
        reveal_strlit("ds:SignatureValue");
        reveal_with_fuel(xml::scan_misses, 19);
        lemma_is_name("ds:SignatureValue"@);
    }
    assert(is_name("ds:KeyInfo"@)) by {
        reveal_strlit("ds:KeyInfo");
        reveal_with_fuel(xml::scan_misses, 12);
        lemma_is_name("ds:KeyInfo"@);
    }
    assert(is_name("ds:X509Data"@)) by {
        reveal_strlit("ds:X509Data");
        reveal_with_fuel(xml::scan_misses, 13);
        lemma_is_name("ds:X509Data"@);
    }
    assert(is_name("ds:X509Certificate"@)) by {
        reveal_strlit("ds:X509Certificate");
        reveal_with_fuel(xml::scan_misses, 20);
        lemma_is_name("ds:X509Certificate"@);
    }
    assert(is_name("ds:Object"@)) by {
        reveal_strlit("ds:Object");
        reveal_with_fuel(xml::scan_misses, 11);
        lemma_is_name("ds:Object"@);
    }
    assert(is_name("ds:X509IssuerName"@)) by {
        reveal_strlit("ds:X509IssuerName");
        reveal_with_fuel(xml::scan_misses, 19);
        lemma_is_name("ds:X509IssuerName"@);
    }
    assert(is_name("ds:X509SerialNumber"@)) by {
        reveal_strlit("ds:X509SerialNumber");
        reveal_with_fuel(xml::scan_misses, 21);
        lemma_is_name("ds:X509SerialNumber"@);
    }
    assert(is_name("ds:KeyValue"@)) by {
        reveal_strlit("ds:KeyValue");
        reveal_with_fuel(xml::scan_misses, 13);
        lemma_is_name("ds:KeyValue"@);
    }
    assert(is_name("ds:RSAKeyValue"@)) by {
        reveal_strlit("ds:RSAKeyValue");
        reveal_with_fuel(xml::scan_misses, 16);
        lemma_is_name("ds:RSAKeyValue"@);
    }
    assert(is_name("ds:Modulus"@)) by {
        reveal_strlit("ds:Modulus");
        reveal_with_fuel(xml::scan_misses, 12);
        lemma_is_name("ds:Modulus"@);
    }
    assert(is_name("ds:Exponent"@)) by {
        reveal_strlit("ds:Exponent");
        reveal_with_fuel(xml::scan_misses, 13);
        lemma_is_name("ds:Exponent"@);
    }
}

/// The names of property elements.
#[verifier::spinoff_prover]
pub proof fn lemma_property_names()
    ensures
        is_name("xades:QualifyingProperties"@),
        is_name("xades:SignedProperties"@),
        is_name("xades:SignedSignatureProperties"@),
        is_name("xades:SigningTime"@),
        is_name("xades:SigningCertificate"@),
        is_name("xades:Cert"@),
        is_name("xades:CertDigest"@),
        is_name("xades:IssuerSerial"@),
        is_name("xades:SignatureProductionPlace"@),
        is_name("xades:City"@),
        is_name("xades:StateOrProvince"@),
        is_name("xades:PostalCode"@),
        is_name("xades:CountryName"@),
        is_name("xades:SignerRole"@),
        is_name("xades:ClaimedRoles"@),
        is_name("xades:ClaimedRole"@),
        is_name("xades:SignedDataObjectProperties"@),
        is_name("xades:DataObjectFormat"@),
        is_name("xades:MimeType"@),
        is_name("xades:UnsignedProperties"@),
        is_name("xades:UnsignedSignatureProperties"@),
        is_name("xades:SignatureTimeStamp"@),
        is_name("xades:EncapsulatedTimeStamp"@),
        is_name("xades:CertificateValues"@),
        is_name("xades:EncapsulatedX509Certificate"@),
        is_name("xades:RevocationValues"@),
        is_name("xades:OCSPValues"@),
        is_name("xades:EncapsulatedOCSPValue"@),
{
    assert(is_name("xades:QualifyingProperties"@)) by {
        reveal_strlit("xades:QualifyingProperties");
        reveal_with_fuel(xml::scan_misses, 28);
        lemma_is_name("xades:QualifyingProperties"@);
    }
    assert(is_name("xades:SignedProperties"@)) by {
        reveal_strlit("xades:SignedProperties");
        reveal_with_fuel(xml::scan_misses, 24);
        lemma_is_name("xades:SignedProperties"@);
    }
    assert(is_name("xades:SignedSignatureProperties"@)) by {
        reveal_strlit("xades:SignedSignatureProperties");
        reveal_with_fuel(xml::scan_misses, 33);
        lemma_is_name("xades:SignedSignatureProperties"@);
    }
    assert(is_name("xades:SigningTime"@)) by {
        reveal_strlit("xades:SigningTime");
        reveal_with_fuel(xml::scan_misses, 19);
        lemma_is_name("xades:SigningTime"@);
    }
    assert(is_name("xades:SigningCertificate"@)) by {
        reveal_strlit("xades:SigningCertificate");
        reveal_with_fuel(xml::scan_misses, 26);
        lemma_is_name("xades:SigningCertificate"@);
    }
    assert(is_name("xades:Cert"@)) by {
        reveal_strlit("xades:Cert");
        reveal_with_fuel(xml::scan_misses, 12);
        lemma_is_name("xades:Cert"@);
    }
    assert(is_name("xades:CertDigest"@)) by {
        reveal_strlit("xades:CertDigest");
        reveal_with_fuel(xml::scan_misses, 18);
        lemma_is_name("xades:CertDigest"@);
    }
    assert(is_name("xades:IssuerSerial"@)) by {
        reveal_strlit("xades:IssuerSerial");
        reveal_with_fuel(xml::scan_misses, 20);
        lemma_is_name("xades:IssuerSerial"@);
    }
    assert(is_name("xades:SignatureProductionPlace"@)) by {
        reveal_strlit("xades:SignatureProductionPlace");
        reveal_with_fuel(xml::scan_misses, 32);
        lemma_is_name("xades:SignatureProductionPlace"@);
    }
    assert(is_name("xades:City"@)) by {
        reveal_strlit("xades:City");
        reveal_with_fuel(xml::scan_misses, 12);
        lemma_is_name("xades:City"@);
    }
    assert(is_name("xades:StateOrProvince"@)) by {
        reveal_strlit("xades:StateOrProvince");
        reveal_with_fuel(xml::scan_misses, 23);
        lemma_is_name("xades:StateOrProvince"@);
    }
    assert(is_name("xades:PostalCode"@)) by {
        reveal_strlit("xades:PostalCode");
        reveal_with_fuel(xml::scan_misses, 18);
        lemma_is_name("xades:PostalCode"@);
    }
    assert(is_name("xades:CountryName"@)) by {
        reveal_strlit("xades:CountryName");
        reveal_with_fuel(xml::scan_misses, 19);
        lemma_is_name("xades:CountryName"@);
    }
    assert(is_name("xades:SignerRole"@)) by {
        reveal_strlit("xades:SignerRole");
        reveal_with_fuel(xml::scan_misses, 18);
        lemma_is_name("xades:SignerRole"@);
    }
    assert(is_name("xades:ClaimedRoles"@)) by {
        reveal_strlit("xades:ClaimedRoles");
        reveal_with_fuel(xml::scan_misses, 20);
        lemma_is_name("xades:ClaimedRoles"@);
    }
    assert(is_name("xades:ClaimedRole"@)) by {
        reveal_strlit("xades:ClaimedRole");
        reveal_with_fuel(xml::scan_misses, 19);
        lemma_is_name("xades:ClaimedRole"@);
    }
    assert(is_name("xades:SignedDataObjectProperties"@)) by {
        reveal_strlit("xades:SignedDataObjectProperties");
        reveal_with_fuel(xml::scan_misses, 34);
        lemma_is_name("xades:SignedDataObjectProperties"@);
    }
    assert(is_name("xades:DataObjectFormat"@)) by {
        reveal_strlit("xades:DataObjectFormat");
        reveal_with_fuel(xml::scan_misses, 24);
        lemma_is_name("xades:DataObjectFormat"@);
    }
    assert(is_name("xades:MimeType"@)) by {
        reveal_strlit("xades:MimeType");
        reveal_with_fuel(xml::scan_misses, 16);
        lemma_is_name("xades:MimeType"@);
    }
    assert(is_name("xades:UnsignedProperties"@)) by {
        reveal_strlit("xades:UnsignedProperties");
        reveal_with_fuel(xml::scan_misses, 26);
        lemma_is_name("xades:UnsignedProperties"@);
    }
    assert(is_name("xades:UnsignedSignatureProperties"@)) by {
        reveal_strlit("xades:UnsignedSignatureProperties");
        reveal_with_fuel(xml::scan_misses, 35);
        lemma_is_name("xades:UnsignedSignatureProperties"@);
    }
    assert(is_name("xades:SignatureTimeStamp"@)) by {
        reveal_strlit("xades:SignatureTimeStamp");
        reveal_with_fuel(xml::scan_misses, 26);
        lemma_is_name("xades:SignatureTimeStamp"@);
    }
    assert(is_name("xades:EncapsulatedTimeStamp"@)) by {
        reveal_strlit("xades:EncapsulatedTimeStamp");
        reveal_with_fuel(xml::scan_misses, 29);
        lemma_is_name("xades:EncapsulatedTimeStamp"@);
    }
    assert(is_name("xades:CertificateValues"@)) by {
        reveal_strlit("xades:CertificateValues");
        reveal_with_fuel(xml::scan_misses, 25);
        lemma_is_name("xades:CertificateValues"@);
    }
    assert(is_name("xades:EncapsulatedX509Certificate"@)) by {
        reveal_strlit("xades:EncapsulatedX509Certificate");
        reveal_with_fuel(xml::scan_misses, 35);
        lemma_is_name("xades:EncapsulatedX509Certificate"@);
    }
    assert(is_name("xades:RevocationValues"@)) by {
        reveal_strlit("xades:RevocationValues");
        reveal_with_fuel(xml::scan_misses, 24);
        lemma_is_name("xades:RevocationValues"@);
    }
    assert(is_name("xades:OCSPValues"@)) by {
        reveal_strlit("xades:OCSPValues");
        reveal_with_fuel(xml::scan_misses, 18);
        lemma_is_name("xades:OCSPValues"@);
    }
    assert(is_name("xades:EncapsulatedOCSPValue"@)) by {
        reveal_strlit("xades:EncapsulatedOCSPValue");
        reveal_with_fuel(xml::scan_misses, 29);
        lemma_is_name("xades:EncapsulatedOCSPValue"@);
    }
}

/// The names of manifest elements.
#[verifier::spinoff_prover]
pub proof fn lemma_manifest_names()
    ensures
        is_name("manifest:manifest"@),
        is_name("manifest:file-entry"@),
{
    assert(is_name("manifest:manifest"@)) by {
        reveal_strlit("manifest:manifest");
        reveal_with_fuel(xml::scan_misses, 19);
        lemma_is_name("manifest:manifest"@);
    }
    assert(is_name("manifest:file-entry"@)) by {
        reveal_strlit("manifest:file-entry");
        reveal_with_fuel(xml::scan_misses, 21);
        lemma_is_name("manifest:file-entry"@);
    }
}

/// An element that only names an algorithm.
pub open spec fn algorithm(name: Seq<char>, uri: Seq<char>) -> Seq<Mark> {
    tag(name + xml::attribute("Algorithm"@, uri)) + end(name)
}

/// An element with attributes and what it holds.
pub open spec fn around(name: Seq<char>, attributes: Seq<char>, inside: Seq<Mark>) -> Seq<Mark> {
    tag(name + attributes) + inside + end(name)
}

/// An element with attributes that says `text`.
pub open spec fn says_with(name: Seq<char>, attributes: Seq<char>, text: Seq<char>) -> Seq<Mark> {
    seq![Mark { tag: name + attributes, text }] + end(name)
}

/// No attributes.
pub open spec fn none() -> Seq<char> {
    seq![]
}

/// An element without attributes.
pub proof fn lemma_plain_element(name: Seq<char>, content: Seq<char>)
    requires
        is_name(name),
        is_markup(content),
    ensures
        is_markup(xml::element(name, seq![], content)),
        marks(xml::element(name, seq![], content)) == around(name, none(), marks(content)),
{
    reveal(are_attributes);
    law_element_holds_its_content(name, seq![], content);
}

/// An element without attributes that holds text.
pub proof fn lemma_text_element(name: Seq<char>, text: Seq<char>)
    requires
        is_name(name),
    ensures
        is_markup(xml::text_element(name, text)),
        marks(xml::text_element(name, text)) == says(name, text),
{
    reveal(are_attributes);
    law_element_says_its_text(name, seq![], text);
    assert(name + Seq::<char>::empty() =~= name);
    assert(marks(xml::text_element(name, text)) =~= says(name, text));
}

/// An element that only names an algorithm.
pub proof fn lemma_algorithm_element(name: Seq<char>, uri: Seq<char>)
    requires
        is_name(name),
    ensures
        is_markup(xml::algorithm_element(name, uri)),
        marks(xml::algorithm_element(name, uri)) == algorithm(name, uri),
{
    lemma_attribute_names();
    lemma_attribute("Algorithm"@, uri);
    law_element_holds_its_content(name, xml::attribute("Algorithm"@, uri), seq![]);
    assert(marks(xml::algorithm_element(name, uri)) =~= algorithm(name, uri));
}

/// An attribute that may be absent stands where there is a value, and only there.
pub proof fn law_optional_attribute(name: Seq<char>, value: Option<Seq<char>>)
    ensures
        value matches Some(v) ==> xml::optional_attribute(name, value) == xml::attribute(name, v),
        value is None ==> xml::optional_attribute(name, value).len() == 0,
        xml::is_plain(name) ==> are_attributes(xml::optional_attribute(name, value)),
{
    reveal(are_attributes);
    if value is Some && xml::is_plain(name) {
        lemma_attribute(name, value->0);
    }
}

/// An element with text that may be absent stands where there is a text, and only there.
pub proof fn law_optional_text_element(name: Seq<char>, text: Option<Seq<char>>)
    requires
        is_name(name),
    ensures
        is_markup(xml::optional_text_element(name, text)),
        text matches Some(t) ==> marks(xml::optional_text_element(name, text)) == says(name, t),
        text is None ==> marks(xml::optional_text_element(name, text)).len() == 0,
{
    if text is Some {
        lemma_text_element(name, text->0);
    }
}

/// A text without `&` reads as it stands.
pub proof fn lemma_reads_as_it_stands(text: Seq<char>)
    requires
        xml::lacks(text, '&'),
    ensures
        unescaped(text) == text,
    decreases text.len(),
{
    if text.len() > 0 {
        reveal_strlit("&amp;");
        reveal_strlit("&lt;");
        reveal_strlit("&gt;");
        reveal_strlit("&quot;");
        assert(text[0] != '&');
        assert(text.len() >= 5 ==> text.take(5)[0] == text[0]);
        assert(text.len() >= 4 ==> text.take(4)[0] == text[0]);
        assert(text.len() >= 6 ==> text.take(6)[0] == text[0]);
        let rest = text.skip(1);
        assert forall|i: int| 0 <= i < rest.len() implies #[trigger] rest[i] != '&' by {
            assert(rest[i] == text[i + 1]);
        }
        lemma_reads_as_it_stands(rest);
        assert(seq![text[0]] + rest =~= text);
    }
}

/// Base64 text holds neither brackets nor `&`.
pub proof fn lemma_base64_is_plain(bytes: Seq<u8>)
    ensures
        xml::lacks(crypto::base64_text(bytes), '<'),
        xml::lacks(crypto::base64_text(bytes), '>'),
        xml::lacks(crypto::base64_text(bytes), '&'),
    decreases bytes.len(),
{
    if bytes.len() > 2 {
        lemma_base64_is_plain(bytes.skip(3));
        let text = crypto::base64_text(bytes);
        let rest = crypto::base64_text(bytes.skip(3));
        assert forall|i: int| 0 <= i < text.len() implies #[trigger] text[i] != '<' && text[i]
            != '>' && text[i] != '&' by {
            if i >= 4 {
                assert(text[i] == rest[i - 4]);
            }
        }
    }
}

/// Six bits for a character of Base64.
pub open spec fn sextet(c: char) -> int {
    if 'A' <= c <= 'Z' {
        c as int - 65
    } else if 'a' <= c <= 'z' {
        c as int - 97 + 26
    } else if '0' <= c <= '9' {
        c as int - 48 + 52
    } else if c == '+' {
        62
    } else {
        63
    }
}

/// The bytes that a Base64 text stands for: three for four characters, fewer where the last ones are
/// `=`.
pub open spec fn bytes_of(text: Seq<char>) -> Seq<u8>
    decreases text.len(),
{
    if text.len() < 4 {
        seq![]
    } else {
        let first = ((sextet(text[0]) * 4 + sextet(text[1]) / 16) % 256) as u8;
        let second = ((sextet(text[1]) * 16 + sextet(text[2]) / 4) % 256) as u8;
        let third = ((sextet(text[2]) * 64 + sextet(text[3])) % 256) as u8;
        if text[2] == '=' {
            seq![first]
        } else if text[3] == '=' {
            seq![first, second]
        } else {
            seq![first, second, third] + bytes_of(text.skip(4))
        }
    }
}

proof fn lemma_sextet(v: int)
    requires
        0 <= v < 64,
    ensures
        sextet(crypto::base64_char(v)) == v,
        crypto::base64_char(v) != '=',
{
}

proof fn lemma_bits(a: int, b: int, c: int)
    requires
        0 <= a < 256,
        0 <= b < 256,
        0 <= c < 256,
    ensures
        0 <= a / 4 < 64,
        0 <= a % 4 * 16 + b / 16 < 64,
        0 <= b % 16 * 4 + c / 64 < 64,
        0 <= c % 64 < 64,
        (a / 4 * 4 + (a % 4 * 16 + b / 16) / 16) % 256 == a,
        ((a % 4 * 16 + b / 16) * 16 + (b % 16 * 4 + c / 64) / 4) % 256 == b,
        ((b % 16 * 4 + c / 64) * 64 + c % 64) % 256 == c,
{
}

/// Base64 text stands for the bytes it was made of, all of them, however many there are.
pub proof fn law_base64_reads_back(bytes: Seq<u8>)
    ensures
        bytes_of(crypto::base64_text(bytes)) == bytes,
    decreases bytes.len(),
{
    let text = crypto::base64_text(bytes);
    if bytes.len() == 0 {
        assert(bytes_of(text) =~= bytes);
    } else {
        let a = bytes[0] as int;
        let b = if bytes.len() > 1 { bytes[1] as int } else { 0 };
        let c = if bytes.len() > 2 { bytes[2] as int } else { 0 };
        let v1 = a % 4 * 16 + b / 16;
        let v2 = b % 16 * 4 + c / 64;
        lemma_bits(a, b, c);
        lemma_sextet(a / 4);
        lemma_sextet(v1);
        lemma_sextet(v2);
        lemma_sextet(c % 64);
        assert(text[0] == crypto::base64_char(a / 4) && text[1] == crypto::base64_char(v1));
        if bytes.len() == 1 {
            assert(text[2] == '=');
            assert(v1 / 16 == a % 4);
            assert(bytes_of(text) =~= seq![bytes[0]]);
        } else if bytes.len() == 2 {
            assert(text[2] == crypto::base64_char(v2) && text[3] == '=');
            assert(bytes_of(text) =~= seq![bytes[0], bytes[1]]);
        } else {
            assert(text[2] == crypto::base64_char(v2) && text[3] == crypto::base64_char(c % 64));
            law_base64_reads_back(bytes.skip(3));
            assert(text.skip(4) =~= crypto::base64_text(bytes.skip(3)));
            assert(bytes_of(text) == seq![bytes[0], bytes[1], bytes[2]] + bytes.skip(3));
        }
        assert(bytes_of(text) =~= bytes);
    }
}

} // verus!
