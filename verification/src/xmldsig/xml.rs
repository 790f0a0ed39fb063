//! Writing XML.

use vstd::prelude::*;

use crate::text::{self, chars_of, concat2, concat3, concat4};

verus! {

/// How the character `c` is written in text: `&`, `<` and `>` as entities.
pub open spec fn text_char(c: char) -> Seq<char> {
    if c == '&' {
        "&amp;"@
    } else if c == '<' {
        "&lt;"@
    } else if c == '>' {
        "&gt;"@
    } else {
        seq![c]
    }
}

/// How the character `c` is written in the value of an attribute: as in text, and `"` as an entity
/// too.
pub open spec fn value_char(c: char) -> Seq<char> {
    if c == '"' {
        "&quot;"@
    } else {
        text_char(c)
    }
}

/// How `text` is written between tags.
pub open spec fn escaped_text(text: Seq<char>) -> Seq<char>
    decreases text.len(),
{
    if text.len() == 0 {
        seq![]
    } else {
        escaped_text(text.drop_last()) + text_char(text.last())
    }
}

/// How `value` is written inside the double quotes of an attribute.
pub open spec fn escaped_value(value: Seq<char>) -> Seq<char>
    decreases value.len(),
{
    if value.len() == 0 {
        seq![]
    } else {
        escaped_value(value.drop_last()) + value_char(value.last())
    }
}

/// An attribute, with a space in front.
#[verifier::opaque]
pub open spec fn attribute(name: Seq<char>, value: Seq<char>) -> Seq<char> {
    " "@ + name + "=\""@ + (escaped_value(value) + "\""@)
}

/// An attribute that may be absent.
pub open spec fn optional_attribute(name: Seq<char>, value: Option<Seq<char>>) -> Seq<char> {
    match value {
        Some(v) => attribute(name, v),
        None => seq![],
    }
}

/// An element with attributes and content, both already written. One without content is a single
/// empty tag.
#[verifier::opaque]
pub open spec fn element(tag: Seq<char>, attributes: Seq<char>, content: Seq<char>) -> Seq<char> {
    let start = "<"@ + tag + attributes;
    if content.len() == 0 {
        start + "/>"@
    } else {
        start + ">"@ + content + ("</"@ + tag + ">"@)
    }
}

/// An element without attributes that holds text.
pub open spec fn text_element(tag: Seq<char>, text: Seq<char>) -> Seq<char> {
    element(tag, seq![], escaped_text(text))
}

/// An element without attributes that holds text, and may be absent.
pub open spec fn optional_text_element(tag: Seq<char>, text: Option<Seq<char>>) -> Seq<char> {
    match text {
        Some(t) => text_element(tag, t),
        None => seq![],
    }
}

/// An element whose only attribute names an algorithm.
pub open spec fn algorithm_element(tag: Seq<char>, algorithm: Seq<char>) -> Seq<char> {
    element(tag, attribute("Algorithm"@, algorithm), seq![])
}

/// Writes `text` for between tags.
pub fn escape_text(text: &str) -> (r: String)
    ensures
        r@ == escaped_text(text@),
{
    let chars = chars_of(text);
    let mut r = String::new();
    let mut i: usize = 0;
    while i < chars.len()
        invariant
            i <= chars.len(),
            r@ == escaped_text(chars@.take(i as int)),
        decreases chars.len() - i,
    {
        proof {
            assert(chars@.take(i + 1).drop_last() =~= chars@.take(i as int));
        }
        let c = chars[i];
        if c == '&' {
            r.append("&amp;");
        } else if c == '<' {
            r.append("&lt;");
        } else if c == '>' {
            r.append("&gt;");
        } else {
            r.push(c);
        }
        i += 1;
    }
    assert(chars@.take(i as int) =~= chars@);
    r
}

/// Writes `value` for inside the double quotes of an attribute.
pub fn escape_value(value: &str) -> (r: String)
    ensures
        r@ == escaped_value(value@),
{
    let chars = chars_of(value);
    let mut r = String::new();
    let mut i: usize = 0;
    while i < chars.len()
        invariant
            i <= chars.len(),
            r@ == escaped_value(chars@.take(i as int)),
        decreases chars.len() - i,
    {
        proof {
            assert(chars@.take(i + 1).drop_last() =~= chars@.take(i as int));
        }
        let c = chars[i];
        if c == '"' {
            r.append("&quot;");
        } else if c == '&' {
            r.append("&amp;");
        } else if c == '<' {
            r.append("&lt;");
        } else if c == '>' {
            r.append("&gt;");
        } else {
            r.push(c);
        }
        i += 1;
    }
    assert(chars@.take(i as int) =~= chars@);
    r
}

/// Writes an attribute, with a space in front.
pub fn write_attribute(name: &str, value: &str) -> (r: String)
    ensures
        r@ == attribute(name@, value@),
{
    proof {
        reveal(attribute);
    }
    let escaped = escape_value(value);
    let quoted = concat2(escaped.as_str(), "\"");
    concat4(" ", name, "=\"", quoted.as_str())
}

/// Writes an attribute that may be absent.
pub fn write_optional_attribute(name: &str, value: Option<&str>) -> (r: String)
    ensures
        r@ == optional_attribute(name@, option_view(value)),
{
    match value {
        Some(v) => write_attribute(name, v),
        None => String::new(),
    }
}

/// Optional text as a value.
pub open spec fn option_view(text: Option<&str>) -> Option<Seq<char>> {
    match text {
        Some(t) => Some(t@),
        None => None,
    }
}

/// Writes an element with attributes and content that are already written.
pub fn write_element(tag: &str, attributes: &str, content: &str) -> (r: String)
    ensures
        r@ == element(tag@, attributes@, content@),
{
    proof {
        reveal(element);
    }
    let mut r = concat3("<", tag, attributes);
    if content.is_empty() {
        r.append("/>");
    } else {
        let end = concat3("</", tag, ">");
        r.append(">");
        r.append(content);
        r.append(end.as_str());
    }
    r
}

/// Writes an element without attributes that holds text.
pub fn write_text_element(tag: &str, text: &str) -> (r: String)
    ensures
        r@ == text_element(tag@, text@),
{
    let escaped = escape_text(text);
    let none = String::new();
    write_element(tag, none.as_str(), escaped.as_str())
}

/// Writes an element without attributes that holds text, and may be absent.
pub fn write_optional_text_element(tag: &str, text: Option<&str>) -> (r: String)
    ensures
        r@ == optional_text_element(tag@, option_view(text)),
{
    match text {
        Some(t) => write_text_element(tag, t),
        None => String::new(),
    }
}

/// Writes an element whose only attribute names an algorithm.
pub fn write_algorithm_element(tag: &str, algorithm: &str) -> (r: String)
    ensures
        r@ == algorithm_element(tag@, algorithm@),
{
    let attributes = write_attribute("Algorithm", algorithm);
    let none = String::new();
    write_element(tag, attributes.as_str(), none.as_str())
}

/// An element is never empty text.
pub proof fn law_element_is_not_empty(tag: Seq<char>, attributes: Seq<char>, content: Seq<char>)
    ensures
        element(tag, attributes, content).len() > 0,
{
    reveal(element);
    reveal_strlit("<");
}

/// Whether `c` does not occur in `text`.
pub open spec fn lacks(text: Seq<char>, c: char) -> bool {
    forall|i: int| 0 <= i < text.len() ==> #[trigger] text[i] != c
}

/// Whether `c` is found nowhere in `text` from `from` on, one character after the other.
pub open spec fn scan_misses(text: Seq<char>, c: char, from: nat) -> bool
    decreases text.len() - from,
{
    from >= text.len() || (text[from as int] != c && scan_misses(text, c, from + 1))
}

/// A character that a scan does not find does not occur.
pub proof fn lemma_scan(text: Seq<char>, c: char, from: nat)
    requires
        scan_misses(text, c, from),
    ensures
        forall|i: int| from <= i < text.len() ==> #[trigger] text[i] != c,
    decreases text.len() - from,
{
    if from < text.len() {
        lemma_scan(text, c, from + 1);
    }
}

/// A character that occurs in neither of two texts does not occur in the two in a row.
pub proof fn lemma_lacks_concat(a: Seq<char>, b: Seq<char>, c: char)
    requires
        lacks(a, c),
        lacks(b, c),
    ensures
        lacks(a + b, c),
{
    assert forall|i: int| 0 <= i < (a + b).len() implies #[trigger] (a + b)[i] != c by {
        if i < a.len() {
            assert((a + b)[i] == a[i]);
        } else {
            assert((a + b)[i] == b[i - a.len()]);
        }
    }
}

proof fn lemma_char_lacks_markup(c: char)
    ensures
        lacks(text_char(c), '<'),
        lacks(text_char(c), '>'),
        lacks(value_char(c), '<'),
        lacks(value_char(c), '>'),
        lacks(value_char(c), '"'),
{
    reveal_strlit("&amp;");
    reveal_strlit("&lt;");
    reveal_strlit("&gt;");
    reveal_strlit("&quot;");
    assert forall|i: int| 0 <= i < text_char(c).len() implies #[trigger] text_char(c)[i] != '<'
        && text_char(c)[i] != '>' by {
        assert(i == 0 || i == 1 || i == 2 || i == 3 || i == 4);
    }
    assert forall|i: int| 0 <= i < value_char(c).len() implies #[trigger] value_char(c)[i] != '<'
        && value_char(c)[i] != '>' && value_char(c)[i] != '"' by {
        assert(i == 0 || i == 1 || i == 2 || i == 3 || i == 4 || i == 5);
    }
}

/// What is written for text holds no `<` and no `>`, whatever the text holds.
pub proof fn law_escaped_text_lacks_brackets(text: Seq<char>)
    ensures
        lacks(escaped_text(text), '<'),
        lacks(escaped_text(text), '>'),
    decreases text.len(),
{
    if text.len() > 0 {
        let before = escaped_text(text.drop_last());
        law_escaped_text_lacks_brackets(text.drop_last());
        lemma_char_lacks_markup(text.last());
        lemma_lacks_concat(before, text_char(text.last()), '<');
        lemma_lacks_concat(before, text_char(text.last()), '>');
    }
}

/// What is written for the value of an attribute holds no `<`, no `>` and no `"`, whatever the
/// value holds.
pub proof fn law_escaped_value_stays_in_quotes(value: Seq<char>)
    ensures
        lacks(escaped_value(value), '<'),
        lacks(escaped_value(value), '>'),
        lacks(escaped_value(value), '"'),
    decreases value.len(),
{
    if value.len() > 0 {
        let before = escaped_value(value.drop_last());
        law_escaped_value_stays_in_quotes(value.drop_last());
        lemma_char_lacks_markup(value.last());
        lemma_lacks_concat(before, value_char(value.last()), '<');
        lemma_lacks_concat(before, value_char(value.last()), '>');
        lemma_lacks_concat(before, value_char(value.last()), '"');
    }
}

/// The tag that starts an element with content.
pub open spec fn start_tag(tag: Seq<char>, attributes: Seq<char>) -> Seq<char> {
    "<"@ + tag + attributes + ">"@
}

/// The tag that ends an element.
pub open spec fn end_tag(tag: Seq<char>) -> Seq<char> {
    "</"@ + tag + ">"@
}

/// The tags that end elements, in a row.
pub open spec fn end_tags(tags: Seq<Seq<char>>) -> Seq<char>
    decreases tags.len(),
{
    if tags.len() == 0 {
        seq![]
    } else {
        end_tag(tags[0]) + end_tags(tags.skip(1))
    }
}

/// Whether `tag` holds no bracket.
pub open spec fn is_plain(tag: Seq<char>) -> bool {
    lacks(tag, '<') && lacks(tag, '>')
}

/// A name in which a scan finds no bracket is plain.
pub proof fn lemma_plain(tag: Seq<char>)
    requires
        scan_misses(tag, '<', 0),
        scan_misses(tag, '>', 0),
    ensures
        is_plain(tag),
{
    lemma_scan(tag, '<', 0);
    lemma_scan(tag, '>', 0);
}

/// An element around content that consists of three parts starts with its start tag and the first
/// part, and ends with the third part and its end tag.
pub proof fn lemma_element_around(
    tag: Seq<char>,
    attributes: Seq<char>,
    before: Seq<char>,
    middle: Seq<char>,
    after: Seq<char>,
)
    requires
        middle.len() > 0,
    ensures
        element(tag, attributes, before + middle + after) == (start_tag(tag, attributes) + before)
            + middle + (after + end_tag(tag)),
{
    reveal(element);
    let content = before + middle + after;
    let start = start_tag(tag, attributes);
    let end = end_tag(tag);
    assert(content.len() > 0);
    assert(start + content + end =~= (start + before) + middle + (after + end));
}

proof fn lemma_end_tag_brackets(tag: Seq<char>)
    requires
        is_plain(tag),
    ensures
        end_tag(tag).len() == tag.len() + 3,
        end_tag(tag)[0] == '<',
        forall|i: int| 1 <= i < end_tag(tag).len() ==> #[trigger] end_tag(tag)[i] != '<',
        forall|i: int| 0 <= i < tag.len() + 2 ==> #[trigger] end_tag(tag)[i] != '>',
        end_tag(tag)[tag.len() as int + 2] == '>',
        forall|i: int| 0 <= i < tag.len() ==> end_tag(tag)[i + 2] == #[trigger] tag[i],
{
    reveal_strlit("</");
    reveal_strlit(">");
    assert forall|i: int| 1 <= i < end_tag(tag).len() implies #[trigger] end_tag(tag)[i] != '<' by {
        if 2 <= i < tag.len() + 2 {
            assert(end_tag(tag)[i] == tag[i - 2]);
        }
    }
    assert forall|i: int| 0 <= i < tag.len() + 2 implies #[trigger] end_tag(tag)[i] != '>' by {
        if 2 <= i {
            assert(end_tag(tag)[i] == tag[i - 2]);
        }
    }
}

/// The end tag of `tag` stands nowhere in a row of end tags of other names.
pub proof fn lemma_end_tag_is_not_among(tag: Seq<char>, tags: Seq<Seq<char>>, at: int)
    requires
        is_plain(tag),
        forall|i: int| 0 <= i < tags.len() ==> is_plain(#[trigger] tags[i]) && tags[i] != tag,
    ensures
        !text::occurs_at(end_tags(tags), end_tag(tag), at),
    decreases tags.len(),
{
    let row = end_tags(tags);
    let wanted = end_tag(tag);
    lemma_end_tag_brackets(tag);
    if text::occurs_at(row, wanted, at) {
        let found = row.subrange(at, at + wanted.len());
        assert(found == wanted);
        assert(found[0] == row[at]);
        let first = end_tag(tags[0]);
        let rest = end_tags(tags.skip(1));
        lemma_end_tag_brackets(tags[0]);
        assert forall|i: int| 0 <= i < tags.skip(1).len() implies is_plain(
            #[trigger] tags.skip(1)[i],
        ) && tags.skip(1)[i] != tag by {
            assert(tags.skip(1)[i] == tags[i + 1]);
        }
        if at >= first.len() {
            assert(rest.subrange(at - first.len(), at - first.len() + wanted.len()) =~= found);
            lemma_end_tag_is_not_among(tag, tags.skip(1), at - first.len());
        } else if at > 0 {
            assert(row[at] == first[at]);
        } else {
            let n = tags[0].len() as int;
            let m = tag.len() as int;
            if n < m {
                assert(found[n + 2] == row[n + 2]);
                assert(row[n + 2] == first[n + 2]);
            } else if m < n {
                assert(found[m + 2] == row[m + 2]);
                assert(row[m + 2] == first[m + 2]);
            } else {
                assert forall|i: int| 0 <= i < n implies tags[0][i] == tag[i] by {
                    assert(found[i + 2] == row[i + 2]);
                    assert(row[i + 2] == first[i + 2]);
                }
                assert(tags[0] =~= tag);
            }
        }
    }
}

/// In text that ends with the end tag of `tag` and a row of end tags of other names, the last end
/// tag of `tag` is that one.
pub proof fn lemma_last_end_tag(before: Seq<char>, tag: Seq<char>, tags: Seq<Seq<char>>)
    requires
        is_plain(tag),
        forall|i: int| 0 <= i < tags.len() ==> is_plain(#[trigger] tags[i]) && tags[i] != tag,
    ensures
        text::last_occurrence(before + (end_tag(tag) + end_tags(tags)), end_tag(tag)) == Some(
            before.len() as int,
        ),
{
    let wanted = end_tag(tag);
    let row = end_tags(tags);
    let whole = before + (wanted + row);
    let at = before.len() as int;
    lemma_end_tag_brackets(tag);
    assert(whole.subrange(at, at + wanted.len()) =~= wanted);
    assert forall|later: int| at < later implies !text::occurs_at(whole, wanted, later) by {
        if text::occurs_at(whole, wanted, later) {
            let found = whole.subrange(later, later + wanted.len());
            assert(found[0] == whole[later]);
            let k = later - at;
            if k < wanted.len() {
                assert(whole[later] == wanted[k]);
            } else {
                let inside = k - wanted.len();
                assert(row.subrange(inside, inside + wanted.len()) =~= found);
                lemma_end_tag_is_not_among(tag, tags, inside);
            }
        }
    }
    text::law_last_occurrence(whole, wanted, at);
}

/// An element without content is written as one empty tag, any other as a start tag, its content and an
/// end tag; the name stands in both tags, the attributes in the first.
pub proof fn law_element_as_written(tag: Seq<char>, attributes: Seq<char>, content: Seq<char>)
    ensures
        content.len() == 0 ==> element(tag, attributes, content) == seq!['<'] + tag + attributes
            + seq!['/', '>'],
        content.len() > 0 ==> element(tag, attributes, content) == seq!['<'] + tag + attributes
            + seq!['>'] + content + seq!['<', '/'] + tag + seq!['>'],
{
    reveal(element);
    reveal_strlit("<");
    reveal_strlit(">");
    reveal_strlit("/>");
    reveal_strlit("</");
    assert("<"@ =~= seq!['<']);
    assert(">"@ =~= seq!['>']);
    assert("/>"@ =~= seq!['/', '>']);
    assert("</"@ =~= seq!['<', '/']);
    if content.len() > 0 {
        assert(element(tag, attributes, content) =~= seq!['<'] + tag + attributes + seq!['>']
            + content + seq!['<', '/'] + tag + seq!['>']);
    }
}

/// Text is written character by character: `&`, `<` and `>` as entities, in the value of an attribute
/// `"` too, and any other character as it is.
pub proof fn law_text_is_written_char_by_char(text: Seq<char>, c: char)
    ensures
        escaped_text(Seq::<char>::empty()) == Seq::<char>::empty(),
        escaped_value(Seq::<char>::empty()) == Seq::<char>::empty(),
        escaped_text(text.push(c)) == escaped_text(text) + match c {
            '&' => "&amp;"@,
            '<' => "&lt;"@,
            '>' => "&gt;"@,
            _ => seq![c],
        },
        escaped_value(text.push(c)) == escaped_value(text) + match c {
            '&' => "&amp;"@,
            '<' => "&lt;"@,
            '>' => "&gt;"@,
            '"' => "&quot;"@,
            _ => seq![c],
        },
{
    assert(text.push(c).drop_last() =~= text);
}

} // verus!
