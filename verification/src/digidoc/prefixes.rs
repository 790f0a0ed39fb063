//! Taking namespace prefixes off names in XML text.

use vstd::prelude::*;

use crate::text::{self, char_is_white_space, chars_of};

verus! {

/// What a declaration names.
#[derive(Clone, Copy)]
pub enum Declared {
    /// Elements: a document type or element declaration.
    Elements,
    /// An element and its attributes: an attribute-list declaration.
    Attributes,
    /// Something else.
    Other,
}

/// Where in an XML text a character stands.
#[derive(Clone, Copy)]
pub enum Place {
    /// Outside of tags.
    Text,
    /// Inside a tag, where a name may start.
    NameStart,
    /// Inside a tag, where none may.
    Tag,
    /// Inside an attribute's value, between these quotes.
    Quoted(char),
    /// Inside a comment.
    Comment,
    /// Inside a CDATA section.
    CData,
    /// Inside a processing instruction.
    Instruction,
    /// Inside a declaration, where a name may start.
    DeclaredName(Declared),
    /// Inside a declaration, where none may.
    Declaration(Declared),
    /// Inside a literal of a declaration, between these quotes.
    Literal(Declared, char),
    /// Inside the list of the values that a declared attribute may have.
    Values,
}

/// What becomes of the next characters: how many are taken, whether they are kept, and where the
/// text stands behind them.
pub struct Step {
    pub taken: nat,
    pub kept: bool,
    pub place: Place,
}

/// The step that keeps one character.
pub open spec fn keep_one(place: Place) -> Step {
    Step { taken: 1, kept: true, place }
}

/// The step that keeps a part of the text.
pub open spec fn keep(part: Seq<char>, place: Place) -> Step {
    Step { taken: part.len(), kept: true, place }
}

/// The step that drops a prefix. Another may follow it.
pub open spec fn drop(prefix: Seq<char>, place: Place) -> Step {
    Step { taken: prefix.len(), kept: false, place }
}

/// Where the text stands behind a character that is kept inside a tag.
pub open spec fn place_in_tag(c: char) -> Place {
    if c == '>' {
        Place::Text
    } else if c == '"' || c == '\'' {
        Place::Quoted(c)
    } else if c == '/' || text::is_white_space(c) {
        Place::NameStart
    } else {
        Place::Tag
    }
}

/// Where the text stands behind a character that is kept inside a declaration. A bracket starts the
/// declarations inside of a document type declaration, which are told like those outside.
pub open spec fn place_in_declaration(declared: Declared, c: char) -> Place {
    if c == '>' || c == '[' {
        Place::Text
    } else if c == '"' || c == '\'' {
        Place::Literal(declared, c)
    } else {
        match declared {
            Declared::Elements => if c == '(' || c == ',' || c == '|' || text::is_white_space(c) {
                Place::DeclaredName(declared)
            } else {
                Place::Declaration(declared)
            },
            Declared::Attributes => if c == '(' {
                Place::Values
            } else if text::is_white_space(c) {
                Place::DeclaredName(declared)
            } else {
                Place::Declaration(declared)
            },
            Declared::Other => Place::Declaration(declared),
        }
    }
}

/// The first step at a place where a name may start. Behind a character that is kept the text stands
/// at `next`.
pub open spec fn step_at_name(place: Place, xml: Seq<char>, next: Place) -> Step {
    if "ds:"@.is_prefix_of(xml) {
        drop("ds:"@, place)
    } else if "asic:"@.is_prefix_of(xml) {
        drop("asic:"@, place)
    } else if "xades:"@.is_prefix_of(xml) {
        drop("xades:"@, place)
    } else {
        keep_one(next)
    }
}

/// The first step in a text that is not empty.
pub open spec fn first_step(place: Place, xml: Seq<char>) -> Step {
    match place {
        Place::Text => if "<!--"@.is_prefix_of(xml) {
            keep("<!--"@, Place::Comment)
        } else if "<![CDATA["@.is_prefix_of(xml) {
            keep("<![CDATA["@, Place::CData)
        } else if "<?"@.is_prefix_of(xml) {
            keep("<?"@, Place::Instruction)
        } else if "<!DOCTYPE"@.is_prefix_of(xml) {
            keep("<!DOCTYPE"@, Place::Declaration(Declared::Elements))
        } else if "<!ELEMENT"@.is_prefix_of(xml) {
            keep("<!ELEMENT"@, Place::Declaration(Declared::Elements))
        } else if "<!ATTLIST"@.is_prefix_of(xml) {
            keep("<!ATTLIST"@, Place::Declaration(Declared::Attributes))
        } else if "<!"@.is_prefix_of(xml) {
            keep("<!"@, Place::Declaration(Declared::Other))
        } else if xml[0] == '<' {
            keep_one(Place::NameStart)
        } else {
            keep_one(Place::Text)
        },
        Place::NameStart => step_at_name(place, xml, place_in_tag(xml[0])),
        Place::Tag => keep_one(place_in_tag(xml[0])),
        Place::Quoted(quote) => if xml[0] == quote {
            keep_one(Place::NameStart)
        } else {
            keep_one(place)
        },
        Place::DeclaredName(declared) => step_at_name(
            place,
            xml,
            place_in_declaration(declared, xml[0]),
        ),
        Place::Declaration(declared) => keep_one(place_in_declaration(declared, xml[0])),
        Place::Literal(declared, quote) => if xml[0] == quote {
            keep_one(Place::Declaration(declared))
        } else {
            keep_one(place)
        },
        Place::Values => if xml[0] == ')' {
            keep_one(Place::Declaration(Declared::Attributes))
        } else {
            keep_one(place)
        },
        _ => step_to_end(place, xml, end_of(place)),
    }
}

/// The first step in a part of the text that lasts up to `end`, and is kept.
pub open spec fn step_to_end(place: Place, xml: Seq<char>, end: Seq<char>) -> Step {
    if end.is_prefix_of(xml) {
        keep(end, Place::Text)
    } else {
        keep_one(place)
    }
}

/// The XML text `xml`, which starts at the given place, without the prefixes `ds:`, `asic:` and
/// `xades:` of its element and attribute names.
pub open spec fn without_prefixes(place: Place, xml: Seq<char>) -> Seq<char>
    decreases xml.len(),
{
    if xml.len() == 0 {
        seq![]
    } else {
        let step = first_step(place, xml);
        if 0 < step.taken <= xml.len() {
            let rest = without_prefixes(step.place, xml.skip(step.taken as int));
            if step.kept {
                xml.take(step.taken as int) + rest
            } else {
                rest
            }
        } else {
            seq![]
        }
    }
}

/// A step takes at least one character, and no more than there are.
proof fn lemma_step_is_inside(place: Place, xml: Seq<char>)
    requires
        xml.len() > 0,
    ensures
        0 < first_step(place, xml).taken <= xml.len(),
{
    reveal_strlit("<!--");
    reveal_strlit("<![CDATA[");
    reveal_strlit("<?");
    reveal_strlit("<!");
    reveal_strlit("<!DOCTYPE");
    reveal_strlit("<!ELEMENT");
    reveal_strlit("<!ATTLIST");
    reveal_strlit("ds:");
    reveal_strlit("asic:");
    reveal_strlit("xades:");
    reveal_strlit("-->");
    reveal_strlit("]]>");
    reveal_strlit("?>");
}

/// Text outside of tags stays as it is, whatever comes behind it.
pub proof fn law_text_is_kept(content: Seq<char>, rest: Seq<char>)
    requires
        forall|i: int| 0 <= i < content.len() ==> content[i] != '<',
    ensures
        without_prefixes(Place::Text, content + rest) == content + without_prefixes(
            Place::Text,
            rest,
        ),
    decreases content.len(),
{
    let xml = content + rest;
    if content.len() == 0 {
        assert(xml =~= rest);
    } else {
        reveal_strlit("<!--");
        reveal_strlit("<![CDATA[");
        reveal_strlit("<?");
        reveal_strlit("<!");
        reveal_strlit("<!DOCTYPE");
        reveal_strlit("<!ELEMENT");
        reveal_strlit("<!ATTLIST");
        assert(xml[0] == content[0]);
        assert("<!--"@[0] == '<' && "<![CDATA["@[0] == '<' && "<?"@[0] == '<' && "<!"@[0] == '<');
        assert("<!DOCTYPE"@[0] == '<' && "<!ELEMENT"@[0] == '<' && "<!ATTLIST"@[0] == '<');
        assert(first_step(Place::Text, xml) == keep_one(Place::Text));
        law_text_is_kept(content.skip(1), rest);
        assert(xml.skip(1) =~= content.skip(1) + rest);
        assert(xml.take(1) + (content.skip(1) + without_prefixes(Place::Text, rest)) =~= content
            + without_prefixes(Place::Text, rest));
    }
}

/// An attribute's value stays as it is. Behind the closing quote the text goes on inside the tag.
pub proof fn law_value_is_kept(quote: char, value: Seq<char>, rest: Seq<char>)
    requires
        forall|i: int| 0 <= i < value.len() ==> value[i] != quote,
    ensures
        without_prefixes(Place::Quoted(quote), value + seq![quote] + rest) == value + seq![quote]
            + without_prefixes(Place::NameStart, rest),
    decreases value.len(),
{
    let xml = value + seq![quote] + rest;
    if value.len() == 0 {
        assert(xml.take(1) =~= seq![quote]);
        assert(xml.skip(1) =~= rest);
        assert(value + seq![quote] + without_prefixes(Place::NameStart, rest) =~= seq![quote]
            + without_prefixes(Place::NameStart, rest));
    } else {
        law_value_is_kept(quote, value.skip(1), rest);
        assert(xml[0] == value[0]);
        assert(xml.skip(1) =~= value.skip(1) + seq![quote] + rest);
        assert(xml.take(1) + (value.skip(1) + seq![quote] + without_prefixes(
            Place::NameStart,
            rest,
        )) =~= value + seq![quote] + without_prefixes(Place::NameStart, rest));
    }
}

/// A literal in a declaration stays as it is. Behind the closing quote the text goes on inside the
/// declaration.
pub proof fn law_literal_is_kept(declared: Declared, quote: char, value: Seq<char>, rest: Seq<char>)
    requires
        forall|i: int| 0 <= i < value.len() ==> value[i] != quote,
    ensures
        without_prefixes(Place::Literal(declared, quote), value + seq![quote] + rest) == value
            + seq![quote] + without_prefixes(Place::Declaration(declared), rest),
    decreases value.len(),
{
    let xml = value + seq![quote] + rest;
    let after = without_prefixes(Place::Declaration(declared), rest);
    if value.len() == 0 {
        assert(xml.take(1) =~= seq![quote]);
        assert(xml.skip(1) =~= rest);
        assert(value + seq![quote] + after =~= seq![quote] + after);
    } else {
        law_literal_is_kept(declared, quote, value.skip(1), rest);
        assert(xml[0] == value[0]);
        assert(xml.skip(1) =~= value.skip(1) + seq![quote] + rest);
        assert(xml.take(1) + (value.skip(1) + seq![quote] + after) =~= value + seq![quote] + after);
    }
}

/// Where a name may start, in a tag or in a declaration of elements or attributes, the prefixes go,
/// and the name behind them stays.
pub proof fn law_prefix_of_name_goes(place: Place, rest: Seq<char>)
    requires
        place is NameStart || place is DeclaredName,
    ensures
        without_prefixes(place, "ds:"@ + rest) == without_prefixes(place, rest),
        without_prefixes(place, "asic:"@ + rest) == without_prefixes(place, rest),
        without_prefixes(place, "xades:"@ + rest) == without_prefixes(place, rest),
{
    reveal_strlit("ds:");
    reveal_strlit("asic:");
    reveal_strlit("xades:");
    let a = "ds:"@ + rest;
    let b = "asic:"@ + rest;
    let c = "xades:"@ + rest;
    assert("ds:"@.is_prefix_of(a));
    assert("asic:"@.is_prefix_of(b));
    assert("xades:"@.is_prefix_of(c));
    assert(b[0] == 'a' && "ds:"@[0] == 'd');
    assert(c[0] == 'x' && "asic:"@[0] == 'a');
    assert(a.skip("ds:"@.len() as int) =~= rest);
    assert(b.skip("asic:"@.len() as int) =~= rest);
    assert(c.skip("xades:"@.len() as int) =~= rest);
}

/// The element that a declaration of elements or attributes is about loses its prefix.
pub proof fn law_declared_element_loses_its_prefix(declared: Declared, space: char, rest: Seq<char>)
    requires
        declared is Elements || declared is Attributes,
        text::is_white_space(space),
    ensures
        without_prefixes(Place::Declaration(declared), seq![space] + "ds:"@ + rest) == seq![space]
            + without_prefixes(Place::DeclaredName(declared), rest),
        without_prefixes(Place::Declaration(declared), seq![space] + "asic:"@ + rest)
            == seq![space] + without_prefixes(Place::DeclaredName(declared), rest),
        without_prefixes(Place::Declaration(declared), seq![space] + "xades:"@ + rest)
            == seq![space] + without_prefixes(Place::DeclaredName(declared), rest),
{
    law_prefix_of_name_goes(Place::DeclaredName(declared), rest);
    lemma_space_starts_name(declared, space, "ds:"@ + rest);
    lemma_space_starts_name(declared, space, "asic:"@ + rest);
    lemma_space_starts_name(declared, space, "xades:"@ + rest);
    assert(seq![space] + "ds:"@ + rest =~= seq![space] + ("ds:"@ + rest));
    assert(seq![space] + "asic:"@ + rest =~= seq![space] + ("asic:"@ + rest));
    assert(seq![space] + "xades:"@ + rest =~= seq![space] + ("xades:"@ + rest));
}

proof fn lemma_space_starts_name(declared: Declared, space: char, rest: Seq<char>)
    requires
        declared is Elements || declared is Attributes,
        text::is_white_space(space),
    ensures
        without_prefixes(Place::Declaration(declared), seq![space] + rest) == seq![space]
            + without_prefixes(Place::DeclaredName(declared), rest),
{
    let xml = seq![space] + rest;
    assert(xml[0] == space);
    assert(xml.take(1) =~= seq![space]);
    assert(xml.skip(1) =~= rest);
}

/// Inside a name nothing is taken off: a prefix that does not stand at the start stays.
pub proof fn law_name_is_kept(name: Seq<char>, rest: Seq<char>)
    requires
        forall|i: int| 0 <= i < name.len() ==> place_in_tag(#[trigger] name[i]) == Place::Tag,
    ensures
        without_prefixes(Place::Tag, name + rest) == name + without_prefixes(Place::Tag, rest),
    decreases name.len(),
{
    let xml = name + rest;
    if name.len() == 0 {
        assert(xml =~= rest);
    } else {
        assert(xml[0] == name[0]);
        assert(place_in_tag(name[0]) == Place::Tag);
        assert forall|i: int| 0 <= i < name.skip(1).len() implies place_in_tag(
            #[trigger] name.skip(1)[i],
        ) == Place::Tag by {
            assert(name.skip(1)[i] == name[i + 1]);
        }
        law_name_is_kept(name.skip(1), rest);
        assert(xml.skip(1) =~= name.skip(1) + rest);
        assert(xml.take(1) + (name.skip(1) + without_prefixes(Place::Tag, rest)) =~= name
            + without_prefixes(Place::Tag, rest));
    }
}

/// What ends a comment, a CDATA section or a processing instruction.
pub open spec fn end_of(place: Place) -> Seq<char> {
    match place {
        Place::Comment => "-->"@,
        Place::CData => "]]>"@,
        _ => "?>"@,
    }
}

proof fn lemma_end_is_not_empty(place: Place)
    ensures
        end_of(place).len() > 0,
{
    reveal_strlit("-->");
    reveal_strlit("]]>");
    reveal_strlit("?>");
}

/// Comments, CDATA sections and processing instructions stay as they are up to their end.
#[verifier::rlimit(60)]
#[verifier::spinoff_prover]
pub proof fn law_other_markup_is_kept(place: Place, content: Seq<char>, rest: Seq<char>)
    requires
        place is Comment || place is CData || place is Instruction,
        forall|i: int|
            0 <= i < content.len() ==> !text::occurs_at(
                content + end_of(place) + rest,
                end_of(place),
                i,
            ),
    ensures
        without_prefixes(place, content + end_of(place) + rest) == content + end_of(place)
            + without_prefixes(Place::Text, rest),
    decreases content.len(),
{
    let end = end_of(place);
    let xml = content + end + rest;
    let after = without_prefixes(Place::Text, rest);
    lemma_end_is_not_empty(place);
    assert(first_step(place, xml) == step_to_end(place, xml, end));
    if content.len() == 0 {
        assert(end.is_prefix_of(xml));
        assert(xml.take(end.len() as int) =~= end);
        assert(xml.skip(end.len() as int) =~= rest);
        assert(content + end + after =~= end + after);
    } else {
        let shorter = content.skip(1);
        assert(!text::occurs_at(xml, end, 0));
        assert(!end.is_prefix_of(xml)) by {
            if end.is_prefix_of(xml) {
                assert(xml.subrange(0, end.len() as int) =~= end);
            }
        }
        assert(xml.skip(1) =~= shorter + end + rest);
        assert forall|i: int| 0 <= i < shorter.len() implies !text::occurs_at(
            shorter + end + rest,
            end,
            i,
        ) by {
            assert(!text::occurs_at(xml, end, i + 1));
            if text::occurs_at(xml.skip(1), end, i) {
                assert(xml.subrange(i + 1, i + 1 + end.len()) =~= xml.skip(1).subrange(
                    i,
                    i + end.len(),
                ));
            }
        }
        law_other_markup_is_kept(place, shorter, rest);
        assert(xml.take(1) + (shorter + end + after) =~= content + end + after);
    }
}

/// Tells whether `part` stands in `chars` at the position `at`.
fn stands_at(chars: &Vec<char>, part: &str, at: usize) -> (r: bool)
    requires
        at <= chars.len(),
    ensures
        r == part@.is_prefix_of(chars@.skip(at as int)),
{
    let part_chars = chars_of(part);
    if part_chars.len() > chars.len() - at {
        return false;
    }
    let mut i: usize = 0;
    while i < part_chars.len()
        invariant
            i <= part_chars.len() <= chars.len() - at,
            part_chars@ == part@,
            forall|j: int| 0 <= j < i ==> part@[j] == chars@.skip(at as int)[j],
        decreases part_chars.len() - i,
    {
        if part_chars[i] != chars[at + i] {
            assert(part@[i as int] != chars@.skip(at as int)[i as int]);
            return false;
        }
        i += 1;
    }
    assert(part@ =~= chars@.skip(at as int).take(part@.len() as int));
    true
}

/// Where the text stands behind a character that is kept inside a tag.
fn find_place_in_tag(c: char) -> (r: Place)
    ensures
        r == place_in_tag(c),
{
    if c == '>' {
        Place::Text
    } else if c == '"' || c == '\'' {
        Place::Quoted(c)
    } else if c == '/' || char_is_white_space(c) {
        Place::NameStart
    } else {
        Place::Tag
    }
}

/// Where the text stands behind a character that is kept inside a declaration.
fn find_place_in_declaration(declared: Declared, c: char) -> (r: Place)
    ensures
        r == place_in_declaration(declared, c),
{
    if c == '>' || c == '[' {
        Place::Text
    } else if c == '"' || c == '\'' {
        Place::Literal(declared, c)
    } else {
        match declared {
            Declared::Elements => {
                if c == '(' || c == ',' || c == '|' || char_is_white_space(c) {
                    Place::DeclaredName(declared)
                } else {
                    Place::Declaration(declared)
                }
            },
            Declared::Attributes => {
                if c == '(' {
                    Place::Values
                } else if char_is_white_space(c) {
                    Place::DeclaredName(declared)
                } else {
                    Place::Declaration(declared)
                }
            },
            Declared::Other => Place::Declaration(declared),
        }
    }
}

/// What the first step at a place where a name may start takes, keeps and leads to.
fn find_step_at_name(place: Place, chars: &Vec<char>, at: usize, next: Place) -> (r: (
    usize,
    bool,
    Place,
))
    requires
        at < chars.len(),
    ensures
        ({
            let step = step_at_name(place, chars@.skip(at as int), next);
            r.0 == step.taken && r.1 == step.kept && r.2 == step.place
        }),
{
    if stands_at(chars, "ds:", at) {
        ("ds:".unicode_len(), false, place)
    } else if stands_at(chars, "asic:", at) {
        ("asic:".unicode_len(), false, place)
    } else if stands_at(chars, "xades:", at) {
        ("xades:".unicode_len(), false, place)
    } else {
        (1, true, next)
    }
}

/// How many characters the first step takes, whether it keeps them, and where the text stands
/// behind them.
fn find_step(place: Place, chars: &Vec<char>, at: usize) -> (r: (usize, bool, Place))
    requires
        at < chars.len(),
    ensures
        ({
            let step = first_step(place, chars@.skip(at as int));
            r.0 == step.taken && r.1 == step.kept && r.2 == step.place
        }),
{
    let ghost xml = chars@.skip(at as int);
    assert(xml[0] == chars[at as int]);
    let c = chars[at];
    let end = match place {
        Place::Text => {
            if stands_at(chars, "<!--", at) {
                return ("<!--".unicode_len(), true, Place::Comment);
            }
            if stands_at(chars, "<![CDATA[", at) {
                return ("<![CDATA[".unicode_len(), true, Place::CData);
            }
            if stands_at(chars, "<?", at) {
                return ("<?".unicode_len(), true, Place::Instruction);
            }
            if stands_at(chars, "<!DOCTYPE", at) {
                let place = Place::Declaration(Declared::Elements);
                return ("<!DOCTYPE".unicode_len(), true, place);
            }
            if stands_at(chars, "<!ELEMENT", at) {
                let place = Place::Declaration(Declared::Elements);
                return ("<!ELEMENT".unicode_len(), true, place);
            }
            if stands_at(chars, "<!ATTLIST", at) {
                let place = Place::Declaration(Declared::Attributes);
                return ("<!ATTLIST".unicode_len(), true, place);
            }
            if stands_at(chars, "<!", at) {
                return ("<!".unicode_len(), true, Place::Declaration(Declared::Other));
            }
            return (1, true, if c == '<' { Place::NameStart } else { Place::Text });
        },
        Place::NameStart => return find_step_at_name(place, chars, at, find_place_in_tag(c)),
        Place::Tag => return (1, true, find_place_in_tag(c)),
        Place::Quoted(quote) => return (1, true, if c == quote { Place::NameStart } else { place }),
        Place::DeclaredName(declared) => return find_step_at_name(
            place,
            chars,
            at,
            find_place_in_declaration(declared, c),
        ),
        Place::Declaration(declared) => return (1, true, find_place_in_declaration(declared, c)),
        Place::Literal(declared, quote) => return (
            1,
            true,
            if c == quote {
                Place::Declaration(declared)
            } else {
                place
            },
        ),
        Place::Values => return (
            1,
            true,
            if c == ')' {
                Place::Declaration(Declared::Attributes)
            } else {
                place
            },
        ),
        Place::Comment => "-->",
        Place::CData => "]]>",
        Place::Instruction => "?>",
    };
    if stands_at(chars, end, at) {
        (end.unicode_len(), true, Place::Text)
    } else {
        (1, true, place)
    }
}

/// Takes the prefixes `ds:`, `asic:` and `xades:` off the element and attribute names of an XML
/// text, in tags and in declarations. Text content and attribute values stay as they are, and so do
/// comments, CDATA sections, processing instructions, and what declarations hold besides such names.
pub fn strip_tag_prefixes(xml: &str) -> (r: String)
    ensures
        r@ == without_prefixes(Place::Text, xml@),
{
    let chars = chars_of(xml);
    let mut r = String::new();
    let mut place = Place::Text;
    let mut at: usize = 0;
    assert(chars@.skip(0) =~= xml@);
    while at < chars.len()
        invariant
            at <= chars.len(),
            r@ + without_prefixes(place, chars@.skip(at as int)) == without_prefixes(
                Place::Text,
                xml@,
            ),
        decreases chars.len() - at,
    {
        let ghost rest = chars@.skip(at as int);
        let ghost before = r@;
        proof {
            lemma_step_is_inside(place, rest);
        }
        let (taken, kept, next) = find_step(place, &chars, at);
        let to = at + taken;
        assert(rest.skip(taken as int) =~= chars@.skip(to as int));
        if kept {
            let mut i = at;
            while i < to
                invariant
                    at <= i <= to <= chars.len(),
                    r@ == before + chars@.subrange(at as int, i as int),
                decreases to - i,
            {
                r.push(chars[i]);
                assert(before + chars@.subrange(at as int, i + 1) =~= (before + chars@.subrange(
                    at as int,
                    i as int,
                )).push(chars[i as int]));
                i += 1;
            }
            assert(chars@.subrange(at as int, to as int) =~= rest.take(taken as int));
            assert(before + (rest.take(taken as int) + without_prefixes(
                next,
                chars@.skip(to as int),
            )) =~= r@ + without_prefixes(next, chars@.skip(to as int)));
        }
        place = next;
        at = to;
    }
    assert(chars@.skip(at as int).len() == 0);
    assert(r@ + Seq::<char>::empty() =~= r@);
    r
}

/// Whether a character goes on with a name inside a tag: it is no bracket, quote, slash or white space.
pub open spec fn is_inside_name(c: char) -> bool {
    c != '>' && c != '"' && c != '\'' && c != '/' && !text::is_white_space(c)
}

/// Whether a name has none of the prefixes.
pub open spec fn has_no_prefix(name: Seq<char>) -> bool {
    !"ds:"@.is_prefix_of(name) && !"asic:"@.is_prefix_of(name) && !"xades:"@.is_prefix_of(name)
}

proof fn lemma_one_is_kept(place: Place, c: char, rest: Seq<char>, next: Place)
    requires
        first_step(place, seq![c] + rest) == keep_one(next),
    ensures
        without_prefixes(place, seq![c] + rest) == seq![c] + without_prefixes(next, rest),
{
    let xml = seq![c] + rest;
    assert(xml.take(1) =~= seq![c]);
    assert(xml.skip(1) =~= rest);
}

/// A bracket opens a tag, where a name may start, unless it starts a declaration, a comment, a CDATA
/// section or a processing instruction.
pub proof fn law_bracket_opens_a_tag(rest: Seq<char>)
    requires
        rest.len() > 0 ==> rest[0] != '!' && rest[0] != '?',
    ensures
        without_prefixes(Place::Text, seq!['<'] + rest) == seq!['<'] + without_prefixes(
            Place::NameStart,
            rest,
        ),
{
    let xml = seq!['<'] + rest;
    reveal_strlit("<!--");
    reveal_strlit("<![CDATA[");
    reveal_strlit("<?");
    reveal_strlit("<!");
    reveal_strlit("<!DOCTYPE");
    reveal_strlit("<!ELEMENT");
    reveal_strlit("<!ATTLIST");
    assert(rest.len() > 0 ==> xml[1] == rest[0]);
    assert("<!--"@[1] == '!' && "<![CDATA["@[1] == '!' && "<?"@[1] == '?' && "<!"@[1] == '!');
    assert("<!DOCTYPE"@[1] == '!' && "<!ELEMENT"@[1] == '!' && "<!ATTLIST"@[1] == '!');
    lemma_one_is_kept(Place::Text, '<', rest, Place::NameStart);
}

/// Inside a tag a slash or white space comes before a name, a quote before a value, and a bracket ends
/// the tag; each of them is kept.
pub proof fn law_signs_in_a_tag(c: char, rest: Seq<char>)
    ensures
        ({
            let xml = seq![c] + rest;
            &&& c == '>' ==> without_prefixes(Place::Tag, xml) == xml.take(1) + without_prefixes(
                Place::Text,
                rest,
            )
            &&& c == '"' || c == '\'' ==> without_prefixes(Place::Tag, xml) == xml.take(1)
                + without_prefixes(Place::Quoted(c), rest)
            &&& c == '/' || text::is_white_space(c) ==> without_prefixes(Place::Tag, xml)
                == xml.take(1) + without_prefixes(Place::NameStart, rest)
            &&& c == '/' || c == '>' || c == '"' || c == '\'' || text::is_white_space(c)
                ==> without_prefixes(Place::NameStart, xml) == without_prefixes(Place::Tag, xml)
        }),
{
    let xml = seq![c] + rest;
    assert(xml[0] == c);
    assert(xml.skip(1) =~= rest);
    assert(xml.take(1) =~= seq![c]);
    reveal_strlit("ds:");
    reveal_strlit("asic:");
    reveal_strlit("xades:");
    if c == '/' || c == '>' || c == '"' || c == '\'' || text::is_white_space(c) {
        assert("ds:"@[0] == 'd' && "asic:"@[0] == 'a' && "xades:"@[0] == 'x');
        assert(c != 'd' && c != 'a' && c != 'x');
        assert(has_no_prefix(xml));
    }
}

proof fn lemma_name_goes_on(name: Seq<char>, rest: Seq<char>)
    requires
        name.len() > 0,
        has_no_prefix(name + rest),
        forall|i: int| 0 <= i < name.len() ==> is_inside_name(#[trigger] name[i]),
    ensures
        without_prefixes(Place::NameStart, name + rest) == name + without_prefixes(Place::Tag, rest),
{
    let xml = name + rest;
    let shorter = name.skip(1);
    assert(xml[0] == name[0]);
    assert(is_inside_name(name[0]));
    assert(xml =~= seq![name[0]] + (shorter + rest));
    assert(first_step(Place::NameStart, xml) == keep_one(Place::Tag));
    lemma_one_is_kept(Place::NameStart, name[0], shorter + rest, Place::Tag);
    assert forall|i: int| 0 <= i < shorter.len() implies place_in_tag(#[trigger] shorter[i])
        == Place::Tag by {
        assert(is_inside_name(name[i + 1]));
    }
    law_name_is_kept(shorter, rest);
    assert(seq![name[0]] + (shorter + without_prefixes(Place::Tag, rest)) =~= name
        + without_prefixes(Place::Tag, rest));
}

/// Whether a text is one of the prefixes.
pub open spec fn is_prefix(prefix: Seq<char>) -> bool {
    prefix == "ds:"@ || prefix == "asic:"@ || prefix == "xades:"@
}

/// The name of an element loses its prefix in its start tag and in its end tag, and the name of an
/// attribute does too; the name itself, and all that comes before it, stay.
pub proof fn law_names_lose_their_prefix(prefix: Seq<char>, name: Seq<char>, rest: Seq<char>)
    requires
        is_prefix(prefix),
        name.len() > 0,
        has_no_prefix(name + rest),
        forall|i: int| 0 <= i < name.len() ==> is_inside_name(#[trigger] name[i]),
        name[0] != '!' && name[0] != '?',
    ensures
        without_prefixes(Place::Text, seq!['<'] + (prefix + (name + rest))) == seq!['<'] + (name
            + without_prefixes(Place::Tag, rest)),
        without_prefixes(Place::Text, seq!['<'] + (seq!['/'] + (prefix + (name + rest))))
            == seq!['<'] + (seq!['/'] + (name + without_prefixes(Place::Tag, rest))),
        without_prefixes(Place::Tag, seq![' '] + (prefix + (name + rest))) == seq![' '] + (name
            + without_prefixes(Place::Tag, rest)),
        without_prefixes(Place::Text, seq!['<'] + (name + rest)) == seq!['<'] + (name
            + without_prefixes(Place::Tag, rest)),
{
    reveal_strlit("ds:");
    reveal_strlit("asic:");
    reveal_strlit("xades:");
    let named = name + rest;
    let tagged = prefix + named;
    lemma_name_goes_on(name, rest);
    law_prefix_of_name_goes(Place::NameStart, named);
    assert(tagged[0] == prefix[0]);
    assert(named[0] == name[0]);
    law_bracket_opens_a_tag(tagged);
    law_bracket_opens_a_tag(named);
    law_bracket_opens_a_tag(seq!['/'] + tagged);
    law_signs_in_a_tag('/', tagged);
    law_signs_in_a_tag(' ', tagged);
    assert((seq!['/'] + tagged).take(1) =~= seq!['/']);
    assert((seq![' '] + tagged).take(1) =~= seq![' ']);
}

/// A text in which none of the prefixes stands is left as it is, wherever it starts.
pub proof fn law_other_text_is_left(place: Place, xml: Seq<char>)
    requires
        forall|i: int|
            0 <= i <= xml.len() ==> has_no_prefix(#[trigger] xml.skip(i)),
    ensures
        without_prefixes(place, xml) == xml,
    decreases xml.len(),
{
    if xml.len() > 0 {
        lemma_step_is_inside(place, xml);
        let step = first_step(place, xml);
        let n = step.taken as int;
        assert(xml.skip(0) =~= xml);
        assert(has_no_prefix(xml.skip(0)));
        assert forall|i: int| 0 <= i <= xml.skip(n).len() implies has_no_prefix(
            #[trigger] xml.skip(n).skip(i),
        ) by {
            assert(xml.skip(n).skip(i) =~= xml.skip(n + i));
        }
        law_other_text_is_left(step.place, xml.skip(n));
        assert(xml.take(n) + xml.skip(n) =~= xml);
    }
}

/// A comment, a CDATA section and a processing instruction start with what names them, and go on as such.
pub proof fn law_other_markup_starts(rest: Seq<char>)
    ensures
        without_prefixes(Place::Text, "<!--"@ + rest) == "<!--"@ + without_prefixes(
            Place::Comment,
            rest,
        ),
        without_prefixes(Place::Text, "<![CDATA["@ + rest) == "<![CDATA["@ + without_prefixes(
            Place::CData,
            rest,
        ),
        without_prefixes(Place::Text, "<?"@ + rest) == "<?"@ + without_prefixes(
            Place::Instruction,
            rest,
        ),
        end_of(Place::Comment) == "-->"@,
        end_of(Place::CData) == "]]>"@,
        end_of(Place::Instruction) == "?>"@,
{
    reveal_strlit("<!--");
    reveal_strlit("<![CDATA[");
    reveal_strlit("<?");
    let comment = "<!--"@ + rest;
    let cdata = "<![CDATA["@ + rest;
    let instruction = "<?"@ + rest;
    assert("<!--"@.is_prefix_of(comment));
    assert("<![CDATA["@.is_prefix_of(cdata));
    assert("<?"@.is_prefix_of(instruction));
    assert(cdata[2] == '[' && "<!--"@[2] == '-');
    assert(instruction[1] == '?' && "<!--"@[1] == '!' && "<![CDATA["@[1] == '!');
    assert(comment.skip("<!--"@.len() as int) =~= rest);
    assert(cdata.skip("<![CDATA["@.len() as int) =~= rest);
    assert(instruction.skip("<?"@.len() as int) =~= rest);
    assert(comment.take("<!--"@.len() as int) =~= "<!--"@);
    assert(cdata.take("<![CDATA["@.len() as int) =~= "<![CDATA["@);
    assert(instruction.take("<?"@.len() as int) =~= "<?"@);
}

/// Inside a declaration a bracket ends it, or the part of it before other declarations, and a quote
/// starts a literal. Names come behind white space, in a declaration of elements behind `(`, `,` and `|`
/// too; in one of attributes `(` starts a list of values. In any other declaration there are none.
pub proof fn law_signs_in_a_declaration(declared: Declared, c: char, rest: Seq<char>)
    ensures
        ({
            let after = without_prefixes(Place::Declaration(declared), seq![c] + rest);
            let space = text::is_white_space(c);
            &&& c == '>' || c == '[' ==> after == seq![c] + without_prefixes(Place::Text, rest)
            &&& c == '"' || c == '\'' ==> after == seq![c] + without_prefixes(
                Place::Literal(declared, c),
                rest,
            )
            &&& declared is Elements && (c == '(' || c == ',' || c == '|' || space) ==> after
                == seq![c] + without_prefixes(Place::DeclaredName(Declared::Elements), rest)
            &&& declared is Attributes && space ==> after == seq![c] + without_prefixes(
                Place::DeclaredName(Declared::Attributes),
                rest,
            )
            &&& declared is Attributes && c == '(' ==> after == seq![c] + without_prefixes(
                Place::Values,
                rest,
            )
            &&& c != '>' && c != '[' && c != '"' && c != '\'' && (declared is Other || (c != '('
                && c != ',' && c != '|' && !space)) ==> after == seq![c] + without_prefixes(
                Place::Declaration(declared),
                rest,
            )
            &&& c != 'd' && c != 'a' && c != 'x' ==> without_prefixes(
                Place::DeclaredName(declared),
                seq![c] + rest,
            ) == after
        }),
{
    let xml = seq![c] + rest;
    assert(xml[0] == c);
    lemma_one_is_kept(Place::Declaration(declared), c, rest, place_in_declaration(declared, c));
    if c != 'd' && c != 'a' && c != 'x' {
        reveal_strlit("ds:");
        reveal_strlit("asic:");
        reveal_strlit("xades:");
        assert("ds:"@[0] == 'd' && "asic:"@[0] == 'a' && "xades:"@[0] == 'x');
        assert(has_no_prefix(xml));
        lemma_one_is_kept(
            Place::DeclaredName(declared),
            c,
            rest,
            place_in_declaration(declared, c),
        );
    }
}

/// The values that a declared attribute may have stay as they are, up to the end of their list.
pub proof fn law_declared_values_are_kept(values: Seq<char>, rest: Seq<char>)
    requires
        forall|i: int| 0 <= i < values.len() ==> values[i] != ')',
    ensures
        without_prefixes(Place::Values, values + seq![')'] + rest) == values + seq![')']
            + without_prefixes(Place::Declaration(Declared::Attributes), rest),
    decreases values.len(),
{
    let xml = values + seq![')'] + rest;
    let after = without_prefixes(Place::Declaration(Declared::Attributes), rest);
    if values.len() == 0 {
        assert(xml =~= seq![')'] + rest);
        lemma_one_is_kept(
            Place::Values,
            ')',
            rest,
            Place::Declaration(Declared::Attributes),
        );
        assert(values + seq![')'] + after =~= seq![')'] + after);
    } else {
        let shorter = values.skip(1);
        law_declared_values_are_kept(shorter, rest);
        assert(xml =~= seq![values[0]] + (shorter + seq![')'] + rest));
        lemma_one_is_kept(
            Place::Values,
            values[0],
            shorter + seq![')'] + rest,
            Place::Values,
        );
        assert(seq![values[0]] + (shorter + seq![')'] + after) =~= values + seq![')'] + after);
    }
}

/// Document type, element and attribute-list declarations start with what names them, and go on as
/// declarations of elements or attributes.
pub proof fn law_declarations_start(rest: Seq<char>)
    ensures
        without_prefixes(Place::Text, "<!DOCTYPE"@ + rest) == "<!DOCTYPE"@ + without_prefixes(
            Place::Declaration(Declared::Elements),
            rest,
        ),
        without_prefixes(Place::Text, "<!ELEMENT"@ + rest) == "<!ELEMENT"@ + without_prefixes(
            Place::Declaration(Declared::Elements),
            rest,
        ),
        without_prefixes(Place::Text, "<!ATTLIST"@ + rest) == "<!ATTLIST"@ + without_prefixes(
            Place::Declaration(Declared::Attributes),
            rest,
        ),
{
    reveal_strlit("<!--");
    reveal_strlit("<![CDATA[");
    reveal_strlit("<?");
    reveal_strlit("<!DOCTYPE");
    reveal_strlit("<!ELEMENT");
    reveal_strlit("<!ATTLIST");
    lemma_part_is_kept("<!DOCTYPE"@, rest, Place::Declaration(Declared::Elements));
    lemma_part_is_kept("<!ELEMENT"@, rest, Place::Declaration(Declared::Elements));
    lemma_part_is_kept("<!ATTLIST"@, rest, Place::Declaration(Declared::Attributes));
}

proof fn lemma_part_is_kept(part: Seq<char>, rest: Seq<char>, next: Place)
    requires
        part == "<!DOCTYPE"@ && next == Place::Declaration(Declared::Elements) || part
            == "<!ELEMENT"@ && next == Place::Declaration(Declared::Elements) || part
            == "<!ATTLIST"@ && next == Place::Declaration(Declared::Attributes),
    ensures
        without_prefixes(Place::Text, part + rest) == part + without_prefixes(next, rest),
{
    reveal_strlit("<!--");
    reveal_strlit("<![CDATA[");
    reveal_strlit("<?");
    reveal_strlit("<!DOCTYPE");
    reveal_strlit("<!ELEMENT");
    reveal_strlit("<!ATTLIST");
    let xml = part + rest;
    assert(part.is_prefix_of(xml));
    assert(xml[1] == part[1] && xml[2] == part[2]);
    assert("<!--"@[2] == '-' && "<![CDATA["@[2] == '[' && "<?"@[1] == '?');
    assert("<!DOCTYPE"@[2] == 'D' && "<!ELEMENT"@[2] == 'E' && "<!ATTLIST"@[2] == 'A');
    assert(first_step(Place::Text, xml) == keep(part, next));
    assert(xml.take(part.len() as int) =~= part);
    assert(xml.skip(part.len() as int) =~= rest);
}

} // verus!
