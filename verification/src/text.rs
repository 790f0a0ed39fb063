//! Text helpers: decimal and hexadecimal numbers, searching and splitting.

use vstd::prelude::*;

verus! {

/// [`String::push`] appends one character to the end of the string.
pub assume_specification[ String::push ](s: &mut String, c: char)
    ensures
        final(s)@ == old(s)@.push(c),
;

/// The decimal digit for `d`, which is below ten.
pub open spec fn digit(d: nat) -> char {
    (48 + d) as char
}

/// The decimal notation of `n`, without leading zeros.
pub open spec fn decimal(n: nat) -> Seq<char>
    decreases n,
{
    if n < 10 {
        seq![digit(n)]
    } else {
        decimal(n / 10).push(digit(n % 10))
    }
}

/// Writes `n` in decimal.
pub fn decimal_text(n: u64) -> (r: String)
    ensures
        r@ == decimal(n as nat),
    decreases n,
{
    let c: char = (48u8 + (n % 10) as u8) as char;
    if n < 10 {
        let mut r = String::new();
        r.push(c);
        assert(r@ =~= seq![digit(n as nat)]);
        r
    } else {
        let mut r = decimal_text(n / 10);
        r.push(c);
        r
    }
}

/// The lower-case hexadecimal digit for `d`, which is below sixteen.
pub open spec fn hex_digit(d: nat) -> char {
    if d < 10 {
        (48 + d) as char
    } else {
        (97 + d - 10) as char
    }
}

/// The bytes in hexadecimal, two digits each, separated by a comma and a space.
pub open spec fn hex_items(bytes: Seq<u8>) -> Seq<char>
    decreases bytes.len(),
{
    if bytes.len() == 0 {
        seq![]
    } else {
        let b = bytes.last() as nat;
        let before = hex_items(bytes.drop_last());
        let separated = if bytes.len() == 1 {
            before
        } else {
            before + ", "@
        };
        separated.push(hex_digit(b / 16)).push(hex_digit(b % 16))
    }
}

/// A list of bytes in hexadecimal, in square brackets.
pub open spec fn hex_list(bytes: Seq<u8>) -> Seq<char> {
    "["@ + hex_items(bytes) + "]"@
}

fn hex_char(d: u8) -> (r: char)
    requires
        d < 16,
    ensures
        r == hex_digit(d as nat),
{
    if d < 10 {
        (48 + d) as char
    } else {
        (87 + d) as char
    }
}

/// Writes `bytes` as a list in hexadecimal, such as `[2b, 06]`.
pub fn hex_list_text(bytes: &[u8]) -> (r: String)
    ensures
        r@ == hex_list(bytes@),
{
    let mut items = String::new();
    let mut i: usize = 0;
    while i < bytes.len()
        invariant
            i <= bytes.len(),
            items@ == hex_items(bytes@.take(i as int)),
        decreases bytes.len() - i,
    {
        proof {
            let next = bytes@.take(i + 1);
            assert(next.drop_last() =~= bytes@.take(i as int));
        }
        if i > 0 {
            items.append(", ");
        }
        items.push(hex_char(bytes[i] / 16));
        items.push(hex_char(bytes[i] % 16));
        i += 1;
    }
    assert(bytes@.take(i as int) =~= bytes@);
    concat3("[", items.as_str(), "]")
}

/// `a` followed by `b`.
pub fn concat2(a: &str, b: &str) -> (r: String)
    ensures
        r@ == a@ + b@,
{
    let mut r = a.to_owned();
    r.append(b);
    r
}

/// `a`, `b` and `c` in a row.
pub fn concat3(a: &str, b: &str, c: &str) -> (r: String)
    ensures
        r@ == a@ + b@ + c@,
{
    let mut r = concat2(a, b);
    r.append(c);
    r
}

/// `a`, `b`, `c` and `d` in a row.
pub fn concat4(a: &str, b: &str, c: &str, d: &str) -> (r: String)
    ensures
        r@ == a@ + b@ + c@ + d@,
{
    let mut r = concat3(a, b, c);
    r.append(d);
    r
}

/// The characters of `text`.
pub fn chars_of(text: &str) -> (r: Vec<char>)
    ensures
        r@ == text@,
{
    let mut r: Vec<char> = Vec::new();
    for c in it: text.chars()
        invariant
            r@ =~= it.seq().take(it.index() as int),
            it.seq() == text@,
    {
        r.push(c);
    }
    r
}

/// Whether `part` stands in `text` at the position `at`.
pub open spec fn occurs_at(text: Seq<char>, part: Seq<char>, at: int) -> bool {
    0 <= at && at + part.len() <= text.len() && text.subrange(at, at + part.len()) == part
}

/// The first position, from `from` on, at which `part` stands in `text`.
pub open spec fn first_occurrence(text: Seq<char>, part: Seq<char>, from: int) -> Option<int>
    decreases text.len() - from + 1,
{
    if from < 0 || from + part.len() > text.len() {
        None
    } else if occurs_at(text, part, from) {
        Some(from)
    } else {
        first_occurrence(text, part, from + 1)
    }
}

/// The last position, up to `upto`, at which `part` stands in `text`.
pub open spec fn last_occurrence_upto(text: Seq<char>, part: Seq<char>, upto: int) -> Option<int>
    decreases upto + 1,
{
    if upto < 0 {
        None
    } else if occurs_at(text, part, upto) {
        Some(upto)
    } else {
        last_occurrence_upto(text, part, upto - 1)
    }
}

/// The last position at which `part` stands in `text`.
pub open spec fn last_occurrence(text: Seq<char>, part: Seq<char>) -> Option<int> {
    last_occurrence_upto(text, part, text.len() as int)
}

/// `text` with `insert` put in at the position `at`.
pub open spec fn with_insert(text: Seq<char>, at: int, insert: Seq<char>) -> Seq<char> {
    text.take(at) + insert + text.skip(at)
}

/// `text` with its first `from`, if there is one, replaced by `to`.
pub open spec fn with_first_replaced(text: Seq<char>, from: char, to: char) -> Seq<char> {
    match first_occurrence(text, seq![from], 0) {
        Some(i) => text.update(i, to),
        None => text,
    }
}

/// Where `part` stands in `text`, its last position is the last one at which it stands.
pub proof fn law_last_occurrence(text: Seq<char>, part: Seq<char>, at: int)
    requires
        occurs_at(text, part, at),
        forall|later: int| at < later ==> !occurs_at(text, part, later),
    ensures
        last_occurrence(text, part) == Some(at),
{
    lemma_last_occurrence_upto(text, part, at, text.len() as int);
}

/// Where `part` stands in `text` at `at`, and nowhere between `from` and `at`, its first position is
/// `at`.
pub proof fn lemma_first_occurrence(text: Seq<char>, part: Seq<char>, from: int, at: int)
    requires
        0 <= from <= at,
        occurs_at(text, part, at),
        forall|i: int| from <= i < at ==> !occurs_at(text, part, i),
    ensures
        first_occurrence(text, part, from) == Some(at),
    decreases at - from,
{
    if from < at {
        lemma_first_occurrence(text, part, from + 1, at);
    }
}

/// The first position of `part` in a text is the same, but for what comes before the text, where
/// the text stands inside a longer one.
pub proof fn lemma_first_occurrence_inside(
    before: Seq<char>,
    text: Seq<char>,
    after: Seq<char>,
    part: Seq<char>,
    from: int,
)
    requires
        0 <= from,
        first_occurrence(text, part, from) is Some,
    ensures
        first_occurrence(before + text + after, part, before.len() + from) == Some(
            before.len() + first_occurrence(text, part, from)->0,
        ),
    decreases text.len() - from + 1,
{
    let whole = before + text + after;
    let n = before.len() as int;
    if from + part.len() <= text.len() {
        assert(whole.subrange(n + from, n + from + part.len()) =~= text.subrange(
            from,
            from + part.len(),
        ));
        if !occurs_at(text, part, from) {
            lemma_first_occurrence_inside(before, text, after, part, from + 1);
        }
    }
}

proof fn lemma_last_occurrence_upto(text: Seq<char>, part: Seq<char>, at: int, upto: int)
    requires
        occurs_at(text, part, at),
        at <= upto,
        forall|later: int| at < later ==> !occurs_at(text, part, later),
    ensures
        last_occurrence_upto(text, part, upto) == Some(at),
    decreases upto,
{
    if upto > at {
        lemma_last_occurrence_upto(text, part, at, upto - 1);
    }
}

/// Tells whether `part` stands in `text` at the position `at`.
fn stands_at(text: &Vec<char>, part: &Vec<char>, at: usize) -> (r: bool)
    ensures
        r == occurs_at(text@, part@, at as int),
{
    if at > text.len() || part.len() > text.len() - at {
        return false;
    }
    let mut i: usize = 0;
    while i < part.len()
        invariant
            i <= part.len(),
            at + part.len() <= text.len(),
            forall|j: int| 0 <= j < i ==> text@[at + j] == part@[j],
        decreases part.len() - i,
    {
        if text[at + i] != part[i] {
            assert(text@.subrange(at as int, at + part@.len())[i as int] != part@[i as int]);
            return false;
        }
        i += 1;
    }
    assert(text@.subrange(at as int, at + part@.len()) =~= part@);
    true
}

/// Finds the first position, from `from` on, at which `part` stands in `text`; positions count
/// characters.
pub fn find_from(text: &str, part: &str, from: usize) -> (r: Option<usize>)
    requires
        from <= text@.len(),
    ensures
        match r {
            Some(i) => first_occurrence(text@, part@, from as int) == Some(i as int) && from <= i
                && i + part@.len() <= text@.len() <= usize::MAX,
            None => first_occurrence(text@, part@, from as int) is None,
        },
{
    let chars = chars_of(text);
    let wanted = chars_of(part);
    let mut i: usize = from;
    loop
        invariant
            from <= i <= chars.len(),
            chars@ == text@,
            wanted@ == part@,
            first_occurrence(text@, part@, from as int) == first_occurrence(
                text@,
                part@,
                i as int,
            ),
        decreases chars.len() - i,
    {
        if wanted.len() > chars.len() - i {
            return None;
        }
        if stands_at(&chars, &wanted, i) {
            return Some(i);
        }
        assert(wanted@.len() > 0) by {
            if wanted@.len() == 0 {
                assert(chars@.subrange(i as int, i as int) =~= wanted@);
            }
        }
        i += 1;
    }
}

/// Finds the last position at which `part` stands in `text`; positions count characters.
pub fn find_last(text: &str, part: &str) -> (r: Option<usize>)
    ensures
        match r {
            Some(i) => last_occurrence(text@, part@) == Some(i as int) && i + part@.len()
                <= text@.len(),
            None => last_occurrence(text@, part@) is None,
        },
{
    let chars = chars_of(text);
    let wanted = chars_of(part);
    let mut i: usize = chars.len();
    loop
        invariant
            i <= chars.len(),
            chars@ == text@,
            wanted@ == part@,
            last_occurrence(text@, part@) == last_occurrence_upto(text@, part@, i as int),
        decreases i,
    {
        if stands_at(&chars, &wanted, i) {
            return Some(i);
        }
        if i == 0 {
            assert(last_occurrence_upto(text@, part@, -1) is None);
            return None;
        }
        i -= 1;
    }
}

/// Puts `insert` into `text` in front of the last `marker`. There is nothing to do where `text`
/// holds no `marker`.
pub fn insert_before_last(text: &str, marker: &str, insert: &str) -> (r: Option<String>)
    ensures
        match r {
            Some(s) => last_occurrence(text@, marker@) matches Some(i) && s@ == with_insert(
                text@,
                i,
                insert@,
            ),
            None => last_occurrence(text@, marker@) is None,
        },
{
    match find_last(text, marker) {
        None => None,
        Some(i) => {
            let n = text.unicode_len();
            let before = text.substring_char(0, i);
            let after = text.substring_char(i, n);
            assert(before@ =~= text@.take(i as int));
            assert(after@ =~= text@.skip(i as int));
            Some(concat3(before, insert, after))
        },
    }
}

/// Replaces the first `from` in `text` by `to`.
pub fn replace_first_char(text: &str, from: char, to: char) -> (r: String)
    ensures
        r@ == with_first_replaced(text@, from, to),
{
    let chars = chars_of(text);
    let ghost part = seq![from];
    let mut r = String::new();
    let mut i: usize = 0;
    let mut found = false;
    while i < chars.len()
        invariant
            i <= chars.len(),
            chars@ == text@,
            part == seq![from],
            !found ==> r@ == text@.take(i as int) && first_occurrence(text@, part, 0)
                == first_occurrence(text@, part, i as int),
            found ==> (first_occurrence(text@, part, 0) matches Some(at) && 0 <= at < i && r@
                == text@.update(at, to).take(i as int)),
        decreases chars.len() - i,
    {
        proof {
            assert(text@.subrange(i as int, i + 1) =~= seq![text@[i as int]]);
            assert(text@.take(i + 1) =~= text@.take(i as int).push(text@[i as int]));
            if text@[i as int] != from {
                assert(seq![text@[i as int]][0] != part[0]);
            }
        }
        if !found && chars[i] == from {
            found = true;
            r.push(to);
            assert(r@ =~= text@.update(i as int, to).take(i + 1));
        } else {
            r.push(chars[i]);
            proof {
                if found {
                    let at = first_occurrence(text@, part, 0)->0;
                    assert(r@ =~= text@.update(at, to).take(i + 1));
                }
            }
        }
        i += 1;
    }
    proof {
        if found {
            let at = first_occurrence(text@, part, 0)->0;
            assert(text@.update(at, to).take(i as int) =~= text@.update(at, to));
        } else {
            assert(text@.take(i as int) =~= text@);
        }
    }
    r
}

/// Whether `c` is white space, by Unicode's `White_Space` property.
pub open spec fn is_white_space(c: char) -> bool {
    let v = c as int;
    ||| 0x9 <= v <= 0xd
    ||| v == 0x20
    ||| v == 0x85
    ||| v == 0xa0
    ||| v == 0x1680
    ||| 0x2000 <= v <= 0x200a
    ||| v == 0x2028
    ||| v == 0x2029
    ||| v == 0x202f
    ||| v == 0x205f
    ||| v == 0x3000
}

/// The characters of `text` that are no white space.
pub open spec fn without_white_space(text: Seq<char>) -> Seq<char> {
    text.filter(|c: char| !is_white_space(c))
}

/// A text without white space stays as it is.
pub proof fn lemma_nothing_to_remove(text: Seq<char>)
    requires
        forall|i: int| 0 <= i < text.len() ==> !is_white_space(#[trigger] text[i]),
    ensures
        without_white_space(text) == text,
    decreases text.len(),
{
    reveal(Seq::filter);
    if text.len() > 0 {
        let before = text.drop_last();
        assert forall|i: int| 0 <= i < before.len() implies !is_white_space(
            #[trigger] before[i],
        ) by {
            assert(before[i] == text[i]);
        }
        lemma_nothing_to_remove(before);
        assert(before.push(text.last()) =~= text);
    }
}

/// Tells whether `c` is white space.
pub fn char_is_white_space(c: char) -> (r: bool)
    ensures
        r == is_white_space(c),
{
    let v: u32 = c as u32;
    (0x9 <= v && v <= 0xd) || v == 0x20 || v == 0x85 || v == 0xa0 || v == 0x1680 || (0x2000 <= v
        && v <= 0x200a) || v == 0x2028 || v == 0x2029 || v == 0x202f || v == 0x205f || v == 0x3000
}

/// Leaves the white space out of `text`.
pub fn remove_white_space(text: &str) -> (r: String)
    ensures
        r@ == without_white_space(text@),
{
    let chars = chars_of(text);
    let mut r = String::new();
    let mut i: usize = 0;
    proof {
        reveal(Seq::filter);
    }
    while i < chars.len()
        invariant
            i <= chars.len(),
            r@ == without_white_space(chars@.take(i as int)),
        decreases chars.len() - i,
    {
        proof {
            reveal(Seq::filter);
            assert(chars@.take(i + 1).drop_last() =~= chars@.take(i as int));
        }
        if !char_is_white_space(chars[i]) {
            r.push(chars[i]);
        }
        i += 1;
    }
    assert(chars@.take(i as int) =~= chars@);
    r
}

/// Tells whether `a` and `b` are the same text.
pub fn same_text(a: &str, b: &str) -> (r: bool)
    ensures
        r == (a@ == b@),
{
    a.to_owned() == b.to_owned()
}

/// Different numbers have different decimal notations.
pub proof fn law_decimal_is_unique(a: nat, b: nat)
    requires
        decimal(a) == decimal(b),
    ensures
        a == b,
    decreases a,
{
    if a >= 10 && b >= 10 {
        assert(decimal(a).drop_last() =~= decimal(a / 10));
        assert(decimal(b).drop_last() =~= decimal(b / 10));
        assert(decimal(a).last() == digit(a % 10));
        assert(decimal(b).last() == digit(b % 10));
        assert(digit(a % 10) as int == 48 + a % 10);
        assert(digit(b % 10) as int == 48 + b % 10);
        law_decimal_is_unique(a / 10, b / 10);
    } else if a >= 10 {
        lemma_decimal_is_not_empty(a / 10);
        assert(decimal(b).len() == 1);
    } else if b >= 10 {
        lemma_decimal_is_not_empty(b / 10);
        assert(decimal(a).len() == 1);
    } else {
        assert(decimal(a)[0] == digit(a));
        assert(decimal(b)[0] == digit(b));
        assert(digit(a) as int == 48 + a);
        assert(digit(b) as int == 48 + b);
    }
}

proof fn lemma_decimal_is_not_empty(n: nat)
    ensures
        decimal(n).len() > 0,
{
}

/// Whether `part` occurs in `text`.
pub open spec fn holds(text: Seq<char>, part: Seq<char>) -> bool {
    exists|at: int| occurs_at(text, part, at)
}

/// Texts in a row.
pub open spec fn joined(parts: Seq<Seq<char>>) -> Seq<char>
    decreases parts.len(),
{
    if parts.len() == 0 {
        seq![]
    } else {
        joined(parts.drop_last()) + parts.last()
    }
}

/// Each of the texts occurs in the row.
pub proof fn law_joined_holds_each_part(parts: Seq<Seq<char>>, i: int)
    requires
        0 <= i < parts.len(),
    ensures
        holds(joined(parts), parts[i]),
    decreases parts.len(),
{
    let before = parts.drop_last();
    let row = joined(parts);
    if i == parts.len() - 1 {
        let at = joined(before).len() as int;
        assert(row.subrange(at, at + parts[i].len()) =~= parts[i]);
        assert(occurs_at(row, parts[i], at));
    } else {
        law_joined_holds_each_part(before, i);
        assert(before[i] == parts[i]);
        let at = choose|at: int| occurs_at(joined(before), parts[i], at);
        assert(row.subrange(at, at + parts[i].len()) =~= joined(before).subrange(
            at,
            at + parts[i].len(),
        ));
        assert(occurs_at(row, parts[i], at));
    }
}

/// Puts texts in a row.
pub fn join(parts: &Vec<&str>) -> (r: String)
    ensures
        r@ == joined(parts@.map_values(|part: &str| part@)),
{
    let ghost all = parts@.map_values(|part: &str| part@);
    let mut r = String::new();
    let mut i: usize = 0;
    while i < parts.len()
        invariant
            i <= parts.len(),
            all == parts@.map_values(|part: &str| part@),
            r@ == joined(all.take(i as int)),
        decreases parts.len() - i,
    {
        r.append(parts[i]);
        assert(all.take(i + 1).drop_last() =~= all.take(i as int));
        i += 1;
    }
    assert(all.take(i as int) =~= all);
    r
}

/// The number that a row of decimal digits stands for.
pub open spec fn number_of(digits: Seq<char>) -> nat
    decreases digits.len(),
{
    if digits.len() == 0 {
        0
    } else {
        (number_of(digits.drop_last()) * 10 + (digits.last() as int - '0' as int)) as nat
    }
}

/// The decimal notation of a number stands for that number. It consists of digits, and starts with no
/// zero but for the number zero.
pub proof fn law_decimal_reads_back(n: nat)
    ensures
        number_of(decimal(n)) == n,
        decimal(n).len() > 0,
        forall|i: int| 0 <= i < decimal(n).len() ==> '0' <= #[trigger] decimal(n)[i] <= '9',
        n > 0 ==> decimal(n)[0] != '0',
    decreases n,
{
    let text = decimal(n);
    if n < 10 {
        reveal_with_fuel(number_of, 2);
        assert(text.drop_last() =~= Seq::<char>::empty());
    } else {
        law_decimal_reads_back(n / 10);
        assert(text.drop_last() =~= decimal(n / 10));
        assert forall|i: int| 0 <= i < text.len() implies '0' <= #[trigger] text[i] <= '9' by {
            if i < text.len() - 1 {
                assert(text[i] == decimal(n / 10)[i]);
            }
        }
        assert(text[0] == decimal(n / 10)[0]);
    }
}

/// What is found first stands there, and nowhere before; where nothing is found, the part stands
/// nowhere.
pub proof fn law_first_occurrence(text: Seq<char>, part: Seq<char>, from: int)
    requires
        0 <= from,
    ensures
        match first_occurrence(text, part, from) {
            Some(at) => from <= at && occurs_at(text, part, at) && forall|i: int|
                from <= i < at ==> !occurs_at(text, part, i),
            None => forall|i: int| from <= i ==> !occurs_at(text, part, i),
        },
    decreases text.len() - from + 1,
{
    if from + part.len() <= text.len() && !occurs_at(text, part, from) {
        law_first_occurrence(text, part, from + 1);
    }
}

/// What is found last stands there, and nowhere behind; where nothing is found, the part stands
/// nowhere.
pub proof fn law_found_last(text: Seq<char>, part: Seq<char>)
    ensures
        match last_occurrence(text, part) {
            Some(at) => occurs_at(text, part, at) && forall|i: int|
                at < i ==> !occurs_at(text, part, i),
            None => forall|i: int| !occurs_at(text, part, i),
        },
{
    lemma_found_last_upto(text, part, text.len() as int);
}

proof fn lemma_found_last_upto(text: Seq<char>, part: Seq<char>, upto: int)
    requires
        -1 <= upto,
    ensures
        match last_occurrence_upto(text, part, upto) {
            Some(at) => at <= upto && occurs_at(text, part, at) && forall|i: int|
                at < i <= upto ==> !occurs_at(text, part, i),
            None => forall|i: int| i <= upto ==> !occurs_at(text, part, i),
        },
    decreases upto + 1,
{
    if upto >= 0 && !occurs_at(text, part, upto) {
        lemma_found_last_upto(text, part, upto - 1);
    }
}

/// Putting a text in keeps what stood before and behind the place, and adds just that text.
pub proof fn law_insert_only_adds(text: Seq<char>, at: int, insert: Seq<char>)
    requires
        0 <= at <= text.len(),
    ensures
        with_insert(text, at, insert).take(at) == text.take(at),
        with_insert(text, at, insert).subrange(at, at + insert.len()) == insert,
        with_insert(text, at, insert).skip(at + insert.len()) == text.skip(at),
        with_insert(text, at, insert).len() == text.len() + insert.len(),
{
    let r = with_insert(text, at, insert);
    assert(r.take(at) =~= text.take(at));
    assert(r.subrange(at, at + insert.len()) =~= insert);
    assert(r.skip(at + insert.len()) =~= text.skip(at));
}

/// Replacing the first of a character changes that one, and nothing else.
pub proof fn law_first_is_replaced(text: Seq<char>, from: char, to: char, at: int)
    requires
        0 <= at < text.len(),
        text[at] == from,
        forall|i: int| 0 <= i < at ==> text[i] != from,
    ensures
        with_first_replaced(text, from, to) == text.update(at, to),
{
    assert(text.subrange(at, at + 1) =~= seq![from]);
    assert forall|i: int| 0 <= i < at implies !occurs_at(text, seq![from], i) by {
        if occurs_at(text, seq![from], i) {
            assert(text.subrange(i, i + 1)[0] == text[i]);
        }
    }
    lemma_first_occurrence(text, seq![from], 0, at);
}

/// Without the white space a text has no white space, and all of its other characters in their order:
/// each character of the text is kept or not by itself.
pub proof fn law_white_space_goes(text: Seq<char>, c: char)
    ensures
        without_white_space(text.push(c)) == if is_white_space(c) {
            without_white_space(text)
        } else {
            without_white_space(text).push(c)
        },
        without_white_space(Seq::<char>::empty()).len() == 0,
{
    reveal(Seq::filter);
    assert(text.push(c).drop_last() =~= text);
}

/// A row of texts is each of them in turn, and nothing else.
pub proof fn law_joined_is_the_row(parts: Seq<Seq<char>>)
    ensures
        joined(parts) == parts.flatten(),
    decreases parts.len(),
{
    if parts.len() > 0 {
        law_joined_is_the_row(parts.drop_last());
        parts.drop_last().lemma_flatten_push(parts.last());
        assert(parts =~= parts.drop_last().push(parts.last()));
    } else {
        assert(joined(parts) =~= parts.flatten());
    }
}

/// The value of a hexadecimal digit in lower case.
pub open spec fn hex_value(c: char) -> int {
    if '0' <= c <= '9' {
        c as int - '0' as int
    } else {
        c as int - 'a' as int + 10
    }
}

/// A list of bytes in hexadecimal shows each byte in its place, by two digits.
pub proof fn law_hex_list_shows_each_byte(bytes: Seq<u8>, i: int)
    requires
        0 <= i < bytes.len(),
    ensures
        hex_list(bytes).len() == 4 * bytes.len(),
        hex_value(hex_list(bytes)[4 * i + 1]) * 16 + hex_value(hex_list(bytes)[4 * i + 2])
            == bytes[i],
{
    reveal_strlit("[");
    reveal_strlit("]");
    lemma_hex_items(bytes, i);
    let items = hex_items(bytes);
    assert(hex_list(bytes)[4 * i + 1] == items[4 * i]);
    assert(hex_list(bytes)[4 * i + 2] == items[4 * i + 1]);
}

proof fn lemma_hex_items(bytes: Seq<u8>, i: int)
    requires
        0 <= i < bytes.len(),
    ensures
        hex_items(bytes).len() == 4 * bytes.len() - 2,
        hex_value(hex_items(bytes)[4 * i]) * 16 + hex_value(hex_items(bytes)[4 * i + 1])
            == bytes[i],
    decreases bytes.len(),
{
    reveal_strlit(", ");
    let before = hex_items(bytes.drop_last());
    let b = bytes.last() as nat;
    let items = hex_items(bytes);
    if bytes.len() == 1 {
        assert(before =~= Seq::<char>::empty());
    } else {
        lemma_hex_items(bytes.drop_last(), 0);
        if i < bytes.len() - 1 {
            lemma_hex_items(bytes.drop_last(), i);
            assert(items[4 * i] == before[4 * i]);
            assert(items[4 * i + 1] == before[4 * i + 1]);
        }
    }
    if i == bytes.len() - 1 {
        assert(items[4 * i] == hex_digit(b / 16));
        assert(items[4 * i + 1] == hex_digit(b % 16));
    }
}

/// White space is what Unicode calls so: these code points, and no others.
pub proof fn law_white_space_is_listed(c: char)
    ensures
        is_white_space(c) <==> {
            let v = c as int;
            ||| v == 9 || v == 10 || v == 11 || v == 12 || v == 13 || v == 32 || v == 133
            ||| v == 160 || v == 5760 || v == 8232 || v == 8233 || v == 8239 || v == 8287
            ||| v == 8192 || v == 8193 || v == 8194 || v == 8195 || v == 8196 || v == 8197
            ||| v == 8198 || v == 8199 || v == 8200 || v == 8201 || v == 8202 || v == 12288
        },
{
}

} // verus!
