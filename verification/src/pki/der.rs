//! A minimal DER encoder and reader.
//!
//! It handles definite lengths of up to four octets, which is what timestamp and
//! OCSP messages need.

use vstd::prelude::*;

use crate::error::{ErrorView, SignatureError};

verus! {

/// The number that `bytes` stands for, most significant byte first.
pub open spec fn be_value(bytes: Seq<u8>) -> nat
    decreases bytes.len(),
{
    if bytes.len() == 0 {
        0
    } else {
        be_value(bytes.drop_last()) * 256 + bytes.last() as nat
    }
}

/// The number of values that `n` bytes can hold.
pub open spec fn pow256(n: nat) -> nat
    decreases n,
{
    if n == 0 {
        1
    } else {
        256 * pow256((n - 1) as nat)
    }
}

proof fn lemma_be_bound(bytes: Seq<u8>)
    ensures
        be_value(bytes) < pow256(bytes.len()),
    decreases bytes.len(),
{
    if bytes.len() > 0 {
        lemma_be_bound(bytes.drop_last());
    }
}

/// The DER octets for a length: one octet below 128, else the number of octets that
/// follow (with the high bit set) and the length, most significant octet first. Of a
/// length beyond four octets the low four are written.
#[verifier::opaque]
pub open spec fn length_octets(len: nat) -> Seq<u8> {
    if len < 0x80 {
        seq![len as u8]
    } else if len <= 0xff {
        seq![0x81u8, len as u8]
    } else if len <= 0xffff {
        seq![0x82u8, (len / 0x100) as u8, (len % 0x100) as u8]
    } else if len <= 0xff_ffff {
        seq![0x83u8, (len / 0x1_0000) as u8, (len / 0x100 % 0x100) as u8, (len % 0x100) as u8]
    } else {
        seq![
            0x84u8,
            (len / 0x100_0000 % 0x100) as u8,
            (len / 0x1_0000 % 0x100) as u8,
            (len / 0x100 % 0x100) as u8,
            (len % 0x100) as u8,
        ]
    }
}

/// The DER element with the given tag and value.
pub open spec fn tlv(tag: u8, value: Seq<u8>) -> Seq<u8> {
    seq![tag] + length_octets(value.len()) + value
}

/// What the length octets at the start of `input` say: the length, and how many octets
/// it takes.
pub open spec fn parse_length(input: Seq<u8>) -> Result<(nat, nat), Seq<char>> {
    if input.len() == 0 {
        Err("missing length byte"@)
    } else if input[0] < 0x80 {
        Ok((input[0] as nat, 1))
    } else {
        let n = (input[0] - 0x80) as nat;
        if n == 0 || n > 4 {
            Err("unsupported DER length form"@)
        } else if input.len() < 1 + n {
            Err("length bytes truncated"@)
        } else {
            Ok((be_value(input.subrange(1, 1 + n as int)), 1 + n))
        }
    }
}

/// The value of the element with tag `tag` at the start of `input`, and what follows it.
pub open spec fn parse_tlv(input: Seq<u8>, tag: u8) -> Result<(Seq<u8>, Seq<u8>), Seq<char>> {
    if input.len() == 0 {
        Err("empty DER input"@)
    } else if input[0] != tag {
        Err("unexpected DER tag"@)
    } else {
        match parse_length(input.skip(1)) {
            Err(e) => Err(e),
            Ok((len, size)) => if input.len() < 1 + size + len {
                Err("DER value truncated"@)
            } else {
                let start = 1 + size as int;
                Ok((input.subrange(start, start + len), input.skip(start + len)))
            },
        }
    }
}

/// The value of the element with tag `tag` that `input` consists of.
pub open spec fn parse_only_tlv(input: Seq<u8>, tag: u8) -> Result<Seq<u8>, Seq<char>> {
    match parse_tlv(input, tag) {
        Err(e) => Err(e),
        Ok((value, rest)) => if rest.len() != 0 {
            Err("trailing bytes after TLV"@)
        } else {
            Ok(value)
        },
    }
}

/// The size of the element at the start of `input`, tag and length octets counted.
pub open spec fn element_size(input: Seq<u8>) -> Result<nat, Seq<char>> {
    if input.len() == 0 {
        Err("empty DER input"@)
    } else {
        match parse_length(input.skip(1)) {
            Err(e) => Err(e),
            Ok((len, size)) => Ok(1 + size + len),
        }
    }
}

/// The number that the value of an INTEGER or ENUMERATED stands for, read as unsigned.
/// A zero octet in front, which DER puts there to keep a number positive, is allowed.
pub open spec fn unsigned_int(value: Seq<u8>) -> Result<nat, ErrorView> {
    let bytes = if value.len() > 1 && value[0] == 0 {
        value.skip(1)
    } else {
        value
    };
    if value.len() == 0 || value.len() > 9 {
        Err(ErrorView::GeneralError("INTEGER out of range for u64"@))
    } else if bytes.len() > 8 {
        Err(ErrorView::GeneralError("INTEGER > 64 bits"@))
    } else {
        Ok(be_value(bytes))
    }
}

/// Tag and length octets make an element two to six bytes longer than its value.
pub proof fn law_tlv_size(tag: u8, value: Seq<u8>)
    ensures
        value.len() + 2 <= tlv(tag, value).len() <= value.len() + 6,
{
    reveal(length_octets);
}

/// Reading encoded length octets gives the length back, and consumes exactly those
/// octets, for every length that four octets hold.
pub proof fn law_length_round_trip(len: nat, rest: Seq<u8>)
    requires
        len <= 0xffff_ffff,
    ensures
        parse_length(length_octets(len) + rest) == Ok::<(nat, nat), Seq<char>>(
            (len, length_octets(len).len()),
        ),
{
    reveal(length_octets);
    let octets = length_octets(len);
    let input = octets + rest;
    assert(input[0] == octets[0]);
    if len >= 0x80 {
        let digits = octets.skip(1);
        assert(input.subrange(1, octets.len() as int) =~= digits);
        reveal_with_fuel(be_value, 5);
        if len <= 0xff {
            assert(digits =~= seq![len as u8]);
            assert(digits.drop_last() =~= Seq::<u8>::empty());
        } else if len <= 0xffff {
            assert(digits.drop_last() =~= seq![(len / 0x100) as u8]);
            assert(digits.drop_last().drop_last() =~= Seq::<u8>::empty());
        } else if len <= 0xff_ffff {
            let d2 = digits.drop_last();
            let d1 = d2.drop_last();
            assert(d2 =~= seq![(len / 0x1_0000) as u8, (len / 0x100 % 0x100) as u8]);
            assert(d1 =~= seq![(len / 0x1_0000) as u8]);
            assert(d1.drop_last() =~= Seq::<u8>::empty());
        } else {
            let d3 = digits.drop_last();
            let d2 = d3.drop_last();
            let d1 = d2.drop_last();
            assert(d3 =~= seq![
                (len / 0x100_0000 % 0x100) as u8,
                (len / 0x1_0000 % 0x100) as u8,
                (len / 0x100 % 0x100) as u8,
            ]);
            assert(d2 =~= seq![(len / 0x100_0000 % 0x100) as u8, (len / 0x1_0000 % 0x100) as u8]);
            assert(d1 =~= seq![(len / 0x100_0000 % 0x100) as u8]);
            assert(d1.drop_last() =~= Seq::<u8>::empty());
        }
    }
}

/// Reading an encoded element gives its value back, and leaves exactly what followed the
/// element.
pub proof fn law_tlv_round_trip(tag: u8, value: Seq<u8>, rest: Seq<u8>)
    requires
        value.len() <= 0xffff_ffff,
    ensures
        parse_tlv(tlv(tag, value) + rest, tag) == Ok::<(Seq<u8>, Seq<u8>), Seq<char>>(
            (value, rest),
        ),
        element_size(tlv(tag, value) + rest) == Ok::<nat, Seq<char>>(tlv(tag, value).len()),
{
    let octets = length_octets(value.len());
    let input = tlv(tag, value) + rest;
    assert(input.skip(1) =~= octets + (value + rest));
    law_length_round_trip(value.len(), value + rest);
    let start = 1 + octets.len() as int;
    assert(input.subrange(start, start + value.len()) =~= value);
    assert(input.skip(start + value.len()) =~= rest);
}

/// Reading an element encoded on its own gives its value back.
pub proof fn law_only_tlv_round_trip(tag: u8, value: Seq<u8>)
    requires
        value.len() <= 0xffff_ffff,
    ensures
        parse_only_tlv(tlv(tag, value), tag) == Ok::<Seq<u8>, Seq<char>>(value),
{
    assert(tlv(tag, value) + Seq::<u8>::empty() =~= tlv(tag, value));
    law_tlv_round_trip(tag, value, Seq::empty());
}

/// What is read is part of the input: behind tag and length octets come the value, then
/// the remainder, up to the end of the input.
pub proof fn law_tlv_splits_input(input: Seq<u8>, tag: u8)
    ensures
        parse_tlv(input, tag) matches Ok((value, rest)) ==> {
            let header = input.len() - value.len() - rest.len();
            &&& 2 <= header <= 6
            &&& input[0] == tag
            &&& input == input.take(header) + value + rest
            &&& element_size(input) == Ok::<nat, Seq<char>>((header + value.len()) as nat)
        },
{
    if let Ok((value, rest)) = parse_tlv(input, tag) {
        let header = input.len() - value.len() - rest.len();
        assert(input =~= input.take(header) + value + rest);
    }
}

/// The DER octets for the length `len`.
pub fn encode_length(len: usize) -> (r: Vec<u8>)
    ensures
        r@ == length_octets(len as nat),
{
    proof {
        reveal(length_octets);
    }
    let n: u64 = len as u64;
    if n < 0x80 {
        vec![n as u8]
    } else if n <= 0xff {
        vec![0x81, n as u8]
    } else if n <= 0xffff {
        vec![0x82, (n / 0x100) as u8, (n % 0x100) as u8]
    } else if n <= 0xff_ffff {
        vec![0x83, (n / 0x1_0000) as u8, (n / 0x100 % 0x100) as u8, (n % 0x100) as u8]
    } else {
        vec![
            0x84,
            (n / 0x100_0000 % 0x100) as u8,
            (n / 0x1_0000 % 0x100) as u8,
            (n / 0x100 % 0x100) as u8,
            (n % 0x100) as u8,
        ]
    }
}

/// The DER element with the given tag and value.
pub fn encode_tlv(tag: u8, value: &[u8]) -> (r: Vec<u8>)
    ensures
        r@ == tlv(tag, value@),
{
    let mut length = encode_length(value.len());
    let mut out: Vec<u8> = vec![tag];
    out.append(&mut length);
    out.extend_from_slice(value);
    out
}

/// Reads the length octets at the start of `input`: the length, and how many octets it
/// takes.
pub fn read_length(input: &[u8]) -> (r: Result<(usize, usize), &'static str>)
    ensures
        match r {
            Ok((len, size)) => parse_length(input@) == Ok::<(nat, nat), Seq<char>>(
                (len as nat, size as nat),
            ),
            Err(e) => parse_length(input@) == Err::<(nat, nat), Seq<char>>(e@),
        },
{
    if input.is_empty() {
        return Err("missing length byte");
    }
    let first = input[0];
    if first < 0x80 {
        return Ok((first as usize, 1));
    }
    let n = (first - 0x80) as usize;
    if n == 0 || n > 4 {
        return Err("unsupported DER length form");
    }
    if input.len() < 1 + n {
        return Err("length bytes truncated");
    }
    let mut len: usize = 0;
    let mut i: usize = 1;
    while i < 1 + n
        invariant
            1 <= i <= 1 + n <= input.len(),
            n <= 4,
            len == be_value(input@.subrange(1, i as int)),
        decreases 1 + n - i,
    {
        proof {
            let read = input@.subrange(1, i as int);
            let next = input@.subrange(1, i + 1);
            assert(next.drop_last() =~= read);
            lemma_be_bound(next);
            reveal_with_fuel(pow256, 5);
        }
        len = len * 256 + input[i] as usize;
        i += 1;
    }
    Ok((len, 1 + n))
}

/// Reads the element with tag `tag` at the start of `input`: its value, and what follows
/// it.
pub fn read_tlv_with_remainder<'a>(input: &'a [u8], tag: u8) -> (r: Result<
    (&'a [u8], &'a [u8]),
    &'static str,
>)
    ensures
        match r {
            Ok((value, rest)) => parse_tlv(input@, tag) == Ok::<(Seq<u8>, Seq<u8>), Seq<char>>(
                (value@, rest@),
            ),
            Err(e) => parse_tlv(input@, tag) == Err::<(Seq<u8>, Seq<u8>), Seq<char>>(e@),
        },
{
    if input.is_empty() {
        return Err("empty DER input");
    }
    if input[0] != tag {
        return Err("unexpected DER tag");
    }
    let after_tag = &input[1..input.len()];
    assert(after_tag@ =~= input@.skip(1));
    let (len, size) = match read_length(after_tag) {
        Ok(found) => found,
        Err(e) => return Err(e),
    };
    if after_tag.len() - size < len {
        return Err("DER value truncated");
    }
    let value = &after_tag[size..size + len];
    let rest = &after_tag[size + len..after_tag.len()];
    assert(value@ =~= input@.subrange(1 + size as int, 1 + size + len));
    assert(rest@ =~= input@.skip(1 + size + len));
    Ok((value, rest))
}

/// Reads the element with tag `tag` that `input` consists of: its value. Bytes after the
/// element are an error.
pub fn read_tlv<'a>(input: &'a [u8], tag: u8) -> (r: Result<&'a [u8], &'static str>)
    ensures
        match r {
            Ok(value) => parse_only_tlv(input@, tag) == Ok::<Seq<u8>, Seq<char>>(value@),
            Err(e) => parse_only_tlv(input@, tag) == Err::<Seq<u8>, Seq<char>>(e@),
        },
{
    let (value, rest) = match read_tlv_with_remainder(input, tag) {
        Ok(found) => found,
        Err(e) => return Err(e),
    };
    if !rest.is_empty() {
        return Err("trailing bytes after TLV");
    }
    Ok(value)
}

/// The size of the element at the start of `input`, tag and length octets counted. The
/// element may reach beyond the end of `input`.
pub fn total_tlv_length(input: &[u8]) -> (r: Result<usize, &'static str>)
    requires
        element_size(input@) matches Ok(size) ==> size <= usize::MAX,
    ensures
        match r {
            Ok(size) => element_size(input@) == Ok::<nat, Seq<char>>(size as nat),
            Err(e) => element_size(input@) == Err::<nat, Seq<char>>(e@),
        },
{
    if input.is_empty() {
        return Err("empty DER input");
    }
    let after_tag = &input[1..input.len()];
    assert(after_tag@ =~= input@.skip(1));
    let (len, size) = match read_length(after_tag) {
        Ok(found) => found,
        Err(e) => return Err(e),
    };
    Ok(1 + size + len)
}

/// Reads the value of an INTEGER or ENUMERATED as an unsigned number.
pub fn decode_unsigned_int(value: &[u8]) -> (r: Result<u64, SignatureError>)
    ensures
        match r {
            Ok(n) => unsigned_int(value@) == Ok::<nat, ErrorView>(n as nat),
            Err(e) => unsigned_int(value@) == Err::<nat, ErrorView>(e@),
        },
{
    if value.is_empty() || value.len() > 9 {
        return Err(SignatureError::GeneralError("INTEGER out of range for u64".to_owned()));
    }
    let start: usize = if value.len() > 1 && value[0] == 0 {
        1
    } else {
        0
    };
    if value.len() - start > 8 {
        return Err(SignatureError::GeneralError("INTEGER > 64 bits".to_owned()));
    }
    let ghost bytes = value@.skip(start as int);
    let mut out: u64 = 0;
    let mut i: usize = start;
    while i < value.len()
        invariant
            start <= i <= value.len(),
            value.len() - start <= 8,
            bytes == value@.skip(start as int),
            out == be_value(bytes.take(i - start)),
        decreases value.len() - i,
    {
        proof {
            let next = bytes.take(i + 1 - start);
            assert(next.drop_last() =~= bytes.take(i - start));
            lemma_be_bound(next);
            reveal_with_fuel(pow256, 9);
        }
        out = out * 256 + value[i] as u64;
        i += 1;
    }
    assert(bytes.take(value.len() - start) =~= bytes);
    assert(value@.skip(0) =~= value@);
    Ok(out)
}

/// A number reads digit by digit in base 256: no octets stand for zero, and an octet behind others
/// counts itself and 256 times what stands before it.
pub proof fn law_octets_are_digits(bytes: Seq<u8>, last: u8)
    ensures
        be_value(Seq::<u8>::empty()) == 0,
        be_value(bytes.push(last)) == 256 * be_value(bytes) + last,
{
    assert(bytes.push(last).drop_last() =~= bytes);
}

/// The length octets are those of DER: a length below 128 is one octet of its own; any other that four
/// octets hold is an octet that counts the octets behind it, with the high bit set, and these are the
/// length in base 256, without a zero in front.
pub proof fn law_length_is_definite_and_shortest(len: nat)
    requires
        len <= 0xffff_ffff,
    ensures
        len < 0x80 ==> length_octets(len).len() == 1 && length_octets(len)[0] == len,
        len >= 0x80 ==> {
            let octets = length_octets(len);
            &&& 2 <= octets.len() <= 5
            &&& octets[0] == 0x80 + (octets.len() - 1)
            &&& octets[1] != 0
            &&& be_value(octets.skip(1)) == len
        },
{
    law_length_round_trip(len, Seq::empty());
    reveal(length_octets);
    let octets = length_octets(len);
    assert(octets + Seq::<u8>::empty() =~= octets);
    if len >= 0x80 {
        assert(octets.subrange(1, octets.len() as int) =~= octets.skip(1));
        assert(len / 0x100_0000 % 0x100 == len / 0x100_0000);
    }
}

/// An element is its tag, the length octets for its value, and its value.
pub proof fn law_element_is_tag_length_value(tag: u8, value: Seq<u8>)
    ensures
        ({
            let element = tlv(tag, value);
            let header = (element.len() - value.len()) as int;
            &&& header >= 2
            &&& element[0] == tag
            &&& element.subrange(1, header) == length_octets(value.len())
            &&& element.skip(header) == value
        }),
{
    reveal(length_octets);
    let element = tlv(tag, value);
    let header = (element.len() - value.len()) as int;
    assert(element.subrange(1, header) =~= length_octets(value.len()));
    assert(element.skip(header) =~= value);
}

/// An element can be read just where the input starts with its tag, with length octets of one of the
/// forms that are known, and with as many octets behind them as they say.
pub proof fn law_reading_needs_tag_and_all_octets(input: Seq<u8>, tag: u8)
    ensures
        parse_tlv(input, tag) is Ok <==> {
            &&& input.len() >= 2
            &&& input[0] == tag
            &&& if input[1] < 0x80 {
                input.len() >= 2 + input[1]
            } else {
                let n = input[1] - 0x80;
                &&& 1 <= n <= 4
                &&& input.len() >= 2 + n
                &&& input.len() >= 2 + n + be_value(input.subrange(2, 2 + n))
            }
        },
        parse_only_tlv(input, tag) is Ok <==> (parse_tlv(input, tag) matches Ok((value, rest)) && rest.len()
            == 0),
        parse_tlv(input, tag) matches Ok((value, rest)) ==> if input[1] < 0x80 {
            value == input.subrange(2, 2 + input[1]) && rest == input.skip(2 + input[1])
        } else {
            let start = 2 + (input[1] - 0x80);
            let end = start + be_value(input.subrange(2, start));
            value == input.subrange(start, end) && rest == input.skip(end)
        },
{
    if input.len() >= 2 {
        let body = input.skip(1);
        assert(body[0] == input[1]);
        if body[0] >= 0x80 {
            let n = input[1] - 0x80;
            if input.len() >= 2 + n {
                assert(body.subrange(1, 1 + n) =~= input.subrange(2, 2 + n));
            }
        }
    }
}

/// Up to eight octets stand for their number, and a zero octet may stand before them; an INTEGER without
/// octets, or one that is longer, is refused.
pub proof fn law_integer_is_its_number(value: Seq<u8>)
    ensures
        1 <= value.len() <= 8 ==> unsigned_int(value) == Ok::<nat, ErrorView>(be_value(value)),
        value.len() == 9 && value[0] == 0 ==> unsigned_int(value) == Ok::<nat, ErrorView>(
            be_value(value.skip(1)),
        ),
        value.len() == 9 && value[0] != 0 ==> unsigned_int(value) == Err::<nat, ErrorView>(
            ErrorView::GeneralError("INTEGER > 64 bits"@),
        ),
        value.len() == 0 || value.len() > 9 ==> unsigned_int(value) == Err::<nat, ErrorView>(
            ErrorView::GeneralError("INTEGER out of range for u64"@),
        ),
{
    if 2 <= value.len() && value[0] == 0 {
        lemma_zero_in_front(value);
    }
}

proof fn lemma_zero_in_front(value: Seq<u8>)
    requires
        value.len() >= 1,
        value[0] == 0,
    ensures
        be_value(value) == be_value(value.skip(1)),
    decreases value.len(),
{
    if value.len() > 1 {
        lemma_zero_in_front(value.drop_last());
        assert(value.drop_last().skip(1) =~= value.skip(1).drop_last());
    } else {
        assert(value.drop_last() =~= Seq::<u8>::empty());
        assert(value.skip(1) =~= Seq::<u8>::empty());
    }
}

/// Where length octets or an element cannot be read, the message tells why: nothing is there, the tag is
/// another one, the form of the length is not known, octets are missing, or there are too many.
pub proof fn law_reading_fails_for_a_reason(input: Seq<u8>, tag: u8)
    ensures
        input.len() == 0 ==> parse_length(input) == Err::<(nat, nat), Seq<char>>(
            "missing length byte"@,
        ),
        input.len() > 0 && (input[0] == 0x80 || input[0] > 0x84) ==> parse_length(input) == Err::<
            (nat, nat),
            Seq<char>,
        >("unsupported DER length form"@),
        input.len() > 0 && 0x81 <= input[0] <= 0x84 && input.len() < 1 + (input[0] - 0x80)
            ==> parse_length(input) == Err::<(nat, nat), Seq<char>>("length bytes truncated"@),
        input.len() == 0 ==> parse_tlv(input, tag) == Err::<(Seq<u8>, Seq<u8>), Seq<char>>(
            "empty DER input"@,
        ),
        input.len() > 0 && input[0] != tag ==> parse_tlv(input, tag) == Err::<
            (Seq<u8>, Seq<u8>),
            Seq<char>,
        >("unexpected DER tag"@),
        input.len() > 0 && input[0] == tag ==> (parse_length(input.skip(1)) matches Err(e)
            ==> parse_tlv(input, tag) == Err::<(Seq<u8>, Seq<u8>), Seq<char>>(e)),
        input.len() > 0 && input[0] == tag ==> (parse_length(input.skip(1)) matches Ok((len, size))
            ==> input.len() < 1 + size + len ==> parse_tlv(input, tag) == Err::<
            (Seq<u8>, Seq<u8>),
            Seq<char>,
        >("DER value truncated"@)),
        parse_tlv(input, tag) matches Err(e) ==> parse_only_tlv(input, tag) == Err::<
            Seq<u8>,
            Seq<char>,
        >(e),
        parse_tlv(input, tag) matches Ok((value, rest)) ==> rest.len() > 0 ==> parse_only_tlv(
            input,
            tag,
        ) == Err::<Seq<u8>, Seq<char>>("trailing bytes after TLV"@),
        input.len() == 0 ==> element_size(input) == Err::<nat, Seq<char>>("empty DER input"@),
        input.len() > 0 ==> (parse_length(input.skip(1)) matches Err(e) ==> element_size(input)
            == Err::<nat, Seq<char>>(e)),
        input.len() > 0 ==> (parse_length(input.skip(1)) matches Ok((len, size)) ==> element_size(
            input,
        ) == Ok::<nat, Seq<char>>(1 + size + len)),
{
}

/// Of a length beyond four octets the low four are written, behind the octet that counts them.
pub proof fn law_low_octets_of_a_huge_length(len: nat)
    requires
        len > 0xffff_ffff,
    ensures
        length_octets(len).len() == 5,
        length_octets(len)[0] == 0x84,
        be_value(length_octets(len).skip(1)) == len % 0x1_0000_0000,
{
    reveal(length_octets);
    let a = (len / 0x100_0000 % 0x100) as u8;
    let b = (len / 0x1_0000 % 0x100) as u8;
    let c = (len / 0x100 % 0x100) as u8;
    let d = (len % 0x100) as u8;
    let none = Seq::<u8>::empty();
    assert(length_octets(len).skip(1) =~= none.push(a).push(b).push(c).push(d));
    law_octets_are_digits(none, a);
    law_octets_are_digits(none.push(a), b);
    law_octets_are_digits(none.push(a).push(b), c);
    law_octets_are_digits(none.push(a).push(b).push(c), d);
    lemma_low_digits(len);
}

proof fn lemma_low_digits(n: nat)
    ensures
        256 * (256 * (256 * (n / 0x100_0000 % 0x100) + n / 0x1_0000 % 0x100) + n / 0x100 % 0x100) + n
            % 0x100 == n % 0x1_0000_0000,
{
    let q1 = n / 0x100;
    let q2 = n / 0x1_0000;
    let q3 = n / 0x100_0000;
    let q4 = n / 0x1_0000_0000;
    assert(q2 == q1 / 0x100);
    assert(q3 == q2 / 0x100);
    assert(q4 == q3 / 0x100);
}

} // verus!
