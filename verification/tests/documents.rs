use digidoc::digidoc::strip_tag_prefixes;
use digidoc::text::{
    decimal_text, find_from, find_last, insert_before_last, remove_white_space, replace_first_char,
};
use digidoc::xmldsig::xml::{
    escape_text, escape_value, write_algorithm_element, write_attribute, write_element,
    write_text_element,
};
use digidoc::xmldsig::{
    CanonicalizationMethod, DigestMethod, Reference, SignatureMethod, SignedInfo, Transform,
    Transforms,
};
use digidoc::{SignatureError, Timestamp};
use serde::ser::{Serialize, SerializeStruct, Serializer};

/// An element with one attribute and one child with text.
struct Sample<'a> {
    value: &'a str,
    content: &'a str,
}

impl<'a> Serialize for Sample<'a> {
    fn serialize<S: Serializer>(&self, serializer: S) -> Result<S::Ok, S::Error> {
        let mut s = serializer.serialize_struct("ds:Sample", 2)?;
        s.serialize_field("@Value", self.value)?;
        s.serialize_field("Child", self.content)?;
        s.end()
    }
}

/// An element with an attribute and text.
struct Value<'a> {
    id: &'a str,
    text: &'a str,
}

impl<'a> Serialize for Value<'a> {
    fn serialize<S: Serializer>(&self, serializer: S) -> Result<S::Ok, S::Error> {
        let mut s = serializer.serialize_struct("ds:Value", 2)?;
        s.serialize_field("@Id", self.id)?;
        s.serialize_field("$text", self.text)?;
        s.end()
    }
}

#[test]
fn elements_are_written_as_quick_xml_writes_them() {
    let texts = ["", "plain", "a < b && c > d", "\"quoted\" 'text'", "Tõnu ☃", "two\nlines\tand tab", " spaces "];
    for value in texts {
        for content in texts {
            let expected = quick_xml::se::to_string(&Sample { value, content }).unwrap();
            let child = write_text_element("Child", content);
            let written = write_element("ds:Sample", &write_attribute("Value", value), &child);
            assert_eq!(written, expected);

            let expected = quick_xml::se::to_string(&Value { id: value, text: content }).unwrap();
            let written =
                write_element("ds:Value", &write_attribute("Id", value), &escape_text(content));
            assert_eq!(written, expected);
        }
    }
}

#[test]
fn special_characters_are_escaped() {
    assert_eq!(escape_text("a<b>&\"'"), "a&lt;b&gt;&amp;\"'");
    assert_eq!(escape_value("a<b>&\"'"), "a&lt;b&gt;&amp;&quot;'");
    assert_eq!(write_attribute("URI", "x\"y"), " URI=\"x&quot;y\"");
    assert_eq!(write_element("a", "", ""), "<a/>");
    assert_eq!(write_element("a", " b=\"c\"", "d"), "<a b=\"c\">d</a>");
    assert_eq!(
        write_algorithm_element("ds:DigestMethod", "urn:x"),
        "<ds:DigestMethod Algorithm=\"urn:x\"/>"
    );
}

#[test]
fn signed_info_is_written() {
    let info = SignedInfo {
        xmlns_asic: None,
        xmlns_ds: Some("http://www.w3.org/2000/09/xmldsig#".to_string()),
        xmlns_xades: None,
        canonicalization_method: CanonicalizationMethod { algorithm: "urn:c14n".to_string() },
        signature_method: SignatureMethod { algorithm: "urn:sign".to_string() },
        references: vec![
            Reference {
                id: Some("R0".to_string()),
                reference_type: None,
                uri: "a&b.txt".to_string(),
                transforms: None,
                digest_method: DigestMethod { algorithm: "urn:digest".to_string() },
                digest_value: "AAAA".to_string(),
            },
            Reference {
                id: None,
                reference_type: Some("urn:type".to_string()),
                uri: "#p".to_string(),
                transforms: Some(Transforms {
                    transform: vec![Transform { algorithm: "urn:t".to_string() }],
                }),
                digest_method: DigestMethod { algorithm: "urn:digest".to_string() },
                digest_value: "BBBB".to_string(),
            },
        ],
    };
    assert_eq!(
        info.to_xml(),
        "<ds:SignedInfo xmlns:ds=\"http://www.w3.org/2000/09/xmldsig#\">\
         <ds:CanonicalizationMethod Algorithm=\"urn:c14n\"/>\
         <ds:SignatureMethod Algorithm=\"urn:sign\"/>\
         <ds:Reference Id=\"R0\" URI=\"a&amp;b.txt\">\
         <ds:DigestMethod Algorithm=\"urn:digest\"/><ds:DigestValue>AAAA</ds:DigestValue>\
         </ds:Reference>\
         <ds:Reference Type=\"urn:type\" URI=\"#p\">\
         <ds:Transforms><ds:Transform Algorithm=\"urn:t\"/></ds:Transforms>\
         <ds:DigestMethod Algorithm=\"urn:digest\"/><ds:DigestValue>BBBB</ds:DigestValue>\
         </ds:Reference></ds:SignedInfo>"
    );
}

#[test]
fn default_elements_are_empty() {
    let info = SignedInfo::default();
    assert_eq!(info.references.len(), 0);
    assert_eq!(info.signature_method.algorithm, "");
}

#[test]
fn prefixes_of_names_are_taken_off() {
    assert_eq!(strip_tag_prefixes("<ds:Foo>text</ds:Foo>"), "<Foo>text</Foo>");
    assert_eq!(
        strip_tag_prefixes("<asic:A><xades:B/><xades:C d=\"e\"/></asic:A>"),
        "<A><B/><C d=\"e\"/></A>"
    );
    assert_eq!(strip_tag_prefixes("<a ds:b='c'\n xades:d = \"e\" />"), "<a b='c'\n d = \"e\" />");
}

#[test]
fn declarations_of_prefixes_stay() {
    assert_eq!(
        strip_tag_prefixes("<ds:A xmlns:ds=\"urn:ds:x\" xmlns:asic=\"asic:\"/>"),
        "<A xmlns:ds=\"urn:ds:x\" xmlns:asic=\"asic:\"/>"
    );
}

#[test]
fn text_and_values_keep_what_looks_like_a_prefix() {
    assert_eq!(strip_tag_prefixes("<a>ds: asic: xades:</a>"), "<a>ds: asic: xades:</a>");
    assert_eq!(
        strip_tag_prefixes("<a b=\"> ds:c <\" d='\"ds:'>ds:e</a>"),
        "<a b=\"> ds:c <\" d='\"ds:'>ds:e</a>"
    );
    assert_eq!(strip_tag_prefixes("ds:Foo"), "ds:Foo");
    assert_eq!(strip_tag_prefixes("Tõnu <ds:a>☃</ds:a>"), "Tõnu <a>☃</a>");
    assert_eq!(strip_tag_prefixes(""), "");
}

#[test]
fn other_prefixes_stay() {
    assert_eq!(strip_tag_prefixes("<xds:Foo/><a:ds/>"), "<xds:Foo/><a:ds/>");
}

#[test]
fn other_markup_stays() {
    let kept = "<?xml version=\"1.0\" ds:?><!-- <ds:a> ds:b --><![CDATA[<ds:c>]]>";
    assert_eq!(strip_tag_prefixes(&format!("{}<ds:d/>", kept)), format!("{}<d/>", kept));
}

#[test]
fn prefixes_of_declared_names_are_taken_off() {
    assert_eq!(strip_tag_prefixes("<!DOCTYPE ds:x><ds:x/>"), "<!DOCTYPE x><x/>");
    assert_eq!(strip_tag_prefixes("<!ELEMENT ds:b ANY>"), "<!ELEMENT b ANY>");
    assert_eq!(
        strip_tag_prefixes(
            "<!DOCTYPE asic:x SYSTEM \"ds:u>\" [ <!-- ds:a -->\n\
             <!ELEMENT ds:b (ds:c|(xades:d,ds:e)*)> <!ATTLIST ds:b ds:f (ds:g|ds:h) 'ds:g'>\n\
             <!ENTITY ds:i \"<ds:j/>\"> ]> <ds:b/>"
        ),
        "<!DOCTYPE x SYSTEM \"ds:u>\" [ <!-- ds:a -->\n\
         <!ELEMENT b (c|(d,e)*)> <!ATTLIST b f (ds:g|ds:h) 'ds:g'>\n\
         <!ENTITY ds:i \"<ds:j/>\"> ]> <b/>"
    );
}

#[test]
fn numbers_are_written_in_decimal() {
    for n in [0u64, 7, 10, 99, 100, 12345, u64::MAX] {
        assert_eq!(decimal_text(n), n.to_string());
    }
}

#[test]
fn parts_are_found_and_inserted() {
    assert_eq!(find_from("abcabc", "bc", 0), Some(1));
    assert_eq!(find_from("abcabc", "bc", 2), Some(4));
    assert_eq!(find_from("abcabc", "x", 0), None);
    assert_eq!(find_last("abcabc", "bc"), Some(4));
    assert_eq!(find_last("õõ", "õ"), Some(1));
    assert_eq!(insert_before_last("<a></a></a>", "</a>", "!"), Some("<a></a>!</a>".to_string()));
    assert_eq!(insert_before_last("<a>", "</a>", "!"), None);
    assert_eq!(replace_first_char("S0-S0", 'S', 'N'), "N0-S0");
    assert_eq!(replace_first_char("abc", 'S', 'N'), "abc");
}

#[test]
fn white_space_is_what_std_says() {
    let text: String = (0u32..0x3100).filter_map(char::from_u32).collect();
    let expected: String = text.chars().filter(|c| !c.is_whitespace()).collect();
    assert!(expected.len() < text.len());
    assert_eq!(remove_white_space(&text), expected);
    assert_eq!(remove_white_space(" a\tb\nc\r\u{a0}d\u{2003}e "), "abcde");
}

#[test]
fn errors_describe_themselves() {
    let text = |s: &str| s.to_string();
    let cases = [
        (
            SignatureError::KeyLoadingError(text("k.pem"), text("gone")),
            "Failed to load key from file 'k.pem': gone",
        ),
        (SignatureError::KeyParsingError(text("x")), "Failed to parse key: x"),
        (SignatureError::XmlSerializationError(text("x")), "Failed to serialize data to XML: x"),
        (SignatureError::XmlParsingError(text("x")), "Failed to parse XML: x"),
        (SignatureError::XmlDeserializationError(text("x")), "Failed to deserialize XML: x"),
        (SignatureError::XmlStructureError(text("x")), "XML structure error: x"),
        (SignatureError::SigningError(text("x")), "Failed to create signature: x"),
        (SignatureError::VerificationError(text("x")), "Signature verification failed: x"),
        (
            SignatureError::CryptoVerificationError(text("x")),
            "Cryptographic signature check failed: x",
        ),
        (
            SignatureError::DigestMismatch(text("a.txt")),
            "Digest verification failed for reference URI 'a.txt'",
        ),
        (SignatureError::Base64Error(text("x")), "Failed to encode/decode Base64: x"),
        (SignatureError::Utf8Error(text("x")), "Invalid UTF-8 sequence: x"),
        (SignatureError::StrUtf8Error(text("x")), "Invalid UTF-8 sequence: x"),
        (SignatureError::IoError(text("x")), "I/O error: x"),
        (SignatureError::UnsupportedError(text("x")), "Unsupported algorithm or key type: x"),
        (
            SignatureError::MissingElement(text("x")),
            "Missing required XML element or attribute: x",
        ),
        (
            SignatureError::ReferenceNotFound(text("x")),
            "Could not find referenced data for URI: x",
        ),
        (SignatureError::CanonicalizationError(text("x")), "Canonicalization error: x"),
        (SignatureError::GeneralError(text("x")), "General error: x"),
    ];
    for (error, message) in cases {
        assert_eq!(error.to_string(), message);
    }
}

#[test]
fn times_are_written_and_read() {
    let time = Timestamp::from_timestamp(1_768_478_400, 0).unwrap();
    assert_eq!(time.to_rfc3339(), "2026-01-15T12:00:00+00:00");
    let read = Timestamp::parse_rfc3339("2026-01-15T14:00:00.5+02:00").unwrap();
    assert_eq!((read.timestamp(), read.timestamp_subsec_nanos()), (1_768_478_400, 500_000_000));
    assert!(time.is_earlier_than(&read));
    assert!(!read.is_earlier_than(&time));
    assert!(!time.is_earlier_than(&time));
    for text in ["", "2026-01-15", "2026-01-15T12:00:00"] {
        let expected = chrono::DateTime::parse_from_rfc3339(text).unwrap_err().to_string();
        assert_eq!(Timestamp::parse_rfc3339(text).unwrap_err(), expected);
    }
}

#[test]
fn times_out_of_the_calendar_are_refused() {
    for (secs, nanos) in [
        (8_210_266_876_799, 0),
        (8_210_266_876_800, 0),
        (-8_334_601_228_800, 0),
        (-8_334_601_228_801, 0),
        (0, 999_999_999),
        (0, 1_000_000_000),
        (59, 1_999_999_999),
        (59, 2_000_000_000),
        (-1, 1_500_000_000),
        (i64::MAX, 0),
        (i64::MIN, 0),
    ] {
        let known = chrono::DateTime::from_timestamp(secs, nanos).is_some();
        let documented = (-8_334_601_228_800..=8_210_266_876_799).contains(&secs)
            && nanos < 2_000_000_000
            && (nanos < 1_000_000_000 || secs.rem_euclid(60) == 59);
        assert_eq!(known, documented);
        assert_eq!(Timestamp::from_timestamp(secs, nanos).is_some(), known);
    }
}
