use std::collections::HashMap;

use formbody::error::FormError;
use formbody::escape::{hex_value, replace_special_characters};
use formbody::fields::FormResult;
use formbody::forms::{add_field, aggregate, find_byte, parse_form, t, tokenize, Span};

fn as_map(form: &FormResult) -> HashMap<String, Vec<u8>> {
    let mut map = HashMap::new();
    for field in form.fields() {
        map.insert(field.name.clone(), field.value.clone());
    }
    map
}

fn expect(pairs: &[(&str, &[u8])]) -> HashMap<String, Vec<u8>> {
    let mut map = HashMap::new();
    for (name, value) in pairs {
        map.insert(name.to_string(), value.to_vec());
    }
    map
}

fn decode(body: &[u8]) -> Result<HashMap<String, Vec<u8>>, FormError> {
    match parse_form(body) {
        Ok(form) => Ok(as_map(&form)),
        Err(e) => Err(e),
    }
}

fn span(start: usize, end: usize) -> Span {
    Span { start, end }
}

#[test]
fn two_fields() {
    assert_eq!(decode(b"a=1&b=2"), Ok(expect(&[("a", b"1"), ("b", b"2")])));
}

#[test]
fn escaped_plus_is_kept() {
    assert_eq!(decode(b"name=va%2Blue"), Ok(expect(&[("name", b"va+lue")])));
}

#[test]
fn bare_plus_is_a_space() {
    assert_eq!(decode(b"q=a+b"), Ok(expect(&[("q", b"a b")])));
}

#[test]
fn escaped_space() {
    assert_eq!(decode(b"x=%20"), Ok(expect(&[("x", b" ")])));
}

#[test]
fn empty_body_is_an_empty_map() {
    let form = parse_form(b"").unwrap();
    assert!(form.is_empty());
    assert_eq!(form.fields().len(), 0);
    assert_eq!(decode(b""), Ok(HashMap::new()));
}

#[test]
fn last_value_wins() {
    assert_eq!(decode(b"a=1&a=2"), Ok(expect(&[("a", b"2")])));
    let form = parse_form(b"a=1&a=2").unwrap();
    assert_eq!(form.get("a"), Some(&b"2".to_vec()));
}

#[test]
fn trailing_ampersand_is_ignored() {
    assert_eq!(decode(b"a=1&"), Ok(expect(&[("a", b"1")])));
}

#[test]
fn name_without_separator_fails() {
    assert_eq!(decode(b"a=1&b"), Err(FormError::MissingSeparator));
    assert!(parse_form(b"a=1&b").is_err());
    assert_eq!(decode(b"a"), Err(FormError::MissingSeparator));
    assert_eq!(decode(b"&"), Err(FormError::MissingSeparator));
    assert_eq!(decode(b"a=1&&"), Err(FormError::MissingSeparator));
}

#[test]
fn truncated_escape_fails() {
    assert_eq!(decode(b"a=%"), Err(FormError::TruncatedEscape));
    assert_eq!(decode(b"a=%4"), Err(FormError::TruncatedEscape));
    assert_eq!(decode(b"a=%&b=12"), Err(FormError::TruncatedEscape));
    assert_eq!(decode(b"%4=1"), Err(FormError::TruncatedEscape));
}

#[test]
fn invalid_hex_digit_fails() {
    assert_eq!(decode(b"a=%zz"), Err(FormError::InvalidHexDigit));
    assert_eq!(decode(b"a=%4g"), Err(FormError::InvalidHexDigit));
    assert_eq!(decode(b"a=%+1"), Err(FormError::InvalidHexDigit));
    assert_eq!(decode(b"%g0=1"), Err(FormError::InvalidHexDigit));
}

#[test]
fn invalid_name_text_fails() {
    assert_eq!(decode(b"%ff=1"), Err(FormError::InvalidUtf8Name));
    assert_eq!(decode(b"a=1&%c3=2"), Err(FormError::InvalidUtf8Name));
}

#[test]
fn values_need_not_be_text() {
    assert_eq!(decode(b"a=%ff%00"), Ok(expect(&[("a", &[0xff, 0x00])])));
}

#[test]
fn names_are_decoded_too() {
    assert_eq!(decode(b"file+type=x"), Ok(expect(&[("file type", b"x")])));
    assert_eq!(decode(b"caf%C3%A9=1"), Ok(expect(&[("caf\u{e9}", b"1")])));
    assert_eq!(decode(b"a%3Db=c%26d"), Ok(expect(&[("a=b", b"c&d")])));
}

#[test]
fn empty_names_and_values() {
    assert_eq!(decode(b"name="), Ok(expect(&[("name", b"")])));
    assert_eq!(decode(b"=v"), Ok(expect(&[("", b"v")])));
    assert_eq!(decode(b"a=&b="), Ok(expect(&[("a", b""), ("b", b"")])));
    assert_eq!(decode(b"a=1=2"), Ok(expect(&[("a", b"1=2")])));
    assert_eq!(decode(b"a=1&&b=2"), Ok(expect(&[("a", b"1"), ("&b", b"2")])));
}

#[test]
fn leftmost_failure_decides() {
    assert_eq!(decode(b"a=%zz&b"), Err(FormError::InvalidHexDigit));
    assert_eq!(decode(b"a=%zz&b=%"), Err(FormError::InvalidHexDigit));
    assert_eq!(decode(b"a=%&b=%zz"), Err(FormError::TruncatedEscape));
    assert_eq!(decode(b"%ff=%zz"), Err(FormError::InvalidUtf8Name));
    assert_eq!(decode(b"%zz"), Err(FormError::MissingSeparator));
}

#[test]
fn escaped_carriage_return_is_dropped() {
    assert_eq!(replace_special_characters(b"a%0D%0Ab"), Ok(b"a\nb".to_vec()));
    assert_eq!(replace_special_characters(b"%0d"), Ok(Vec::new()));
    assert_eq!(replace_special_characters(b"a\rb"), Ok(b"a\rb".to_vec()));
    assert_eq!(decode(b"t=x%0D%0Ay"), Ok(expect(&[("t", b"x\ny")])));
}

#[test]
fn decoder_rules() {
    assert_eq!(replace_special_characters(b""), Ok(Vec::new()));
    assert_eq!(replace_special_characters(b"abc"), Ok(b"abc".to_vec()));
    assert_eq!(replace_special_characters(b"a+b+"), Ok(b"a b ".to_vec()));
    assert_eq!(replace_special_characters(b"%41%4a%4A%7e"), Ok(b"AJJ~".to_vec()));
    assert_eq!(replace_special_characters(b"%00%fF"), Ok(vec![0x00, 0xff]));
    assert_eq!(replace_special_characters(b"a=b&c"), Ok(b"a=b&c".to_vec()));
    assert_eq!(replace_special_characters(b"%"), Err(FormError::TruncatedEscape));
    assert_eq!(replace_special_characters(b"ab%1"), Err(FormError::TruncatedEscape));
    assert_eq!(replace_special_characters(b"%1x"), Err(FormError::InvalidHexDigit));
    assert_eq!(replace_special_characters(b"%x1"), Err(FormError::InvalidHexDigit));
    assert_eq!(replace_special_characters(b"% 1"), Err(FormError::InvalidHexDigit));
    assert_eq!(replace_special_characters(b"%zz%"), Err(FormError::InvalidHexDigit));
    assert_eq!(replace_special_characters(b"%4"), Err(FormError::TruncatedEscape));
}

#[test]
fn decoding_twice_is_not_decoding_once() {
    let once = replace_special_characters(b"%2B").unwrap();
    assert_eq!(once, b"+".to_vec());
    let twice = replace_special_characters(&once).unwrap();
    assert_eq!(twice, b" ".to_vec());
    assert_ne!(once, twice);
    let once = replace_special_characters(b"%2541").unwrap();
    assert_eq!(once, b"%41".to_vec());
    assert_eq!(replace_special_characters(&once), Ok(b"A".to_vec()));
}

#[test]
fn output_is_never_longer() {
    let inputs: [&[u8]; 4] = [b"a+b", b"%41%42", b"%0D%0D", b"plain"];
    for input in inputs {
        let out = replace_special_characters(input).unwrap();
        assert!(out.len() <= input.len());
    }
    assert_eq!(replace_special_characters(b"plain"), Ok(b"plain".to_vec()));
}

#[test]
fn hex_digits() {
    assert_eq!(hex_value(b'0'), Some(0));
    assert_eq!(hex_value(b'9'), Some(9));
    assert_eq!(hex_value(b'a'), Some(10));
    assert_eq!(hex_value(b'f'), Some(15));
    assert_eq!(hex_value(b'A'), Some(10));
    assert_eq!(hex_value(b'F'), Some(15));
    assert_eq!(hex_value(b'g'), None);
    assert_eq!(hex_value(b'G'), None);
    assert_eq!(hex_value(b'/'), None);
    assert_eq!(hex_value(b':'), None);
    assert_eq!(hex_value(b'@'), None);
    assert_eq!(hex_value(b'`'), None);
    assert_eq!(hex_value(b'+'), None);
}

#[test]
fn byte_search() {
    assert_eq!(find_byte(b"a=b=c", b'=', 0), 1);
    assert_eq!(find_byte(b"a=b=c", b'=', 1), 1);
    assert_eq!(find_byte(b"a=b=c", b'=', 2), 3);
    assert_eq!(find_byte(b"a=b=c", b'=', 4), 5);
    assert_eq!(find_byte(b"a=b=c", b'=', 5), 5);
    assert_eq!(find_byte(b"", b'=', 0), 0);
}

#[test]
fn tokenizer_spans() {
    assert_eq!(tokenize(b""), Ok(vec![]));
    assert_eq!(tokenize(b"a=1&b=2"), Ok(vec![(span(0, 1), span(2, 3)), (span(4, 5), span(6, 7))]));
    assert_eq!(tokenize(b"a=1&"), Ok(vec![(span(0, 1), span(2, 3))]));
    assert_eq!(tokenize(b"name="), Ok(vec![(span(0, 4), span(5, 5))]));
    assert_eq!(tokenize(b"=&="), Ok(vec![(span(0, 0), span(1, 1)), (span(2, 2), span(3, 3))]));
    assert_eq!(tokenize(b"a%3Db=%26"), Ok(vec![(span(0, 5), span(6, 9))]));
    assert_eq!(tokenize(b"a=%"), Ok(vec![(span(0, 1), span(2, 3))]));
    assert_eq!(tokenize(b"a=1&b"), Err(FormError::MissingSeparator));
    assert_eq!(tokenize(b"abc"), Err(FormError::MissingSeparator));
}

#[test]
fn aggregate_of_spans() {
    let body = b"a=1&b=%32&a=x+y";
    let pairs = tokenize(body).unwrap();
    let form = aggregate(body, &pairs).unwrap();
    assert_eq!(as_map(&form), expect(&[("a", b"x y"), ("b", b"2")]));
    assert_eq!(as_map(&form), decode(body).unwrap());

    let body = b"a=1&b=%3";
    let pairs = tokenize(body).unwrap();
    assert_eq!(aggregate(body, &pairs).err(), Some(FormError::TruncatedEscape));
    assert_eq!(aggregate(b"abc", &vec![]).map(|f| as_map(&f)), Ok(HashMap::new()));
    let own = vec![(span(2, 3), span(0, 1))];
    assert_eq!(aggregate(b"a=b", &own).map(|f| as_map(&f)), Ok(expect(&[("b", b"a")])));
}

#[test]
fn one_field_at_a_time() {
    let mut form = FormResult::new();
    assert_eq!(add_field(&mut form, b"k+1", b"%41"), Ok(()));
    assert_eq!(form.get("k 1"), Some(&b"A".to_vec()));
    assert_eq!(add_field(&mut form, b"k", b"%4"), Err(FormError::TruncatedEscape));
    assert_eq!(add_field(&mut form, b"%", b"1"), Err(FormError::TruncatedEscape));
    assert_eq!(add_field(&mut form, b"%80", b"1"), Err(FormError::InvalidUtf8Name));
    assert!(!form.contains_key("k"));
    assert_eq!(as_map(&form), expect(&[("k 1", b"A")]));
}

#[test]
fn mapping_operations() {
    let mut form = FormResult::new();
    assert!(form.is_empty());
    assert_eq!(form.get("a"), None);
    assert!(!form.contains_key("a"));
    form.insert("a".to_string(), b"1".to_vec());
    form.insert("b".to_string(), b"2".to_vec());
    form.insert("a".to_string(), b"3".to_vec());
    assert!(!form.is_empty());
    assert_eq!(form.get("a"), Some(&b"3".to_vec()));
    assert_eq!(form.get("b"), Some(&b"2".to_vec()));
    assert_eq!(form.get("c"), None);
    assert!(form.contains_key("b"));
    assert_eq!(form.fields().len(), 3);
    assert_eq!(form.len(), 2);
    assert_eq!(as_map(&form), expect(&[("a", b"3"), ("b", b"2")]));
}

#[test]
fn number_of_names() {
    assert_eq!(FormResult::new().len(), 0);
    assert_eq!(parse_form(b"").unwrap().len(), 0);
    assert_eq!(parse_form(b"a=1").unwrap().len(), 1);
    assert_eq!(parse_form(b"a=1&a=2&a=3").unwrap().len(), 1);
    assert_eq!(parse_form(b"a=1&b=2&a=3&c=4&b=5").unwrap().len(), 3);
    assert_eq!(parse_form(b"a=1&A=2").unwrap().len(), 2);
}

#[test]
fn every_byte_is_accepted() {
    assert!(t(0u8));
    assert!(t(b'&'));
    assert!(t("anything"));
}

#[test]
fn many_fields() {
    let mut body: Vec<u8> = Vec::new();
    for i in 0..2000 {
        body.extend_from_slice(format!("k{}=v%2B{}&", i, i).as_bytes());
    }
    let map = decode(&body).unwrap();
    assert_eq!(map.len(), 2000);
    assert_eq!(map.get("k1999"), Some(&b"v+1999".to_vec()));
    assert_eq!(map.get("k0"), Some(&b"v+0".to_vec()));
}

#[test]
fn failure_messages() {
    assert_eq!(FormError::MissingSeparator.message(), "field without '=' separator");
    assert_eq!(FormError::TruncatedEscape.message(), "unexpected end of input after '%'");
    assert_eq!(FormError::InvalidHexDigit.message(), "invalid hexadecimal digit after '%'");
    assert_eq!(FormError::InvalidUtf8Name.message(), "field name is not valid UTF-8");
}
