use oidc_core::jose::json::{
    parse_object, read_value, skip_value, skip_ws, write_object, JsonValue, Member,
};
use oidc_core::jose::text::{push_utf8, read_number, read_string, write_number, write_string};

fn member(name: &[u8], value: JsonValue) -> Member {
    Member { name: name.to_vec(), value }
}

fn text(x: &[u8]) -> JsonValue {
    JsonValue::Str(x.to_vec())
}

fn written_string(x: &[u8]) -> Vec<u8> {
    let mut out = Vec::new();
    write_string(&mut out, x);
    out
}

fn written_number(n: u64) -> Vec<u8> {
    let mut out = Vec::new();
    write_number(&mut out, n);
    out
}

#[test]
fn strings_are_written_between_quotes() {
    assert_eq!(written_string(b""), b"\"\"".to_vec());
    assert_eq!(written_string(b"abc"), b"\"abc\"".to_vec());
    assert_eq!(written_string("é".as_bytes()), "\"é\"".as_bytes().to_vec());
}

#[test]
fn quotes_backslashes_and_controls_are_escaped() {
    assert_eq!(written_string(b"a\"b"), b"\"a\\\"b\"".to_vec());
    assert_eq!(written_string(b"a\\b"), b"\"a\\\\b\"".to_vec());
    assert_eq!(written_string(b"\n"), b"\"\\u000A\"".to_vec());
    assert_eq!(written_string(&[0x00, 0x1f]), b"\"\\u0000\\u001F\"".to_vec());
    assert_eq!(written_string(&[0x7f]), vec![b'"', 0x7f, b'"']);
}

#[test]
fn write_appends() {
    let mut out = b"x=".to_vec();
    write_string(&mut out, b"y");
    write_number(&mut out, 12);
    assert_eq!(out, b"x=\"y\"12".to_vec());
}

#[test]
fn strings_are_read_with_their_escapes() {
    assert_eq!(read_string(b"\"abc\"", 0), Some((b"abc".to_vec(), 5)));
    assert_eq!(read_string(b"xx\"abc\",", 2), Some((b"abc".to_vec(), 7)));
    assert_eq!(
        read_string(b"\"\\\"\\\\\\/\\b\\f\\n\\r\\t\"", 0),
        Some((vec![b'"', b'\\', b'/', 8, 12, 10, 13, 9], 18))
    );
    assert_eq!(read_string(b"\"\\u0041\\u007f\\u000a\"", 0), Some((vec![0x41, 0x7f, 0x0a], 20)));
}

#[test]
fn escaped_characters_are_read_as_their_utf8_bytes() {
    assert_eq!(read_string(b"\"\\u0000\"", 0), Some((vec![0x00], 8)));
    assert_eq!(read_string(b"\"\\u007F\"", 0), Some((vec![0x7f], 8)));
    assert_eq!(read_string(b"\"\\u0080\"", 0), Some((vec![0xc2, 0x80], 8)));
    assert_eq!(read_string(b"\"\\u00e9\"", 0), Some(("\u{e9}".as_bytes().to_vec(), 8)));
    assert_eq!(read_string(b"\"\\u00E9\"", 0), Some((vec![0xc3, 0xa9], 8)));
    assert_eq!(read_string(b"\"\\u0100\"", 0), Some((vec![0xc4, 0x80], 8)));
    assert_eq!(read_string(b"\"\\u07ff\"", 0), Some((vec![0xdf, 0xbf], 8)));
    assert_eq!(read_string(b"\"\\u0800\"", 0), Some((vec![0xe0, 0xa0, 0x80], 8)));
    assert_eq!(read_string(b"\"\\u20AC\"", 0), Some(("\u{20ac}".as_bytes().to_vec(), 8)));
    assert_eq!(read_string(b"\"\\ud7ff\"", 0), Some((vec![0xed, 0x9f, 0xbf], 8)));
    assert_eq!(read_string(b"\"\\ue000\"", 0), Some((vec![0xee, 0x80, 0x80], 8)));
    assert_eq!(read_string(b"\"\\uffff\"", 0), Some((vec![0xef, 0xbf, 0xbf], 8)));
    assert_eq!(
        read_string(b"\"\\ud83d\\ude00\"", 0),
        Some(("\u{1f600}".as_bytes().to_vec(), 14))
    );
    assert_eq!(
        read_string(b"\"\\uD800\\uDC00\"", 0),
        Some((vec![0xf0, 0x90, 0x80, 0x80], 14))
    );
    assert_eq!(
        read_string(b"\"\\udbff\\udfff\"", 0),
        Some(("\u{10ffff}".as_bytes().to_vec(), 14))
    );
    assert_eq!(
        read_string(b"\"Jos\\u00e9 \\u2014 \xc3\xa9\"", 0),
        Some(("Jos\u{e9} \u{2014} \u{e9}".as_bytes().to_vec(), 21))
    );
}

#[test]
fn every_character_is_written_as_std_writes_it() {
    let mut out = Vec::new();
    for cp in [0u32, 0x41, 0x7f, 0x80, 0x7ff, 0x800, 0xd7ff, 0xe000, 0xffff, 0x10000, 0x10ffff] {
        out.clear();
        push_utf8(&mut out, cp);
        let c = char::from_u32(cp).unwrap();
        assert_eq!(out, c.to_string().into_bytes(), "{:x}", cp);
    }
}

#[test]
fn strings_that_are_not_strings_are_refused() {
    assert_eq!(read_string(b"abc", 0), None);
    assert_eq!(read_string(b"\"abc", 0), None);
    assert_eq!(read_string(b"\"a\nb\"", 0), None);
    assert_eq!(read_string(b"\"\\x\"", 0), None);
    assert_eq!(read_string(b"\"\\u00\"", 0), None);
    assert_eq!(read_string(b"\"\\u00g9\"", 0), None);
    assert_eq!(read_string(b"\"\\u\"", 0), None);
    assert_eq!(read_string(b"\"\\U00e9\"", 0), None);
    // a surrogate without its partner
    assert_eq!(read_string(b"\"\\ud83d\"", 0), None);
    assert_eq!(read_string(b"\"\\ud83dx\"", 0), None);
    assert_eq!(read_string(b"\"\\ud83d\\n\"", 0), None);
    assert_eq!(read_string(b"\"\\ud83d\\u0041\"", 0), None);
    assert_eq!(read_string(b"\"\\ud83d\\ud83d\"", 0), None);
    assert_eq!(read_string(b"\"\\ude00\"", 0), None);
    assert_eq!(read_string(b"\"\\ude00\\ud83d\"", 0), None);
    assert_eq!(read_string(b"\"\\", 0), None);
    assert_eq!(read_string(b"\"a\"", 3), None);
    assert_eq!(read_string(b"\"a\"", 100), None);
}

#[test]
fn every_byte_string_is_read_back() {
    let all: Vec<u8> = (0..=255u8).collect();
    let written = written_string(&all);
    assert_eq!(read_string(&written, 0), Some((all, written.len())));
}

#[test]
fn numbers_are_written_in_decimal() {
    assert_eq!(written_number(0), b"0".to_vec());
    assert_eq!(written_number(7), b"7".to_vec());
    assert_eq!(written_number(10), b"10".to_vec());
    assert_eq!(written_number(1_700_000_000), b"1700000000".to_vec());
    assert_eq!(written_number(u64::MAX), b"18446744073709551615".to_vec());
}

#[test]
fn numbers_are_read_up_to_the_first_byte_that_is_no_digit() {
    assert_eq!(read_number(b"0", 0), Some((0, 1)));
    assert_eq!(read_number(b"123,", 0), Some((123, 3)));
    assert_eq!(read_number(b"x42}", 1), Some((42, 3)));
    assert_eq!(read_number(b"18446744073709551615", 0), Some((u64::MAX, 20)));
}

#[test]
fn numbers_that_are_not_written_so_are_refused() {
    assert_eq!(read_number(b"", 0), None);
    assert_eq!(read_number(b"x", 0), None);
    assert_eq!(read_number(b"-1", 0), None);
    assert_eq!(read_number(b"01", 0), None);
    assert_eq!(read_number(b"00", 0), None);
    assert_eq!(read_number(b"18446744073709551616", 0), None);
    assert_eq!(read_number(b"99999999999999999999999", 0), None);
    assert_eq!(read_number(b"1", 5), None);
}

#[test]
fn values_are_told_apart_by_their_first_byte() {
    assert_eq!(read_value(b"\"a\"", 0), Some((text(b"a"), 3)));
    assert_eq!(read_value(b"15", 0), Some((JsonValue::Num(15), 2)));
    assert_eq!(read_value(b"true", 0), Some((JsonValue::Bool(true), 4)));
    assert_eq!(read_value(b"false,", 0), Some((JsonValue::Bool(false), 5)));
    assert_eq!(read_value(b"[]", 0), Some((JsonValue::List(vec![]), 2)));
    assert_eq!(
        read_value(b"[\"a\",\"b\"]", 0),
        Some((JsonValue::List(vec![b"a".to_vec(), b"b".to_vec()]), 9))
    );
    assert_eq!(read_value(b"null", 0), None);
    assert_eq!(read_value(b"tru", 0), None);
    assert_eq!(read_value(b"[1]", 0), None);
    assert_eq!(read_value(b"[\"a\",]", 0), None);
    assert_eq!(read_value(b"[\"a\"", 0), None);
    assert_eq!(read_value(b"{}", 0), None);
    assert_eq!(read_value(b"", 0), None);
}

#[test]
fn objects_are_written_without_white_space() {
    assert_eq!(write_object(&vec![]), b"{}".to_vec());
    let object = vec![
        member(b"iss", text(b"https://issuer.example/")),
        member(b"exp", JsonValue::Num(2000)),
        member(b"aud", JsonValue::List(vec![b"a".to_vec(), b"b".to_vec()])),
        member(b"email_verified", JsonValue::Bool(true)),
        member(b"none", JsonValue::List(vec![])),
        member(b"no", JsonValue::Bool(false)),
    ];
    assert_eq!(
        write_object(&object),
        b"{\"iss\":\"https://issuer.example/\",\"exp\":2000,\"aud\":[\"a\",\"b\"],\"email_verified\":true,\"none\":[],\"no\":false}"
            .to_vec()
    );
}

#[test]
fn objects_are_read_back_as_they_were_written() {
    let objects = vec![
        vec![],
        vec![member(b"a", JsonValue::Num(0))],
        vec![member(b"", text(b""))],
        vec![
            member(b"a\"b", text(b"x\\y\n")),
            member(b"n", JsonValue::Num(u64::MAX)),
            member(b"l", JsonValue::List(vec![b"".to_vec(), b"]".to_vec(), b",".to_vec()])),
            member(b"t", JsonValue::Bool(true)),
            member(b"a\"b", JsonValue::Bool(false)),
            member(b"e", JsonValue::List(vec![])),
        ],
    ];
    for object in objects {
        assert_eq!(parse_object(&write_object(&object)), Some(object));
    }
}

#[test]
fn what_is_not_the_text_of_an_object_is_refused() {
    for bad in [
        &b""[..],
        b" ",
        b"{",
        b"}",
        b"[]",
        b"{}x",
        b"{} x",
        b"x{}",
        b"{\"a\":1,}",
        b"{,\"a\":1}",
        b"{\"a\":1}}",
        b"{\"a\"}",
        b"{\"a\":}",
        b"{\"a\": }",
        b"{a:1}",
        b"{\"a\":1\"b\":2}",
        b"{\"a\":1 2}",
        b"{\"a\":01}",
        b"{\"a\":1.}",
        b"{\"a\":.5}",
        b"{\"a\":+1}",
        b"{\"a\":-}",
        b"{\"a\":1e}",
        b"{\"a\":1e+}",
        b"{\"a\":nul}",
        b"{\"a\":nulls}",
        b"{\"a\":tru}",
        b"{\"a\":{}",
        b"{\"a\":[}",
        b"{\"a\":{\"b}}",
        b"{\"a\":[\"x\"",
        b"{\"a\":1\x0C}",
    ] {
        assert_eq!(parse_object(bad), None, "{:?}", String::from_utf8_lossy(bad));
    }
}

#[test]
fn white_space_between_the_parts_is_skipped() {
    assert_eq!(parse_object(b"{} "), Some(vec![]));
    assert_eq!(parse_object(b" {}"), Some(vec![]));
    assert_eq!(parse_object(b"\t{\r\n}\n"), Some(vec![]));
    let one = vec![member(b"a", JsonValue::Num(1))];
    for spaced in [
        &b"{\"a\":1 }"[..],
        b"{\"a\": 1}",
        b"{\"a\" :1}",
        b"{ \"a\":1}",
        b" \n{\t\"a\" \r: \n1 \t} \n",
    ] {
        assert_eq!(
            parse_object(spaced).as_ref(),
            Some(&one),
            "{:?}",
            String::from_utf8_lossy(spaced)
        );
    }
    assert_eq!(
        parse_object(b"{\n  \"iss\": \"i\",\n  \"aud\": [ \"x\" , \"y\" ],\n  \"ok\": true ,\n  \"none\": [ ]\n}\n"),
        Some(vec![
            member(b"iss", text(b"i")),
            member(b"aud", JsonValue::List(vec![b"x".to_vec(), b"y".to_vec()])),
            member(b"ok", JsonValue::Bool(true)),
            member(b"none", JsonValue::List(vec![])),
        ])
    );
}

#[test]
fn white_space_inside_a_string_is_kept() {
    assert_eq!(
        parse_object(b"{ \" a \" : \" b \" }"),
        Some(vec![member(b" a ", text(b" b "))])
    );
}

#[test]
fn members_of_other_kinds_are_passed_over() {
    for passed in [
        &b"{\"a\":{}}"[..],
        b"{\"a\":null}",
        b"{\"a\":1.5}",
        b"{\"a\":-1}",
        b"{\"a\":-0}",
        b"{\"a\":0.25}",
        b"{\"a\":1e10}",
        b"{\"a\":-0.5E+3}",
        b"{\"a\":2E-7 }",
        b"{\"a\":99999999999999999999999}",
        b"{\"a\":[1,2]}",
        b"{\"a\":[\"x\",1]}",
        b"{\"a\":[[\"x\"]]}",
        b"{\"a\":[null , true]}",
        b"{\"a\":{\"b\":{\"c\":[{\"d\":\"}]\\\"\"}]}}}",
        b"{\"a\": { \"b\" : 1 } , \"c\": null }",
    ] {
        assert_eq!(parse_object(passed), Some(vec![]), "{:?}", String::from_utf8_lossy(passed));
    }
}

#[test]
fn what_stands_beside_a_member_that_is_passed_over_is_read() {
    assert_eq!(
        parse_object(
            b"{\"iss\":\"i\",\"address\":{\"country\":\"NL\",\"lines\":[\"a\",\"b\"]},\"exp\":2000,\"updated_at\":1.5e9,\"middle_name\":null,\"amr\":[\"pwd\"],\"groups\":[1,2],\"ok\":false}"
        ),
        Some(vec![
            member(b"iss", text(b"i")),
            member(b"exp", JsonValue::Num(2000)),
            member(b"amr", JsonValue::List(vec![b"pwd".to_vec()])),
            member(b"ok", JsonValue::Bool(false)),
        ])
    );
}

#[test]
fn a_value_that_is_passed_over_is_found_by_its_end() {
    assert_eq!(skip_value(b"null,", 0), Some(4));
    assert_eq!(skip_value(b"true", 0), Some(4));
    assert_eq!(skip_value(b"false}", 0), Some(5));
    assert_eq!(skip_value(b"\"a\\\"b\" ", 0), Some(6));
    assert_eq!(skip_value(b"-12.50e-3,", 0), Some(9));
    assert_eq!(skip_value(b"0", 0), Some(1));
    assert_eq!(skip_value(b"012", 0), Some(1));
    assert_eq!(skip_value(b"x{\"a\":[1,\"]\"]}y", 1), Some(14));
    assert_eq!(skip_value(b"[]", 0), Some(2));
    assert_eq!(skip_value(b"[", 0), None);
    assert_eq!(skip_value(b"", 0), None);
    assert_eq!(skip_value(b"1", 1), None);
    assert_eq!(skip_value(b"1", 7), None);
    assert_eq!(skip_value(b",", 0), None);
    assert_eq!(skip_value(b":", 0), None);
    assert_eq!(skip_value(b" 1", 0), None);
    assert_eq!(skip_value(b"-", 0), None);
    assert_eq!(skip_value(b"1.", 0), None);
    assert_eq!(skip_value(b"1e", 0), None);
}

#[test]
fn white_space_is_a_space_a_tab_or_a_line_end() {
    assert_eq!(skip_ws(b" \t\r\n x", 0), 5);
    assert_eq!(skip_ws(b"x ", 0), 0);
    assert_eq!(skip_ws(b"x ", 1), 2);
    assert_eq!(skip_ws(b"\x0B\x0C", 0), 0);
    assert_eq!(skip_ws(b"", 0), 0);
}

#[test]
fn members_may_stand_in_any_order_and_more_than_once() {
    let parsed = parse_object(b"{\"b\":1,\"a\":2,\"b\":3}").unwrap();
    assert_eq!(
        parsed,
        vec![
            member(b"b", JsonValue::Num(1)),
            member(b"a", JsonValue::Num(2)),
            member(b"b", JsonValue::Num(3)),
        ]
    );
}
