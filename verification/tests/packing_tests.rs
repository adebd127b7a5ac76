use dll_proxy::dll_proxy_builder::DllProxyBuilder;

#[test]
fn binary_header_empty_file() {
    let b = DllProxyBuilder::new("sample".to_string(), Vec::new(), true);
    assert_eq!(
        b.generate_cc_binary_header(&[]),
        "#pragma once\n#include <cstdint>\n\nuint8_t sample_binary[] = {};"
    );
}

#[test]
fn binary_header_single_byte() {
    let b = DllProxyBuilder::new("sample".to_string(), Vec::new(), true);
    assert_eq!(
        b.generate_cc_binary_header(&[0xff]),
        "#pragma once\n#include <cstdint>\n\nuint8_t sample_binary[] = {0xff};"
    );
}

#[test]
fn binary_header_bytes_exact() {
    let b = DllProxyBuilder::new("sample".to_string(), Vec::new(), true);
    assert_eq!(
        b.generate_cc_binary_header(&[0x00, 0x1f, 0xa5]),
        "#pragma once\n#include <cstdint>\n\nuint8_t sample_binary[] = {0x00, 0x1f, 0xa5};"
    );
}

#[test]
fn binary_header_round_trip() {
    let bytes: Vec<u8> = (0u16..=255u16).map(|b| b as u8).collect();
    let b = DllProxyBuilder::new("sample".to_string(), Vec::new(), true);
    let text = b.generate_cc_binary_header(&bytes);
    let open = text.find('{').unwrap();
    let close = text.rfind('}').unwrap();
    let decoded: Vec<u8> = text[open + 1..close]
        .split(", ")
        .map(|lit| u8::from_str_radix(lit.trim_start_matches("0x"), 16).unwrap())
        .collect();
    assert_eq!(decoded, bytes);
}

#[test]
fn binary_header_literals_two_digits_each() {
    let b = DllProxyBuilder::new("sample".to_string(), Vec::new(), true);
    let text = b.generate_cc_binary_header(&[0x01, 0x02]);
    assert!(text.contains("{0x01, 0x02}"));
}
