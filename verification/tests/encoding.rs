use billing_gateway::encoding::{encode_form, url_encode};

#[test]
fn unreserved_bytes_pass_through() {
    let input = b"ABCXYZabcxyz0189-_.~";
    assert_eq!(url_encode(input), input.to_vec());
}

#[test]
fn reserved_bytes_are_escaped_uppercase() {
    assert_eq!(url_encode(b" "), b"%20".to_vec());
    assert_eq!(url_encode(b"&"), b"%26".to_vec());
    assert_eq!(url_encode(b"="), b"%3D".to_vec());
    assert_eq!(url_encode(b"+"), b"%2B".to_vec());
    assert_eq!(url_encode(b"/"), b"%2F".to_vec());
    assert_eq!(url_encode(b"%"), b"%25".to_vec());
}

#[test]
fn empty_input_encodes_to_empty() {
    assert_eq!(url_encode(b""), Vec::<u8>::new());
}

#[test]
fn reserved_characters_in_an_id_are_escaped() {
    // a crafted id with form metacharacters cannot smuggle extra fields
    assert_eq!(url_encode(b"price_123&x=1"), b"price_123%26x%3D1".to_vec());
}

#[test]
fn multibyte_input_is_escaped_bytewise() {
    // U+00E9 is 0xC3 0xA9 in UTF-8
    assert_eq!(url_encode("é".as_bytes()), b"%C3%A9".to_vec());
}

fn decode_form_encoding(s: &[u8]) -> Option<Vec<u8>> {
    // the decoder a form-encoding consumer applies, as tests model it
    let mut out = Vec::new();
    let mut i = 0;
    while i < s.len() {
        match s[i] {
            b'%' => {
                if i + 2 >= s.len() {
                    return None;
                }
                let hex = std::str::from_utf8(&s[i + 1..i + 3]).ok()?;
                out.push(u8::from_str_radix(hex, 16).ok()?);
                i += 3;
            }
            b'+' => {
                out.push(b' ');
                i += 1;
            }
            b => {
                out.push(b);
                i += 1;
            }
        }
    }
    Some(out)
}

#[test]
fn decoding_recovers_the_original() {
    for input in [
        &b"price_123&x=1"[..],
        b"a b+c",
        b"100% ~pure~",
        "déjà vu".as_bytes(),
        b"",
    ] {
        assert_eq!(decode_form_encoding(&url_encode(input)).unwrap(), input.to_vec());
    }
}

#[test]
fn form_bodies_join_encoded_pairs() {
    let fields = vec![
        (b"a".to_vec(), b"b c".to_vec()),
        (b"k&".to_vec(), b"v=".to_vec()),
    ];
    assert_eq!(encode_form(&fields), b"a=b%20c&k%26=v%3D".to_vec());
}

#[test]
fn empty_form_is_empty() {
    assert_eq!(encode_form(&Vec::new()), Vec::<u8>::new());
}
