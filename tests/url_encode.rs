use abbrws::url_encode::must_escape;
use abbrws::url_encode_query_value;

fn enc(s: &str) -> String {
    url_encode_query_value(s.as_bytes()).to_string()
}

#[test]
fn test_url_encode_query_value() {
    assert!("aap" == enc("aap"));
    assert!("%23" == enc("#"));
    assert!("%25" == enc("%"));
    assert!("%26" == enc("&"));
    assert!("%3D" == enc("="));
    assert!("%23%25%26%3D" == enc("#%&="));
    assert!("aap" == enc("aap"));
    assert!("aap%3Dnoot" == enc("aap=noot"));
    assert!("aap%3Dnoot%26" == enc("aap=noot&"));
    assert!("%23%25%26%3Daap%23%25%26%3Dmies%23%25%26%3D" == enc("#%&=aap#%&=mies#%&="));
}

#[test]
fn url_encode_empty() {
    assert_eq!(enc(""), "");
}

#[test]
fn url_encode_non_ascii_bytes() {
    assert_eq!(enc("é"), "%C3%A9");
    assert_eq!(url_encode_query_value(&[0x80, 0xFF, b'a']).to_string(), "%80%FFa");
}

#[test]
fn url_encode_plain_is_idempotent() {
    let once = enc("aap noot/mies?x");
    assert_eq!(once, "aap noot/mies?x");
    assert_eq!(enc(&once), once);
}

#[test]
fn url_encode_reserved_is_not_idempotent() {
    let once = enc("a=b");
    assert_eq!(once, "a%3Db");
    assert_eq!(enc(&once), "a%253Db");
}

#[test]
fn must_escape_set() {
    for b in 0u8..=255 {
        let expected = b == b'#' || b == b'%' || b == b'&' || b == b'=' || b > 127;
        assert_eq!(must_escape(b), expected, "byte {}", b);
    }
}

#[test]
fn encoding_is_ascii_and_decodes_back() {
    let data: Vec<u8> = (0u8..=255).collect();
    let text = url_encode_query_value(&data).to_string();
    assert!(text.is_ascii());
    let bytes = text.as_bytes();
    let mut decoded = Vec::new();
    let mut i = 0;
    while i < bytes.len() {
        if bytes[i] == b'%' {
            decoded.push(u8::from_str_radix(&text[i + 1..i + 3], 16).unwrap());
            i += 3;
        } else {
            decoded.push(bytes[i]);
            i += 1;
        }
    }
    assert_eq!(decoded, data);
}
