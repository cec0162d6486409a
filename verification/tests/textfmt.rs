use tsugumi::textfmt::{push_dec, push_escaped, push_pad4};

#[test]
fn test_pad4_widths() {
    let mut s = String::new();
    push_pad4(&mut s, 7);
    assert_eq!(s, "0007");
    let mut s = String::new();
    push_pad4(&mut s, 482);
    assert_eq!(s, "0482");
    let mut s = String::new();
    push_pad4(&mut s, 12345);
    assert_eq!(s, "12345");
}

#[test]
fn test_dec_digits() {
    let mut s = String::new();
    push_dec(&mut s, 0);
    assert_eq!(s, "0");
    let mut s = String::new();
    push_dec(&mut s, 90210);
    assert_eq!(s, "90210");
}

#[test]
fn test_xml_escaping() {
    let mut s = String::new();
    push_escaped(&mut s, "a<b>&\"c\"'d' 表");
    assert_eq!(s, "a&lt;b&gt;&amp;&quot;c&quot;&apos;d&apos; 表");
}
