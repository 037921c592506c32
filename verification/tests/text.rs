use mitmproxy_wireguard::text::push_decimal;
use mitmproxy_wireguard::text::push_hex;
use mitmproxy_wireguard::text::push_text;

#[test]
fn decimal_numbers() {
    let mut text = String::from("n=");
    push_decimal(&mut text, 0);
    push_text(&mut text, ",");
    push_decimal(&mut text, 9);
    push_text(&mut text, ",");
    push_decimal(&mut text, 10);
    push_text(&mut text, ",");
    push_decimal(&mut text, 4294967295);
    assert_eq!(text, "n=0,9,10,4294967295");
}

#[test]
fn hexadecimal_numbers() {
    let mut text = String::new();
    push_hex(&mut text, 0);
    push_text(&mut text, " ");
    push_hex(&mut text, 0xf);
    push_text(&mut text, " ");
    push_hex(&mut text, 0x10);
    push_text(&mut text, " ");
    push_hex(&mut text, 0xdb8);
    push_text(&mut text, " ");
    push_hex(&mut text, 0xffff);
    assert_eq!(text, "0 f 10 db8 ffff");
}
