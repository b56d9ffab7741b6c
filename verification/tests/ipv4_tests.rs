use srun_client::ipv4::Ipv4;

#[test]
fn ipv4_text_is_dotted_decimal() {
    assert_eq!(Ipv4 { a: 10, b: 0, c: 0, d: 5 }.to_text(), "10.0.0.5");
    assert_eq!(Ipv4 { a: 255, b: 255, c: 255, d: 255 }.to_text(), "255.255.255.255");
    assert_eq!(Ipv4 { a: 0, b: 0, c: 0, d: 0 }.to_text(), "0.0.0.0");
    assert_eq!(Ipv4 { a: 192, b: 168, c: 1, d: 12 }.to_text(), "192.168.1.12");
}

#[test]
fn ipv4_parse_reads_what_to_text_writes() {
    assert_eq!(Ipv4::parse("10.0.0.5"), Some(Ipv4 { a: 10, b: 0, c: 0, d: 5 }));
    assert_eq!(Ipv4::parse("255.255.255.255"), Some(Ipv4 { a: 255, b: 255, c: 255, d: 255 }));
    assert_eq!(Ipv4::parse("0.0.0.0"), Some(Ipv4 { a: 0, b: 0, c: 0, d: 0 }));
    for a in [0u8, 1, 9, 10, 99, 100, 199, 200, 255] {
        for d in [0u8, 7, 42, 128, 255] {
            let ip = Ipv4 { a, b: d, c: a, d };
            assert_eq!(Ipv4::parse(&ip.to_text()), Some(ip));
        }
    }
}

#[test]
fn ipv4_parse_refuses_everything_else() {
    for text in [
        "", ".", "1", "1.2.3", "1.2.3.", ".1.2.3", "1.2.3.4.5", "1.2.3.4.", "1..2.3", "256.1.1.1",
        "1.1.1.256", "1000.1.1.1", "01.2.3.4", "1.2.3.04", "00.0.0.0", "1.2.3.4 ", " 1.2.3.4",
        "1.2.3.a", "a.b.c.d", "1,2,3,4", "::1", "fe80::1", "1.2.3.-4", "+1.2.3.4", "１.2.3.4",
        "1.2.3.4\n",
    ] {
        assert_eq!(Ipv4::parse(text), None, "{:?}", text);
    }
}
