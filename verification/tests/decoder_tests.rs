use tryphon::config_value_decoder::ConfigValueDecoder;
use tryphon::decoders::decode_nonzero_signed;
use tryphon::decoders::decode_nonzero_unsigned;
use tryphon::net_addr::IpValue;
use tryphon::net_addr::Ipv4Value;
use tryphon::net_addr::Ipv6Value;
use tryphon::net_addr::SockV4Value;
use tryphon::net_addr::SockV6Value;
use tryphon::net_addr::SockValue;
use tryphon::secret::Secret;

#[test]
fn test_bool_decoder() {
    assert_eq!(bool::decode("true".to_string()).unwrap(), true);
    assert_eq!(bool::decode("false".to_string()).unwrap(), false);
    assert!(bool::decode("invalid".to_string()).is_err());
}

#[test]
fn test_char_decoder() {
    assert_eq!(char::decode("a".to_string()).unwrap(), 'a');
    assert_eq!(char::decode("€".to_string()).unwrap(), '€');
    assert!(char::decode("ab".to_string()).is_err());
    assert!(char::decode("".to_string()).is_err());
}

#[test]
fn test_unsigned_integer_decoders() {
    // Test each unsigned integer type with valid input
    assert_eq!(u8::decode("255".to_string()).unwrap(), 255u8);
    assert_eq!(u16::decode("65535".to_string()).unwrap(), 65535u16);
    assert_eq!(
        u32::decode("4294967295".to_string()).unwrap(),
        4294967295u32
    );
    assert_eq!(
        u64::decode("18446744073709551615".to_string()).unwrap(),
        18446744073709551615u64
    );
    assert_eq!(
        u128::decode("340282366920938463463374607431768211455".to_string()).unwrap(),
        340282366920938463463374607431768211455u128
    );
    assert_eq!(usize::decode("1000".to_string()).unwrap(), 1000usize);

    // Test overflow
    assert!(u8::decode("256".to_string()).is_err());
    assert!(u16::decode("65536".to_string()).is_err());

    // Test invalid input
    assert!(u32::decode("not_a_number".to_string()).is_err());
    assert!(u64::decode("-1".to_string()).is_err());
}

#[test]
fn test_signed_integer_decoders() {
    // Test each signed integer type with valid input
    assert_eq!(i8::decode("-128".to_string()).unwrap(), -128i8);
    assert_eq!(i16::decode("-32768".to_string()).unwrap(), -32768i16);
    assert_eq!(
        i32::decode("-2147483648".to_string()).unwrap(),
        -2147483648i32
    );
    assert_eq!(
        i64::decode("-9223372036854775808".to_string()).unwrap(),
        -9223372036854775808i64
    );
    assert_eq!(
        i128::decode("-170141183460469231731687303715884105728".to_string()).unwrap(),
        -170141183460469231731687303715884105728i128
    );
    assert_eq!(isize::decode("-1000".to_string()).unwrap(), -1000isize);

    // Test positive values
    assert_eq!(i8::decode("127".to_string()).unwrap(), 127i8);
    assert_eq!(i32::decode("42".to_string()).unwrap(), 42i32);

    // Test overflow
    assert!(i8::decode("128".to_string()).is_err());
    assert!(i16::decode("32768".to_string()).is_err());

    // Test invalid input
    assert!(i32::decode("not_a_number".to_string()).is_err());
}

#[test]
fn test_integer_error_messages() {
    assert_eq!(
        u8::decode("256".to_string()).unwrap_err(),
        "number too large to fit in target type"
    );
    assert_eq!(
        i8::decode("-129".to_string()).unwrap_err(),
        "number too small to fit in target type"
    );
    assert_eq!(
        u8::decode("".to_string()).unwrap_err(),
        "cannot parse integer from empty string"
    );
    assert_eq!(
        u8::decode("12x".to_string()).unwrap_err(),
        "invalid digit found in string"
    );
    assert_eq!(u8::decode("+17".to_string()).unwrap(), 17);
    assert_eq!(i8::decode("+17".to_string()).unwrap(), 17);
}

#[test]
fn test_nonzero_unsigned_decoders() {
    assert_eq!(decode_nonzero_unsigned("1", u8::MAX as u128).unwrap(), 1);
    assert_eq!(
        decode_nonzero_unsigned("100", u16::MAX as u128).unwrap(),
        100
    );
    assert_eq!(
        decode_nonzero_unsigned("1000", u32::MAX as u128).unwrap(),
        1000
    );
    assert_eq!(
        decode_nonzero_unsigned("10000", u64::MAX as u128).unwrap(),
        10000
    );
    assert_eq!(
        decode_nonzero_unsigned("100000", u128::MAX).unwrap(),
        100000
    );
    assert_eq!(
        decode_nonzero_unsigned("42", usize::MAX as u128).unwrap(),
        42
    );

    assert!(decode_nonzero_unsigned("0", u8::MAX as u128).is_err());
    assert!(decode_nonzero_unsigned("0", u32::MAX as u128).is_err());
    assert_eq!(
        decode_nonzero_unsigned("not_a_number", u16::MAX as u128).unwrap_err(),
        "invalid digit found in string"
    );
    assert_eq!(
        decode_nonzero_unsigned("0", u8::MAX as u128).unwrap_err(),
        "number would be zero for non-zero type"
    );
}

#[test]
fn test_nonzero_signed_decoders() {
    assert_eq!(
        decode_nonzero_signed("1", i8::MIN as i128, i8::MAX as i128).unwrap(),
        1
    );
    assert_eq!(
        decode_nonzero_signed("-100", i16::MIN as i128, i16::MAX as i128).unwrap(),
        -100
    );
    assert_eq!(
        decode_nonzero_signed("1000", i32::MIN as i128, i32::MAX as i128).unwrap(),
        1000
    );
    assert_eq!(
        decode_nonzero_signed("-10000", i64::MIN as i128, i64::MAX as i128).unwrap(),
        -10000
    );
    assert_eq!(
        decode_nonzero_signed("100000", i128::MIN, i128::MAX).unwrap(),
        100000
    );
    assert_eq!(
        decode_nonzero_signed("-42", isize::MIN as i128, isize::MAX as i128).unwrap(),
        -42
    );

    assert!(decode_nonzero_signed("0", i8::MIN as i128, i8::MAX as i128).is_err());
    assert!(decode_nonzero_signed("0", i32::MIN as i128, i32::MAX as i128).is_err());
    assert_eq!(
        decode_nonzero_signed("not_a_number", i16::MIN as i128, i16::MAX as i128).unwrap_err(),
        "invalid digit found in string"
    );
}

#[test]
fn test_ip_address_decoders() {
    assert_eq!(
        IpValue::decode("192.168.1.1".to_string()).unwrap(),
        IpValue::V4(Ipv4Value::new(192, 168, 1, 1))
    );
    assert_eq!(
        IpValue::decode("::1".to_string()).unwrap(),
        IpValue::V6(Ipv6Value::new(0, 0, 0, 0, 0, 0, 0, 1))
    );

    assert_eq!(
        Ipv4Value::decode("127.0.0.1".to_string()).unwrap(),
        Ipv4Value::new(127, 0, 0, 1)
    );
    assert_eq!(
        Ipv4Value::decode("192.168.0.1".to_string()).unwrap(),
        Ipv4Value::new(192, 168, 0, 1)
    );

    assert_eq!(
        Ipv6Value::decode("::1".to_string()).unwrap(),
        Ipv6Value::new(0, 0, 0, 0, 0, 0, 0, 1)
    );
    assert_eq!(
        Ipv6Value::decode("2001:db8::1".to_string()).unwrap(),
        Ipv6Value::new(0x2001, 0x0db8, 0, 0, 0, 0, 0, 1)
    );

    // Test invalid input
    assert_eq!(
        Ipv4Value::decode("256.1.1.1".to_string()).unwrap_err(),
        "invalid IPv4 address syntax"
    );
    assert_eq!(
        Ipv6Value::decode("not_an_ip".to_string()).unwrap_err(),
        "invalid IPv6 address syntax"
    );
}

#[test]
fn test_ipv4_syntax_edges() {
    assert_eq!(
        Ipv4Value::decode("255.255.255.255".to_string()).unwrap(),
        Ipv4Value::new(255, 255, 255, 255)
    );
    assert!(Ipv4Value::decode("1.2.3".to_string()).is_err());
    assert!(Ipv4Value::decode("1.2.3.4.5".to_string()).is_err());
    assert!(Ipv4Value::decode("01.2.3.4".to_string()).is_err());
    assert!(Ipv4Value::decode("1.2.3.".to_string()).is_err());
}

#[test]
fn test_ipv6_syntax_edges() {
    assert_eq!(
        Ipv6Value::decode("1:2:3:4:5:6:7:8".to_string()).unwrap(),
        Ipv6Value::new(1, 2, 3, 4, 5, 6, 7, 8)
    );
    assert_eq!(
        Ipv6Value::decode("::".to_string()).unwrap(),
        Ipv6Value::new(0, 0, 0, 0, 0, 0, 0, 0)
    );
    assert_eq!(
        Ipv6Value::decode("fe80::".to_string()).unwrap(),
        Ipv6Value::new(0xfe80, 0, 0, 0, 0, 0, 0, 0)
    );
    assert_eq!(
        Ipv6Value::decode("::ffff:192.168.0.1".to_string()).unwrap(),
        Ipv6Value::new(0, 0, 0, 0, 0, 0xffff, 0xc0a8, 0x0001)
    );
    assert_eq!(
        Ipv6Value::decode("1:2:3:4:5:6:7.8.9.10".to_string()).unwrap(),
        Ipv6Value::new(1, 2, 3, 4, 5, 6, 7 * 256 + 8, 9 * 256 + 10)
    );
    assert!(Ipv6Value::decode("1::2::3".to_string()).is_err());
    assert!(Ipv6Value::decode("1:2:3:4:5:6:7:8:9".to_string()).is_err());
    assert!(Ipv6Value::decode("1:2:3:4:5:6:7:8::".to_string()).is_err());
    assert!(Ipv6Value::decode(":::".to_string()).is_err());
    assert!(Ipv6Value::decode(":1::2".to_string()).is_err());
    assert!(Ipv6Value::decode("12345::".to_string()).is_err());
    assert!(Ipv6Value::decode("g::1".to_string()).is_err());
}

#[test]
fn test_socket_address_decoders() {
    assert_eq!(
        SockValue::decode("127.0.0.1:8080".to_string()).unwrap(),
        SockValue::V4(SockV4Value {
            ip: Ipv4Value::new(127, 0, 0, 1),
            port: 8080
        })
    );
    assert_eq!(
        SockValue::decode("[::1]:8080".to_string()).unwrap(),
        SockValue::V6(SockV6Value {
            ip: Ipv6Value::new(0, 0, 0, 0, 0, 0, 0, 1),
            port: 8080
        })
    );

    assert_eq!(
        SockV4Value::decode("192.168.1.1:3000".to_string()).unwrap(),
        SockV4Value {
            ip: Ipv4Value::new(192, 168, 1, 1),
            port: 3000
        }
    );

    assert_eq!(
        SockV6Value::decode("[2001:db8::1]:8080".to_string()).unwrap(),
        SockV6Value {
            ip: Ipv6Value::new(0x2001, 0x0db8, 0, 0, 0, 0, 0, 1),
            port: 8080
        }
    );

    // Test invalid input
    assert_eq!(
        SockValue::decode("127.0.0.1".to_string()).unwrap_err(),
        "invalid socket address syntax"
    );
    assert_eq!(
        SockValue::decode("not_a_socket".to_string()).unwrap_err(),
        "invalid socket address syntax"
    );
    assert!(SockV4Value::decode("127.0.0.1:99999".to_string()).is_err());
    assert!(SockV4Value::decode("127.0.0.1:".to_string()).is_err());
    assert!(SockV6Value::decode("[::1]8080".to_string()).is_err());
}

#[test]
fn test_option_decoder() {
    // Option wraps another decoder
    assert_eq!(
        Option::<String>::decode("hello".to_string()).unwrap(),
        Some("hello".to_string())
    );
    assert_eq!(Option::<i32>::decode("42".to_string()).unwrap(), Some(42));
    assert_eq!(
        Option::<bool>::decode("true".to_string()).unwrap(),
        Some(true)
    );

    assert!(Option::<i32>::decode("not_a_number".to_string()).is_err());
}

#[test]
fn test_secret_decoder() {
    // Secret wraps another decoder
    let secret = Secret::<String>::decode("my_secret".to_string()).unwrap();
    assert_eq!(secret.0, "my_secret");

    let secret = Secret::<i32>::decode("42".to_string()).unwrap();
    assert_eq!(secret.0, 42);

    assert!(Secret::<i32>::decode("not_a_number".to_string()).is_err());
}

#[test]
fn test_string_decoder() {
    assert_eq!(
        String::decode("passthrough".to_string()).unwrap(),
        "passthrough"
    );
    assert_eq!(String::decode("".to_string()).unwrap(), "");
}

#[test]
fn test_decoder_is_deterministic() {
    // Two runs on identical input always agree
    assert_eq!(
        u32::decode("1234".to_string()).unwrap(),
        u32::decode("1234".to_string()).unwrap()
    );
    assert_eq!(
        bool::decode("nope".to_string()).unwrap_err(),
        bool::decode("nope".to_string()).unwrap_err()
    );
}
