use anidb_client::command_builder::CommandBuilder;
use anidb_client::text::{escape_text, hex_encode, i64_dec, u64_dec};

#[test]
fn it_works() {
    assert_eq!(
        CommandBuilder::new("FOO")
            .arg("user", "name")
            .arg("pass", "w&rd")
            .arg("weeb", true)
            .arg("iq", 9000)
            .arg("bytes", &[0xd0, 0x0d][..])
            .build(),
        "FOO user=name&pass=w&amp;rd&weeb=1&iq=9000&bytes=d00d\n"
    );
}

#[test]
fn escaping_substitutions() {
    assert_eq!(escape_text("w&rd"), "w&amp;rd");
    assert_eq!(escape_text("two\nlines"), "two<br />lines");
    assert_eq!(escape_text("&\n&"), "&amp;<br />&amp;");
    assert_eq!(escape_text(""), "");
    assert_eq!(escape_text("plain"), "plain");
}

#[test]
fn boolean_encoding() {
    let t = CommandBuilder::new("B").arg("v", true).build();
    let f = CommandBuilder::new("B").arg("v", false).build();
    assert_eq!(t, "B v=1\n");
    assert_eq!(f, "B v=0\n");
}

#[test]
fn byte_sequence_encoding() {
    assert_eq!(hex_encode(&[0xd0, 0x0d]), "d00d");
    assert_eq!(hex_encode(&[]), "");
    assert_eq!(hex_encode(&[0x00, 0xff, 0x0a]), "00ff0a");
}

#[test]
fn integer_encoding() {
    assert_eq!(u64_dec(0), "0");
    assert_eq!(u64_dec(9000), "9000");
    assert_eq!(u64_dec(u64::MAX), "18446744073709551615");
    assert_eq!(i64_dec(-123), "-123");
    assert_eq!(i64_dec(i64::MIN), "-9223372036854775808");
    assert_eq!(i64_dec(7), "7");
}

#[test]
fn argument_order_is_preserved() {
    let cmd = CommandBuilder::new("Z").arg("b", 2).arg("a", 1).build();
    assert_eq!(cmd, "Z b=2&a=1\n");
}
