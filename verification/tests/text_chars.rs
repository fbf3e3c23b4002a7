use toolgate::text::char_is_whitespace;

#[test]
fn whitespace_matches_std_on_every_char() {
    for u in 0u32..=0x10FFFF {
        if let Some(c) = char::from_u32(u) {
            assert_eq!(char_is_whitespace(c), c.is_whitespace(), "{u:#x}");
        }
    }
}
