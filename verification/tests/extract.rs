use bitac::extract_btc_address;

#[test]
fn test_extract_btc_address_1() {
    let message = "1A1zP1eP5QGefi2DMPTfTL5SLmv7DivfNa";
    let address = extract_btc_address(&message);
    assert_eq!(address.unwrap(), "1A1zP1eP5QGefi2DMPTfTL5SLmv7DivfNa");
}

#[test]
fn test_extract_btc_address_1_from_message() {
    let message = "Hi!, How much btc 1A1zP1eP5QGefi2DMPTfTL5SLmv7DivfNa address has?";
    let address = extract_btc_address(&message);
    assert_eq!(address.unwrap(), "1A1zP1eP5QGefi2DMPTfTL5SLmv7DivfNa");
}

#[test]
fn test_extract_btc_address_3() {
    let message = "3E8ociqZa9mZUSwGdSmAEMAoAxBK3FNDcd";
    let address = extract_btc_address(&message);
    assert_eq!(address.unwrap(), "3E8ociqZa9mZUSwGdSmAEMAoAxBK3FNDcd");
}

#[test]
fn test_extract_btc_address_3_from_message() {
    let message = "Hi!, How much btc 3E8ociqZa9mZUSwGdSmAEMAoAxBK3FNDcd address has?";
    let address = extract_btc_address(&message);
    assert_eq!(address.unwrap(), "3E8ociqZa9mZUSwGdSmAEMAoAxBK3FNDcd");
}

#[test]
fn test_extract_btc_address_bc1() {
    let message = "bc1qm9n8x3jge2356hhyywfwrsmfczr49fxz37da8y";
    let address = extract_btc_address(&message);
    assert_eq!(address.unwrap(), "bc1qm9n8x3jge2356hhyywfwrsmfczr49fxz37da8y");
}

#[test]
fn test_extract_btc_address_bc1_from_message() {
    let message = "Hi!, How much btc bc1qm9n8x3jge2356hhyywfwrsmfczr49fxz37da8y address has?";
    let address = extract_btc_address(&message);
    assert_eq!(address.unwrap(), "bc1qm9n8x3jge2356hhyywfwrsmfczr49fxz37da8y");
}

#[test]
fn test_extract_bech32_shortest() {
    let body = format!("bc1{}", "q".repeat(8));
    assert_eq!(extract_btc_address(&body).unwrap(), body);
}

#[test]
fn test_extract_bech32_longest() {
    let body = format!("bc1{}", "q".repeat(87));
    assert_eq!(extract_btc_address(&body).unwrap(), body);
}

#[test]
fn test_extract_bech32_too_short() {
    let body = format!("bc1{}", "q".repeat(7));
    assert_eq!(extract_btc_address(&body), None);
}

#[test]
fn test_extract_bech32_too_long() {
    let body = format!("bc1{}", "q".repeat(88));
    assert_eq!(extract_btc_address(&body), None);
}

#[test]
fn test_extract_bech32_variant_39() {
    let body = format!("bc0{}", "q".repeat(39));
    assert_eq!(extract_btc_address(&body).unwrap(), body);
}

#[test]
fn test_extract_bech32_variant_59() {
    let body = format!("bc0{}", "q".repeat(59));
    assert_eq!(extract_btc_address(&body).unwrap(), body);
}

#[test]
fn test_extract_bech32_variant_wrong_length() {
    let body = format!("bc0{}", "q".repeat(40));
    assert_eq!(extract_btc_address(&body), None);
}

#[test]
fn test_extract_base58_shortest() {
    let body = format!("1{}", "a".repeat(25));
    assert_eq!(extract_btc_address(&body).unwrap(), body);
}

#[test]
fn test_extract_base58_longest() {
    let body = format!("3{}", "a".repeat(35));
    assert_eq!(extract_btc_address(&body).unwrap(), body);
}

#[test]
fn test_extract_base58_too_short() {
    let body = format!("1{}", "a".repeat(24));
    assert_eq!(extract_btc_address(&body), None);
}

#[test]
fn test_extract_base58_too_long() {
    let body = format!("1{}", "a".repeat(36));
    assert_eq!(extract_btc_address(&body), None);
}

#[test]
fn test_extract_respects_leading_word_boundary() {
    let message = "xbc1qm9n8x3jge2356hhyywfwrsmfczr49fxz37da8y";
    assert_eq!(extract_btc_address(&message), None);
}

#[test]
fn test_extract_respects_trailing_word_boundary() {
    // 'b' is a word character outside the bech32 alphabet, so the run
    // does not end at a word boundary.
    let message = "bc1qm9n8x3jge2356hhyywfwrsmfczr49fxz37da8yb";
    assert_eq!(extract_btc_address(&message), None);
}

#[test]
fn test_extract_surrounded_by_punctuation() {
    let message = "(see: 1A1zP1eP5QGefi2DMPTfTL5SLmv7DivfNa!)";
    let address = extract_btc_address(&message);
    assert_eq!(address.unwrap(), "1A1zP1eP5QGefi2DMPTfTL5SLmv7DivfNa");
}

#[test]
fn test_extract_address_at_end() {
    let message = "please check bc1qm9n8x3jge2356hhyywfwrsmfczr49fxz37da8y";
    let address = extract_btc_address(&message);
    assert_eq!(address.unwrap(), "bc1qm9n8x3jge2356hhyywfwrsmfczr49fxz37da8y");
}

#[test]
fn test_extract_returns_first_of_two() {
    let message = "3E8ociqZa9mZUSwGdSmAEMAoAxBK3FNDcd then 1A1zP1eP5QGefi2DMPTfTL5SLmv7DivfNa";
    let address = extract_btc_address(&message);
    assert_eq!(address.unwrap(), "3E8ociqZa9mZUSwGdSmAEMAoAxBK3FNDcd");
}

#[test]
fn test_extract_nothing_in_plain_text() {
    assert_eq!(extract_btc_address("Hi! How are you today?"), None);
}

#[test]
fn test_extract_nothing_in_empty_text() {
    assert_eq!(extract_btc_address(""), None);
}

#[test]
fn test_extract_nothing_in_unicode_text() {
    assert_eq!(extract_btc_address("₿ 丰 no address here"), None);
}
