use miden_assembly::{
    parse_push, Felt, Instruction, LocalConstMap, Node, ParsingError, Token, MAX_FELT, MODULUS,
};

fn token(line: &str) -> Token {
    Token::new(line.split('.').map(|part| part.to_string()).collect()).unwrap()
}

fn push(line: &str) -> Result<Node, ParsingError> {
    parse_push(&token(line), &LocalConstMap::new())
}

fn node(instruction: Instruction) -> Result<Node, ParsingError> {
    Ok(Node::Instruction(instruction))
}

fn felts(values: &[u64]) -> Vec<Felt> {
    values.iter().map(|v| Felt::new(*v)).collect()
}

#[test]
fn push_single_decimal_picks_narrowest_width() {
    assert_eq!(push("push.0"), node(Instruction::PushU8(0)));
    assert_eq!(push("push.255"), node(Instruction::PushU8(255)));
    assert_eq!(push("push.256"), node(Instruction::PushU16(256)));
    assert_eq!(push("push.65535"), node(Instruction::PushU16(65535)));
    assert_eq!(push("push.65536"), node(Instruction::PushU32(65536)));
    assert_eq!(push("push.4294967295"), node(Instruction::PushU32(4294967295)));
    assert_eq!(push("push.4294967296"), node(Instruction::PushFelt(Felt::new(4294967296))));
}

#[test]
fn push_decimal_with_leading_zeros() {
    assert_eq!(push("push.0000000000000000000000000007"), node(Instruction::PushU8(7)));
}

#[test]
fn push_modulus_boundary() {
    assert_eq!(MODULUS, 18446744069414584321);
    assert_eq!(
        push("push.18446744069414584320"),
        node(Instruction::PushFelt(Felt::new(18446744069414584320)))
    );
    assert_eq!(
        push("push.18446744069414584321"),
        Err(ParsingError::OutOfRange {
            op: "push.18446744069414584321".to_string(),
            param_idx: 1,
            min: 0,
            max: MAX_FELT,
        })
    );
}

#[test]
fn push_decimal_beyond_64_bits_is_out_of_range() {
    assert_eq!(
        push("push.18446744073709551616"),
        Err(ParsingError::OutOfRange {
            op: "push.18446744073709551616".to_string(),
            param_idx: 1,
            min: 0,
            max: MAX_FELT,
        })
    );
    assert_eq!(
        push("push.99999999999999999999999999999999"),
        Err(ParsingError::OutOfRange {
            op: "push.99999999999999999999999999999999".to_string(),
            param_idx: 1,
            min: 0,
            max: MAX_FELT,
        })
    );
}

#[test]
fn push_not_a_number_is_invalid() {
    assert_eq!(
        push("push.12a"),
        Err(ParsingError::InvalidParam {
            op: "push.12a".to_string(),
            param_idx: 1,
            reason: "parameter '12a' is not a decimal number".to_string(),
        })
    );
    assert_eq!(
        push("push.+5"),
        Err(ParsingError::InvalidParam {
            op: "push.+5".to_string(),
            param_idx: 1,
            reason: "parameter '+5' is not a decimal number".to_string(),
        })
    );
    assert_eq!(
        push("push."),
        Err(ParsingError::InvalidParam {
            op: "push.".to_string(),
            param_idx: 1,
            reason: "parameter '' is not a decimal number".to_string(),
        })
    );
    assert_eq!(
        push("push.\u{661}"),
        Err(ParsingError::InvalidParam {
            op: "push.\u{661}".to_string(),
            param_idx: 1,
            reason: "parameter '\u{661}' is not a decimal number".to_string(),
        })
    );
}

#[test]
fn push_single_hex_is_big_endian() {
    assert_eq!(push("push.0xff"), node(Instruction::PushU8(255)));
    assert_eq!(push("push.0x0100"), node(Instruction::PushU16(256)));
    assert_eq!(push("push.0xFF"), node(Instruction::PushU8(255)));
    assert_eq!(push("push.0x00010000"), node(Instruction::PushU32(65536)));
    assert_eq!(
        push("push.0x0000000100000000"),
        node(Instruction::PushFelt(Felt::new(1 << 32)))
    );
    assert_eq!(
        push("push.0xffffffff00000000"),
        node(Instruction::PushFelt(Felt::new(MAX_FELT)))
    );
}

#[test]
fn push_single_hex_at_modulus_is_out_of_range() {
    assert_eq!(
        push("push.0xffffffff00000001"),
        Err(ParsingError::OutOfRange {
            op: "push.0xffffffff00000001".to_string(),
            param_idx: 1,
            min: 0,
            max: MAX_FELT,
        })
    );
    assert_eq!(
        push("push.0xffffffffffffffff"),
        Err(ParsingError::OutOfRange {
            op: "push.0xffffffffffffffff".to_string(),
            param_idx: 1,
            min: 0,
            max: MAX_FELT,
        })
    );
}

#[test]
fn push_single_hex_with_bad_digits_is_invalid() {
    assert_eq!(
        push("push.0xfg"),
        Err(ParsingError::InvalidParam {
            op: "push.0xfg".to_string(),
            param_idx: 1,
            reason: "hex string 'fg' is not a hexadecimal number".to_string(),
        })
    );
    assert_eq!(
        push("push.0x"),
        Err(ParsingError::InvalidParam {
            op: "push.0x".to_string(),
            param_idx: 1,
            reason: "hex string '' is not a hexadecimal number".to_string(),
        })
    );
}

#[test]
fn push_long_hex_word_is_little_endian_per_chunk() {
    let line = "push.0x0100000000000000020000000000000003000000000000000400000000000000";
    assert_eq!(push(line), node(Instruction::PushU8List(vec![1, 2, 3, 4])));

    let line = "push.0x00000000010000000000000002000000000000000300000000000000ffffffff";
    assert_eq!(
        push(line),
        node(Instruction::PushWord([
            Felt::new(1 << 32),
            Felt::new(2 << 32),
            Felt::new(3 << 32),
            Felt::new(0xffffffff00000000),
        ]))
    );

    let line = "push.0x0001000000000000000200000000000000030000000000000004000000000000";
    assert_eq!(push(line), node(Instruction::PushU16List(vec![0x100, 0x200, 0x300, 0x400])));
}

#[test]
fn push_long_hex_chunk_order_is_textual() {
    let line = "push.0x0000000001000000efcdab89674523010000000000000000ffffffff00000000";
    assert_eq!(
        push(line),
        node(Instruction::PushWord([
            Felt::new(0x0000000100000000),
            Felt::new(0x0123456789abcdef),
            Felt::new(0),
            Felt::new(0x00000000ffffffff),
        ]))
    );
}

#[test]
fn push_long_hex_with_wrong_length_is_invalid() {
    let digits_63 = "0".repeat(63);
    let digits_65 = "0".repeat(65);
    let digits_17 = "0".repeat(17);
    for digits in [digits_63, digits_65, digits_17] {
        let line = format!("push.0x{digits}");
        assert_eq!(
            push(&line),
            Err(ParsingError::InvalidParam {
                op: line.clone(),
                param_idx: 1,
                reason: format!("long hex string '{digits}' must contain exactly 64 characters"),
            })
        );
    }
}

#[test]
fn push_long_hex_first_bad_chunk_wins() {
    // second chunk is the modulus (little-endian), third chunk has a bad digit
    let line = "push.0x010000000000000001000000ffffffffzz000000000000000400000000000000";
    assert_eq!(
        push(line),
        Err(ParsingError::OutOfRange { op: line.to_string(), param_idx: 1, min: 0, max: MAX_FELT })
    );
    let line = "push.0x01000000000000000z0000000000000001000000ffffffff0400000000000000";
    assert_eq!(
        push(line),
        Err(ParsingError::InvalidParam {
            op: line.to_string(),
            param_idx: 1,
            reason: "hex string '0z00000000000000' is not a hexadecimal number".to_string(),
        })
    );
}

#[test]
fn push_list_of_small_values_is_not_a_word() {
    assert_eq!(push("push.1.2.3.4"), node(Instruction::PushU8List(vec![1, 2, 3, 4])));
    assert_eq!(push("push.1.2"), node(Instruction::PushU8List(vec![1, 2])));
    assert_eq!(push("push.1.256.3.4"), node(Instruction::PushU16List(vec![1, 256, 3, 4])));
    assert_eq!(push("push.65536.2.3"), node(Instruction::PushU32List(vec![65536, 2, 3])));
}

#[test]
fn push_list_of_four_field_elements_is_a_word() {
    assert_eq!(
        push("push.1.4294967296.3.4"),
        node(Instruction::PushWord([
            Felt::new(1),
            Felt::new(4294967296),
            Felt::new(3),
            Felt::new(4)
        ]))
    );
}

#[test]
fn push_list_of_field_elements_of_other_length_is_a_list() {
    assert_eq!(
        push("push.4294967296.2.3"),
        node(Instruction::PushFeltList(felts(&[4294967296, 2, 3])))
    );
    assert_eq!(
        push("push.1.2.3.4.18446744069414584320"),
        node(Instruction::PushFeltList(felts(&[1, 2, 3, 4, 18446744069414584320])))
    );
}

#[test]
fn push_list_mixes_hex_and_decimal() {
    assert_eq!(push("push.0x0a.11.0x0c"), node(Instruction::PushU8List(vec![10, 11, 12])));
    assert_eq!(push("push.0x0100.1"), node(Instruction::PushU16List(vec![256, 1])));
}

#[test]
fn push_list_hex_longer_than_a_chunk_is_invalid() {
    assert_eq!(
        push("push.1.0x00000000000000001"),
        Err(ParsingError::InvalidParam {
            op: "push.1.0x00000000000000001".to_string(),
            param_idx: 2,
            reason: "hex string '00000000000000001' contains more than 16 characters".to_string(),
        })
    );
}

#[test]
fn push_list_first_error_wins() {
    assert_eq!(
        push("push.1.x.18446744069414584321"),
        Err(ParsingError::InvalidParam {
            op: "push.1.x.18446744069414584321".to_string(),
            param_idx: 2,
            reason: "parameter 'x' is not a decimal number".to_string(),
        })
    );
    assert_eq!(
        push("push.1.18446744069414584321.x"),
        Err(ParsingError::OutOfRange {
            op: "push.1.18446744069414584321.x".to_string(),
            param_idx: 2,
            min: 0,
            max: MAX_FELT,
        })
    );
}

#[test]
fn push_with_sixteen_values() {
    let line = "push.1.2.3.4.5.6.7.8.9.10.11.12.13.14.15.16";
    assert_eq!(
        push(line),
        node(Instruction::PushU8List(vec![1, 2, 3, 4, 5, 6, 7, 8, 9, 10, 11, 12, 13, 14, 15, 16]))
    );
}

#[test]
fn push_without_parameter_is_missing_param() {
    assert_eq!(
        push("push"),
        Err(ParsingError::MissingParam {
            op: "push".to_string(),
            usage: "push.<a?>".to_string()
        })
    );
}

#[test]
fn push_with_seventeen_values_is_extra_param() {
    let line = "push.1.2.3.4.5.6.7.8.9.10.11.12.13.14.15.16.17";
    assert_eq!(push(line), Err(ParsingError::ExtraParam { op: line.to_string() }));
}

#[test]
fn push_resolves_constants() {
    let mut constants = LocalConstMap::new();
    assert_eq!(constants.insert("N".to_string(), 10), None);
    assert_eq!(constants.insert("BIG_1".to_string(), 1 << 40), None);
    assert_eq!(parse_push(&token("push.N"), &constants), node(Instruction::PushU8(10)));
    assert_eq!(
        parse_push(&token("push.BIG_1"), &constants),
        node(Instruction::PushFelt(Felt::new(1 << 40)))
    );
    assert_eq!(
        parse_push(&token("push.M"), &constants),
        Err(ParsingError::ConstNotFound { op: "push.M".to_string(), param_idx: 1 })
    );
    assert_eq!(
        parse_push(&token("push.1.N.M"), &constants),
        Err(ParsingError::ConstNotFound { op: "push.1.N.M".to_string(), param_idx: 3 })
    );
    assert_eq!(
        parse_push(&token("push.1.N.300"), &constants),
        node(Instruction::PushU16List(vec![1, 10, 300]))
    );
}

#[test]
fn push_number_is_never_looked_up() {
    let mut constants = LocalConstMap::new();
    constants.insert("123".to_string(), 7);
    constants.insert("0xff".to_string(), 7);
    assert_eq!(parse_push(&token("push.123"), &constants), node(Instruction::PushU8(123)));
    assert_eq!(parse_push(&token("push.0xff"), &constants), node(Instruction::PushU8(255)));
}

#[test]
fn push_constant_beyond_the_field_is_out_of_range() {
    let mut constants = LocalConstMap::new();
    constants.insert("P".to_string(), MODULUS);
    assert_eq!(
        parse_push(&token("push.P"), &constants),
        Err(ParsingError::OutOfRange {
            op: "push.P".to_string(),
            param_idx: 1,
            min: 0,
            max: MAX_FELT
        })
    );
}

#[test]
fn push_lower_case_name_is_not_a_label() {
    let mut constants = LocalConstMap::new();
    constants.insert("n".to_string(), 10);
    assert_eq!(
        parse_push(&token("push.n"), &constants),
        Err(ParsingError::InvalidParam {
            op: "push.n".to_string(),
            param_idx: 1,
            reason: "parameter 'n' is not a decimal number".to_string(),
        })
    );
}
