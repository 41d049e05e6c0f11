use miden_assembly::{
    parse_adv_push, parse_loc_load, parse_loc_loadw, parse_loc_store, parse_loc_storew,
    parse_locaddr, parse_mem_load, parse_mem_loadw, parse_mem_store, parse_mem_storew,
    Instruction, LocalConstMap, Node, ParsingError, Token,
};

type Parser = fn(&Token, &LocalConstMap) -> Result<Node, ParsingError>;

fn token(line: &str) -> Token {
    Token::new(line.split('.').map(|part| part.to_string()).collect()).unwrap()
}

fn constants() -> LocalConstMap {
    let mut constants = LocalConstMap::new();
    constants.insert("N".to_string(), 10);
    constants.insert("U16_MAX".to_string(), 65535);
    constants.insert("U16_OVER".to_string(), 65536);
    constants.insert("U32_MAX".to_string(), 4294967295);
    constants.insert("U32_OVER".to_string(), 4294967296);
    constants
}

fn node(instruction: Instruction) -> Result<Node, ParsingError> {
    Ok(Node::Instruction(instruction))
}

fn check_index_instruction(name: &str, parse: Parser, make: fn(u16) -> Instruction) {
    let constants = constants();
    let run = |params: &str| parse(&token(&format!("{name}{params}")), &constants);

    assert_eq!(
        run(""),
        Err(ParsingError::MissingParam {
            op: name.to_string(),
            usage: format!("{name}.<index>"),
        })
    );
    assert_eq!(run(".0"), node(make(0)));
    assert_eq!(run(".1"), node(make(1)));
    assert_eq!(run(".65535"), node(make(65535)));
    assert_eq!(run(".N"), node(make(10)));
    assert_eq!(run(".U16_MAX"), node(make(65535)));
    assert_eq!(
        run(".65536"),
        Err(ParsingError::OutOfRange {
            op: format!("{name}.65536"),
            param_idx: 1,
            min: 0,
            max: 65535,
        })
    );
    assert_eq!(
        run(".U16_OVER"),
        Err(ParsingError::OutOfRange {
            op: format!("{name}.U16_OVER"),
            param_idx: 1,
            min: 0,
            max: 65535,
        })
    );
    assert_eq!(
        run(".UNKNOWN"),
        Err(ParsingError::ConstNotFound { op: format!("{name}.UNKNOWN"), param_idx: 1 })
    );
    assert_eq!(
        run(".abc"),
        Err(ParsingError::InvalidParam {
            op: format!("{name}.abc"),
            param_idx: 1,
            reason: "parameter 'abc' is not a decimal number".to_string(),
        })
    );
    assert_eq!(
        run(".0x10"),
        Err(ParsingError::InvalidParam {
            op: format!("{name}.0x10"),
            param_idx: 1,
            reason: "parameter '0x10' is not a decimal number".to_string(),
        })
    );
    assert_eq!(run(".1.2"), Err(ParsingError::ExtraParam { op: format!("{name}.1.2") }));
    assert_eq!(run(".x.y.z"), Err(ParsingError::ExtraParam { op: format!("{name}.x.y.z") }));
}

fn check_address_instruction(
    name: &str,
    parse: Parser,
    bare: Instruction,
    make: fn(u32) -> Instruction,
) {
    let constants = constants();
    let run = |params: &str| parse(&token(&format!("{name}{params}")), &constants);

    assert_eq!(run(""), node(bare));
    assert_eq!(run(".0"), node(make(0)));
    assert_eq!(run(".65536"), node(make(65536)));
    assert_eq!(run(".4294967295"), node(make(4294967295)));
    assert_eq!(run(".N"), node(make(10)));
    assert_eq!(run(".U32_MAX"), node(make(4294967295)));
    assert_eq!(
        run(".4294967296"),
        Err(ParsingError::OutOfRange {
            op: format!("{name}.4294967296"),
            param_idx: 1,
            min: 0,
            max: 4294967295,
        })
    );
    assert_eq!(
        run(".U32_OVER"),
        Err(ParsingError::OutOfRange {
            op: format!("{name}.U32_OVER"),
            param_idx: 1,
            min: 0,
            max: 4294967295,
        })
    );
    assert_eq!(
        run(".UNKNOWN"),
        Err(ParsingError::ConstNotFound { op: format!("{name}.UNKNOWN"), param_idx: 1 })
    );
    assert_eq!(
        run(".-1"),
        Err(ParsingError::InvalidParam {
            op: format!("{name}.-1"),
            param_idx: 1,
            reason: "parameter '-1' is not a decimal number".to_string(),
        })
    );
    assert_eq!(run(".1.2"), Err(ParsingError::ExtraParam { op: format!("{name}.1.2") }));
}

#[test]
fn locaddr_takes_one_index() {
    check_index_instruction("locaddr", parse_locaddr, Instruction::Locaddr);
}

#[test]
fn locaddr_alone_is_missing_param() {
    assert_eq!(
        parse_locaddr(&token("locaddr"), &LocalConstMap::new()),
        Err(ParsingError::MissingParam {
            op: "locaddr".to_string(),
            usage: "locaddr.<index>".to_string(),
        })
    );
}

#[test]
fn locaddr_with_two_parameters_is_extra_param() {
    assert_eq!(
        parse_locaddr(&token("locaddr.1.2"), &LocalConstMap::new()),
        Err(ParsingError::ExtraParam { op: "locaddr.1.2".to_string() })
    );
}

#[test]
fn loc_load_takes_one_index() {
    check_index_instruction("loc_load", parse_loc_load, Instruction::LocLoad);
}

#[test]
fn loc_loadw_takes_one_index() {
    check_index_instruction("loc_loadw", parse_loc_loadw, Instruction::LocLoadW);
}

#[test]
fn loc_store_takes_one_index() {
    check_index_instruction("loc_store", parse_loc_store, Instruction::LocStore);
}

#[test]
fn loc_storew_takes_one_index() {
    check_index_instruction("loc_storew", parse_loc_storew, Instruction::LocStoreW);
}

#[test]
fn mem_load_takes_an_optional_address() {
    check_address_instruction(
        "mem_load",
        parse_mem_load,
        Instruction::MemLoad,
        Instruction::MemLoadImm,
    );
}

#[test]
fn mem_loadw_takes_an_optional_address() {
    check_address_instruction(
        "mem_loadw",
        parse_mem_loadw,
        Instruction::MemLoadW,
        Instruction::MemLoadWImm,
    );
}

#[test]
fn mem_store_takes_an_optional_address() {
    check_address_instruction(
        "mem_store",
        parse_mem_store,
        Instruction::MemStore,
        Instruction::MemStoreImm,
    );
}

#[test]
fn mem_storew_takes_an_optional_address() {
    check_address_instruction(
        "mem_storew",
        parse_mem_storew,
        Instruction::MemStoreW,
        Instruction::MemStoreWImm,
    );
}

#[test]
fn adv_push_takes_a_count_from_one_to_sixteen() {
    let run = |line: &str| parse_adv_push(&token(line), &LocalConstMap::new());
    assert_eq!(run("adv_push.1"), node(Instruction::AdvPush(1)));
    assert_eq!(run("adv_push.7"), node(Instruction::AdvPush(7)));
    assert_eq!(run("adv_push.16"), node(Instruction::AdvPush(16)));
    for line in ["adv_push.0", "adv_push.17", "adv_push.256", "adv_push.18446744073709551616"] {
        assert_eq!(
            run(line),
            Err(ParsingError::OutOfRange { op: line.to_string(), param_idx: 1, min: 1, max: 16 })
        );
    }
    assert_eq!(
        run("adv_push.x"),
        Err(ParsingError::InvalidParam {
            op: "adv_push.x".to_string(),
            param_idx: 1,
            reason: "parameter 'x' is not a decimal number".to_string(),
        })
    );
}

#[test]
fn adv_push_arity() {
    assert_eq!(
        parse_adv_push(&token("adv_push"), &constants()),
        Err(ParsingError::MissingParam {
            op: "adv_push".to_string(),
            usage: "adv_push.<num_vals>".to_string(),
        })
    );
    assert_eq!(
        parse_adv_push(&token("adv_push.1.2"), &constants()),
        Err(ParsingError::ExtraParam { op: "adv_push.1.2".to_string() })
    );
}

#[test]
fn adv_push_resolves_a_constant_in_range() {
    let mut constants = LocalConstMap::new();
    constants.insert("N".to_string(), 4);
    constants.insert("ONE".to_string(), 1);
    constants.insert("LIMIT".to_string(), 16);
    assert_eq!(parse_adv_push(&token("adv_push.N"), &constants), node(Instruction::AdvPush(4)));
    assert_eq!(parse_adv_push(&token("adv_push.ONE"), &constants), node(Instruction::AdvPush(1)));
    assert_eq!(
        parse_adv_push(&token("adv_push.LIMIT"), &constants),
        node(Instruction::AdvPush(16))
    );
}

#[test]
fn adv_push_with_undefined_constant_is_not_found() {
    let mut constants = LocalConstMap::new();
    constants.insert("N".to_string(), 4);
    assert_eq!(
        parse_adv_push(&token("adv_push.M"), &constants),
        Err(ParsingError::ConstNotFound { op: "adv_push.M".to_string(), param_idx: 1 })
    );
    assert_eq!(
        parse_adv_push(&token("adv_push.N"), &LocalConstMap::new()),
        Err(ParsingError::ConstNotFound { op: "adv_push.N".to_string(), param_idx: 1 })
    );
}

#[test]
fn adv_push_with_constant_out_of_range_is_refused() {
    let mut constants = LocalConstMap::new();
    constants.insert("ZERO".to_string(), 0);
    constants.insert("OVER".to_string(), 17);
    constants.insert("HUGE".to_string(), u64::MAX);
    for line in ["adv_push.ZERO", "adv_push.OVER", "adv_push.HUGE"] {
        assert_eq!(
            parse_adv_push(&token(line), &constants),
            Err(ParsingError::OutOfRange { op: line.to_string(), param_idx: 1, min: 1, max: 16 })
        );
    }
}
