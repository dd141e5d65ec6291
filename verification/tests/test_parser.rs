use enum_bit_flags::arguments::Arguments;
use enum_bit_flags::bit_flags::BitFlags;
use enum_bit_flags::error::{Error, ErrorKind};
use enum_bit_flags::grammar::State;
use enum_bit_flags::parser::{generate, Parser};
use enum_bit_flags::template::{Piece, Placeholder};
use enum_bit_flags::tokens::{Delimiter, Token};

fn lex_group(chars: &[char], position: &mut usize, close: Option<char>) -> Vec<Token> {
    let mut tokens = Vec::new();
    while *position < chars.len() {
        let ch = chars[*position];
        if Some(ch) == close {
            *position += 1;
            return tokens;
        }
        if ch.is_whitespace() {
            *position += 1;
        } else if ch.is_ascii_alphanumeric() || ch == '_' {
            let start = *position;
            while *position < chars.len()
                && (chars[*position].is_ascii_alphanumeric() || chars[*position] == '_')
            {
                *position += 1;
            }
            let text: String = chars[start..*position].iter().collect();
            if ch.is_ascii_digit() {
                tokens.push(Token::Literal(text));
            } else {
                tokens.push(Token::Ident(text));
            }
        } else if ch == '(' || ch == '{' || ch == '[' {
            let (delimiter, closing) = match ch {
                '(' => (Delimiter::Parenthesis, ')'),
                '{' => (Delimiter::Brace, '}'),
                _ => (Delimiter::Bracket, ']'),
            };
            let start = *position;
            *position += 1;
            let stream = lex_group(chars, position, Some(closing));
            let text: String = chars[start..*position].iter().collect();
            tokens.push(Token::Group { delimiter, text, stream });
        } else {
            tokens.push(Token::Punct(ch));
            *position += 1;
        }
    }
    tokens
}

fn lex(source: &str) -> Vec<Token> {
    let chars: Vec<char> = source.chars().collect();
    let mut position = 0;
    lex_group(&chars, &mut position, None)
}

fn configure(arguments: &str) -> Arguments {
    let mut configuration = Arguments::new();
    configuration.parse(&lex(arguments)).expect("the configuration is valid");
    configuration
}

fn parse(arguments: &str, input: &str) -> Result<Parser, Error> {
    let mut parser = Parser::new(configure(arguments));
    parser.parse(&lex(input))?;
    Ok(parser)
}

fn accepted(arguments: &str, input: &str) -> Parser {
    parse(arguments, input).expect("the declaration is valid")
}

fn refused(arguments: &str, input: &str) -> Error {
    parse(arguments, input).expect_err("the declaration is refused")
}

fn kind(arguments: &str, input: &str) -> ErrorKind {
    refused(arguments, input).kind
}

fn values(parser: &Parser) -> Vec<(String, u128)> {
    parser.declaration.variants.iter().map(|v| (v.name.clone(), v.value)).collect()
}

#[test]
fn a_declaration_is_recorded_in_order() {
    let parser = accepted("", "enum Sample { B = 2, A = 1, C = 0x10 }");
    assert_eq!(parser.state, State::Finished);
    assert_eq!(parser.declaration.name, "Sample");
    assert_eq!(parser.declaration.visibility, "");
    assert_eq!(
        values(&parser),
        vec![("B".to_string(), 2), ("A".to_string(), 1), ("C".to_string(), 16)]
    );
    assert_eq!(parser.declaration.all_set_bits, 0x13);
    assert!(!parser.declaration.has_empty_value);
}

#[test]
fn a_trailing_comma_and_an_empty_body_are_accepted() {
    let parser = accepted("", "enum Sample { A = 1, B = 2, }");
    assert_eq!(parser.declaration.variants.len(), 2);
    let parser = accepted("", "enum Sample { }");
    assert_eq!(parser.declaration.variants.len(), 0);
    assert_eq!(parser.declaration.all_set_bits, 0);
}

#[test]
fn the_visibility_is_kept() {
    assert_eq!(accepted("", "pub enum S { A = 1 }").declaration.visibility, "pub");
    assert_eq!(accepted("", "pub(crate) enum S { A = 1 }").declaration.visibility, "pub(crate)");
    assert_eq!(accepted("", "pub(super) enum S { A = 1 }").declaration.visibility, "pub(super)");
    assert_eq!(accepted("", "enum S { A = 1 }").declaration.visibility, "");
}

#[test]
fn the_fingerprints_are_those_of_the_names() {
    let parser = accepted("", "enum S { Flag = 1 }");
    assert_eq!(
        parser.declaration.variants[0].hash,
        enum_bit_flags::utils::compute_string_hash(b"flag")
    );
}

#[test]
fn two_flags_with_the_same_value_are_refused() {
    let error = refused("", "enum S { V1 = 1, V2 = 1 }");
    assert_eq!(error.kind, ErrorKind::DuplicateValue);
    assert_eq!(error.found, "V2");
    assert_eq!(error.other, "V1");
    assert_eq!(kind("", "enum S { A = 16, B = 2, C = 0x10 }"), ErrorKind::DuplicateValue);
    assert_eq!(kind("", "enum S { A = 3u8, B = 0b11 }"), ErrorKind::DuplicateValue);
}

#[test]
fn two_flags_whose_names_differ_in_case_only_are_refused() {
    let error = refused("", "enum S { Flag = 1, FLAG = 2 }");
    assert_eq!(error.kind, ErrorKind::DuplicateName);
    assert_eq!(error.found, "FLAG");
    assert_eq!(error.other, "Flag");
    assert_eq!(kind("", "enum S { Flag = 1, Flag = 2 }"), ErrorKind::DuplicateName);
    assert_eq!(kind("", "enum S { ab = 1, c = 2, AB = 4 }"), ErrorKind::DuplicateName);
}

#[test]
fn a_value_over_the_width_is_refused() {
    let error = refused("bits = 8", "enum S { V1 = 256 }");
    assert_eq!(error.kind, ErrorKind::ValueTooLarge);
    assert_eq!(error.found, "256");
    assert_eq!(values(&accepted("bits = 8", "enum S { V1 = 255 }")), vec![("V1".to_string(), 255)]);
    assert_eq!(kind("bits = 8", "enum S { V1 = 256u8 }"), ErrorKind::ValueTooLarge);
    assert_eq!(kind("bits = 16", "enum S { V1 = 0x10000 }"), ErrorKind::ValueTooLarge);
    assert!(parse("bits = 16", "enum S { V1 = 0xFFFF }").is_ok());
    assert_eq!(kind("", "enum S { V1 = 0x100000000 }"), ErrorKind::ValueTooLarge);
    assert!(parse("", "enum S { V1 = 0xFFFFFFFF }").is_ok());
    assert_eq!(kind("bits = 64", "enum S { V1 = 0x10000000000000000 }"), ErrorKind::ValueTooLarge);
    assert!(parse("bits = 64", "enum S { V1 = 0xFFFFFFFFFFFFFFFF }").is_ok());
    assert!(parse("bits = 128", "enum S { V1 = 0xFFFFFFFFFFFFFFFFFFFFFFFFFFFFFFFF }").is_ok());
}

#[test]
fn a_literal_over_128_bits_is_no_integer() {
    let error = refused("bits = 128", "enum S { V1 = 0x100000000000000000000000000000000 }");
    assert_eq!(error.kind, ErrorKind::InvalidInteger);
    assert_eq!(error.found, "0x100000000000000000000000000000000");
}

#[test]
fn a_second_flag_with_value_zero_is_refused() {
    let error = refused("", "enum S { A = 0, B = 0 }");
    assert_eq!(error.kind, ErrorKind::DuplicateValue);
    assert_eq!(error.found, "B");
    assert_eq!(error.other, "A");
    assert_eq!(kind("", "enum S { A = 0, C = 1, B = 0x0 }"), ErrorKind::DuplicateValue);
}

#[test]
fn a_flag_with_value_zero_names_the_empty_case() {
    let parser = accepted("", "enum S { A = 1, Nothing = 0, B = 2 }");
    assert!(parser.declaration.has_empty_value);
    assert_eq!(parser.declaration.args.none_case, "Nothing");
    assert_eq!(parser.declaration.constant("Nothing"), Some(BitFlags { value: 0 }));
    assert_eq!(parser.declaration.constant("None"), None);
    assert_eq!(parser.declaration.display(BitFlags { value: 0 }), "S (Nothing)");
    assert_eq!(parser.declaration.display(BitFlags { value: 3 }), "S (A | B)");
}

#[test]
fn a_flag_with_value_zero_conflicts_with_the_configuration() {
    let error = refused("empty = Nothing", "enum S { A = 1, Zero = 0 }");
    assert_eq!(error.kind, ErrorKind::EmptyCaseConflict);
    assert_eq!(error.found, "Zero");
    assert_eq!(error.other, "Nothing");
    let error = refused("disable_empty_generation = true", "enum S { A = 1, Zero = 0 }");
    assert_eq!(error.kind, ErrorKind::EmptyCaseDisabled);
    assert_eq!(error.found, "Zero");
    assert_eq!(
        kind("disable_empty_generation = true, empty = Nothing", "enum S { Zero = 0 }"),
        ErrorKind::EmptyCaseDisabled
    );
}

#[test]
fn the_empty_constant_is_made_where_no_flag_is_zero() {
    let d = accepted("", "enum S { A = 1 }").declaration;
    assert_eq!(d.constant("None"), Some(BitFlags { value: 0 }));
    assert_eq!(d.from_value(0), Some(BitFlags { value: 0 }));
    let d = accepted("empty = Nothing", "enum S { A = 1 }").declaration;
    assert_eq!(d.constant("Nothing"), Some(BitFlags { value: 0 }));
    assert_eq!(d.constant("None"), None);
    let d = accepted("disable_empty_generation = yes", "enum S { A = 1 }").declaration;
    assert_eq!(d.constant("None"), None);
    assert_eq!(d.from_value(0), None);
    assert_eq!(d.from_value(1), Some(BitFlags { value: 1 }));
}

#[test]
fn constants_are_found_by_their_exact_name() {
    let d = accepted("", "enum S { A = 1, B = 2 }").declaration;
    assert_eq!(d.constant("A"), Some(BitFlags { value: 1 }));
    assert_eq!(d.constant("B"), Some(BitFlags { value: 2 }));
    assert_eq!(d.constant("a"), None);
    assert_eq!(d.constant("C"), None);
    assert_eq!(d.constant(""), None);
}

#[test]
fn from_value_accepts_the_bits_of_the_flags_only() {
    let d = accepted("bits = 8", "enum S { V1 = 1, V2 = 2 }").declaration;
    assert_eq!(d.from_value(3), Some(BitFlags { value: 3 }));
    assert_eq!(d.from_value(1), Some(BitFlags { value: 1 }));
    assert_eq!(d.from_value(255), None);
    assert_eq!(d.from_value(4), None);
    assert_eq!(d.from_value(5), None);
    assert_eq!(d.from_value(0x100), None);
    let d = accepted("", "enum S { Wide = 6 }").declaration;
    assert_eq!(d.from_value(2), Some(BitFlags { value: 2 }));
    assert_eq!(d.from_value(6), Some(BitFlags { value: 6 }));
    assert_eq!(d.from_value(1), None);
}

#[test]
fn flags_are_shown_in_ascending_order_of_value() {
    let d = accepted("", "enum Name { B = 2, A = 1 }").declaration;
    assert_eq!(d.display(BitFlags { value: 3 }), "Name (A | B)");
    assert_eq!(d.display(BitFlags { value: 2 }), "Name (B)");
    assert_eq!(d.display(BitFlags { value: 0 }), "Name (None)");
    assert_eq!(d.ascending_order(), vec![1, 0]);
    let d = accepted("", "enum Name { D = 8, B = 2, C = 4, A = 1, Low = 3 }").declaration;
    assert_eq!(d.ascending_order(), vec![3, 1, 4, 2, 0]);
    assert_eq!(d.display(BitFlags { value: 15 }), "Name (A | B | Low | C | D)");
    assert_eq!(d.display(BitFlags { value: 9 }), "Name (A | D)");
    assert_eq!(d.display(BitFlags { value: 4 }), "Name (C)");
}

#[test]
fn the_empty_case_is_not_shown_among_the_flags() {
    let d = accepted("", "enum Name { Zero = 0, A = 1 }").declaration;
    assert_eq!(d.display(BitFlags { value: 1 }), "Name (A)");
    assert_eq!(d.display(BitFlags { value: 0 }), "Name (Zero)");
}

#[test]
fn a_value_without_a_whole_flag_shows_none() {
    let d = accepted("", "enum Name { Wide = 6 }").declaration;
    assert_eq!(d.display(BitFlags { value: 2 }), "Name ()");
}

#[test]
fn the_empty_mask_is_contained_in_nothing() {
    let empty = BitFlags { value: 0 };
    assert!(!empty.contains(empty));
    assert!(!BitFlags { value: 5 }.contains(empty));
    assert!(!BitFlags { value: u128::MAX }.contains(empty));
    assert!(BitFlags { value: 5 }.contains(BitFlags { value: 4 }));
    assert!(!BitFlags { value: 5 }.contains(BitFlags { value: 6 }));
    assert!(BitFlags { value: 5 }.contains_one(BitFlags { value: 6 }));
    assert!(!BitFlags { value: 5 }.contains_one(empty));
}

#[test]
fn a_removed_flag_is_not_contained() {
    let mut value = BitFlags { value: 7 };
    value.remove(BitFlags { value: 2 });
    assert_eq!(value.get_value(), 5);
    assert!(!value.contains(BitFlags { value: 2 }));
    value.remove(BitFlags { value: 2 });
    assert_eq!(value.get_value(), 5);
    value.remove(BitFlags { value: 8 });
    assert_eq!(value.get_value(), 5);
    let mut value = BitFlags { value: 1 };
    value.remove(BitFlags { value: 3 });
    assert_eq!(value.get_value(), 0);
    let mut value = BitFlags { value: u128::MAX };
    value.remove(BitFlags { value: 1 << 127 });
    assert_eq!(value.get_value(), u128::MAX >> 1);
}

#[test]
fn grammar_of_the_head() {
    assert_eq!(kind("", "= enum S { A = 1 }"), ErrorKind::ExpectedEnumOrVisibility);
    assert_eq!(kind("", "(crate) enum S { A = 1 }"), ErrorKind::ExpectedEnumOrVisibility);
    assert_eq!(kind("", "8 enum S { A = 1 }"), ErrorKind::ExpectedEnumOrVisibility);
    assert_eq!(kind("", "struct S { A = 1 }"), ErrorKind::ExpectedEnum);
    assert_eq!(kind("", "pub struct S { A = 1 }"), ErrorKind::ExpectedEnum);
    assert_eq!(kind("", "pub pub enum S { A = 1 }"), ErrorKind::ExpectedEnum);
    assert_eq!(kind("", "pub(crate) pub enum S { A = 1 }"), ErrorKind::ExpectedEnum);
    assert_eq!(kind("", "pub = enum S { A = 1 }"), ErrorKind::ExpectedEnum);
    assert_eq!(kind("", "pub [crate] enum S { A = 1 }"), ErrorKind::ExpectedVisibilityGroup);
    assert_eq!(kind("", "pub {crate} enum S { A = 1 }"), ErrorKind::ExpectedVisibilityGroup);
    assert_eq!(kind("", "enum 5 { A = 1 }"), ErrorKind::ExpectedEnumName);
    assert_eq!(kind("", "enum { A = 1 }"), ErrorKind::ExpectedEnumName);
    assert_eq!(kind("", "enum S ( A = 1 )"), ErrorKind::ExpectedOpenBrace);
    assert_eq!(kind("", "enum S T { A = 1 }"), ErrorKind::ExpectedOpenBrace);
    assert_eq!(kind("", "enum S = { A = 1 }"), ErrorKind::ExpectedOpenBrace);
}

#[test]
fn grammar_of_the_body() {
    assert_eq!(kind("", "enum S { 1 = A }"), ErrorKind::ExpectedFlagName);
    assert_eq!(kind("", "enum S { , A = 1 }"), ErrorKind::ExpectedFlagName);
    assert_eq!(kind("", "enum S { A = 1, , }"), ErrorKind::ExpectedFlagName);
    assert_eq!(kind("", "enum S { { A = 1 } }"), ErrorKind::ExpectedFlagName);
    assert_eq!(kind("", "enum S { A : 1 }"), ErrorKind::ExpectedEqual);
    assert_eq!(kind("", "enum S { A 1 }"), ErrorKind::ExpectedEqual);
    assert_eq!(kind("", "enum S { A, B }"), ErrorKind::ExpectedEqual);
    assert_eq!(kind("", "enum S { A = B }"), ErrorKind::ExpectedLiteral);
    assert_eq!(kind("", "enum S { A = (1) }"), ErrorKind::ExpectedLiteral);
    assert_eq!(kind("", "enum S { A = = }"), ErrorKind::ExpectedLiteral);
    assert_eq!(kind("", "enum S { A = 1 B = 2 }"), ErrorKind::ExpectedSeparator);
    assert_eq!(kind("", "enum S { A = 1; B = 2 }"), ErrorKind::ExpectedSeparator);
    assert_eq!(kind("", "enum S { A = 1 | 2 }"), ErrorKind::ExpectedSeparator);
}

#[test]
fn literals_that_are_no_integers() {
    assert_eq!(kind("", "enum S { A = 1_000 }"), ErrorKind::InvalidInteger);
    assert_eq!(kind("", "enum S { A = 12abc }"), ErrorKind::InvalidInteger);
    assert_eq!(kind("", "enum S { A = 1u7 }"), ErrorKind::InvalidInteger);
    assert_eq!(kind("", "enum S { A = 0b102 }"), ErrorKind::InvalidInteger);
    let tokens = vec![
        Token::Ident("enum".to_string()),
        Token::Ident("S".to_string()),
        Token::Group {
            delimiter: Delimiter::Brace,
            text: String::new(),
            stream: vec![
                Token::Ident("A".to_string()),
                Token::Punct('='),
                Token::Literal("\"one\"".to_string()),
            ],
        },
    ];
    let mut parser = Parser::new(Arguments::new());
    assert_eq!(parser.parse(&tokens).unwrap_err().kind, ErrorKind::InvalidInteger);
}

#[test]
fn a_declaration_must_be_complete() {
    assert_eq!(kind("", ""), ErrorKind::IncompleteDeclaration);
    assert_eq!(kind("", "pub"), ErrorKind::IncompleteDeclaration);
    assert_eq!(kind("", "pub(crate)"), ErrorKind::IncompleteDeclaration);
    assert_eq!(kind("", "enum"), ErrorKind::IncompleteDeclaration);
    assert_eq!(kind("", "enum S"), ErrorKind::IncompleteDeclaration);
    assert_eq!(kind("", "enum S { A }"), ErrorKind::IncompleteDeclaration);
    assert_eq!(kind("", "enum S { A = }"), ErrorKind::IncompleteDeclaration);
    assert_eq!(kind("", "enum S { A = 1, B }"), ErrorKind::IncompleteDeclaration);
}

#[test]
fn nothing_may_follow_the_body() {
    let error = refused("", "enum S { A = 1 } , B = 2");
    assert_eq!(error.kind, ErrorKind::UnexpectedToken);
    assert_eq!(error.found, ",");
    assert_eq!(kind("", "enum S { A = 1 } { B = 2 }"), ErrorKind::UnexpectedToken);
    assert_eq!(kind("", "enum S { A = 1 } enum"), ErrorKind::UnexpectedToken);
}

#[test]
fn a_refused_flag_keeps_the_flags_before_it() {
    let mut parser = Parser::new(Arguments::new());
    let error = parser.parse(&lex("pub enum S { A = 1, B = 2, C = 2, D = 8 }")).unwrap_err();
    assert_eq!(error.kind, ErrorKind::DuplicateValue);
    assert_eq!(parser.state, State::ExpectValue);
    assert_eq!(parser.last_flag, "C");
    assert_eq!(values(&parser), vec![("A".to_string(), 1), ("B".to_string(), 2)]);
    assert_eq!(parser.declaration.all_set_bits, 3);
    assert_eq!(parser.declaration.name, "S");
}

#[test]
fn messages_name_both_entries_of_a_conflict() {
    assert_eq!(
        refused("", "enum S { V1 = 1, V2 = 1 }").message(),
        "two flags have the same value: `V2`, in conflict with `V1`"
    );
    assert_eq!(
        refused("", "enum S { Flag = 1, FLAG = 2 }").message(),
        "a flag is declared twice (the case of letters is not told apart): `FLAG`, in conflict with `Flag`"
    );
    assert_eq!(
        refused("bits = 8", "enum S { V1 = 256 }").message(),
        "the value does not fit the bits of the storage type: `256`"
    );
    assert_eq!(
        refused("", "enum S").message(),
        "the declaration ends before its body is complete"
    );
}

#[test]
fn the_text_is_emitted_in_stages() {
    let mut parser = accepted("bits = 8", "pub enum S { A = 1 }");
    let after_parse = parser.output.len();
    assert_eq!(after_parse, 9 + 3);
    parser.add_methods();
    let after_methods = parser.output.len();
    assert_eq!(after_methods, after_parse + 5 + 9 + 6 * 3 + 5);
    parser.add_operators();
    let after_operators = parser.output.len();
    assert_eq!(after_operators, after_methods + 7 * 3 + 7 + 1 + 1);
    assert!(parser.output.iter().any(|piece| matches!(piece, Piece::Slot(Placeholder::Name))));
    parser.replace_template_parameters();
    assert_eq!(parser.output.len(), after_operators);
    assert!(parser.output.iter().all(|piece| matches!(piece, Piece::Text(_))));
    let text = parser.stream();
    assert!(text.starts_with("#[derive(Copy, Clone, Debug)]\npub struct S {\n    value: u8,\n}\n"));
    assert!(text.contains("    pub const A: Self = Self { value: 0x1u8 };\n"));
    assert!(text.contains("    pub const None: Self = Self { value: 0 };\n"));
    assert!(text.contains("    pub fn from_value(value: u8) -> Option<Self> {\n        if value & 0x1u8 == value {"));
    assert!(text.contains("    pub const fn get_value(&self) -> u8 {"));
    assert!(text.contains("impl std::fmt::Display for S {"));
    assert!(text.ends_with("            f.write_str(\")\")?;\n        }\n        Ok(())\n    }\n}\n"));
}

#[test]
fn a_placeholder_that_was_not_replaced_is_written_as_its_marker() {
    let mut parser = accepted("", "pub enum S { A = 1 }");
    parser.add_methods();
    let text = parser.stream();
    assert!(text.starts_with("#[derive(Copy, Clone, Debug)]\n$$(VISIBILITY)$$struct $$(NAME)$$ {\n    value: $$(BITS)$$,\n}\n"));
    assert!(text.contains("$$(VISIBILITY)$$const $$(EMPTY)$$: Self = Self { value: 0 };"));
    assert!(text.contains("$$(DISABLE_EMPTY_CODE)$$        if value & $$(ALL_SET_BITS)$$ == value {"));
}

#[test]
fn the_empty_constant_is_emitted_where_it_is_due() {
    let with = generate(&lex(""), &lex("enum S { A = 1 }")).unwrap();
    assert!(with.contains("    const None: Self = Self { value: 0 };\n"));
    let named = generate(&lex("empty = Nothing"), &lex("enum S { A = 1 }")).unwrap();
    assert!(named.contains("    const Nothing: Self = Self { value: 0 };\n"));
    assert!(named.contains("f.write_str(\"Nothing)\")?;"));
    let declared = generate(&lex(""), &lex("enum S { A = 1, Zero = 0 }")).unwrap();
    assert!(declared.contains("    const Zero: Self = Self { value: 0x0u32 };\n"));
    assert!(!declared.contains("{ value: 0 };"));
    assert!(declared.contains("f.write_str(\"Zero)\")?;"));
    assert!(!declared.contains("(self.value & 0x0u32)"));
    let disabled = generate(&lex("disable_empty_generation = true"), &lex("enum S { A = 1 }")).unwrap();
    assert!(!disabled.contains("{ value: 0 };"));
    assert!(disabled.contains("        if value == 0 {\n            return None;\n        }\n        if value & 0x1u32 == value {"));
    assert!(!with.contains("if value == 0 {"));
}

#[test]
fn the_visibility_stands_before_every_public_member() {
    let text = generate(&lex(""), &lex("pub(crate) enum S { A = 1, B = 2 }")).unwrap();
    assert!(text.contains("pub(crate) struct S {"));
    assert_eq!(text.matches("    pub(crate) const ").count(), 4);
    assert_eq!(text.matches("    pub(crate) fn ").count(), 7);
    assert_eq!(text.matches("pub(crate) ").count(), 12);
    let text = generate(&lex(""), &lex("enum S { A = 1, B = 2 }")).unwrap();
    assert_eq!(text.matches("pub").count(), 0);
}

#[test]
fn the_renderer_lists_the_flags_in_ascending_order() {
    let text = generate(&lex("bits = 16"), &lex("enum S { High = 0x8000, Low = 1, Mid = 0x10 }")).unwrap();
    let low = text.find("if (self.value & 0x1u16) == 0x1u16 {").unwrap();
    let mid = text.find("if (self.value & 0x10u16) == 0x10u16 {").unwrap();
    let high = text.find("if (self.value & 0x8000u16) == 0x8000u16 {").unwrap();
    assert!(low < mid && mid < high);
    let first = text.find("const High: Self = Self { value: 0x8000u16 };").unwrap();
    let second = text.find("const Low: Self = Self { value: 0x1u16 };").unwrap();
    let third = text.find("const Mid: Self = Self { value: 0x10u16 };").unwrap();
    assert!(first < second && second < third);
}

#[test]
fn expansion_refuses_what_the_parsers_refuse() {
    assert_eq!(generate(&lex("bits = 7"), &lex("enum S { A = 1 }")).unwrap_err().kind, ErrorKind::InvalidBits);
    assert_eq!(generate(&lex("bits = 8,"), &lex("enum S { A = 1 }")).unwrap_err().kind, ErrorKind::IncompleteArguments);
    assert_eq!(generate(&lex("bits = 8"), &lex("enum S { A = 256 }")).unwrap_err().kind, ErrorKind::ValueTooLarge);
    assert_eq!(generate(&lex(""), &lex("enum S { A = 1, B = 1 }")).unwrap_err().kind, ErrorKind::DuplicateValue);
    assert_eq!(generate(&lex(""), &lex("enum S")).unwrap_err().kind, ErrorKind::IncompleteDeclaration);
}

#[test]
fn every_flag_is_accepted_as_a_raw_value() {
    let d = accepted("bits = 16", "enum S { A = 1, B = 6, C = 0x8000, Zero = 0 }").declaration;
    for variant in &d.variants {
        assert_eq!(d.from_value(variant.value), Some(BitFlags { value: variant.value }));
    }
    let union = d.from_value(1).unwrap() | d.from_value(6).unwrap() | d.from_value(0x8000).unwrap();
    assert_eq!(union.get_value(), d.all_set_bits);
    assert_eq!(d.from_value(union.get_value()), Some(union));
    assert_eq!(d.from_value(0), Some(BitFlags { value: 0 }));
}

#[test]
fn flags_are_found_by_value_and_by_fingerprint() {
    let d = accepted("", "enum S { A = 1, B = 6, C = 8 }").declaration;
    assert_eq!(d.find_value(1), 0);
    assert_eq!(d.find_value(6), 1);
    assert_eq!(d.find_value(8), 2);
    assert_eq!(d.find_value(2), 3);
    assert_eq!(d.find_hash(enum_bit_flags::utils::compute_string_hash(b"b")), 1);
    assert_eq!(d.find_hash(enum_bit_flags::utils::compute_string_hash(b"C")), 2);
    assert_eq!(d.find_hash(enum_bit_flags::utils::compute_string_hash(b"D")), 3);
    assert_eq!(d.find_hash(0), 3);
}

#[test]
fn the_same_flags_in_another_order_are_shown_alike() {
    let one = accepted("", "enum S { A = 1, B = 2, C = 4, D = 0x18 }").declaration;
    let other = accepted("", "enum S { D = 0x18, C = 4, B = 2, A = 1 }").declaration;
    for raw in 0..32u128 {
        assert_eq!(one.display(BitFlags { value: raw }), other.display(BitFlags { value: raw }));
    }
    assert_eq!(one.display(BitFlags { value: 31 }), "S (A | B | C | D)");
}
