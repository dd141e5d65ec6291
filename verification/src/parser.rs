//! The parser of declarations. It follows the state machine of
//! [`crate::grammar`] token by token and emits the text of the type in
//! stages: the definition and the constants while it parses, then the
//! methods, the operators, and at last the resolution of the placeholders.

use vstd::prelude::*;
use vstd::string::*;
use crate::arguments::Arguments;
use crate::declaration::{Declaration, Variant};
use crate::error::{Error, ErrorKind, ErrorView};
use crate::grammar::{
    declared, expansion, expect_comma, expect_enum, expect_enum_name, expect_equal, expect_flag,
    expect_open_brace, expect_value, expect_visibility, expect_visibility_group, flag_machine,
    flag_step, initial, machine, parsed, recorded, step, ParserView, State,
};
use crate::machine::{accept, lemma_run_stops, reaches, run};
use crate::template::{
    all_text, concat_pieces, emit_constant, emit_header, emit_methods, emit_operators, fragments,
    methods, operators, resolve_pieces, resolved, source_text, text_of, Piece,
};
use crate::theorems::{lemma_expansion, lemma_recorded};
use crate::tokens::{Delimiter, Token};
use crate::utils::{compute_string_hash, same_text, string_to_number};

verus! {

/// The parser of a declaration, which emits the text of the type as it goes.
#[derive(Debug)]
pub struct Parser {
    /// The text emitted so far.
    pub output: Vec<Piece>,
    pub state: State,
    /// The name of the flag that awaits its value.
    pub last_flag: String,
    /// The fingerprint of that name.
    pub last_flag_hash: u64,
    pub declaration: Declaration,
}

impl View for Parser {
    type V = ParserView;

    open spec fn view(&self) -> ParserView {
        ParserView {
            output: fragments(self.output@),
            state: self.state,
            last_flag: self.last_flag@,
            last_flag_hash: self.last_flag_hash,
            declaration: self.declaration@,
        }
    }
}

impl Parser {
    /// A parser that has read nothing yet, for a declaration under the
    /// given configuration.
    pub fn new(arguments: Arguments) -> (parser: Parser)
        ensures
            parser@ == initial(arguments@),
            parser@.wf(),
    {
        let parser = Parser {
            output: Vec::new(),
            state: State::ExpectVisibility,
            last_flag: String::new(),
            last_flag_hash: 0,
            declaration: Declaration::new(arguments),
        };
        assert(parser@.output =~= Seq::empty());
        parser
    }

    /// Reads the keyword `enum` and emits the definition of the type.
    fn validate_expect_enum(&mut self, token: &Token) -> (result: Result<(), Error>)
        ensures
            reaches(expect_enum(old(self)@, *token), final(self)@, result),
            old(self)@.wf() ==> final(self)@.wf(),
    {
        match token {
            Token::Ident(word) => {
                if same_text(word.as_str(), "enum") {
                    emit_header(&mut self.output);
                    self.state = State::ExpectName;
                    Ok(())
                } else {
                    Err(Error::new(ErrorKind::ExpectedEnum, token.text()))
                }
            },
            _ => Err(Error::new(ErrorKind::ExpectedEnum, token.text())),
        }
    }

    /// Reads `pub`, or else the keyword `enum`.
    fn validate_expect_visibility(&mut self, token: &Token) -> (result: Result<(), Error>)
        ensures
            reaches(expect_visibility(old(self)@, *token), final(self)@, result),
            old(self)@.wf() ==> final(self)@.wf(),
    {
        match token {
            Token::Ident(word) => {
                if same_text(word.as_str(), "pub") {
                    self.state = State::ExpectVisibilityGroup;
                    self.declaration.visibility.append("pub");
                    Ok(())
                } else {
                    self.validate_expect_enum(token)
                }
            },
            _ => Err(Error::new(ErrorKind::ExpectedEnumOrVisibility, token.text())),
        }
    }

    /// Reads the scope of the visibility, or else the keyword `enum`.
    fn validate_expect_visibility_group(&mut self, token: &Token) -> (result: Result<(), Error>)
        ensures
            reaches(expect_visibility_group(old(self)@, *token), final(self)@, result),
            old(self)@.wf() ==> final(self)@.wf(),
    {
        match token {
            Token::Group { delimiter, text, .. } => {
                if *delimiter == Delimiter::Parenthesis {
                    self.declaration.visibility.append(text.as_str());
                    self.state = State::ExpectEnum;
                    Ok(())
                } else {
                    Err(Error::new(ErrorKind::ExpectedVisibilityGroup, token.text()))
                }
            },
            _ => self.validate_expect_enum(token),
        }
    }

    /// Reads the name of the type.
    fn validate_expect_enum_name(&mut self, token: &Token) -> (result: Result<(), Error>)
        ensures
            reaches(expect_enum_name(old(self)@, *token), final(self)@, result),
            old(self)@.wf() ==> final(self)@.wf(),
    {
        match token {
            Token::Ident(name) => {
                self.declaration.name = name.clone();
                self.state = State::ExpectOpenBrace;
                Ok(())
            },
            _ => Err(Error::new(ErrorKind::ExpectedEnumName, token.text())),
        }
    }

    /// Reads the body of the declaration, flag by flag.
    fn validate_expect_open_brace(&mut self, token: &Token) -> (result: Result<(), Error>)
        ensures
            reaches(expect_open_brace(old(self)@, *token), final(self)@, result),
            old(self)@.wf() ==> final(self)@.wf(),
    {
        match token {
            Token::Group { delimiter, stream, .. } => {
                if *delimiter == Delimiter::Brace {
                    self.state = State::ExpectFlag;
                    let read = self.parse_flags(stream);
                    if read.is_err() {
                        return read;
                    }
                    if self.state == State::ExpectFlag || self.state == State::ExpectComma {
                        self.state = State::Finished;
                        Ok(())
                    } else {
                        Err(Error::new(ErrorKind::IncompleteDeclaration, String::new()))
                    }
                } else {
                    Err(Error::new(ErrorKind::ExpectedOpenBrace, token.text()))
                }
            },
            _ => Err(Error::new(ErrorKind::ExpectedOpenBrace, token.text())),
        }
    }

    /// Reads the name of a flag and checks that no earlier flag has its
    /// fingerprint.
    fn validate_expect_flag(&mut self, token: &Token) -> (result: Result<(), Error>)
        ensures
            reaches(expect_flag(old(self)@, *token), final(self)@, result),
            old(self)@.wf() ==> final(self)@.wf(),
    {
        match token {
            Token::Ident(name) => {
                let hash = compute_string_hash(name.as_str().as_bytes());
                let earlier = self.declaration.find_hash(hash);
                if earlier < self.declaration.variants.len() {
                    return Err(
                        Error::conflict(
                            ErrorKind::DuplicateName,
                            name.clone(),
                            self.declaration.variants[earlier].name.clone(),
                        ),
                    );
                }
                self.last_flag = name.clone();
                self.last_flag_hash = hash;
                self.state = State::ExpectEqual;
                Ok(())
            },
            _ => Err(Error::new(ErrorKind::ExpectedFlagName, token.text())),
        }
    }

    /// Reads the `=` between the name of a flag and its value.
    fn validate_expect_equal(&mut self, token: &Token) -> (result: Result<(), Error>)
        requires
            old(self)@.state == State::ExpectEqual,
        ensures
            reaches(expect_equal(old(self)@, *token), final(self)@, result),
            old(self)@.wf() ==> final(self)@.wf(),
    {
        match token {
            Token::Punct(ch) => {
                if *ch == '=' {
                    self.state = State::ExpectValue;
                    Ok(())
                } else {
                    Err(Error::new(ErrorKind::ExpectedEqual, token.text()))
                }
            },
            _ => Err(Error::new(ErrorKind::ExpectedEqual, token.text())),
        }
    }

    /// Reads the value of the pending flag, checks it against the width, the
    /// earlier flags and the configuration, records the flag and emits its
    /// constant.
    fn validate_expect_value(&mut self, token: &Token) -> (result: Result<(), Error>)
        requires
            old(self)@.state == State::ExpectValue,
        ensures
            reaches(expect_value(old(self)@, *token), final(self)@, result),
            old(self)@.wf() ==> final(self)@.wf(),
    {
        match token {
            Token::Literal(literal) => {
                let value = match string_to_number(literal.as_str()) {
                    Some(value) => value,
                    None => {
                        return Err(Error::new(ErrorKind::InvalidInteger, literal.clone()));
                    },
                };
                if value > self.declaration.args.flags_type.max() {
                    return Err(Error::new(ErrorKind::ValueTooLarge, literal.clone()));
                }
                let earlier = self.declaration.find_value(value);
                if earlier < self.declaration.variants.len() {
                    return Err(
                        Error::conflict(
                            ErrorKind::DuplicateValue,
                            self.last_flag.clone(),
                            self.declaration.variants[earlier].name.clone(),
                        ),
                    );
                }
                if value == 0 {
                    if self.declaration.args.disable_empty_generation {
                        return Err(
                            Error::new(ErrorKind::EmptyCaseDisabled, self.last_flag.clone()),
                        );
                    }
                    if self.declaration.args.has_empty_value {
                        return Err(
                            Error::conflict(
                                ErrorKind::EmptyCaseConflict,
                                self.last_flag.clone(),
                                self.declaration.args.none_case.clone(),
                            ),
                        );
                    }
                    self.declaration.has_empty_value = true;
                    self.declaration.args.none_case = self.last_flag.clone();
                }
                proof {
                    if old(self)@.wf() {
                        lemma_recorded(old(self)@, literal@, value);
                    }
                }
                self.declaration.variants.push(
                    Variant { name: self.last_flag.clone(), value, hash: self.last_flag_hash },
                );
                emit_constant(
                    &mut self.output,
                    self.last_flag.as_str(),
                    value,
                    self.declaration.args.flags_type,
                );
                self.state = State::ExpectComma;
                self.declaration.all_set_bits = self.declaration.all_set_bits | value;
                proof {
                    assert(self@.declaration.variants =~= recorded(
                        old(self)@,
                        value,
                    ).declaration.variants);
                }
                Ok(())
            },
            _ => Err(Error::new(ErrorKind::ExpectedLiteral, token.text())),
        }
    }

    /// Reads the `,` after a flag.
    fn validate_expect_comma(&mut self, token: &Token) -> (result: Result<(), Error>)
        ensures
            reaches(expect_comma(old(self)@, *token), final(self)@, result),
            old(self)@.wf() ==> final(self)@.wf(),
    {
        match token {
            Token::Punct(ch) => {
                if *ch == ',' {
                    self.state = State::ExpectFlag;
                    Ok(())
                } else {
                    Err(Error::new(ErrorKind::ExpectedSeparator, token.text()))
                }
            },
            _ => Err(Error::new(ErrorKind::ExpectedSeparator, token.text())),
        }
    }

    /// Reads one token of a body.
    fn validate_flag_token(&mut self, token: &Token) -> (result: Result<(), Error>)
        ensures
            reaches(flag_step(old(self)@, *token), final(self)@, result),
            old(self)@.wf() ==> final(self)@.wf(),
    {
        match self.state {
            State::ExpectFlag => self.validate_expect_flag(token),
            State::ExpectEqual => self.validate_expect_equal(token),
            State::ExpectValue => self.validate_expect_value(token),
            State::ExpectComma => self.validate_expect_comma(token),
            _ => Err(Error::new(ErrorKind::UnexpectedToken, token.text())),
        }
    }

    /// Reads the tokens of a body: `Name = value`, with `,` between each two
    /// and, if one likes, after the last.
    fn parse_flags(&mut self, stream: &Vec<Token>) -> (result: Result<(), Error>)
        ensures
            reaches(run(flag_machine(), old(self)@, stream@), final(self)@, result),
            old(self)@.wf() ==> final(self)@.wf(),
    {
        let mut index: usize = 0;
        while index < stream.len()
            invariant
                index <= stream.len(),
                run(flag_machine(), old(self)@, stream@.take(index as int)) == accept(self@),
                old(self)@.wf() ==> self@.wf(),
            decreases stream.len() - index,
        {
            let ghost before = self@;
            let token = &stream[index];
            let stepped = self.validate_flag_token(token);
            proof {
                let next = stream@.take(index + 1);
                assert(next.drop_last() =~= stream@.take(index as int));
                assert(next.last() == *token);
                assert(run(flag_machine(), old(self)@, next) == flag_step(before, *token));
                if stepped is Err {
                    lemma_run_stops(flag_machine(), old(self)@, stream@, index + 1);
                }
            }
            if stepped.is_err() {
                return stepped;
            }
            index += 1;
        }
        proof {
            assert(stream@.take(index as int) =~= stream@);
        }
        Ok(())
    }

    /// Reads one token of a declaration.
    fn validate_token(&mut self, token: &Token) -> (result: Result<(), Error>)
        ensures
            reaches(step(old(self)@, *token), final(self)@, result),
            old(self)@.wf() ==> final(self)@.wf(),
    {
        match self.state {
            State::ExpectVisibility => self.validate_expect_visibility(token),
            State::ExpectVisibilityGroup => self.validate_expect_visibility_group(token),
            State::ExpectEnum => self.validate_expect_enum(token),
            State::ExpectName => self.validate_expect_enum_name(token),
            State::ExpectOpenBrace => self.validate_expect_open_brace(token),
            State::Finished => Err(Error::new(ErrorKind::UnexpectedToken, token.text())),
            _ => self.validate_flag_token(token),
        }
    }

    /// Reads a declaration, `[pub [(scope)]] enum Name { Flag = value, .. }`,
    /// and emits the definition of the type and the constants of its flags.
    /// On a refusal `self` holds what the tokens before the refused one made
    /// of it.
    pub fn parse(&mut self, input: &Vec<Token>) -> (result: Result<(), Error>)
        ensures
            reaches(parsed(old(self)@, input@), final(self)@, result),
            old(self)@.wf() ==> final(self)@.wf(),
    {
        let mut index: usize = 0;
        while index < input.len()
            invariant
                index <= input.len(),
                run(machine(), old(self)@, input@.take(index as int)) == accept(self@),
                old(self)@.wf() ==> self@.wf(),
            decreases input.len() - index,
        {
            let ghost before = self@;
            let token = &input[index];
            let stepped = self.validate_token(token);
            proof {
                let next = input@.take(index + 1);
                assert(next.drop_last() =~= input@.take(index as int));
                assert(next.last() == *token);
                assert(run(machine(), old(self)@, next) == step(before, *token));
                if stepped is Err {
                    lemma_run_stops(machine(), old(self)@, input@, index + 1);
                }
            }
            if stepped.is_err() {
                return stepped;
            }
            index += 1;
        }
        proof {
            assert(input@.take(index as int) =~= input@);
        }
        if self.state != State::Finished {
            return Err(Error::new(ErrorKind::IncompleteDeclaration, String::new()));
        }
        Ok(())
    }

    /// Emits the constant of the empty case, unless a flag has value zero or
    /// the configuration disables it, and the methods of the type.
    pub fn add_methods(&mut self)
        ensures
            final(self)@ == (ParserView {
                output: old(self)@.output + methods(
                    old(self)@.declaration.emits_empty_constant(),
                ),
                ..old(self)@
            }),
    {
        let with_empty_constant = !self.declaration.has_empty_value
            && !self.declaration.args.disable_empty_generation;
        emit_methods(&mut self.output, with_empty_constant);
    }

    /// Emits the operators, the default and the renderer of the type.
    pub fn add_operators(&mut self)
        ensures
            final(self)@ == (ParserView {
                output: old(self)@.output + operators(old(self)@.declaration),
                ..old(self)@
            }),
    {
        emit_operators(&mut self.output, &self.declaration);
    }

    /// Replaces every placeholder in the emitted text by what it stands for
    /// in the declaration. No placeholder is left.
    pub fn replace_template_parameters(&mut self)
        ensures
            final(self)@ == (ParserView {
                output: resolved(old(self)@.output, old(self)@.declaration),
                ..old(self)@
            }),
            all_text(final(self)@.output),
    {
        resolve_pieces(&mut self.output, &self.declaration);
    }

    /// The emitted text.
    pub fn stream(self) -> (text: String)
        ensures
            text@ == text_of(self@.output),
    {
        concat_pieces(&self.output)
    }
}

/// Expands a declaration under a configuration into the source text of its
/// bitmask type. Any refusal ends the expansion: there is no partial text.
pub fn generate(arguments: &Vec<Token>, input: &Vec<Token>) -> (result: Result<String, Error>)
    ensures
        match result {
            Ok(text) => expansion(arguments@, input@) == Ok::<Seq<char>, ErrorView>(text@)
                && text@ == source_text(declared(arguments@, input@)),
            Err(error) => expansion(arguments@, input@) == Err::<Seq<char>, ErrorView>(error@),
        },
{
    proof {
        if expansion(arguments@, input@) is Ok {
            lemma_expansion(arguments@, input@);
        }
    }
    let mut configuration = Arguments::new();
    match configuration.parse(arguments) {
        Err(error) => {
            return Err(error);
        },
        Ok(_) => {},
    }
    let mut parser = Parser::new(configuration);
    match parser.parse(input) {
        Err(error) => {
            return Err(error);
        },
        Ok(_) => {},
    }
    parser.add_methods();
    parser.add_operators();
    parser.replace_template_parameters();
    Ok(parser.stream())
}

} // verus!
