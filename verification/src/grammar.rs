//! What the tokens of a declaration mean: a state machine that reads
//! `[pub [(scope)]] enum Name { Flag = value, .. }`, checks every flag against
//! the flags before it, and says what is emitted for each.

use vstd::prelude::*;
use vstd::utf8::encode_utf8;
use crate::arguments::{default_arguments, ArgumentsView};
use crate::declaration::{hash_index, value_index, DeclarationView, VariantView};
use crate::error::{conflict, refusal, ErrorKind, ErrorView};
use crate::machine::{accept, refuse, run, Outcome};
use crate::template::{constant, header, methods, operators, resolved, text_of, Fragment};
use crate::tokens::{token_text, Delimiter, Token};
use crate::utils::{number_of_literal, string_hash};

verus! {

/// What the declaration parser expects next.
#[derive(Clone, Copy, PartialEq, Eq, Structural, Debug)]
pub enum State {
    ExpectVisibility,
    ExpectVisibilityGroup,
    ExpectEnum,
    ExpectName,
    ExpectOpenBrace,
    ExpectFlag,
    ExpectEqual,
    ExpectValue,
    ExpectComma,
    /// The body was read: nothing may follow.
    Finished,
}

/// The mathematical content of a [`crate::parser::Parser`].
pub struct ParserView {
    pub output: Seq<Fragment>,
    pub state: State,
    pub last_flag: Seq<char>,
    pub last_flag_hash: u64,
    pub declaration: DeclarationView,
}

impl ParserView {
    /// The invariant of a parser: that of its declaration, and, while a flag
    /// awaits its value, that the fingerprint kept for it is that of its
    /// name and that of no recorded flag.
    pub open spec fn wf(self) -> bool {
        &&& self.declaration.wf()
        &&& (self.state == State::ExpectEqual || self.state == State::ExpectValue) ==> {
            &&& self.last_flag_hash == string_hash(encode_utf8(self.last_flag))
            &&& hash_index(self.declaration.variants, self.last_flag_hash)
                == self.declaration.variants.len()
        }
    }

    /// The same parser in another state.
    pub open spec fn at(self, state: State) -> ParserView {
        ParserView { state, ..self }
    }
}

/// The parser before the first token.
pub open spec fn initial(arguments: ArgumentsView) -> ParserView {
    ParserView {
        output: Seq::empty(),
        state: State::ExpectVisibility,
        last_flag: Seq::empty(),
        last_flag_hash: 0,
        declaration: DeclarationView {
            args: arguments,
            name: Seq::empty(),
            visibility: Seq::empty(),
            variants: Seq::empty(),
            has_empty_value: false,
            all_set_bits: 0,
        },
    }
}

/// The parser with text added to the visibility qualifier.
pub open spec fn with_visibility(p: ParserView, text: Seq<char>, state: State) -> ParserView {
    ParserView {
        state,
        declaration: DeclarationView {
            visibility: p.declaration.visibility + text,
            ..p.declaration
        },
        ..p
    }
}

/// The keyword `enum` opens the definition of the type.
pub open spec fn expect_enum(p: ParserView, token: Token) -> Outcome<ParserView> {
    match token {
        Token::Ident(word) if word@ == "enum"@ => accept(
            ParserView { output: p.output + header(), state: State::ExpectName, ..p },
        ),
        _ => refuse(p, refusal(ErrorKind::ExpectedEnum, token_text(token))),
    }
}

/// A declaration starts with `pub` or with `enum`.
pub open spec fn expect_visibility(p: ParserView, token: Token) -> Outcome<ParserView> {
    match token {
        Token::Ident(word) => if word@ == "pub"@ {
            accept(with_visibility(p, "pub"@, State::ExpectVisibilityGroup))
        } else {
            expect_enum(p, token)
        },
        _ => refuse(p, refusal(ErrorKind::ExpectedEnumOrVisibility, token_text(token))),
    }
}

/// `pub` is followed by a scope in parentheses or by `enum`.
pub open spec fn expect_visibility_group(p: ParserView, token: Token) -> Outcome<ParserView> {
    match token {
        Token::Group { delimiter, text, .. } => if delimiter == Delimiter::Parenthesis {
            accept(with_visibility(p, text@, State::ExpectEnum))
        } else {
            refuse(p, refusal(ErrorKind::ExpectedVisibilityGroup, token_text(token)))
        },
        _ => expect_enum(p, token),
    }
}

/// `enum` is followed by the name of the type.
pub open spec fn expect_enum_name(p: ParserView, token: Token) -> Outcome<ParserView> {
    match token {
        Token::Ident(name) => accept(
            ParserView {
                state: State::ExpectOpenBrace,
                declaration: DeclarationView { name: name@, ..p.declaration },
                ..p
            },
        ),
        _ => refuse(p, refusal(ErrorKind::ExpectedEnumName, token_text(token))),
    }
}

/// A flag starts with its name, whose fingerprint no earlier flag may have.
pub open spec fn expect_flag(p: ParserView, token: Token) -> Outcome<ParserView> {
    match token {
        Token::Ident(name) => {
            let hash = string_hash(encode_utf8(name@));
            let earlier = hash_index(p.declaration.variants, hash);
            if earlier < p.declaration.variants.len() {
                refuse(
                    p,
                    conflict(
                        ErrorKind::DuplicateName,
                        name@,
                        p.declaration.variants[earlier].name,
                    ),
                )
            } else {
                accept(
                    ParserView {
                        last_flag: name@,
                        last_flag_hash: hash,
                        state: State::ExpectEqual,
                        ..p
                    },
                )
            }
        },
        _ => refuse(p, refusal(ErrorKind::ExpectedFlagName, token_text(token))),
    }
}

/// The name of a flag is followed by `=`.
pub open spec fn expect_equal(p: ParserView, token: Token) -> Outcome<ParserView> {
    match token {
        Token::Punct(ch) if ch == '=' => accept(p.at(State::ExpectValue)),
        _ => refuse(p, refusal(ErrorKind::ExpectedEqual, token_text(token))),
    }
}

/// The parser after the pending flag was recorded with the given value: the
/// flag is the last variant, its bits are in the union, its constant is
/// emitted, and if its value is zero it has given the empty case its name.
pub open spec fn recorded(p: ParserView, value: u128) -> ParserView {
    let d = p.declaration;
    ParserView {
        output: p.output + constant(p.last_flag, value, d.args.flags_type),
        state: State::ExpectComma,
        declaration: DeclarationView {
            args: ArgumentsView {
                none_case: if value == 0 {
                    p.last_flag
                } else {
                    d.args.none_case
                },
                ..d.args
            },
            variants: d.variants.push(
                VariantView { name: p.last_flag, value, hash: p.last_flag_hash },
            ),
            has_empty_value: d.has_empty_value || value == 0,
            all_set_bits: d.all_set_bits | value,
            ..d
        },
        ..p
    }
}

/// What the value of the pending flag does: it must fit the width, no
/// earlier flag may have it, and zero is refused where the configuration
/// disables or names the empty case.
pub open spec fn record(p: ParserView, literal: Seq<char>, value: u128) -> Outcome<ParserView> {
    let d = p.declaration;
    let earlier = value_index(d.variants, value);
    if value > d.args.flags_type.max_value() {
        refuse(p, refusal(ErrorKind::ValueTooLarge, literal))
    } else if earlier < d.variants.len() {
        refuse(p, conflict(ErrorKind::DuplicateValue, p.last_flag, d.variants[earlier].name))
    } else if value == 0 && d.args.disable_empty_generation {
        refuse(p, refusal(ErrorKind::EmptyCaseDisabled, p.last_flag))
    } else if value == 0 && d.args.has_empty_value {
        refuse(p, conflict(ErrorKind::EmptyCaseConflict, p.last_flag, d.args.none_case))
    } else {
        accept(recorded(p, value))
    }
}

/// `=` is followed by an integer literal, the value of the flag.
pub open spec fn expect_value(p: ParserView, token: Token) -> Outcome<ParserView> {
    match token {
        Token::Literal(literal) => match number_of_literal(encode_utf8(literal@)) {
            Some(value) => record(p, literal@, value),
            None => refuse(p, refusal(ErrorKind::InvalidInteger, literal@)),
        },
        _ => refuse(p, refusal(ErrorKind::ExpectedLiteral, token_text(token))),
    }
}

/// A flag is followed by `,`.
pub open spec fn expect_comma(p: ParserView, token: Token) -> Outcome<ParserView> {
    match token {
        Token::Punct(ch) if ch == ',' => accept(p.at(State::ExpectFlag)),
        _ => refuse(p, refusal(ErrorKind::ExpectedSeparator, token_text(token))),
    }
}

/// What one token of a body does.
pub open spec fn flag_step(p: ParserView, token: Token) -> Outcome<ParserView> {
    match p.state {
        State::ExpectFlag => expect_flag(p, token),
        State::ExpectEqual => expect_equal(p, token),
        State::ExpectValue => expect_value(p, token),
        State::ExpectComma => expect_comma(p, token),
        _ => refuse(p, refusal(ErrorKind::UnexpectedToken, token_text(token))),
    }
}

/// [`flag_step`] as a value.
pub open spec fn flag_machine() -> spec_fn(ParserView, Token) -> Outcome<ParserView> {
    |p: ParserView, token: Token| flag_step(p, token)
}

/// What the tokens of a body do: each token in turn, and the body must not
/// end inside a flag.
pub open spec fn body(p: ParserView, stream: Seq<Token>) -> Outcome<ParserView> {
    let end = run(flag_machine(), p.at(State::ExpectFlag), stream);
    if end.error is Some {
        end
    } else if end.state.state == State::ExpectFlag || end.state.state == State::ExpectComma {
        accept(end.state.at(State::Finished))
    } else {
        refuse(end.state, refusal(ErrorKind::IncompleteDeclaration, Seq::empty()))
    }
}

/// The name of the type is followed by the body, a group in braces.
pub open spec fn expect_open_brace(p: ParserView, token: Token) -> Outcome<ParserView> {
    match token {
        Token::Group { delimiter, stream, .. } if delimiter == Delimiter::Brace => body(
            p,
            stream@,
        ),
        _ => refuse(p, refusal(ErrorKind::ExpectedOpenBrace, token_text(token))),
    }
}

/// What one token of a declaration does.
pub open spec fn step(p: ParserView, token: Token) -> Outcome<ParserView> {
    match p.state {
        State::ExpectVisibility => expect_visibility(p, token),
        State::ExpectVisibilityGroup => expect_visibility_group(p, token),
        State::ExpectEnum => expect_enum(p, token),
        State::ExpectName => expect_enum_name(p, token),
        State::ExpectOpenBrace => expect_open_brace(p, token),
        State::Finished => refuse(p, refusal(ErrorKind::UnexpectedToken, token_text(token))),
        _ => flag_step(p, token),
    }
}

/// [`step`] as a value.
pub open spec fn machine() -> spec_fn(ParserView, Token) -> Outcome<ParserView> {
    |p: ParserView, token: Token| step(p, token)
}

/// What the tokens of a declaration do: each token in turn, and the
/// declaration must have its body.
pub open spec fn parsed(p: ParserView, tokens: Seq<Token>) -> Outcome<ParserView> {
    let end = run(machine(), p, tokens);
    if end.error is None && end.state.state != State::Finished {
        refuse(end.state, refusal(ErrorKind::IncompleteDeclaration, Seq::empty()))
    } else {
        end
    }
}

/// The text of the type that an accepted declaration describes.
pub open spec fn emitted(p: ParserView) -> Seq<char> {
    let d = p.declaration;
    text_of(resolved(p.output + methods(d.emits_empty_constant()) + operators(d), d))
}

/// What a configuration and a declaration expand to: the text of the type,
/// or the first refusal.
pub open spec fn expansion(arguments: Seq<Token>, input: Seq<Token>) -> Result<
    Seq<char>,
    ErrorView,
> {
    let configured = crate::arguments::parsed(default_arguments(), arguments);
    match configured.error {
        Some(error) => Err(error),
        None => {
            let declared = parsed(initial(configured.state), input);
            match declared.error {
                Some(error) => Err(error),
                None => Ok(emitted(declared.state)),
            }
        },
    }
}

/// The declaration that a configuration and the tokens of a declaration
/// leave behind.
pub open spec fn declared(arguments: Seq<Token>, input: Seq<Token>) -> DeclarationView {
    let configured = crate::arguments::parsed(default_arguments(), arguments);
    parsed(initial(configured.state), input).state.declaration
}

} // verus!
