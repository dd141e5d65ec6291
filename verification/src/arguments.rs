//! The configuration of a declaration: a list of `key = value` pairs that
//! choose the width of the storage, name or disable the empty case, and
//! switch the showing of the emitted text on.

use vstd::prelude::*;
use vstd::string::*;
use crate::error::{refusal, Error, ErrorKind};
use crate::flags_type::FlagsType;
use crate::machine::{accept, lemma_run_stops, reaches, refuse, run, Outcome};
use crate::tokens::{token_text, Token};
use crate::utils::{is_valid_name, same_text, validate_enum_variant_name};

verus! {

/// What the configuration parser expects next.
#[derive(Clone, Copy, PartialEq, Eq, Structural, Debug)]
pub enum ArgumentState {
    ExpectKey,
    ExpectEqual,
    ExpectValue,
    ExpectComma,
}

/// The configuration of one declaration, with the state of its parser.
#[derive(Debug)]
pub struct Arguments {
    /// Width of the emitted storage type.
    pub flags_type: FlagsType,
    /// Name of the constant that stands for "no bit set".
    pub none_case: String,
    /// The configuration names the empty case.
    pub has_empty_value: bool,
    /// No empty constant is emitted, and no flag may have value zero.
    pub disable_empty_generation: bool,
    /// The emitted text is to be shown as well.
    pub debug_mode: bool,
    pub state: ArgumentState,
    /// The key that awaits its value.
    pub key: String,
}

/// The mathematical content of [`Arguments`].
pub struct ArgumentsView {
    pub flags_type: FlagsType,
    pub none_case: Seq<char>,
    pub has_empty_value: bool,
    pub disable_empty_generation: bool,
    pub debug_mode: bool,
    pub state: ArgumentState,
    pub key: Seq<char>,
}

impl View for Arguments {
    type V = ArgumentsView;

    open spec fn view(&self) -> ArgumentsView {
        ArgumentsView {
            flags_type: self.flags_type,
            none_case: self.none_case@,
            has_empty_value: self.has_empty_value,
            disable_empty_generation: self.disable_empty_generation,
            debug_mode: self.debug_mode,
            state: self.state,
            key: self.key@,
        }
    }
}

/// The configuration that an empty token sequence yields: 32 bits, the empty
/// case named `None`, nothing switched on.
pub open spec fn default_arguments() -> ArgumentsView {
    ArgumentsView {
        flags_type: FlagsType::U32,
        none_case: "None"@,
        has_empty_value: false,
        disable_empty_generation: false,
        debug_mode: false,
        state: ArgumentState::ExpectKey,
        key: Seq::empty(),
    }
}

/// The width that a value of `bits` selects.
pub open spec fn bits_of(value: Seq<char>) -> Option<FlagsType> {
    if value == "8"@ {
        Some(FlagsType::U8)
    } else if value == "16"@ {
        Some(FlagsType::U16)
    } else if value == "32"@ {
        Some(FlagsType::U32)
    } else if value == "64"@ {
        Some(FlagsType::U64)
    } else if value == "128"@ {
        Some(FlagsType::U128)
    } else {
        None
    }
}

/// The switch that a value of `disable_empty_generation` selects.
pub open spec fn switch_of(value: Seq<char>) -> Option<bool> {
    if value == "true"@ || value == "yes"@ {
        Some(true)
    } else if value == "false"@ || value == "no"@ {
        Some(false)
    } else {
        None
    }
}

/// The effect of `bits = value`.
pub open spec fn apply_bits(a: ArgumentsView, value: Seq<char>) -> Outcome<ArgumentsView> {
    match bits_of(value) {
        Some(flags_type) => accept(ArgumentsView { flags_type, ..a }),
        None => refuse(a, refusal(ErrorKind::InvalidBits, value)),
    }
}

/// The effect of `empty = value`.
pub open spec fn apply_empty(a: ArgumentsView, value: Seq<char>) -> Outcome<ArgumentsView> {
    if is_valid_name(value) {
        accept(ArgumentsView { none_case: value, has_empty_value: true, ..a })
    } else {
        refuse(a, refusal(ErrorKind::InvalidEmptyName, value))
    }
}

/// The effect of `disable_empty_generation = value`.
pub open spec fn apply_noempty(a: ArgumentsView, value: Seq<char>) -> Outcome<ArgumentsView> {
    match switch_of(value) {
        Some(disable_empty_generation) => accept(ArgumentsView { disable_empty_generation, ..a }),
        None => refuse(a, refusal(ErrorKind::InvalidDisableEmptyGeneration, value)),
    }
}

/// The effect of `debug = value`: any value but `false` switches it on.
pub open spec fn apply_debug(a: ArgumentsView, value: Seq<char>) -> Outcome<ArgumentsView> {
    accept(ArgumentsView { debug_mode: value != "false"@, ..a })
}

/// The effect of the pair made of the pending key and `value`.
pub open spec fn apply_pair(a: ArgumentsView, value: Seq<char>) -> Outcome<ArgumentsView> {
    if a.key == "bits"@ {
        apply_bits(a, value)
    } else if a.key == "empty"@ {
        apply_empty(a, value)
    } else if a.key == "disable_empty_generation"@ {
        apply_noempty(a, value)
    } else if a.key == "debug"@ {
        apply_debug(a, value)
    } else {
        refuse(a, refusal(ErrorKind::UnknownAttribute, a.key))
    }
}

/// A key is an identifier.
pub open spec fn expect_key(a: ArgumentsView, token: Token) -> Outcome<ArgumentsView> {
    match token {
        Token::Ident(name) => accept(
            ArgumentsView { key: name@, state: ArgumentState::ExpectEqual, ..a },
        ),
        _ => refuse(a, refusal(ErrorKind::ExpectedKey, token_text(token))),
    }
}

/// A key is followed by `=` or `:`.
pub open spec fn expect_equal(a: ArgumentsView, token: Token) -> Outcome<ArgumentsView> {
    match token {
        Token::Punct(ch) if ch == '=' || ch == ':' => accept(
            ArgumentsView { state: ArgumentState::ExpectValue, ..a },
        ),
        _ => refuse(a, refusal(ErrorKind::ExpectedAssignment, token_text(token))),
    }
}

/// A value is an identifier or a literal; it is applied at once.
pub open spec fn expect_value(a: ArgumentsView, token: Token) -> Outcome<ArgumentsView> {
    match token {
        Token::Ident(text) | Token::Literal(text) => {
            let applied = apply_pair(a, text@);
            if applied.error is Some {
                applied
            } else {
                accept(ArgumentsView { state: ArgumentState::ExpectComma, ..applied.state })
            }
        },
        _ => refuse(a, refusal(ErrorKind::ExpectedValue, token_text(token))),
    }
}

/// A pair is followed by `,`.
pub open spec fn expect_comma(a: ArgumentsView, token: Token) -> Outcome<ArgumentsView> {
    match token {
        Token::Punct(ch) if ch == ',' => accept(
            ArgumentsView { state: ArgumentState::ExpectKey, ..a },
        ),
        _ => refuse(a, refusal(ErrorKind::ExpectedDelimiter, token_text(token))),
    }
}

/// What one token does to the configuration.
pub open spec fn step(a: ArgumentsView, token: Token) -> Outcome<ArgumentsView> {
    match a.state {
        ArgumentState::ExpectKey => expect_key(a, token),
        ArgumentState::ExpectEqual => expect_equal(a, token),
        ArgumentState::ExpectValue => expect_value(a, token),
        ArgumentState::ExpectComma => expect_comma(a, token),
    }
}

/// [`step`] as a value.
pub open spec fn machine() -> spec_fn(ArgumentsView, Token) -> Outcome<ArgumentsView> {
    |a: ArgumentsView, token: Token| step(a, token)
}

/// What a token sequence does to the configuration: every token in turn,
/// and then the sequence, unless it is empty, must have ended with a value.
pub open spec fn parsed(a: ArgumentsView, tokens: Seq<Token>) -> Outcome<ArgumentsView> {
    let end = run(machine(), a, tokens);
    if end.error is None && tokens.len() > 0 && end.state.state != ArgumentState::ExpectComma {
        refuse(end.state, refusal(ErrorKind::IncompleteArguments, Seq::empty()))
    } else {
        end
    }
}

impl Arguments {
    /// The configuration of a declaration that configures nothing.
    pub fn new() -> (arguments: Arguments)
        ensures
            arguments@ == default_arguments(),
    {
        Arguments {
            flags_type: FlagsType::U32,
            none_case: String::from_str("None"),
            has_empty_value: false,
            disable_empty_generation: false,
            debug_mode: false,
            state: ArgumentState::ExpectKey,
            key: String::new(),
        }
    }

    /// Sets the width from the value of `bits`.
    fn validate_bits_attribute(&mut self, value: &String) -> (result: Result<(), Error>)
        ensures
            reaches(apply_bits(old(self)@, value@), final(self)@, result),
    {
        let text = value.as_str();
        if same_text(text, "8") {
            self.flags_type = FlagsType::U8;
        } else if same_text(text, "16") {
            self.flags_type = FlagsType::U16;
        } else if same_text(text, "32") {
            self.flags_type = FlagsType::U32;
        } else if same_text(text, "64") {
            self.flags_type = FlagsType::U64;
        } else if same_text(text, "128") {
            self.flags_type = FlagsType::U128;
        } else {
            return Err(Error::new(ErrorKind::InvalidBits, value.clone()));
        }
        Ok(())
    }

    /// Names the empty case after the value of `empty`.
    fn validate_empty_attribute(&mut self, value: &String) -> (result: Result<(), Error>)
        ensures
            reaches(apply_empty(old(self)@, value@), final(self)@, result),
    {
        if !validate_enum_variant_name(value.as_str()) {
            return Err(Error::new(ErrorKind::InvalidEmptyName, value.clone()));
        }
        self.none_case = value.clone();
        self.has_empty_value = true;
        Ok(())
    }

    /// Sets the switch from the value of `disable_empty_generation`.
    fn validate_noempty_attribute(&mut self, value: &String) -> (result: Result<(), Error>)
        ensures
            reaches(apply_noempty(old(self)@, value@), final(self)@, result),
    {
        let text = value.as_str();
        if same_text(text, "true") || same_text(text, "yes") {
            self.disable_empty_generation = true;
        } else if same_text(text, "false") || same_text(text, "no") {
            self.disable_empty_generation = false;
        } else {
            return Err(Error::new(ErrorKind::InvalidDisableEmptyGeneration, value.clone()));
        }
        Ok(())
    }

    /// Sets the switch from the value of `debug`.
    fn validate_debug_attribute(&mut self, value: &String) -> (result: Result<(), Error>)
        ensures
            reaches(apply_debug(old(self)@, value@), final(self)@, result),
    {
        self.debug_mode = !same_text(value.as_str(), "false");
        Ok(())
    }

    /// Applies the pair made of the pending key and `value`.
    fn validate_key_value_pair(&mut self, value: &String) -> (result: Result<(), Error>)
        ensures
            reaches(apply_pair(old(self)@, value@), final(self)@, result),
    {
        if same_text(self.key.as_str(), "bits") {
            self.validate_bits_attribute(value)
        } else if same_text(self.key.as_str(), "empty") {
            self.validate_empty_attribute(value)
        } else if same_text(self.key.as_str(), "disable_empty_generation") {
            self.validate_noempty_attribute(value)
        } else if same_text(self.key.as_str(), "debug") {
            self.validate_debug_attribute(value)
        } else {
            Err(Error::new(ErrorKind::UnknownAttribute, self.key.clone()))
        }
    }

    /// Reads a key.
    fn validate_expect_key(&mut self, token: &Token) -> (result: Result<(), Error>)
        ensures
            reaches(expect_key(old(self)@, *token), final(self)@, result),
    {
        match token {
            Token::Ident(name) => {
                self.key = name.clone();
                self.state = ArgumentState::ExpectEqual;
                Ok(())
            },
            _ => Err(Error::new(ErrorKind::ExpectedKey, token.text())),
        }
    }

    /// Reads the `=` or `:` after a key.
    fn validate_expect_equal(&mut self, token: &Token) -> (result: Result<(), Error>)
        ensures
            reaches(expect_equal(old(self)@, *token), final(self)@, result),
    {
        match token {
            Token::Punct(ch) => {
                if *ch == '=' || *ch == ':' {
                    self.state = ArgumentState::ExpectValue;
                    Ok(())
                } else {
                    Err(Error::new(ErrorKind::ExpectedAssignment, token.text()))
                }
            },
            _ => Err(Error::new(ErrorKind::ExpectedAssignment, token.text())),
        }
    }

    /// Reads the value of the pending key and applies the pair.
    fn validate_expect_value(&mut self, token: &Token) -> (result: Result<(), Error>)
        ensures
            reaches(expect_value(old(self)@, *token), final(self)@, result),
    {
        let applied = match token {
            Token::Ident(text) => self.validate_key_value_pair(text),
            Token::Literal(text) => self.validate_key_value_pair(text),
            _ => {
                return Err(Error::new(ErrorKind::ExpectedValue, token.text()));
            },
        };
        if applied.is_ok() {
            self.state = ArgumentState::ExpectComma;
        }
        applied
    }

    /// Reads the `,` after a pair.
    fn validate_expect_comma(&mut self, token: &Token) -> (result: Result<(), Error>)
        ensures
            reaches(expect_comma(old(self)@, *token), final(self)@, result),
    {
        match token {
            Token::Punct(ch) => {
                if *ch == ',' {
                    self.state = ArgumentState::ExpectKey;
                    Ok(())
                } else {
                    Err(Error::new(ErrorKind::ExpectedDelimiter, token.text()))
                }
            },
            _ => Err(Error::new(ErrorKind::ExpectedDelimiter, token.text())),
        }
    }

    /// Reads a configuration of the form `key = value, key = value` (`:` may
    /// stand for `=`) into `self`. On a refusal `self` holds what the tokens
    /// before the refused one made of it.
    pub fn parse(&mut self, input: &Vec<Token>) -> (result: Result<(), Error>)
        ensures
            reaches(parsed(old(self)@, input@), final(self)@, result),
    {
        let ghost start = self@;
        let mut index: usize = 0;
        while index < input.len()
            invariant
                index <= input.len(),
                start == old(self)@,
                run(machine(), start, input@.take(index as int)) == accept(self@),
            decreases input.len() - index,
        {
            let ghost before = self@;
            let token = &input[index];
            let stepped = match self.state {
                ArgumentState::ExpectKey => self.validate_expect_key(token),
                ArgumentState::ExpectEqual => self.validate_expect_equal(token),
                ArgumentState::ExpectValue => self.validate_expect_value(token),
                ArgumentState::ExpectComma => self.validate_expect_comma(token),
            };
            proof {
                let next = input@.take(index + 1);
                assert(next.drop_last() =~= input@.take(index as int));
                assert(next.last() == *token);
                assert(run(machine(), start, next) == step(before, *token));
                if stepped is Err {
                    lemma_run_stops(machine(), start, input@, index + 1);
                }
            }
            if stepped.is_err() {
                return stepped;
            }
            index += 1;
        }
        proof {
            assert(input@.take(index as int) =~= input@);
        }
        if input.len() > 0 && self.state != ArgumentState::ExpectComma {
            return Err(Error::new(ErrorKind::IncompleteArguments, String::new()));
        }
        Ok(())
    }
}

} // verus!
