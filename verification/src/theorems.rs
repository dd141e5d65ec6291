//! What holds of every declaration that the parser accepts, and of the text
//! that is emitted for it.

use vstd::prelude::*;
use vstd::utf8::encode_utf8;
use crate::arguments::{default_arguments, ArgumentsView};
use crate::declaration::{
    lemma_hash_index_push, lemma_hash_index_range, lemma_value_index_push,
    lemma_value_index_range, value_index, VariantView,
};
use crate::error::{ErrorKind, ErrorView};
use crate::grammar::{
    declared, expansion, expect_flag, expect_value, flag_machine, flag_step, initial, machine,
    parsed, record, recorded, step, ParserView, State,
};
use crate::literal::{ascii_bytes, lemma_literal_round_trip, value_literal};
use crate::machine::run;
use crate::template::{
    constant, constants, header, methods, operators, source, source_text, Fragment,
};
use crate::tokens::Token;
use crate::utils::{lemma_hash_ignores_case, number_of_literal, same_ignoring_case, string_hash};

verus! {

/// Recording a flag that has passed the checks keeps the invariant, and
/// enters the flag under its value and under its fingerprint.
pub proof fn lemma_recorded(p: ParserView, literal: Seq<char>, value: u128)
    requires
        p.wf(),
        p.state == State::ExpectValue,
        record(p, literal, value).error is None,
    ensures
        recorded(p, value).wf(),
        recorded(p, value).declaration.values_seen() == p.declaration.values_seen().insert(
            value,
            p.last_flag,
        ),
        recorded(p, value).declaration.names_seen() == p.declaration.names_seen().insert(
            p.last_flag_hash,
            value,
        ),
{
    let d = p.declaration;
    let after = recorded(p, value).declaration;
    let added = VariantView { name: p.last_flag, value, hash: p.last_flag_hash };
    let n = d.variants.len() as int;
    lemma_value_index_range(d.variants, value);
    lemma_hash_index_range(d.variants, p.last_flag_hash);
    lemma_value_index_range(d.variants, 0);
    lemma_value_index_push(d.variants, added, 0);
    assert(after.variants == d.variants.push(added));
    assert(after.variants.drop_last() =~= d.variants);
    assert forall|i: int| 0 <= i < n implies (#[trigger] after.variants[i]) == d.variants[i] by {}
    let values = after.values_seen();
    let values_expected = d.values_seen().insert(value, p.last_flag);
    assert forall|seen: u128| #[trigger]
        values.dom().contains(seen) == values_expected.dom().contains(seen) by {
        lemma_value_index_push(d.variants, added, seen);
    }
    assert forall|seen: u128| values.dom().contains(seen) implies #[trigger] values[seen]
        == values_expected[seen] by {
        lemma_value_index_push(d.variants, added, seen);
        lemma_value_index_range(d.variants, seen);
    }
    assert(values =~= values_expected);
    let names = after.names_seen();
    let names_expected = d.names_seen().insert(p.last_flag_hash, value);
    assert forall|seen: u64| #[trigger]
        names.dom().contains(seen) == names_expected.dom().contains(seen) by {
        lemma_hash_index_push(d.variants, added, seen);
    }
    assert forall|seen: u64| names.dom().contains(seen) implies #[trigger] names[seen]
        == names_expected[seen] by {
        lemma_hash_index_push(d.variants, added, seen);
        lemma_hash_index_range(d.variants, seen);
    }
    assert(names =~= names_expected);
}

/// A token of a body keeps the invariant, whether it is accepted or not.
proof fn lemma_flag_step_wf(p: ParserView, token: Token)
    requires
        p.wf(),
    ensures
        flag_step(p, token).state.wf(),
{
    if p.state == State::ExpectFlag {
        if token is Ident {
            lemma_hash_index_range(
                p.declaration.variants,
                string_hash(encode_utf8(token->Ident_0@)),
            );
        }
    } else if p.state == State::ExpectValue {
        if token is Literal {
            let literal = token->Literal_0@;
            let number = number_of_literal(encode_utf8(literal));
            if number is Some && record(p, literal, number.unwrap()).error is None {
                lemma_recorded(p, literal, number.unwrap());
            }
        }
    }
}

/// The tokens of a body keep the invariant.
proof fn lemma_run_flags_wf(p: ParserView, stream: Seq<Token>)
    requires
        p.wf(),
    ensures
        run(flag_machine(), p, stream).state.wf(),
    decreases stream.len(),
{
    if stream.len() > 0 {
        lemma_run_flags_wf(p, stream.drop_last());
        let before = run(flag_machine(), p, stream.drop_last());
        if before.error is None {
            lemma_flag_step_wf(before.state, stream.last());
        }
    }
}

/// A token of a declaration keeps the invariant.
proof fn lemma_step_wf(p: ParserView, token: Token)
    requires
        p.wf(),
    ensures
        step(p, token).state.wf(),
{
    if p.state == State::ExpectOpenBrace {
        if token is Group {
            lemma_run_flags_wf(p.at(State::ExpectFlag), token->stream@);
        }
    } else {
        lemma_flag_step_wf(p, token);
    }
}

/// The tokens of a declaration keep the invariant.
proof fn lemma_run_wf(p: ParserView, tokens: Seq<Token>)
    requires
        p.wf(),
    ensures
        run(machine(), p, tokens).state.wf(),
    decreases tokens.len(),
{
    if tokens.len() > 0 {
        lemma_run_wf(p, tokens.drop_last());
        let before = run(machine(), p, tokens.drop_last());
        if before.error is None {
            lemma_step_wf(before.state, tokens.last());
        }
    }
}

/// Whatever the tokens are, the declaration that they leave behind obeys
/// the invariant of [`DeclarationView::wf`]. So in every accepted
/// declaration each value fits the configured width, no two flags have the
/// same value, no two flags have names that differ in the case of their
/// letters only, at most one flag has value zero, and none has where the
/// configuration disables or names the empty case.
pub proof fn lemma_parsed_wf(arguments: ArgumentsView, tokens: Seq<Token>)
    ensures
        parsed(initial(arguments), tokens).state.wf(),
        parsed(initial(arguments), tokens).state.declaration.wf(),
{
    lemma_run_wf(initial(arguments), tokens);
}

/// While the head of a declaration is read nothing is emitted and no flag
/// is recorded; from the keyword `enum` on, what is emitted is the
/// definition of the type and the constants of the recorded flags.
pub open spec fn emission_in_step(p: ParserView) -> bool {
    let d = p.declaration;
    if p.state == State::ExpectVisibility || p.state == State::ExpectVisibilityGroup || p.state
        == State::ExpectEnum {
        p.output == Seq::<Fragment>::empty() && d.variants.len() == 0
    } else {
        p.output == header() + constants(d.variants, d.args.flags_type)
    }
}

/// A token of a body keeps what is emitted in step with what is recorded.
proof fn lemma_flag_step_emission(p: ParserView, token: Token)
    requires
        emission_in_step(p),
    ensures
        emission_in_step(flag_step(p, token).state),
{
    if p.state == State::ExpectValue && token is Literal {
        let literal = token->Literal_0@;
        let number = number_of_literal(encode_utf8(literal));
        if number is Some && record(p, literal, number.unwrap()).error is None {
            let after = recorded(p, number.unwrap());
            let d = p.declaration;
            assert(after.declaration.variants.drop_last() =~= d.variants);
            assert(after.output =~= header() + constants(
                after.declaration.variants,
                d.args.flags_type,
            ));
        }
    }
}

/// The tokens of a body keep what is emitted in step with what is recorded.
proof fn lemma_run_flags_emission(p: ParserView, stream: Seq<Token>)
    requires
        emission_in_step(p),
    ensures
        emission_in_step(run(flag_machine(), p, stream).state),
    decreases stream.len(),
{
    if stream.len() > 0 {
        lemma_run_flags_emission(p, stream.drop_last());
        let before = run(flag_machine(), p, stream.drop_last());
        if before.error is None {
            lemma_flag_step_emission(before.state, stream.last());
        }
    }
}

/// A token of a declaration keeps what is emitted in step with what is
/// recorded.
proof fn lemma_step_emission(p: ParserView, token: Token)
    requires
        emission_in_step(p),
    ensures
        emission_in_step(step(p, token).state),
{
    if p.state == State::ExpectOpenBrace {
        if token is Group {
            lemma_run_flags_emission(p.at(State::ExpectFlag), token->stream@);
        }
    } else if p.state == State::ExpectVisibility || p.state == State::ExpectVisibilityGroup
        || p.state == State::ExpectEnum {
        let after = step(p, token).state;
        if after.state == State::ExpectName {
            assert(after.output =~= header() + constants(
                after.declaration.variants,
                after.declaration.args.flags_type,
            ));
        }
    } else {
        lemma_flag_step_emission(p, token);
    }
}

/// The tokens of a declaration keep what is emitted in step with what is
/// recorded.
proof fn lemma_run_emission(p: ParserView, tokens: Seq<Token>)
    requires
        emission_in_step(p),
    ensures
        emission_in_step(run(machine(), p, tokens).state),
    decreases tokens.len(),
{
    if tokens.len() > 0 {
        lemma_run_emission(p, tokens.drop_last());
        let before = run(machine(), p, tokens.drop_last());
        if before.error is None {
            lemma_step_emission(before.state, tokens.last());
        }
    }
}

/// The text that an accepted declaration expands to is the source text of
/// the type that the declaration describes: it depends on the tokens only
/// through the declaration that they leave behind, which obeys the
/// invariant of [`DeclarationView::wf`].
pub proof fn lemma_expansion(arguments: Seq<Token>, input: Seq<Token>)
    requires
        expansion(arguments, input) is Ok,
    ensures
        declared(arguments, input).wf(),
        expansion(arguments, input) == Ok::<Seq<char>, ErrorView>(
            source_text(declared(arguments, input)),
        ),
{
    let configured = crate::arguments::parsed(default_arguments(), arguments);
    let start = initial(configured.state);
    lemma_parsed_wf(configured.state, input);
    lemma_run_emission(start, input);
    let end = parsed(start, input).state;
    let d = end.declaration;
    assert(end.output + methods(d.emits_empty_constant()) + operators(d) =~= source(d));
}

/// A flag whose value an earlier flag has is refused, whatever its name.
pub proof fn lemma_duplicate_value_refused(p: ParserView, token: Token, earlier: int)
    requires
        0 <= earlier < p.declaration.variants.len(),
        token matches Token::Literal(literal) && number_of_literal(encode_utf8(literal@)) == Some(
            p.declaration.variants[earlier].value,
        ),
    ensures
        expect_value(p, token).error is Some,
        p.declaration.wf() ==> expect_value(p, token).error.unwrap().kind
            == ErrorKind::DuplicateValue,
{
    let value = p.declaration.variants[earlier].value;
    lemma_value_index_range(p.declaration.variants, value);
}

/// A flag whose name differs from that of an earlier flag in the case of
/// its letters only is refused.
pub proof fn lemma_duplicate_name_refused(p: ParserView, token: Token, earlier: int)
    requires
        p.declaration.wf(),
        0 <= earlier < p.declaration.variants.len(),
        token matches Token::Ident(name) && same_ignoring_case(
            encode_utf8(p.declaration.variants[earlier].name),
            encode_utf8(name@),
        ),
    ensures
        expect_flag(p, token).error is Some,
        expect_flag(p, token).error.unwrap().kind == ErrorKind::DuplicateName,
{
    let before = p.declaration.variants[earlier];
    lemma_hash_ignores_case(encode_utf8(before.name), encode_utf8(token->Ident_0@));
    lemma_hash_index_range(p.declaration.variants, before.hash);
}

/// A value is refused as too large exactly when it exceeds the greatest
/// value of the configured width.
pub proof fn lemma_width_checked(p: ParserView, token: Token)
    requires
        token matches Token::Literal(literal) && number_of_literal(encode_utf8(literal@)) is Some,
    ensures
        ({
            let value = number_of_literal(encode_utf8(token->Literal_0@)).unwrap();
            let refused = expect_value(p, token).error matches Some(error) && error.kind
                == ErrorKind::ValueTooLarge;
            refused == (value > p.declaration.args.flags_type.max_value())
        }),
{
}

/// Once a flag has value zero, a second flag with value zero is refused.
pub proof fn lemma_second_zero_refused(p: ParserView, token: Token)
    requires
        value_index(p.declaration.variants, 0) < p.declaration.variants.len(),
        token matches Token::Literal(literal) && number_of_literal(encode_utf8(literal@)) == Some(
            0u128,
        ),
    ensures
        expect_value(p, token).error is Some,
{
}

/// The constant emitted for a flag is written with a literal that reads
/// back as the value of the literal by which the flag was declared, and the
/// flag is recorded with that value.
pub proof fn lemma_constant_round_trip(p: ParserView, token: Token)
    requires
        token is Literal,
        expect_value(p, token).error is None,
    ensures
        ({
            let declared = number_of_literal(encode_utf8(token->Literal_0@));
            let after = expect_value(p, token).state;
            let flags_type = p.declaration.args.flags_type;
            &&& declared is Some
            &&& after.declaration.variants.last().value == declared.unwrap()
            &&& after.declaration.variants.last().name == p.last_flag
            &&& after.output == p.output + constant(p.last_flag, declared.unwrap(), flags_type)
            &&& number_of_literal(ascii_bytes(value_literal(declared.unwrap(), flags_type)))
                == declared
        }),
{
    let declared = number_of_literal(encode_utf8(token->Literal_0@));
    lemma_literal_round_trip(declared.unwrap(), p.declaration.args.flags_type);
}

} // verus!
