//! The text of the emitted type, cut into pieces where a placeholder stands
//! for something that only the whole declaration tells.

use vstd::prelude::*;
use vstd::string::*;
use crate::declaration::{Declaration, DeclarationView, VariantView};
use crate::display::{ascending, lemma_ascending};
use crate::flags_type::FlagsType;
use crate::literal::{format_literal, value_literal};

verus! {

/// A place in the emitted text that is filled in once the whole declaration
/// is known.
#[derive(Clone, Copy, PartialEq, Eq, Structural, Debug)]
pub enum Placeholder {
    /// The name of the type.
    Name,
    /// The name of the empty case.
    Empty,
    /// The keyword of the storage type.
    Bits,
    /// The visibility qualifier and a space, or nothing for a private type.
    Visibility,
    /// The literal of the union of all flags.
    AllSetBits,
    /// The statement by which `from_value` refuses zero, where the empty
    /// case is disabled.
    DisableEmptyCode,
}

/// One piece of the emitted text: text as it stands, or a placeholder.
#[derive(Debug)]
pub enum Piece {
    Text(String),
    Slot(Placeholder),
}

/// The mathematical content of a [`Piece`].
pub enum Fragment {
    Text(Seq<char>),
    Slot(Placeholder),
}

impl View for Piece {
    type V = Fragment;

    open spec fn view(&self) -> Fragment {
        match self {
            Piece::Text(text) => Fragment::Text(text@),
            Piece::Slot(slot) => Fragment::Slot(*slot),
        }
    }
}

/// The views of the pieces, in the same order.
pub open spec fn fragments(pieces: Seq<Piece>) -> Seq<Fragment> {
    Seq::new(pieces.len(), |i: int| pieces[i]@)
}

// ---------------------------------------------------------------------------
// The text of the emitted type
// ---------------------------------------------------------------------------

// The markers of the placeholders.
pub const MARK_NAME: &'static str = "$$(NAME)$$";

pub const MARK_EMPTY: &'static str = "$$(EMPTY)$$";

pub const MARK_BITS: &'static str = "$$(BITS)$$";

pub const MARK_VISIBILITY: &'static str = "$$(VISIBILITY)$$";

pub const MARK_ALL_SET_BITS: &'static str = "$$(ALL_SET_BITS)$$";

pub const MARK_DISABLE_EMPTY_CODE: &'static str = "$$(DISABLE_EMPTY_CODE)$$";

// What is written where empty generation is disabled.
pub const REFUSE_ZERO: &'static str =
    "        if value == 0 {\n            return None;\n        }\n";

// The definition of the type and the constants of its flags.
pub const INDENT: &'static str = "    ";

pub const TYPE_DERIVE: &'static str = "#[derive(Copy, Clone, Debug)]\n";

pub const TYPE_STRUCT: &'static str = "struct ";

pub const TYPE_FIELD: &'static str = " {\n    value: ";

pub const TYPE_IMPL: &'static str = ",\n}\n#[allow(non_upper_case_globals)]\nimpl ";

pub const TYPE_OPEN: &'static str = " {\n";

pub const CONST_KEYWORD: &'static str = "const ";

pub const CONST_VALUE: &'static str = ": Self = Self { value: ";

pub const CONST_END: &'static str = " };\n";

pub const CONST_ZERO: &'static str = ": Self = Self { value: 0 };\n";

// The methods, each cut where a placeholder stands.
pub const FROM_VALUE_HEAD: &'static str =
    "    /// Wraps `value` if every bit that is set in it belongs to a declared flag,\n    /// and returns `None` for any other value.\n    ";

pub const FROM_VALUE_SIGNATURE: &'static str = "fn from_value(value: ";

pub const FROM_VALUE_OPEN: &'static str = ") -> Option<Self> {\n";

pub const FROM_VALUE_TEST: &'static str = "        if value & ";

pub const FROM_VALUE_END: &'static str =
    " == value {\n            return Some(Self { value });\n        }\n        None\n    }\n";

pub const CONTAINS_HEAD: &'static str =
    "    /// Tells whether every flag of `mask` is set. The empty mask is contained in no value.\n    #[inline(always)]\n    ";

pub const CONTAINS_BODY: &'static str =
    "fn contains(&self, mask: Self) -> bool {\n        ((self.value & mask.value) == mask.value) && (mask.value != 0)\n    }\n";

pub const CONTAINS_ONE_HEAD: &'static str =
    "    /// Tells whether at least one flag of `mask` is set.\n    #[inline(always)]\n    ";

pub const CONTAINS_ONE_BODY: &'static str =
    "fn contains_one(&self, mask: Self) -> bool {\n        (self.value & mask.value) != 0\n    }\n";

pub const IS_EMPTY_HEAD: &'static str =
    "    /// Tells whether no flag is set.\n    #[inline(always)]\n    ";

pub const IS_EMPTY_BODY: &'static str =
    "fn is_empty(&self) -> bool {\n        self.value == 0\n    }\n";

pub const CLEAR_HEAD: &'static str = "    /// Clears every flag.\n    #[inline(always)]\n    ";

pub const CLEAR_BODY: &'static str = "fn clear(&mut self) {\n        self.value = 0;\n    }\n";

pub const REMOVE_HEAD: &'static str =
    "    /// Clears the flags of `mask`.\n    #[inline(always)]\n    ";

pub const REMOVE_BODY: &'static str =
    "fn remove(&mut self, mask: Self) {\n        self.value = self.value - (self.value & mask.value);\n    }\n";

pub const SET_HEAD: &'static str = "    /// Sets the flags of `mask`.\n    #[inline(always)]\n    ";

pub const SET_BODY: &'static str =
    "fn set(&mut self, mask: Self) {\n        self.value |= mask.value;\n    }\n";

pub const GET_VALUE_HEAD: &'static str =
    "    /// Returns the raw value.\n    #[inline(always)]\n    ";

pub const GET_VALUE_SIGNATURE: &'static str = "const fn get_value(&self) -> ";

pub const GET_VALUE_END: &'static str = " {\n        self.value\n    }\n}\n";

// The operators, each cut where the name of the type stands.
pub const BITOR_HEAD: &'static str = "impl std::ops::BitOr for ";

pub const BITOR_BODY: &'static str =
    " {\n    type Output = Self;\n    #[inline(always)]\n    fn bitor(self, rhs: Self) -> Self::Output {\n        Self { value: self.value | rhs.value }\n    }\n}\n";

pub const BITOR_ASSIGN_HEAD: &'static str = "impl std::ops::BitOrAssign for ";

pub const BITOR_ASSIGN_BODY: &'static str =
    " {\n    #[inline(always)]\n    fn bitor_assign(&mut self, rhs: Self) {\n        self.value |= rhs.value;\n    }\n}\n";

pub const BITAND_HEAD: &'static str = "impl std::ops::BitAnd for ";

pub const BITAND_BODY: &'static str =
    " {\n    type Output = Self;\n    #[inline(always)]\n    fn bitand(self, rhs: Self) -> Self::Output {\n        Self { value: self.value & rhs.value }\n    }\n}\n";

pub const BITAND_ASSIGN_HEAD: &'static str = "impl std::ops::BitAndAssign for ";

pub const BITAND_ASSIGN_BODY: &'static str =
    " {\n    #[inline(always)]\n    fn bitand_assign(&mut self, rhs: Self) {\n        self.value &= rhs.value;\n    }\n}\n";

pub const EQ_HEAD: &'static str = "impl std::cmp::Eq for ";

pub const EQ_BODY: &'static str = " {}\n";

pub const PARTIAL_EQ_HEAD: &'static str = "impl std::cmp::PartialEq for ";

pub const PARTIAL_EQ_BODY: &'static str =
    " {\n    #[inline(always)]\n    fn eq(&self, other: &Self) -> bool {\n        self.value == other.value\n    }\n}\n";

pub const DEFAULT_HEAD: &'static str = "impl std::default::Default for ";

pub const DEFAULT_BODY: &'static str =
    " {\n    fn default() -> Self {\n        Self { value: 0 }\n    }\n}\n";

// The renderer, and the statement that shows one flag.
pub const DISPLAY_HEAD: &'static str = "impl std::fmt::Display for ";

pub const DISPLAY_OPEN: &'static str =
    " {\n    #[allow(unused_assignments, unused_mut, unused_variables)]\n    fn fmt(&self, f: &mut std::fmt::Formatter<'_>) -> std::fmt::Result {\n        f.write_str(\"";

pub const DISPLAY_ZERO: &'static str =
    " (\")?;\n        if self.value == 0 {\n            f.write_str(\"";

pub const DISPLAY_FLAGS: &'static str =
    ")\")?;\n        } else {\n            let mut first = true;\n";

pub const DISPLAY_END: &'static str =
    "            f.write_str(\")\")?;\n        }\n        Ok(())\n    }\n}\n";

pub const ARM_TEST: &'static str = "            if (self.value & ";

pub const ARM_EQUALS: &'static str = ") == ";

pub const ARM_WRITE: &'static str =
    " {\n                if !first {\n                    f.write_str(\" | \")?;\n                }\n                first = false;\n                f.write_str(\"";

pub const ARM_END: &'static str = "\")?;\n            }\n";

// ---------------------------------------------------------------------------
// What is emitted, as fragments
// ---------------------------------------------------------------------------

/// A member of the type's own `impl` block: what stands before the
/// visibility qualifier, the qualifier, and the rest.
pub open spec fn member(head: Seq<char>, tail: Seq<char>) -> Seq<Fragment> {
    seq![Fragment::Text(head), Fragment::Slot(Placeholder::Visibility), Fragment::Text(tail)]
}

/// The implementation of a trait for the type: what stands before the name
/// of the type, the name, and the rest.
pub open spec fn trait_impl(head: Seq<char>, tail: Seq<char>) -> Seq<Fragment> {
    seq![Fragment::Text(head), Fragment::Slot(Placeholder::Name), Fragment::Text(tail)]
}

/// The definition of the type, up to the opening of its `impl` block.
pub open spec fn header() -> Seq<Fragment> {
    seq![
        Fragment::Text(TYPE_DERIVE@),
        Fragment::Slot(Placeholder::Visibility),
        Fragment::Text(TYPE_STRUCT@),
        Fragment::Slot(Placeholder::Name),
        Fragment::Text(TYPE_FIELD@),
        Fragment::Slot(Placeholder::Bits),
        Fragment::Text(TYPE_IMPL@),
        Fragment::Slot(Placeholder::Name),
        Fragment::Text(TYPE_OPEN@),
    ]
}

/// What follows the visibility qualifier in the constant of a flag.
pub open spec fn constant_text(name: Seq<char>, literal: Seq<char>) -> Seq<char> {
    CONST_KEYWORD@ + name + CONST_VALUE@ + literal + CONST_END@
}

/// The constant of a flag: its name, and its value as a literal of the
/// storage type.
pub open spec fn constant(name: Seq<char>, value: u128, flags_type: FlagsType) -> Seq<Fragment> {
    member(INDENT@, constant_text(name, value_literal(value, flags_type)))
}

/// The constants of the flags, in the order in which they were declared.
pub open spec fn constants(variants: Seq<VariantView>, flags_type: FlagsType) -> Seq<Fragment>
    decreases variants.len(),
{
    if variants.len() == 0 {
        Seq::empty()
    } else {
        constants(variants.drop_last(), flags_type) + constant(
            variants.last().name,
            variants.last().value,
            flags_type,
        )
    }
}

/// The constant of the empty case where no flag has value zero.
pub open spec fn empty_constant() -> Seq<Fragment> {
    seq![
        Fragment::Text(INDENT@),
        Fragment::Slot(Placeholder::Visibility),
        Fragment::Text(CONST_KEYWORD@),
        Fragment::Slot(Placeholder::Empty),
        Fragment::Text(CONST_ZERO@),
    ]
}

/// The validating constructor.
pub open spec fn from_value_method() -> Seq<Fragment> {
    seq![
        Fragment::Text(FROM_VALUE_HEAD@),
        Fragment::Slot(Placeholder::Visibility),
        Fragment::Text(FROM_VALUE_SIGNATURE@),
        Fragment::Slot(Placeholder::Bits),
        Fragment::Text(FROM_VALUE_OPEN@),
        Fragment::Slot(Placeholder::DisableEmptyCode),
        Fragment::Text(FROM_VALUE_TEST@),
        Fragment::Slot(Placeholder::AllSetBits),
        Fragment::Text(FROM_VALUE_END@),
    ]
}

/// The accessor of the raw value, and the end of the `impl` block.
pub open spec fn get_value_method() -> Seq<Fragment> {
    seq![
        Fragment::Text(GET_VALUE_HEAD@),
        Fragment::Slot(Placeholder::Visibility),
        Fragment::Text(GET_VALUE_SIGNATURE@),
        Fragment::Slot(Placeholder::Bits),
        Fragment::Text(GET_VALUE_END@),
    ]
}

/// The rest of the `impl` block: the constant of the empty case where it is
/// asked for, and the methods.
pub open spec fn methods(with_empty_constant: bool) -> Seq<Fragment> {
    (if with_empty_constant {
        empty_constant()
    } else {
        Seq::empty()
    }) + from_value_method() + member(CONTAINS_HEAD@, CONTAINS_BODY@) + member(
        CONTAINS_ONE_HEAD@,
        CONTAINS_ONE_BODY@,
    ) + member(IS_EMPTY_HEAD@, IS_EMPTY_BODY@) + member(CLEAR_HEAD@, CLEAR_BODY@) + member(
        REMOVE_HEAD@,
        REMOVE_BODY@,
    ) + member(SET_HEAD@, SET_BODY@) + get_value_method()
}

/// The statement that shows one flag if all of its bits are set.
pub open spec fn arm_text(name: Seq<char>, literal: Seq<char>) -> Seq<char> {
    ARM_TEST@ + literal + ARM_EQUALS@ + literal + ARM_WRITE@ + name + ARM_END@
}

/// One statement for each variant that is not the empty case, in the order
/// of the sequence.
pub open spec fn arms(variants: Seq<VariantView>, flags_type: FlagsType) -> Seq<Fragment>
    decreases variants.len(),
{
    if variants.len() == 0 {
        Seq::empty()
    } else {
        let front = arms(variants.drop_last(), flags_type);
        let last = variants.last();
        if last.value != 0 {
            front.push(Fragment::Text(arm_text(last.name, value_literal(last.value, flags_type))))
        } else {
            front
        }
    }
}

/// The operators that do not depend on the flags.
pub open spec fn plain_operators() -> Seq<Fragment> {
    trait_impl(BITOR_HEAD@, BITOR_BODY@) + trait_impl(BITOR_ASSIGN_HEAD@, BITOR_ASSIGN_BODY@)
        + trait_impl(BITAND_HEAD@, BITAND_BODY@) + trait_impl(
        BITAND_ASSIGN_HEAD@,
        BITAND_ASSIGN_BODY@,
    ) + trait_impl(EQ_HEAD@, EQ_BODY@) + trait_impl(PARTIAL_EQ_HEAD@, PARTIAL_EQ_BODY@)
        + trait_impl(DEFAULT_HEAD@, DEFAULT_BODY@)
}

/// The start of the renderer, up to the first flag.
pub open spec fn display_start() -> Seq<Fragment> {
    seq![
        Fragment::Text(DISPLAY_HEAD@),
        Fragment::Slot(Placeholder::Name),
        Fragment::Text(DISPLAY_OPEN@),
        Fragment::Slot(Placeholder::Name),
        Fragment::Text(DISPLAY_ZERO@),
        Fragment::Slot(Placeholder::Empty),
        Fragment::Text(DISPLAY_FLAGS@),
    ]
}

/// The operators, the default and the renderer, which shows the flags in
/// ascending order of their values.
pub open spec fn operators(declaration: DeclarationView) -> Seq<Fragment> {
    plain_operators() + display_start() + arms(
        ascending(declaration.variants),
        declaration.args.flags_type,
    ).push(Fragment::Text(DISPLAY_END@))
}

/// The whole type that a declaration describes: its definition, the
/// constants of its flags in the order of their declaration, the constant of
/// the empty case where it is due, the methods, the operators and the
/// renderer.
pub open spec fn source(declaration: DeclarationView) -> Seq<Fragment> {
    header() + constants(declaration.variants, declaration.args.flags_type) + methods(
        declaration.emits_empty_constant(),
    ) + operators(declaration)
}

// ---------------------------------------------------------------------------
// Placeholders and their resolution
// ---------------------------------------------------------------------------

impl Placeholder {
    /// How an unresolved placeholder is written.
    pub open spec fn marker(self) -> Seq<char> {
        match self {
            Placeholder::Name => MARK_NAME@,
            Placeholder::Empty => MARK_EMPTY@,
            Placeholder::Bits => MARK_BITS@,
            Placeholder::Visibility => MARK_VISIBILITY@,
            Placeholder::AllSetBits => MARK_ALL_SET_BITS@,
            Placeholder::DisableEmptyCode => MARK_DISABLE_EMPTY_CODE@,
        }
    }

    /// What the placeholder stands for in a declaration.
    pub open spec fn resolved(self, declaration: DeclarationView) -> Seq<char> {
        match self {
            Placeholder::Name => declaration.name,
            Placeholder::Empty => declaration.args.none_case,
            Placeholder::Bits => declaration.args.flags_type.keyword(),
            Placeholder::Visibility => if declaration.visibility.len() == 0 {
                Seq::empty()
            } else {
                declaration.visibility + " "@
            },
            Placeholder::AllSetBits => value_literal(
                declaration.all_set_bits,
                declaration.args.flags_type,
            ),
            Placeholder::DisableEmptyCode => if declaration.args.disable_empty_generation {
                REFUSE_ZERO@
            } else {
                Seq::empty()
            },
        }
    }

    /// How an unresolved placeholder is written.
    pub fn mark(&self) -> (text: &'static str)
        ensures
            text@ == self.marker(),
    {
        match self {
            Placeholder::Name => MARK_NAME,
            Placeholder::Empty => MARK_EMPTY,
            Placeholder::Bits => MARK_BITS,
            Placeholder::Visibility => MARK_VISIBILITY,
            Placeholder::AllSetBits => MARK_ALL_SET_BITS,
            Placeholder::DisableEmptyCode => MARK_DISABLE_EMPTY_CODE,
        }
    }

    /// Writes out what the placeholder stands for in a declaration.
    pub fn resolve(&self, declaration: &Declaration) -> (text: String)
        ensures
            text@ == self.resolved(declaration@),
    {
        match self {
            Placeholder::Name => declaration.name.clone(),
            Placeholder::Empty => declaration.args.none_case.clone(),
            Placeholder::Bits => String::from_str(declaration.args.flags_type.as_str()),
            Placeholder::Visibility => {
                let mut text = declaration.visibility.clone();
                if !text.as_str().is_empty() {
                    text.append(" ");
                }
                text
            },
            Placeholder::AllSetBits => format_literal(
                declaration.all_set_bits,
                declaration.args.flags_type,
            ),
            Placeholder::DisableEmptyCode => if declaration.args.disable_empty_generation {
                String::from_str(REFUSE_ZERO)
            } else {
                String::new()
            },
        }
    }
}

impl Fragment {
    /// The text of a fragment; an unresolved placeholder is written as its
    /// marker.
    pub open spec fn text(self) -> Seq<char> {
        match self {
            Fragment::Text(text) => text,
            Fragment::Slot(slot) => slot.marker(),
        }
    }

    /// The fragment with its placeholder, if it is one, replaced by what it
    /// stands for.
    pub open spec fn resolved(self, declaration: DeclarationView) -> Fragment {
        match self {
            Fragment::Text(text) => Fragment::Text(text),
            Fragment::Slot(slot) => Fragment::Text(slot.resolved(declaration)),
        }
    }
}

/// The fragments with every placeholder replaced by what it stands for.
pub open spec fn resolved(output: Seq<Fragment>, declaration: DeclarationView) -> Seq<Fragment> {
    Seq::new(output.len(), |i: int| output[i].resolved(declaration))
}

/// No placeholder is left.
pub open spec fn all_text(output: Seq<Fragment>) -> bool {
    forall|i: int| 0 <= i < output.len() ==> #[trigger] output[i] is Text
}

/// The text of the fragments, one after the other.
pub open spec fn text_of(output: Seq<Fragment>) -> Seq<char>
    decreases output.len(),
{
    if output.len() == 0 {
        Seq::empty()
    } else {
        text_of(output.drop_last()) + output.last().text()
    }
}

/// The source text of the type that a declaration describes, with no
/// placeholder left.
pub open spec fn source_text(declaration: DeclarationView) -> Seq<char> {
    text_of(resolved(source(declaration), declaration))
}

// ---------------------------------------------------------------------------
// Emission
// ---------------------------------------------------------------------------

pub(crate) fn push_text(out: &mut Vec<Piece>, text: &str)
    ensures
        fragments(final(out)@) == fragments(old(out)@).push(Fragment::Text(text@)),
{
    out.push(Piece::Text(String::from_str(text)));
    assert(fragments(out@) =~= fragments(old(out)@).push(Fragment::Text(text@)));
}

pub(crate) fn push_owned(out: &mut Vec<Piece>, text: String)
    ensures
        fragments(final(out)@) == fragments(old(out)@).push(Fragment::Text(text@)),
{
    out.push(Piece::Text(text));
    assert(fragments(out@) =~= fragments(old(out)@).push(Fragment::Text(text@)));
}

pub(crate) fn push_slot(out: &mut Vec<Piece>, slot: Placeholder)
    ensures
        fragments(final(out)@) == fragments(old(out)@).push(Fragment::Slot(slot)),
{
    out.push(Piece::Slot(slot));
    assert(fragments(out@) =~= fragments(old(out)@).push(Fragment::Slot(slot)));
}

pub(crate) fn emit_member(out: &mut Vec<Piece>, head: &str, tail: &str)
    ensures
        fragments(final(out)@) == fragments(old(out)@) + member(head@, tail@),
{
    push_text(out, head);
    push_slot(out, Placeholder::Visibility);
    push_text(out, tail);
    assert(fragments(out@) =~= fragments(old(out)@) + member(head@, tail@));
}

pub(crate) fn emit_trait_impl(out: &mut Vec<Piece>, head: &str, tail: &str)
    ensures
        fragments(final(out)@) == fragments(old(out)@) + trait_impl(head@, tail@),
{
    push_text(out, head);
    push_slot(out, Placeholder::Name);
    push_text(out, tail);
    assert(fragments(out@) =~= fragments(old(out)@) + trait_impl(head@, tail@));
}

pub(crate) fn emit_header(out: &mut Vec<Piece>)
    ensures
        fragments(final(out)@) == fragments(old(out)@) + header(),
{
    push_text(out, TYPE_DERIVE);
    push_slot(out, Placeholder::Visibility);
    push_text(out, TYPE_STRUCT);
    push_slot(out, Placeholder::Name);
    push_text(out, TYPE_FIELD);
    push_slot(out, Placeholder::Bits);
    push_text(out, TYPE_IMPL);
    push_slot(out, Placeholder::Name);
    push_text(out, TYPE_OPEN);
    assert(fragments(out@) =~= fragments(old(out)@) + header());
}

pub(crate) fn emit_constant(out: &mut Vec<Piece>, name: &str, value: u128, flags_type: FlagsType)
    ensures
        fragments(final(out)@) == fragments(old(out)@) + constant(name@, value, flags_type),
{
    let literal = format_literal(value, flags_type);
    let mut text = String::from_str(CONST_KEYWORD);
    text.append(name);
    text.append(CONST_VALUE);
    text.append(literal.as_str());
    text.append(CONST_END);
    push_text(out, INDENT);
    push_slot(out, Placeholder::Visibility);
    push_owned(out, text);
    assert(fragments(out@) =~= fragments(old(out)@) + constant(name@, value, flags_type));
}

fn emit_empty_constant(out: &mut Vec<Piece>)
    ensures
        fragments(final(out)@) == fragments(old(out)@) + empty_constant(),
{
    push_text(out, INDENT);
    push_slot(out, Placeholder::Visibility);
    push_text(out, CONST_KEYWORD);
    push_slot(out, Placeholder::Empty);
    push_text(out, CONST_ZERO);
    assert(fragments(out@) =~= fragments(old(out)@) + empty_constant());
}

fn emit_from_value(out: &mut Vec<Piece>)
    ensures
        fragments(final(out)@) == fragments(old(out)@) + from_value_method(),
{
    push_text(out, FROM_VALUE_HEAD);
    push_slot(out, Placeholder::Visibility);
    push_text(out, FROM_VALUE_SIGNATURE);
    push_slot(out, Placeholder::Bits);
    push_text(out, FROM_VALUE_OPEN);
    push_slot(out, Placeholder::DisableEmptyCode);
    push_text(out, FROM_VALUE_TEST);
    push_slot(out, Placeholder::AllSetBits);
    push_text(out, FROM_VALUE_END);
    assert(fragments(out@) =~= fragments(old(out)@) + from_value_method());
}

fn emit_get_value(out: &mut Vec<Piece>)
    ensures
        fragments(final(out)@) == fragments(old(out)@) + get_value_method(),
{
    push_text(out, GET_VALUE_HEAD);
    push_slot(out, Placeholder::Visibility);
    push_text(out, GET_VALUE_SIGNATURE);
    push_slot(out, Placeholder::Bits);
    push_text(out, GET_VALUE_END);
    assert(fragments(out@) =~= fragments(old(out)@) + get_value_method());
}

pub(crate) fn emit_methods(out: &mut Vec<Piece>, with_empty_constant: bool)
    ensures
        fragments(final(out)@) == fragments(old(out)@) + methods(with_empty_constant),
{
    let ghost start = fragments(out@);
    if with_empty_constant {
        emit_empty_constant(out);
    }
    let ghost first = if with_empty_constant {
        empty_constant()
    } else {
        Seq::<Fragment>::empty()
    };
    assert(fragments(out@) =~= start + first);
    emit_from_value(out);
    emit_member(out, CONTAINS_HEAD, CONTAINS_BODY);
    emit_member(out, CONTAINS_ONE_HEAD, CONTAINS_ONE_BODY);
    emit_member(out, IS_EMPTY_HEAD, IS_EMPTY_BODY);
    emit_member(out, CLEAR_HEAD, CLEAR_BODY);
    emit_member(out, REMOVE_HEAD, REMOVE_BODY);
    emit_member(out, SET_HEAD, SET_BODY);
    emit_get_value(out);
    assert(fragments(out@) =~= start + methods(with_empty_constant));
}

fn emit_plain_operators(out: &mut Vec<Piece>)
    ensures
        fragments(final(out)@) == fragments(old(out)@) + plain_operators(),
{
    emit_trait_impl(out, BITOR_HEAD, BITOR_BODY);
    emit_trait_impl(out, BITOR_ASSIGN_HEAD, BITOR_ASSIGN_BODY);
    emit_trait_impl(out, BITAND_HEAD, BITAND_BODY);
    emit_trait_impl(out, BITAND_ASSIGN_HEAD, BITAND_ASSIGN_BODY);
    emit_trait_impl(out, EQ_HEAD, EQ_BODY);
    emit_trait_impl(out, PARTIAL_EQ_HEAD, PARTIAL_EQ_BODY);
    emit_trait_impl(out, DEFAULT_HEAD, DEFAULT_BODY);
    assert(fragments(out@) =~= fragments(old(out)@) + plain_operators());
}

fn emit_display_start(out: &mut Vec<Piece>)
    ensures
        fragments(final(out)@) == fragments(old(out)@) + display_start(),
{
    push_text(out, DISPLAY_HEAD);
    push_slot(out, Placeholder::Name);
    push_text(out, DISPLAY_OPEN);
    push_slot(out, Placeholder::Name);
    push_text(out, DISPLAY_ZERO);
    push_slot(out, Placeholder::Empty);
    push_text(out, DISPLAY_FLAGS);
    assert(fragments(out@) =~= fragments(old(out)@) + display_start());
}

fn emit_arm(out: &mut Vec<Piece>, name: &str, value: u128, flags_type: FlagsType)
    ensures
        fragments(final(out)@) == fragments(old(out)@).push(
            Fragment::Text(arm_text(name@, value_literal(value, flags_type))),
        ),
{
    let literal = format_literal(value, flags_type);
    let mut text = String::from_str(ARM_TEST);
    text.append(literal.as_str());
    text.append(ARM_EQUALS);
    text.append(literal.as_str());
    text.append(ARM_WRITE);
    text.append(name);
    text.append(ARM_END);
    push_owned(out, text);
}

pub(crate) fn emit_operators(out: &mut Vec<Piece>, declaration: &Declaration)
    ensures
        fragments(final(out)@) == fragments(old(out)@) + operators(declaration@),
{
    let ghost start = fragments(out@);
    emit_plain_operators(out);
    emit_display_start(out);
    let ghost head = fragments(out@);
    assert(head =~= start + plain_operators() + display_start());
    let order = declaration.ascending_order();
    let flags_type = declaration.args.flags_type;
    let ghost sorted = ascending(declaration@.variants);
    proof {
        lemma_ascending(declaration@.variants);
    }
    let mut index: usize = 0;
    while index < order.len()
        invariant
            index <= order@.len(),
            order@.len() == declaration@.variants.len(),
            sorted.len() == order@.len(),
            flags_type == declaration@.args.flags_type,
            forall|k: int|
                0 <= k < order@.len() ==> (#[trigger] order@[k]) < declaration@.variants.len()
                    && declaration@.variants[order@[k] as int] == sorted[k],
            fragments(out@) == head + arms(sorted.take(index as int), flags_type),
        decreases order@.len() - index,
    {
        let variant = &declaration.variants[order[index]];
        proof {
            let next = sorted.take(index + 1);
            assert(next.drop_last() =~= sorted.take(index as int));
            assert(next.last() == variant@);
        }
        if variant.value != 0 {
            emit_arm(out, variant.name.as_str(), variant.value, flags_type);
        }
        proof {
            assert(fragments(out@) =~= head + arms(sorted.take(index + 1), flags_type));
        }
        index += 1;
    }
    proof {
        assert(sorted.take(index as int) =~= sorted);
    }
    push_text(out, DISPLAY_END);
    assert(fragments(out@) =~= start + operators(declaration@));
}

/// Replaces every placeholder by what it stands for in the declaration.
pub(crate) fn resolve_pieces(out: &mut Vec<Piece>, declaration: &Declaration)
    ensures
        fragments(final(out)@) == resolved(fragments(old(out)@), declaration@),
        all_text(fragments(final(out)@)),
{
    let mut index: usize = 0;
    while index < out.len()
        invariant
            index <= out@.len(),
            out@.len() == old(out)@.len(),
            forall|k: int|
                0 <= k < index ==> (#[trigger] out@[k])@ == old(out)@[k]@.resolved(declaration@),
            forall|k: int| index <= k < out@.len() ==> (#[trigger] out@[k])@ == old(out)@[k]@,
        decreases out@.len() - index,
    {
        let filled = match &out[index] {
            Piece::Slot(slot) => Some(slot.resolve(declaration)),
            Piece::Text(_) => None,
        };
        match filled {
            Some(text) => {
                out.set(index, Piece::Text(text));
            },
            None => {},
        }
        index += 1;
    }
    proof {
        assert(fragments(out@) =~= resolved(fragments(old(out)@), declaration@));
    }
}

/// Writes the pieces out one after the other; a placeholder that was not
/// resolved is written as its marker.
pub(crate) fn concat_pieces(out: &Vec<Piece>) -> (text: String)
    ensures
        text@ == text_of(fragments(out@)),
{
    let mut text = String::new();
    let mut index: usize = 0;
    while index < out.len()
        invariant
            index <= out@.len(),
            text@ == text_of(fragments(out@).take(index as int)),
        decreases out@.len() - index,
    {
        proof {
            let next = fragments(out@).take(index + 1);
            assert(next.drop_last() =~= fragments(out@).take(index as int));
            assert(next.last() == out@[index as int]@);
        }
        match &out[index] {
            Piece::Text(piece) => {
                text.append(piece.as_str());
            },
            Piece::Slot(slot) => {
                text.append(slot.mark());
            },
        }
        index += 1;
    }
    proof {
        assert(fragments(out@).take(index as int) =~= fragments(out@));
    }
    text
}

} // verus!
