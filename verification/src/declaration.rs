//! The declaration of a bit-flag set: its flags in the order of their
//! declaration, the invariant of an accepted declaration, and what the
//! emitted type makes of it (its constants and its validating constructor).

use vstd::prelude::*;
use vstd::string::*;
use vstd::utf8::encode_utf8;
use crate::arguments::{Arguments, ArgumentsView};
use crate::bit_flags::BitFlags;
use crate::utils::{same_text, string_hash};

verus! {

/// One named flag of a declaration.
#[derive(Debug)]
pub struct Variant {
    pub name: String,
    pub value: u128,
    /// The case-insensitive fingerprint of the name.
    pub hash: u64,
}

/// The mathematical content of a [`Variant`].
pub struct VariantView {
    pub name: Seq<char>,
    pub value: u128,
    pub hash: u64,
}

impl View for Variant {
    type V = VariantView;

    open spec fn view(&self) -> VariantView {
        VariantView { name: self.name@, value: self.value, hash: self.hash }
    }
}

/// What a declaration says of the type to emit: its configuration, its
/// name and visibility, and its flags in the order in which they were
/// declared.
#[derive(Debug)]
pub struct Declaration {
    pub args: Arguments,
    pub name: String,
    pub visibility: String,
    pub variants: Vec<Variant>,
    /// A flag with value zero was declared.
    pub has_empty_value: bool,
    /// Bitwise OR of the values of all flags.
    pub all_set_bits: u128,
}

/// The mathematical content of a [`Declaration`].
pub struct DeclarationView {
    pub args: ArgumentsView,
    pub name: Seq<char>,
    pub visibility: Seq<char>,
    pub variants: Seq<VariantView>,
    pub has_empty_value: bool,
    pub all_set_bits: u128,
}

/// The views of the variants, in the same order.
pub open spec fn variant_views(variants: Seq<Variant>) -> Seq<VariantView> {
    Seq::new(variants.len(), |i: int| variants[i]@)
}

impl View for Declaration {
    type V = DeclarationView;

    open spec fn view(&self) -> DeclarationView {
        DeclarationView {
            args: self.args@,
            name: self.name@,
            visibility: self.visibility@,
            variants: variant_views(self.variants@),
            has_empty_value: self.has_empty_value,
            all_set_bits: self.all_set_bits,
        }
    }
}

/// Bitwise OR of the values of the variants.
pub open spec fn union_of(variants: Seq<VariantView>) -> u128
    decreases variants.len(),
{
    if variants.len() == 0 {
        0
    } else {
        union_of(variants.drop_last()) | variants.last().value
    }
}

/// Index of the first variant with the given value, or the number of
/// variants if there is none.
pub open spec fn value_index(variants: Seq<VariantView>, value: u128) -> int
    decreases variants.len(),
{
    if variants.len() == 0 || variants[0].value == value {
        0
    } else {
        1 + value_index(variants.drop_first(), value)
    }
}

/// Index of the first variant with the given fingerprint, or the number of
/// variants if there is none.
pub open spec fn hash_index(variants: Seq<VariantView>, hash: u64) -> int
    decreases variants.len(),
{
    if variants.len() == 0 || variants[0].hash == hash {
        0
    } else {
        1 + hash_index(variants.drop_first(), hash)
    }
}

/// Index of the first variant with the given name, or the number of
/// variants if there is none.
pub open spec fn name_index(variants: Seq<VariantView>, name: Seq<char>) -> int
    decreases variants.len(),
{
    if variants.len() == 0 || variants[0].name == name {
        0
    } else {
        1 + name_index(variants.drop_first(), name)
    }
}

/// An index at which the value stands, before which it does not, is the
/// first; so is the length where it stands nowhere.
pub proof fn lemma_value_index(variants: Seq<VariantView>, value: u128, n: int)
    requires
        0 <= n <= variants.len(),
        forall|j: int| 0 <= j < n ==> (#[trigger] variants[j]).value != value,
        n < variants.len() ==> variants[n].value == value,
    ensures
        value_index(variants, value) == n,
    decreases n,
{
    if n > 0 {
        assert(variants[0].value != value);
        let rest = variants.drop_first();
        assert forall|j: int| 0 <= j < n - 1 implies (#[trigger] rest[j]).value != value by {
            assert(rest[j] == variants[j + 1]);
        }
        lemma_value_index(rest, value, n - 1);
    }
}

/// The index of a value is in range exactly when some variant has it, and
/// then it is the first that has it.
pub proof fn lemma_value_index_range(variants: Seq<VariantView>, value: u128)
    ensures
        0 <= value_index(variants, value) <= variants.len(),
        value_index(variants, value) < variants.len() ==> variants[value_index(
            variants,
            value,
        )].value == value,
        forall|j: int|
            0 <= j < value_index(variants, value) ==> (#[trigger] variants[j]).value != value,
    decreases variants.len(),
{
    if variants.len() == 0 || variants[0].value == value {
    } else {
        let rest = variants.drop_first();
        lemma_value_index_range(rest, value);
        assert forall|j: int| 0 <= j < value_index(variants, value) implies (
        #[trigger] variants[j]).value != value by {
            if j > 0 {
                assert(rest[j - 1] == variants[j]);
            }
        }
    }
}

/// See [`lemma_value_index`].
pub proof fn lemma_hash_index(variants: Seq<VariantView>, hash: u64, n: int)
    requires
        0 <= n <= variants.len(),
        forall|j: int| 0 <= j < n ==> (#[trigger] variants[j]).hash != hash,
        n < variants.len() ==> variants[n].hash == hash,
    ensures
        hash_index(variants, hash) == n,
    decreases n,
{
    if n > 0 {
        assert(variants[0].hash != hash);
        let rest = variants.drop_first();
        assert forall|j: int| 0 <= j < n - 1 implies (#[trigger] rest[j]).hash != hash by {
            assert(rest[j] == variants[j + 1]);
        }
        lemma_hash_index(rest, hash, n - 1);
    }
}

/// See [`lemma_value_index_range`].
pub proof fn lemma_hash_index_range(variants: Seq<VariantView>, hash: u64)
    ensures
        0 <= hash_index(variants, hash) <= variants.len(),
        hash_index(variants, hash) < variants.len() ==> variants[hash_index(
            variants,
            hash,
        )].hash == hash,
        forall|j: int|
            0 <= j < hash_index(variants, hash) ==> (#[trigger] variants[j]).hash != hash,
    decreases variants.len(),
{
    if variants.len() == 0 || variants[0].hash == hash {
    } else {
        let rest = variants.drop_first();
        lemma_hash_index_range(rest, hash);
        assert forall|j: int| 0 <= j < hash_index(variants, hash) implies (
        #[trigger] variants[j]).hash != hash by {
            if j > 0 {
                assert(rest[j - 1] == variants[j]);
            }
        }
    }
}

/// See [`lemma_value_index`].
pub proof fn lemma_name_index(variants: Seq<VariantView>, name: Seq<char>, n: int)
    requires
        0 <= n <= variants.len(),
        forall|j: int| 0 <= j < n ==> (#[trigger] variants[j]).name != name,
        n < variants.len() ==> variants[n].name == name,
    ensures
        name_index(variants, name) == n,
    decreases n,
{
    if n > 0 {
        assert(variants[0].name != name);
        let rest = variants.drop_first();
        assert forall|j: int| 0 <= j < n - 1 implies (#[trigger] rest[j]).name != name by {
            assert(rest[j] == variants[j + 1]);
        }
        lemma_name_index(rest, name, n - 1);
    }
}

/// See [`lemma_value_index_range`].
pub proof fn lemma_name_index_range(variants: Seq<VariantView>, name: Seq<char>)
    ensures
        0 <= name_index(variants, name) <= variants.len(),
        name_index(variants, name) < variants.len() ==> variants[name_index(
            variants,
            name,
        )].name == name,
        forall|j: int|
            0 <= j < name_index(variants, name) ==> (#[trigger] variants[j]).name != name,
    decreases variants.len(),
{
    if variants.len() == 0 || variants[0].name == name {
    } else {
        let rest = variants.drop_first();
        lemma_name_index_range(rest, name);
        assert forall|j: int| 0 <= j < name_index(variants, name) implies (
        #[trigger] variants[j]).name != name by {
            if j > 0 {
                assert(rest[j - 1] == variants[j]);
            }
        }
    }
}

/// The union of the values holds every bit of every value.
pub proof fn lemma_union_covers(variants: Seq<VariantView>, i: int)
    requires
        0 <= i < variants.len(),
    ensures
        variants[i].value & union_of(variants) == variants[i].value,
    decreases variants.len(),
{
    let front = variants.drop_last();
    let last = variants.last().value;
    let union = union_of(front);
    let value = variants[i].value;
    if i == variants.len() - 1 {
        assert(last & (union | last) == last) by (bit_vector);
    } else {
        lemma_union_covers(front, i);
        assert(front[i] == variants[i]);
        assert(value & union == value ==> value & (union | last) == value) by (bit_vector);
    }
}

/// The union of values that fit a width fits the width.
pub proof fn lemma_union_fits(variants: Seq<VariantView>, limit: u128)
    requires
        limit == 0xFF || limit == 0xFFFF || limit == 0xFFFF_FFFF || limit == 0xFFFF_FFFF_FFFF_FFFF
            || limit == 0xFFFF_FFFF_FFFF_FFFF_FFFF_FFFF_FFFF_FFFF,
        forall|i: int| 0 <= i < variants.len() ==> (#[trigger] variants[i]).value <= limit,
    ensures
        union_of(variants) <= limit,
    decreases variants.len(),
{
    if variants.len() > 0 {
        let front = variants.drop_last();
        assert forall|i: int| 0 <= i < front.len() implies (#[trigger] front[i]).value
            <= limit by {
            assert(front[i] == variants[i]);
        }
        lemma_union_fits(front, limit);
        let union = union_of(front);
        let last = variants.last().value;
        assert(variants[variants.len() - 1].value <= limit);
        assert((limit == 0xFF || limit == 0xFFFF || limit == 0xFFFF_FFFF || limit
            == 0xFFFF_FFFF_FFFF_FFFF || limit == 0xFFFF_FFFF_FFFF_FFFF_FFFF_FFFF_FFFF_FFFF) && union
            <= limit && last <= limit ==> (union | last) <= limit) by (bit_vector);
    }
}

/// In an accepted declaration every raw value that is accepted fits the
/// configured width.
pub proof fn lemma_accepted_fits(d: DeclarationView, raw: u128)
    requires
        d.wf(),
        d.accepts(raw),
    ensures
        raw <= d.args.flags_type.max_value(),
{
    let limit = d.args.flags_type.max_value();
    lemma_union_fits(d.variants, limit);
    let union = d.all_set_bits;
    assert(raw & union == raw ==> raw <= union) by (bit_vector);
}

/// In an accepted declaration the value of every flag is accepted as a raw
/// value, and so is the union of any two accepted raw values: what is built
/// from the constants with `|` is what `from_value` accepts.
pub proof fn lemma_flags_accepted(d: DeclarationView, i: int, a: u128, b: u128)
    requires
        d.wf(),
        0 <= i < d.variants.len(),
    ensures
        d.accepts(d.variants[i].value),
        d.accepts(a) && d.accepts(b) ==> d.accepts(a | b),
{
    lemma_union_covers(d.variants, i);
    lemma_value_index_range(d.variants, 0);
    let union = d.all_set_bits;
    assert((a & union == a) && (b & union == b) ==> (a | b) & union == (a | b)) by (bit_vector);
    assert(a | b == 0 ==> a == 0) by (bit_vector);
}

/// In an accepted declaration the constant of every flag has the value with
/// which the flag was declared.
pub proof fn lemma_constants_hold_values(d: DeclarationView, i: int)
    requires
        d.wf(),
        0 <= i < d.variants.len(),
    ensures
        d.constant_of(d.variants[i].name) == Some(d.variants[i].value),
{
    let name = d.variants[i].name;
    lemma_name_index_range(d.variants, name);
    let first = name_index(d.variants, name);
    if first < i {
        assert(d.variants[first].hash == d.variants[i].hash);
    } else if first > i {
        assert(d.variants[i].name != name);
    }
}

/// The empty case of an accepted declaration. Where no flag has value zero
/// and the configuration does not disable the empty case, its constant is
/// emitted on its own, under the configured name, with value zero, unless a
/// flag bears that name. Where the configuration disables the empty case
/// there is no constant with value zero, and the raw value zero is not
/// accepted.
pub proof fn lemma_empty_constant(d: DeclarationView)
    requires
        d.wf(),
    ensures
        d.emits_empty_constant() == (value_index(d.variants, 0) == d.variants.len()
            && !d.args.disable_empty_generation),
        d.emits_empty_constant() && name_index(d.variants, d.args.none_case) == d.variants.len()
            ==> d.constant_of(d.args.none_case) == Some(0u128),
        d.args.disable_empty_generation ==> !d.accepts(0) && forall|name: Seq<char>|
            #[trigger] d.constant_of(name) != Some(0u128),
{
    lemma_value_index_range(d.variants, 0);
    if d.args.disable_empty_generation {
        assert forall|name: Seq<char>| #[trigger] d.constant_of(name) != Some(0u128) by {
            lemma_name_index_range(d.variants, name);
        }
    }
}

/// Where a value stands once a variant is added at the end.
pub proof fn lemma_value_index_push(variants: Seq<VariantView>, added: VariantView, value: u128)
    ensures
        value_index(variants.push(added), value) == (if value_index(variants, value)
            < variants.len() {
            value_index(variants, value)
        } else if added.value == value {
            variants.len() as int
        } else {
            variants.len() as int + 1
        }),
{
    let longer = variants.push(added);
    let n = value_index(variants, value);
    lemma_value_index_range(variants, value);
    assert forall|j: int| 0 <= j < variants.len() implies (#[trigger] longer[j])
        == variants[j] by {}
    if n < variants.len() {
        lemma_value_index(longer, value, n);
    } else if added.value == value {
        lemma_value_index(longer, value, variants.len() as int);
    } else {
        lemma_value_index(longer, value, variants.len() as int + 1);
    }
}

/// Where a fingerprint stands once a variant is added at the end.
pub proof fn lemma_hash_index_push(variants: Seq<VariantView>, added: VariantView, hash: u64)
    ensures
        hash_index(variants.push(added), hash) == (if hash_index(variants, hash) < variants.len() {
            hash_index(variants, hash)
        } else if added.hash == hash {
            variants.len() as int
        } else {
            variants.len() as int + 1
        }),
{
    let longer = variants.push(added);
    let n = hash_index(variants, hash);
    lemma_hash_index_range(variants, hash);
    assert forall|j: int| 0 <= j < variants.len() implies (#[trigger] longer[j])
        == variants[j] by {}
    if n < variants.len() {
        lemma_hash_index(longer, hash, n);
    } else if added.hash == hash {
        lemma_hash_index(longer, hash, variants.len() as int);
    } else {
        lemma_hash_index(longer, hash, variants.len() as int + 1);
    }
}

impl DeclarationView {
    /// The names of the flags by their values, by which a value that is
    /// declared twice is found.
    pub open spec fn values_seen(self) -> Map<u128, Seq<char>> {
        Map::new(
            |value: u128| value_index(self.variants, value) < self.variants.len(),
            |value: u128| self.variants[value_index(self.variants, value)].name,
        )
    }

    /// The values of the flags by the fingerprints of their names, by which
    /// a name that is declared twice is found.
    pub open spec fn names_seen(self) -> Map<u64, u128> {
        Map::new(
            |hash: u64| hash_index(self.variants, hash) < self.variants.len(),
            |hash: u64| self.variants[hash_index(self.variants, hash)].value,
        )
    }

    /// The constant for the empty case is emitted on its own: no flag has
    /// value zero, and the configuration does not disable it.
    pub open spec fn emits_empty_constant(self) -> bool {
        !self.has_empty_value && !self.args.disable_empty_generation
    }

    /// The raw values that the emitted `from_value` accepts: every set bit
    /// belongs to a flag, and zero only where the empty case is not disabled.
    pub open spec fn accepts(self, raw: u128) -> bool {
        raw & self.all_set_bits == raw && !(self.args.disable_empty_generation && raw == 0)
    }

    /// The value of the emitted constant `name`: that of the first flag of
    /// that name, else zero for the name of the empty case where that
    /// constant is emitted on its own.
    pub open spec fn constant_of(self, name: Seq<char>) -> Option<u128> {
        let index = name_index(self.variants, name);
        if index < self.variants.len() {
            Some(self.variants[index].value)
        } else if self.emits_empty_constant() && name == self.args.none_case {
            Some(0)
        } else {
            None
        }
    }

    /// The invariant of an accepted declaration: every value fits the width,
    /// no two flags share a value or a fingerprint, the fingerprints are
    /// those of the names, `all_set_bits` is the union of the values, a flag
    /// with value zero is recorded and has given the empty case its name, and
    /// there is none where the configuration disables or names the empty
    /// case.
    pub open spec fn wf(self) -> bool {
        &&& forall|i: int|
            0 <= i < self.variants.len() ==> (#[trigger] self.variants[i]).value
                <= self.args.flags_type.max_value()
        &&& forall|i: int|
            0 <= i < self.variants.len() ==> (#[trigger] self.variants[i]).hash == string_hash(
                encode_utf8(self.variants[i].name),
            )
        &&& forall|i: int, j: int|
            #![trigger self.variants[i], self.variants[j]]
            0 <= i < j < self.variants.len() ==> self.variants[i].value != self.variants[j].value
                && self.variants[i].hash != self.variants[j].hash
        &&& self.all_set_bits == union_of(self.variants)
        &&& self.has_empty_value == (value_index(self.variants, 0) < self.variants.len())
        &&& self.has_empty_value ==> {
            &&& self.args.none_case == self.variants[value_index(self.variants, 0)].name
            &&& !self.args.disable_empty_generation
            &&& !self.args.has_empty_value
        }
    }
}

impl Declaration {
    /// A declaration without a name and without flags.
    pub fn new(arguments: Arguments) -> (declaration: Declaration)
        ensures
            declaration@ == (DeclarationView {
                args: arguments@,
                name: Seq::empty(),
                visibility: Seq::empty(),
                variants: Seq::empty(),
                has_empty_value: false,
                all_set_bits: 0,
            }),
            declaration@.wf(),
    {
        let declaration = Declaration {
            args: arguments,
            name: String::new(),
            visibility: String::new(),
            variants: Vec::new(),
            has_empty_value: false,
            all_set_bits: 0,
        };
        assert(declaration@.variants =~= Seq::empty());
        declaration
    }

    /// Wraps a raw value if every bit of it belongs to a flag, as the
    /// emitted `from_value` does. Zero is refused where the empty case is
    /// disabled.
    pub fn from_value(&self, raw: u128) -> (flags: Option<BitFlags>)
        ensures
            flags == (if self@.accepts(raw) {
                Some(BitFlags { value: raw })
            } else {
                None
            }),
    {
        if self.args.disable_empty_generation && raw == 0 {
            return None;
        }
        if raw & self.all_set_bits == raw {
            return Some(BitFlags { value: raw });
        }
        None
    }

    /// Finds the first flag with the given value.
    pub fn find_value(&self, value: u128) -> (index: usize)
        ensures
            index == value_index(self@.variants, value),
            index <= self.variants@.len(),
    {
        let mut index: usize = 0;
        while index < self.variants.len()
            invariant
                index <= self.variants.len(),
                forall|j: int| 0 <= j < index ==> (#[trigger] self@.variants[j]).value != value,
            decreases self.variants.len() - index,
        {
            if self.variants[index].value == value {
                proof {
                    lemma_value_index(self@.variants, value, index as int);
                }
                return index;
            }
            index += 1;
        }
        proof {
            lemma_value_index(self@.variants, value, index as int);
        }
        index
    }

    /// Finds the first flag whose name has the given fingerprint.
    pub fn find_hash(&self, hash: u64) -> (index: usize)
        ensures
            index == hash_index(self@.variants, hash),
            index <= self.variants@.len(),
    {
        let mut index: usize = 0;
        while index < self.variants.len()
            invariant
                index <= self.variants.len(),
                forall|j: int| 0 <= j < index ==> (#[trigger] self@.variants[j]).hash != hash,
            decreases self.variants.len() - index,
        {
            if self.variants[index].hash == hash {
                proof {
                    lemma_hash_index(self@.variants, hash, index as int);
                }
                return index;
            }
            index += 1;
        }
        proof {
            lemma_hash_index(self@.variants, hash, index as int);
        }
        index
    }

    /// The emitted constant of the given name, if there is one.
    pub fn constant(&self, name: &str) -> (flags: Option<BitFlags>)
        ensures
            flags == (match self@.constant_of(name@) {
                Some(value) => Some(BitFlags { value }),
                None => None,
            }),
    {
        let mut index: usize = 0;
        while index < self.variants.len()
            invariant
                index <= self.variants.len(),
                forall|j: int| 0 <= j < index ==> (#[trigger] self@.variants[j]).name != name@,
            decreases self.variants.len() - index,
        {
            if same_text(self.variants[index].name.as_str(), name) {
                proof {
                    lemma_name_index(self@.variants, name@, index as int);
                }
                return Some(BitFlags { value: self.variants[index].value });
            }
            index += 1;
        }
        proof {
            lemma_name_index(self@.variants, name@, index as int);
        }
        if !self.has_empty_value && !self.args.disable_empty_generation && same_text(
            self.args.none_case.as_str(),
            name,
        ) {
            return Some(BitFlags { value: 0 });
        }
        None
    }

    /// Number of bytes that a value of the emitted type takes.
    pub fn size_in_bytes(&self) -> (size: usize)
        ensures
            size * 8 == self@.args.flags_type.bits(),
    {
        self.args.flags_type.size_in_bytes()
    }
}

} // verus!
