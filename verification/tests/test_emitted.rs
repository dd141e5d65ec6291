use enum_bit_flags::parser::generate;
use enum_bit_flags::tokens::{Delimiter, Token};

// The two types below are the text that `generate` emits for the declarations
// of `test_tokens` and `ordered_tokens`, as `TEST_SOURCE` and `ORDERED_SOURCE`
// hold it, less the inlining hints: what is tested on them is tested on the
// emitted text.

#[derive(Copy, Clone, Debug)]
struct Test {
    value: u8,
}
#[allow(non_upper_case_globals)]
impl Test {
    const V1: Self = Self { value: 0x1u8 };
    const V2: Self = Self { value: 0x2u8 };
    const V3: Self = Self { value: 0x80u8 };
    const NoBitsSet: Self = Self { value: 0 };
    /// Wraps `value` if every bit that is set in it belongs to a declared flag,
    /// and returns `None` for any other value.
    fn from_value(value: u8) -> Option<Self> {
        if value & 0x83u8 == value {
            return Some(Self { value });
        }
        None
    }
    /// Tells whether every flag of `mask` is set. The empty mask is contained in no value.
    fn contains(&self, mask: Self) -> bool {
        ((self.value & mask.value) == mask.value) && (mask.value != 0)
    }
    /// Tells whether at least one flag of `mask` is set.
    fn contains_one(&self, mask: Self) -> bool {
        (self.value & mask.value) != 0
    }
    /// Tells whether no flag is set.
    fn is_empty(&self) -> bool {
        self.value == 0
    }
    /// Clears every flag.
    fn clear(&mut self) {
        self.value = 0;
    }
    /// Clears the flags of `mask`.
    fn remove(&mut self, mask: Self) {
        self.value = self.value - (self.value & mask.value);
    }
    /// Sets the flags of `mask`.
    fn set(&mut self, mask: Self) {
        self.value |= mask.value;
    }
    /// Returns the raw value.
    const fn get_value(&self) -> u8 {
        self.value
    }
}
impl std::ops::BitOr for Test {
    type Output = Self;
    fn bitor(self, rhs: Self) -> Self::Output {
        Self { value: self.value | rhs.value }
    }
}
impl std::ops::BitOrAssign for Test {
    fn bitor_assign(&mut self, rhs: Self) {
        self.value |= rhs.value;
    }
}
impl std::ops::BitAnd for Test {
    type Output = Self;
    fn bitand(self, rhs: Self) -> Self::Output {
        Self { value: self.value & rhs.value }
    }
}
impl std::ops::BitAndAssign for Test {
    fn bitand_assign(&mut self, rhs: Self) {
        self.value &= rhs.value;
    }
}
impl std::cmp::Eq for Test {}
impl std::cmp::PartialEq for Test {
    fn eq(&self, other: &Self) -> bool {
        self.value == other.value
    }
}
impl std::default::Default for Test {
    fn default() -> Self {
        Self { value: 0 }
    }
}
impl std::fmt::Display for Test {
    #[allow(unused_assignments, unused_mut, unused_variables)]
    fn fmt(&self, f: &mut std::fmt::Formatter<'_>) -> std::fmt::Result {
        f.write_str("Test (")?;
        if self.value == 0 {
            f.write_str("NoBitsSet)")?;
        } else {
            let mut first = true;
            if (self.value & 0x1u8) == 0x1u8 {
                if !first {
                    f.write_str(" | ")?;
                }
                first = false;
                f.write_str("V1")?;
            }
            if (self.value & 0x2u8) == 0x2u8 {
                if !first {
                    f.write_str(" | ")?;
                }
                first = false;
                f.write_str("V2")?;
            }
            if (self.value & 0x80u8) == 0x80u8 {
                if !first {
                    f.write_str(" | ")?;
                }
                first = false;
                f.write_str("V3")?;
            }
            f.write_str(")")?;
        }
        Ok(())
    }
}

#[derive(Copy, Clone, Debug)]
pub struct Ordered {
    value: u16,
}
#[allow(non_upper_case_globals)]
impl Ordered {
    pub const B: Self = Self { value: 0x2u16 };
    pub const A: Self = Self { value: 0x1u16 };
    pub const Both: Self = Self { value: 0x3u16 };
    /// Wraps `value` if every bit that is set in it belongs to a declared flag,
    /// and returns `None` for any other value.
    pub fn from_value(value: u16) -> Option<Self> {
        if value == 0 {
            return None;
        }
        if value & 0x3u16 == value {
            return Some(Self { value });
        }
        None
    }
    /// Tells whether every flag of `mask` is set. The empty mask is contained in no value.
    pub fn contains(&self, mask: Self) -> bool {
        ((self.value & mask.value) == mask.value) && (mask.value != 0)
    }
    /// Tells whether at least one flag of `mask` is set.
    pub fn contains_one(&self, mask: Self) -> bool {
        (self.value & mask.value) != 0
    }
    /// Tells whether no flag is set.
    pub fn is_empty(&self) -> bool {
        self.value == 0
    }
    /// Clears every flag.
    pub fn clear(&mut self) {
        self.value = 0;
    }
    /// Clears the flags of `mask`.
    pub fn remove(&mut self, mask: Self) {
        self.value = self.value - (self.value & mask.value);
    }
    /// Sets the flags of `mask`.
    pub fn set(&mut self, mask: Self) {
        self.value |= mask.value;
    }
    /// Returns the raw value.
    pub const fn get_value(&self) -> u16 {
        self.value
    }
}
impl std::ops::BitOr for Ordered {
    type Output = Self;
    fn bitor(self, rhs: Self) -> Self::Output {
        Self { value: self.value | rhs.value }
    }
}
impl std::ops::BitOrAssign for Ordered {
    fn bitor_assign(&mut self, rhs: Self) {
        self.value |= rhs.value;
    }
}
impl std::ops::BitAnd for Ordered {
    type Output = Self;
    fn bitand(self, rhs: Self) -> Self::Output {
        Self { value: self.value & rhs.value }
    }
}
impl std::ops::BitAndAssign for Ordered {
    fn bitand_assign(&mut self, rhs: Self) {
        self.value &= rhs.value;
    }
}
impl std::cmp::Eq for Ordered {}
impl std::cmp::PartialEq for Ordered {
    fn eq(&self, other: &Self) -> bool {
        self.value == other.value
    }
}
impl std::default::Default for Ordered {
    fn default() -> Self {
        Self { value: 0 }
    }
}
impl std::fmt::Display for Ordered {
    #[allow(unused_assignments, unused_mut, unused_variables)]
    fn fmt(&self, f: &mut std::fmt::Formatter<'_>) -> std::fmt::Result {
        f.write_str("Ordered (")?;
        if self.value == 0 {
            f.write_str("None)")?;
        } else {
            let mut first = true;
            if (self.value & 0x1u16) == 0x1u16 {
                if !first {
                    f.write_str(" | ")?;
                }
                first = false;
                f.write_str("A")?;
            }
            if (self.value & 0x2u16) == 0x2u16 {
                if !first {
                    f.write_str(" | ")?;
                }
                first = false;
                f.write_str("B")?;
            }
            if (self.value & 0x3u16) == 0x3u16 {
                if !first {
                    f.write_str(" | ")?;
                }
                first = false;
                f.write_str("Both")?;
            }
            f.write_str(")")?;
        }
        Ok(())
    }
}

const TEST_SOURCE: &str = r#"#[derive(Copy, Clone, Debug)]
struct Test {
    value: u8,
}
#[allow(non_upper_case_globals)]
impl Test {
    const V1: Self = Self { value: 0x1u8 };
    const V2: Self = Self { value: 0x2u8 };
    const V3: Self = Self { value: 0x80u8 };
    const NoBitsSet: Self = Self { value: 0 };
    /// Wraps `value` if every bit that is set in it belongs to a declared flag,
    /// and returns `None` for any other value.
    fn from_value(value: u8) -> Option<Self> {
        if value & 0x83u8 == value {
            return Some(Self { value });
        }
        None
    }
    /// Tells whether every flag of `mask` is set. The empty mask is contained in no value.
    fn contains(&self, mask: Self) -> bool {
        ((self.value & mask.value) == mask.value) && (mask.value != 0)
    }
    /// Tells whether at least one flag of `mask` is set.
    fn contains_one(&self, mask: Self) -> bool {
        (self.value & mask.value) != 0
    }
    /// Tells whether no flag is set.
    fn is_empty(&self) -> bool {
        self.value == 0
    }
    /// Clears every flag.
    fn clear(&mut self) {
        self.value = 0;
    }
    /// Clears the flags of `mask`.
    fn remove(&mut self, mask: Self) {
        self.value = self.value - (self.value & mask.value);
    }
    /// Sets the flags of `mask`.
    fn set(&mut self, mask: Self) {
        self.value |= mask.value;
    }
    /// Returns the raw value.
    const fn get_value(&self) -> u8 {
        self.value
    }
}
impl std::ops::BitOr for Test {
    type Output = Self;
    fn bitor(self, rhs: Self) -> Self::Output {
        Self { value: self.value | rhs.value }
    }
}
impl std::ops::BitOrAssign for Test {
    fn bitor_assign(&mut self, rhs: Self) {
        self.value |= rhs.value;
    }
}
impl std::ops::BitAnd for Test {
    type Output = Self;
    fn bitand(self, rhs: Self) -> Self::Output {
        Self { value: self.value & rhs.value }
    }
}
impl std::ops::BitAndAssign for Test {
    fn bitand_assign(&mut self, rhs: Self) {
        self.value &= rhs.value;
    }
}
impl std::cmp::Eq for Test {}
impl std::cmp::PartialEq for Test {
    fn eq(&self, other: &Self) -> bool {
        self.value == other.value
    }
}
impl std::default::Default for Test {
    fn default() -> Self {
        Self { value: 0 }
    }
}
impl std::fmt::Display for Test {
    #[allow(unused_assignments, unused_mut, unused_variables)]
    fn fmt(&self, f: &mut std::fmt::Formatter<'_>) -> std::fmt::Result {
        f.write_str("Test (")?;
        if self.value == 0 {
            f.write_str("NoBitsSet)")?;
        } else {
            let mut first = true;
            if (self.value & 0x1u8) == 0x1u8 {
                if !first {
                    f.write_str(" | ")?;
                }
                first = false;
                f.write_str("V1")?;
            }
            if (self.value & 0x2u8) == 0x2u8 {
                if !first {
                    f.write_str(" | ")?;
                }
                first = false;
                f.write_str("V2")?;
            }
            if (self.value & 0x80u8) == 0x80u8 {
                if !first {
                    f.write_str(" | ")?;
                }
                first = false;
                f.write_str("V3")?;
            }
            f.write_str(")")?;
        }
        Ok(())
    }
}
"#;

const ORDERED_SOURCE: &str = r#"#[derive(Copy, Clone, Debug)]
pub struct Ordered {
    value: u16,
}
#[allow(non_upper_case_globals)]
impl Ordered {
    pub const B: Self = Self { value: 0x2u16 };
    pub const A: Self = Self { value: 0x1u16 };
    pub const Both: Self = Self { value: 0x3u16 };
    /// Wraps `value` if every bit that is set in it belongs to a declared flag,
    /// and returns `None` for any other value.
    pub fn from_value(value: u16) -> Option<Self> {
        if value == 0 {
            return None;
        }
        if value & 0x3u16 == value {
            return Some(Self { value });
        }
        None
    }
    /// Tells whether every flag of `mask` is set. The empty mask is contained in no value.
    pub fn contains(&self, mask: Self) -> bool {
        ((self.value & mask.value) == mask.value) && (mask.value != 0)
    }
    /// Tells whether at least one flag of `mask` is set.
    pub fn contains_one(&self, mask: Self) -> bool {
        (self.value & mask.value) != 0
    }
    /// Tells whether no flag is set.
    pub fn is_empty(&self) -> bool {
        self.value == 0
    }
    /// Clears every flag.
    pub fn clear(&mut self) {
        self.value = 0;
    }
    /// Clears the flags of `mask`.
    pub fn remove(&mut self, mask: Self) {
        self.value = self.value - (self.value & mask.value);
    }
    /// Sets the flags of `mask`.
    pub fn set(&mut self, mask: Self) {
        self.value |= mask.value;
    }
    /// Returns the raw value.
    pub const fn get_value(&self) -> u16 {
        self.value
    }
}
impl std::ops::BitOr for Ordered {
    type Output = Self;
    fn bitor(self, rhs: Self) -> Self::Output {
        Self { value: self.value | rhs.value }
    }
}
impl std::ops::BitOrAssign for Ordered {
    fn bitor_assign(&mut self, rhs: Self) {
        self.value |= rhs.value;
    }
}
impl std::ops::BitAnd for Ordered {
    type Output = Self;
    fn bitand(self, rhs: Self) -> Self::Output {
        Self { value: self.value & rhs.value }
    }
}
impl std::ops::BitAndAssign for Ordered {
    fn bitand_assign(&mut self, rhs: Self) {
        self.value &= rhs.value;
    }
}
impl std::cmp::Eq for Ordered {}
impl std::cmp::PartialEq for Ordered {
    fn eq(&self, other: &Self) -> bool {
        self.value == other.value
    }
}
impl std::default::Default for Ordered {
    fn default() -> Self {
        Self { value: 0 }
    }
}
impl std::fmt::Display for Ordered {
    #[allow(unused_assignments, unused_mut, unused_variables)]
    fn fmt(&self, f: &mut std::fmt::Formatter<'_>) -> std::fmt::Result {
        f.write_str("Ordered (")?;
        if self.value == 0 {
            f.write_str("None)")?;
        } else {
            let mut first = true;
            if (self.value & 0x1u16) == 0x1u16 {
                if !first {
                    f.write_str(" | ")?;
                }
                first = false;
                f.write_str("A")?;
            }
            if (self.value & 0x2u16) == 0x2u16 {
                if !first {
                    f.write_str(" | ")?;
                }
                first = false;
                f.write_str("B")?;
            }
            if (self.value & 0x3u16) == 0x3u16 {
                if !first {
                    f.write_str(" | ")?;
                }
                first = false;
                f.write_str("Both")?;
            }
            f.write_str(")")?;
        }
        Ok(())
    }
}
"#;

fn ident(name: &str) -> Token {
    Token::Ident(name.to_string())
}

fn literal(text: &str) -> Token {
    Token::Literal(text.to_string())
}

fn flags(pairs: &[(&str, &str)]) -> Token {
    let mut stream = Vec::new();
    for (name, value) in pairs {
        stream.push(ident(name));
        stream.push(Token::Punct('='));
        stream.push(literal(value));
        stream.push(Token::Punct(','));
    }
    Token::Group { delimiter: Delimiter::Brace, text: String::new(), stream }
}

fn without_hints(text: &str) -> String {
    text.replace("#[inline(always)]\n    ", "")
}

fn test_source() -> String {
    let arguments = vec![
        ident("bits"),
        Token::Punct(':'),
        literal("8"),
        Token::Punct(','),
        ident("empty"),
        Token::Punct('='),
        ident("NoBitsSet"),
    ];
    let input = vec![ident("enum"), ident("Test"), flags(&[("V1", "1"), ("V2", "2"), ("V3", "128")])];
    generate(&arguments, &input).expect("the declaration is valid")
}

fn ordered_source() -> String {
    let arguments = vec![
        ident("bits"),
        Token::Punct('='),
        literal("16"),
        Token::Punct(','),
        ident("disable_empty_generation"),
        Token::Punct('='),
        ident("true"),
    ];
    let input = vec![
        ident("pub"),
        ident("enum"),
        ident("Ordered"),
        flags(&[("B", "2"), ("A", "0b1"), ("Both", "0x3u16")]),
    ];
    generate(&arguments, &input).expect("the declaration is valid")
}

#[test]
fn emitted_text_of_test() {
    assert_eq!(without_hints(&test_source()), TEST_SOURCE);
}

#[test]
fn emitted_text_of_ordered() {
    assert_eq!(without_hints(&ordered_source()), ORDERED_SOURCE);
}

#[test]
fn emitted_text_has_the_inlining_hints() {
    assert_eq!(test_source().matches("#[inline(always)]").count(), 12);
}

#[test]
fn emitted_text_has_no_placeholder() {
    assert!(!test_source().contains("$$("));
    assert!(!ordered_source().contains("$$("));
}

#[test]
fn emitted_constants_have_the_declared_values() {
    assert_eq!(Test::V1.get_value(), 1);
    assert_eq!(Test::V2.get_value(), 2);
    assert_eq!(Test::V3.get_value(), 128);
    assert_eq!(Test::NoBitsSet.get_value(), 0);
    assert_eq!(Ordered::A.get_value(), 1);
    assert_eq!(Ordered::B.get_value(), 2);
    assert_eq!(Ordered::Both.get_value(), 3);
}

#[test]
fn emitted_from_value() {
    assert_eq!(Test::from_value(3), Some(Test::V1 | Test::V2));
    assert_eq!(Test::from_value(255), None);
    assert_eq!(Test::from_value(0), Some(Test::NoBitsSet));
    assert_eq!(Ordered::from_value(3), Some(Ordered::A | Ordered::B));
    assert_eq!(Ordered::from_value(0), None);
    assert_eq!(Ordered::from_value(4), None);
}

#[test]
fn emitted_contains() {
    let t = Test::V1 | Test::V2;
    assert!(t.contains(Test::V1));
    assert!(t.contains(Test::V2));
    assert!(!t.contains(Test::V3));
    assert!(!t.contains(Test::V1 | Test::V3));
    assert!(t.contains_one(Test::V1 | Test::V3));
    assert!(!t.contains(Test::NoBitsSet));
    assert!(!Test::NoBitsSet.contains(Test::NoBitsSet));
    assert!((t & Test::V3) == Test::NoBitsSet);
}

#[test]
fn emitted_remove_and_set() {
    let mut t = Test::V1 | Test::V2;
    t.remove(Test::V2);
    assert!(!t.contains(Test::V2));
    assert!(t == Test::V1);
    t.remove(Test::V3);
    assert!(t == Test::V1);
    t.set(Test::V3);
    assert_eq!(t.get_value(), 129);
    t &= Test::V3;
    assert_eq!(t.get_value(), 128);
    t |= Test::V2;
    assert_eq!(t.get_value(), 130);
    t.clear();
    assert!(t.is_empty());
    assert!(t == Test::default());
}

#[test]
fn emitted_display() {
    assert_eq!(format!("{}", Test::V1 | Test::V2), "Test (V1 | V2)");
    assert_eq!(format!("{}", Test::default()), "Test (NoBitsSet)");
    assert_eq!(format!("{}", Test::V3 | Test::V1), "Test (V1 | V3)");
    assert_eq!(format!("{}", Ordered::B), "Ordered (B)");
    assert_eq!(format!("{}", Ordered::A | Ordered::B), "Ordered (A | B | Both)");
    assert_eq!(format!("{}", Ordered::default()), "Ordered (None)");
}

#[test]
fn emitted_storage() {
    assert_eq!(std::mem::size_of::<Test>(), 1);
    assert_eq!(std::mem::size_of::<Ordered>(), 2);
}
