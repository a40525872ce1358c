//! The decisions of the registration generator.
//!
//! The generator is an attribute that stands on a capability (a trait) or on
//! the impl of a capability for a concrete type. Parsing the item and writing
//! the tokens is the work of the macro crate around this module. What is
//! decided here is what the attribute adds to the item, and what the added
//! registration function is called.
//!
//! An item is described by what the decision reads of it. The paths, types
//! and identifiers themselves are carried through untouched, as values of the
//! caller's own types `P`, `S` and `I`.

use std::collections::hash_map::DefaultHasher;
use std::hash::Hasher;
use vstd::prelude::*;
use vstd::std_specs::hash::DefaultHasherAdditionalSpecFns;
use vstd::utf8::encode_utf8;

verus! {

/// The trait named in the header of an impl.
#[derive(Debug, PartialEq, Eq)]
pub struct ImplementedTrait<P> {
    /// Whether the header negates the trait (`impl !Trait for ..`).
    pub negative: bool,
    /// The path of the trait.
    pub path: P,
}

/// The item that the attribute stands on.
#[derive(Debug, PartialEq, Eq)]
pub enum Item<P, S, I> {
    /// An impl block.
    Impl {
        /// The trait that the block implements; `None` for an inherent impl.
        implemented: Option<ImplementedTrait<P>>,
        /// The number of generic parameters of the block, of every kind.
        generic_params: usize,
        /// The names of the block's type parameters.
        type_params: Vec<String>,
        /// The name of the self type, where the self type is a bare name
        /// (`Circle`, `T`); `None` for every other type (`Holder<T>`, `&T`).
        self_name: Option<String>,
        /// The type that the block is for.
        self_ty: S,
    },
    /// A trait definition, with its name.
    Trait { ident: I },
    /// Any other item.
    Other,
}

/// What the attribute adds behind the item, which itself stays as it is.
#[derive(Debug, PartialEq, Eq)]
pub enum Expansion<P, S, I> {
    /// The registration of `concrete` in the registry of `capability`.
    Registration { capability: P, concrete: S },
    /// Nothing: the concrete type has generic parameters, and each of its
    /// instantiations has to be registered by hand.
    Nothing,
    /// The registry of the capability `ident`, with its accessor.
    Registry { ident: I },
}

/// Why the attribute refuses an item.
#[derive(Clone, Copy, Debug, PartialEq, Eq, Structural)]
pub enum GeneratorError {
    /// The impl does not implement a trait for a concrete type: it names no
    /// trait, negates it, or is for one of its own type parameters.
    ExpectedTraitImpl,
    /// The item is neither a trait nor an impl.
    ExpectedTraitOrImpl,
}

impl GeneratorError {
    /// The words of the compile error.
    pub open spec fn message_text(self) -> Seq<char> {
        match self {
            GeneratorError::ExpectedTraitImpl => "serde_box expected `impl trait for struct`"@,
            GeneratorError::ExpectedTraitOrImpl => "serde_box expected `trait` or `impl for`"@,
        }
    }

    /// The words of the compile error.
    pub fn message(&self) -> (text: &'static str)
        ensures
            text@ == self.message_text(),
    {
        match self {
            GeneratorError::ExpectedTraitImpl => "serde_box expected `impl trait for struct`",
            GeneratorError::ExpectedTraitOrImpl => "serde_box expected `trait` or `impl for`",
        }
    }
}

/// Whether an impl is a blanket impl: its self type is one of its own type
/// parameters.
pub open spec fn is_blanket(type_params: Seq<String>, self_name: Option<String>) -> bool {
    self_name matches Some(name) && exists|i: int|
        0 <= i < type_params.len() && (#[trigger] type_params[i])@ == name@
}

/// What the attribute makes of `item`.
///
/// * An inherent impl, a negative impl and a blanket impl are refused: none
///   says that a concrete type implements a capability.
/// * The impl of a trait for a concrete type, without generic parameters,
///   gets the registration of the type under the trait.
/// * The impl of a trait for a concrete type with generic parameters gets
///   nothing.
/// * A trait gets its registry.
/// * Every other item is refused.
pub open spec fn expansion<P, S, I>(item: Item<P, S, I>) -> Result<
    Expansion<P, S, I>,
    GeneratorError,
> {
    match item {
        Item::Impl { implemented: Some(implemented), generic_params, type_params, self_name, self_ty } => {
            if implemented.negative || is_blanket(type_params@, self_name) {
                Err(GeneratorError::ExpectedTraitImpl)
            } else if generic_params == 0 {
                Ok(Expansion::Registration { capability: implemented.path, concrete: self_ty })
            } else {
                Ok(Expansion::Nothing)
            }
        },
        Item::Impl { implemented: None, .. } => Err(GeneratorError::ExpectedTraitImpl),
        Item::Trait { ident } => Ok(Expansion::Registry { ident }),
        Item::Other => Err(GeneratorError::ExpectedTraitOrImpl),
    }
}

fn names_type_param(type_params: &Vec<String>, self_name: &Option<String>) -> (blanket: bool)
    ensures
        blanket == is_blanket(type_params@, *self_name),
{
    match self_name {
        None => false,
        Some(name) => {
            let mut i: usize = 0;
            while i < type_params.len()
                invariant
                    i <= type_params.len(),
                    *self_name == Some(*name),
                    forall|j: int| 0 <= j < i ==> (#[trigger] type_params@[j])@ != name@,
                decreases type_params.len() - i,
            {
                if type_params[i] == *name {
                    return true;
                }
                i += 1;
            }
            false
        },
    }
}

/// Decides what the attribute adds to `item`, or why it refuses it.
pub fn serde_box<P, S, I>(item: Item<P, S, I>) -> (decided: Result<
    Expansion<P, S, I>,
    GeneratorError,
>)
    ensures
        decided == expansion(item),
{
    match item {
        Item::Impl { implemented, generic_params, type_params, self_name, self_ty } => match implemented {
            Some(ImplementedTrait { negative: false, path }) => {
                if names_type_param(&type_params, &self_name) {
                    Err(GeneratorError::ExpectedTraitImpl)
                } else if generic_params == 0 {
                    Ok(Expansion::Registration { capability: path, concrete: self_ty })
                } else {
                    Ok(Expansion::Nothing)
                }
            },
            _ => Err(GeneratorError::ExpectedTraitImpl),
        },
        Item::Trait { ident } => Ok(Expansion::Registry { ident }),
        Item::Other => Err(GeneratorError::ExpectedTraitOrImpl),
    }
}

/// The character that stands for the digit `d`.
pub open spec fn digit(d: nat) -> char
    recommends
        d < 10,
{
    seq!['0', '1', '2', '3', '4', '5', '6', '7', '8', '9'][d as int]
}

/// `n` in decimal, without leading zeros.
pub open spec fn decimal(n: nat) -> Seq<char>
    decreases n,
{
    if n < 10 {
        seq![digit(n)]
    } else {
        decimal(n / 10).push(digit(n % 10))
    }
}

/// The hash of the text of one invocation: that of the default hasher over
/// the text's bytes and the byte that ends a string.
pub open spec fn invocation_hash(tokens: Seq<char>) -> u64 {
    DefaultHasher::spec_finish(seq![encode_utf8(tokens), seq![0xffu8]])
}

/// The name of the registration function of an invocation whose text has
/// the hash `hash`: `register_serde_box_`, then the hash in decimal.
pub open spec fn function_name(hash: u64) -> Seq<char> {
    "register_serde_box_"@ + decimal(hash as nat)
}

fn digit_text(d: u64) -> (text: &'static str)
    requires
        d < 10,
    ensures
        text@ == seq![digit(d as nat)],
{
    proof {
        reveal_strlit("0");
        reveal_strlit("1");
        reveal_strlit("2");
        reveal_strlit("3");
        reveal_strlit("4");
        reveal_strlit("5");
        reveal_strlit("6");
        reveal_strlit("7");
        reveal_strlit("8");
        reveal_strlit("9");
    }
    match d {
        0 => "0",
        1 => "1",
        2 => "2",
        3 => "3",
        4 => "4",
        5 => "5",
        6 => "6",
        7 => "7",
        8 => "8",
        _ => "9",
    }
}

fn push_decimal(text: &mut String, n: u64)
    ensures
        final(text)@ == old(text)@ + decimal(n as nat),
    decreases n,
{
    if n >= 10 {
        push_decimal(text, n / 10);
    }
    text.append(digit_text(n % 10));
}

/// Names the registration function of an invocation whose text has the
/// hash `hash`.
pub fn registration_fn_name(hash: u64) -> (name: String)
    ensures
        name@ == function_name(hash),
{
    let mut name = String::from_str("register_serde_box_");
    push_decimal(&mut name, hash);
    name
}

/// Names the registration function that one invocation of the registration
/// macro writes, from the text of the invocation.
///
/// The name ends in the hash of the text, so that the functions of two
/// invocations in one module do not clash.
pub fn register_serde_box(tokens: &str) -> (name: String)
    ensures
        name@ == function_name(invocation_hash(tokens@)),
{
    let mut hasher = DefaultHasher::new();
    hasher.write(tokens.as_bytes());
    let end: [u8; 1] = [0xff];
    assert(end@ =~= seq![0xffu8]);
    hasher.write(end.as_slice());
    assert(hasher@ =~= seq![encode_utf8(tokens@), seq![0xffu8]]);
    registration_fn_name(hasher.finish())
}

} // verus!
