//! The types of the language with their layout: the alignment and the size of every type
//! on targets with addresses of 32 and of 64 bits.
//!
//! The properties of a construct or a struct are laid out in the order in which they are
//! declared. Each takes as many bytes as its alignment says, and starts at a multiple of
//! its alignment. The whole is aligned as its most demanding property is, and its size is
//! a multiple of that.

pub mod align;
pub mod named;

use vstd::prelude::*;

pub use align::round;
use align::{lemma_round_up, round_up};
pub use named::Named;

verus! {

/// A function with its overloads.
#[derive(Debug)]
pub struct Function {
    /// The name of the function, such as `printf`.
    pub name: String,
    /// The full name of the function.
    pub full_name: Named,
    /// The signatures of the function, one for each overload.
    pub signatures: Vec<FunctionSignature>,
}

/// The types that a function takes and the type that it gives.
#[derive(Debug)]
pub struct FunctionSignature {
    /// The types of the arguments.
    pub arguments: Vec<FlycatcherType>,
    /// The type of the result.
    pub returns: FlycatcherType,
}

/// A property of a construct or a struct.
#[derive(Debug)]
pub struct ConstructProperty {
    /// The name of the property.
    pub name: String,
    /// The type of the property.
    pub ty: FlycatcherType,
}

/// A construct: properties and methods under a name.
#[derive(Debug)]
pub struct Construct {
    /// The name of the construct.
    pub name: String,
    /// The full name of the construct.
    pub full_name: Named,
    /// The properties, in the order in which they are declared.
    pub properties: Vec<ConstructProperty>,
    /// The methods.
    pub methods: Vec<Function>,
}

/// A struct with the layout of the C language.
#[derive(Debug)]
pub struct CStruct {
    /// The name of the struct.
    pub name: String,
    /// The full name of the struct.
    pub full_name: Named,
    /// The properties, in the order in which they are declared.
    pub properties: Vec<ConstructProperty>,
}

/// The types of the language.
#[derive(Debug)]
pub enum FlycatcherType {
    /// The type without values; its alignment is 0.
    Void,
    /// `true` or `false`.
    Bool,
    /// An unsigned integer of 8 bits.
    Uint8,
    /// An unsigned integer of 16 bits.
    Uint16,
    /// An unsigned integer of 32 bits.
    Uint32,
    /// An unsigned integer of 64 bits.
    Uint64,
    /// An unsigned integer as wide as an address of the target.
    Usize,
    /// A signed integer of 8 bits.
    Int8,
    /// A signed integer of 16 bits.
    Int16,
    /// A signed integer of 32 bits.
    Int32,
    /// A signed integer of 64 bits.
    Int64,
    /// A signed integer as wide as an address of the target.
    Size,
    /// A floating point number of 32 bits.
    Float32,
    /// A floating point number of 64 bits.
    Float64,
    /// The address of a sequence of bytes that ends with a zero byte.
    NullString,
    /// The address of a function.
    Func(Function),
    /// A construct.
    Construct(Construct),
    /// A struct with the layout of the C language.
    CStruct(CStruct),
}

/// The larger of two numbers.
pub open spec fn larger(a: nat, b: nat) -> nat {
    if a >= b {
        a
    } else {
        b
    }
}

/// The alignment of a type in bytes, on a target with addresses of 64 bits if `wide` and
/// of 32 bits otherwise.
pub open spec fn alignment(t: &FlycatcherType, wide: bool) -> nat
    decreases t, 0nat,
{
    match t {
        FlycatcherType::Void => 0,
        FlycatcherType::Bool => 1,
        FlycatcherType::Uint8 => 1,
        FlycatcherType::Uint16 => 2,
        FlycatcherType::Uint32 => 4,
        FlycatcherType::Uint64 => 8,
        FlycatcherType::Usize => if wide { 8 } else { 4 },
        FlycatcherType::Int8 => 1,
        FlycatcherType::Int16 => 2,
        FlycatcherType::Int32 => 4,
        FlycatcherType::Int64 => 8,
        FlycatcherType::Size => if wide { 8 } else { 4 },
        FlycatcherType::Float32 => 4,
        FlycatcherType::Float64 => 8,
        FlycatcherType::NullString => if wide { 8 } else { 4 },
        FlycatcherType::Func(_) => if wide { 8 } else { 4 },
        FlycatcherType::Construct(c) => widest(&c.properties, c.properties@.len(), wide),
        FlycatcherType::CStruct(c) => widest(&c.properties, c.properties@.len(), wide),
    }
}

/// The largest alignment among the first `n` properties; 0 if there is none.
pub open spec fn widest(properties: &Vec<ConstructProperty>, n: nat, wide: bool) -> nat
    decreases properties, n,
{
    if n == 0 || n > properties@.len() {
        0
    } else {
        larger(widest(properties, (n - 1) as nat, wide), alignment(&properties@[n - 1].ty, wide))
    }
}

/// The offset behind the first `n` properties: each property takes as many bytes as its
/// alignment says, and the offset behind it is rounded up to the alignment of the next.
pub open spec fn offset(properties: &Vec<ConstructProperty>, n: nat, wide: bool) -> nat
    decreases n,
{
    if n == 0 || n > properties@.len() {
        0
    } else {
        let end = offset(properties, (n - 1) as nat, wide) + alignment(&properties@[n - 1].ty, wide);
        if n < properties@.len() {
            round_up(end, alignment(&properties@[n as int].ty, wide))
        } else {
            end
        }
    }
}

/// The size of the properties laid out one behind the other: the offset behind the last,
/// rounded up to the largest alignment among them.
pub open spec fn extent(properties: &Vec<ConstructProperty>, wide: bool) -> nat {
    round_up(
        offset(properties, properties@.len(), wide),
        widest(properties, properties@.len(), wide),
    )
}

/// The size of a type in bytes: that of a construct or a struct is the extent of its
/// properties, that of any other type is its alignment.
pub open spec fn size(t: &FlycatcherType, wide: bool) -> nat {
    match t {
        FlycatcherType::Construct(c) => extent(&c.properties, wide),
        FlycatcherType::CStruct(c) => extent(&c.properties, wide),
        _ => alignment(t, wide),
    }
}

/// Whether the properties can be laid out: every property but the first has an alignment
/// other than 0, some property has one, and the properties are few enough for the size to
/// be computed.
pub open spec fn can_lay_out(properties: &Vec<ConstructProperty>, wide: bool) -> bool {
    &&& properties@.len() <= 0x0fff_ffff
    &&& widest(properties, properties@.len(), wide) > 0
    &&& forall|i: int| 1 <= i < properties@.len() ==> alignment(&(#[trigger] properties@[i]).ty, wide) > 0
}

/// Whether the size of the type can be computed.
pub open spec fn has_size(t: &FlycatcherType, wide: bool) -> bool {
    match t {
        FlycatcherType::Construct(c) => can_lay_out(&c.properties, wide),
        FlycatcherType::CStruct(c) => can_lay_out(&c.properties, wide),
        _ => true,
    }
}

/// No alignment is larger than 8.
pub proof fn lemma_alignment_bound(t: &FlycatcherType, wide: bool)
    ensures
        alignment(t, wide) <= 8,
    decreases t, 0nat,
{
    match t {
        FlycatcherType::Construct(c) => lemma_widest_bound(&c.properties, c.properties@.len(), wide),
        FlycatcherType::CStruct(c) => lemma_widest_bound(&c.properties, c.properties@.len(), wide),
        _ => {},
    }
}

/// The largest alignment among properties is at most 8, and no property has a larger one.
pub proof fn lemma_widest_bound(properties: &Vec<ConstructProperty>, n: nat, wide: bool)
    ensures
        widest(properties, n, wide) <= 8,
        n <= properties@.len() ==> forall|i: int|
            0 <= i < n ==> alignment(&(#[trigger] properties@[i]).ty, wide) <= widest(
                properties,
                n,
                wide,
            ),
    decreases properties, n,
{
    if n == 0 || n > properties@.len() {
    } else {
        lemma_widest_bound(properties, (n - 1) as nat, wide);
        lemma_alignment_bound(&properties@[n - 1].ty, wide);
    }
}

/// The offset behind `n` properties is at most 16 bytes for each property.
pub proof fn lemma_offset_bound(properties: &Vec<ConstructProperty>, n: nat, wide: bool)
    requires
        forall|i: int| 1 <= i < properties@.len() ==> alignment(&(#[trigger] properties@[i]).ty, wide) > 0,
    ensures
        offset(properties, n, wide) <= 16 * n,
    decreases n,
{
    if n == 0 || n > properties@.len() {
    } else {
        lemma_offset_bound(properties, (n - 1) as nat, wide);
        lemma_alignment_bound(&properties@[n - 1].ty, wide);
        if n < properties@.len() {
            let end = offset(properties, (n - 1) as nat, wide) + alignment(&properties@[n - 1].ty, wide);
            lemma_alignment_bound(&properties@[n as int].ty, wide);
            lemma_round_up(end, alignment(&properties@[n as int].ty, wide));
        }
    }
}

/// The alignment of `t`.
fn alignment_of(t: &FlycatcherType, wide: bool) -> (r: usize)
    ensures
        r == alignment(t, wide),
        r <= 8,
    decreases t, 0nat,
{
    proof {
        lemma_alignment_bound(t, wide);
    }
    match t {
        FlycatcherType::Void => 0,
        FlycatcherType::Bool => 1,
        FlycatcherType::Uint8 => 1,
        FlycatcherType::Uint16 => 2,
        FlycatcherType::Uint32 => 4,
        FlycatcherType::Uint64 => 8,
        FlycatcherType::Usize => if wide { 8 } else { 4 },
        FlycatcherType::Int8 => 1,
        FlycatcherType::Int16 => 2,
        FlycatcherType::Int32 => 4,
        FlycatcherType::Int64 => 8,
        FlycatcherType::Size => if wide { 8 } else { 4 },
        FlycatcherType::Float32 => 4,
        FlycatcherType::Float64 => 8,
        FlycatcherType::NullString => if wide { 8 } else { 4 },
        FlycatcherType::Func(_) => if wide { 8 } else { 4 },
        FlycatcherType::Construct(c) => widest_of(&c.properties, wide),
        FlycatcherType::CStruct(c) => widest_of(&c.properties, wide),
    }
}

/// The largest alignment among the properties.
fn widest_of(properties: &Vec<ConstructProperty>, wide: bool) -> (r: usize)
    ensures
        r == widest(properties, properties@.len(), wide),
        r <= 8,
    decreases properties, properties@.len(),
{
    let mut found: usize = 0;
    let mut i: usize = 0;
    while i < properties.len()
        invariant
            i <= properties@.len(),
            found == widest(properties, i as nat, wide),
            found <= 8,
        decreases properties@.len() - i,
    {
        let align = alignment_of(&properties[i].ty, wide);
        if align > found {
            found = align;
        }
        i = i + 1;
    }
    found
}

/// The size of the properties laid out one behind the other.
fn extent_of(properties: &Vec<ConstructProperty>, wide: bool) -> (r: usize)
    requires
        can_lay_out(properties, wide),
    ensures
        r == extent(properties, wide),
{
    let mut size: usize = 0;
    let mut i: usize = 0;
    while i < properties.len()
        invariant
            i <= properties@.len(),
            can_lay_out(properties, wide),
            size == offset(properties, i as nat, wide),
        decreases properties@.len() - i,
    {
        proof {
            lemma_offset_bound(properties, i as nat, wide);
            lemma_offset_bound(properties, (i + 1) as nat, wide);
        }
        let first = alignment_of(&properties[i].ty, wide);
        if i + 1 < properties.len() {
            let second = alignment_of(&properties[i + 1].ty, wide);
            size = size + first;
            size = round(size, second);
        } else {
            size = size + first;
        }
        i = i + 1;
    }
    proof {
        lemma_offset_bound(properties, properties@.len(), wide);
    }
    round(size, widest_of(properties, wide))
}

impl Function {
    /// A function with one signature.
    pub fn new(name: String, full_name: Named, signature: FunctionSignature) -> (r: Self)
        ensures
            r.name == name,
            r.full_name == full_name,
            r.signatures@ == seq![signature],
    {
        let mut signatures: Vec<FunctionSignature> = Vec::new();
        signatures.push(signature);
        Function { name, full_name, signatures }
    }
}

impl FunctionSignature {
    /// The signature of a function that takes nothing and gives nothing.
    pub fn new() -> (r: Self)
        ensures
            r.arguments@.len() == 0,
            r.returns is Void,
    {
        FunctionSignature { arguments: Vec::new(), returns: FlycatcherType::Void }
    }
}

impl Construct {
    /// The alignment of the construct on a target with addresses of 32 bits: the largest
    /// alignment among its properties.
    pub fn calculate_32bit_align(&self) -> (r: usize)
        ensures
            r == widest(&self.properties, self.properties@.len(), false),
    {
        widest_of(&self.properties, false)
    }

    /// The alignment of the construct on a target with addresses of 64 bits: the largest
    /// alignment among its properties.
    pub fn calculate_64bit_align(&self) -> (r: usize)
        ensures
            r == widest(&self.properties, self.properties@.len(), true),
    {
        widest_of(&self.properties, true)
    }

    /// The size of the construct on a target with addresses of 32 bits.
    pub fn calculate_32bit_size(&self) -> (r: usize)
        requires
            can_lay_out(&self.properties, false),
        ensures
            r == extent(&self.properties, false),
    {
        extent_of(&self.properties, false)
    }

    /// The size of the construct on a target with addresses of 64 bits.
    pub fn calculate_64bit_size(&self) -> (r: usize)
        requires
            can_lay_out(&self.properties, true),
        ensures
            r == extent(&self.properties, true),
    {
        extent_of(&self.properties, true)
    }
}

impl CStruct {
    /// The alignment of the struct on a target with addresses of 32 bits: the largest
    /// alignment among its properties.
    pub fn calculate_32bit_align(&self) -> (r: usize)
        ensures
            r == widest(&self.properties, self.properties@.len(), false),
    {
        widest_of(&self.properties, false)
    }

    /// The alignment of the struct on a target with addresses of 64 bits: the largest
    /// alignment among its properties.
    pub fn calculate_64bit_align(&self) -> (r: usize)
        ensures
            r == widest(&self.properties, self.properties@.len(), true),
    {
        widest_of(&self.properties, true)
    }

    /// The size of the struct on a target with addresses of 32 bits.
    pub fn calculate_32bit_size(&self) -> (r: usize)
        requires
            can_lay_out(&self.properties, false),
        ensures
            r == extent(&self.properties, false),
    {
        extent_of(&self.properties, false)
    }

    /// The size of the struct on a target with addresses of 64 bits.
    pub fn calculate_64bit_size(&self) -> (r: usize)
        requires
            can_lay_out(&self.properties, true),
        ensures
            r == extent(&self.properties, true),
    {
        extent_of(&self.properties, true)
    }
}

impl FlycatcherType {
    /// The alignment of the type in bytes on a target with addresses of 32 bits.
    pub fn get_32bit_align(&self) -> (r: usize)
        ensures
            r == alignment(self, false),
    {
        alignment_of(self, false)
    }

    /// The alignment of the type in bytes on a target with addresses of 64 bits.
    pub fn get_64bit_align(&self) -> (r: usize)
        ensures
            r == alignment(self, true),
    {
        alignment_of(self, true)
    }

    /// The size of the type in bytes on a target with addresses of 32 bits.
    pub fn get_32bit_size(&self) -> (r: usize)
        requires
            has_size(self, false),
        ensures
            r == size(self, false),
    {
        match self {
            FlycatcherType::Construct(c) => c.calculate_32bit_size(),
            FlycatcherType::CStruct(c) => c.calculate_32bit_size(),
            _ => self.get_32bit_align(),
        }
    }

    /// The size of the type in bytes on a target with addresses of 64 bits.
    pub fn get_64bit_size(&self) -> (r: usize)
        requires
            has_size(self, true),
        ensures
            r == size(self, true),
    {
        match self {
            FlycatcherType::Construct(c) => c.calculate_64bit_size(),
            FlycatcherType::CStruct(c) => c.calculate_64bit_size(),
            _ => self.get_64bit_align(),
        }
    }
}

} // verus!
