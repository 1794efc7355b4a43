//! The knobs that a caller can set, and the bounded string that names a slab.

use vstd::prelude::*;
use vstd::string::StringSliceAdditionalSpecFns;
use core::str::FromStr;

verus! {

/// Number of bytes that a slab name can hold.
pub const SLAB_CAPACITY: usize = 64;

/// A slab name: a `heapless::String` with room for [`SLAB_CAPACITY`] bytes.
#[verifier::external_body]
pub struct SlabName {
    text: heapless::String<heapless::consts::U64>,
}

/// The characters that a slab name holds.
pub uninterp spec fn slab_name_text(name: SlabName) -> Seq<char>;

impl View for SlabName {
    type V = Seq<char>;

    open spec fn view(&self) -> Seq<char> {
        slab_name_text(*self)
    }
}

/// `heapless::String::new`: the string it makes holds nothing.
#[verifier::external_body]
fn name_empty() -> (name: SlabName)
    ensures
        slab_name_text(name) == Seq::<char>::empty(),
{
    SlabName { text: heapless::String::new() }
}

/// `FromStr::from_str` of `heapless::String`: it starts from an empty string
/// and appends `text` with `push_str`, which refuses, and changes nothing,
/// when the bytes of `text` outnumber the capacity, and copies all of them
/// otherwise.
#[verifier::external_body]
fn name_from_str(text: &str) -> (made: Result<SlabName, ()>)
    ensures
        made is Ok <==> text.spec_bytes().len() <= SLAB_CAPACITY,
        made is Ok ==> slab_name_text(made->Ok_0) == text@,
{
    match heapless::String::from_str(text) {
        Ok(inner) => Ok(SlabName { text: inner }),
        Err(_) => Err(()),
    }
}

/// `heapless::String::as_str`: the slice it hands out holds the string's
/// characters.
#[verifier::external_body]
fn name_as_str(name: &SlabName) -> (text: &str)
    ensures
        text@ == slab_name_text(*name),
{
    name.text.as_str()
}

impl SlabName {
    /// The empty name.
    pub fn new() -> (name: SlabName)
        ensures
            name@ == Seq::<char>::empty(),
    {
        name_empty()
    }

    /// A name with the characters of `text`, or `None` where `text` takes
    /// more than [`SLAB_CAPACITY`] bytes.
    pub fn from_str(text: &str) -> (made: Option<SlabName>)
        ensures
            made is Some <==> text.spec_bytes().len() <= SLAB_CAPACITY,
            made is Some ==> made->Some_0@ == text@,
    {
        match name_from_str(text) {
            Ok(name) => Some(name),
            Err(_) => None,
        }
    }

    /// The name as a string slice.
    pub fn as_str(&self) -> (text: &str)
        ensures
            text@ == self@,
    {
        name_as_str(self)
    }
}

/// What a caller asks for.
pub struct CuneiformArgs {
    /// Ask the running system for its coherence line size.
    pub hermetic: bool,
    /// Name of the slab to take the line size from.
    pub slab: SlabName,
    /// Line size to use whatever else is known.
    pub force: Option<usize>,
}

/// The settings of a [`CuneiformArgs`] as plain values.
pub struct ArgsView {
    pub hermetic: bool,
    pub slab: Seq<char>,
    pub force: Option<usize>,
}

impl View for CuneiformArgs {
    type V = ArgsView;

    open spec fn view(&self) -> ArgsView {
        ArgsView { hermetic: self.hermetic, slab: self.slab@, force: self.force }
    }
}

impl CuneiformArgs {
    /// The defaults: hermetic, no slab, nothing forced.
    pub fn new() -> (args: CuneiformArgs)
        ensures
            args@ == (ArgsView { hermetic: true, slab: Seq::<char>::empty(), force: None }),
    {
        CuneiformArgs { hermetic: true, slab: SlabName::new(), force: None }
    }

    pub fn with_hermetic(&mut self, hermetic: bool)
        ensures
            final(self)@ == (ArgsView { hermetic: hermetic, ..old(self)@ }),
    {
        self.hermetic = hermetic;
    }

    pub fn with_slab(&mut self, slab: SlabName)
        ensures
            final(self)@ == (ArgsView { slab: slab@, ..old(self)@ }),
    {
        self.slab = slab;
    }

    pub fn with_force(&mut self, force: usize)
        ensures
            final(self)@ == (ArgsView { force: Some(force), ..old(self)@ }),
    {
        self.force = Some(force);
    }
}

} // verus!
