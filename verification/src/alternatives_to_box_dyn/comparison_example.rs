//! The same text processing done through trait objects, through marker
//! types known at compile time, and through a pipeline whose type records
//! what has been done to the text.
use vstd::prelude::*;
use std::marker::PhantomData;
use crate::text::{lowercase_text, reversed, to_lowercase, to_uppercase, uppercase_text};

verus! {

// ===== Trait objects =====

/// A text processor chosen at run time.
pub trait RuntimeProcessor {
    /// What the processor makes of a text.
    spec fn outcome(&self, input: Seq<char>) -> Seq<char>;

    fn process(&self, input: &str) -> (r: String)
        ensures
            r@ == self.outcome(input@),
    ;

    /// The name of the processor.
    spec fn label(&self) -> Seq<char>;

    fn name(&self) -> (r: &'static str)
        ensures
            r@ == self.label(),
    ;
}

pub struct UpperCaseProcessor;

pub struct LowerCaseProcessor;

pub struct ReverseProcessor;

impl RuntimeProcessor for UpperCaseProcessor {
    open spec fn outcome(&self, input: Seq<char>) -> Seq<char> {
        uppercase_text(input)
    }

    fn process(&self, input: &str) -> (r: String) {
        to_uppercase(input)
    }

    open spec fn label(&self) -> Seq<char> {
        "UpperCase"@
    }

    fn name(&self) -> (r: &'static str) {
        "UpperCase"
    }
}

impl RuntimeProcessor for LowerCaseProcessor {
    open spec fn outcome(&self, input: Seq<char>) -> Seq<char> {
        lowercase_text(input)
    }

    fn process(&self, input: &str) -> (r: String) {
        to_lowercase(input)
    }

    open spec fn label(&self) -> Seq<char> {
        "LowerCase"@
    }

    fn name(&self) -> (r: &'static str) {
        "LowerCase"
    }
}

impl RuntimeProcessor for ReverseProcessor {
    open spec fn outcome(&self, input: Seq<char>) -> Seq<char> {
        input.reverse()
    }

    fn process(&self, input: &str) -> (r: String) {
        reversed(input)
    }

    open spec fn label(&self) -> Seq<char> {
        "Reverse"@
    }

    fn name(&self) -> (r: &'static str) {
        "Reverse"
    }
}

/// What the processors make of `s`, applied one after the other.
pub open spec fn chain_outcome(ps: Seq<Box<dyn RuntimeProcessor>>, s: Seq<char>) -> Seq<char>
    decreases ps.len(),
{
    if ps.len() == 0 {
        s
    } else {
        ps.last().outcome(chain_outcome(ps.drop_last(), s))
    }
}

/// Processors applied one after the other, in the order they were added.
pub struct RuntimeProcessorChain {
    processors: Vec<Box<dyn RuntimeProcessor>>,
}

impl RuntimeProcessorChain {
    /// The processors, in the order they run.
    pub closed spec fn processor_list(&self) -> Seq<Box<dyn RuntimeProcessor>> {
        self.processors@
    }

    pub fn new() -> (c: Self)
        ensures
            c.processor_list().len() == 0,
    {
        Self { processors: Vec::new() }
    }

    pub fn add_processor(&mut self, processor: Box<dyn RuntimeProcessor>)
        ensures
            final(self).processor_list() == old(self).processor_list().push(processor),
    {
        self.processors.push(processor);
    }

    /// The input run through every processor in turn.
    pub fn process(&self, input: &str) -> (r: String)
        ensures
            r@ == chain_outcome(self.processor_list(), input@),
    {
        let mut acc = String::from_str(input);
        let n = self.processors.len();
        for i in 0..n
            invariant
                n == self.processors@.len(),
                acc@ == chain_outcome(self.processors@.subrange(0, i as int), input@),
        {
            proof {
                assert(self.processors@.subrange(0, i + 1).drop_last() == self.processors@.subrange(
                    0,
                    i as int,
                ));
            }
            acc = self.processors[i].process(acc.as_str());
        }
        proof {
            assert(self.processors@.subrange(0, n as int) == self.processors@);
        }
        acc
    }

    /// The names of the processors, in order.
    pub fn get_processor_names(&self) -> (names: Vec<&'static str>)
        ensures
            names@.len() == self.processor_list().len(),
            forall|k: int|
                0 <= k < names@.len() ==> (#[trigger] names@[k])@ == self.processor_list()[k].label(),
    {
        let mut names: Vec<&'static str> = Vec::new();
        let n = self.processors.len();
        for i in 0..n
            invariant
                n == self.processors@.len(),
                names@.len() == i,
                forall|k: int| 0 <= k < i ==> (#[trigger] names@[k])@ == self.processors@[k].label(),
        {
            names.push(self.processors[i].name());
        }
        names
    }
}

// ===== Marker types known at compile time =====

#[derive(Debug)]
pub struct UpperCase;

#[derive(Debug)]
pub struct LowerCase;

#[derive(Debug)]
pub struct Reverse;

/// A text processing chosen by type.
pub trait CompileTimeProcessor {
    /// What the processing makes of a text.
    spec fn outcome(input: Seq<char>) -> Seq<char>;

    /// The name of the processing.
    spec fn label() -> Seq<char>;

    fn process(input: &str) -> (r: String)
        ensures
            r@ == Self::outcome(input@),
    ;

    fn name() -> (r: &'static str)
        ensures
            r@ == Self::label(),
    ;
}

impl CompileTimeProcessor for UpperCase {
    open spec fn outcome(input: Seq<char>) -> Seq<char> {
        uppercase_text(input)
    }

    open spec fn label() -> Seq<char> {
        "UpperCase"@
    }

    fn process(input: &str) -> (r: String) {
        to_uppercase(input)
    }

    fn name() -> (r: &'static str) {
        "UpperCase"
    }
}

impl CompileTimeProcessor for LowerCase {
    open spec fn outcome(input: Seq<char>) -> Seq<char> {
        lowercase_text(input)
    }

    open spec fn label() -> Seq<char> {
        "LowerCase"@
    }

    fn process(input: &str) -> (r: String) {
        to_lowercase(input)
    }

    fn name() -> (r: &'static str) {
        "LowerCase"
    }
}

impl CompileTimeProcessor for Reverse {
    open spec fn outcome(input: Seq<char>) -> Seq<char> {
        input.reverse()
    }

    open spec fn label() -> Seq<char> {
        "Reverse"@
    }

    fn process(input: &str) -> (r: String) {
        reversed(input)
    }

    fn name() -> (r: &'static str) {
        "Reverse"
    }
}

/// A processor whose processing is its type parameter.
pub struct CompileTimeProcessorWrapper<T: CompileTimeProcessor> {
    _marker: PhantomData<T>,
}

impl<T: CompileTimeProcessor> CompileTimeProcessorWrapper<T> {
    pub fn new() -> Self {
        Self { _marker: PhantomData }
    }

    pub fn process(&self, input: &str) -> (r: String)
        ensures
            r@ == T::outcome(input@),
    {
        T::process(input)
    }

    pub fn name(&self) -> (r: &'static str)
        ensures
            r@ == T::label(),
    {
        T::name()
    }
}

pub type UpperCaseProcessor2 = CompileTimeProcessorWrapper<UpperCase>;

pub type LowerCaseProcessor2 = CompileTimeProcessorWrapper<LowerCase>;

pub type ReverseProcessor2 = CompileTimeProcessorWrapper<Reverse>;

// ===== A pipeline whose type records the last processing =====

#[derive(Debug)]
pub struct Unprocessed;

#[derive(Debug)]
pub struct Processed<T> {
    _processor_type: PhantomData<T>,
}

/// Text on its way through a pipeline; `State` says what was done last.
pub struct ProcessingPipeline<State> {
    data: String,
    _state: PhantomData<State>,
}

impl<State> ProcessingPipeline<State> {
    /// The text in the pipeline.
    pub closed spec fn text(&self) -> Seq<char> {
        self.data@
    }
}

impl ProcessingPipeline<Unprocessed> {
    pub fn new(data: String) -> (p: Self)
        ensures
            p.text() == data@,
    {
        Self { data, _state: PhantomData }
    }

    pub fn apply_uppercase(self) -> (p: ProcessingPipeline<Processed<UpperCase>>)
        ensures
            p.text() == uppercase_text(self.text()),
    {
        ProcessingPipeline { data: to_uppercase(self.data.as_str()), _state: PhantomData }
    }

    pub fn apply_lowercase(self) -> (p: ProcessingPipeline<Processed<LowerCase>>)
        ensures
            p.text() == lowercase_text(self.text()),
    {
        ProcessingPipeline { data: to_lowercase(self.data.as_str()), _state: PhantomData }
    }

    pub fn apply_reverse(self) -> (p: ProcessingPipeline<Processed<Reverse>>)
        ensures
            p.text() == self.text().reverse(),
    {
        ProcessingPipeline { data: reversed(self.data.as_str()), _state: PhantomData }
    }
}

impl<T> ProcessingPipeline<Processed<T>> {
    /// The processed text; only processed text can be taken out.
    pub fn finalize(self) -> (r: String)
        ensures
            r@ == self.text(),
    {
        self.data
    }

    pub fn then_uppercase(self) -> (p: ProcessingPipeline<Processed<UpperCase>>)
        ensures
            p.text() == uppercase_text(self.text()),
    {
        ProcessingPipeline { data: to_uppercase(self.data.as_str()), _state: PhantomData }
    }

    pub fn then_lowercase(self) -> (p: ProcessingPipeline<Processed<LowerCase>>)
        ensures
            p.text() == lowercase_text(self.text()),
    {
        ProcessingPipeline { data: to_lowercase(self.data.as_str()), _state: PhantomData }
    }

    pub fn then_reverse(self) -> (p: ProcessingPipeline<Processed<Reverse>>)
        ensures
            p.text() == self.text().reverse(),
    {
        ProcessingPipeline { data: reversed(self.data.as_str()), _state: PhantomData }
    }
}

// ===== Further patterns =====

/// A type-level pair of factors.
pub struct Multiply<A, B> {
    _a: PhantomData<A>,
    _b: PhantomData<B>,
}

pub struct UserId(pub u64);

pub struct PostId(pub u64);

/// An identifier branded with the kind of thing it identifies.
pub struct TypedId<T> {
    pub id: u64,
    pub _type: PhantomData<T>,
}

pub type UserIdTyped = TypedId<UserId>;

pub type PostIdTyped = TypedId<PostId>;

/// The user with a given identifier; only user identifiers are accepted.
pub fn get_user_by_id(_id: UserIdTyped) -> (r: String)
    ensures
        r@ == "User"@,
{
    String::from_str("User")
}

/// A resource that must be used before it can be released.
pub struct LinearResource<State> {
    data: String,
    _state: PhantomData<State>,
}

pub struct Acquired;

pub struct Released;

impl<State> LinearResource<State> {
    /// The data of the resource.
    pub closed spec fn payload(&self) -> Seq<char> {
        self.data@
    }
}

impl LinearResource<Acquired> {
    /// Uses the resource once: a copy of its data, and the resource released.
    pub fn use_resource(self) -> (r: (String, LinearResource<Released>))
        ensures
            r.0@ == self.payload(),
            r.1.payload() == self.payload(),
    {
        let data = self.data.clone();
        (data, LinearResource { data: self.data, _state: PhantomData })
    }
}

} // verus!
