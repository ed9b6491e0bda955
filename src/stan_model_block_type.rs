use vstd::prelude::*;

verus! {

/// The seven sections of a Stan program, listed in the order in which they
/// appear in a flattened program.
#[derive(Debug, PartialEq, Eq, Structural, Clone, Copy)]
pub enum StanModelBlockType {
    Functions,
    Data,
    TransformedData,
    Parameters,
    TransformedParameters,
    Model,
    GeneratedQuantities,
}

impl StanModelBlockType {
    /// Position of the kind in the canonical order.
    pub open spec fn rank(self) -> nat {
        match self {
            StanModelBlockType::Functions => 0,
            StanModelBlockType::Data => 1,
            StanModelBlockType::TransformedData => 2,
            StanModelBlockType::Parameters => 3,
            StanModelBlockType::TransformedParameters => 4,
            StanModelBlockType::Model => 5,
            StanModelBlockType::GeneratedQuantities => 6,
        }
    }

    /// Kinds that a program only has once something was added to them.
    pub open spec fn is_optional(self) -> bool {
        match self {
            StanModelBlockType::Functions => true,
            StanModelBlockType::TransformedData => true,
            StanModelBlockType::TransformedParameters => true,
            StanModelBlockType::GeneratedQuantities => true,
            _ => false,
        }
    }

    /// The keyword that opens a section of this kind in source text.
    pub open spec fn keyword(self) -> Seq<char> {
        match self {
            StanModelBlockType::Functions => "functions"@,
            StanModelBlockType::Data => "data"@,
            StanModelBlockType::TransformedData => "transformed data"@,
            StanModelBlockType::Parameters => "parameters"@,
            StanModelBlockType::TransformedParameters => "transformed parameters"@,
            StanModelBlockType::Model => "model"@,
            StanModelBlockType::GeneratedQuantities => "generated quantities"@,
        }
    }

    /// Executable form of `keyword`.
    pub fn keyword_text(&self) -> (r: &'static str)
        ensures
            r@ == self.keyword(),
    {
        match self {
            StanModelBlockType::Functions => "functions",
            StanModelBlockType::Data => "data",
            StanModelBlockType::TransformedData => "transformed data",
            StanModelBlockType::Parameters => "parameters",
            StanModelBlockType::TransformedParameters => "transformed parameters",
            StanModelBlockType::Model => "model",
            StanModelBlockType::GeneratedQuantities => "generated quantities",
        }
    }
}

/// All kinds, in canonical order.
pub open spec fn canonical_kinds() -> Seq<StanModelBlockType> {
    seq![
        StanModelBlockType::Functions,
        StanModelBlockType::Data,
        StanModelBlockType::TransformedData,
        StanModelBlockType::Parameters,
        StanModelBlockType::TransformedParameters,
        StanModelBlockType::Model,
        StanModelBlockType::GeneratedQuantities,
    ]
}

} // verus!
