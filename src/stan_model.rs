use vstd::prelude::*;

use crate::directive::directive_marker;
use crate::stan_model_block::{texts, StanModelBlock};
use crate::stan_model_block_type::StanModelBlockType;
use crate::text::{contains_seq, contains_text};

verus! {

/// What a program holds: the lines of each section that exists.
pub type ModelView = Map<StanModelBlockType, Seq<Seq<char>>>;

/// `m` with the block `b` under `k`, where there is one.
pub open spec fn optional_entry(
    m: ModelView,
    k: StanModelBlockType,
    b: Option<StanModelBlock>,
) -> ModelView {
    match b {
        Some(b) => m.insert(k, b@),
        None => m,
    }
}

/// A program with its three mandatory sections, all empty.
pub open spec fn fresh_view() -> ModelView {
    map![
        StanModelBlockType::Data => Seq::<Seq<char>>::empty(),
        StanModelBlockType::Parameters => Seq::<Seq<char>>::empty(),
        StanModelBlockType::Model => Seq::<Seq<char>>::empty(),
    ]
}

/// The lines of section `k`; none where the section is absent.
pub open spec fn lines_in(m: ModelView, k: StanModelBlockType) -> Seq<Seq<char>> {
    if m.contains_key(k) {
        m[k]
    } else {
        Seq::empty()
    }
}

/// `m` after appending `line` to section `k`, creating the section if needed.
pub open spec fn with_line(m: ModelView, k: StanModelBlockType, line: Seq<char>) -> ModelView {
    m.insert(k, lines_in(m, k).push(line))
}

/// All lines of the program, section after section in canonical order.
pub open spec fn flatten_view(m: ModelView) -> Seq<Seq<char>> {
    lines_in(m, StanModelBlockType::Functions) + lines_in(m, StanModelBlockType::Data) + lines_in(
        m,
        StanModelBlockType::TransformedData,
    ) + lines_in(m, StanModelBlockType::Parameters) + lines_in(
        m,
        StanModelBlockType::TransformedParameters,
    ) + lines_in(m, StanModelBlockType::Model) + lines_in(
        m,
        StanModelBlockType::GeneratedQuantities,
    )
}

/// Some line of the flattened program holds the directive marker.
pub open spec fn mentions_directive(m: ModelView) -> bool {
    exists|i: int|
        0 <= i < flatten_view(m).len() && #[trigger] contains_seq(
            flatten_view(m)[i],
            directive_marker(),
        )
}

/// One call of an `add_<kind>` method: the section it adds to and the line.
pub type AddCall = (StanModelBlockType, Seq<char>);

/// `m` after the calls, in order.
pub open spec fn apply_calls(m: ModelView, calls: Seq<AddCall>) -> ModelView
    decreases calls.len(),
{
    if calls.len() == 0 {
        m
    } else {
        with_line(apply_calls(m, calls.drop_last()), calls.last().0, calls.last().1)
    }
}

/// The lines that the calls add to section `k`, in call order.
pub open spec fn lines_added(calls: Seq<AddCall>, k: StanModelBlockType) -> Seq<Seq<char>>
    decreases calls.len(),
{
    if calls.len() == 0 {
        Seq::empty()
    } else if calls.last().0 == k {
        lines_added(calls.drop_last(), k).push(calls.last().1)
    } else {
        lines_added(calls.drop_last(), k)
    }
}

/// After any sequence of calls on a fresh program, each section holds exactly
/// the lines added to it, in call order.
pub proof fn lemma_sections_keep_call_order(calls: Seq<AddCall>, k: StanModelBlockType)
    ensures
        lines_in(apply_calls(fresh_view(), calls), k) == lines_added(calls, k),
    decreases calls.len(),
{
    if calls.len() > 0 {
        lemma_sections_keep_call_order(calls.drop_last(), k);
    }
}

/// Flattening emits the sections in canonical order: the result depends only on
/// which lines went to which section, not on how calls to different sections
/// were interleaved.
pub proof fn lemma_flatten_in_canonical_order(calls: Seq<AddCall>)
    ensures
        flatten_view(apply_calls(fresh_view(), calls)) == lines_added(
            calls,
            StanModelBlockType::Functions,
        ) + lines_added(calls, StanModelBlockType::Data) + lines_added(
            calls,
            StanModelBlockType::TransformedData,
        ) + lines_added(calls, StanModelBlockType::Parameters) + lines_added(
            calls,
            StanModelBlockType::TransformedParameters,
        ) + lines_added(calls, StanModelBlockType::Model) + lines_added(
            calls,
            StanModelBlockType::GeneratedQuantities,
        ),
{
    lemma_sections_keep_call_order(calls, StanModelBlockType::Functions);
    lemma_sections_keep_call_order(calls, StanModelBlockType::Data);
    lemma_sections_keep_call_order(calls, StanModelBlockType::TransformedData);
    lemma_sections_keep_call_order(calls, StanModelBlockType::Parameters);
    lemma_sections_keep_call_order(calls, StanModelBlockType::TransformedParameters);
    lemma_sections_keep_call_order(calls, StanModelBlockType::Model);
    lemma_sections_keep_call_order(calls, StanModelBlockType::GeneratedQuantities);
}

/// An absent optional section contributes no line to the flattened program:
/// flattening gives the same lines as with that section present and empty.
pub proof fn lemma_absent_section_contributes_nothing(m: ModelView, k: StanModelBlockType)
    requires
        k.is_optional(),
        !m.contains_key(k),
    ensures
        flatten_view(m) == flatten_view(m.insert(k, Seq::empty())),
{
    let e = m.insert(k, Seq::empty());
    assert(lines_in(m, k) == lines_in(e, k));
    assert forall|j: StanModelBlockType| lines_in(m, j) == lines_in(e, j) by {}
}

/// A section that received a line, even an empty one, is present.
pub proof fn lemma_added_section_is_present(m: ModelView, k: StanModelBlockType, line: Seq<char>)
    ensures
        with_line(m, k, line).contains_key(k),
        lines_in(with_line(m, k, line), k).len() == lines_in(m, k).len() + 1,
{
}

/// A program being built: one block per section, four of them optional.
#[derive(Debug, PartialEq)]
pub struct StanModel {
    pub functions: Option<StanModelBlock>,
    pub data: StanModelBlock,
    pub transformed_data: Option<StanModelBlock>,
    pub parameters: StanModelBlock,
    pub transformed_parameters: Option<StanModelBlock>,
    pub model: StanModelBlock,
    pub generated_quantities: Option<StanModelBlock>,
}

impl View for StanModel {
    type V = ModelView;

    open spec fn view(&self) -> ModelView {
        optional_entry(
            optional_entry(
                optional_entry(
                    optional_entry(
                        map![
                            StanModelBlockType::Data => self.data@,
                            StanModelBlockType::Parameters => self.parameters@,
                            StanModelBlockType::Model => self.model@,
                        ],
                        StanModelBlockType::Functions,
                        self.functions,
                    ),
                    StanModelBlockType::TransformedData,
                    self.transformed_data,
                ),
                StanModelBlockType::TransformedParameters,
                self.transformed_parameters,
            ),
            StanModelBlockType::GeneratedQuantities,
            self.generated_quantities,
        )
    }
}

/// The block in `b`, where there is one, is tagged `k`.
pub open spec fn optional_tagged(b: Option<StanModelBlock>, k: StanModelBlockType) -> bool {
    match b {
        Some(b) => b.block_type == k,
        None => true,
    }
}

/// Appends `line` to the optional block in `slot`, creating it first if absent.
fn add_to_optional(slot: &mut Option<StanModelBlock>, kind: StanModelBlockType, line: &str)
    ensures
        (*final(slot)) is Some,
        optional_tagged(*old(slot), kind) ==> optional_tagged(*final(slot), kind),
        (*final(slot)).unwrap()@ == (match *old(slot) {
            Some(b) => b@,
            None => Seq::<Seq<char>>::empty(),
        }).push(line@),
{
    let current = slot.take();
    let mut block = match current {
        Some(b) => b,
        None => StanModelBlock::new(kind),
    };
    block.add(line);
    *slot = Some(block);
}

impl StanModel {
    /// Each block is tagged with the section it stands for.
    pub open spec fn wf(&self) -> bool {
        &&& optional_tagged(self.functions, StanModelBlockType::Functions)
        &&& self.data.block_type == StanModelBlockType::Data
        &&& optional_tagged(self.transformed_data, StanModelBlockType::TransformedData)
        &&& self.parameters.block_type == StanModelBlockType::Parameters
        &&& optional_tagged(self.transformed_parameters, StanModelBlockType::TransformedParameters)
        &&& self.model.block_type == StanModelBlockType::Model
        &&& optional_tagged(self.generated_quantities, StanModelBlockType::GeneratedQuantities)
    }

    /// A program with empty data, parameters and model blocks and no other block.
    pub fn new() -> (r: StanModel)
        ensures
            r@ == fresh_view(),
            r.wf(),
    {
        let r = StanModel {
            functions: None,
            data: StanModelBlock::new(StanModelBlockType::Data),
            transformed_data: None,
            parameters: StanModelBlock::new(StanModelBlockType::Parameters),
            transformed_parameters: None,
            model: StanModelBlock::new(StanModelBlockType::Model),
            generated_quantities: None,
        };
        assert(r@ =~= fresh_view());
        r
    }

    /// Add a line of Stan code to the functions block, creating it if absent.
    pub fn add_function(&mut self, function: &str)
        ensures
            old(self).wf() ==> final(self).wf(),
            final(self)@ == with_line(old(self)@, StanModelBlockType::Functions, function@),
            final(self).functions is Some,
    {
        add_to_optional(&mut self.functions, StanModelBlockType::Functions, function);
        assert(self@ =~= with_line(old(self)@, StanModelBlockType::Functions, function@));
    }

    /// Add a line of Stan code to the data block.
    pub fn add_data(&mut self, data: &str)
        ensures
            old(self).wf() ==> final(self).wf(),
            final(self)@ == with_line(old(self)@, StanModelBlockType::Data, data@),
    {
        self.data.add(data);
        assert(self@ =~= with_line(old(self)@, StanModelBlockType::Data, data@));
    }

    /// Add a line of Stan code to the transformed data block, creating it if absent.
    pub fn add_transformed_data(&mut self, data: &str)
        ensures
            old(self).wf() ==> final(self).wf(),
            final(self)@ == with_line(old(self)@, StanModelBlockType::TransformedData, data@),
            final(self).transformed_data is Some,
    {
        add_to_optional(&mut self.transformed_data, StanModelBlockType::TransformedData, data);
        assert(self@ =~= with_line(old(self)@, StanModelBlockType::TransformedData, data@));
    }

    /// Add a line of Stan code to the parameters block.
    pub fn add_parameter(&mut self, parameter: &str)
        ensures
            old(self).wf() ==> final(self).wf(),
            final(self)@ == with_line(old(self)@, StanModelBlockType::Parameters, parameter@),
    {
        self.parameters.add(parameter);
        assert(self@ =~= with_line(old(self)@, StanModelBlockType::Parameters, parameter@));
    }

    /// Add a line of Stan code to the transformed parameters block, creating it if
    /// absent.
    pub fn add_transformed_parameter(&mut self, parameter: &str)
        ensures
            old(self).wf() ==> final(self).wf(),
            final(self)@ == with_line(
                old(self)@,
                StanModelBlockType::TransformedParameters,
                parameter@,
            ),
            final(self).transformed_parameters is Some,
    {
        add_to_optional(
            &mut self.transformed_parameters,
            StanModelBlockType::TransformedParameters,
            parameter,
        );
        assert(self@ =~= with_line(
            old(self)@,
            StanModelBlockType::TransformedParameters,
            parameter@,
        ));
    }

    /// Add a line of Stan code to the model block.
    pub fn add_model(&mut self, model: &str)
        ensures
            old(self).wf() ==> final(self).wf(),
            final(self)@ == with_line(old(self)@, StanModelBlockType::Model, model@),
    {
        self.model.add(model);
        assert(self@ =~= with_line(old(self)@, StanModelBlockType::Model, model@));
    }

    /// Add a line of Stan code to the generated quantities block, creating it if
    /// absent.
    pub fn add_generated_quantities(&mut self, quantity: &str)
        ensures
            old(self).wf() ==> final(self).wf(),
            final(self)@ == with_line(
                old(self)@,
                StanModelBlockType::GeneratedQuantities,
                quantity@,
            ),
            final(self).generated_quantities is Some,
    {
        add_to_optional(
            &mut self.generated_quantities,
            StanModelBlockType::GeneratedQuantities,
            quantity,
        );
        assert(self@ =~= with_line(
            old(self)@,
            StanModelBlockType::GeneratedQuantities,
            quantity@,
        ));
    }

    /// Appends `line` to section `kind`.
    pub fn add_line(&mut self, kind: StanModelBlockType, line: &str)
        ensures
            old(self).wf() ==> final(self).wf(),
            final(self)@ == with_line(old(self)@, kind, line@),
    {
        match kind {
            StanModelBlockType::Functions => self.add_function(line),
            StanModelBlockType::Data => self.add_data(line),
            StanModelBlockType::TransformedData => self.add_transformed_data(line),
            StanModelBlockType::Parameters => self.add_parameter(line),
            StanModelBlockType::TransformedParameters => self.add_transformed_parameter(line),
            StanModelBlockType::Model => self.add_model(line),
            StanModelBlockType::GeneratedQuantities => self.add_generated_quantities(line),
        }
    }

    /// All lines of the program: functions, data, transformed data, parameters,
    /// transformed parameters, model, generated quantities. An absent section
    /// gives no line.
    pub fn collect_stan_model_segments(&self) -> (r: Vec<String>)
        ensures
            texts(r@) == flatten_view(self@),
    {
        let mut out: Vec<String> = Vec::new();
        assert(texts(out@) =~= Seq::<Seq<char>>::empty());
        if let Some(b) = &self.functions {
            b.append_lines_to(&mut out);
        }
        assert(texts(out@) =~= lines_in(self@, StanModelBlockType::Functions));
        self.data.append_lines_to(&mut out);
        if let Some(b) = &self.transformed_data {
            b.append_lines_to(&mut out);
        }
        assert(texts(out@) =~= lines_in(self@, StanModelBlockType::Functions) + lines_in(self@, StanModelBlockType::Data) + lines_in(self@, StanModelBlockType::TransformedData));
        self.parameters.append_lines_to(&mut out);
        if let Some(b) = &self.transformed_parameters {
            b.append_lines_to(&mut out);
        }
        self.model.append_lines_to(&mut out);
        if let Some(b) = &self.generated_quantities {
            b.append_lines_to(&mut out);
        }
        assert(texts(out@) =~= flatten_view(self@));
        out
    }

    /// Whether some line of the program holds the directive marker.
    pub fn has_include_directive(&self) -> (r: bool)
        ensures
            r == mentions_directive(self@),
    {
        let lines = self.collect_stan_model_segments();
        let ghost flat = flatten_view(self@);
        let n = lines.len();
        let mut i: usize = 0;
        while i < n
            invariant
                n == lines@.len(),
                texts(lines@) == flat,
                flat == flatten_view(self@),
                i <= n,
                forall|t: int| 0 <= t < i ==> !contains_seq(#[trigger] flat[t], directive_marker()),
            decreases n - i,
        {
            assert(flat[i as int] == lines@[i as int]@);
            if contains_text(lines[i].as_str(), "#include") {
                assert(contains_seq(flat[i as int], directive_marker()));
                return true;
            }
            i += 1;
        }
        false
    }

    /// The functions block, or `None` if nothing was ever added to it.
    pub fn get_functions(&self) -> (r: Option<&StanModelBlock>)
        ensures
            match r {
                Some(b) => self@.contains_key(StanModelBlockType::Functions) && b@ == self@[StanModelBlockType::Functions],
                None => !self@.contains_key(StanModelBlockType::Functions),
            },
    {
        self.functions.as_ref()
    }

    /// The data block.
    pub fn get_data(&self) -> (r: &StanModelBlock)
        ensures
            self@.contains_key(StanModelBlockType::Data),
            r@ == self@[StanModelBlockType::Data],
    {
        &self.data
    }

    /// The transformed data block, or `None` if nothing was ever added to it.
    pub fn get_transformed_data(&self) -> (r: Option<&StanModelBlock>)
        ensures
            match r {
                Some(b) => self@.contains_key(StanModelBlockType::TransformedData) && b@ == self@[StanModelBlockType::TransformedData],
                None => !self@.contains_key(StanModelBlockType::TransformedData),
            },
    {
        self.transformed_data.as_ref()
    }

    /// The parameters block.
    pub fn get_parameters(&self) -> (r: &StanModelBlock)
        ensures
            self@.contains_key(StanModelBlockType::Parameters),
            r@ == self@[StanModelBlockType::Parameters],
    {
        &self.parameters
    }

    /// The transformed parameters block, or `None` if nothing was ever added to it.
    pub fn get_transformed_parameters(&self) -> (r: Option<&StanModelBlock>)
        ensures
            match r {
                Some(b) => self@.contains_key(StanModelBlockType::TransformedParameters) && b@ == self@[StanModelBlockType::TransformedParameters],
                None => !self@.contains_key(StanModelBlockType::TransformedParameters),
            },
    {
        self.transformed_parameters.as_ref()
    }

    /// The model block.
    pub fn get_model(&self) -> (r: &StanModelBlock)
        ensures
            self@.contains_key(StanModelBlockType::Model),
            r@ == self@[StanModelBlockType::Model],
    {
        &self.model
    }

    /// The generated quantities block, or `None` if nothing was ever added to it.
    pub fn get_generated_quantities(&self) -> (r: Option<&StanModelBlock>)
        ensures
            match r {
                Some(b) => self@.contains_key(StanModelBlockType::GeneratedQuantities) && b@ == self@[StanModelBlockType::GeneratedQuantities],
                None => !self@.contains_key(StanModelBlockType::GeneratedQuantities),
            },
    {
        self.generated_quantities.as_ref()
    }
}

impl Default for StanModel {
    fn default() -> (r: Self)
        ensures
            r@ == fresh_view(),
            r.wf(),
    {
        Self::new()
    }
}

} // verus!
