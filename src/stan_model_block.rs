use std::slice::Iter;
use vstd::prelude::*;
use vstd::std_specs::iter::IteratorSpec;

use crate::stan_model_block_type::StanModelBlockType;

verus! {

/// The text of a sequence of lines.
pub open spec fn texts(v: Seq<String>) -> Seq<Seq<char>> {
    v.map_values(|s: String| s@)
}

/// An append-only sequence of source lines belonging to one section.
#[derive(Debug, PartialEq, Clone)]
pub struct StanModelBlock {
    pub code: Vec<String>,
    pub block_type: StanModelBlockType,
}

impl View for StanModelBlock {
    type V = Seq<Seq<char>>;

    /// The lines of the block, in insertion order.
    open spec fn view(&self) -> Seq<Seq<char>> {
        texts(self.code@)
    }
}

impl StanModelBlock {
    pub fn new(block_type: StanModelBlockType) -> (r: StanModelBlock)
        ensures
            r@ == Seq::<Seq<char>>::empty(),
            r.block_type == block_type,
    {
        let r = StanModelBlock { code: Vec::new(), block_type };
        assert(r@ =~= Seq::<Seq<char>>::empty());
        r
    }

    /// Appends `line` verbatim.
    pub fn add(&mut self, line: &str)
        ensures
            final(self)@ == old(self)@.push(line@),
            final(self).block_type == old(self).block_type,
    {
        self.code.push(line.to_owned());
        assert(self@ =~= old(self)@.push(line@));
    }

    /// The lines of the block, in insertion order.
    pub fn get_code(&self) -> (r: Iter<'_, String>)
        ensures
            texts(r.remaining().map_values(|s: &String| *s)) == self@,
    {
        let r = self.code.as_slice().iter();
        assert(r.remaining().map_values(|s: &String| *s) =~= self.code@);
        r
    }

    /// Appends the lines of the block to `out`.
    pub(crate) fn append_lines_to(&self, out: &mut Vec<String>)
        ensures
            texts(final(out)@) == texts(old(out)@) + self@,
    {
        let n = self.code.len();
        let mut i: usize = 0;
        while i < n
            invariant
                n == self.code@.len(),
                i <= n,
                texts(out@) == texts(old(out)@) + self@.subrange(0, i as int),
            decreases n - i,
        {
            let ghost prev = out@;
            let line: String = self.code[i].clone();
            assert(line@ == self.code@[i as int]@);
            out.push(line);
            assert(texts(out@) =~= texts(prev).push(line@));
            assert(self@.subrange(0, i + 1) =~= self@.subrange(0, i as int).push(self.code@[i as int]@));
            assert(texts(out@) =~= texts(old(out)@) + self@.subrange(0, i + 1));
            i += 1;
        }
        assert(self@.subrange(0, n as int) =~= self@);
    }
}

} // verus!
