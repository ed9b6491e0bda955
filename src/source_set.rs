use vstd::prelude::*;

use crate::stan_model_block::texts;

verus! {

/// The files known to an assembly run: each identifier with its lines.
pub type SourcesView = Seq<(Seq<char>, Seq<Seq<char>>)>;

/// The lines of the first file named `id`, if any.
pub open spec fn lookup(fs: SourcesView, id: Seq<char>) -> Option<Seq<Seq<char>>>
    decreases fs.len(),
{
    if fs.len() == 0 {
        None
    } else if fs[0].0 == id {
        Some(fs[0].1)
    } else {
        lookup(fs.drop_first(), id)
    }
}

/// The identifier of `path` inside `folder`.
pub open spec fn joined(folder: Seq<char>, path: Seq<char>) -> Seq<char> {
    if folder.len() == 0 {
        path
    } else if folder.last() == '/' {
        folder + path
    } else {
        folder + seq!['/'] + path
    }
}

/// Builds the identifier of `path` inside `folder`.
pub fn join_path(folder: &str, path: &str) -> (r: String)
    ensures
        r@ == joined(folder@, path@),
{
    let n = folder.unicode_len();
    if n == 0 {
        return path.to_owned();
    }
    if folder.get_char(n - 1) == '/' {
        return folder.to_owned().concat(path);
    }
    proof {
        reveal_strlit("/");
    }
    assert("/"@ =~= seq!['/']);
    folder.to_owned().concat("/").concat(path)
}

/// One file: its identifier and its lines, already trimmed, with blank lines
/// left out.
#[derive(Debug, PartialEq, Clone)]
pub struct SourceFile {
    pub id: String,
    pub lines: Vec<String>,
}

/// The files that an assembly run may read, standing in for the file system.
#[derive(Debug, PartialEq, Clone)]
pub struct SourceSet {
    pub files: Vec<SourceFile>,
}

impl View for SourceSet {
    type V = SourcesView;

    open spec fn view(&self) -> SourcesView {
        self.files@.map_values(|f: SourceFile| (f.id@, texts(f.lines@)))
    }
}

impl SourceSet {
    pub fn new() -> (r: SourceSet)
        ensures
            r@ == SourcesView::empty(),
    {
        let r = SourceSet { files: Vec::new() };
        assert(r@ =~= SourcesView::empty());
        r
    }

    /// Adds a file after those already known.
    pub fn add_file(&mut self, id: &str, lines: Vec<String>)
        ensures
            final(self)@ == old(self)@.push((id@, texts(lines@))),
    {
        let ghost l = lines@;
        self.files.push(SourceFile { id: id.to_owned(), lines });
        assert(self@ =~= old(self)@.push((id@, texts(l))));
    }

    /// The lines of the first file named `id`, if any.
    pub fn read(&self, id: &str) -> (r: Option<&Vec<String>>)
        ensures
            match r {
                Some(ls) => lookup(self@, id@) == Some(texts(ls@)),
                None => lookup(self@, id@) is None,
            },
    {
        let n = self.files.len();
        let mut i: usize = 0;
        assert(self@.subrange(0, n as int) =~= self@);
        while i < n
            invariant
                n == self.files@.len(),
                i <= n,
                lookup(self@, id@) == lookup(self@.subrange(i as int, n as int), id@),
            decreases n - i,
        {
            let ghost rest = self@.subrange(i as int, n as int);
            assert(rest[0] == (self.files@[i as int].id@, texts(self.files@[i as int].lines@)));
            if str_eq(self.files[i].id.as_str(), id) {
                return Some(&self.files[i].lines);
            }
            assert(rest.drop_first() =~= self@.subrange(i + 1, n as int));
            i += 1;
        }
        None
    }
}

/// Whether two texts are equal.
pub fn str_eq(a: &str, b: &str) -> (r: bool)
    ensures
        r == (a@ == b@),
{
    let n = a.unicode_len();
    if n != b.unicode_len() {
        return false;
    }
    let mut i: usize = 0;
    while i < n
        invariant
            n == a@.len(),
            n == b@.len(),
            i <= n,
            forall|t: int| 0 <= t < i ==> a@[t] == b@[t],
        decreases n - i,
    {
        if a.get_char(i) != b.get_char(i) {
            return false;
        }
        i += 1;
    }
    assert(a@ =~= b@);
    true
}

} // verus!
