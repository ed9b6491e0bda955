use vstd::prelude::*;

use crate::directive::{
    block_opened, block_opened_by, closes, closes_block, directive_target, directive_target_of,
};
use crate::source_set::{joined, join_path, lookup, str_eq, SourceSet, SourcesView};
use crate::directive::directive_marker;
use crate::directive::opens;
use crate::stan_model::{fresh_view, lines_in, with_line, ModelView, StanModel};
use crate::stan_model_block::texts;
use crate::stan_model_block_type::StanModelBlockType;

verus! {

pub type FolderList = Vec<String>;

pub type FileList = Vec<String>;

/// How deep directives may nest, counting the entry file.
pub const MAX_NESTING: usize = 64;

/// Why an assembly run failed.
#[derive(Debug, PartialEq, Clone)]
pub enum AssembleError {
    /// No lines could be had for the file.
    SourceUnreadable { file: String },
    /// No search folder holds the path that a directive names.
    UnresolvedInclude { path: String, folders: Vec<String> },
    /// A directive names a file already open on the current path; the chain
    /// ends with that file.
    CyclicInclude { chain: Vec<String> },
    /// Directives nest deeper than `MAX_NESTING` files.
    IncludeLimitExceeded { file: String },
}

/// What an `AssembleError` says, as plain values.
pub enum Failure {
    SourceUnreadable(Seq<char>),
    UnresolvedInclude(Seq<char>, Seq<Seq<char>>),
    CyclicInclude(Seq<Seq<char>>),
    IncludeLimitExceeded(Seq<char>),
}

impl View for AssembleError {
    type V = Failure;

    open spec fn view(&self) -> Failure {
        match self {
            AssembleError::SourceUnreadable { file } => Failure::SourceUnreadable(file@),
            AssembleError::UnresolvedInclude { path, folders } => Failure::UnresolvedInclude(
                path@,
                texts(folders@),
            ),
            AssembleError::CyclicInclude { chain } => Failure::CyclicInclude(texts(chain@)),
            AssembleError::IncludeLimitExceeded { file } => Failure::IncludeLimitExceeded(file@),
        }
    }
}

/// The identifier that `path` resolves to: its place in the first folder that
/// holds it.
pub open spec fn resolve(fs: SourcesView, folders: Seq<Seq<char>>, path: Seq<char>) -> Option<
    Seq<char>,
>
    decreases folders.len(),
{
    if folders.len() == 0 {
        None
    } else if lookup(fs, joined(folders[0], path)) is Some {
        Some(joined(folders[0], path))
    } else {
        resolve(fs, folders.drop_first(), path)
    }
}

/// The program built so far and the section that lines currently go to.
pub type AssemblyState = (ModelView, Option<StanModelBlockType>);

/// The outcome of reading `lines` from state `st`, with the files of `chain`
/// open on the current path.
pub open spec fn run_lines(
    fs: SourcesView,
    folders: Seq<Seq<char>>,
    lines: Seq<Seq<char>>,
    chain: Seq<Seq<char>>,
    st: AssemblyState,
) -> Result<AssemblyState, Failure>
    decreases (MAX_NESTING - chain.len()) as nat, lines.len(),
{
    if lines.len() == 0 {
        Ok(st)
    } else {
        match run_line(fs, folders, lines[0], chain, st) {
            Ok(next) => run_lines(fs, folders, lines.drop_first(), chain, next),
            Err(e) => Err(e),
        }
    }
}

/// The outcome of reading one line from state `st`.
pub open spec fn run_line(
    fs: SourcesView,
    folders: Seq<Seq<char>>,
    line: Seq<char>,
    chain: Seq<Seq<char>>,
    st: AssemblyState,
) -> Result<AssemblyState, Failure>
    decreases (MAX_NESTING - chain.len()) as nat, 0nat,
{
    if let Some(k) = block_opened(line) {
        Ok((st.0, Some(k)))
    } else if closes(line) {
        Ok((st.0, None))
    } else if let Some(p) = directive_target(line) {
        if st.1 is None {
            Ok(st)
        } else {
            match resolve(fs, folders, p) {
                None => Err(Failure::UnresolvedInclude(p, folders)),
                Some(id) => {
                    if chain.contains(id) {
                        Err(Failure::CyclicInclude(chain.push(id)))
                    } else if chain.len() >= MAX_NESTING {
                        Err(Failure::IncludeLimitExceeded(id))
                    } else {
                        match lookup(fs, id) {
                            None => Err(Failure::SourceUnreadable(id)),
                            Some(ls) => run_lines(fs, folders, ls, chain.push(id), st),
                        }
                    }
                }
            }
        }
    } else {
        match st.1 {
            Some(k) => Ok((with_line(st.0, k, line), st.1)),
            None => Ok(st),
        }
    }
}

/// The outcome of assembling the file `entry`.
pub open spec fn assembled(fs: SourcesView, folders: Seq<Seq<char>>, entry: Seq<char>) -> Result<
    ModelView,
    Failure,
> {
    match lookup(fs, entry) {
        None => Err(Failure::SourceUnreadable(entry)),
        Some(ls) => match run_lines(fs, folders, ls, seq![entry], (fresh_view(), None)) {
            Ok(st) => Ok(st.0),
            Err(e) => Err(e),
        },
    }
}

/// A copy of a list of strings.
fn copy_strings(v: &Vec<String>) -> (r: Vec<String>)
    ensures
        texts(r@) == texts(v@),
{
    let mut r: Vec<String> = Vec::new();
    let n = v.len();
    let mut i: usize = 0;
    while i < n
        invariant
            n == v@.len(),
            i <= n,
            texts(r@) == texts(v@).subrange(0, i as int),
        decreases n - i,
    {
        let ghost prev = r@;
        let s = v[i].clone();
        r.push(s);
        assert(texts(r@) =~= texts(prev).push(v@[i as int]@));
        assert(texts(v@).subrange(0, i + 1) =~= texts(v@).subrange(0, i as int).push(
            v@[i as int]@,
        ));
        i += 1;
    }
    assert(texts(v@).subrange(0, n as int) =~= texts(v@));
    r
}

/// Whether `id` is one of `v`.
fn holds_id(v: &Vec<String>, id: &str) -> (r: bool)
    ensures
        r == texts(v@).contains(id@),
{
    let n = v.len();
    let mut i: usize = 0;
    while i < n
        invariant
            n == v@.len(),
            i <= n,
            forall|t: int| 0 <= t < i ==> texts(v@)[t] != id@,
        decreases n - i,
    {
        if str_eq(v[i].as_str(), id) {
            assert(texts(v@)[i as int] == id@);
            return true;
        }
        i += 1;
    }
    false
}

/// Resolves `path` against `folders`: the first folder that holds it wins.
pub fn resolve_include(sources: &SourceSet, folders: &Vec<String>, path: &str) -> (r: Result<
    String,
    AssembleError,
>)
    ensures
        match r {
            Ok(id) => resolve(sources@, texts(folders@), path@) == Some(id@),
            Err(e) => resolve(sources@, texts(folders@), path@) is None && e@
                == Failure::UnresolvedInclude(path@, texts(folders@)),
        },
        folders@.len() == 0 ==> r is Err,
{
    let n = folders.len();
    let mut i: usize = 0;
    assert(texts(folders@).subrange(0, n as int) =~= texts(folders@));
    while i < n
        invariant
            n == folders@.len(),
            i <= n,
            resolve(sources@, texts(folders@), path@) == resolve(
                sources@,
                texts(folders@).subrange(i as int, n as int),
                path@,
            ),
        decreases n - i,
    {
        let ghost rest = texts(folders@).subrange(i as int, n as int);
        assert(rest[0] == folders@[i as int]@);
        let id = join_path(folders[i].as_str(), path);
        if sources.read(id.as_str()).is_some() {
            return Ok(id);
        }
        assert(rest.drop_first() =~= texts(folders@).subrange(i + 1, n as int));
        i += 1;
    }
    Err(AssembleError::UnresolvedInclude { path: path.to_owned(), folders: copy_strings(folders) })
}

/// Reads `lines` into `model`, splicing in the files that directives name.
fn process_lines(
    sources: &SourceSet,
    folders: &Vec<String>,
    lines: &Vec<String>,
    chain: &mut Vec<String>,
    model: &mut StanModel,
    ctx: &mut Option<StanModelBlockType>,
) -> (r: Result<(), AssembleError>)
    ensures
        old(model).wf() ==> final(model).wf(),
        match r {
            Ok(()) => run_lines(
                sources@,
                texts(folders@),
                texts(lines@),
                texts(old(chain)@),
                (old(model)@, *old(ctx)),
            ) == Ok::<AssemblyState, Failure>((final(model)@, *final(ctx))) && final(chain)@
                == old(chain)@,
            Err(e) => run_lines(
                sources@,
                texts(folders@),
                texts(lines@),
                texts(old(chain)@),
                (old(model)@, *old(ctx)),
            ) == Err::<AssemblyState, Failure>(e@),
        },
    decreases (MAX_NESTING - old(chain)@.len()) as nat,
{
    let ghost fs = sources@;
    let ghost fl = texts(folders@);
    let ghost all = texts(lines@);
    let ghost c0 = texts(chain@);
    let ghost st0: AssemblyState = (model@, *ctx);
    let n = lines.len();
    let mut i: usize = 0;
    assert(all.subrange(0, n as int) =~= all);
    while i < n
        invariant
            n == lines@.len(),
            i <= n,
            all == texts(lines@),
            fl == texts(folders@),
            fs == sources@,
            old(model).wf() ==> model.wf(),
            chain@ == old(chain)@,
            c0 == texts(chain@),
            st0 == (old(model)@, *old(ctx)),
            run_lines(fs, fl, all, c0, st0) == run_lines(
                fs,
                fl,
                all.subrange(i as int, n as int),
                c0,
                (model@, *ctx),
            ),
        decreases n - i,
    {
        let ghost rest = all.subrange(i as int, n as int);
        let ghost cur: AssemblyState = (model@, *ctx);
        assert(rest[0] == lines@[i as int]@);
        assert(rest.drop_first() =~= all.subrange(i + 1, n as int));
        let line = lines[i].as_str();
        if let Some(k) = block_opened_by(line) {
            *ctx = Some(k);
        } else if closes_block(line) {
            *ctx = None;
        } else if let Some(p) = directive_target_of(line) {
            if ctx.is_some() {
                let id = match resolve_include(sources, folders, p.as_str()) {
                    Ok(id) => id,
                    Err(e) => {
                        assert(run_line(fs, fl, line@, c0, cur) == Err::<AssemblyState, Failure>(
                            e@,
                        ));
                        assert(run_lines(fs, fl, rest, c0, cur) == Err::<AssemblyState, Failure>(
                            e@,
                        ));
                        return Err(e);
                    },
                };
                if holds_id(chain, id.as_str()) {
                    let mut c = copy_strings(chain);
                    let ghost before = c@;
                    c.push(id);
                    assert(texts(c@) =~= texts(before).push(id@));
                    assert(run_line(fs, fl, line@, c0, cur) == Err::<AssemblyState, Failure>(
                        Failure::CyclicInclude(texts(c@)),
                    ));
                    assert(run_lines(fs, fl, rest, c0, cur) == Err::<AssemblyState, Failure>(
                        Failure::CyclicInclude(texts(c@)),
                    ));
                    return Err(AssembleError::CyclicInclude { chain: c });
                }
                if chain.len() >= MAX_NESTING {
                    return Err(AssembleError::IncludeLimitExceeded { file: id });
                }
                let included = match sources.read(id.as_str()) {
                    Some(ls) => ls,
                    None => {
                        return Err(AssembleError::SourceUnreadable { file: id });
                    },
                };
                let ghost idv = id@;
                chain.push(id);
                assert(texts(chain@) =~= c0.push(idv));
                let r = process_lines(sources, folders, included, chain, model, ctx);
                match r {
                    Ok(()) => {},
                    Err(e) => {
                        return Err(e);
                    },
                }
                chain.pop();
                assert(chain@ =~= old(chain)@);
            }
        } else if let Some(k) = *ctx {
            model.add_line(k, line);
        }
        i += 1;
    }
    Ok(())
}

/// The lines of a text, as `str::lines` splits them.
pub uninterp spec fn lines_of(s: Seq<char>) -> Seq<Seq<char>>;

/// A text without its leading and trailing whitespace, as `str::trim` gives it.
pub uninterp spec fn trimmed(s: Seq<char>) -> Seq<char>;

/// Each line trimmed.
pub open spec fn trim_each(lines: Seq<Seq<char>>) -> Seq<Seq<char>> {
    lines.map_values(|l: Seq<char>| trimmed(l))
}

/// The lines that are not empty, in order.
pub open spec fn non_empty(lines: Seq<Seq<char>>) -> Seq<Seq<char>>
    decreases lines.len(),
{
    if lines.len() == 0 {
        lines
    } else if lines.last().len() > 0 {
        non_empty(lines.drop_last()).push(lines.last())
    } else {
        non_empty(lines.drop_last())
    }
}

/// Relies on `str::lines`: splits the text at each line end.
#[verifier::external_body]
fn split_lines(s: &str) -> (r: Vec<String>)
    ensures
        texts(r@) == lines_of(s@),
{
    s.lines().map(|l| l.to_string()).collect()
}

/// Relies on `str::trim`: the text without surrounding whitespace.
#[verifier::external_body]
fn trim_text(s: &str) -> (r: &str)
    ensures
        r@ == trimmed(s@),
{
    s.trim()
}

/// The lines that are not empty, in order.
pub fn keep_non_empty(lines: &Vec<String>) -> (r: Vec<String>)
    ensures
        texts(r@) == non_empty(texts(lines@)),
{
    let mut out: Vec<String> = Vec::new();
    let n = lines.len();
    let mut i: usize = 0;
    assert(texts(lines@).subrange(0, 0) =~= Seq::<Seq<char>>::empty());
    assert(texts(out@) =~= Seq::<Seq<char>>::empty());
    while i < n
        invariant
            n == lines@.len(),
            i <= n,
            texts(out@) == non_empty(texts(lines@).subrange(0, i as int)),
        decreases n - i,
    {
        let ghost prefix = texts(lines@).subrange(0, i + 1);
        assert(prefix.drop_last() =~= texts(lines@).subrange(0, i as int));
        assert(prefix.last() == lines@[i as int]@);
        if lines[i].as_str().unicode_len() > 0 {
            let ghost prev = out@;
            out.push(lines[i].clone());
            assert(texts(out@) =~= texts(prev).push(lines@[i as int]@));
        }
        i += 1;
    }
    assert(texts(lines@).subrange(0, n as int) =~= texts(lines@));
    out
}

/// Anything that can list search folders and files and read a program.
pub trait SourceParser {
    fn get_folders(&self) -> Option<FolderList>;

    fn get_files_in_folder(&self, folder_index: usize) -> Option<FileList>;

    fn get_files_in_folders(&self) -> Option<FileList>;

    fn find_file_in_folders(&self) -> Option<String>;

    fn read_file(&self) -> Result<StanModel, AssembleError>;
}

/// An entry file and the ordered folders that directives are resolved against.
#[derive(Debug, PartialEq)]
pub struct StanSourceParser {
    pub filename: String,
    pub folders: FolderList,
}

impl StanSourceParser {
    pub fn new(filename: &str) -> (r: StanSourceParser)
        ensures
            r.filename@ == filename@,
            texts(r.folders@) == seq!["."@],
    {
        let mut folders: Vec<String> = Vec::new();
        folders.push(".".to_owned());
        let r = StanSourceParser { filename: filename.to_owned(), folders };
        assert(texts(r.folders@) =~= seq!["."@]);
        r
    }

    /// Appends `folder` to the search folders; the earlier ones keep their place.
    pub fn add_folder(&mut self, folder: &str)
        ensures
            final(self).filename == old(self).filename,
            texts(final(self).folders@) == texts(old(self).folders@).push(folder@),
    {
        self.folders.push(folder.to_owned());
        assert(texts(self.folders@) =~= texts(old(self).folders@).push(folder@));
    }

    /// The lines of a file's text as an assembly run reads them: trimmed, with
    /// empty lines left out.
    pub fn get_lines(contents: &str) -> (r: Vec<String>)
        ensures
            texts(r@) == non_empty(trim_each(lines_of(contents@))),
    {
        let raw = split_lines(contents);
        let mut t: Vec<String> = Vec::new();
        let n = raw.len();
        let mut i: usize = 0;
        while i < n
            invariant
                n == raw@.len(),
                i <= n,
                texts(raw@) == lines_of(contents@),
                texts(t@) == trim_each(texts(raw@)).subrange(0, i as int),
            decreases n - i,
        {
            let ghost prev = t@;
            let line = trim_text(raw[i].as_str());
            t.push(line.to_owned());
            assert(texts(t@) =~= texts(prev).push(trimmed(raw@[i as int]@)));
            assert(trim_each(texts(raw@)).subrange(0, i + 1) =~= trim_each(texts(raw@)).subrange(
                0,
                i as int,
            ).push(trimmed(raw@[i as int]@)));
            i += 1;
        }
        assert(trim_each(texts(raw@)).subrange(0, n as int) =~= trim_each(lines_of(contents@)));
        keep_non_empty(&t)
    }

    /// Builds the program that the entry file describes, splicing in the files
    /// that its directives name.
    pub fn assemble(&self, sources: &SourceSet) -> (r: Result<StanModel, AssembleError>)
        ensures
            match r {
                Ok(m) => m.wf() && assembled(sources@, texts(self.folders@), self.filename@)
                    == Ok::<ModelView, Failure>(m@),
                Err(e) => assembled(sources@, texts(self.folders@), self.filename@) == Err::<
                    ModelView,
                    Failure,
                >(e@),
            },
    {
        let lines = match sources.read(self.filename.as_str()) {
            Some(ls) => ls,
            None => {
                return Err(AssembleError::SourceUnreadable { file: self.filename.clone() });
            },
        };
        let mut chain: Vec<String> = Vec::new();
        chain.push(self.filename.clone());
        assert(texts(chain@) =~= seq![self.filename@]);
        let mut model = StanModel::new();
        let mut ctx: Option<StanModelBlockType> = None;
        match process_lines(sources, &self.folders, lines, &mut chain, &mut model, &mut ctx) {
            Ok(()) => Ok(model),
            Err(e) => Err(e),
        }
    }
}

/// `m` with `ls` appended to section `k`, one line after the other.
pub open spec fn with_lines(m: ModelView, k: StanModelBlockType, ls: Seq<Seq<char>>) -> ModelView
    decreases ls.len(),
{
    if ls.len() == 0 {
        m
    } else {
        with_lines(with_line(m, k, ls[0]), k, ls.drop_first())
    }
}

/// Appending lines one after the other appends them all to the section, and
/// leaves the other sections as they were.
pub proof fn lemma_with_lines(m: ModelView, k: StanModelBlockType, ls: Seq<Seq<char>>)
    ensures
        lines_in(with_lines(m, k, ls), k) == lines_in(m, k) + ls,
        forall|j: StanModelBlockType| j != k ==> lines_in(with_lines(m, k, ls), j) == lines_in(m, j),
    decreases ls.len(),
{
    if ls.len() == 0 {
        assert(lines_in(m, k) + ls =~= lines_in(m, k));
    } else {
        lemma_with_lines(with_line(m, k, ls[0]), k, ls.drop_first());
        assert forall|j: StanModelBlockType| j != k implies lines_in(with_line(m, k, ls[0]), j)
            == lines_in(m, j) by {
            if m.contains_key(j) {
                assert(with_line(m, k, ls[0]).contains_key(j));
            }
        }
        assert(lines_in(m, k).push(ls[0]) + ls.drop_first() =~= lines_in(m, k) + ls);
    }
}

/// A line that neither opens nor closes a section nor names a file.
pub open spec fn is_content(line: Seq<char>) -> bool {
    block_opened(line) is None && !closes(line) && directive_target(line) is None
}

/// A directive line neither opens nor closes a section.
pub proof fn lemma_directive_is_not_structural(line: Seq<char>)
    requires
        directive_target(line) is Some,
    ensures
        block_opened(line) is None,
        !closes(line),
{
    reveal_strlit("#include");
    reveal_strlit("functions");
    reveal_strlit("data");
    reveal_strlit("transformed data");
    reveal_strlit("parameters");
    reveal_strlit("transformed parameters");
    reveal_strlit("model");
    reveal_strlit("generated quantities");
    assert(line.subrange(0, 8) == directive_marker());
    assert(line[0] == line.subrange(0, 8)[0]);
    assert(line[0] == '#');
    assert forall|k: StanModelBlockType| !opens(line, k) by {
        assert((k.keyword() + seq![' ', '{'])[0] == k.keyword()[0]);
        assert((k.keyword() + seq!['{'])[0] == k.keyword()[0]);
    }
}

/// Content lines read inside section `k` are appended to it, in order.
pub proof fn lemma_content_lines_append(
    fs: SourcesView,
    folders: Seq<Seq<char>>,
    ls: Seq<Seq<char>>,
    chain: Seq<Seq<char>>,
    m: ModelView,
    k: StanModelBlockType,
)
    requires
        forall|i: int| 0 <= i < ls.len() ==> is_content(#[trigger] ls[i]),
    ensures
        run_lines(fs, folders, ls, chain, (m, Some(k))) == Ok::<AssemblyState, Failure>(
            (with_lines(m, k, ls), Some(k)),
        ),
    decreases ls.len(),
{
    if ls.len() > 0 {
        assert(is_content(ls[0]));
        assert(run_line(fs, folders, ls[0], chain, (m, Some(k))) == Ok::<AssemblyState, Failure>(
            (with_line(m, k, ls[0]), Some(k)),
        ));
        assert forall|i: int| 0 <= i < ls.drop_first().len() implies is_content(
            #[trigger] ls.drop_first()[i],
        ) by {
            assert(ls.drop_first()[i] == ls[i + 1]);
        }
        lemma_content_lines_append(fs, folders, ls.drop_first(), chain, with_line(m, k, ls[0]), k);
    }
}

/// A directive read inside a section that resolves to a file already open on
/// the current path fails as cyclic: that file is not read again.
pub proof fn lemma_reopening_is_cyclic(
    fs: SourcesView,
    folders: Seq<Seq<char>>,
    line: Seq<char>,
    chain: Seq<Seq<char>>,
    st: AssemblyState,
)
    requires
        directive_target(line) is Some,
        st.1 is Some,
        resolve(fs, folders, directive_target(line).unwrap()) is Some,
        chain.contains(resolve(fs, folders, directive_target(line).unwrap()).unwrap()),
    ensures
        run_line(fs, folders, line, chain, st) == Err::<AssemblyState, Failure>(
            Failure::CyclicInclude(
                chain.push(resolve(fs, folders, directive_target(line).unwrap()).unwrap()),
            ),
        ),
{
    lemma_directive_is_not_structural(line);
}

/// A file that opens a section and then names itself fails as cyclic.
pub proof fn lemma_self_reference_is_cyclic(
    fs: SourcesView,
    folders: Seq<Seq<char>>,
    a: Seq<char>,
    open_line: Seq<char>,
    self_line: Seq<char>,
)
    requires
        lookup(fs, a) == Some(seq![open_line, self_line]),
        block_opened(open_line) is Some,
        directive_target(self_line) is Some,
        resolve(fs, folders, directive_target(self_line).unwrap()) == Some(a),
    ensures
        assembled(fs, folders, a) == Err::<ModelView, Failure>(
            Failure::CyclicInclude(seq![a, a]),
        ),
{
    let k = block_opened(open_line).unwrap();
    let ls = seq![open_line, self_line];
    let st1: AssemblyState = (fresh_view(), Some(k));
    assert(run_line(fs, folders, open_line, seq![a], (fresh_view(), None)) == Ok::<
        AssemblyState,
        Failure,
    >(st1));
    assert(seq![a].contains(a)) by {
        assert(seq![a][0] == a);
    }
    lemma_reopening_is_cyclic(fs, folders, self_line, seq![a], st1);
    assert(seq![a].push(a) =~= seq![a, a]);
    assert(ls.drop_first() =~= seq![self_line]);
    assert(ls.drop_first().drop_first() =~= Seq::<Seq<char>>::empty());
    assert(run_lines(fs, folders, ls.drop_first(), seq![a], st1) == Err::<AssemblyState, Failure>(
        Failure::CyclicInclude(seq![a, a]),
    ));
}

/// Diamond: A names B and then C, each of which names D, and D holds content
/// lines only. D is open twice, but never twice on one path, so assembling A
/// succeeds, with D's lines twice in the section that A opened.
pub proof fn lemma_diamond_succeeds(
    fs: SourcesView,
    folders: Seq<Seq<char>>,
    a: Seq<char>,
    b: Seq<char>,
    c: Seq<char>,
    d: Seq<char>,
    open_line: Seq<char>,
    line_b: Seq<char>,
    line_c: Seq<char>,
    line_bd: Seq<char>,
    line_cd: Seq<char>,
    lines_d: Seq<Seq<char>>,
)
    requires
        a != b && a != c && a != d && b != c && b != d && c != d,
        lookup(fs, a) == Some(seq![open_line, line_b, line_c]),
        block_opened(open_line) is Some,
        directive_target(line_b) is Some,
        resolve(fs, folders, directive_target(line_b).unwrap()) == Some(b),
        directive_target(line_c) is Some,
        resolve(fs, folders, directive_target(line_c).unwrap()) == Some(c),
        lookup(fs, b) == Some(seq![line_bd]),
        lookup(fs, c) == Some(seq![line_cd]),
        directive_target(line_bd) is Some,
        resolve(fs, folders, directive_target(line_bd).unwrap()) == Some(d),
        directive_target(line_cd) is Some,
        resolve(fs, folders, directive_target(line_cd).unwrap()) == Some(d),
        lookup(fs, d) == Some(lines_d),
        forall|i: int| 0 <= i < lines_d.len() ==> is_content(#[trigger] lines_d[i]),
    ensures
        match assembled(fs, folders, a) {
            Ok(m) => lines_in(m, block_opened(open_line).unwrap()) == lines_d + lines_d,
            Err(_) => false,
        },
{
    let k = block_opened(open_line).unwrap();
    let m0 = fresh_view();
    let m1 = with_lines(m0, k, lines_d);
    let m2 = with_lines(m1, k, lines_d);
    lemma_directive_is_not_structural(line_b);
    lemma_directive_is_not_structural(line_c);
    lemma_directive_is_not_structural(line_bd);
    lemma_directive_is_not_structural(line_cd);
    let ca = seq![a];
    let cab = ca.push(b);
    let cac = ca.push(c);
    assert(!ca.contains(b) && !ca.contains(c) && !ca.contains(d)) by {
        assert(ca[0] == a);
    }
    assert(!cab.contains(d)) by {
        assert(cab[0] == a && cab[1] == b);
    }
    assert(!cac.contains(d)) by {
        assert(cac[0] == a && cac[1] == c);
    }
    lemma_content_lines_append(fs, folders, lines_d, cab.push(d), m0, k);
    lemma_content_lines_append(fs, folders, lines_d, cac.push(d), m1, k);
    let one_b = seq![line_bd];
    let one_c = seq![line_cd];
    assert(one_b.drop_first() =~= Seq::<Seq<char>>::empty());
    assert(one_c.drop_first() =~= Seq::<Seq<char>>::empty());
    assert(run_line(fs, folders, line_bd, cab, (m0, Some(k))) == Ok::<AssemblyState, Failure>(
        (m1, Some(k)),
    ));
    assert(run_lines(fs, folders, one_b.drop_first(), cab, (m1, Some(k))) == Ok::<
        AssemblyState,
        Failure,
    >((m1, Some(k))));
    assert(one_b[0] == line_bd);
    assert(run_lines(fs, folders, one_b, cab, (m0, Some(k))) == Ok::<AssemblyState, Failure>(
        (m1, Some(k)),
    ));
    assert(run_line(fs, folders, line_cd, cac, (m1, Some(k))) == Ok::<AssemblyState, Failure>(
        (m2, Some(k)),
    ));
    assert(run_lines(fs, folders, one_c.drop_first(), cac, (m2, Some(k))) == Ok::<
        AssemblyState,
        Failure,
    >((m2, Some(k))));
    assert(one_c[0] == line_cd);
    assert(run_lines(fs, folders, one_c, cac, (m1, Some(k))) == Ok::<AssemblyState, Failure>(
        (m2, Some(k)),
    ));
    let ls = seq![open_line, line_b, line_c];
    let l1 = ls.drop_first();
    let l2 = l1.drop_first();
    let l3 = l2.drop_first();
    assert(l1 =~= seq![line_b, line_c]);
    assert(l2 =~= seq![line_c]);
    assert(l3 =~= Seq::<Seq<char>>::empty());
    assert(run_line(fs, folders, line_b, ca, (m0, Some(k))) == Ok::<AssemblyState, Failure>(
        (m1, Some(k)),
    ));
    assert(run_line(fs, folders, line_c, ca, (m1, Some(k))) == Ok::<AssemblyState, Failure>(
        (m2, Some(k)),
    ));
    assert(run_line(fs, folders, open_line, ca, (m0, None)) == Ok::<AssemblyState, Failure>(
        (m0, Some(k)),
    ));
    assert(run_lines(fs, folders, l3, ca, (m2, Some(k))) == Ok::<AssemblyState, Failure>(
        (m2, Some(k)),
    ));
    assert(run_lines(fs, folders, l2, ca, (m1, Some(k))) == Ok::<AssemblyState, Failure>(
        (m2, Some(k)),
    ));
    assert(run_lines(fs, folders, l1, ca, (m0, Some(k))) == Ok::<AssemblyState, Failure>(
        (m2, Some(k)),
    ));
    assert(run_lines(fs, folders, ls, ca, (m0, None)) == Ok::<AssemblyState, Failure>(
        (m2, Some(k)),
    ));
    lemma_with_lines(m0, k, lines_d);
    lemma_with_lines(m1, k, lines_d);
    assert(lines_in(m0, k) + lines_d + lines_d =~= lines_d + lines_d);
}

} // verus!
