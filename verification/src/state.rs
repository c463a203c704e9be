//! The state of a preprocessor: the files it knows, the macros defined,
//! the errors found, and the settings of the directives seen so far

use crate::error::PreprocessorError;
use crate::keywords::KeywordStandard;
use crate::settings::Settings;
use crate::span::Span;
use crate::spanned_token::SpannedToken;
use crate::util::{bytes_eq, slice_bytes};
use vstd::prelude::*;

verus! {

/// A file known to the preprocessor
#[derive(Debug)]
pub struct SourceFile {
    pub name: Vec<u8>,
    pub contents: Vec<u8>,
}

/// A parameter of a text macro, with its default argument if it has one
#[derive(Debug)]
pub struct MacroParameter {
    pub name: Vec<u8>,
    pub default: Option<Vec<SpannedToken>>,
}

/// What a text macro expands to
#[derive(Debug)]
pub enum DefineBody {
    /// Nothing: the macro is only defined
    Empty,
    /// The given tokens
    Text(Vec<SpannedToken>),
    /// The given tokens, with the parameters replaced by arguments
    Function(Vec<MacroParameter>, Vec<SpannedToken>),
}

/// A text macro definition
#[derive(Debug)]
pub struct Define {
    pub name: Vec<u8>,
    pub name_span: Span,
    pub body: DefineBody,
}

/// A `` `line `` directive: from the line after it on, lines are counted
/// from `line` and belong to the file `file_name`
#[derive(Debug)]
pub struct LineDirective {
    pub span: Span,
    pub file_name: Vec<u8>,
    pub line: Vec<u8>,
}

/// What the preprocessor is reading
#[derive(Clone, Copy, Debug, PartialEq, Eq, Structural)]
pub enum Mode {
    /// Ordinary source text
    Normal,
    /// The body of a `` `define ``, up to the end of its line
    Define,
    /// A default argument of a `` `define `` parameter
    DefineArg,
    /// An argument of a text macro use
    TextMacroArg,
}

/// The state of a preprocessor. `H` is the type of the handlers called for
/// `` `pragma `` directives.
pub struct PreprocessorState<H> {
    /// The files known, by index
    pub files: Vec<SourceFile>,
    /// The text macros defined
    pub defines: Vec<Define>,
    /// The errors and warnings found, in order
    pub errors: Vec<PreprocessorError>,
    /// The `` `begin_keywords `` directives open, innermost last
    pub curr_standard: Vec<(KeywordStandard, Span)>,
    /// The `` `line `` directives seen
    pub line_directives: Vec<LineDirective>,
    /// The settings of `` `timescale ``, `` `default_nettype `` and
    /// `` `unconnected_drive ``
    pub settings: Settings,
    /// How many design elements (modules, interfaces, ...) are open
    pub design_depth: usize,
    /// Whether `` `celldefine `` is in effect
    pub cell_define: bool,
    /// The handlers for `` `pragma `` directives, by pragma name
    pub pragma_handlers: Vec<(Vec<u8>, H)>,
    /// What is being read
    pub mode: Mode,
    /// How many more steps the preprocessor may take
    pub budget: u64,
}

/// The names under which pragma handlers are registered, in order
pub open spec fn handler_names<H>(hs: Seq<(Vec<u8>, H)>) -> Seq<Seq<u8>> {
    hs.map_values(|h: (Vec<u8>, H)| h.0@)
}

/// What every step of preprocessing keeps: the files, the errors found so
/// far (new ones are only added after them), the mode, and the names of
/// the pragma handlers; the budget only goes down
pub open spec fn evolves<H>(old: PreprocessorState<H>, new: PreprocessorState<H>) -> bool {
    &&& new.files == old.files
    &&& old.errors@.is_prefix_of(new.errors@)
    &&& new.budget <= old.budget
    &&& new.mode == old.mode
    &&& handler_names(new.pragma_handlers@) == handler_names(old.pragma_handlers@)
}

/// The bytes of a file that a span covers, if the span is within a file
pub open spec fn span_text(files: Seq<SourceFile>, span: Span) -> Option<Seq<u8>> {
    if span.file < files.len() && span.start <= span.end <= files[span.file as int].contents@.len() {
        Some(files[span.file as int].contents@.subrange(span.start as int, span.end as int))
    } else {
        None
    }
}

/// The standard of keywords in effect under the open `` `begin_keywords ``
pub open spec fn keyword_standard(s: Seq<(KeywordStandard, Span)>) -> KeywordStandard {
    if s.len() == 0 {
        KeywordStandard::V1800_2023
    } else {
        s.last().0
    }
}

/// The first definition, at or after `i`, of a macro of the given name
pub open spec fn find_define(defines: Seq<Define>, name: Seq<u8>, i: int) -> Option<int>
    decreases defines.len() - i,
{
    if i < 0 || i >= defines.len() {
        None
    } else if defines[i].name@ == name {
        Some(i)
    } else {
        find_define(defines, name, i + 1)
    }
}

/// The definition in effect of a macro of the given name
pub open spec fn define_index(defines: Seq<Define>, name: Seq<u8>) -> Option<int> {
    find_define(defines, name, 0)
}

/// The definition in effect of a macro of the given name, if any
pub open spec fn defined_as(defines: Seq<Define>, name: Seq<u8>) -> Option<Define> {
    match define_index(defines, name) {
        Some(j) => Some(defines[j]),
        None => None,
    }
}

/// Where the first definition of a name is found from `k` on, in a table
/// with one definition (of another name) taken out at `i <= k`: one place
/// earlier
proof fn lemma_find_define_after_remove(s: Seq<Define>, i: int, m: Seq<u8>, k: int)
    requires
        0 <= i < s.len(),
        i <= k,
    ensures
        match find_define(s, m, k + 1) {
            Some(j) => find_define(s.remove(i), m, k) == Some(j - 1),
            None => find_define(s.remove(i), m, k) is None,
        },
    decreases s.len() - k,
{
    if k + 1 < s.len() {
        assert(s.remove(i)[k] == s[k + 1]);
        lemma_find_define_after_remove(s, i, m, k + 1);
    }
}

proof fn lemma_find_define_before_remove(s: Seq<Define>, i: int, m: Seq<u8>, k: int)
    requires
        0 <= i < s.len(),
        s[i].name@ != m,
        0 <= k <= i,
    ensures
        match find_define(s, m, k) {
            Some(j) => find_define(s.remove(i), m, k) == Some(if j < i { j } else { j - 1 }) && j != i,
            None => find_define(s.remove(i), m, k) is None,
        },
    decreases s.len() - k,
{
    if k < i {
        assert(s.remove(i)[k] == s[k]);
        lemma_find_define_before_remove(s, i, m, k + 1);
    } else {
        lemma_find_define_after_remove(s, i, m, k);
        lemma_find_define_range(s, m, k + 1);
    }
}

/// Taking out a definition of another name leaves the definition of a
/// name in effect as it was
pub proof fn lemma_defined_as_remove(s: Seq<Define>, i: int, m: Seq<u8>)
    requires
        0 <= i < s.len(),
        s[i].name@ != m,
    ensures
        defined_as(s.remove(i), m) == defined_as(s, m),
{
    lemma_find_define_before_remove(s, i, m, 0);
    match find_define(s, m, 0) {
        Some(j) => {
            lemma_find_define_range(s, m, 0);
            if j < i {
                assert(s.remove(i)[j] == s[j]);
            } else {
                assert(s.remove(i)[j - 1] == s[j]);
            }
        },
        None => {},
    }
}

/// Adding a definition of another name at the end leaves the definition of
/// a name in effect as it was
pub proof fn lemma_defined_as_push(s: Seq<Define>, d: Define, m: Seq<u8>)
    requires
        d.name@ != m,
    ensures
        defined_as(s.push(d), m) == defined_as(s, m),
{
    lemma_find_define_push(s, d, m, 0);
    match find_define(s, m, 0) {
        Some(j) => {
            lemma_find_define_range(s, m, 0);
            assert(s.push(d)[j] == s[j]);
        },
        None => {},
    }
}

proof fn lemma_find_define_push(s: Seq<Define>, d: Define, m: Seq<u8>, k: int)
    requires
        d.name@ != m,
        0 <= k,
    ensures
        find_define(s.push(d), m, k) == find_define(s, m, k),
    decreases s.len() + 1 - k,
{
    if k < s.len() {
        assert(s.push(d)[k] == s[k]);
        lemma_find_define_push(s, d, m, k + 1);
    } else if k == s.len() {
        assert(s.push(d)[k] == d);
        assert(find_define(s.push(d), m, k + 1) is None);
    }
}

/// The definition found lies within the table, at or after the start
pub proof fn lemma_find_define_range(s: Seq<Define>, m: Seq<u8>, k: int)
    requires
        0 <= k,
    ensures
        find_define(s, m, k) matches Some(j) ==> k <= j < s.len() && s[j].name@ == m,
    decreases s.len() - k,
{
    if k < s.len() && s[k].name@ != m {
        lemma_find_define_range(s, m, k + 1);
    }
}

pub proof fn lemma_evolves_trans<H>(
    a: PreprocessorState<H>,
    b: PreprocessorState<H>,
    c: PreprocessorState<H>,
)
    requires
        evolves(a, b),
        evolves(b, c),
    ensures
        evolves(a, c),
{
    assert(a.errors@ =~= c.errors@.subrange(0, a.errors@.len() as int));
}

impl<H> PreprocessorState<H> {
    /// A state that knows no files, with the given macros defined
    pub fn new(defines: Vec<Define>) -> (r: Self)
        ensures
            r.files@.len() == 0,
            r.defines == defines,
            r.errors@.len() == 0,
            r.curr_standard@.len() == 0,
            r.line_directives@.len() == 0,
            r.settings == Settings::default_spec(),
            r.design_depth == 0,
            !r.cell_define,
            r.pragma_handlers@.len() == 0,
            r.mode == Mode::Normal,
            r.budget == u64::MAX,
    {
        PreprocessorState {
            files: Vec::new(),
            defines,
            errors: Vec::new(),
            curr_standard: Vec::new(),
            line_directives: Vec::new(),
            settings: Settings::defaults(),
            design_depth: 0,
            cell_define: false,
            pragma_handlers: Vec::new(),
            mode: Mode::Normal,
            budget: u64::MAX,
        }
    }

    /// Make a file known; returns its index
    pub fn retain_file(&mut self, name: Vec<u8>, contents: Vec<u8>) -> (r: usize)
        ensures
            r == old(self).files@.len(),
            final(self).files@.len() == old(self).files@.len() + 1,
            final(self).files@.take(r as int) == old(self).files@,
            final(self).files@[r as int].name@ == name@,
            final(self).files@[r as int].contents@ == contents@,
            final(self).defines == old(self).defines,
            final(self).errors == old(self).errors,
            final(self).budget == old(self).budget,
            final(self).mode == old(self).mode,
    {
        let r = self.files.len();
        self.files.push(SourceFile { name, contents });
        assert(self.files@.take(r as int) =~= old(self).files@);
        r
    }

    /// The index of the known file with the given name
    pub fn find_file(&self, name: &[u8]) -> (r: Option<usize>)
        ensures
            match r {
                Some(i) => i < self.files@.len() && self.files@[i as int].name@ == name@ && forall|j: int|
                    0 <= j < i ==> #[trigger] self.files@[j].name@ != name@,
                None => forall|i: int| 0 <= i < self.files@.len() ==> #[trigger] self.files@[i].name@ != name@,
            },
    {
        let mut i: usize = 0;
        while i < self.files.len()
            invariant
                i <= self.files@.len(),
                forall|j: int| 0 <= j < i ==> #[trigger] self.files@[j].name@ != name@,
            decreases self.files.len() - i,
        {
            if bytes_eq(self.files[i].name.as_slice(), name) {
                return Some(i);
            }
            i = i + 1;
        }
        None
    }

    /// The bytes a span covers
    pub fn get_slice(&self, span: &Span) -> (r: Option<Vec<u8>>)
        ensures
            match r {
                Some(v) => span_text(self.files@, *span) == Some(v@),
                None => span_text(self.files@, *span) is None,
            },
    {
        if span.file < self.files.len() && span.start <= span.end && span.end
            <= self.files[span.file].contents.len() {
            Some(slice_bytes(self.files[span.file].contents.as_slice(), span.start, span.end))
        } else {
            None
        }
    }

    /// Record an error
    pub fn err(&mut self, e: PreprocessorError)
        ensures
            final(self).errors@ == old(self).errors@.push(e),
            final(self).design_depth == old(self).design_depth,
            final(self).line_directives == old(self).line_directives,
            final(self).files == old(self).files,
            final(self).defines == old(self).defines,
            final(self).curr_standard == old(self).curr_standard,
            final(self).settings == old(self).settings,
            final(self).budget == old(self).budget,
            final(self).mode == old(self).mode,
            evolves(*old(self), *final(self)),
            final(self).pragma_handlers == old(self).pragma_handlers,
            final(self).cell_define == old(self).cell_define,
    {
        self.errors.push(e);
    }

    /// Take one step from the budget; false if it has run out
    pub fn spend(&mut self) -> (r: bool)
        ensures
            r == (old(self).budget > 0),
            r ==> final(self).budget == old(self).budget - 1,
            !r ==> final(self).budget == old(self).budget,
            final(self).files == old(self).files,
            final(self).defines == old(self).defines,
            final(self).errors == old(self).errors,
            final(self).curr_standard == old(self).curr_standard,
            final(self).settings == old(self).settings,
            final(self).mode == old(self).mode,
            final(self).design_depth == old(self).design_depth,
            final(self).line_directives == old(self).line_directives,
            evolves(*old(self), *final(self)),
            final(self).pragma_handlers == old(self).pragma_handlers,
            final(self).cell_define == old(self).cell_define,
            final(self).cell_define == old(self).cell_define,
    {
        if self.budget == 0 {
            false
        } else {
            self.budget = self.budget - 1;
            true
        }
    }

    pub fn in_define(&self) -> (r: bool)
        ensures
            r == (self.mode == Mode::Define),
    {
        self.mode == Mode::Define
    }

    pub fn in_define_arg(&self) -> (r: bool)
        ensures
            r == (self.mode == Mode::DefineArg),
    {
        self.mode == Mode::DefineArg
    }

    pub fn in_text_macro_arg(&self) -> (r: bool)
        ensures
            r == (self.mode == Mode::TextMacroArg),
    {
        self.mode == Mode::TextMacroArg
    }

    pub fn in_design_element(&self) -> (r: bool)
        ensures
            r == (self.design_depth > 0),
    {
        self.design_depth > 0
    }

    /// A design element (module, interface, ...) begins
    pub fn enter_design_element(&mut self)
        ensures
            final(self).design_depth == if old(self).design_depth < usize::MAX {
                old(self).design_depth + 1
            } else {
                old(self).design_depth as int
            },
            final(self).files == old(self).files,
            final(self).defines == old(self).defines,
            final(self).errors == old(self).errors,
            final(self).curr_standard == old(self).curr_standard,
            final(self).settings == old(self).settings,
            final(self).budget == old(self).budget,
            final(self).mode == old(self).mode,
            final(self).pragma_handlers == old(self).pragma_handlers,
    {
        if self.design_depth < usize::MAX {
            self.design_depth = self.design_depth + 1;
        }
    }

    /// A design element ends
    pub fn exit_design_element(&mut self)
        ensures
            final(self).design_depth == if old(self).design_depth > 0 {
                old(self).design_depth - 1
            } else {
                0
            },
            final(self).files == old(self).files,
            final(self).defines == old(self).defines,
            final(self).errors == old(self).errors,
            final(self).curr_standard == old(self).curr_standard,
            final(self).settings == old(self).settings,
            final(self).budget == old(self).budget,
            final(self).mode == old(self).mode,
            final(self).pragma_handlers == old(self).pragma_handlers,
    {
        if self.design_depth > 0 {
            self.design_depth = self.design_depth - 1;
        }
    }

    /// `` `celldefine `` (true) or `` `endcelldefine `` (false)
    pub fn add_cell_define(&mut self, on: bool)
        ensures
            final(self).cell_define == on,
            final(self).files == old(self).files,
            final(self).defines == old(self).defines,
            final(self).errors == old(self).errors,
            final(self).curr_standard == old(self).curr_standard,
            final(self).settings == old(self).settings,
            final(self).budget == old(self).budget,
            final(self).mode == old(self).mode,
            final(self).design_depth == old(self).design_depth,
            final(self).pragma_handlers == old(self).pragma_handlers,
    {
        self.cell_define = on;
    }

    /// `` `resetall ``: directives back to their defaults
    pub fn reset_all(&mut self)
        ensures
            !final(self).cell_define,
            final(self).settings == Settings::default_spec(),
            final(self).files == old(self).files,
            final(self).defines == old(self).defines,
            final(self).errors == old(self).errors,
            final(self).curr_standard == old(self).curr_standard,
            final(self).budget == old(self).budget,
            final(self).mode == old(self).mode,
            final(self).design_depth == old(self).design_depth,
            final(self).pragma_handlers == old(self).pragma_handlers,
    {
        self.cell_define = false;
        self.settings = Settings::defaults();
    }

    /// `` `undefineall ``: no text macro is defined any more
    pub fn undefineall(&mut self)
        ensures
            final(self).defines@.len() == 0,
            final(self).files == old(self).files,
            final(self).errors == old(self).errors,
            final(self).curr_standard == old(self).curr_standard,
            final(self).settings == old(self).settings,
            final(self).budget == old(self).budget,
            final(self).mode == old(self).mode,
            final(self).pragma_handlers == old(self).pragma_handlers,
    {
        self.defines = Vec::new();
    }

    /// The standard of keywords in effect
    pub fn get_keyword_standard(&self) -> (r: KeywordStandard)
        ensures
            r == keyword_standard(self.curr_standard@),
    {
        if self.curr_standard.len() == 0 {
            KeywordStandard::V1800_2023
        } else {
            self.curr_standard[self.curr_standard.len() - 1].0
        }
    }

    /// The index of the macro of the given name
    pub fn lookup_define(&self, name: &[u8]) -> (r: Option<usize>)
        ensures
            match r {
                Some(i) => define_index(self.defines@, name@) == Some(i as int),
                None => define_index(self.defines@, name@) is None,
            },
            r matches Some(i) ==> i < self.defines@.len(),
    {
        let mut i: usize = 0;
        while i < self.defines.len()
            invariant
                i <= self.defines@.len(),
                find_define(self.defines@, name@, i as int) == define_index(self.defines@, name@),
            decreases self.defines.len() - i,
        {
            if bytes_eq(self.defines[i].name.as_slice(), name) {
                return Some(i);
            }
            i = i + 1;
        }
        None
    }

    /// Register the handler for the pragma of the given name, replacing
    /// any handler it had
    pub fn set_pragma_handler(&mut self, name: Vec<u8>, handler: H)
        ensures
            final(self).pragma_handlers@.len() > 0,
            final(self).pragma_handlers@.last().0@ == name@,
            final(self).pragma_handlers@.last().1 == handler,
            forall|i: int|
                0 <= i < final(self).pragma_handlers@.len() - 1 ==> (#[trigger] final(self).pragma_handlers@[i]).0@ != name@,
            final(self).files == old(self).files,
            final(self).defines == old(self).defines,
            final(self).errors == old(self).errors,
            final(self).budget == old(self).budget,
            final(self).mode == old(self).mode,
    {
        let mut kept: Vec<(Vec<u8>, H)> = Vec::new();
        let mut old_handlers: Vec<(Vec<u8>, H)> = Vec::new();
        std::mem::swap(&mut old_handlers, &mut self.pragma_handlers);
        while old_handlers.len() > 0
            invariant
                forall|i: int| 0 <= i < kept@.len() ==> #[trigger] kept@[i].0@ != name@,
            decreases old_handlers.len(),
        {
            let (n, h) = old_handlers.remove(0);
            let same = bytes_eq(n.as_slice(), name.as_slice());
            if !same {
                assert(n@ != name@);
                let ghost before = kept@;
                let ghost nv = n@;
                kept.push((n, h));
                assert(kept@[before.len() as int].0@ == nv);
                assert forall|i: int| 0 <= i < kept@.len() implies #[trigger] kept@[i].0@ != name@ by {
                    if i < before.len() {
                        assert(kept@[i] == before[i]);
                    }
                }
            } else {
                assert(forall|i: int| 0 <= i < kept@.len() ==> #[trigger] kept@[i].0@ != name@);
            }
            assert(forall|i: int| 0 <= i < kept@.len() ==> #[trigger] kept@[i].0@ != name@);
        }
        let ghost before = kept@;
        kept.push((name, handler));
        assert forall|i: int| 0 <= i < kept@.len() - 1 implies #[trigger] kept@[i].0@ != name@ by {
            assert(kept@[i] == before[i]);
        }
        self.pragma_handlers = kept;
    }
}

} // verus!
