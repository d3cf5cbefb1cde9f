//! The extraction schema, raw and compiled, and the compilation of one into the other.

use vstd::prelude::*;
use crate::matcher::{parse_regex, parse_selector, parsed_regex, parsed_selector};
use crate::one_or_list::OneOrList;

verus! {

/// One node of a schema as its author wrote it.
#[derive(Debug, PartialEq, Eq)]
pub struct ExtractOpt {
    /// What to read from each matched element: `"text"`, `"html"`, `"inner_html"`, or the
    /// name of an attribute. With no target the node only scopes its children.
    pub target: OneOrList<String>,
    /// The CSS selector that picks the node's elements among the descendants of its scope.
    pub selector: String,
    /// A pattern whose capture groups replace each string read.
    pub regex: Option<String>,
    /// The named child nodes, each evaluated below every element this node matched.
    /// They stand in the author's order. A name is meant to occur once in a node (see
    /// [`ExtractOpt::well_formed`]); a node that repeats one still compiles, and each of
    /// its children gives its own field of the result.
    pub items: Vec<(String, ExtractOpt)>,
}

/// One node of a schema with its selector and pattern compiled. It is made once, by
/// [`ExtractOpt::compile`], and read by any number of extractions.
#[derive(Debug)]
pub struct ExtractOptCompiled {
    /// The targets, as the author wrote them.
    pub target: OneOrList<String>,
    /// The matcher that the selector's text stands for.
    pub selector: scraper::Selector,
    /// The matcher that the regex's text stands for, where the node has a regex.
    pub regex: Option<regex::Regex>,
    /// The child nodes compiled, under their names and in the author's order.
    pub items: Vec<(String, ExtractOptCompiled)>,
}

/// Why a schema did not compile, and where: `path` holds the names of the children that
/// lead from the schema's root to the node at fault, and is empty for the root itself.
#[derive(Debug, PartialEq, Eq)]
pub enum CompileError {
    /// The node's selector is no CSS selector.
    InvalidSelector { path: Vec<String> },
    /// The node's regex is no pattern.
    InvalidRegex { path: Vec<String> },
}

/// The mathematical counterpart of [`CompileError`].
pub enum Fault {
    InvalidSelector { path: Seq<Seq<char>> },
    InvalidRegex { path: Seq<Seq<char>> },
}

impl Fault {
    /// The names of the children that lead from the schema's root to the node at fault.
    pub open spec fn path(self) -> Seq<Seq<char>> {
        match self {
            Fault::InvalidSelector { path } => path,
            Fault::InvalidRegex { path } => path,
        }
    }

    /// Whether the fault is of the kind that `node` itself shows: a selector that does
    /// not compile, or, behind a selector that does, a regex that does not.
    pub open spec fn shown_by(self, node: ExtractOpt) -> bool {
        match self {
            Fault::InvalidSelector { .. } => parsed_selector(node.selector@) is Err,
            Fault::InvalidRegex { .. } => {
                &&& parsed_selector(node.selector@) is Ok
                &&& node.regex is Some
                &&& parsed_regex(node.regex.unwrap()@) is Err
            },
        }
    }

    /// The same fault seen from the parent that holds the faulty node under `name`.
    pub open spec fn nested(self, name: Seq<char>) -> Fault {
        match self {
            Fault::InvalidSelector { path } => Fault::InvalidSelector { path: seq![name] + path },
            Fault::InvalidRegex { path } => Fault::InvalidRegex { path: seq![name] + path },
        }
    }
}

impl CompileError {
    /// The error as a mathematical value.
    pub open spec fn model(self) -> Fault {
        match self {
            CompileError::InvalidSelector { path } => Fault::InvalidSelector {
                path: path.deep_view(),
            },
            CompileError::InvalidRegex { path } => Fault::InvalidRegex { path: path.deep_view() },
        }
    }

    /// The same error reported by the parent that holds the faulty node under `name`:
    /// the name goes in front of the path.
    pub fn nested(self, name: String) -> (r: CompileError)
        ensures
            r.model() == self.model().nested(name@),
    {
        match self {
            CompileError::InvalidSelector { path } => {
                let mut path = path;
                let ghost before = path.deep_view();
                path.insert(0, name);
                assert(path.deep_view() =~= seq![name@] + before);
                CompileError::InvalidSelector { path }
            },
            CompileError::InvalidRegex { path } => {
                let mut path = path;
                let ghost before = path.deep_view();
                path.insert(0, name);
                assert(path.deep_view() =~= seq![name@] + before);
                CompileError::InvalidRegex { path }
            },
        }
    }
}

impl ExtractOptCompiled {
    /// The names of the node's children, in their order.
    pub open spec fn names(self) -> Seq<Seq<char>> {
        Seq::new(self.items@.len(), |i: int| self.items@[i].0@)
    }

    /// Whether the children of every node of the tree have names that differ from each
    /// other.
    pub open spec fn well_formed(self) -> bool
        decreases self,
    {
        &&& self.names().no_duplicates()
        &&& forall|i: int| 0 <= i < self.items@.len() ==> (#[trigger] self.items@[i]).1.well_formed()
    }
}

impl ExtractOpt {
    /// The names of the node's children, in their order.
    pub open spec fn names(self) -> Seq<Seq<char>> {
        Seq::new(self.items@.len(), |i: int| self.items@[i].0@)
    }

    /// Whether the children of every node of the tree have names that differ from each
    /// other, so that the children of a node are a mapping from names to schemas.
    pub open spec fn well_formed(self) -> bool
        decreases self,
    {
        &&& self.names().no_duplicates()
        &&& forall|i: int| 0 <= i < self.items@.len() ==> (#[trigger] self.items@[i]).1.well_formed()
    }

    /// Whether the node's own selector and regex both compile.
    pub open spec fn node_valid(self) -> bool {
        &&& parsed_selector(self.selector@) is Ok
        &&& self.regex matches Some(pattern) ==> parsed_regex(pattern@) is Ok
    }

    /// Whether every selector and every regex of the tree compiles.
    pub open spec fn valid(self) -> bool
        decreases self,
    {
        &&& self.node_valid()
        &&& forall|i: int| 0 <= i < self.items@.len() ==> (#[trigger] self.items@[i]).1.valid()
    }

    /// The node reached from this one by descending, for each index of `route` in turn,
    /// into the child at that index; `None` where an index names no child.
    pub open spec fn node_at(self, route: Seq<int>) -> Option<ExtractOpt>
        decreases route.len(),
    {
        if route.len() == 0 {
            Some(self)
        } else if 0 <= route[0] < self.items@.len() {
            self.items@[route[0]].1.node_at(route.drop_first())
        } else {
            None
        }
    }

    /// The names under which the children along `route` are held, from the root down.
    pub open spec fn names_along(self, route: Seq<int>) -> Seq<Seq<char>>
        decreases route.len(),
    {
        if route.len() == 0 || !(0 <= route[0] < self.items@.len()) {
            Seq::empty()
        } else {
            seq![self.items@[route[0]].0@] + self.items@[route[0]].1.names_along(
                route.drop_first(),
            )
        }
    }

    /// The first fault of the tree, if it has one. A node's selector is looked at first,
    /// then its regex, then its children in their order, each child as a whole.
    pub open spec fn first_fault(self) -> Option<Fault>
        decreases self, 0nat,
    {
        if parsed_selector(self.selector@) is Err {
            Some(Fault::InvalidSelector { path: Seq::empty() })
        } else if self.regex is Some && parsed_regex(self.regex.unwrap()@) is Err {
            Some(Fault::InvalidRegex { path: Seq::empty() })
        } else {
            Self::first_fault_from(self.items@, 0)
        }
    }

    /// The first fault among the children at index `from` and after.
    pub open spec fn first_fault_from(items: Seq<(String, ExtractOpt)>, from: int) -> Option<Fault>
        decreases items, items.len() - from,
    {
        if from < 0 || from >= items.len() {
            None
        } else {
            match items[from].1.first_fault() {
                Some(fault) => Some(fault.nested(items[from].0@)),
                None => Self::first_fault_from(items, from + 1),
            }
        }
    }

    /// Whether `compiled` is this schema compiled: the same tree, with every selector and
    /// regex replaced by what its text parses to.
    pub open spec fn compiles_to(self, compiled: ExtractOptCompiled) -> bool
        decreases self,
    {
        &&& compiled.target == self.target
        &&& parsed_selector(self.selector@) is Ok
        &&& parsed_selector(self.selector@)->Ok_0 == compiled.selector
        &&& match self.regex {
            Some(pattern) => {
                &&& compiled.regex is Some
                &&& parsed_regex(pattern@) is Ok
                &&& parsed_regex(pattern@)->Ok_0 == compiled.regex.unwrap()
            },
            None => compiled.regex is None,
        }
        &&& compiled.items@.len() == self.items@.len()
        &&& forall|i: int|
            0 <= i < self.items@.len() ==> {
                &&& compiled.items@[i].0 == (#[trigger] self.items@[i]).0
                &&& self.items@[i].1.compiles_to(compiled.items@[i].1)
            }
    }
}

/// Compiles a selector text into a matcher, or says that it is none. The fault is
/// reported for the node itself, with an empty path.
pub fn compile_selector(text: &str) -> (r: Result<scraper::Selector, CompileError>)
    ensures
        r is Ok <==> parsed_selector(text@) is Ok,
        r matches Ok(selector) ==> selector == parsed_selector(text@)->Ok_0,
        r matches Err(error) ==> error.model() == (Fault::InvalidSelector { path: Seq::empty() }),
{
    match parse_selector(text) {
        Ok(selector) => Ok(selector),
        Err(_) => {
            let path: Vec<String> = Vec::new();
            assert(path.deep_view() =~= Seq::<Seq<char>>::empty());
            Err(CompileError::InvalidSelector { path })
        },
    }
}

/// Compiles a pattern text into a matcher, or says that it is none. The fault is
/// reported for the node itself, with an empty path.
pub fn compile_regex(pattern: &str) -> (r: Result<regex::Regex, CompileError>)
    ensures
        r is Ok <==> parsed_regex(pattern@) is Ok,
        r matches Ok(regex) ==> regex == parsed_regex(pattern@)->Ok_0,
        r matches Err(error) ==> error.model() == (Fault::InvalidRegex { path: Seq::empty() }),
{
    match parse_regex(pattern) {
        Ok(regex) => Ok(regex),
        Err(_) => {
            let path: Vec<String> = Vec::new();
            assert(path.deep_view() =~= Seq::<Seq<char>>::empty());
            Err(CompileError::InvalidRegex { path })
        },
    }
}

impl ExtractOpt {
    /// Tells whether the schema is well-formed: whether no node of it holds two children
    /// under one name.
    pub fn is_well_formed(&self) -> (r: bool)
        ensures
            r == self.well_formed(),
        decreases self,
    {
        let mut i: usize = 0;
        while i < self.items.len()
            invariant
                i <= self.items.len(),
                forall|a: int, b: int|
                    0 <= a < b < i ==> self.items@[a].0@ != self.items@[b].0@,
                forall|k: int| 0 <= k < i ==> (#[trigger] self.items@[k]).1.well_formed(),
            decreases self.items.len() - i,
        {
            let mut j: usize = 0;
            while j < i
                invariant
                    j <= i < self.items.len(),
                    forall|a: int| 0 <= a < j ==> self.items@[a].0@ != self.items@[i as int].0@,
                decreases i - j,
            {
                if *self.items[j].0.as_str() == *self.items[i].0.as_str() {
                    proof {
                        let names = self.names();
                        assert(names[j as int] == names[i as int]);
                    }
                    return false;
                }
                j += 1;
            }
            if !self.items[i].1.is_well_formed() {
                return false;
            }
            i += 1;
        }
        proof {
            let names = self.names();
            assert forall|a: int, b: int|
                0 <= a < names.len() && 0 <= b < names.len() && a != b implies names[a]
                != names[b] by {
                if a < b {
                    assert(self.items@[a].0@ != self.items@[b].0@);
                } else {
                    assert(self.items@[b].0@ != self.items@[a].0@);
                }
            }
        }
        true
    }

    /// Compiles the schema: every selector and every regex of the tree is parsed, once.
    ///
    /// The whole tree compiles or nothing does. The error is that of the first fault, in
    /// the order of [`ExtractOpt::first_fault`], with the path that leads to it.
    pub fn compile(self) -> (r: Result<ExtractOptCompiled, CompileError>)
        ensures
            r is Ok <==> self.valid(),
            r matches Ok(compiled) ==> self.compiles_to(compiled),
            r matches Err(error) ==> self.first_fault() == Some(error.model()),
        decreases self,
    {
        let ExtractOpt { target, selector, regex, items } = self;
        let selector = match compile_selector(selector.as_str()) {
            Ok(parsed) => parsed,
            Err(error) => {
                return Err(error);
            },
        };
        let regex = match regex {
            Some(pattern) => match compile_regex(pattern.as_str()) {
                Ok(parsed) => Some(parsed),
                Err(error) => {
                    return Err(error);
                },
            },
            None => None,
        };
        let mut compiled: Vec<(String, ExtractOptCompiled)> = Vec::new();
        let ghost children = items@;
        for entry in iter: items
            invariant
                children == self.items@,
                iter.seq() == children,
                self.node_valid(),
                self.first_fault() == Self::first_fault_from(children, 0),
                compiled@.len() == iter.index(),
                forall|i: int|
                    0 <= i < iter.index() ==> {
                        &&& compiled@[i].0 == (#[trigger] children[i]).0
                        &&& children[i].1.compiles_to(compiled@[i].1)
                        &&& children[i].1.valid()
                    },
                Self::first_fault_from(children, 0) == Self::first_fault_from(
                    children,
                    iter.index(),
                ),
        {
            let (name, child) = entry;
            proof {
                lemma_valid_iff_faultless(child);
            }
            match child.compile() {
                Ok(done) => {
                    compiled.push((name, done));
                },
                Err(error) => {
                    return Err(error.nested(name));
                },
            }
        }
        Ok(ExtractOptCompiled { target, selector, regex, items: compiled })
    }
}

/// A schema is valid exactly when it has no first fault.
pub proof fn lemma_valid_iff_faultless(opt: ExtractOpt)
    ensures
        opt.valid() <==> opt.first_fault() is None,
    decreases opt, 1nat,
{
    lemma_valid_from(opt.items@, 0);
}

/// No fault is found from `from` on exactly when every child from there on is valid.
proof fn lemma_valid_from(items: Seq<(String, ExtractOpt)>, from: int)
    requires
        0 <= from <= items.len(),
    ensures
        ExtractOpt::first_fault_from(items, from) is None <==> forall|i: int|
            from <= i < items.len() ==> (#[trigger] items[i]).1.valid(),
    decreases items, items.len() - from,
{
    if from < items.len() {
        lemma_valid_iff_faultless(items[from].1);
        lemma_valid_from(items, from + 1);
    }
}

/// Where a fault is found from `from` on, it is that of the first child from there on
/// that is not valid, seen from the parent. The index of that child is returned.
proof fn lemma_first_faulty_child(items: Seq<(String, ExtractOpt)>, from: int) -> (at: int)
    requires
        0 <= from <= items.len(),
        ExtractOpt::first_fault_from(items, from) is Some,
    ensures
        from <= at < items.len(),
        items[at].1.first_fault() is Some,
        ExtractOpt::first_fault_from(items, from) == Some(
            items[at].1.first_fault().unwrap().nested(items[at].0@),
        ),
        forall|i: int| from <= i < at ==> (#[trigger] items[i]).1.valid(),
    decreases items.len() - from,
{
    if items[from].1.first_fault() is Some {
        from
    } else {
        lemma_valid_iff_faultless(items[from].1);
        lemma_first_faulty_child(items, from + 1)
    }
}

/// The error that compilation reports is found where it says: the path of the first
/// fault names, child by child, a way from the root to a node of the schema, and that
/// node shows the fault. The way is returned as the indices of the children taken.
pub proof fn lemma_first_fault_is_found(opt: ExtractOpt) -> (route: Seq<int>)
    requires
        opt.first_fault() is Some,
    ensures
        opt.node_at(route) is Some,
        opt.names_along(route) == opt.first_fault().unwrap().path(),
        opt.first_fault().unwrap().shown_by(opt.node_at(route).unwrap()),
    decreases opt,
{
    if parsed_selector(opt.selector@) is Err {
        Seq::empty()
    } else if opt.regex is Some && parsed_regex(opt.regex.unwrap()@) is Err {
        Seq::empty()
    } else {
        let at = lemma_first_faulty_child(opt.items@, 0);
        let child = opt.items@[at].1;
        let below = lemma_first_fault_is_found(child);
        let route = seq![at] + below;
        assert(route.drop_first() =~= below);
        assert(route[0] == at);
        route
    }
}

/// Compilation keeps the names: the compiled form of a well-formed schema is well-formed,
/// with the same names at every node.
pub proof fn lemma_compiled_keeps_names(opt: ExtractOpt, compiled: ExtractOptCompiled)
    requires
        opt.compiles_to(compiled),
    ensures
        compiled.names() == opt.names(),
        opt.well_formed() ==> compiled.well_formed(),
    decreases opt,
{
    assert(compiled.names() =~= opt.names()) by {
        assert forall|i: int| 0 <= i < opt.items@.len() implies compiled.names()[i] == opt.names()[i] by {
            assert(compiled.items@[i].0 == (#[trigger] opt.items@[i]).0);
        }
    }
    if opt.well_formed() {
        assert forall|i: int| 0 <= i < compiled.items@.len() implies (#[trigger] compiled.items@[i]).1.well_formed() by {
            assert(opt.items@[i].1.compiles_to(compiled.items@[i].1));
            lemma_compiled_keeps_names(opt.items@[i].1, compiled.items@[i].1);
        }
    }
}

/// A schema with a compiled form is valid: no compiled schema stands for a tree with a
/// fault in it.
pub proof fn lemma_compiled_is_valid(opt: ExtractOpt, compiled: ExtractOptCompiled)
    requires
        opt.compiles_to(compiled),
    ensures
        opt.valid(),
    decreases opt,
{
    assert forall|i: int| 0 <= i < opt.items@.len() implies (#[trigger] opt.items@[i]).1.valid() by {
        lemma_compiled_is_valid(opt.items@[i].1, compiled.items@[i].1);
    }
}

/// Compilation is all or nothing: a node whose selector or regex does not compile,
/// however deep in the tree (`route` holds the indices of the children that lead to it),
/// makes the whole schema invalid. Such a schema has a first fault and no compiled form,
/// so that [`ExtractOpt::compile`] returns an error for it and no part of it compiled.
pub proof fn lemma_fault_anywhere_fails_whole(opt: ExtractOpt, route: Seq<int>)
    requires
        opt.node_at(route) is Some,
        !opt.node_at(route).unwrap().node_valid(),
    ensures
        !opt.valid(),
        opt.first_fault() is Some,
        forall|compiled: ExtractOptCompiled| !opt.compiles_to(compiled),
    decreases route.len(),
{
    if route.len() > 0 {
        lemma_fault_anywhere_fails_whole(opt.items@[route[0]].1, route.drop_first());
    }
    lemma_valid_iff_faultless(opt);
    assert forall|compiled: ExtractOptCompiled| !opt.compiles_to(compiled) by {
        if opt.compiles_to(compiled) {
            lemma_compiled_is_valid(opt, compiled);
        }
    }
}

} // verus!
