//! Named workflows, and how they resolve against the global run configuration.
use crate::runspec::{clone_texts, texts, OutputFormat, Runspec, RunspecV};
use vstd::prelude::*;

verus! {

/// A workflow as written in the configuration: each setting left out falls back to the
/// global run configuration.
#[derive(Debug)]
pub struct Workflow {
    /// Override of the workflow name.
    pub name: Option<String>,
    /// Features to pass to cargo.
    pub features: Option<Vec<String>>,
    /// Report format.
    pub format: Option<OutputFormat>,
    /// Output directory.
    pub output: Option<String>,
    /// Run doc tests or not.
    pub doc: Option<bool>,
    /// Run unit tests or not.
    pub unit: Option<bool>,
    /// Integration tests to run.
    pub integration: Option<Vec<String>>,
}

pub ghost struct WorkflowV {
    pub name: Option<Seq<char>>,
    pub features: Option<Seq<Seq<char>>>,
    pub format: Option<OutputFormat>,
    pub output: Option<Seq<char>>,
    pub doc: Option<bool>,
    pub unit: Option<bool>,
    pub integration: Option<Seq<Seq<char>>>,
}

pub open spec fn opt_text(s: Option<String>) -> Option<Seq<char>> {
    match s {
        Some(t) => Some(t@),
        None => None,
    }
}

pub open spec fn opt_texts(v: Option<Vec<String>>) -> Option<Seq<Seq<char>>> {
    match v {
        Some(t) => Some(texts(t@)),
        None => None,
    }
}

impl View for Workflow {
    type V = WorkflowV;

    open spec fn view(&self) -> WorkflowV {
        WorkflowV {
            name: opt_text(self.name),
            features: opt_texts(self.features),
            format: self.format,
            output: opt_text(self.output),
            doc: self.doc,
            unit: self.unit,
            integration: opt_texts(self.integration),
        }
    }
}

pub open spec fn empty_workflow() -> WorkflowV {
    WorkflowV {
        name: None,
        features: None,
        format: None,
        output: None,
        doc: None,
        unit: None,
        integration: None,
    }
}

impl Default for Workflow {
    fn default() -> (r: Workflow)
        ensures
            r@ == empty_workflow(),
    {
        Workflow {
            name: None,
            features: None,
            format: None,
            output: None,
            doc: None,
            unit: None,
            integration: None,
        }
    }
}

pub open spec fn or_else<T>(o: Option<T>, d: T) -> T {
    match o {
        Some(v) => v,
        None => d,
    }
}

/// The run configuration of workflow `w` under the name `name`, with `right` giving
/// every setting that `w` leaves out.
pub open spec fn merged(w: WorkflowV, name: Seq<char>, right: RunspecV) -> RunspecV {
    RunspecV {
        name: or_else(w.name, name),
        features: or_else(w.features, right.features),
        format: or_else(w.format, right.format),
        output: or_else(w.output, right.output),
        doc: or_else(w.doc, right.doc),
        lib: or_else(w.unit, right.lib),
        integration: or_else(w.integration, right.integration),
    }
}

fn clone_opt_text(s: &Option<String>) -> (r: Option<String>)
    ensures
        opt_text(r) == opt_text(*s),
{
    match s {
        Some(t) => Some(t.clone()),
        None => None,
    }
}

fn clone_opt_texts(v: &Option<Vec<String>>) -> (r: Option<Vec<String>>)
    ensures
        opt_texts(r) == opt_texts(*v),
{
    match v {
        Some(t) => Some(clone_texts(t)),
        None => None,
    }
}

impl Workflow {
    /// A copy of this workflow.
    pub fn duplicate(&self) -> (r: Workflow)
        ensures
            r@ == self@,
    {
        Workflow {
            name: clone_opt_text(&self.name),
            features: clone_opt_texts(&self.features),
            format: self.format,
            output: clone_opt_text(&self.output),
            doc: self.doc,
            unit: self.unit,
            integration: clone_opt_texts(&self.integration),
        }
    }

    /// Merges this workflow, named `name`, with the default run configuration `right`.
    pub fn merge(self, name: String, right: &Runspec) -> (r: Runspec)
        ensures
            r@ == merged(self@, name@, right@),
    {
        Runspec {
            name: match self.name {
                Some(n) => n,
                None => name,
            },
            features: match self.features {
                Some(f) => f,
                None => clone_texts(&right.features),
            },
            format: match self.format {
                Some(f) => f,
                None => right.format,
            },
            output: match self.output {
                Some(o) => o,
                None => right.output.clone(),
            },
            doc: match self.doc {
                Some(d) => d,
                None => right.doc,
            },
            lib: match self.unit {
                Some(u) => u,
                None => right.lib,
            },
            integration: match self.integration {
                Some(i) => i,
                None => clone_texts(&right.integration),
            },
        }
    }
}

/// The whole configuration: the global run configuration and the named workflows, in
/// the order they were read.
#[derive(Debug)]
pub struct Configuration {
    pub global: Runspec,
    pub workflow: Vec<(String, Workflow)>,
}

pub open spec fn workflows_view(ws: Seq<(String, Workflow)>) -> Seq<(Seq<char>, WorkflowV)> {
    ws.map_values(|p: (String, Workflow)| (p.0@, p.1@))
}

/// The first workflow named `name`.
pub open spec fn workflow_named(ws: Seq<(Seq<char>, WorkflowV)>, name: Seq<char>) -> Option<
    WorkflowV,
>
    decreases ws.len(),
{
    if ws.len() == 0 {
        None
    } else if ws[0].0 == name {
        Some(ws[0].1)
    } else {
        workflow_named(ws.drop_first(), name)
    }
}

impl Default for Configuration {
    fn default() -> (r: Configuration)
        ensures
            r.global@ == crate::runspec::default_runspec(),
            r.workflow@.len() == 0,
            r.well_formed(),
    {
        Configuration { global: Runspec::default(), workflow: Vec::new() }
    }
}

impl Configuration {
    /// Workflow names are unique, as the keys of a table are.
    pub open spec fn well_formed(&self) -> bool {
        forall|i: int, j: int|
            0 <= i < j < self.workflow@.len() ==> #[trigger] self.workflow@[i].0@
                != #[trigger] self.workflow@[j].0@
    }

    /// Whether the workflow names are unique.
    pub fn is_well_formed(&self) -> (r: bool)
        ensures
            r == self.well_formed(),
    {
        let n = self.workflow.len();
        let mut i: usize = 0;
        while i < n
            invariant
                n == self.workflow@.len(),
                i <= n,
                forall|a: int, b: int|
                    0 <= a < i && a < b < n ==> #[trigger] self.workflow@[a].0@
                        != #[trigger] self.workflow@[b].0@,
            decreases n - i,
        {
            let mut j: usize = i + 1;
            while j < n
                invariant
                    n == self.workflow@.len(),
                    i < n,
                    i + 1 <= j <= n,
                    forall|a: int, b: int|
                        0 <= a < i && a < b < n ==> #[trigger] self.workflow@[a].0@
                            != #[trigger] self.workflow@[b].0@,
                    forall|b: int| i < b < j ==> self.workflow@[i as int].0@ != #[trigger] self.workflow@[b].0@,
                decreases n - j,
            {
                if self.workflow[i].0 == self.workflow[j].0 {
                    return false;
                }
                j = j + 1;
            }
            i = i + 1;
        }
        true
    }

    pub open spec fn runspec_named(&self, name: Seq<char>) -> Option<RunspecV> {
        match workflow_named(workflows_view(self.workflow@), name) {
            Some(w) => Some(merged(w, name, self.global@)),
            None => None,
        }
    }

    pub open spec fn default_runspec(&self) -> RunspecV {
        or_else(self.runspec_named("default"@), merged(empty_workflow(), "default"@, self.global@))
    }

    /// Run configurations of every workflow; the default one where there is none.
    pub fn get_runspecs(&self) -> (r: Vec<Runspec>)
        requires
            self.well_formed(),
        ensures
            self.workflow@.len() == 0 ==> r@.len() == 1 && r@[0]@ == self.default_runspec(),
            self.workflow@.len() > 0 ==> r@.len() == self.workflow@.len() && forall|i: int|
                0 <= i < r@.len() ==> #[trigger] r@[i]@ == merged(
                    self.workflow@[i].1@,
                    self.workflow@[i].0@,
                    self.global@,
                ),
    {
        if self.workflow.len() == 0 {
            return vec![self.get_default()];
        }
        let mut r: Vec<Runspec> = Vec::new();
        let mut i: usize = 0;
        while i < self.workflow.len()
            invariant
                i <= self.workflow@.len(),
                r@.len() == i,
                forall|j: int|
                    0 <= j < i ==> #[trigger] r@[j]@ == merged(
                        self.workflow@[j].1@,
                        self.workflow@[j].0@,
                        self.global@,
                    ),
            decreases self.workflow@.len() - i,
        {
            let (name, w) = &self.workflow[i];
            r.push(w.duplicate().merge(name.clone(), &self.global));
            i = i + 1;
        }
        r
    }

    /// The run configuration of the workflow named `name`, if there is one.
    pub fn get_runspec(&self, name: &String) -> (r: Option<Runspec>)
        requires
            self.well_formed(),
        ensures
            match r {
                Some(s) => self.runspec_named(name@) == Some(s@),
                None => self.runspec_named(name@) is None,
            },
    {
        let ghost ws = workflows_view(self.workflow@);
        let mut i: usize = 0;
        assert(ws.subrange(0, ws.len() as int) =~= ws);
        while i < self.workflow.len()
            invariant
                ws == workflows_view(self.workflow@),
                i <= ws.len(),
                workflow_named(ws, name@) == workflow_named(ws.subrange(i as int, ws.len() as int), name@),
            decreases ws.len() - i,
        {
            let ghost rest = ws.subrange(i as int, ws.len() as int);
            assert(rest[0] == ws[i as int]);
            if self.workflow[i].0 == *name {
                return Some(self.workflow[i].1.duplicate().merge(name.clone(), &self.global));
            }
            assert(rest.drop_first() =~= ws.subrange(i + 1, ws.len() as int));
            i = i + 1;
        }
        assert(ws.subrange(i as int, ws.len() as int).len() == 0);
        None
    }

    /// The run configuration named `default`: its workflow where there is one, else
    /// the global run configuration under that name.
    pub fn get_default(&self) -> (r: Runspec)
        requires
            self.well_formed(),
        ensures
            r@ == self.default_runspec(),
    {
        let name = "default".to_owned();
        match self.get_runspec(&name) {
            Some(s) => s,
            None => Workflow::default().merge(name, &self.global),
        }
    }
}

} // verus!
