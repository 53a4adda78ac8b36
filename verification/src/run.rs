//! The course of an ingestion run: which parts take part, and the order of their
//! steps, told one step at a time to whoever performs them.
use vstd::prelude::*;
use crate::ingest::{PreparationResult, id_in_namespace, item_views};
use crate::issues::{IssueView, ProjectError, ProjectIssue, ProjectIssueLevel, ProjectIssueType};
use crate::resloc::ResourceLocation;
use crate::text::{concat3, push_str, str_eq};

verus! {

// ----- the parts that take part -----

/// Whether the part `name` takes part: all do unless `enabled` lists some.
pub open spec fn spec_is_enabled(enabled: Option<Seq<Seq<char>>>, name: Seq<char>) -> bool {
    match enabled {
        None => true,
        Some(e) => e.contains(name),
    }
}

/// The indices of the parts that take part, in order.
pub open spec fn enabled_modules(names: Seq<Seq<char>>, enabled: Option<Seq<Seq<char>>>) -> Seq<usize>
    decreases names.len(),
{
    if names.len() == 0 {
        Seq::empty()
    } else {
        let rest = enabled_modules(names.drop_last(), enabled);
        if spec_is_enabled(enabled, names.last()) {
            rest.push((names.len() - 1) as usize)
        } else {
            rest
        }
    }
}

fn contains_name(v: &Vec<String>, name: &str) -> (r: bool)
    ensures
        r == item_views(v@).contains(name@),
{
    let mut i: usize = 0;
    while i < v.len()
        invariant
            i <= v@.len(),
            forall|j: int| 0 <= j < i ==> (#[trigger] v@[j])@ != name@,
        decreases v@.len() - i,
    {
        if str_eq(v[i].as_str(), name) {
            assert(item_views(v@)[i as int] == name@);
            return true;
        }
        i = i + 1;
    }
    assert(!item_views(v@).contains(name@)) by {
        if item_views(v@).contains(name@) {
            let w = choose|w: int| 0 <= w < v@.len() && item_views(v@)[w] == name@;
            assert(v@[w]@ == name@);
        }
    }
    false
}

pub open spec fn opt_names(o: Option<Vec<String>>) -> Option<Seq<Seq<char>>> {
    match o {
        Some(v) => Some(item_views(v@)),
        None => None,
    }
}

/// The indices of the parts named `names` that take part.
pub fn active_modules(names: &Vec<String>, enabled: &Option<Vec<String>>) -> (r: Vec<usize>)
    ensures
        r@ == enabled_modules(item_views(names@), opt_names(*enabled)),
{
    let mut r: Vec<usize> = Vec::new();
    let mut i: usize = 0;
    assert(item_views(names@).subrange(0, 0) =~= Seq::<Seq<char>>::empty());
    while i < names.len()
        invariant
            i <= names@.len(),
            r@ == enabled_modules(item_views(names@).subrange(0, i as int), opt_names(*enabled)),
        decreases names@.len() - i,
    {
        let ghost nxt = item_views(names@).subrange(0, i + 1);
        assert(nxt.drop_last() =~= item_views(names@).subrange(0, i as int));
        assert(nxt.last() == names@[i as int]@);
        let on = match enabled {
            None => true,
            Some(e) => contains_name(e, names[i].as_str()),
        };
        if on {
            r.push(i);
        }
        i = i + 1;
    }
    assert(item_views(names@).subrange(0, names@.len() as int) =~= item_views(names@));
    r
}

/// The found items that belong to the project `modid`, in order.
pub open spec fn spec_candidates(items: Seq<Seq<char>>, modid: Seq<char>) -> Seq<Seq<char>>
    decreases items.len(),
{
    if items.len() == 0 {
        Seq::empty()
    } else {
        let rest = spec_candidates(items.drop_last(), modid);
        if id_in_namespace(items.last(), modid) {
            rest.push(items.last())
        } else {
            rest
        }
    }
}

/// The items of `prep` to register: those that are locations in namespace `modid`.
pub fn candidate_items(prep: &PreparationResult, modid: &str) -> (r: Vec<String>)
    ensures
        item_views(r@) == spec_candidates(prep@, modid@),
{
    let items = prep.items();
    let mut r: Vec<String> = Vec::new();
    let mut i: usize = 0;
    assert(prep@.subrange(0, 0) =~= Seq::<Seq<char>>::empty());
    assert(item_views(r@) =~= Seq::<Seq<char>>::empty());
    while i < items.len()
        invariant
            i <= items@.len(),
            item_views(items@) == prep@,
            item_views(r@) == spec_candidates(prep@.subrange(0, i as int), modid@),
        decreases items@.len() - i,
    {
        let ghost nxt = prep@.subrange(0, i + 1);
        assert(nxt.drop_last() =~= prep@.subrange(0, i as int));
        assert(nxt.last() == items@[i as int]@);
        let keep = match ResourceLocation::parse(items[i].as_str()) {
            Some(l) => str_eq(l.namespace.as_str(), modid),
            None => false,
        };
        if keep {
            let ghost before = item_views(r@);
            r.push(items[i].clone());
            assert(item_views(r@) =~= before.push(items@[i as int]@));
        }
        i = i + 1;
    }
    assert(prep@.subrange(0, prep@.len() as int) =~= prep@);
    r
}

// ----- the steps of a run -----

/// Where a run is.
#[derive(Debug, Clone, Copy, PartialEq, Eq, Structural)]
pub enum IngestPhase {
    Delete,
    Prepare,
    Register,
    Execute,
    Finish,
    Done,
    Failed,
}

/// What to do next.
#[derive(Debug)]
pub enum IngestAction {
    /// Delete what an earlier run stored for the project.
    DeleteExisting,
    /// Let the part with this index prepare.
    Prepare(usize),
    /// Register this item as the project's.
    RegisterItem(String),
    /// Let the part with this index store what it prepared.
    Execute(usize),
    /// Let the part with this index finish.
    Finish(usize),
    /// The run succeeded.
    Complete,
    /// The run failed: the issue to record (if any) and the error to report.
    Fail { issue: Option<ProjectIssue>, error: String },
}

/// How the last action went.
pub enum IngestEvent {
    Done,
    Prepared(PreparationResult),
    Failed(String),
}

pub enum ActionView {
    DeleteExisting,
    Prepare(usize),
    RegisterItem(Seq<char>),
    Execute(usize),
    Finish(usize),
    Complete,
    Fail(Option<IssueView>, Seq<char>),
}

impl View for IngestAction {
    type V = ActionView;

    open spec fn view(&self) -> ActionView {
        match self {
            IngestAction::DeleteExisting => ActionView::DeleteExisting,
            IngestAction::Prepare(i) => ActionView::Prepare(*i),
            IngestAction::RegisterItem(s) => ActionView::RegisterItem(s@),
            IngestAction::Execute(i) => ActionView::Execute(*i),
            IngestAction::Finish(i) => ActionView::Finish(*i),
            IngestAction::Complete => ActionView::Complete,
            IngestAction::Fail { issue, error } => ActionView::Fail(
                match issue {
                    Some(i) => Some(i@),
                    None => None,
                },
                error@,
            ),
        }
    }
}

/// An ingestion run over the parts `names`, of which those with the indices `active`
/// take part, for the project `modid`.
pub struct IngestRun {
    pub names: Vec<String>,
    pub active: Vec<usize>,
    pub modid: String,
    pub phase: IngestPhase,
    pub pos: usize,
    pub prep: PreparationResult,
    pub candidates: Vec<String>,
}

/// The place a run reaches when it goes to step `k` of `phase`, passing over phases
/// with nothing to do (`n` parts take part; `c` items are to be registered).
pub open spec fn entry_point(phase: IngestPhase, k: int, n: int, c: int) -> (IngestPhase, int) {
    match phase {
        IngestPhase::Prepare => if k < n {
            (IngestPhase::Prepare, k)
        } else if c > 0 {
            (IngestPhase::Register, 0)
        } else if n > 0 {
            (IngestPhase::Execute, 0)
        } else {
            (IngestPhase::Done, 0)
        },
        IngestPhase::Register => if k < c {
            (IngestPhase::Register, k)
        } else if n > 0 {
            (IngestPhase::Execute, 0)
        } else {
            (IngestPhase::Done, 0)
        },
        IngestPhase::Execute => if k < n {
            (IngestPhase::Execute, k)
        } else if n > 0 {
            (IngestPhase::Finish, 0)
        } else {
            (IngestPhase::Done, 0)
        },
        IngestPhase::Finish => if k < n {
            (IngestPhase::Finish, k)
        } else {
            (IngestPhase::Done, 0)
        },
        _ => (phase, k),
    }
}

/// The place after a step at `(phase, k)` succeeds, before passing over empty phases.
pub open spec fn following(phase: IngestPhase, k: int) -> (IngestPhase, int) {
    match phase {
        IngestPhase::Delete => (IngestPhase::Prepare, 0),
        _ => (phase, k + 1),
    }
}

/// The order of the phases.
pub open spec fn phase_rank(p: IngestPhase) -> int {
    match p {
        IngestPhase::Delete => 0,
        IngestPhase::Prepare => 1,
        IngestPhase::Register => 2,
        IngestPhase::Execute => 3,
        IngestPhase::Finish => 4,
        IngestPhase::Done => 5,
        IngestPhase::Failed => 6,
    }
}

/// What phase `name` is called in the issue of a failure.
pub open spec fn phase_label(p: IngestPhase) -> Seq<char> {
    match p {
        IngestPhase::Prepare => "PREPARE phase"@,
        IngestPhase::Execute => "EXECUTE phase"@,
        _ => "FINISH phase."@,
    }
}

/// What phase is called in the reported error.
pub open spec fn phase_verb(p: IngestPhase) -> Seq<char> {
    match p {
        IngestPhase::Prepare => "prepare"@,
        IngestPhase::Execute => "execute"@,
        _ => "finish"@,
    }
}

/// The issue recorded when the part `name` fails in `phase`.
pub open spec fn phase_failure_issue(name: Seq<char>, phase: IngestPhase) -> IssueView {
    IssueView {
        level: ProjectIssueLevel::Error,
        kind: ProjectIssueType::Ingestor,
        subject: ProjectError::Unknown,
        details: Some("Sub-ingestor ["@ + name + "] failed "@ + phase_label(phase)),
        file: None,
    }
}

impl IngestRun {
    /// The run is consistent: the parts that take part exist, the place is within
    /// its phase, and from registration on the items to register are those found.
    pub open spec fn wf(&self) -> bool {
        &&& forall|i: int| 0 <= i < self.active@.len() ==> self.active@[i] < self.names@.len()
        &&& self.prep.wf()
        &&& (self.phase == IngestPhase::Prepare || self.phase == IngestPhase::Execute || self.phase
            == IngestPhase::Finish) ==> self.pos < self.active@.len()
        &&& self.phase == IngestPhase::Register ==> self.pos < self.candidates@.len()
        &&& (self.phase == IngestPhase::Register || self.phase == IngestPhase::Execute || self.phase
            == IngestPhase::Finish || self.phase == IngestPhase::Done) ==> item_views(self.candidates@)
            == spec_candidates(self.prep@, self.modid@)
    }

    /// The action to take at the place `(phase, k)`.
    pub open spec fn action_at(&self, phase: IngestPhase, k: int) -> ActionView {
        match phase {
            IngestPhase::Delete => ActionView::DeleteExisting,
            IngestPhase::Prepare => ActionView::Prepare(self.active@[k]),
            IngestPhase::Register => ActionView::RegisterItem(self.candidates@[k]@),
            IngestPhase::Execute => ActionView::Execute(self.active@[k]),
            IngestPhase::Finish => ActionView::Finish(self.active@[k]),
            _ => ActionView::Complete,
        }
    }

    /// The name of the part the step at the current place is for.
    pub open spec fn current_name(&self) -> Seq<char> {
        self.names@[self.active@[self.pos as int] as int]@
    }

    /// Whether `e` can answer the current action: a preparation answers a part's
    /// preparing, a plain success any other step; a failure any step.
    pub open spec fn expects(&self, e: IngestEvent) -> bool {
        &&& self.phase != IngestPhase::Done && self.phase != IngestPhase::Failed
        &&& (e is Prepared <==> self.phase == IngestPhase::Prepare) || e is Failed
    }

    fn enter(&mut self, phase: IngestPhase, k: usize) -> (r: IngestAction)
        requires
            old(self).prep.wf(),
            forall|i: int| 0 <= i < old(self).active@.len() ==> old(self).active@[i] < old(self).names@.len(),
            phase == IngestPhase::Prepare || phase == IngestPhase::Register || phase == IngestPhase::Execute
                || phase == IngestPhase::Finish,
            phase != IngestPhase::Prepare ==> item_views(old(self).candidates@) == spec_candidates(
                old(self).prep@,
                old(self).modid@,
            ),
        ensures
            final(self).wf(),
            final(self).names == old(self).names,
            final(self).active == old(self).active,
            final(self).modid == old(self).modid,
            final(self).prep == old(self).prep,
            item_views(final(self).candidates@) == if phase == IngestPhase::Prepare && k >= old(self).active@.len() {
                spec_candidates(old(self).prep@, old(self).modid@)
            } else {
                item_views(old(self).candidates@)
            },
            (final(self).phase, final(self).pos as int) == entry_point(
                phase,
                k as int,
                old(self).active@.len() as int,
                final(self).candidates@.len() as int,
            ),
            r@ == final(self).action_at(final(self).phase, final(self).pos as int),
    {
        let n = self.active.len();
        let mut ph = phase;
        let mut at = k;
        if ph == IngestPhase::Prepare {
            if at < n {
                self.phase = IngestPhase::Prepare;
                self.pos = at;
                return IngestAction::Prepare(self.active[at]);
            }
            self.candidates = candidate_items(&self.prep, self.modid.as_str());
            ph = IngestPhase::Register;
            at = 0;
        }
        if ph == IngestPhase::Register {
            if at < self.candidates.len() {
                self.phase = IngestPhase::Register;
                self.pos = at;
                return IngestAction::RegisterItem(self.candidates[at].clone());
            }
            ph = IngestPhase::Execute;
            at = 0;
        }
        if ph == IngestPhase::Execute {
            if at < n {
                self.phase = IngestPhase::Execute;
                self.pos = at;
                return IngestAction::Execute(self.active[at]);
            }
            ph = IngestPhase::Finish;
            at = 0;
        }
        if at < n {
            self.phase = IngestPhase::Finish;
            self.pos = at;
            return IngestAction::Finish(self.active[at]);
        }
        self.phase = IngestPhase::Done;
        self.pos = 0;
        IngestAction::Complete
    }

    /// Starts a run over the parts `names` (those `enabled` lists, or all) for the
    /// project `modid`; with `delete_existing` it first deletes what was stored before.
    /// Gives the run and its first action.
    pub fn start(names: Vec<String>, enabled: &Option<Vec<String>>, modid: String, delete_existing: bool) -> (r: (
        IngestRun,
        IngestAction,
    ))
        ensures
            r.0.wf(),
            r.0.names == names,
            r.0.active@ == enabled_modules(item_views(names@), opt_names(*enabled)),
            r.0.modid == modid,
            r.0.prep@.len() == 0,
            delete_existing ==> r.0.phase == IngestPhase::Delete && r.1@ == ActionView::DeleteExisting,
            !delete_existing ==> (r.0.phase, r.0.pos as int) == entry_point(
                IngestPhase::Prepare,
                0,
                r.0.active@.len() as int,
                r.0.candidates@.len() as int,
            ) && r.1@ == r.0.action_at(r.0.phase, r.0.pos as int),
    {
        let _len = names.len();
        let active = active_modules(&names, enabled);
        proof {
            lemma_enabled_modules_bounds(item_views(names@), opt_names(*enabled));
        }
        let mut run = IngestRun {
            names,
            active,
            modid,
            phase: IngestPhase::Delete,
            pos: 0,
            prep: PreparationResult::new(),
            candidates: Vec::new(),
        };
        if delete_existing {
            return (run, IngestAction::DeleteExisting);
        }
        let a = run.enter(IngestPhase::Prepare, 0);
        (run, a)
    }

    /// Takes the outcome of the last action and gives the next one. A failed step ends
    /// the run; a part that fails records an issue naming it and its phase.
    pub fn step(&mut self, e: IngestEvent) -> (r: IngestAction)
        requires
            old(self).wf(),
            old(self).expects(e),
        ensures
            final(self).wf(),
            final(self).names == old(self).names,
            final(self).active == old(self).active,
            final(self).modid == old(self).modid,
            match e {
                IngestEvent::Failed(msg) => final(self).phase == IngestPhase::Failed && r@ == match old(self).phase {
                    IngestPhase::Prepare | IngestPhase::Execute | IngestPhase::Finish => ActionView::Fail(
                        Some(phase_failure_issue(old(self).current_name(), old(self).phase)),
                        "failed to "@ + phase_verb(old(self).phase) + " sub-ingestor "@ + old(self).current_name() + ": "@ + msg@,
                    ),
                    _ => ActionView::Fail(None, msg@),
                },
                IngestEvent::Prepared(p) => (forall|x: Seq<char>| #[trigger] final(self).prep@.contains(x)
                    <==> (old(self).prep@.contains(x) || p@.contains(x))) && (final(self).phase, final(self).pos as int) == entry_point(
                    IngestPhase::Prepare,
                    old(self).pos + 1,
                    old(self).active@.len() as int,
                    final(self).candidates@.len() as int,
                ) && r@ == final(self).action_at(final(self).phase, final(self).pos as int),
                IngestEvent::Done => final(self).prep == old(self).prep && (final(self).phase, final(self).pos as int) == entry_point(
                    following(old(self).phase, old(self).pos as int).0,
                    following(old(self).phase, old(self).pos as int).1,
                    old(self).active@.len() as int,
                    final(self).candidates@.len() as int,
                ) && r@ == final(self).action_at(final(self).phase, final(self).pos as int),
            },
            phase_rank(final(self).phase) > phase_rank(old(self).phase) || (final(self).phase == old(self).phase && final(self).pos > old(self).pos),
    {
        match e {
            IngestEvent::Failed(msg) => {
                let ph = self.phase;
                let ghost before = *self;
                self.phase = IngestPhase::Failed;
                if ph == IngestPhase::Prepare || ph == IngestPhase::Execute || ph == IngestPhase::Finish {
                    let name = self.names[self.active[self.pos]].as_str();
                    let (label, verb) = if ph == IngestPhase::Prepare {
                        ("PREPARE phase", "prepare")
                    } else if ph == IngestPhase::Execute {
                        ("EXECUTE phase", "execute")
                    } else {
                        ("FINISH phase.", "finish")
                    };
                    let mut details = concat3("Sub-ingestor [", name, "] failed ");
                    push_str(&mut details, label);
                    let issue = ProjectIssue {
                        level: ProjectIssueLevel::Error,
                        kind: ProjectIssueType::Ingestor,
                        subject: ProjectError::Unknown,
                        details: Some(details),
                        file: None,
                    };
                    let mut error = concat3("failed to ", verb, " sub-ingestor ");
                    push_str(&mut error, name);
                    push_str(&mut error, ": ");
                    push_str(&mut error, msg.as_str());
                    IngestAction::Fail { issue: Some(issue), error }
                } else {
                    IngestAction::Fail { issue: None, error: msg }
                }
            },
            IngestEvent::Prepared(p) => {
                self.prep.merge(p);
                let _n = self.active.len();
                let next = self.pos + 1;
                self.enter(IngestPhase::Prepare, next)
            },
            IngestEvent::Done => {
                if self.phase == IngestPhase::Delete {
                    self.enter(IngestPhase::Prepare, 0)
                } else {
                    let ph = self.phase;
                    let _n = self.active.len();
                    let _c = self.candidates.len();
                    let next = self.pos + 1;
                    self.enter(ph, next)
                }
            },
        }
    }
}

proof fn lemma_enabled_modules_bounds(names: Seq<Seq<char>>, enabled: Option<Seq<Seq<char>>>)
    requires
        names.len() <= usize::MAX,
    ensures
        forall|i: int| 0 <= i < enabled_modules(names, enabled).len() ==> #[trigger] enabled_modules(
            names,
            enabled,
        )[i] < names.len(),
    decreases names.len(),
{
    if names.len() > 0 {
        lemma_enabled_modules_bounds(names.drop_last(), enabled);
        let rest = enabled_modules(names.drop_last(), enabled);
        let last = (names.len() - 1) as usize;
        assert(last as int == names.len() - 1);
        assert forall|i: int| 0 <= i < enabled_modules(names, enabled).len() implies #[trigger] enabled_modules(
            names,
            enabled,
        )[i] < names.len() by {
            if i < rest.len() {
                assert(enabled_modules(names, enabled)[i] == rest[i]);
            }
        }
    }
}


// ----- setting up an ingestor -----

/// The parts every ingestion has, in the order they run.
pub open spec fn standard_modules() -> Seq<Seq<char>> {
    seq!["Content paths"@, "Tags"@, "Recipes"@, "Metadata"@]
}

/// The settings of an ingestion, gathered one at a time; `F` is the project's layout
/// and `S` where its issues go.
pub struct IngestorBuilder<F, S> {
    pub project_id: Option<String>,
    pub modid: Option<String>,
    pub version_id: Option<i64>,
    pub format: Option<F>,
    pub issues: Option<S>,
    pub enabled: Option<Vec<String>>,
    pub delete_existing: bool,
    pub custom: Vec<String>,
}

/// The settings of an ingestion, complete.
pub struct Ingestor<F, S> {
    pub project_id: String,
    pub modid: String,
    pub version_id: i64,
    pub format: F,
    pub issues: S,
    pub enabled: Option<Vec<String>>,
    pub delete_existing: bool,
    pub modules: Vec<String>,
}

impl<F, S> IngestorBuilder<F, S> {
    pub fn new() -> (r: IngestorBuilder<F, S>)
        ensures
            r.project_id is None && r.modid is None && r.version_id is None && r.format is None
                && r.issues is None && r.enabled is None && !r.delete_existing && r.custom@.len() == 0,
    {
        IngestorBuilder {
            project_id: None,
            modid: None,
            version_id: None,
            format: None,
            issues: None,
            enabled: None,
            delete_existing: false,
            custom: Vec::new(),
        }
    }

    pub fn project_id(self, id: String) -> (r: IngestorBuilder<F, S>)
        ensures
            r == (IngestorBuilder { project_id: Some(id), ..self }),
    {
        IngestorBuilder { project_id: Some(id), ..self }
    }

    pub fn modid(self, id: String) -> (r: IngestorBuilder<F, S>)
        ensures
            r == (IngestorBuilder { modid: Some(id), ..self }),
    {
        IngestorBuilder { modid: Some(id), ..self }
    }

    pub fn version_id(self, id: i64) -> (r: IngestorBuilder<F, S>)
        ensures
            r == (IngestorBuilder { version_id: Some(id), ..self }),
    {
        IngestorBuilder { version_id: Some(id), ..self }
    }

    pub fn format(self, format: F) -> (r: IngestorBuilder<F, S>)
        ensures
            r == (IngestorBuilder { format: Some(format), ..self }),
    {
        IngestorBuilder { format: Some(format), ..self }
    }

    pub fn issues(self, sink: S) -> (r: IngestorBuilder<F, S>)
        ensures
            r == (IngestorBuilder { issues: Some(sink), ..self }),
    {
        IngestorBuilder { issues: Some(sink), ..self }
    }

    /// Only the parts named run.
    pub fn enabled_modules(self, modules: Vec<String>) -> (r: IngestorBuilder<F, S>)
        ensures
            r == (IngestorBuilder { enabled: Some(modules), ..self }),
    {
        IngestorBuilder { enabled: Some(modules), ..self }
    }

    pub fn delete_existing(self, v: bool) -> (r: IngestorBuilder<F, S>)
        ensures
            r == (IngestorBuilder { delete_existing: v, ..self }),
    {
        IngestorBuilder { delete_existing: v, ..self }
    }

    /// Adds a part of the caller's own, run after the standard ones.
    pub fn with(self, name: String) -> (r: IngestorBuilder<F, S>)
        ensures
            r.custom@ == self.custom@.push(name),
            r.project_id == self.project_id && r.modid == self.modid && r.version_id == self.version_id
                && r.format == self.format && r.issues == self.issues && r.enabled == self.enabled
                && r.delete_existing == self.delete_existing,
    {
        let mut b = self;
        b.custom.push(name);
        b
    }

    /// The settings, when all that is needed was given; else what is missing (the first
    /// of project id, mod id, version id, layout and issue sink).
    pub fn build(self) -> (r: Result<Ingestor<F, S>, String>)
        ensures
            match r {
                Ok(i) => self.project_id == Some(i.project_id) && self.modid == Some(i.modid)
                    && self.version_id == Some(i.version_id) && self.format == Some(i.format)
                    && self.issues == Some(i.issues) && i.enabled == self.enabled && i.delete_existing
                    == self.delete_existing && item_views(i.modules@) == standard_modules() + item_views(
                    self.custom@,
                ),
                Err(m) => if self.project_id is None {
                    m@ == "missing project_id"@
                } else if self.modid is None {
                    m@ == "missing modid"@
                } else if self.version_id is None {
                    m@ == "missing version_id"@
                } else if self.format is None {
                    m@ == "missing format"@
                } else {
                    self.issues is None && m@ == "missing issue sink"@
                },
            },
    {
        let IngestorBuilder { project_id, modid, version_id, format, issues, enabled, delete_existing, custom } =
            self;
        let project_id = match project_id {
            Some(p) => p,
            None => {
                return Err(crate::text::owned("missing project_id"));
            },
        };
        let modid = match modid {
            Some(m) => m,
            None => {
                return Err(crate::text::owned("missing modid"));
            },
        };
        let version_id = match version_id {
            Some(v) => v,
            None => {
                return Err(crate::text::owned("missing version_id"));
            },
        };
        let format = match format {
            Some(f) => f,
            None => {
                return Err(crate::text::owned("missing format"));
            },
        };
        let issues = match issues {
            Some(s) => s,
            None => {
                return Err(crate::text::owned("missing issue sink"));
            },
        };
        let mut modules: Vec<String> = Vec::new();
        modules.push(crate::text::owned("Content paths"));
        modules.push(crate::text::owned("Tags"));
        modules.push(crate::text::owned("Recipes"));
        modules.push(crate::text::owned("Metadata"));
        assert(item_views(modules@) =~= standard_modules());
        let mut i: usize = 0;
        while i < custom.len()
            invariant
                i <= custom@.len(),
                item_views(modules@) == standard_modules() + item_views(custom@.subrange(0, i as int)),
            decreases custom@.len() - i,
        {
            let ghost before = item_views(modules@);
            modules.push(custom[i].clone());
            assert(item_views(modules@) =~= before.push(custom@[i as int]@));
            assert(item_views(custom@.subrange(0, i + 1)) =~= item_views(custom@.subrange(0, i as int)).push(
                custom@[i as int]@,
            ));
            i = i + 1;
        }
        assert(custom@.subrange(0, custom@.len() as int) =~= custom@);
        Ok(Ingestor { project_id, modid, version_id, format, issues, enabled, delete_existing, modules })
    }
}

} // verus!
