//! Service launcher and terminator: per-platform ordered strategy plans,
//! tried first to last, first success winning, every failure collected so
//! that exhaustion yields one aggregated error.
//!
//! The launcher decides; the strategies' outward work — probing files,
//! spawning processes, querying the service manager — happens at the
//! caller's edge, which reports each outcome back.

use vstd::prelude::*;
use crate::textfmt::{chars_to_string, concat_str, push_str_chars};

verus! {

#[derive(Clone, Copy, PartialEq, Eq, Structural)]
pub enum Platform {
    Windows,
    MacOs,
    Linux,
}

/// One launch strategy, to be carried out at the caller's edge.
pub enum LaunchStep {
    /// Probe this path for the server executable and, if present, spawn
    /// it with a `serve` argument.
    SpawnServeAt { path: String },
    /// Search the execution path for the executable and spawn what is
    /// found with `serve`.
    SearchPathSpawn,
    /// Spawn the bare command name with `serve`, relying on path
    /// resolution.
    SpawnServeCommand { program: String },
    /// Launch the packaged application in the background; it self-starts
    /// the server, so this step is reported successful without
    /// verification.
    LaunchApp,
    /// Start the user-level service-manager unit.
    StartServiceUnit,
    /// Spawn this resolved path with `serve`, output suppressed.
    DirectSpawn { path: String },
}

pub enum StepView {
    SpawnServeAt { path: Seq<char> },
    SearchPathSpawn,
    SpawnServeCommand { program: Seq<char> },
    LaunchApp,
    StartServiceUnit,
    DirectSpawn { path: Seq<char> },
}

impl View for LaunchStep {
    type V = StepView;

    open spec fn view(&self) -> StepView {
        match self {
            LaunchStep::SpawnServeAt { path } => StepView::SpawnServeAt { path: path@ },
            LaunchStep::SearchPathSpawn => StepView::SearchPathSpawn,
            LaunchStep::SpawnServeCommand { program } => StepView::SpawnServeCommand {
                program: program@,
            },
            LaunchStep::LaunchApp => StepView::LaunchApp,
            LaunchStep::StartServiceUnit => StepView::StartServiceUnit,
            LaunchStep::DirectSpawn { path } => StepView::DirectSpawn { path: path@ },
        }
    }
}

pub open spec fn step_views(plan: Seq<LaunchStep>) -> Seq<StepView> {
    plan.map_values(|s: LaunchStep| s@)
}

pub open spec fn failure_views(fails: Seq<String>) -> Seq<Seq<char>> {
    fails.map_values(|s: String| s@)
}

/// The collected failures, joined in the order attempted.
pub open spec fn spec_join(fails: Seq<Seq<char>>) -> Seq<char>
    decreases fails.len(),
{
    if fails.len() == 0 {
        Seq::empty()
    } else if fails.len() == 1 {
        fails[0]
    } else {
        spec_join(fails.drop_last()) + "; "@ + fails.last()
    }
}

/// The single error reported after exhaustion: the platform's remediation
/// text, then every strategy's failure.
pub open spec fn spec_aggregate(remediation: Seq<char>, fails: Seq<Seq<char>>) -> Seq<char> {
    remediation + " Attempts: "@ + spec_join(fails)
}

/// Advisory text returned on success; starting the server is
/// asynchronous, so every text tells the caller to wait and re-probe.
pub open spec fn spec_success_message(p: Platform, s: StepView) -> Seq<char> {
    match s {
        StepView::LaunchApp => "Ollama starting via app... Please wait 10-20 seconds for it to initialize."@,
        StepView::StartServiceUnit => "Ollama service started via systemd."@,
        StepView::DirectSpawn { .. } => "Ollama service started. Please wait a few seconds for it to initialize."@,
        _ => match p {
            Platform::MacOs => "Ollama starting... Please wait 10-20 seconds for it to initialize."@,
            _ => "Ollama server starting. Please wait a few seconds for it to initialize."@,
        },
    }
}

/// The launch attempt for one platform: a fixed ordered plan, the index
/// of the strategy now due, and the failures collected so far.
pub struct Launcher {
    platform: Platform,
    plan: Vec<LaunchStep>,
    remediation: String,
    next: usize,
    failures: Vec<String>,
    done: Option<bool>,
}

impl Launcher {
    pub closed spec fn platform(&self) -> Platform {
        self.platform
    }

    pub closed spec fn plan_view(&self) -> Seq<StepView> {
        step_views(self.plan@)
    }

    pub closed spec fn failures_view(&self) -> Seq<Seq<char>> {
        failure_views(self.failures@)
    }

    pub closed spec fn remediation_view(&self) -> Seq<char> {
        self.remediation@
    }

    pub closed spec fn next_index(&self) -> int {
        self.next as int
    }

    /// `None` while a strategy is still due; `Some(true)` after a
    /// success, `Some(false)` after exhaustion.
    pub closed spec fn done_state(&self) -> Option<bool> {
        self.done
    }

    /// Every strategy before `next` has left exactly one failure; a
    /// pending launcher always has a strategy due; an exhausted one has
    /// one failure per strategy of the whole plan.
    pub closed spec fn wf(&self) -> bool {
        &&& self.next <= self.plan@.len()
        &&& (self.done is None ==> self.failures@.len() == self.next && (self.next as int)
            < self.plan@.len())
        &&& (self.done == Some(false) ==> self.next == self.plan@.len() && self.failures@.len()
            == self.plan@.len())
        &&& (self.done == Some(true) ==> self.failures@.len() == self.next && (self.next as int)
            < self.plan@.len())
    }

    fn from_plan(platform: Platform, plan: Vec<LaunchStep>, remediation: String) -> (r: Launcher)
        requires
            plan@.len() > 0,
        ensures
            r.wf(),
            r.done_state() is None,
            r.next_index() == 0,
            r.platform() == platform,
            r.plan_view() == step_views(plan@),
            r.remediation_view() == remediation@,
            r.failures_view() == Seq::<Seq<char>>::empty(),
    {
        let r = Launcher {
            platform,
            plan,
            remediation,
            next: 0,
            failures: Vec::new(),
            done: None,
        };
        proof {
            assert(failure_views(r.failures@) =~= Seq::<Seq<char>>::empty());
        }
        r
    }

    /// The strategy now due.
    pub fn current(&self) -> (r: &LaunchStep)
        requires
            self.wf(),
            self.done_state() is None,
        ensures
            r@ == self.plan_view()[self.next_index()],
    {
        &self.plan[self.next]
    }

    pub fn outcome(&self) -> (r: Option<bool>)
        ensures
            r == self.done_state(),
    {
        self.done
    }

    /// The strategy now due succeeded; the attempt ends at once, later
    /// strategies never run.
    pub fn succeed(&mut self)
        requires
            old(self).wf(),
            old(self).done_state() is None,
        ensures
            final(self).wf(),
            final(self).done_state() == Some(true),
            final(self).platform() == old(self).platform(),
            final(self).plan_view() == old(self).plan_view(),
            final(self).failures_view() == old(self).failures_view(),
            final(self).remediation_view() == old(self).remediation_view(),
            final(self).next_index() == old(self).next_index(),
    {
        self.done = Some(true);
    }

    /// The strategy now due failed; its reason is collected and the next
    /// strategy becomes due, or the attempt ends exhausted after the
    /// last.
    pub fn fail(&mut self, why: String)
        requires
            old(self).wf(),
            old(self).done_state() is None,
        ensures
            final(self).wf(),
            final(self).platform() == old(self).platform(),
            final(self).plan_view() == old(self).plan_view(),
            final(self).remediation_view() == old(self).remediation_view(),
            final(self).failures_view() == old(self).failures_view().push(why@),
            final(self).next_index() == old(self).next_index() + 1,
            final(self).done_state() == (if old(self).next_index() + 1 == old(
                self,
            ).plan_view().len() {
                Some(false)
            } else {
                None::<bool>
            }),
    {
        let ghost before = self.failures@;
        self.failures.push(why);
        proof {
            assert(failure_views(self.failures@) =~= failure_views(before).push(
                self.failures@.last()@,
            ));
        }
        let n = self.plan.len();
        assert(self.next < n);
        self.next = self.next + 1;
        if self.next == n {
            self.done = Some(false);
        }
    }

    /// The advisory message for the strategy that succeeded.
    pub fn success_message(&self) -> (r: &'static str)
        requires
            self.wf(),
            self.done_state() == Some(true),
        ensures
            r@ == spec_success_message(self.platform(), self.plan_view()[self.next_index()]),
    {
        match &self.plan[self.next] {
            LaunchStep::LaunchApp => "Ollama starting via app... Please wait 10-20 seconds for it to initialize.",
            LaunchStep::StartServiceUnit => "Ollama service started via systemd.",
            LaunchStep::DirectSpawn { .. } => "Ollama service started. Please wait a few seconds for it to initialize.",
            _ => match self.platform {
                Platform::MacOs => "Ollama starting... Please wait 10-20 seconds for it to initialize.",
                _ => "Ollama server starting. Please wait a few seconds for it to initialize.",
            },
        }
    }

    /// The one error reported after exhaustion: remediation text plus
    /// every collected failure, in the order attempted.
    pub fn error_message(&self) -> (r: String)
        requires
            self.wf(),
            self.done_state() == Some(false),
        ensures
            r@ == spec_aggregate(self.remediation_view(), self.failures_view()),
    {
        let mut out: Vec<char> = Vec::new();
        push_str_chars(&mut out, self.remediation.as_str());
        push_str_chars(&mut out, " Attempts: ");
        let mut i: usize = 0;
        while i < self.failures.len()
            invariant
                i <= self.failures@.len(),
                out@ == self.remediation@ + " Attempts: "@ + spec_join(
                    failure_views(self.failures@.take(i as int)),
                ),
            decreases self.failures@.len() - i,
        {
            if i > 0 {
                push_str_chars(&mut out, "; ");
            }
            push_str_chars(&mut out, self.failures[i].as_str());
            proof {
                let pre = failure_views(self.failures@.take(i as int));
                let post = failure_views(self.failures@.take(i + 1 as int));
                assert(post.drop_last() =~= pre);
                assert(post.last() == self.failures@[i as int]@);
                if i == 0 {
                    assert(spec_join(post) == post[0]);
                }
                assert(out@ =~= self.remediation@ + " Attempts: "@ + spec_join(post));
            }
            i = i + 1;
        }
        proof {
            assert(self.failures@.take(self.failures@.len() as int) =~= self.failures@);
        }
        chars_to_string(&out)
    }

    /// The ordered strategy plan for Windows: the managed install path
    /// first, then the official and system-wide install paths, then a
    /// path search, then the bare command.
    pub fn windows(localappdata: &str, programfiles: &str) -> (r: Launcher)
        ensures
            r.wf(),
            r.done_state() is None,
            r.next_index() == 0,
            r.platform() == Platform::Windows,
            r.failures_view() == Seq::<Seq<char>>::empty(),
            r.remediation_view() == "Could not find or start Ollama. Please:\n1. Install Ollama from https://ollama.com/download/windows\n2. Or open Command Prompt and run: ollama serve\n3. Then click 'Check Status' in PrivatePDF"@,
            r.plan_view() == seq![
                StepView::SpawnServeAt { path: localappdata@ + "\\PrivatePDF\\ollama\\ollama.exe"@ },
                StepView::SpawnServeAt { path: localappdata@ + "\\Programs\\Ollama\\ollama.exe"@ },
                StepView::SpawnServeAt { path: programfiles@ + "\\Ollama\\ollama.exe"@ },
                StepView::SearchPathSpawn,
                StepView::SpawnServeCommand { program: "ollama"@ },
            ],
    {
        let p1 = concat_str(localappdata, "\\PrivatePDF\\ollama\\ollama.exe");
        let p2 = concat_str(localappdata, "\\Programs\\Ollama\\ollama.exe");
        let p3 = concat_str(programfiles, "\\Ollama\\ollama.exe");
        let plan = vec![
            LaunchStep::SpawnServeAt { path: p1 },
            LaunchStep::SpawnServeAt { path: p2 },
            LaunchStep::SpawnServeAt { path: p3 },
            LaunchStep::SearchPathSpawn,
            LaunchStep::SpawnServeCommand { program: "ollama".to_owned() },
        ];
        let r = Launcher::from_plan(
            Platform::Windows,
            plan,
            "Could not find or start Ollama. Please:\n1. Install Ollama from https://ollama.com/download/windows\n2. Or open Command Prompt and run: ollama serve\n3. Then click 'Check Status' in PrivatePDF".to_owned(),
        );
        proof {
            assert(r.plan_view() =~= seq![
                StepView::SpawnServeAt {
                    path: localappdata@ + "\\PrivatePDF\\ollama\\ollama.exe"@,
                },
                StepView::SpawnServeAt { path: localappdata@ + "\\Programs\\Ollama\\ollama.exe"@ },
                StepView::SpawnServeAt { path: programfiles@ + "\\Ollama\\ollama.exe"@ },
                StepView::SearchPathSpawn,
                StepView::SpawnServeCommand { program: "ollama"@ },
            ]);
        }
        r
    }

    /// The ordered strategy plan for macOS: the command-line server
    /// first, then the packaged application as an unverified fallback.
    pub fn macos() -> (r: Launcher)
        ensures
            r.wf(),
            r.done_state() is None,
            r.next_index() == 0,
            r.platform() == Platform::MacOs,
            r.failures_view() == Seq::<Seq<char>>::empty(),
            r.remediation_view() == "Could not start Ollama. Please install Ollama from https://ollama.com/download/mac and try again."@,
            r.plan_view() == seq![
                StepView::SpawnServeCommand { program: "ollama"@ },
                StepView::LaunchApp,
            ],
    {
        let plan = vec![
            LaunchStep::SpawnServeCommand { program: "ollama".to_owned() },
            LaunchStep::LaunchApp,
        ];
        let r = Launcher::from_plan(Platform::MacOs, plan, "Could not start Ollama. Please install Ollama from https://ollama.com/download/mac and try again.".to_owned());
        proof {
            assert(r.plan_view() =~= seq![
                StepView::SpawnServeCommand { program: "ollama"@ },
                StepView::LaunchApp,
            ]);
        }
        r
    }

    /// The ordered strategy plan for Linux, once an executable path has
    /// been resolved: the service manager first, then a direct spawn.
    pub fn linux(path: &str) -> (r: Launcher)
        ensures
            r.wf(),
            r.done_state() is None,
            r.next_index() == 0,
            r.platform() == Platform::Linux,
            r.failures_view() == Seq::<Seq<char>>::empty(),
            r.remediation_view() == "Failed to start Ollama. Please start it manually by running 'ollama serve' in a terminal, then click 'Check Status'."@,
            r.plan_view() == seq![
                StepView::StartServiceUnit,
                StepView::DirectSpawn { path: path@ },
            ],
    {
        let plan = vec![
            LaunchStep::StartServiceUnit,
            LaunchStep::DirectSpawn { path: path.to_owned() },
        ];
        let r = Launcher::from_plan(Platform::Linux, plan, "Failed to start Ollama. Please start it manually by running 'ollama serve' in a terminal, then click 'Check Status'.".to_owned());
        proof {
            assert(r.plan_view() =~= seq![
                StepView::StartServiceUnit,
                StepView::DirectSpawn { path: path@ },
            ]);
        }
        r
    }
}

/// Exhaustion aggregates every failure: an exhausted launcher holds
/// exactly one collected failure per strategy of its plan, and its
/// `error_message` reports them all behind the remediation text — a
/// single aggregated error, never a partial success.
pub proof fn lemma_exhaustion_aggregated(l: Launcher)
    requires
        l.wf(),
        l.done_state() == Some(false),
    ensures
        l.failures_view().len() == l.plan_view().len(),
{
}

} // verus!
