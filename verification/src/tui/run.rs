//! A live, user-facing account of one agent run.

use vstd::prelude::*;

use crate::protocol::ToolActivityStatus;
use crate::text;
use crate::text_laws;
use crate::text::{cat5, contains, number, same_text};

verus! {

/// The human-readable stage of one active agent run. It is derived from visible work rather than
/// provider internals, so the same experience is available for every provider.
#[derive(Clone, Copy, Debug, PartialEq, Eq, Structural)]
pub enum RunPhase {
    Understanding,
    Changing,
    Validating,
    Recovering,
    Finalizing,
}

impl RunPhase {
    /// The name of the stage.
    pub open spec fn name(self) -> Seq<char> {
        match self {
            RunPhase::Understanding => "Entendendo"@,
            RunPhase::Changing => "Alterando"@,
            RunPhase::Validating => "Validando"@,
            RunPhase::Recovering => "Recuperando"@,
            RunPhase::Finalizing => "Finalizando"@,
        }
    }

    /// The name shown for the stage.
    pub fn label(self) -> (r: &'static str)
        ensures
            r@ == self.name(),
    {
        match self {
            RunPhase::Understanding => "Entendendo",
            RunPhase::Changing => "Alterando",
            RunPhase::Validating => "Validando",
            RunPhase::Recovering => "Recuperando",
            RunPhase::Finalizing => "Finalizando",
        }
    }
}

/// Compact, live run summary displayed above the transcript while the agent is active.
#[derive(Clone, Debug, PartialEq, Eq)]
pub struct RunVisibility {
    pub phase: RunPhase,
    pub current_action: Option<String>,
    /// The clock reading, in milliseconds, when the run began.
    pub started_at: Option<u64>,
    /// The files changed so far, each once.
    pub changed_files: Vec<String>,
    pub explored: bool,
    pub changed: bool,
    pub validation_pending: bool,
    pub validation_succeeded: bool,
}

/// The display form of a tool's name.
pub open spec fn tool_title(name: Seq<char>) -> Seq<char> {
    if name == "read_file"@ {
        "Lendo arquivo"@
    } else if name == "search"@ {
        "Buscando no projeto"@
    } else if name == "list_files"@ {
        "Listando arquivos"@
    } else if name == "write_file"@ {
        "Editando arquivo"@
    } else if name == "apply_patch"@ {
        "Aplicando alteração"@
    } else if name == "run_command"@ {
        "Executando validação"@
    } else if name == "ask_user"@ {
        "Aguardando sua decisão"@
    } else {
        "Executando ação"@
    }
}

/// The display form of a tool's name.
pub fn human_tool_name(name: &str) -> (r: &'static str)
    ensures
        r@ == tool_title(name@),
{
    if same_text(name, "read_file") {
        "Lendo arquivo"
    } else if same_text(name, "search") {
        "Buscando no projeto"
    } else if same_text(name, "list_files") {
        "Listando arquivos"
    } else if same_text(name, "write_file") {
        "Editando arquivo"
    } else if same_text(name, "apply_patch") {
        "Aplicando alteração"
    } else if same_text(name, "run_command") {
        "Executando validação"
    } else if same_text(name, "ask_user") {
        "Aguardando sua decisão"
    } else {
        "Executando ação"
    }
}

/// Whether a command line holds one of the words that mark a validation step.
pub open spec fn validates(detail: Seq<char>) -> bool {
    ||| text::contains_text(detail, " test"@)
    ||| text::contains_text(detail, " check"@)
    ||| text::contains_text(detail, " clippy"@)
    ||| text::contains_text(detail, " fmt"@)
    ||| text::contains_text(detail, " lint"@)
    ||| text::contains_text(detail, " build"@)
    ||| text::contains_text(detail, "pytest"@)
    ||| text::contains_text(detail, "ruff"@)
    ||| text::contains_text(detail, "tsc"@)
    ||| text::contains_text(detail, "mypy"@)
    ||| text::contains_text(detail, " vet"@)
}

/// Tests whether a command line is a validation step.
pub fn is_validation_command(detail: &str) -> (r: bool)
    ensures
        r == validates(detail@),
{
    contains(detail, " test") || contains(detail, " check") || contains(detail, " clippy")
        || contains(detail, " fmt") || contains(detail, " lint") || contains(detail, " build")
        || contains(detail, "pytest") || contains(detail, "ruff") || contains(detail, "tsc")
        || contains(detail, "mypy") || contains(detail, " vet")
}

/// Whether a tool only reads the project.
pub open spec fn explores(name: Seq<char>) -> bool {
    name == "read_file"@ || name == "search"@ || name == "list_files"@
}

/// Whether a tool edits files.
pub open spec fn edits(name: Seq<char>) -> bool {
    name == "write_file"@ || name == "apply_patch"@
}

/// What is shown as the current action of a tool call.
pub open spec fn action_text(name: Seq<char>, detail: Seq<char>) -> Seq<char> {
    if detail.len() == 0 || detail == "running"@ {
        tool_title(name)
    } else {
        detail
    }
}

impl RunVisibility {
    /// The state before any run.
    pub open spec fn is_blank(self) -> bool {
        &&& self.phase == RunPhase::Understanding
        &&& self.current_action is None
        &&& self.started_at is None
        &&& self.changed_files@.len() == 0
        &&& !self.explored
        &&& !self.changed
        &&& !self.validation_pending
        &&& !self.validation_succeeded
    }

    /// No file is listed twice.
    pub open spec fn wf(self) -> bool {
        text::texts(self.changed_files@).no_duplicates()
    }

    /// The state before any run.
    pub fn blank() -> (r: RunVisibility)
        ensures
            r.is_blank(),
            r.wf(),
    {
        RunVisibility {
            phase: RunPhase::Understanding,
            current_action: None,
            started_at: None,
            changed_files: Vec::new(),
            explored: false,
            changed: false,
            validation_pending: false,
            validation_succeeded: false,
        }
    }

    /// Forgets the previous run and starts the clock of a new one.
    pub fn start(&mut self, now_ms: u64)
        ensures
            final(self).wf(),
            (RunVisibility { started_at: None, ..*final(self) }).is_blank(),
            final(self).started_at == Some(now_ms),
    {
        let mut fresh: RunVisibility = RunVisibility::blank();
        fresh.started_at = Some(now_ms);
        *self = fresh;
    }

    /// What one tool event changes. A failure moves the run to recovery and changes nothing else
    /// but the current action; a validation that succeeded settles the pending one.
    pub open spec fn observes(
        pre: RunVisibility,
        post: RunVisibility,
        name: Seq<char>,
        status: ToolActivityStatus,
        detail: Seq<char>,
    ) -> bool {
        &&& post.current_action matches Some(a) && a@ == action_text(name, detail)
        &&& post.started_at == pre.started_at
        &&& post.changed_files == pre.changed_files
        &&& if status == ToolActivityStatus::Failed {
            &&& post.phase == RunPhase::Recovering
            &&& post.explored == pre.explored
            &&& post.changed == pre.changed
            &&& post.validation_pending == pre.validation_pending
            &&& post.validation_succeeded == pre.validation_succeeded
        } else {
            let checking = name == "run_command"@ && validates(detail);
            &&& post.explored == (pre.explored || explores(name))
            &&& post.changed == (pre.changed || edits(name))
            &&& post.phase == (if explores(name) && !pre.changed {
                RunPhase::Understanding
            } else if edits(name) {
                RunPhase::Changing
            } else if checking {
                RunPhase::Validating
            } else if name == "run_command"@ {
                RunPhase::Understanding
            } else {
                pre.phase
            })
            &&& post.validation_pending == (if edits(name) {
                true
            } else if checking {
                status != ToolActivityStatus::Succeeded
            } else {
                pre.validation_pending
            })
            &&& post.validation_succeeded == (pre.validation_succeeded || (checking && status
                == ToolActivityStatus::Succeeded))
        }
    }

    /// Accounts for one tool event.
    pub fn observe_tool(&mut self, name: &str, status: ToolActivityStatus, detail: &str)
        ensures
            RunVisibility::observes(*old(self), *final(self), name@, status, detail@),
    {
        proof {
            lemma_tool_names_differ();
        }
        self.current_action = Some(
            if detail.is_empty() || same_text(detail, "running") {
                human_tool_name(name).to_owned()
            } else {
                detail.to_owned()
            },
        );
        if status == ToolActivityStatus::Failed {
            self.phase = RunPhase::Recovering;
            return ;
        }
        if same_text(name, "read_file") || same_text(name, "search") || same_text(
            name,
            "list_files",
        ) {
            self.explored = true;
            if !self.changed {
                self.phase = RunPhase::Understanding;
            }
        } else if same_text(name, "write_file") || same_text(name, "apply_patch") {
            self.changed = true;
            self.validation_pending = true;
            self.phase = RunPhase::Changing;
        } else if same_text(name, "run_command") {
            if is_validation_command(detail) {
                self.phase = RunPhase::Validating;
                if status == ToolActivityStatus::Succeeded {
                    self.validation_pending = false;
                    self.validation_succeeded = true;
                } else {
                    self.validation_pending = true;
                }
            } else {
                self.phase = RunPhase::Understanding;
            }
        }
    }

    /// What one changed file adds to the account.
    pub open spec fn observes_file(
        pre: RunVisibility,
        post: RunVisibility,
        path: Seq<char>,
    ) -> bool {
        &&& post == (RunVisibility {
            changed: true,
            validation_pending: true,
            changed_files: post.changed_files,
            ..pre
        })
        &&& if text::texts(pre.changed_files@).contains(path) {
            post.changed_files == pre.changed_files
        } else {
            text::texts(post.changed_files@) == text::texts(pre.changed_files@).push(path)
        }
    }

    /// Accounts for one changed file.
    pub fn observe_file_change(&mut self, path: &str)
        requires
            old(self).wf(),
        ensures
            final(self).wf(),
            RunVisibility::observes_file(*old(self), *final(self), path@),
    {
        self.changed = true;
        self.validation_pending = true;
        let n: usize = self.changed_files.len();
        let mut i: usize = 0;
        while i < n
            invariant
                n == self.changed_files@.len(),
                i <= n,
                *self == (RunVisibility { changed: true, validation_pending: true, ..*old(self) }),
                old(self).wf(),
                forall|j: int| 0 <= j < i ==> self.changed_files@[j]@ != path@,
            decreases n - i,
        {
            if same_text(self.changed_files[i].as_str(), path) {
                assert(text::texts(self.changed_files@)[i as int] == path@);
                return ;
            }
            i = i + 1;
        }
        let ghost before = text::texts(self.changed_files@);
        assert(!before.contains(path@));
        self.changed_files.push(path.to_owned());
        assert(text::texts(self.changed_files@) =~= before.push(path@));
    }

    /// The three steps of the run, each marked as open, current or done.
    pub open spec fn plan_text(self) -> Seq<char> {
        let understand = if self.explored {
            "✓ Entender"@
        } else {
            "○ Entender"@
        };
        let change = if self.changed {
            "✓ Alterar"@
        } else {
            "○ Alterar"@
        };
        let validate = if self.phase == RunPhase::Validating {
            "● Validar"@
        } else if self.validation_succeeded {
            "✓ Validar"@
        } else {
            "○ Validar"@
        };
        "Plano: "@ + understand + " → "@ + change + (" → "@ + validate)
    }

    /// Renders the steps of the run.
    pub fn plan_line(&self) -> (r: String)
        ensures
            r@ == self.plan_text(),
    {
        let understand: &str = if self.explored {
            "✓ Entender"
        } else {
            "○ Entender"
        };
        let change: &str = if self.changed {
            "✓ Alterar"
        } else {
            "○ Alterar"
        };
        let validate: &str = if self.phase == RunPhase::Validating {
            "● Validar"
        } else if self.validation_succeeded {
            "✓ Validar"
        } else {
            "○ Validar"
        };
        let tail: String = text::cat2(" → ", validate);
        cat5("Plano: ", understand, " → ", change, tail.as_str())
    }

    /// How many files changed and whether they were validated.
    pub open spec fn impact_text(self) -> Seq<char> {
        let files = self.changed_files@.len();
        let file_label = if files == 1 {
            "arquivo alterado"@
        } else {
            "arquivos alterados"@
        };
        let validation = if self.validation_pending {
            "validação pendente"@
        } else if self.validation_succeeded {
            "validação concluída"@
        } else {
            "sem validação necessária"@
        };
        "Impacto: "@ + text::decimal(files) + " "@ + file_label + (" · "@ + validation)
    }

    /// Renders the impact of the run.
    pub fn impact_line(&self) -> (r: String)
        ensures
            r@ == self.impact_text(),
    {
        let files: usize = self.changed_files.len();
        let file_label: &str = if files == 1 {
            "arquivo alterado"
        } else {
            "arquivos alterados"
        };
        let validation: &str = if self.validation_pending {
            "validação pendente"
        } else if self.validation_succeeded {
            "validação concluída"
        } else {
            "sem validação necessária"
        };
        let tail: String = text::cat2(" · ", validation);
        let count: String = number(files as u64);
        cat5("Impacto: ", count.as_str(), " ", file_label, tail.as_str())
    }

    /// Whole seconds since the run began; zero before any run.
    pub open spec fn elapsed_seconds(self, now_ms: u64) -> nat {
        match self.started_at {
            Some(began) => if now_ms >= began {
                ((now_ms - began) / 1000) as nat
            } else {
                0
            },
            None => 0,
        }
    }

    /// Renders the run's age.
    pub fn elapsed_label(&self, now_ms: u64) -> (r: String)
        ensures
            r@ == text::decimal(self.elapsed_seconds(now_ms)) + "s"@,
    {
        let seconds: u64 = match self.started_at {
            Some(began) => if now_ms >= began {
                (now_ms - began) / 1000
            } else {
                0
            },
            None => 0,
        };
        let mut s: String = number(seconds);
        s.append("s");
        s
    }

    /// The closing account of a run.
    pub open spec fn completion_text(self, partial: bool) -> Seq<char> {
        let outcome = if partial {
            "interrompida"@
        } else {
            "concluída"@
        };
        let advice = if self.validation_pending {
            "Próximo passo: validar as alterações antes de considerar a tarefa concluída."@
        } else {
            "Próximo passo: revisar o resumo e o diff, se desejar."@
        };
        "Entrega — execução "@ + outcome + "\n  "@ + self.impact_text() + ("\n  "@ + advice)
    }

    /// Ends the run and renders its closing account.
    pub fn completion_summary(&mut self, partial: bool) -> (r: String)
        ensures
            *final(self) == (RunVisibility { phase: RunPhase::Finalizing, ..*old(self) }),
            r@ == old(self).completion_text(partial),
    {
        self.phase = RunPhase::Finalizing;
        let outcome: &str = if partial {
            "interrompida"
        } else {
            "concluída"
        };
        let impact: String = self.impact_line();
        let advice: &str = if self.validation_pending {
            "Próximo passo: validar as alterações antes de considerar a tarefa concluída."
        } else {
            "Próximo passo: revisar o resumo e o diff, se desejar."
        };
        let tail: String = text::cat2("\n  ", advice);
        cat5("Entrega — execução ", outcome, "\n  ", impact.as_str(), tail.as_str())
    }
}

proof fn lemma_tool_names_differ()
    ensures
        "write_file"@ != "read_file"@,
        "write_file"@ != "list_files"@,
        "write_file"@ != "search"@,
        "apply_patch"@ != "read_file"@,
        "apply_patch"@ != "list_files"@,
        "apply_patch"@ != "search"@,
        "run_command"@ != "read_file"@,
        "run_command"@ != "list_files"@,
        "run_command"@ != "search"@,
        "run_command"@ != "write_file"@,
        "run_command"@ != "apply_patch"@,
{
    reveal_strlit("write_file");
    reveal_strlit("read_file");
    reveal_strlit("list_files");
    reveal_strlit("search");
    reveal_strlit("apply_patch");
    reveal_strlit("run_command");
    assert("write_file"@[0] == 'w');
    assert("read_file"@[0] == 'r');
    assert("read_file"@[1] == 'e');
    assert("list_files"@[0] == 'l');
    assert("search"@[0] == 's');
    assert("apply_patch"@[0] == 'a');
    assert("run_command"@[0] == 'r');
    assert("run_command"@[1] == 'u');
}

/// The words that mark a command as one that validates.
pub open spec fn validating_words() -> Seq<Seq<char>> {
    seq![
        " test"@,
        " check"@,
        " clippy"@,
        " fmt"@,
        " lint"@,
        " build"@,
        "pytest"@,
        "ruff"@,
        "tsc"@,
        "mypy"@,
        " vet"@,
    ]
}

/// What is edited waits for a validation: a command that holds one of the marking words. It settles
/// the matter where it succeeds, and leaves it open where it does not.
pub proof fn law_an_edit_waits_for_its_validation(
    pre: RunVisibility,
    edited: RunVisibility,
    post: RunVisibility,
    tool: Seq<char>,
    detail: Seq<char>,
    status: ToolActivityStatus,
    a: Seq<char>,
    row: int,
    b: Seq<char>,
)
    requires
        tool == "write_file"@ || tool == "apply_patch"@,
        RunVisibility::observes(pre, edited, tool, ToolActivityStatus::Succeeded, detail),
        0 <= row < validating_words().len(),
        RunVisibility::observes(
            edited,
            post,
            "run_command"@,
            status,
            a + validating_words()[row] + b,
        ),
    ensures
        edited.changed && edited.validation_pending && edited.phase == RunPhase::Changing,
        post.changed,
        post.validation_pending <==> status != ToolActivityStatus::Succeeded,
        status == ToolActivityStatus::Succeeded ==> post.validation_succeeded,
        status != ToolActivityStatus::Succeeded ==> post.validation_succeeded
            == edited.validation_succeeded,
        post.phase == (if status == ToolActivityStatus::Failed {
            RunPhase::Recovering
        } else {
            RunPhase::Validating
        }),
{
    lemma_tool_names_differ();
    let word = validating_words()[row];
    text_laws::law_a_contained_text_stands_between(a, word, b, word);
    assert(validates(a + word + b));
}

/// Whether a command line holds none of the marking words.
pub open spec fn marks_nothing(detail: Seq<char>) -> bool {
    forall|row: int|
        0 <= row < validating_words().len() ==> !text::contains_text(
            detail,
            #[trigger] validating_words()[row],
        )
}

/// Looking at the project does not settle what waits for a validation, nor does any other command;
/// and it does not take back that something was changed.
pub proof fn law_looking_settles_nothing(
    pre: RunVisibility,
    post: RunVisibility,
    tool: Seq<char>,
    status: ToolActivityStatus,
    detail: Seq<char>,
)
    requires
        tool == "read_file"@ || tool == "search"@ || tool == "list_files"@ || (tool
            == "run_command"@ && marks_nothing(detail)),
        RunVisibility::observes(pre, post, tool, status, detail),
    ensures
        post.validation_pending == pre.validation_pending,
        post.validation_succeeded == pre.validation_succeeded,
        post.changed == pre.changed,
        status == ToolActivityStatus::Failed ==> post.phase == RunPhase::Recovering,
        status != ToolActivityStatus::Failed && tool != "run_command"@ ==> post.explored
            && post.phase == (if pre.changed {
            pre.phase
        } else {
            RunPhase::Understanding
        }),
{
    lemma_tool_names_differ();
    if tool == "run_command"@ {
        let w = validating_words();
        assert(w[0] == " test"@ && w[1] == " check"@ && w[2] == " clippy"@ && w[3] == " fmt"@);
        assert(w[4] == " lint"@ && w[5] == " build"@ && w[6] == "pytest"@ && w[7] == "ruff"@);
        assert(w[8] == "tsc"@ && w[9] == "mypy"@ && w[10] == " vet"@);
        assert(!validates(detail));
    }
}

/// A changed file is counted once, however often it is changed, and waits for a validation.
pub proof fn law_a_changed_file_is_counted_once(
    pre: RunVisibility,
    once: RunVisibility,
    twice: RunVisibility,
    path: Seq<char>,
)
    requires
        RunVisibility::observes_file(pre, once, path),
        RunVisibility::observes_file(once, twice, path),
    ensures
        twice == once,
        once.changed && once.validation_pending,
        text::texts(once.changed_files@).contains(path),
        once.changed_files@.len() <= pre.changed_files@.len() + 1,
        !text::texts(pre.changed_files@).contains(path) ==> once.changed_files@.len()
            == pre.changed_files@.len() + 1,
{
    let before = text::texts(pre.changed_files@);
    let after = text::texts(once.changed_files@);
    assert(before.len() == pre.changed_files@.len());
    assert(after.len() == once.changed_files@.len());
    if !before.contains(path) {
        assert(after[before.len() as int] == path);
    }
}

/// A run is as many seconds old as have gone by in full.
pub proof fn law_a_run_is_as_old_as_the_clock_says(
    run: RunVisibility,
    began: u64,
    now_ms: u64,
    seconds: nat,
)
    requires
        run.started_at == Some(began),
        began + 1000 * seconds <= now_ms < began + 1000 * (seconds + 1),
    ensures
        run.elapsed_seconds(now_ms) == seconds,
{
}

} // verus!
