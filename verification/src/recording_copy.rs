//! Saves a copy of a recording file, byte for byte, and never over a file that
//! is there.
use vstd::prelude::*;
use vstd::string::*;

verus! {

/// What a copy has to do next.
#[derive(Debug, Clone, Copy, PartialEq, Eq, Structural)]
pub enum CopyStep {
    /// Open the recording.
    OpenSource,
    /// Create the file of the copy, which must not exist.
    CreateDestination,
    /// Copy all bytes and see them on disk.
    CopyData,
    /// Create the metadata file of the copy, which must not exist.
    CreateSidecar,
    /// Write the metadata and see it on disk.
    WriteSidecar,
    /// Remove the file of the copy.
    RemoveDestination,
    /// Remove the metadata file of the copy.
    RemoveSidecar,
    /// Nothing: the copy has ended.
    Done,
}

/// Why a copy is refused whose metadata file exists.
pub open spec fn sidecar_refusal() -> Seq<char> {
    "Metadata already exists; choose a new filename"@
}

/// A copy that is being made.
pub struct CopyView {
    pub step: CopyStep,
    pub annotated: bool,
    pub made_sidecar: bool,
    pub failure: Option<Seq<char>>,
}

impl CopyView {
    /// A copy, with metadata or without.
    pub open spec fn begun(sidecar_exists: bool, annotated: bool) -> CopyView {
        CopyView {
            step: if sidecar_exists {
                CopyStep::Done
            } else {
                CopyStep::OpenSource
            },
            annotated,
            made_sidecar: false,
            failure: if sidecar_exists {
                Some(sidecar_refusal())
            } else {
                None
            },
        }
    }

    /// The copy at its next step.
    pub open spec fn at(self, step: CopyStep) -> CopyView {
        CopyView { step, ..self }
    }

    /// The copy once `error` stopped it: with nothing made it is over, else what
    /// was made has to go.
    pub open spec fn stopped(self, error: Seq<char>) -> CopyView {
        CopyView {
            step: if self.step == CopyStep::OpenSource || self.step == CopyStep::CreateDestination {
                CopyStep::Done
            } else {
                CopyStep::RemoveDestination
            },
            failure: Some(error),
            ..self
        }
    }

    /// The copy once its step was done, or `error` came of it. Removing is
    /// tried once, whatever comes of it.
    pub open spec fn answered(self, error: Option<Seq<char>>) -> CopyView {
        match (self.step, error) {
            (CopyStep::Done, _) => self,
            (CopyStep::RemoveDestination, _) => self.at(
                if self.made_sidecar {
                    CopyStep::RemoveSidecar
                } else {
                    CopyStep::Done
                },
            ),
            (CopyStep::RemoveSidecar, _) => self.at(CopyStep::Done),
            (_, Some(error)) => self.stopped(error),
            (CopyStep::OpenSource, None) => self.at(CopyStep::CreateDestination),
            (CopyStep::CreateDestination, None) => self.at(CopyStep::CopyData),
            (CopyStep::CopyData, None) => self.at(
                if self.annotated {
                    CopyStep::CreateSidecar
                } else {
                    CopyStep::Done
                },
            ),
            (CopyStep::CreateSidecar, None) => CopyView {
                step: CopyStep::WriteSidecar,
                made_sidecar: true,
                ..self
            },
            (CopyStep::WriteSidecar, None) => self.at(CopyStep::Done),
        }
    }

    /// How many steps a copy can still take.
    pub open spec fn steps_left(self) -> nat {
        match self.step {
            CopyStep::OpenSource => 7,
            CopyStep::CreateDestination => 6,
            CopyStep::CopyData => 5,
            CopyStep::CreateSidecar => 4,
            CopyStep::WriteSidecar => 3,
            CopyStep::RemoveDestination => 2,
            CopyStep::RemoveSidecar => 1,
            CopyStep::Done => 0,
        }
    }
}

/// A copy that is being made.
#[derive(Debug)]
pub struct CopyJob {
    pub step: CopyStep,
    pub annotated: bool,
    pub made_sidecar: bool,
    pub failure: Option<String>,
}

impl View for CopyJob {
    type V = CopyView;

    open spec fn view(&self) -> CopyView {
        CopyView {
            step: self.step,
            annotated: self.annotated,
            made_sidecar: self.made_sidecar,
            failure: match self.failure {
                Some(failure) => Some(failure@),
                None => None,
            },
        }
    }
}

impl CopyJob {
    /// Begins a copy, `annotated` with metadata or not; it is refused where the
    /// metadata file of the copy exists.
    pub fn begin(sidecar_exists: bool, annotated: bool) -> (job: CopyJob)
        ensures
            job@ == CopyView::begun(sidecar_exists, annotated),
    {
        if sidecar_exists {
            CopyJob {
                step: CopyStep::Done,
                annotated,
                made_sidecar: false,
                failure: Some("Metadata already exists; choose a new filename".to_owned()),
            }
        } else {
            CopyJob { step: CopyStep::OpenSource, annotated, made_sidecar: false, failure: None }
        }
    }

    /// What the step came to.
    pub fn answer(&mut self, reply: Result<(), String>)
        ensures
            final(self)@ == old(self)@.answered(
                match reply {
                    Ok(_) => None,
                    Err(error) => Some(error@),
                },
            ),
    {
        match self.step {
            CopyStep::Done => {
                return;
            },
            CopyStep::RemoveDestination => {
                self.step = if self.made_sidecar {
                    CopyStep::RemoveSidecar
                } else {
                    CopyStep::Done
                };
                return;
            },
            CopyStep::RemoveSidecar => {
                self.step = CopyStep::Done;
                return;
            },
            _ => {},
        }
        match reply {
            Err(error) => {
                self.failure = Some(error);
                self.step = match self.step {
                    CopyStep::OpenSource | CopyStep::CreateDestination => CopyStep::Done,
                    _ => CopyStep::RemoveDestination,
                };
            },
            Ok(_) => {
                if self.step == CopyStep::CreateSidecar {
                    self.made_sidecar = true;
                }
                self.step = match self.step {
                    CopyStep::OpenSource => CopyStep::CreateDestination,
                    CopyStep::CreateDestination => CopyStep::CopyData,
                    CopyStep::CopyData => if self.annotated {
                        CopyStep::CreateSidecar
                    } else {
                        CopyStep::Done
                    },
                    CopyStep::CreateSidecar => CopyStep::WriteSidecar,
                    _ => CopyStep::Done,
                };
            },
        }
    }
}

// -- What a copy leaves on disk --

/// The files of a directory, by name.
pub type Files = Map<Seq<char>, Seq<u8>>;

/// The names of a recording and of its copy, and the metadata that is written
/// beside the copy.
pub struct CopyPlan {
    pub source: Seq<char>,
    pub destination: Seq<char>,
    pub document: Option<Seq<u8>>,
}

/// What came of a step: an error or none, and how far a write got that failed.
pub struct CopyTurn {
    pub error: Option<Seq<char>>,
    pub partial: Seq<u8>,
}

impl CopyPlan {
    /// The metadata file beside the copy.
    pub open spec fn sidecar(self) -> Seq<char> {
        self.destination + ".km003c.json"@
    }

    /// The files once `step` came to `turn`.
    pub open spec fn performed(self, files: Files, step: CopyStep, turn: CopyTurn) -> Files {
        match (step, turn.error) {
            (CopyStep::CreateDestination, None) => files.insert(self.destination, Seq::empty()),
            (CopyStep::CopyData, None) => files.insert(self.destination, files[self.source]),
            (CopyStep::CopyData, Some(_)) => files.insert(self.destination, turn.partial),
            (CopyStep::CreateSidecar, None) => files.insert(self.sidecar(), Seq::empty()),
            (CopyStep::WriteSidecar, None) => files.insert(self.sidecar(), self.document->0),
            (CopyStep::WriteSidecar, Some(_)) => files.insert(self.sidecar(), turn.partial),
            (CopyStep::RemoveDestination, None) => files.remove(self.destination),
            (CopyStep::RemoveSidecar, None) => files.remove(self.sidecar()),
            _ => files,
        }
    }

    /// Whether `turn` can come of `step`: a file that does not exist is not
    /// opened, one that exists is not created, and removing works.
    pub open spec fn can_come(self, files: Files, step: CopyStep, turn: CopyTurn) -> bool {
        match step {
            CopyStep::OpenSource => turn.error is None ==> files.contains_key(self.source),
            CopyStep::CreateDestination => turn.error is None ==> !files.contains_key(
                self.destination,
            ),
            CopyStep::CreateSidecar => turn.error is None ==> !files.contains_key(self.sidecar()),
            CopyStep::RemoveDestination | CopyStep::RemoveSidecar => turn.error is None,
            _ => true,
        }
    }

    /// Whether `turns` can come of a copy that stands at `view`.
    pub open spec fn possible(self, view: CopyView, files: Files, turns: Seq<CopyTurn>) -> bool
        decreases turns.len(),
    {
        turns.len() == 0 || (self.can_come(files, view.step, turns[0]) && self.possible(
            view.answered(turns[0].error),
            self.performed(files, view.step, turns[0]),
            turns.skip(1),
        ))
    }

    /// The copy and the files after `turns`.
    pub open spec fn after(self, view: CopyView, files: Files, turns: Seq<CopyTurn>) -> (
        CopyView,
        Files,
    )
        decreases turns.len(),
    {
        if turns.len() == 0 {
            (view, files)
        } else {
            self.after(
                view.answered(turns[0].error),
                self.performed(files, view.step, turns[0]),
                turns.skip(1),
            )
        }
    }

    /// The files with the copy.
    pub open spec fn copied(self, files: Files) -> Files {
        let data = files.insert(self.destination, files[self.source]);
        match self.document {
            Some(document) => data.insert(self.sidecar(), document),
            None => data,
        }
    }

    /// Whether there is a recording, and no file under the names of its copy.
    pub open spec fn has_room(self, files: Files) -> bool {
        &&& files.contains_key(self.source)
        &&& !files.contains_key(self.destination)
        &&& self.document is Some ==> !files.contains_key(self.sidecar())
    }

    /// How `files` came of `first` where a copy stands at `view`.
    spec fn in_course(self, view: CopyView, first: Files, files: Files) -> bool {
        let data = first.insert(self.destination, first[self.source]);
        &&& view.annotated == self.document is Some
        &&& match view.step {
            CopyStep::OpenSource => view.failure is None && !view.made_sidecar && files == first,
            CopyStep::CreateDestination => view.failure is None && !view.made_sidecar && files
                == first && first.contains_key(self.source),
            CopyStep::CopyData => view.failure is None && !view.made_sidecar && files
                == first.insert(self.destination, Seq::empty()) && first.contains_key(self.source)
                && !first.contains_key(self.destination),
            CopyStep::CreateSidecar => view.failure is None && !view.made_sidecar && files == data
                && view.annotated && first.contains_key(self.source) && !first.contains_key(
                self.destination,
            ),
            CopyStep::WriteSidecar => view.failure is None && view.made_sidecar && files
                == data.insert(self.sidecar(), Seq::empty()) && view.annotated && first.contains_key(
                self.source,
            ) && !first.contains_key(self.destination) && !first.contains_key(self.sidecar()),
            CopyStep::RemoveDestination => view.failure is Some && if view.made_sidecar {
                files.remove(self.destination).remove(self.sidecar()) == first
            } else {
                files.remove(self.destination) == first
            },
            CopyStep::RemoveSidecar => view.failure is Some && files.remove(self.sidecar()) == first,
            CopyStep::Done => if view.failure is None {
                files == self.copied(first) && self.has_room(first)
            } else {
                files == first
            },
        }
    }

    proof fn lemma_step_stays_in_course(
        self,
        view: CopyView,
        first: Files,
        files: Files,
        turn: CopyTurn,
    )
        requires
            self.in_course(view, first, files),
            self.can_come(files, view.step, turn),
        ensures
            self.in_course(
                view.answered(turn.error),
                first,
                self.performed(files, view.step, turn),
            ),
    {
        reveal_strlit(".km003c.json");
        assert(self.sidecar().len() > self.destination.len());
        let next = self.performed(files, view.step, turn);
        let data = first.insert(self.destination, first[self.source]);
        match view.step {
            CopyStep::CopyData => {
                assert(files[self.source] == first[self.source]);
                assert(files.insert(self.destination, first[self.source]) =~= data);
                assert(next.remove(self.destination) =~= first || turn.error is None);
            },
            CopyStep::CreateSidecar => {
                assert(data.remove(self.destination) =~= first);
            },
            CopyStep::WriteSidecar => {
                if turn.error is None {
                    assert(next =~= self.copied(first));
                } else {
                    assert(next.remove(self.destination).remove(self.sidecar()) =~= first);
                }
            },
            _ => {},
        }
    }

    proof fn lemma_copies_stay_in_course(
        self,
        view: CopyView,
        first: Files,
        files: Files,
        turns: Seq<CopyTurn>,
    )
        requires
            self.in_course(view, first, files),
            self.possible(view, files, turns),
        ensures
            self.in_course(
                self.after(view, files, turns).0,
                first,
                self.after(view, files, turns).1,
            ),
        decreases turns.len(),
    {
        if turns.len() > 0 {
            self.lemma_step_stays_in_course(view, first, files, turns[0]);
            self.lemma_copies_stay_in_course(
                view.answered(turns[0].error),
                first,
                self.performed(files, view.step, turns[0]),
                turns.skip(1),
            );
        }
    }

    proof fn lemma_copies_end(self, view: CopyView, files: Files, turns: Seq<CopyTurn>)
        requires
            turns.len() >= view.steps_left(),
        ensures
            self.after(view, files, turns).0.step == CopyStep::Done,
        decreases turns.len(),
    {
        if turns.len() > 0 {
            self.lemma_copies_end(
                view.answered(turns[0].error),
                self.performed(files, view.step, turns[0]),
                turns.skip(1),
            );
        }
    }
}

/// A copy ends after at most seven steps. Whatever fails on the way, it either
/// adds the bytes of the recording under a new name, with the metadata where
/// there is some, or leaves the files as they were.
pub proof fn law_a_copy_adds_its_files_or_changes_nothing(
    plan: CopyPlan,
    files: Files,
    turns: Seq<CopyTurn>,
)
    requires
        turns.len() >= 7,
        plan.possible(
            CopyView::begun(files.contains_key(plan.sidecar()), plan.document is Some),
            files,
            turns,
        ),
    ensures
        ({
            let job = CopyView::begun(files.contains_key(plan.sidecar()), plan.document is Some);
            let (copy, left) = plan.after(job, files, turns);
            &&& copy.step == CopyStep::Done
            &&& copy.failure is None ==> plan.has_room(files) && left == plan.copied(files)
            &&& copy.failure is Some ==> left == files
        }),
{
    let job = CopyView::begun(files.contains_key(plan.sidecar()), plan.document is Some);
    plan.lemma_copies_end(job, files, turns);
    plan.lemma_copies_stay_in_course(job, files, files, turns);
}

/// At no moment of a copy is a file that was there changed or gone.
pub proof fn law_a_copy_spares_existing_files(plan: CopyPlan, files: Files, turns: Seq<CopyTurn>)
    requires
        plan.possible(
            CopyView::begun(files.contains_key(plan.sidecar()), plan.document is Some),
            files,
            turns,
        ),
    ensures
        files.submap_of(
            plan.after(
                CopyView::begun(files.contains_key(plan.sidecar()), plan.document is Some),
                files,
                turns,
            ).1,
        ),
{
    let job = CopyView::begun(files.contains_key(plan.sidecar()), plan.document is Some);
    plan.lemma_copies_stay_in_course(job, files, files, turns);
    let (copy, left) = plan.after(job, files, turns);
    assert forall|name: Seq<char>| #[trigger] files.contains_key(name) implies left.contains_key(name)
        && files[name] == left[name] by {
        assert(left.remove(plan.destination).remove(plan.sidecar()).contains_key(name)
            || left.contains_key(name));
    }
}

/// A copy whose metadata file exists is refused without a step.
pub proof fn law_existing_metadata_refuses_a_copy(annotated: bool)
    ensures
        CopyView::begun(true, annotated).step == CopyStep::Done,
        CopyView::begun(true, annotated).failure == Some(sidecar_refusal()),
{
}

} // verus!
