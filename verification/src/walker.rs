use vstd::prelude::*;
use vstd::multiset::*;
use vstd::seq_lib::*;
use crate::destination::{join, join_paths, sort_under, sorted_under};
use crate::error::SortError;
use crate::file_type::{classify, FileType};

verus! {

/// One entry of the source directory: its name there, and whether it is a
/// regular file.
#[derive(Debug, PartialEq, Eq)]
pub struct Entry {
    pub name: String,
    pub is_file: bool,
}

/// An `Entry` with its name as text.
pub struct EntryView {
    pub name: Seq<char>,
    pub is_file: bool,
}

impl View for Entry {
    type V = EntryView;

    open spec fn view(&self) -> EntryView {
        EntryView { name: self.name@, is_file: self.is_file }
    }
}

impl DeepView for Entry {
    type V = EntryView;

    open spec fn deep_view(&self) -> EntryView {
        self@
    }
}

/// What is to be done with one entry.
#[derive(Debug, PartialEq, Eq)]
pub enum Step {
    /// Move the file at `from` to `to`, which lies in the directory `into`.
    Move { from: String, into: String, to: String },
    /// Leave it: it is not a regular file.
    SkipNotFile,
    /// Leave it: it is neither an image nor a video.
    SkipOther,
}

/// A `Step` with its paths as text.
pub enum StepView {
    Move { from: Seq<char>, into: Seq<char>, to: Seq<char> },
    SkipNotFile,
    SkipOther,
}

impl View for Step {
    type V = StepView;

    open spec fn view(&self) -> StepView {
        match self {
            Step::Move { from, into, to } => StepView::Move {
                from: from@,
                into: into@,
                to: to@,
            },
            Step::SkipNotFile => StepView::SkipNotFile,
            Step::SkipOther => StepView::SkipOther,
        }
    }
}

impl DeepView for Step {
    type V = StepView;

    open spec fn deep_view(&self) -> StepView {
        self@
    }
}

/// What became of one entry.
#[derive(Clone, Copy, Debug, PartialEq, Eq, Structural)]
pub enum Outcome {
    Moved,
    Failed,
    SkippedOther,
    SkippedNotFile,
}

/// How many entries of a run ended in each way.
#[derive(Clone, Copy, Debug, PartialEq, Eq, Structural)]
pub struct Report {
    pub moved: usize,
    pub failed: usize,
    pub skipped_other: usize,
    pub skipped_not_file: usize,
}

/// Whether `entry` is a regular file with an image's or a video's name.
pub open spec fn is_media(entry: EntryView) -> bool {
    entry.is_file && classify(entry.name) != FileType::Other
}

/// What is to be done with `entry`, found in the directory `source`, when
/// `home` is the home directory if there is one. Anything but a regular
/// file is left. So is a file that is neither image nor video. An image or
/// a video moves into its kind's folder under its own name, and cannot be
/// planned for without a home directory.
pub open spec fn plan(source: Seq<char>, home: Option<Seq<char>>, entry: EntryView) -> Result<
    StepView,
    SortError,
> {
    if !entry.is_file {
        Ok(StepView::SkipNotFile)
    } else {
        match sorted_under(entry.name, home) {
            Ok(Some(dir)) => Ok(
                StepView::Move {
                    from: join(source, entry.name),
                    into: dir,
                    to: join(dir, entry.name),
                },
            ),
            Ok(None) => Ok(StepView::SkipOther),
            Err(e) => Err(e),
        }
    }
}

/// What became of an entry, given its step and, for a move, whether the
/// file system carried it out.
pub open spec fn outcome_of(step: StepView, renamed: bool) -> Outcome {
    match step {
        StepView::Move { .. } => if renamed {
            Outcome::Moved
        } else {
            Outcome::Failed
        },
        StepView::SkipNotFile => Outcome::SkippedNotFile,
        StepView::SkipOther => Outcome::SkippedOther,
    }
}

/// Whether a listing can be planned for: it can unless it holds an image
/// or a video and there is no home directory to move it to.
pub open spec fn plannable(home: Option<Seq<char>>, entries: Seq<EntryView>) -> bool {
    home is Some || forall|i: int| 0 <= i < entries.len() ==> !is_media(#[trigger] entries[i])
}

/// The steps of a whole run, one for each entry of the listing and in
/// their order. `listing` is what reading the source directory gave:
/// nothing where it could not be read, which is `DirectoryRead`. A listing
/// that cannot be planned for is `HomeDirUnresolved`.
pub open spec fn plan_all(
    source: Seq<char>,
    home: Option<Seq<char>>,
    listing: Option<Seq<EntryView>>,
) -> Result<Seq<StepView>, SortError> {
    match listing {
        None => Err(SortError::DirectoryRead),
        Some(entries) => if plannable(home, entries) {
            Ok(Seq::new(entries.len(), |i: int| plan(source, home, entries[i])->Ok_0))
        } else {
            Err(SortError::HomeDirUnresolved)
        },
    }
}

/// The outcomes of a whole run over `entries`, one for each entry and in
/// their order, where `renamed[i]` says whether the move of entry `i`, if
/// one was due, was carried out.
pub open spec fn run(
    source: Seq<char>,
    home: Option<Seq<char>>,
    entries: Seq<EntryView>,
    renamed: Seq<bool>,
) -> Seq<Outcome>
    recommends
        plannable(home, entries),
        renamed.len() == entries.len(),
{
    Seq::new(
        entries.len(),
        |i: int| outcome_of(plan(source, home, entries[i])->Ok_0, renamed[i]),
    )
}

/// The entries that a run in which every move succeeds leaves in the
/// source directory.
pub open spec fn left_behind(entries: Seq<EntryView>) -> Seq<EntryView> {
    entries.filter(|e: EntryView| !is_media(e))
}

/// Decides what is to be done with one entry.
pub fn plan_entry(source: &str, home: &Option<String>, entry: &Entry) -> (r: Result<
    Step,
    SortError,
>)
    ensures
        match r {
            Ok(step) => plan(source@, home.deep_view(), entry@) == Ok::<StepView, SortError>(
                step@,
            ),
            Err(e) => plan(source@, home.deep_view(), entry@) == Err::<StepView, SortError>(e),
        },
{
    if !entry.is_file {
        return Ok(Step::SkipNotFile);
    }
    let name = entry.name.as_str();
    match sort_under(name, home) {
        Ok(Some(dir)) => {
            let from = join_paths(source, name);
            let to = join_paths(dir.as_str(), name);
            Ok(Step::Move { from, into: dir, to })
        },
        Ok(None) => Ok(Step::SkipOther),
        Err(e) => Err(e),
    }
}

/// Decides what is to be done with each entry of the directory `source`.
/// `listing` is what reading that directory gave: its entries, or nothing
/// where it could not be read. The steps come in the order of the entries.
/// Without a home directory a listing that holds an image or a video
/// cannot be planned for, and then there are no steps at all.
pub fn process_files(
    source: &str,
    home: &Option<String>,
    listing: &Option<Vec<Entry>>,
) -> (r: Result<Vec<Step>, SortError>)
    ensures
        match r {
            Ok(steps) => plan_all(source@, home.deep_view(), listing.deep_view()) == Ok::<
                Seq<StepView>,
                SortError,
            >(steps.deep_view()),
            Err(e) => plan_all(source@, home.deep_view(), listing.deep_view()) == Err::<
                Seq<StepView>,
                SortError,
            >(e),
        },
        r matches Ok(steps) ==> listing matches Some(entries) && steps@.len() == entries@.len(),
{
    let entries = match listing {
        Some(entries) => entries,
        None => {
            return Err(SortError::DirectoryRead);
        },
    };
    let ghost listed = entries.deep_view();
    let mut steps: Vec<Step> = Vec::new();
    let mut i: usize = 0;
    while i < entries.len()
        invariant
            listing.deep_view() == Some(listed),
            listed == entries.deep_view(),
            listed.len() == entries@.len(),
            i <= entries@.len(),
            steps@.len() == i,
            forall|k: int|
                0 <= k < i ==> plan(source@, home.deep_view(), #[trigger] listed[k]) == Ok::<
                    StepView,
                    SortError,
                >(steps@[k]@),
        decreases entries@.len() - i,
    {
        assert(listed[i as int] == entries@[i as int]@);
        match plan_entry(source, home, &entries[i]) {
            Ok(step) => {
                steps.push(step);
            },
            Err(e) => {
                assert(is_media(listed[i as int]));
                return Err(e);
            },
        }
        i = i + 1;
    }
    proof {
        assert forall|k: int| 0 <= k < listed.len() && is_media(#[trigger] listed[k])
            implies home is Some by {
            assert(plan(source@, home.deep_view(), listed[k]) is Ok);
        }
        assert(steps.deep_view() =~= plan_all(source@, home.deep_view(), Some(listed))->Ok_0);
    }
    Ok(steps)
}

impl Step {
    /// What became of the entry that this step was for. `renamed` says
    /// whether the move was carried out, and counts for a move only.
    pub fn outcome(&self, renamed: bool) -> (r: Outcome)
        ensures
            r == outcome_of(self@, renamed),
    {
        match self {
            Step::Move { .. } => if renamed {
                Outcome::Moved
            } else {
                Outcome::Failed
            },
            Step::SkipNotFile => Outcome::SkippedNotFile,
            Step::SkipOther => Outcome::SkippedOther,
        }
    }
}

impl Outcome {
    /// The error that this outcome is reported as: a failed move is a
    /// `Move` error, and the other outcomes are none.
    pub fn error(&self) -> (r: Option<SortError>)
        ensures
            r == if *self == Outcome::Failed {
                Some(SortError::Move)
            } else {
                None
            },
    {
        match self {
            Outcome::Failed => Some(SortError::Move),
            _ => None,
        }
    }
}

/// Counts the outcomes of a run, each entry once.
pub fn tally(outcomes: &Vec<Outcome>) -> (r: Report)
    ensures
        r.moved == outcomes@.to_multiset().count(Outcome::Moved),
        r.failed == outcomes@.to_multiset().count(Outcome::Failed),
        r.skipped_other == outcomes@.to_multiset().count(Outcome::SkippedOther),
        r.skipped_not_file == outcomes@.to_multiset().count(Outcome::SkippedNotFile),
        r.moved + r.failed + r.skipped_other + r.skipped_not_file == outcomes@.len(),
{
    let mut report = Report { moved: 0, failed: 0, skipped_other: 0, skipped_not_file: 0 };
    let mut i: usize = 0;
    proof {
        let none = outcomes@.take(0);
        none.to_multiset_ensures();
        lemma_multiset_empty_len(none.to_multiset());
    }
    while i < outcomes.len()
        invariant
            i <= outcomes@.len(),
            report.moved == outcomes@.take(i as int).to_multiset().count(Outcome::Moved),
            report.failed == outcomes@.take(i as int).to_multiset().count(Outcome::Failed),
            report.skipped_other == outcomes@.take(i as int).to_multiset().count(
                Outcome::SkippedOther,
            ),
            report.skipped_not_file == outcomes@.take(i as int).to_multiset().count(
                Outcome::SkippedNotFile,
            ),
            report.moved + report.failed + report.skipped_other + report.skipped_not_file == i,
        decreases outcomes@.len() - i,
    {
        proof {
            let before = outcomes@.take(i as int);
            assert(outcomes@.take(i + 1) =~= before.push(outcomes@[i as int]));
            to_multiset_build(before, outcomes@[i as int]);
        }
        match outcomes[i] {
            Outcome::Moved => {
                report.moved = report.moved + 1;
            },
            Outcome::Failed => {
                report.failed = report.failed + 1;
            },
            Outcome::SkippedOther => {
                report.skipped_other = report.skipped_other + 1;
            },
            Outcome::SkippedNotFile => {
                report.skipped_not_file = report.skipped_not_file + 1;
            },
        }
        i = i + 1;
    }
    assert(outcomes@.take(i as int) =~= outcomes@);
    report
}

/// The exit code of a run that ended in `result`: 0 where every file that
/// was to move did, 1 where a move failed, 2 where the run could not be
/// made at all.
pub fn exit_code(result: &Result<Report, SortError>) -> (r: i32)
    ensures
        r == match *result {
            Ok(report) => if report.failed == 0 {
                0i32
            } else {
                1i32
            },
            Err(_) => 2i32,
        },
{
    match result {
        Ok(report) => if report.failed == 0 {
            0
        } else {
            1
        },
        Err(_) => 2,
    }
}

/// Every entry of a run has one outcome, and which one depends on that
/// entry and on its own move alone.
pub proof fn lemma_outcome_is_local(
    source: Seq<char>,
    home: Option<Seq<char>>,
    entries: Seq<EntryView>,
    renamed: Seq<bool>,
    i: int,
)
    requires
        0 <= i < entries.len(),
    ensures
        run(source, home, entries, renamed).len() == entries.len(),
        run(source, home, entries, renamed)[i] == outcome_of(
            plan(source, home, entries[i])->Ok_0,
            renamed[i],
        ),
        forall|others: Seq<bool>|
            others[i] == renamed[i] ==> #[trigger] run(source, home, entries, others)[i] == run(
                source,
                home,
                entries,
                renamed,
            )[i],
{
}

/// A move that fails is the failure of its own entry only. Where a run
/// cannot move one image or video and can move another, in either order,
/// the first is reported as failed and the second as moved all the same.
pub proof fn lemma_failure_is_isolated(
    source: Seq<char>,
    home: Seq<char>,
    entries: Seq<EntryView>,
    renamed: Seq<bool>,
    failing: int,
    other: int,
)
    requires
        0 <= failing < entries.len(),
        0 <= other < entries.len(),
        is_media(entries[failing]),
        is_media(entries[other]),
        !renamed[failing],
        renamed[other],
    ensures
        run(source, Some(home), entries, renamed)[failing] == Outcome::Failed,
        run(source, Some(home), entries, renamed)[other] == Outcome::Moved,
        run(source, Some(home), entries, renamed).to_multiset().count(Outcome::Failed) >= 1,
        run(source, Some(home), entries, renamed).to_multiset().count(Outcome::Moved) >= 1,
{
    let outcomes = run(source, Some(home), entries, renamed);
    outcomes.to_multiset_ensures();
    assert(outcomes[failing] == Outcome::Failed);
    assert(outcomes[other] == Outcome::Moved);
    assert(outcomes.contains(Outcome::Failed));
    assert(outcomes.contains(Outcome::Moved));
}

/// A run over a listing without images and videos moves nothing, with or
/// without a home directory: no step of it is a move, and none of its
/// outcomes is `Moved` or `Failed`.
pub proof fn lemma_nothing_to_move(
    source: Seq<char>,
    home: Option<Seq<char>>,
    entries: Seq<EntryView>,
    renamed: Seq<bool>,
)
    requires
        forall|i: int| 0 <= i < entries.len() ==> !is_media(#[trigger] entries[i]),
    ensures
        plannable(home, entries),
        forall|i: int|
            0 <= i < entries.len() ==> {
                ||| #[trigger] plan(source, home, entries[i]) == Ok::<StepView, SortError>(
                    StepView::SkipNotFile,
                )
                ||| plan(source, home, entries[i]) == Ok::<StepView, SortError>(
                    StepView::SkipOther,
                )
            },
        run(source, home, entries, renamed).to_multiset().count(Outcome::Moved) == 0,
        run(source, home, entries, renamed).to_multiset().count(Outcome::Failed) == 0,
{
    let outcomes = run(source, home, entries, renamed);
    outcomes.to_multiset_ensures();
    assert forall|i: int| 0 <= i < outcomes.len() implies outcomes[i] != Outcome::Moved
        && outcomes[i] != Outcome::Failed by {
        assert(!is_media(entries[i]));
    }
    assert(!outcomes.contains(Outcome::Moved));
    assert(!outcomes.contains(Outcome::Failed));
}

/// Running twice moves nothing the second time. What a run whose moves all
/// succeed leaves in the source directory holds no image and no video, so
/// a run over it moves nothing, whatever the file system would say.
pub proof fn lemma_second_run_moves_nothing(
    source: Seq<char>,
    home: Option<Seq<char>>,
    entries: Seq<EntryView>,
    renamed: Seq<bool>,
)
    ensures
        forall|i: int|
            0 <= i < left_behind(entries).len() ==> !is_media(#[trigger] left_behind(entries)[i]),
        run(source, home, left_behind(entries), renamed).to_multiset().count(Outcome::Moved)
            == 0,
        run(source, home, left_behind(entries), renamed).to_multiset().count(Outcome::Failed)
            == 0,
{
    let keep = |e: EntryView| !is_media(e);
    assert forall|i: int| 0 <= i < left_behind(entries).len() implies !is_media(
        #[trigger] left_behind(entries)[i],
    ) by {
        entries.lemma_filter_pred(keep, i);
    }
    lemma_nothing_to_move(source, home, left_behind(entries), renamed);
}

} // verus!
