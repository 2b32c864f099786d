use image_sorter::{
    exit_code, plan_entry, process_files, tally, Entry, Outcome, Report, SortError, Step,
};

fn entry(name: &str, is_file: bool) -> Entry {
    Entry { name: String::from(name), is_file }
}

fn moving(from: &str, into: &str, to: &str) -> Step {
    Step::Move { from: String::from(from), into: String::from(into), to: String::from(to) }
}

fn listing() -> Option<Vec<Entry>> {
    Some(vec![entry("a.jpg", true), entry("b.mp4", true), entry("c.txt", true), entry("d", false)])
}

fn outcomes(steps: &Vec<Step>, renamed: &[bool]) -> Vec<Outcome> {
    let mut all = Vec::new();
    for (step, ok) in steps.iter().zip(renamed) {
        all.push(step.outcome(*ok));
    }
    all
}

#[test]
fn a_whole_run() {
    let home = Some(String::from("/home/u"));
    let steps = process_files("/src", &home, &listing()).unwrap();
    assert_eq!(
        steps,
        vec![
            moving("/src/a.jpg", "/home/u/TestPics", "/home/u/TestPics/a.jpg"),
            moving("/src/b.mp4", "/home/u/TestVids", "/home/u/TestVids/b.mp4"),
            Step::SkipOther,
            Step::SkipNotFile,
        ]
    );
    let report = tally(&outcomes(&steps, &[true, true, true, true]));
    assert_eq!(report, Report { moved: 2, failed: 0, skipped_other: 1, skipped_not_file: 1 });
    assert_eq!(exit_code(&Ok(report)), 0);
}

#[test]
fn a_second_run_moves_nothing() {
    let home = Some(String::from("/home/u"));
    let left = Some(vec![entry("c.txt", true), entry("d", false)]);
    let steps = process_files("/src", &home, &left).unwrap();
    assert_eq!(steps, vec![Step::SkipOther, Step::SkipNotFile]);
    let report = tally(&outcomes(&steps, &[true, true]));
    assert_eq!(report, Report { moved: 0, failed: 0, skipped_other: 1, skipped_not_file: 1 });
    let report = tally(&outcomes(&steps, &[false, false]));
    assert_eq!(report.moved, 0);
    assert_eq!(report.failed, 0);
}

#[test]
fn a_failed_move_does_not_stop_the_others() {
    let home = Some(String::from("/home/u"));
    let steps = process_files("/src", &home, &listing()).unwrap();
    let all = outcomes(&steps, &[false, true, true, true]);
    assert_eq!(
        all,
        vec![Outcome::Failed, Outcome::Moved, Outcome::SkippedOther, Outcome::SkippedNotFile]
    );
    let report = tally(&all);
    assert_eq!(report, Report { moved: 1, failed: 1, skipped_other: 1, skipped_not_file: 1 });
    assert_eq!(exit_code(&Ok(report)), 1);
}

#[test]
fn a_directory_is_skipped_whatever_its_name() {
    let home = Some(String::from("/home/u"));
    assert_eq!(plan_entry("/src", &home, &entry("album.jpg", false)), Ok(Step::SkipNotFile));
    assert_eq!(plan_entry("/src", &None, &entry("album.jpg", false)), Ok(Step::SkipNotFile));
}

#[test]
fn a_file_keeps_its_name() {
    let home = Some(String::from("/home/u/"));
    assert_eq!(
        plan_entry("src/", &home, &entry("Holiday.2024.JPG", true)),
        Ok(moving("src/Holiday.2024.JPG", "/home/u/TestPics", "/home/u/TestPics/Holiday.2024.JPG"))
    );
    assert_eq!(
        plan_entry("", &home, &entry("clip.WebM", true)),
        Ok(moving("clip.WebM", "/home/u/TestVids", "/home/u/TestVids/clip.WebM"))
    );
}

#[test]
fn files_without_a_known_extension_stay() {
    let home = Some(String::from("/home/u"));
    for name in ["README", "notes.txt", "archive.tar.gz", "photo.", ".gitignore"] {
        assert_eq!(plan_entry("/src", &home, &entry(name, true)), Ok(Step::SkipOther));
    }
}

#[test]
fn no_home_and_nothing_to_move() {
    let left = Some(vec![entry("c.txt", true), entry("d", false), entry("README", true)]);
    assert_eq!(
        process_files("/src", &None, &left),
        Ok(vec![Step::SkipOther, Step::SkipNotFile, Step::SkipOther])
    );
    assert_eq!(process_files("/src", &None, &Some(Vec::new())), Ok(Vec::new()));
}

#[test]
fn no_home_and_something_to_move() {
    assert_eq!(process_files("/src", &None, &listing()), Err(SortError::HomeDirUnresolved));
    assert_eq!(
        plan_entry("/src", &None, &entry("a.jpg", true)),
        Err(SortError::HomeDirUnresolved)
    );
    let last = Some(vec![entry("c.txt", true), entry("b.mov", true)]);
    assert_eq!(process_files("/src", &None, &last), Err(SortError::HomeDirUnresolved));
}

#[test]
fn steps_follow_the_listing() {
    let home = Some(String::from("/h"));
    let entries = Some(vec![entry("d", false), entry("z.gif", true), entry("a.mov", true)]);
    assert_eq!(
        process_files("s", &home, &entries),
        Ok(vec![
            Step::SkipNotFile,
            moving("s/z.gif", "/h/TestPics", "/h/TestPics/z.gif"),
            moving("s/a.mov", "/h/TestVids", "/h/TestVids/a.mov"),
        ])
    );
}

#[test]
fn outcome_of_each_step() {
    let step = moving("a", "b", "b/a");
    assert_eq!(step.outcome(true), Outcome::Moved);
    assert_eq!(step.outcome(false), Outcome::Failed);
    assert_eq!(Step::SkipOther.outcome(true), Outcome::SkippedOther);
    assert_eq!(Step::SkipOther.outcome(false), Outcome::SkippedOther);
    assert_eq!(Step::SkipNotFile.outcome(true), Outcome::SkippedNotFile);
    assert_eq!(Step::SkipNotFile.outcome(false), Outcome::SkippedNotFile);
}

#[test]
fn tally_counts_each_outcome_once() {
    assert_eq!(
        tally(&Vec::new()),
        Report { moved: 0, failed: 0, skipped_other: 0, skipped_not_file: 0 }
    );
    let all = vec![
        Outcome::Moved,
        Outcome::SkippedNotFile,
        Outcome::Failed,
        Outcome::Moved,
        Outcome::SkippedOther,
        Outcome::Moved,
        Outcome::SkippedNotFile,
    ];
    let report = tally(&all);
    assert_eq!(report, Report { moved: 3, failed: 1, skipped_other: 1, skipped_not_file: 2 });
    assert_eq!(
        report.moved + report.failed + report.skipped_other + report.skipped_not_file,
        all.len()
    );
}

#[test]
fn exit_codes() {
    let clean = Report { moved: 3, failed: 0, skipped_other: 1, skipped_not_file: 0 };
    let failed = Report { moved: 3, failed: 2, skipped_other: 1, skipped_not_file: 0 };
    assert_eq!(exit_code(&Ok(clean)), 0);
    assert_eq!(exit_code(&Ok(failed)), 1);
    assert_eq!(exit_code(&Err(SortError::Argument)), 2);
    assert_eq!(exit_code(&Err(SortError::InvalidPath)), 2);
    assert_eq!(exit_code(&Err(SortError::DirectoryRead)), 2);
    assert_eq!(exit_code(&Err(SortError::HomeDirUnresolved)), 2);
}

#[test]
fn an_unreadable_directory() {
    let home = Some(String::from("/home/u"));
    assert_eq!(process_files("/src", &home, &None), Err(SortError::DirectoryRead));
    assert_eq!(process_files("/src", &None, &None), Err(SortError::DirectoryRead));
}

#[test]
fn only_a_failed_move_is_an_error() {
    assert_eq!(Outcome::Failed.error(), Some(SortError::Move));
    assert_eq!(Outcome::Moved.error(), None);
    assert_eq!(Outcome::SkippedOther.error(), None);
    assert_eq!(Outcome::SkippedNotFile.error(), None);
}
