use emoji_fetch::catalog::{Catalog, Entry};
use emoji_fetch::driver::{Action, Run, RunReport};

fn entry(name: &str, target: &str) -> Entry {
    Entry { name: String::from(name), target: String::from(target) }
}

/// Drive a run to completion, simulating the shell: every download whose URL
/// is in `failing` fails with the given cause; the rest succeed. Returns the
/// report, the filenames "written", and how often progress advanced.
fn drive(catalog: Catalog, failing: &[&str], cause: &str) -> (RunReport, Vec<String>, usize) {
    let mut run = Run::new(catalog);
    let mut written: Vec<String> = Vec::new();
    let mut advances: usize = 0;
    while !run.is_complete() {
        advances += 1;
        match run.plan_current() {
            Action::Skip => run.note_skipped(),
            Action::Download { name: _, url, filename } => {
                if failing.contains(&url.as_str()) {
                    run.note_failed(String::from(cause));
                } else {
                    written.push(filename);
                    run.note_downloaded();
                }
            }
        }
    }
    let report = run.into_report();
    (report, written, advances)
}

#[test]
fn alias_is_skipped_and_image_is_downloaded() {
    let catalog = Catalog {
        entries: vec![
            entry("smile", "https://x/img.png"),
            entry("wave", "alias:smile"),
        ],
    };
    let (report, written, _) = drive(catalog, &[], "unused");
    assert_eq!(written, vec![String::from("smile.png")]);
    assert_eq!(report.total, 2);
    assert_eq!(report.skipped, 1);
    assert_eq!(report.succeeded, 1);
    assert!(report.failures.is_empty());
}

#[test]
fn failed_download_is_recorded_and_the_run_goes_on() {
    let catalog = Catalog { entries: vec![entry("broken", "https://x/404.png")] };
    let (report, written, _) = drive(catalog, &["https://x/404.png"], "request error");
    assert!(written.is_empty());
    assert_eq!(report.total, 1);
    assert_eq!(report.skipped, 0);
    assert_eq!(report.succeeded, 0);
    assert_eq!(report.failures.len(), 1);
    assert_eq!(report.failures[0].name, "broken");
    assert_eq!(report.failures[0].cause, "request error");
}

#[test]
fn url_without_a_dot_still_gets_a_file() {
    let catalog = Catalog { entries: vec![entry("blob", "https://x/blob")] };
    let (report, written, _) = drive(catalog, &[], "unused");
    assert_eq!(written, vec![String::from("blob.bin")]);
    assert_eq!(report.succeeded, 1);
    assert!(report.failures.is_empty());
}

#[test]
fn progress_advances_once_per_entry_whatever_the_mix() {
    let catalog = Catalog {
        entries: vec![
            entry("a", "https://x/a.png"),
            entry("b", "alias:a"),
            entry("c", "https://x/c.gif"),
            entry("d", "https://x/d.jpg"),
            entry("e", "alias:c"),
        ],
    };
    let (report, _, advances) = drive(catalog, &["https://x/c.gif"], "timed out");
    assert_eq!(advances, 5);
    assert_eq!(report.total, 5);
    assert_eq!(report.skipped + report.succeeded + report.failures.len(), 5);
}

#[test]
fn files_written_are_the_non_aliases_minus_the_failures() {
    let catalog = Catalog {
        entries: vec![
            entry("a", "https://x/a.png"),
            entry("b", "https://x/b.png"),
            entry("c", "https://x/c.png"),
            entry("d", "alias:a"),
        ],
    };
    let (report, written, _) = drive(catalog, &["https://x/b.png"], "refused");
    assert_eq!(written.len(), 3 - report.failures.len());
    assert_eq!(report.succeeded, 2);
    assert_eq!(report.skipped, 1);
}

#[test]
fn empty_catalog_reports_nothing() {
    let catalog = Catalog { entries: Vec::new() };
    let (report, written, advances) = drive(catalog, &[], "unused");
    assert_eq!(advances, 0);
    assert_eq!(report.total, 0);
    assert_eq!(report.skipped, 0);
    assert_eq!(report.succeeded, 0);
    assert!(report.failures.is_empty());
    assert!(written.is_empty());
}

#[test]
fn no_failure_is_recorded_under_an_alias_name() {
    let catalog = Catalog {
        entries: vec![
            entry("real", "https://x/real.png"),
            entry("nick", "alias:real"),
        ],
    };
    let (report, _, _) = drive(catalog, &["https://x/real.png"], "refused");
    assert_eq!(report.failures.len(), 1);
    assert_eq!(report.failures[0].name, "real");
    assert!(report.failures.iter().all(|f| f.name != "nick"));
}
