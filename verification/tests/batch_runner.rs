use heseya_importer::batch::{effective_permits, failed_indices, BatchAction, BatchRunner};
use heseya_importer::summary::{FileResult, ImportSummary};
use heseya_importer::outcome::{Failure, Outcome};
use heseya_importer::text::ends_with;

#[test]
fn report_follows_request_order_not_completion_order() {
    let mut runner = BatchRunner::new(3, 3).unwrap();
    assert_eq!(runner.next_action(), BatchAction::Dispatch(0));
    assert_eq!(runner.next_action(), BatchAction::Dispatch(1));
    assert_eq!(runner.next_action(), BatchAction::Dispatch(2));
    assert_eq!(runner.next_action(), BatchAction::Wait);
    assert!(runner.complete(2, Outcome::Success(202)));
    assert!(runner.complete(0, Outcome::Failure(Failure::Client(404))));
    assert!(runner.complete(1, Outcome::Success(201)));
    assert_eq!(runner.next_action(), BatchAction::Finished);
    let report = runner.into_report().unwrap();
    assert_eq!(
        report,
        vec![
            Outcome::Failure(Failure::Client(404)),
            Outcome::Success(201),
            Outcome::Success(202),
        ]
    );
}

#[test]
fn report_has_one_outcome_per_request() {
    for total in 0..6usize {
        let mut runner = BatchRunner::new(total, 2).unwrap();
        assert_eq!(runner.total(), total);
        loop {
            match runner.next_action() {
                BatchAction::Dispatch(index) => {
                    assert!(runner.complete(index, Outcome::Success(200)));
                }
                BatchAction::Wait => panic!("nothing is in flight"),
                BatchAction::Finished => break,
            }
        }
        assert_eq!(runner.into_report().unwrap().len(), total);
    }
}

#[test]
fn single_permit_runs_requests_in_turn() {
    let mut runner = BatchRunner::new(3, 1).unwrap();
    assert_eq!(runner.next_action(), BatchAction::Dispatch(0));
    assert_eq!(runner.in_flight(), 1);
    assert_eq!(runner.next_action(), BatchAction::Wait);
    assert_eq!(runner.next_action(), BatchAction::Wait);
    assert!(runner.complete(0, Outcome::Success(200)));
    assert_eq!(runner.in_flight(), 0);
    assert_eq!(runner.next_action(), BatchAction::Dispatch(1));
    assert_eq!(runner.next_action(), BatchAction::Wait);
    assert!(runner.complete(1, Outcome::Failure(Failure::Transport)));
    assert_eq!(runner.next_action(), BatchAction::Dispatch(2));
    assert!(runner.complete(2, Outcome::Success(204)));
    assert_eq!(runner.next_action(), BatchAction::Finished);
}

#[test]
fn permits_bound_the_requests_in_flight() {
    let mut runner = BatchRunner::new(5, 2).unwrap();
    assert_eq!(runner.next_action(), BatchAction::Dispatch(0));
    assert_eq!(runner.next_action(), BatchAction::Dispatch(1));
    assert_eq!(runner.next_action(), BatchAction::Wait);
    assert_eq!(runner.in_flight(), 2);
    assert!(runner.complete(1, Outcome::Success(200)));
    assert_eq!(runner.next_action(), BatchAction::Dispatch(2));
    assert_eq!(runner.next_action(), BatchAction::Wait);
    assert_eq!(runner.in_flight(), 2);
}

#[test]
fn completion_counts_once_and_only_for_started_requests() {
    let mut runner = BatchRunner::new(2, 2).unwrap();
    assert!(!runner.complete(0, Outcome::Success(200)));
    assert_eq!(runner.next_action(), BatchAction::Dispatch(0));
    assert!(!runner.complete(1, Outcome::Success(200)));
    assert!(!runner.complete(7, Outcome::Success(200)));
    assert!(runner.complete(0, Outcome::Success(200)));
    assert!(!runner.complete(0, Outcome::Failure(Failure::Transport)));
    assert_eq!(runner.next_action(), BatchAction::Dispatch(1));
    assert!(runner.complete(1, Outcome::Success(201)));
    assert_eq!(
        runner.into_report().unwrap(),
        vec![Outcome::Success(200), Outcome::Success(201)]
    );
}

#[test]
fn report_is_withheld_until_every_request_completed() {
    let mut runner = BatchRunner::new(2, 2).unwrap();
    assert_eq!(runner.next_action(), BatchAction::Dispatch(0));
    assert_eq!(runner.next_action(), BatchAction::Dispatch(1));
    assert!(runner.complete(1, Outcome::Success(200)));
    assert!(runner.into_report().is_none());
    let fresh = BatchRunner::new(1, 1).unwrap();
    assert!(fresh.into_report().is_none());
}

#[test]
fn a_batch_with_requests_needs_a_permit() {
    assert!(BatchRunner::new(3, 0).is_none());
    let mut empty = BatchRunner::new(0, 0).unwrap();
    assert_eq!(empty.next_action(), BatchAction::Finished);
    assert_eq!(empty.into_report().unwrap(), Vec::<Outcome>::new());
}

#[test]
fn sequential_file_name_forces_one_permit() {
    assert_eq!(effective_permits("./requests/02-synchronic.json", 8), 1);
    assert_eq!(effective_permits("synchronic.json", 8), 1);
    assert_eq!(effective_permits("./requests/01-products.json", 8), 8);
    assert_eq!(effective_permits("synchronic.json.bak", 8), 8);
    assert_eq!(effective_permits("", 4), 4);
    assert_eq!(effective_permits("ynchronic.json", 4), 4);
}

#[test]
fn ends_with_compares_the_tail() {
    assert!(ends_with("abc", "bc"));
    assert!(ends_with("abc", ""));
    assert!(ends_with("abc", "abc"));
    assert!(!ends_with("abc", "ab"));
    assert!(!ends_with("bc", "abc"));
    assert!(ends_with("zażółć", "łć"));
}

#[test]
fn failed_indices_are_ascending() {
    let report = vec![
        Outcome::Success(200),
        Outcome::Failure(Failure::Server(503)),
        Outcome::Success(204),
        Outcome::Failure(Failure::AuthExpired),
        Outcome::Failure(Failure::UnsupportedField),
    ];
    assert_eq!(failed_indices(&report), vec![1, 3, 4]);
    assert_eq!(failed_indices(&vec![Outcome::Success(200)]), Vec::<usize>::new());
    assert_eq!(failed_indices(&Vec::new()), Vec::<usize>::new());
}

#[test]
fn summary_lists_failed_and_incomplete_files() {
    let mut summary = ImportSummary::new();
    assert!(summary.is_clean());
    summary.record(0, "a.json".to_string(), FileResult::Imported(Vec::new()));
    assert!(summary.is_clean());
    summary.record(1, "b.json".to_string(), FileResult::Failed);
    summary.record(2, "c.json".to_string(), FileResult::Imported(vec![0, 4]));
    assert!(!summary.is_clean());
    assert_eq!(summary.failed_files.len(), 1);
    assert_eq!(summary.failed_files[0].position, 2);
    assert_eq!(summary.failed_files[0].name, "b.json");
    assert_eq!(summary.incomplete_files.len(), 1);
    assert_eq!(summary.incomplete_files[0].file.position, 3);
    assert_eq!(summary.incomplete_files[0].file.name, "c.json");
    assert_eq!(summary.incomplete_files[0].failed_requests, vec![0, 4]);
}
