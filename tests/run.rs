use block_sync::block::{Block, Operation, Transaction};
use block_sync::migrate::{FetchedBlock, SourceRecord};
use block_sync::resume::{plan_resume, Plan};
use block_sync::window::{Migration, Window, WINDOW_SIZE};

fn all_windows(m: &mut Migration) -> Vec<Window> {
    let mut ws = Vec::new();
    while let Some(w) = m.next_window() {
        ws.push(w);
    }
    ws
}

fn fetched(idx: u64, ok: bool) -> FetchedBlock {
    let decoded = if ok {
        Ok(Block {
            parent_hash: None,
            transaction: Transaction {
                operation: Operation::Mint { to: vec![1; 32], amount: 1 },
                memo: 0,
                created_at_time: 0,
            },
            timestamp: 0,
        })
    } else {
        Err("truncated".to_string())
    };
    FetchedBlock { record: SourceRecord { idx, hash: vec![1], block: vec![2], verified: true }, decoded }
}

#[test]
fn empty_source_plans_nothing() {
    assert_eq!(plan_resume(None, None), Plan::SourceEmpty);
    assert_eq!(plan_resume(Some(17), None), Plan::SourceEmpty);
}

#[test]
fn empty_target_starts_at_zero() {
    assert_eq!(plan_resume(None, Some(2499)), Plan::Migrate { start: 0, last: 2499 });
    assert_eq!(plan_resume(None, Some(0)), Plan::Migrate { start: 0, last: 0 });
}

#[test]
fn resume_starts_after_target_max() {
    assert_eq!(plan_resume(Some(99), Some(250)), Plan::Migrate { start: 100, last: 250 });
    assert_eq!(plan_resume(Some(249), Some(250)), Plan::Migrate { start: 250, last: 250 });
}

#[test]
fn second_run_is_fully_synced() {
    assert_eq!(plan_resume(Some(2499), Some(2499)), Plan::FullySynced { last_source: 2499 });
    assert_eq!(plan_resume(Some(3000), Some(2499)), Plan::FullySynced { last_source: 2499 });
}

#[test]
fn target_at_largest_index_is_fully_synced() {
    assert_eq!(plan_resume(Some(u64::MAX), Some(u64::MAX)), Plan::FullySynced { last_source: u64::MAX });
}

#[test]
fn chunking_2500_blocks_in_windows_of_1000() {
    let plan = plan_resume(None, Some(2499));
    let (start, last) = match plan {
        Plan::Migrate { start, last } => (start, last),
        _ => panic!("work to do"),
    };
    let mut m = Migration::new(start, last, WINDOW_SIZE);
    let ws = all_windows(&mut m);
    assert_eq!(
        ws,
        vec![
            Window { first: 0, last: 999 },
            Window { first: 1000, last: 1999 },
            Window { first: 2000, last: 2499 },
        ]
    );
    assert!(m.is_complete());
    assert_eq!(m.next_window(), None);
}

#[test]
fn every_index_once_whatever_the_window_size() {
    for size in [1u64, 7, 999, 1000, 1001, 2500, 10_000] {
        let mut m = Migration::new(0, 2499, size);
        let ws = all_windows(&mut m);
        let mut seen = vec![0u32; 2500];
        for w in &ws {
            assert!(w.last - w.first < size);
            for i in w.first..=w.last {
                seen[i as usize] += 1;
            }
        }
        assert!(seen.iter().all(|&c| c == 1));
        assert_eq!(ws.last().map(|w| w.last), Some(2499));
    }
}

#[test]
fn single_index_range_is_one_window() {
    let mut m = Migration::new(250, 250, WINDOW_SIZE);
    assert_eq!(m.next_window(), Some(Window { first: 250, last: 250 }));
    assert_eq!(m.next_window(), None);
    assert!(m.is_complete());
}

#[test]
fn windows_reach_the_largest_index() {
    let mut m = Migration::new(u64::MAX - 1500, u64::MAX, WINDOW_SIZE);
    let ws = all_windows(&mut m);
    assert_eq!(
        ws,
        vec![
            Window { first: u64::MAX - 1500, last: u64::MAX - 501 },
            Window { first: u64::MAX - 500, last: u64::MAX },
        ]
    );
}

#[test]
fn decode_failure_stops_the_run() {
    let mut m = Migration::new(0, 2499, WINDOW_SIZE);
    let w = m.next_window();
    assert_eq!(w, Some(Window { first: 0, last: 999 }));
    assert!(m.accept(&vec![fetched(0, true), fetched(1, true)]).is_ok());
    assert_eq!(m.next_window(), Some(Window { first: 1000, last: 1999 }));
    assert!(m.accept(&vec![fetched(1000, true), fetched(1001, false)]).is_err());
    assert_eq!(m.next_window(), None);
    assert!(!m.is_complete());
}

#[test]
fn unfinished_run_is_not_complete() {
    let mut m = Migration::new(0, 2499, WINDOW_SIZE);
    assert!(!m.is_complete());
    m.next_window();
    assert!(!m.is_complete());
}
