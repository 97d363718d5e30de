use apalis_surrealdb::queues::{
    list_queues, ActivityRow, QueueCountsRow, QueueOldestRow, QueueWorkerRow, SECS_PER_DAY,
};
use apalis_surrealdb::stats::{build_statistics, OverviewCounts, StatKind};

fn counts(total: i64, done: i64, finished: i64) -> OverviewCounts {
    OverviewCounts {
        total,
        pending: 2,
        running: 1,
        failed: 3,
        done,
        killed: 4,
        backlog: 5,
        past_hour: 6,
        finished,
        dur_secs: 120,
    }
}

#[test]
fn statistics_in_board_order() {
    let stats = build_statistics(&counts(10, 4, 2), Some(1_700_000_000), "40", "1");
    let titles: Vec<&str> = stats.iter().map(|s| s.title.as_str()).collect();
    assert_eq!(
        titles,
        vec![
            "PENDING_JOBS",
            "RUNNING_JOBS",
            "FAILED_JOBS",
            "JOBS_PAST_HOUR",
            "TOTAL_JOBS",
            "DONE_JOBS",
            "KILLED_JOBS",
            "SUCCESS_RATE",
            "AVG_JOB_DURATION_MINS",
            "QUEUE_BACKLOG",
            "OLDEST_PENDING_JOB",
        ]
    );
    let values: Vec<&str> = stats.iter().map(|s| s.value.as_str()).collect();
    assert_eq!(values, vec!["2", "1", "3", "6", "10", "4", "4", "40", "1", "5", "1700000000"]);
    let priorities: Vec<u64> = stats.iter().map(|s| s.priority).collect();
    assert_eq!(priorities, vec![1, 1, 2, 3, 4, 4, 4, 4, 5, 5, 8]);
    assert_eq!(stats[7].kind, StatKind::Percentage);
    assert_eq!(stats[8].kind, StatKind::Decimal);
    assert_eq!(stats[10].kind, StatKind::Timestamp);
    assert_eq!(stats[0].kind, StatKind::Number);
}

#[test]
fn empty_scope_reads_zero() {
    let stats = build_statistics(&OverviewCounts::zero(), None, "99", "99");
    assert!(stats.iter().all(|s| s.value == "0"));
}

#[test]
fn queues_sorted_with_workers_and_week() {
    let today = 20_000i64;
    let day = |offset: i64| (today - offset) * SECS_PER_DAY + 5;
    let rows = vec![
        QueueCountsRow { queue: "mail".into(), counts: counts(1, 1, 1), success_rate: "100".into(), avg_duration: "2".into() },
        QueueCountsRow { queue: "billing".into(), counts: counts(4, 1, 0), success_rate: "25".into(), avg_duration: "9".into() },
    ];
    let oldest = vec![
        QueueOldestRow { queue: "mail".into(), oldest_unix: Some(5) },
        QueueOldestRow { queue: "mail".into(), oldest_unix: Some(7) },
    ];
    let acts = vec![
        ActivityRow { queue: "mail".into(), day: day(0), done_count: 3 },
        ActivityRow { queue: "mail".into(), day: day(6), done_count: 1 },
        ActivityRow { queue: "mail".into(), day: day(7), done_count: 9 },
        ActivityRow { queue: "billing".into(), day: day(2), done_count: 2 },
        ActivityRow { queue: "ghost".into(), day: day(1), done_count: 8 },
    ];
    let workers = vec![
        QueueWorkerRow { name: "w1".into(), queue: "mail".into() },
        QueueWorkerRow { name: "w2".into(), queue: "audit".into() },
        QueueWorkerRow { name: "w3".into(), queue: "mail".into() },
    ];
    let queues = list_queues(&rows, &oldest, &acts, &workers, today);
    let names: Vec<&str> = queues.iter().map(|q| q.name.as_str()).collect();
    assert_eq!(names, vec!["audit", "billing", "mail"]);

    let audit = &queues[0];
    assert_eq!(audit.workers, vec!["w2".to_string()]);
    assert_eq!(audit.activity, vec![0; 7]);
    assert!(audit.stats.iter().all(|s| s.value == "0"));

    let billing = &queues[1];
    assert!(billing.workers.is_empty());
    assert_eq!(billing.activity, vec![0, 0, 0, 0, 2, 0, 0]);
    assert_eq!(billing.stats[7].value, "25");
    assert_eq!(billing.stats[8].value, "0");
    assert_eq!(billing.stats[10].value, "0");

    let mail = &queues[2];
    assert_eq!(mail.workers, vec!["w1".to_string(), "w3".to_string()]);
    assert_eq!(mail.activity, vec![1, 0, 0, 0, 0, 0, 3]);
    assert_eq!(mail.stats[10].value, "7");
}

#[test]
fn repeated_queue_row_takes_activity_once() {
    let today = 100i64;
    let rows = vec![
        QueueCountsRow { queue: "q".into(), counts: counts(1, 1, 1), success_rate: "100".into(), avg_duration: "2".into() },
        QueueCountsRow { queue: "q".into(), counts: counts(2, 1, 1), success_rate: "50".into(), avg_duration: "2".into() },
    ];
    let acts = vec![ActivityRow { queue: "q".into(), day: today * SECS_PER_DAY, done_count: 4 }];
    let queues = list_queues(&rows, &Vec::new(), &acts, &Vec::new(), today);
    assert_eq!(queues.len(), 1);
    assert_eq!(queues[0].stats[4].value, "2");
    assert_eq!(queues[0].activity, vec![0; 7]);
}

#[test]
fn days_before_the_epoch_round_toward_zero() {
    let rows = vec![QueueCountsRow { queue: "q".into(), counts: counts(1, 1, 1), success_rate: "1".into(), avg_duration: "1".into() }];
    // -1 second lies on day 0 when rounding toward zero
    let acts = vec![ActivityRow { queue: "q".into(), day: -1, done_count: 2 }];
    let queues = list_queues(&rows, &Vec::new(), &acts, &Vec::new(), 0);
    assert_eq!(queues[0].activity, vec![0, 0, 0, 0, 0, 0, 2]);
}
