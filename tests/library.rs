use resy_rust::booking::{
    authorization_value, booking_config_for, commit_form_body, commit_form_for,
    commit_form_from_encoded, decimal_string, find_slots_url, first_venue_slots, race_result,
    select_matching, select_payment_id, venue_details_url,
};
use resy_rust::error::ResyError;
use resy_rust::poll::{filter_matching, poll_step, run_poll, Observation, PollDecision, PollOutcome};
use resy_rust::race::{
    after_failure, backoff_delay_ms, race_outcome, simulate_race, BookingOutcome, RaceState,
};
use resy_rust::types::{
    matches_folded, time_of_day_of, BookToken, DetailsResponse, FindResponse, PaymentMethod,
    Results, Slot, SlotConfig, SlotDate, User, Venue,
};

fn slot(start: &str, kind: &str, token: &str) -> Slot {
    Slot {
        date: SlotDate { start: start.to_string() },
        config: SlotConfig { slot_type: kind.to_string(), token: token.to_string() },
    }
}

fn strings(v: &[&str]) -> Vec<String> {
    v.iter().map(|s| s.to_string()).collect()
}

fn details(token: &str, methods: Option<Vec<u64>>) -> DetailsResponse {
    DetailsResponse {
        book_token: BookToken { value: token.to_string() },
        user: User {
            payment_methods: methods.map(|m| m.into_iter().map(|id| PaymentMethod { id }).collect()),
        },
    }
}

fn issued_sum(report: &resy_rust::race::RaceReport) -> u64 {
    report.workers.iter().map(|w| w.issued).sum()
}

fn winners(report: &resy_rust::race::RaceReport) -> usize {
    report.workers.iter().filter(|w| w.won).count()
}

#[test]
fn empty_filters_match_any_slot() {
    for s in [
        slot("2024-05-01 19:00:00", "Indoor", "t"),
        slot("", "", ""),
        slot("garbage", "Patio", "x"),
    ] {
        assert!(s.matches(&[], &[]));
    }
}

#[test]
fn type_filter_ignores_case() {
    let s = slot("2024-05-01 19:00:00", "INDOOR", "t");
    assert!(s.matches(&[], &strings(&["indoor"])));
    assert!(s.matches(&[], &strings(&["InDoOr"])));
    assert!(!s.matches(&[], &strings(&["outdoor"])));
    assert!(!s.matches(&[], &strings(&["indoors"])));
}

#[test]
fn time_filter_is_exact() {
    let s = slot("2024-05-01 19:00:00", "Indoor", "t");
    assert!(s.matches(&strings(&["19:00:00"]), &[]));
    assert!(!s.matches(&strings(&["19:00"]), &[]));
    assert!(!s.matches(&strings(&["9:00:00"]), &[]));
    assert!(!s.matches(&strings(&["19:00:00 "]), &[]));
    assert!(s.matches(&strings(&["18:00:00", "19:00:00"]), &[]));
}

#[test]
fn both_filters_must_hold() {
    let s = slot("2024-05-01 19:00:00", "Indoor", "t");
    assert!(s.matches(&strings(&["19:00:00"]), &strings(&["indoor"])));
    assert!(!s.matches(&strings(&["19:00:00"]), &strings(&["patio"])));
    assert!(!s.matches(&strings(&["20:00:00"]), &strings(&["indoor"])));
}

#[test]
fn time_of_day_is_second_word() {
    assert_eq!(time_of_day_of("2024-05-01 19:00:00"), "19:00:00");
    assert_eq!(time_of_day_of("  2024-05-01\t 19:30:00  extra"), "19:30:00");
    assert_eq!(time_of_day_of("2024-05-01"), "");
    assert_eq!(time_of_day_of(""), "");
    assert_eq!(time_of_day_of("a\u{3000}b"), "b");
}

#[test]
fn folded_decision() {
    let t = "19:00:00".to_string();
    let k = "indoor".to_string();
    assert!(matches_folded(&t, &k, &[], &[]));
    assert!(matches_folded(&t, &k, &strings(&["19:00:00"]), &strings(&["indoor"])));
    assert!(!matches_folded(&t, &k, &strings(&["19:00:00"]), &strings(&["Indoor"])));
}

#[test]
fn filter_keeps_order() {
    let slots = vec![
        slot("d 18:00:00", "Indoor", "a"),
        slot("d 19:00:00", "Patio", "b"),
        slot("d 20:00:00", "indoor", "c"),
    ];
    let m = filter_matching(&slots, &[], &strings(&["INDOOR"]));
    let tokens: Vec<&str> = m.iter().map(|s| s.config.token.as_str()).collect();
    assert_eq!(tokens, vec!["a", "c"]);
}

#[test]
fn poll_step_decisions() {
    let times = strings(&["19:00:00"]);
    let hit = Some(vec![slot("d 19:00:00", "Indoor", "a"), slot("d 18:00:00", "Indoor", "b")]);
    match poll_step(&hit, &times, &[], 0, 1000) {
        PollDecision::Found(v) => {
            assert_eq!(v.len(), 1);
            assert_eq!(v[0].config.token, "a");
        }
        _ => panic!("expected a match"),
    }
    let miss = Some(vec![slot("d 18:00:00", "Indoor", "b")]);
    assert!(matches!(poll_step(&miss, &times, &[], 999, 1000), PollDecision::Continue));
    assert!(matches!(poll_step(&miss, &times, &[], 1000, 1000), PollDecision::TimedOut));
    assert!(matches!(poll_step(&None, &times, &[], 5, 1000), PollDecision::Continue));
    assert!(matches!(poll_step(&Some(vec![]), &[], &[], 2000, 1000), PollDecision::TimedOut));
}

#[test]
fn poller_issues_k_plus_one_queries() {
    let k = 4u64;
    let mut obs = Vec::new();
    for i in 0..k {
        let fetched = if i % 2 == 0 { Some(vec![]) } else { None };
        obs.push(Observation { fetched, elapsed_ms: 0 });
    }
    obs.push(Observation { fetched: Some(vec![slot("d 19:00:00", "Indoor", "win")]), elapsed_ms: 0 });
    obs.push(Observation { fetched: Some(vec![slot("d 19:00:00", "Indoor", "late")]), elapsed_ms: 0 });
    match run_poll(&obs, &[], &[], 1000) {
        PollOutcome::Found { slots, attempts } => {
            assert_eq!(attempts, k + 1);
            assert_eq!(slots.len(), 1);
            assert_eq!(slots[0].config.token, "win");
        }
        _ => panic!("expected a match"),
    }
}

#[test]
fn poller_times_out_in_step_with_interval() {
    let interval = 100u64;
    let obs: Vec<Observation> = (0..50u64)
        .map(|j| Observation { fetched: Some(vec![]), elapsed_ms: j * interval })
        .collect();
    match run_poll(&obs, &[], &[], 1000) {
        PollOutcome::TimedOut { elapsed_ms, attempts } => {
            assert_eq!(elapsed_ms, 1000);
            assert_eq!(attempts, 11);
            assert!((elapsed_ms / interval).abs_diff(attempts) <= 1);
        }
        _ => panic!("expected a timeout"),
    }
}

#[test]
fn poller_pending_when_observations_run_out() {
    let obs = vec![
        Observation { fetched: None, elapsed_ms: 1 },
        Observation { fetched: Some(vec![slot("d 18:00:00", "Indoor", "x")]), elapsed_ms: 2 },
    ];
    let r = run_poll(&obs, &strings(&["19:00:00"]), &[], 1000);
    assert!(matches!(r, PollOutcome::Pending { attempts: 2 }));
}

#[test]
fn race_all_failing_exhausts_exactly() {
    for (w, r) in [(1usize, 1u64), (3, 4), (5, 5), (2, 0), (0, 3)] {
        let report = simulate_race(w, r, &vec![0, 1, 0, 2, 1], &vec![]);
        assert!(!report.outcome.succeeded());
        assert_eq!(report.outcome.attempts(), w as u64 * r);
        assert!(matches!(report.outcome, BookingOutcome::Exhausted { .. }));
        assert_eq!(winners(&report), 0);
    }
}

#[test]
fn race_everyone_succeeds_first_one_winner() {
    let w = 3usize;
    let results = vec![vec![true]; w];
    // every worker starts its attempt before any of them finishes
    let report = simulate_race(w, 5, &vec![0, 1, 2, 0, 1, 2], &results);
    assert!(report.outcome.succeeded());
    assert_eq!(winners(&report), 1);
    assert!(report.workers[0].won);
    assert_eq!(report.outcome.attempts(), 3);
    // run sequentially: later workers see the flag and never attempt
    let report = simulate_race(w, 5, &vec![], &results);
    assert_eq!(winners(&report), 1);
    assert_eq!(report.outcome.attempts(), 1);
}

#[test]
fn race_count_is_sum_of_issued() {
    let results = vec![vec![false, false, true], vec![false, true], vec![false; 4]];
    let schedules: Vec<Vec<usize>> = vec![
        vec![],
        vec![2, 2, 2, 2, 1, 1, 0, 0],
        vec![0, 1, 2, 0, 1, 2, 0, 1, 2, 0, 1, 2, 7],
        vec![1, 0, 1, 2, 1, 0, 2, 2, 0, 0, 0, 0, 1],
        (0..40).map(|i| (i * 7 + 3) % 3).collect(),
    ];
    for sch in schedules {
        let report = simulate_race(3, 4, &sch, &results);
        assert_eq!(report.outcome.attempts(), issued_sum(&report));
        assert!(winners(&report) <= 1);
        assert_eq!(report.outcome.succeeded(), winners(&report) == 1);
        assert!(report.workers.iter().all(|w| w.done && w.issued <= 4));
    }
}

#[test]
fn shared_state_transitions() {
    let mut st = RaceState::new();
    assert!(st.begin_attempt());
    assert!(st.begin_attempt());
    assert_eq!(st.attempts, 2);
    assert!(st.claim_success());
    assert!(!st.claim_success());
    assert!(!st.begin_attempt());
    assert_eq!(st.attempts, 2);
    assert!(matches!(st.outcome(vec![]), BookingOutcome::Success { attempts: 2 }));
}

#[test]
fn backoff_schedule() {
    assert_eq!(backoff_delay_ms(0), 50);
    assert_eq!(backoff_delay_ms(3), 200);
    assert_eq!(after_failure(0, 3), Some(50));
    assert_eq!(after_failure(1, 3), Some(100));
    assert_eq!(after_failure(2, 3), None);
}

#[test]
fn outcome_and_result() {
    let ok = race_outcome(true, 4, vec![]);
    assert!(matches!(race_result(&ok, 3), Ok(4)));
    let bad = race_outcome(false, 6, vec!["boom".to_string()]);
    match &bad {
        BookingOutcome::Exhausted { attempts, errors } => {
            assert_eq!(*attempts, 6);
            assert_eq!(errors.len(), 1);
        }
        _ => panic!("expected exhausted"),
    }
    assert!(matches!(race_result(&bad, 3), Err(ResyError::Exhausted { attempts: 6, workers: 3 })));
}

#[test]
fn payment_choice_is_first_listed() {
    assert_eq!(select_payment_id(&details("t", Some(vec![11, 22]))), Some(11));
    assert_eq!(select_payment_id(&details("t", Some(vec![]))), None);
    assert_eq!(select_payment_id(&details("t", None)), None);
}

#[test]
fn commit_form_encodes_parts() {
    assert_eq!(commit_form_body("abc", None), "book_token=abc");
    assert_eq!(commit_form_body("a b&c", None), "book_token=a%20b%26c");
    assert_eq!(
        commit_form_body("tok", Some(7)),
        "book_token=tok&struct_payment_method=%7B%22id%22%3A7%7D"
    );
    assert_eq!(
        commit_form_for(&details("x=y", Some(vec![123456]))),
        "book_token=x%3Dy&struct_payment_method=%7B%22id%22%3A123456%7D"
    );
    assert_eq!(commit_form_for(&details("q", None)), "book_token=q");
    assert_eq!(commit_form_from_encoded("A", Some("B")), "book_token=A&struct_payment_method=B");
}

#[test]
fn request_addresses() {
    assert_eq!(decimal_string(0), "0");
    assert_eq!(decimal_string(2), "2");
    assert_eq!(decimal_string(1234567890), "1234567890");
    assert_eq!(decimal_string(u64::MAX), u64::MAX.to_string());
    assert_eq!(venue_details_url("42"), "https://api.resy.com/2/config?venue_id=42");
    assert_eq!(
        find_slots_url("42", 2, "2024-05-01"),
        "https://api.resy.com/4/find?party_size=2&venue_id=42&day=2024-05-01&lat=0&long=0"
    );
    assert_eq!(authorization_value("KEY"), "ResyAPI api_key=\"KEY\"");
}

#[test]
fn token_exchange_request() {
    let s = slot("2024-05-01 19:00:00", "Indoor", "claim-1");
    let c = booking_config_for(&s, "2024-05-01", 2);
    assert_eq!(c.config_id, "claim-1");
    assert_eq!(c.day, "2024-05-01");
    assert_eq!(c.party_size, 2);
}

#[test]
fn search_reply_handling() {
    let empty = FindResponse { results: Results { venues: vec![] } };
    assert!(matches!(first_venue_slots(&empty), Err(ResyError::NoAvailability)));
    let one = FindResponse {
        results: Results {
            venues: vec![
                Venue { slots: vec![slot("d 19:00:00", "Indoor", "a")] },
                Venue { slots: vec![slot("d 20:00:00", "Indoor", "b")] },
            ],
        },
    };
    let got = first_venue_slots(&one).unwrap();
    assert_eq!(got.len(), 1);
    assert_eq!(got[0].config.token, "a");
    assert!(matches!(
        select_matching(&got, &strings(&["21:00:00"]), &[]),
        Err(ResyError::NoMatch)
    ));
    assert_eq!(select_matching(&got, &[], &[]).unwrap().len(), 1);
}

#[test]
fn end_to_end_scenario() {
    let times = strings(&["19:00:00"]);
    let obs = vec![Observation {
        fetched: Some(vec![slot("2024-05-01 19:00:00", "Indoor", "claim")]),
        elapsed_ms: 0,
    }];
    let matched = match run_poll(&obs, &times, &[], 120_000) {
        PollOutcome::Found { slots, attempts } => {
            assert_eq!(attempts, 1);
            slots
        }
        _ => panic!("expected an immediate match"),
    };
    assert_eq!(matched.len(), 1);
    assert_eq!(matched[0].date.start, "2024-05-01 19:00:00");
    let cfg = booking_config_for(&matched[0], "2024-05-01", 2);
    assert_eq!(cfg.config_id, "claim");
    let results = vec![vec![false, false], vec![true], vec![false, false]];
    let report = simulate_race(3, 2, &vec![0, 1, 2, 0, 1, 2], &results);
    assert!(report.outcome.succeeded());
    assert!(report.outcome.attempts() >= 1);
    assert!(report.workers[1].won);
    assert!(matches!(race_result(&report.outcome, 3), Ok(n) if n >= 1));
}
