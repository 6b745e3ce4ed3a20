use next_plugin_gog::registry::{registration, Owner, RegisterReply, Registration};
use next_plugin_gog::watch::{watch_games, GameEvent, WaitStep, WatchStep};

/// Runs one poll. Catalog workers for the ids in `panics` panic; all others find
/// nothing in the catalog.
fn poll(wait: WaitStep, ids: Vec<i64>, panics: &[i64]) -> (WaitStep, Vec<String>, Vec<i64>) {
    let mut log = Vec::new();
    let mut asked = Vec::new();
    let mut step = wait.polled(Ok::<Vec<i64>, String>(ids));
    loop {
        step = match step {
            WatchStep::Wait(wait) => return (wait, log, asked),
            WatchStep::Resolve(resolve) => {
                let id = resolve.id();
                asked.push(id);
                if panics.contains(&id) {
                    resolve.resolved(Err("panic".to_string()))
                } else {
                    resolve.resolved(Ok(Err("not found".to_string())))
                }
            }
            WatchStep::Send(send) => {
                let (event, rest) = send.take();
                log.push(match event {
                    GameEvent::Added(game) => format!("+{}", game.id),
                    GameEvent::Removed { game_id, .. } => format!("-{game_id}"),
                });
                rest.sent(true)
            }
            WatchStep::Stop => panic!("somebody is watching"),
        };
    }
}

fn sorted(mut list: Vec<i64>) -> Vec<i64> {
    list.sort();
    list
}

#[test]
fn first_poll_adds_everything() {
    let (wait, log, _) = poll(watch_games(), vec![3, 1, 2], &[]);
    assert_eq!(log, vec!["+3", "+1", "+2"]);
    assert_eq!(sorted(wait.known().clone()), vec![1, 2, 3]);
}

#[test]
fn later_polls_report_changes_only() {
    let (wait, _, _) = poll(watch_games(), vec![1, 2, 3], &[]);
    let (wait, log, asked) = poll(wait, vec![1, 2, 3], &[]);
    assert!(log.is_empty() && asked.is_empty());
    let (wait, log, asked) = poll(wait, vec![4, 2], &[]);
    assert_eq!(log, vec!["+4", "-1", "-3"]);
    assert_eq!(asked, vec![4]);
    let (_, log, _) = poll(wait, vec![2, 1, 4], &[]);
    assert_eq!(log, vec!["+1"]);
}

#[test]
fn reported_ids_mirror_the_library() {
    let mut wait = watch_games();
    for ids in [vec![5, 6], vec![], vec![6, 6, 7], vec![7], vec![1, 2, 3, 4]] {
        let (next, _, _) = poll(wait, ids.clone(), &[]);
        let mut owned = sorted(ids);
        owned.dedup();
        assert_eq!(sorted(next.known().clone()), owned);
        wait = next;
    }
}

#[test]
fn listener_holds_the_library_after_each_poll() {
    let mut wait = watch_games();
    let mut held: Vec<String> = Vec::new();
    for ids in [vec![5, 6, 7], vec![7, -8], vec![], vec![1, 2, 1], vec![2, 1]] {
        let before = held.clone();
        let (next, log, _) = poll(wait, ids.clone(), &[]);
        for line in &log {
            let (sign, id) = line.split_at(1);
            if sign == "+" {
                assert!(!held.contains(&id.to_string()));
                held.push(id.to_string());
            } else {
                assert!(before.contains(&id.to_string()));
                held.retain(|other| other != id);
            }
        }
        let mut owned: Vec<String> = ids.iter().map(|id| id.to_string()).collect();
        owned.sort();
        owned.dedup();
        held.sort();
        assert_eq!(held, owned);
        wait = next;
    }
}

#[test]
fn poll_adds_in_order_then_removes() {
    let (wait, _, _) = poll(watch_games(), vec![10, 20, 30, 40], &[]);
    let (wait, log, _) = poll(wait, vec![5, 30, 3, 5, 9], &[]);
    assert_eq!(log, vec!["+5", "+3", "+9", "-10", "-20", "-40"]);
    let (_, log, _) = poll(wait, vec![8, 7, 6], &[7]);
    assert_eq!(log, vec!["+8", "+6", "-30", "-5", "-3", "-9"]);
}

#[test]
fn additions_and_removals_of_a_game_alternate() {
    let mut wait = watch_games();
    let mut news = Vec::new();
    for (ids, panics) in [
        (vec![1, 2], vec![1]), (vec![1], vec![]), (vec![1, 2], vec![]), (vec![], vec![]),
        (vec![1], vec![1]), (vec![], vec![]), (vec![2, 1], vec![]),
    ] {
        let (next, log, _) = poll(wait, ids, &panics);
        news.extend(log.into_iter().filter(|line| line.ends_with('1')));
        wait = next;
    }
    assert_eq!(news, vec!["+1", "-1", "+1"]);
}

#[test]
fn id_that_comes_twice_is_reported_once() {
    let (_, log, asked) = poll(watch_games(), vec![9, 9], &[]);
    assert_eq!(log, vec!["+9"]);
    assert_eq!(asked, vec![9]);
}

#[test]
fn panicked_worker_is_tried_again() {
    let (wait, log, asked) = poll(watch_games(), vec![1, 2, 1], &[1]);
    assert_eq!(log, vec!["+2"]);
    assert_eq!(asked, vec![1, 2, 1]);
    let (_, log, _) = poll(wait, vec![1, 2], &[]);
    assert_eq!(log, vec!["+1"]);
}

#[test]
fn failed_poll_is_skipped() {
    let (wait, _, _) = poll(watch_games(), vec![1, 2], &[]);
    match wait.polled(Err("stale session".to_string())) {
        WatchStep::Wait(wait) => assert_eq!(wait.known(), &vec![1, 2]),
        _ => panic!("a failed poll changes nothing"),
    }
}

#[test]
fn watch_stops_when_nobody_listens() {
    let step = watch_games().polled(Ok::<Vec<i64>, String>(vec![1]));
    let WatchStep::Resolve(resolve) = step else { panic!("a new id is resolved") };
    let WatchStep::Send(send) = resolve.resolved(Ok(Err(String::new()))) else {
        panic!("a resolved game is sent")
    };
    let (_, rest) = send.take();
    assert!(matches!(rest.sent(false), WatchStep::Stop));
}

#[test]
fn accepted_plugin_serves() {
    let reply = RegisterReply {
        accepted: true,
        registration_token: Some("t".to_string()),
        current_owner: None,
    };
    assert!(matches!(registration(reply), Registration::Serve { token } if token == "t"));
}

#[test]
fn rejected_plugin_refuses_to_start() {
    let owner = Owner { endpoint: "http://127.0.0.1:9".to_string(), plugin_version: "1.2".to_string() };
    let reply = RegisterReply { accepted: false, registration_token: None, current_owner: Some(owner) };
    match registration(reply) {
        Registration::Refuse { report } => assert_eq!(
            report.unwrap(),
            "Gog already owned by http://127.0.0.1:9 (v1.2); refusing to start"
        ),
        Registration::Serve { .. } => panic!("not accepted"),
    }
    let silent = RegisterReply { accepted: false, registration_token: None, current_owner: None };
    assert!(matches!(registration(silent), Registration::Refuse { report: None }));
}
