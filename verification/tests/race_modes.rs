use std::sync::mpsc::channel;
use std::time::Duration;
use tzupdate::error::ResolveError;
use tzupdate::lookups::SpawnedRequests;
use tzupdate::race::{first_reply, get_timezone_consensus, get_timezone_first, resolve, Mode};
use tzupdate::resolver::Recv;

#[test]
fn first_reply_maps_each_signal() {
    assert_eq!(first_reply(Recv::Reply("UTC".to_string())), Ok("UTC".to_string()));
    assert_eq!(first_reply(Recv::Timeout), Err(ResolveError::TimedOut));
    assert_eq!(first_reply(Recv::Disconnected), Err(ResolveError::AllFailed));
}

#[test]
fn first_mode_returns_the_first_value_on_the_channel() {
    let (sender, receiver) = channel();
    sender.send("Europe/Paris".to_string()).unwrap();
    sender.send("Europe/London".to_string()).unwrap();
    let mut requests = SpawnedRequests::new(receiver, 7);
    assert_eq!(
        get_timezone_first(&mut requests, Duration::from_secs(5)),
        Ok("Europe/Paris".to_string())
    );
}

#[test]
fn first_mode_times_out_while_workers_are_silent() {
    let (sender, receiver) = channel::<String>();
    let mut requests = SpawnedRequests::new(receiver, 7);
    assert_eq!(
        get_timezone_first(&mut requests, Duration::from_millis(20)),
        Err(ResolveError::TimedOut)
    );
    drop(sender);
}

#[test]
fn first_mode_fails_when_every_worker_gave_up() {
    let (sender, receiver) = channel::<String>();
    drop(sender);
    let mut requests = SpawnedRequests::new(receiver, 7);
    assert_eq!(
        get_timezone_first(&mut requests, Duration::from_secs(5)),
        Err(ResolveError::AllFailed)
    );
}

#[test]
fn consensus_mode_returns_on_majority_without_waiting() {
    let (sender, receiver) = channel();
    let replies =
        ["Europe/London", "Europe/Paris", "Europe/London", "Europe/London", "Europe/London"];
    for zone in replies {
        sender.send(zone.to_string()).unwrap();
    }
    // The sender stays alive and the deadline is far: only the majority can
    // end this race.
    let mut requests = SpawnedRequests::new(receiver, 7);
    assert_eq!(
        get_timezone_consensus(&mut requests, Duration::from_secs(3600)),
        Ok("Europe/London".to_string())
    );
    drop(sender);
}

#[test]
fn consensus_mode_returns_when_all_have_replied() {
    let (sender, receiver) = channel();
    for zone in ["Asia/Tokyo", "Europe/Paris", "UTC", "America/Lima", "Africa/Cairo"] {
        sender.send(zone.to_string()).unwrap();
    }
    let mut requests = SpawnedRequests::new(receiver, 5);
    assert_eq!(
        get_timezone_consensus(&mut requests, Duration::from_secs(3600)),
        Ok("Asia/Tokyo".to_string())
    );
    drop(sender);
}

#[test]
fn consensus_mode_settles_at_the_deadline() {
    let (sender, receiver) = channel();
    for zone in ["Europe/Paris", "UTC", "UTC"] {
        sender.send(zone.to_string()).unwrap();
    }
    let mut requests = SpawnedRequests::new(receiver, 7);
    assert_eq!(
        get_timezone_consensus(&mut requests, Duration::from_millis(20)),
        Ok("UTC".to_string())
    );
    drop(sender);
}

#[test]
fn consensus_mode_settles_when_no_worker_is_left() {
    let (sender, receiver) = channel();
    for zone in ["Europe/Paris", "UTC", "UTC", "Europe/Paris"] {
        sender.send(zone.to_string()).unwrap();
    }
    drop(sender);
    let mut requests = SpawnedRequests::new(receiver, 7);
    assert_eq!(
        get_timezone_consensus(&mut requests, Duration::from_secs(3600)),
        Ok("Europe/Paris".to_string())
    );
}

#[test]
fn consensus_mode_times_out_without_replies() {
    let (sender, receiver) = channel::<String>();
    let mut requests = SpawnedRequests::new(receiver, 7);
    assert_eq!(
        get_timezone_consensus(&mut requests, Duration::from_millis(20)),
        Err(ResolveError::TimedOut)
    );
    drop(sender);
}

#[test]
fn consensus_mode_with_no_time_at_all_times_out() {
    let (sender, receiver) = channel();
    sender.send("UTC".to_string()).unwrap();
    let mut requests = SpawnedRequests::new(receiver, 7);
    assert_eq!(get_timezone_consensus(&mut requests, Duration::ZERO), Err(ResolveError::TimedOut));
    drop(sender);
}

#[test]
fn consensus_mode_fails_when_every_worker_gave_up() {
    let (sender, receiver) = channel::<String>();
    drop(sender);
    let mut requests = SpawnedRequests::new(receiver, 7);
    assert_eq!(
        get_timezone_consensus(&mut requests, Duration::from_secs(3600)),
        Err(ResolveError::AllFailed)
    );
}

#[test]
fn consensus_mode_accepts_a_deadline_beyond_the_clock() {
    let (sender, receiver) = channel();
    sender.send("UTC".to_string()).unwrap();
    drop(sender);
    let mut requests = SpawnedRequests::new(receiver, 7);
    assert_eq!(get_timezone_consensus(&mut requests, Duration::MAX), Ok("UTC".to_string()));
}

#[test]
fn lookups_remember_how_many_services_were_asked() {
    let (sender, receiver) = channel::<String>();
    let requests = SpawnedRequests::new(receiver, 7);
    assert_eq!(requests.svc_count(), 7);
    drop(sender);
}

#[test]
fn listening_gives_what_the_channel_holds() {
    let (sender, receiver) = channel();
    sender.send("UTC".to_string()).unwrap();
    let mut requests = SpawnedRequests::new(receiver, 7);
    assert!(matches!(requests.listen(Duration::from_secs(5)), Recv::Reply(zone) if zone == "UTC"));
    assert!(matches!(requests.listen(Duration::from_millis(10)), Recv::Timeout));
    drop(sender);
    assert!(matches!(requests.listen(Duration::from_secs(5)), Recv::Disconnected));
}

#[test]
fn a_race_leaves_later_replies_on_the_channel() {
    let (sender, receiver) = channel();
    for zone in ["UTC", "UTC", "Europe/Paris"] {
        sender.send(zone.to_string()).unwrap();
    }
    let mut requests = SpawnedRequests::new(receiver, 3);
    assert_eq!(
        get_timezone_consensus(&mut requests, Duration::from_secs(3600)),
        Ok("UTC".to_string())
    );
    match requests.listen(Duration::from_secs(5)) {
        Recv::Reply(zone) => assert_eq!(zone, "Europe/Paris"),
        _ => panic!("the third reply should still be on the channel"),
    }
    drop(sender);
}

#[test]
fn the_mode_decides_how_replies_are_taken() {
    let replies = ["Europe/Paris", "UTC", "UTC"];
    let (sender, receiver) = channel();
    for zone in replies {
        sender.send(zone.to_string()).unwrap();
    }
    let mut requests = SpawnedRequests::new(receiver, 3);
    assert_eq!(
        resolve(&mut requests, Duration::from_secs(3600), Mode::FirstReply),
        Ok("Europe/Paris".to_string())
    );
    drop(sender);

    let (sender, receiver) = channel();
    for zone in replies {
        sender.send(zone.to_string()).unwrap();
    }
    let mut requests = SpawnedRequests::new(receiver, 3);
    assert_eq!(
        resolve(&mut requests, Duration::from_secs(3600), Mode::Consensus),
        Ok("UTC".to_string())
    );
    drop(sender);
}

#[test]
fn both_modes_fail_alike_without_replies() {
    for mode in [Mode::FirstReply, Mode::Consensus] {
        let (sender, receiver) = channel::<String>();
        let mut requests = SpawnedRequests::new(receiver, 7);
        assert_eq!(
            resolve(&mut requests, Duration::from_millis(20), mode),
            Err(ResolveError::TimedOut)
        );
        drop(sender);
        assert_eq!(
            resolve(&mut requests, Duration::from_secs(3600), mode),
            Err(ResolveError::AllFailed)
        );
    }
}
