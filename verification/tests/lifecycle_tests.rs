use mpquic::addr::SocketAddress;
use mpquic::lifecycle::{
    handle_path_events, next_registration, react, registration, wants_connection_id, PathAction,
    PathEvent, PathStatus, Registration,
};

fn a(n: u8) -> SocketAddress {
    SocketAddress::V4 { octets: [10, 0, 0, n], port: 4433 }
}

#[test]
fn new_path_is_probed() {
    assert_eq!(react(&PathEvent::New(a(1), a(2))), PathAction::Probe { local: a(1), peer: a(2) });
}

#[test]
fn validated_path_is_activated() {
    assert_eq!(
        react(&PathEvent::Validated(a(1), a(2))),
        PathAction::Activate { local: a(1), peer: a(2) }
    );
}

#[test]
fn requested_status_is_set_without_priority() {
    assert_eq!(
        react(&PathEvent::PeerPathStatus((a(1), a(2)), PathStatus::Standby)),
        PathAction::SetStatus { local: a(1), peer: a(2), status: PathStatus::Standby, priority: false }
    );
    assert_eq!(
        react(&PathEvent::PeerPathStatus((a(3), a(4)), PathStatus::Available)),
        PathAction::SetStatus {
            local: a(3),
            peer: a(4),
            status: PathStatus::Available,
            priority: false
        }
    );
}

#[test]
fn other_events_are_only_logged() {
    assert_eq!(react(&PathEvent::FailedValidation(a(1), a(2))), PathAction::Log);
    assert_eq!(react(&PathEvent::Closed(a(1), a(2), 7, b"gone".to_vec())), PathAction::Log);
    assert_eq!(
        react(&PathEvent::ReusedSourceConnectionId(3, (a(1), a(2)), (a(3), a(4)))),
        PathAction::Log
    );
    assert_eq!(react(&PathEvent::PeerMigrated(a(1), a(2))), PathAction::Log);
}

#[test]
fn events_are_answered_in_order() {
    let events = vec![
        PathEvent::New(a(1), a(2)),
        PathEvent::PeerMigrated(a(1), a(2)),
        PathEvent::Validated(a(1), a(2)),
    ];
    assert_eq!(
        handle_path_events(&events),
        vec![
            PathAction::Probe { local: a(1), peer: a(2) },
            PathAction::Log,
            PathAction::Activate { local: a(1), peer: a(2) },
        ]
    );
    assert_eq!(handle_path_events(&[]), Vec::<PathAction>::new());
}

#[test]
fn connection_ids_are_offered_while_there_is_room() {
    assert!(wants_connection_id(1, false));
    assert!(wants_connection_id(7, false));
    assert!(!wants_connection_id(0, false));
    assert!(!wants_connection_id(3, true));
    assert!(!wants_connection_id(0, true));
}

#[test]
fn registration_retires_no_older_id() {
    assert_eq!(
        registration(vec![7; 20], 99),
        Registration { scid: vec![7; 20], reset_token: 99, retire_if_needed: false }
    );
}

#[test]
fn top_up_offers_fresh_ids_while_there_is_room() {
    let rng = ring::rand::SystemRandom::new();
    let mut spare = 3usize;
    let mut offered = Vec::new();
    while let Some(offer) = next_registration(spare, false, &rng).unwrap() {
        assert_eq!(offer.scid.len(), 20);
        assert!(!offer.retire_if_needed);
        offered.push(offer);
        spare -= 1;
    }
    assert_eq!(offered.len(), 3);
    assert_eq!(spare, 0);
    assert_ne!(offered[0].scid, offered[1].scid);
}

#[test]
fn top_up_stops_at_the_first_rejection() {
    let rng = ring::rand::SystemRandom::new();
    assert_eq!(next_registration(5, true, &rng), Ok(None));
    assert_eq!(next_registration(0, false, &rng), Ok(None));
    assert_eq!(next_registration(0, true, &rng), Ok(None));
}
