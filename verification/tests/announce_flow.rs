use rosemary::announce::{
    announce, announce_commands, check_identifier, decode_identifier, storage_failure,
    AnnounceRequest, AnnounceResponse, Event, Stage,
};
use rosemary::peer::{IpAddress, Peer, TrackerError};
use rosemary::session::{Progress, Session, StoreQuery, StoreReply};
use rosemary::store::StoreCommand;
use rosemary::swarm::SwarmState;

const HASH: &str = "aaaaaaaaaaaaaaaaaaaa";
const PEER_A: &str = "-AA0001-000000000001";
const PEER_B: &str = "-BB0001-000000000002";

/// A store of named sets, as the key-value backend keeps them.
struct Sets(Vec<(String, Vec<Vec<u8>>)>);

impl Sets {
    fn new() -> Self {
        Sets(Vec::new())
    }

    fn slot(&mut self, key: &str) -> &mut Vec<Vec<u8>> {
        if let Some(at) = self.0.iter().position(|(k, _)| k == key) {
            return &mut self.0[at].1;
        }
        self.0.push((key.to_string(), Vec::new()));
        &mut self.0.last_mut().unwrap().1
    }

    fn run(&mut self, commands: Vec<StoreCommand>) {
        for command in commands {
            match command {
                StoreCommand::SetAdd { key, member } => {
                    let set = self.slot(&key);
                    if !set.contains(&member) {
                        set.push(member);
                    }
                }
                StoreCommand::SetRemove { key, member } => {
                    self.slot(&key).retain(|m| *m != member);
                }
            }
        }
    }

    fn members(&self, key: &str) -> Vec<Vec<u8>> {
        self.0.iter().find(|(k, _)| k == key).map(|(_, set)| set.clone()).unwrap_or_default()
    }

    fn count(&self, key: &str) -> usize {
        self.members(key).len()
    }

    fn swarm(&self, info_hash: &str) -> SwarmState {
        SwarmState::new(
            self.members(&Peer::key_seeders(info_hash)),
            self.members(&Peer::key_leechers(info_hash)),
        )
    }

    fn perform(&mut self, query: StoreQuery) -> StoreReply {
        match query {
            StoreQuery::Change(command) => {
                self.run(vec![command]);
                StoreReply::Changed
            }
            StoreQuery::Members { key } => StoreReply::Members(self.members(&key)),
            StoreQuery::Count { key } => StoreReply::Count(self.count(&key)),
        }
    }

    /// One whole announce against this store.
    fn announce(&mut self, request: &AnnounceRequest, observed: Option<IpAddress>) -> AnnounceResponse {
        let mut progress = Session::start(request.clone(), observed);
        loop {
            match progress {
                Progress::Done(response) => return response,
                Progress::Ask { session, query } => {
                    let reply = self.perform(query);
                    progress = session.advance(reply);
                }
            }
        }
    }
}

/// Drives a session with the given replies and records what it asks.
fn converse(
    request: AnnounceRequest,
    observed: Option<IpAddress>,
    replies: Vec<StoreReply>,
) -> (Vec<StoreQuery>, Option<AnnounceResponse>) {
    let mut asked = Vec::new();
    let mut progress = Session::start(request, observed);
    let mut replies = replies.into_iter();
    loop {
        match progress {
            Progress::Done(response) => return (asked, Some(response)),
            Progress::Ask { session, query } => {
                asked.push(query);
                match replies.next() {
                    Some(reply) => progress = session.advance(reply),
                    None => return (asked, None),
                }
            }
        }
    }
}

fn members_of(key: &str) -> StoreQuery {
    StoreQuery::Members { key: key.to_string() }
}

fn count_of(key: &str) -> StoreQuery {
    StoreQuery::Count { key: key.to_string() }
}

const SEEDERS: &str = "info:aaaaaaaaaaaaaaaaaaaa:seeders";
const LEECHERS: &str = "info:aaaaaaaaaaaaaaaaaaaa:leechers";

fn request(peer_id: &str, port: u16, left: u64, event: Option<Event>, ip: Option<IpAddress>) -> AnnounceRequest {
    AnnounceRequest {
        info_hash: HASH.to_string(),
        peer_id: peer_id.to_string(),
        port,
        left,
        event,
        ip,
        numwant: None,
    }
}

const IP_A: IpAddress = IpAddress::V4(0x0A00_0001);
const IP_B: IpAddress = IpAddress::V4(0x0A00_0002);

#[test]
fn started_leecher_is_listed_among_leechers() {
    let mut store = Sets::new();
    store.announce(&request(PEER_A, 6881, 5, Some(Event::Started), Some(IP_A)), None);
    let peer_a = Peer::new(PEER_A.to_string(), IP_A, 6881);
    assert_eq!(store.members(&Peer::key_leechers(HASH)), vec![peer_a.bin_encode()]);
    assert!(store.members(&Peer::key_seeders(HASH)).is_empty());
    // a seeder is shown the leechers only, and still sees the peer
    let (peers, peers6) = store.swarm(HASH).peers(true, 30).unwrap();
    assert_eq!(peers, vec![peer_a]);
    assert!(peers6.is_empty());
}

#[test]
fn started_seeder_is_counted_as_complete() {
    let mut store = Sets::new();
    store.announce(&request(PEER_A, 6881, 0, Some(Event::Started), Some(IP_A)), None);
    let (complete, incomplete) = store.swarm(HASH).peer_stats();
    assert!(complete >= 1);
    assert_eq!((complete, incomplete), (1, 0));
}

#[test]
fn stopped_removes_the_peer_from_its_set() {
    let mut store = Sets::new();
    store.announce(&request(PEER_B, 1, 7, Some(Event::Started), Some(IP_B)), None);
    store.announce(&request(PEER_A, 6881, 7, Some(Event::Started), Some(IP_A)), None);
    assert_eq!(store.count(&Peer::key_leechers(HASH)), 2);
    store.announce(&request(PEER_A, 6881, 7, Some(Event::Stopped), Some(IP_A)), None);
    assert_eq!(store.count(&Peer::key_leechers(HASH)), 1);
    assert_eq!(store.count(&Peer::key_seeders(HASH)), 0);
    let (peers, peers6) = store.swarm(HASH).peers(false, 30).unwrap();
    assert_eq!(peers, vec![Peer::new(PEER_B.to_string(), IP_B, 1)]);
    assert!(peers6.is_empty());
}

#[test]
fn stopped_removes_a_seeder_too() {
    let mut store = Sets::new();
    store.announce(&request(PEER_A, 6881, 0, Some(Event::Started), Some(IP_A)), None);
    assert_eq!(store.count(&Peer::key_seeders(HASH)), 1);
    store.announce(&request(PEER_A, 6881, 0, Some(Event::Stopped), Some(IP_A)), None);
    assert_eq!(store.count(&Peer::key_seeders(HASH)), 0);
    assert_eq!(store.count(&Peer::key_leechers(HASH)), 0);
}

#[test]
fn completed_twice_keeps_one_seeder_entry() {
    let mut store = Sets::new();
    store.announce(&request(PEER_B, 1, 7, Some(Event::Started), Some(IP_B)), None);
    store.announce(&request(PEER_A, 6881, 7, Some(Event::Started), Some(IP_A)), None);
    store.announce(&request(PEER_A, 6881, 0, Some(Event::Completed), Some(IP_A)), None);
    assert_eq!(store.swarm(HASH).peer_stats(), (1, 1));
    store.announce(&request(PEER_A, 6881, 0, Some(Event::Completed), Some(IP_A)), None);
    assert_eq!(store.swarm(HASH).peer_stats(), (1, 1));
    assert_eq!(
        store.members(&Peer::key_seeders(HASH)),
        vec![Peer::new(PEER_A.to_string(), IP_A, 6881).bin_encode()]
    );
}

#[test]
fn numwant_cuts_the_listing() {
    let mut store = Sets::new();
    for n in 0..5u16 {
        store.announce(&request(PEER_A, 7000 + n, 9, Some(Event::Started), Some(IP_A)), None);
    }
    assert_eq!(store.count(&Peer::key_leechers(HASH)), 5);
    let (peers, peers6) = store.swarm(HASH).peers(false, 2).unwrap();
    assert_eq!(peers.len() + peers6.len(), 2);
    assert_eq!(
        peers,
        vec![
            Peer::new(PEER_A.to_string(), IP_A, 7000),
            Peer::new(PEER_A.to_string(), IP_A, 7001)
        ]
    );
    let (none, none6) = store.swarm(HASH).peers(false, 0).unwrap();
    assert!(none.is_empty() && none6.is_empty());
}

#[test]
fn numwant_cuts_each_family_by_itself() {
    let mut store = Sets::new();
    for n in 0..3u16 {
        store.announce(&request(PEER_A, 7000 + n, 9, Some(Event::Started), Some(IP_A)), None);
        store.announce(
            &request(PEER_B, 8000 + n, 9, Some(Event::Started), Some(IpAddress::V6(u128::from(n)))),
            None,
        );
    }
    let (peers, peers6) = store.swarm(HASH).peers(false, 2).unwrap();
    assert_eq!(peers.len(), 2);
    assert_eq!(peers6.len(), 2);
    assert!(peers.iter().all(|p| p.ip.is_ipv4()));
    assert!(peers6.iter().all(|p| !p.ip.is_ipv4()));
}

#[test]
fn malformed_info_hash_is_a_failure() {
    let short = AnnounceRequest::parse("abc", PEER_A, 1, 0, None, None, None);
    let failure = short.unwrap_err();
    assert_eq!(
        failure,
        AnnounceResponse::fail("URL-encoded parameters should be 20 bytes in length")
    );
    assert_eq!(failure.status(), 400);
    let long = AnnounceRequest::parse("aaaaaaaaaaaaaaaaaaaaa", PEER_A, 1, 0, None, None, None);
    assert_eq!(long.unwrap_err().status(), 400);
    let bad_peer = AnnounceRequest::parse(HASH, "short", 1, 0, None, None, None);
    assert!(bad_peer.is_err());
}

#[test]
fn parse_percent_decodes_both_identifiers() {
    let raw_hash = "%41%42%43%44%45%46%47%48%49%4A%4b%4c%4d%4e%4f%50%51%52%53%54";
    let parsed = AnnounceRequest::parse(
        raw_hash,
        "-AA0001-000000000%3001",
        6881,
        12,
        Some(Event::Started),
        Some(IP_A),
        Some(4),
    )
    .unwrap();
    assert_eq!(parsed.info_hash, "ABCDEFGHIJKLMNOPQRST");
    assert_eq!(parsed.peer_id, PEER_A);
    assert_eq!(parsed.port, 6881);
    assert_eq!(parsed.left, 12);
    assert_eq!(parsed.event, Some(Event::Started));
    assert_eq!(parsed.ip, Some(IP_A));
    assert_eq!(parsed.numwant, Some(4));
}

#[test]
fn identifier_length_counts_bytes() {
    assert_eq!(decode_identifier(HASH), Ok(HASH.to_string()));
    assert_eq!(decode_identifier("a+aaaaaaaaaaaaaaaaaa"), Ok("a+aaaaaaaaaaaaaaaaaa".to_string()));
    assert_eq!(decode_identifier(""), Err(TrackerError::Request));
    // ten characters of two bytes each
    assert_eq!(
        decode_identifier("%C3%A9%C3%A9%C3%A9%C3%A9%C3%A9%C3%A9%C3%A9%C3%A9%C3%A9%C3%A9"),
        Ok("\u{e9}".repeat(10))
    );
    // twenty characters, forty bytes
    assert_eq!(decode_identifier(&"\u{e9}".repeat(20)), Err(TrackerError::Request));
    // twenty bytes that are no text
    assert_eq!(decode_identifier(&"%FF".repeat(20)), Err(TrackerError::Request));
}

#[test]
fn check_identifier_accepts_twenty_bytes_only() {
    assert_eq!(check_identifier(Some(HASH.to_string())), Ok(HASH.to_string()));
    assert_eq!(check_identifier(Some("abc".to_string())), Err(TrackerError::Request));
    assert_eq!(check_identifier(None), Err(TrackerError::Request));
}

#[test]
fn scenario_leecher_is_seen_by_another_peer() {
    let mut store = Sets::new();
    let first = store.announce(&request(PEER_A, 6881, 1000, Some(Event::Started), None), Some(IP_A));
    assert_eq!(first.status(), 200);
    let mut second = request(PEER_B, 6882, 500, None, None);
    second.numwant = Some(30);
    let response = store.announce(&second, Some(IP_B));
    assert_eq!(
        response,
        AnnounceResponse::Success {
            interval: 1800,
            complete: 0,
            incomplete: 1,
            peers: vec![Peer::new(PEER_A.to_string(), IP_A, 6881)],
            peers6: vec![],
        }
    );
    assert_eq!(response.status(), 200);
}

#[test]
fn scenario_seeder_is_shown_leechers_only() {
    let mut store = Sets::new();
    store.announce(&request(PEER_A, 6881, 0, Some(Event::Started), Some(IP_A)), None);
    let to_b = store.announce(&request(PEER_B, 6882, 10, None, None), Some(IP_B));
    assert_eq!(
        to_b,
        AnnounceResponse::Success {
            interval: 1800,
            complete: 1,
            incomplete: 0,
            peers: vec![Peer::new(PEER_A.to_string(), IP_A, 6881)],
            peers6: vec![],
        }
    );
    let to_a = store.announce(&request(PEER_A, 6881, 0, None, None), Some(IP_A));
    assert_eq!(
        to_a,
        AnnounceResponse::Success {
            interval: 1800,
            complete: 1,
            incomplete: 0,
            peers: vec![],
            peers6: vec![],
        }
    );
    store.announce(&request(PEER_B, 6882, 10, Some(Event::Started), Some(IP_B)), None);
    let to_a = store.announce(&request(PEER_A, 6881, 0, None, None), Some(IP_A));
    assert_eq!(
        to_a,
        AnnounceResponse::Success {
            interval: 1800,
            complete: 1,
            incomplete: 1,
            peers: vec![Peer::new(PEER_B.to_string(), IP_B, 6882)],
            peers6: vec![],
        }
    );
}

#[test]
fn event_without_any_address_fails() {
    let response = announce_commands(&request(PEER_A, 1, 1, Some(Event::Started), None), None);
    let failure = response.unwrap_err();
    assert_eq!(failure, AnnounceResponse::fail("Could not determine peer's ip address"));
    assert_eq!(failure.status(), 400);
}

#[test]
fn no_event_needs_no_address_and_changes_nothing() {
    assert_eq!(announce_commands(&request(PEER_A, 1, 1, None, None), None), Ok(vec![]));
}

#[test]
fn named_address_wins_over_observed() {
    let commands =
        announce_commands(&request(PEER_A, 9, 1, Some(Event::Started), Some(IP_A)), Some(IP_B)).unwrap();
    assert_eq!(
        commands,
        vec![StoreCommand::SetAdd {
            key: "info:aaaaaaaaaaaaaaaaaaaa:leechers".to_string(),
            member: Peer::new(PEER_A.to_string(), IP_A, 9).bin_encode(),
        }]
    );
}

#[test]
fn commands_of_each_operation() {
    let peer = Peer::new(PEER_A.to_string(), IP_A, 9);
    let member = peer.bin_encode();
    let seeders = "info:h:seeders".to_string();
    let leechers = "info:h:leechers".to_string();
    assert_eq!(
        SwarmState::add_peer("h", &peer, true),
        vec![StoreCommand::SetAdd { key: seeders.clone(), member: member.clone() }]
    );
    assert_eq!(
        SwarmState::add_peer("h", &peer, false),
        vec![StoreCommand::SetAdd { key: leechers.clone(), member: member.clone() }]
    );
    assert_eq!(
        SwarmState::remove_peer("h", &peer),
        vec![
            StoreCommand::SetRemove { key: seeders.clone(), member: member.clone() },
            StoreCommand::SetRemove { key: leechers.clone(), member: member.clone() },
        ]
    );
    assert_eq!(
        SwarmState::promote_peer("h", &peer),
        vec![
            StoreCommand::SetRemove { key: leechers.clone(), member: member.clone() },
            StoreCommand::SetAdd { key: seeders, member },
        ]
    );
}

#[test]
fn completed_event_promotes() {
    let commands =
        announce_commands(&request(PEER_A, 9, 0, Some(Event::Completed), None), Some(IP_B)).unwrap();
    assert_eq!(commands, SwarmState::promote_peer(HASH, &Peer::new(PEER_A.to_string(), IP_B, 9)));
}

#[test]
fn corrupt_member_fails_the_listing() {
    let good = Peer::new(PEER_A.to_string(), IP_A, 9).bin_encode();
    let swarm = SwarmState::new(vec![vec![1, 2, 3]], vec![good.clone()]);
    assert_eq!(swarm.peers(false, 30), Err(TrackerError::Decode));
    // a seeder never reads the seeder set
    assert_eq!(
        swarm.peers(true, 30),
        Ok((vec![Peer::new(PEER_A.to_string(), IP_A, 9)], vec![]))
    );
    let response = announce(&request(PEER_B, 1, 5, None, None), &swarm, 1, 1);
    assert_eq!(response, AnnounceResponse::fail("Failed to get peers"));
    assert_eq!(response.status(), 400);
    let bad_leecher = SwarmState::new(vec![good], vec![vec![]]);
    assert_eq!(bad_leecher.peers(true, 30), Err(TrackerError::Decode));
    assert_eq!(bad_leecher.peers(false, 30), Err(TrackerError::Decode));
}

#[test]
fn seeders_come_before_leechers() {
    let s = Peer::new(PEER_A.to_string(), IP_A, 1);
    let l = Peer::new(PEER_B.to_string(), IP_B, 2);
    let l6 = Peer::new(PEER_B.to_string(), IpAddress::V6(7), 3);
    let swarm = SwarmState::new(vec![s.bin_encode()], vec![l6.bin_encode(), l.bin_encode()]);
    assert_eq!(swarm.peers(false, 30), Ok((vec![s.clone(), l.clone()], vec![l6.clone()])));
    assert_eq!(swarm.peers(false, 1), Ok((vec![s], vec![l6.clone()])));
    assert_eq!(swarm.peers(true, 30), Ok((vec![l], vec![l6])));
    assert_eq!(swarm.peer_stats(), (1, 2));
}

#[test]
fn default_numwant_is_thirty() {
    let mut leechers = Vec::new();
    for n in 0..40u16 {
        leechers.push(Peer::new(PEER_A.to_string(), IP_A, n).bin_encode());
    }
    let swarm = SwarmState::new(vec![], leechers);
    let plain = request(PEER_B, 1, 5, None, None);
    assert_eq!(plain.numwant_or_default(), 30);
    match announce(&plain, &swarm, 0, 40) {
        AnnounceResponse::Success { interval, complete, incomplete, peers, peers6 } => {
            assert_eq!(interval, 1800);
            assert_eq!((complete, incomplete), (0, 40));
            assert_eq!(peers.len(), 30);
            assert!(peers6.is_empty());
        }
        AnnounceResponse::Failure { failure_reason } => panic!("{}", failure_reason),
    }
    let mut asking = request(PEER_B, 1, 5, None, None);
    asking.numwant = Some(35);
    assert_eq!(asking.numwant_or_default(), 35);
}

#[test]
fn seeder_is_who_has_nothing_left() {
    assert!(request(PEER_A, 1, 0, None, None).is_seeder());
    assert!(!request(PEER_A, 1, 1, None, None).is_seeder());
    assert!(!request(PEER_A, 1, u64::MAX, Some(Event::Completed), None).is_seeder());
}

#[test]
fn storage_failures_name_their_stage() {
    let reason = |stage| match storage_failure(stage) {
        AnnounceResponse::Failure { failure_reason } => failure_reason,
        AnnounceResponse::Success { .. } => unreachable!(),
    };
    assert_eq!(reason(Stage::Mutation(Event::Started)), "Failed to add peer to swarm");
    assert_eq!(reason(Stage::Mutation(Event::Stopped)), "Failed to remove peer from swarm");
    assert_eq!(reason(Stage::Mutation(Event::Completed)), "Failed to promote peer to seeder");
    assert_eq!(reason(Stage::Peers), "Failed to get peers");
    assert_eq!(reason(Stage::Stats), "Failed to get peer stats");
    assert_eq!(storage_failure(Stage::Stats).status(), 400);
}

#[test]
fn session_of_a_leecher_without_event_reads_both_sets() {
    let a = Peer::new(PEER_A.to_string(), IP_A, 1);
    let (asked, response) = converse(
        request(PEER_B, 2, 5, None, None),
        None,
        vec![
            StoreReply::Members(vec![]),
            StoreReply::Members(vec![a.bin_encode()]),
            StoreReply::Count(1),
            StoreReply::Count(0),
        ],
    );
    assert_eq!(
        asked,
        vec![members_of(LEECHERS), members_of(SEEDERS), count_of(SEEDERS), count_of(LEECHERS)]
    );
    assert_eq!(response, Some(AnnounceResponse::success(1, 0, vec![a], vec![])));
}

#[test]
fn session_of_a_seeder_never_reads_the_seeders() {
    let b = Peer::new(PEER_B.to_string(), IpAddress::V6(9), 2);
    let (asked, response) = converse(
        request(PEER_A, 1, 0, None, None),
        None,
        vec![StoreReply::Members(vec![b.bin_encode()]), StoreReply::Count(4), StoreReply::Count(1)],
    );
    assert_eq!(asked, vec![members_of(LEECHERS), count_of(SEEDERS), count_of(LEECHERS)]);
    assert_eq!(response, Some(AnnounceResponse::success(4, 1, vec![], vec![b])));
}

#[test]
fn session_sends_the_commands_of_the_event_first() {
    let a = Peer::new(PEER_A.to_string(), IP_A, 1);
    let (asked, response) = converse(
        request(PEER_A, 1, 0, Some(Event::Stopped), Some(IP_A)),
        Some(IP_B),
        vec![
            StoreReply::Changed,
            StoreReply::Changed,
            StoreReply::Members(vec![]),
            StoreReply::Count(0),
            StoreReply::Count(0),
        ],
    );
    let member = a.bin_encode();
    assert_eq!(
        asked,
        vec![
            StoreQuery::Change(StoreCommand::SetRemove { key: SEEDERS.to_string(), member: member.clone() }),
            StoreQuery::Change(StoreCommand::SetRemove { key: LEECHERS.to_string(), member }),
            members_of(LEECHERS),
            count_of(SEEDERS),
            count_of(LEECHERS),
        ]
    );
    assert_eq!(response, Some(AnnounceResponse::success(0, 0, vec![], vec![])));
}

#[test]
fn session_promotes_by_removal_then_addition() {
    let (asked, _) = converse(
        request(PEER_A, 1, 0, Some(Event::Completed), None),
        Some(IP_A),
        vec![StoreReply::Changed, StoreReply::Changed],
    );
    let member = Peer::new(PEER_A.to_string(), IP_A, 1).bin_encode();
    assert_eq!(
        asked,
        vec![
            StoreQuery::Change(StoreCommand::SetRemove { key: LEECHERS.to_string(), member: member.clone() }),
            StoreQuery::Change(StoreCommand::SetAdd { key: SEEDERS.to_string(), member }),
            members_of(LEECHERS),
        ]
    );
}

#[test]
fn session_fails_with_the_reason_of_its_stage() {
    let started = || request(PEER_A, 1, 3, Some(Event::Started), Some(IP_A));
    let (asked, response) = converse(started(), None, vec![StoreReply::Failed]);
    assert_eq!(asked.len(), 1);
    assert_eq!(response, Some(AnnounceResponse::fail("Failed to add peer to swarm")));

    let stopped = request(PEER_A, 1, 3, Some(Event::Stopped), Some(IP_A));
    let (asked, response) = converse(stopped, None, vec![StoreReply::Changed, StoreReply::Failed]);
    assert_eq!(asked.len(), 2);
    assert_eq!(response, Some(AnnounceResponse::fail("Failed to remove peer from swarm")));

    let completed = request(PEER_A, 1, 0, Some(Event::Completed), Some(IP_A));
    let (_, response) = converse(completed, None, vec![StoreReply::Failed]);
    assert_eq!(response, Some(AnnounceResponse::fail("Failed to promote peer to seeder")));

    let (_, response) = converse(started(), None, vec![StoreReply::Changed, StoreReply::Failed]);
    assert_eq!(response, Some(AnnounceResponse::fail("Failed to get peers")));

    let (_, response) = converse(
        started(),
        None,
        vec![StoreReply::Changed, StoreReply::Members(vec![]), StoreReply::Failed],
    );
    assert_eq!(response, Some(AnnounceResponse::fail("Failed to get peers")));

    let read = vec![StoreReply::Changed, StoreReply::Members(vec![]), StoreReply::Members(vec![])];
    let mut replies = read.clone();
    replies.push(StoreReply::Failed);
    let (_, response) = converse(started(), None, replies);
    assert_eq!(response, Some(AnnounceResponse::fail("Failed to get peer stats")));

    let mut replies = read;
    replies.push(StoreReply::Count(1));
    replies.push(StoreReply::Failed);
    let (asked, response) = converse(started(), None, replies);
    assert_eq!(asked.len(), 5);
    assert_eq!(response, Some(AnnounceResponse::fail("Failed to get peer stats")));
    assert_eq!(response.unwrap().status(), 400);
}

#[test]
fn session_takes_an_answer_of_the_wrong_kind_as_a_failure() {
    let plain = || request(PEER_A, 1, 3, None, None);
    let (_, response) = converse(plain(), None, vec![StoreReply::Count(3)]);
    assert_eq!(response, Some(AnnounceResponse::fail("Failed to get peers")));
    let (_, response) = converse(plain(), None, vec![StoreReply::Changed]);
    assert_eq!(response, Some(AnnounceResponse::fail("Failed to get peers")));
    let (_, response) = converse(
        plain(),
        None,
        vec![StoreReply::Members(vec![]), StoreReply::Members(vec![]), StoreReply::Members(vec![])],
    );
    assert_eq!(response, Some(AnnounceResponse::fail("Failed to get peer stats")));
    let started = request(PEER_A, 1, 3, Some(Event::Started), Some(IP_A));
    let (_, response) = converse(started, None, vec![StoreReply::Count(1)]);
    assert_eq!(response, Some(AnnounceResponse::fail("Failed to add peer to swarm")));
}

#[test]
fn session_stops_at_a_member_that_does_not_decode() {
    let (asked, response) = converse(
        request(PEER_B, 2, 5, None, None),
        None,
        vec![StoreReply::Members(vec![]), StoreReply::Members(vec![vec![9, 9]])],
    );
    assert_eq!(asked, vec![members_of(LEECHERS), members_of(SEEDERS)]);
    assert_eq!(response, Some(AnnounceResponse::fail("Failed to get peers")));
}

#[test]
fn session_without_address_asks_nothing() {
    let (asked, response) = converse(request(PEER_A, 1, 3, Some(Event::Started), None), None, vec![]);
    assert!(asked.is_empty());
    assert_eq!(response, Some(AnnounceResponse::fail("Could not determine peer's ip address")));
}

#[test]
fn failed_read_does_not_undo_the_change() {
    let mut store = Sets::new();
    let started = request(PEER_A, 6881, 3, Some(Event::Started), Some(IP_A));
    let mut progress = Session::start(started, None);
    let mut first = true;
    let response = loop {
        match progress {
            Progress::Done(response) => break response,
            Progress::Ask { session, query } => {
                let reply = if first { store.perform(query) } else { StoreReply::Failed };
                first = false;
                progress = session.advance(reply);
            }
        }
    };
    assert_eq!(response, AnnounceResponse::fail("Failed to get peers"));
    assert_eq!(store.count(LEECHERS), 1);
}
