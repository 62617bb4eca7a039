//! One announce as a conversation with the store: the handler asks one
//! thing at a time, and each reply decides what it asks next or what it
//! answers to the client.
use vstd::prelude::*;
use crate::announce::{announce_commands, event_commands, failure_reason, storage_failure};
use crate::announce::{AnnounceRequest, AnnounceResponse, Event, ResponseView, Stage, INTERVAL};
use crate::peer::{leechers_key, seeders_key, IpAddress, Peer};
use crate::store::{command_views, CommandView, StoreCommand};
use crate::swarm::{decode_all, front, member_views, of_family, peer_views, shown, SwarmState};

verus! {

/// What the handler asks of the store.
#[derive(Clone, Debug, PartialEq, Eq)]
pub enum StoreQuery {
    /// Carry out the command.
    Change(StoreCommand),
    /// Hand out all members of the set at `key`.
    Members { key: String },
    /// Hand out the size of the set at `key`.
    Count { key: String },
}

/// The mathematical value of a [`StoreQuery`].
pub ghost enum QueryView {
    Change(CommandView),
    Members { key: Seq<char> },
    Count { key: Seq<char> },
}

impl View for StoreQuery {
    type V = QueryView;

    open spec fn view(&self) -> QueryView {
        match self {
            StoreQuery::Change(command) => QueryView::Change(command@),
            StoreQuery::Members { key } => QueryView::Members { key: key@ },
            StoreQuery::Count { key } => QueryView::Count { key: key@ },
        }
    }
}

/// What the store answered.
#[derive(Clone, Debug, PartialEq, Eq)]
pub enum StoreReply {
    /// The store could not be reached or reported an error.
    Failed,
    /// The command was carried out.
    Changed,
    /// The members of the set asked for.
    Members(Vec<Vec<u8>>),
    /// The size of the set asked for.
    Count(usize),
}

/// Which answer a session waits for.
#[derive(Clone, Copy, Debug, PartialEq, Eq, Structural)]
pub enum Phase {
    /// A command of this event is with the store.
    Changing(Event),
    ReadingLeechers,
    ReadingSeeders,
    CountingSeeders,
    CountingLeechers,
}

/// An announce that waits for an answer of the store.
#[derive(Clone, Debug, PartialEq, Eq)]
pub struct Session {
    pub request: AnnounceRequest,
    pub phase: Phase,
    /// The commands of the event that are still to be sent, in order.
    pub pending: Vec<StoreCommand>,
    /// The members read so far.
    pub swarm: SwarmState,
    /// The listing, once the members are read.
    pub peers: Vec<Peer>,
    pub peers6: Vec<Peer>,
    /// The seeder count, once it is read.
    pub complete: usize,
}

/// Where an announce stands: it asks the store something, or it is answered.
#[derive(Clone, Debug, PartialEq, Eq)]
pub enum Progress {
    Ask { session: Session, query: StoreQuery },
    Done(AnnounceResponse),
}

/// The session goes on in `phase` and asks `query`, with its request kept.
pub open spec fn asks(progress: Progress, before: Session, phase: Phase, query: QueryView) -> bool {
    &&& progress matches Progress::Ask { session, query: q }
    &&& q@ == query
    &&& session.phase == phase
    &&& session.request == before.request
}

/// The announce ends with the failure of the store at `stage`.
pub open spec fn fails(progress: Progress, stage: Stage) -> bool {
    &&& progress matches Progress::Done(response)
    &&& response@ == (ResponseView::Failure { failure_reason: failure_reason(stage) })
}

/// What follows once all members that the caller is shown are read into
/// `swarm`: a member that does not decode ends the announce; else the
/// listing is kept and the seeder count is asked for.
pub open spec fn after_reading(progress: Progress, before: Session, swarm: SwarmState) -> bool {
    let info_hash = before.request.info_hash@;
    match decode_all(
        shown(
            member_views(swarm.seeders@),
            member_views(swarm.leechers@),
            before.request.seeding(),
        ),
    ) {
        Some(all) => {
            &&& asks(
                progress,
                before,
                Phase::CountingSeeders,
                QueryView::Count { key: seeders_key(info_hash) },
            )
            &&& peer_views(progress->session.peers@) == front(
                of_family(all, true),
                before.request.wanted(),
            )
            &&& peer_views(progress->session.peers6@) == front(
                of_family(all, false),
                before.request.wanted(),
            )
        },
        None => fails(progress, Stage::Peers),
    }
}

/// The step that `reply` makes `before` take.
pub open spec fn follows(before: Session, reply: StoreReply, progress: Progress) -> bool {
    let info_hash = before.request.info_hash@;
    match before.phase {
        Phase::Changing(event) => if !(reply is Changed) {
            fails(progress, Stage::Mutation(event))
        } else if before.pending@.len() > 0 {
            &&& asks(progress, before, before.phase, QueryView::Change(before.pending@[0]@))
            &&& command_views(progress->session.pending@) == command_views(
                before.pending@,
            ).drop_first()
        } else {
            asks(
                progress,
                before,
                Phase::ReadingLeechers,
                QueryView::Members { key: leechers_key(info_hash) },
            )
        },
        Phase::ReadingLeechers => match reply {
            StoreReply::Members(leechers) => if before.request.seeding() {
                after_reading(progress, before, SwarmState { seeders: before.swarm.seeders, leechers })
            } else {
                &&& asks(
                    progress,
                    before,
                    Phase::ReadingSeeders,
                    QueryView::Members { key: seeders_key(info_hash) },
                )
                &&& progress->session.swarm.leechers == leechers
            },
            _ => fails(progress, Stage::Peers),
        },
        Phase::ReadingSeeders => match reply {
            StoreReply::Members(seeders) => after_reading(
                progress,
                before,
                SwarmState { seeders, leechers: before.swarm.leechers },
            ),
            _ => fails(progress, Stage::Peers),
        },
        Phase::CountingSeeders => match reply {
            StoreReply::Count(n) => {
                &&& asks(
                    progress,
                    before,
                    Phase::CountingLeechers,
                    QueryView::Count { key: leechers_key(info_hash) },
                )
                &&& progress->session.complete == n
                &&& progress->session.peers == before.peers
                &&& progress->session.peers6 == before.peers6
            },
            _ => fails(progress, Stage::Stats),
        },
        Phase::CountingLeechers => match reply {
            StoreReply::Count(n) => {
                &&& progress matches Progress::Done(response)
                &&& response@ == (ResponseView::Success {
                    interval: INTERVAL,
                    complete: before.complete,
                    incomplete: n,
                    peers: peer_views(before.peers@),
                    peers6: peer_views(before.peers6@),
                })
            },
            _ => fails(progress, Stage::Stats),
        },
    }
}

/// What a fresh announce does first.
pub open spec fn begins(
    request: AnnounceRequest,
    observed: Option<IpAddress>,
    progress: Progress,
) -> bool {
    match request.event {
        None => {
            &&& progress matches Progress::Ask { session, query }
            &&& query@ == (QueryView::Members { key: leechers_key(request.info_hash@) })
            &&& session.phase == Phase::ReadingLeechers
            &&& session.request == request
        },
        Some(event) => match request.effective_ip(observed) {
            Some(ip) => {
                let commands = event_commands(
                    event,
                    request.info_hash@,
                    request.peer_at(ip),
                    request.seeding(),
                );
                &&& progress matches Progress::Ask { session, query }
                &&& query@ == QueryView::Change(commands[0])
                &&& command_views(session.pending@) == commands.drop_first()
                &&& session.phase == Phase::Changing(event)
                &&& session.request == request
            },
            None => {
                &&& progress matches Progress::Done(response)
                &&& response@ == (ResponseView::Failure {
                    failure_reason: "Could not determine peer's ip address"@,
                })
            },
        },
    }
}

impl Session {
    /// Begins an announce. With an event, the first of its commands goes to
    /// the store, or the announce fails for want of an address; without
    /// one, the leecher set is read at once.
    pub fn start(request: AnnounceRequest, observed: Option<IpAddress>) -> (r: Progress)
        ensures
            begins(request, observed, r),
    {
        let mut pending = match announce_commands(&request, observed) {
            Ok(commands) => commands,
            Err(failure) => {
                return Progress::Done(failure);
            },
        };
        let ghost all = command_views(pending@);
        let (phase, query) = match request.event {
            Some(event) => {
                assert(all.len() == pending@.len() && all.len() >= 1);
                let first = pending.remove(0);
                assert(command_views(pending@) =~= all.drop_first());
                (Phase::Changing(event), StoreQuery::Change(first))
            },
            None => (
                Phase::ReadingLeechers,
                StoreQuery::Members { key: Peer::key_leechers(request.info_hash.as_str()) },
            ),
        };
        let session = Session {
            request,
            phase,
            pending,
            swarm: SwarmState::new(Vec::new(), Vec::new()),
            peers: Vec::new(),
            peers6: Vec::new(),
            complete: 0,
        };
        Progress::Ask { session, query }
    }

    /// Puts the listing together once the members are read.
    fn listed(
        request: AnnounceRequest,
        swarm: SwarmState,
        Ghost(before): Ghost<Session>,
    ) -> (r: Progress)
        requires
            before.request == request,
        ensures
            after_reading(r, before, swarm),
    {
        match swarm.peers(request.is_seeder(), request.numwant_or_default()) {
            Ok((peers, peers6)) => {
                let key = Peer::key_seeders(request.info_hash.as_str());
                Progress::Ask {
                    session: Session {
                        request,
                        phase: Phase::CountingSeeders,
                        pending: Vec::new(),
                        swarm,
                        peers,
                        peers6,
                        complete: 0,
                    },
                    query: StoreQuery::Count { key },
                }
            },
            Err(_) => Progress::Done(storage_failure(Stage::Peers)),
        }
    }

    /// Takes the store's answer to the last query and says what comes next.
    /// An answer that reports a failure, or is not of the kind asked for,
    /// ends the announce with the failure of the current stage.
    pub fn advance(self, reply: StoreReply) -> (r: Progress)
        ensures
            follows(self, reply, r),
    {
        let ghost before = self;
        let Session { request, phase, pending, swarm, peers, peers6, complete } = self;
        match phase {
            Phase::Changing(event) => {
                match reply {
                    StoreReply::Changed => {},
                    _ => {
                        return Progress::Done(storage_failure(Stage::Mutation(event)));
                    },
                }
                let mut pending = pending;
                if pending.len() > 0 {
                    let ghost all = command_views(pending@);
                    let next = pending.remove(0);
                    assert(command_views(pending@) =~= all.drop_first());
                    Progress::Ask {
                        session: Session { request, phase, pending, swarm, peers, peers6, complete },
                        query: StoreQuery::Change(next),
                    }
                } else {
                    let key = Peer::key_leechers(request.info_hash.as_str());
                    Progress::Ask {
                        session: Session {
                            request,
                            phase: Phase::ReadingLeechers,
                            pending,
                            swarm,
                            peers,
                            peers6,
                            complete,
                        },
                        query: StoreQuery::Members { key },
                    }
                }
            },
            Phase::ReadingLeechers => {
                let leechers = match reply {
                    StoreReply::Members(members) => members,
                    _ => {
                        return Progress::Done(storage_failure(Stage::Peers));
                    },
                };
                let swarm = SwarmState::new(swarm.seeders, leechers);
                if request.is_seeder() {
                    Session::listed(request, swarm, Ghost(before))
                } else {
                    let key = Peer::key_seeders(request.info_hash.as_str());
                    Progress::Ask {
                        session: Session {
                            request,
                            phase: Phase::ReadingSeeders,
                            pending,
                            swarm,
                            peers,
                            peers6,
                            complete,
                        },
                        query: StoreQuery::Members { key },
                    }
                }
            },
            Phase::ReadingSeeders => {
                let seeders = match reply {
                    StoreReply::Members(members) => members,
                    _ => {
                        return Progress::Done(storage_failure(Stage::Peers));
                    },
                };
                Session::listed(request, SwarmState::new(seeders, swarm.leechers), Ghost(before))
            },
            Phase::CountingSeeders => {
                let n = match reply {
                    StoreReply::Count(n) => n,
                    _ => {
                        return Progress::Done(storage_failure(Stage::Stats));
                    },
                };
                let key = Peer::key_leechers(request.info_hash.as_str());
                Progress::Ask {
                    session: Session {
                        request,
                        phase: Phase::CountingLeechers,
                        pending,
                        swarm,
                        peers,
                        peers6,
                        complete: n,
                    },
                    query: StoreQuery::Count { key },
                }
            },
            Phase::CountingLeechers => {
                let n = match reply {
                    StoreReply::Count(n) => n,
                    _ => {
                        return Progress::Done(storage_failure(Stage::Stats));
                    },
                };
                Progress::Done(AnnounceResponse::success(complete, n, peers, peers6))
            },
        }
    }
}

} // verus!
