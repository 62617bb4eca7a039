//! The announce protocol: what a request asks of the store, and the response
//! that is owed to it.
use vstd::prelude::*;
use vstd::utf8::*;
use crate::peer::{IpAddress, Peer, PeerView, TrackerError};
use crate::store::{command_views, CommandView, StoreCommand};
use crate::swarm::{add_commands, promote_commands, remove_commands};
use crate::swarm::{decode_all, front, member_views, of_family, peer_views, shown, SwarmState};

verus! {

/// The byte length of an info hash and of a peer id.
pub const ID_LENGTH: usize = 20;

/// The seconds after which a client is to announce again.
pub const INTERVAL: u64 = 1800;

/// The length of each peer list where the request names none.
pub const DEFAULT_NUMWANT: usize = 30;

/// What a client reports with an announce.
#[derive(Clone, Copy, Debug, PartialEq, Eq, Structural)]
pub enum Event {
    Started,
    Stopped,
    Completed,
}

/// A parsed announce. `info_hash` and `peer_id` are already percent-decoded.
#[derive(Clone, Debug, PartialEq, Eq)]
pub struct AnnounceRequest {
    pub info_hash: String,
    pub peer_id: String,
    pub port: u16,
    pub left: u64,
    pub event: Option<Event>,
    pub ip: Option<IpAddress>,
    pub numwant: Option<usize>,
}

/// What is sent back for an announce.
#[derive(Clone, Debug, PartialEq, Eq)]
pub enum AnnounceResponse {
    Failure { failure_reason: String },
    Success { interval: u64, complete: usize, incomplete: usize, peers: Vec<Peer>, peers6: Vec<Peer> },
}

/// The mathematical value of an [`AnnounceResponse`].
pub ghost enum ResponseView {
    Failure { failure_reason: Seq<char> },
    Success {
        interval: u64,
        complete: usize,
        incomplete: usize,
        peers: Seq<PeerView>,
        peers6: Seq<PeerView>,
    },
}

impl View for AnnounceResponse {
    type V = ResponseView;

    open spec fn view(&self) -> ResponseView {
        match self {
            AnnounceResponse::Failure { failure_reason } => ResponseView::Failure {
                failure_reason: failure_reason@,
            },
            AnnounceResponse::Success {
                interval,
                complete,
                incomplete,
                peers,
                peers6,
            } => ResponseView::Success {
                interval: *interval,
                complete: *complete,
                incomplete: *incomplete,
                peers: peer_views(peers@),
                peers6: peer_views(peers6@),
            },
        }
    }
}

/// The step of an announce at which the store can fail.
#[derive(Clone, Copy, Debug, PartialEq, Eq, Structural)]
pub enum Stage {
    /// Carrying out the commands of an event.
    Mutation(Event),
    /// Reading the members of the sets.
    Peers,
    /// Reading the sizes of the sets.
    Stats,
}

/// The text that percent-decoding makes of `raw`; `None` where the decoded
/// bytes are not UTF-8.
pub uninterp spec fn url_decoded(raw: Seq<char>) -> Option<Seq<char>>;

/// `urlencoding::decode`: the percent-decoded text, which depends on `raw`
/// alone, or `None` where the function reports bytes that are not UTF-8.
#[verifier::external_body]
fn url_decode(raw: &str) -> (r: Option<String>)
    ensures
        text_of(r) == url_decoded(raw@),
{
    match urlencoding::decode(raw) {
        Ok(text) => Some(text.into_owned()),
        Err(_) => None,
    }
}

/// The characters of an optional text.
pub open spec fn text_of(text: Option<String>) -> Option<Seq<char>> {
    match text {
        Some(t) => Some(t@),
        None => None,
    }
}

/// The identifier that a decoded parameter gives: the text itself where it
/// is exactly twenty bytes long in UTF-8, else none.
pub open spec fn identifier_of(decoded: Option<Seq<char>>) -> Option<Seq<char>> {
    match decoded {
        Some(t) => if encode_utf8(t).len() == ID_LENGTH {
            Some(t)
        } else {
            None
        },
        None => None,
    }
}

/// Accepts a percent-decoded parameter as an identifier if it is exactly
/// twenty bytes long; anything else is a `Request` error.
pub fn check_identifier(decoded: Option<String>) -> (r: Result<String, TrackerError>)
    ensures
        match identifier_of(text_of(decoded)) {
            Some(t) => r is Ok && r.unwrap()@ == t,
            None => r == Err::<String, TrackerError>(TrackerError::Request),
        },
{
    match decoded {
        Some(text) => {
            if text.as_str().as_bytes().len() == ID_LENGTH {
                Ok(text)
            } else {
                Err(TrackerError::Request)
            }
        },
        None => Err(TrackerError::Request),
    }
}

/// Percent-decodes an `info_hash` or `peer_id` parameter and accepts it if
/// the result is exactly twenty bytes long.
pub fn decode_identifier(raw: &str) -> (r: Result<String, TrackerError>)
    ensures
        match identifier_of(url_decoded(raw@)) {
            Some(t) => r is Ok && r.unwrap()@ == t,
            None => r == Err::<String, TrackerError>(TrackerError::Request),
        },
{
    check_identifier(url_decode(raw))
}

/// The commands that an event asks of the registry.
pub open spec fn event_commands(
    event: Event,
    info_hash: Seq<char>,
    peer: PeerView,
    is_seeder: bool,
) -> Seq<CommandView> {
    match event {
        Event::Started => add_commands(info_hash, peer, is_seeder),
        Event::Stopped => remove_commands(info_hash, peer),
        Event::Completed => promote_commands(info_hash, peer),
    }
}

/// The reason given to the client when the store fails at `stage`.
pub open spec fn failure_reason(stage: Stage) -> Seq<char> {
    match stage {
        Stage::Mutation(Event::Started) => "Failed to add peer to swarm"@,
        Stage::Mutation(Event::Stopped) => "Failed to remove peer from swarm"@,
        Stage::Mutation(Event::Completed) => "Failed to promote peer to seeder"@,
        Stage::Peers => "Failed to get peers"@,
        Stage::Stats => "Failed to get peer stats"@,
    }
}

impl AnnounceRequest {
    /// Builds a request from the raw query parameters: both identifiers are
    /// percent-decoded and must come out twenty bytes long, else the result
    /// is the failure response owed to the client.
    pub fn parse(
        info_hash: &str,
        peer_id: &str,
        port: u16,
        left: u64,
        event: Option<Event>,
        ip: Option<IpAddress>,
        numwant: Option<usize>,
    ) -> (r: Result<Self, AnnounceResponse>)
        ensures
            match (identifier_of(url_decoded(info_hash@)), identifier_of(url_decoded(peer_id@))) {
                (Some(hash), Some(id)) => r is Ok && r.unwrap().info_hash@ == hash
                    && r.unwrap().peer_id@ == id && r.unwrap().port == port && r.unwrap().left
                    == left && r.unwrap().event == event && r.unwrap().ip == ip
                    && r.unwrap().numwant == numwant,
                _ => r is Err && r.unwrap_err()@ == (ResponseView::Failure {
                    failure_reason: "URL-encoded parameters should be 20 bytes in length"@,
                }),
            },
    {
        let info_hash = match decode_identifier(info_hash) {
            Ok(text) => text,
            Err(_) => {
                return Err(
                    AnnounceResponse::fail("URL-encoded parameters should be 20 bytes in length"),
                );
            },
        };
        let peer_id = match decode_identifier(peer_id) {
            Ok(text) => text,
            Err(_) => {
                return Err(
                    AnnounceResponse::fail("URL-encoded parameters should be 20 bytes in length"),
                );
            },
        };
        Ok(AnnounceRequest { info_hash, peer_id, port, left, event, ip, numwant })
    }

    /// A client with nothing left to fetch is a seeder, whatever the event.
    pub open spec fn seeding(&self) -> bool {
        self.left == 0
    }

    /// The address to register: the one the request names, else the one
    /// the transport saw.
    pub open spec fn effective_ip(&self, observed: Option<IpAddress>) -> Option<IpAddress> {
        match self.ip {
            Some(ip) => Some(ip),
            None => observed,
        }
    }

    /// The longest list the client asks for.
    pub open spec fn wanted(&self) -> usize {
        match self.numwant {
            Some(n) => n,
            None => DEFAULT_NUMWANT,
        }
    }

    /// The peer that the request registers from address `ip`.
    pub open spec fn peer_at(&self, ip: IpAddress) -> PeerView {
        PeerView { id: self.peer_id@, ip, port: self.port }
    }

    /// Whether the client is a seeder.
    pub fn is_seeder(&self) -> (r: bool)
        ensures
            r == self.seeding(),
    {
        self.left == 0
    }

    /// The longest list the client asks for, thirty where it names none.
    pub fn numwant_or_default(&self) -> (r: usize)
        ensures
            r == self.wanted(),
    {
        match self.numwant {
            Some(n) => n,
            None => DEFAULT_NUMWANT,
        }
    }
}

impl AnnounceResponse {
    /// The failure response with this reason.
    pub fn fail(reason: &str) -> (r: Self)
        ensures
            r@ == (ResponseView::Failure { failure_reason: reason@ }),
    {
        AnnounceResponse::Failure { failure_reason: reason.to_owned() }
    }

    /// The success response with these counts and lists, and the fixed
    /// interval.
    pub fn success(
        complete: usize,
        incomplete: usize,
        peers: Vec<Peer>,
        peers6: Vec<Peer>,
    ) -> (r: Self)
        ensures
            r == (AnnounceResponse::Success {
                interval: INTERVAL,
                complete,
                incomplete,
                peers,
                peers6,
            }),
    {
        AnnounceResponse::Success { interval: INTERVAL, complete, incomplete, peers, peers6 }
    }

    /// The HTTP status that goes with the response: 400 with a failure,
    /// 200 with a success.
    pub fn status(&self) -> (r: u16)
        ensures
            r == if self is Failure { 400u16 } else { 200u16 },
    {
        match self {
            AnnounceResponse::Failure { .. } => 400,
            AnnounceResponse::Success { .. } => 200,
        }
    }
}

/// The failure response for a store that failed at `stage`.
pub fn storage_failure(stage: Stage) -> (r: AnnounceResponse)
    ensures
        r@ == (ResponseView::Failure { failure_reason: failure_reason(stage) }),
{
    match stage {
        Stage::Mutation(Event::Started) => AnnounceResponse::fail("Failed to add peer to swarm"),
        Stage::Mutation(Event::Stopped) => AnnounceResponse::fail(
            "Failed to remove peer from swarm",
        ),
        Stage::Mutation(Event::Completed) => AnnounceResponse::fail(
            "Failed to promote peer to seeder",
        ),
        Stage::Peers => AnnounceResponse::fail("Failed to get peers"),
        Stage::Stats => AnnounceResponse::fail("Failed to get peer stats"),
    }
}

/// The commands that the request's event sends to the store, in order.
/// Without an event there are none, and no address is needed. With an event
/// and no address, neither named nor observed, the request fails.
pub fn announce_commands(request: &AnnounceRequest, observed: Option<IpAddress>) -> (r: Result<
    Vec<StoreCommand>,
    AnnounceResponse,
>)
    ensures
        match request.event {
            None => r is Ok && r.unwrap()@.len() == 0,
            Some(event) => match request.effective_ip(observed) {
                Some(ip) => r is Ok && command_views(r.unwrap()@) == event_commands(
                    event,
                    request.info_hash@,
                    request.peer_at(ip),
                    request.seeding(),
                ),
                None => r is Err && r.unwrap_err()@ == (ResponseView::Failure {
                    failure_reason: "Could not determine peer's ip address"@,
                }),
            },
        },
{
    let event = match request.event {
        Some(event) => event,
        None => {
            return Ok(Vec::new());
        },
    };
    let ip = match request.ip {
        Some(ip) => ip,
        None => match observed {
            Some(ip) => ip,
            None => {
                return Err(AnnounceResponse::fail("Could not determine peer's ip address"));
            },
        },
    };
    let peer = Peer::new(request.peer_id.clone(), ip, request.port);
    let info_hash = request.info_hash.as_str();
    let commands = match event {
        Event::Started => SwarmState::add_peer(info_hash, &peer, request.is_seeder()),
        Event::Stopped => SwarmState::remove_peer(info_hash, &peer),
        Event::Completed => SwarmState::promote_peer(info_hash, &peer),
    };
    Ok(commands)
}

/// The response owed to a request when the store holds `seeders` and
/// `leechers` for its torrent and counts `complete` and `incomplete`: the
/// listing for this caller with the two counts, or the failure of the
/// `Peers` stage where a shown member does not decode.
pub open spec fn answer(
    request: AnnounceRequest,
    seeders: Seq<Seq<u8>>,
    leechers: Seq<Seq<u8>>,
    complete: usize,
    incomplete: usize,
) -> ResponseView {
    match decode_all(shown(seeders, leechers, request.seeding())) {
        Some(all) => ResponseView::Success {
            interval: INTERVAL,
            complete,
            incomplete,
            peers: front(of_family(all, true), request.wanted()),
            peers6: front(of_family(all, false), request.wanted()),
        },
        None => ResponseView::Failure { failure_reason: failure_reason(Stage::Peers) },
    }
}

/// The response to a request once its event is carried out and the sets
/// and their sizes are read.
pub fn announce(
    request: &AnnounceRequest,
    swarm: &SwarmState,
    complete: usize,
    incomplete: usize,
) -> (r: AnnounceResponse)
    ensures
        r@ == answer(
            *request,
            member_views(swarm.seeders@),
            member_views(swarm.leechers@),
            complete,
            incomplete,
        ),
{
    match swarm.peers(request.is_seeder(), request.numwant_or_default()) {
        Ok((peers, peers6)) => AnnounceResponse::success(complete, incomplete, peers, peers6),
        Err(_) => storage_failure(Stage::Peers),
    }
}

} // verus!
