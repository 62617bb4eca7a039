//! What the announce protocol guarantees of the store, proved over the model
//! of the store as named sets.
use vstd::prelude::*;
use crate::announce::{answer, event_commands, Event};
use crate::announce::AnnounceRequest;
use crate::peer::IpAddress;
use crate::session::{begins, follows, Phase, Progress, QueryView, Session, StoreReply};
use crate::swarm::{add_commands, remove_commands};
use crate::swarm::member_views;
use crate::peer::{encode_peer, encodable, leechers_key, seeders_key, PeerView};
use crate::peer::{lemma_encode_decode, lemma_keys_differ};
use crate::store::{apply, apply_all, command_views, finite_store, members, CommandView};
use crate::swarm::{decode_all, lemma_family_members, lemma_member_is_listed, of_family, shown};

verus! {

/// What one command does to the set at each key.
pub proof fn lemma_apply_members(
    store: Map<Seq<char>, Set<Seq<u8>>>,
    command: CommandView,
    key: Seq<char>,
)
    ensures
        members(apply(store, command), key) == match command {
            CommandView::SetAdd { key: k, member } => if key == k {
                members(store, k).insert(member)
            } else {
                members(store, key)
            },
            CommandView::SetRemove { key: k, member } => if key == k {
                members(store, k).remove(member)
            } else {
                members(store, key)
            },
        },
        finite_store(store) ==> finite_store(apply(store, command)),
{
    if finite_store(store) {
        assert forall|k: Seq<char>| #[trigger] members(apply(store, command), k).finite() by {
            assert(members(store, k).finite());
            match command {
                CommandView::SetAdd { key: c, member } => {
                    assert(members(store, c).finite());
                },
                CommandView::SetRemove { key: c, member } => {
                    assert(members(store, c).finite());
                },
            }
        }
    }
}

/// A list of one command does what the command does.
pub proof fn lemma_apply_one(store: Map<Seq<char>, Set<Seq<u8>>>, a: CommandView)
    ensures
        apply_all(store, seq![a]) == apply(store, a),
{
    reveal_with_fuel(apply_all, 2);
    assert(seq![a].drop_last() =~= Seq::<CommandView>::empty());
}

/// A list of two commands does the first and then the second.
pub proof fn lemma_apply_two(store: Map<Seq<char>, Set<Seq<u8>>>, a: CommandView, b: CommandView)
    ensures
        apply_all(store, seq![a, b]) == apply(apply(store, a), b),
{
    assert(seq![a, b].drop_last() =~= seq![a]);
    lemma_apply_one(store, a);
}

/// A peer that decodes from members that all decode has its stored form
/// among them.
pub proof fn lemma_listed_is_member(raw: Seq<Seq<u8>>, p: PeerView)
    requires
        decode_all(raw) is Some,
        decode_all(raw).unwrap().contains(p),
    ensures
        raw.contains(encode_peer(p)),
    decreases raw.len(),
{
    let all = decode_all(raw).unwrap();
    let i = choose|i: int| 0 <= i < all.len() && all[i] == p;
    if raw.len() > 0 {
        let init = decode_all(raw.drop_last()).unwrap();
        if i == all.len() - 1 {
            lemma_encode_decode(raw.last());
            assert(raw[raw.len() - 1] == encode_peer(p));
        } else {
            assert(init[i] == p);
            lemma_listed_is_member(raw.drop_last(), p);
            let j = choose|j: int|
                0 <= j < raw.drop_last().len() && raw.drop_last()[j] == encode_peer(p);
            assert(raw[j] == encode_peer(p));
        }
    }
}

/// After `started` with bytes left to fetch the peer is in the leecher set
/// and the seeder set is as it was. Every caller that is then handed the
/// members of the leecher set, a seeder too, finds the peer in the list of
/// its family.
pub proof fn law_started_leecher_is_listed(
    store: Map<Seq<char>, Set<Seq<u8>>>,
    info_hash: Seq<char>,
    p: PeerView,
    seeders: Seq<Seq<u8>>,
    leechers: Seq<Seq<u8>>,
    caller_is_seeder: bool,
)
    requires
        encodable(p),
        leechers.to_set() == members(
            apply_all(store, event_commands(Event::Started, info_hash, p, false)),
            leechers_key(info_hash),
        ),
        decode_all(shown(seeders, leechers, caller_is_seeder)) is Some,
    ensures
        ({
            let after = apply_all(store, event_commands(Event::Started, info_hash, p, false));
            &&& members(after, leechers_key(info_hash)).contains(encode_peer(p))
            &&& members(after, seeders_key(info_hash)) == members(
                store,
                seeders_key(info_hash),
            )
        }),
        of_family(
            decode_all(shown(seeders, leechers, caller_is_seeder)).unwrap(),
            p.ip is V4,
        ).contains(p),
{
    let add = CommandView::SetAdd { key: leechers_key(info_hash), member: encode_peer(p) };
    lemma_apply_one(store, add);
    lemma_keys_differ(info_hash);
    lemma_apply_members(store, add, leechers_key(info_hash));
    lemma_apply_members(store, add, seeders_key(info_hash));
    let all = shown(seeders, leechers, caller_is_seeder);
    assert(leechers.to_set().contains(encode_peer(p)));
    let i = choose|i: int| 0 <= i < leechers.len() && leechers[i] == encode_peer(p);
    if caller_is_seeder {
        assert(all[i] == encode_peer(p));
    } else {
        assert(all[seeders.len() + i] == encode_peer(p));
    }
    lemma_member_is_listed(all, p);
}

/// After `started` with nothing left to fetch the peer is in the seeder
/// set, which then counts at least one member.
pub proof fn law_started_seeder_is_counted(
    store: Map<Seq<char>, Set<Seq<u8>>>,
    info_hash: Seq<char>,
    p: PeerView,
)
    requires
        finite_store(store),
    ensures
        ({
            let after = apply_all(store, event_commands(Event::Started, info_hash, p, true));
            &&& members(after, seeders_key(info_hash)).contains(encode_peer(p))
            &&& members(after, seeders_key(info_hash)).len() >= 1
            &&& members(after, leechers_key(info_hash)) == members(
                store,
                leechers_key(info_hash),
            )
        }),
{
    let add = CommandView::SetAdd { key: seeders_key(info_hash), member: encode_peer(p) };
    lemma_apply_one(store, add);
    lemma_keys_differ(info_hash);
    lemma_apply_members(store, add, seeders_key(info_hash));
    lemma_apply_members(store, add, leechers_key(info_hash));
    assert(members(store, seeders_key(info_hash)).finite());
}

/// After `started` and then `stopped` the peer is in neither set, the set
/// it had joined counts exactly one member less, and no listing read from
/// the two sets names the peer.
pub proof fn law_stopped_leaves_both(
    store: Map<Seq<char>, Set<Seq<u8>>>,
    info_hash: Seq<char>,
    p: PeerView,
    is_seeder: bool,
    listing: Seq<Seq<u8>>,
)
    requires
        finite_store(store),
        decode_all(listing) is Some,
        ({
            let joined = apply_all(store, event_commands(Event::Started, info_hash, p, is_seeder));
            let after = apply_all(joined, event_commands(Event::Stopped, info_hash, p, is_seeder));
            forall|i: int|
                0 <= i < listing.len() ==> members(after, seeders_key(info_hash)).contains(
                    #[trigger] listing[i],
                ) || members(after, leechers_key(info_hash)).contains(listing[i])
        }),
    ensures
        ({
            let joined = apply_all(store, event_commands(Event::Started, info_hash, p, is_seeder));
            let after = apply_all(joined, event_commands(Event::Stopped, info_hash, p, is_seeder));
            let key = if is_seeder {
                seeders_key(info_hash)
            } else {
                leechers_key(info_hash)
            };
            &&& !members(after, seeders_key(info_hash)).contains(encode_peer(p))
            &&& !members(after, leechers_key(info_hash)).contains(encode_peer(p))
            &&& members(after, key).len() == members(joined, key).len() - 1
        }),
        !of_family(decode_all(listing).unwrap(), true).contains(p),
        !of_family(decode_all(listing).unwrap(), false).contains(p),
{
    let e = encode_peer(p);
    let sk = seeders_key(info_hash);
    let lk = leechers_key(info_hash);
    let key = if is_seeder { sk } else { lk };
    let add = CommandView::SetAdd { key, member: e };
    let rs = CommandView::SetRemove { key: sk, member: e };
    let rl = CommandView::SetRemove { key: lk, member: e };
    let joined = apply(store, add);
    let mid = apply(joined, rs);
    let after = apply(mid, rl);
    lemma_keys_differ(info_hash);
    lemma_apply_one(store, add);
    lemma_apply_two(joined, rs, rl);
    lemma_apply_members(store, add, sk);
    lemma_apply_members(store, add, lk);
    lemma_apply_members(joined, rs, sk);
    lemma_apply_members(joined, rs, lk);
    lemma_apply_members(mid, rl, sk);
    lemma_apply_members(mid, rl, lk);
    assert(members(store, key).finite());
    assert(members(joined, key).finite());
    assert(members(joined, key).contains(e));
    assert(members(after, key) == members(joined, key).remove(e));

    let all = decode_all(listing).unwrap();
    if all.contains(p) {
        lemma_listed_is_member(listing, p);
        let i = choose|i: int| 0 <= i < listing.len() && listing[i] == e;
        assert(members(after, sk).contains(listing[i]) || members(after, lk).contains(listing[i]));
    }
    lemma_family_members(all, true);
    lemma_family_members(all, false);
}

/// `completed` leaves the peer among the seeders and not among the
/// leechers, and a second `completed` right after changes nothing in the
/// store: the seeder set holds the peer once and the leecher set is as the
/// first left it.
pub proof fn law_completed_twice(
    store: Map<Seq<char>, Set<Seq<u8>>>,
    info_hash: Seq<char>,
    p: PeerView,
    is_seeder: bool,
)
    ensures
        ({
            let once = apply_all(
                store,
                event_commands(Event::Completed, info_hash, p, is_seeder),
            );
            let twice = apply_all(once, event_commands(Event::Completed, info_hash, p, is_seeder));
            &&& members(once, seeders_key(info_hash)).contains(encode_peer(p))
            &&& !members(once, leechers_key(info_hash)).contains(encode_peer(p))
            &&& twice == once
        }),
{
    let e = encode_peer(p);
    let sk = seeders_key(info_hash);
    let lk = leechers_key(info_hash);
    let rl = CommandView::SetRemove { key: lk, member: e };
    let add = CommandView::SetAdd { key: sk, member: e };
    let once = apply(apply(store, rl), add);
    let twice = apply(apply(once, rl), add);
    lemma_keys_differ(info_hash);
    lemma_apply_two(store, rl, add);
    lemma_apply_two(once, rl, add);
    lemma_apply_members(store, rl, sk);
    lemma_apply_members(store, rl, lk);
    lemma_apply_members(apply(store, rl), add, sk);
    lemma_apply_members(apply(store, rl), add, lk);
    assert(members(once, lk).remove(e) =~= members(once, lk));
    assert(members(once, sk).insert(e) =~= members(once, sk));
    assert(twice =~= once);
}

/// Registering a peer twice is registering it once.
pub proof fn law_add_is_idempotent(
    store: Map<Seq<char>, Set<Seq<u8>>>,
    info_hash: Seq<char>,
    p: PeerView,
    is_seeder: bool,
)
    ensures
        ({
            let once = apply_all(store, add_commands(info_hash, p, is_seeder));
            apply_all(once, add_commands(info_hash, p, is_seeder)) == once
        }),
{
    let key = if is_seeder {
        seeders_key(info_hash)
    } else {
        leechers_key(info_hash)
    };
    let add = CommandView::SetAdd { key, member: encode_peer(p) };
    let once = apply(store, add);
    lemma_apply_one(store, add);
    lemma_apply_one(once, add);
    assert(members(once, key).insert(encode_peer(p)) =~= members(once, key));
    assert(apply(once, add) =~= once);
}

/// Removing a peer leaves it in neither set, whether or not it was in
/// one, and removing it again changes nothing.
pub proof fn law_remove_is_idempotent(
    store: Map<Seq<char>, Set<Seq<u8>>>,
    info_hash: Seq<char>,
    p: PeerView,
)
    ensures
        ({
            let once = apply_all(store, remove_commands(info_hash, p));
            &&& !members(once, seeders_key(info_hash)).contains(encode_peer(p))
            &&& !members(once, leechers_key(info_hash)).contains(encode_peer(p))
            &&& apply_all(once, remove_commands(info_hash, p)) == once
        }),
{
    let e = encode_peer(p);
    let sk = seeders_key(info_hash);
    let lk = leechers_key(info_hash);
    let rs = CommandView::SetRemove { key: sk, member: e };
    let rl = CommandView::SetRemove { key: lk, member: e };
    let once = apply(apply(store, rs), rl);
    lemma_keys_differ(info_hash);
    lemma_apply_two(store, rs, rl);
    lemma_apply_two(once, rs, rl);
    lemma_apply_members(store, rs, sk);
    lemma_apply_members(apply(store, rs), rl, sk);
    lemma_apply_members(apply(store, rs), rl, lk);
    assert(members(once, sk).remove(e) =~= members(once, sk));
    assert(members(once, lk).remove(e) =~= members(once, lk));
    assert(apply(once, rs) =~= once);
    assert(apply(apply(once, rs), rl) =~= once);
}

/// A session for a request with an event and an address sends the
/// commands of the event, first to last, while the store confirms each,
/// and then reads the leecher set.
pub proof fn law_session_sends_commands(
    request: AnnounceRequest,
    observed: Option<IpAddress>,
    first: Progress,
    second: Progress,
    third: Progress,
)
    requires
        request.event is Some,
        request.effective_ip(observed) is Some,
        begins(request, observed, first),
        first is Ask ==> follows(first->session, StoreReply::Changed, second),
        second is Ask ==> follows(second->session, StoreReply::Changed, third),
    ensures
        ({
            let commands = event_commands(
                request.event.unwrap(),
                request.info_hash@,
                request.peer_at(request.effective_ip(observed).unwrap()),
                request.seeding(),
            );
            let read = QueryView::Members { key: leechers_key(request.info_hash@) };
            &&& 1 <= commands.len() <= 2
            &&& first is Ask
            &&& first->query@ == QueryView::Change(commands[0])
            &&& second is Ask
            &&& if commands.len() == 1 {
                second->query@ == read
            } else {
                &&& second->query@ == QueryView::Change(commands[1])
                &&& third is Ask
                &&& third->query@ == read
            }
        }),
{
    let commands = event_commands(
        request.event.unwrap(),
        request.info_hash@,
        request.peer_at(request.effective_ip(observed).unwrap()),
        request.seeding(),
    );
    let pending = first->session.pending@;
    assert(command_views(pending).len() == pending.len());
    if commands.len() == 2 {
        assert(command_views(pending)[0] == commands[1]);
        let rest = second->session.pending@;
        assert(command_views(rest).len() == rest.len());
    }
}

/// A session that reads the leechers, then the seeders unless the caller
/// is a seeder, then the two counts, and is never told of a failure, ends
/// with the response owed to the request for what it read. It stops before
/// the counts when a member that the caller is shown does not decode.
pub proof fn law_session_answers(
    start: Session,
    leechers: Vec<Vec<u8>>,
    seeders: Vec<Vec<u8>>,
    complete: usize,
    incomplete: usize,
    read_leechers: Progress,
    read_all: Progress,
    counted_seeders: Progress,
    counted_all: Progress,
)
    requires
        start.phase == Phase::ReadingLeechers,
        follows(start, StoreReply::Members(leechers), read_leechers),
        start.request.seeding() ==> read_all == read_leechers,
        !start.request.seeding() ==> read_leechers is Ask && follows(
            read_leechers->session,
            StoreReply::Members(seeders),
            read_all,
        ),
        read_all is Ask ==> follows(
            read_all->session,
            StoreReply::Count(complete),
            counted_seeders,
        ),
        read_all is Ask && counted_seeders is Ask ==> follows(
            counted_seeders->session,
            StoreReply::Count(incomplete),
            counted_all,
        ),
    ensures
        ({
            let owed = answer(
                start.request,
                member_views(seeders@),
                member_views(leechers@),
                complete,
                incomplete,
            );
            if owed is Success {
                &&& read_all is Ask
                &&& counted_seeders is Ask
                &&& counted_all matches Progress::Done(response)
                &&& response@ == owed
            } else {
                &&& read_all matches Progress::Done(response)
                &&& response@ == owed
            }
        }),
{
}

} // verus!
