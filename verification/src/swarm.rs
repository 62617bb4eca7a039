//! The swarm registry: which commands an operation sends to the store, and
//! how the peer listing is put together from what the store holds.
use vstd::prelude::*;
use crate::peer::{decode_peer, encode_peer, encodable, leechers_key, seeders_key};
use crate::peer::{Peer, PeerView, TrackerError};
use crate::store::{command_views, CommandView, StoreCommand};

verus! {

/// The two sets of one torrent as the store handed them out: each member is
/// the stored form of a peer.
#[derive(Clone, Debug, PartialEq, Eq)]
pub struct SwarmState {
    pub seeders: Vec<Vec<u8>>,
    pub leechers: Vec<Vec<u8>>,
}

/// The byte strings that a list of members holds, in order.
pub open spec fn member_views(raw: Seq<Vec<u8>>) -> Seq<Seq<u8>> {
    Seq::new(raw.len(), |i: int| raw[i]@)
}

/// The values of a list of peers, in order.
pub open spec fn peer_views(peers: Seq<Peer>) -> Seq<PeerView> {
    Seq::new(peers.len(), |i: int| peers[i]@)
}

/// The peers that the members stand for, in order; `None` if any member is
/// no stored form of a peer.
pub open spec fn decode_all(raw: Seq<Seq<u8>>) -> Option<Seq<PeerView>>
    decreases raw.len(),
{
    if raw.len() == 0 {
        Some(Seq::empty())
    } else {
        match (decode_all(raw.drop_last()), decode_peer(raw.last())) {
            (Some(init), Some(p)) => Some(init.push(p)),
            _ => None,
        }
    }
}

/// The peers of one address family among `peers`, in their order.
pub open spec fn of_family(peers: Seq<PeerView>, v4: bool) -> Seq<PeerView>
    decreases peers.len(),
{
    if peers.len() == 0 {
        Seq::empty()
    } else if (peers.last().ip is V4) == v4 {
        of_family(peers.drop_last(), v4).push(peers.last())
    } else {
        of_family(peers.drop_last(), v4)
    }
}

/// The members that a caller is shown: a seeder sees the leechers only,
/// anyone else the seeders and then the leechers.
pub open spec fn shown(seeders: Seq<Seq<u8>>, leechers: Seq<Seq<u8>>, is_seeder: bool) -> Seq<
    Seq<u8>,
> {
    if is_seeder {
        leechers
    } else {
        seeders + leechers
    }
}

/// The front of `peers`, at most `numwant` long.
pub open spec fn front(peers: Seq<PeerView>, numwant: usize) -> Seq<PeerView> {
    if peers.len() > numwant {
        peers.subrange(0, numwant as int)
    } else {
        peers
    }
}

/// The commands of `add_peer`.
pub open spec fn add_commands(info_hash: Seq<char>, peer: PeerView, is_seeder: bool) -> Seq<
    CommandView,
> {
    let key = if is_seeder {
        seeders_key(info_hash)
    } else {
        leechers_key(info_hash)
    };
    seq![CommandView::SetAdd { key, member: encode_peer(peer) }]
}

/// The commands of `remove_peer`.
pub open spec fn remove_commands(info_hash: Seq<char>, peer: PeerView) -> Seq<CommandView> {
    seq![
        CommandView::SetRemove { key: seeders_key(info_hash), member: encode_peer(peer) },
        CommandView::SetRemove { key: leechers_key(info_hash), member: encode_peer(peer) },
    ]
}

/// The commands of `promote_peer`.
pub open spec fn promote_commands(info_hash: Seq<char>, peer: PeerView) -> Seq<CommandView> {
    seq![
        CommandView::SetRemove { key: leechers_key(info_hash), member: encode_peer(peer) },
        CommandView::SetAdd { key: seeders_key(info_hash), member: encode_peer(peer) },
    ]
}

/// If a front part of the members does not decode, the whole does not.
pub proof fn lemma_decode_all_prefix(raw: Seq<Seq<u8>>, k: int)
    requires
        0 <= k <= raw.len(),
        decode_all(raw.take(k)) is None,
    ensures
        decode_all(raw) is None,
    decreases raw.len(),
{
    if k == raw.len() {
        assert(raw.take(k) =~= raw);
    } else {
        assert(raw.drop_last().take(k) =~= raw.take(k));
        lemma_decode_all_prefix(raw.drop_last(), k);
    }
}

/// A peer whose stored form is among members that all decode is listed
/// under its own address family, and not under the other.
pub proof fn lemma_member_is_listed(raw: Seq<Seq<u8>>, p: PeerView)
    requires
        encodable(p),
        raw.contains(encode_peer(p)),
        decode_all(raw) is Some,
    ensures
        of_family(decode_all(raw).unwrap(), p.ip is V4).contains(p),
        !of_family(decode_all(raw).unwrap(), !(p.ip is V4)).contains(p),
    decreases raw.len(),
{
    let all = decode_all(raw).unwrap();
    lemma_family_members(all, !(p.ip is V4));
    let init = decode_all(raw.drop_last()).unwrap();
    let last = decode_peer(raw.last()).unwrap();
    assert(all.drop_last() =~= init);
    assert(all.last() == last);
    let i = choose|i: int| 0 <= i < raw.len() && raw[i] == encode_peer(p);
    let fam = of_family(all, p.ip is V4);
    if i == raw.len() - 1 {
        crate::peer::lemma_decode_encode(p);
        assert(fam.last() == p);
    } else {
        assert(raw.drop_last()[i] == encode_peer(p));
        lemma_member_is_listed(raw.drop_last(), p);
        let sub = of_family(init, p.ip is V4);
        let j = choose|j: int| 0 <= j < sub.len() && sub[j] == p;
        assert(fam[j] == p);
    }
}

/// A family's list holds peers of that family only, each of them from `peers`.
pub proof fn lemma_family_members(peers: Seq<PeerView>, v4: bool)
    ensures
        of_family(peers, v4).len() <= peers.len(),
        forall|q: PeerView| #[trigger]
            of_family(peers, v4).contains(q) ==> (q.ip is V4) == v4 && peers.contains(q),
    decreases peers.len(),
{
    if peers.len() > 0 {
        lemma_family_members(peers.drop_last(), v4);
        assert forall|q: PeerView| #[trigger]
            of_family(peers, v4).contains(q) implies (q.ip is V4) == v4 && peers.contains(q) by {
            let fam = of_family(peers, v4);
            let j = choose|j: int| 0 <= j < fam.len() && fam[j] == q;
            if (peers.last().ip is V4) == v4 && j == fam.len() - 1 {
                assert(peers[peers.len() - 1] == q);
            } else {
                assert(of_family(peers.drop_last(), v4)[j] == q);
                assert(of_family(peers.drop_last(), v4).contains(q));
                let k = choose|k: int|
                    0 <= k < peers.drop_last().len() && peers.drop_last()[k] == q;
                assert(peers[k] == q);
            }
        }
    }
}

/// Decodes `raw` and appends each peer to the list of its address family.
fn route_members(
    raw: &Vec<Vec<u8>>,
    v4: Vec<Peer>,
    v6: Vec<Peer>,
    Ghost(before): Ghost<Seq<Seq<u8>>>,
) -> (r: Option<(Vec<Peer>, Vec<Peer>)>)
    requires
        decode_all(before) is Some,
        peer_views(v4@) == of_family(decode_all(before).unwrap(), true),
        peer_views(v6@) == of_family(decode_all(before).unwrap(), false),
    ensures
        match decode_all(before + member_views(raw@)) {
            Some(all) => r is Some && peer_views(r.unwrap().0@) == of_family(all, true)
                && peer_views(r.unwrap().1@) == of_family(all, false),
            None => r is None,
        },
{
    let mut v4 = v4;
    let mut v6 = v6;
    let ghost whole = before + member_views(raw@);
    let mut i: usize = 0;
    assert(whole.take(before.len() as int) =~= before);
    while i < raw.len()
        invariant
            i <= raw@.len(),
            whole == before + member_views(raw@),
            decode_all(whole.take(before.len() + i)) is Some,
            peer_views(v4@) == of_family(decode_all(whole.take(before.len() + i)).unwrap(), true),
            peer_views(v6@) == of_family(
                decode_all(whole.take(before.len() + i)).unwrap(),
                false,
            ),
        decreases raw@.len() - i,
    {
        let ghost cur = whole.take(before.len() + i);
        let ghost next = whole.take(before.len() + i + 1);
        proof {
            assert(next.drop_last() =~= cur);
            assert(next.last() == raw@[i as int]@);
        }
        match Peer::bin_decode(raw[i].as_slice()) {
            Ok(peer) => {
                let ghost old4 = peer_views(v4@);
                let ghost old6 = peer_views(v6@);
                if peer.ip.is_ipv4() {
                    v4.push(peer);
                    assert(peer_views(v4@) =~= old4.push(peer@));
                } else {
                    v6.push(peer);
                    assert(peer_views(v6@) =~= old6.push(peer@));
                }
                proof {
                    let all = decode_all(next).unwrap();
                    assert(all.drop_last() =~= decode_all(cur).unwrap());
                    assert(all.last() == peer@);
                }
            },
            Err(_) => {
                proof {
                    lemma_decode_all_prefix(whole, before.len() + i + 1);
                }
                return None;
            },
        }
        i += 1;
    }
    assert(whole.take(before.len() + i) =~= whole);
    Some((v4, v6))
}

impl SwarmState {
    /// The swarm whose sets hold these members.
    pub fn new(seeders: Vec<Vec<u8>>, leechers: Vec<Vec<u8>>) -> (r: Self)
        ensures
            r.seeders == seeders,
            r.leechers == leechers,
    {
        SwarmState { seeders, leechers }
    }

    /// The commands that register `peer` for `info_hash`: one addition, to
    /// the seeder set if `is_seeder`, else to the leecher set.
    pub fn add_peer(info_hash: &str, peer: &Peer, is_seeder: bool) -> (r: Vec<StoreCommand>)
        ensures
            command_views(r@) == add_commands(info_hash@, peer@, is_seeder),
    {
        let key = if is_seeder {
            Peer::key_seeders(info_hash)
        } else {
            Peer::key_leechers(info_hash)
        };
        let r = vec![StoreCommand::SetAdd { key, member: peer.bin_encode() }];
        assert(command_views(r@) =~= add_commands(info_hash@, peer@, is_seeder));
        r
    }

    /// The commands that take `peer` out of both sets of `info_hash`.
    pub fn remove_peer(info_hash: &str, peer: &Peer) -> (r: Vec<StoreCommand>)
        ensures
            command_views(r@) == remove_commands(info_hash@, peer@),
    {
        let r = vec![
            StoreCommand::SetRemove {
                key: Peer::key_seeders(info_hash),
                member: peer.bin_encode(),
            },
            StoreCommand::SetRemove {
                key: Peer::key_leechers(info_hash),
                member: peer.bin_encode(),
            },
        ];
        assert(command_views(r@) =~= remove_commands(info_hash@, peer@));
        r
    }

    /// The commands that move `peer` to the seeders of `info_hash`: out of
    /// the leecher set first, then into the seeder set.
    pub fn promote_peer(info_hash: &str, peer: &Peer) -> (r: Vec<StoreCommand>)
        ensures
            command_views(r@) == promote_commands(info_hash@, peer@),
    {
        let r = vec![
            StoreCommand::SetRemove {
                key: Peer::key_leechers(info_hash),
                member: peer.bin_encode(),
            },
            StoreCommand::SetAdd { key: Peer::key_seeders(info_hash), member: peer.bin_encode() },
        ];
        assert(command_views(r@) =~= promote_commands(info_hash@, peer@));
        r
    }

    /// The peers shown to a caller, IPv4 first and IPv6 second, each list cut
    /// to its first `numwant` entries. `Decode` if a shown member is no
    /// stored form of a peer.
    pub fn peers(&self, is_seeder: bool, numwant: usize) -> (r: Result<
        (Vec<Peer>, Vec<Peer>),
        TrackerError,
    >)
        ensures
            match decode_all(
                shown(member_views(self.seeders@), member_views(self.leechers@), is_seeder),
            ) {
                Some(all) => r is Ok && peer_views(r.unwrap().0@) == front(
                    of_family(all, true),
                    numwant,
                ) && peer_views(r.unwrap().1@) == front(of_family(all, false), numwant),
                None => r == Err::<(Vec<Peer>, Vec<Peer>), TrackerError>(TrackerError::Decode),
            },
            r is Ok ==> r.unwrap().0@.len() <= numwant && r.unwrap().1@.len() <= numwant,
    {
        let mut lists: (Vec<Peer>, Vec<Peer>) = (Vec::new(), Vec::new());
        let ghost seen: Seq<Seq<u8>> = Seq::empty();
        assert(peer_views(lists.0@) =~= of_family(decode_all(seen).unwrap(), true));
        assert(peer_views(lists.1@) =~= of_family(decode_all(seen).unwrap(), false));
        if !is_seeder {
            assert(seen + member_views(self.seeders@) =~= member_views(self.seeders@));
            match route_members(&self.seeders, lists.0, lists.1, Ghost(seen)) {
                Some(next) => {
                    lists = next;
                },
                None => {
                    proof {
                        let all = member_views(self.seeders@) + member_views(self.leechers@);
                        assert(all.take(self.seeders@.len() as int) =~= member_views(
                            self.seeders@,
                        ));
                        lemma_decode_all_prefix(all, self.seeders@.len() as int);
                    }
                    return Err(TrackerError::Decode);
                },
            }
            proof {
                seen = member_views(self.seeders@);
            }
        }
        assert(seen + member_views(self.leechers@) =~= shown(
            member_views(self.seeders@),
            member_views(self.leechers@),
            is_seeder,
        ));
        let (mut peers, mut peers6) = match route_members(
            &self.leechers,
            lists.0,
            lists.1,
            Ghost(seen),
        ) {
            Some(next) => next,
            None => {
                return Err(TrackerError::Decode);
            },
        };
        let ghost full4 = peer_views(peers@);
        let ghost full6 = peer_views(peers6@);
        if peers.len() > numwant {
            peers.truncate(numwant);
        }
        if peers6.len() > numwant {
            peers6.truncate(numwant);
        }
        assert(peer_views(peers@) =~= front(full4, numwant));
        assert(peer_views(peers6@) =~= front(full6, numwant));
        Ok((peers, peers6))
    }

    /// The numbers of seeders and of leechers read: the sizes of the two
    /// sets, where each list names every member once.
    pub fn peer_stats(&self) -> (r: (usize, usize))
        ensures
            r.0 == self.seeders@.len(),
            r.1 == self.leechers@.len(),
            member_views(self.seeders@).no_duplicates() ==> r.0 == member_views(
                self.seeders@,
            ).to_set().len(),
            member_views(self.leechers@).no_duplicates() ==> r.1 == member_views(
                self.leechers@,
            ).to_set().len(),
    {
        proof {
            if member_views(self.seeders@).no_duplicates() {
                member_views(self.seeders@).unique_seq_to_set();
            }
            if member_views(self.leechers@).no_duplicates() {
                member_views(self.leechers@).unique_seq_to_set();
            }
        }
        (self.seeders.len(), self.leechers.len())
    }
}

} // verus!
