use vstd::prelude::*;
use vstd::utf8::{encode_utf8, decode_utf8, encode_utf8_decode_utf8};
use crate::crypto::bytes_eq;

verus! {

/// An entry of the remote peer directory: a node and the accounts it announced.
#[derive(Clone, Debug, PartialEq, Eq)]
pub struct PeerRecord {
    pub account_ids: Vec<String>,
    pub peer_id: String,
    pub multi_addr: String,
}

/// A row of the local peer cache, keyed by account address.
#[derive(Debug)]
pub struct SavedPeer {
    pub account_id: String,
    pub peer_id: String,
    pub multi_addr: String,
}

/// The local peer cache. Rows are only ever appended.
pub struct PeerDirectory {
    pub saved: Vec<SavedPeer>,
}

/// What a resolution asks of its caller.
#[derive(Debug, PartialEq, Eq)]
pub enum DirectoryStep {
    /// The local cache knows the account: peer id and multiaddress.
    Hit(String, String),
    /// The local cache misses: the remote directory must be listed.
    FetchRemote,
}

/// Peer id and multiaddress of the first cached row for `acc`.
pub open spec fn saved_lookup(saved: Seq<SavedPeer>, acc: Seq<char>) -> Option<
    (Seq<char>, Seq<char>),
>
    decreases saved.len(),
{
    if saved.len() == 0 {
        None
    } else if saved[0].account_id@ == acc {
        Some((saved[0].peer_id@, saved[0].multi_addr@))
    } else {
        saved_lookup(saved.drop_first(), acc)
    }
}

pub open spec fn announces(rec: PeerRecord, acc: Seq<char>) -> bool {
    exists|i: int| 0 <= i < rec.account_ids@.len() && (#[trigger] rec.account_ids@[i])@ == acc
}

/// Index of the first remote record that announces `acc`.
pub open spec fn remote_index(remote: Seq<PeerRecord>, acc: Seq<char>) -> Option<int>
    decreases remote.len(),
{
    if remote.len() == 0 {
        None
    } else if announces(remote[0], acc) {
        Some(0)
    } else {
        match remote_index(remote.drop_first(), acc) {
            Some(i) => Some(i + 1),
            None => None,
        }
    }
}

/// Cache after a resolution with the remote listing at hand: unchanged on a
/// local hit or a remote miss, else with one row for `acc` appended.
pub open spec fn cache_after(saved: Seq<SavedPeer>, remote: Seq<PeerRecord>, acc: Seq<char>) -> Seq<
    (Seq<char>, Seq<char>, Seq<char>),
> {
    let rows = saved.map_values(|p: SavedPeer| (p.account_id@, p.peer_id@, p.multi_addr@));
    if saved_lookup(saved, acc) is Some {
        rows
    } else {
        match remote_index(remote, acc) {
            Some(i) => rows.push((acc, remote[i].peer_id@, remote[i].multi_addr@)),
            None => rows,
        }
    }
}

/// Outcome of a resolution with the remote listing at hand.
pub open spec fn resolve_outcome(saved: Seq<SavedPeer>, remote: Seq<PeerRecord>, acc: Seq<char>) -> Option<
    (Seq<char>, Seq<char>),
> {
    match saved_lookup(saved, acc) {
        Some(hit) => Some(hit),
        None => match remote_index(remote, acc) {
            Some(i) => Some((remote[i].peer_id@, remote[i].multi_addr@)),
            None => None,
        },
    }
}

pub open spec fn rows_lookup(rows: Seq<(Seq<char>, Seq<char>, Seq<char>)>, acc: Seq<char>) -> Option<
    (Seq<char>, Seq<char>),
>
    decreases rows.len(),
{
    if rows.len() == 0 {
        None
    } else if rows[0].0 == acc {
        Some((rows[0].1, rows[0].2))
    } else {
        rows_lookup(rows.drop_first(), acc)
    }
}

impl PeerDirectory {
    pub open spec fn rows(&self) -> Seq<(Seq<char>, Seq<char>, Seq<char>)> {
        self.saved@.map_values(|p: SavedPeer| (p.account_id@, p.peer_id@, p.multi_addr@))
    }

    pub fn new() -> (r: PeerDirectory)
        ensures
            r.saved@.len() == 0,
    {
        PeerDirectory { saved: Vec::new() }
    }

    /// Looks `account` up in the local cache.
    pub fn get_saved_user_peers(&self, account: &str) -> (r: Option<(String, String)>)
        ensures
            match r {
                Some((p, m)) => saved_lookup(self.saved@, account@) == Some((p@, m@)),
                None => saved_lookup(self.saved@, account@) is None,
            },
    {
        let mut i: usize = 0;
        assert(self.saved@.subrange(0, self.saved@.len() as int) == self.saved@);
        while i < self.saved.len()
            invariant
                i <= self.saved@.len(),
                saved_lookup(self.saved@, account@) == saved_lookup(
                    self.saved@.subrange(i as int, self.saved@.len() as int),
                    account@,
                ),
            decreases self.saved@.len() - i,
        {
            let row = &self.saved[i];
            assert(self.saved@.subrange(i as int, self.saved@.len() as int).drop_first()
                == self.saved@.subrange(i + 1, self.saved@.len() as int));
            if str_eq(row.account_id.as_str(), account) {
                return Some((row.peer_id.clone(), row.multi_addr.clone()));
            }
            i = i + 1;
        }
        None
    }

    /// Appends a row to the local cache.
    pub fn record_saved_user_peers(&mut self, account: String, peer_id: String, multi_addr: String)
        ensures
            final(self).saved@ == old(self).saved@.push(
                SavedPeer { account_id: account, peer_id, multi_addr },
            ),
    {
        self.saved.push(SavedPeer { account_id: account, peer_id, multi_addr });
    }

    /// First step of a resolution: a local hit, or a request for the remote listing.
    pub fn resolve(&self, account: &str) -> (r: DirectoryStep)
        ensures
            match r {
                DirectoryStep::Hit(p, m) => saved_lookup(self.saved@, account@) == Some((p@, m@)),
                DirectoryStep::FetchRemote => saved_lookup(self.saved@, account@) is None,
            },
    {
        match self.get_saved_user_peers(account) {
            Some((p, m)) => DirectoryStep::Hit(p, m),
            None => DirectoryStep::FetchRemote,
        }
    }

    /// Second step of a resolution: search the remote listing and write a hit
    /// through to the local cache.
    pub fn resolve_with_remote(&mut self, account: &str, remote: &Vec<PeerRecord>) -> (r: Option<
        (String, String),
    >)
        ensures
            match r {
                Some((p, m)) => resolve_outcome(old(self).saved@, remote@, account@) == Some(
                    (p@, m@),
                ),
                None => resolve_outcome(old(self).saved@, remote@, account@) is None,
            },
            final(self).rows() == cache_after(old(self).saved@, remote@, account@),
    {
        if let Some((p, m)) = self.get_saved_user_peers(account) {
            return Some((p, m));
        }
        match find_in_remote(remote, account) {
            Some(i) => {
                let p = remote[i].peer_id.clone();
                let m = remote[i].multi_addr.clone();
                self.record_saved_user_peers(account.to_owned(), p.clone(), m.clone());
                assert(self.rows() =~= cache_after(old(self).saved@, remote@, account@));
                Some((p, m))
            },
            None => {
                assert(self.rows() =~= cache_after(old(self).saved@, remote@, account@));
                None
            },
        }
    }
}

/// Two strings are equal exactly when their UTF-8 bytes are.
pub fn str_eq(a: &str, b: &str) -> (r: bool)
    ensures
        r == (a@ == b@),
{
    proof {
        encode_utf8_decode_utf8(a@);
        encode_utf8_decode_utf8(b@);
    }
    bytes_eq(a.as_bytes(), b.as_bytes())
}

fn record_announces(rec: &PeerRecord, account: &str) -> (r: bool)
    ensures
        r == announces(*rec, account@),
{
    let mut i: usize = 0;
    while i < rec.account_ids.len()
        invariant
            i <= rec.account_ids@.len(),
            forall|j: int| 0 <= j < i ==> (#[trigger] rec.account_ids@[j])@ != account@,
        decreases rec.account_ids@.len() - i,
    {
        if str_eq(rec.account_ids[i].as_str(), account) {
            return true;
        }
        i = i + 1;
    }
    false
}

proof fn lemma_remote_index_suffix(remote: Seq<PeerRecord>, acc: Seq<char>, i: int)
    requires
        0 <= i <= remote.len(),
        forall|j: int| 0 <= j < i ==> !announces(#[trigger] remote[j], acc),
    ensures
        remote_index(remote, acc) == match remote_index(remote.subrange(i, remote.len() as int), acc) {
            Some(k) => Some(k + i),
            None => None,
        },
    decreases i,
{
    if i > 0 {
        assert(remote.drop_first().subrange(i - 1, remote.drop_first().len() as int)
            == remote.subrange(i, remote.len() as int));
        assert forall|j: int| 0 <= j < i - 1 implies !announces(
            #[trigger] remote.drop_first()[j],
            acc,
        ) by {
            assert(remote.drop_first()[j] == remote[j + 1]);
        }
        assert(!announces(remote[0], acc));
        lemma_remote_index_suffix(remote.drop_first(), acc, i - 1);
    } else {
        assert(remote.subrange(0, remote.len() as int) == remote);
    }
}

/// Index of the first remote record that announces `account`.
fn find_in_remote(remote: &Vec<PeerRecord>, account: &str) -> (r: Option<usize>)
    ensures
        match r {
            Some(i) => remote_index(remote@, account@) == Some(i as int) && i < remote@.len(),
            None => remote_index(remote@, account@) is None,
        },
{
    let mut i: usize = 0;
    while i < remote.len()
        invariant
            i <= remote@.len(),
            forall|j: int| 0 <= j < i ==> !announces(#[trigger] remote@[j], account@),
        decreases remote@.len() - i,
    {
        if record_announces(&remote[i], account) {
            proof {
                lemma_remote_index_suffix(remote@, account@, i as int);
            }
            return Some(i);
        }
        i = i + 1;
    }
    proof {
        lemma_remote_index_suffix(remote@, account@, i as int);
    }
    None
}

proof fn lemma_rows_lookup_push(
    rows: Seq<(Seq<char>, Seq<char>, Seq<char>)>,
    row: (Seq<char>, Seq<char>, Seq<char>),
    acc: Seq<char>,
)
    requires
        rows_lookup(rows, acc) is None,
        row.0 == acc,
    ensures
        rows_lookup(rows.push(row), acc) == Some((row.1, row.2)),
    decreases rows.len(),
{
    if rows.len() > 0 {
        assert(rows.push(row).drop_first() == rows.drop_first().push(row));
        lemma_rows_lookup_push(rows.drop_first(), row, acc);
    }
}

proof fn lemma_rows_match_saved(saved: Seq<SavedPeer>, acc: Seq<char>)
    ensures
        rows_lookup(
            saved.map_values(|p: SavedPeer| (p.account_id@, p.peer_id@, p.multi_addr@)),
            acc,
        ) == saved_lookup(saved, acc),
    decreases saved.len(),
{
    let rows = saved.map_values(|p: SavedPeer| (p.account_id@, p.peer_id@, p.multi_addr@));
    if saved.len() > 0 {
        assert(rows.drop_first() == saved.drop_first().map_values(
            |p: SavedPeer| (p.account_id@, p.peer_id@, p.multi_addr@),
        ));
        lemma_rows_match_saved(saved.drop_first(), acc);
    }
}

/// Once a resolution has found `acc`, the cache it leaves behind answers `acc`
/// locally with the same peer id and multiaddress, so the next resolution of
/// `acc` is a hit that needs no remote call.
pub proof fn lemma_resolve_idempotent(
    before: PeerDirectory,
    after: PeerDirectory,
    remote: Seq<PeerRecord>,
    acc: Seq<char>,
)
    requires
        after.rows() == cache_after(before.saved@, remote, acc),
        resolve_outcome(before.saved@, remote, acc) is Some,
    ensures
        saved_lookup(after.saved@, acc) == resolve_outcome(before.saved@, remote, acc),
{
    let saved = before.saved@;
    lemma_rows_match_saved(saved, acc);
    lemma_rows_match_saved(after.saved@, acc);
    let rows = saved.map_values(|p: SavedPeer| (p.account_id@, p.peer_id@, p.multi_addr@));
    if saved_lookup(saved, acc) is None {
        let i = remote_index(remote, acc)->0;
        lemma_rows_lookup_push(rows, (acc, remote[i].peer_id@, remote[i].multi_addr@), acc);
    }
}

} // verus!
