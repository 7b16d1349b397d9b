//! The server's connection registry.
//!
//! Three indices are kept in step: installation id to outbound channel,
//! installation id to linked account, and account to the set of its
//! installations. `wf` states their mutual consistency — an installation
//! sits in at most one account's set, exactly the account the inverse
//! index names for it, and no account row is ever empty — and every
//! operation preserves it.

use vstd::prelude::*;

use crossbeam::channel::Sender;

use crate::channel::channel_send;
use crate::ids::{AccountId, InstallationId};
use crate::kvmap::{
    lemma_map_of_contains, lemma_map_of_index, lemma_map_of_push, lemma_map_of_remove,
    map_of, unique_keys,
};
use crate::protocol::ServerResponse;

verus! {

/// The set of installations each account row holds.
pub open spec fn raw_links(l: Seq<(AccountId, Vec<InstallationId>)>) -> Map<
    AccountId,
    Set<InstallationId>,
> {
    map_of(l).map_values(|v: Vec<InstallationId>| v@.to_set())
}

/// Each account row lists every member once and is never empty.
pub open spec fn rows_ok(l: Seq<(AccountId, Vec<InstallationId>)>) -> bool {
    forall|k: int|
        0 <= k < l.len() ==> (#[trigger] l[k]).1@.no_duplicates() && l[k].1@.len() > 0
}

/// Every client currently connected to the server, with the account links
/// used for multi-device fan-out.
pub struct ConnectedClients {
    pub senders: Vec<(InstallationId, Sender<ServerResponse>)>,
    pub account_by_installation: Vec<(InstallationId, AccountId)>,
    pub installations_by_account: Vec<(AccountId, Vec<InstallationId>)>,
}

impl ConnectedClients {
    /// Outbound channel of each connected installation.
    pub open spec fn channels(self) -> Map<InstallationId, Sender<ServerResponse>> {
        map_of(self.senders@)
    }

    /// The account each linked installation belongs to.
    pub open spec fn account_of(self) -> Map<InstallationId, AccountId> {
        map_of(self.account_by_installation@)
    }

    /// The installations linked to each account.
    pub open spec fn links(self) -> Map<AccountId, Set<InstallationId>> {
        raw_links(self.installations_by_account@)
    }

    /// The account an installation is linked to, if any.
    pub open spec fn linked_account(self, id: InstallationId) -> Option<AccountId> {
        if self.account_of().contains_key(id) {
            Some(self.account_of()[id])
        } else {
            None
        }
    }

    /// Mutual consistency of the three indices.
    pub open spec fn wf(self) -> bool {
        &&& unique_keys(self.senders@)
        &&& unique_keys(self.account_by_installation@)
        &&& unique_keys(self.installations_by_account@)
        &&& rows_ok(self.installations_by_account@)
        &&& forall|id: InstallationId| #[trigger]
            self.account_of().contains_key(id) ==> self.channels().contains_key(id)
        &&& forall|id: InstallationId, a: AccountId| #[trigger]
            self.account_of().contains_pair(id, a) ==> self.links().contains_key(a)
                && self.links()[a].contains(id)
        &&& forall|id: InstallationId, a: AccountId|
            self.links().contains_key(a) && #[trigger] self.links()[a].contains(id)
                ==> self.account_of().contains_pair(id, a)
        &&& forall|a: AccountId| #[trigger]
            self.links().contains_key(a) ==> self.links()[a] != Set::<InstallationId>::empty()
    }

    /// Index of an installation's channel row.
    fn find_sender_index(&self, id: InstallationId) -> (r: Option<usize>)
        ensures
            match r {
                Some(i) => i < self.senders@.len() && self.senders@[i as int].0 == id,
                None => forall|j: int| 0 <= j < self.senders@.len() ==> self.senders@[j].0 != id,
            },
    {
        let mut j: usize = 0;
        while j < self.senders.len()
            invariant
                j <= self.senders@.len(),
                forall|p: int| 0 <= p < j ==> self.senders@[p].0 != id,
            decreases self.senders@.len() - j,
        {
            let pair = &self.senders[j];
            if pair.0 == id {
                return Some(j);
            }
            j = j + 1;
        }
        None
    }

    /// Index of an installation's account row.
    fn find_account_index(&self, id: InstallationId) -> (r: Option<usize>)
        ensures
            match r {
                Some(i) => i < self.account_by_installation@.len()
                    && self.account_by_installation@[i as int].0 == id,
                None => forall|j: int|
                    0 <= j < self.account_by_installation@.len()
                        ==> self.account_by_installation@[j].0 != id,
            },
    {
        let mut j: usize = 0;
        while j < self.account_by_installation.len()
            invariant
                j <= self.account_by_installation@.len(),
                forall|p: int| 0 <= p < j ==> self.account_by_installation@[p].0 != id,
            decreases self.account_by_installation@.len() - j,
        {
            let pair = &self.account_by_installation[j];
            if pair.0 == id {
                return Some(j);
            }
            j = j + 1;
        }
        None
    }

    /// Index of an account's member row.
    fn find_links_index(&self, account: AccountId) -> (r: Option<usize>)
        ensures
            match r {
                Some(i) => i < self.installations_by_account@.len()
                    && self.installations_by_account@[i as int].0 == account,
                None => forall|j: int|
                    0 <= j < self.installations_by_account@.len()
                        ==> self.installations_by_account@[j].0 != account,
            },
    {
        let mut j: usize = 0;
        while j < self.installations_by_account.len()
            invariant
                j <= self.installations_by_account@.len(),
                forall|p: int| 0 <= p < j ==> self.installations_by_account@[p].0 != account,
            decreases self.installations_by_account@.len() - j,
        {
            let pair = &self.installations_by_account[j];
            if pair.0 == account {
                return Some(j);
            }
            j = j + 1;
        }
        None
    }

    /// Whether an installation currently has an outbound channel.
    pub fn is_connected(&self, id: InstallationId) -> (r: bool)
        ensures
            r == self.channels().contains_key(id),
    {
        proof {
            lemma_map_of_contains(self.senders@, id);
        }
        self.find_sender_index(id).is_some()
    }

    /// Registers, or overwrites, the outbound channel of an installation.
    pub fn connect(&mut self, installation_id: InstallationId, sender: Sender<ServerResponse>)
        requires
            old(self).wf(),
        ensures
            final(self).wf(),
            final(self).channels() == old(self).channels().insert(installation_id, sender),
            final(self).account_of() == old(self).account_of(),
            final(self).links() == old(self).links(),
    {
        let ghost s0 = self.senders@;
        let found = self.find_sender_index(installation_id);
        match found {
            Some(i) => {
                let _replaced = self.senders.remove(i);
                let ghost s1 = self.senders@;
                self.senders.push((installation_id, sender));
                proof {
                    lemma_map_of_remove(s0, i as int);
                    assert forall|p: int| 0 <= p < s1.len() implies s1[p].0 != installation_id by {
                        let p0 = if p < i { p } else { p + 1 };
                        assert(s1[p] == s0[p0]);
                    }
                    assert forall|p: int, q: int|
                        0 <= p < q < self.senders@.len() implies self.senders@[p].0
                        != self.senders@[q].0 by {
                        if q < s1.len() {
                            assert(self.senders@[p] == s1[p] && self.senders@[q] == s1[q]);
                        } else {
                            assert(self.senders@[q].0 == installation_id);
                            assert(self.senders@[p] == s1[p]);
                        }
                    }
                    assert(unique_keys(self.senders@));
                    lemma_map_of_push(s1, installation_id, sender);
                    assert(map_of(self.senders@) =~= map_of(s0).insert(installation_id, sender));
                }
            },
            None => {
                self.senders.push((installation_id, sender));
                proof {
                    lemma_map_of_push(s0, installation_id, sender);
                    assert forall|p: int, q: int|
                        0 <= p < q < self.senders@.len() implies self.senders@[p].0
                        != self.senders@[q].0 by {
                        if q < s0.len() {
                            assert(s0[p].0 != s0[q].0);
                        } else {
                            assert(self.senders@[q].0 == installation_id);
                            assert(s0[p].0 != installation_id);
                        }
                    }
                    assert(unique_keys(self.senders@));
                }
            },
        }
        proof {
            assert forall|id: InstallationId| #[trigger]
                self.account_of().contains_key(id) implies self.channels().contains_key(id) by {
                assert(old(self).account_of().contains_key(id));
                assert(old(self).channels().contains_key(id));
                assert(self.channels() == old(self).channels().insert(installation_id, sender));
            }
            assert(self.account_of() == old(self).account_of());
            assert(self.links() == old(self).links());
            assert forall|id: InstallationId, a: AccountId| #[trigger]
                self.account_of().contains_pair(id, a) implies self.links().contains_key(a)
                && self.links()[a].contains(id) by {
                assert(old(self).account_of().contains_pair(id, a));
            }
            assert forall|id: InstallationId, a: AccountId|
                self.links().contains_key(a) && #[trigger] self.links()[a].contains(
                id,
            ) implies self.account_of().contains_pair(id, a) by {
                assert(old(self).links().contains_key(a) && old(self).links()[a].contains(id));
            }
            assert(forall|a: AccountId| #[trigger]
                self.links().contains_key(a) ==> self.links()[a] != Set::<
                    InstallationId,
                >::empty());
        }
    }

    /// What the account index looks like after an installation leaves: it
    /// disappears from its account's set, and an account left with no
    /// installations disappears entirely.
    pub open spec fn links_after_disconnect(self, id: InstallationId) -> Map<
        AccountId,
        Set<InstallationId>,
    > {
        match self.linked_account(id) {
            None => self.links(),
            Some(a) => {
                if self.links()[a] == Set::<InstallationId>::empty().insert(id) {
                    self.links().remove(a)
                } else {
                    self.links().insert(a, self.links()[a].remove(id))
                }
            },
        }
    }

    /// What the account index looks like after an installation is linked
    /// to an account: nothing for an unconnected installation; nothing
    /// when the link already exists; otherwise the installation leaves
    /// the set of any account it was linked to before and enters the new
    /// account's set.
    pub open spec fn links_after_associate(self, id: InstallationId, a: AccountId) -> Map<
        AccountId,
        Set<InstallationId>,
    > {
        if !self.channels().contains_key(id) {
            self.links()
        } else if self.linked_account(id) == Some(a) {
            self.links()
        } else {
            let pruned = self.links_after_disconnect(id);
            let members = if pruned.contains_key(a) {
                pruned[a]
            } else {
                Set::<InstallationId>::empty()
            };
            pruned.insert(a, members.insert(id))
        }
    }

    /// Links an installation to an account, in both directions. Linking
    /// an unconnected installation is a no-op; repeating an existing link
    /// changes nothing; linking to a different account moves the
    /// installation. Returns whether the link is in place.
    pub fn associate_account(&mut self, installation_id: InstallationId, account_id: AccountId) -> (linked:
        bool)
        requires
            old(self).wf(),
        ensures
            final(self).wf(),
            final(self).channels() == old(self).channels(),
            linked == old(self).channels().contains_key(installation_id),
            linked ==> final(self).account_of() == old(self).account_of().insert(
                installation_id,
                account_id,
            ),
            !linked ==> final(self).account_of() == old(self).account_of(),
            final(self).links() == old(self).links_after_associate(installation_id, account_id),
    {
        proof {
            lemma_map_of_contains(self.senders@, installation_id);
        }
        if self.find_sender_index(installation_id).is_none() {
            return false;
        }
        let ghost a0 = self.account_by_installation@;
        match self.find_account_index(installation_id) {
            Some(j) => {
                let prev = self.account_by_installation[j].1;
                proof {
                    lemma_map_of_index(a0, j as int);
                    assert(old(self).linked_account(installation_id) == Some(prev));
                }
                if prev == account_id {
                    proof {
                        assert(old(self).account_of().insert(installation_id, account_id)
                            =~= old(self).account_of());
                    }
                    return true;
                }
                let _row_gone = self.account_by_installation.remove(j);
                let ghost a1 = self.account_by_installation@;
                self.account_by_installation.push((installation_id, account_id));
                proof {
                    lemma_map_of_remove(a0, j as int);
                    assert forall|p: int| 0 <= p < a1.len() implies a1[p].0 != installation_id by {
                        let p0 = if p < j { p } else { p + 1 };
                        assert(a1[p] == a0[p0]);
                    }
                    assert forall|p: int, q: int|
                        0 <= p < q < self.account_by_installation@.len() implies self.account_by_installation@[p].0
                        != self.account_by_installation@[q].0 by {
                        if q < a1.len() {
                            assert(self.account_by_installation@[p] == a1[p]
                                && self.account_by_installation@[q] == a1[q]);
                        } else {
                            assert(self.account_by_installation@[p] == a1[p]);
                        }
                    }
                    assert(unique_keys(self.account_by_installation@));
                    lemma_map_of_push(a1, installation_id, account_id);
                    assert(self.account_of() =~= old(self).account_of().insert(
                        installation_id,
                        account_id,
                    ));
                    assert(old(self).account_of().contains_pair(installation_id, prev));
                    assert(old(self).links().contains_key(prev) && old(
                        self,
                    ).links()[prev].contains(installation_id));
                }
                self.remove_member(prev, installation_id);
                proof {
                    let pruned = old(self).links_after_disconnect(installation_id);
                    assert(raw_links(self.installations_by_account@) == pruned);
                    assert(raw_links(self.installations_by_account@).contains_key(account_id)
                        ==> !raw_links(self.installations_by_account@)[account_id].contains(
                        installation_id,
                    )) by {
                        if pruned.contains_key(account_id) && pruned[account_id].contains(
                            installation_id,
                        ) {
                            assert(old(self).links().contains_key(account_id) && old(
                                self,
                            ).links()[account_id].contains(installation_id));
                            assert(old(self).account_of().contains_pair(
                                installation_id,
                                account_id,
                            ));
                        }
                    }
                }
                self.add_member(account_id, installation_id);
                proof {
                    assert(self.links() == old(self).links_after_associate(
                        installation_id,
                        account_id,
                    ));
                }
            },
            None => {
                proof {
                    lemma_map_of_contains(a0, installation_id);
                    assert(old(self).linked_account(installation_id) is None);
                }
                self.account_by_installation.push((installation_id, account_id));
                proof {
                    assert forall|p: int, q: int|
                        0 <= p < q < self.account_by_installation@.len() implies self.account_by_installation@[p].0
                        != self.account_by_installation@[q].0 by {
                        if q < a0.len() {
                            assert(self.account_by_installation@[p] == a0[p]
                                && self.account_by_installation@[q] == a0[q]);
                        } else {
                            assert(self.account_by_installation@[p] == a0[p]);
                        }
                    }
                    assert(unique_keys(self.account_by_installation@));
                    lemma_map_of_push(a0, installation_id, account_id);
                    assert(raw_links(self.installations_by_account@).contains_key(account_id)
                        ==> !raw_links(self.installations_by_account@)[account_id].contains(
                        installation_id,
                    )) by {
                        if old(self).links().contains_key(account_id) && old(
                            self,
                        ).links()[account_id].contains(installation_id) {
                            assert(old(self).account_of().contains_pair(
                                installation_id,
                                account_id,
                            ));
                        }
                    }
                }
                self.add_member(account_id, installation_id);
                proof {
                    assert(self.links() == old(self).links_after_associate(
                        installation_id,
                        account_id,
                    ));
                }
            },
        }
        proof {
            lemma_wf_after_associate(*old(self), *self, installation_id, account_id);
        }
        true
    }

    /// Index of an installation inside one account row.
    fn find_member_index(row: &Vec<InstallationId>, id: InstallationId) -> (r: Option<usize>)
        ensures
            match r {
                Some(i) => i < row@.len() && row@[i as int] == id,
                None => forall|j: int| 0 <= j < row@.len() ==> row@[j] != id,
            },
    {
        let mut j: usize = 0;
        while j < row.len()
            invariant
                j <= row@.len(),
                forall|p: int| 0 <= p < j ==> row@[p] != id,
            decreases row@.len() - j,
        {
            if row[j] == id {
                return Some(j);
            }
            j = j + 1;
        }
        None
    }

    /// Takes an installation out of its account's member row, dropping
    /// the row entirely when it was the last member.
    fn remove_member(&mut self, account: AccountId, id: InstallationId)
        requires
            unique_keys(old(self).installations_by_account@),
            rows_ok(old(self).installations_by_account@),
            raw_links(old(self).installations_by_account@).contains_key(account),
            raw_links(old(self).installations_by_account@)[account].contains(id),
        ensures
            final(self).senders == old(self).senders,
            final(self).account_by_installation == old(self).account_by_installation,
            unique_keys(final(self).installations_by_account@),
            rows_ok(final(self).installations_by_account@),
            raw_links(final(self).installations_by_account@) == ({
                let links0 = raw_links(old(self).installations_by_account@);
                if links0[account] == Set::<InstallationId>::empty().insert(id) {
                    links0.remove(account)
                } else {
                    links0.insert(account, links0[account].remove(id))
                }
            }),
    {
        let ghost l0 = self.installations_by_account@;
        let ghost links0 = raw_links(l0);
        match self.find_links_index(account) {
            None => {
                proof {
                    lemma_map_of_contains(l0, account);
                    assert(false);
                }
            },
            Some(k) => {
                proof {
                    lemma_map_of_index(l0, k as int);
                    lemma_map_of_remove(l0, k as int);
                }
                let mut row = self.installations_by_account.remove(k);
                let ghost v0 = row.1@;
                proof {
                    assert(links0[account] == v0.to_set());
                    assert((l0[k as int]).1@.no_duplicates() && (l0[k as int]).1@.len() > 0);
                }
                match Self::find_member_index(&row.1, id) {
                    None => {
                        proof {
                            assert(v0.to_set().contains(id));
                            assert(v0.contains(id));
                            let w = choose|w: int| 0 <= w < v0.len() && v0[w] == id;
                            assert(row.1@[w] == id);
                            assert(false);
                        }
                    },
                    Some(m) => {
                        row.1.remove(m);
                        proof {
                            lemma_remove_from_unique_seq(v0, m as int);
                        }
                        if row.1.len() > 0 {
                            let ghost l1 = self.installations_by_account@;
                            self.installations_by_account.push(row);
                            proof {
                                let lnew = self.installations_by_account@;
                                assert(lnew.last().0 == account);
                                assert(lnew.last().1@ == v0.remove(m as int));
                                assert forall|p: int| 0 <= p < l1.len() implies l1[p].0
                                    != account by {
                                    let p0 = if p < k { p } else { p + 1 };
                                    assert(l1[p] == l0[p0]);
                                }
                                assert forall|p: int, q: int|
                                    0 <= p < q < lnew.len() implies lnew[p].0 != lnew[q].0 by {
                                    if q < l1.len() {
                                        assert(lnew[p] == l1[p] && lnew[q] == l1[q]);
                                    } else {
                                        assert(lnew[p] == l1[p]);
                                    }
                                }
                                assert(unique_keys(lnew));
                                assert(lnew == l1.push(lnew.last()));
                                lemma_map_of_push(l1, lnew.last().0, lnew.last().1);
                                assert forall|p: int|
                                    0 <= p < lnew.len() implies (
                                #[trigger] lnew[p]).1@.no_duplicates() && lnew[p].1@.len() > 0 by {
                                    if p < l1.len() {
                                        let p0 = if p < k { p } else { p + 1 };
                                        assert(lnew[p] == l0[p0]);
                                    } else {
                                        assert(lnew[p] == lnew.last());
                                    }
                                }
                                assert(v0.to_set() != Set::<InstallationId>::empty().insert(id))
                                    by {
                                    let m2: int = if m == 0 {
                                        1
                                    } else {
                                        0
                                    };
                                    assert(v0[m2] != v0[m as int]);
                                    assert(v0.to_set().contains(v0[m2]));
                                }
                                assert(raw_links(self.installations_by_account@) =~= links0.insert(
                                    account,
                                    links0[account].remove(id),
                                ));
                            }
                        } else {
                            proof {
                                let lnew = self.installations_by_account@;
                                assert forall|p: int|
                                    0 <= p < lnew.len() implies (
                                #[trigger] lnew[p]).1@.no_duplicates() && lnew[p].1@.len() > 0 by {
                                    let p0 = if p < k { p } else { p + 1 };
                                    assert(lnew[p] == l0[p0]);
                                }
                                assert(v0.to_set() =~= Set::<InstallationId>::empty().insert(id))
                                    by {
                                    assert(v0.len() == 1);
                                    assert(v0[0] == id);
                                    assert forall|x: InstallationId|
                                        v0.to_set().contains(x) implies x == id by {
                                        let w = choose|w: int| 0 <= w < v0.len() && v0[w] == x;
                                        assert(v0[0] == x);
                                    }
                                    assert(v0.contains(v0[0]));
                                }
                                assert(raw_links(self.installations_by_account@) =~= links0.remove(
                                    account,
                                ));
                            }
                        }
                    },
                }
            },
        }
    }

    /// Puts an installation into an account's member row, creating the
    /// row if the account had none.
    fn add_member(&mut self, account: AccountId, id: InstallationId)
        requires
            unique_keys(old(self).installations_by_account@),
            rows_ok(old(self).installations_by_account@),
            raw_links(old(self).installations_by_account@).contains_key(account) ==> !raw_links(
                old(self).installations_by_account@,
            )[account].contains(id),
        ensures
            final(self).senders == old(self).senders,
            final(self).account_by_installation == old(self).account_by_installation,
            unique_keys(final(self).installations_by_account@),
            rows_ok(final(self).installations_by_account@),
            raw_links(final(self).installations_by_account@) == ({
                let links0 = raw_links(old(self).installations_by_account@);
                let members = if links0.contains_key(account) {
                    links0[account]
                } else {
                    Set::<InstallationId>::empty()
                };
                links0.insert(account, members.insert(id))
            }),
    {
        let ghost l0 = self.installations_by_account@;
        let ghost links0 = raw_links(l0);
        match self.find_links_index(account) {
            Some(k) => {
                proof {
                    lemma_map_of_index(l0, k as int);
                    lemma_map_of_remove(l0, k as int);
                    assert(links0.contains_key(account) && links0[account] == (
                    l0[k as int]).1@.to_set());
                    assert((l0[k as int]).1@.no_duplicates() && (l0[k as int]).1@.len() > 0);
                }
                let mut row = self.installations_by_account.remove(k);
                let ghost v0 = row.1@;
                row.1.push(id);
                let ghost l1 = self.installations_by_account@;
                self.installations_by_account.push(row);
                proof {
                    let lnew = self.installations_by_account@;
                    assert(lnew.last().0 == account);
                    assert(lnew.last().1@ == v0.push(id));
                    assert forall|p: int| 0 <= p < l1.len() implies l1[p].0 != account by {
                        let p0 = if p < k { p } else { p + 1 };
                        assert(l1[p] == l0[p0]);
                    }
                    assert forall|p: int, q: int|
                        0 <= p < q < lnew.len() implies lnew[p].0 != lnew[q].0 by {
                        if q < l1.len() {
                            assert(lnew[p] == l1[p] && lnew[q] == l1[q]);
                        } else {
                            assert(lnew[p] == l1[p]);
                        }
                    }
                    assert(unique_keys(lnew));
                    assert(lnew == l1.push(lnew.last()));
                    lemma_map_of_push(l1, lnew.last().0, lnew.last().1);
                    assert(!v0.contains(id)) by {
                        if v0.contains(id) {
                            assert(v0.to_set().contains(id));
                        }
                    }
                    assert(v0.push(id).no_duplicates()) by {
                        assert forall|p: int, q: int|
                            0 <= p < v0.push(id).len() && 0 <= q < v0.push(id).len() && p
                                != q implies v0.push(id)[p] != v0.push(id)[q] by {
                            if p < v0.len() && q < v0.len() {
                                assert(v0[p] == v0.push(id)[p] && v0[q] == v0.push(id)[q]);
                            } else if q == v0.len() {
                                assert(v0.push(id)[p] == v0[p]);
                                assert(v0.contains(v0[p]));
                            } else {
                                assert(v0.push(id)[q] == v0[q]);
                                assert(v0.contains(v0[q]));
                            }
                        }
                    }
                    assert forall|p: int|
                        0 <= p < lnew.len() implies (#[trigger] lnew[p]).1@.no_duplicates()
                        && lnew[p].1@.len() > 0 by {
                        if p < l1.len() {
                            let p0 = if p < k { p } else { p + 1 };
                            assert(lnew[p] == l0[p0]);
                        } else {
                            assert(lnew[p] == lnew.last());
                        }
                    }
                    assert(v0.push(id).to_set() =~= v0.to_set().insert(id)) by {
                        assert forall|x: InstallationId|
                            v0.push(id).to_set().contains(x) implies v0.to_set().insert(
                            id,
                        ).contains(x) by {
                            let w = choose|w: int| 0 <= w < v0.push(id).len() && v0.push(id)[w]
                                == x;
                            if w < v0.len() {
                                assert(v0[w] == x);
                            }
                        }
                        assert forall|x: InstallationId|
                            v0.to_set().insert(id).contains(x) implies v0.push(id).to_set().contains(
                            x,
                        ) by {
                            if x == id {
                                assert(v0.push(id)[v0.len() as int] == id);
                                assert(v0.push(id).contains(x));
                            } else {
                                let w = choose|w: int| 0 <= w < v0.len() && v0[w] == x;
                                assert(v0.push(id)[w] == x);
                                assert(v0.push(id).contains(x));
                            }
                        }
                    }
                    assert(raw_links(self.installations_by_account@) =~= links0.insert(
                        account,
                        links0[account].insert(id),
                    ));
                }
            },
            None => {
                proof {
                    lemma_map_of_contains(l0, account);
                }
                let mut members: Vec<InstallationId> = Vec::new();
                members.push(id);
                self.installations_by_account.push((account, members));
                proof {
                    let lnew = self.installations_by_account@;
                    assert(lnew.last().0 == account);
                    assert(lnew.last().1@ == Seq::<InstallationId>::empty().push(id));
                    assert forall|p: int, q: int|
                        0 <= p < q < lnew.len() implies lnew[p].0 != lnew[q].0 by {
                        if q < l0.len() {
                            assert(lnew[p] == l0[p] && lnew[q] == l0[q]);
                        } else {
                            assert(lnew[p] == l0[p]);
                        }
                    }
                    assert(unique_keys(lnew));
                    assert(lnew == l0.push(lnew.last()));
                    lemma_map_of_push(l0, lnew.last().0, lnew.last().1);
                    assert forall|p: int|
                        0 <= p < lnew.len() implies (#[trigger] lnew[p]).1@.no_duplicates()
                        && lnew[p].1@.len() > 0 by {
                        if p < l0.len() {
                            assert(lnew[p] == l0[p]);
                        } else {
                            assert(lnew[p] == lnew.last());
                        }
                    }
                    assert(lnew.last().1@.to_set() =~= Set::<InstallationId>::empty().insert(id))
                        by {
                        let v = lnew.last().1@;
                        assert forall|x: InstallationId| v.to_set().contains(x) implies x == id by {
                            let w = choose|w: int| 0 <= w < v.len() && v[w] == x;
                            assert(v[0] == x);
                        }
                        assert(v[0] == id);
                        assert(v.contains(id));
                    }
                    assert(raw_links(self.installations_by_account@) =~= links0.insert(
                        account,
                        Set::<InstallationId>::empty().insert(id),
                    ));
                }
            },
        }
    }

    /// Removes the channel of an installation, takes it out of its
    /// account's set, and drops the account entirely when that set would
    /// be left empty. Disconnecting something that was never connected
    /// changes nothing.
    pub fn disconnect(&mut self, installation_id: InstallationId)
        requires
            old(self).wf(),
        ensures
            final(self).wf(),
            final(self).channels() == old(self).channels().remove(installation_id),
            final(self).account_of() == old(self).account_of().remove(installation_id),
            final(self).links() == old(self).links_after_disconnect(installation_id),
    {
        let ghost s0 = self.senders@;
        match self.find_sender_index(installation_id) {
            Some(i) => {
                let _gone = self.senders.remove(i);
                proof {
                    lemma_map_of_remove(s0, i as int);
                    assert(map_of(self.senders@) == map_of(s0).remove(installation_id));
                }
            },
            None => {
                proof {
                    lemma_map_of_contains(s0, installation_id);
                    assert(map_of(s0) =~= map_of(s0).remove(installation_id));
                }
            },
        }
        let ghost a0 = self.account_by_installation@;
        match self.find_account_index(installation_id) {
            None => {
                proof {
                    lemma_map_of_contains(a0, installation_id);
                    assert(map_of(a0) =~= map_of(a0).remove(installation_id));
                    assert(self.links() == old(self).links_after_disconnect(installation_id));
                    assert forall|p: int|
                        0 <= p < self.installations_by_account@.len() implies (
                    #[trigger] self.installations_by_account@[p]).1@.no_duplicates()
                        && self.installations_by_account@[p].1@.len() > 0 by {
                        assert(old(self).installations_by_account@[p]
                            == self.installations_by_account@[p]);
                    }
                }
            },
            Some(j) => {
                let account = self.account_by_installation[j].1;
                proof {
                    lemma_map_of_index(a0, j as int);
                    lemma_map_of_remove(a0, j as int);
                    assert(old(self).linked_account(installation_id) == Some(account));
                }
                let _row_gone = self.account_by_installation.remove(j);
                proof {
                    assert(old(self).account_of().contains_pair(installation_id, account));
                    assert(old(self).links().contains_key(account) && old(
                        self,
                    ).links()[account].contains(installation_id));
                }
                self.remove_member(account, installation_id);
                proof {
                    assert(self.account_of() == old(self).account_of().remove(installation_id));
                    assert(self.links() == old(self).links_after_disconnect(installation_id));
                }
            },
        }
        proof {
            lemma_wf_after_disconnect(*old(self), *self, installation_id);
        }
    }

    /// Best-effort delivery to one installation: hands the message to its
    /// channel if it is connected, and does nothing otherwise.
    pub fn send_to_installation_id(&self, installation_id: InstallationId, message: ServerResponse) -> (attempted:
        bool)
        ensures
            attempted == self.channels().contains_key(installation_id),
    {
        proof {
            lemma_map_of_contains(self.senders@, installation_id);
        }
        match self.find_sender_index(installation_id) {
            Some(i) => {
                let pair = &self.senders[i];
                let _delivered = channel_send(&pair.1, message);
                true
            },
            None => false,
        }
    }
}

/// Removing one index from a duplicate-free sequence removes exactly that
/// element from its set of members.
proof fn lemma_remove_from_unique_seq<A>(s: Seq<A>, m: int)
    requires
        s.no_duplicates(),
        0 <= m < s.len(),
    ensures
        s.remove(m).no_duplicates(),
        s.remove(m).to_set() == s.to_set().remove(s[m]),
{
    let r = s.remove(m);
    assert forall|p: int, q: int| 0 <= p < q < r.len() implies r[p] != r[q] by {
        let p0 = if p < m {
            p
        } else {
            p + 1
        };
        let q0 = if q < m {
            q
        } else {
            q + 1
        };
        assert(r[p] == s[p0] && r[q] == s[q0]);
    }
    assert forall|x: A| r.to_set().contains(x) implies s.to_set().contains(x) && x != s[m] by {
        let w = choose|w: int| 0 <= w < r.len() && r[w] == x;
        let w0 = if w < m {
            w
        } else {
            w + 1
        };
        assert(s[w0] == x);
        assert(s.contains(x));
        assert(s[w0] != s[m]);
    }
    assert forall|x: A| s.to_set().contains(x) && x != s[m] implies r.to_set().contains(x) by {
        let w = choose|w: int| 0 <= w < s.len() && s[w] == x;
        let w1 = if w < m {
            w
        } else {
            w - 1
        };
        assert(r[w1] == s[w]);
        assert(r.contains(x));
    }
    assert(r.to_set() =~= s.to_set().remove(s[m]));
}

/// Index consistency survives a disconnect, given the exact map changes
/// the operation makes.
proof fn lemma_wf_after_disconnect(pre: ConnectedClients, post: ConnectedClients, id: InstallationId)
    requires
        pre.wf(),
        unique_keys(post.senders@),
        unique_keys(post.account_by_installation@),
        unique_keys(post.installations_by_account@),
        rows_ok(post.installations_by_account@),
        post.channels() == pre.channels().remove(id),
        post.account_of() == pre.account_of().remove(id),
        post.links() == pre.links_after_disconnect(id),
    ensures
        post.wf(),
{
    assert forall|x: InstallationId| #[trigger]
        post.account_of().contains_key(x) implies post.channels().contains_key(x) by {
        assert(pre.account_of().contains_key(x));
        assert(x != id);
    }
    assert forall|x: InstallationId, a: AccountId| #[trigger]
        post.account_of().contains_pair(x, a) implies post.links().contains_key(a)
        && post.links()[a].contains(x) by {
        assert(pre.account_of().contains_pair(x, a));
        assert(x != id);
        match pre.linked_account(id) {
            None => {},
            Some(b) => {
                assert(pre.account_of().contains_pair(id, b));
                assert(pre.links().contains_key(b) && pre.links()[b].contains(id));
                if pre.links()[b] == Set::<InstallationId>::empty().insert(id) {
                    if a == b {
                        assert(pre.links()[b].contains(x));
                        assert(false);
                    }
                }
            },
        }
    }
    assert forall|x: InstallationId, a: AccountId|
        post.links().contains_key(a) && #[trigger] post.links()[a].contains(
        x,
    ) implies post.account_of().contains_pair(x, a) by {
        match pre.linked_account(id) {
            None => {
                assert(pre.links().contains_key(a) && pre.links()[a].contains(x));
                assert(pre.account_of().contains_pair(x, a));
                assert(!pre.account_of().contains_key(id));
                assert(x != id);
            },
            Some(b) => {
                assert(pre.account_of().contains_pair(id, b));
                if pre.links()[b] == Set::<InstallationId>::empty().insert(id) {
                    assert(a != b);
                    assert(pre.links()[a].contains(x));
                    assert(pre.account_of().contains_pair(x, a));
                    assert(x != id);
                } else {
                    if a == b {
                        assert(pre.links()[b].remove(id).contains(x));
                        assert(pre.links()[b].contains(x) && x != id);
                        assert(pre.account_of().contains_pair(x, b));
                    } else {
                        assert(pre.links()[a].contains(x));
                        assert(pre.account_of().contains_pair(x, a));
                        assert(x != id);
                    }
                }
            },
        }
    }
    assert forall|a: AccountId| #[trigger]
        post.links().contains_key(a) implies post.links()[a] != Set::<InstallationId>::empty() by {
        match pre.linked_account(id) {
            None => {
                assert(pre.links().contains_key(a));
            },
            Some(b) => {
                assert(pre.account_of().contains_pair(id, b));
                if pre.links()[b] == Set::<InstallationId>::empty().insert(id) {
                    assert(pre.links().contains_key(a));
                } else {
                    if a == b {
                        if post.links()[b] == Set::<InstallationId>::empty() {
                            assert forall|y: InstallationId|
                                pre.links()[b].contains(y) implies y == id by {
                                if y != id {
                                    assert(pre.links()[b].remove(id).contains(y));
                                    assert(post.links()[b].contains(y));
                                }
                            }
                            assert(pre.links()[b].contains(id));
                            assert(pre.links()[b] =~= Set::<InstallationId>::empty().insert(id));
                            assert(false);
                        }
                    } else {
                        assert(pre.links().contains_key(a));
                    }
                }
            },
        }
    }
}

/// Index consistency survives a re-link, given the exact map changes the
/// operation makes.
proof fn lemma_wf_after_associate(
    pre: ConnectedClients,
    post: ConnectedClients,
    id: InstallationId,
    a: AccountId,
)
    requires
        pre.wf(),
        pre.channels().contains_key(id),
        pre.linked_account(id) != Some(a),
        unique_keys(post.senders@),
        unique_keys(post.account_by_installation@),
        unique_keys(post.installations_by_account@),
        rows_ok(post.installations_by_account@),
        post.channels() == pre.channels(),
        post.account_of() == pre.account_of().insert(id, a),
        post.links() == pre.links_after_associate(id, a),
    ensures
        post.wf(),
{
    let pruned = pre.links_after_disconnect(id);
    assert forall|x: InstallationId| #[trigger]
        post.account_of().contains_key(x) implies post.channels().contains_key(x) by {
        if x != id {
            assert(pre.account_of().contains_key(x));
        }
    }
    assert forall|x: InstallationId, c: AccountId| #[trigger]
        post.account_of().contains_pair(x, c) implies post.links().contains_key(c)
        && post.links()[c].contains(x) by {
        if x == id {
            assert(c == a);
        } else {
            assert(pre.account_of().contains_pair(x, c));
            assert(pre.links().contains_key(c) && pre.links()[c].contains(x));
            match pre.linked_account(id) {
                None => {},
                Some(b) => {
                    assert(pre.account_of().contains_pair(id, b));
                    assert(pre.links().contains_key(b) && pre.links()[b].contains(id));
                    assert(b != a);
                    if pre.links()[b] == Set::<InstallationId>::empty().insert(id) {
                        if c == b {
                            assert(false);
                        }
                    }
                },
            }
        }
    }
    assert forall|x: InstallationId, c: AccountId|
        post.links().contains_key(c) && #[trigger] post.links()[c].contains(
        x,
    ) implies post.account_of().contains_pair(x, c) by {
        if x == id {
            if c != a {
                match pre.linked_account(id) {
                    None => {
                        assert(pre.links()[c].contains(id));
                        assert(pre.account_of().contains_pair(id, c));
                        assert(false);
                    },
                    Some(b) => {
                        assert(pre.account_of().contains_pair(id, b));
                        if pre.links()[b] == Set::<InstallationId>::empty().insert(id) {
                            assert(pre.links()[c].contains(id));
                            assert(pre.account_of().contains_pair(id, c));
                            assert(c == b);
                            assert(false);
                        } else {
                            if c == b {
                                assert(post.links()[c] == pre.links()[b].remove(id));
                                assert(false);
                            } else {
                                assert(pre.links()[c].contains(id));
                                assert(pre.account_of().contains_pair(id, c));
                                assert(false);
                            }
                        }
                    },
                }
            }
        } else {
            let c_pre_holds = pre.links().contains_key(c) && pre.links()[c].contains(x);
            match pre.linked_account(id) {
                None => {
                    if c == a {
                        assert(pruned == pre.links());
                        assert(pre.links()[a].contains(x));
                    }
                    assert(pre.links()[c].contains(x));
                    assert(pre.account_of().contains_pair(x, c));
                },
                Some(b) => {
                    assert(pre.account_of().contains_pair(id, b));
                    if pre.links()[b] == Set::<InstallationId>::empty().insert(id) {
                        if c == a {
                            assert(post.links()[a] == (if pruned.contains_key(a) {
                                pruned[a]
                            } else {
                                Set::<InstallationId>::empty()
                            }).insert(id));
                            assert(c != b);
                            assert(pre.links()[c].contains(x));
                        } else {
                            assert(c != b);
                            assert(pre.links()[c].contains(x));
                        }
                    } else {
                        if c == a {
                            if pruned.contains_key(a) {
                                assert(pruned[a].contains(x));
                                if a == b {
                                    assert(pre.links()[b].contains(x));
                                } else {
                                    assert(pre.links()[a].contains(x));
                                }
                            }
                        } else {
                            if c == b {
                                assert(post.links()[c] == pre.links()[b].remove(id));
                                assert(pre.links()[c].contains(x));
                            } else {
                                assert(pre.links()[c].contains(x));
                            }
                        }
                    }
                    assert(pre.links().contains_key(c) && pre.links()[c].contains(x));
                    assert(pre.account_of().contains_pair(x, c));
                },
            }
        }
    }
    assert forall|c: AccountId| #[trigger]
        post.links().contains_key(c) implies post.links()[c] != Set::<InstallationId>::empty() by {
        if c == a {
            assert(post.links()[a].contains(id));
            assert(!Set::<InstallationId>::empty().contains(id));
        } else {
            match pre.linked_account(id) {
                None => {
                    assert(pre.links().contains_key(c));
                },
                Some(b) => {
                    assert(pre.account_of().contains_pair(id, b));
                    if pre.links()[b] == Set::<InstallationId>::empty().insert(id) {
                        assert(pre.links().contains_key(c));
                    } else {
                        if c == b {
                            if post.links()[b] == Set::<InstallationId>::empty() {
                                assert forall|y: InstallationId|
                                    pre.links()[b].contains(y) implies y == id by {
                                    if y != id {
                                        assert(pre.links()[b].remove(id).contains(y));
                                        assert(post.links()[b].contains(y));
                                    }
                                }
                                assert(pre.links()[b].contains(id));
                                assert(pre.links()[b] =~= Set::<InstallationId>::empty().insert(
                                    id,
                                ));
                                assert(false);
                            }
                        } else {
                            assert(pre.links().contains_key(c));
                        }
                    }
                },
            }
        }
    }
}

/// A consistent registry holds an installation in at most one account's
/// set — the set of exactly the account the inverse index names for it.
pub proof fn lemma_installation_in_one_set(
    registry: ConnectedClients,
    id: InstallationId,
    a: AccountId,
    b: AccountId,
)
    requires
        registry.wf(),
        registry.links().contains_key(a) && registry.links()[a].contains(id),
        registry.links().contains_key(b) && registry.links()[b].contains(id),
    ensures
        a == b,
        registry.account_of().contains_pair(id, a),
{
}

/// With distinct keys, the map meaning has one entry per pair.
proof fn lemma_map_of_dom_len<K, V>(s: Seq<(K, V)>)
    requires
        unique_keys(s),
    ensures
        map_of(s).dom().finite(),
        map_of(s).dom().len() == s.len(),
{
    broadcast use vstd::seq_lib::seq_to_set_is_finite;

    let keys = s.map_values(|p: (K, V)| p.0);
    assert(keys.no_duplicates()) by {
        assert forall|p: int, q: int|
            0 <= p < keys.len() && 0 <= q < keys.len() && p != q implies keys[p] != keys[q] by {
            assert(keys[p] == s[p].0 && keys[q] == s[q].0);
        }
    }
    assert forall|k: K| #[trigger]
        map_of(s).dom().contains(k) implies keys.to_set().contains(k) by {
        lemma_map_of_contains(s, k);
        let i = choose|i: int| 0 <= i < s.len() && s[i].0 == k;
        assert(keys[i] == k);
        assert(keys.contains(k));
    }
    assert forall|k: K| #[trigger] keys.to_set().contains(k) implies map_of(s).dom().contains(
        k,
    ) by {
        let i = choose|i: int| 0 <= i < keys.len() && keys[i] == k;
        assert(s[i].0 == k);
        lemma_map_of_contains(s, k);
    }
    assert(map_of(s).dom() =~= keys.to_set());
    keys.unique_seq_to_set();
}

impl ConnectedClients {
    /// Fans a message out to every installation currently linked to an
    /// account. Returns how many installations were handed the message:
    /// all of them, or zero for an account with no link.
    pub fn send_to_account(&self, account_id: AccountId, message: &ServerResponse) -> (n: usize)
        requires
            self.wf(),
        ensures
            self.links().contains_key(account_id) ==> n == self.links()[account_id].len(),
            !self.links().contains_key(account_id) ==> n == 0,
    {
        proof {
            lemma_map_of_contains(self.installations_by_account@, account_id);
        }
        match self.find_links_index(account_id) {
            None => 0,
            Some(k) => {
                proof {
                    lemma_map_of_index(self.installations_by_account@, k as int);
                    assert((self.installations_by_account@[k as int]).1@.no_duplicates());
                }
                let row = &self.installations_by_account[k];
                let mut i: usize = 0;
                while i < row.1.len()
                    invariant
                        i <= row.1@.len(),
                    decreases row.1@.len() - i,
                {
                    let _attempted = self.send_to_installation_id(row.1[i], message.duplicate());
                    i = i + 1;
                }
                proof {
                    row.1@.unique_seq_to_set();
                }
                row.1.len()
            },
        }
    }

    /// Pushes a message to every connected installation. Returns how many
    /// connections were handed the message.
    pub fn broadcast(&self, message: &ServerResponse) -> (n: usize)
        requires
            self.wf(),
        ensures
            n == self.channels().dom().len(),
    {
        let mut i: usize = 0;
        while i < self.senders.len()
            invariant
                i <= self.senders@.len(),
            decreases self.senders@.len() - i,
        {
            let pair = &self.senders[i];
            let _delivered = channel_send(&pair.1, message.duplicate());
            i = i + 1;
        }
        proof {
            lemma_map_of_dom_len(self.senders@);
        }
        self.senders.len()
    }
}

impl Default for ConnectedClients {
    /// An empty registry: nothing connected, nothing linked.
    fn default() -> (r: Self)
        ensures
            r.wf(),
            r.channels() == Map::<InstallationId, Sender<ServerResponse>>::empty(),
            r.account_of() == Map::<InstallationId, AccountId>::empty(),
            r.links() == Map::<AccountId, Set<InstallationId>>::empty(),
    {
        ConnectedClients {
            senders: Vec::new(),
            account_by_installation: Vec::new(),
            installations_by_account: Vec::new(),
        }
    }
}

} // verus!
