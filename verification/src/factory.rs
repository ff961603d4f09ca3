//! The escrow coordinator: pools waiting players, pairs them two at a
//! time in arrival order, escrows the smaller of the two deposits as
//! the pot, and spawns one match unit per pair. Later callbacks settle
//! the match: the winner is paid from the record kept for the unit, and
//! the record is dropped once the unit is torn down.
//!
//! Every outbound host effect is returned as an [`Action`] for the
//! surrounding wiring to perform; the coordinator itself only decides.

use vstd::prelude::*;
use crate::account::{create_new_account_id, game_account_spec};
use crate::errors::GameError;
use vstd::arithmetic::div_mod::{lemma_div_by_multiple, lemma_div_denominator};

verus! {

/// One whole unit of the ledger's currency, in its smallest
/// denomination.
pub const ONE_NEAR: u128 = 1_000_000_000_000_000_000_000_000;

/// What a spawned unit is funded with to cover its own storage.
pub const MIN_STORAGE_COST: u128 = ONE_NEAR / 10;

/// The smallest deposit that buys a place in the waiting pool.
pub const MIN_PLAYER_COST: u128 = ONE_NEAR / 2;

/// The largest per-player pot whose retained-fee computation stays
/// inside the balance type.
pub const MAX_GAME_DEPOSIT: u128 = u128::MAX / 19;

/// The abstract form of a pool entry.
pub struct PlayerView {
    pub account: Seq<char>,
    pub deposit: u128,
}

/// The abstract form of a match record: a live unit's identity and the
/// pot it plays for.
pub struct InstanceView {
    pub account: Seq<char>,
    pub pot: u128,
}

/// The abstract form of one host effect.
pub enum ActionView {
    Transfer { to: Seq<char>, amount: u128 },
    CreateGame {
        account: Seq<char>,
        funding: u128,
        player1: Seq<char>,
        player2: Seq<char>,
        pot: u128,
    },
    DeleteGame { account: Seq<char> },
}

/// The abstract state of the coordinator.
pub struct FactoryView {
    pub game_instances: Seq<InstanceView>,
    pub waiting_list: Seq<PlayerView>,
    pub next_game_id: u32,
}

/// The match-record table as a mapping from unit identity to pot.
pub open spec fn instances_map_of(s: Seq<InstanceView>) -> Map<Seq<char>, u128>
    decreases s.len(),
{
    if s.len() == 0 {
        Map::empty()
    } else {
        instances_map_of(s.drop_last()).insert(s.last().account, s.last().pot)
    }
}

/// Distinct records hold distinct unit identities.
pub open spec fn unique_accounts(s: Seq<InstanceView>) -> bool {
    forall|a: int, b: int| 0 <= a < b < s.len() ==> s[a].account != s[b].account
}

impl FactoryView {
    /// The record table never holds two records for one unit.
    pub open spec fn wf(self) -> bool {
        unique_accounts(self.game_instances)
    }

    /// The record table, read as a mapping.
    pub open spec fn instances_map(self) -> Map<Seq<char>, u128> {
        instances_map_of(self.game_instances)
    }
}

/// A unit identity is in the table exactly when some record holds it.
pub proof fn lemma_instances_map_contains(s: Seq<InstanceView>, k: Seq<char>)
    ensures
        instances_map_of(s).contains_key(k) <==> exists|i: int|
            0 <= i < s.len() && s[i].account == k,
    decreases s.len(),
{
    if s.len() > 0 {
        lemma_instances_map_contains(s.drop_last(), k);
        if s.last().account == k {
            assert(s[s.len() - 1].account == k);
        } else if instances_map_of(s).contains_key(k) {
            let i = choose|i: int| 0 <= i < s.drop_last().len() && s.drop_last()[i].account == k;
            assert(s[i].account == k);
        } else {
            if exists|i: int| 0 <= i < s.len() && s[i].account == k {
                let i = choose|i: int| 0 <= i < s.len() && s[i].account == k;
                assert(s.drop_last()[i] == s[i]);
            }
        }
    }
}

/// With unique identities, the table maps each record's identity to
/// its pot.
pub proof fn lemma_instances_map_value(s: Seq<InstanceView>, i: int)
    requires
        0 <= i < s.len(),
        unique_accounts(s),
    ensures
        instances_map_of(s).contains_key(s[i].account),
        instances_map_of(s)[s[i].account] == s[i].pot,
    decreases s.len(),
{
    if i == s.len() - 1 {
    } else {
        assert(unique_accounts(s.drop_last()));
        lemma_instances_map_value(s.drop_last(), i);
        assert(s.drop_last()[i] == s[i]);
        assert(s[i].account != s[s.len() - 1].account);
    }
}

/// Appending a record for a fresh identity inserts exactly its key.
pub proof fn lemma_instances_map_push(s: Seq<InstanceView>, v: InstanceView)
    ensures
        instances_map_of(s.push(v)) == instances_map_of(s).insert(v.account, v.pot),
{
    assert(s.push(v).drop_last() =~= s);
    assert(s.push(v).last() == v);
}

/// Overwriting the record at `i` in place re-points exactly its key.
pub proof fn lemma_instances_map_update(s: Seq<InstanceView>, i: int, v: InstanceView)
    requires
        0 <= i < s.len(),
        v.account == s[i].account,
        unique_accounts(s),
    ensures
        instances_map_of(s.update(i, v)) == instances_map_of(s).insert(v.account, v.pot),
    decreases s.len(),
{
    if i == s.len() - 1 {
        assert(s.update(i, v).drop_last() =~= s.drop_last());
        assert(s.update(i, v).last() == v);
        assert(instances_map_of(s.drop_last()).insert(s.last().account, s.last().pot).insert(
            v.account,
            v.pot,
        ) =~= instances_map_of(s.drop_last()).insert(v.account, v.pot));
    } else {
        assert(s.update(i, v).drop_last() =~= s.drop_last().update(i, v));
        assert(s.update(i, v).last() == s.last());
        assert(unique_accounts(s.drop_last()));
        assert(s.drop_last()[i] == s[i]);
        lemma_instances_map_update(s.drop_last(), i, v);
        assert(s[i].account != s[s.len() - 1].account);
        assert(instances_map_of(s.drop_last()).insert(v.account, v.pot).insert(
            s.last().account,
            s.last().pot,
        ) =~= instances_map_of(s.drop_last()).insert(s.last().account, s.last().pot).insert(
            v.account,
            v.pot,
        ));
    }
}

/// Removing the record at `i` removes exactly its key.
pub proof fn lemma_instances_map_remove(s: Seq<InstanceView>, i: int)
    requires
        0 <= i < s.len(),
        unique_accounts(s),
    ensures
        instances_map_of(s.remove(i)) == instances_map_of(s).remove(s[i].account),
        unique_accounts(s.remove(i)),
    decreases s.len(),
{
    assert forall|a: int, b: int| 0 <= a < b < s.remove(i).len() implies s.remove(i)[a].account
        != s.remove(i)[b].account by {
        assert(s.remove(i)[a] == if a < i {
            s[a]
        } else {
            s[a + 1]
        });
        assert(s.remove(i)[b] == if b < i {
            s[b]
        } else {
            s[b + 1]
        });
    }
    if i == s.len() - 1 {
        assert(s.remove(i) =~= s.drop_last());
        lemma_instances_map_contains(s.drop_last(), s[i].account);
        assert(forall|j: int|
            0 <= j < s.drop_last().len() ==> s.drop_last()[j] == s[j] && s[j].account
                != s[i].account);
        assert(instances_map_of(s.drop_last()).insert(s.last().account, s.last().pot).remove(
            s[i].account,
        ) =~= instances_map_of(s.drop_last()));
    } else {
        assert(s.remove(i).drop_last() =~= s.drop_last().remove(i));
        assert(s.remove(i).last() == s.last());
        assert(unique_accounts(s.drop_last()));
        assert(s.drop_last()[i] == s[i]);
        lemma_instances_map_remove(s.drop_last(), i);
        assert(s[i].account != s[s.len() - 1].account);
        assert(instances_map_of(s.drop_last()).remove(s[i].account).insert(
            s.last().account,
            s.last().pot,
        ) =~= instances_map_of(s.drop_last()).insert(s.last().account, s.last().pot).remove(
            s[i].account,
        ));
    }
}

/// A pool entry: who waits, and what they deposited.
pub struct WaitingPlayer {
    pub account: String,
    pub deposit: u128,
}

impl View for WaitingPlayer {
    type V = PlayerView;

    open spec fn view(&self) -> PlayerView {
        PlayerView { account: self.account@, deposit: self.deposit }
    }
}

impl Clone for WaitingPlayer {
    fn clone(&self) -> (r: Self)
        ensures
            r@ == self@,
    {
        WaitingPlayer { account: self.account.clone(), deposit: self.deposit }
    }
}

/// A match record: a live unit's identity and the pot it plays for.
pub struct GameInstance {
    pub account: String,
    pub pot: u128,
}

impl View for GameInstance {
    type V = InstanceView;

    open spec fn view(&self) -> InstanceView {
        InstanceView { account: self.account@, pot: self.pot }
    }
}

/// One host effect the coordinator asks its wiring to perform.
#[derive(Debug, PartialEq)]
pub enum Action {
    /// Pay `amount` to `to`.
    Transfer { to: String, amount: u128 },
    /// Create an isolated unit at `account`, fund it with `funding`,
    /// deploy the match logic into it, initialise it with the two
    /// participants, and call back with the deploy outcome carrying
    /// (account, pot, player1, player2).
    CreateGame { account: String, funding: u128, player1: String, player2: String, pot: u128 },
    /// Destroy the unit at `account` and call back with the teardown
    /// outcome carrying the account.
    DeleteGame { account: String },
}

impl View for Action {
    type V = ActionView;

    open spec fn view(&self) -> ActionView {
        match self {
            Action::Transfer { to, amount } => ActionView::Transfer { to: to@, amount: *amount },
            Action::CreateGame { account, funding, player1, player2, pot } => (
            ActionView::CreateGame {
                account: account@,
                funding: *funding,
                player1: player1@,
                player2: player2@,
                pot: *pot,
            }),
            Action::DeleteGame { account } => ActionView::DeleteGame { account: account@ },
        }
    }
}

/// The views of a batch of host effects, in order.
pub open spec fn actions_view(s: Seq<Action>) -> Seq<ActionView> {
    s.map_values(|a: Action| a@)
}

/// Tags naming the two persistent collections a ledger deployment of
/// the coordinator keeps, one storage prefix each.
pub enum StorageKeys {
    GameInstanceKey,
    WaitingListKey,
}

/// Accepts a pool entry's attached deposit only when it reaches the
/// minimum wager.
pub fn assert_deposit(attached_deposit: u128) -> (r: Result<(), GameError>)
    ensures
        r is Ok <==> attached_deposit >= MIN_PLAYER_COST,
        r is Err ==> r == Err::<(), GameError>(GameError::InsufficientDeposit),
{
    if attached_deposit >= MIN_PLAYER_COST {
        Ok(())
    } else {
        Err(GameError::InsufficientDeposit)
    }
}

/// The pot recorded for a successfully deployed match: the two matched
/// per-player deposits together, minus the 5% protocol fee retained by
/// construction, floor(2 · deposit · 0.95).
pub open spec fn pot_fee(deposit: u128) -> u128 {
    ((19 * deposit) / 10) as u128
}

/// The retained-fee formula written as stated: the recorded pot for a
/// per-player share `v` is floor(2 · v · 95 / 100) of the combined pot.
pub proof fn lemma_fee_retention(v: u128)
    requires
        v <= MAX_GAME_DEPOSIT,
    ensures
        pot_fee(v) == (2 * v * 95) / 100,
{
    let t: int = 19 * v;
    assert(19 * v <= 19 * (u128::MAX / 19));
    assert((19 * v) / 10 <= 19 * v);
    assert(2 * v * 95 == t * 10);
    lemma_div_denominator(t * 10, 10, 10);
    lemma_div_by_multiple(t, 10);
    assert((t * 10) / 100 == t / 10);
    assert(0 <= t / 10 <= t);
}

/// The escrowed pot for a pair: the smaller of the two deposits.
pub open spec fn pot_of(a: PlayerView, b: PlayerView) -> u128 {
    if a.deposit <= b.deposit {
        a.deposit
    } else {
        b.deposit
    }
}

/// The effects of pairing `a` (older) with `b`: a refund of the
/// over-deposited difference, if there is one, then the spawn of a new
/// unit playing for the smaller deposit.
pub open spec fn pair_actions(a: PlayerView, b: PlayerView, game_id: int, base: Seq<char>) -> Seq<
    ActionView,
> {
    let create = ActionView::CreateGame {
        account: game_account_spec(game_id, base),
        funding: MIN_STORAGE_COST,
        player1: a.account,
        player2: b.account,
        pot: pot_of(a, b),
    };
    if a.deposit > b.deposit {
        seq![
            ActionView::Transfer { to: a.account, amount: (a.deposit - b.deposit) as u128 },
            create,
        ]
    } else if b.deposit > a.deposit {
        seq![
            ActionView::Transfer { to: b.account, amount: (b.deposit - a.deposit) as u128 },
            create,
        ]
    } else {
        seq![create]
    }
}

/// The effects of pairing a pool front to back: every complete pair in
/// arrival order, spawned units numbered from `game_id` on; an odd
/// entry at the end stays queued and causes no effect.
pub open spec fn pairing_actions(w: Seq<PlayerView>, game_id: int, base: Seq<char>) -> Seq<
    ActionView,
>
    decreases w.len(),
{
    if w.len() < 2 {
        Seq::empty()
    } else {
        pair_actions(w[0], w[1], game_id, base) + pairing_actions(w.skip(2), game_id + 1, base)
    }
}

/// The escrow coordinator's whole state: the waiting pool in arrival
/// order, the match-record table, and the sequence counter that
/// derives each spawned unit's identity.
pub struct Contract {
    pub game_instances: Vec<GameInstance>,
    pub waiting_list: Vec<WaitingPlayer>,
    pub next_game_id: u32,
}

impl View for Contract {
    type V = FactoryView;

    open spec fn view(&self) -> FactoryView {
        FactoryView {
            game_instances: self.game_instances@.map_values(|g: GameInstance| g@),
            waiting_list: self.waiting_list@.map_values(|p: WaitingPlayer| p@),
            next_game_id: self.next_game_id,
        }
    }
}

impl Contract {
    /// A fresh coordinator: empty pool, empty record table, sequence
    /// counter at zero.
    pub fn new() -> (r: Contract)
        ensures
            r@ == (FactoryView {
                game_instances: Seq::empty(),
                waiting_list: Seq::empty(),
                next_game_id: 0,
            }),
            r@.wf(),
    {
        let r = Contract { game_instances: Vec::new(), waiting_list: Vec::new(), next_game_id: 0 };
        proof {
            assert(r@.game_instances =~= Seq::<InstanceView>::empty());
            assert(r@.waiting_list =~= Seq::<PlayerView>::empty());
        }
        r
    }

    /// The index of the record for a unit identity, if the table holds
    /// one.
    fn find_instance(&self, account: &String) -> (r: Option<usize>)
        ensures
            r matches Some(i) ==> i < self@.game_instances.len() && self@.game_instances[
                i as int
            ].account == account@,
            r is None ==> forall|j: int|
                0 <= j < self@.game_instances.len() ==> self@.game_instances[j].account
                    != account@,
    {
        let n = self.game_instances.len();
        let mut i: usize = 0;
        while i < n
            invariant
                n == self.game_instances.len(),
                i <= n,
                forall|j: int| 0 <= j < i ==> self@.game_instances[j].account != account@,
            decreases n - i,
        {
            if self.game_instances[i].account.eq(account) {
                return Some(i);
            }
            i += 1;
        }
        None
    }

    /// Settles a finished match. Only a unit with a live record may
    /// report: any other caller is turned away with nothing changed.
    /// The pot goes to the named winner; on a draw it stays with the
    /// coordinator. Either way the caller's unit is asked to be
    /// destroyed; its record is kept until the teardown callback.
    pub fn on_game_finished(&mut self, caller: &String, winner_account: Option<String>) -> (r:
        Result<Vec<Action>, GameError>)
        requires
            old(self)@.wf(),
        ensures
            *final(self) == *old(self),
            r is Ok <==> old(self)@.instances_map().contains_key(caller@),
            r is Err ==> r == Err::<Vec<Action>, GameError>(GameError::Authorization),
            r matches Ok(acts) ==> actions_view(acts@) == (match winner_account {
                Some(w) => seq![
                    ActionView::Transfer { to: w@, amount: old(self)@.instances_map()[caller@] },
                    ActionView::DeleteGame { account: caller@ },
                ],
                None => seq![ActionView::DeleteGame { account: caller@ }],
            }),
    {
        proof {
            lemma_instances_map_contains(self@.game_instances, caller@);
        }
        let found = self.find_instance(caller);
        match found {
            None => Err(GameError::Authorization),
            Some(i) => {
                proof {
                    lemma_instances_map_value(self@.game_instances, i as int);
                }
                let amount = self.game_instances[i].pot;
                let mut acts: Vec<Action> = Vec::new();
                match winner_account {
                    Some(w) => {
                        acts.push(Action::Transfer { to: w, amount });
                        acts.push(Action::DeleteGame { account: caller.clone() });
                        proof {
                            assert(actions_view(acts@) =~= seq![
                                ActionView::Transfer {
                                    to: winner_account->Some_0@,
                                    amount: old(self)@.instances_map()[caller@],
                                },
                                ActionView::DeleteGame { account: caller@ },
                            ]);
                        }
                        Ok(acts)
                    },
                    None => {
                        acts.push(Action::DeleteGame { account: caller.clone() });
                        proof {
                            assert(actions_view(acts@) =~= seq![
                                ActionView::DeleteGame { account: caller@ },
                            ]);
                        }
                        Ok(acts)
                    },
                }
            },
        }
    }

    /// Records the outcome of one spawn attempt. On success the unit
    /// goes live: its record maps its identity to the combined pot
    /// less the protocol fee. On failure each player is refunded their
    /// own matched share and no record is created.
    pub fn on_game_contract_deployed(
        &mut self,
        game_account: &String,
        deposit: u128,
        player1: String,
        player2: String,
        success: bool,
    ) -> (r: Vec<Action>)
        requires
            old(self)@.wf(),
            success ==> deposit <= MAX_GAME_DEPOSIT,
        ensures
            final(self)@.wf(),
            final(self)@.waiting_list == old(self)@.waiting_list,
            final(self)@.next_game_id == old(self)@.next_game_id,
            success ==> final(self)@.instances_map() == old(self)@.instances_map().insert(
                game_account@,
                pot_fee(deposit),
            ) && r@.len() == 0,
            !success ==> *final(self) == *old(self) && actions_view(r@) == seq![
                ActionView::Transfer { to: player1@, amount: deposit },
                ActionView::Transfer { to: player2@, amount: deposit },
            ],
    {
        if success {
            assert(19 * deposit <= u128::MAX);
            let game_deposit = deposit * 19 / 10;
            let found = self.find_instance(game_account);
            match found {
                Some(i) => {
                    proof {
                        lemma_instances_map_update(
                            self@.game_instances,
                            i as int,
                            InstanceView { account: game_account@, pot: game_deposit },
                        );
                    }
                    self.game_instances[i] = GameInstance {
                        account: game_account.clone(),
                        pot: game_deposit,
                    };
                    proof {
                        assert(final(self)@.game_instances =~= old(self)@.game_instances.update(
                            i as int,
                            InstanceView { account: game_account@, pot: pot_fee(deposit) },
                        ));
                        assert forall|a: int, b: int|
                            0 <= a < b < final(self)@.game_instances.len() implies final(self)@.game_instances[a].account != final(self)@.game_instances[b].account by {
                            assert(old(self)@.game_instances[a].account == final(self)@.game_instances[a].account || a == i);
                            assert(old(self)@.game_instances[b].account == final(self)@.game_instances[b].account || b == i);
                        }
                        assert(final(self)@.waiting_list =~= old(self)@.waiting_list);
                    }
                },
                None => {
                    proof {
                        lemma_instances_map_push(
                            self@.game_instances,
                            InstanceView { account: game_account@, pot: game_deposit },
                        );
                    }
                    self.game_instances.push(
                        GameInstance { account: game_account.clone(), pot: game_deposit },
                    );
                    proof {
                        assert(final(self)@.game_instances =~= old(self)@.game_instances.push(
                            InstanceView { account: game_account@, pot: pot_fee(deposit) },
                        ));
                        assert forall|a: int, b: int|
                            0 <= a < b < final(self)@.game_instances.len() implies final(self)@.game_instances[a].account != final(self)@.game_instances[b].account by {
                            if b == final(self)@.game_instances.len() - 1 {
                                assert(old(self)@.game_instances[a].account != game_account@);
                            }
                        }
                        assert(final(self)@.waiting_list =~= old(self)@.waiting_list);
                    }
                },
            }
            Vec::new()
        } else {
            let ghost p1v = player1@;
            let ghost p2v = player2@;
            let mut acts: Vec<Action> = Vec::new();
            acts.push(Action::Transfer { to: player1, amount: deposit });
            acts.push(Action::Transfer { to: player2, amount: deposit });
            proof {
                assert(actions_view(acts@) =~= seq![
                    ActionView::Transfer { to: p1v, amount: deposit },
                    ActionView::Transfer { to: p2v, amount: deposit },
                ]);
            }
            acts
        }
    }

    /// Drops the record for a torn-down unit, whether or not the host
    /// confirmed the destruction: cleanup is never blocked, so a
    /// record is never leaked by a failed teardown. A repeated or
    /// unknown identity changes nothing.
    pub fn on_game_contract_deleted(&mut self, game_account: &String, _success: bool)
        requires
            old(self)@.wf(),
        ensures
            final(self)@.wf(),
            final(self)@.waiting_list == old(self)@.waiting_list,
            final(self)@.next_game_id == old(self)@.next_game_id,
            final(self)@.instances_map() == old(self)@.instances_map().remove(game_account@),
    {
        proof {
            lemma_instances_map_contains(self@.game_instances, game_account@);
        }
        let found = self.find_instance(game_account);
        match found {
            Some(i) => {
                proof {
                    lemma_instances_map_remove(self@.game_instances, i as int);
                }
                self.game_instances.remove(i);
                proof {
                    assert(final(self)@.game_instances =~= old(self)@.game_instances.remove(
                        i as int,
                    ));
                    assert(final(self)@.waiting_list =~= old(self)@.waiting_list);
                }
            },
            None => {
                proof {
                    assert(old(self)@.instances_map().remove(game_account@) =~= old(self)@.instances_map());
                }
            },
        }
    }

    /// Derives the next unit identity, advances the sequence counter —
    /// once per spawn attempt, never reset — and asks the host to
    /// create, fund, deploy and initialise the unit for the two
    /// players, with the deploy callback chained on.
    fn create_new_game_instance(
        &mut self,
        player1: String,
        player2: String,
        deposit: u128,
        current_account: &String,
    ) -> (r: Action)
        requires
            old(self).next_game_id < u32::MAX,
        ensures
            final(self)@.waiting_list == old(self)@.waiting_list,
            final(self)@.game_instances == old(self)@.game_instances,
            final(self).next_game_id == old(self).next_game_id + 1,
            r@ == (ActionView::CreateGame {
                account: game_account_spec(old(self).next_game_id as int, current_account@),
                funding: MIN_STORAGE_COST,
                player1: player1@,
                player2: player2@,
                pot: deposit,
            }),
    {
        let game_account = create_new_account_id(self.next_game_id, current_account);
        self.next_game_id = self.next_game_id + 1;
        Action::CreateGame {
            account: game_account,
            funding: MIN_STORAGE_COST,
            player1,
            player2,
            pot: deposit,
        }
    }

    /// Pairs the pool front to back, oldest first: for each complete
    /// pair, refunds whoever over-deposited the difference and spawns
    /// one unit playing for the smaller deposit; an odd entry stays
    /// queued. The record table is untouched until deploys report back.
    fn create_new_game_instances(&mut self, current_account: &String) -> (r: Vec<Action>)
        requires
            old(self).next_game_id + old(self)@.waiting_list.len() / 2 <= u32::MAX,
        ensures
            final(self)@.game_instances == old(self)@.game_instances,
            final(self)@.waiting_list == old(self)@.waiting_list.skip(
                2 * (old(self)@.waiting_list.len() as int / 2),
            ),
            final(self).next_game_id == old(self).next_game_id + old(
                self,
            )@.waiting_list.len() as int / 2,
            actions_view(r@) == pairing_actions(
                old(self)@.waiting_list,
                old(self).next_game_id as int,
                current_account@,
            ),
    {
        let ghost wv = self@.waiting_list;
        let ghost id0 = self.next_game_id as int;
        let ghost base = current_account@;
        let n = self.waiting_list.len();
        let np = n / 2;
        let mut actions: Vec<Action> = Vec::new();
        proof {
            assert(actions_view(actions@) =~= Seq::<ActionView>::empty());
            assert(wv.skip(0) =~= wv);
            assert(Seq::<ActionView>::empty() + pairing_actions(wv, id0, base) =~= pairing_actions(
                wv,
                id0,
                base,
            ));
        }
        let mut k: usize = 0;
        while k < np
            invariant
                np == n / 2,
                n == self.waiting_list.len(),
                k <= np,
                self@.waiting_list == wv,
                wv.len() == n,
                self@.game_instances == old(self)@.game_instances,
                self.next_game_id as int == id0 + k,
                id0 + np <= u32::MAX,
                base == current_account@,
                actions_view(actions@) + pairing_actions(wv.skip(2 * k as int), id0 + k, base)
                    == pairing_actions(wv, id0, base),
            decreases np - k,
        {
            let ghost tail = wv.skip(2 * k as int);
            let ghost acts0 = actions@;
            proof {
                assert(tail.len() == n - 2 * k);
                assert(tail[0] == wv[2 * k as int]);
                assert(tail[1] == wv[2 * k as int + 1]);
            }
            let player1 = self.waiting_list[2 * k].clone();
            let player2 = self.waiting_list[2 * k + 1].clone();
            proof {
                assert(player1@ == tail[0]);
                assert(player2@ == tail[1]);
            }
            if player1.deposit > player2.deposit {
                actions.push(
                    Action::Transfer {
                        to: player1.account.clone(),
                        amount: player1.deposit - player2.deposit,
                    },
                );
            } else if player2.deposit > player1.deposit {
                actions.push(
                    Action::Transfer {
                        to: player2.account.clone(),
                        amount: player2.deposit - player1.deposit,
                    },
                );
            }
            let deposit = if player1.deposit <= player2.deposit {
                player1.deposit
            } else {
                player2.deposit
            };
            let act = self.create_new_game_instance(
                player1.account,
                player2.account,
                deposit,
                current_account,
            );
            actions.push(act);
            proof {
                assert(actions_view(actions@) =~= actions_view(acts0) + pair_actions(
                    tail[0],
                    tail[1],
                    id0 + k,
                    base,
                ));
                assert(pairing_actions(tail, id0 + k, base) == pair_actions(
                    tail[0],
                    tail[1],
                    id0 + k,
                    base,
                ) + pairing_actions(tail.skip(2), id0 + k + 1, base));
                assert(tail.skip(2) =~= wv.skip(2 * (k + 1)));
                assert((actions_view(acts0) + pair_actions(tail[0], tail[1], id0 + k, base))
                    + pairing_actions(wv.skip(2 * (k + 1)), id0 + k + 1, base) =~= actions_view(
                    acts0,
                ) + (pair_actions(tail[0], tail[1], id0 + k, base) + pairing_actions(
                    wv.skip(2 * (k + 1)),
                    id0 + k + 1,
                    base,
                )));
            }
            k += 1;
        }
        proof {
            assert(pairing_actions(wv.skip(2 * np as int), id0 + np, base) =~= Seq::<
                ActionView,
            >::empty());
            assert(actions_view(actions@) + Seq::<ActionView>::empty() =~= actions_view(actions@));
        }
        if n % 2 == 1 {
            let leftover = self.waiting_list[n - 1].clone();
            let mut rest: Vec<WaitingPlayer> = Vec::new();
            rest.push(leftover);
            self.waiting_list = rest;
            proof {
                assert(self@.waiting_list =~= wv.skip(2 * (n as int / 2)));
            }
        } else {
            self.waiting_list = Vec::new();
            proof {
                assert(self@.waiting_list =~= wv.skip(2 * (n as int / 2)));
            }
        }
        actions
    }

    /// Buys the caller a place in the waiting pool for the attached
    /// deposit; a deposit under the minimum is rejected with nothing
    /// changed. As soon as the pool holds two entries, pairing runs
    /// immediately over every complete pair, oldest first.
    pub fn enter_waiting_list(
        &mut self,
        caller: String,
        attached_deposit: u128,
        current_account: &String,
    ) -> (r: Result<Vec<Action>, GameError>)
        requires
            old(self).next_game_id + (old(self)@.waiting_list.len() + 1) / 2 <= u32::MAX,
        ensures
            r is Err <==> attached_deposit < MIN_PLAYER_COST,
            r is Err ==> *final(self) == *old(self) && r == Err::<Vec<Action>, GameError>(
                GameError::InsufficientDeposit,
            ),
            r matches Ok(acts) ==> ({
                let w = old(self)@.waiting_list.push(
                    PlayerView { account: caller@, deposit: attached_deposit },
                );
                &&& final(self)@.game_instances == old(self)@.game_instances
                &&& final(self)@.waiting_list == w.skip(2 * (w.len() as int / 2))
                &&& final(self).next_game_id == old(self).next_game_id + w.len() as int / 2
                &&& actions_view(acts@) == pairing_actions(
                    w,
                    old(self).next_game_id as int,
                    current_account@,
                )
            }),
    {
        if let Err(e) = assert_deposit(attached_deposit) {
            return Err(e);
        }
        let ghost w = old(self)@.waiting_list.push(
            PlayerView { account: caller@, deposit: attached_deposit },
        );
        self.waiting_list.push(WaitingPlayer { account: caller, deposit: attached_deposit });
        proof {
            assert(self@.waiting_list =~= w);
        }
        if self.waiting_list.len() >= 2 {
            Ok(self.create_new_game_instances(current_account))
        } else {
            proof {
                assert(w.skip(0) =~= w);
                assert(actions_view(Seq::<Action>::empty()) =~= Seq::<ActionView>::empty());
            }
            Ok(Vec::new())
        }
    }
}

} // verus!
