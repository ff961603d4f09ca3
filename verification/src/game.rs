//! The per-match unit: a two-player commit-reveal state machine over
//! rock-paper-scissors, fixed at spawn time to its two participants and
//! to the coordinator it reports to.

use vstd::prelude::*;
use crate::errors::GameError;
use crate::hashing::{commit_hash, compute_commitment};

verus! {

/// One of the three playable hands.
#[derive(Clone, Copy, PartialEq, Eq, Structural, Debug)]
pub enum Choice {
    Rock,
    Paper,
    Scissors,
}

/// The byte that encodes a choice inside a commitment preimage.
pub open spec fn choice_code(c: Choice) -> u8 {
    match c {
        Choice::Rock => 0,
        Choice::Paper => 1,
        Choice::Scissors => 2,
    }
}

impl Choice {
    /// The wire encoding of this choice: 0, 1 or 2.
    pub fn code(&self) -> (r: u8)
        ensures
            r == choice_code(*self),
    {
        match self {
            Choice::Rock => 0,
            Choice::Paper => 1,
            Choice::Scissors => 2,
        }
    }

    /// Decodes a wire byte into a choice; the only entry point through
    /// which an out-of-range choice code can be observed.
    pub fn from_code(code: u8) -> (r: Result<Choice, GameError>)
        ensures
            code <= 2 ==> (r matches Ok(c) && choice_code(c) == code),
            code > 2 ==> r == Err::<Choice, GameError>(GameError::InvalidChoice),
    {
        if code == 0 {
            Ok(Choice::Rock)
        } else if code == 1 {
            Ok(Choice::Paper)
        } else if code == 2 {
            Ok(Choice::Scissors)
        } else {
            Err(GameError::InvalidChoice)
        }
    }
}

/// Which of the two fixed participants won a resolved round.
#[derive(Clone, Copy, PartialEq, Eq, Structural, Debug)]
pub enum Winner {
    First,
    Second,
}

/// The fixed dominance relation: rock beats scissors, scissors beats
/// paper, paper beats rock.
pub open spec fn beats(a: Choice, b: Choice) -> bool {
    ||| (a == Choice::Rock && b == Choice::Scissors)
    ||| (a == Choice::Scissors && b == Choice::Paper)
    ||| (a == Choice::Paper && b == Choice::Rock)
}

/// The round outcome: a draw on equal choices, otherwise the player
/// whose choice dominates.
pub open spec fn resolve_spec(c1: Choice, c2: Choice) -> Option<Winner> {
    if c1 == c2 {
        None
    } else if beats(c1, c2) {
        Some(Winner::First)
    } else {
        Some(Winner::Second)
    }
}

/// Decides the winner of a round from the two revealed choices.
pub fn resolve(c1: Choice, c2: Choice) -> (r: Option<Winner>)
    ensures
        r == resolve_spec(c1, c2),
{
    if c1 == c2 {
        None
    } else if (matches!(c1, Choice::Rock) && matches!(c2, Choice::Scissors))
        || (matches!(c1, Choice::Scissors) && matches!(c2, Choice::Paper))
        || (matches!(c1, Choice::Paper) && matches!(c2, Choice::Rock)) {
        Some(Winner::First)
    } else {
        Some(Winner::Second)
    }
}

/// The resolver is total and exhaustively correct: equal choices always
/// draw, and otherwise exactly the dominating side wins.
pub proof fn lemma_resolver_total_correct(c1: Choice, c2: Choice)
    ensures
        resolve_spec(c1, c2) == None::<Winner> <==> c1 == c2,
        resolve_spec(c1, c2) == Some(Winner::First) <==> beats(c1, c2),
        resolve_spec(c1, c2) == Some(Winner::Second) <==> beats(c2, c1),
{
}

/// Swapping the two roles swaps the reported winner and keeps every
/// draw a draw.
pub proof fn lemma_resolver_symmetric(c1: Choice, c2: Choice)
    ensures
        resolve_spec(c1, c2) == None::<Winner> <==> resolve_spec(c2, c1) == None::<Winner>,
        resolve_spec(c1, c2) == Some(Winner::First) <==> resolve_spec(c2, c1) == Some(
            Winner::Second,
        ),
{
}

/// Accepts a choice that lies inside the three-value enumeration. Every
/// well-typed [`Choice`] does, so this check cannot fail; it mirrors the
/// wire-level guard that [`Choice::from_code`] enforces at the boundary.
pub fn assert_choice(choice: Choice) -> (r: Result<(), GameError>)
    ensures
        r is Ok,
{
    let code = choice.code();
    if code <= 2 {
        Ok(())
    } else {
        Err(GameError::InvalidChoice)
    }
}

/// Accepts a revealed hash only when it equals the stored commitment.
pub fn assert_commitment(revealed: &String, committed: &String) -> (r: Result<(), GameError>)
    ensures
        r is Ok <==> revealed@ == committed@,
        r is Err ==> r == Err::<(), GameError>(GameError::CommitmentMismatch),
{
    if revealed.eq(committed) {
        Ok(())
    } else {
        Err(GameError::CommitmentMismatch)
    }
}

/// Accepts a caller only when both participant identities are present
/// and the caller is one of them.
pub fn assert_players(player1: &String, player2: &String, caller: &String) -> (r: Result<
    (),
    GameError,
>)
    ensures
        r is Ok <==> (player1@.len() > 0 && player2@.len() > 0 && (caller@ == player1@
            || caller@ == player2@)),
        r is Err ==> r == Err::<(), GameError>(GameError::Authorization),
{
    if player1.as_str().is_empty() || player2.as_str().is_empty() {
        Err(GameError::Authorization)
    } else if caller.eq(player1) || caller.eq(player2) {
        Ok(())
    } else {
        Err(GameError::Authorization)
    }
}

/// Accepts an attached value only when it equals the exact fee asked
/// for; an off-by-anything attachment counts as an insufficient deposit.
pub fn assert_minimum_fee(attached: u128, fee: u128) -> (r: Result<(), GameError>)
    ensures
        r is Ok <==> attached == fee,
        r is Err ==> r == Err::<(), GameError>(GameError::InsufficientDeposit),
{
    if attached == fee {
        Ok(())
    } else {
        Err(GameError::InsufficientDeposit)
    }
}

/// The view of an optional stored string.
pub open spec fn opt_view(o: Option<String>) -> Option<Seq<char>> {
    match o {
        Some(s) => Some(s@),
        None => None,
    }
}

/// Tags naming the two persistent mappings a ledger deployment of a
/// match unit keeps, one storage prefix each.
pub enum StorageKeys {
    CommitmentKey,
    ChoiceKey,
}

/// The abstract state of a match unit: two fixed participants, the
/// coordinator it reports to, and one commitment and one revealed
/// choice slot per participant.
pub struct GameView {
    pub player1: Seq<char>,
    pub player2: Seq<char>,
    pub factory: Seq<char>,
    pub commitment1: Option<Seq<char>>,
    pub commitment2: Option<Seq<char>>,
    pub choice1: Option<Choice>,
    pub choice2: Option<Choice>,
}

impl GameView {
    /// Both participant identities were given at spawn time.
    pub open spec fn players_present(self) -> bool {
        self.player1.len() > 0 && self.player2.len() > 0
    }

    /// The caller is one of the two fixed participants.
    pub open spec fn is_player(self, who: Seq<char>) -> bool {
        who == self.player1 || who == self.player2
    }

    /// A call from this identity passes the participant check.
    pub open spec fn accepts(self, who: Seq<char>) -> bool {
        self.players_present() && self.is_player(who)
    }

    /// The slot that stores this participant's data: the first slot for
    /// the first participant, the second otherwise.
    pub open spec fn is_first(self, who: Seq<char>) -> bool {
        who == self.player1
    }

    /// The commitment stored for a participant, if any.
    pub open spec fn commitment_of(self, who: Seq<char>) -> Option<Seq<char>> {
        if self.is_first(who) {
            self.commitment1
        } else {
            self.commitment2
        }
    }

    /// The state after a participant's commitment slot is (over)written.
    pub open spec fn with_commitment(self, who: Seq<char>, h: Seq<char>) -> GameView {
        if self.is_first(who) {
            GameView { commitment1: Some(h), ..self }
        } else {
            GameView { commitment2: Some(h), ..self }
        }
    }

    /// The state after a participant's choice slot is (over)written.
    pub open spec fn with_choice(self, who: Seq<char>, c: Choice) -> GameView {
        if self.is_first(who) {
            GameView { choice1: Some(c), ..self }
        } else {
            GameView { choice2: Some(c), ..self }
        }
    }

    /// Both participants have revealed, so the round is decided.
    pub open spec fn both_revealed(self) -> bool {
        self.choice1 is Some && self.choice2 is Some
    }

    /// The round outcome, once both choices are in.
    pub open spec fn outcome(self) -> Option<Winner> {
        match (self.choice1, self.choice2) {
            (Some(c1), Some(c2)) => resolve_spec(c1, c2),
            _ => None,
        }
    }

    /// The identity the pot goes to: the winner's account, or nothing
    /// on a draw.
    pub open spec fn winner_account(self) -> Option<Seq<char>> {
        match self.outcome() {
            Some(Winner::First) => Some(self.player1),
            Some(Winner::Second) => Some(self.player2),
            None => None,
        }
    }

    /// A reveal of (choice, secret) by this caller is accepted: the
    /// caller passes the participant check and the pair hashes to the
    /// caller's stored commitment.
    pub open spec fn reveal_ok(self, who: Seq<char>, choice: Choice, secret: u128) -> bool {
        self.accepts(who) && self.commitment_of(who) == Some(commit_hash(choice, secret))
    }
}

/// The one outbound report a resolved match unit issues: the winner, or
/// nothing on a draw, addressed to the coordinator that spawned it.
pub struct MatchReport {
    pub recipient: String,
    pub winner: Option<String>,
}

/// A match unit. Participants and coordinator are fixed for the unit's
/// whole lifetime; each participant owns one commitment slot and one
/// choice slot, written through the two calls below.
pub struct Contract {
    pub player1: String,
    pub player2: String,
    pub factory: String,
    pub commitment1: Option<String>,
    pub commitment2: Option<String>,
    pub choice1: Option<Choice>,
    pub choice2: Option<Choice>,
}

impl View for Contract {
    type V = GameView;

    open spec fn view(&self) -> GameView {
        GameView {
            player1: self.player1@,
            player2: self.player2@,
            factory: self.factory@,
            commitment1: opt_view(self.commitment1),
            commitment2: opt_view(self.commitment2),
            choice1: self.choice1,
            choice2: self.choice2,
        }
    }
}

impl Contract {
    /// Spawns a fresh unit for two participants, reporting to `factory`;
    /// no commitments and no choices yet.
    pub fn new(player1: String, player2: String, factory: String) -> (r: Contract)
        ensures
            r@ == (GameView {
                player1: player1@,
                player2: player2@,
                factory: factory@,
                commitment1: None,
                commitment2: None,
                choice1: None,
                choice2: None,
            }),
    {
        Contract {
            player1,
            player2,
            factory,
            commitment1: None,
            commitment2: None,
            choice1: None,
            choice2: None,
        }
    }

    /// The commitment a participant should store for (choice, secret):
    /// deterministic, so two calls on identical inputs agree.
    pub fn get_commitment_hash(&self, choice: Choice, secret: u128) -> (r: String)
        ensures
            r@ == commit_hash(choice, secret),
            r@.len() == 64,
    {
        compute_commitment(choice, secret)
    }

    /// Stores `commitment_hash` under the calling participant,
    /// overwriting any prior value; any other identity is turned away
    /// with nothing changed.
    pub fn make_commitment(&mut self, caller: &String, commitment_hash: String) -> (r: Result<
        (),
        GameError,
    >)
        ensures
            r is Ok <==> old(self)@.accepts(caller@),
            r is Err ==> *final(self) == *old(self) && r == Err::<(), GameError>(
                GameError::Authorization,
            ),
            r is Ok ==> final(self)@ == old(self)@.with_commitment(caller@, commitment_hash@),
    {
        if let Err(e) = assert_players(&self.player1, &self.player2, caller) {
            return Err(e);
        }
        if caller.eq(&self.player1) {
            self.commitment1 = Some(commitment_hash);
        } else {
            self.commitment2 = Some(commitment_hash);
        }
        Ok(())
    }

    /// Accepts a reveal exactly when the caller is a participant whose
    /// stored commitment matches the recomputed hash of (choice,
    /// secret); on the reveal that completes the pair, resolves the
    /// round and returns the one report owed to the coordinator.
    pub fn reveal_commitment(&mut self, caller: &String, choice: Choice, secret: u128) -> (r:
        Result<Option<MatchReport>, GameError>)
        ensures
            r is Ok <==> old(self)@.reveal_ok(caller@, choice, secret),
            r is Err ==> *final(self) == *old(self),
            !old(self)@.accepts(caller@) ==> r == Err::<Option<MatchReport>, GameError>(
                GameError::Authorization,
            ),
            old(self)@.accepts(caller@) && old(self)@.commitment_of(caller@) is None ==> r == Err::<
                Option<MatchReport>,
                GameError,
            >(GameError::CommitmentMissing),
            old(self)@.accepts(caller@) && old(self)@.commitment_of(caller@) is Some && old(
                self)@.commitment_of(caller@) != Some(commit_hash(choice, secret)) ==> r == Err::<
                Option<MatchReport>,
                GameError,
            >(GameError::CommitmentMismatch),
            r is Ok ==> final(self)@ == old(self)@.with_choice(caller@, choice),
            r is Ok && final(self)@.both_revealed() ==> (r matches Ok(Some(rep))
                && rep.recipient@ == old(self)@.factory && opt_view(rep.winner) == final(
                self)@.winner_account()),
            r is Ok && !final(self)@.both_revealed() ==> r == Ok::<Option<MatchReport>, GameError>(
                None,
            ),
    {
        if let Err(e) = assert_choice(choice) {
            return Err(e);
        }
        if let Err(e) = assert_players(&self.player1, &self.player2, caller) {
            return Err(e);
        }
        let expected = self.get_commitment_hash(choice, secret);
        let first = caller.eq(&self.player1);
        let check: Result<(), GameError> = {
            let stored = if first {
                &self.commitment1
            } else {
                &self.commitment2
            };
            match stored {
                None => Err(GameError::CommitmentMissing),
                Some(s) => assert_commitment(&expected, s),
            }
        };
        if let Err(e) = check {
            return Err(e);
        }
        if first {
            self.choice1 = Some(choice);
        } else {
            self.choice2 = Some(choice);
        }
        match (&self.choice1, &self.choice2) {
            (Some(_), Some(_)) => Ok(Some(self.get_winner())),
            _ => Ok(None),
        }
    }

    /// Resolves the finished round: names the winner's account, or no
    /// account on a draw, in the report owed to the coordinator.
    pub fn get_winner(&self) -> (r: MatchReport)
        requires
            self@.both_revealed(),
        ensures
            r.recipient@ == self@.factory,
            opt_view(r.winner) == self@.winner_account(),
    {
        let c1 = match &self.choice1 {
            Some(c) => *c,
            None => unreached(),
        };
        let c2 = match &self.choice2 {
            Some(c) => *c,
            None => unreached(),
        };
        let winner: Option<String> = match resolve(c1, c2) {
            Some(Winner::First) => Some(self.player1.clone()),
            Some(Winner::Second) => Some(self.player2.clone()),
            None => None,
        };
        MatchReport { recipient: self.factory.clone(), winner }
    }
}

/// Commit-then-reveal round trip: once `make_commitment` has stored the
/// commitment of (choice, secret) for a participant, revealing exactly
/// that pair is accepted, and revealing any pair whose commitment
/// differs is rejected.
pub proof fn lemma_commit_reveal_round_trip(
    v: GameView,
    who: Seq<char>,
    choice: Choice,
    secret: u128,
    other_choice: Choice,
    other_secret: u128,
)
    requires
        v.accepts(who),
    ensures
        v.with_commitment(who, commit_hash(choice, secret)).reveal_ok(who, choice, secret),
        commit_hash(other_choice, other_secret) != commit_hash(choice, secret) ==> !v.with_commitment(
            who,
            commit_hash(choice, secret),
        ).reveal_ok(who, other_choice, other_secret),
{
}

} // verus!
