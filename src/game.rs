use vstd::prelude::*;
use std::collections::HashMap;
use std::sync::Arc;

verus! {

broadcast use vstd::std_specs::hash::group_hash_axioms;

pub type PlayerID = u64;

pub type CardID = u64;

pub type TraitID = u64;

pub type FeatureID = u64;

pub type TraitValue = i64;

pub type CharacterIdx = usize;

pub type FeatureIdx = usize;

/// What playing a card does to an encounter, supplied by the game's rules.
pub trait CardEffect<F>: Sized {
    fn apply(&self, encounter: &mut Encounter<Self, F>, player: CharacterIdx, target: CharacterIdx);
}

/// What activating a feature does to an encounter, supplied by the game's
/// rules.
pub trait FeatureEffect<C>: Sized {
    fn apply(&self, encounter: &mut Encounter<C, Self>, feature: FeatureIdx);
}

pub struct Card<C> {
    pub name: String,
    pub description: String,
    pub effect: C,
}

pub struct Trait {
    pub name: String,
}

pub struct Feature<F> {
    pub name: String,
    pub description: String,
    pub effect: F,
}

/// A character's cards: `clist` maps a card id to its entry in the card
/// list; `deck`, `hand` and `discard` hold card ids, the top of the deck
/// being its last element.
pub struct Deck {
    pub clist: Vec<Option<CardID>>,
    pub deck: Vec<CardID>,
    pub hand: Vec<CardID>,
    pub discard: Vec<CardID>,
}

impl Deck {
    /// Moves the top card of the deck to the hand. An empty deck first
    /// takes the discard pile as its new deck; when both are empty, nothing
    /// is drawn.
    pub fn draw_card(&mut self)
        ensures
            final(self).clist@ == old(self).clist@,
            old(self).deck@.len() == 0 ==> ({
                let pile = old(self).discard@;
                &&& final(self).discard@ == Seq::<CardID>::empty()
                &&& pile.len() == 0 ==> final(self).deck@ == pile && final(self).hand@
                    == old(self).hand@
                &&& pile.len() > 0 ==> final(self).deck@ == pile.drop_last() && final(self).hand@
                    == old(self).hand@.push(pile.last())
            }),
            old(self).deck@.len() > 0 ==> {
                &&& final(self).discard@ == old(self).discard@
                &&& final(self).deck@ == old(self).deck@.drop_last()
                &&& final(self).hand@ == old(self).hand@.push(old(self).deck@.last())
            },
    {
        if self.deck.len() == 0 {
            std::mem::swap(&mut self.deck, &mut self.discard);
        }
        if self.deck.len() > 0 {
            let cid = self.deck[self.deck.len() - 1];
            self.hand.push(cid);
            self.deck.pop();
        }
    }

    /// Moves the card at position `index` of the hand onto the discard pile.
    pub fn discard_card(&mut self, index: usize)
        requires
            index < old(self).hand@.len(),
        ensures
            final(self).clist@ == old(self).clist@,
            final(self).deck@ == old(self).deck@,
            final(self).discard@ == old(self).discard@.push(old(self).hand@[index as int]),
            final(self).hand@ == old(self).hand@.remove(index as int),
    {
        let cid = self.hand[index];
        self.discard.push(cid);
        self.hand.remove(index);
    }

    /// Moves the whole hand, in order, onto the discard pile.
    pub fn discard_hand(&mut self)
        ensures
            final(self).clist@ == old(self).clist@,
            final(self).deck@ == old(self).deck@,
            final(self).discard@ == old(self).discard@ + old(self).hand@,
            final(self).hand@ == Seq::<CardID>::empty(),
    {
        self.discard.append(&mut self.hand);
    }
}

pub struct Character {
    pub traits: HashMap<TraitID, TraitValue>,
    pub deck: Deck,
}

pub struct Encounter<C, F> {
    pub characters: Vec<Character>,
    pub features: Vec<FeatureID>,
    pub done: bool,
    pub card_list: Arc<Vec<Card<C>>>,
    pub feature_list: Arc<Vec<Feature<F>>>,
}

impl<C, F> Encounter<C, F> {
    /// The entry of the card list that character `pid` plays from position
    /// `i` of its hand against `tid`, when both characters exist, the hand
    /// has that position, and the card's id leads to an entry of the list.
    pub open spec fn playable(&self, pid: CharacterIdx, tid: CharacterIdx, i: usize) -> Option<
        usize,
    > {
        let chars = self.characters@;
        if pid < chars.len() && tid < chars.len() && i < chars[pid as int].deck.hand@.len() {
            let deck = chars[pid as int].deck;
            let cid = deck.hand@[i as int];
            if (cid as int) < deck.clist@.len() {
                match deck.clist@[cid as int] {
                    Some(n) => if (n as int) < self.card_list@.len() {
                        Some(n as usize)
                    } else {
                        None
                    },
                    None => None,
                }
            } else {
                None
            }
        } else {
            None
        }
    }

    /// The entry of the feature list for active feature `fid`, when there is
    /// one.
    pub open spec fn activatable(&self, fid: usize) -> Option<usize> {
        if fid < self.features@.len() && (self.features@[fid as int] as int)
            < self.feature_list@.len() {
            Some(self.features@[fid as int] as usize)
        } else {
            None
        }
    }

    /// Checks that character `pid` can play the card at position `i` of its
    /// hand against `tid`; if so, moves that card to the discard pile and
    /// returns its entry in the card list. Otherwise changes nothing.
    pub fn take_card(&mut self, pid: CharacterIdx, tid: CharacterIdx, i: usize) -> (r: Option<
        usize,
    >)
        ensures
            r == old(self).playable(pid, tid, i),
            r is None ==> *final(self) == *old(self),
            r is Some ==> {
                let before = old(self).characters@;
                let after = final(self).characters@;
                let d0 = before[pid as int].deck;
                let d1 = after[pid as int].deck;
                &&& final(self).features == old(self).features
                &&& final(self).done == old(self).done
                &&& final(self).card_list == old(self).card_list
                &&& final(self).feature_list == old(self).feature_list
                &&& after.len() == before.len()
                &&& forall|j: int| 0 <= j < before.len() && j != pid ==> #[trigger] after[j] == before[j]
                &&& after[pid as int].traits == before[pid as int].traits
                &&& d1.clist@ == d0.clist@
                &&& d1.deck@ == d0.deck@
                &&& d1.discard@ == d0.discard@.push(d0.hand@[i as int])
                &&& d1.hand@ == d0.hand@.remove(i as int)
            },
    {
        let max = self.characters.len();
        if pid >= max || tid >= max || i >= self.characters[pid].deck.hand.len() {
            return None;
        }
        let cid = self.characters[pid].deck.hand[i];
        if cid >= self.characters[pid].deck.clist.len() as u64 {
            return None;
        }
        let n = match self.characters[pid].deck.clist[cid as usize] {
            Some(n) => n,
            None => {
                return None;
            },
        };
        if n >= self.card_list.len() as u64 {
            return None;
        }
        self.characters[pid].deck.discard_card(i);
        Some(n as usize)
    }
}

impl<C: CardEffect<F> + Copy, F> Encounter<C, F> {
    /// Plays the card at position `i` of character `pid`'s hand against
    /// `tid`: the card goes to the discard pile, then its effect runs.
    /// Returns whether the card could be played; when it could not, nothing
    /// changes.
    pub fn play_card(&mut self, pid: CharacterIdx, tid: CharacterIdx, i: usize) -> (r: bool)
        ensures
            r == old(self).playable(pid, tid, i) is Some,
            !r ==> *final(self) == *old(self),
    {
        match self.take_card(pid, tid, i) {
            Some(n) => {
                let effect = self.card_list[n].effect;
                effect.apply(self, pid, tid);
                true
            },
            None => false,
        }
    }
}

impl<C, F: FeatureEffect<C> + Copy> Encounter<C, F> {
    /// Runs the effect of active feature `fid`. Returns whether the feature
    /// exists; when it does not, nothing changes.
    pub fn activate_feature(&mut self, fid: usize) -> (r: bool)
        ensures
            r == old(self).activatable(fid) is Some,
            !r ==> *final(self) == *old(self),
    {
        if fid >= self.features.len() {
            return false;
        }
        let n = self.features[fid];
        if n >= self.feature_list.len() as u64 {
            return false;
        }
        let effect = self.feature_list[n as usize].effect;
        effect.apply(self, fid);
        true
    }
}

pub struct Player {
    pub id: PlayerID,
    pub character: Character,
}

/// Where each player's character stands: the position of the last player
/// with that id.
pub open spec fn player_indices(players: Seq<Player>) -> Map<PlayerID, CharacterIdx>
    decreases players.len(),
{
    if players.len() == 0 {
        Map::empty()
    } else {
        player_indices(players.drop_last()).insert(
            players.last().id,
            (players.len() - 1) as usize,
        )
    }
}

pub struct Game<C, F> {
    pub players: HashMap<PlayerID, CharacterIdx>,
    pub encounter: Encounter<C, F>,
}

impl<C, F> Game<C, F> {
    /// The character of player `pid`, if the player is known and its index
    /// names a character.
    pub open spec fn character_index(&self, pid: PlayerID) -> Option<CharacterIdx> {
        if self.players@.contains_key(pid) && (self.players@[pid] as int)
            < self.encounter.characters@.len() {
            Some(self.players@[pid])
        } else {
            None
        }
    }

    /// A game whose encounter holds the players' characters in the order
    /// given, each player mapped to its character's position.
    pub fn new(
        players: Vec<Player>,
        features: Vec<FeatureID>,
        card_list: Arc<Vec<Card<C>>>,
        feature_list: Arc<Vec<Feature<F>>>,
    ) -> (r: Self)
        ensures
            r.players@ == player_indices(players@),
            r.encounter.characters@ == players@.map_values(|p: Player| p.character),
            r.encounter.features == features,
            !r.encounter.done,
            r.encounter.card_list == card_list,
            r.encounter.feature_list == feature_list,
    {
        let mut player_map: HashMap<PlayerID, CharacterIdx> = HashMap::new();
        let mut characters: Vec<Character> = Vec::with_capacity(players.len());
        let ghost all = players@;
        for player in it: players
            invariant
                it.seq() == all,
                characters@.len() == it.index(),
                characters@ == all.take(it.index() as int).map_values(|p: Player| p.character),
                player_map@ == player_indices(all.take(it.index() as int)),
        {
            proof {
                let k = it.index() as int;
                assert(all.take(k + 1).drop_last() =~= all.take(k));
            }
            player_map.insert(player.id, characters.len());
            characters.push(player.character);
            proof {
                assert(characters@ =~= all.take(it.index() + 1).map_values(|p: Player| p.character));
            }
        }
        proof {
            assert(all.take(all.len() as int) =~= all);
        }
        Game {
            players: player_map,
            encounter: Encounter {
                characters: characters,
                features: features,
                done: false,
                card_list: card_list,
                feature_list: feature_list,
            },
        }
    }

    /// The character of player `pid`, if any.
    pub fn get_character(&self, pid: PlayerID) -> (r: Option<&Character>)
        ensures
            match self.character_index(pid) {
                Some(k) => r == Some(&self.encounter.characters@[k as int]),
                None => r is None,
            },
    {
        match self.players.get(&pid) {
            Some(ch_id) => {
                let ch_id = *ch_id;
                if ch_id < self.encounter.characters.len() {
                    Some(&self.encounter.characters[ch_id])
                } else {
                    None
                }
            },
            None => None,
        }
    }

    /// The character of player `pid`, if any, to be changed in place.
    pub fn get_mut_character(&mut self, pid: PlayerID) -> (r: Option<&mut Character>)
        ensures
            match old(self).character_index(pid) {
                Some(k) => {
                    &&& r is Some
                    &&& *r->Some_0 == old(self).encounter.characters@[k as int]
                    &&& final(self).players == old(self).players
                    &&& final(self).encounter.characters@ == old(self).encounter.characters@.update(
                        k as int,
                        *final(r->Some_0),
                    )
                    &&& final(self).encounter.features == old(self).encounter.features
                    &&& final(self).encounter.done == old(self).encounter.done
                    &&& final(self).encounter.card_list == old(self).encounter.card_list
                    &&& final(self).encounter.feature_list == old(self).encounter.feature_list
                },
                None => r is None && *final(self) == *old(self),
            },
    {
        match self.players.get(&pid) {
            Some(ch_id) => {
                let ch_id = *ch_id;
                if ch_id < self.encounter.characters.len() {
                    Some(&mut self.encounter.characters[ch_id])
                } else {
                    None
                }
            },
            None => None,
        }
    }
}

} // verus!
