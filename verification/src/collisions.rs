use vstd::prelude::*;
use crate::game_state::GameState;
use crate::ghost_state::GhostState;
use crate::variables::COMBO_MULTIPLIER;

verus! {

impl GameState {
    /// Whether ghost `i` stands on Pacman's cell and would be eaten.
    pub open spec fn edible_contact(&self, i: int) -> bool {
        self.pacman_loc.spec_collides_with(self.ghosts[i].loc) && self.edible(i)
    }

    /// Whether ghost `i` stands on Pacman's cell and would kill Pacman.
    pub open spec fn lethal_contact(&self, i: int) -> bool {
        self.pacman_loc.spec_collides_with(self.ghosts[i].loc) && !self.ghosts[i].eaten
            && self.ghosts[i].fright_steps == 0
    }

    /// Whether some ghost stands on Pacman's cell and would kill Pacman.
    pub open spec fn pacman_dies(&self) -> bool {
        self.lethal_contact(0) || self.lethal_contact(1) || self.lethal_contact(2)
            || self.lethal_contact(3)
    }

    /// The number of ghosts among the first `k` that Pacman would eat.
    pub open spec fn contact_count(&self, k: int) -> int
        decreases k,
    {
        if k <= 0 {
            0
        } else {
            self.contact_count(k - 1) + if self.edible_contact(k - 1) {
                1int
            } else {
                0
            }
        }
    }

    /// Ghost `i` as a pass over the collisions leaves it when Pacman survives.
    pub open spec fn after_contact(&self, i: int) -> GhostState {
        if self.edible_contact(i) {
            self.ghosts[i].spec_respawn()
        } else {
            self.ghosts[i]
        }
    }

    /// The state after Pacman's collisions with the ghosts were resolved. A
    /// ghost that would kill Pacman resets the board as a death does. With no
    /// such ghost, each frightened ghost on Pacman's cell is eaten, and they
    /// are paid for one after the other, each at the combo it finds.
    pub open spec fn spec_check_collisions(self) -> GameState {
        if self.pacman_dies() {
            self.spec_death_reset()
        } else {
            GameState {
                ghosts: [
                    self.after_contact(0),
                    self.after_contact(1),
                    self.after_contact(2),
                    self.after_contact(3),
                ],
                curr_score: award_combo(
                    self.curr_score,
                    self.ghost_combo,
                    self.contact_count(4) as nat,
                ),
                ghost_combo: (self.ghost_combo + self.contact_count(4)) as u8,
                ..self
            }
        }
    }

    /// Whether the collisions can be resolved within the machine's limits:
    /// Pacman dies, or eats no ghost, or the combo stays below 16 until the
    /// last ghost is paid for, as the shift that pays for it needs.
    pub open spec fn collisions_fit(&self) -> bool {
        self.pacman_dies() || self.contact_count(4) == 0 || self.ghost_combo
            + self.contact_count(4) <= 16
    }

    /// Whether `check_collisions` can be called.
    pub fn can_check_collisions(&self) -> (b: bool)
        ensures
            b == self.collisions_fit(),
    {
        let mut eaten: u8 = 0;
        let mut i: usize = 0;
        while i < 4
            invariant
                i <= 4,
                eaten == self.contact_count(i as int),
                eaten <= i,
                forall|j: int| 0 <= j < i ==> !self.lethal_contact(j),
            decreases 4 - i,
        {
            let g = self.ghosts[i];
            if self.pacman_loc.collides_with(g.loc) && !g.is_eaten() {
                if g.is_frightened() {
                    eaten += 1;
                } else {
                    return true;
                }
            }
            i += 1;
        }
        eaten == 0 || self.ghost_combo <= 16 - eaten
    }

    /// Resolves Pacman's collisions with the ghosts, Red first: frightened
    /// ghosts are eaten, and the first other ghost that is not eaten already
    /// kills Pacman.
    pub fn check_collisions(&mut self)
        requires
            old(self).collisions_fit(),
        ensures
            *final(self) == old(self).spec_check_collisions(),
            old(self).wf() ==> final(self).wf(),
            old(self).combo_has_room() ==> final(self).combo_has_room(),
            final(self).pacman_loc == old(self).pacman_loc || final(self).pacman_loc
                == crate::location::spec_empty_loc(),
    {
        let mut num_ghosts_eaten: u8 = 0;
        let mut did_pacman_die = false;
        let pacman_loc = self.pacman_loc;
        let ghost prev = *self;
        let mut i: usize = 0;
        while i < 4 && !did_pacman_die
            invariant
                i <= 4,
                pacman_loc == prev.pacman_loc,
                *self == (GameState { ghosts: self.ghosts, ..prev }),
                forall|j: int| i <= j < 4 ==> self.ghosts[j] == prev.ghosts[j],
                forall|j: int|
                    0 <= j < 4 ==> (#[trigger] self.ghosts[j]).spec_reset()
                        == prev.ghosts[j].spec_reset(),
                did_pacman_die ==> prev.pacman_dies(),
                !did_pacman_die ==> forall|j: int|
                    0 <= j < i ==> !prev.lethal_contact(j) && self.ghosts[j]
                        == prev.after_contact(j),
                num_ghosts_eaten == prev.contact_count(i as int),
                num_ghosts_eaten <= i,
            decreases 4 - i + if did_pacman_die { 0int } else { 1 },
        {
            if pacman_loc.collides_with(self.ghosts[i].loc) {
                if self.ghosts[i].is_eaten() {
                } else if self.ghosts[i].is_frightened() {
                    self.ghosts[i].respawn();
                    num_ghosts_eaten += 1;
                } else {
                    did_pacman_die = true;
                }
            }
            if !did_pacman_die {
                i += 1;
            }
        }
        if did_pacman_die {
            proof {
                assert(self.spec_reset_all_ghosts().ghosts =~= prev.spec_reset_all_ghosts().ghosts);
                assert(self.spec_death_reset().ghosts =~= prev.spec_death_reset().ghosts);
            }
            self.death_reset();
        } else {
            proof {
                assert(self.ghosts =~= prev.spec_check_collisions().ghosts);
                prev.lemma_contacts_are_edible();
            }
            let ghost eaten = *self;
            let mut k: u8 = 0;
            while k < num_ghosts_eaten
                invariant
                    k <= num_ghosts_eaten,
                    num_ghosts_eaten == prev.contact_count(4),
                    num_ghosts_eaten == 0 || prev.ghost_combo + num_ghosts_eaten <= 16,
                    self.ghost_combo == prev.ghost_combo + k,
                    *self == (GameState {
                        curr_score: self.curr_score,
                        ghost_combo: self.ghost_combo,
                        ..eaten
                    }),
                    award_combo(
                        self.curr_score,
                        self.ghost_combo,
                        (num_ghosts_eaten - k) as nat,
                    ) == award_combo(
                        prev.curr_score,
                        prev.ghost_combo,
                        prev.contact_count(4) as nat,
                    ),
                decreases num_ghosts_eaten - k,
            {
                self.increment_score(COMBO_MULTIPLIER << self.ghost_combo);
                self.ghost_combo += 1;
                k += 1;
            }
        }
        proof {
            assert(*self == prev.spec_check_collisions());
            prev.lemma_collisions_keep_room();
            prev.lemma_collisions_keep_valid();
        }
    }

    /// Resolving the collisions leaves the combo with room if it had room.
    pub proof fn lemma_collisions_keep_room(self)
        requires
            self.collisions_fit(),
        ensures
            self.combo_has_room() ==> self.spec_check_collisions().combo_has_room(),
    {
        self.lemma_contacts_are_edible();
    }

    /// A death leaves a valid state valid.
    pub proof fn lemma_death_keeps_valid(self)
        requires
            self.wf(),
        ensures
            self.spec_death_reset().wf(),
    {
        let after = self.spec_death_reset();
        assert(after.ghosts[0].wf() && after.ghosts[0].color == self.ghosts[0].color) by {
            assert(self.ghosts[0].wf());
        }
        assert(after.ghosts[1].wf() && after.ghosts[1].color == self.ghosts[1].color) by {
            assert(self.ghosts[1].wf());
        }
        assert(after.ghosts[2].wf() && after.ghosts[2].color == self.ghosts[2].color) by {
            assert(self.ghosts[2].wf());
        }
        assert(after.ghosts[3].wf() && after.ghosts[3].color == self.ghosts[3].color) by {
            assert(self.ghosts[3].wf());
        }
        assert(after.edible_count() == 0);
    }

    /// Eating the ghosts that Pacman touches leaves a valid state valid.
    proof fn lemma_meal_keeps_valid(self)
        requires
            self.wf(),
            self.collisions_fit(),
            !self.pacman_dies(),
        ensures
            self.spec_check_collisions().wf(),
    {
        self.lemma_collisions_keep_room();
        let after = self.spec_check_collisions();
        assert(after.ghosts[0].wf() && after.ghosts[0].color == self.ghosts[0].color) by {
            assert(self.ghosts[0].wf());
        }
        assert(after.ghosts[1].wf() && after.ghosts[1].color == self.ghosts[1].color) by {
            assert(self.ghosts[1].wf());
        }
        assert(after.ghosts[2].wf() && after.ghosts[2].color == self.ghosts[2].color) by {
            assert(self.ghosts[2].wf());
        }
        assert(after.ghosts[3].wf() && after.ghosts[3].color == self.ghosts[3].color) by {
            assert(self.ghosts[3].wf());
        }
    }

    /// Resolving the collisions leaves a valid state valid.
    pub proof fn lemma_collisions_keep_valid(self)
        requires
            self.collisions_fit(),
        ensures
            self.wf() ==> self.spec_check_collisions().wf(),
    {
        if self.wf() {
            if self.pacman_dies() {
                self.lemma_death_keeps_valid();
            } else {
                self.lemma_meal_keeps_valid();
            }
        }
    }

    /// While the combo has room the collisions can be resolved.
    pub proof fn lemma_room_fits(self)
        requires
            self.combo_has_room(),
        ensures
            self.collisions_fit(),
    {
        self.lemma_contacts_are_edible();
    }

    /// Pacman eats no more ghosts than can be eaten, and each one it eats
    /// cannot be eaten again.
    pub proof fn lemma_contacts_are_edible(self)
        ensures
            0 <= self.contact_count(4) <= self.edible_count(),
            !self.pacman_dies() ==> self.spec_check_collisions().edible_count()
                == self.edible_count() - self.contact_count(4),
    {
        reveal_with_fuel(GameState::contact_count, 5);
    }
}

/// The points for eating a ghost at the given combo: the base, doubled once
/// for each ghost eaten before it.
pub open spec fn combo_points(combo: u8) -> u16 {
    COMBO_MULTIPLIER << combo
}

/// The score after `n` ghosts were paid for one after the other, the first at
/// the given combo and each next one at a combo one higher.
pub open spec fn award_combo(score: u16, combo: u8, n: nat) -> u16
    decreases n,
{
    if n == 0 {
        score
    } else {
        award_combo(score.saturating_add(combo_points(combo)), (combo + 1) as u8, (n - 1) as nat)
    }
}

/// Up to a combo of 8 the points are the base times a power of two.
pub proof fn lemma_combo_points(combo: u8)
    requires
        combo <= 8,
    ensures
        combo_points(combo) == COMBO_MULTIPLIER * vstd::arithmetic::power2::pow2(combo as nat),
        combo_points(0) == 200,
        combo_points(1) == 400,
        combo_points(2) == 800,
        combo_points(3) == 1600,
{
    assert(200u16 << 0u8 == 200 && 200u16 << 1u8 == 400 && 200u16 << 2u8 == 800 && 200u16 << 3u8
        == 1600 && 200u16 << 4u8 == 3200 && 200u16 << 5u8 == 6400 && 200u16 << 6u8 == 12800
        && 200u16 << 7u8 == 25600 && 200u16 << 8u8 == 51200) by (bit_vector);
    vstd::arithmetic::power2::lemma2_to64();
}

} // verus!
