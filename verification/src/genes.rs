//! Genomes: five traits that share a fixed budget.

use crate::chance::{coin_flip, thread_seeded_rng, uniform_below};
use crate::fixed::{clamp_unit, cube_root, spec_clamp_unit, spec_cube_root, UNIT};
use rand::rngs::StdRng;
use vstd::prelude::*;

verus! {

/// What the five traits of a normalized genome add up to, at most: 2.5.
pub const TRAIT_BUDGET: i64 = 2_500_000;

/// A mutation shifts a trait by less than this much either way: 0.1.
pub const NOISE_SPAN: i64 = 100_000;

/// The genetic makeup of a creature. Each trait is a fixed-point value
/// between zero and one; a high value in one trait is paid for by the
/// others, because a normalized genome keeps to `TRAIT_BUDGET`.
#[derive(Debug, Clone, Copy, PartialEq, Eq, Structural)]
pub struct Genome {
    /// Physical strength: weighs fully in combat.
    pub strength: i64,
    /// Movement speed: raises the chance that a step succeeds.
    pub speed: i64,
    /// Body size: weighs half in combat and widens vision.
    pub size: i64,
    /// Energy efficiency: lowers the upkeep.
    pub efficiency: i64,
    /// Reproduction rate.
    pub reproduction: i64,
}

/// The shifts one mutation applies: `None` leaves a trait alone.
#[derive(Debug, Clone, Copy, PartialEq, Eq, Structural)]
pub struct TraitNoise {
    pub strength: Option<i64>,
    pub speed: Option<i64>,
    pub size: Option<i64>,
    pub efficiency: Option<i64>,
    pub reproduction: Option<i64>,
}

/// Which parent each trait of a child comes from: `true` is the first.
#[derive(Debug, Clone, Copy, PartialEq, Eq, Structural)]
pub struct TraitPicks {
    pub strength: bool,
    pub speed: bool,
    pub size: bool,
    pub efficiency: bool,
    pub reproduction: bool,
}

/// A trait after a shift: the sum, limited to the unit interval.
pub open spec fn spec_shifted(value: i64, shift: Option<i64>) -> i64 {
    match shift {
        Some(d) => spec_clamp_unit(value as int + d as int) as i64,
        None => value,
    }
}

/// A shift is in span when it moves a trait by less than `NOISE_SPAN`.
pub open spec fn shift_in_span(shift: Option<i64>) -> bool {
    match shift {
        Some(d) => -NOISE_SPAN <= d < NOISE_SPAN,
        None => true,
    }
}

/// A clamped trait scaled so that the clamped sum `sum` becomes the budget,
/// and capped at one.
pub open spec fn spec_scaled(clamped: int, sum: int) -> int {
    let scaled = clamped * (TRAIT_BUDGET as int) / sum;
    if scaled > UNIT as int {
        UNIT as int
    } else {
        scaled
    }
}

impl TraitNoise {
    /// Every shift is smaller than `NOISE_SPAN`.
    pub open spec fn in_span(self) -> bool {
        &&& shift_in_span(self.strength)
        &&& shift_in_span(self.speed)
        &&& shift_in_span(self.size)
        &&& shift_in_span(self.efficiency)
        &&& shift_in_span(self.reproduction)
    }

    /// At least one trait is shifted.
    pub open spec fn touches_any(self) -> bool {
        self.strength.is_some() || self.speed.is_some() || self.size.is_some()
            || self.efficiency.is_some() || self.reproduction.is_some()
    }

    /// Every trait is shifted.
    pub open spec fn touches_all(self) -> bool {
        self.strength.is_some() && self.speed.is_some() && self.size.is_some()
            && self.efficiency.is_some() && self.reproduction.is_some()
    }

    /// The shifts are such as a mutation at the given rate may draw: all in
    /// span, none at all at a rate of zero or less, and one for every trait
    /// at a rate of one or more.
    pub open spec fn fits_rate(self, mutation_rate: i64) -> bool {
        &&& self.in_span()
        &&& mutation_rate <= 0 ==> !self.touches_any()
        &&& mutation_rate >= UNIT ==> self.touches_all()
    }
}

impl Genome {
    /// The sum of the five traits.
    pub open spec fn spec_sum(self) -> int {
        self.strength + self.speed + self.size + self.efficiency + self.reproduction
    }

    /// Every trait lies between zero and one.
    pub open spec fn in_unit_range(self) -> bool {
        &&& 0 <= self.strength <= UNIT
        &&& 0 <= self.speed <= UNIT
        &&& 0 <= self.size <= UNIT
        &&& 0 <= self.efficiency <= UNIT
        &&& 0 <= self.reproduction <= UNIT
    }

    /// Every trait lies between zero and one and together they keep to the
    /// budget.
    pub open spec fn within_budget(self) -> bool {
        self.in_unit_range() && self.spec_sum() <= TRAIT_BUDGET
    }

    /// Each trait limited to the unit interval.
    pub open spec fn spec_clamped(self) -> Genome {
        Genome {
            strength: spec_clamp_unit(self.strength as int) as i64,
            speed: spec_clamp_unit(self.speed as int) as i64,
            size: spec_clamp_unit(self.size as int) as i64,
            efficiency: spec_clamp_unit(self.efficiency as int) as i64,
            reproduction: spec_clamp_unit(self.reproduction as int) as i64,
        }
    }

    /// The genome brought to the budget: the traits are clamped, then scaled
    /// in proportion so that they sum to the budget, then capped at one. An
    /// all-zero genome gets a fifth of the budget in every trait.
    pub open spec fn spec_normalized(self) -> Genome {
        let c = self.spec_clamped();
        let sum = c.spec_sum();
        if sum > 0 {
            Genome {
                strength: spec_scaled(c.strength as int, sum) as i64,
                speed: spec_scaled(c.speed as int, sum) as i64,
                size: spec_scaled(c.size as int, sum) as i64,
                efficiency: spec_scaled(c.efficiency as int, sum) as i64,
                reproduction: spec_scaled(c.reproduction as int, sum) as i64,
            }
        } else {
            Genome {
                strength: 500_000,
                speed: 500_000,
                size: 500_000,
                efficiency: 500_000,
                reproduction: 500_000,
            }
        }
    }

    /// The genome after a mutation with the given shifts: untouched where no
    /// trait is shifted, else shifted and brought back to the budget.
    pub open spec fn spec_mutated(self, noise: TraitNoise) -> Genome {
        if noise.touches_any() {
            Genome {
                strength: spec_shifted(self.strength, noise.strength),
                speed: spec_shifted(self.speed, noise.speed),
                size: spec_shifted(self.size, noise.size),
                efficiency: spec_shifted(self.efficiency, noise.efficiency),
                reproduction: spec_shifted(self.reproduction, noise.reproduction),
            }.spec_normalized()
        } else {
            self
        }
    }

    /// The child of `self` and `other` with the given picks, brought to the
    /// budget.
    pub open spec fn spec_crossed(self, other: Genome, picks: TraitPicks) -> Genome {
        Genome {
            strength: if picks.strength { self.strength } else { other.strength },
            speed: if picks.speed { self.speed } else { other.speed },
            size: if picks.size { self.size } else { other.size },
            efficiency: if picks.efficiency { self.efficiency } else { other.efficiency },
            reproduction: if picks.reproduction { self.reproduction } else { other.reproduction },
        }.spec_normalized()
    }

    /// Upkeep per tick: 1 + (2·strength + 1.5·speed + 1.8·size +
    /// 0.5·reproduction) · (2 − efficiency).
    pub open spec fn spec_energy_cost(self) -> int {
        UNIT + (20 * self.strength + 15 * self.speed + 18 * self.size + 5 * self.reproduction) * (2
            * UNIT - self.efficiency) / (10 * UNIT)
    }

    /// What the fitness score is the cube root of: (strength + 0.5·size) ·
    /// (speed + efficiency) · reproduction.
    pub open spec fn spec_fitness_cube(self) -> int {
        (2 * self.strength + self.size) * (self.speed + self.efficiency) * self.reproduction / 2
    }

    /// The fitness score: the integer part of the cube root of
    /// `spec_fitness_cube`.
    pub open spec fn spec_fitness_score(self) -> int {
        spec_cube_root(self.spec_fitness_cube() as nat) as int
    }

    /// Combat power: strength + 0.5·size.
    pub open spec fn spec_combat_power(self) -> int {
        (2 * self.strength + self.size) / 2
    }

    /// Whether every trait lies between zero and one.
    pub fn is_in_unit_range(&self) -> (sound: bool)
        ensures
            sound == self.in_unit_range(),
    {
        0 <= self.strength && self.strength <= UNIT && 0 <= self.speed && self.speed <= UNIT && 0
            <= self.size && self.size <= UNIT && 0 <= self.efficiency && self.efficiency <= UNIT
            && 0 <= self.reproduction && self.reproduction <= UNIT
    }

    /// Brings the genome to the budget.
    fn normalize(&mut self)
        ensures
            *final(self) == old(self).spec_normalized(),
    {
        let strength: i64 = clamp_unit(self.strength);
        let speed: i64 = clamp_unit(self.speed);
        let size: i64 = clamp_unit(self.size);
        let efficiency: i64 = clamp_unit(self.efficiency);
        let reproduction: i64 = clamp_unit(self.reproduction);
        let sum: i64 = strength + speed + size + efficiency + reproduction;
        if sum > 0 {
            self.strength = scale_trait(strength, sum);
            self.speed = scale_trait(speed, sum);
            self.size = scale_trait(size, sum);
            self.efficiency = scale_trait(efficiency, sum);
            self.reproduction = scale_trait(reproduction, sum);
        } else {
            let even: i64 = TRAIT_BUDGET / 5;
            self.strength = even;
            self.speed = even;
            self.size = even;
            self.efficiency = even;
            self.reproduction = even;
        }
    }

    /// A genome with the given traits, brought to the budget.
    pub fn new(
        strength: i64,
        speed: i64,
        size: i64,
        efficiency: i64,
        reproduction: i64,
    ) -> (g: Genome)
        ensures
            g == (Genome { strength, speed, size, efficiency, reproduction }).spec_normalized(),
            g.within_budget(),
    {
        let mut genome = Genome { strength, speed, size, efficiency, reproduction };
        genome.normalize();
        proof {
            lemma_normalized_within_budget(Genome { strength, speed, size, efficiency,
                reproduction });
        }
        genome
    }

    /// Whether the genome is what five draws give: the normalization of a
    /// genome whose traits lie between zero and one.
    pub open spec fn spec_is_drawn(self) -> bool {
        exists|raw: Genome| raw.in_unit_range() && self == #[trigger] raw.spec_normalized()
    }

    /// A genome of five uniform draws, brought to the budget.
    pub fn random() -> (g: Genome)
        ensures
            g.within_budget(),
            g.spec_is_drawn(),
    {
        let mut rng = thread_seeded_rng();
        Genome::random_from(&mut rng)
    }

    /// A genome of five uniform draws from `rng`, brought to the budget.
    pub fn random_from(rng: &mut StdRng) -> (g: Genome)
        ensures
            g.within_budget(),
            g.spec_is_drawn(),
    {
        let strength: i64 = uniform_below(rng, UNIT as u64) as i64;
        let speed: i64 = uniform_below(rng, UNIT as u64) as i64;
        let size: i64 = uniform_below(rng, UNIT as u64) as i64;
        let efficiency: i64 = uniform_below(rng, UNIT as u64) as i64;
        let reproduction: i64 = uniform_below(rng, UNIT as u64) as i64;
        let ghost raw = Genome { strength, speed, size, efficiency, reproduction };
        let g = Genome::new(strength, speed, size, efficiency, reproduction);
        assert(raw.in_unit_range() && g == raw.spec_normalized());
        g
    }

    /// Applies the given shifts. Where any trait is shifted the genome is
    /// brought back to the budget afterwards.
    pub fn mutate_with(&mut self, noise: &TraitNoise)
        ensures
            *final(self) == old(self).spec_mutated(*noise),
            old(self).within_budget() ==> final(self).within_budget(),
    {
        let mut mutated = false;
        if let Some(d) = noise.strength {
            self.strength = shift_trait(self.strength, d);
            mutated = true;
        }
        if let Some(d) = noise.speed {
            self.speed = shift_trait(self.speed, d);
            mutated = true;
        }
        if let Some(d) = noise.size {
            self.size = shift_trait(self.size, d);
            mutated = true;
        }
        if let Some(d) = noise.efficiency {
            self.efficiency = shift_trait(self.efficiency, d);
            mutated = true;
        }
        if let Some(d) = noise.reproduction {
            self.reproduction = shift_trait(self.reproduction, d);
            mutated = true;
        }
        if mutated {
            proof {
                lemma_normalized_within_budget(*self);
            }
            self.normalize();
        }
    }

    /// Mutates the genome: each trait is shifted with probability
    /// `mutation_rate` by a uniform amount smaller than `NOISE_SPAN`.
    pub fn mutate(&mut self, mutation_rate: i64)
        ensures
            exists|noise: TraitNoise|
                noise.fits_rate(mutation_rate) && *final(self) == old(self).spec_mutated(noise),
            mutation_rate <= 0 ==> *final(self) == *old(self),
            old(self).within_budget() ==> final(self).within_budget(),
    {
        let mut rng = thread_seeded_rng();
        self.mutate_from(&mut rng, mutation_rate);
    }

    /// Mutates the genome with draws from `rng`.
    pub fn mutate_from(&mut self, rng: &mut StdRng, mutation_rate: i64)
        ensures
            exists|noise: TraitNoise|
                noise.fits_rate(mutation_rate) && *final(self) == old(self).spec_mutated(noise),
            mutation_rate <= 0 ==> *final(self) == *old(self),
            old(self).within_budget() ==> final(self).within_budget(),
    {
        let noise = draw_noise(rng, mutation_rate);
        self.mutate_with(&noise);
        assert(noise.fits_rate(mutation_rate) && *self == old(self).spec_mutated(noise));
    }

    /// The child that takes each trait from the parent that `picks` names,
    /// brought to the budget.
    pub fn crossover_with(&self, other: &Genome, picks: &TraitPicks) -> (child: Genome)
        ensures
            child == self.spec_crossed(*other, *picks),
            child.within_budget(),
    {
        let mut child = Genome {
            strength: if picks.strength { self.strength } else { other.strength },
            speed: if picks.speed { self.speed } else { other.speed },
            size: if picks.size { self.size } else { other.size },
            efficiency: if picks.efficiency { self.efficiency } else { other.efficiency },
            reproduction: if picks.reproduction { self.reproduction } else { other.reproduction },
        };
        proof {
            lemma_normalized_within_budget(child);
        }
        child.normalize();
        child
    }

    /// Crosses two genomes: each trait comes from either parent with equal
    /// probability, and the child is brought to the budget.
    pub fn crossover(&self, other: &Genome) -> (child: Genome)
        ensures
            exists|picks: TraitPicks| child == self.spec_crossed(*other, picks),
            child.within_budget(),
    {
        let mut rng = thread_seeded_rng();
        self.crossover_from(other, &mut rng)
    }

    /// Crosses two genomes with coin flips from `rng`.
    pub fn crossover_from(&self, other: &Genome, rng: &mut StdRng) -> (child: Genome)
        ensures
            exists|picks: TraitPicks| child == self.spec_crossed(*other, picks),
            child.within_budget(),
    {
        let strength = coin_flip(rng);
        let speed = coin_flip(rng);
        let size = coin_flip(rng);
        let efficiency = coin_flip(rng);
        let reproduction = coin_flip(rng);
        let picks = TraitPicks { strength, speed, size, efficiency, reproduction };
        let child = self.crossover_with(other, &picks);
        assert(child == self.spec_crossed(*other, picks));
        child
    }

    /// The energy this genome costs per tick.
    pub fn energy_cost(&self) -> (cost: i64)
        requires
            self.in_unit_range(),
        ensures
            cost == self.spec_energy_cost(),
            UNIT <= cost <= 13 * UNIT,
    {
        let trait_cost: i64 = 20 * self.strength + 15 * self.speed + 18 * self.size + 5
            * self.reproduction;
        let multiplier: i64 = 2 * UNIT - self.efficiency;
        assert(0 <= trait_cost * multiplier <= 58_000_000 * 2_000_000) by (nonlinear_arith)
            requires
                0 <= trait_cost <= 58_000_000,
                0 <= multiplier <= 2_000_000,
        ;
        let product: i64 = trait_cost * multiplier;
        UNIT + product / (10 * UNIT)
    }

    /// The fitness score: the cube root of (strength + 0.5·size) · (speed +
    /// efficiency) · reproduction. Not a selection criterion.
    pub fn fitness_score(&self) -> (score: i64)
        requires
            self.in_unit_range(),
        ensures
            score == self.spec_fitness_score(),
            0 <= score <= 2_642_245,
    {
        let combat: u64 = (2 * self.strength + self.size) as u64;
        let survival: u64 = (self.speed + self.efficiency) as u64;
        let breeding: u64 = self.reproduction as u64;
        assert(0 <= combat * survival <= 3_000_000 * 2_000_000) by (nonlinear_arith)
            requires
                0 <= combat <= 3_000_000,
                0 <= survival <= 2_000_000,
        ;
        assert(0 <= (combat * survival) * breeding <= (3_000_000 * 2_000_000) * 1_000_000)
            by (nonlinear_arith)
            requires
                0 <= combat * survival <= 3_000_000 * 2_000_000,
                0 <= breeding <= 1_000_000,
        ;
        let cube: u64 = combat * survival * breeding / 2;
        cube_root(cube) as i64
    }
}

impl Default for Genome {
    /// The genome with one half in every trait.
    fn default() -> (g: Genome)
        ensures
            g == (Genome {
                strength: 500_000,
                speed: 500_000,
                size: 500_000,
                efficiency: 500_000,
                reproduction: 500_000,
            }),
    {
        Genome {
            strength: 500_000,
            speed: 500_000,
            size: 500_000,
            efficiency: 500_000,
            reproduction: 500_000,
        }
    }
}

/// One clamped trait scaled to the budget and capped at one.
fn scale_trait(clamped: i64, sum: i64) -> (r: i64)
    requires
        0 <= clamped <= UNIT,
        0 < sum,
    ensures
        r as int == spec_scaled(clamped as int, sum as int),
        0 <= r <= UNIT,
{
    let scaled: i64 = clamped * TRAIT_BUDGET / sum;
    assert(0 <= scaled) by (nonlinear_arith)
        requires
            scaled == (clamped * TRAIT_BUDGET) / (sum as int),
            0 <= clamped * TRAIT_BUDGET,
            0 < sum,
    ;
    if scaled > UNIT {
        UNIT
    } else {
        scaled
    }
}

/// One trait after a shift, limited to the unit interval.
fn shift_trait(value: i64, shift: i64) -> (r: i64)
    ensures
        r == spec_shifted(value, Some(shift)),
{
    let wide: i128 = value as i128 + shift as i128;
    if wide < 0 {
        0
    } else if wide > UNIT as i128 {
        UNIT
    } else {
        wide as i64
    }
}

/// Decides for one trait whether it mutates, and by how much.
fn draw_shift(rng: &mut StdRng, mutation_rate: i64) -> (shift: Option<i64>)
    ensures
        shift_in_span(shift),
        mutation_rate <= 0 ==> shift.is_none(),
        mutation_rate >= UNIT ==> shift.is_some(),
{
    let roll: i64 = uniform_below(rng, UNIT as u64) as i64;
    if roll < mutation_rate {
        let span: u64 = 2 * (NOISE_SPAN as u64);
        let offset: i64 = uniform_below(rng, span) as i64;
        Some(offset - NOISE_SPAN)
    } else {
        None
    }
}

/// Draws the shifts of one mutation: each trait is hit with probability
/// `mutation_rate`.
pub fn draw_noise(rng: &mut StdRng, mutation_rate: i64) -> (noise: TraitNoise)
    ensures
        noise.fits_rate(mutation_rate),
{
    let strength = draw_shift(rng, mutation_rate);
    let speed = draw_shift(rng, mutation_rate);
    let size = draw_shift(rng, mutation_rate);
    let efficiency = draw_shift(rng, mutation_rate);
    let reproduction = draw_shift(rng, mutation_rate);
    TraitNoise { strength, speed, size, efficiency, reproduction }
}

/// A scaled trait times the clamped sum stays at or below the trait times
/// the budget, and misses it by less than the sum.
proof fn lemma_scaled_product(clamped: int, sum: int)
    requires
        0 <= clamped <= UNIT,
        0 < sum,
    ensures
        0 <= spec_scaled(clamped, sum) <= UNIT,
        spec_scaled(clamped, sum) * sum <= clamped * TRAIT_BUDGET,
        spec_scaled(clamped, sum) < UNIT ==>
            clamped * TRAIT_BUDGET < (spec_scaled(clamped, sum) + 1)
            * sum,
{
    let a = clamped * (TRAIT_BUDGET as int);
    let q = a / sum;
    assert(0 <= q && q * sum <= a && a < (q + 1) * sum) by (nonlinear_arith)
        requires
            q == a / sum,
            0 <= a,
            0 < sum,
    ;
    if q > UNIT {
        assert(UNIT * sum <= q * sum) by (nonlinear_arith)
            requires
                UNIT <= q,
                0 < sum,
        ;
    }
}

/// A normalized genome has every trait in the unit interval and keeps to the
/// budget, whatever it was made from.
pub proof fn lemma_normalized_within_budget(g: Genome)
    ensures
        g.spec_normalized().within_budget(),
{
    let c = g.spec_clamped();
    let sum = c.spec_sum();
    let n = g.spec_normalized();
    if sum > 0 {
        lemma_scaled_product(c.strength as int, sum);
        lemma_scaled_product(c.speed as int, sum);
        lemma_scaled_product(c.size as int, sum);
        lemma_scaled_product(c.efficiency as int, sum);
        lemma_scaled_product(c.reproduction as int, sum);
        let total = n.spec_sum();
        assert(total * sum <= (TRAIT_BUDGET as int) * sum) by (nonlinear_arith)
            requires
                total == n.strength + n.speed + n.size + n.efficiency + n.reproduction,
                sum == c.strength + c.speed + c.size + c.efficiency + c.reproduction,
                n.strength * sum <= c.strength * TRAIT_BUDGET,
                n.speed * sum <= c.speed * TRAIT_BUDGET,
                n.size * sum <= c.size * TRAIT_BUDGET,
                n.efficiency * sum <= c.efficiency * TRAIT_BUDGET,
                n.reproduction * sum <= c.reproduction * TRAIT_BUDGET,
        ;
        assert(total <= TRAIT_BUDGET) by (nonlinear_arith)
            requires
                total * sum <= (TRAIT_BUDGET as int) * sum,
                0 < sum,
        ;
    }
}

/// No clamped trait of `g` is more than three fifths of their sum.
pub open spec fn no_trait_dominates(g: Genome) -> bool {
    let c = g.spec_clamped();
    let sum = c.spec_sum();
    &&& 5 * c.strength <= 3 * sum
    &&& 5 * c.speed <= 3 * sum
    &&& 5 * c.size <= 3 * sum
    &&& 5 * c.efficiency <= 3 * sum
    &&& 5 * c.reproduction <= 3 * sum
}

/// A genome whose clamped traits are all zero is normalized to exactly the
/// budget.
pub proof fn lemma_normalized_zero_is_budget(g: Genome)
    requires
        g.spec_clamped().spec_sum() == 0,
    ensures
        g.spec_normalized().spec_sum() == TRAIT_BUDGET,
{
}

/// Where no trait dominates, a normalized genome reaches four fifths of the
/// budget, up to the four millionths that rounding can cost.
pub proof fn lemma_normalized_reaches_budget(g: Genome)
    requires
        no_trait_dominates(g),
    ensures
        g.spec_normalized().spec_sum() >= 4 * TRAIT_BUDGET / 5 - 4,
{
    let c = g.spec_clamped();
    let sum = c.spec_sum();
    let n = g.spec_normalized();
    if sum > 0 {
        lemma_scaled_product(c.strength as int, sum);
        lemma_scaled_product(c.speed as int, sum);
        lemma_scaled_product(c.size as int, sum);
        lemma_scaled_product(c.efficiency as int, sum);
        lemma_scaled_product(c.reproduction as int, sum);
        let total = n.spec_sum();
        let weighed_strength = n.strength * sum;
        let weighed_speed = n.speed * sum;
        let weighed_size = n.size * sum;
        let weighed_efficiency = n.efficiency * sum;
        let weighed_reproduction = n.reproduction * sum;
        let cap = (UNIT as int) * sum;
        assert(n.strength == UNIT ==> weighed_strength == cap);
        assert(n.speed == UNIT ==> weighed_speed == cap);
        assert(n.size == UNIT ==> weighed_size == cap);
        assert(n.efficiency == UNIT ==> weighed_efficiency == cap);
        assert(n.reproduction == UNIT ==> weighed_reproduction == cap);
        assert(n.strength < UNIT ==>
            weighed_strength >= c.strength * TRAIT_BUDGET - sum + 1) by (nonlinear_arith)
            requires
                weighed_strength == n.strength * sum,
                n.strength < UNIT ==> c.strength * TRAIT_BUDGET < (n.strength + 1) * sum,
        ;
        assert(n.speed < UNIT ==>
            weighed_speed >= c.speed * TRAIT_BUDGET - sum + 1) by (nonlinear_arith)
            requires
                weighed_speed == n.speed * sum,
                n.speed < UNIT ==> c.speed * TRAIT_BUDGET < (n.speed + 1) * sum,
        ;
        assert(n.size < UNIT ==>
            weighed_size >= c.size * TRAIT_BUDGET - sum + 1) by (nonlinear_arith)
            requires
                weighed_size == n.size * sum,
                n.size < UNIT ==> c.size * TRAIT_BUDGET < (n.size + 1) * sum,
        ;
        assert(n.efficiency < UNIT ==> weighed_efficiency >= c.efficiency * TRAIT_BUDGET - sum + 1)
            by (nonlinear_arith)
            requires
                weighed_efficiency == n.efficiency * sum,
                n.efficiency < UNIT ==> c.efficiency * TRAIT_BUDGET < (n.efficiency + 1) * sum,
        ;
        assert(n.reproduction < UNIT ==>
            weighed_reproduction >= c.reproduction * TRAIT_BUDGET - sum + 1)
            by (nonlinear_arith)
            requires
                weighed_reproduction == n.reproduction * sum,
                n.reproduction < UNIT ==>
                    c.reproduction * TRAIT_BUDGET < (n.reproduction + 1) * sum,
        ;
        assert(total * sum
            == weighed_strength + weighed_speed + weighed_size + weighed_efficiency
            + weighed_reproduction) by (nonlinear_arith)
            requires
                total == n.strength + n.speed + n.size + n.efficiency + n.reproduction,
                weighed_strength == n.strength * sum,
                weighed_speed == n.speed * sum,
                weighed_size == n.size * sum,
                weighed_efficiency == n.efficiency * sum,
                weighed_reproduction == n.reproduction * sum,
        ;
        assert(weighed_strength + weighed_speed + weighed_size + weighed_efficiency
            + weighed_reproduction > 2 * cap - 5 * sum);
        assert(total > 2 * UNIT - 5) by (nonlinear_arith)
            requires
                total * sum > 2 * (UNIT * sum) - 5 * sum,
                0 < sum,
        ;
    }
}

/// Where one trait dominates, a normalized genome stays below four fifths of
/// the budget: the bound of `lemma_normalized_reaches_budget` asks for no
/// more than it needs.
pub proof fn lemma_dominated_misses_budget(g: Genome)
    requires
        !no_trait_dominates(g),
    ensures
        g.spec_normalized().spec_sum() < 4 * TRAIT_BUDGET / 5,
{
    let c = g.spec_clamped();
    let sum = c.spec_sum();
    let n = g.spec_normalized();
    assert(sum > 0);
    lemma_scaled_product(c.strength as int, sum);
    lemma_scaled_product(c.speed as int, sum);
    lemma_scaled_product(c.size as int, sum);
    lemma_scaled_product(c.efficiency as int, sum);
    lemma_scaled_product(c.reproduction as int, sum);
    let total = n.spec_sum();
    let weighed_strength = n.strength * sum;
    let weighed_speed = n.speed * sum;
    let weighed_size = n.size * sum;
    let weighed_efficiency = n.efficiency * sum;
    let weighed_reproduction = n.reproduction * sum;
    let cap = (UNIT as int) * sum;
    assert(weighed_strength <= cap && weighed_speed <= cap && weighed_size <= cap
        && weighed_efficiency <= cap && weighed_reproduction <= cap) by (nonlinear_arith)
        requires
            weighed_strength == n.strength * sum,
            weighed_speed == n.speed * sum,
            weighed_size == n.size * sum,
            weighed_efficiency == n.efficiency * sum,
            weighed_reproduction == n.reproduction * sum,
            cap == UNIT * sum,
            n.strength <= UNIT,
            n.speed <= UNIT,
            n.size <= UNIT,
            n.efficiency <= UNIT,
            n.reproduction <= UNIT,
            0 < sum,
    ;
    assert(total * sum
        == weighed_strength + weighed_speed + weighed_size + weighed_efficiency
        + weighed_reproduction) by (nonlinear_arith)
        requires
            total == n.strength + n.speed + n.size + n.efficiency + n.reproduction,
            weighed_strength == n.strength * sum,
            weighed_speed == n.speed * sum,
            weighed_size == n.size * sum,
            weighed_efficiency == n.efficiency * sum,
            weighed_reproduction == n.reproduction * sum,
    ;
    assert(weighed_strength + weighed_speed + weighed_size + weighed_efficiency
        + weighed_reproduction < 2 * cap);
    assert(total < 2 * UNIT) by (nonlinear_arith)
        requires
            total * sum < 2 * (UNIT * sum),
            0 < sum,
    ;
}

} // verus!
