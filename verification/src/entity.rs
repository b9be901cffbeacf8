use vstd::prelude::*;
use vstd::string::StringExecFns;

verus! {

/// Broad behavioural class of an entity; it decides which death transition
/// runs when the entity's hit points reach zero.
#[derive(Clone, Copy, Debug, PartialEq, Eq, Structural)]
pub enum EntityClass {
    Player,
    Monster,
}

/// AI tag: entities carrying one act on their own during the monster phase
/// of a turn. The player, and anything inert such as a corpse, has none.
#[derive(Clone, Copy, Debug, PartialEq, Eq, Structural)]
pub enum MonsterAi {
    Basic,
}

/// Combat statistics. Entities without them are decorative and can neither
/// deal nor receive damage.
#[derive(Clone, Copy, Debug, PartialEq, Eq, Structural)]
pub struct Stats {
    pub hp: i32,
    pub max_hp: i32,
    pub power: i32,
    pub defense: i32,
}

/// Plain RGB colour for an entity's glyph; the presentation layer maps it
/// to whatever its drawing backend expects.
#[derive(Clone, Copy, Debug, PartialEq, Eq, Structural)]
pub struct Color {
    pub r: u8,
    pub g: u8,
    pub b: u8,
}

/// A positioned actor: identity, glyph and colour, blocking and alive flags,
/// and the optional capability sets (combat stats, AI tag).
#[derive(Debug)]
pub struct Entity {
    pub x: i32,
    pub y: i32,
    pub c: char,
    pub color: Color,
    pub name: String,
    pub class: EntityClass,
    pub blocking: bool,
    pub alive: bool,
    pub stats: Option<Stats>,
    pub ai: Option<MonsterAi>,
}

/// The fixed colour every corpse is drawn in.
pub open spec fn corpse_color() -> Color {
    Color { r: 191, g: 0, b: 0 }
}

/// Death is one-way. Every mutating operation of this library preserves
/// these transitions: a dead entity never comes back to life, and absent
/// stats or AI tags never reappear.
pub open spec fn death_monotone(pre: Entity, post: Entity) -> bool {
    &&& !pre.alive ==> !post.alive
    &&& pre.stats is None ==> post.stats is None
    &&& pre.ai is None ==> post.ai is None
}

/// What `die` does: the entity is marked dead and drawn as a corpse; a
/// monster additionally stops blocking, loses its stats and AI tag forever,
/// and is renamed to "<name>'s corpse".
pub open spec fn died_from(pre: Entity, post: Entity) -> bool {
    &&& !post.alive
    &&& post.c == '%'
    &&& post.color == corpse_color()
    &&& post.x == pre.x
    &&& post.y == pre.y
    &&& post.class == pre.class
    &&& pre.class == EntityClass::Player ==> post.name == pre.name && post.blocking
        == pre.blocking && post.stats == pre.stats && post.ai == pre.ai
    &&& pre.class == EntityClass::Monster ==> post.blocking == false && post.stats is None
        && post.ai is None && post.name@ == pre.name@ + "'s corpse"@
}

/// The entity after damage lands, before any death transition: hit points
/// drop by `damage` when the damage is positive, otherwise nothing changes.
pub open spec fn damage_applied(pre: Entity, damage: int) -> Entity
    recommends
        pre.stats is Some,
{
    let s = pre.stats->0;
    let hp2 = if damage > 0 {
        s.hp - damage
    } else {
        s.hp as int
    };
    Entity { stats: Some(Stats { hp: hp2 as i32, ..s }), ..pre }
}

/// What `take_damage` does: no effect on a statless entity; otherwise the
/// damage lands and the death transition runs exactly when the resulting
/// hit points are at most zero.
pub open spec fn take_damage_rel(pre: Entity, post: Entity, damage: int) -> bool {
    if pre.stats is None {
        post == pre
    } else {
        let applied = damage_applied(pre, damage);
        if applied.stats->0.hp > 0 {
            post == applied
        } else {
            died_from(applied, post)
        }
    }
}

/// The machine-limit precondition of one attack: the computed damage and
/// the defender's resulting hit points must fit in `i32`.
pub open spec fn attack_req(attacker: Entity, defender: Entity) -> bool {
    &&& i32::MIN <= attacker.attack_damage_spec(defender) <= i32::MAX
    &&& defender.stats matches Some(s) ==> (attacker.attack_damage_spec(defender) > 0 ==> s.hp
        - attacker.attack_damage_spec(defender) >= i32::MIN)
}

/// What one attack does to the defender: nothing when the damage is zero or
/// negative (the blow is defended), otherwise the damage lands through
/// `take_damage`.
pub open spec fn attack_outcome(pre_attacker: Entity, pre_def: Entity, post_def: Entity) -> bool {
    &&& pre_attacker.attack_damage_spec(pre_def) <= 0 ==> post_def == pre_def
    &&& pre_attacker.attack_damage_spec(pre_def) > 0 ==> take_damage_rel(
        pre_def,
        post_def,
        pre_attacker.attack_damage_spec(pre_def),
    )
}

/// Combat is deterministic: the damage of an attack is a function of the
/// attacker's power and the defender's defense alone — power minus defense —
/// so any two attacks between equally-statted entities deal the same damage.
/// (A non-positive difference has no effect: see `attack_outcome`.)
pub proof fn lemma_attack_deterministic(a1: Entity, d1: Entity, a2: Entity, d2: Entity)
    requires
        a1.power_spec() == a2.power_spec(),
        d1.defense_spec() == d2.defense_spec(),
    ensures
        a1.attack_damage_spec(d1) == a2.attack_damage_spec(d2),
        a1.attack_damage_spec(d1) == a1.power_spec() - d1.defense_spec(),
{
}

/// Death-monotone steps compose: across any chain of library operations,
/// each of which is death-monotone, a dead entity stays dead and absent
/// stats or AI tags stay absent — death is one-way.
pub proof fn lemma_death_monotone_trans(a: Entity, b: Entity, c: Entity)
    requires
        death_monotone(a, b),
        death_monotone(b, c),
    ensures
        death_monotone(a, c),
{
}

impl Entity {
    /// Attack power; a statless entity strikes with zero power.
    pub open spec fn power_spec(self) -> int {
        match self.stats {
            Some(s) => s.power as int,
            None => 0,
        }
    }

    /// Defensive strength; a statless entity defends with zero.
    pub open spec fn defense_spec(self) -> int {
        match self.stats {
            Some(s) => s.defense as int,
            None => 0,
        }
    }

    /// The damage one attack by `self` deals `defender` before clamping:
    /// attacker power minus defender defense.
    pub open spec fn attack_damage_spec(self, defender: Entity) -> int {
        self.power_spec() - defender.defense_spec()
    }

    /// Squared Euclidean distance between `self` and `other`; comparing it
    /// against a squared threshold needs no rounding at all.
    pub open spec fn distance_sq_spec(self, other: Entity) -> int {
        (other.x - self.x) * (other.x - self.x) + (other.y - self.y) * (other.y - self.y)
    }

    pub fn new(
        name: &str,
        class: EntityClass,
        x: i32,
        y: i32,
        c: char,
        color: Color,
        blocking: bool,
    ) -> (e: Entity)
        ensures
            e.name@ == name@,
            e == (Entity { name: e.name, class, x, y, c, color, blocking, alive: false, stats: None, ai: None }),
    {
        Entity {
            name: name.to_owned(),
            class,
            x,
            y,
            c,
            color,
            blocking,
            alive: false,
            stats: None,
            ai: None,
        }
    }

    pub fn pos(&self) -> (p: (i32, i32))
        ensures
            p == (self.x, self.y),
    {
        (self.x, self.y)
    }

    pub fn set_pos(&mut self, x: i32, y: i32)
        ensures
            *final(self) == (Entity { x, y, ..*old(self) }),
            death_monotone(*old(self), *final(self)),
    {
        self.x = x;
        self.y = y;
    }

    /// Squared distance to another entity, exact in 128-bit arithmetic.
    pub fn distance_sq_to(&self, entity: &Entity) -> (d: i128)
        ensures
            d == self.distance_sq_spec(*entity),
    {
        let dx: i64 = entity.x as i64 - self.x as i64;
        let dy: i64 = entity.y as i64 - self.y as i64;
        proof {
            assert(dx * dx + dy * dy <= i128::MAX && dx * dx >= 0 && dy * dy >= 0)
                by (nonlinear_arith)
                requires
                    -0x1_0000_0000 <= dx <= 0x1_0000_0000,
                    -0x1_0000_0000 <= dy <= 0x1_0000_0000,
            ;
        }
        (dx as i128) * (dx as i128) + (dy as i128) * (dy as i128)
    }

    /// Subtract positive damage from the hit points, then run the death
    /// transition if they fell to zero or below. No effect without stats.
    pub fn take_damage(&mut self, damage: i32)
        requires
            old(self).stats matches Some(s) ==> (damage > 0 ==> s.hp - damage >= i32::MIN),
        ensures
            take_damage_rel(*old(self), *final(self), damage as int),
            death_monotone(*old(self), *final(self)),
    {
        match self.stats {
            Some(s) => {
                let mut hp: i32 = s.hp;
                if damage > 0 {
                    hp = hp - damage;
                }
                self.stats = Some(Stats { hp, ..s });
                if hp <= 0 {
                    self.die();
                }
            },
            None => {},
        }
    }

    /// One attack: damage is attacker power minus defender defense; it lands
    /// only when positive, otherwise the blow is defended and nothing changes.
    /// The attacker itself is never altered.
    pub fn attack(&mut self, enemy: &mut Entity)
        requires
            attack_req(*old(self), *old(enemy)),
        ensures
            *final(self) == *old(self),
            attack_outcome(*old(self), *old(enemy), *final(enemy)),
            death_monotone(*old(enemy), *final(enemy)),
    {
        let power: i32 = match self.stats {
            Some(s) => s.power,
            None => 0,
        };
        let defense: i32 = match enemy.stats {
            Some(s) => s.defense,
            None => 0,
        };
        let damage: i32 = power - defense;
        if damage > 0 {
            enemy.take_damage(damage);
        }
    }

    /// The one-way death transition.
    pub fn die(&mut self)
        ensures
            died_from(*old(self), *final(self)),
            death_monotone(*old(self), *final(self)),
    {
        self.alive = false;
        match self.class {
            EntityClass::Player => self.player_death(),
            EntityClass::Monster => self.monster_death(),
        }
    }

    fn player_death(&mut self)
        ensures
            *final(self) == (Entity { c: '%', color: corpse_color(), ..*old(self) }),
    {
        self.c = '%';
        self.color = Color { r: 191, g: 0, b: 0 };
    }

    fn monster_death(&mut self)
        ensures
            final(self).name@ == old(self).name@ + "'s corpse"@,
            *final(self) == (Entity {
                c: '%',
                color: corpse_color(),
                blocking: false,
                stats: None,
                ai: None,
                name: final(self).name,
                ..*old(self)
            }),
    {
        self.c = '%';
        self.color = Color { r: 191, g: 0, b: 0 };
        self.blocking = false;
        self.stats = None;
        self.ai = None;
        self.name.append("'s corpse");
    }
}

} // verus!
