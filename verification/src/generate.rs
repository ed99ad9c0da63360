//! Rolling a fresh run from a seed.

use vstd::prelude::*;
use vstd::string::*;

use crate::content::{note, Cargo, ContentDb, Npc, Settlement, Terrain};
use crate::dice::{dice_of, draw, draw_index, Dice};
use crate::flags::FlagSet;
use crate::mission::{
    clamp_i64, clamped, Mission, MissionModel, Outcome, OutcomeModel, Stage, StageModel, MAX_WEAR,
};
use crate::road::fits;
use crate::text::{lemma_views_push, same_text, views, Text};

verus! {

/// £18 of spending money for fuel and bribes.
pub const START_CASH_PENCE: i64 = 4_320;

/// What is rolled for a fresh run.
#[derive(Clone, Copy, Debug, PartialEq, Eq)]
pub struct Picks {
    pub terrain: u64,
    pub cargo: u64,
    /// Unused when there is no settlement.
    pub dest: u64,
    /// Pence for the litre.
    pub diesel: u64,
    /// Quarter-hundreds of pence on top of the reward.
    pub bonus: u64,
    /// Unused when none of the hunters is about.
    pub antagonist: u64,
}

// --------------------------------------------------------------------- people

/// Whether there is somebody with the id `id`.
pub open spec fn is_npc(npcs: Seq<Npc>, id: Text) -> bool {
    exists|i: int| 0 <= i < npcs.len() && (#[trigger] npcs[i]).id@ == id
}

/// Who briefs: the one wanted if they are about, else the first, else nobody.
pub open spec fn npc_or_first(npcs: Seq<Npc>, want: Text) -> Text {
    if is_npc(npcs, want) {
        want
    } else if npcs.len() > 0 {
        npcs[0].id@
    } else {
        Seq::empty()
    }
}

/// Those of the hunters who are about.
pub open spec fn hunters(npcs: Seq<Npc>) -> Seq<Text> {
    note(is_npc(npcs, "hobbs"@), "hobbs"@) + note(is_npc(npcs, "finch"@), "finch"@) + note(
        is_npc(npcs, "carver"@),
        "carver"@,
    )
}

fn has_npc(npcs: &Vec<Npc>, id: &str) -> (r: bool)
    ensures
        r == is_npc(npcs@, id@),
{
    let mut i: usize = 0;
    while i < npcs.len()
        invariant
            i <= npcs@.len(),
            forall|j: int| 0 <= j < i ==> (#[trigger] npcs@[j]).id@ != id@,
        decreases npcs@.len() - i,
    {
        if same_text(npcs[i].id.as_str(), id) {
            assert(npcs@[i as int].id@ == id@);
            return true;
        }
        i += 1;
    }
    false
}

/// The one wanted if they are about, else the first, else nobody.
pub fn npc_or(content: &ContentDb, want: &str) -> (r: String)
    ensures
        r@ == npc_or_first(content.npcs@, want@),
{
    if has_npc(&content.npcs, want) {
        want.to_string()
    } else if content.npcs.len() > 0 {
        content.npcs[0].id.clone()
    } else {
        String::new()
    }
}

fn note_if_about(list: &mut Vec<String>, npcs: &Vec<Npc>, id: &str)
    ensures
        views(final(list)@) == views(old(list)@) + note(is_npc(npcs@, id@), id@),
{
    if has_npc(npcs, id) {
        let text = id.to_string();
        proof {
            lemma_views_push(list@, text);
        }
        list.push(text);
    }
    assert(views(list@) =~= views(old(list)@) + note(is_npc(npcs@, id@), id@));
}

/// Those of the hunters who are about.
pub fn hunters_about(content: &ContentDb) -> (r: Vec<String>)
    ensures
        views(r@) == hunters(content.npcs@),
{
    let mut list: Vec<String> = Vec::new();
    assert(views(list@) =~= Seq::<Text>::empty());
    note_if_about(&mut list, &content.npcs, "hobbs");
    note_if_about(&mut list, &content.npcs, "finch");
    note_if_about(&mut list, &content.npcs, "carver");
    assert(views(list@) =~= hunters(content.npcs@));
    list
}

/// The hunter at position `pick`, or nobody when none is about.
pub open spec fn hunter_at(npcs: Seq<Npc>, pick: int) -> Text {
    if hunters(npcs).len() == 0 {
        Seq::empty()
    } else {
        hunters(npcs)[pick]
    }
}

// --------------------------------------------------------------------- rolling

/// Whether the picks point at content that is there.
pub open spec fn picks_valid(content: ContentDb, p: Picks) -> bool {
    &&& p.terrain < content.terrains@.len()
    &&& p.cargo < content.cargoes@.len()
    &&& (content.settlements@.len() > 0 ==> p.dest < content.settlements@.len())
    &&& 14 <= p.diesel <= 22
    &&& p.bonus <= 8
    &&& (hunters(content.npcs@).len() > 0 ==> p.antagonist < hunters(content.npcs@).len())
}

/// The picks that the stream of a seed gives, in the order in which they are
/// rolled: terrain, cargo, destination, price of diesel, bonus, hunter. What
/// there is nothing to choose from for is not rolled.
pub open spec fn picks_for(seed: u64, content: ContentDb) -> Picks {
    let terrain = draw_index(dice_of(seed), content.terrains@.len());
    let cargo = draw_index(terrain.1, content.cargoes@.len());
    let dest = if content.settlements@.len() == 0 {
        (0u64, cargo.1)
    } else {
        draw_index(cargo.1, content.settlements@.len())
    };
    let diesel = draw(dest.1, 14, 22);
    let bonus = draw(diesel.1, 0, 8);
    let antagonist = if hunters(content.npcs@).len() == 0 {
        0u64
    } else {
        draw_index(bonus.1, hunters(content.npcs@).len()).0
    };
    Picks {
        terrain: terrain.0,
        cargo: cargo.0,
        dest: dest.0,
        diesel: diesel.0,
        bonus: bonus.0,
        antagonist,
    }
}

/// Rolls the picks of a seed.
pub fn roll_picks(seed: u64, content: &ContentDb) -> (r: Picks)
    requires
        content.terrains@.len() > 0,
        content.cargoes@.len() > 0,
    ensures
        r == picks_for(seed, *content),
        picks_valid(*content, r),
{
    let mut rng = Dice::seeded(seed);
    let terrain: u64 = rng.index(content.terrains.len());
    let cargo: u64 = rng.index(content.cargoes.len());
    let dest: u64 = if content.settlements.len() == 0 {
        0
    } else {
        rng.index(content.settlements.len())
    };
    let diesel: u64 = rng.between(14, 22);
    let bonus: u64 = rng.between(0, 8);
    let about = hunters_about(content);
    assert(about@.len() == views(about@).len());
    let antagonist: u64 = pick_present(&mut rng, &about);
    Picks { terrain, cargo, dest, diesel, bonus, antagonist }
}

/// Picks one of those who are present; nothing is rolled when nobody is.
pub fn pick_present(rng: &mut Dice, present: &Vec<String>) -> (r: u64)
    ensures
        present@.len() == 0 ==> r == 0 && final(rng)@ == old(rng)@,
        present@.len() > 0 ==> {
            &&& (r, final(rng)@) == draw_index(old(rng)@, present@.len())
            &&& r < present@.len()
        },
{
    if present.len() == 0 {
        0
    } else {
        rng.index(present.len())
    }
}

// ------------------------------------------------------------------ assembling

/// What a delivery pays: the cargo's base, so much for each leg, more for what
/// no form exists for, and the bonus.
pub open spec fn reward_of(terrain: Terrain, cargo: Cargo, bonus: int) -> int {
    cargo.base_pay_pence + terrain.legs * 240 + (if cargo.illicit {
        360int
    } else {
        0
    }) + bonus * 25
}

/// The sums of a run across `terrain` with `cargo` can be worked out, whatever
/// the bonus.
pub open spec fn job_fits(terrain: Terrain, cargo: Cargo) -> bool {
    &&& fits(terrain.start_fuel_l * 1_000)
    &&& fits(terrain.max_fuel_l * 1_000)
    &&& fits(terrain.leg_fuel_l * 1_000)
    &&& reward_of(terrain, cargo, 8) <= i64::MAX
}

/// A run can be rolled: there is a terrain and a cargo, and the sums of every
/// pairing can be worked out.
pub open spec fn generate_fits(content: ContentDb) -> bool {
    &&& content.terrains@.len() > 0
    &&& content.cargoes@.len() > 0
    &&& forall|i: int, j: int|
        0 <= i < content.terrains@.len() && 0 <= j < content.cargoes@.len() ==> job_fits(
            #[trigger] content.terrains@[i],
            #[trigger] content.cargoes@[j],
        )
}

/// Where the run goes.
pub open spec fn destination(settlements: Seq<Settlement>, pick: int) -> Text {
    if settlements.len() == 0 {
        "the border"@
    } else {
        settlements[pick].name@
    }
}

/// The seed of the road, derived from that of the run so that what is rolled
/// for the job does not shift what happens on the road.
pub open spec fn road_seed(seed: u64) -> u64 {
    seed ^ 0x5DEE_CE66
}

/// The fresh run of a seed, given the picks.
pub open spec fn mission_from(seed: u64, content: ContentDb, p: Picks) -> MissionModel {
    let terrain = content.terrains@[p.terrain as int];
    let cargo = content.cargoes@[p.cargo as int];
    MissionModel {
        seed,
        terrain: terrain.id@,
        terrain_name: terrain.name@,
        terrain_flavor: terrain.flavor@,
        cargo: cargo.name@,
        qty_desc: cargo.qty_desc@,
        dest_name: destination(content.settlements@, p.dest as int),
        illicit: cargo.illicit,
        reward_pence: reward_of(terrain, cargo, p.bonus as int),
        fixer: npc_or_first(content.npcs@, "arthur"@),
        antagonist: hunter_at(content.npcs@, p.antagonist as int),
        cash_pence: START_CASH_PENCE as int,
        diesel_price_pence: p.diesel as int,
        fuel_ml: terrain.start_fuel_l * 1_000,
        max_fuel_ml: terrain.max_fuel_l * 1_000,
        leg_fuel_ml: terrain.leg_fuel_l * 1_000,
        wear: clamped(terrain.start_wear as int, 0, MAX_WEAR as int),
        heat: 0,
        dc_mod: terrain.dc_mod as int,
        heat_per_leg: terrain.heat_per_leg as int,
        wear_per_leg: terrain.wear_per_leg as int,
        legs_total: terrain.legs as int,
        leg: 0,
        beats: Seq::empty(),
        stage: StageModel::Briefing,
        outcome: OutcomeModel::InProgress,
        flags: Seq::empty(),
        talked: false,
        cargo_lost: false,
        rng: dice_of(road_seed(seed)),
    }
}

/// Puts the fresh run of a seed together, given the picks.
pub fn assemble(seed: u64, content: &ContentDb, p: &Picks) -> (r: Mission)
    requires
        picks_valid(*content, *p),
        job_fits(content.terrains@[p.terrain as int], content.cargoes@[p.cargo as int]),
    ensures
        r@ == mission_from(seed, *content, *p),
        r@.wf(),
{
    assert(content.terrains@.len() == content.terrains.len());
    assert(content.cargoes@.len() == content.cargoes.len());
    let terrain = &content.terrains[p.terrain as usize];
    let cargo = &content.cargoes[p.cargo as usize];
    let dest_name = if content.settlements.len() == 0 {
        "the border".to_string()
    } else {
        content.settlements[p.dest as usize].name.clone()
    };
    let extra: i64 = if cargo.illicit {
        360
    } else {
        0
    };
    let reward_pence: i64 = cargo.base_pay_pence + terrain.legs as i64 * 240 + extra
        + p.bonus as i64 * 25;
    let about = hunters_about(content);
    assert(about@.len() == views(about@).len());
    let antagonist = if about.len() == 0 {
        String::new()
    } else {
        assert(views(about@)[p.antagonist as int] == about@[p.antagonist as int]@);
        about[p.antagonist as usize].clone()
    };
    let m = Mission {
        seed,
        terrain: terrain.id.clone(),
        terrain_name: terrain.name.clone(),
        terrain_flavor: terrain.flavor.clone(),
        cargo: cargo.name.clone(),
        qty_desc: cargo.qty_desc.clone(),
        dest_name,
        illicit: cargo.illicit,
        reward_pence,
        fixer: npc_or(content, "arthur"),
        antagonist,
        cash_pence: START_CASH_PENCE,
        diesel_price_pence: p.diesel as i64,
        fuel_ml: terrain.start_fuel_l * 1_000,
        max_fuel_ml: terrain.max_fuel_l * 1_000,
        leg_fuel_ml: terrain.leg_fuel_l * 1_000,
        wear: clamp_i64(terrain.start_wear, 0, MAX_WEAR),
        heat: 0,
        dc_mod: terrain.dc_mod,
        heat_per_leg: terrain.heat_per_leg,
        wear_per_leg: terrain.wear_per_leg,
        legs_total: terrain.legs as usize,
        leg: 0,
        beats: Vec::new(),
        stage: Stage::Briefing,
        outcome: Outcome::InProgress,
        flags: FlagSet::new(),
        talked: false,
        cargo_lost: false,
        rng: Dice::seeded(seed ^ 0x5DEE_CE66),
    };
    assert(views(m.beats@) =~= Seq::<Text>::empty());
    m
}

/// Rolls a fresh run from a seed.
pub fn generate(seed: u64, content: &ContentDb) -> (r: Mission)
    requires
        generate_fits(*content),
    ensures
        r@ == mission_from(seed, *content, picks_for(seed, *content)),
        picks_valid(*content, picks_for(seed, *content)),
        r@.wf(),
{
    let p = roll_picks(seed, content);
    assert(job_fits(content.terrains@[p.terrain as int], content.cargoes@[p.cargo as int]));
    assemble(seed, content, &p)
}

impl Mission {
    /// Roll a fresh mission from a seed. The caller supplies the seed; the sim
    /// stays pure.
    pub fn new(seed: u64, content: &ContentDb) -> (r: Self)
        requires
            generate_fits(*content),
        ensures
            r@ == mission_from(seed, *content, picks_for(seed, *content)),
            picks_valid(*content, picks_for(seed, *content)),
            r@.wf(),
    {
        generate(seed, content)
    }
}

} // verus!
