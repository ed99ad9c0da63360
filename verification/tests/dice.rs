//! The carried stream against the generator that it stands for.

use avalon::content::{Cargo, ContentDb, Npc, Settlement, Terrain};
use avalon::dice::Dice;
use avalon::generate::{pick_present, roll_picks};
use avalon::mission::Mission;
use avalon::road::roll;
use rand::{Rng, SeedableRng};
use rand_chacha::ChaCha8Rng;

#[test]
fn a_seeded_stream_starts_where_the_generator_starts() {
    for seed in [0u64, 1, 7, 0xC0BB, u64::MAX] {
        let d = Dice::seeded(seed);
        let rng = ChaCha8Rng::seed_from_u64(seed);
        assert_eq!(d.seed, rng.get_seed());
        assert_eq!(d.stream, rng.get_stream());
        assert_eq!(d.word_pos, rng.get_word_pos());
    }
}

#[test]
fn draws_follow_the_generator() {
    for seed in 0..50u64 {
        let mut d = Dice::seeded(seed);
        let mut rng = ChaCha8Rng::seed_from_u64(seed);
        for n in 1..40u64 {
            // Index draws over a half-open range.
            assert_eq!(d.index(n as usize) as usize, rng.gen_range(0..n as usize));
            // Signed draws over a closed range.
            assert_eq!(d.between(14, 22) as i64, rng.gen_range(14i64..=22));
            assert_eq!(d.between(1, 12) as i64, rng.gen_range(1..=12i64));
            // 32-bit draws, half-open, unsigned and signed.
            assert_eq!(d.between_small(0, n as u32 - 1), rng.gen_range(0..n as u32));
            assert_eq!(d.between_small(0, 2) as i32, rng.gen_range(0..3i32));
            assert_eq!(d.word_pos, rng.get_word_pos());
        }
    }
}

#[test]
fn draws_cover_the_whole_width() {
    let mut d = Dice::seeded(3);
    let mut rng = ChaCha8Rng::seed_from_u64(3);
    for _ in 0..20 {
        assert_eq!(d.between(0, u64::MAX), rng.gen_range(0..=u64::MAX));
        assert_eq!(d.between_small(0, u32::MAX), rng.gen_range(0..=u32::MAX));
        assert_eq!(d.between(5, 5), 5);
        assert_eq!(rng.gen_range(5u64..=5), 5);
    }
}

#[test]
fn rolls_follow_the_generator() {
    let mut d = Dice::seeded(0x5DEE);
    let mut rng = ChaCha8Rng::seed_from_u64(0x5DEE);
    for _ in 0..100 {
        let want: i64 = rng.gen_range(1..=12) + 2;
        assert_eq!(roll(&mut d, 2), want);
    }
}

#[test]
fn equal_states_give_equal_draws() {
    let mut a = Dice::seeded(11);
    a.between(0, 100);
    let mut b = a;
    assert_eq!(a.between(0, 1_000_000), b.between(0, 1_000_000));
    assert_eq!(a, b);
}

#[test]
fn nobody_to_pick_takes_nothing_from_the_stream() {
    let mut d = Dice::seeded(4);
    let before = d;
    assert_eq!(pick_present(&mut d, &Vec::new()), 0);
    assert_eq!(d, before);
}

fn terrain(id: &str) -> Terrain {
    Terrain {
        id: id.to_string(),
        name: id.to_string(),
        flavor: String::new(),
        legs: 3,
        start_fuel_l: 10,
        max_fuel_l: 20,
        leg_fuel_l: 5,
        start_wear: 0,
        dc_mod: 0,
        heat_per_leg: 0,
        wear_per_leg: 0,
    }
}

fn npc(id: &str) -> Npc {
    Npc {
        id: id.to_string(),
        name: id.to_string(),
        role: String::new(),
        faction: String::new(),
        persona: String::new(),
        barks: Vec::new(),
    }
}

fn content() -> ContentDb {
    ContentDb {
        settlements: ["a", "b", "c", "d", "e"]
            .iter()
            .map(|s| Settlement {
                id: s.to_string(),
                name: s.to_uppercase(),
                legs: 3,
                pay_bonus_pct: 0,
                flavor: String::new(),
            })
            .collect(),
        terrains: vec![terrain("moor"), terrain("fen"), terrain("pass")],
        cargoes: (0..7)
            .map(|i| Cargo {
                name: format!("cargo {i}"),
                qty_desc: "some".to_string(),
                base_pay_pence: 100 * i,
                illicit: i % 2 == 1,
            })
            .collect(),
        storylets: Vec::new(),
        npcs: vec![npc("arthur"), npc("carver"), npc("finch"), npc("hobbs")],
        banned_phrases: Vec::new(),
    }
}

#[test]
fn a_fresh_run_is_rolled_in_order() {
    let c = content();
    for seed in 0..100u64 {
        let mut rng = ChaCha8Rng::seed_from_u64(seed);
        let t = rng.gen_range(0..c.terrains.len());
        let g = rng.gen_range(0..c.cargoes.len());
        let s = rng.gen_range(0..c.settlements.len());
        let diesel: i64 = rng.gen_range(14..=22);
        let bonus: i64 = rng.gen_range(0..=8);
        let hunter = ["hobbs", "finch", "carver"][rng.gen_range(0..3usize)];

        let p = roll_picks(seed, &c);
        assert_eq!((p.terrain as usize, p.cargo as usize, p.dest as usize), (t, g, s));
        let m = Mission::new(seed, &c);
        assert_eq!(m.terrain, c.terrains[t].id);
        assert_eq!(m.cargo, c.cargoes[g].name);
        assert_eq!(m.dest_name, c.settlements[s].name);
        assert_eq!(m.diesel_price_pence, diesel);
        let extra = if c.cargoes[g].illicit { 360 } else { 0 };
        assert_eq!(m.reward_pence, c.cargoes[g].base_pay_pence + 3 * 240 + extra + bonus * 25);
        assert_eq!(m.antagonist, hunter);
        assert_eq!(m.rng, Dice::seeded(seed ^ 0x5DEE_CE66));
    }
}
