//! What the daemon decides around a run.

use avalon::access::{authorised, credentials_match};
use avalon::content::{Cargo, ContentDb, Npc, Settlement, Terrain};
use avalon::dialogue::{
    bark, conclude_reply, dialogue_system, plan_reply, remember_exchange, take_remark, ReplyPlan,
    WORLD_BIBLE,
};
use avalon::mission::{Mission, Outcome, Stage};
use avalon::schema::pending_migrations;
use avalon::session::{score_row, MissionView, Session};
use base64::Engine;

fn content() -> ContentDb {
    ContentDb {
        settlements: vec![Settlement {
            id: "ashby".to_string(),
            name: "Ashby".to_string(),
            legs: 2,
            pay_bonus_pct: 0,
            flavor: String::new(),
        }],
        terrains: vec![Terrain {
            id: "moor".to_string(),
            name: "the moor".to_string(),
            flavor: "Wet.".to_string(),
            legs: 2,
            start_fuel_l: 30,
            max_fuel_l: 40,
            leg_fuel_l: 5,
            start_wear: 1,
            dc_mod: 0,
            heat_per_leg: 1,
            wear_per_leg: 1,
        }],
        cargoes: vec![Cargo {
            name: "turnips".to_string(),
            qty_desc: "ten sacks".to_string(),
            base_pay_pence: 1_000,
            illicit: false,
        }],
        npcs: vec![
            Npc {
                id: "arthur".to_string(),
                name: "Arthur Bray".to_string(),
                role: "the fixer".to_string(),
                faction: "guild".to_string(),
                persona: "Dry.".to_string(),
                barks: vec!["One.".to_string(), "Two.".to_string(), "Three.".to_string()],
            },
            Npc {
                id: "mute".to_string(),
                name: "Mute".to_string(),
                role: String::new(),
                faction: String::new(),
                persona: String::new(),
                barks: Vec::new(),
            },
        ],
        ..ContentDb::default()
    }
}

fn run() -> Mission {
    Mission::new(1, &content())
}

// ------------------------------------------------------------------- the session

#[test]
fn a_session_runs_from_start_to_score() {
    let c = content();
    let mut s = Session::new();
    assert!(s.mission.is_none());
    assert_eq!(s.play(0, &c).told.len(), 0);

    s.note_exchange("Evening.", "It is.");
    s.begin(1, &c);
    assert!(s.chat.is_empty());
    assert_eq!(s.mission, Some(Mission::new(1, &c)));

    // No storylets: the road ends at once, and the cargo is handed over.
    let played = s.play(2, &c);
    assert_eq!(played.told.len(), 1);
    assert_eq!(played.score, None);
    assert_eq!(s.mission.as_ref().unwrap().stage, Stage::Arrival);
    s.note_exchange("Where to?", "Ashby.");
    let played = s.play(0, &c);
    let row = played.score.unwrap();
    assert_eq!((row.outcome.as_str(), row.reason.clone()), ("won", None));
    assert_eq!(row.haul_pence, s.mission.as_ref().unwrap().reward_pence);
    assert_eq!((row.terrain.as_str(), row.cargo.as_str(), row.seed), ("moor", "turnips", 1));
    assert_eq!(s.chat.len(), 1);

    // Scored once.
    assert_eq!(s.play(0, &c).score, None);
    s.abandon();
    assert_eq!(s, Session::new());
}

#[test]
fn scores_are_rows_of_finished_runs() {
    let mut m = run();
    assert_eq!(score_row(&m), None);
    m.seed = u64::MAX;
    m.outcome = Outcome::Lost { reason: "caught".to_string(), lines: Vec::new() };
    let row = score_row(&m).unwrap();
    assert_eq!((row.outcome.as_str(), row.haul_pence, row.seed), ("lost", 0, -1));
    assert_eq!(row.reason, Some("caught".to_string()));
}

#[test]
fn the_screen_shows_the_run() {
    let c = content();
    let mut m = run();
    m.fuel_ml = 25_999;
    let v = MissionView::of(&m, &c);
    assert_eq!((v.terrain.as_str(), v.terrain_name.as_str()), ("moor", "the moor"));
    assert_eq!((v.cargo.as_str(), v.qty_desc.as_str()), ("turnips", "ten sacks"));
    assert_eq!((v.fuel_l, v.fuel_pct, v.max_fuel_l), (25, 64, 40));
    assert_eq!((v.wear, v.heat, v.leg, v.legs_total), (1, 0, 0, 2));
    assert_eq!((v.fixer.as_str(), v.antagonist.as_str()), ("arthur", ""));
    assert_eq!((v.outcome.as_str(), v.reason.clone(), v.haul_pence), ("in_progress", None, None));
    assert_eq!(v.scene.title, "The Job");
    m.outcome = Outcome::Won { haul_pence: 77, lines: Vec::new() };
    m.stage = Stage::Over;
    let v = MissionView::of(&m, &c);
    assert_eq!((v.outcome.as_str(), v.haul_pence), ("won", Some(77)));
    m.outcome = Outcome::Lost { reason: "stranded".to_string(), lines: Vec::new() };
    let v = MissionView::of(&m, &c);
    assert_eq!((v.outcome.as_str(), v.reason), ("lost", Some("stranded".to_string())));
    m.max_fuel_ml = 0;
    assert_eq!(MissionView::of(&m, &c).fuel_pct, 0);
    m.max_fuel_ml = 10;
    assert_eq!(MissionView::of(&m, &c).fuel_pct, 100);
}

// --------------------------------------------------------------------- the door

#[test]
fn without_a_token_everybody_passes() {
    assert!(authorised(None, None));
    assert!(authorised(Some(""), None));
    assert!(authorised(Some(""), Some("nonsense")));
}

#[test]
fn with_a_token_only_the_credentials_pass() {
    assert!(authorised(Some("SECRET"), Some("Basic Y29iYjpTRUNSRVQ=")));
    assert!(!authorised(Some("SECRET"), None));
    assert!(!authorised(Some("SECRET"), Some("Y29iYjpTRUNSRVQ=")));
    assert!(!authorised(Some("SECRET"), Some("basic Y29iYjpTRUNSRVQ=")));
    assert!(!authorised(Some("SECRET"), Some("Basic cobb:SECRET")));
    assert!(!authorised(Some("OTHER"), Some("Basic Y29iYjpTRUNSRVQ=")));
    for token in ["x", "née", "a b c", "p:q", "0123456789"] {
        let plain = format!("cobb:{token}");
        let encoded = base64::engine::general_purpose::STANDARD.encode(plain);
        let header = format!("Basic {encoded}");
        assert!(authorised(Some(token), Some(&header)));
        assert!(!authorised(Some("y"), Some(&header)));
        assert!(credentials_match(&encoded, Some(&header)));
        assert!(!credentials_match(&encoded, Some(&encoded)));
    }
}

// -------------------------------------------------------------------- migrations

#[test]
fn migrations_are_run_from_where_the_database_is() {
    assert_eq!(pending_migrations(0, 3), vec![0, 1, 2]);
    assert_eq!(pending_migrations(2, 3), vec![2]);
    assert_eq!(pending_migrations(3, 3), Vec::<usize>::new());
    assert_eq!(pending_migrations(9, 3), Vec::<usize>::new());
    assert_eq!(pending_migrations(-4, 2), vec![0, 1]);
    assert_eq!(pending_migrations(i64::MAX, 2), Vec::<usize>::new());
    assert_eq!(pending_migrations(0, 0), Vec::<usize>::new());
    // Stopped after the first, taken up at the second.
    assert_eq!(pending_migrations(0, 3)[1..].to_vec(), pending_migrations(1, 3));
}

// ---------------------------------------------------------------------- dialogue

#[test]
fn remarks_are_trimmed_and_addressed() {
    let m = run();
    let heard = take_remark("  Evening, Arthur. \n", "", Some(&m));
    assert_eq!(heard, Some(("arthur".to_string(), "Evening, Arthur.".to_string())));
    assert_eq!(
        take_remark("Hello", "mute", Some(&m)),
        Some(("mute".to_string(), "Hello".to_string()))
    );
    assert_eq!(take_remark("Hello", "", None), Some((String::new(), "Hello".to_string())));
    assert_eq!(take_remark(" \t ", "mute", Some(&m)), None);
    let long = "é".repeat(200);
    assert!(take_remark(&long, "mute", Some(&m)).is_some());
    let longer = format!("{long}!");
    assert_eq!(take_remark(&longer, "mute", Some(&m)), None);
}

#[test]
fn replies_are_planned() {
    let c = content();
    let m = run();
    let chat = Vec::new();
    assert_eq!(
        plan_reply(&c, "zeb", Some(&m), &chat, "Hello"),
        ReplyPlan::Refuse { line: "Nobody of that name works this depot.".to_string() }
    );
    assert_eq!(
        plan_reply(&c, "arthur", None, &chat, "Hello"),
        ReplyPlan::Refuse { line: "The depot's empty. Start a run first.".to_string() }
    );
    let mut hot = run();
    hot.heat = 3;
    match plan_reply(&c, "arthur", Some(&hot), &chat, "né") {
        ReplyPlan::Ask { npc, system, salt } => {
            assert_eq!(npc, 0);
            assert_eq!(salt, 3 + 3);
            assert_eq!(system, dialogue_system(&c.npcs[0], &hot, &chat));
        }
        other => panic!("{other:?}"),
    }
}

#[test]
fn the_prompt_says_who_and_what() {
    let c = content();
    let m = run();
    let mut chat = Vec::new();
    let tail = "Reply as Arthur Bray in one or two sentences, in period voice, words only. Answer \
                the actual question; never repeat an earlier line.";
    let job = format!(
        "Tonight's job: ten sacks of turnips across the moor to Ashby, {} on delivery. The \
         Bedford's at wear 1/10; heat on Cobb is 0/10.",
        avalon::fmt_pence(m.reward_pence)
    );
    assert_eq!(
        dialogue_system(&c.npcs[0], &m, &chat),
        format!("{WORLD_BIBLE}\n\nYOU ARE: Arthur Bray, the fixer. Dry.\n\n{job}\n\n{tail}")
    );
    for i in 0..4 {
        chat.push((format!("q{i}"), format!("a{i}")));
    }
    let talk = "\nThe conversation so far:\nCobb: q1\nArthur Bray: a1\nCobb: q2\nArthur Bray: \
                a2\nCobb: q3\nArthur Bray: a3\n";
    assert_eq!(
        dialogue_system(&c.npcs[0], &m, &chat),
        format!("{WORLD_BIBLE}\n\nYOU ARE: Arthur Bray, the fixer. Dry.\n\n{job}{talk}\n\n{tail}")
    );
}

#[test]
fn authored_lines_ship_where_the_model_is_silent() {
    let c = content();
    assert_eq!(bark(&c.npcs[0], 7), "Two.");
    assert_eq!(bark(&c.npcs[1], 7), "Mute says nothing you could put on a form.");
    assert_eq!(conclude_reply(&c.npcs[0], 2, None), ("Three.".to_string(), true));
    assert_eq!(
        conclude_reply(&c.npcs[0], 2, Some("Quite.".to_string())),
        ("Quite.".to_string(), false)
    );
}

#[test]
fn chats_stay_short() {
    let mut chat = Vec::new();
    for i in 0..11 {
        remember_exchange(&mut chat, &format!("q{i}"), &format!("a{i}"));
        assert!(chat.len() <= 8);
    }
    assert_eq!(chat.len(), 8);
    assert_eq!(chat[0].0, "q3");
    assert_eq!(chat[7], ("q10".to_string(), "a10".to_string()));
}
