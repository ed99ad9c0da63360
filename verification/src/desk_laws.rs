//! What the desk around a run does: the job that is rolled, what the screen and
//! the scoreboard show, talk, credentials and migrations.

use vstd::prelude::*;
use vstd::string::*;

use crate::access::{base64_of, let_through};
use crate::content::{ContentDb, Npc, Storylet};
use crate::dialogue::{
    addressee, bark_of, chat_with, history_words, job_words, nobody, npc_at, prompt, quoted,
    salt_of, speakable, WORLD_BIBLE,
};
use crate::dice::expanded_seed;
use crate::generate::{hunters, is_npc, mission_from, picks_valid, Picks};
use crate::mission::{money, Mission, MissionModel};
use crate::road::stepped;
use crate::scenes::scene_of;
use crate::schema::{pending, version_after, version_behind};
use crate::session::{
    score_of, scored_by, screen_of, session_after, start_screen, told_of, SessionModel,
};
use crate::text::{dec, Text};
use crate::text_laws::{law_the_gauge_shows_the_tank, stands_at};

verus! {

// ----------------------------------------------------------------------- the job

/// A fresh run is the job that its picks name: the terrain's road, tank and
/// tolls, the cargo, the destination, eighteen pounds in the pocket, and a
/// reward of the cargo's pay, a pound for each leg, thirty shillings more where
/// no form exists, and two shillings and a penny for each step of the bonus.
pub proof fn law_a_fresh_run_is_its_job(seed: u64, content: ContentDb, p: Picks)
    requires
        picks_valid(content, p),
    ensures
        ({
            let m = mission_from(seed, content, p);
            let t = content.terrains@[p.terrain as int];
            let c = content.cargoes@[p.cargo as int];
            &&& m.seed == seed
            &&& m.terrain == t.id@
            &&& m.terrain_name == t.name@
            &&& m.terrain_flavor == t.flavor@
            &&& m.cargo == c.name@
            &&& m.qty_desc == c.qty_desc@
            &&& m.illicit == c.illicit
            &&& m.reward_pence == c.base_pay_pence + 240 * t.legs + 25 * p.bonus + (
            if c.illicit {
                360int
            } else {
                0
            })
            &&& (content.settlements@.len() > 0 ==> m.dest_name
                == content.settlements@[p.dest as int].name@)
            &&& (content.settlements@.len() == 0 ==> m.dest_name == "the border"@)
            &&& m.cash_pence == 4_320
            &&& m.diesel_price_pence == p.diesel
            &&& 14 <= m.diesel_price_pence <= 22
            &&& m.fuel_ml == 1_000 * t.start_fuel_l
            &&& m.max_fuel_ml == 1_000 * t.max_fuel_l
            &&& m.leg_fuel_ml == 1_000 * t.leg_fuel_l
            &&& (0 <= t.start_wear <= 10 ==> m.wear == t.start_wear)
            &&& (t.start_wear > 10 ==> m.wear == 10)
            &&& (t.start_wear < 0 ==> m.wear == 0)
            &&& m.heat == 0
            &&& m.dc_mod == t.dc_mod
            &&& m.heat_per_leg == t.heat_per_leg
            &&& m.wear_per_leg == t.wear_per_leg
            &&& m.legs_total == t.legs
            &&& m.leg == 0
            &&& m.beats.len() == 0
            &&& m.flags.len() == 0
            &&& m.stage is Briefing
            &&& m.outcome is InProgress
            &&& !m.talked
            &&& !m.cargo_lost
            &&& m.rng.seed == expanded_seed(seed ^ 0x5DEE_CE66)
            &&& m.rng.stream == 0
            &&& m.rng.word_pos == 0
        }),
{
}

/// The fixer is Arthur where he is about, else the first of those who are; and
/// the hunter is one of Hobbs, Finch and Carver who is about, if any is.
pub proof fn law_the_cast_is_about(seed: u64, content: ContentDb, p: Picks)
    requires
        picks_valid(content, p),
    ensures
        ({
            let m = mission_from(seed, content, p);
            let npcs = content.npcs@;
            &&& (is_npc(npcs, "arthur"@) ==> m.fixer == "arthur"@)
            &&& (!is_npc(npcs, "arthur"@) && npcs.len() > 0 ==> m.fixer == npcs[0].id@)
            &&& (npcs.len() == 0 ==> m.fixer.len() == 0)
            &&& (is_npc(npcs, "hobbs"@) || is_npc(npcs, "finch"@) || is_npc(npcs, "carver"@) ==> {
                &&& is_npc(npcs, m.antagonist)
                &&& (m.antagonist == "hobbs"@ || m.antagonist == "finch"@ || m.antagonist
                    == "carver"@)
            })
            &&& (!is_npc(npcs, "hobbs"@) && !is_npc(npcs, "finch"@) && !is_npc(npcs, "carver"@)
                ==> m.antagonist.len() == 0)
        }),
{
    let npcs = content.npcs@;
    let hs = hunters(npcs);
    if hs.len() > 0 {
        let h = hs[p.antagonist as int];
        assert(h == "hobbs"@ && is_npc(npcs, "hobbs"@) || h == "finch"@ && is_npc(npcs, "finch"@)
            || h == "carver"@ && is_npc(npcs, "carver"@));
    }
}

/// Whether somebody is about is whether somebody in the content has the id.
pub proof fn law_who_is_about(npcs: Seq<Npc>, id: Text, k: int)
    ensures
        0 <= k < npcs.len() && npcs[k].id@ == id ==> is_npc(npcs, id),
        (forall|i: int| 0 <= i < npcs.len() ==> (#[trigger] npcs[i]).id@ != id) ==> !is_npc(
            npcs,
            id,
        ),
{
}

// -------------------------------------------------------------------- the screen

/// The screen shows the run as it is: its gauges, its job, its scene, and its
/// verdict with the reason of a loss and the haul of a win.
pub proof fn law_the_screen_shows_the_run(m: MissionModel, storylets: Seq<Storylet>)
    ensures
        ({
            let v = screen_of(m, storylets);
            &&& v.terrain == m.terrain
            &&& v.terrain_name == m.terrain_name
            &&& v.cargo == m.cargo
            &&& v.qty_desc == m.qty_desc
            &&& v.dest_name == m.dest_name
            &&& v.illicit == m.illicit
            &&& v.reward_pence == m.reward_pence
            &&& v.cash_pence == m.cash_pence
            &&& v.wear == m.wear
            &&& v.heat == m.heat
            &&& v.leg == m.leg
            &&& v.legs_total == m.legs_total
            &&& v.fixer == m.fixer
            &&& v.antagonist == m.antagonist
            &&& v.scene == scene_of(m, storylets)
            &&& (0 <= m.fuel_ml ==> 1_000 * v.fuel_l <= m.fuel_ml < 1_000 * v.fuel_l + 1_000)
            &&& (0 <= m.max_fuel_ml ==> 1_000 * v.max_fuel_l <= m.max_fuel_ml < 1_000 * v.max_fuel_l
                + 1_000)
            &&& (m.max_fuel_ml > 0 && m.max_fuel_ml == m.fuel_ml ==> v.fuel_pct == 100)
            &&& 0 <= v.fuel_pct <= 100
            &&& (m.outcome is InProgress ==> v.outcome == "in_progress"@)
            &&& (m.outcome is Won ==> v.outcome == "won"@ && v.haul_pence == Some(
                m.outcome->haul_pence,
            ))
            &&& (m.outcome is Lost ==> v.outcome == "lost"@ && v.reason == Some(
                m.outcome->reason,
            ))
            &&& (v.haul_pence is Some <==> m.outcome is Won)
            &&& (v.reason is Some <==> m.outcome is Lost)
        }),
{
    law_the_gauge_shows_the_tank(m.fuel_ml, m.max_fuel_ml);
}

/// The scoreboard keeps a finished run: whether it was won, why it was lost,
/// what it brought in, and where it went with what.
pub proof fn law_the_scoreboard_keeps_the_verdict(m: MissionModel)
    ensures
        score_of(m) is Some <==> !(m.outcome is InProgress),
        score_of(m) matches Some(row) ==> {
            &&& row.terrain == m.terrain
            &&& row.cargo == m.cargo
            &&& row.seed == m.seed as i64
            &&& (m.outcome is Won ==> row.outcome == "won"@ && row.reason is None
                && row.haul_pence == m.outcome->haul_pence)
            &&& (m.outcome is Lost ==> row.outcome == "lost"@ && row.reason == Some(
                m.outcome->reason,
            ) && row.haul_pence == 0)
        },
{
}

/// A choice in a session is a choice in its run: the run that comes of it is in
/// hand, all that it told is told, and the chat is as it was. Its row goes on the
/// scoreboard where it has just ended the run.
pub proof fn law_a_session_plays_its_run(s: SessionModel, storylets: Seq<Storylet>, idx: int)
    ensures
        session_after(s, storylets, idx).chat == s.chat,
        s.mission matches Some(m) ==> {
            let n = stepped(m, storylets, idx);
            &&& session_after(s, storylets, idx).mission == Some(n.m)
            &&& told_of(s, storylets, idx) == n.said
            &&& (m.outcome is InProgress && !(n.m.outcome is InProgress) ==> scored_by(
                s,
                storylets,
                idx,
            ) == score_of(n.m))
            &&& (!(m.outcome is InProgress) || n.m.outcome is InProgress ==> scored_by(
                s,
                storylets,
                idx,
            ) is None)
        },
        s.mission is None ==> session_after(s, storylets, idx) == s && told_of(
            s,
            storylets,
            idx,
        ).len() == 0 && scored_by(s, storylets, idx) is None,
{
}

// ------------------------------------------------------------------------ talk

/// A chat keeps the latest exchanges in order: the new one last, the ones before
/// it in front, and the oldest dropped once there are more than eight.
pub proof fn law_chats_keep_the_latest(chat: Seq<(Text, Text)>, you: Text, them: Text, i: int)
    ensures
        ({
            let c = chat_with(chat, you, them);
            &&& c.len() == if chat.len() < 8 {
                chat.len() + 1
            } else {
                8
            }
            &&& c.last() == (you, them)
            &&& (1 <= i < c.len() ==> c[c.len() - 1 - i] == chat[chat.len() - i])
        }),
{
}

/// The prompt quotes the last three exchanges and nothing older: what was said
/// before them does not change it.
pub proof fn law_prompts_forget_old_talk(
    npc: Npc,
    m: MissionModel,
    old_talk: Seq<(Text, Text)>,
    chat: Seq<(Text, Text)>,
)
    requires
        chat.len() >= 3,
    ensures
        prompt(npc, m, old_talk + chat) == prompt(npc, m, chat),
        history_words(chat, npc.name@) == "\nThe conversation so far:\n"@ + (exchange_words(
            chat[chat.len() - 3],
            npc.name@,
        ) + exchange_words(chat[chat.len() - 2], npc.name@) + exchange_words(
            chat[chat.len() - 1],
            npc.name@,
        )),
{
    let all = old_talk + chat;
    let n = all.len() as int;
    let k = chat.len() as int;
    let name = npc.name@;
    lemma_quoted_three(all, name);
    lemma_quoted_three(chat, name);
    assert(all[n - 1] == chat[k - 1] && all[n - 2] == chat[k - 2] && all[n - 3] == chat[k - 3]);
}

/// An exchange as the prompt quotes it: what Cobb said and what was answered.
pub open spec fn exchange_words(e: (Text, Text), name: Text) -> Text {
    "Cobb: "@ + e.0 + "\n"@ + name + ": "@ + e.1 + "\n"@
}

proof fn lemma_quoted_one(chat: Seq<(Text, Text)>, name: Text, from: int, n: int)
    requires
        from < n,
    ensures
        quoted(chat, name, from, n) == quoted(chat, name, from, n - 1) + exchange_words(
            chat[n - 1],
            name,
        ),
{
    let q = quoted(chat, name, from, n - 1);
    let e = chat[n - 1];
    assert(q + "Cobb: "@ + e.0 + "\n"@ + name + ": "@ + e.1 + "\n"@ =~= q + exchange_words(e, name));
}

proof fn lemma_quoted_three(chat: Seq<(Text, Text)>, name: Text)
    requires
        chat.len() >= 3,
    ensures
        quoted(chat, name, chat.len() - 3, chat.len() as int) == exchange_words(
            chat[chat.len() - 3],
            name,
        ) + exchange_words(chat[chat.len() - 2], name) + exchange_words(
            chat[chat.len() - 1],
            name,
        ),
{
    let n = chat.len() as int;
    lemma_quoted_one(chat, name, n - 3, n);
    lemma_quoted_one(chat, name, n - 3, n - 1);
    lemma_quoted_one(chat, name, n - 3, n - 2);
    assert(quoted(chat, name, n - 3, n - 3) =~= Seq::<char>::empty());
    assert(Seq::<char>::empty() + exchange_words(chat[n - 3], name) =~= exchange_words(
        chat[n - 3],
        name,
    ));
}

/// Whether `part` stands somewhere in `whole`.
pub open spec fn mentions(whole: Text, part: Text) -> bool {
    exists|i: int| stands_at(whole, part, i)
}

proof fn lemma_mentioned_last(a: Text, part: Text)
    ensures
        mentions(a + part, part),
{
    assert((a + part).subrange(a.len() as int, a.len() as int + part.len()) =~= part);
    assert(stands_at(a + part, part, a.len() as int));
}

proof fn lemma_still_mentioned(whole: Text, more: Text, part: Text)
    requires
        mentions(whole, part),
    ensures
        mentions(whole + more, part),
{
    let i = choose|i: int| stands_at(whole, part, i);
    assert((whole + more).subrange(i, i + part.len()) =~= whole.subrange(i, i + part.len()));
    assert(stands_at(whole + more, part, i));
}

/// The prompt says who is to answer, what they are like, what the job is, and
/// what was said before.
pub proof fn law_prompts_say_who_and_what(npc: Npc, m: MissionModel, chat: Seq<(Text, Text)>)
    ensures
        mentions(prompt(npc, m, chat), npc.name@),
        mentions(prompt(npc, m, chat), npc.role@),
        mentions(prompt(npc, m, chat), npc.persona@),
        mentions(prompt(npc, m, chat), job_words(m)),
        mentions(prompt(npc, m, chat), history_words(chat, npc.name@)),
{
    let tail = " in one or two sentences, in period voice, words only. Answer the actual question; \
           never repeat an earlier line."@;
    let name = npc.name@;
    let role = npc.role@;
    let persona = npc.persona@;
    let job = job_words(m);
    let talk = history_words(chat, name);
    let x0 = WORLD_BIBLE@ + "\n\nYOU ARE: "@;
    let x1 = x0 + name + ", "@;
    let x2 = x1 + role + ". "@;
    let x3 = x2 + persona + "\n\n"@;
    let x4 = x3 + job;
    let x5 = x4 + talk;
    let x6 = x5 + "\n\nReply as "@;
    let x7 = x6 + name;
    assert(prompt(npc, m, chat) == x7 + tail);
    lemma_mentioned_last(x6, name);
    lemma_still_mentioned(x7, tail, name);
    lemma_mentioned_last(x1, role);
    lemma_still_mentioned(x1 + role, ". "@, role);
    lemma_still_mentioned(x2, persona, role);
    lemma_still_mentioned(x2 + persona, "\n\n"@, role);
    lemma_mentioned_last(x2, persona);
    lemma_still_mentioned(x2 + persona, "\n\n"@, persona);
    lemma_behind_the_card(x3, job, talk, name, tail, role);
    lemma_behind_the_card(x3, job, talk, name, tail, persona);
    lemma_mentioned_last(x3, job);
    lemma_still_mentioned(x4, talk, job);
    lemma_mentioned_last(x4, talk);
    lemma_behind_the_talk(x5, name, tail, job);
    lemma_behind_the_talk(x5, name, tail, talk);
}

proof fn lemma_behind_the_talk(x: Text, name: Text, tail: Text, part: Text)
    requires
        mentions(x, part),
    ensures
        mentions(x + "\n\nReply as "@ + name + tail, part),
{
    lemma_still_mentioned(x, "\n\nReply as "@, part);
    lemma_still_mentioned(x + "\n\nReply as "@, name, part);
    lemma_still_mentioned(x + "\n\nReply as "@ + name, tail, part);
}

proof fn lemma_behind_the_card(x: Text, job: Text, talk: Text, name: Text, tail: Text, part: Text)
    requires
        mentions(x, part),
    ensures
        mentions(x + job + talk + "\n\nReply as "@ + name + tail, part),
{
    lemma_still_mentioned(x, job, part);
    lemma_still_mentioned(x + job, talk, part);
    lemma_behind_the_talk(x + job + talk, name, tail, part);
}

/// The words for the job name what is carried, how much of it, across what, to
/// where and for how much, that no form exists where none does, and the state
/// of the truck and the hunt.
pub proof fn law_the_job_is_named(m: MissionModel)
    ensures
        job_words(m) == ("Tonight's job: "@ + m.qty_desc + " of "@ + m.cargo + " across "@
            + m.terrain_name + " to "@ + m.dest_name + ", "@ + money(m.reward_pence)
            + " on delivery"@ + (if m.illicit {
            " (no Form 4B exists for it)"@
        } else {
            ""@
        }) + ". The Bedford's at wear "@ + dec(m.wear) + "/10; heat on Cobb is "@ + dec(m.heat)
            + "/10."@),
{
}

/// An authored line is one of those authored, each in turn as the salt goes up;
/// one who has none says so under their name.
pub proof fn law_authored_lines_go_round(npc: Npc, salt: int)
    requires
        0 <= salt,
    ensures
        npc.barks@.len() > 0 ==> {
            &&& exists|i: int| 0 <= i < npc.barks@.len() && bark_of(npc, salt) == (
            #[trigger] npc.barks@[i])@
            &&& bark_of(npc, salt + npc.barks@.len()) == bark_of(npc, salt)
            &&& (salt < npc.barks@.len() ==> bark_of(npc, salt) == npc.barks@[salt]@)
        },
        npc.barks@.len() == 0 ==> bark_of(npc, salt) == npc.name@
            + " says nothing you could put on a form."@,
{
    if npc.barks@.len() > 0 {
        let n = npc.barks@.len() as int;
        vstd::arithmetic::div_mod::lemma_mod_bound(salt, n);
        vstd::arithmetic::div_mod::lemma_mod_add_multiples_vanish(salt, n);
        assert((n + salt) % n == salt % n);
        assert(bark_of(npc, salt) == npc.barks@[salt % n]@);
        if salt < n {
            vstd::arithmetic::div_mod::lemma_small_mod(salt as nat, n as nat);
        }
    }
}

/// A remark is worth an answer exactly where it says something and its encoding
/// is at most four hundred bytes; it goes to the one named, and to the fixer of
/// the run in hand where nobody is.
pub proof fn law_remarks_are_heard(said: Text, npc: Text, m: Mission)
    ensures
        speakable(said) <==> said.len() > 0 && vstd::utf8::encode_utf8(said).len() < 401,
        npc.len() > 0 ==> addressee(npc, Some(&m)) == npc && addressee(npc, None) == npc,
        npc.len() == 0 ==> addressee(npc, Some(&m)) == m.fixer@ && addressee(npc, None).len() == 0,
{
}

// ------------------------------------------------------------------ credentials

/// Where a token is set, exactly one set of credentials is let through, and
/// where none is, or an empty one, all are.
pub proof fn law_one_key_for_the_door(token: Text, supplied: Option<Text>)
    ensures
        let_through(None, supplied),
        token.len() == 0 ==> let_through(Some(token), supplied),
        token.len() > 0 ==> (let_through(Some(token), supplied) <==> supplied is Some
            && supplied->0 == "Basic "@ + base64_of("cobb:"@ + token)),
{
}

// ------------------------------------------------------------------- migrations

/// A migration is still to be run exactly where it takes the database beyond its
/// version, and those that are come in order.
pub proof fn law_what_is_beyond_is_pending(version: int, count: nat, i: int)
    ensures
        pending(version, count).contains(i) <==> 0 <= i < count && version < i + 1,
        forall|a: int, b: int|
            0 <= a < b < pending(version, count).len() ==> #[trigger] pending(version, count)[a]
                < #[trigger] pending(version, count)[b],
{
    let p = pending(version, count);
    if 0 <= i < count && version < i + 1 {
        let first = if version < 0 {
            0
        } else {
            version
        };
        assert(p[i - first] == i);
    }
}

/// Each migration takes the database on by one version, and all that are needed
/// take it to the number of those there are.
pub proof fn law_migrations_count_up(version: int, count: nat, done: int)
    requires
        0 <= version,
        0 < done <= pending(version, count).len(),
    ensures
        version_behind(version, count, done) == version + done,
        version_behind(version, count, 0) == version,
        version_behind(version, count, pending(version, count).len() as int) == count,
        version_after(done) == done + 1,
{
}

/// What answers differ by: the heat on the run and the length of the remark.
pub proof fn law_salt_is_heat_and_length(m: MissionModel, text: &str, more: int)
    ensures
        salt_of(m, text) == m.heat + text.spec_bytes().len(),
        salt_of(MissionModel { heat: m.heat + more, ..m }, text) == salt_of(m, text) + more,
{
}

/// Where a session starts: with no run and nothing said.
pub proof fn law_sessions_start_empty()
    ensures
        start_screen().mission is None,
        start_screen().chat.len() == 0,
{
}

/// A remark is to the first who has the id, and to nobody exactly where nobody
/// has it.
pub proof fn law_who_is_spoken_to(npcs: Seq<Npc>, id: Text, k: int)
    ensures
        npc_at(npcs, id, k) ==> 0 <= k < npcs.len() && npcs[k].id@ == id,
        0 <= k < npcs.len() && npcs[k].id@ == id && (forall|j: int|
            0 <= j < k ==> (#[trigger] npcs[j]).id@ != id) <==> npc_at(npcs, id, k),
        nobody(npcs, id) && 0 <= k < npcs.len() ==> npcs[k].id@ != id,
        !nobody(npcs, id) ==> exists|i: int|
            0 <= i < npcs.len() && (#[trigger] npcs[i]).id@ == id,
        nobody(npcs, id) <==> !is_npc(npcs, id),
{
}

/// How a prompt is put together: the setting, who is to speak and what they are
/// like, the job, the talk so far, and how to answer, in that order.
pub proof fn law_prompts_set_the_scene(npc: Npc, m: MissionModel, chat: Seq<(Text, Text)>)
    ensures
        prompt(npc, m, chat) ==
            "SETTING: Avalon — a 1930s-flavoured English district after a quiet collapse of \
central authority. Market towns run themselves through committees, guilds and \
militias. The Collective Force runs barriers and stamps forms; Sal Carver \
'maintains' roads for tolls; Pulver's lot run rival trucks. Fuel is scarce, \
paperwork is sacred, nothing is quite legal. COBB is a haulier who runs cargo \
in a battered Bedford TK, one job at a time.\n\
VOICE: dry English understatement, 1930s period. Bureaucratic comedy played \
straight. No modern slang, no Americanisms, no melodrama. Short sentences.\n\
HARD RULES: never invent place names, prices, or people not given to you. \
Speak only the character's words — no narration, no stage directions."@
            + "\n\nYOU ARE: "@ + npc.name@ + ", "@ + npc.role@ + ". "@ + npc.persona@ + "\n\n"@
            + job_words(m) + history_words(chat, npc.name@) + "\n\nReply as "@ + npc.name@
            + " in one or two sentences, in period voice, words only. Answer the actual question; never repeat an earlier line."@,
{
}

} // verus!
