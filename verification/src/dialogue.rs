//! Talking to the fixer. What is said is cosmetic: nothing here changes a run.
//! If the model is down, authored lines ship instead.

use vstd::prelude::*;
use vstd::string::*;
use vstd::utf8::*;

use crate::content::{ContentDb, Npc};
use crate::mission::{fmt_pence, money, Mission, MissionModel};
use crate::text::{dec, decimal_i64, same_text, trim_text, trimmed, Text};

verus! {

pub const WORLD_BIBLE: &'static str =
    "SETTING: Avalon — a 1930s-flavoured English district after a quiet collapse of \
central authority. Market towns run themselves through committees, guilds and \
militias. The Collective Force runs barriers and stamps forms; Sal Carver \
'maintains' roads for tolls; Pulver's lot run rival trucks. Fuel is scarce, \
paperwork is sacred, nothing is quite legal. COBB is a haulier who runs cargo \
in a battered Bedford TK, one job at a time.\n\
VOICE: dry English understatement, 1930s period. Bureaucratic comedy played \
straight. No modern slang, no Americanisms, no melodrama. Short sentences.\n\
HARD RULES: never invent place names, prices, or people not given to you. \
Speak only the character's words — no narration, no stage directions.";

/// How many exchanges a chat keeps.
pub const CHAT_KEPT: usize = 8;

/// How many exchanges the prompt quotes.
pub const CHAT_QUOTED: usize = 3;

// --------------------------------------------------------------------- prompts

/// An exchange: what Cobb said, what was answered.
pub open spec fn exchange_view(e: (String, String)) -> (Text, Text) {
    (e.0@, e.1@)
}

/// The exchanges of a chat.
pub open spec fn chat_view(chat: Seq<(String, String)>) -> Seq<(Text, Text)> {
    chat.map_values(|e: (String, String)| exchange_view(e))
}

/// The job, as the prompt puts it.
pub open spec fn job_words(m: MissionModel) -> Text {
    "Tonight's job: "@ + m.qty_desc + " of "@ + m.cargo + " across "@ + m.terrain_name + " to "@
        + m.dest_name + ", "@ + money(m.reward_pence) + " on delivery"@ + (if m.illicit {
        " (no Form 4B exists for it)"@
    } else {
        ""@
    }) + ". The Bedford's at wear "@ + dec(m.wear) + "/10; heat on Cobb is "@ + dec(m.heat)
        + "/10."@
}

/// The exchanges from position `from` on, up to `n`, as the prompt quotes them.
pub open spec fn quoted(chat: Seq<(Text, Text)>, name: Text, from: int, n: int) -> Text
    decreases n - from,
{
    if n <= from {
        Seq::empty()
    } else {
        quoted(chat, name, from, n - 1) + "Cobb: "@ + chat[n - 1].0 + "\n"@ + name + ": "@ + chat[n
            - 1].1 + "\n"@
    }
}

/// The conversation so far, as the prompt puts it: the last three exchanges.
pub open spec fn history_words(chat: Seq<(Text, Text)>, name: Text) -> Text {
    if chat.len() == 0 {
        ""@
    } else {
        let from = if chat.len() > CHAT_QUOTED {
            chat.len() - CHAT_QUOTED
        } else {
            0
        };
        "\nThe conversation so far:\n"@ + quoted(chat, name, from, chat.len() as int)
    }
}

/// The whole prompt.
pub open spec fn prompt(npc: Npc, m: MissionModel, chat: Seq<(Text, Text)>) -> Text {
    WORLD_BIBLE@ + "\n\nYOU ARE: "@ + npc.name@ + ", "@ + npc.role@ + ". "@ + npc.persona@
        + "\n\n"@ + job_words(m) + history_words(chat, npc.name@) + "\n\nReply as "@ + npc.name@
        + " in one or two sentences, in period voice, words only. Answer the actual question; \
           never repeat an earlier line."@
}

fn describe_job(m: &Mission) -> (r: String)
    requires
        m.reward_pence != i64::MIN,
    ensures
        r@ == job_words(m@),
{
    let form = if m.illicit {
        " (no Form 4B exists for it)"
    } else {
        ""
    };
    "Tonight's job: ".to_string().concat(m.qty_desc.as_str()).concat(" of ").concat(
        m.cargo.as_str(),
    ).concat(" across ").concat(m.terrain_name.as_str()).concat(" to ").concat(
        m.dest_name.as_str(),
    ).concat(", ").concat(fmt_pence(m.reward_pence).as_str()).concat(" on delivery").concat(
        form,
    ).concat(". The Bedford's at wear ").concat(decimal_i64(m.wear).as_str()).concat(
        "/10; heat on Cobb is ",
    ).concat(decimal_i64(m.heat).as_str()).concat("/10.")
}

fn describe_history(chat: &Vec<(String, String)>, name: &str) -> (r: String)
    ensures
        r@ == history_words(chat_view(chat@), name@),
{
    let n: usize = chat.len();
    if n == 0 {
        return "".to_string();
    }
    let from: usize = if n > CHAT_QUOTED {
        n - CHAT_QUOTED
    } else {
        0
    };
    let ghost all = chat_view(chat@);
    let mut lines = String::new();
    let mut i: usize = from;
    while i < n
        invariant
            n == chat@.len(),
            from <= i <= n,
            all == chat_view(chat@),
            lines@ == quoted(all, name@, from as int, i as int),
        decreases n - i,
    {
        assert(all[i as int] == exchange_view(chat@[i as int]));
        lines = lines.concat("Cobb: ").concat(chat[i].0.as_str()).concat("\n").concat(name).concat(
            ": ",
        ).concat(chat[i].1.as_str()).concat("\n");
        i += 1;
    }
    "\nThe conversation so far:\n".to_string().concat(lines.as_str())
}

/// The prompt for an answer in character.
pub fn dialogue_system(npc: &Npc, m: &Mission, chat: &Vec<(String, String)>) -> (r: String)
    requires
        m.reward_pence != i64::MIN,
    ensures
        r@ == prompt(*npc, m@, chat_view(chat@)),
{
    WORLD_BIBLE.to_string().concat("\n\nYOU ARE: ").concat(npc.name.as_str()).concat(", ").concat(
        npc.role.as_str(),
    ).concat(". ").concat(npc.persona.as_str()).concat("\n\n").concat(
        describe_job(m).as_str(),
    ).concat(describe_history(chat, npc.name.as_str()).as_str()).concat("\n\nReply as ").concat(
        npc.name.as_str(),
    ).concat(
        " in one or two sentences, in period voice, words only. Answer the actual question; \
           never repeat an earlier line.",
    )
}

// ----------------------------------------------------------------------- barks

/// An authored line.
pub open spec fn bark_of(npc: Npc, salt: int) -> Text {
    if npc.barks@.len() == 0 {
        npc.name@ + " says nothing you could put on a form."@
    } else {
        npc.barks@[salt % (npc.barks@.len() as int)]@
    }
}

/// An authored line, picked by `salt`.
pub fn bark(npc: &Npc, salt: usize) -> (r: String)
    ensures
        r@ == bark_of(*npc, salt as int),
{
    if npc.barks.len() == 0 {
        npc.name.clone().concat(" says nothing you could put on a form.")
    } else {
        npc.barks[salt % npc.barks.len()].clone()
    }
}

// --------------------------------------------------------------------- replies

/// What there is to do about a remark.
#[derive(Debug, PartialEq)]
pub enum ReplyPlan {
    /// Nobody can answer; this is said instead.
    Refuse { line: String },
    /// Ask the model with this prompt. Whoever is at `npc` in the content
    /// answers; `salt` picks an authored line if the model is silent.
    Ask { npc: usize, system: String, salt: usize },
}

/// The position of the first with the id `id`.
pub open spec fn npc_at(npcs: Seq<Npc>, id: Text, k: int) -> bool {
    &&& 0 <= k < npcs.len()
    &&& npcs[k].id@ == id
    &&& forall|j: int| 0 <= j < k ==> (#[trigger] npcs[j]).id@ != id
}

/// Whether nobody has the id `id`.
pub open spec fn nobody(npcs: Seq<Npc>, id: Text) -> bool {
    forall|j: int| 0 <= j < npcs.len() ==> (#[trigger] npcs[j]).id@ != id
}

/// The salt of a remark: the heat and the length of the remark in bytes.
pub open spec fn salt_of(m: MissionModel, text: &str) -> int {
    m.heat + text.spec_bytes().len()
}

/// Decides what to do about a remark of the player's to the one with the id
/// `npc_id`.
pub fn plan_reply(
    content: &ContentDb,
    npc_id: &str,
    mission: Option<&Mission>,
    chat: &Vec<(String, String)>,
    player_text: &str,
) -> (r: ReplyPlan)
    requires
        mission matches Some(m) ==> m.reward_pence != i64::MIN && m.heat >= 0 && salt_of(
            m@,
            player_text,
        ) <= usize::MAX,
    ensures
        nobody(content.npcs@, npc_id@) ==> (r matches ReplyPlan::Refuse { line } && line@
            == "Nobody of that name works this depot."@),
        !nobody(content.npcs@, npc_id@) && mission is None ==> (r matches ReplyPlan::Refuse { line }
            && line@ == "The depot's empty. Start a run first."@),
        !nobody(content.npcs@, npc_id@) ==> (mission matches Some(m) ==> (
        r matches ReplyPlan::Ask { npc, system, salt } && npc_at(
            content.npcs@,
            npc_id@,
            npc as int,
        ) && system@ == prompt(content.npcs@[npc as int], m@, chat_view(chat@)) && salt == salt_of(
            m@,
            player_text,
        ))),
{
    let mut i: usize = 0;
    while i < content.npcs.len()
        invariant
            i <= content.npcs@.len(),
            forall|j: int| 0 <= j < i ==> (#[trigger] content.npcs@[j]).id@ != npc_id@,
            mission matches Some(m) ==> m.reward_pence != i64::MIN && m.heat >= 0 && salt_of(
                m@,
                player_text,
            ) <= usize::MAX,
        decreases content.npcs@.len() - i,
    {
        if same_text(content.npcs[i].id.as_str(), npc_id) {
            assert(content.npcs@[i as int].id@ == npc_id@);
            assert(npc_at(content.npcs@, npc_id@, i as int));
            return match mission {
                None => ReplyPlan::Refuse {
                    line: "The depot's empty. Start a run first.".to_string(),
                },
                Some(m) => ReplyPlan::Ask {
                    npc: i,
                    system: dialogue_system(&content.npcs[i], m, chat),
                    salt: m.heat as usize + player_text.len(),
                },
            };
        }
        i += 1;
    }
    ReplyPlan::Refuse { line: "Nobody of that name works this depot.".to_string() }
}

/// The answer: the model's line if it gave one, else an authored line, with
/// whether it is the latter.
pub fn conclude_reply(npc: &Npc, salt: usize, said: Option<String>) -> (r: (String, bool))
    ensures
        match said {
            Some(text) => r.0 == text && !r.1,
            None => r.0@ == bark_of(*npc, salt as int) && r.1,
        },
{
    match said {
        Some(text) => (text, false),
        None => (bark(npc, salt), true),
    }
}

/// A chat with an exchange added: only the last eight are kept.
pub open spec fn chat_with(chat: Seq<(Text, Text)>, you: Text, them: Text) -> Seq<(Text, Text)> {
    let all = chat.push((you, them));
    if all.len() > CHAT_KEPT {
        all.skip(all.len() - CHAT_KEPT)
    } else {
        all
    }
}

/// Adds an exchange to a chat and drops what is too old.
pub fn remember_exchange(chat: &mut Vec<(String, String)>, you: &str, them: &str)
    ensures
        chat_view(final(chat)@) == chat_with(chat_view(old(chat)@), you@, them@),
{
    let ghost before = chat_view(chat@);
    chat.push((you.to_string(), them.to_string()));
    let ghost all = chat_view(chat@);
    assert(all =~= before.push((you@, them@)));
    let ghost mut dropped: int = 0;
    assert(all.skip(0) =~= all);
    while chat.len() > CHAT_KEPT
        invariant
            0 <= dropped <= all.len(),
            chat_view(chat@) == all.skip(dropped),
            dropped > 0 ==> chat@.len() >= CHAT_KEPT,
        decreases chat@.len(),
    {
        assert(chat_view(chat@).len() == chat@.len());
        let ghost long = chat@;
        chat.remove(0);
        assert(chat_view(chat@) =~= chat_view(long).skip(1)) by {
            assert(chat@ =~= long.skip(1));
        }
        proof {
            dropped = dropped + 1;
        }
        assert(chat_view(chat@) =~= all.skip(dropped));
    }
    assert(chat_view(chat@).len() == chat@.len());
}

// --------------------------------------------------------------------- remarks

/// Whether a remark, trimmed, is worth an answer: it says something and is at
/// most 400 bytes long.
pub open spec fn speakable(said: Text) -> bool {
    said.len() > 0 && encode_utf8(said).len() <= 400
}

/// Whom a remark is to: the one named, else the fixer of the run in hand.
pub open spec fn addressee(npc: Text, mission: Option<&Mission>) -> Text {
    if npc.len() > 0 {
        npc
    } else {
        match mission {
            Some(m) => m@.fixer,
            None => Seq::empty(),
        }
    }
}

/// Takes a remark as it came in: the trimmed text, and whom it is to. A remark
/// to nobody in particular goes to the fixer of the run in hand. `None` for a
/// remark that is empty or too long.
pub fn take_remark(text: &str, npc: &str, mission: Option<&Mission>) -> (r: Option<
    (String, String),
>)
    ensures
        match r {
            Some((whom, said)) => speakable(trimmed(text@)) && said@ == trimmed(text@) && whom@
                == addressee(npc@, mission),
            None => !speakable(trimmed(text@)),
        },
{
    let said = trim_text(text);
    if said.as_str().is_empty() || said.as_str().as_bytes().len() > 400 {
        return None;
    }
    let whom = if npc.is_empty() {
        match mission {
            Some(m) => m.fixer.clone(),
            None => String::new(),
        }
    } else {
        npc.to_string()
    };
    Some((whom, said))
}

} // verus!
