//! Laws of what is shown and what is told: the words of the depot, the road, the
//! drop and the verdicts.

use vstd::prelude::*;

use crate::content::{Npc, Storylet};
use crate::desk_laws::exchange_words;
use crate::dialogue::{history_words, quoted};
use crate::engine::find_storylet;
use crate::mission::{money, quotient, MissionModel, StageModel};
use crate::play_laws::ruined;
use crate::road::{advanced, epitaph_of, epitaphs, failure, road_advice, stepped, takeable};
use crate::scenes::scene_of;
use crate::text::{dec, Text};

verus! {

// -------------------------------------------------------------------- the depot

/// What the depot shows: the job in full, the country, that there is no form
/// where there is none, and the fixer.
pub proof fn law_the_depot_shows_the_job(m: MissionModel, storylets: Seq<Storylet>)
    requires
        m.stage is Briefing,
    ensures
        ({
            let s = scene_of(m, storylets);
            &&& s.title == "The Job"@
            &&& s.speaker == Some(m.fixer)
            &&& s.body.len() == if m.illicit {
                3nat
            } else {
                2nat
            }
            &&& s.body[0] == "Wychford depot, before light. The job: "@ + m.qty_desc + " of "@
                + m.cargo + " out across "@ + m.terrain_name + ", to "@ + m.dest_name + ". "@
                + money(m.reward_pence) + " on delivery."@
            &&& s.body[1] == m.terrain_flavor
            &&& (m.illicit ==> s.body[2]
                == "No Form 4B exists for this load. That is rather the point."@)
        }),
{
}

/// How the depot words its choices, and why one of them is closed.
pub proof fn law_the_depot_words_its_choices(m: MissionModel, storylets: Seq<Storylet>)
    requires
        m.stage is Briefing,
    ensures
        ({
            let c = scene_of(m, storylets).choices;
            let price = money(12 * m.diesel_price_pence);
            &&& (!m.talked ==> c[0].label == "Ask the fixer about the road"@ && c[0].note is None)
            &&& (m.talked ==> c[0].label == "Press the fixer further"@ && c[0].note == Some(
                "He's told you what he'll tell you."@,
            ))
            &&& (m.fuel_ml >= m.max_fuel_ml ==> c[1].label == "Top up the tank"@ && c[1].note
                == Some("She's brimmed."@))
            &&& (m.fuel_ml < m.max_fuel_ml && m.cash_pence < 12 * m.diesel_price_pence
                ==> c[1].label == "Top up "@ + dec(12) + " L ("@ + price + ")"@ && c[1].note
                == Some("You can't cover it."@))
            &&& (m.fuel_ml < m.max_fuel_ml && m.cash_pence >= 12 * m.diesel_price_pence
                ==> c[1].label == "Top up "@ + dec(12) + " L ("@ + price + ")"@ + " — tank "@ + dec(
                quotient(m.fuel_ml, 1_000),
            ) + " L"@ && c[1].note is None)
            &&& c[2].label == "Set off for "@ + m.dest_name
            &&& c[2].note is None
        }),
{
}

/// What the fixer says of the road, country by country, and of who is about.
pub proof fn law_the_fixer_knows_the_road(m: MissionModel, storylets: Seq<Storylet>)
    requires
        takeable(m, storylets, 0),
        m.stage is Briefing,
    ensures
        ({
            let head = "The fixer, not looking up: \""@;
            let tail = if m.antagonist.len() == 0 {
                "Nobody's named, which means everybody."@
            } else {
                "Somebody's been asking after the truck. You know how that goes."@
            } + "\""@;
            let said = stepped(m, storylets, 0).said;
            &&& said.len() == 1
            &&& (m.terrain == "moor"@ ==> said[0] == head
                + "Stay off the skyline where you can. The spotters have nothing to do but watch."@
                + " "@ + tail)
            &&& (m.terrain == "fen"@ ==> said[0] == head
                + "Mind the causeways. The water's been at them and the potholes bite axles."@
                + " "@ + tail)
            &&& (m.terrain == "forest"@ ==> said[0] == head
                + "Pulver's lot work the bends. If a Leyland sits on your tail, it means it."@
                + " "@ + tail)
            &&& (m.terrain == "coast"@ ==> said[0] == head
                + "There's a cutter off the headland counting lights. Don't give them an even number."@
                + " "@ + tail)
            &&& (m.terrain == "pass"@ ==> said[0] == head
                + "Nurse her up the grades. A boiled engine on the pass is a long cold wait."@
                + " "@ + tail)
            &&& (m.terrain != "moor"@ && m.terrain != "fen"@ && m.terrain != "forest"@ && m.terrain
                != "coast"@ && m.terrain != "pass"@ ==> said[0] == head
                + "Watch yourself out there."@ + " "@ + tail)
        }),
{
    reveal_strlit("moor");
    reveal_strlit("fen");
    reveal_strlit("forest");
    reveal_strlit("coast");
    reveal_strlit("pass");
    assert("moor"@.len() == 4 && "fen"@.len() == 3 && "forest"@.len() == 6 && "coast"@.len() == 5
        && "pass"@.len() == 4);
    assert("moor"@[0] == 'm' && "pass"@[0] == 'p');
    let said = stepped(m, storylets, 0).said[0];
    let who = if m.antagonist.len() == 0 {
        "Nobody's named, which means everybody."@
    } else {
        "Somebody's been asking after the truck. You know how that goes."@
    };
    let advice = road_advice(m.terrain);
    let head = "The fixer, not looking up: \""@;
    assert(head + advice + " "@ + who + "\""@ =~= head + advice + " "@ + (who + "\""@));
}

/// What is told at the pump and on leaving; what the first leg tells comes
/// behind the leaving.
pub proof fn law_the_depot_tells_what_was_done(m: MissionModel, storylets: Seq<Storylet>, idx: int)
    requires
        takeable(m, storylets, idx),
        m.stage is Briefing,
    ensures
        idx == 1 ==> stepped(m, storylets, idx).said == seq![
            dec(12) + " litres in, "@ + money(m.diesel_price_pence)
                + " the litre. The pump counts it out like a creditor."@,
        ],
        idx == 2 ==> stepped(m, storylets, idx).said == seq![
            "The Bedford pulls out of Wychford loaded with "@ + m.qty_desc + " of "@ + m.cargo
                + ", nose set for "@ + m.dest_name + ". The town does not wave."@,
        ] + advanced(m, storylets, 0).said,
{
}

// --------------------------------------------------------------------- the road

/// What a leg tells: of the can, where the tank ran dry; and of the loss, last,
/// where the leg has lost the run. Of any other it tells nothing.
pub proof fn law_legs_tell_what_happened(m: MissionModel, storylets: Seq<Storylet>, idx: int)
    requires
        m.outcome is InProgress,
    ensures
        ({
            let t = advanced(m, storylets, idx);
            let dry = m.fuel_ml <= m.leg_fuel_ml;
            let can =
                "The tank runs dry on the open road. A farm sells you a can at robbery rates ("@
                + money(360) + ")."@;
            let stuck =
                "The needle sits on the pin and the road sits empty. No fuel, no fund, no farm in sight."@;
            &&& (dry && m.cash_pence < 360 ==> t.said == seq![stuck] && t.m.outcome->Lost_lines
                == seq![stuck, m.qty_desc + " of "@ + m.cargo + " go nowhere tonight."@])
            &&& (dry && m.cash_pence >= 360 && !ruined(t.m) ==> t.said == seq![can])
            &&& (dry && m.cash_pence >= 360 && ruined(t.m) ==> t.said == seq![
                can,
                t.m.outcome->Lost_lines[0],
            ])
            &&& (!dry && !ruined(t.m) ==> t.said.len() == 0)
            &&& (!dry && ruined(t.m) ==> t.said == seq![t.m.outcome->Lost_lines[0]])
            &&& (!(dry && m.cash_pence < 360) && ruined(t.m) ==> Some(
                (t.m.outcome->reason, t.m.outcome->Lost_lines),
            ) == failure(t.m))
        }),
{
}

/// The lines of each loss.
pub proof fn law_losses_have_their_lines(m: MissionModel)
    ensures
        m.heat >= 10 ==> failure(m) == Some(
            (
                "caught"@,
                seq![
                    "The block comes out of nowhere and everywhere at once — they have had long enough to arrange it. Hands on the bonnet. The sheeting comes off."@,
                    m.qty_desc + " of "@ + m.cargo + " change owner, and not to your profit."@,
                ],
            ),
        ),
        m.heat < 10 && m.wear >= 10 ==> failure(m) == Some(
            (
                "broken down"@,
                seq![
                    "Something vital lets go with a noise like a dropped anvil, and the Bedford coasts to a stop that has the air of being permanent."@,
                    "By the time help comes, so has everyone else."@,
                ],
            ),
        ),
        m.heat < 10 && m.wear < 10 && m.cargo_lost ==> failure(m) == Some(
            (
                "cargo gone"@,
                seq![
                    "Whatever was under the sheeting is under it no longer. A delivery of fresh air pays the same as the air."@,
                ],
            ),
        ),
{
}

/// What the road shows where no storylet is to be faced, and where one is that a
/// choice cannot be paid for.
pub proof fn law_the_road_shows_its_beats(m: MissionModel, storylets: Seq<Storylet>, i: int)
    requires
        m.stage is Beat,
    ensures
        ({
            let b = m.stage->Beat_idx;
            let s = scene_of(m, storylets);
            &&& (!(0 <= b < m.beats.len()) || find_storylet(storylets, m.beats[b]) is None ==> {
                &&& s.title == "On "@ + m.terrain_name
                &&& s.body == seq![
                    "The road runs on, empty and without incident, which out here counts as a mercy."@,
                ]
                &&& s.choices.len() == 1
                &&& s.choices[0].label == "Drive on"@
                &&& s.choices[0].enabled
                &&& s.choices[0].note is None
                &&& s.speaker is None
            })
            &&& (0 <= b < m.beats.len() && find_storylet(storylets, m.beats[b]) is Some && 0 <= i
                < s.choices.len() && !s.choices[i].enabled ==> s.choices[i].note == Some(
                "You can't cover it."@,
            ))
        }),
{
}

/// A choice that nothing stands behind leaves the run where it was, and the road
/// goes on.
pub proof fn law_the_road_is_indifferent(m: MissionModel, storylets: Seq<Storylet>)
    requires
        m.stage is Beat,
        m.outcome is InProgress,
        !ruined(m),
        !(0 <= m.stage->Beat_idx < m.beats.len()) || find_storylet(
            storylets,
            m.beats[m.stage->Beat_idx],
        ) is None,
    ensures
        ({
            let t = stepped(m, storylets, 0);
            let text = "The road continues, indifferent."@;
            &&& t.said == seq![text]
            &&& t.m == (MissionModel {
                stage: StageModel::Outcome { idx: m.stage->Beat_idx, text },
                ..m
            })
        }),
{
    assert(takeable(m, storylets, 0));
}

// ------------------------------------------------------------- drop and verdicts

/// What is shown behind a beat, at the drop and at the end.
pub proof fn law_the_ends_of_the_road(m: MissionModel, storylets: Seq<Storylet>)
    ensures
        ({
            let s = scene_of(m, storylets);
            &&& (m.stage is Outcome ==> s.title == "On "@ + m.terrain_name && s.choices[0].label
                == "Drive on"@)
            &&& (m.stage is Arrival ==> {
                &&& s.title == m.dest_name + " — the drop"@
                &&& s.body == seq![
                    "The yard at "@ + m.dest_name + " is lamp-lit and businesslike. "@ + (
                    if m.illicit {
                        "Nobody asks what's under the sheeting, which is its own kind of manners."@
                    } else {
                        "The manifest is read aloud, slowly, as if it were scripture."@
                    }),
                ]
                &&& s.choices[0].label == "Hand over the cargo"@
            })
            &&& (m.stage is Over ==> s.choices[0].label == "Begin a new run"@)
            &&& (m.stage is Over && m.outcome is InProgress ==> s.title == "—"@ && s.body.len()
                == 0)
            &&& (!(m.stage is Briefing) && !(m.stage is Beat) ==> s.choices[0].note is None)
        }),
{
}

/// What is told of a delivery.
pub proof fn law_deliveries_are_counted_twice(m: MissionModel, storylets: Seq<Storylet>)
    requires
        m.stage is Arrival,
        m.outcome is InProgress,
        !ruined(m),
    ensures
        stepped(m, storylets, 0).said == seq![
            "Counted twice, paid once: "@ + money(m.reward_pence) + "."@,
        ],
{
    assert(takeable(m, storylets, 0));
}

/// What is said of the deeds of a run is said deed by deed, in their order.
pub proof fn law_deeds_are_told_in_order(a: Seq<Text>, b: Seq<Text>, flag: Text)
    ensures
        epitaphs(Seq::empty()) == Seq::<Text>::empty(),
        epitaph_of(flag) is None ==> epitaphs(seq![flag]) == Seq::<Text>::empty(),
        epitaph_of(flag) is Some ==> epitaphs(seq![flag]) == seq![epitaph_of(flag)->0],
        epitaphs(a + b) == epitaphs(a) + epitaphs(b),
    decreases b.len(),
{
    assert(seq![flag].drop_last() =~= Seq::<Text>::empty());
    if b.len() > 0 {
        law_deeds_are_told_in_order(a, b.drop_last(), flag);
        assert((a + b).drop_last() =~= a + b.drop_last());
    } else {
        assert(a + b =~= a);
    }
}

// ------------------------------------------------------------------------- talk

/// What a prompt quotes of a short talk: nothing where nothing was said, and all
/// of it, in order, where it was one exchange or two.
pub proof fn law_short_talk_is_quoted(chat: Seq<(Text, Text)>, npc: Npc)
    ensures
        chat.len() == 0 ==> history_words(chat, npc.name@).len() == 0,
        chat.len() == 1 ==> history_words(chat, npc.name@) == "\nThe conversation so far:\n"@
            + exchange_words(chat[0], npc.name@),
        chat.len() == 2 ==> history_words(chat, npc.name@) == "\nThe conversation so far:\n"@ + (
        exchange_words(chat[0], npc.name@) + exchange_words(chat[1], npc.name@)),
{
    reveal_with_fuel(quoted, 4);
    let name = npc.name@;
    reveal_strlit("");
    if chat.len() == 1 {
        assert(quoted(chat, name, 0, 1) =~= exchange_words(chat[0], name));
    }
    if chat.len() == 2 {
        assert(quoted(chat, name, 0, 2) =~= exchange_words(chat[0], name)
            + exchange_words(chat[1], name));
    }
}

} // verus!
