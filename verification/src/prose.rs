//! The fixed prose of the road.

use vstd::prelude::*;

verus! {

// ------------------------------------------------------------------ briefing

pub const NO_FORM: &'static str = "No Form 4B exists for this load. That is rather the point.";

pub const TOLD_ENOUGH: &'static str = "He's told you what he'll tell you.";

pub const BRIMMED: &'static str = "She's brimmed.";

pub const CANT_COVER: &'static str = "You can't cover it.";

pub const ROAD_MOOR: &'static str =
    "Stay off the skyline where you can. The spotters have nothing to do but watch.";

pub const ROAD_FEN: &'static str =
    "Mind the causeways. The water's been at them and the potholes bite axles.";

pub const ROAD_FOREST: &'static str =
    "Pulver's lot work the bends. If a Leyland sits on your tail, it means it.";

pub const ROAD_COAST: &'static str =
    "There's a cutter off the headland counting lights. Don't give them an even number.";

pub const ROAD_PASS: &'static str =
    "Nurse her up the grades. A boiled engine on the pass is a long cold wait.";

pub const ROAD_ANY: &'static str = "Watch yourself out there.";

pub const WHO_NOBODY: &'static str = "Nobody's named, which means everybody.";

pub const WHO_SOMEBODY: &'static str =
    "Somebody's been asking after the truck. You know how that goes.";

// ------------------------------------------------------------------ the road

pub const EMPTY_ROAD: &'static str = "The road runs on, empty and without incident, which out here \
     counts as a mercy.";

pub const INDIFFERENT: &'static str = "The road continues, indifferent.";

pub const NOT_WELL: &'static str = "It does not go well.";

pub const STRANDED_LINE: &'static str =
    "The needle sits on the pin and the road sits empty. No fuel, no \
     fund, no farm in sight.";

// --------------------------------------------------------------- the failures

pub const CAUGHT_LINE: &'static str =
    "The block comes out of nowhere and everywhere at once — they have had \
     long enough to arrange it. Hands on the bonnet. The sheeting comes off.";

pub const BROKEN_LINE: &'static str =
    "Something vital lets go with a noise like a dropped anvil, and the \
     Bedford coasts to a stop that has the air of being permanent.";

pub const BROKEN_COMPANY: &'static str = "By the time help comes, so has everyone else.";

pub const CARGO_LINE: &'static str =
    "Whatever was under the sheeting is under it no longer. A delivery of \
     fresh air pays the same as the air.";

// -------------------------------------------------------------------- the drop

pub const DROP_ILLICIT: &'static str =
    "Nobody asks what's under the sheeting, which is its own kind of manners.";

pub const DROP_LICENSED: &'static str =
    "The manifest is read aloud, slowly, as if it were scripture.";

// ------------------------------------------------------------------ epitaphs

pub const EPITAPH_GATE: &'static str =
    "You left a Collective pole in splinters. They'll remember the plate.";

pub const EPITAPH_BRIBE: &'static str = "A cash box on the road knows your face now.";

pub const EPITAPH_HELPED: &'static str =
    "A seed merchant owes you a kindness. It may even be collected.";

pub const EPITAPH_SALVAGE: &'static str =
    "Forty unprovenanced tins rode home under the sheeting.";

pub const EPITAPH_AMBUSH: &'static str =
    "Somebody planned an evening around stopping you, and didn't.";

pub const EPITAPH_REFUSED: &'static str =
    "You told Carver's men no, to their faces. Word gets about.";

pub const EPITAPH_PAID: &'static str = "Carver's notebook has a tick by your name.";

// --------------------------------------------------------------- the inquiry

pub const SUMMONS: &'static str =
    "It arrives before dawn, under the wiper blade like a parking notice: \
     Form 7C, Petition for Determination of Fault, your name typed with \
     two fingers and great conviction. The Joint Committee requests and \
     requires your attendance at the Wychford corn exchange, today, in \
     the matter described overleaf.";

pub const BRIEF: &'static str =
    "Trestle tables in a horseshoe, a jug of water nobody will touch, and \
     a panel of three: a Collective captain, a Guild alderman, and Mr. \
     Finch, who has brought his own stamps. You are handed the dossier — \
     a carbon so faint it is less a document than a rumour of one.";

pub const BRIEF_RECORD: &'static str =
    "Their accounts will go into the record. The record, Finch observes, \
     is the only thing in the room that cannot be wrong.";

pub const PANEL_WAITS: &'static str = "The panel waits. The stenographer flexes her fingers.";

pub const ON_RECORD: &'static str = "Their account is on the record.";

pub const ALREADY_PUT: &'static str = "Already put to the panel.";

pub const HEARSAY: &'static str =
    "Pressed on how they come to know it, the witness \
     allows that they had it from somebody who had it \
     from somebody. The stenographer records this as \
     'directly'.";

pub const EYEWITNESS: &'static str = "The witness was there, and looks sorry for it.";

pub const NEED_ONE: &'static str = "You'd need an established contradiction to hang it on.";

pub const NEED_TWO: &'static str =
    "The record holds together too well. (Two contradictions needed.)";

pub const CONFERS: &'static str =
    "The panel confers in the manner of men agreeing about something \
     they have not discussed. Finch uncaps a stamp. The room arrives \
     at the part it was always going to arrive at.";

pub const RECORD_AGREES: &'static str =
    " to the letter. The panel looks at you as at a man who has \
     wasted a stamp.";

pub const FINE_CLOSED: &'static str =
    "The matter is closed, the file is opened, and both will \
     outlive everyone in this room.";

pub const FRAMED: &'static str =
    "FINDING: fault determined against persons unknown, believed \
     to be drivers in the employ of one Pulver. A warrant is \
     typed. Somewhere on the night roads, a young man in a scarf \
     has acquired a paperwork problem.";

pub const FRAMED_AFTER: &'static str =
    "You walk out lighter. The lightness has a price that hasn't \
     been named yet.";

pub const DISMISSED: &'static str =
    "FINDING: dismissed for want of evidence. Finch pronounces \
     the words like a eulogy for the record's good name. The \
     Collective captain shakes your hand, once, as if testing \
     a gate for soundness.";

pub const DISMISSED_AFTER: &'static str =
    "You are, officially, a man about whom nothing can be proved. \
     There are worse reputations on these roads.";

pub const EMPTIES: &'static str =
    "The corn exchange empties. Wychford pretends it wasn't listening.";

} // verus!
