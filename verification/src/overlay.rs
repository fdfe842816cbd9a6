//! The overlay's decisions on the names and timers it reads each frame: which
//! engine events it intercepts, which actors it marks and in which colour, and
//! when the fishing automation casts and recasts.
use vstd::prelude::*;
use crate::text::{contains_text, text_contains, text_equals};
use crate::ue::engine::Color;

verus! {

/// The HUD draw event, after which the overlay draws.
pub open spec fn draw_hud_event() -> Seq<char> {
    "Function Engine.HUD.ReceiveDrawHUD"@
}

/// The event that starts a fishing attempt.
pub open spec fn start_fishing_event() -> Seq<char> {
    "Function Palia.FishingComponent.RpcClient_StartFishingAt"@
}

/// The engine is ready once the world pointer is set and the object array
/// holds at least one element.
pub fn engine_ready(world: u64, object_count: u32) -> (r: bool)
    ensures
        r == (world != 0 && object_count >= 1),
{
    !(world == 0 || object_count < 1)
}

/// Whether `function_name` is the HUD draw event.
pub fn is_draw_hud_event(function_name: &str) -> (r: bool)
    ensures
        r == (function_name@ == draw_hud_event()),
{
    text_equals(function_name, "Function Engine.HUD.ReceiveDrawHUD")
}

/// Whether `function_name` is the event that starts a fishing attempt.
pub fn is_start_fishing_event(function_name: &str) -> (r: bool)
    ensures
        r == (function_name@ == start_fishing_event()),
{
    text_equals(function_name, "Function Palia.FishingComponent.RpcClient_StartFishingAt")
}

/// A catch whose configuration name mentions `Fish` is sold; any other is discarded.
pub fn should_sell_catch(fish_name: &str) -> (r: bool)
    ensures
        r == contains_text(fish_name@, "Fish"@),
{
    text_contains(fish_name, "Fish")
}

/// The overlay stays idle while the local controller is the pre-game one.
pub fn is_pregame_controller(class_name: &str) -> (r: bool)
    ensures
        r == contains_text(class_name@, "BP_PregamePlayerController_C"@),
{
    text_contains(class_name, "BP_PregamePlayerController_C")
}

/// Other players' characters are boxed wherever they are.
pub fn is_player_character(actor_name: &str) -> (r: bool)
    ensures
        r == contains_text(actor_name@, "ValeriaCharacter"@),
{
    text_contains(actor_name, "ValeriaCharacter")
}

/// An actor is skipped when its address is null or is the local character's.
pub fn is_skipped_actor(actor: u64, character: u64) -> (r: bool)
    ensures
        r == (actor == 0 || actor == character),
{
    actor == 0 || actor == character
}

/// Whether an actor's name marks it as something worth labelling: trees,
/// bugs, ore, choppable wood, hunting creatures, spiced items, loot.
pub open spec fn is_marked(name: Seq<char>) -> bool {
    ||| contains_text(name, "_Tree"@)
    ||| contains_text(name, "_Bug"@)
    ||| contains_text(name, "_Mining"@)
    ||| contains_text(name, "Choppable"@)
    ||| contains_text(name, "ValeriaHuntingCreature"@)
    ||| contains_text(name, "_Spiced"@)
    ||| contains_text(name, "_Loot"@)
}

/// The colour of a marked actor's label: yellow for ore, else purple for loot,
/// else green for trees, else white.
pub open spec fn label_color(name: Seq<char>) -> Color {
    if contains_text(name, "_Mining"@) {
        Color::Yellow
    } else if contains_text(name, "_Loot"@) {
        Color::Purple
    } else if contains_text(name, "_Tree"@) {
        Color::Green
    } else {
        Color::White
    }
}

/// How an actor is labelled, stated from the markers its name holds: ore is
/// yellow; loot without ore is purple; a tree without loot or ore is green,
/// whatever other markers the name holds; a bug, choppable wood, a hunting
/// creature or a spiced item with none of those three is white; a name with
/// no marker is not labelled.
pub proof fn law_label_colors(name: Seq<char>)
    ensures
            contains_text(name, "_Mining"@) ==> (if is_marked(name) { Some(label_color(name)) } else { None::<Color> }) == Some(Color::Yellow),
            contains_text(name, "_Loot"@) && !contains_text(name, "_Mining"@) ==> (if is_marked(name) { Some(label_color(name)) } else { None::<Color> }) == Some(
                Color::Purple,
            ),
            contains_text(name, "_Tree"@) && !contains_text(name, "_Loot"@) && !contains_text(
                name,
                "_Mining"@,
            ) ==> (if is_marked(name) { Some(label_color(name)) } else { None::<Color> }) == Some(Color::Green),
            (contains_text(name, "_Bug"@) || contains_text(name, "Choppable"@) || contains_text(
                name,
                "ValeriaHuntingCreature"@,
            ) || contains_text(name, "_Spiced"@)) && !contains_text(name, "_Tree"@) && !contains_text(
                name,
                "_Loot"@,
            ) && !contains_text(name, "_Mining"@) ==> (if is_marked(name) { Some(label_color(name)) } else { None::<Color> }) == Some(Color::White),
            !contains_text(name, "_Tree"@) && !contains_text(name, "_Bug"@) && !contains_text(
                name,
                "_Mining"@,
            ) && !contains_text(name, "Choppable"@) && !contains_text(
                name,
                "ValeriaHuntingCreature"@,
            ) && !contains_text(name, "_Spiced"@) && !contains_text(name, "_Loot"@) ==> (if is_marked(name) { Some(label_color(name)) } else { None::<Color> }) is None,
{
}

/// The colour to label an actor with, or `None` when the overlay leaves it unlabelled.
pub fn actor_label_color(actor_name: &str) -> (r: Option<Color>)
    ensures
        r == (if is_marked(actor_name@) {
            Some(label_color(actor_name@))
        } else {
            None::<Color>
        }),
            contains_text(actor_name@, "_Mining"@) ==> r == Some(Color::Yellow),
            contains_text(actor_name@, "_Loot"@) && !contains_text(actor_name@, "_Mining"@) ==> r == Some(
                Color::Purple,
            ),
            contains_text(actor_name@, "_Tree"@) && !contains_text(actor_name@, "_Loot"@) && !contains_text(
                actor_name@,
                "_Mining"@,
            ) ==> r == Some(Color::Green),
            (contains_text(actor_name@, "_Bug"@) || contains_text(actor_name@, "Choppable"@) || contains_text(
                actor_name@,
                "ValeriaHuntingCreature"@,
            ) || contains_text(actor_name@, "_Spiced"@)) && !contains_text(actor_name@, "_Tree"@) && !contains_text(
                actor_name@,
                "_Loot"@,
            ) && !contains_text(actor_name@, "_Mining"@) ==> r == Some(Color::White),
            !contains_text(actor_name@, "_Tree"@) && !contains_text(actor_name@, "_Bug"@) && !contains_text(
                actor_name@,
                "_Mining"@,
            ) && !contains_text(actor_name@, "Choppable"@) && !contains_text(
                actor_name@,
                "ValeriaHuntingCreature"@,
            ) && !contains_text(actor_name@, "_Spiced"@) && !contains_text(actor_name@, "_Loot"@) ==> r is None,
{
    let include_list: [&str; 7] = [
        "_Tree",
        "_Bug",
        "_Mining",
        "Choppable",
        "ValeriaHuntingCreature",
        "_Spiced",
        "_Loot",
    ];
    let mut any = false;
    let mut i: usize = 0;
    while i < 7
        invariant
            i <= 7,
            include_list@ == seq![
                "_Tree",
                "_Bug",
                "_Mining",
                "Choppable",
                "ValeriaHuntingCreature",
                "_Spiced",
                "_Loot",
            ],
            any == exists|j: int| 0 <= j < i && contains_text(actor_name@, #[trigger] include_list@[j]@),
        decreases 7 - i,
    {
        if text_contains(actor_name, include_list[i]) {
            any = true;
        }
        i = i + 1;
    }
    assert(any == is_marked(actor_name@)) by {
        if is_marked(actor_name@) {
            if contains_text(actor_name@, "_Tree"@) {
                assert(contains_text(actor_name@, include_list@[0]@));
            } else if contains_text(actor_name@, "_Bug"@) {
                assert(contains_text(actor_name@, include_list@[1]@));
            } else if contains_text(actor_name@, "_Mining"@) {
                assert(contains_text(actor_name@, include_list@[2]@));
            } else if contains_text(actor_name@, "Choppable"@) {
                assert(contains_text(actor_name@, include_list@[3]@));
            } else if contains_text(actor_name@, "ValeriaHuntingCreature"@) {
                assert(contains_text(actor_name@, include_list@[4]@));
            } else if contains_text(actor_name@, "_Spiced"@) {
                assert(contains_text(actor_name@, include_list@[5]@));
            } else {
                assert(contains_text(actor_name@, include_list@[6]@));
            }
        }
    }
    if !any {
        return None;
    }
    let mut color = Color::White;
    if text_contains(actor_name, "_Tree") {
        color = Color::Green;
    }
    if text_contains(actor_name, "_Loot") {
        color = Color::Purple;
    }
    if text_contains(actor_name, "_Mining") {
        color = Color::Yellow;
    }
    Some(color)
}

/// What the fishing automation does on one frame: whether it runs at all, whether
/// it casts (presses the button and leaves the fishing action), and whether it
/// starts over (re-enters the fishing action, clicks, and restarts its timer).
#[derive(Clone, Copy, Debug, PartialEq, Eq, Structural)]
pub struct FishingStep {
    pub engaged: bool,
    pub cast: bool,
    pub recast: bool,
}

/// Milliseconds after the timer's start before a slack line is cast.
pub const CAST_DELAY_MS: u128 = 500;

/// Milliseconds after the timer's start before the automation starts over.
pub const RECAST_DELAY_MS: u128 = 1700;

/// One frame of the fishing automation, from whether it is switched on and may
/// cast: the frame's step and whether it may cast afterwards.
pub open spec fn fishing_transition(
    active: bool,
    can_fish: bool,
    hacks_present: bool,
    elapsed_ms: u128,
    line_slack: bool,
) -> (FishingStep, bool) {
    if !(active && hacks_present) {
        (FishingStep { engaged: false, cast: false, recast: false }, can_fish)
    } else {
        let cast = can_fish && line_slack && elapsed_ms > CAST_DELAY_MS;
        let recast = elapsed_ms > RECAST_DELAY_MS;
        (
            FishingStep { engaged: true, cast, recast },
            if recast {
                true
            } else {
                can_fish && !cast
            },
        )
    }
}

/// The fishing automation's state: whether it is switched on, and whether it
/// may cast once the line is slack.
pub struct FishingBot {
    active: bool,
    can_fish: bool,
}

impl FishingBot {
    pub closed spec fn is_active(&self) -> bool {
        self.active
    }

    pub closed spec fn may_cast(&self) -> bool {
        self.can_fish
    }

    /// Switched off, not casting.
    pub fn new() -> (b: Self)
        ensures
            !b.is_active(),
            !b.may_cast(),
    {
        FishingBot { active: false, can_fish: false }
    }

    /// The toggle key: switches the automation on or off and lets it cast; the
    /// caller restarts the timer.
    pub fn toggle(&mut self)
        ensures
            final(self).is_active() == !old(self).is_active(),
            final(self).may_cast(),
    {
        self.can_fish = true;
        self.active = !self.active;
    }

    /// A fishing attempt has started: the automation may cast again; the caller
    /// restarts the timer.
    pub fn on_fishing_started(&mut self)
        ensures
            final(self).is_active() == old(self).is_active(),
            final(self).may_cast(),
    {
        self.can_fish = true;
    }

    /// One frame: `hacks_present` tells whether the fishing tuning block was
    /// found, `elapsed_ms` the time since the timer's start, `line_slack`
    /// whether the reel distance is zero.
    pub fn step(&mut self, hacks_present: bool, elapsed_ms: u128, line_slack: bool) -> (s:
        FishingStep)
        ensures
            final(self).is_active() == old(self).is_active(),
            (s, final(self).may_cast()) == fishing_transition(
                old(self).is_active(),
                old(self).may_cast(),
                hacks_present,
                elapsed_ms,
                line_slack,
            ),
            s.engaged == (old(self).is_active() && hacks_present),
            !s.engaged ==> !s.cast && !s.recast && final(self).may_cast() == old(self).may_cast(),
            s.engaged ==> (s.cast <==> (old(self).may_cast() && line_slack && elapsed_ms > 500)),
            s.engaged ==> (s.recast <==> elapsed_ms > 1700),
            s.recast ==> final(self).may_cast(),
            s.cast && !s.recast ==> !final(self).may_cast(),
            !s.cast && !s.recast ==> final(self).may_cast() == old(self).may_cast(),
    {
        if !(self.active && hacks_present) {
            return FishingStep { engaged: false, cast: false, recast: false };
        }
        let mut cast = false;
        if self.can_fish && line_slack && elapsed_ms > CAST_DELAY_MS {
            cast = true;
            self.can_fish = false;
        }
        let mut recast = false;
        if elapsed_ms > RECAST_DELAY_MS {
            recast = true;
            self.can_fish = true;
        }
        FishingStep { engaged: true, cast, recast }
    }
}

/// Once it has cast, the automation does not cast again until it starts over,
/// whatever the following frames report.
pub proof fn law_single_cast_per_attempt(
    active: bool,
    can_fish: bool,
    hacks1: bool,
    elapsed1: u128,
    slack1: bool,
    hacks2: bool,
    elapsed2: u128,
    slack2: bool,
)
    ensures
        ({
            let (s1, c1) = fishing_transition(active, can_fish, hacks1, elapsed1, slack1);
            let (s2, _) = fishing_transition(active, c1, hacks2, elapsed2, slack2);
            s1.cast && !s1.recast ==> !s2.cast
        }),
{
}

/// The automation never casts before the cast delay, and always starts over
/// after the recast delay while it runs.
pub proof fn law_fishing_delays(
    active: bool,
    can_fish: bool,
    hacks_present: bool,
    elapsed_ms: u128,
    line_slack: bool,
)
    ensures
        ({
            let (s, c) = fishing_transition(active, can_fish, hacks_present, elapsed_ms, line_slack);
            &&& s.cast ==> elapsed_ms > CAST_DELAY_MS && line_slack && can_fish
            &&& s.engaged && elapsed_ms > RECAST_DELAY_MS ==> s.recast && c
        }),
{
}

/// One frame, stated case by case: while it does not run, it does nothing and
/// leaves the bot as it was; while it runs, it casts exactly when the bot may
/// cast, the line is slack and more than the cast delay has passed (whatever
/// the recast delay), it starts over exactly when more than the recast delay
/// has passed, and afterwards the bot may cast exactly when it started over,
/// or when it neither cast nor started over and could cast before.
pub proof fn law_fishing_frame(
    active: bool,
    can_fish: bool,
    hacks_present: bool,
    elapsed_ms: u128,
    line_slack: bool,
)
    ensures
        ({
            let (s, c) = fishing_transition(active, can_fish, hacks_present, elapsed_ms, line_slack);
            &&& s.engaged == (active && hacks_present)
            &&& !s.engaged ==> !s.cast && !s.recast && c == can_fish
            &&& s.engaged ==> (s.cast <==> (can_fish && line_slack && elapsed_ms > 500))
            &&& s.engaged ==> (s.recast <==> elapsed_ms > 1700)
            &&& s.recast ==> c
            &&& s.cast && !s.recast ==> !c
            &&& !s.cast && !s.recast ==> c == can_fish
        }),
{
}

/// A run of frames of a bot that stays switched on or off: the step of each
/// frame, and whether the bot may cast afterwards. A frame is whether the
/// tuning block was found, the elapsed milliseconds, and whether the line is slack.
pub open spec fn fishing_run(active: bool, can_fish: bool, frames: Seq<(bool, u128, bool)>) -> (
    Seq<FishingStep>,
    bool,
)
    decreases frames.len(),
{
    if frames.len() == 0 {
        (Seq::empty(), can_fish)
    } else {
        let (steps, c) = fishing_run(active, can_fish, frames.drop_last());
        let f = frames.last();
        let (s, c2) = fishing_transition(active, c, f.0, f.1, f.2);
        (steps.push(s), c2)
    }
}

proof fn lemma_fishing_run_take(active: bool, can_fish: bool, frames: Seq<(bool, u128, bool)>, k: int)
    requires
        0 <= k <= frames.len(),
    ensures
        fishing_run(active, can_fish, frames).0.len() == frames.len(),
        fishing_run(active, can_fish, frames.take(k)).0 == fishing_run(
            active,
            can_fish,
            frames,
        ).0.take(k),
    decreases frames.len(),
{
    if frames.len() > 0 {
        lemma_fishing_run_take(active, can_fish, frames.drop_last(), 0);
        if k == frames.len() {
            assert(frames.take(k) =~= frames);
            lemma_fishing_run_take(active, can_fish, frames.drop_last(), 0);
            assert(fishing_run(active, can_fish, frames).0.take(k) =~= fishing_run(
                active,
                can_fish,
                frames,
            ).0);
        } else {
            assert(frames.take(k) =~= frames.drop_last().take(k));
            lemma_fishing_run_take(active, can_fish, frames.drop_last(), k);
            assert(fishing_run(active, can_fish, frames).0.take(k) =~= fishing_run(
                active,
                can_fish,
                frames.drop_last(),
            ).0.take(k));
        }
    } else {
        assert(frames.take(k) =~= frames);
    }
}

proof fn lemma_fishing_run_step(active: bool, can_fish: bool, frames: Seq<(bool, u128, bool)>, k: int)
    requires
        0 <= k < frames.len(),
    ensures
        ({
            let c = fishing_run(active, can_fish, frames.take(k)).1;
            let f = frames[k];
            &&& fishing_run(active, can_fish, frames).0[k] == fishing_transition(
                active,
                c,
                f.0,
                f.1,
                f.2,
            ).0
            &&& fishing_run(active, can_fish, frames.take(k + 1)).1 == fishing_transition(
                active,
                c,
                f.0,
                f.1,
                f.2,
            ).1
        }),
{
    let t = frames.take(k + 1);
    assert(t.drop_last() =~= frames.take(k));
    assert(t.last() == frames[k]);
    lemma_fishing_run_take(active, can_fish, frames, k + 1);
    lemma_fishing_run_take(active, can_fish, t, 0);
    assert(fishing_run(active, can_fish, t).0[k] == fishing_run(active, can_fish, frames).0.take(
        k + 1,
    )[k]);
}

proof fn lemma_no_cast_until_recast(
    active: bool,
    can_fish: bool,
    frames: Seq<(bool, u128, bool)>,
    i: int,
    m: int,
)
    requires
        0 <= i < m <= frames.len(),
        fishing_run(active, can_fish, frames).0[i].cast,
        forall|n: int| i <= n < m ==> !(#[trigger] fishing_run(active, can_fish, frames).0[n]).recast,
    ensures
        !fishing_run(active, can_fish, frames.take(m)).1,
    decreases m - i,
{
    let steps = fishing_run(active, can_fish, frames).0;
    lemma_fishing_run_step(active, can_fish, frames, m - 1);
    let c = fishing_run(active, can_fish, frames.take(m - 1)).1;
    let f = frames[m - 1];
    law_fishing_frame(active, c, f.0, f.1, f.2);
    assert(!steps[m - 1].recast);
    if m - 1 > i {
        lemma_no_cast_until_recast(active, can_fish, frames, i, m - 1);
    }
}

/// Over any run of frames, once a frame casts, no later frame casts until some
/// frame starts over (the bot can also be re-armed only by a fishing start or
/// the toggle, which are not frames).
pub proof fn law_no_second_cast_in_run(
    active: bool,
    can_fish: bool,
    frames: Seq<(bool, u128, bool)>,
    i: int,
    j: int,
)
    requires
        0 <= i < j < frames.len(),
        fishing_run(active, can_fish, frames).0[i].cast,
        forall|n: int| i <= n < j ==> !(#[trigger] fishing_run(active, can_fish, frames).0[n]).recast,
    ensures
        !fishing_run(active, can_fish, frames).0[j].cast,
{
    lemma_no_cast_until_recast(active, can_fish, frames, i, j);
    lemma_fishing_run_step(active, can_fish, frames, j);
    let f = frames[j];
    law_fishing_frame(active, fishing_run(active, can_fish, frames.take(j)).1, f.0, f.1, f.2);
}

} // verus!
