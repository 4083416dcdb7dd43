//! The behavior units this scene ships with, and the achievement helpers
//! they call: a sprite that blinks at a fixed interval, the minimal
//! gameplay unit that shows the intro dialogue and closes it on a skip
//! signal, and the authored achievement catalog.

use vstd::prelude::*;
use vstd::string::StringExecFns;

use crate::achievements::{
    grant_attempt_transition, is_unlocked_spec, newly_ids, trigger_transition,
    AchievementDefinition, AchievementManager,
};
use crate::dialogue::dialogue_apply_transition;
use crate::game_object::{DialogueBoxObject, GameObject2D};
use crate::renderer::{upsert_transition, RenderError};
use crate::scene_script::{ScriptContext, ScriptSignal};

verus! {

/// Unlock every achievement listening on this trigger; best-effort, an
/// unknown trigger unlocks nothing.
pub fn trigger(manager: &mut AchievementManager, trigger_id: &str) -> (r: Vec<String>)
    requires
        old(manager).wf(),
    ensures
        final(manager).wf(),
        trigger_transition(*old(manager), *final(manager), trigger_id@),
        r@ == newly_ids(old(manager).achievements@, trigger_id@),
{
    manager.trigger(trigger_id)
}

/// Unlock one achievement by id; an unknown id reports false rather than
/// failing.
pub fn grant(manager: &mut AchievementManager, achievement_id: &str) -> (r: bool)
    requires
        old(manager).wf(),
    ensures
        final(manager).wf(),
        r == exists|i: int|
            0 <= i < old(manager).achievements@.len()
                && (#[trigger] old(manager).achievements@[i]).definition.id@ == achievement_id@
                && !old(manager).achievements@[i].unlocked,
        grant_attempt_transition(*old(manager), *final(manager), achievement_id@),
{
    match manager.grant(achievement_id) {
        Ok(is_new) => is_new,
        Err(_) => false,
    }
}

/// Whether the achievement with this id is unlocked.
pub fn is_unlocked(manager: &AchievementManager, achievement_id: &str) -> (r: bool)
    ensures
        r == is_unlocked_spec(*manager, achievement_id@),
{
    manager.is_unlocked(achievement_id)
}

/// The authored achievement catalog.
pub fn create_all_achievements() -> (r: Vec<AchievementDefinition>)
    ensures
        r@.len() == 4,
        r@[0].id@ == "first_launch"@ && (r@[0].trigger matches Some(t) && t@ == "game_started"@),
        r@[1].id@ == "intro_closed"@ && (r@[1].trigger matches Some(t) && t@ == "intro_closed"@),
        r@[2].id@ == "intro_skipped"@ && (r@[2].trigger matches Some(t) && t@ == "intro_skipped"@),
        r@[3].id@ == "script_reward"@ && r@[3].trigger is None,
{
    let mut r: Vec<AchievementDefinition> = Vec::new();
    r.push(
        AchievementDefinition {
            id: String::from_str("first_launch"),
            name: String::from_str("Первый запуск"),
            description: String::from_str("Запустить игру и перейти в игровой режим."),
            trigger: Some(String::from_str("game_started")),
        },
    );
    r.push(
        AchievementDefinition {
            id: String::from_str("intro_closed"),
            name: String::from_str("Диалог завершён"),
            description: String::from_str("Закрыть стартовый диалог персонажа."),
            trigger: Some(String::from_str("intro_closed")),
        },
    );
    r.push(
        AchievementDefinition {
            id: String::from_str("intro_skipped"),
            name: String::from_str("Быстрый читатель"),
            description: String::from_str("Закрыть стартовый диалог по сигналу SkipWait."),
            trigger: Some(String::from_str("intro_skipped")),
        },
    );
    r.push(
        AchievementDefinition {
            id: String::from_str("script_reward"),
            name: String::from_str("Скриптовая награда"),
            description: String::from_str("Достижение выдано напрямую из скрипта."),
            trigger: None,
        },
    );
    r
}

/// Some upsert of the gameplay backdrop, with the given visibility, ran
/// against the renderer (its outcome is tolerated either way).
pub open spec fn game_backdrop_applied(
    g: Game,
    hidden: bool,
    cpre: ScriptContext,
    cpost: ScriptContext,
) -> bool {
    exists|rr: Result<(), RenderError>|
        #[trigger] upsert_transition(
            cpre.renderer,
            cpost.renderer,
            GameObject2D { hidden, ..g.image },
            cpre.textures.has_path(g.image.texture_path@),
            rr,
        )
}

/// Everything a blink unit's bootstrap does: the unit itself is untouched
/// and its sprite is upserted with the current visibility.
pub open spec fn blink_start_rel(
    pre: BlinkSpriteScript,
    post: BlinkSpriteScript,
    cpre: ScriptContext,
    cpost: ScriptContext,
    r: Result<(), RenderError>,
) -> bool {
    &&& post == pre
    &&& cpost.textures == cpre.textures
    &&& cpost.achievements == cpre.achievements
    &&& cpost.dialogue == cpre.dialogue
    &&& (cpre.wf() ==> cpost.wf())
    &&& upsert_transition(
        cpre.renderer,
        cpost.renderer,
        GameObject2D { hidden: !pre.visible, ..pre.sprite },
        cpre.textures.has_path(pre.sprite.texture_path@),
        r,
    )
    &&& (r is Err ==> cpost == cpre)
}

/// Everything one blink frame does: `dt` accrues, whole periods toggle the
/// visibility, and exactly when the net visibility flipped the sprite is
/// re-upserted with the new visibility.
pub open spec fn blink_update_rel(
    pre: BlinkSpriteScript,
    post: BlinkSpriteScript,
    cpre: ScriptContext,
    cpost: ScriptContext,
    dt: int,
    r: Result<(), RenderError>,
) -> bool {
    &&& cpost.textures == cpre.textures
    &&& cpost.achievements == cpre.achievements
    &&& cpost.dialogue == cpre.dialogue
    &&& (cpre.wf() ==> cpost.wf())
    &&& (pre.wf() ==> post.wf())
    &&& post.sprite == pre.sprite
    &&& post.interval_ms == pre.interval_ms
    &&& (pre.wf() ==> ({
        let total = pre.elapsed_ms + dt;
        let toggles = total / pre.interval_ms as int;
        &&& post.elapsed_ms as int == total % pre.interval_ms as int
        &&& post.visible == (if toggles % 2 == 1 {
            !pre.visible
        } else {
            pre.visible
        })
        &&& (if toggles % 2 == 1 {
            upsert_transition(
                cpre.renderer,
                cpost.renderer,
                GameObject2D { hidden: pre.visible, ..pre.sprite },
                cpre.textures.has_path(pre.sprite.texture_path@),
                r,
            )
        } else {
            r is Ok && cpost.renderer == cpre.renderer
        })
    }))
    &&& (r is Err ==> cpost == cpre)
}

/// Everything the gameplay unit's bootstrap does: the start trigger fires,
/// the intro dialogue and the backdrop are pushed with the current
/// visibility (a failed backdrop load is tolerated), the unit itself is
/// untouched.
pub open spec fn game_start_rel(
    pre: Game,
    post: Game,
    cpre: ScriptContext,
    cpost: ScriptContext,
    r: Result<(), RenderError>,
) -> bool {
    &&& post == pre
    &&& r is Ok
    &&& cpost.textures == cpre.textures
    &&& (cpre.wf() ==> cpost.wf())
    &&& trigger_transition(cpre.achievements, cpost.achievements, "game_started"@)
    &&& dialogue_apply_transition(
        cpre.dialogue,
        cpost.dialogue,
        DialogueBoxObject { hidden: !pre.visible, ..pre.dialogue },
    )
    &&& game_backdrop_applied(pre, !pre.visible, cpre, cpost)
}

/// The direct script reward: granted when it was not already unlocked.
pub open spec fn game_reward_step(a: AchievementManager, apost: AchievementManager) -> bool {
    if is_unlocked_spec(a, "script_reward"@) {
        apost == a
    } else {
        grant_attempt_transition(a, apost, "script_reward"@)
    }
}

/// The achievement bookkeeping of the closing frame, in call order: the
/// close trigger, the skip trigger when a skip signal arrived, then the
/// direct reward.
pub open spec fn game_close_achievements(
    skip: bool,
    apre: AchievementManager,
    apost: AchievementManager,
) -> bool {
    exists|a1: AchievementManager|
        #[trigger] trigger_transition(apre, a1, "intro_closed"@) && (if skip {
            exists|a2: AchievementManager|
                #[trigger] trigger_transition(a1, a2, "intro_skipped"@) && game_reward_step(
                    a2,
                    apost,
                )
        } else {
            game_reward_step(a1, apost)
        })
}

/// Everything one gameplay frame does: nothing while no close is pending;
/// on the closing frame the bookkeeping achievements unlock in order, the
/// dialogue and the backdrop are hidden, and the unit finishes.
pub open spec fn game_update_rel(
    pre: Game,
    post: Game,
    cpre: ScriptContext,
    cpost: ScriptContext,
    dt: int,
    r: Result<(), RenderError>,
) -> bool {
    &&& r is Ok
    &&& cpost.textures == cpre.textures
    &&& (cpre.wf() ==> cpost.wf())
    &&& post.dialogue == pre.dialogue
    &&& post.image == pre.image
    &&& post.close_requested == pre.close_requested
    &&& post.skip_signal_received == pre.skip_signal_received
    &&& if !(pre.close_requested && pre.visible) {
        post == pre && cpost == cpre
    } else {
        &&& !post.visible
        &&& post.finished
        &&& game_close_achievements(
            pre.skip_signal_received,
            cpre.achievements,
            cpost.achievements,
        )
        &&& dialogue_apply_transition(
            cpre.dialogue,
            cpost.dialogue,
            DialogueBoxObject { hidden: true, ..pre.dialogue },
        )
        &&& game_backdrop_applied(pre, true, cpre, cpost)
    }
}

/// Toggles a sprite's visibility at a fixed interval.
#[derive(Debug)]
pub struct BlinkSpriteScript {
    pub sprite: GameObject2D,
    /// Toggle period, milliseconds, at least one.
    pub interval_ms: u64,
    /// Time accrued toward the next toggle, below the period.
    pub elapsed_ms: u64,
    pub visible: bool,
}

impl BlinkSpriteScript {
    pub open spec fn wf(self) -> bool {
        self.interval_ms >= 1 && self.elapsed_ms < self.interval_ms
    }

    pub fn new(sprite: GameObject2D, interval_ms: u64) -> (r: Self)
        ensures
            r.wf(),
            r.visible == !sprite.hidden,
            r.sprite == sprite,
            r.interval_ms == if interval_ms >= 1 {
                interval_ms
            } else {
                1u64
            },
            r.elapsed_ms == 0,
    {
        Self {
            visible: !sprite.hidden,
            sprite,
            interval_ms: if interval_ms >= 1 {
                interval_ms
            } else {
                1
            },
            elapsed_ms: 0,
        }
    }

    /// Upsert the sprite with the current visibility.
    fn apply_current_state(&self, ctx: &mut ScriptContext) -> (r: Result<(), RenderError>)
        requires
            old(ctx).wf(),
        ensures
            final(ctx).wf(),
            final(ctx).textures == old(ctx).textures,
            final(ctx).achievements == old(ctx).achievements,
            final(ctx).dialogue == old(ctx).dialogue,
            upsert_transition(
                old(ctx).renderer,
                final(ctx).renderer,
                GameObject2D { hidden: !self.visible, ..self.sprite },
                old(ctx).textures.has_path(self.sprite.texture_path@),
                r,
            ),
            r is Err ==> *final(ctx) == *old(ctx),
    {
        let object = self.sprite.clone().with_hidden(!self.visible);
        let load_ok = ctx.textures.is_loadable(&object.texture_path);
        ctx.renderer.apply_game_object_from_definition(object, load_ok)
    }

    pub fn start(&mut self, ctx: &mut ScriptContext) -> (r: Result<(), RenderError>)
        requires
            old(ctx).wf(),
        ensures
            final(ctx).wf(),
            blink_start_rel(*old(self), *final(self), *old(ctx), *final(ctx), r),
    {
        self.apply_current_state(ctx)
    }

    /// Accrue `dt` milliseconds; large frames consume several whole
    /// periods at once, and the sprite is re-applied only when the net
    /// visibility actually flipped.
    pub fn update(&mut self, dt: u64, ctx: &mut ScriptContext) -> (r: Result<(), RenderError>)
        requires
            old(self).wf(),
            old(ctx).wf(),
        ensures
            final(self).wf(),
            final(ctx).wf(),
            blink_update_rel(*old(self), *final(self), *old(ctx), *final(ctx), dt as int, r),
    {
        let e = self.elapsed_ms;
        let iv = self.interval_ms;
        let total: u128 = (e as u128) + (dt as u128);
        let toggles: u128 = total / (iv as u128);
        let rem: u128 = total % (iv as u128);
        proof {
            assert(rem < iv && toggles as int == (e + dt) / (iv as int) && rem as int == (e + dt)
                % (iv as int)) by (nonlinear_arith)
                requires
                    iv >= 1,
                    total == (e as u128) + (dt as u128),
                    toggles == total / (iv as u128),
                    rem == total % (iv as u128),
            ;
        }
        self.elapsed_ms = rem as u64;
        if toggles % 2 == 1 {
            proof {
                assert((toggles % 2) as int == (toggles as int) % 2) by (nonlinear_arith)
                    requires
                        toggles >= 0,
                ;
            }
            self.visible = !self.visible;
            match self.apply_current_state(ctx) {
                Ok(_) => {},
                Err(e) => {
                    return Err(e);
                },
            }
        } else {
            proof {
                assert((toggles % 2) as int == (toggles as int) % 2) by (nonlinear_arith)
                    requires
                        toggles >= 0,
                ;
            }
        }
        Ok(())
    }
}

/// Minimal gameplay unit: shows the intro dialogue and its backdrop, then
/// hides both and finishes when asked to close.
#[derive(Debug)]
pub struct Game {
    pub dialogue: DialogueBoxObject,
    pub image: GameObject2D,
    pub visible: bool,
    pub close_requested: bool,
    pub skip_signal_received: bool,
    pub finished: bool,
}

impl Game {
    pub fn new(image: GameObject2D) -> (r: Self)
        ensures
            r.dialogue.id matches Some(id) && id@ == "intro_dialogue"@,
            r.dialogue.speaker@ == "Ajzakun"@,
            r.dialogue.text@ == "Hello my name Ajzakun."@,
            !r.dialogue.hidden,
            r.image == image,
            r.visible,
            !r.close_requested,
            !r.skip_signal_received,
            !r.finished,
    {
        Self {
            dialogue: DialogueBoxObject::new(String::from_str("Hello my name Ajzakun."))
                .with_speaker(String::from_str("Ajzakun"))
                .with_id(String::from_str("intro_dialogue")),
            image,
            visible: true,
            close_requested: false,
            skip_signal_received: false,
            finished: false,
        }
    }

    /// Push the dialogue and the backdrop sprite with the current
    /// visibility.  A failed backdrop load is tolerated: the dialogue is
    /// what this unit is about.
    fn apply_current_state(&self, ctx: &mut ScriptContext) -> (r: Result<(), RenderError>)
        requires
            old(ctx).wf(),
        ensures
            final(ctx).wf(),
            final(ctx).textures == old(ctx).textures,
            final(ctx).achievements == old(ctx).achievements,
            dialogue_apply_transition(
                old(ctx).dialogue,
                final(ctx).dialogue,
                DialogueBoxObject { hidden: !self.visible, ..self.dialogue },
            ),
            game_backdrop_applied(*self, !self.visible, *old(ctx), *final(ctx)),
            r is Ok,
    {
        let object = self.dialogue.clone().with_hidden(!self.visible);
        let image_obj = self.image.clone().with_hidden(!self.visible);
        ctx.dialogue.apply_dialogue_object(object);
        let load_ok = ctx.textures.is_loadable(&image_obj.texture_path);
        let backdrop = ctx.renderer.apply_game_object_from_definition(image_obj, load_ok);
        proof {
            assert(upsert_transition(
                old(ctx).renderer,
                ctx.renderer,
                GameObject2D { hidden: !self.visible, ..self.image },
                old(ctx).textures.has_path(self.image.texture_path@),
                backdrop,
            ));
        }
        let _ = backdrop;
        Ok(())
    }

    pub fn start(&mut self, ctx: &mut ScriptContext) -> (r: Result<(), RenderError>)
        requires
            old(ctx).wf(),
        ensures
            final(ctx).wf(),
            game_start_rel(*old(self), *final(self), *old(ctx), *final(ctx), r),
    {
        let _ = trigger(&mut ctx.achievements, "game_started");
        self.apply_current_state(ctx)
    }

    /// Once a close was requested, unlock the bookkeeping achievements,
    /// hide everything and finish; afterwards the unit stays finished.
    pub fn update(&mut self, dt: u64, ctx: &mut ScriptContext) -> (r: Result<(), RenderError>)
        requires
            old(ctx).wf(),
        ensures
            final(ctx).wf(),
            game_update_rel(*old(self), *final(self), *old(ctx), *final(ctx), dt as int, r),
    {
        if self.close_requested && self.visible {
            let _ = trigger(&mut ctx.achievements, "intro_closed");
            let ghost a1 = ctx.achievements;
            if self.skip_signal_received {
                let _ = trigger(&mut ctx.achievements, "intro_skipped");
            }
            let ghost a2 = ctx.achievements;
            if !is_unlocked(&ctx.achievements, "script_reward") {
                let _ = grant(&mut ctx.achievements, "script_reward");
            }
            self.visible = false;
            self.finished = true;
            let ghost cmid = *ctx;
            match self.apply_current_state(ctx) {
                Ok(_) => {},
                Err(e) => {
                    return Err(e);
                },
            }
            proof {
                assert(trigger_transition(old(ctx).achievements, a1, "intro_closed"@));
                if old(self).skip_signal_received {
                    assert(trigger_transition(a1, a2, "intro_skipped"@));
                    assert(game_reward_step(a2, ctx.achievements));
                } else {
                    assert(a2 == a1);
                    assert(game_reward_step(a1, ctx.achievements));
                }
                assert(game_close_achievements(
                    old(self).skip_signal_received,
                    old(ctx).achievements,
                    ctx.achievements,
                ));
                assert(dialogue_apply_transition(
                    old(ctx).dialogue,
                    ctx.dialogue,
                    DialogueBoxObject { hidden: true, ..old(self).dialogue },
                ));
                let rr = choose|rr: Result<(), RenderError>|
                    #[trigger] upsert_transition(
                        cmid.renderer,
                        ctx.renderer,
                        GameObject2D { hidden: true, ..self.image },
                        cmid.textures.has_path(self.image.texture_path@),
                        rr,
                    );
                assert(upsert_transition(
                    old(ctx).renderer,
                    ctx.renderer,
                    GameObject2D { hidden: true, ..old(self).image },
                    old(ctx).textures.has_path(old(self).image.texture_path@),
                    rr,
                ));
                assert(game_backdrop_applied(*old(self), true, *old(ctx), *ctx));
            }
        }
        Ok(())
    }

    /// A skip asks the unit to close the intro on its next update.
    pub fn on_signal(&mut self, signal: ScriptSignal)
        ensures
            *final(self) == (Game {
                close_requested: true,
                skip_signal_received: true,
                ..*old(self)
            }),
    {
        match signal {
            ScriptSignal::SkipWait => {
                self.close_requested = true;
                self.skip_signal_received = true;
            },
        }
    }

    pub fn is_finished(&self) -> (r: bool)
        ensures
            r == self.finished,
    {
        self.finished
    }
}

} // verus!
