//! Script lifecycle runtime and the timeline command interpreter.
//!
//! A scene is driven by a set of behavior units with a two-phase lifecycle:
//! `start` runs exactly once, strictly before the unit's first `update`;
//! a unit that reports itself finished is skipped from then on.  Broadcast
//! signals reach every unit synchronously, in registration order.
//!
//! The timeline interpreter is itself one behavior unit: it consumes a FIFO
//! command queue through wait barriers, spending accumulated frame time, so
//! one large `dt` may drain many short waits in a single call.

use std::collections::VecDeque;

use vstd::prelude::*;

use crate::achievements::AchievementManager;
use crate::dialogue::{dialogue_apply_transition, DialogueState};
use crate::game_object::SceneObject;
use crate::renderer::{
    lemma_transition_step, upsert_step_entries, upsert_step_ok, upsert_transition, RenderEntry,
    RenderError, SceneRenderer,
};
use crate::scripts::{
    blink_start_rel, blink_update_rel, game_start_rel, game_update_rel, BlinkSpriteScript, Game,
};

verus! {

/// A broadcast event, delivered to all behavior units in one frame.
#[derive(Clone, Copy, Debug)]
pub enum ScriptSignal {
    SkipWait,
}

/// The set of texture paths whose images the caller has decoded and can
/// bind; the synchronizer treats a path outside it as a failed load.
#[derive(Debug)]
pub struct TextureCatalog {
    pub paths: Vec<String>,
}

impl TextureCatalog {
    /// Whether an image for this path is available.
    pub open spec fn has_path(self, p: Seq<char>) -> bool {
        exists|i: int| 0 <= i < self.paths@.len() && #[trigger] self.paths@[i]@ == p
    }

    pub fn new() -> (r: Self)
        ensures
            r.paths@.len() == 0,
    {
        Self { paths: Vec::new() }
    }

    /// Note that an image for this path is available.
    pub fn add(&mut self, path: String)
        ensures
            final(self).paths@ == old(self).paths@.push(path),
    {
        self.paths.push(path);
    }

    /// Whether an image for this path is available.
    pub fn is_loadable(&self, path: &String) -> (r: bool)
        ensures
            r == self.has_path(path@),
    {
        let n = self.paths.len();
        let mut i: usize = 0;
        while i < n
            invariant
                n == self.paths@.len(),
                0 <= i <= n,
                forall|j: int| 0 <= j < i ==> #[trigger] self.paths@[j]@ != path@,
            decreases n - i,
        {
            if self.paths[i] == *path {
                return true;
            }
            i += 1;
        }
        false
    }
}

/// Per-frame services handed to every behavior unit.  The frame driver owns
/// one of these; scripts mutate scene state only through it.
#[derive(Debug)]
pub struct ScriptContext {
    pub renderer: SceneRenderer,
    pub dialogue: DialogueState,
    pub achievements: AchievementManager,
    pub textures: TextureCatalog,
}

impl ScriptContext {
    pub open spec fn wf(self) -> bool {
        self.renderer.wf() && self.dialogue.wf() && self.achievements.wf()
    }
}

/// One timeline command; `Spawn` and `Apply` run identically (both are
/// upserts by identity key), the distinction is documentation.
#[derive(Debug, Clone)]
pub enum SceneCommand {
    Spawn(SceneObject),
    Apply(SceneObject),
    Wait(u64),
}

pub fn spawn(object: SceneObject) -> (r: SceneCommand)
    ensures
        r == SceneCommand::Spawn(object),
{
    SceneCommand::Spawn(object)
}

pub fn apply(object: SceneObject) -> (r: SceneCommand)
    ensures
        r == SceneCommand::Apply(object),
{
    SceneCommand::Apply(object)
}

/// A pause of the given length, in milliseconds.
pub fn wait(ms: u64) -> (r: SceneCommand)
    ensures
        r == SceneCommand::Wait(ms),
{
    SceneCommand::Wait(ms)
}

/// What one interpreter invocation does, given the queue, the pending wait
/// and the frame time: the objects it emits in order, the queue it leaves,
/// and the wait it leaves pending.
pub open spec fn timeline_run(cmds: Seq<SceneCommand>, wait_remaining: int, dt: int) -> (
    Seq<SceneObject>,
    Seq<SceneCommand>,
    int,
)
    decreases cmds.len(), (if wait_remaining > 0 {
        1int
    } else {
        0int
    }),
{
    if wait_remaining > 0 {
        if dt <= 0 {
            (Seq::empty(), cmds, wait_remaining)
        } else if dt >= wait_remaining {
            timeline_run(cmds, 0, dt - wait_remaining)
        } else {
            (Seq::empty(), cmds, wait_remaining - dt)
        }
    } else if cmds.len() == 0 {
        (Seq::empty(), cmds, 0)
    } else {
        match cmds[0] {
            SceneCommand::Wait(s) => timeline_run(cmds.drop_first(), s as int, dt),
            SceneCommand::Spawn(o) => {
                let r = timeline_run(cmds.drop_first(), 0, dt);
                (seq![o] + r.0, r.1, r.2)
            },
            SceneCommand::Apply(o) => {
                let r = timeline_run(cmds.drop_first(), 0, dt);
                (seq![o] + r.0, r.1, r.2)
            },
        }
    }
}

/// Timeline time is additive: driving the interpreter by `d1` and then by
/// `d2` emits the same objects in the same order, and leaves the same queue
/// and pending wait, as one drive by `d1 + d2`.  Scripted sequences are
/// therefore time-accurate rather than frame-accurate: how frame time is
/// sliced does not matter.
pub proof fn lemma_timeline_time_additive(cmds: Seq<SceneCommand>, wait_remaining: int, d1: int, d2: int)
    requires
        wait_remaining >= 0,
        d1 >= 0,
        d2 >= 0,
    ensures
        ({
            let first = timeline_run(cmds, wait_remaining, d1);
            let second = timeline_run(first.1, first.2, d2);
            timeline_run(cmds, wait_remaining, d1 + d2) == (first.0 + second.0, second.1, second.2)
        }),
    decreases cmds.len(), (if wait_remaining > 0 {
        1int
    } else {
        0int
    }),
{
    let first = timeline_run(cmds, wait_remaining, d1);
    let second = timeline_run(first.1, first.2, d2);
    if wait_remaining > 0 {
        if d1 <= 0 {
            assert(first.0 + second.0 =~= second.0);
        } else if d1 >= wait_remaining {
            lemma_timeline_time_additive(cmds, 0, d1 - wait_remaining, d2);
        } else {
            assert(first.0 + second.0 =~= second.0);
        }
    } else if cmds.len() == 0 {
        assert(first.0 + second.0 =~= Seq::<SceneObject>::empty());
    } else {
        match cmds[0] {
            SceneCommand::Wait(s) => {
                lemma_timeline_time_additive(cmds.drop_first(), s as int, d1, d2);
            },
            SceneCommand::Spawn(o) => {
                lemma_timeline_time_additive(cmds.drop_first(), 0, d1, d2);
                let tail_first = timeline_run(cmds.drop_first(), 0, d1);
                let tail_second = timeline_run(tail_first.1, tail_first.2, d2);
                assert(first.0 + second.0 =~= seq![o] + (tail_first.0 + tail_second.0));
            },
            SceneCommand::Apply(o) => {
                lemma_timeline_time_additive(cmds.drop_first(), 0, d1, d2);
                let tail_first = timeline_run(cmds.drop_first(), 0, d1);
                let tail_second = timeline_run(tail_first.1, tail_first.2, d2);
                assert(first.0 + second.0 =~= seq![o] + (tail_first.0 + tail_second.0));
            },
        }
    }
}

/// What applying one emitted object does to the context: a sprite is an
/// upsert against the renderer, its load outcome decided by the texture
/// catalog; a dialogue goes to the progressive-reveal state; nothing else
/// moves.
pub open spec fn object_applied(o: SceneObject, pre: ScriptContext, post: ScriptContext) -> bool {
    &&& post.textures == pre.textures
    &&& post.achievements == pre.achievements
    &&& match o {
        SceneObject::Sprite(s) => post.dialogue == pre.dialogue && upsert_transition(
            pre.renderer,
            post.renderer,
            s,
            pre.textures.has_path(s.texture_path@),
            Ok(()),
        ) && (pre.renderer.wf() ==> post.renderer.wf()),
        SceneObject::Dialogue(d) => post.renderer == pre.renderer && dialogue_apply_transition(
            pre.dialogue,
            post.dialogue,
            d,
        ),
    }
}

/// The emitted objects were applied to the context in order.
pub open spec fn objects_applied(
    objs: Seq<SceneObject>,
    pre: ScriptContext,
    post: ScriptContext,
) -> bool
    decreases objs.len(),
{
    if objs.len() == 0 {
        post == pre
    } else {
        exists|mid: ScriptContext|
            #[trigger] object_applied(objs[0], pre, mid) && objects_applied(
                objs.drop_first(),
                mid,
                post,
            )
    }
}

/// The renderer view after applying these objects in order: each sprite
/// folds through the one-step upsert, dialogues leave it alone.
pub open spec fn apply_fold(
    objs: Seq<SceneObject>,
    entries: Seq<RenderEntry>,
    next_order: int,
    next_texture_id: int,
) -> (Seq<RenderEntry>, int, int)
    decreases objs.len(),
{
    if objs.len() == 0 {
        (entries, next_order, next_texture_id)
    } else {
        match objs[0] {
            SceneObject::Sprite(s) => {
                let st = upsert_step_entries(entries, next_order, next_texture_id, s);
                apply_fold(objs.drop_first(), st.0, st.1, st.2)
            },
            SceneObject::Dialogue(_) => apply_fold(
                objs.drop_first(),
                entries,
                next_order,
                next_texture_id,
            ),
        }
    }
}

/// Whether every object in the sequence applies cleanly, each against the
/// renderer view the ones before it leave behind.
pub open spec fn objects_apply_cleanly(
    objs: Seq<SceneObject>,
    entries: Seq<RenderEntry>,
    next_order: int,
    next_texture_id: int,
    textures: TextureCatalog,
) -> bool
    decreases objs.len(),
{
    if objs.len() == 0 {
        true
    } else {
        match objs[0] {
            SceneObject::Sprite(s) => upsert_step_ok(
                entries,
                next_order,
                next_texture_id,
                s,
                textures.has_path(s.texture_path@),
            ) && {
                let st = upsert_step_entries(entries, next_order, next_texture_id, s);
                objects_apply_cleanly(objs.drop_first(), st.0, st.1, st.2, textures)
            },
            SceneObject::Dialogue(_) => objects_apply_cleanly(
                objs.drop_first(),
                entries,
                next_order,
                next_texture_id,
                textures,
            ),
        }
    }
}

/// Appending one applied object extends the applied chain.
proof fn lemma_objects_applied_snoc(
    objs: Seq<SceneObject>,
    o: SceneObject,
    a: ScriptContext,
    b: ScriptContext,
    c: ScriptContext,
)
    requires
        objects_applied(objs, a, b),
        object_applied(o, b, c),
    ensures
        objects_applied(objs.push(o), a, c),
    decreases objs.len(),
{
    if objs.len() == 0 {
        assert(objs.push(o)[0] == o);
        assert(objs.push(o).drop_first() =~= objs);
        assert(object_applied(objs.push(o)[0], a, c));
        assert(objects_applied(objs.push(o).drop_first(), c, c));
    } else {
        let mid = choose|mid: ScriptContext|
            #[trigger] object_applied(objs[0], a, mid) && objects_applied(
                objs.drop_first(),
                mid,
                b,
            );
        lemma_objects_applied_snoc(objs.drop_first(), o, mid, b, c);
        assert(objs.push(o)[0] == objs[0]);
        assert(objs.push(o).drop_first() =~= objs.drop_first().push(o));
        assert(object_applied(objs.push(o)[0], a, mid) && objects_applied(
            objs.push(o).drop_first(),
            mid,
            c,
        ));
    }
}

/// The renderer-view fold splits over concatenation.
proof fn lemma_apply_fold_decompose(
    a: Seq<SceneObject>,
    b: Seq<SceneObject>,
    entries: Seq<RenderEntry>,
    next_order: int,
    next_texture_id: int,
)
    ensures
        apply_fold(a + b, entries, next_order, next_texture_id) == ({
            let f = apply_fold(a, entries, next_order, next_texture_id);
            apply_fold(b, f.0, f.1, f.2)
        }),
    decreases a.len(),
{
    if a.len() == 0 {
        assert(a + b =~= b);
    } else {
        assert((a + b)[0] == a[0]);
        assert((a + b).drop_first() =~= a.drop_first() + b);
        match a[0] {
            SceneObject::Sprite(s) => {
                let st = upsert_step_entries(entries, next_order, next_texture_id, s);
                lemma_apply_fold_decompose(a.drop_first(), b, st.0, st.1, st.2);
            },
            SceneObject::Dialogue(_) => {
                lemma_apply_fold_decompose(a.drop_first(), b, entries, next_order, next_texture_id);
            },
        }
    }
}

/// Cleanliness splits over concatenation: the front must apply cleanly,
/// and the back against the view the front leaves.
proof fn lemma_cleanly_decompose(
    a: Seq<SceneObject>,
    b: Seq<SceneObject>,
    entries: Seq<RenderEntry>,
    next_order: int,
    next_texture_id: int,
    textures: TextureCatalog,
)
    ensures
        objects_apply_cleanly(a + b, entries, next_order, next_texture_id, textures) == (
        objects_apply_cleanly(a, entries, next_order, next_texture_id, textures) && ({
            let f = apply_fold(a, entries, next_order, next_texture_id);
            objects_apply_cleanly(b, f.0, f.1, f.2, textures)
        })),
    decreases a.len(),
{
    if a.len() == 0 {
        assert(a + b =~= b);
    } else {
        assert((a + b)[0] == a[0]);
        assert((a + b).drop_first() =~= a.drop_first() + b);
        match a[0] {
            SceneObject::Sprite(s) => {
                let st = upsert_step_entries(entries, next_order, next_texture_id, s);
                lemma_cleanly_decompose(a.drop_first(), b, st.0, st.1, st.2, textures);
            },
            SceneObject::Dialogue(_) => {
                lemma_cleanly_decompose(
                    a.drop_first(),
                    b,
                    entries,
                    next_order,
                    next_texture_id,
                    textures,
                );
            },
        }
    }
}

/// Everything one interpreter invocation does, as a relation between the
/// timeline and the context before and after the call: the timeline
/// semantics on the queue and the timer, the emitted objects applied to
/// the context in order, success owed exactly when every emitted object
/// applies cleanly, and on failure the objects before the failing one
/// applied, the error naming the unloadable texture path, the timer
/// zeroed and the queue a plain suffix of what it was.
pub open spec fn timeline_step_rel(
    pre: TimelineScript,
    post: TimelineScript,
    cpre: ScriptContext,
    cpost: ScriptContext,
    dt: int,
    r: Result<(), RenderError>,
) -> bool {
    &&& cpost.textures == cpre.textures
    &&& cpost.achievements == cpre.achievements
    &&& (cpre.wf() ==> cpost.wf())
    &&& ({
        let run = timeline_run(pre.pending@, pre.wait_remaining as int, dt);
        &&& (r is Ok <==> objects_apply_cleanly(
            run.0,
            cpre.renderer.entries@,
            cpre.renderer.next_order as int,
            cpre.renderer.next_texture_id as int,
            cpre.textures,
        ))
        &&& (r is Ok ==> objects_applied(run.0, cpre, cpost) && post.pending@ == run.1
            && post.wait_remaining as int == run.2)
        &&& (r is Err ==> exists|k: int|
            0 <= k < run.0.len() && #[trigger] objects_applied(run.0.take(k), cpre, cpost))
    })
    &&& (r matches Err(RenderError::TextureLoad(p)) ==> !cpre.textures.has_path(p@))
    &&& (r is Err ==> post.wait_remaining == 0 && exists|j: int|
        0 <= j <= pre.pending@.len() && post.pending@ == pre.pending@.skip(j))
}

/// At a failed object application, the applied prefix is the final
/// context and the whole emission cannot apply cleanly.
proof fn lemma_timeline_abort(
    full: (Seq<SceneObject>, Seq<SceneCommand>, int),
    done: Seq<SceneObject>,
    pre_pending: Seq<SceneCommand>,
    o: SceneObject,
    cpre: ScriptContext,
    ccur: ScriptContext,
    e0: Seq<RenderEntry>,
    no0: int,
    nt0: int,
    dt: int,
)
    requires
        objects_applied(done, cpre, ccur),
        objects_apply_cleanly(done, e0, no0, nt0, cpre.textures),
        ({
            let f = apply_fold(done, e0, no0, nt0);
            ccur.renderer.entries@ == f.0 && ccur.renderer.next_order as int == f.1
                && ccur.renderer.next_texture_id as int == f.2
        }),
        ccur.textures == cpre.textures,
        full.0 == done + timeline_run(pre_pending, 0, dt).0,
        pre_pending.len() > 0,
        pre_pending[0] == SceneCommand::Spawn(o) || pre_pending[0] == SceneCommand::Apply(o),
        (match o {
            SceneObject::Sprite(s) => !upsert_step_ok(
                ccur.renderer.entries@,
                ccur.renderer.next_order as int,
                ccur.renderer.next_texture_id as int,
                s,
                ccur.textures.has_path(s.texture_path@),
            ),
            SceneObject::Dialogue(_) => false,
        }),
    ensures
        !objects_apply_cleanly(full.0, e0, no0, nt0, cpre.textures),
        exists|k: int|
            0 <= k < full.0.len() && #[trigger] objects_applied(full.0.take(k), cpre, ccur),
{
    let rest0 = timeline_run(pre_pending, 0, dt).0;
    assert(rest0 == seq![o] + timeline_run(pre_pending.drop_first(), 0, dt).0);
    assert(rest0.len() > 0);
    assert(rest0[0] == o);
    assert(full.0.take(done.len() as int) =~= done);
    assert(objects_applied(full.0.take(done.len() as int), cpre, ccur));
    assert(0 <= done.len() < full.0.len());
    lemma_cleanly_decompose(done, rest0, e0, no0, nt0, cpre.textures);
    let f = apply_fold(done, e0, no0, nt0);
    match o {
        SceneObject::Sprite(s) => {
            assert(!objects_apply_cleanly(rest0, f.0, f.1, f.2, cpre.textures));
        },
        SceneObject::Dialogue(_) => {
            assert(false);
        },
    }
    assert(full.0 =~= done + rest0);
}

/// Cutscene-like scripting: a FIFO command queue behind a wait timer.
#[derive(Debug)]
pub struct TimelineScript {
    /// Commands not yet executed, front first.
    pub pending: VecDeque<SceneCommand>,
    /// Milliseconds of wait still to consume before the next command.
    pub wait_remaining: u64,
}

impl TimelineScript {
    pub fn new(commands: Vec<SceneCommand>) -> (r: Self)
        ensures
            r.pending@ == commands@,
            r.wait_remaining == 0,
    {
        let mut pending: VecDeque<SceneCommand> = VecDeque::new();
        let ghost commands_view = commands@;
        let mut rest = commands;
        while rest.len() > 0
            invariant
                pending@ + rest@ == commands_view,
            decreases rest@.len(),
        {
            let c = rest.remove(0);
            pending.push_back(c);
            proof {
                assert(pending@ + rest@ =~= commands_view);
            }
        }
        proof {
            assert(pending@ =~= commands_view);
        }
        Self { pending, wait_remaining: 0 }
    }

    /// Route one emitted object: a sprite goes to the render object
    /// synchronizer (its texture counts as loaded exactly when the catalog
    /// has its path), a dialogue to the progressive-reveal state.
    pub fn apply_object(object: SceneObject, ctx: &mut ScriptContext) -> (r: Result<
        (),
        RenderError,
    >)
        requires
            old(ctx).wf(),
        ensures
            final(ctx).wf(),
            final(ctx).textures == old(ctx).textures,
            final(ctx).achievements == old(ctx).achievements,
            object matches SceneObject::Dialogue(d) ==> r is Ok && final(ctx).renderer == old(
                ctx,
            ).renderer && dialogue_apply_transition(old(ctx).dialogue, final(ctx).dialogue, d),
            object matches SceneObject::Sprite(s) ==> final(ctx).dialogue == old(ctx).dialogue
                && upsert_transition(
                old(ctx).renderer,
                final(ctx).renderer,
                s,
                old(ctx).textures.has_path(s.texture_path@),
                r,
            ),
            object matches SceneObject::Sprite(s) ==> (r is Ok <==> upsert_step_ok(
                old(ctx).renderer.entries@,
                old(ctx).renderer.next_order as int,
                old(ctx).renderer.next_texture_id as int,
                s,
                old(ctx).textures.has_path(s.texture_path@),
            )),
            r is Ok ==> object_applied(object, *old(ctx), *final(ctx)),
            r is Err ==> *final(ctx) == *old(ctx),
    {
        match object {
            SceneObject::Sprite(sprite) => {
                let ghost s_g = sprite;
                let load_ok = ctx.textures.is_loadable(&sprite.texture_path);
                let r = ctx.renderer.apply_game_object_from_definition(sprite, load_ok);
                proof {
                    match r {
                        Ok(u) => {
                            assert(u == ());
                            assert(r == Ok::<(), RenderError>(()));
                            assert(object_applied(object, *old(ctx), *ctx));
                        },
                        Err(_) => {},
                    }
                }
                r
            },
            SceneObject::Dialogue(dialogue) => {
                let ghost d_g = dialogue;
                ctx.dialogue.apply_dialogue_object(dialogue);
                proof {
                    assert(object_applied(object, *old(ctx), *ctx));
                }
                Ok(())
            },
        }
    }

    /// Execute commands, spending `dt` milliseconds against wait barriers;
    /// each emitted object is applied to the context in order.  On success
    /// the queue and the pending wait are exactly what the timeline
    /// semantics leaves; a failed object application stops the run there
    /// and surfaces the error, commands before it already applied.
    fn process_commands(&mut self, dt: u64, ctx: &mut ScriptContext) -> (r: Result<
        (),
        RenderError,
    >)
        requires
            old(ctx).wf(),
        ensures
            final(ctx).wf(),
            timeline_step_rel(*old(self), *final(self), *old(ctx), *final(ctx), dt as int, r),
    {
        let ghost full = timeline_run(old(self).pending@, old(self).wait_remaining as int, dt as int);
        let ghost e0 = old(ctx).renderer.entries@;
        let ghost no0 = old(ctx).renderer.next_order as int;
        let ghost nt0 = old(ctx).renderer.next_texture_id as int;
        let ghost mut done: Seq<SceneObject> = Seq::empty();
        proof {
            assert(old(self).pending@.skip(0) =~= old(self).pending@);
        }
        let mut time_left = dt;
        loop
            invariant
                full == timeline_run(old(self).pending@, old(self).wait_remaining as int, dt as int),
                e0 == old(ctx).renderer.entries@,
                no0 == old(ctx).renderer.next_order as int,
                nt0 == old(ctx).renderer.next_texture_id as int,
                ctx.wf(),
                ctx.textures == old(ctx).textures,
                ctx.achievements == old(ctx).achievements,
                objects_applied(done, *old(ctx), *ctx),
                objects_apply_cleanly(done, e0, no0, nt0, old(ctx).textures),
                ({
                    let f = apply_fold(done, e0, no0, nt0);
                    ctx.renderer.entries@ == f.0 && ctx.renderer.next_order as int == f.1
                        && ctx.renderer.next_texture_id as int == f.2
                }),
                ({
                    let rest = timeline_run(self.pending@, self.wait_remaining as int, time_left as int);
                    full.0 == done + rest.0 && full.1 == rest.1 && full.2 == rest.2
                }),
                exists|j: int|
                    0 <= j <= old(self).pending@.len() && self.pending@ == old(
                        self,
                    ).pending@.skip(j),
            ensures
                ctx.wf(),
                ctx.textures == old(ctx).textures,
                ctx.achievements == old(ctx).achievements,
                objects_applied(done, *old(ctx), *ctx),
                objects_apply_cleanly(done, e0, no0, nt0, old(ctx).textures),
                done =~= full.0,
                full.1 == self.pending@ && full.2 == self.wait_remaining as int,
            decreases self.pending@.len(), (if self.wait_remaining > 0 {
                1int
            } else {
                0int
            }),
        {
            if self.wait_remaining > 0 {
                if time_left == 0 {
                    proof {
                        assert(done =~= done + timeline_run(
                            self.pending@,
                            self.wait_remaining as int,
                            time_left as int,
                        ).0);
                    }
                    break ;
                }
                if time_left >= self.wait_remaining {
                    time_left = time_left - self.wait_remaining;
                    self.wait_remaining = 0;
                } else {
                    self.wait_remaining = self.wait_remaining - time_left;
                    time_left = 0;
                    proof {
                        assert(done =~= done + timeline_run(
                            self.pending@,
                            self.wait_remaining as int,
                            time_left as int,
                        ).0);
                    }
                    break ;
                }
            } else {
                let ghost pre_pending = self.pending@;
                match self.pending.pop_front() {
                    None => {
                        proof {
                            assert(done =~= done + timeline_run(
                                self.pending@,
                                self.wait_remaining as int,
                                time_left as int,
                            ).0);
                        }
                        break ;
                    },
                    Some(command) => {
                        proof {
                            assert(self.pending@ =~= pre_pending.drop_first());
                            let j = choose|j: int|
                                0 <= j <= old(self).pending@.len() && pre_pending == old(
                                    self,
                                ).pending@.skip(j);
                            assert(old(self).pending@.skip(j).drop_first() =~= old(
                                self,
                            ).pending@.skip(j + 1));
                        }
                        match command {
                            SceneCommand::Wait(seconds) => {
                                self.wait_remaining = seconds;
                            },
                            SceneCommand::Spawn(object) => {
                                let ghost o = object;
                                let ghost cmid = *ctx;
                                match Self::apply_object(object, ctx) {
                                    Ok(_) => {
                                        proof {
                                            lemma_objects_applied_snoc(
                                                done,
                                                o,
                                                *old(ctx),
                                                cmid,
                                                *ctx,
                                            );
                                            lemma_apply_fold_decompose(done, seq![o], e0, no0, nt0);
                                            lemma_cleanly_decompose(
                                                done,
                                                seq![o],
                                                e0,
                                                no0,
                                                nt0,
                                                old(ctx).textures,
                                            );
                                            let f = apply_fold(done, e0, no0, nt0);
                                            assert(seq![o][0] == o);
                                            assert(seq![o].drop_first()
                                                =~= Seq::<SceneObject>::empty());
                                            match o {
                                                SceneObject::Sprite(s) => {
                                                    lemma_transition_step(
                                                        cmid.renderer,
                                                        ctx.renderer,
                                                        s,
                                                        cmid.textures.has_path(s.texture_path@),
                                                    );
                                                    assert(upsert_step_ok(
                                                        f.0,
                                                        f.1,
                                                        f.2,
                                                        s,
                                                        old(ctx).textures.has_path(
                                                            s.texture_path@,
                                                        ),
                                                    ));
                                                    let st = upsert_step_entries(f.0, f.1, f.2, s);
                                                    assert(objects_apply_cleanly(
                                                        Seq::<SceneObject>::empty(),
                                                        st.0,
                                                        st.1,
                                                        st.2,
                                                        old(ctx).textures,
                                                    ));
                                                    assert(objects_apply_cleanly(
                                                        seq![o],
                                                        f.0,
                                                        f.1,
                                                        f.2,
                                                        old(ctx).textures,
                                                    ));
                                                    assert(apply_fold(
                                                        Seq::<SceneObject>::empty(),
                                                        st.0,
                                                        st.1,
                                                        st.2,
                                                    ) == (st.0, st.1, st.2));
                                                    assert(apply_fold(seq![o], f.0, f.1, f.2).0
                                                        == st.0);
                                                    assert(apply_fold(seq![o], f.0, f.1, f.2).1
                                                        == st.1);
                                                    assert(apply_fold(seq![o], f.0, f.1, f.2).2
                                                        == st.2);
                                                },
                                                SceneObject::Dialogue(_) => {
                                                    assert(objects_apply_cleanly(
                                                        Seq::<SceneObject>::empty(),
                                                        f.0,
                                                        f.1,
                                                        f.2,
                                                        old(ctx).textures,
                                                    ));
                                                    assert(objects_apply_cleanly(
                                                        seq![o],
                                                        f.0,
                                                        f.1,
                                                        f.2,
                                                        old(ctx).textures,
                                                    ));
                                                    assert(apply_fold(
                                                        Seq::<SceneObject>::empty(),
                                                        f.0,
                                                        f.1,
                                                        f.2,
                                                    ) == (f.0, f.1, f.2));
                                                    assert(apply_fold(seq![o], f.0, f.1, f.2).0
                                                        == f.0);
                                                    assert(apply_fold(seq![o], f.0, f.1, f.2).1
                                                        == f.1);
                                                    assert(apply_fold(seq![o], f.0, f.1, f.2).2
                                                        == f.2);
                                                },
                                            }
                                            assert(objects_apply_cleanly(
                                                done + seq![o],
                                                e0,
                                                no0,
                                                nt0,
                                                old(ctx).textures,
                                            ));
                                            assert(done.push(o) =~= done + seq![o]);
                                            done = done.push(o);
                                            assert(done + timeline_run(
                                                self.pending@,
                                                0,
                                                time_left as int,
                                            ).0 =~= done.drop_last() + (seq![o] + timeline_run(
                                                self.pending@,
                                                0,
                                                time_left as int,
                                            ).0));
                                        }
                                    },
                                    Err(e) => {
                                        proof {
                                            lemma_timeline_abort(
                                                full,
                                                done,
                                                pre_pending,
                                                o,
                                                *old(ctx),
                                                *ctx,
                                                e0,
                                                no0,
                                                nt0,
                                                time_left as int,
                                            );
                                        }
                                        return Err(e);
                                    },
                                }
                            },
                            SceneCommand::Apply(object) => {
                                let ghost o = object;
                                let ghost cmid = *ctx;
                                match Self::apply_object(object, ctx) {
                                    Ok(_) => {
                                        proof {
                                            lemma_objects_applied_snoc(
                                                done,
                                                o,
                                                *old(ctx),
                                                cmid,
                                                *ctx,
                                            );
                                            lemma_apply_fold_decompose(done, seq![o], e0, no0, nt0);
                                            lemma_cleanly_decompose(
                                                done,
                                                seq![o],
                                                e0,
                                                no0,
                                                nt0,
                                                old(ctx).textures,
                                            );
                                            let f = apply_fold(done, e0, no0, nt0);
                                            assert(seq![o][0] == o);
                                            assert(seq![o].drop_first()
                                                =~= Seq::<SceneObject>::empty());
                                            match o {
                                                SceneObject::Sprite(s) => {
                                                    lemma_transition_step(
                                                        cmid.renderer,
                                                        ctx.renderer,
                                                        s,
                                                        cmid.textures.has_path(s.texture_path@),
                                                    );
                                                    assert(upsert_step_ok(
                                                        f.0,
                                                        f.1,
                                                        f.2,
                                                        s,
                                                        old(ctx).textures.has_path(
                                                            s.texture_path@,
                                                        ),
                                                    ));
                                                    let st = upsert_step_entries(f.0, f.1, f.2, s);
                                                    assert(objects_apply_cleanly(
                                                        Seq::<SceneObject>::empty(),
                                                        st.0,
                                                        st.1,
                                                        st.2,
                                                        old(ctx).textures,
                                                    ));
                                                    assert(objects_apply_cleanly(
                                                        seq![o],
                                                        f.0,
                                                        f.1,
                                                        f.2,
                                                        old(ctx).textures,
                                                    ));
                                                    assert(apply_fold(
                                                        Seq::<SceneObject>::empty(),
                                                        st.0,
                                                        st.1,
                                                        st.2,
                                                    ) == (st.0, st.1, st.2));
                                                    assert(apply_fold(seq![o], f.0, f.1, f.2).0
                                                        == st.0);
                                                    assert(apply_fold(seq![o], f.0, f.1, f.2).1
                                                        == st.1);
                                                    assert(apply_fold(seq![o], f.0, f.1, f.2).2
                                                        == st.2);
                                                },
                                                SceneObject::Dialogue(_) => {
                                                    assert(objects_apply_cleanly(
                                                        Seq::<SceneObject>::empty(),
                                                        f.0,
                                                        f.1,
                                                        f.2,
                                                        old(ctx).textures,
                                                    ));
                                                    assert(objects_apply_cleanly(
                                                        seq![o],
                                                        f.0,
                                                        f.1,
                                                        f.2,
                                                        old(ctx).textures,
                                                    ));
                                                    assert(apply_fold(
                                                        Seq::<SceneObject>::empty(),
                                                        f.0,
                                                        f.1,
                                                        f.2,
                                                    ) == (f.0, f.1, f.2));
                                                    assert(apply_fold(seq![o], f.0, f.1, f.2).0
                                                        == f.0);
                                                    assert(apply_fold(seq![o], f.0, f.1, f.2).1
                                                        == f.1);
                                                    assert(apply_fold(seq![o], f.0, f.1, f.2).2
                                                        == f.2);
                                                },
                                            }
                                            assert(objects_apply_cleanly(
                                                done + seq![o],
                                                e0,
                                                no0,
                                                nt0,
                                                old(ctx).textures,
                                            ));
                                            assert(done.push(o) =~= done + seq![o]);
                                            done = done.push(o);
                                            assert(done + timeline_run(
                                                self.pending@,
                                                0,
                                                time_left as int,
                                            ).0 =~= done.drop_last() + (seq![o] + timeline_run(
                                                self.pending@,
                                                0,
                                                time_left as int,
                                            ).0));
                                        }
                                    },
                                    Err(e) => {
                                        proof {
                                            lemma_timeline_abort(
                                                full,
                                                done,
                                                pre_pending,
                                                o,
                                                *old(ctx),
                                                *ctx,
                                                e0,
                                                no0,
                                                nt0,
                                                time_left as int,
                                            );
                                        }
                                        return Err(e);
                                    },
                                }
                            },
                        }
                    },
                }
            }
        }
        proof {
            assert(objects_applied(full.0, *old(ctx), *ctx));
            assert(objects_apply_cleanly(full.0, e0, no0, nt0, old(ctx).textures));
        }
        Ok(())
    }

    /// The bootstrap call: execute what needs no elapsed time.
    pub fn start(&mut self, ctx: &mut ScriptContext) -> (r: Result<(), RenderError>)
        requires
            old(ctx).wf(),
        ensures
            final(ctx).wf(),
            timeline_step_rel(*old(self), *final(self), *old(ctx), *final(ctx), 0, r),
    {
        self.process_commands(0, ctx)
    }

    /// The per-frame call: spend `dt` milliseconds of frame time.
    pub fn update(&mut self, dt: u64, ctx: &mut ScriptContext) -> (r: Result<(), RenderError>)
        requires
            old(ctx).wf(),
        ensures
            final(ctx).wf(),
            timeline_step_rel(*old(self), *final(self), *old(ctx), *final(ctx), dt as int, r),
    {
        self.process_commands(dt, ctx)
    }

    /// A skip zeroes the pending wait and touches nothing else, so the next
    /// update drains commands up to (not past) the next unresolved wait.
    pub fn on_signal(&mut self, signal: ScriptSignal)
        ensures
            *final(self) == (TimelineScript { wait_remaining: 0, ..*old(self) }),
    {
        match signal {
            ScriptSignal::SkipWait => {
                self.wait_remaining = 0;
            },
        }
    }

    /// Finished exactly when the queue is empty and no wait is pending.
    pub fn is_finished(&self) -> (r: bool)
        ensures
            r == (self.pending@.len() == 0 && self.wait_remaining == 0),
    {
        self.pending.len() == 0 && self.wait_remaining == 0
    }
}

/// One behavior unit; the set of units this scene runs is closed.
#[derive(Debug)]
pub enum ScriptKind {
    Timeline(TimelineScript),
    Blink(BlinkSpriteScript),
    Game(Game),
}

impl ScriptKind {
    /// Validity of the unit's own state.
    pub open spec fn wf(self) -> bool {
        match self {
            ScriptKind::Timeline(_) => true,
            ScriptKind::Blink(b) => b.wf(),
            ScriptKind::Game(_) => true,
        }
    }

    /// A finished unit is skipped for the rest of the run.
    pub open spec fn finished_spec(self) -> bool {
        match self {
            ScriptKind::Timeline(t) => t.pending@.len() == 0 && t.wait_remaining == 0,
            ScriptKind::Blink(_) => false,
            ScriptKind::Game(g) => g.finished,
        }
    }

    pub fn is_finished(&self) -> (r: bool)
        ensures
            r == self.finished_spec(),
    {
        match self {
            ScriptKind::Timeline(t) => t.is_finished(),
            ScriptKind::Blink(_) => false,
            ScriptKind::Game(g) => g.is_finished(),
        }
    }

    fn start(&mut self, ctx: &mut ScriptContext) -> (r: Result<(), RenderError>)
        requires
            old(self).wf(),
            old(ctx).wf(),
        ensures
            final(self).wf(),
            final(ctx).wf(),
            final(ctx).textures == old(ctx).textures,
            script_start_rel(*old(self), *final(self), *old(ctx), *final(ctx), r),
    {
        match self {
            ScriptKind::Timeline(t) => t.start(ctx),
            ScriptKind::Blink(b) => b.start(ctx),
            ScriptKind::Game(g) => g.start(ctx),
        }
    }

    fn update(&mut self, dt: u64, ctx: &mut ScriptContext) -> (r: Result<(), RenderError>)
        requires
            old(self).wf(),
            old(ctx).wf(),
        ensures
            final(self).wf(),
            final(ctx).wf(),
            final(ctx).textures == old(ctx).textures,
            script_update_rel(*old(self), *final(self), *old(ctx), *final(ctx), dt as int, r),
    {
        match self {
            ScriptKind::Timeline(t) => t.update(dt, ctx),
            ScriptKind::Blink(b) => b.update(dt, ctx),
            ScriptKind::Game(g) => g.update(dt, ctx),
        }
    }

    /// How a signal changes the unit, synchronously and in place.
    pub open spec fn signal_spec(self, signal: ScriptSignal) -> ScriptKind {
        match self {
            ScriptKind::Timeline(t) => ScriptKind::Timeline(
                TimelineScript { wait_remaining: 0, ..t },
            ),
            ScriptKind::Blink(b) => ScriptKind::Blink(b),
            ScriptKind::Game(g) => ScriptKind::Game(
                crate::scripts::Game { close_requested: true, skip_signal_received: true, ..g },
            ),
        }
    }

    fn on_signal(&mut self, signal: ScriptSignal)
        ensures
            *final(self) == old(self).signal_spec(signal),
    {
        match self {
            ScriptKind::Timeline(t) => t.on_signal(signal),
            ScriptKind::Blink(_) => {},
            ScriptKind::Game(g) => g.on_signal(signal),
        }
    }
}

/// What a unit's bootstrap does, by variant.
pub open spec fn script_start_rel(
    pre: ScriptKind,
    post: ScriptKind,
    cpre: ScriptContext,
    cpost: ScriptContext,
    r: Result<(), RenderError>,
) -> bool {
    match pre {
        ScriptKind::Timeline(t) => post matches ScriptKind::Timeline(t2) && timeline_step_rel(
            t,
            t2,
            cpre,
            cpost,
            0,
            r,
        ),
        ScriptKind::Blink(b) => post matches ScriptKind::Blink(b2) && blink_start_rel(
            b,
            b2,
            cpre,
            cpost,
            r,
        ),
        ScriptKind::Game(g) => post matches ScriptKind::Game(g2) && game_start_rel(
            g,
            g2,
            cpre,
            cpost,
            r,
        ),
    }
}

/// What one frame of a unit does, by variant.
pub open spec fn script_update_rel(
    pre: ScriptKind,
    post: ScriptKind,
    cpre: ScriptContext,
    cpost: ScriptContext,
    dt: int,
    r: Result<(), RenderError>,
) -> bool {
    match pre {
        ScriptKind::Timeline(t) => post matches ScriptKind::Timeline(t2) && timeline_step_rel(
            t,
            t2,
            cpre,
            cpost,
            dt,
            r,
        ),
        ScriptKind::Blink(b) => post matches ScriptKind::Blink(b2) && blink_update_rel(
            b,
            b2,
            cpre,
            cpost,
            dt,
            r,
        ),
        ScriptKind::Game(g) => post matches ScriptKind::Game(g2) && game_update_rel(
            g,
            g2,
            cpre,
            cpost,
            dt,
            r,
        ),
    }
}

/// A registered unit and whether its `start` has run.
#[derive(Debug)]
pub struct ScriptEntry {
    pub script: ScriptKind,
    pub started: bool,
}

/// The bootstrap phase of one unit in a frame: an already started unit is
/// taken as is; an unstarted one runs `start` first, even when it already
/// reports finished.
pub open spec fn script_phase(
    pre: ScriptEntry,
    ms: ScriptKind,
    cpre: ScriptContext,
    mc: ScriptContext,
) -> bool {
    if pre.started {
        ms == pre.script && mc == cpre
    } else {
        script_start_rel(pre.script, ms, cpre, mc, Ok(()))
    }
}

/// What processing one registered unit in a frame does: a started unit
/// that reports finished is untouched; any other unit ends started, its
/// bootstrap phase runs first, and it is updated unless it reports
/// finished right after that phase.
pub open spec fn runner_entry_rel(
    pre: ScriptEntry,
    post: ScriptEntry,
    cpre: ScriptContext,
    cpost: ScriptContext,
    dt: int,
) -> bool {
    if pre.started && pre.script.finished_spec() {
        post == pre && cpost == cpre
    } else {
        exists|ms: ScriptKind, mc: ScriptContext|
            {
                &&& #[trigger] script_phase(pre, ms, cpre, mc)
                &&& post.started
                &&& if ms.finished_spec() {
                    post.script == ms && cpost == mc
                } else {
                    script_update_rel(ms, post.script, mc, cpost, dt, Ok(()))
                }
            }
    }
}

/// A successful frame processes the units front to back, threading the
/// context through them.
pub open spec fn runner_rel(
    pres: Seq<ScriptEntry>,
    posts: Seq<ScriptEntry>,
    cpre: ScriptContext,
    cpost: ScriptContext,
    dt: int,
) -> bool
    decreases pres.len(),
{
    if pres.len() == 0 {
        posts.len() == 0 && cpost == cpre
    } else {
        posts.len() == pres.len() && exists|mc: ScriptContext|
            #[trigger] runner_entry_rel(pres[0], posts[0], cpre, mc, dt) && runner_rel(
                pres.drop_first(),
                posts.drop_first(),
                mc,
                cpost,
                dt,
            )
    }
}

/// The failing unit's own step: either its bootstrap failed, in which
/// case its started flag stays down so the bootstrap is retried next
/// frame; or its bootstrap phase went through and its update failed.
pub open spec fn script_failed_rel(
    pre: ScriptEntry,
    post: ScriptEntry,
    cpre: ScriptContext,
    cpost: ScriptContext,
    dt: int,
    e: RenderError,
) -> bool {
    ||| (!pre.started && !post.started && script_start_rel(
        pre.script,
        post.script,
        cpre,
        cpost,
        Err(e),
    ))
    ||| (post.started && exists|ms: ScriptKind, mc: ScriptContext|
        #[trigger] script_phase(pre, ms, cpre, mc) && !ms.finished_spec() && script_update_rel(
            ms,
            post.script,
            mc,
            cpost,
            dt,
            Err(e),
        ))
}

/// An errored frame stopped at unit `j`: the units before it processed as
/// on a successful frame, the unit at `j` returned exactly this error,
/// and every later unit is untouched.
pub open spec fn runner_aborted_at(
    pres: Seq<ScriptEntry>,
    posts: Seq<ScriptEntry>,
    cpre: ScriptContext,
    cpost: ScriptContext,
    dt: int,
    e: RenderError,
    j: int,
) -> bool {
    &&& 0 <= j < pres.len()
    &&& posts.len() == pres.len()
    &&& !(pres[j].started && pres[j].script.finished_spec())
    &&& (forall|k: int| j < k < pres.len() ==> posts[k] == pres[k])
    &&& exists|mc: ScriptContext|
        #[trigger] runner_rel(pres.take(j), posts.take(j), cpre, mc, dt) && script_failed_rel(
            pres[j],
            posts[j],
            mc,
            cpost,
            dt,
            e,
        )
}

/// Some unit aborted the frame with this error.
pub open spec fn runner_aborted(
    pres: Seq<ScriptEntry>,
    posts: Seq<ScriptEntry>,
    cpre: ScriptContext,
    cpost: ScriptContext,
    dt: int,
    e: RenderError,
) -> bool {
    exists|j: int| #[trigger] runner_aborted_at(pres, posts, cpre, cpost, dt, e, j)
}

/// Appending one processed unit extends a successful frame.
proof fn lemma_runner_rel_snoc(
    pres: Seq<ScriptEntry>,
    posts: Seq<ScriptEntry>,
    x: ScriptEntry,
    y: ScriptEntry,
    c0: ScriptContext,
    c1: ScriptContext,
    c2: ScriptContext,
    dt: int,
)
    requires
        runner_rel(pres, posts, c0, c1, dt),
        runner_entry_rel(x, y, c1, c2, dt),
    ensures
        runner_rel(pres.push(x), posts.push(y), c0, c2, dt),
    decreases pres.len(),
{
    if pres.len() == 0 {
        assert(pres.push(x)[0] == x && posts.push(y)[0] == y);
        assert(pres.push(x).drop_first() =~= pres);
        assert(posts.push(y).drop_first() =~= posts);
        assert(runner_entry_rel(pres.push(x)[0], posts.push(y)[0], c0, c2, dt) && runner_rel(
            pres.push(x).drop_first(),
            posts.push(y).drop_first(),
            c2,
            c2,
            dt,
        ));
    } else {
        let mc = choose|mc: ScriptContext|
            #[trigger] runner_entry_rel(pres[0], posts[0], c0, mc, dt) && runner_rel(
                pres.drop_first(),
                posts.drop_first(),
                mc,
                c1,
                dt,
            );
        lemma_runner_rel_snoc(pres.drop_first(), posts.drop_first(), x, y, mc, c1, c2, dt);
        assert(pres.push(x)[0] == pres[0] && posts.push(y)[0] == posts[0]);
        assert(pres.push(x).drop_first() =~= pres.drop_first().push(x));
        assert(posts.push(y).drop_first() =~= posts.drop_first().push(y));
        assert(runner_entry_rel(pres.push(x)[0], posts.push(y)[0], c0, mc, dt) && runner_rel(
            pres.push(x).drop_first(),
            posts.push(y).drop_first(),
            mc,
            c2,
            dt,
        ));
    }
}

/// Drives the behavior units: start-once then update-every-frame, in
/// registration order; one failing unit aborts the rest of the frame.
#[derive(Debug)]
pub struct SceneRunner {
    pub scripts: Vec<ScriptEntry>,
}

impl SceneRunner {
    /// Every registered unit's own state is valid.
    pub open spec fn wf(self) -> bool {
        forall|i: int| 0 <= i < self.scripts@.len() ==> (#[trigger] self.scripts@[i].script).wf()
    }

    pub fn new() -> (r: Self)
        ensures
            r.scripts@.len() == 0,
    {
        Self { scripts: Vec::new() }
    }

    pub fn with_scripts(scripts: Vec<ScriptKind>) -> (r: Self)
        ensures
            r.scripts@.len() == scripts@.len(),
            forall|i: int|
                0 <= i < scripts@.len() ==> #[trigger] r.scripts@[i] == (ScriptEntry {
                    script: scripts@[i],
                    started: false,
                }),
    {
        let mut runner = Self::new();
        let n = scripts.len();
        let ghost scripts_view = scripts@;
        let mut rest = scripts;
        let mut i: usize = 0;
        loop
            invariant
                runner.scripts@.len() + rest@.len() == scripts_view.len(),
                rest@ == scripts_view.skip(runner.scripts@.len() as int),
                forall|j: int|
                    0 <= j < runner.scripts@.len() ==> #[trigger] runner.scripts@[j] == (ScriptEntry {
                        script: scripts_view[j],
                        started: false,
                    }),
            ensures
                runner.scripts@.len() == scripts_view.len(),
                forall|j: int|
                    0 <= j < runner.scripts@.len() ==> #[trigger] runner.scripts@[j] == (ScriptEntry {
                        script: scripts_view[j],
                        started: false,
                    }),
            decreases rest@.len(),
        {
            if rest.len() == 0 {
                break ;
            }
            let s = rest.remove(0);
            proof {
                assert(scripts_view.skip(runner.scripts@.len() as int)[0] == scripts_view[runner.scripts@.len() as int]);
                assert(scripts_view.skip(runner.scripts@.len() as int).drop_first()
                    =~= scripts_view.skip(runner.scripts@.len() + 1int));
            }
            runner.add_script(s);
        }
        runner
    }

    /// Register a unit; it starts on the next update cycle.
    pub fn add_script(&mut self, script: ScriptKind)
        ensures
            final(self).scripts@ == old(self).scripts@.push(
                ScriptEntry { script, started: false },
            ),
    {
        self.scripts.push(ScriptEntry { script, started: false });
    }

    /// Broadcast a signal to every unit, finished or not, in registration
    /// order.
    pub fn send_signal(&mut self, signal: ScriptSignal)
        ensures
            final(self).scripts@.len() == old(self).scripts@.len(),
            forall|i: int|
                0 <= i < old(self).scripts@.len() ==> #[trigger] final(self).scripts@[i]
                    == (ScriptEntry {
                    script: old(self).scripts@[i].script.signal_spec(signal),
                    started: old(self).scripts@[i].started,
                }),
    {
        let n = self.scripts.len();
        let mut i: usize = 0;
        while i < n
            invariant
                n == self.scripts@.len(),
                n == old(self).scripts@.len(),
                0 <= i <= n,
                forall|j: int|
                    i <= j < n ==> #[trigger] self.scripts@[j] == old(self).scripts@[j],
                forall|j: int|
                    0 <= j < i ==> #[trigger] self.scripts@[j] == (ScriptEntry {
                        script: old(self).scripts@[j].script.signal_spec(signal),
                        started: old(self).scripts@[j].started,
                    }),
            decreases n - i,
        {
            let entry = &mut self.scripts[i];
            entry.script.on_signal(signal);
            i += 1;
        }
    }

    /// The whole scene is finished when every unit reports finished.
    pub fn is_finished(&self) -> (r: bool)
        ensures
            r == forall|i: int|
                0 <= i < self.scripts@.len() ==> (#[trigger] self.scripts@[i].script).finished_spec(),
    {
        let n = self.scripts.len();
        let mut i: usize = 0;
        while i < n
            invariant
                n == self.scripts@.len(),
                0 <= i <= n,
                forall|j: int|
                    0 <= j < i ==> (#[trigger] self.scripts@[j].script).finished_spec(),
            decreases n - i,
        {
            if !self.scripts[i].script.is_finished() {
                return false;
            }
            i += 1;
        }
        true
    }

    /// One frame: the units run in registration order.  A unit whose
    /// `start` has not run is started first, even when it already reports
    /// finished; a unit reporting finished after its bootstrap gets no
    /// update, then or on any later frame.  The first error aborts the
    /// remaining units for this frame; a unit whose `start` failed stays
    /// unstarted, so its bootstrap is retried next frame.
    pub fn update(&mut self, dt: u64, ctx: &mut ScriptContext) -> (r: Result<(), RenderError>)
        requires
            old(self).wf(),
            old(ctx).wf(),
        ensures
            final(self).wf(),
            final(ctx).wf(),
            final(ctx).textures == old(ctx).textures,
            final(self).scripts@.len() == old(self).scripts@.len(),
            forall|i: int|
                0 <= i < old(self).scripts@.len() && old(self).scripts@[i].started
                    ==> (#[trigger] final(self).scripts@[i]).started,
            forall|i: int|
                0 <= i < old(self).scripts@.len() && old(self).scripts@[i].started
                    && (#[trigger] old(self).scripts@[i].script).finished_spec()
                    ==> final(self).scripts@[i] == old(self).scripts@[i],
            r is Ok ==> forall|i: int|
                0 <= i < old(self).scripts@.len() ==> (#[trigger] final(self).scripts@[i]).started,
            r is Ok ==> runner_rel(
                old(self).scripts@,
                final(self).scripts@,
                *old(ctx),
                *final(ctx),
                dt as int,
            ),
            r matches Err(e) ==> runner_aborted(
                old(self).scripts@,
                final(self).scripts@,
                *old(ctx),
                *final(ctx),
                dt as int,
                e,
            ),
    {
        let n = self.scripts.len();
        let mut i: usize = 0;
        while i < n
            invariant
                ctx.wf(),
                ctx.textures == old(ctx).textures,
                self.wf(),
                n == self.scripts@.len(),
                n == old(self).scripts@.len(),
                0 <= i <= n,
                forall|j: int|
                    i <= j < n ==> #[trigger] self.scripts@[j] == old(self).scripts@[j],
                forall|j: int| 0 <= j < i ==> (#[trigger] self.scripts@[j]).started,
                forall|j: int|
                    0 <= j < i && old(self).scripts@[j].started
                        && (#[trigger] old(self).scripts@[j].script).finished_spec()
                        ==> self.scripts@[j] == old(self).scripts@[j],
                runner_rel(
                    old(self).scripts@.take(i as int),
                    self.scripts@.take(i as int),
                    *old(ctx),
                    *ctx,
                    dt as int,
                ),
            decreases n - i,
        {
            let ghost entry_pre = self.scripts@[i as int];
            let ghost scripts_head = self.scripts@;
            let ghost c_entry = *ctx;
            if self.scripts[i].started && self.scripts[i].script.is_finished() {
                proof {
                    assert(runner_entry_rel(entry_pre, self.scripts@[i as int], *ctx, *ctx, dt as int));
                    lemma_runner_rel_snoc(
                        old(self).scripts@.take(i as int),
                        self.scripts@.take(i as int),
                        entry_pre,
                        self.scripts@[i as int],
                        *old(ctx),
                        *ctx,
                        *ctx,
                        dt as int,
                    );
                    assert(old(self).scripts@.take(i + 1int) =~= old(self).scripts@.take(
                        i as int,
                    ).push(old(self).scripts@[i as int]));
                    assert(self.scripts@.take(i + 1int) =~= self.scripts@.take(i as int).push(
                        self.scripts@[i as int],
                    ));
                }
                i += 1;
                continue ;
            }
            if !self.scripts[i].started {
                let entry = &mut self.scripts[i];
                let sres = entry.script.start(ctx);
                match sres {
                    Ok(_) => {
                        proof {
                            match sres {
                                Ok(u) => {
                                    assert(u == ());
                                    assert(sres == Ok::<(), RenderError>(()));
                                },
                                Err(_) => {},
                            }
                        }
                    },
                    Err(e) => {
                        proof {
                            assert(self.scripts@.take(i as int) =~= scripts_head.take(i as int));
                            assert(script_failed_rel(
                                entry_pre,
                                self.scripts@[i as int],
                                c_entry,
                                *ctx,
                                dt as int,
                                e,
                            ));
                            assert(runner_rel(
                                old(self).scripts@.take(i as int),
                                self.scripts@.take(i as int),
                                *old(ctx),
                                c_entry,
                                dt as int,
                            ));
                            assert(runner_aborted_at(
                                old(self).scripts@,
                                self.scripts@,
                                *old(ctx),
                                *ctx,
                                dt as int,
                                e,
                                i as int,
                            ));
                        }
                        return Err(e);
                    },
                }
                entry.started = true;
            }
            let ghost ms = self.scripts@[i as int].script;
            let ghost mc = *ctx;
            proof {
                assert(self.scripts@.take(i as int) =~= scripts_head.take(i as int));
                assert(script_phase(entry_pre, ms, c_entry, mc));
            }
            if self.scripts[i].script.is_finished() {
                proof {
                    assert(self.scripts@[i as int] == (ScriptEntry { script: ms, started: true }));
                    assert(runner_entry_rel(entry_pre, self.scripts@[i as int], c_entry, *ctx, dt as int));
                    lemma_runner_rel_snoc(
                        old(self).scripts@.take(i as int),
                        self.scripts@.take(i as int),
                        entry_pre,
                        self.scripts@[i as int],
                        *old(ctx),
                        c_entry,
                        *ctx,
                        dt as int,
                    );
                    assert(old(self).scripts@.take(i + 1int) =~= old(self).scripts@.take(
                        i as int,
                    ).push(old(self).scripts@[i as int]));
                    assert(self.scripts@.take(i + 1int) =~= self.scripts@.take(i as int).push(
                        self.scripts@[i as int],
                    ));
                }
                i += 1;
                continue ;
            }
            let entry = &mut self.scripts[i];
            let ures = entry.script.update(dt, ctx);
            match ures {
                Ok(_) => {
                    proof {
                        match ures {
                            Ok(u) => {
                                assert(u == ());
                                assert(ures == Ok::<(), RenderError>(()));
                            },
                            Err(_) => {},
                        }
                        assert(self.scripts@.take(i as int) =~= scripts_head.take(i as int));
                        assert(runner_entry_rel(entry_pre, self.scripts@[i as int], c_entry, *ctx, dt as int));
                        lemma_runner_rel_snoc(
                            old(self).scripts@.take(i as int),
                            self.scripts@.take(i as int),
                            entry_pre,
                            self.scripts@[i as int],
                            *old(ctx),
                            c_entry,
                            *ctx,
                            dt as int,
                        );
                        assert(old(self).scripts@.take(i + 1int) =~= old(self).scripts@.take(
                            i as int,
                        ).push(old(self).scripts@[i as int]));
                        assert(self.scripts@.take(i + 1int) =~= self.scripts@.take(i as int).push(
                            self.scripts@[i as int],
                        ));
                    }
                },
                Err(e) => {
                    proof {
                        assert(self.scripts@.take(i as int) =~= scripts_head.take(i as int));
                        assert((self.scripts@[i as int]).started);
                        assert(script_failed_rel(
                            entry_pre,
                            self.scripts@[i as int],
                            c_entry,
                            *ctx,
                            dt as int,
                            e,
                        ));
                        assert(runner_rel(
                            old(self).scripts@.take(i as int),
                            self.scripts@.take(i as int),
                            *old(ctx),
                            c_entry,
                            dt as int,
                        ));
                        assert(runner_aborted_at(
                            old(self).scripts@,
                            self.scripts@,
                            *old(ctx),
                            *ctx,
                            dt as int,
                            e,
                            i as int,
                        ));
                    }
                    return Err(e);
                },
            }
            i += 1;
        }
        proof {
            assert(old(self).scripts@.take(n as int) =~= old(self).scripts@);
            assert(self.scripts@.take(n as int) =~= self.scripts@);
        }
        Ok(())
    }
}

} // verus!
