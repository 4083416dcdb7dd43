//! The render object synchronizer: owns the live, draw-ordered collection of
//! render entries and reconciles sprite definitions against it by identity
//! key, reusing backing resources whenever it can.
//!
//! Backing GPU resources are modeled by plain identities: each entry carries
//! a texture id (a fresh id means the texture binding was created anew) and a
//! count of writes to its transform buffer.  The transform buffer itself is
//! identified by the entry's insertion-order counter and lives for as long as
//! the entry does.  The caller owns the actual device objects, keyed by these
//! identities, and performs the image decoding: an upsert is handed the
//! outcome of the load it may need (`load_ok`), and commits nothing when a
//! needed load failed.

use vstd::prelude::*;

use crate::game_object::{layer_order, sprite_key, GameObject2D, RenderLayer};

verus! {

/// Why an upsert failed; a failed upsert leaves the synchronizer unchanged.
#[derive(Debug, Clone)]
pub enum RenderError {
    /// The texture image for this path could not be loaded.
    TextureLoad(String),
    /// An id counter is exhausted: no further backing resource can be named.
    CapacityExhausted,
}

/// One live entry: the last-applied definition plus the identities of its
/// backing resources.
#[derive(Debug, Clone)]
pub struct RenderEntry {
    /// The last-applied sprite definition.
    pub object: GameObject2D,
    /// Insertion-order tiebreak; also identifies the transform buffer.
    pub order: u64,
    /// Identity of the texture binding; changes exactly when the binding is
    /// destroyed and recreated.
    pub texture_id: u64,
    /// How many times the transform buffer has been written.
    pub transform_writes: u64,
}

/// Draw order: layer ascending, then z-index ascending, then insertion order
/// ascending.
pub open spec fn entry_le(a: RenderEntry, b: RenderEntry) -> bool {
    let la = layer_order(a.object.layer);
    let lb = layer_order(b.object.layer);
    ||| la < lb
    ||| (la == lb && a.object.z_index < b.object.z_index)
    ||| (la == lb && a.object.z_index == b.object.z_index && a.order <= b.order)
}

pub open spec fn entries_sorted(s: Seq<RenderEntry>) -> bool {
    forall|i: int, j: int| 0 <= i < j < s.len() ==> entry_le(s[i], s[j])
}

/// Whether some entry carries this identity key.
pub open spec fn has_key(s: Seq<RenderEntry>, key: Seq<char>) -> bool {
    exists|i: int| 0 <= i < s.len() && sprite_key(s[i].object) == key
}

/// The index of the entry carrying this key (unique in a well-formed list).
pub open spec fn key_index(s: Seq<RenderEntry>, key: Seq<char>) -> int {
    choose|i: int| 0 <= i < s.len() && sprite_key(s[i].object) == key
}

/// Whether reconciling `o` against `s` requires loading its texture image:
/// the key is new, or the entry exists with a different texture reference.
pub open spec fn needs_load(s: Seq<RenderEntry>, o: GameObject2D) -> bool {
    if has_key(s, sprite_key(o)) {
        s[key_index(s, sprite_key(o))].object.texture_path@ != o.texture_path@
    } else {
        true
    }
}

/// `i` is the position at which an entry ordered like `e` is inserted to
/// keep the list sorted: everything before it is `<= e` in draw order.
pub open spec fn is_insert_pos(s: Seq<RenderEntry>, e: RenderEntry, i: int) -> bool {
    &&& 0 <= i <= s.len()
    &&& forall|j: int| 0 <= j < i ==> entry_le(s[j], e)
    &&& i < s.len() ==> !entry_le(s[i], e)
}

/// The position at which an entry ordered like `e` lands: the first index
/// whose entry is not `<= e` in draw order, or the length.
pub open spec fn insert_pos_of(s: Seq<RenderEntry>, e: RenderEntry) -> int
    decreases s.len(),
{
    if s.len() == 0 {
        0
    } else if !entry_le(s[0], e) {
        0
    } else {
        1 + insert_pos_of(s.drop_first(), e)
    }
}

/// `insert_pos_of` is an insert position.
pub proof fn lemma_insert_pos_of_is_insert_pos(s: Seq<RenderEntry>, e: RenderEntry)
    ensures
        is_insert_pos(s, e, insert_pos_of(s, e)),
    decreases s.len(),
{
    if s.len() == 0 {
    } else if !entry_le(s[0], e) {
    } else {
        lemma_insert_pos_of_is_insert_pos(s.drop_first(), e);
        let p = insert_pos_of(s, e);
        assert forall|j: int| 0 <= j < p implies entry_le(s[j], e) by {
            if j > 0 {
                assert(s[j] == s.drop_first()[j - 1]);
            }
        }
        if p < s.len() {
            assert(s[p] == s.drop_first()[p - 1]);
        }
    }
}

/// Any two insert positions for the same entry coincide.
pub proof fn lemma_insert_pos_unique(s: Seq<RenderEntry>, e: RenderEntry, p1: int, p2: int)
    requires
        is_insert_pos(s, e, p1),
        is_insert_pos(s, e, p2),
    ensures
        p1 == p2,
{
    if p1 < p2 {
        assert(entry_le(s[p1], e));
    }
    if p2 < p1 {
        assert(entry_le(s[p2], e));
    }
}

/// A counter bump that sticks at the top of the range.
pub open spec fn sat_bump(n: u64) -> u64 {
    if n == u64::MAX {
        n
    } else {
        (n + 1) as u64
    }
}

proof fn lemma_entry_le_total(a: RenderEntry, b: RenderEntry)
    ensures
        entry_le(a, b) || entry_le(b, a),
{
}

proof fn lemma_entry_le_trans(a: RenderEntry, b: RenderEntry, c: RenderEntry)
    requires
        entry_le(a, b),
        entry_le(b, c),
    ensures
        entry_le(a, c),
{
}

/// Inserting at an insert position keeps the list sorted.
proof fn lemma_insert_sorted(s: Seq<RenderEntry>, e: RenderEntry, pos: int)
    requires
        entries_sorted(s),
        is_insert_pos(s, e, pos),
    ensures
        entries_sorted(s.insert(pos, e)),
{
    let t = s.insert(pos, e);
    assert forall|i: int, j: int| 0 <= i < j < t.len() implies entry_le(t[i], t[j]) by {
        if i == pos {
            // t[i] is e; t[j] is s[j - 1] with j - 1 >= pos.
            lemma_entry_le_total(s[pos], e);
            if j - 1 > pos {
                lemma_entry_le_trans(e, s[pos], s[j - 1]);
            }
        } else if j == pos {
            // t[j] is e; t[i] is s[i] with i < pos.
        } else if i < pos && j > pos {
            // Both sides come from s.
        }
    }
}

/// Inserting a fresh entry at its insert position keeps the collection
/// well-formed, provided its key and resource identities are unseen.
#[verifier::rlimit(60)]
proof fn lemma_insert_keeps_wf(pre: SceneRenderer, post: SceneRenderer, e: RenderEntry, pos: int)
    requires
        pre.wf(),
        is_insert_pos(pre.entries@, e, pos),
        post.entries@ == pre.entries@.insert(pos, e),
        post.next_order >= pre.next_order,
        post.next_texture_id >= pre.next_texture_id,
        e.order < post.next_order,
        e.texture_id < post.next_texture_id,
        forall|k: int|
            0 <= k < pre.entries@.len() ==> sprite_key(#[trigger] pre.entries@[k].object)
                != sprite_key(e.object),
        forall|k: int| 0 <= k < pre.entries@.len() ==> #[trigger] pre.entries@[k].order != e.order,
        forall|k: int|
            0 <= k < pre.entries@.len() ==> #[trigger] pre.entries@[k].texture_id != e.texture_id,
        forall|k: int|
            0 <= k < pre.entries@.len() ==> #[trigger] pre.entries@[k].order < post.next_order,
        forall|k: int|
            0 <= k < pre.entries@.len() ==> #[trigger] pre.entries@[k].texture_id
                < post.next_texture_id,
    ensures
        post.wf(),
{
    lemma_insert_sorted(pre.entries@, e, pos);
    let s = pre.entries@;
    let t = post.entries@;
    assert forall|a: int, b: int|
        0 <= a < t.len() && 0 <= b < t.len() && a != b implies sprite_key(t[a].object)
        != sprite_key(t[b].object) && t[a].order != t[b].order && t[a].texture_id
        != t[b].texture_id by {
        if a != pos && b != pos {
            let sa = if a < pos {
                a
            } else {
                a - 1
            };
            let sb = if b < pos {
                b
            } else {
                b - 1
            };
            assert(t[a] == s[sa]);
            assert(t[b] == s[sb]);
        } else if a == pos {
            let sb = if b < pos {
                b
            } else {
                b - 1
            };
            assert(t[b] == s[sb]);
        } else {
            let sa = if a < pos {
                a
            } else {
                a - 1
            };
            assert(t[a] == s[sa]);
        }
    }
    assert forall|a: int| 0 <= a < t.len() implies #[trigger] t[a].order < post.next_order
        && t[a].texture_id < post.next_texture_id by {
        if a != pos {
            let sa = if a < pos {
                a
            } else {
                a - 1
            };
            assert(t[a] == s[sa]);
        }
    }
}

/// Replacing an entry by one with the same key and draw-order fields keeps
/// the collection well-formed.
proof fn lemma_update_in_place_wf(pre: SceneRenderer, post: SceneRenderer, i: int, upd: RenderEntry)
    requires
        pre.wf(),
        0 <= i < pre.entries@.len(),
        post.entries@ == pre.entries@.update(i, upd),
        sprite_key(upd.object) == sprite_key(pre.entries@[i].object),
        upd.order == pre.entries@[i].order,
        layer_order(upd.object.layer) == layer_order(pre.entries@[i].object.layer),
        upd.object.z_index == pre.entries@[i].object.z_index,
        post.next_order == pre.next_order,
        post.next_texture_id >= pre.next_texture_id,
        upd.texture_id < post.next_texture_id,
        forall|k: int|
            0 <= k < pre.entries@.len() && k != i ==> #[trigger] pre.entries@[k].texture_id
                != upd.texture_id,
        forall|k: int|
            0 <= k < pre.entries@.len() ==> #[trigger] pre.entries@[k].texture_id
                < post.next_texture_id,
    ensures
        post.wf(),
{
    let s = pre.entries@;
    let t = post.entries@;
    assert forall|a: int, b: int| 0 <= a < b < t.len() implies entry_le(t[a], t[b]) by {
        assert(entry_le(s[a], s[b]));
    }
}

/// The fresh entry an insert creates.
pub open spec fn fresh_entry(st: SceneRenderer, o: GameObject2D) -> RenderEntry {
    RenderEntry { object: o, order: st.next_order, texture_id: st.next_texture_id, transform_writes: 1 }
}

/// The entry an in-place update leaves behind: the new definition, the old
/// insertion order and transform buffer, a fresh texture id only when the
/// texture reference changed, and one more transform write.
pub open spec fn updated_entry(st: SceneRenderer, i: int, o: GameObject2D) -> RenderEntry {
    let e = st.entries@[i];
    RenderEntry {
        object: o,
        order: e.order,
        texture_id: if e.object.texture_path@ != o.texture_path@ {
            st.next_texture_id
        } else {
            e.texture_id
        },
        transform_writes: sat_bump(e.transform_writes),
    }
}

/// Whether the id counters can name the resources this upsert may create,
/// over the entry view and the counter values.
pub open spec fn upsert_capacity_ok_at(
    entries: Seq<RenderEntry>,
    next_order: int,
    next_texture_id: int,
    o: GameObject2D,
) -> bool {
    if has_key(entries, sprite_key(o)) {
        needs_load(entries, o) ==> next_texture_id < u64::MAX as int
    } else {
        next_order < u64::MAX as int && next_texture_id < u64::MAX as int
    }
}

/// Whether the id counters can name the resources this upsert may create.
pub open spec fn upsert_capacity_ok(st: SceneRenderer, o: GameObject2D) -> bool {
    upsert_capacity_ok_at(st.entries@, st.next_order as int, st.next_texture_id as int, o)
}

/// Whether one upsert of `o` succeeds against this entry view, these
/// counters and this load outcome.
pub open spec fn upsert_step_ok(
    entries: Seq<RenderEntry>,
    next_order: int,
    next_texture_id: int,
    o: GameObject2D,
    load_ok: bool,
) -> bool {
    !(needs_load(entries, o) && !load_ok) && upsert_capacity_ok_at(
        entries,
        next_order,
        next_texture_id,
        o,
    )
}

/// What one successful upsert of `o` leaves: the new entry view and the
/// new order and texture-id counters.
pub open spec fn upsert_step_entries(
    entries: Seq<RenderEntry>,
    next_order: int,
    next_texture_id: int,
    o: GameObject2D,
) -> (Seq<RenderEntry>, int, int) {
    let key = sprite_key(o);
    if has_key(entries, key) {
        let i = key_index(entries, key);
        let changed = entries[i].object.texture_path@ != o.texture_path@;
        let upd = RenderEntry {
            object: o,
            order: entries[i].order,
            texture_id: if changed {
                next_texture_id as u64
            } else {
                entries[i].texture_id
            },
            transform_writes: sat_bump(entries[i].transform_writes),
        };
        let new_nt = if changed {
            next_texture_id + 1
        } else {
            next_texture_id
        };
        if layer_order(entries[i].object.layer) == layer_order(o.layer) && entries[i].object.z_index
            == o.z_index {
            (entries.update(i, upd), next_order, new_nt)
        } else {
            (
                entries.remove(i).insert(insert_pos_of(entries.remove(i), upd), upd),
                next_order,
                new_nt,
            )
        }
    } else {
        let fresh = RenderEntry {
            object: o,
            order: next_order as u64,
            texture_id: next_texture_id as u64,
            transform_writes: 1,
        };
        (entries.insert(insert_pos_of(entries, fresh), fresh), next_order + 1, next_texture_id + 1)
    }
}

/// Everything an upsert does, as a relation between the synchronizer
/// before (`pre`) and after (`post`) the call: when it fails and how, and
/// exactly which entry is inserted, rewritten or repositioned on success.
pub open spec fn upsert_transition(
    pre: SceneRenderer,
    post: SceneRenderer,
    object: GameObject2D,
    load_ok: bool,
    r: Result<(), RenderError>,
) -> bool {
    &&& post.viewport == pre.viewport
    &&& (r is Err ==> post == pre)
    &&& (r matches Err(RenderError::TextureLoad(p)) ==> p@ == object.texture_path@ && needs_load(
        pre.entries@,
        object,
    ) && !load_ok)
    &&& ((needs_load(pre.entries@, object) && !load_ok) ==> r matches Err(
        RenderError::TextureLoad(_),
    ))
    &&& (r matches Err(RenderError::CapacityExhausted) <==> !(needs_load(pre.entries@, object)
        && !load_ok) && !upsert_capacity_ok(pre, object))
    &&& (r is Ok <==> (!(needs_load(pre.entries@, object) && !load_ok) && upsert_capacity_ok(
        pre,
        object,
    )))
    &&& (r is Ok && !has_key(pre.entries@, sprite_key(object)) ==> {
        &&& post.entries@ == pre.entries@.insert(
            insert_pos_of(pre.entries@, fresh_entry(pre, object)),
            fresh_entry(pre, object),
        )
        &&& post.next_order == pre.next_order + 1
        &&& post.next_texture_id == pre.next_texture_id + 1
    })
    &&& (r is Ok && has_key(pre.entries@, sprite_key(object)) ==> {
        let s = pre.entries@;
        let i = key_index(s, sprite_key(object));
        let upd = updated_entry(pre, i, object);
        &&& post.next_order == pre.next_order
        &&& post.next_texture_id == if s[i].object.texture_path@ != object.texture_path@ {
            (pre.next_texture_id + 1) as u64
        } else {
            pre.next_texture_id
        }
        &&& if layer_order(s[i].object.layer) == layer_order(object.layer) && s[i].object.z_index
            == object.z_index {
            post.entries@ == s.update(i, upd)
        } else {
            post.entries@ == s.remove(i).insert(insert_pos_of(s.remove(i), upd), upd)
        }
    })
}

/// A successful upsert moves the entry view and the counters exactly as
/// [`upsert_step_entries`] says, and only succeeds where
/// [`upsert_step_ok`] allows.
pub proof fn lemma_transition_step(
    pre: SceneRenderer,
    post: SceneRenderer,
    o: GameObject2D,
    load_ok: bool,
)
    requires
        upsert_transition(pre, post, o, load_ok, Ok(())),
    ensures
        upsert_step_ok(pre.entries@, pre.next_order as int, pre.next_texture_id as int, o, load_ok),
        ({
            let st = upsert_step_entries(
                pre.entries@,
                pre.next_order as int,
                pre.next_texture_id as int,
                o,
            );
            post.entries@ == st.0 && post.next_order as int == st.1 && post.next_texture_id as int
                == st.2
        }),
{
}

/// The live collection of render entries, kept in draw order, with unique
/// identity keys and unique resource identities.
#[derive(Debug)]
pub struct SceneRenderer {
    /// Live entries in draw order.
    pub entries: Vec<RenderEntry>,
    /// Next insertion-order counter.
    pub next_order: u64,
    /// Next texture binding identity.
    pub next_texture_id: u64,
    /// Last told width and height of the render target, in pixels.
    pub viewport: [u32; 2],
}

impl SceneRenderer {
    pub open spec fn wf(self) -> bool {
        let s = self.entries@;
        &&& entries_sorted(s)
        &&& forall|i: int, j: int|
            0 <= i < s.len() && 0 <= j < s.len() && i != j ==> sprite_key(s[i].object)
                != sprite_key(s[j].object)
        &&& forall|i: int| 0 <= i < s.len() ==> #[trigger] s[i].order < self.next_order
        &&& forall|i: int, j: int|
            0 <= i < s.len() && 0 <= j < s.len() && i != j ==> s[i].order != s[j].order
        &&& forall|i: int| 0 <= i < s.len() ==> #[trigger] s[i].texture_id < self.next_texture_id
        &&& forall|i: int, j: int|
            0 <= i < s.len() && 0 <= j < s.len() && i != j ==> s[i].texture_id != s[j].texture_id
    }

    /// An empty synchronizer for a render target of the given size.
    pub fn init(width: u32, height: u32) -> (r: Self)
        ensures
            r.wf(),
            r.entries@.len() == 0,
            r.next_order == 0,
            r.next_texture_id == 0,
            r.viewport == [width, height],
    {
        Self { entries: Vec::new(), next_order: 0, next_texture_id: 0, viewport: [width, height] }
    }

    /// The index of the entry whose identity key equals `key`, if any.
    fn find_index(&self, key: &String) -> (r: Option<usize>)
        ensures
            match r {
                Some(i) => 0 <= i < self.entries@.len() && sprite_key(self.entries@[i as int].object)
                    == key@,
                None => !has_key(self.entries@, key@),
            },
    {
        let n = self.entries.len();
        let mut i: usize = 0;
        while i < n
            invariant
                n == self.entries@.len(),
                0 <= i <= n,
                forall|j: int| 0 <= j < i ==> sprite_key(self.entries@[j].object) != key@,
            decreases n - i,
        {
            let ek = self.entries[i].object.scene_key();
            if ek == *key {
                return Some(i);
            }
            i += 1;
        }
        None
    }

    /// The position at which `e` is inserted to keep the list sorted.
    fn find_insert_pos(&self, e: &RenderEntry) -> (pos: usize)
        requires
            self.wf(),
        ensures
            is_insert_pos(self.entries@, *e, pos as int),
    {
        let n = self.entries.len();
        let mut i: usize = 0;
        while i < n
            invariant
                n == self.entries@.len(),
                0 <= i <= n,
                forall|j: int| 0 <= j < i ==> entry_le(self.entries@[j], *e),
            decreases n - i,
        {
            let cur = &self.entries[i];
            let cl = cur.object.layer.order();
            let el = e.object.layer.order();
            let le = if cl != el {
                cl < el
            } else if cur.object.z_index != e.object.z_index {
                cur.object.z_index < e.object.z_index
            } else {
                cur.order <= e.order
            };
            if !le {
                return i;
            }
            i += 1;
        }
        n
    }

    /// Whether reconciling this definition requires loading its texture
    /// image: its key is unseen, or the texture reference changed.
    pub fn needs_texture_load(&self, object: &GameObject2D) -> (r: bool)
        requires
            self.wf(),
        ensures
            r == needs_load(self.entries@, *object),
    {
        let key = object.scene_key();
        match self.find_index(&key) {
            None => true,
            Some(i) => {
                proof {
                    assert(has_key(self.entries@, sprite_key(*object)));
                    // The found index is the chosen one: keys are unique.
                    assert(key_index(self.entries@, sprite_key(*object)) == i as int);
                }
                !(self.entries[i].object.texture_path == object.texture_path)
            },
        }
    }

    /// Create-or-update by identity key.
    ///
    /// `load_ok` is the outcome of decoding the texture image at
    /// `object.texture_path`, which the caller performs exactly when
    /// [`Self::needs_texture_load`] says so; it is ignored when no load is
    /// needed.  On any error the synchronizer is unchanged.
    pub fn apply_game_object_from_definition(&mut self, object: GameObject2D, load_ok: bool) -> (r:
        Result<(), RenderError>)
        requires
            old(self).wf(),
        ensures
            final(self).wf(),
            upsert_transition(*old(self), *final(self), object, load_ok, r),
    {
        let key = object.scene_key();
        match self.find_index(&key) {
            None => self.insert_new(object, load_ok),
            Some(i) => {
                proof {
                    assert(has_key(self.entries@, sprite_key(object)));
                    assert(key_index(self.entries@, sprite_key(object)) == i as int);
                }
                self.update_existing(i, object, load_ok)
            },
        }
    }

    /// Allocate resources for an unseen definition and insert it in draw
    /// order.
    fn insert_new(&mut self, object: GameObject2D, load_ok: bool) -> (r: Result<(), RenderError>)
        requires
            old(self).wf(),
            !has_key(old(self).entries@, sprite_key(object)),
        ensures
            final(self).wf(),
            final(self).viewport == old(self).viewport,
            r is Err ==> *final(self) == *old(self),
            r matches Err(RenderError::TextureLoad(p)) ==> p@ == object.texture_path@ && !load_ok,
            !load_ok ==> r matches Err(RenderError::TextureLoad(_)),
            r matches Err(RenderError::CapacityExhausted) <==> load_ok && !(old(self).next_order
                < u64::MAX && old(self).next_texture_id < u64::MAX),
            r is Ok <==> load_ok && old(self).next_order < u64::MAX && old(self).next_texture_id
                < u64::MAX,
            r is Ok ==> {
                &&& final(self).entries@ == old(self).entries@.insert(
                    insert_pos_of(old(self).entries@, fresh_entry(*old(self), object)),
                    fresh_entry(*old(self), object),
                )
                &&& final(self).next_order == old(self).next_order + 1
                &&& final(self).next_texture_id == old(self).next_texture_id + 1
            },
    {
        if !load_ok {
            return Err(RenderError::TextureLoad(object.texture_path));
        }
        if !(self.next_order < u64::MAX && self.next_texture_id < u64::MAX) {
            return Err(RenderError::CapacityExhausted);
        }
        let entry = RenderEntry {
            object,
            order: self.next_order,
            texture_id: self.next_texture_id,
            transform_writes: 1,
        };
        let ghost entry_g = entry;
        self.next_order = self.next_order + 1;
        self.next_texture_id = self.next_texture_id + 1;
        let pos = self.find_insert_pos(&entry);
        proof {
            lemma_insert_pos_of_is_insert_pos(self.entries@, entry_g);
            lemma_insert_pos_unique(
                self.entries@,
                entry_g,
                pos as int,
                insert_pos_of(self.entries@, entry_g),
            );
        }
        let ghost mid = *self;
        self.entries.insert(pos, entry);
        proof {
            assert forall|k: int|
                0 <= k < mid.entries@.len() implies sprite_key(
                #[trigger] mid.entries@[k].object,
            ) != sprite_key(entry_g.object) by {
                if sprite_key(mid.entries@[k].object) == sprite_key(entry_g.object) {
                    assert(has_key(old(self).entries@, sprite_key(entry_g.object)));
                }
            }
            lemma_insert_keeps_wf(mid, *self, entry_g, pos as int);
        }
        Ok(())
    }

    /// Rewrite an existing entry in place: always write the transform
    /// buffer, rebind the texture only when its reference changed, and
    /// re-sort only when the draw order changed.
    fn update_existing(&mut self, i: usize, object: GameObject2D, load_ok: bool) -> (r: Result<
        (),
        RenderError,
    >)
        requires
            old(self).wf(),
            i < old(self).entries@.len(),
            sprite_key(old(self).entries@[i as int].object) == sprite_key(object),
        ensures
            final(self).wf(),
            final(self).viewport == old(self).viewport,
            r is Err ==> *final(self) == *old(self),
            r matches Err(RenderError::TextureLoad(p)) ==> p@ == object.texture_path@
                && old(self).entries@[i as int].object.texture_path@ != object.texture_path@
                && !load_ok,
            (old(self).entries@[i as int].object.texture_path@ != object.texture_path@ && !load_ok)
                ==> r matches Err(RenderError::TextureLoad(_)),
            r matches Err(RenderError::CapacityExhausted) <==> {
                let changed = old(self).entries@[i as int].object.texture_path@
                    != object.texture_path@;
                !(changed && !load_ok) && changed && !(old(self).next_texture_id < u64::MAX)
            },
            r is Ok <==> {
                let changed = old(self).entries@[i as int].object.texture_path@
                    != object.texture_path@;
                !(changed && !load_ok) && (changed ==> old(self).next_texture_id < u64::MAX)
            },
            r is Ok ==> {
                let s = old(self).entries@;
                let upd = updated_entry(*old(self), i as int, object);
                &&& final(self).next_order == old(self).next_order
                &&& final(self).next_texture_id == if s[i as int].object.texture_path@
                    != object.texture_path@ {
                    (old(self).next_texture_id + 1) as u64
                } else {
                    old(self).next_texture_id
                }
                &&& if layer_order(s[i as int].object.layer) == layer_order(object.layer)
                    && s[i as int].object.z_index == object.z_index {
                    final(self).entries@ == s.update(i as int, upd)
                } else {
                    final(self).entries@ == s.remove(i as int).insert(
                        insert_pos_of(s.remove(i as int), upd),
                        upd,
                    )
                }
            },
    {
        let texture_changed = !(self.entries[i].object.texture_path == object.texture_path);
        if texture_changed && !load_ok {
            return Err(RenderError::TextureLoad(object.texture_path));
        }
        if texture_changed && !(self.next_texture_id < u64::MAX) {
            return Err(RenderError::CapacityExhausted);
        }
        let order_changed = {
            let e = &self.entries[i];
            !(e.object.layer.order() == object.layer.order() && e.object.z_index == object.z_index)
        };
        let upd = RenderEntry {
            object,
            order: self.entries[i].order,
            texture_id: if texture_changed {
                self.next_texture_id
            } else {
                self.entries[i].texture_id
            },
            transform_writes: if self.entries[i].transform_writes == u64::MAX {
                u64::MAX
            } else {
                self.entries[i].transform_writes + 1
            },
        };
        let ghost upd_g = upd;
        if texture_changed {
            self.next_texture_id = self.next_texture_id + 1;
        }
        if order_changed {
            let ghost before_remove = *self;
            let removed = self.entries.remove(i);
            proof {
                lemma_remove_keeps_wf(before_remove, *self, i as int);
            }
            let pos = self.find_insert_pos(&upd);
            proof {
                lemma_insert_pos_of_is_insert_pos(self.entries@, upd_g);
                lemma_insert_pos_unique(
                    self.entries@,
                    upd_g,
                    pos as int,
                    insert_pos_of(self.entries@, upd_g),
                );
            }
            let ghost mid = *self;
            self.entries.insert(pos, upd);
            proof {
                let s = old(self).entries@;
                assert forall|k: int|
                    0 <= k < mid.entries@.len() implies sprite_key(
                    #[trigger] mid.entries@[k].object,
                ) != sprite_key(upd_g.object) && mid.entries@[k].order != upd_g.order
                    && mid.entries@[k].texture_id != upd_g.texture_id by {
                    let sk = if k < i as int {
                        k
                    } else {
                        k + 1
                    };
                    assert(mid.entries@[k] == s[sk]);
                    assert(sprite_key(s[sk].object) != sprite_key(s[i as int].object));
                }
                lemma_insert_keeps_wf(mid, *self, upd_g, pos as int);
            }
        } else {
            let ghost before_set = *self;
            self.entries[i] = upd;
            proof {
                let s = old(self).entries@;
                assert forall|k: int|
                    0 <= k < before_set.entries@.len() && k != i as int implies #[trigger] before_set.entries@[k].texture_id != upd_g.texture_id by {
                    assert(before_set.entries@[k] == s[k]);
                }
                lemma_update_in_place_wf(before_set, *self, i as int, upd_g);
            }
        }
        Ok(())
    }

    /// Create-or-update from a full definition; the counterpart of
    /// [`Self::apply_game_object_from_definition`] kept for callers that
    /// build the scene up front.
    pub fn create_game_object_from_definition(&mut self, object: GameObject2D, load_ok: bool) -> (r:
        Result<(), RenderError>)
        requires
            old(self).wf(),
        ensures
            final(self).wf(),
            upsert_transition(*old(self), *final(self), object, load_ok, r),
    {
        self.apply_game_object_from_definition(object, load_ok)
    }

    /// Create-or-update a plain sprite on the given layer.
    pub fn create_game_object_layered(
        &mut self,
        pos: [u32; 2],
        scale: [u32; 2],
        texture: String,
        layer: RenderLayer,
        z_index: i32,
        load_ok: bool,
    ) -> (r: Result<(), RenderError>)
        requires
            old(self).wf(),
        ensures
            final(self).wf(),
            upsert_transition(
                *old(self),
                *final(self),
                GameObject2D {
                    id: None,
                    position: pos,
                    scale,
                    texture_path: texture,
                    layer,
                    z_index,
                    hidden: false,
                },
                load_ok,
                r,
            ),
    {
        let object = GameObject2D::new(pos, scale, texture, layer, z_index);
        self.apply_game_object_from_definition(object, load_ok)
    }

    /// Create-or-update a plain sprite on the character layer.
    pub fn create_game_object(
        &mut self,
        pos: [u32; 2],
        scale: [u32; 2],
        texture: String,
        load_ok: bool,
    ) -> (r: Result<(), RenderError>)
        requires
            old(self).wf(),
        ensures
            final(self).wf(),
            upsert_transition(
                *old(self),
                *final(self),
                GameObject2D {
                    id: None,
                    position: pos,
                    scale,
                    texture_path: texture,
                    layer: RenderLayer::Character,
                    z_index: 0,
                    hidden: false,
                },
                load_ok,
                r,
            ),
    {
        self.create_game_object_layered(pos, scale, texture, RenderLayer::Character, 0, load_ok)
    }

    /// Note a new render-target size and rewrite every live entry's
    /// transform buffer from the shared view-projection (a full pass, no
    /// reallocation).
    pub fn resize(&mut self, width: u32, height: u32)
        requires
            old(self).wf(),
        ensures
            final(self).wf(),
            final(self).viewport == [width, height],
            final(self).next_order == old(self).next_order,
            final(self).next_texture_id == old(self).next_texture_id,
            final(self).entries@.len() == old(self).entries@.len(),
            forall|i: int|
                0 <= i < old(self).entries@.len() ==> final(self).entries@[i] == (RenderEntry {
                    transform_writes: sat_bump(old(self).entries@[i].transform_writes),
                    ..old(self).entries@[i]
                }),
    {
        self.viewport = [width, height];
        let n = self.entries.len();
        let mut i: usize = 0;
        while i < n
            invariant
                n == self.entries@.len(),
                0 <= i <= n,
                self.next_order == old(self).next_order,
                self.next_texture_id == old(self).next_texture_id,
                self.viewport == [width, height],
                forall|j: int|
                    i <= j < n ==> self.entries@[j] == old(self).entries@[j],
                forall|j: int|
                    0 <= j < i ==> self.entries@[j] == (RenderEntry {
                        transform_writes: sat_bump(old(self).entries@[j].transform_writes),
                        ..old(self).entries@[j]
                    }),
            decreases n - i,
        {
            let obj = self.entries[i].object.clone();
            let ord = self.entries[i].order;
            let tid = self.entries[i].texture_id;
            let w = self.entries[i].transform_writes;
            self.entries[i] = RenderEntry {
                object: obj,
                order: ord,
                texture_id: tid,
                transform_writes: if w == u64::MAX {
                    u64::MAX
                } else {
                    w + 1
                },
            };
            i += 1;
        }
        proof {
            assert forall|i: int, j: int|
                0 <= i < j < self.entries@.len() implies entry_le(
                self.entries@[i],
                self.entries@[j],
            ) by {
                assert(entry_le(old(self).entries@[i], old(self).entries@[j]));
            }
        }
    }

    /// The indices of the entries a draw pass paints, in draw order: hidden
    /// entries are skipped entirely, their resources retained.
    pub fn visible_indices(&self) -> (r: Vec<usize>)
        ensures
            r@.map_values(|v: usize| v as int) == visible_of(self.entries@),
    {
        let n = self.entries.len();
        let mut r: Vec<usize> = Vec::new();
        let mut i: usize = 0;
        while i < n
            invariant
                n == self.entries@.len(),
                0 <= i <= n,
                r@.map_values(|v: usize| v as int) == visible_of(self.entries@.take(i as int)),
            decreases n - i,
        {
            proof {
                assert(self.entries@.take(i + 1int).drop_last() =~= self.entries@.take(i as int));
                assert(self.entries@.take(i + 1int).last() == self.entries@[i as int]);
            }
            if !self.entries[i].object.hidden {
                r.push(i);
                proof {
                    assert(r@.map_values(|v: usize| v as int) =~= visible_of(
                        self.entries@.take(i + 1int),
                    ));
                }
            }
            i += 1;
        }
        proof {
            assert(self.entries@.take(n as int) =~= self.entries@);
        }
        r
    }
}

/// Upserting by an identity key the collection already holds updates in
/// place and never grows the live list; an unseen key grows it by exactly
/// one entry.
pub proof fn lemma_upsert_entry_count(
    pre: SceneRenderer,
    post: SceneRenderer,
    object: GameObject2D,
    load_ok: bool,
    r: Result<(), RenderError>,
)
    requires
        upsert_transition(pre, post, object, load_ok, r),
        r is Ok,
    ensures
        has_key(pre.entries@, sprite_key(object)) ==> post.entries@.len() == pre.entries@.len(),
        !has_key(pre.entries@, sprite_key(object)) ==> post.entries@.len() == pre.entries@.len()
            + 1,
{
    if has_key(pre.entries@, sprite_key(object)) {
        let s = pre.entries@;
        let i = key_index(s, sprite_key(object));
        let upd = updated_entry(pre, i, object);
        if !(layer_order(s[i].object.layer) == layer_order(object.layer) && s[i].object.z_index
            == object.z_index) {
            lemma_insert_pos_of_is_insert_pos(s.remove(i), upd);
            assert(post.entries@.len() == s.remove(i).len() + 1);
        }
    } else {
        let e = fresh_entry(pre, object);
        lemma_insert_pos_of_is_insert_pos(pre.entries@, e);
        assert(post.entries@.len() == pre.entries@.len() + 1);
    }
}

/// Identity stability: a successful upsert of a key the collection holds,
/// with the texture reference unchanged, recreates no backing resource.
/// The entry keeps its texture binding and its transform buffer, the
/// binding counter does not move, and the buffer is written exactly once
/// more.
pub proof fn lemma_upsert_reuses_texture(
    pre: SceneRenderer,
    post: SceneRenderer,
    object: GameObject2D,
    load_ok: bool,
    r: Result<(), RenderError>,
)
    requires
        pre.wf(),
        upsert_transition(pre, post, object, load_ok, r),
        r is Ok,
        has_key(pre.entries@, sprite_key(object)),
        pre.entries@[key_index(pre.entries@, sprite_key(object))].object.texture_path@
            == object.texture_path@,
    ensures
        post.next_texture_id == pre.next_texture_id,
        exists|j: int|
            {
                let e = pre.entries@[key_index(pre.entries@, sprite_key(object))];
                0 <= j < post.entries@.len() && #[trigger] post.entries@[j] == (RenderEntry {
                    object,
                    order: e.order,
                    texture_id: e.texture_id,
                    transform_writes: sat_bump(e.transform_writes),
                })
            },
{
    let s = pre.entries@;
    let i = key_index(s, sprite_key(object));
    let upd = updated_entry(pre, i, object);
    lemma_updated_entry_lands(pre, post, object, i, upd);
}

/// Texture reload isolation: a successful upsert that changes only the
/// texture reference rebinds the texture and nothing else.  The entry gets
/// the next fresh binding id, keeps its transform buffer with exactly one
/// more write, and when the draw-order fields are unchanged the list order
/// is untouched.
pub proof fn lemma_texture_reload_isolation(
    pre: SceneRenderer,
    post: SceneRenderer,
    object: GameObject2D,
    load_ok: bool,
    r: Result<(), RenderError>,
)
    requires
        pre.wf(),
        upsert_transition(pre, post, object, load_ok, r),
        r is Ok,
        has_key(pre.entries@, sprite_key(object)),
        pre.entries@[key_index(pre.entries@, sprite_key(object))].object.texture_path@
            != object.texture_path@,
    ensures
        post.next_texture_id == pre.next_texture_id + 1,
        ({
            let e = pre.entries@[key_index(pre.entries@, sprite_key(object))];
            layer_order(e.object.layer) == layer_order(object.layer) && e.object.z_index
                == object.z_index ==> post.entries@ == pre.entries@.update(
                key_index(pre.entries@, sprite_key(object)),
                RenderEntry {
                    object,
                    order: e.order,
                    texture_id: pre.next_texture_id,
                    transform_writes: sat_bump(e.transform_writes),
                },
            )
        }),
{
}

/// On a successful in-place update, the updated entry stands somewhere in
/// the final list.
proof fn lemma_updated_entry_lands(
    pre: SceneRenderer,
    post: SceneRenderer,
    object: GameObject2D,
    i: int,
    upd: RenderEntry,
)
    requires
        pre.wf(),
        0 <= i < pre.entries@.len(),
        i == key_index(pre.entries@, sprite_key(object)),
        upd == updated_entry(pre, i, object),
        ({
            let s = pre.entries@;
            if layer_order(s[i].object.layer) == layer_order(object.layer) && s[i].object.z_index
                == object.z_index {
                post.entries@ == s.update(i, upd)
            } else {
                post.entries@ == s.remove(i).insert(insert_pos_of(s.remove(i), upd), upd)
            }
        }),
    ensures
        exists|j: int| 0 <= j < post.entries@.len() && #[trigger] post.entries@[j] == upd,
{
    let s = pre.entries@;
    if layer_order(s[i].object.layer) == layer_order(object.layer) && s[i].object.z_index
        == object.z_index {
        assert(post.entries@[i] == upd);
    } else {
        let pos = insert_pos_of(s.remove(i), upd);
        lemma_insert_pos_of_is_insert_pos(s.remove(i), upd);
        assert(post.entries@[pos] == upd);
    }
}

/// The draw order is deterministic and stable: in a well-formed
/// synchronizer any earlier entry precedes a later one in the total order
/// (layer, z-index, insertion order), and two entries tied on layer and
/// z-index paint in the order they were first inserted.
pub proof fn lemma_draw_order_stable(r: SceneRenderer, i: int, j: int)
    requires
        r.wf(),
        0 <= i < j < r.entries@.len(),
    ensures
        entry_le(r.entries@[i], r.entries@[j]),
        (layer_order(r.entries@[i].object.layer) == layer_order(r.entries@[j].object.layer)
            && r.entries@[i].object.z_index == r.entries@[j].object.z_index) ==> r.entries@[i].order
            < r.entries@[j].order,
{
    assert(entry_le(r.entries@[i], r.entries@[j]));
    assert(r.entries@[i].order != r.entries@[j].order);
}

/// The indices of the non-hidden entries, ascending.
pub open spec fn visible_of(s: Seq<RenderEntry>) -> Seq<int>
    decreases s.len(),
{
    if s.len() == 0 {
        Seq::empty()
    } else if !s.last().object.hidden {
        visible_of(s.drop_last()).push(s.len() - 1)
    } else {
        visible_of(s.drop_last())
    }
}

/// Removing an entry keeps the collection well-formed.
proof fn lemma_remove_keeps_wf(pre: SceneRenderer, post: SceneRenderer, i: int)
    requires
        pre.wf(),
        0 <= i < pre.entries@.len(),
        post.entries@ == pre.entries@.remove(i),
        post.next_order == pre.next_order,
        post.next_texture_id >= pre.next_texture_id,
        forall|k: int|
            0 <= k < pre.entries@.len() ==> #[trigger] pre.entries@[k].texture_id
                < post.next_texture_id,
    ensures
        post.wf(),
{
    let s = pre.entries@;
    let t = post.entries@;
    assert forall|a: int, b: int| 0 <= a < b < t.len() implies entry_le(t[a], t[b]) by {
        let sa = if a < i {
            a
        } else {
            a + 1
        };
        let sb = if b < i {
            b
        } else {
            b + 1
        };
        assert(t[a] == s[sa]);
        assert(t[b] == s[sb]);
    }
    assert forall|a: int, b: int|
        0 <= a < t.len() && 0 <= b < t.len() && a != b implies sprite_key(t[a].object)
        != sprite_key(t[b].object) && t[a].order != t[b].order && t[a].texture_id
        != t[b].texture_id by {
        let sa = if a < i {
            a
        } else {
            a + 1
        };
        let sb = if b < i {
            b
        } else {
            b + 1
        };
        assert(t[a] == s[sa]);
        assert(t[b] == s[sb]);
    }
    assert forall|a: int| 0 <= a < t.len() implies #[trigger] t[a].order < post.next_order
        && t[a].texture_id < post.next_texture_id by {
        let sa = if a < i {
            a
        } else {
            a + 1
        };
        assert(t[a] == s[sa]);
    }
}

} // verus!
