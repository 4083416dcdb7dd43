//! The achievement catalog: definitions keyed by unique ids, trigger-driven
//! unlocking, a queue of unlock notifications, and a dirty flag the
//! persistence layer uses to decide when to write the catalog back out.

use std::collections::VecDeque;

use vstd::prelude::*;
use vstd::string::StringExecFns;

use crate::text::{trim_of, trim_str};

verus! {

/// One achievement as authored: id, display strings, and the optional
/// trigger that unlocks it.
#[derive(Debug)]
pub struct AchievementDefinition {
    pub id: String,
    pub name: String,
    pub description: String,
    pub trigger: Option<String>,
}

/// A definition together with its unlocked flag.
#[derive(Debug)]
pub struct AchievementState {
    pub definition: AchievementDefinition,
    pub unlocked: bool,
}

/// What the achievements list view shows of one achievement.
#[derive(Debug)]
pub struct AchievementSnapshotItem {
    pub name: String,
    pub description: String,
    pub unlocked: bool,
}

/// One pending "achievement unlocked" popup.
#[derive(Debug)]
pub struct AchievementNotification {
    pub name: String,
    pub description: String,
}

/// One achievement as persisted: a definition plus its unlocked flag.
#[derive(Debug)]
pub struct AchievementRecord {
    pub id: String,
    pub name: String,
    pub description: String,
    pub trigger: Option<String>,
    pub unlocked: bool,
}

/// The trimmed trigger of a record, with an empty trigger dropped.
pub open spec fn normalized_trigger(t: Option<String>) -> Option<Seq<char>> {
    match t {
        Some(t) => if trim_of(t@).len() == 0 {
            None
        } else {
            Some(trim_of(t@))
        },
        None => None,
    }
}

/// Whether the record at `k` is rejected: its trimmed id is empty, or it
/// repeats an earlier record's trimmed id.
pub open spec fn record_bad_at(records: Seq<AchievementRecord>, k: int) -> bool {
    trim_of(records[k].id@).len() == 0 || exists|j: int|
        0 <= j < k && trim_of(#[trigger] records[j].id@) == trim_of(records[k].id@)
}

/// The same rejection test over bare definitions.
pub open spec fn definition_bad_at(defs: Seq<AchievementDefinition>, k: int) -> bool {
    trim_of(defs[k].id@).len() == 0 || exists|j: int|
        0 <= j < k && trim_of(#[trigger] defs[j].id@) == trim_of(defs[k].id@)
}

/// Whether an achievement is unlocked by this trigger id.
pub open spec fn has_trigger(a: AchievementState, t: Seq<char>) -> bool {
    match a.definition.trigger {
        Some(s) => s@ == t,
        None => false,
    }
}

/// The ids of the achievements a trigger newly unlocks, in catalog order.
pub open spec fn newly_ids(s: Seq<AchievementState>, t: Seq<char>) -> Seq<String>
    decreases s.len(),
{
    if s.len() == 0 {
        Seq::empty()
    } else if !s.last().unlocked && has_trigger(s.last(), t) {
        newly_ids(s.drop_last(), t).push(s.last().definition.id)
    } else {
        newly_ids(s.drop_last(), t)
    }
}

/// The notifications a trigger enqueues, in catalog order.
pub open spec fn new_notes(s: Seq<AchievementState>, t: Seq<char>) -> Seq<AchievementNotification>
    decreases s.len(),
{
    if s.len() == 0 {
        Seq::empty()
    } else if !s.last().unlocked && has_trigger(s.last(), t) {
        new_notes(s.drop_last(), t).push(
            AchievementNotification {
                name: s.last().definition.name,
                description: s.last().definition.description,
            },
        )
    } else {
        new_notes(s.drop_last(), t)
    }
}

/// The record a bare definition persists as: not yet unlocked.
pub open spec fn record_of(d: AchievementDefinition) -> AchievementRecord {
    AchievementRecord {
        id: d.id,
        name: d.name,
        description: d.description,
        trigger: d.trigger,
        unlocked: false,
    }
}

/// Whether `achievements` is the normalized image of `records`.
pub open spec fn normalized_from(
    achievements: Seq<AchievementState>,
    records: Seq<AchievementRecord>,
) -> bool {
    &&& achievements.len() == records.len()
    &&& forall|k: int|
        0 <= k < records.len() ==> (#[trigger] achievements[k]).definition.id@ == trim_of(
            records[k].id@,
        ) && achievements[k].definition.name == records[k].name
            && achievements[k].definition.description == records[k].description
            && (match achievements[k].definition.trigger {
            Some(s) => Some(s@),
            None => None,
        } == normalized_trigger(records[k].trigger)) && achievements[k].unlocked
            == records[k].unlocked
}

/// Whether the achievement with this exact id exists and is unlocked.
pub open spec fn is_unlocked_spec(m: AchievementManager, id: Seq<char>) -> bool {
    exists|i: int|
        0 <= i < m.achievements@.len() && (#[trigger] m.achievements@[i]).definition.id@ == id
            && m.achievements@[i].unlocked
}

/// Everything one trigger broadcast does: every matching locked
/// achievement unlocks, their notifications queue up in catalog order, and
/// the dirty flag rises exactly when something unlocked.
pub open spec fn trigger_transition(
    pre: AchievementManager,
    post: AchievementManager,
    t: Seq<char>,
) -> bool {
    &&& (pre.wf() ==> post.wf())
    &&& post.achievements@.len() == pre.achievements@.len()
    &&& (forall|i: int|
        0 <= i < pre.achievements@.len() ==> #[trigger] post.achievements@[i]
            == (AchievementState {
            unlocked: pre.achievements@[i].unlocked || has_trigger(pre.achievements@[i], t),
            definition: pre.achievements@[i].definition,
        }))
    &&& post.notifications@ == pre.notifications@ + new_notes(pre.achievements@, t)
    &&& post.dirty == (pre.dirty || newly_ids(pre.achievements@, t).len() > 0)
}

/// Everything one best-effort grant does: a locked achievement with this
/// exact id unlocks with a notification, anything else leaves the manager
/// untouched.
pub open spec fn grant_attempt_transition(
    pre: AchievementManager,
    post: AchievementManager,
    id: Seq<char>,
) -> bool {
    if exists|i: int|
        0 <= i < pre.achievements@.len() && (#[trigger] pre.achievements@[i]).definition.id@ == id
            && !pre.achievements@[i].unlocked {
        exists|i: int|
            {
                &&& 0 <= i < pre.achievements@.len()
                &&& (#[trigger] pre.achievements@[i]).definition.id@ == id
                &&& !pre.achievements@[i].unlocked
                &&& post.achievements@ == pre.achievements@.update(
                    i,
                    AchievementState { unlocked: true, definition: pre.achievements@[i].definition },
                )
                &&& post.notifications@ == pre.notifications@.push(
                    AchievementNotification {
                        name: pre.achievements@[i].definition.name,
                        description: pre.achievements@[i].definition.description,
                    },
                )
                &&& post.dirty
            }
    } else {
        post == pre
    }
}

/// Owns the achievement states; the sole mutator of unlock flags.
#[derive(Debug)]
pub struct AchievementManager {
    /// The catalog, ids unique and non-empty after trimming.
    pub achievements: Vec<AchievementState>,
    /// Unlock notifications not yet handed to the presentation layer.
    pub notifications: VecDeque<AchievementNotification>,
    /// Whether the catalog changed since it was last persisted.  The
    /// persistence layer clears it after a successful write.
    pub dirty: bool,
}

impl AchievementManager {
    pub open spec fn wf(self) -> bool {
        let s = self.achievements@;
        forall|i: int, j: int|
            0 <= i < s.len() && 0 <= j < s.len() && i != j ==> (#[trigger] s[i]).definition.id@ != (
            #[trigger] s[j]).definition.id@
    }

    /// Build a catalog from authored definitions, none unlocked yet.
    /// Ids are trimmed; an empty or duplicate id rejects the whole list.
    pub fn from_definitions(definitions: Vec<AchievementDefinition>) -> (r: Result<Self, String>)
        ensures
            r matches Ok(m) ==> m.wf() && normalized_from(
                m.achievements@,
                definitions@.map_values(|d: AchievementDefinition| record_of(d)),
            ) && m.notifications@.len() == 0 && !m.dirty,
            r is Ok <==> (forall|k: int|
                0 <= k < definitions@.len() ==> !(#[trigger] definition_bad_at(definitions@, k))),
            r matches Err(msg) ==> exists|k: int|
                0 <= k < definitions@.len() && #[trigger] definition_bad_at(definitions@, k) && (
                forall|j: int| 0 <= j < k ==> !definition_bad_at(definitions@, j)) && (if trim_of(
                    definitions@[k].id@,
                ).len() == 0 {
                    msg@ == "achievement id must not be empty"@
                } else {
                    msg@ == "duplicate achievement id: "@ + trim_of(definitions@[k].id@)
                }),
    {
        let mut records: Vec<AchievementRecord> = Vec::new();
        let n = definitions.len();
        let mut i: usize = 0;
        while i < n
            invariant
                n == definitions@.len(),
                0 <= i <= n,
                records@ == definitions@.take(i as int).map_values(
                    |d: AchievementDefinition| record_of(d),
                ),
            decreases n - i,
        {
            let d = &definitions[i];
            records.push(
                AchievementRecord {
                    id: d.id.clone(),
                    name: d.name.clone(),
                    description: d.description.clone(),
                    trigger: match &d.trigger {
                        Some(t) => Some(t.clone()),
                        None => None,
                    },
                    unlocked: false,
                },
            );
            proof {
                assert(records@ =~= definitions@.take(i + 1int).map_values(
                    |d: AchievementDefinition| record_of(d),
                ));
            }
            i += 1;
        }
        proof {
            assert(definitions@.take(n as int) =~= definitions@);
        }
        let r = Self::from_records(records);
        proof {
            let recs = definitions@.map_values(|d: AchievementDefinition| record_of(d));
            if r is Ok {
                assert forall|k: int|
                    0 <= k < definitions@.len() implies !(#[trigger] definition_bad_at(
                    definitions@,
                    k,
                )) by {
                    assert(!record_bad_at(recs, k));
                    assert(recs[k].id == definitions@[k].id);
                    if exists|j: int|
                        0 <= j < k && trim_of(#[trigger] definitions@[j].id@) == trim_of(
                            definitions@[k].id@,
                        ) {
                        let j = choose|j: int|
                            0 <= j < k && trim_of(#[trigger] definitions@[j].id@) == trim_of(
                                definitions@[k].id@,
                            );
                        assert(recs[j].id == definitions@[j].id);
                        assert(trim_of(recs[j].id@) == trim_of(recs[k].id@));
                        assert(record_bad_at(recs, k));
                    }
                }
            } else {
                let k = choose|k: int|
                    0 <= k < recs.len() && #[trigger] record_bad_at(recs, k) && (forall|j: int|
                        0 <= j < k ==> !record_bad_at(recs, j)) && (if trim_of(recs[k].id@).len()
                        == 0 {
                        r->Err_0@ == "achievement id must not be empty"@
                    } else {
                        r->Err_0@ == "duplicate achievement id: "@ + trim_of(recs[k].id@)
                    });
                assert(record_bad_at(recs, k));
                assert(recs[k].id == definitions@[k].id);
                if exists|j: int|
                    0 <= j < k && trim_of(#[trigger] recs[j].id@) == trim_of(recs[k].id@) {
                    let j = choose|j: int|
                        0 <= j < k && trim_of(#[trigger] recs[j].id@) == trim_of(recs[k].id@);
                    assert(recs[j].id == definitions@[j].id);
                    assert(trim_of(definitions@[j].id@) == trim_of(definitions@[k].id@));
                }
                assert(definition_bad_at(definitions@, k));
                assert forall|j: int| 0 <= j < k implies !definition_bad_at(definitions@, j) by {
                    assert(!record_bad_at(recs, j));
                    assert(recs[j].id == definitions@[j].id);
                    if exists|l: int|
                        0 <= l < j && trim_of(#[trigger] definitions@[l].id@) == trim_of(
                            definitions@[j].id@,
                        ) {
                        let l = choose|l: int|
                            0 <= l < j && trim_of(#[trigger] definitions@[l].id@) == trim_of(
                                definitions@[j].id@,
                            );
                        assert(recs[l].id == definitions@[l].id);
                        assert(trim_of(recs[l].id@) == trim_of(recs[j].id@));
                        assert(record_bad_at(recs, j));
                    }
                }
            }
        }
        r
    }

    /// Build a catalog from persisted records.  Ids are trimmed and must be
    /// non-empty and unique; triggers are trimmed, an empty trigger dropped.
    pub fn from_records(records: Vec<AchievementRecord>) -> (r: Result<Self, String>)
        ensures
            r matches Ok(m) ==> m.wf() && normalized_from(m.achievements@, records@)
                && m.notifications@.len() == 0 && !m.dirty,
            r is Ok <==> (forall|k: int| 0 <= k < records@.len() ==> !record_bad_at(records@, k)),
            r matches Err(msg) ==> exists|k: int|
                0 <= k < records@.len() && #[trigger] record_bad_at(records@, k) && (forall|j: int|
                    0 <= j < k ==> !record_bad_at(records@, j)) && (if trim_of(records@[k].id@).len()
                    == 0 {
                    msg@ == "achievement id must not be empty"@
                } else {
                    msg@ == "duplicate achievement id: "@ + trim_of(records@[k].id@)
                }),
    {
        let mut achievements: Vec<AchievementState> = Vec::new();
        let n = records.len();
        let mut i: usize = 0;
        while i < n
            invariant
                n == records@.len(),
                0 <= i <= n,
                normalized_from(achievements@, records@.take(i as int)),
                forall|k: int| 0 <= k < i ==> !record_bad_at(records@, k),
            decreases n - i,
        {
            let rec = &records[i];
            let id = trim_str(rec.id.as_str());
            if id.as_str().is_empty() {
                proof {
                    assert(record_bad_at(records@, i as int));
                }
                return Err(String::from_str("achievement id must not be empty"));
            }
            let mut dup = false;
            let mut j: usize = 0;
            while j < i
                invariant
                    0 <= j <= i <= n,
                    i < n,
                    n == records@.len(),
                    normalized_from(achievements@, records@.take(i as int)),
                    id@ == trim_of(records@[i as int].id@),
                    achievements@.len() == i,
                    dup == exists|k: int|
                        0 <= k < j && trim_of(#[trigger] records@[k].id@) == trim_of(
                            records@[i as int].id@,
                        ),
                decreases i - j,
            {
                if achievements[j].definition.id == id {
                    proof {
                        assert(trim_of(records@[j as int].id@) == trim_of(records@[i as int].id@));
                    }
                    dup = true;
                }
                proof {
                    if !dup {
                        assert forall|k: int|
                            0 <= k < j + 1 implies trim_of(#[trigger] records@[k].id@) != trim_of(
                            records@[i as int].id@,
                        ) by {
                            assert(achievements@[k].definition.id@ == trim_of(records@[k].id@));
                        }
                    }
                }
                j += 1;
            }
            if dup {
                proof {
                    assert(record_bad_at(records@, i as int));
                }
                let mut msg = String::from_str("duplicate achievement id: ");
                msg.append(id.as_str());
                return Err(msg);
            }
            let trigger = match &rec.trigger {
                Some(t) => {
                    let tt = trim_str(t.as_str());
                    if tt.as_str().is_empty() {
                        None
                    } else {
                        Some(tt)
                    }
                },
                None => None,
            };
            let state = AchievementState {
                definition: AchievementDefinition {
                    id,
                    name: rec.name.clone(),
                    description: rec.description.clone(),
                    trigger,
                },
                unlocked: rec.unlocked,
            };
            achievements.push(state);
            proof {
                assert(records@.take(i + 1int).drop_last() =~= records@.take(i as int));
                assert(!record_bad_at(records@, i as int));
                assert forall|k: int|
                    0 <= k < i + 1 implies (#[trigger] achievements@[k]).definition.id@ == trim_of(
                    records@.take(i + 1int)[k].id@,
                ) && achievements@[k].definition.name == records@.take(i + 1int)[k].name
                    && achievements@[k].definition.description == records@.take(
                    i + 1int,
                )[k].description && (match achievements@[k].definition.trigger {
                    Some(s) => Some(s@),
                    None => None,
                } == normalized_trigger(records@.take(i + 1int)[k].trigger))
                    && achievements@[k].unlocked == records@.take(i + 1int)[k].unlocked by {
                    if k < i {
                        assert(achievements@[k] == achievements@.drop_last()[k]);
                    }
                }
            }
            i += 1;
        }
        proof {
            assert(records@.take(n as int) =~= records@);
            assert forall|a: int, b: int|
                0 <= a < achievements@.len() && 0 <= b < achievements@.len() && a
                    != b implies (#[trigger] achievements@[a]).definition.id@ != (
                #[trigger] achievements@[b]).definition.id@ by {
                if a < b {
                    assert(!record_bad_at(records@, b));
                } else {
                    assert(!record_bad_at(records@, a));
                }
            }
        }
        Ok(Self { achievements, notifications: VecDeque::new(), dirty: false })
    }

    /// What the achievements list shows: name, description, unlocked.
    pub fn snapshot(&self) -> (r: Vec<AchievementSnapshotItem>)
        ensures
            r@.len() == self.achievements@.len(),
            forall|i: int|
                0 <= i < r@.len() ==> #[trigger] r@[i] == (AchievementSnapshotItem {
                    name: self.achievements@[i].definition.name,
                    description: self.achievements@[i].definition.description,
                    unlocked: self.achievements@[i].unlocked,
                }),
    {
        let n = self.achievements.len();
        let mut r: Vec<AchievementSnapshotItem> = Vec::new();
        let mut i: usize = 0;
        while i < n
            invariant
                n == self.achievements@.len(),
                0 <= i <= n,
                r@.len() == i,
                forall|k: int|
                    0 <= k < i ==> #[trigger] r@[k] == (AchievementSnapshotItem {
                        name: self.achievements@[k].definition.name,
                        description: self.achievements@[k].definition.description,
                        unlocked: self.achievements@[k].unlocked,
                    }),
            decreases n - i,
        {
            let a = &self.achievements[i];
            r.push(
                AchievementSnapshotItem {
                    name: a.definition.name.clone(),
                    description: a.definition.description.clone(),
                    unlocked: a.unlocked,
                },
            );
            i += 1;
        }
        r
    }

    /// Whether the achievement with this exact id exists and is unlocked.
    /// An unknown id is simply not unlocked.
    pub fn is_unlocked(&self, achievement_id: &str) -> (r: bool)
        ensures
            r == is_unlocked_spec(*self, achievement_id@),
    {
        let n = self.achievements.len();
        let id = achievement_id.to_owned();
        let mut i: usize = 0;
        while i < n
            invariant
                n == self.achievements@.len(),
                0 <= i <= n,
                id@ == achievement_id@,
                forall|k: int|
                    0 <= k < i ==> !((#[trigger] self.achievements@[k]).definition.id@
                        == achievement_id@ && self.achievements@[k].unlocked),
            decreases n - i,
        {
            if self.achievements[i].definition.id == id && self.achievements[i].unlocked {
                return true;
            }
            i += 1;
        }
        false
    }

    /// Unlock every achievement whose trigger equals `trigger_id` and is
    /// still locked; returns their ids in catalog order.  An unknown
    /// trigger unlocks nothing: signals are best-effort broadcasts.
    pub fn trigger(&mut self, trigger_id: &str) -> (r: Vec<String>)
        requires
            old(self).wf(),
        ensures
            final(self).wf(),
            trigger_transition(*old(self), *final(self), trigger_id@),
            r@ == newly_ids(old(self).achievements@, trigger_id@),
    {
        let tid = trigger_id.to_owned();
        let n = self.achievements.len();
        let mut r: Vec<String> = Vec::new();
        let mut i: usize = 0;
        while i < n
            invariant
                old(self).wf(),
                n == old(self).achievements@.len(),
                n == self.achievements@.len(),
                0 <= i <= n,
                tid@ == trigger_id@,
                forall|k: int|
                    i <= k < n ==> #[trigger] self.achievements@[k] == old(self).achievements@[k],
                forall|k: int|
                    0 <= k < i ==> #[trigger] self.achievements@[k] == (AchievementState {
                        unlocked: old(self).achievements@[k].unlocked || has_trigger(
                            old(self).achievements@[k],
                            trigger_id@,
                        ),
                        definition: old(self).achievements@[k].definition,
                    }),
                r@ == newly_ids(old(self).achievements@.take(i as int), trigger_id@),
                self.notifications@ == old(self).notifications@ + new_notes(
                    old(self).achievements@.take(i as int),
                    trigger_id@,
                ),
                self.dirty == (old(self).dirty || newly_ids(
                    old(self).achievements@.take(i as int),
                    trigger_id@,
                ).len() > 0),
            decreases n - i,
        {
            proof {
                assert(old(self).achievements@.take(i + 1int).drop_last() =~= old(
                    self,
                ).achievements@.take(i as int));
                assert(old(self).achievements@.take(i + 1int).last() == old(
                    self,
                ).achievements@[i as int]);
            }
            let matched = match &self.achievements[i].definition.trigger {
                Some(t) => *t == tid,
                None => false,
            };
            if matched && !self.achievements[i].unlocked {
                let name = self.achievements[i].definition.name.clone();
                let description = self.achievements[i].definition.description.clone();
                let id = self.achievements[i].definition.id.clone();
                let def = AchievementDefinition {
                    id: self.achievements[i].definition.id.clone(),
                    name: self.achievements[i].definition.name.clone(),
                    description: self.achievements[i].definition.description.clone(),
                    trigger: match &self.achievements[i].definition.trigger {
                        Some(t) => Some(t.clone()),
                        None => None,
                    },
                };
                self.achievements[i] = AchievementState { definition: def, unlocked: true };
                self.notifications.push_back(AchievementNotification { name, description });
                self.dirty = true;
                r.push(id);
            }
            i += 1;
        }
        proof {
            assert(old(self).achievements@.take(n as int) =~= old(self).achievements@);
            assert forall|a: int, b: int|
                0 <= a < self.achievements@.len() && 0 <= b < self.achievements@.len() && a
                    != b implies (#[trigger] self.achievements@[a]).definition.id@ != (
                #[trigger] self.achievements@[b]).definition.id@ by {
                assert((old(self).achievements@[a]).definition.id@ != (
                old(self).achievements@[b]).definition.id@);
            }
        }
        r
    }

    /// Unlock one achievement by id.  `Ok(true)` when it was locked,
    /// `Ok(false)` when it was already unlocked, and an error naming the id
    /// exactly when the id is unknown; only an unknown id is an error.
    pub fn grant(&mut self, achievement_id: &str) -> (r: Result<bool, String>)
        requires
            old(self).wf(),
        ensures
            final(self).wf(),
            r matches Err(msg) ==> msg@ == "achievement not found: "@ + achievement_id@
                && *final(self) == *old(self),
            r is Err <==> (forall|i: int|
                0 <= i < old(self).achievements@.len()
                    ==> (#[trigger] old(self).achievements@[i]).definition.id@ != achievement_id@),
            r matches Ok(granted) ==> exists|i: int|
                {
                    &&& 0 <= i < old(self).achievements@.len()
                    &&& (#[trigger] old(self).achievements@[i]).definition.id@ == achievement_id@
                    &&& granted == !old(self).achievements@[i].unlocked
                    &&& if granted {
                        &&& final(self).achievements@ == old(self).achievements@.update(
                            i,
                            AchievementState {
                                unlocked: true,
                                definition: old(self).achievements@[i].definition,
                            },
                        )
                        &&& final(self).notifications@ == old(self).notifications@.push(
                            AchievementNotification {
                                name: old(self).achievements@[i].definition.name,
                                description: old(self).achievements@[i].definition.description,
                            },
                        )
                        &&& final(self).dirty
                    } else {
                        *final(self) == *old(self)
                    }
                },
    {
        let n = self.achievements.len();
        let id = achievement_id.to_owned();
        let mut i: usize = 0;
        while i < n
            invariant
                old(self).wf(),
                *self == *old(self),
                n == self.achievements@.len(),
                0 <= i <= n,
                id@ == achievement_id@,
                forall|k: int|
                    0 <= k < i ==> (#[trigger] self.achievements@[k]).definition.id@
                        != achievement_id@,
            decreases n - i,
        {
            if self.achievements[i].definition.id == id {
                if self.achievements[i].unlocked {
                    return Ok(false);
                }
                let name = self.achievements[i].definition.name.clone();
                let description = self.achievements[i].definition.description.clone();
                let def = AchievementDefinition {
                    id: self.achievements[i].definition.id.clone(),
                    name: self.achievements[i].definition.name.clone(),
                    description: self.achievements[i].definition.description.clone(),
                    trigger: match &self.achievements[i].definition.trigger {
                        Some(t) => Some(t.clone()),
                        None => None,
                    },
                };
                let ghost pre = *self;
                self.achievements[i] = AchievementState { definition: def, unlocked: true };
                self.notifications.push_back(AchievementNotification { name, description });
                self.dirty = true;
                proof {
                    assert forall|a: int, b: int|
                        0 <= a < self.achievements@.len() && 0 <= b < self.achievements@.len() && a
                            != b implies (#[trigger] self.achievements@[a]).definition.id@ != (
                        #[trigger] self.achievements@[b]).definition.id@ by {
                        assert((pre.achievements@[a]).definition.id@ != (
                        pre.achievements@[b]).definition.id@);
                    }
                }
                return Ok(true);
            }
            i += 1;
        }
        let mut msg = String::from_str("achievement not found: ");
        msg.append(achievement_id);
        Err(msg)
    }

    /// Hand out and clear the pending notifications, oldest first.
    pub fn take_notifications(&mut self) -> (r: Vec<AchievementNotification>)
        ensures
            r@ == old(self).notifications@,
            final(self).notifications@.len() == 0,
            final(self).achievements == old(self).achievements,
            final(self).dirty == old(self).dirty,
    {
        let mut r: Vec<AchievementNotification> = Vec::new();
        loop
            invariant
                r@ + self.notifications@ == old(self).notifications@,
                self.achievements == old(self).achievements,
                self.dirty == old(self).dirty,
            ensures
                r@ == old(self).notifications@,
                self.notifications@.len() == 0,
                self.achievements == old(self).achievements,
                self.dirty == old(self).dirty,
            decreases self.notifications@.len(),
        {
            match self.notifications.pop_front() {
                Some(x) => {
                    r.push(x);
                    proof {
                        assert(r@ + self.notifications@ =~= old(self).notifications@);
                    }
                },
                None => {
                    proof {
                        assert(r@ =~= r@ + self.notifications@);
                    }
                    break ;
                },
            }
        }
        r
    }
}

} // verus!
