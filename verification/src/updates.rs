//! Pending updates: the optimistic-concurrency commit protocol. An update
//! stages local mutations, recomputes a prospective metadata value against
//! freshly refreshed base state, and delegates atomic persistence to the
//! Table Operations collaborator.

use crate::metadata::{TableMetadata, TableMetadataView};
use crate::properties::{key_set, spec_merge, Properties};
use crate::snapshot::DataFile;
use crate::table::TableOperations;
use vstd::prelude::*;

verus! {

/// Why a pending update failed.
#[derive(Clone, Copy, PartialEq, Eq, Structural, Debug)]
pub enum UpdateError {
    /// The base this update was staged against is stale relative to the
    /// collaborator's state; retryable by re-staging against fresh state.
    Conflict,
    /// The collaborator could not persist the change; surfaced, not silently
    /// retried.
    PersistenceFailure,
}

/// Where a pending update stands in its lifecycle: created bound to a base,
/// mutated locally, previewed, then ended by its single commit attempt.
#[derive(Clone, Copy, PartialEq, Eq, Structural, Debug)]
pub enum UpdateState {
    New,
    Staged,
    Applied,
    Committed,
    Conflict,
    Failed,
}

/// The terminal states: an update that reached one is spent.
pub open spec fn is_terminal(s: UpdateState) -> bool {
    s == UpdateState::Committed || s == UpdateState::Conflict || s == UpdateState::Failed
}

/// An update that can be committed. `apply` computes the prospective changes
/// without persisting anything and may be repeated; `commit` persists them
/// through the collaborator and consumes the update: after it the update is
/// spent, and no further apply or commit of it is permitted — a retry takes
/// a new pending update staged against fresh state.
pub trait PendingUpdate: Sized {
    type Changes;

    /// The update's own well-formedness.
    spec fn inv(&self) -> bool;

    /// Whether the update is still open: not yet spent by a commit attempt.
    spec fn open_update(&self) -> bool;

    /// Applies the update without commit, to preview the changes.
    fn apply(&mut self) -> (r: Result<Self::Changes, UpdateError>)
        requires
            old(self).inv(),
            old(self).open_update(),
        ensures
            final(self).inv(),
            final(self).open_update(),
    ;

    /// Commits the update, spending it.
    fn commit(&mut self) -> (r: Result<(), UpdateError>)
        requires
            old(self).inv(),
            old(self).open_update(),
        ensures
            final(self).inv(),
            !final(self).open_update(),
    ;
}

/// Staged changes to a table's properties: keys to set and keys to remove.
pub struct UpdateProperties<T: TableOperations> {
    updates: Properties,
    removals: Vec<String>,
    ops: T,
    base: TableMetadata,
    state: UpdateState,
}

impl<T: TableOperations> UpdateProperties<T> {
    /// The staged key/value bindings.
    pub closed spec fn staged_updates(&self) -> Map<Seq<char>, Seq<char>> {
        self.updates@
    }

    /// The staged removals.
    pub closed spec fn staged_removals(&self) -> Set<Seq<char>> {
        key_set(self.removals@.map_values(|s: String| s@))
    }

    /// The base metadata this update was last staged against.
    pub closed spec fn base_meta(&self) -> TableMetadataView {
        self.base@
    }

    /// What the collaborator's backing store holds.
    pub closed spec fn store(&self) -> TableMetadataView {
        self.ops.stored()
    }

    pub closed spec fn wf(&self) -> bool {
        self.updates.wf() && self.base.wf()
    }

    /// Where this update stands in its lifecycle.
    pub closed spec fn state(&self) -> UpdateState {
        self.state
    }

    /// The lifecycle state, observable at run time.
    pub fn current_state(&self) -> (r: UpdateState)
        ensures
            r == self.state(),
    {
        self.state
    }

    /// A fresh pending update bound to the collaborator's latest known state,
    /// with nothing staged.
    pub fn new(ops: T) -> (r: UpdateProperties<T>)
        ensures
            r.wf(),
            r.state() == UpdateState::New,
            r.staged_updates() == Map::<Seq<char>, Seq<char>>::empty(),
            r.staged_removals() == Set::<Seq<char>>::empty(),
            r.base_meta() == ops.known(),
            r.store() == ops.stored(),
    {
        let base = ops.current();
        let r = UpdateProperties {
            updates: Properties::new(),
            removals: Vec::new(),
            ops,
            base,
            state: UpdateState::New,
        };
        proof {
            assert(r.removals@.map_values(|s: String| s@) =~= Seq::<Seq<char>>::empty());
            assert(r.staged_removals() =~= Set::<Seq<char>>::empty());
        }
        r
    }

    /// Stages setting a key/value property on the table; only an update not
    /// yet spent by a commit attempt can stage more.
    pub fn set(&mut self, key: &str, value: &str)
        requires
            old(self).wf(),
            !is_terminal(old(self).state()),
        ensures
            final(self).wf(),
            final(self).state() == UpdateState::Staged,
            final(self).staged_updates() == old(self).staged_updates().insert(key@, value@),
            final(self).staged_removals() == old(self).staged_removals(),
            final(self).base_meta() == old(self).base_meta(),
            final(self).store() == old(self).store(),
    {
        self.updates.insert(key, value);
        self.state = UpdateState::Staged;
    }

    /// Stages removing a property key from the table; only an update not yet
    /// spent by a commit attempt can stage more.
    pub fn remove(&mut self, key: &str)
        requires
            old(self).wf(),
            !is_terminal(old(self).state()),
        ensures
            final(self).wf(),
            final(self).state() == UpdateState::Staged,
            final(self).staged_updates() == old(self).staged_updates(),
            final(self).staged_removals() == old(self).staged_removals().insert(key@),
            final(self).base_meta() == old(self).base_meta(),
            final(self).store() == old(self).store(),
    {
        let ghost before = self.removals@.map_values(|s: String| s@);
        self.removals.push(key.to_owned());
        self.state = UpdateState::Staged;
        proof {
            let after = self.removals@.map_values(|s: String| s@);
            assert(after.drop_last() =~= before);
            assert(after.last() == key@);
            assert forall|k: Seq<char>| #[trigger] key_set(after).contains(k) <==> key_set(
                before,
            ).insert(key@).contains(k) by {
                if key_set(after).contains(k) {
                    let i = choose|i: int| 0 <= i < after.len() && after[i] == k;
                    if i < after.len() - 1 {
                        assert(before[i] == k);
                    }
                } else if key_set(before).insert(key@).contains(k) {
                    if k == key@ {
                        assert(after[after.len() - 1] == k);
                    } else {
                        let i = choose|i: int| 0 <= i < before.len() && before[i] == k;
                        assert(after[i] == k);
                    }
                }
            }
            assert(key_set(after) =~= key_set(before).insert(key@));
        }
    }

    /// Recomputes the prospective property mapping against freshly refreshed
    /// base state, persisting nothing: the result is every key of the
    /// refreshed base that is not staged for removal, overridden by every
    /// staged binding, so concurrent changes to untouched keys pass through.
    /// The staged state is not mutated, so repeated applies with an unchanged
    /// store yield identical results; only an update not yet spent by a
    /// commit attempt can be applied.
    pub fn apply(&mut self) -> (r: Result<Properties, UpdateError>)
        requires
            old(self).wf(),
            !is_terminal(old(self).state()),
        ensures
            final(self).wf(),
            final(self).state() == UpdateState::Applied,
            final(self).staged_updates() == old(self).staged_updates(),
            final(self).staged_removals() == old(self).staged_removals(),
            final(self).store() == old(self).store(),
            final(self).base_meta() == old(self).store(),
            match r {
                Ok(changes) => changes.wf() && changes@ == spec_merge(
                    old(self).store().properties,
                    old(self).staged_updates(),
                    old(self).staged_removals(),
                ),
                Err(_) => false,
            },
    {
        self.base = self.ops.refresh();
        let changes = self.base.properties.merged_with(&self.updates, &self.removals);
        self.state = UpdateState::Applied;
        Ok(changes)
    }

    /// Applies against fresh state, then delegates the swap from that state
    /// to the prospective value to the collaborator's compare-and-swap. The
    /// single commit attempt spends the update: it ends in a terminal state
    /// naming the outcome, and no further apply or commit is permitted — a
    /// retry takes a new pending update staged against fresh state. In this
    /// single-handle model nothing can change the store between the refresh
    /// and the swap, so no conflict is reported; a persistence failure still
    /// can be.
    pub fn commit(&mut self) -> (r: Result<(), UpdateError>)
        requires
            old(self).wf(),
            !is_terminal(old(self).state()),
        ensures
            final(self).wf(),
            is_terminal(final(self).state()),
            final(self).state() == (match r {
                Ok(_) => UpdateState::Committed,
                Err(UpdateError::Conflict) => UpdateState::Conflict,
                Err(UpdateError::PersistenceFailure) => UpdateState::Failed,
            }),
            final(self).staged_updates() == old(self).staged_updates(),
            final(self).staged_removals() == old(self).staged_removals(),
            (r matches Ok(_) ==> final(self).store() == (TableMetadataView {
                properties: spec_merge(
                    old(self).store().properties,
                    old(self).staged_updates(),
                    old(self).staged_removals(),
                ),
                ..old(self).store()
            })),
            (r matches Err(_) ==> final(self).store() == old(self).store()),
            !(r matches Err(UpdateError::Conflict)),
    {
        let changes = match self.apply() {
            Ok(changes) => changes,
            Err(e) => {
                self.state = UpdateState::Failed;
                return Err(e);
            },
        };
        let updated = self.base.replace_properties(changes);
        match self.ops.commit(&self.base, &updated) {
            Ok(()) => {
                self.state = UpdateState::Committed;
                Ok(())
            },
            Err(UpdateError::Conflict) => {
                self.state = UpdateState::Conflict;
                Err(UpdateError::Conflict)
            },
            Err(UpdateError::PersistenceFailure) => {
                self.state = UpdateState::Failed;
                Err(UpdateError::PersistenceFailure)
            },
        }
    }

    /// Commits with a bounded refresh-and-reapply retry loop around
    /// conflicted swaps: each attempt re-reads fresh state, recomputes the
    /// prospective value and tries the compare-and-swap again; a persistence
    /// failure is surfaced at once. This too is a single consuming commit:
    /// the update ends terminal, exhausted attempts surfacing the conflict.
    pub fn commit_with_retries(&mut self, attempts: u32) -> (r: Result<(), UpdateError>)
        requires
            old(self).wf(),
            !is_terminal(old(self).state()),
        ensures
            final(self).wf(),
            is_terminal(final(self).state()),
            final(self).state() == (match r {
                Ok(_) => UpdateState::Committed,
                Err(UpdateError::Conflict) => UpdateState::Conflict,
                Err(UpdateError::PersistenceFailure) => UpdateState::Failed,
            }),
            (r matches Ok(_) ==> final(self).store() == (TableMetadataView {
                properties: spec_merge(
                    old(self).store().properties,
                    old(self).staged_updates(),
                    old(self).staged_removals(),
                ),
                ..old(self).store()
            })),
            (r matches Err(_) ==> final(self).store() == old(self).store()),
    {
        let mut i: u32 = 0;
        while i < attempts
            invariant
                self.wf(),
                !is_terminal(self.state()),
                self.staged_updates() == old(self).staged_updates(),
                self.staged_removals() == old(self).staged_removals(),
                self.store() == old(self).store(),
            decreases attempts - i,
        {
            let changes = match self.apply() {
                Ok(changes) => changes,
                Err(e) => {
                    self.state = UpdateState::Failed;
                    return Err(e);
                },
            };
            let updated = self.base.replace_properties(changes);
            match self.ops.commit(&self.base, &updated) {
                Ok(()) => {
                    self.state = UpdateState::Committed;
                    return Ok(());
                },
                Err(UpdateError::Conflict) => {
                    i += 1;
                },
                Err(UpdateError::PersistenceFailure) => {
                    self.state = UpdateState::Failed;
                    return Err(UpdateError::PersistenceFailure);
                },
            }
        }
        self.state = UpdateState::Conflict;
        Err(UpdateError::Conflict)
    }
}

impl<T: TableOperations> PendingUpdate for UpdateProperties<T> {
    type Changes = Properties;

    open spec fn inv(&self) -> bool {
        self.wf()
    }

    open spec fn open_update(&self) -> bool {
        !is_terminal(self.state())
    }

    fn apply(&mut self) -> (r: Result<Properties, UpdateError>) {
        self.apply()
    }

    fn commit(&mut self) -> (r: Result<(), UpdateError>) {
        self.commit()
    }
}

/// Applying staged property changes is idempotent: the prospective mapping is
/// a pure function of the refreshed base and the staged mutations, so two
/// applies without an intervening commit — and with an unchanged store —
/// yield the same changes.
pub proof fn lemma_apply_idempotent(
    base: Map<Seq<char>, Seq<char>>,
    updates: Map<Seq<char>, Seq<char>>,
    removed: Set<Seq<char>>,
    first: Map<Seq<char>, Seq<char>>,
    second: Map<Seq<char>, Seq<char>>,
)
    requires
        first == spec_merge(base, updates, removed),
        second == spec_merge(base, updates, removed),
    ensures
        first == second,
{
}

/// Concurrent writers that touch disjoint keys coexist in a merged result: a
/// key this update neither sets nor removes keeps the freshly refreshed
/// base's value — another writer's committed change included — while every
/// staged key takes the staged value and every removed, un-reset key is gone.
pub proof fn lemma_merge_preserves_untouched(
    base: Map<Seq<char>, Seq<char>>,
    updates: Map<Seq<char>, Seq<char>>,
    removed: Set<Seq<char>>,
    k: Seq<char>,
)
    ensures
        !updates.contains_key(k) && !removed.contains(k) && base.contains_key(k) ==> spec_merge(
            base,
            updates,
            removed,
        ).contains_key(k) && spec_merge(base, updates, removed)[k] == base[k],
        updates.contains_key(k) ==> spec_merge(base, updates, removed).contains_key(k)
            && spec_merge(base, updates, removed)[k] == updates[k],
        removed.contains(k) && !updates.contains_key(k) ==> !spec_merge(
            base,
            updates,
            removed,
        ).contains_key(k),
{
}

/// Staged changes to a table's schema; schema evolution itself is an
/// unimplemented extension point, so the changes are recorded, not applied.
pub struct UpdateSchema {
    changes: Vec<SchemaChange>,
}

/// One staged schema change.
#[derive(Debug)]
pub enum SchemaChange {
    AddColumn { name: String, data_type: String },
    AddChildColumn { parent: String, name: String, data_type: String },
    RenameColumn { name: String, new_name: String },
    UpdateColumnType { name: String, new_type: String },
    DeleteColumn { name: String },
}

/// The mathematical model of a [`SchemaChange`].
pub enum SchemaChangeView {
    AddColumn { name: Seq<char>, data_type: Seq<char> },
    AddChildColumn { parent: Seq<char>, name: Seq<char>, data_type: Seq<char> },
    RenameColumn { name: Seq<char>, new_name: Seq<char> },
    UpdateColumnType { name: Seq<char>, new_type: Seq<char> },
    DeleteColumn { name: Seq<char> },
}

impl View for SchemaChange {
    type V = SchemaChangeView;

    open spec fn view(&self) -> SchemaChangeView {
        match self {
            SchemaChange::AddColumn { name, data_type } => SchemaChangeView::AddColumn {
                name: name@,
                data_type: data_type@,
            },
            SchemaChange::AddChildColumn { parent, name, data_type } => {
                SchemaChangeView::AddChildColumn {
                    parent: parent@,
                    name: name@,
                    data_type: data_type@,
                }
            },
            SchemaChange::RenameColumn { name, new_name } => SchemaChangeView::RenameColumn {
                name: name@,
                new_name: new_name@,
            },
            SchemaChange::UpdateColumnType { name, new_type } => {
                SchemaChangeView::UpdateColumnType { name: name@, new_type: new_type@ }
            },
            SchemaChange::DeleteColumn { name } => SchemaChangeView::DeleteColumn { name: name@ },
        }
    }
}

impl UpdateSchema {
    /// The staged schema changes, in order.
    pub closed spec fn staged(&self) -> Seq<SchemaChangeView> {
        self.changes@.map_values(|c: SchemaChange| c@)
    }

    pub fn new() -> (r: UpdateSchema)
        ensures
            r.staged().len() == 0,
    {
        let r = UpdateSchema { changes: Vec::new() };
        proof {
            assert(r.staged() =~= Seq::<SchemaChangeView>::empty());
        }
        r
    }

    pub fn add_column(&mut self, name: &str, data_type: &str)
        ensures
            final(self).staged() =~= old(self).staged().push(
                SchemaChangeView::AddColumn { name: name@, data_type: data_type@ },
            ),
    {
        self.changes.push(
            SchemaChange::AddColumn { name: name.to_owned(), data_type: data_type.to_owned() },
        );
    }

    pub fn add_child_column(&mut self, parent: &str, name: &str, data_type: &str)
        ensures
            final(self).staged() =~= old(self).staged().push(
                SchemaChangeView::AddChildColumn {
                    parent: parent@,
                    name: name@,
                    data_type: data_type@,
                },
            ),
    {
        self.changes.push(
            SchemaChange::AddChildColumn {
                parent: parent.to_owned(),
                name: name.to_owned(),
                data_type: data_type.to_owned(),
            },
        );
    }

    pub fn rename_column(&mut self, name: &str, new_name: &str)
        ensures
            final(self).staged() =~= old(self).staged().push(
                SchemaChangeView::RenameColumn { name: name@, new_name: new_name@ },
            ),
    {
        self.changes.push(
            SchemaChange::RenameColumn { name: name.to_owned(), new_name: new_name.to_owned() },
        );
    }

    pub fn update_column_type(&mut self, name: &str, new_type: &str)
        ensures
            final(self).staged() =~= old(self).staged().push(
                SchemaChangeView::UpdateColumnType { name: name@, new_type: new_type@ },
            ),
    {
        self.changes.push(
            SchemaChange::UpdateColumnType { name: name.to_owned(), new_type: new_type.to_owned() },
        );
    }

    pub fn delete_column(&mut self, name: &str)
        ensures
            final(self).staged() =~= old(self).staged().push(
                SchemaChangeView::DeleteColumn { name: name@ },
            ),
    {
        self.changes.push(SchemaChange::DeleteColumn { name: name.to_owned() });
    }
}

/// Replaces data files with rewritten ones through a new snapshot; the
/// snapshot computation is an unimplemented extension point, so the files are
/// recorded, not applied.
pub struct RewriteFiles {
    pub files_to_delete: Vec<DataFile>,
    pub files_to_add: Vec<DataFile>,
}

impl RewriteFiles {
    pub fn new(files_to_delete: Vec<DataFile>, files_to_add: Vec<DataFile>) -> (r: RewriteFiles)
        ensures
            r.files_to_delete@ == files_to_delete@,
            r.files_to_add@ == files_to_add@,
    {
        RewriteFiles { files_to_delete, files_to_add }
    }
}

/// Appends data files through a new snapshot; an interface placeholder.
pub struct AppendFiles {}

/// Deletes data files through a new snapshot; an interface placeholder.
pub struct DeleteFiles {}

/// Rolls a table back to an earlier snapshot; an interface placeholder.
pub struct Rollback {}

} // verus!
