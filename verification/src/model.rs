//! The conflict under review together with the resolutions chosen for it.

use vstd::prelude::*;
use crate::conflict::{ConflictView, MergeConflict, MergeResolution, ResolutionView};
use crate::resolution::ResolutionMap;

verus! {

/// Every hunk of the conflict has a resolution.
pub open spec fn all_resolved(
    conflict: ConflictView,
    resolutions: Map<(int, int), ResolutionView>,
) -> bool {
    forall|file_index: int, hunk_index: int|
        #[trigger] conflict.has_hunk(file_index, hunk_index) ==> resolutions.contains_key(
            (file_index, hunk_index),
        )
}

/// A conflict with a hunk that has no resolution is not resolved; one that
/// is resolved stays so when a resolution is recorded; and one of which a
/// single hunk lacks a resolution is resolved once that hunk has one.
pub proof fn lemma_completion_counts_every_hunk(
    conflict: ConflictView,
    resolutions: Map<(int, int), ResolutionView>,
    file_index: int,
    hunk_index: int,
    resolution: ResolutionView,
)
    ensures
        conflict.has_hunk(file_index, hunk_index) && !resolutions.contains_key(
            (file_index, hunk_index),
        ) ==> !all_resolved(conflict, resolutions),
        all_resolved(conflict, resolutions) ==> all_resolved(
            conflict,
            resolutions.insert((file_index, hunk_index), resolution),
        ),
        (forall|f: int, h: int| #[trigger]
            conflict.has_hunk(f, h) && (f, h) != (file_index, hunk_index)
                ==> resolutions.contains_key((f, h))) ==> all_resolved(
            conflict,
            resolutions.insert((file_index, hunk_index), resolution),
        ),
{
    let after = resolutions.insert((file_index, hunk_index), resolution);
    if forall|f: int, h: int| #[trigger]
        conflict.has_hunk(f, h) && (f, h) != (file_index, hunk_index) ==> resolutions.contains_key(
            (f, h),
        ) {
        assert forall|f: int, h: int| #[trigger] conflict.has_hunk(f, h) implies after.contains_key(
            (f, h),
        ) by {
            if (f, h) != (file_index, hunk_index) {
                assert(resolutions.contains_key((f, h)));
            }
        }
    }
}

/// Every resolution is for a hunk of the conflict; without a conflict there
/// is no resolution.
pub open spec fn resolutions_fit(
    conflict: Option<ConflictView>,
    resolutions: Map<(int, int), ResolutionView>,
) -> bool {
    forall|file_index: int, hunk_index: int| #[trigger]
        resolutions.contains_key((file_index, hunk_index)) ==> conflict is Some
            && conflict->0.has_hunk(file_index, hunk_index)
}

/// The current conflict, if a merge is in progress, and the resolutions
/// chosen for its hunks. The resolutions always belong to the conflict that
/// is held: a new conflict comes with none.
pub struct ConflictModel {
    conflict: Option<MergeConflict>,
    resolutions: ResolutionMap,
}

impl ConflictModel {
    /// The resolutions held are all for hunks of the conflict held.
    #[verifier::type_invariant]
    spec fn fits(self) -> bool {
        resolutions_fit(self.snapshot(), self.resolutions@)
    }

    /// The conflict that is held, as a mathematical value.
    pub closed spec fn snapshot(self) -> Option<ConflictView> {
        match self.conflict {
            Some(conflict) => Some(conflict@),
            None => None,
        }
    }

    /// The resolutions chosen, as a mathematical map.
    pub closed spec fn choices(self) -> Map<(int, int), ResolutionView> {
        self.resolutions@
    }

    /// A model without a conflict.
    pub fn new() -> (model: Self)
        ensures
            model.snapshot() is None,
            model.choices() == Map::<(int, int), ResolutionView>::empty(),
    {
        ConflictModel { conflict: None, resolutions: ResolutionMap::new() }
    }

    /// The conflict that is held.
    pub fn conflict(&self) -> (conflict: Option<&MergeConflict>)
        ensures
            match conflict {
                Some(held) => self.snapshot() == Some(held@),
                None => self.snapshot() is None,
            },
    {
        self.conflict.as_ref()
    }

    /// The resolutions chosen so far. Each is for a hunk of the conflict
    /// held.
    pub fn resolutions(&self) -> (resolutions: &ResolutionMap)
        ensures
            resolutions@ == self.choices(),
            resolutions_fit(self.snapshot(), self.choices()),
    {
        proof {
            use_type_invariant(self);
        }
        &self.resolutions
    }

    /// Puts a new detection result in place of the conflict that was held,
    /// and forgets every resolution.
    pub fn replace(&mut self, conflict: Option<MergeConflict>)
        ensures
            final(self).snapshot() == match conflict {
                Some(found) => Some(found@),
                None => None,
            },
            final(self).choices() == Map::<(int, int), ResolutionView>::empty(),
    {
        *self = ConflictModel { conflict, resolutions: ResolutionMap::new() };
    }

    /// Records `resolution` for a hunk of the conflict held, in place of any
    /// earlier choice for that hunk. The conflict stays as it is.
    pub fn set_resolution(
        &mut self,
        file_index: usize,
        hunk_index: usize,
        resolution: MergeResolution,
    )
        requires
            old(self).snapshot() is Some,
            old(self).snapshot()->0.has_hunk(file_index as int, hunk_index as int),
        ensures
            final(self).snapshot() == old(self).snapshot(),
            final(self).choices() == old(self).choices().insert(
                (file_index as int, hunk_index as int),
                resolution@,
            ),
    {
        proof {
            use_type_invariant(&*self);
        }
        let mut taken = ConflictModel::new();
        std::mem::swap(self, &mut taken);
        let ConflictModel { conflict, mut resolutions } = taken;
        resolutions.insert(file_index, hunk_index, resolution);
        *self = ConflictModel { conflict, resolutions };
    }

    /// Whether a conflict is held and every hunk of it has a resolution.
    pub fn can_complete(&self) -> (complete: bool)
        ensures
            complete == (self.snapshot() is Some && all_resolved(
                self.snapshot()->0,
                self.choices(),
            )),
    {
        match &self.conflict {
            None => false,
            Some(conflict) => {
                let ghost view = conflict@;
                let mut file_index: usize = 0;
                while file_index < conflict.files.len()
                    invariant
                        file_index <= conflict.files.len(),
                        view == conflict@,
                        self.snapshot() == Some(view),
                        forall|f: int, h: int|
                            0 <= f < file_index && #[trigger] view.has_hunk(f, h)
                                ==> self.resolutions@.contains_key((f, h)),
                    decreases conflict.files.len() - file_index,
                {
                    let file = &conflict.files[file_index];
                    assert(view.files[file_index as int] == file@);
                    let mut hunk_index: usize = 0;
                    while hunk_index < file.conflicts.len()
                        invariant
                            hunk_index <= file.conflicts.len(),
                            file_index < conflict.files.len(),
                            view == conflict@,
                            self.snapshot() == Some(view),
                            view.files[file_index as int] == file@,
                            forall|h: int|
                                0 <= h < hunk_index ==> #[trigger] self.resolutions@.contains_key(
                                    (file_index as int, h),
                                ),
                        decreases file.conflicts.len() - hunk_index,
                    {
                        if !self.resolutions.contains_key(file_index, hunk_index) {
                            assert(view.has_hunk(file_index as int, hunk_index as int));
                            return false;
                        }
                        hunk_index += 1;
                    }
                    assert forall|f: int, h: int|
                        0 <= f < file_index + 1 && #[trigger] view.has_hunk(f, h)
                            implies self.resolutions@.contains_key((f, h)) by {
                        if f == file_index {
                            assert(self.resolutions@.contains_key((file_index as int, h)));
                        }
                    }
                    file_index += 1;
                }
                true
            },
        }
    }
}

} // verus!
