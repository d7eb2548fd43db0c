//! Execution profiles: how often a function runs and which value types each
//! instruction has seen.

use vstd::prelude::*;

verus! {

#[derive(Debug, Clone, Copy, PartialEq, Eq, Structural)]
pub enum ValueType {
    Int,
    Float,
    Bool,
    Null,
    Ptr,
    Unknown,
}

/// The last distinct value types seen at one instruction (at most four), and
/// how many values it has seen.
pub struct TypeFeedback {
    pub seen_types: [ValueType; 4],
    pub count: u32,
}

impl TypeFeedback {
    pub fn new() -> (r: TypeFeedback)
        ensures
            r.seen_types@ == seq![ValueType::Unknown, ValueType::Unknown, ValueType::Unknown, ValueType::Unknown],
            r.count == 0,
    {
        let r = TypeFeedback {
            seen_types: [ValueType::Unknown, ValueType::Unknown, ValueType::Unknown, ValueType::Unknown],
            count: 0,
        };
        assert(r.seen_types@ =~= seq![ValueType::Unknown, ValueType::Unknown, ValueType::Unknown, ValueType::Unknown]);
        r
    }

    /// Records one value of type `ty`: a type not yet among the seen ones takes
    /// slot `count mod 4`. Afterwards `ty` is among the seen types.
    pub fn record(&mut self, ty: ValueType)
        requires
            old(self).count < u32::MAX,
        ensures
            final(self).seen_types@ == (if old(self).seen_types@.contains(ty) {
                old(self).seen_types@
            } else {
                old(self).seen_types@.update(old(self).count as int % 4, ty)
            }),
            final(self).count == old(self).count + 1,
            final(self).seen_types@.contains(ty),
    {
        let mut found = false;
        let mut i: usize = 0;
        while i < 4
            invariant
                i <= 4,
                self.seen_types@ == old(self).seen_types@,
                self.count == old(self).count,
                self.seen_types@.len() == 4,
                found == (exists|j: int| 0 <= j < i && self.seen_types@[j] == ty),
            decreases 4 - i,
        {
            if self.seen_types[i] == ty {
                found = true;
            }
            i = i + 1;
        }
        if !found {
            let idx = (self.count % 4) as usize;
            self.seen_types[idx] = ty;
            assert(self.seen_types@[idx as int] == ty);
        } else {
            proof {
                let j = choose|j: int| 0 <= j < 4 && self.seen_types@[j] == ty;
                assert(self.seen_types@[j] == ty);
            }
        }
        self.count = self.count + 1;
    }
}

/// Invocations after which a function counts as hot.
pub const HOT_THRESHOLD: u32 = 1000;

pub struct FunctionProfile {
    pub invocation_count: u32,
    pub is_hot: bool,
    pub feedback: Vec<TypeFeedback>,
}

impl FunctionProfile {
    /// A function is hot exactly when it has run at least `HOT_THRESHOLD` times.
    pub open spec fn hot_matches_count(&self) -> bool {
        self.is_hot == (self.invocation_count >= HOT_THRESHOLD)
    }

    /// A cold profile with fresh feedback for each of `instruction_count` instructions.
    pub fn new(instruction_count: usize) -> (r: FunctionProfile)
        ensures
            r.invocation_count == 0,
            !r.is_hot,
            r.hot_matches_count(),
            r.feedback@.len() == instruction_count,
            forall|i: int| 0 <= i < instruction_count ==> #[trigger] r.feedback@[i].count == 0
                && r.feedback@[i].seen_types@ == seq![ValueType::Unknown, ValueType::Unknown, ValueType::Unknown, ValueType::Unknown],
    {
        let mut feedback: Vec<TypeFeedback> = Vec::new();
        let mut i: usize = 0;
        while i < instruction_count
            invariant
                i <= instruction_count,
                feedback@.len() == i,
                forall|j: int| 0 <= j < i ==> #[trigger] feedback@[j].count == 0
                    && feedback@[j].seen_types@ == seq![ValueType::Unknown, ValueType::Unknown, ValueType::Unknown, ValueType::Unknown],
            decreases instruction_count - i,
        {
            feedback.push(TypeFeedback::new());
            i = i + 1;
        }
        FunctionProfile { invocation_count: 0, is_hot: false, feedback }
    }

    /// Counts one more invocation; the function becomes hot at `HOT_THRESHOLD`
    /// invocations and stays hot.
    pub fn record_invocation(&mut self)
        requires
            old(self).invocation_count < u32::MAX,
        ensures
            final(self).invocation_count == old(self).invocation_count + 1,
            final(self).is_hot == (old(self).is_hot || final(self).invocation_count >= HOT_THRESHOLD),
            old(self).hot_matches_count() ==> final(self).hot_matches_count(),
            final(self).feedback@ == old(self).feedback@,
    {
        self.invocation_count = self.invocation_count + 1;
        if self.invocation_count >= HOT_THRESHOLD {
            self.is_hot = true;
        }
    }
}

} // verus!
