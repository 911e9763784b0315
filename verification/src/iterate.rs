//! The iteration generator: one instance of every variant, in declaration
//! order, every field neutral.

use crate::descriptor::EnumDescriptor;
use crate::error::{ValidationError, ValidationErrorModel};
use crate::model::{neutral, EnumModel, Instance, InstanceModel};
use vstd::prelude::*;

verus! {

/// A type whose variants can be walked, one instance of each.
pub trait IntoEnumIterator {
    type Iterator;

    fn iter() -> Self::Iterator;
}

/// Every variant can be made up from neutral values: none holds a borrowed
/// field.
pub open spec fn iterable(model: EnumModel) -> bool {
    forall|i: int| 0 <= i < model.variants.len() ==> (#[trigger] model.variants[i]).shape.fabricable()
}

/// The instances that a walk over `count` variants yields.
pub open spec fn instances(count: int) -> Seq<InstanceModel> {
    Seq::new(count as nat, |i: int| neutral(i))
}

/// A walk over `count` variants yields exactly `count` instances, in
/// declaration order, one for each variant and no two of the same variant,
/// each with neutral fields.
pub proof fn walk_covers_each_variant_once(count: int)
    requires
        0 <= count,
    ensures
        instances(count).len() == count,
        forall|i: int| 0 <= i < count ==> #[trigger] instances(count)[i] == neutral(i),
        forall|i: int, j: int|
            0 <= i < count && 0 <= j < count && i != j ==> (#[trigger] instances(count)[i]).tag
                != (#[trigger] instances(count)[j]).tag,
{
}

/// The iteration artifact: the number of variants to walk.
#[derive(Debug, Clone, Copy, PartialEq, Eq)]
pub struct Iteration {
    pub count: usize,
}

/// A cursor over the variants. Each has its own position and touches
/// nothing else.
#[derive(Debug, Clone, Copy, PartialEq, Eq)]
pub struct VariantIter {
    pub position: usize,
    pub count: usize,
}

impl VariantIter {
    /// The instances that the cursor has yet to yield.
    pub open spec fn remaining(&self) -> Seq<InstanceModel> {
        if self.position <= self.count {
            instances(self.count as int).skip(self.position as int)
        } else {
            Seq::empty()
        }
    }

    /// Yields the next instance and moves on; at the end, yields nothing and
    /// stays.
    pub fn next(&mut self) -> (r: Option<Instance>)
        ensures
            old(self).remaining().len() > 0 ==> r.deep_view() == Some(old(self).remaining()[0])
                && final(self).remaining() == old(self).remaining().drop_first()
                && final(self).position == old(self).position + 1,
            old(self).remaining().len() == 0 ==> r is None && final(self).position == old(
                self,
            ).position,
            final(self).count == old(self).count,
    {
        if self.position < self.count {
            let tag = self.position;
            self.position = tag + 1;
            proof {
                assert(self.remaining() =~= old(self).remaining().drop_first());
            }
            Some(Instance::neutral(tag))
        } else {
            None
        }
    }
}

impl Iteration {
    /// Compiles the walk over an enumeration. It fails where any variant
    /// holds a borrowed field, for which no neutral value can be made up.
    pub fn generate(descriptor: &EnumDescriptor) -> (r: Result<Iteration, ValidationError>)
        ensures
            match r {
                Ok(iteration) => iterable(descriptor@) && iteration.count
                    == descriptor@.variants.len(),
                Err(error) => !iterable(descriptor@) && error@
                    == ValidationErrorModel::UnboundedLifetimeNotSupported,
            },
    {
        let variants = descriptor.variants();
        let ghost model = descriptor@;
        let mut i: usize = 0;
        while i < variants.len()
            invariant
                i <= variants.len(),
                model == descriptor@,
                variants.deep_view() == model.variants,
                forall|j: int| 0 <= j < i ==> (#[trigger] model.variants[j]).shape.fabricable(),
            decreases variants.len() - i,
        {
            proof {
                assert(model.variants[i as int] == variants@[i as int]@);
            }
            if !variants[i].shape.fabricable() {
                return Err(ValidationError::UnboundedLifetimeNotSupported);
            }
            i += 1;
        }
        Ok(Iteration { count: variants.len() })
    }

    /// A fresh cursor at the first variant.
    pub fn iter(&self) -> (r: VariantIter)
        ensures
            r.remaining() == instances(self.count as int),
            r.position == 0,
            r.count == self.count,
    {
        let cursor = VariantIter { position: 0, count: self.count };
        proof {
            assert(cursor.remaining() =~= instances(self.count as int));
        }
        cursor
    }

    /// All the instances of a walk, in order.
    pub fn collect(&self) -> (r: Vec<Instance>)
        ensures
            r.deep_view() == instances(self.count as int),
    {
        let mut cursor = self.iter();
        let mut out: Vec<Instance> = Vec::new();
        let ghost all = instances(self.count as int);
        loop
            invariant
                cursor.count == self.count,
                cursor.position <= cursor.count,
                all == instances(self.count as int),
                out.deep_view() == all.take(cursor.position as int),
            decreases cursor.count - cursor.position,
        {
            let ghost before = out.deep_view();
            let ghost at = cursor.position as int;
            match cursor.next() {
                Some(instance) => {
                    out.push(instance);
                    proof {
                        assert(out.deep_view() =~= before.push(all[at]));
                        assert(all.take(at + 1) =~= all.take(at).push(all[at]));
                        assert(cursor.position == at + 1);
                    }
                },
                None => {
                    proof {
                        assert(all.take(at) =~= all);
                    }
                    return out;
                },
            }
        }
    }
}

} // verus!
