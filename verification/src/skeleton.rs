use vstd::prelude::*;

verus! {

/// A bone or joint of a skeleton, with the index of its parent bone.
#[derive(Clone, Copy, Debug, PartialEq, Eq, Structural)]
pub struct Bone {
    parent: Option<usize>,
}

impl Bone {
    pub closed spec fn parent_spec(&self) -> Option<usize> {
        self.parent
    }

    pub fn new(parent: Option<usize>) -> (r: Self)
        ensures
            r.parent_spec() == parent,
    {
        Bone { parent }
    }

    pub fn parent(&self) -> (r: Option<usize>)
        ensures
            r == self.parent_spec(),
    {
        self.parent
    }
}

/// Following parent links from bone `i` reaches a bone without a parent in
/// at most `steps` links, never leaving the bones.
pub open spec fn reaches_root(bones: Seq<Bone>, i: int, steps: nat) -> bool
    decreases steps,
{
    &&& 0 <= i < bones.len()
    &&& match bones[i].parent_spec() {
        None => true,
        Some(p) => steps > 0 && reaches_root(bones, p as int, (steps - 1) as nat),
    }
}

/// The bones form a tree (a forest of trees): from every bone, parent links
/// lead to a root within as many links as there are bones.
pub open spec fn is_tree(bones: Seq<Bone>) -> bool {
    forall|i: int| 0 <= i < bones.len() ==> #[trigger] reaches_root(bones, i, bones.len())
}

/// A bone from which a root is reached has its parent among the bones, and
/// is not its own parent.
proof fn lemma_parent_of_tree_bone(bones: Seq<Bone>, i: int, steps: nat)
    requires
        reaches_root(bones, i, steps),
    ensures
        bones[i].parent_spec() matches Some(p) ==> p < bones.len() && p != i,
    decreases steps,
{
    reveal_with_fuel(reaches_root, 2);
    if let Some(p) = bones[i].parent_spec() {
        if p == i {
            lemma_no_self_loop(bones, i, steps);
        }
    }
}

proof fn lemma_no_self_loop(bones: Seq<Bone>, i: int, steps: nat)
    requires
        0 <= i < bones.len(),
        bones[i].parent_spec() is Some,
        bones[i].parent_spec()->0 == i,
    ensures
        !reaches_root(bones, i, steps),
    decreases steps,
{
    if steps > 0 {
        lemma_no_self_loop(bones, i, (steps - 1) as nat);
    }
}

/// Whether a root is reached from bone `i` within `bones.len()` links.
fn reaches_root_exec(bones: &[Bone], i: usize) -> (r: bool)
    requires
        i < bones@.len(),
    ensures
        r == reaches_root(bones@, i as int, bones@.len()),
{
    let mut cur: usize = i;
    let mut steps: usize = bones.len();
    loop
        invariant
            cur < bones@.len(),
            steps <= bones@.len(),
            reaches_root(bones@, i as int, bones@.len()) == reaches_root(bones@, cur as int, steps as nat),
        decreases steps,
    {
        match bones[cur].parent() {
            None => return true,
            Some(p) => {
                if steps == 0 {
                    return false;
                }
                if p >= bones.len() {
                    assert(!reaches_root(bones@, p as int, (steps - 1) as nat));
                    return false;
                }
                cur = p;
                steps = steps - 1;
            }
        }
    }
}

/// Tree-like structure of bones.
#[derive(Debug)]
pub struct Skeleton {
    bones: Vec<Bone>,
}

impl Skeleton {
    pub closed spec fn bones_spec(&self) -> Seq<Bone> {
        self.bones@
    }

    #[verifier::type_invariant]
    closed spec fn wf(self) -> bool {
        is_tree(self.bones@)
    }

    /// A skeleton of bones that form a tree.
    pub fn new(bones: Vec<Bone>) -> (r: Self)
        requires
            is_tree(bones@),
        ensures
            r.bones_spec() == bones@,
    {
        Skeleton { bones }
    }

    /// A skeleton of the bones, or `None` where they do not form a tree.
    pub fn try_new(bones: Vec<Bone>) -> (r: Option<Self>)
        ensures
            match r {
                Some(s) => is_tree(bones@) && s.bones_spec() == bones@,
                None => !is_tree(bones@),
            },
    {
        let mut i: usize = 0;
        while i < bones.len()
            invariant
                i <= bones@.len(),
                forall|j: int| 0 <= j < i ==> #[trigger] reaches_root(bones@, j, bones@.len()),
            decreases bones@.len() - i,
        {
            if !reaches_root_exec(bones.as_slice(), i) {
                return None;
            }
            i = i + 1;
        }
        Some(Skeleton { bones })
    }

    /// The bones: each parent is another bone of the skeleton, and parent
    /// links lead to a root.
    pub fn bones(&self) -> (r: &[Bone])
        ensures
            r@ == self.bones_spec(),
            is_tree(r@),
            forall|i: int| 0 <= i < r@.len() ==> (#[trigger] r@[i].parent_spec() matches Some(p) ==> p < r@.len() && p != i),
    {
        proof {
            use_type_invariant(self);
            assert forall|i: int| 0 <= i < self.bones@.len() implies (#[trigger] self.bones@[i].parent_spec() matches Some(p) ==> p < self.bones@.len() && p != i) by {
                lemma_parent_of_tree_bone(self.bones@, i, self.bones@.len());
            }
        }
        self.bones.as_slice()
    }
}

} // verus!
