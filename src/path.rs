use vstd::prelude::*;

verus! {

/// Hierarchical name of an actor: the segments from its root anchor down to
/// its own local name.
pub struct ActorPath {
    segments: Vec<String>,
}

impl View for ActorPath {
    type V = Seq<Seq<char>>;

    closed spec fn view(&self) -> Seq<Seq<char>> {
        self.segments@.map_values(|s: String| s@)
    }
}

impl ActorPath {
    /// The path of a root anchor: the single segment `name`.
    pub fn root(name: String) -> (r: ActorPath)
        ensures
            r@ == seq![name@],
    {
        let mut segments: Vec<String> = Vec::new();
        segments.push(name);
        let r = ActorPath { segments };
        assert(r@ =~= seq![r.segments@[0]@]);
        r
    }

    /// The path of a child called `name` of the actor at `self`.
    pub fn child(&self, name: &String) -> (r: ActorPath)
        ensures
            r@ == self@.push(name@),
    {
        let mut r = self.clone();
        r.segments.push(name.clone());
        assert(r@ =~= self@.push(name@));
        r
    }

    /// Number of segments.
    pub fn depth(&self) -> (n: usize)
        ensures
            n == self@.len(),
    {
        self.segments.len()
    }

    /// The segment at position `i`, counted from the root.
    pub fn segment(&self, i: usize) -> (s: String)
        requires
            i < self@.len(),
        ensures
            s@ == self@[i as int],
    {
        self.segments[i].clone()
    }

    /// The last segment: the actor's local name.
    pub fn name(&self) -> (s: String)
        requires
            self@.len() > 0,
        ensures
            s@ == self@.last(),
    {
        self.segments[self.segments.len() - 1].clone()
    }

    /// Comparison by value.
    pub fn same_as(&self, other: &ActorPath) -> (r: bool)
        ensures
            r == (self@ == other@),
    {
        if self.segments.len() != other.segments.len() {
            assert(self@.len() != other@.len());
            return false;
        }
        let mut i: usize = 0;
        while i < self.segments.len()
            invariant
                self.segments.len() == other.segments.len(),
                0 <= i <= self.segments.len(),
                forall|j: int| 0 <= j < i ==> self@[j] == other@[j],
            decreases self.segments.len() - i,
        {
            if self.segments[i] != other.segments[i] {
                assert(self@[i as int] != other@[i as int]);
                return false;
            }
            i = i + 1;
        }
        assert(self@ =~= other@);
        true
    }
}

impl Clone for ActorPath {
    fn clone(&self) -> (r: ActorPath)
        ensures
            r@ == self@,
    {
        let mut segments: Vec<String> = Vec::new();
        let mut i: usize = 0;
        while i < self.segments.len()
            invariant
                0 <= i <= self.segments.len(),
                segments@.len() == i,
                forall|j: int| 0 <= j < i ==> segments@[j]@ == self.segments@[j]@,
            decreases self.segments.len() - i,
        {
            segments.push(self.segments[i].clone());
            i = i + 1;
        }
        let r = ActorPath { segments };
        assert(r@ =~= self@);
        r
    }
}

impl PartialEq for ActorPath {
    fn eq(&self, other: &ActorPath) -> (r: bool)
        ensures
            r == (self@ == other@),
    {
        self.same_as(other)
    }
}

impl vstd::std_specs::cmp::PartialEqSpecImpl for ActorPath {
    open spec fn obeys_eq_spec() -> bool {
        true
    }

    open spec fn eq_spec(&self, other: &ActorPath) -> bool {
        self@ == other@
    }
}

impl Eq for ActorPath {}

} // verus!
