//! Domain names as sequences of labels.
use vstd::prelude::*;

verus! {

/// A domain name, held as its labels from the most specific one to the top.
#[derive(Debug)]
pub struct Name {
    labels: Vec<String>,
}

impl View for Name {
    type V = Seq<Seq<char>>;

    closed spec fn view(&self) -> Seq<Seq<char>> {
        self.labels@.map_values(|l: String| l@)
    }
}

impl Name {
    /// The root name, which has no labels.
    pub fn root() -> (r: Name)
        ensures
            r@ == Seq::<Seq<char>>::empty(),
    {
        let r = Name { labels: Vec::new() };
        assert(r@ =~= Seq::<Seq<char>>::empty());
        r
    }

    /// A name with no labels yet, to be extended with `label`.
    pub fn new() -> (r: Name)
        ensures
            r@ == Seq::<Seq<char>>::empty(),
    {
        Name::root()
    }

    /// This name with `label` appended as its last label.
    pub fn label(self, label: &str) -> (r: Name)
        ensures
            r@ == self@.push(label@),
    {
        let mut labels = self.labels;
        labels.push(label.to_owned());
        let r = Name { labels };
        assert(r@ =~= self@.push(label@));
        r
    }

    /// The number of labels.
    pub fn num_labels(&self) -> (r: usize)
        ensures
            r == self@.len(),
    {
        self.labels.len()
    }

    /// Whether two names have the same labels.
    pub fn same_as(&self, other: &Name) -> (r: bool)
        ensures
            r == (self@ == other@),
    {
        if self.labels.len() != other.labels.len() {
            assert(self@.len() != other@.len());
            return false;
        }
        let n = self.labels.len();
        let mut i: usize = 0;
        while i < n
            invariant
                n == self.labels.len(),
                n == other.labels.len(),
                0 <= i <= n,
                forall|j: int| 0 <= j < i ==> self@[j] == other@[j],
            decreases n - i,
        {
            if self.labels[i] != other.labels[i] {
                assert(self@[i as int] != other@[i as int]);
                return false;
            }
            i = i + 1;
        }
        assert(self@ =~= other@);
        true
    }
}

impl Clone for Name {
    fn clone(&self) -> (r: Name)
        ensures
            r@ == self@,
    {
        let mut labels: Vec<String> = Vec::new();
        let mut i: usize = 0;
        while i < self.labels.len()
            invariant
                0 <= i <= self.labels.len(),
                labels@.len() == i,
                forall|j: int| 0 <= j < i ==> labels@[j]@ == self.labels@[j]@,
            decreases self.labels.len() - i,
        {
            labels.push(self.labels[i].clone());
            i = i + 1;
        }
        let r = Name { labels };
        assert(r@ =~= self@);
        r
    }
}

impl PartialEq for Name {
    fn eq(&self, other: &Name) -> (r: bool)
        ensures
            r == (self@ == other@),
    {
        self.same_as(other)
    }
}

impl vstd::std_specs::cmp::PartialEqSpecImpl for Name {
    open spec fn obeys_eq_spec() -> bool {
        true
    }

    open spec fn eq_spec(&self, other: &Name) -> bool {
        self@ == other@
    }
}

} // verus!
