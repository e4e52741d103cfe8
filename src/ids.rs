//! Message identifiers: normalisation of their angle-bracket form, and a set
//! of normalised identifiers.
use vstd::prelude::*;

verus! {

/// The identifier with one leading `<` and one trailing `>` removed, each
/// only where present.
pub open spec fn stripped(id: Seq<char>) -> Seq<char> {
    let open = if id.len() > 0 && id[0] == '<' {
        id.drop_first()
    } else {
        id
    };
    if open.len() > 0 && open.last() == '>' {
        open.drop_last()
    } else {
        open
    }
}

/// Removes one leading `<` and one trailing `>` from a message identifier,
/// leaving the characters between them untouched.
pub fn strip_angle_brackets(id: &str) -> (r: String)
    ensures
        r@ == stripped(id@),
{
    let n = id.unicode_len();
    let mut from: usize = 0;
    let mut to: usize = n;
    if n > 0 && id.get_char(0) == '<' {
        from = 1;
    }
    if to > from && id.get_char(to - 1) == '>' {
        to = to - 1;
    }
    let inner = id.substring_char(from, to);
    let r = String::from_str(inner);
    assert(r@ =~= stripped(id@));
    r
}

/// A set of normalised message or thread identifiers.
pub struct IdSet {
    ids: Vec<String>,
}

impl View for IdSet {
    type V = Set<Seq<char>>;

    closed spec fn view(&self) -> Set<Seq<char>> {
        Set::new(|x: Seq<char>| exists|i: int| 0 <= i < self.ids.len() && #[trigger] self.ids@[i]@ == x)
    }
}

impl IdSet {
    /// The empty set.
    pub fn new() -> (r: IdSet)
        ensures
            r@ == Set::<Seq<char>>::empty(),
    {
        let r = IdSet { ids: Vec::new() };
        assert(r@ =~= Set::<Seq<char>>::empty());
        r
    }

    /// Whether `id` is a member.
    pub fn contains(&self, id: &String) -> (r: bool)
        ensures
            r == self@.contains(id@),
    {
        let mut i: usize = 0;
        while i < self.ids.len()
            invariant
                i <= self.ids.len(),
                forall|j: int| 0 <= j < i ==> #[trigger] self.ids@[j]@ != id@,
            decreases self.ids.len() - i,
        {
            if self.ids[i] == *id {
                assert(self.ids@[i as int]@ == id@);
                return true;
            }
            i += 1;
        }
        false
    }

    /// Adds `id`; a member already present is kept once.
    pub fn insert(&mut self, id: String)
        ensures
            final(self)@ == old(self)@.insert(id@),
    {
        if !self.contains(&id) {
            let ghost before = self.ids@;
            self.ids.push(id);
            assert forall|x: Seq<char>| #[trigger] old(self)@.insert(id@).contains(x) implies self@.contains(x) by {
                if x == id@ {
                    assert(self.ids@[before.len() as int]@ == x);
                } else {
                    let j = choose|j: int| 0 <= j < before.len() && #[trigger] before[j]@ == x;
                    assert(self.ids@[j]@ == x);
                }
            }
            assert(self@ =~= old(self)@.insert(id@));
        } else {
            assert(self@ =~= old(self)@.insert(id@));
        }
    }

    /// Whether the set has no member.
    pub fn is_empty(&self) -> (r: bool)
        ensures
            r == (self@ == Set::<Seq<char>>::empty()),
    {
        if self.ids.len() == 0 {
            assert(self@ =~= Set::<Seq<char>>::empty());
            true
        } else {
            assert(self@.contains(self.ids@[0]@));
            false
        }
    }
}

} // verus!
