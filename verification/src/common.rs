use vstd::prelude::*;
use vstd::std_specs::cmp::PartialEqSpec;

verus! {

/// A path on the local machine, kept as text.
#[derive(Debug, Hash)]
pub struct LocalPath(String);

impl View for LocalPath {
    type V = Seq<char>;

    closed spec fn view(&self) -> Seq<char> {
        self.0@
    }
}

/// The text of `dir` followed by a separator and `name`.
pub open spec fn joined(dir: Seq<char>, name: Seq<char>) -> Seq<char> {
    dir + seq!['/'] + name
}

impl LocalPath {
    pub fn new(path: &str) -> (r: LocalPath)
        ensures
            r@ == path@,
    {
        LocalPath(String::from_str(path))
    }

    pub fn as_str(&self) -> (r: &str)
        ensures
            r@ == self@,
    {
        self.0.as_str()
    }

    /// The path of `name` inside this directory.
    pub fn join(&self, name: &str) -> (r: LocalPath)
        ensures
            r@ == joined(self@, name@),
    {
        let mut text = self.0.clone();
        proof {
            reveal_strlit("/");
            assert("/"@ =~= seq!['/']);
        }
        text.append("/");
        text.append(name);
        LocalPath(text)
    }
}

impl Clone for LocalPath {
    fn clone(&self) -> (r: LocalPath)
        ensures
            r@ == self@,
    {
        LocalPath(self.0.clone())
    }
}

/// Whether `i` is the position of the first element of `s` that equals
/// `target`.
pub open spec fn is_first_match<T: PartialEq>(s: Seq<T>, target: T, i: int) -> bool {
    &&& 0 <= i < s.len()
    &&& s[i].eq_spec(&target)
    &&& forall|j: int| 0 <= j < i ==> !(#[trigger] s[j]).eq_spec(&target)
}

/// Whether no element of `s` equals `target`.
pub open spec fn has_no_match<T: PartialEq>(s: Seq<T>, target: T) -> bool {
    forall|j: int| 0 <= j < s.len() ==> !(#[trigger] s[j]).eq_spec(&target)
}

/// What `remove_first_element` does to a list: the first element equal to
/// `target` leaves and is handed out, or nothing equals it and the list
/// stays.
pub open spec fn removes_first<T: PartialEq>(
    before: Seq<T>,
    after: Seq<T>,
    target: T,
    removed: Option<T>,
) -> bool {
    match removed {
        Some(x) => exists|i: int|
            #![trigger before[i]]
            is_first_match(before, target, i) && x == before[i] && after == before.remove(i),
        None => has_no_match(before, target) && after == before,
    }
}

pub trait VecExtension<T: PartialEq> {
    /// The elements of the list, in order.
    spec fn elements(&self) -> Seq<T>;

    /// Takes the first element equal to `target` out of the list.
    fn remove_first_element(&mut self, target: &T) -> (r: Option<T>)
        ensures
            T::obeys_eq_spec() ==> removes_first(
                old(self).elements(),
                final(self).elements(),
                *target,
                r,
            ),
    ;
}

impl<T: PartialEq> VecExtension<T> for Vec<T> {
    open spec fn elements(&self) -> Seq<T> {
        self@
    }

    fn remove_first_element(&mut self, target: &T) -> (r: Option<T>) {
        let mut i: usize = 0;
        while i < self.len()
            invariant
                i <= self.len(),
                self@ == old(self)@,
                T::obeys_eq_spec() ==> forall|j: int|
                    0 <= j < i ==> !(#[trigger] self@[j]).eq_spec(target),
            decreases self.len() - i,
        {
            if self[i] == *target {
                let x = self.remove(i);
                assert(T::obeys_eq_spec() ==> is_first_match(old(self)@, *target, i as int));
                return Some(x);
            }
            i += 1;
        }
        None
    }
}

} // verus!
