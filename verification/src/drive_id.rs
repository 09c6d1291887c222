use vstd::prelude::*;
use vstd::std_specs::cmp::PartialEqSpecImpl;
use vstd::std_specs::convert::FromSpecImpl;

verus! {

/// The characters of the alias that kernel-facing requests use for the root
/// folder.
pub open spec fn root_alias() -> Seq<char> {
    "root"@
}

/// An opaque remote object identifier. Two ids are the same id when their
/// characters agree; every contract speaks of an id through its view.
#[derive(Debug, Hash)]
pub struct DriveId(String);

impl View for DriveId {
    type V = Seq<char>;

    closed spec fn view(&self) -> Seq<char> {
        self.0@
    }
}

impl DriveId {
    /// The alias `root`, which stands for whatever id the remote gives its
    /// root folder.
    pub fn root() -> (r: DriveId)
        ensures
            r@ == root_alias(),
    {
        DriveId(String::from_str("root"))
    }

    pub fn new(id: &str) -> (r: DriveId)
        ensures
            r@ == id@,
    {
        DriveId(String::from_str(id))
    }

    /// The id that owns the given string.
    pub fn from_string(id: String) -> (r: DriveId)
        ensures
            r@ == id@,
    {
        DriveId(id)
    }

    pub fn as_str(&self) -> (r: &str)
        ensures
            r@ == self@,
    {
        self.0.as_str()
    }

    /// The id as an owned string.
    pub fn to_string(&self) -> (r: String)
        ensures
            r@ == self@,
    {
        self.0.clone()
    }

    /// Whether this id is the alias `root`.
    pub fn is_root(&self) -> (r: bool)
        ensures
            r == (self@ == root_alias()),
    {
        let alias = String::from_str("root");
        self.0 == alias
    }
}

impl Clone for DriveId {
    fn clone(&self) -> (r: DriveId)
        ensures
            r@ == self@,
    {
        DriveId(self.0.clone())
    }
}

impl PartialEq for DriveId {
    fn eq(&self, other: &DriveId) -> (r: bool) {
        self.0 == other.0
    }
}

impl Eq for DriveId {

}

impl PartialEqSpecImpl for DriveId {
    open spec fn obeys_eq_spec() -> bool {
        true
    }

    open spec fn eq_spec(&self, other: &DriveId) -> bool {
        self@ == other@
    }
}

impl From<String> for DriveId {
    fn from(value: String) -> (r: DriveId)
        ensures
            r@ == value@,
    {
        DriveId(value)
    }
}

impl FromSpecImpl<String> for DriveId {
    open spec fn obeys_from_spec() -> bool {
        true
    }

    closed spec fn from_spec(value: String) -> DriveId {
        DriveId(value)
    }
}

impl<'a> From<&'a String> for DriveId {
    fn from(s: &'a String) -> (r: DriveId)
        ensures
            r@ == s@,
    {
        DriveId(s.clone())
    }
}

impl<'a> FromSpecImpl<&'a String> for DriveId {
    open spec fn obeys_from_spec() -> bool {
        true
    }

    closed spec fn from_spec(s: &'a String) -> DriveId {
        DriveId(*s)
    }
}

/// The id made of the characters of a string slice. The standard
/// specification of `From` gives the result as a spec function of the
/// argument; no such function makes a `String` from a slice, so this
/// conversion states its result by its view.
impl<'a> From<&'a str> for DriveId {
    fn from(s: &'a str) -> (r: DriveId)
        ensures
            r@ == s@,
    {
        DriveId(String::from_str(s))
    }
}

impl<'a> FromSpecImpl<&'a str> for DriveId {
    open spec fn obeys_from_spec() -> bool {
        false
    }

    closed spec fn from_spec(s: &'a str) -> DriveId {
        arbitrary()
    }
}

/// The characters of each id of a list, in order.
pub open spec fn id_views(ids: Seq<DriveId>) -> Seq<Seq<char>> {
    ids.map_values(|id: DriveId| id@)
}


/// The characters of an optional id.
pub open spec fn opt_id_view(id: Option<DriveId>) -> Option<Seq<char>> {
    match id {
        Some(i) => Some(i@),
        None => None,
    }
}

/// The characters of each id of an optional list.
pub open spec fn opt_ids_view(ids: Option<Vec<DriveId>>) -> Option<Seq<Seq<char>>> {
    match ids {
        Some(v) => Some(id_views(v@)),
        None => None,
    }
}

/// A copy of a list of ids.
pub fn clone_ids(ids: &Vec<DriveId>) -> (r: Vec<DriveId>)
    ensures
        id_views(r@) == id_views(ids@),
{
    let mut copy: Vec<DriveId> = Vec::new();
    let mut i: usize = 0;
    while i < ids.len()
        invariant
            i <= ids.len(),
            copy@.len() == i,
            forall|j: int| 0 <= j < i ==> (#[trigger] copy@[j])@ == ids@[j]@,
        decreases ids.len() - i,
    {
        copy.push(ids[i].clone());
        i += 1;
    }
    assert(id_views(copy@) =~= id_views(ids@));
    copy
}

/// A copy of an optional id.
pub fn clone_opt_id(id: &Option<DriveId>) -> (r: Option<DriveId>)
    ensures
        opt_id_view(r) == opt_id_view(*id),
{
    match id {
        Some(i) => Some(i.clone()),
        None => None,
    }
}

/// A copy of an optional list of ids.
pub fn clone_opt_ids(ids: &Option<Vec<DriveId>>) -> (r: Option<Vec<DriveId>>)
    ensures
        opt_ids_view(r) == opt_ids_view(*ids),
{
    match ids {
        Some(v) => Some(clone_ids(v)),
        None => None,
    }
}

/// Whether `ids` holds the id `target`.
pub fn contains_id(ids: &Vec<DriveId>, target: &DriveId) -> (r: bool)
    ensures
        r == id_views(ids@).contains(target@),
{
    let mut i: usize = 0;
    while i < ids.len()
        invariant
            i <= ids.len(),
            forall|j: int| 0 <= j < i ==> (#[trigger] ids@[j])@ != target@,
        decreases ids.len() - i,
    {
        if ids[i] == *target {
            assert(id_views(ids@)[i as int] == target@);
            return true;
        }
        i += 1;
    }
    assert forall|j: int| 0 <= j < id_views(ids@).len() implies id_views(ids@)[j] != target@ by {
        assert(id_views(ids@)[j] == ids@[j]@);
    }
    false
}

/// Whether two lists hold the same ids in the same order.
pub fn ids_equal(a: &Vec<DriveId>, b: &Vec<DriveId>) -> (r: bool)
    ensures
        r == (id_views(a@) == id_views(b@)),
{
    if a.len() != b.len() {
        assert(id_views(a@).len() != id_views(b@).len());
        return false;
    }
    let mut i: usize = 0;
    while i < a.len()
        invariant
            i <= a.len(),
            a.len() == b.len(),
            forall|j: int| 0 <= j < i ==> (#[trigger] a@[j])@ == b@[j]@,
        decreases a.len() - i,
    {
        if !(a[i] == b[i]) {
            assert(id_views(a@)[i as int] != id_views(b@)[i as int]);
            return false;
        }
        i += 1;
    }
    assert(id_views(a@) =~= id_views(b@));
    true
}

/// Whether two optional lists are both absent or hold the same ids in the
/// same order.
pub fn opt_ids_equal(a: &Option<Vec<DriveId>>, b: &Option<Vec<DriveId>>) -> (r: bool)
    ensures
        r == (opt_ids_view(*a) == opt_ids_view(*b)),
{
    match (a, b) {
        (Some(x), Some(y)) => ids_equal(x, y),
        (None, None) => true,
        _ => false,
    }
}

} // verus!
