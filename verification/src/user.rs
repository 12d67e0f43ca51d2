use vstd::prelude::*;

verus! {

/// User information extracted from authentik proxy headers after successful
/// authentication.
#[derive(Debug, Clone)]
#[non_exhaustive]
pub struct AuthentikUser {
    /// The username (sub claim in OIDC terms).
    pub username: String,
    /// The email address.
    pub email: String,
    /// The display name / full name.
    pub name: String,
    /// The user ID (sub / uid).
    pub uid: String,
    /// The list of groups the user belongs to.
    pub groups: Vec<String>,
}

/// The text of each string of `v`, in order.
pub open spec fn string_views(v: Seq<String>) -> Seq<Seq<char>> {
    v.map_values(|s: String| s@)
}

/// The text of each string slice of `v`, in order.
pub open spec fn str_views(v: Seq<&str>) -> Seq<Seq<char>> {
    v.map_values(|s: &str| s@)
}

/// Every group of `required` occurs in `held`.
pub open spec fn holds_all(held: Seq<Seq<char>>, required: Seq<Seq<char>>) -> bool {
    forall|i: int| 0 <= i < required.len() ==> #[trigger] held.contains(required[i])
}

/// Some group of `required` occurs in `held`.
pub open spec fn holds_any(held: Seq<Seq<char>>, required: Seq<Seq<char>>) -> bool {
    exists|i: int| 0 <= i < required.len() && #[trigger] held.contains(required[i])
}

impl AuthentikUser {
    /// The names of the groups that the user belongs to, in order.
    pub open spec fn group_names(&self) -> Seq<Seq<char>> {
        string_views(self.groups@)
    }

    /// Builds a user from its five fields.
    pub fn new(username: String, email: String, name: String, uid: String, groups: Vec<String>) -> (user: Self)
        ensures
            user.username == username,
            user.email == email,
            user.name == name,
            user.uid == uid,
            user.groups == groups,
    {
        AuthentikUser { username, email, name, uid, groups }
    }

    /// Returns `true` if the user belongs to the specified group.
    pub fn has_group(&self, group: &str) -> (found: bool)
        ensures
            found == self.group_names().contains(group@),
    {
        let target = group.to_owned();
        let n = self.groups.len();
        let mut i: usize = 0;
        while i < n
            invariant
                n == self.groups.len(),
                i <= n,
                target@ == group@,
                forall|j: int| 0 <= j < i ==> self.groups@[j]@ != group@,
            decreases n - i,
        {
            if self.groups[i] == target {
                proof {
                    assert(self.group_names()[i as int] == group@);
                }
                return true;
            }
            i = i + 1;
        }
        proof {
            if self.group_names().contains(group@) {
                let k = choose|k: int| 0 <= k < self.group_names().len() && self.group_names()[k] == group@;
                assert(self.groups@[k]@ == group@);
            }
        }
        false
    }

    /// Returns `true` if the user belongs to **all** of the specified groups.
    /// An empty list of groups is always satisfied.
    pub fn has_all_groups(&self, groups: &[&str]) -> (all: bool)
        ensures
            all == holds_all(self.group_names(), str_views(groups@)),
    {
        let n = groups.len();
        let mut i: usize = 0;
        while i < n
            invariant
                n == groups@.len(),
                i <= n,
                forall|j: int| 0 <= j < i ==> #[trigger] self.group_names().contains(str_views(groups@)[j]),
            decreases n - i,
        {
            if !self.has_group(groups[i]) {
                proof {
                    assert(str_views(groups@)[i as int] == groups@[i as int]@);
                }
                return false;
            }
            i = i + 1;
        }
        true
    }

    /// Returns `true` if the user belongs to **any** of the specified groups.
    /// An empty list of groups is never satisfied.
    pub fn has_any_group(&self, groups: &[&str]) -> (any: bool)
        ensures
            any == holds_any(self.group_names(), str_views(groups@)),
    {
        let n = groups.len();
        let mut i: usize = 0;
        while i < n
            invariant
                n == groups@.len(),
                i <= n,
                forall|j: int| 0 <= j < i ==> !#[trigger] self.group_names().contains(str_views(groups@)[j]),
            decreases n - i,
        {
            if self.has_group(groups[i]) {
                proof {
                    assert(str_views(groups@)[i as int] == groups@[i as int]@);
                }
                return true;
            }
            i = i + 1;
        }
        false
    }
}


/// Law: for every user, requiring all of no groups is satisfied and
/// requiring any of no groups is not (`has_all_groups(&[])` is `true`,
/// `has_any_group(&[])` is `false`).
pub proof fn law_empty_requirement(user: AuthentikUser)
    ensures
        holds_all(user.group_names(), Seq::empty()),
        !holds_any(user.group_names(), Seq::empty()),
{
}

/// Law: for a single group, `has_all_groups`, `has_any_group` and
/// `has_group` agree.
pub proof fn law_single_group(user: AuthentikUser, group: Seq<char>)
    ensures
        holds_all(user.group_names(), seq![group]) == user.group_names().contains(group),
        holds_any(user.group_names(), seq![group]) == user.group_names().contains(group),
{
    if user.group_names().contains(group) {
        assert(seq![group][0] == group);
        assert(user.group_names().contains(seq![group][0]));
    }
    if holds_all(user.group_names(), seq![group]) {
        assert(user.group_names().contains(seq![group][0]));
    }
}

/// Law: belonging to all of a non-empty list of groups implies belonging to
/// any of them.
pub proof fn law_all_implies_any(user: AuthentikUser, groups: Seq<Seq<char>>)
    requires
        groups.len() > 0,
        holds_all(user.group_names(), groups),
    ensures
        holds_any(user.group_names(), groups),
{
    assert(user.group_names().contains(groups[0]));
}

/// Law: the groups checks depend only on which names are required, not on
/// their order or repetition: two lists with the same members give the same
/// answers.
pub proof fn law_requirement_order_irrelevant(user: AuthentikUser, a: Seq<Seq<char>>, b: Seq<Seq<char>>)
    requires
        a.to_set() == b.to_set(),
    ensures
        holds_all(user.group_names(), a) == holds_all(user.group_names(), b),
        holds_any(user.group_names(), a) == holds_any(user.group_names(), b),
{
    broadcast use vstd::seq_lib::group_seq_properties;
    let held = user.group_names();
    if holds_all(held, a) {
        assert forall|j: int| 0 <= j < b.len() implies #[trigger] held.contains(b[j]) by {
            assert(b.to_set().contains(b[j]));
            assert(a.contains(b[j]));
            let i = choose|i: int| 0 <= i < a.len() && a[i] == b[j];
            assert(held.contains(a[i]));
        }
    }
    if holds_all(held, b) {
        assert forall|i: int| 0 <= i < a.len() implies #[trigger] held.contains(a[i]) by {
            assert(a.to_set().contains(a[i]));
            assert(b.contains(a[i]));
            let j = choose|j: int| 0 <= j < b.len() && b[j] == a[i];
            assert(held.contains(b[j]));
        }
    }
    if holds_any(held, a) {
        let i = choose|i: int| 0 <= i < a.len() && #[trigger] held.contains(a[i]);
        assert(a.to_set().contains(a[i]));
        assert(b.contains(a[i]));
        let j = choose|j: int| 0 <= j < b.len() && b[j] == a[i];
        assert(held.contains(b[j]));
    }
    if holds_any(held, b) {
        let j = choose|j: int| 0 <= j < b.len() && #[trigger] held.contains(b[j]);
        assert(b.to_set().contains(b[j]));
        assert(a.contains(b[j]));
        let i = choose|i: int| 0 <= i < a.len() && a[i] == b[j];
        assert(held.contains(a[i]));
    }
}


/// Law: the text views of a list of strings are the strings' texts, one for
/// one and in order.
pub proof fn law_string_views_pointwise(v: Seq<String>)
    ensures
        string_views(v).len() == v.len(),
        forall|i: int| 0 <= i < v.len() ==> #[trigger] string_views(v)[i] == v[i]@,
{
}

/// Law: the text views of a list of string slices are the slices' texts, one
/// for one and in order.
pub proof fn law_str_views_pointwise(v: Seq<&str>)
    ensures
        str_views(v).len() == v.len(),
        forall|i: int| 0 <= i < v.len() ==> #[trigger] str_views(v)[i] == v[i]@,
{
}

/// Law: a user's group names are the texts of its `groups` strings, one for
/// one and in order (so `has_group` asks whether some stored group equals the
/// name, character for character).
pub proof fn law_group_names_are_groups(user: AuthentikUser)
    ensures
        user.group_names().len() == user.groups@.len(),
        forall|i: int| 0 <= i < user.groups@.len() ==> #[trigger] user.group_names()[i] == user.groups@[i]@,
{
}

/// Law: belonging to all of a list of groups means exactly that each listed
/// group is held, whatever else is held.
pub proof fn law_all_means_each_held(held: Seq<Seq<char>>, required: Seq<Seq<char>>)
    ensures
        holds_all(held, required) <==> (forall|i: int| 0 <= i < required.len() ==> #[trigger] held.contains(required[i])),
{
}

/// Law: belonging to any of a list of groups means exactly that one listed
/// group is held (one held group is a witness, whatever else is held).
pub proof fn law_any_means_one_held(held: Seq<Seq<char>>, required: Seq<Seq<char>>, i: int)
    ensures
        0 <= i < required.len() && held.contains(required[i]) ==> holds_any(held, required),
        holds_any(held, required) ==> exists|j: int| 0 <= j < required.len() && #[trigger] held.contains(required[j]),
{
}

/// Law: requiring all of two lists is requiring all of each; requiring any
/// of two lists is requiring any of either.
pub proof fn law_requirements_concatenate(held: Seq<Seq<char>>, a: Seq<Seq<char>>, b: Seq<Seq<char>>)
    ensures
        holds_all(held, a + b) == (holds_all(held, a) && holds_all(held, b)),
        holds_any(held, a + b) == (holds_any(held, a) || holds_any(held, b)),
{
    let ab = a + b;
    if holds_all(held, a) && holds_all(held, b) {
        assert forall|i: int| 0 <= i < ab.len() implies #[trigger] held.contains(ab[i]) by {
            if i < a.len() {
                assert(ab[i] == a[i]);
            } else {
                assert(ab[i] == b[i - a.len()]);
            }
        }
    }
    if holds_all(held, ab) {
        assert forall|i: int| 0 <= i < a.len() implies #[trigger] held.contains(a[i]) by {
            assert(ab[i] == a[i]);
        }
        assert forall|i: int| 0 <= i < b.len() implies #[trigger] held.contains(b[i]) by {
            assert(ab[i + a.len()] == b[i]);
        }
    }
    if holds_any(held, ab) {
        let i = choose|i: int| 0 <= i < ab.len() && #[trigger] held.contains(ab[i]);
        if i < a.len() {
            assert(ab[i] == a[i]);
        } else {
            assert(ab[i] == b[i - a.len()]);
            assert(held.contains(b[i - a.len()]));
        }
    }
    if holds_any(held, a) {
        let i = choose|i: int| 0 <= i < a.len() && #[trigger] held.contains(a[i]);
        assert(ab[i] == a[i]);
    }
    if holds_any(held, b) {
        let i = choose|i: int| 0 <= i < b.len() && #[trigger] held.contains(b[i]);
        assert(ab[i + a.len()] == b[i]);
        assert(held.contains(ab[i + a.len()]));
    }
}

} // verus!
