use vstd::prelude::*;

use crate::error::AuthentikError;
use crate::user::{AuthentikUser, holds_all, holds_any, string_views};

verus! {

/// A wrapper around [`AuthentikUser`] that a group guard has let through.
#[derive(Debug, Clone)]
pub struct RequireGroup(pub AuthentikUser);

impl core::ops::Deref for RequireGroup {
    type Target = AuthentikUser;

    fn deref(&self) -> (user: &AuthentikUser)
        ensures
            *user == self.0,
    {
        &self.0
    }
}

/// How the groups that a guard names are matched against the user's groups.
#[derive(Debug, Clone, Copy, PartialEq, Eq, Structural)]
pub enum GroupMatchMode {
    /// The user must belong to every named group.
    All,
    /// The user must belong to at least one named group.
    Any,
}

/// The strings of `list` joined, with `sep` between each two.
pub open spec fn seq_join(list: Seq<Seq<char>>, sep: Seq<char>) -> Seq<char>
    decreases list.len(),
{
    if list.len() == 0 {
        Seq::empty()
    } else if list.len() == 1 {
        list[0]
    } else {
        seq_join(list.drop_last(), sep) + sep + list.last()
    }
}

/// Joins a list of strings with a separator, as `[String]::join` does.
pub fn join_strings(list: &Vec<String>, sep: &str) -> (joined: String)
    ensures
        joined@ == seq_join(string_views(list@), sep@),
{
    let mut joined = String::new();
    let ghost views = string_views(list@);
    let n = list.len();
    let mut i: usize = 0;
    while i < n
        invariant
            n == list@.len(),
            i <= n,
            views == string_views(list@),
            joined@ == seq_join(views.take(i as int), sep@),
        decreases n - i,
    {
        if i != 0 {
            joined.append(sep);
        }
        joined.append(list[i].as_str());
        assert(views.take(i + 1).drop_last() =~= views.take(i as int));
        i = i + 1;
    }
    assert(views.take(n as int) =~= views);
    joined
}

/// The mode a guard applies: the one configured, else `Any`.
pub open spec fn effective_mode(mode: Option<GroupMatchMode>) -> GroupMatchMode {
    match mode {
        Some(m) => m,
        None => GroupMatchMode::Any,
    }
}

/// The user's groups satisfy the guard's `required` groups under `mode`.
pub open spec fn passes_guard(held: Seq<Seq<char>>, required: Seq<Seq<char>>, mode: GroupMatchMode) -> bool {
    match mode {
        GroupMatchMode::All => holds_all(held, required),
        GroupMatchMode::Any => holds_any(held, required),
    }
}

/// How a refused guard describes the groups it required: joined by `", "`
/// when all were required, by `" or "` when any one would do.
pub open spec fn required_description(required: Seq<Seq<char>>, mode: GroupMatchMode) -> Seq<char> {
    match mode {
        GroupMatchMode::All => seq_join(required, ", "@),
        GroupMatchMode::Any => seq_join(required, " or "@),
    }
}

/// The outcome of a group guard for a request: the user that was
/// extracted (or the error of extracting it), the groups the guard requires
/// and the matching mode.
pub open spec fn guard_outcome(
    user: Result<AuthentikUser, AuthentikError>,
    required: Option<Seq<Seq<char>>>,
    mode: Option<GroupMatchMode>,
) -> Result<AuthentikUser, Option<Seq<char>>> {
    match user {
        Err(AuthentikError::Unauthenticated) => Err(None),
        Err(AuthentikError::Forbidden { required_group }) => Err(Some(required_group@)),
        Ok(u) => match required {
            Some(groups) => if groups.len() > 0 && !passes_guard(u.group_names(), groups, effective_mode(mode)) {
                Err(Some(required_description(groups, effective_mode(mode))))
            } else {
                Ok(u)
            },
            None => Ok(u),
        },
    }
}

/// Every group of `required` is one of the user's groups.
fn user_has_all(user: &AuthentikUser, required: &Vec<String>) -> (all: bool)
    ensures
        all == holds_all(user.group_names(), string_views(required@)),
{
    let n = required.len();
    let mut i: usize = 0;
    while i < n
        invariant
            n == required@.len(),
            i <= n,
            forall|j: int| 0 <= j < i ==> #[trigger] user.group_names().contains(string_views(required@)[j]),
        decreases n - i,
    {
        if !user.has_group(required[i].as_str()) {
            assert(string_views(required@)[i as int] == required@[i as int]@);
            return false;
        }
        i = i + 1;
    }
    true
}

/// Some group of `required` is one of the user's groups.
fn user_has_any(user: &AuthentikUser, required: &Vec<String>) -> (any: bool)
    ensures
        any == holds_any(user.group_names(), string_views(required@)),
{
    let n = required.len();
    let mut i: usize = 0;
    while i < n
        invariant
            n == required@.len(),
            i <= n,
            forall|j: int| 0 <= j < i ==> !#[trigger] user.group_names().contains(string_views(required@)[j]),
        decreases n - i,
    {
        if user.has_group(required[i].as_str()) {
            assert(string_views(required@)[i as int] == required@[i as int]@);
            return true;
        }
        i = i + 1;
    }
    false
}

impl RequireGroup {
    /// Decides a group guard.
    ///
    /// An error in extracting the user is passed on. With no required groups
    /// (or an empty list) the user passes. Otherwise the user passes when it
    /// belongs to all of them (mode `All`) or to any of them (mode `Any`, also
    /// used when no mode is given); else the answer is `Forbidden`, naming the
    /// required groups joined by `", "` (mode `All`) or `" or "` (mode `Any`).
    pub fn authorize(
        user: Result<AuthentikUser, AuthentikError>,
        required: Option<Vec<String>>,
        mode: Option<GroupMatchMode>,
    ) -> (outcome: Result<RequireGroup, AuthentikError>)
        ensures
            match guard_outcome(user, match required {
                Some(groups) => Some(string_views(groups@)),
                None => None,
            }, mode) {
                Ok(u) => outcome == Ok::<RequireGroup, AuthentikError>(RequireGroup(u)),
                Err(None) => outcome matches Err(e) && e is Unauthenticated,
                Err(Some(description)) => outcome matches Err(e) && e matches AuthentikError::Forbidden { required_group } && required_group@ == description,
            },
    {
        let user = match user {
            Ok(u) => u,
            Err(e) => return Err(e),
        };
        match required {
            Some(groups) => {
                if groups.len() == 0 {
                    return Ok(RequireGroup(user));
                }
                let m = match mode {
                    Some(m) => m,
                    None => GroupMatchMode::Any,
                };
                let passes = match m {
                    GroupMatchMode::All => user_has_all(&user, &groups),
                    GroupMatchMode::Any => user_has_any(&user, &groups),
                };
                if passes {
                    Ok(RequireGroup(user))
                } else {
                    let description = match m {
                        GroupMatchMode::All => join_strings(&groups, ", "),
                        GroupMatchMode::Any => join_strings(&groups, " or "),
                    };
                    Err(AuthentikError::Forbidden { required_group: description })
                }
            },
            None => Ok(RequireGroup(user)),
        }
    }
}

/// A handler wrapper that carries the groups a route requires and how they
/// are matched; the web framework glue inserts them into each request before
/// the inner handler runs.
///
/// Created by [`require_group`], [`require_all_groups`], or [`require_any_group`].
pub struct GroupGuard<H> {
    handler: H,
    groups: Vec<String>,
    mode: GroupMatchMode,
}

impl<H> GroupGuard<H> {
    /// The names of the groups the guard requires, in order.
    pub closed spec fn required_groups(&self) -> Seq<Seq<char>> {
        string_views(self.groups@)
    }

    /// How the required groups are matched.
    pub closed spec fn match_mode(&self) -> GroupMatchMode {
        self.mode
    }

    /// The wrapped handler.
    pub closed spec fn inner_handler(&self) -> H {
        self.handler
    }

    /// The wrapped handler.
    pub fn handler(&self) -> (handler: &H)
        ensures
            *handler == self.inner_handler(),
    {
        &self.handler
    }

    /// The groups the guard requires.
    pub fn groups(&self) -> (groups: &Vec<String>)
        ensures
            string_views(groups@) == self.required_groups(),
    {
        &self.groups
    }

    /// How the required groups are matched.
    pub fn mode(&self) -> (mode: GroupMatchMode)
        ensures
            mode == self.match_mode(),
    {
        self.mode
    }
}

impl<H: Clone> Clone for GroupGuard<H> {
    fn clone(&self) -> (copy: Self)
        ensures
            cloned::<H>(self.inner_handler(), copy.inner_handler()),
            copy.required_groups() == self.required_groups(),
            copy.match_mode() == self.match_mode(),
    {
        GroupGuard {
            handler: self.handler.clone(),
            groups: self.groups.clone(),
            mode: self.mode,
        }
    }
}

/// The texts of the string slices of `v`.
pub open spec fn str_slice_views(v: Seq<&'static str>) -> Seq<Seq<char>> {
    v.map_values(|s: &'static str| s@)
}

/// Copies a list of string slices into owned strings.
fn to_strings(groups: &[&'static str]) -> (owned: Vec<String>)
    ensures
        string_views(owned@) == str_slice_views(groups@),
{
    let mut owned: Vec<String> = Vec::new();
    let n = groups.len();
    let mut i: usize = 0;
    while i < n
        invariant
            n == groups@.len(),
            i <= n,
            owned@.len() == i,
            string_views(owned@) == str_slice_views(groups@).take(i as int),
        decreases n - i,
    {
        let g: &'static str = groups[i];
        let s = g.to_owned();
        owned.push(s);
        assert(string_views(owned@) =~= str_slice_views(groups@).take(i + 1));
        i = i + 1;
    }
    assert(str_slice_views(groups@).take(n as int) =~= str_slice_views(groups@));
    owned
}

/// Wraps a handler so that it requires the user to be a member of the given
/// group.
pub fn require_group<H>(group: &'static str, handler: H) -> (guard: GroupGuard<H>)
    ensures
        guard.required_groups() == seq![group@],
        guard.match_mode() == GroupMatchMode::Any,
        guard.inner_handler() == handler,
{
    let mut groups: Vec<String> = Vec::new();
    groups.push(group.to_owned());
    assert(string_views(groups@) =~= seq![group@]);
    GroupGuard { handler, groups, mode: GroupMatchMode::Any }
}

/// Wraps a handler so that it requires the user to be a member of **all**
/// the given groups.
pub fn require_all_groups<H>(groups: &[&'static str], handler: H) -> (guard: GroupGuard<H>)
    ensures
        guard.required_groups() == str_slice_views(groups@),
        guard.match_mode() == GroupMatchMode::All,
        guard.inner_handler() == handler,
{
    GroupGuard { handler, groups: to_strings(groups), mode: GroupMatchMode::All }
}

/// Wraps a handler so that it requires the user to be a member of **any** of
/// the given groups.
pub fn require_any_group<H>(groups: &[&'static str], handler: H) -> (guard: GroupGuard<H>)
    ensures
        guard.required_groups() == str_slice_views(groups@),
        guard.match_mode() == GroupMatchMode::Any,
        guard.inner_handler() == handler,
{
    GroupGuard { handler, groups: to_strings(groups), mode: GroupMatchMode::Any }
}


/// Law: a failure to extract the user passes through a guard unchanged,
/// whatever groups the guard requires.
pub proof fn law_guard_passes_extraction_errors(
    refused: String,
    required: Option<Seq<Seq<char>>>,
    mode: Option<GroupMatchMode>,
)
    ensures
        guard_outcome(Err(AuthentikError::Unauthenticated), required, mode) == Err::<AuthentikUser, Option<Seq<char>>>(None),
        guard_outcome(Err(AuthentikError::Forbidden { required_group: refused }), required, mode)
            == Err::<AuthentikUser, Option<Seq<char>>>(Some(refused@)),
{
}

/// Law: a guard that requires all of some groups lets a user through exactly
/// when `has_all_groups` holds for them; one that requires any of a
/// non-empty list (the default mode) exactly when `has_any_group` holds.
pub proof fn law_guard_agrees_with_group_checks(user: AuthentikUser, required: Seq<Seq<char>>)
    ensures
        guard_outcome(Ok(user), Some(required), Some(GroupMatchMode::All)) is Ok
            == holds_all(user.group_names(), required),
        required.len() > 0 ==> (guard_outcome(Ok(user), Some(required), Some(GroupMatchMode::Any)) is Ok
            == holds_any(user.group_names(), required)),
        guard_outcome(Ok(user), Some(required), None) == guard_outcome(Ok(user), Some(required), Some(GroupMatchMode::Any)),
        guard_outcome(Ok(user), Some(required), Some(GroupMatchMode::All)) matches Ok(u) ==> u == user,
        guard_outcome(Ok(user), Some(required), Some(GroupMatchMode::Any)) matches Ok(u) ==> u == user,
{
}

/// Law: a guard on a single group that refuses a user names exactly that
/// group, whatever the mode.
pub proof fn law_single_group_refusal(user: AuthentikUser, group: Seq<char>, mode: Option<GroupMatchMode>)
    requires
        !user.group_names().contains(group),
    ensures
        guard_outcome(Ok(user), Some(seq![group]), mode) == Err::<AuthentikUser, Option<Seq<char>>>(Some(group)),
{
    crate::user::law_single_group(user, group);
}


/// Law: joining puts the separator between each two strings and nowhere
/// else: no strings join to the empty text, one string joins to itself, and
/// appending a string to a non-empty list appends the separator and it.
pub proof fn law_join_shape(xs: Seq<Seq<char>>, x: Seq<char>, sep: Seq<char>)
    ensures
        seq_join(Seq::empty(), sep) == Seq::<char>::empty(),
        seq_join(seq![x], sep) == x,
        xs.len() > 0 ==> seq_join(xs.push(x), sep) == seq_join(xs, sep) + sep + x,
{
    assert(seq![x][0] == x);
    assert(xs.push(x).drop_last() =~= xs);
    assert(xs.push(x).last() == x);
}

/// Law: what a group guard answers for a user that was extracted, stated
/// directly over the user's group names:
/// - with no required groups (none given, or an empty list) the user passes;
/// - in mode `All` the user passes exactly when each required group is one of
///   the user's groups, and is otherwise refused with `Forbidden` naming the
///   groups joined by `", "`;
/// - in mode `Any`, or with no mode, the user passes exactly when some
///   required group is one of the user's groups, and is otherwise refused
///   with `Forbidden` naming the groups joined by `" or "`.
/// A user who was extracted is never answered `Unauthenticated`.
pub proof fn law_guard_decision(user: AuthentikUser, required: Seq<Seq<char>>, mode: Option<GroupMatchMode>)
    ensures
        guard_outcome(Ok(user), None, mode) == Ok::<AuthentikUser, Option<Seq<char>>>(user),
        required.len() == 0 ==> guard_outcome(Ok(user), Some(required), mode) == Ok::<AuthentikUser, Option<Seq<char>>>(user),
        guard_outcome(Ok(user), Some(required), mode) != Err::<AuthentikUser, Option<Seq<char>>>(None),
        required.len() > 0 && mode == Some(GroupMatchMode::All) ==> guard_outcome(Ok(user), Some(required), mode) == if (forall|i: int| 0 <= i < required.len() ==> #[trigger] user.group_names().contains(required[i])) {
            Ok::<AuthentikUser, Option<Seq<char>>>(user)
        } else {
            Err(Some(seq_join(required, ", "@)))
        },
        required.len() > 0 && mode != Some(GroupMatchMode::All) ==> guard_outcome(Ok(user), Some(required), mode) == if (exists|i: int| 0 <= i < required.len() && #[trigger] user.group_names().contains(required[i])) {
            Ok::<AuthentikUser, Option<Seq<char>>>(user)
        } else {
            Err(Some(seq_join(required, " or "@)))
        },
{
    crate::user::law_all_means_each_held(user.group_names(), required);
    if required.len() > 0 && mode != Some(GroupMatchMode::All) {
        assert(effective_mode(mode) == GroupMatchMode::Any);
        if exists|i: int| 0 <= i < required.len() && #[trigger] user.group_names().contains(required[i]) {
            let i = choose|i: int| 0 <= i < required.len() && #[trigger] user.group_names().contains(required[i]);
            crate::user::law_any_means_one_held(user.group_names(), required, i);
        }
        crate::user::law_any_means_one_held(user.group_names(), required, 0);
    }
}

} // verus!
