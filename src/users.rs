use vstd::prelude::*;

use crate::account::AccountError;

verus! {

/// A post as clients send and receive it.
#[derive(PartialEq, Eq, Debug, Clone)]
pub struct PostCreate {
    pub title: String,
    pub content: String,
}

/// The public fields of a stored account.
#[derive(PartialEq, Eq, Debug, Clone)]
pub struct UserRecord {
    pub id: i32,
    pub name: String,
    pub lastname: String,
    pub age: i32,
    pub email: String,
}

/// An account together with its posts, as listed to clients.
#[derive(PartialEq, Eq, Debug, Clone)]
pub struct UserWithPosts {
    pub id: i32,
    pub name: String,
    pub lastname: String,
    pub age: i32,
    pub email: String,
    pub posts: Option<Vec<PostCreate>>,
}

/// The posts among rows that may or may not carry one, in row order.
pub open spec fn present_posts(rows: Seq<Option<PostCreate>>) -> Seq<PostCreate>
    decreases rows.len(),
{
    if rows.len() == 0 {
        Seq::empty()
    } else {
        match rows[0] {
            Some(p) => seq![p] + present_posts(rows.drop_first()),
            None => present_posts(rows.drop_first()),
        }
    }
}

pub open spec fn same_account(r: UserWithPosts, user: UserRecord) -> bool {
    &&& r.id == user.id
    &&& r.name == user.name
    &&& r.lastname == user.lastname
    &&& r.age == user.age
    &&& r.email == user.email
}

/// An account with the posts it owns.
pub fn user_with_posts(user: UserRecord, posts: Vec<PostCreate>) -> (r: UserWithPosts)
    ensures
        same_account(r, user),
        r.posts matches Some(v) && v@ == posts@,
{
    UserWithPosts {
        id: user.id,
        name: user.name,
        lastname: user.lastname,
        age: user.age,
        email: user.email,
        posts: Some(posts),
    }
}

/// The settings view of the authenticated caller's account, from the account as
/// the store found it (if at all) and the rows of a join of the account with its
/// posts: one row per post, or a single row without a post when it has none.
pub fn settings(account: Option<UserRecord>, rows: Vec<Option<PostCreate>>) -> (r: Result<
    UserWithPosts,
    AccountError,
>)
    ensures
        account is None <==> r == Err::<UserWithPosts, AccountError>(AccountError::AccountNotFound),
        account matches Some(user) ==> (r matches Ok(v) && same_account(v, user) && (
        v.posts matches Some(ps) && ps@ == present_posts(rows@))),
{
    let user = match account {
        None => {
            return Err(AccountError::AccountNotFound);
        },
        Some(user) => user,
    };
    let mut rest = rows;
    let mut posts: Vec<PostCreate> = Vec::new();
    while rest.len() > 0
        invariant
            posts@ + present_posts(rest@) == present_posts(rows@),
        decreases rest@.len(),
    {
        let ghost before = rest@;
        let row = rest.remove(0);
        assert(rest@ =~= before.drop_first());
        match row {
            Some(p) => {
                posts.push(p);
                assert(posts@ + present_posts(rest@) =~= present_posts(rows@));
            },
            None => {},
        }
    }
    assert(present_posts(rest@) =~= Seq::<PostCreate>::empty());
    assert(posts@ =~= present_posts(rows@));
    Ok(user_with_posts(user, posts))
}

} // verus!
