use authcore::{settings, user_with_posts, AccountError, PostCreate, UserRecord};

fn user() -> UserRecord {
    UserRecord {
        id: 3,
        name: "Ann".to_string(),
        lastname: "Lee".to_string(),
        age: 30,
        email: "ann@x.com".to_string(),
    }
}

fn post(t: &str) -> PostCreate {
    PostCreate { title: t.to_string(), content: format!("about {}", t) }
}

#[test]
fn settings_keeps_the_posts_in_row_order() {
    let r = settings(Some(user()), vec![Some(post("a")), Some(post("b"))]).unwrap();
    assert_eq!(r.id, 3);
    assert_eq!(r.email, "ann@x.com");
    assert_eq!(r.posts, Some(vec![post("a"), post("b")]));
}

#[test]
fn settings_of_an_account_without_posts() {
    let r = settings(Some(user()), vec![None]).unwrap();
    assert_eq!(r.posts, Some(vec![]));
    assert_eq!(r.name, "Ann");
}

#[test]
fn user_with_posts_copies_the_account() {
    let r = user_with_posts(user(), vec![post("x")]);
    assert_eq!((r.id, r.age), (3, 30));
    assert_eq!(r.lastname, "Lee");
    assert_eq!(r.posts, Some(vec![post("x")]));
}

#[test]
fn settings_of_an_unknown_account_is_not_found() {
    assert_eq!(settings(None, vec![]), Err(AccountError::AccountNotFound));
}
