use mp5_usenet::articles::ArticleStore;
use mp5_usenet::groups::GroupDirectory;
use mp5_usenet::sessions::SessionTable;
use mp5_usenet::types::{
    Context, FileRequest, FileResponse, Group, GroupRequest, GroupResponse, StateRequest,
    StateResponse,
};

#[test]
fn group_new_keeps_fields() {
    let g = Group::new("alt.tacos", 100, 10, false);
    assert_eq!(g.name, "alt.tacos");
    assert_eq!((g.last, g.first, g.posting_allowed), (100, 10, false));
    assert_eq!(g.clone(), g);
}

#[test]
fn default_context_is_empty() {
    let c = Context::default();
    assert_eq!(c.group, "");
    assert_eq!(c.article_pointer, 0);
}

#[test]
fn group_service_lists_its_groups() {
    let dir = GroupDirectory::new(vec![Group::new("alt.tacos", 100, 10, false)]);
    match dir.handle(&GroupRequest::List) {
        GroupResponse::List(v) => assert_eq!(v, vec![Group::new("alt.tacos", 100, 10, false)]),
        _ => panic!("expected a list"),
    }
    assert_eq!(dir.handle(&GroupRequest::NewGroups), GroupResponse::NewGroups);
    assert_eq!(dir.handle(&GroupRequest::NewNews), GroupResponse::NewNews);
}

#[test]
fn state_service_remembers_selected_group() {
    let mut t = SessionTable::new();
    assert_eq!(t.context(5), Context::default());
    let r = t.handle(5, StateRequest::Group("alt.tacos".to_string()));
    assert_eq!(r, StateResponse::Nil);
    assert_eq!(
        t.handle(5, StateRequest::Context),
        StateResponse::Context(Context { group: "alt.tacos".to_string(), article_pointer: 0 })
    );
    assert_eq!(t.context(6), Context::default());
    t.select_group(5, "comp.lang".to_string());
    assert_eq!(t.context(5).group, "comp.lang");
}

#[test]
fn state_service_moves_the_article_pointer() {
    let ctx = |g: &str, p: usize| StateResponse::Context(Context { group: g.to_string(), article_pointer: p });
    let mut t = SessionTable::new();
    assert_eq!(t.handle(1, StateRequest::Next), ctx("", 0));
    t.handle(1, StateRequest::Group("alt.tacos".to_string()));
    assert_eq!(t.handle(1, StateRequest::Last), ctx("alt.tacos", 0));
    assert_eq!(t.handle(1, StateRequest::Next), ctx("alt.tacos", 1));
    assert_eq!(t.handle(1, StateRequest::Next), ctx("alt.tacos", 2));
    assert_eq!(t.handle(1, StateRequest::Stat), ctx("alt.tacos", 2));
    assert_eq!(t.handle(1, StateRequest::Last), ctx("alt.tacos", 1));
    assert_eq!(t.handle(2, StateRequest::Context), ctx("", 0));
    t.handle(1, StateRequest::Group("comp.lang".to_string()));
    assert_eq!(t.handle(1, StateRequest::Context), ctx("comp.lang", 0));
}

#[test]
fn file_service_serves_stored_articles() {
    let mut store = ArticleStore::new();
    store.insert("alt.tacos".to_string(), 10, "The body.".to_string());
    store.insert("alt.tacos".to_string(), 11, "Another.".to_string());
    assert_eq!(store.article(&"alt.tacos".to_string(), 10), Some("The body.".to_string()));
    assert_eq!(store.article(&"alt.tacos".to_string(), 12), None);
    assert_eq!(store.article(&"comp.lang".to_string(), 10), None);
    store.insert("alt.tacos".to_string(), 10, "Replaced.".to_string());
    assert_eq!(store.article(&"alt.tacos".to_string(), 10), Some("Replaced.".to_string()));
    assert_eq!(store.article(&"alt.tacos".to_string(), 11), Some("Another.".to_string()));
    assert_eq!(
        store.handle(&FileRequest::Article("alt.tacos".to_string(), 11)),
        FileResponse::Article("Another.".to_string())
    );
    assert_eq!(store.handle(&FileRequest::Article("alt.tacos".to_string(), 12)), FileResponse::NoSuchArticle);
    assert_eq!(store.handle(&FileRequest::Article(String::new(), 10)), FileResponse::NoSuchArticle);
    assert_eq!(store.handle(&FileRequest::Body), FileResponse::Body);
    assert_eq!(store.handle(&FileRequest::Head), FileResponse::Head);
}
