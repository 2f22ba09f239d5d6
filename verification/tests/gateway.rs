use mp5_usenet::gateway::{
    article_reply, greeting, help_reply, list_reply, no_article_reply, quit_reply, selected_reply,
    start, step, GatewayAction, GatewayError, GatewayEvent, GatewayState,
};
use mp5_usenet::text::push_decimal;
use mp5_usenet::types::{Context, FileResponse, Group};

fn reply_text(a: &GatewayAction) -> &str {
    match a {
        GatewayAction::Reply(t) => t,
        _ => panic!("expected a reply"),
    }
}

#[test]
fn decimal_numbers() {
    for n in [0u64, 7, 10, 99, 100, 4096, u64::MAX] {
        let mut s = String::from("x");
        push_decimal(&mut s, n);
        assert_eq!(s, format!("x{}", n));
    }
}

#[test]
fn reply_texts() {
    assert_eq!(greeting(), "200 amazing news server is ready\r\n");
    let gs = vec![Group::new("alt.tacos", 100, 10, false), Group::new("comp.lang", 5, 1, true)];
    assert_eq!(
        list_reply(&gs),
        "215 list of newsgroups follows\r\nalt.tacos 100 10 n\r\ncomp.lang 5 1 y\r\n.\r\n"
    );
    assert_eq!(list_reply(&vec![]), "215 list of newsgroups follows\r\n.\r\n");
    assert_eq!(selected_reply("alt.tacos"), "211 10 10 alt.tacos selected\r\n");
    assert_eq!(
        article_reply(10, "Text"),
        "220 10 <4105@ucbvax.ARPA> Article retrieved, text follows\r\nText\r\n.\r\n"
    );
    assert_eq!(no_article_reply(), "423 no such article number in this group\r\n");
    assert_eq!(
        help_reply(),
        "100 help text follows\r\nARTICLE <number>\r\nGROUP <newsgroup>\r\nHELP\r\nLIST\r\nQUIT\r\n.\r\n"
    );
    assert_eq!(quit_reply(), "205 closing connection - goodbye!\r\n");
}

#[test]
fn list_exchange() {
    let (s, a) = start();
    assert_eq!(reply_text(&a), "200 amazing news server is ready\r\n");
    let (s, a) = step(s, GatewayEvent::Line("LIST\r\n".to_string()));
    assert!(matches!(a, GatewayAction::ListGroups));
    let (s, a) = step(s, GatewayEvent::Groups(vec![Group::new("alt.tacos", 100, 10, false)]));
    assert_eq!(reply_text(&a), "215 list of newsgroups follows\r\nalt.tacos 100 10 n\r\n.\r\n");
    let (s, _a) = step(s, GatewayEvent::Line("list\r\n".to_string()));
    let (s, a) = step(s, GatewayEvent::Groups(vec![]));
    assert_eq!(reply_text(&a), "215 list of newsgroups follows\r\n.\r\n");
    assert!(matches!(s, GatewayState::Ready));
    let (s, a) = step(s, GatewayEvent::EndOfInput);
    assert!(matches!(a, GatewayAction::Close));
    let (s, a) = step(s, GatewayEvent::Line("LIST\r\n".to_string()));
    assert!(matches!(s, GatewayState::Closed));
    assert!(matches!(a, GatewayAction::Close));
}

#[test]
fn group_then_article_exchange() {
    let s = GatewayState::Ready;
    let (s, a) = step(s, GatewayEvent::Line("group alt.tacos\r\n".to_string()));
    match a {
        GatewayAction::SelectGroup(n) => assert_eq!(n, "alt.tacos"),
        _ => panic!("expected a group selection"),
    }
    let (s, a) = step(s, GatewayEvent::Selected);
    assert_eq!(reply_text(&a), "211 10 10 alt.tacos selected\r\n");
    let (s, a) = step(s, GatewayEvent::Line("article 10\r\n".to_string()));
    assert!(matches!(a, GatewayAction::FetchContext));
    let ctx = Context { group: "alt.tacos".to_string(), article_pointer: 0 };
    let (s, a) = step(s, GatewayEvent::Context(ctx));
    match a {
        GatewayAction::FetchArticle { group, number } => {
            assert_eq!(group, "alt.tacos");
            assert_eq!(number, 10);
        }
        _ => panic!("expected an article fetch"),
    }
    let (s, a) = step(s, GatewayEvent::Article(FileResponse::Article("Body".to_string())));
    assert_eq!(
        reply_text(&a),
        "220 10 <4105@ucbvax.ARPA> Article retrieved, text follows\r\nBody\r\n.\r\n"
    );
    let (s, a) = step(s, GatewayEvent::Line("hello\r\n".to_string()));
    assert!(matches!(a, GatewayAction::ReadLine));
    let (_s, a) = step(s, GatewayEvent::Line("article 3\r\n".to_string()));
    assert!(matches!(a, GatewayAction::FetchContext));
}

#[test]
fn missing_article_is_reported() {
    let (s, a) = step(GatewayState::Ready, GatewayEvent::Line("ARTICLE 11\r\n".to_string()));
    assert!(matches!(a, GatewayAction::FetchContext));
    let (s, _a) = step(s, GatewayEvent::Context(Context::default()));
    let (s, a) = step(s, GatewayEvent::Article(FileResponse::NoSuchArticle));
    assert!(matches!(s, GatewayState::Ready));
    assert_eq!(reply_text(&a), "423 no such article number in this group\r\n");
}

#[test]
fn help_then_quit() {
    let (s, a) = step(GatewayState::Ready, GatewayEvent::Line("HELP\r\n".to_string()));
    assert!(matches!(s, GatewayState::Ready));
    assert!(reply_text(&a).starts_with("100 help text follows\r\n"));
    let (s, a) = step(s, GatewayEvent::Line("QUIT\r\n".to_string()));
    assert!(matches!(s, GatewayState::Closed));
    match a {
        GatewayAction::ReplyAndClose(t) => assert_eq!(t, "205 closing connection - goodbye!\r\n"),
        _ => panic!("expected a closing reply"),
    }
}

#[test]
fn non_article_answer_is_not_replied() {
    let (s, a) = step(GatewayState::AwaitingArticle { number: 3 }, GatewayEvent::Article(FileResponse::Body));
    assert!(matches!(s, GatewayState::Ready));
    assert!(matches!(a, GatewayAction::ReadLine));
}

#[test]
fn overlong_article_number_fails_after_context() {
    let (s, a) = step(GatewayState::Ready, GatewayEvent::Line("ARTICLE 99999999999999999999\r\n".to_string()));
    assert!(matches!(a, GatewayAction::FetchContext));
    let (s, a) = step(s, GatewayEvent::Context(Context::default()));
    assert!(matches!(s, GatewayState::Closed));
    assert!(matches!(a, GatewayAction::Fail(GatewayError::BadArticleNumber)));
}

#[test]
fn unexpected_event_fails() {
    let (s, a) = step(GatewayState::AwaitingGroups, GatewayEvent::Selected);
    assert!(matches!(s, GatewayState::Closed));
    assert!(matches!(a, GatewayAction::Fail(GatewayError::UnexpectedEvent)));
}
