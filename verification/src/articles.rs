//! The file service: the text of each article, by group and article number.

use crate::command::{first_from, lemma_first_from};
use crate::types::{FileRequest, FileResponse};
use vstd::prelude::*;

verus! {

/// An article stored under a group and a number.
pub struct Article {
    pub group: String,
    pub number: u64,
    pub text: String,
}

/// The articles the file service serves.
pub struct ArticleStore {
    articles: Vec<Article>,
}

/// The positions of `articles` stored under `group` and `number`.
pub open spec fn key_pred(articles: Seq<Article>, group: Seq<char>, number: u64) -> spec_fn(int) -> bool {
    |i: int| 0 <= i < articles.len() && articles[i].group@ == group && articles[i].number == number
}

/// The text stored under `group` and `number`, if any: that of the first
/// article with this key.
pub open spec fn find_article(articles: Seq<Article>, group: Seq<char>, number: u64) -> Option<Seq<char>> {
    match first_from(articles.len() as int, 0, key_pred(articles, group, number)) {
        Some(i) => Some(articles[i].text@),
        None => None,
    }
}

/// No two articles are stored under the same group and number.
pub open spec fn keys_unique(articles: Seq<Article>) -> bool {
    forall|i: int, j: int|
        0 <= i < j < articles.len() ==> !(#[trigger] articles[i].group@ == #[trigger] articles[j].group@
            && articles[i].number == articles[j].number)
}

impl ArticleStore {
    /// The store's invariant: each group and number is stored at most once.
    #[verifier::type_invariant]
    spec fn keys_stored_once(self) -> bool {
        keys_unique(self.articles@)
    }
}

impl View for ArticleStore {
    type V = Seq<Article>;

    closed spec fn view(&self) -> Seq<Article> {
        self.articles@
    }
}

proof fn lemma_find_push(articles: Seq<Article>, a: Article, group: Seq<char>, number: u64)
    ensures
        find_article(articles.push(a), group, number) == (if find_article(articles, group, number) is Some {
            find_article(articles, group, number)
        } else if a.group@ == group && a.number == number {
            Some(a.text@)
        } else {
            None
        }),
{
    let s = articles.push(a);
    let p = key_pred(articles, group, number);
    let q = key_pred(s, group, number);
    lemma_first_from(articles.len() as int, 0, p);
    lemma_first_from(s.len() as int, 0, q);
    assert forall|k: int| 0 <= k < articles.len() implies #[trigger] p(k) == q(k) by {
        assert(s[k] == articles[k]);
    }
    match first_from(articles.len() as int, 0, p) {
        Some(i) => {
            let j = first_from(s.len() as int, 0, q)->0;
            assert(q(i));
            if j < i {
                assert(p(j));
            }
            assert(j == i);
        },
        None => {
            match first_from(s.len() as int, 0, q) {
                Some(j) => {
                    if j < articles.len() {
                        assert(p(j));
                    }
                },
                None => {
                    assert(!q(articles.len() as int));
                },
            }
        },
    }
}

proof fn lemma_find_update(
    articles: Seq<Article>,
    i: int,
    a: Article,
    group: Seq<char>,
    number: u64,
)
    requires
        0 <= i < articles.len(),
        articles[i].group@ == a.group@,
        articles[i].number == a.number,
        first_from(articles.len() as int, 0, key_pred(articles, a.group@, a.number)) == Some(i),
    ensures
        find_article(articles.update(i, a), group, number) == (if a.group@ == group && a.number
            == number {
            Some(a.text@)
        } else {
            find_article(articles, group, number)
        }),
{
    let s = articles.update(i, a);
    let p = key_pred(articles, group, number);
    let q = key_pred(s, group, number);
    assert forall|k: int| #[trigger] q(k) == p(k) by {
        if 0 <= k < articles.len() && k != i {
            assert(s[k] == articles[k]);
        }
    }
    assert(q =~= p);
    lemma_first_from(articles.len() as int, 0, p);
}

impl ArticleStore {
    /// A store without articles.
    pub fn new() -> (s: ArticleStore)
        ensures
            keys_unique(s@),
            forall|g: Seq<char>, n: u64| find_article(s@, g, n) is None,
    {
        ArticleStore { articles: Vec::new() }
    }

    /// The index of the first article stored under `group` and `number`.
    fn position(&self, group: &String, number: u64) -> (r: Option<usize>)
        ensures
            match r {
                Some(i) => first_from(self@.len() as int, 0, key_pred(self@, group@, number))
                    == Some(i as int),
                None => first_from(self@.len() as int, 0, key_pred(self@, group@, number)) is None,
            },
    {
        let ghost pred = key_pred(self@, group@, number);
        let mut i: usize = 0;
        while i < self.articles.len()
            invariant
                i <= self@.len(),
                pred == key_pred(self@, group@, number),
                first_from(self@.len() as int, 0, pred) == first_from(
                    self@.len() as int,
                    i as int,
                    pred,
                ),
            decreases self@.len() - i,
        {
            let a = &self.articles[i];
            if a.number == number && a.group == *group {
                return Some(i);
            }
            i = i + 1;
        }
        None
    }

    /// Stores `text` under `group` and `number`, replacing what was stored
    /// under them.
    pub fn insert(&mut self, group: String, number: u64, text: String)
        ensures
            keys_unique(final(self)@),
            forall|g: Seq<char>, n: u64|
                #[trigger] find_article(final(self)@, g, n) == (if g == group@ && n == number {
                    Some(text@)
                } else {
                    find_article(old(self)@, g, n)
                }),
    {
        proof {
            use_type_invariant(&*self);
        }
        let ghost (gv, tv) = (group@, text@);
        let a = Article { group, number, text };
        match self.position(&a.group, number) {
            Some(i) => {
                proof {
                    lemma_first_from(self@.len() as int, 0, key_pred(self@, gv, number));
                }
                let ghost before = self@;
                assert(before[i as int].group@ == gv && before[i as int].number == number);
                let mut articles: Vec<Article> = Vec::new();
                std::mem::swap(&mut articles, &mut self.articles);
                articles.set(i, a);
                proof {
                    assert forall|k: int| 0 <= k < articles@.len() implies #[trigger] articles@[k].group@
                        == before[k].group@ && articles@[k].number == before[k].number by {}
                    assert(keys_unique(articles@));
                }
                self.articles = articles;
                proof {
                    assert forall|g: Seq<char>, n: u64|
                        #[trigger] find_article(self@, g, n) == (if g == gv && n == number {
                            Some(tv)
                        } else {
                            find_article(before, g, n)
                        }) by {
                        lemma_find_update(before, i as int, self@[i as int], g, n);
                    }
                }
            },
            None => {
                let ghost before = self@;
                proof {
                    lemma_first_from(before.len() as int, 0, key_pred(before, gv, number));
                }
                let mut articles: Vec<Article> = Vec::new();
                std::mem::swap(&mut articles, &mut self.articles);
                articles.push(a);
                proof {
                    assert forall|k: int| 0 <= k < before.len() implies !(#[trigger] articles@[k].group@
                        == gv && articles@[k].number == number) by {
                        assert(!key_pred(before, gv, number)(k));
                    }
                    assert(keys_unique(articles@));
                }
                self.articles = articles;
                proof {
                    assert forall|g: Seq<char>, n: u64|
                        #[trigger] find_article(self@, g, n) == (if g == gv && n == number {
                            Some(tv)
                        } else {
                            find_article(before, g, n)
                        }) by {
                        lemma_find_push(before, self@.last(), g, n);
                        assert(self@ == before.push(self@.last()));
                        if g == gv && n == number {
                            lemma_first_from(before.len() as int, 0, key_pred(before, g, n));
                        }
                    }
                }
            },
        }
    }

    /// The text stored under `group` and `number`, if any.
    pub fn article(&self, group: &String, number: u64) -> (r: Option<String>)
        ensures
            match r {
                Some(t) => find_article(self@, group@, number) == Some(t@),
                None => find_article(self@, group@, number) is None,
            },
    {
        proof {
            lemma_first_from(self@.len() as int, 0, key_pred(self@, group@, number));
        }
        match self.position(group, number) {
            Some(i) => Some(self.articles[i].text.clone()),
            None => None,
        }
    }

    /// Answers a request: an article request with the article's text, or
    /// with `NoSuchArticle` where none is stored under its group and number;
    /// a request for a body or a head with the same kind of answer.
    pub fn handle(&self, request: &FileRequest) -> (resp: FileResponse)
        ensures
            match request {
                FileRequest::Article(g, n) => match find_article(self@, g@, *n) {
                    Some(t) => resp matches FileResponse::Article(x) && x@ == t,
                    None => resp is NoSuchArticle,
                },
                FileRequest::Body => resp is Body,
                FileRequest::Head => resp is Head,
            },
    {
        match request {
            FileRequest::Article(group, number) => match self.article(group, *number) {
                Some(t) => FileResponse::Article(t),
                None => FileResponse::NoSuchArticle,
            },
            FileRequest::Body => FileResponse::Body,
            FileRequest::Head => FileResponse::Head,
        }
    }
}

/// Law: what is stored under a group and a number is what a later lookup of
/// them finds; storing under one key leaves every other key as it was.
pub proof fn lemma_lookup_after_insert(
    before: Seq<Article>,
    after: Seq<Article>,
    group: Seq<char>,
    number: u64,
    text: Seq<char>,
    g: Seq<char>,
    n: u64,
)
    requires
        forall|g1: Seq<char>, n1: u64|
            #[trigger] find_article(after, g1, n1) == (if g1 == group && n1 == number {
                Some(text)
            } else {
                find_article(before, g1, n1)
            }),
    ensures
        find_article(after, group, number) == Some(text),
        !(g == group && n == number) ==> find_article(after, g, n) == find_article(before, g, n),
{
    assert(find_article(after, group, number) == Some(text));
    assert(find_article(after, g, n) == (if g == group && n == number {
        Some(text)
    } else {
        find_article(before, g, n)
    }));
}

} // verus!
