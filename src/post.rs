use vstd::prelude::*;

use crate::clock::now_timestamp;
use crate::error::{ErrorView, ServiceError};
use crate::text::{blank, is_blank};
use crate::user::opt_text;

verus! {

/// A stored post; times are seconds since the Unix epoch.
#[derive(Debug)]
pub struct Post {
    pub id: u64,
    pub author: String,
    pub content: String,
    pub created_at: i64,
    pub updated_at: i64,
}

pub struct PostView {
    pub id: u64,
    pub author: Seq<char>,
    pub content: Seq<char>,
    pub created_at: i64,
    pub updated_at: i64,
}

impl View for Post {
    type V = PostView;

    open spec fn view(&self) -> PostView {
        PostView {
            id: self.id,
            author: self.author@,
            content: self.content@,
            created_at: self.created_at,
            updated_at: self.updated_at,
        }
    }
}

impl Post {
    /// A copy of this post.
    pub fn duplicate(&self) -> (r: Post)
        ensures
            r@ == self@,
    {
        Post {
            id: self.id,
            author: self.author.clone(),
            content: self.content.clone(),
            created_at: self.created_at,
            updated_at: self.updated_at,
        }
    }
}

/// The fields of a new post.
#[derive(Debug)]
pub struct CreateArgs {
    pub author: String,
    pub content: String,
}

/// The fields of a post to change; `None` keeps a field.
#[derive(Debug)]
pub struct UpdateArgs {
    pub author: Option<String>,
    pub content: Option<String>,
}

/// The mathematical value of a post table: its rows, newest first, and the
/// id that the next post gets.
pub struct PostTable {
    pub rows: Seq<PostView>,
    pub next_id: u64,
}

/// Newest first: creation times never increase along the rows.
pub open spec fn newest_first(rows: Seq<PostView>) -> bool {
    forall|i: int, j: int| 0 <= i < j < rows.len() ==> #[trigger] rows[i].created_at >= #[trigger] rows[j].created_at
}

/// Some post has this id.
pub open spec fn has_post(rows: Seq<PostView>, id: u64) -> bool {
    exists|i: int| 0 <= i < rows.len() && #[trigger] rows[i].id == id
}

/// The relational table of posts, kept newest first; ids are unique.
pub struct PostStore {
    rows: Vec<Post>,
    next_id: u64,
}

impl View for PostStore {
    type V = PostTable;

    closed spec fn view(&self) -> PostTable {
        PostTable { rows: self.rows@.map_values(|p: Post| p@), next_id: self.next_id }
    }
}

impl PostStore {
    /// Ids are unique and below the next one, and the rows are newest first.
    pub closed spec fn wf(&self) -> bool {
        &&& forall|i: int, j: int|
            0 <= i < self.rows@.len() && 0 <= j < self.rows@.len() && i != j ==> #[trigger] self.rows@[i].id
                != #[trigger] self.rows@[j].id
        &&& forall|i: int| 0 <= i < self.rows@.len() ==> #[trigger] self.rows@[i].id < self.next_id
        &&& newest_first(self@.rows)
    }

    /// An empty table whose first id is 1.
    pub fn new() -> (r: PostStore)
        ensures
            r.wf(),
            r@.rows == Seq::<PostView>::empty(),
            r@.next_id == 1,
    {
        let r = PostStore { rows: Vec::new(), next_id: 1 };
        assert(r@.rows =~= Seq::<PostView>::empty());
        r
    }

    fn index_of_id(&self, id: u64) -> (r: Option<usize>)
        ensures
            match r {
                Some(i) => i < self@.rows.len() && self@.rows[i as int].id == id,
                None => !has_post(self@.rows, id),
            },
    {
        let mut i: usize = 0;
        while i < self.rows.len()
            invariant
                i <= self.rows@.len(),
                forall|j: int| 0 <= j < i ==> #[trigger] self.rows@[j].id != id,
            decreases self.rows@.len() - i,
        {
            if self.rows[i].id == id {
                return Some(i);
            }
            i = i + 1;
        }
        assert forall|j: int| 0 <= j < self@.rows.len() implies #[trigger] self@.rows[j].id != id by {
            assert(self@.rows[j] == self.rows@[j]@);
        }
        None
    }
}

/// Lists all posts, newest first.
pub fn get_list(store: &PostStore) -> (r: Result<Vec<Post>, ServiceError>)
    requires
        store.wf(),
    ensures
        match r {
            Ok(list) => {
                &&& list@.len() == store@.rows.len()
                &&& forall|i: int| 0 <= i < list@.len() ==> #[trigger] list@[i]@ == store@.rows[i]
                &&& newest_first(store@.rows)
            },
            Err(_) => false,
        },
{
    let mut list: Vec<Post> = Vec::new();
    let mut i: usize = 0;
    while i < store.rows.len()
        invariant
            i <= store.rows@.len(),
            list@.len() == i,
            forall|j: int| 0 <= j < i ==> #[trigger] list@[j]@ == store@.rows[j],
        decreases store.rows@.len() - i,
    {
        list.push(store.rows[i].duplicate());
        i = i + 1;
    }
    Ok(list)
}

/// Creates a post; a blank author or content is refused.
pub fn create(store: &mut PostStore, args: CreateArgs) -> (r: Result<bool, ServiceError>)
    requires
        old(store).wf(),
    ensures
        final(store).wf(),
        match r {
            Ok(b) => {
                let id = old(store)@.next_id;
                &&& b
                &&& !blank(args.author@) && !blank(args.content@)
                &&& final(store)@.next_id == id + 1
                &&& exists|p: int|
                    #![trigger final(store)@.rows[p]]
                    0 <= p <= old(store)@.rows.len() && final(store)@.rows == old(store)@.rows.insert(
                        p,
                        PostView {
                            id,
                            author: args.author@,
                            content: args.content@,
                            created_at: final(store)@.rows[p].created_at,
                            updated_at: final(store)@.rows[p].created_at,
                        },
                    )
            },
            Err(e) => final(store)@ == old(store)@ && if blank(args.author@) || blank(args.content@) {
                e@ == ErrorView::InvalidArgument
            } else {
                e@ == ErrorView::QueryExecutionFailure && old(store)@.next_id == u64::MAX
            },
        },
{
    if is_blank(args.author.as_str()) || is_blank(args.content.as_str()) {
        return Err(ServiceError::InvalidArgument);
    }
    if store.next_id == u64::MAX {
        return Err(ServiceError::QueryExecutionFailure);
    }
    let id = store.next_id;
    let now = now_timestamp();
    let mut p: usize = 0;
    while p < store.rows.len() && store.rows[p].created_at > now
        invariant
            p <= store.rows@.len(),
            forall|j: int| 0 <= j < p ==> #[trigger] store.rows@[j].created_at > now,
        decreases store.rows@.len() - p,
    {
        p = p + 1;
    }
    let ghost new_view = PostView { id, author: args.author@, content: args.content@, created_at: now, updated_at: now };
    store.rows.insert(p, Post { id, author: args.author, content: args.content, created_at: now, updated_at: now });
    store.next_id = id + 1;
    proof {
        let o = old(store).rows@;
        let n = store.rows@;
        assert(store@.rows =~= old(store)@.rows.insert(p as int, new_view));
        assert(store@.rows[p as int] == new_view);
        assert forall|a: int, b: int| 0 <= a < n.len() && 0 <= b < n.len() && a != b implies
            #[trigger] n[a].id != #[trigger] n[b].id by {
            if a != p && b != p {
                let oa = if a < p { a } else { a - 1 };
                let ob = if b < p { b } else { b - 1 };
                assert(n[a] == o[oa]);
                assert(n[b] == o[ob]);
            } else if a == p {
                let ob = if b < p { b } else { b - 1 };
                assert(n[b] == o[ob]);
            } else {
                let oa = if a < p { a } else { a - 1 };
                assert(n[a] == o[oa]);
            }
        }
        assert forall|a: int| 0 <= a < n.len() implies #[trigger] n[a].id < store.next_id by {
            if a != p {
                let oa = if a < p { a } else { a - 1 };
                assert(n[a] == o[oa]);
            }
        }
        assert forall|a: int, b: int| 0 <= a < b < store@.rows.len() implies
            #[trigger] store@.rows[a].created_at >= #[trigger] store@.rows[b].created_at by {
            let nv = store@.rows;
            let ov = old(store)@.rows;
            if b < p {
                assert(nv[a] == ov[a] && nv[b] == ov[b]);
            } else if b == p {
                assert(nv[a] == ov[a]);
                assert(ov[a] == o[a]@);
            } else if a == p {
                assert(nv[b] == ov[b - 1]);
                if b - 1 > p {
                    assert(ov[p as int].created_at >= ov[b - 1].created_at);
                }
            } else if a < p {
                assert(nv[a] == ov[a]);
                assert(nv[b] == ov[b - 1]);
            } else {
                assert(nv[a] == ov[a - 1]);
                assert(nv[b] == ov[b - 1]);
            }
        }
    }
    Ok(true)
}

/// Deletes a post.
pub fn delete(store: &mut PostStore, id: u64) -> (r: Result<bool, ServiceError>)
    requires
        old(store).wf(),
    ensures
        final(store).wf(),
        final(store)@.next_id == old(store)@.next_id,
        r is Ok <==> has_post(old(store)@.rows, id),
        match r {
            Ok(b) => b && exists|i: int|
                0 <= i < old(store)@.rows.len() && #[trigger] old(store)@.rows[i].id == id && final(store)@.rows
                    == old(store)@.rows.remove(i),
            Err(e) => e@ == ErrorView::NotFound(id) && final(store)@ == old(store)@,
        },
{
    match store.index_of_id(id) {
        None => Err(ServiceError::NotFound(id)),
        Some(i) => {
            store.rows.remove(i);
            proof {
                let o = old(store).rows@;
                let n = store.rows@;
                assert(store@.rows =~= old(store)@.rows.remove(i as int));
                assert forall|a: int, b: int| 0 <= a < n.len() && 0 <= b < n.len() && a != b implies
                    #[trigger] n[a].id != #[trigger] n[b].id by {
                    let oa = if a < i { a } else { a + 1 };
                    let ob = if b < i { b } else { b + 1 };
                    assert(n[a] == o[oa]);
                    assert(n[b] == o[ob]);
                }
                assert forall|a: int| 0 <= a < n.len() implies #[trigger] n[a].id < store.next_id by {
                    let oa = if a < i { a } else { a + 1 };
                    assert(n[a] == o[oa]);
                }
                assert forall|a: int, b: int| 0 <= a < b < store@.rows.len() implies
                    #[trigger] store@.rows[a].created_at >= #[trigger] store@.rows[b].created_at by {
                    let oa = if a < i { a } else { a + 1 };
                    let ob = if b < i { b } else { b + 1 };
                    assert(store@.rows[a] == old(store)@.rows[oa]);
                    assert(store@.rows[b] == old(store)@.rows[ob]);
                }
            }
            Ok(true)
        },
    }
}

/// Updates the given fields of a post and stamps its update time: nothing
/// given, or both given with one blank, is refused.
pub fn update(store: &mut PostStore, id: u64, args: UpdateArgs) -> (r: Result<bool, ServiceError>)
    requires
        old(store).wf(),
    ensures
        final(store).wf(),
        final(store)@.next_id == old(store)@.next_id,
        ({
            let author = opt_text(args.author);
            let content = opt_text(args.content);
            if author is None && content is None {
                r matches Err(e) && e@ == ErrorView::InvalidArgument && final(store)@ == old(store)@
            } else if author is Some && content is Some && (blank(author->0) || blank(content->0)) {
                r matches Err(e) && e@ == ErrorView::InvalidArgument && final(store)@ == old(store)@
            } else if !has_post(old(store)@.rows, id) {
                r matches Err(e) && e@ == ErrorView::NotFound(id) && final(store)@ == old(store)@
            } else {
                &&& r == Ok::<bool, ServiceError>(true)
                &&& exists|i: int|
                    0 <= i < old(store)@.rows.len() && #[trigger] old(store)@.rows[i].id == id
                        && final(store)@.rows == old(store)@.rows.update(
                        i,
                        PostView {
                            id,
                            author: match author {
                                Some(a) => a,
                                None => old(store)@.rows[i].author,
                            },
                            content: match content {
                                Some(c) => c,
                                None => old(store)@.rows[i].content,
                            },
                            created_at: old(store)@.rows[i].created_at,
                            updated_at: final(store)@.rows[i].updated_at,
                        },
                    )
            }
        }),
{
    if args.author.is_none() && args.content.is_none() {
        return Err(ServiceError::InvalidArgument);
    }
    match (&args.author, &args.content) {
        (Some(a), Some(c)) => {
            if is_blank(a.as_str()) || is_blank(c.as_str()) {
                return Err(ServiceError::InvalidArgument);
            }
        },
        _ => {},
    }
    let i = match store.index_of_id(id) {
        None => return Err(ServiceError::NotFound(id)),
        Some(i) => i,
    };
    let ghost author = opt_text(args.author);
    let ghost content = opt_text(args.content);
    let new_author = match args.author {
        Some(a) => a,
        None => store.rows[i].author.clone(),
    };
    let new_content = match args.content {
        Some(c) => c,
        None => store.rows[i].content.clone(),
    };
    let now = now_timestamp();
    let row = Post {
        id,
        author: new_author,
        content: new_content,
        created_at: store.rows[i].created_at,
        updated_at: now,
    };
    store.rows.set(i, row);
    proof {
        let o = old(store).rows@;
        let n = store.rows@;
        assert(store@.rows =~= old(store)@.rows.update(i as int, store@.rows[i as int]));
        assert forall|a: int, b: int| 0 <= a < n.len() && 0 <= b < n.len() && a != b implies
            #[trigger] n[a].id != #[trigger] n[b].id by {
            assert(o[a].id != o[b].id);
        }
        assert forall|a: int| 0 <= a < n.len() implies #[trigger] n[a].id < store.next_id by {
            assert(o[a].id < store.next_id);
        }
        assert forall|a: int, b: int| 0 <= a < b < store@.rows.len() implies
            #[trigger] store@.rows[a].created_at >= #[trigger] store@.rows[b].created_at by {
            assert(old(store)@.rows[a].created_at >= old(store)@.rows[b].created_at);
        }
        assert(old(store)@.rows[i as int].id == id);
    }
    Ok(true)
}

} // verus!
