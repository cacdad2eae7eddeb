//! The newsfeed: links to pages elsewhere and posts written for the site,
//! compiled into one list of entries for rendering.

use vstd::prelude::*;
use crate::errors::FatalError;
use crate::text::{ends_with, has_suffix, join};

verus! {

/// What every newsfeed entry carries.
#[derive(Debug, PartialEq, Eq)]
pub struct NewsfeedCommon {
    pub title: String,
    pub author: String,
    /// The place of the entry when the feed is displayed. It is passed on
    /// as it is: sorting is left to rendering.
    pub order: i64,
}

/// An entry that points to a page elsewhere.
#[derive(Debug, PartialEq, Eq)]
pub struct NewsfeedLink {
    pub link: String,
    pub common: NewsfeedCommon,
}

/// An entry written for the site, as a markdown file.
#[derive(Debug, PartialEq, Eq)]
pub struct NewsfeedPost {
    /// File name with no associated path
    pub file_name: String,
    pub common: NewsfeedCommon,
}

/// The newsfeed as it is declared: the entries that are links and the
/// entries that are posts, each kind in its own list. Where an entry is
/// shown in the feed is a matter of its `order` alone, so nothing is lost
/// by keeping the two kinds apart; compiled, the links come before the
/// posts.
#[derive(Debug, PartialEq, Eq)]
pub struct Newsfeed {
    pub links: Vec<NewsfeedLink>,
    pub posts: Vec<NewsfeedPost>,
}

/// Where a compiled entry comes from.
#[derive(Clone, Copy, Debug, PartialEq, Eq, Structural)]
pub enum EntryKind {
    /// A link to a page of the community.
    CommunityLink,
    /// A post that the site hosts.
    HostedPost,
}

/// A newsfeed entry as it is handed to rendering.
#[derive(Debug, PartialEq, Eq)]
pub struct CompiledNewsfeedEntry {
    pub title: String,
    pub author: String,
    pub order: i64,
    pub link: String,
    pub kind: EntryKind,
}

/// The texts of a [`CompiledNewsfeedEntry`].
pub ghost struct EntryText {
    pub title: Seq<char>,
    pub author: Seq<char>,
    pub order: i64,
    pub link: Seq<char>,
    pub kind: EntryKind,
}

impl View for CompiledNewsfeedEntry {
    type V = EntryText;

    open spec fn view(&self) -> EntryText {
        EntryText {
            title: self.title@,
            author: self.author@,
            order: self.order,
            link: self.link@,
            kind: self.kind,
        }
    }
}

/// The page of a hosted post: its title and its rendered body, for the
/// page template, and the name of the file to write.
#[derive(Debug, PartialEq, Eq)]
pub struct PostPage {
    pub file_name: String,
    pub title: String,
    pub body: String,
}

/// The texts of a [`PostPage`].
pub ghost struct PageText {
    pub file_name: Seq<char>,
    pub title: Seq<char>,
    pub body: Seq<char>,
}

impl View for PostPage {
    type V = PageText;

    open spec fn view(&self) -> PageText {
        PageText { file_name: self.file_name@, title: self.title@, body: self.body@ }
    }
}

/// The compiled newsfeed: the entries for rendering, the links first, and
/// the pages of the hosted posts.
#[derive(Debug, PartialEq, Eq)]
pub struct CompiledNewsfeed {
    pub entries: Vec<CompiledNewsfeedEntry>,
    pub pages: Vec<PostPage>,
}

/// The route under which the pages of hosted posts are served.
pub const NEWSFEED_ROUTE_ROOT: &'static str = "/newsfeed/";

/// The HTML that pulldown-cmark renders a markdown text to.
pub uninterp spec fn rendered_markdown(text: Seq<char>) -> Seq<char>;

/// `pulldown_cmark::html::push_html` on `pulldown_cmark::Parser::new`:
/// renders a markdown text to HTML, with no extension of the syntax
/// enabled. The outcome depends on the text alone; what it is, is not
/// said here.
#[verifier::external_body]
fn markdown_to_html(text: &str) -> (html: String)
    ensures
        html@ == rendered_markdown(text@),
{
    let mut html = String::new();
    pulldown_cmark::html::push_html(&mut html, pulldown_cmark::Parser::new(text));
    html
}

/// The name of the page of a post: the markdown extension gives way to
/// the extension of a page; a name without the markdown extension gets
/// the extension of a page behind it.
pub open spec fn page_name(file_name: Seq<char>) -> Seq<char> {
    if has_suffix(file_name, ".md"@) {
        file_name.subrange(0, file_name.len() - ".md"@.len()) + ".html"@
    } else {
        file_name + ".html"@
    }
}

/// The compiled form of a link.
pub open spec fn link_entry(link: NewsfeedLink) -> EntryText {
    EntryText {
        title: link.common.title@,
        author: link.common.author@,
        order: link.common.order,
        link: link.link@,
        kind: EntryKind::CommunityLink,
    }
}

/// The compiled form of a post served under `route_root`.
pub open spec fn post_entry(post: NewsfeedPost, route_root: Seq<char>) -> EntryText {
    EntryText {
        title: post.common.title@,
        author: post.common.author@,
        order: post.common.order,
        link: route_root + page_name(post.file_name@),
        kind: EntryKind::HostedPost,
    }
}

/// The page of a post whose rendered body is `body`.
pub open spec fn post_page(post: NewsfeedPost, body: Seq<char>) -> PageText {
    PageText { file_name: page_name(post.file_name@), title: post.common.title@, body }
}

/// The name of the page of a post.
pub fn page_file_name(file_name: &str) -> (name: String)
    ensures
        name@ == page_name(file_name@),
{
    if ends_with(file_name, ".md") {
        proof {
            reveal_strlit(".md");
        }
        let n: usize = file_name.unicode_len();
        join(file_name.substring_char(0, n - 3), ".html")
    } else {
        join(file_name, ".html")
    }
}

/// Compiles a link: the address is passed on as it is.
pub fn compile_link(link: &NewsfeedLink) -> (entry: CompiledNewsfeedEntry)
    ensures
        entry@ == link_entry(*link),
        entry.link@ == link.link@,
{
    CompiledNewsfeedEntry {
        title: link.common.title.clone(),
        author: link.common.author.clone(),
        order: link.common.order,
        link: link.link.clone(),
        kind: EntryKind::CommunityLink,
    }
}

/// Compiles a post whose text has been rendered to `body`: the entry
/// links to the page under `route_root`, and the page goes with it, to be
/// written once the run is known to be valid.
pub fn compile_post(post: &NewsfeedPost, route_root: &str, body: String) -> (r: (
    CompiledNewsfeedEntry,
    PostPage,
))
    ensures
        r.0@ == post_entry(*post, route_root@),
        r.1@ == post_page(*post, body@),
{
    let name = page_file_name(post.file_name.as_str());
    let entry = CompiledNewsfeedEntry {
        title: post.common.title.clone(),
        author: post.common.author.clone(),
        order: post.common.order,
        link: join(route_root, name.as_str()),
        kind: EntryKind::HostedPost,
    };
    let page = PostPage { file_name: name, title: post.common.title.clone(), body };
    (entry, page)
}

/// `c` is what the newsfeed compiles to, with `sources` the markdown
/// texts of the posts: the links in their order, then the posts in
/// theirs, and for each post its page with the text rendered.
pub open spec fn compiles_to(
    feed: Newsfeed,
    route_root: Seq<char>,
    sources: Seq<String>,
    c: CompiledNewsfeed,
) -> bool {
    &&& sources.len() == feed.posts@.len()
    &&& c.entries@.len() == feed.links@.len() + feed.posts@.len()
    &&& c.pages@.len() == feed.posts@.len()
    &&& forall|i: int|
        0 <= i < feed.links@.len() ==> (#[trigger] c.entries@[i])@ == link_entry(feed.links@[i])
    &&& forall|i: int|
        0 <= i < feed.posts@.len() ==> (#[trigger] c.entries@[feed.links@.len() + i])@
            == post_entry(feed.posts@[i], route_root)
    &&& forall|i: int|
        0 <= i < feed.posts@.len() ==> (#[trigger] c.pages@[i])@ == post_page(
            feed.posts@[i],
            rendered_markdown(sources[i]@),
        )
}

/// Compiles the newsfeed. `sources` holds the markdown text of each post,
/// in the order of the posts; a list of another length is refused. The
/// entries come out in the order of the declaration, the links before the
/// posts, and each post has its page, with the text rendered to HTML.
pub fn compile_newsfeed(feed: &Newsfeed, route_root: &str, sources: &Vec<String>) -> (r: Result<
    CompiledNewsfeed,
    FatalError,
>)
    ensures
        match r {
            Ok(c) => compiles_to(*feed, route_root@, sources@, c),
            Err(e) => e == FatalError::PostSourcesMismatch && sources@.len() != feed.posts@.len(),
        },
{
    if sources.len() != feed.posts.len() {
        return Err(FatalError::PostSourcesMismatch);
    }
    let mut entries: Vec<CompiledNewsfeedEntry> = Vec::new();
    let mut pages: Vec<PostPage> = Vec::new();
    let mut i: usize = 0;
    while i < feed.links.len()
        invariant
            i <= feed.links@.len(),
            entries@.len() == i,
            forall|j: int| 0 <= j < i ==> (#[trigger] entries@[j])@ == link_entry(feed.links@[j]),
        decreases feed.links@.len() - i,
    {
        entries.push(compile_link(&feed.links[i]));
        i = i + 1;
    }
    let links: usize = feed.links.len();
    let mut k: usize = 0;
    while k < feed.posts.len()
        invariant
            k <= feed.posts@.len(),
            links == feed.links@.len(),
            sources@.len() == feed.posts@.len(),
            entries@.len() == links + k,
            pages@.len() == k,
            forall|j: int| 0 <= j < links ==> (#[trigger] entries@[j])@ == link_entry(feed.links@[j]),
            forall|j: int|
                0 <= j < k ==> (#[trigger] entries@[links + j])@ == post_entry(
                    feed.posts@[j],
                    route_root@,
                ),
            forall|j: int|
                0 <= j < k ==> (#[trigger] pages@[j])@ == post_page(
                    feed.posts@[j],
                    rendered_markdown(sources@[j]@),
                ),
        decreases feed.posts@.len() - k,
    {
        let body = markdown_to_html(sources[k].as_str());
        let (entry, page) = compile_post(&feed.posts[k], route_root, body);
        entries.push(entry);
        pages.push(page);
        k = k + 1;
    }
    Ok(CompiledNewsfeed { entries, pages })
}

/// A post named with the markdown extension is served as a page of the
/// same name with the extension of a page, under the route root.
pub proof fn law_post_link(post: NewsfeedPost, route_root: Seq<char>, stem: Seq<char>)
    requires
        post.file_name@ == stem + ".md"@,
    ensures
        post_entry(post, route_root).link == route_root + stem + ".html"@,
        has_suffix(post_entry(post, route_root).link, stem + ".html"@),
{
    let name = post.file_name@;
    let ext = ".md"@;
    assert(name.subrange(name.len() - ext.len(), name.len() as int) =~= ext);
    assert(name.subrange(0, name.len() - ext.len()) =~= stem);
    let link = route_root + (stem + ".html"@);
    assert(link =~= route_root + stem + ".html"@);
    assert(link.subrange(link.len() - (stem + ".html"@).len(), link.len() as int) =~= stem
        + ".html"@);
}

} // verus!
