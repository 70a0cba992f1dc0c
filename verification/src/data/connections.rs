//! Requests to the API, and the fetch that follows a paged resource from
//! page to page.
//!
//! Nothing here sends a request. A fetch says which request comes next; the
//! caller sends it and hands back what the server answered.

use crate::data::config::Config;
use crate::data::error::{ErrorKind, SyncError, SyncErrorView};
use vstd::prelude::*;
use vstd::string::StringExecFns;

verus! {

/// Declares `regex::Error`, which `regex::Regex::new` returns for a pattern
/// that it does not compile. Nothing is claimed of what it holds.
#[verifier::external_type_specification]
#[verifier::external_body]
pub struct ExRegexError(regex::Error);

/// Whether `regex::Regex::new` compiles the pattern.
pub uninterp spec fn regex_accepts(pattern: Seq<char>) -> bool;

/// What `regex::Regex::captures` reports for the capture group with the
/// given number, where the compiled pattern is searched in `text`: the part
/// of the text that the group matched in the leftmost match, or `None` where
/// the pattern matches nowhere or the group took no part in the match.
pub uninterp spec fn regex_group(pattern: Seq<char>, text: Seq<char>, group: nat) -> Option<
    Seq<char>,
>;

/// The view of a text that may be missing.
pub open spec fn text_view(text: Option<String>) -> Option<Seq<char>> {
    match text {
        Some(t) => Some(t@),
        None => None,
    }
}

/// Compiles `pattern` with `regex::Regex::new`, searches `text` with
/// `regex::Regex::captures`, and copies out what the capture group `group`
/// matched. The contract claims only that the outcome is a function of the
/// arguments: an error if and only if the crate rejects the pattern, else
/// the text of the group as the crate found it.
#[verifier::external_body]
fn capture_group(pattern: &str, text: &str, group: usize) -> (found: Result<
    Option<String>,
    regex::Error,
>)
    ensures
        (found is Ok) == regex_accepts(pattern@),
        found matches Ok(part) ==> text_view(part) == regex_group(pattern@, text@, group as nat),
{
    match regex::Regex::new(pattern) {
        Ok(compiled) => Ok(
            compiled.captures(text).and_then(|groups| groups.get(group)).map(
                |part| part.as_str().to_owned(),
            ),
        ),
        Err(e) => Err(e),
    }
}

/// A request: the URL to get, and the value of its `Authorization` header.
#[derive(Debug)]
pub struct Request {
    pub url: String,
    pub authorization: String,
}

/// The mathematical value of a [`Request`].
pub struct RequestView {
    pub url: Seq<char>,
    pub authorization: Seq<char>,
}

impl View for Request {
    type V = RequestView;

    open spec fn view(&self) -> RequestView {
        RequestView { url: self.url@, authorization: self.authorization@ }
    }
}

/// The URL of a resource: the server, a slash, the resource, and the page
/// size that is asked for.
pub open spec fn resource_url(server: Seq<char>, resource: Seq<char>, page_size: Seq<char>) -> Seq<
    char,
> {
    server + seq!['/'] + resource + "&per_page="@ + page_size
}

/// The value of the `Authorization` header: the bearer token.
pub open spec fn bearer(token: Seq<char>) -> Seq<char> {
    "Bearer "@ + token
}

/// The first request of a paged fetch: pages of 100 records.
pub open spec fn paged_request(config: Config, resource: Seq<char>) -> RequestView {
    RequestView {
        url: resource_url(config.general.server@, resource, "100"@),
        authorization: bearer(config.general.token@),
    }
}

/// The request for a single record.
pub open spec fn single_request(config: Config, resource: Seq<char>) -> RequestView {
    RequestView {
        url: resource_url(config.general.server@, resource, "200"@),
        authorization: bearer(config.general.token@),
    }
}

/// The request for `resource` with the given page size.
fn request_for(config: &Config, resource: &str, page_size: &str) -> (request: Request)
    ensures
        request@ == (RequestView {
            url: resource_url(config.general.server@, resource@, page_size@),
            authorization: bearer(config.general.token@),
        }),
{
    proof {
        reveal_strlit("/");
    }
    let mut url = config.general.server.clone();
    url.append("/");
    url.append(resource);
    url.append("&per_page=");
    url.append(page_size);
    let mut authorization = String::from_str("Bearer ");
    authorization.append(config.general.token.as_str());
    assert(url@ =~= resource_url(config.general.server@, resource@, page_size@));
    Request { url, authorization }
}

/// Where a fetch failed.
#[derive(Clone, Copy, Debug, PartialEq, Eq, Structural)]
pub enum FetchStage {
    /// The request could not be sent.
    Send,
    /// The body of the response could not be read.
    Read,
    /// The body does not hold what was expected.
    Decode,
    /// The pagination metadata cannot be read.
    Header,
}

/// The kind of error that a failure at the given stage is.
pub open spec fn stage_kind(stage: FetchStage) -> ErrorKind {
    match stage {
        FetchStage::Send => ErrorKind::Network,
        FetchStage::Read => ErrorKind::Network,
        FetchStage::Decode => ErrorKind::Decode,
        FetchStage::Header => ErrorKind::Header,
    }
}

/// The tag of a failure at the given stage.
pub open spec fn stage_context(stage: FetchStage) -> Seq<char> {
    match stage {
        FetchStage::Send => "API Request Failure"@,
        FetchStage::Read => "API Response Parsing Failure"@,
        FetchStage::Decode => "API JSON Conversion Failure"@,
        FetchStage::Header => "API Header Parsing Failure"@,
    }
}

/// The error that reports a failed fetch: its tag names the stage and
/// carries the URL of the request.
pub open spec fn fetch_failure(stage: FetchStage, url: Seq<char>, cause: Seq<char>) -> SyncErrorView {
    SyncErrorView {
        kind: stage_kind(stage),
        context: stage_context(stage) + seq!['\n'] + url,
        cause,
    }
}

/// The error that reports a failed fetch.
pub fn fetch_error(stage: FetchStage, url: &str, cause: &str) -> (error: SyncError)
    ensures
        error@ == fetch_failure(stage, url@, cause@),
{
    match stage {
        FetchStage::Send => SyncError::for_url(
            ErrorKind::Network,
            "API Request Failure",
            url,
            cause,
        ),
        FetchStage::Read => SyncError::for_url(
            ErrorKind::Network,
            "API Response Parsing Failure",
            url,
            cause,
        ),
        FetchStage::Decode => SyncError::for_url(
            ErrorKind::Decode,
            "API JSON Conversion Failure",
            url,
            cause,
        ),
        FetchStage::Header => SyncError::for_url(
            ErrorKind::Header,
            "API Header Parsing Failure",
            url,
            cause,
        ),
    }
}

/// The request for a single record. There is no pagination: the one
/// response holds the record.
pub fn json_api_get_single(config: &Config, rel_url: &str) -> (request: Request)
    ensures
        request@ == single_request(*config, rel_url@),
{
    request_for(config, rel_url, "200")
}

/// The link metadata of a response.
#[derive(Debug)]
pub enum LinkHeader {
    /// The response has no link header.
    Absent,
    /// The response has a link header that is no text; with the reason.
    Unreadable(String),
    /// The value of the link header: entries of the form
    /// `<url>; rel="name"`, separated by commas.
    Text(String),
}

/// Where a fetch goes after a page.
#[derive(Debug)]
pub enum NextPage {
    /// To the page at this URL.
    More(String),
    /// Nowhere: this was the last page.
    End,
    /// Nowhere: the link metadata cannot be read; with the reason.
    Malformed(String),
}

/// The mathematical value of a [`NextPage`].
pub enum NextPageView {
    More(Seq<char>),
    End,
    Malformed(Seq<char>),
}

impl View for NextPage {
    type V = NextPageView;

    open spec fn view(&self) -> NextPageView {
        match *self {
            NextPage::More(url) => NextPageView::More(url@),
            NextPage::End => NextPageView::End,
            NextPage::Malformed(cause) => NextPageView::Malformed(cause@),
        }
    }
}

/// The pattern of the entry that links to the next page. Its first group is
/// the URL between the angle brackets.
pub open spec fn next_link_pattern() -> Seq<char> {
    "<([^<]+)>; rel=\"next\""@
}

/// What is reported where the pattern is rejected.
pub open spec fn pattern_rejected() -> Seq<char> {
    "the pattern of the next link was rejected"@
}

/// Where a fetch goes after a page whose link header has the given value:
/// to the URL of the entry with the relation `next`, if the header has such
/// an entry.
pub open spec fn next_link(links: Seq<char>) -> NextPageView {
    if !regex_accepts(next_link_pattern()) {
        NextPageView::Malformed(pattern_rejected())
    } else {
        match regex_group(next_link_pattern(), links, 1) {
            Some(url) => NextPageView::More(url),
            None => NextPageView::End,
        }
    }
}

/// Where a fetch goes after a page with the given link metadata. A page
/// without a link header is the last one, and so is one whose link header
/// has no entry with the relation `next`.
pub open spec fn next_page_of(link: LinkHeader) -> NextPageView {
    match link {
        LinkHeader::Absent => NextPageView::End,
        LinkHeader::Unreadable(cause) => NextPageView::Malformed(cause@),
        LinkHeader::Text(links) => next_link(links@),
    }
}

/// Where a fetch goes after a page with the given link metadata.
pub fn next_page(link: &LinkHeader) -> (next: NextPage)
    ensures
        next@ == next_page_of(*link),
{
    match link {
        LinkHeader::Absent => NextPage::End,
        LinkHeader::Unreadable(cause) => NextPage::Malformed(cause.clone()),
        LinkHeader::Text(links) => {
            match capture_group("<([^<]+)>; rel=\"next\"", links.as_str(), 1) {
                Ok(Some(url)) => NextPage::More(url),
                Ok(None) => NextPage::End,
                Err(_) => NextPage::Malformed(
                    String::from_str("the pattern of the next link was rejected"),
                ),
            }
        },
    }
}

/// What the caller hands back for a request of a paged fetch.
#[derive(Debug)]
pub enum PageResponse<T> {
    /// The fetch failed at this stage, for this reason.
    Failed(FetchStage, String),
    /// The records of the page, decoded, and its link metadata.
    Page(Vec<T>, LinkHeader),
}

/// How far a fetch is.
pub enum FetchStatus {
    /// A request is to be sent.
    Active,
    /// The last page has been received.
    Done,
    /// The fetch failed.
    Failed(SyncErrorView),
}

/// The mathematical state of a paged fetch.
pub struct FetchView<T> {
    /// The URL of the page that is fetched next or was fetched last.
    pub url: Seq<char>,
    pub authorization: Seq<char>,
    /// The records of the pages received so far, in order.
    pub records: Seq<T>,
    pub status: FetchStatus,
}

/// One page as a fetch sees it: its records, and where its links lead.
pub struct PageView<T> {
    pub records: Seq<T>,
    pub next: NextPageView,
}

/// The records of the pages, one page after the other.
pub open spec fn all_records<T>(pages: Seq<PageView<T>>) -> Seq<T>
    decreases pages.len(),
{
    if pages.len() == 0 {
        Seq::empty()
    } else {
        all_records(pages.drop_last()) + pages.last().records
    }
}

impl<T> FetchView<T> {
    /// The state before the first request.
    pub open spec fn start(request: RequestView) -> FetchView<T> {
        FetchView {
            url: request.url,
            authorization: request.authorization,
            records: Seq::empty(),
            status: FetchStatus::Active,
        }
    }

    /// The request that is to be sent in this state, if one is.
    pub open spec fn request(self) -> Option<RequestView> {
        if self.status is Active {
            Some(RequestView { url: self.url, authorization: self.authorization })
        } else {
            None
        }
    }

    /// The state after the fetch failed at the given stage. A fetch that is
    /// over stays as it is.
    pub open spec fn fail(self, stage: FetchStage, cause: Seq<char>) -> FetchView<T> {
        if self.status is Active {
            FetchView { status: FetchStatus::Failed(fetch_failure(stage, self.url, cause)), ..self }
        } else {
            self
        }
    }

    /// The state after a page was received whose links lead to `next`: the
    /// records of the page are appended, and the fetch goes on at the next
    /// URL, ends, or fails with a header error for the URL of this page. A
    /// fetch that is over stays as it is.
    pub open spec fn advance(self, records: Seq<T>, next: NextPageView) -> FetchView<T> {
        if self.status is Active {
            match next {
                NextPageView::More(url) => FetchView {
                    url,
                    records: self.records + records,
                    ..self
                },
                NextPageView::End => FetchView {
                    records: self.records + records,
                    status: FetchStatus::Done,
                    ..self
                },
                NextPageView::Malformed(cause) => FetchView {
                    records: self.records + records,
                    status: FetchStatus::Failed(
                        fetch_failure(FetchStage::Header, self.url, cause),
                    ),
                    ..self
                },
            }
        } else {
            self
        }
    }

    /// The state after a response.
    pub open spec fn receive(self, response: PageResponse<T>) -> FetchView<T> {
        match response {
            PageResponse::Failed(stage, cause) => self.fail(stage, cause@),
            PageResponse::Page(records, link) => self.advance(records@, next_page_of(link)),
        }
    }

    /// The state after the given pages were received one after the other.
    pub open spec fn run(self, pages: Seq<PageView<T>>) -> FetchView<T>
        decreases pages.len(),
    {
        if pages.len() == 0 {
            self
        } else {
            self.run(pages.drop_last()).advance(pages.last().records, pages.last().next)
        }
    }
}

/// A paged fetch in progress.
pub struct PagedFetch<T> {
    url: String,
    authorization: String,
    records: Vec<T>,
    done: bool,
    failure: Option<SyncError>,
}

impl<T> View for PagedFetch<T> {
    type V = FetchView<T>;

    closed spec fn view(&self) -> FetchView<T> {
        FetchView {
            url: self.url@,
            authorization: self.authorization@,
            records: self.records@,
            status: match self.failure {
                Some(e) => FetchStatus::Failed(e@),
                None => if self.done {
                    FetchStatus::Done
                } else {
                    FetchStatus::Active
                },
            },
        }
    }
}

/// Starts the fetch of a paged resource. The fetch asks for pages of 100
/// records and follows the link to the next page until a page has none.
pub fn json_api_get<T>(config: &Config, rel_url: &str) -> (fetch: PagedFetch<T>)
    ensures
        fetch@ == FetchView::<T>::start(paged_request(*config, rel_url@)),
{
    let first = request_for(config, rel_url, "100");
    PagedFetch {
        url: first.url,
        authorization: first.authorization,
        records: Vec::new(),
        done: false,
        failure: None,
    }
}

impl<T> PagedFetch<T> {
    /// The request that is to be sent now, or `None` if the fetch is over.
    pub fn request(&self) -> (request: Option<Request>)
        ensures
            match request {
                Some(r) => self@.request() == Some(r@),
                None => self@.request() is None,
            },
    {
        if self.done || self.failure.is_some() {
            None
        } else {
            Some(Request { url: self.url.clone(), authorization: self.authorization.clone() })
        }
    }

    /// Records that the fetch failed at the given stage.
    pub fn fail(&mut self, stage: FetchStage, cause: &str)
        ensures
            final(self)@ == old(self)@.fail(stage, cause@),
    {
        if !self.done && self.failure.is_none() {
            self.failure = Some(fetch_error(stage, self.url.as_str(), cause));
        }
    }

    /// Takes in a page whose links lead to `next`.
    pub fn advance(&mut self, records: Vec<T>, next: NextPage)
        ensures
            final(self)@ == old(self)@.advance(records@, next@),
    {
        if self.done || self.failure.is_some() {
            return ;
        }
        let mut records = records;
        self.records.append(&mut records);
        match next {
            NextPage::More(url) => {
                self.url = url;
            },
            NextPage::End => {
                self.done = true;
            },
            NextPage::Malformed(cause) => {
                self.failure = Some(
                    fetch_error(FetchStage::Header, self.url.as_str(), cause.as_str()),
                );
            },
        }
    }

    /// Takes in what the server answered to the current request.
    pub fn receive(&mut self, response: PageResponse<T>)
        ensures
            final(self)@ == old(self)@.receive(response),
    {
        match response {
            PageResponse::Failed(stage, cause) => {
                self.fail(stage, cause.as_str());
            },
            PageResponse::Page(records, link) => {
                let next = next_page(&link);
                self.advance(records, next);
            },
        }
    }

    /// The result of the fetch: every record of every page in the order in
    /// which the server sent them, or the failure. `None` while the fetch is
    /// not over.
    pub fn finish(self) -> (result: Option<Result<Vec<T>, SyncError>>)
        ensures
            match self@.status {
                FetchStatus::Active => result is None,
                FetchStatus::Done => result matches Some(Ok(records)) && records@
                    == self@.records,
                FetchStatus::Failed(e) => result matches Some(Err(error)) && error@ == e,
            },
    {
        match self.failure {
            Some(e) => Some(Err(e)),
            None => if self.done {
                Some(Ok(self.records))
            } else {
                None
            },
        }
    }
}

/// What the state of a run looks like while every page links to a next one.
proof fn lemma_run_active<T>(start: FetchView<T>, pages: Seq<PageView<T>>)
    requires
        start.status is Active,
        forall|k: int| 0 <= k < pages.len() ==> (#[trigger] pages[k]).next is More,
    ensures
        start.run(pages).status is Active,
        start.run(pages).authorization == start.authorization,
        start.run(pages).records == start.records + all_records(pages),
        start.run(pages).url == if pages.len() == 0 {
            start.url
        } else {
            pages.last().next->More_0
        },
    decreases pages.len(),
{
    if pages.len() > 0 {
        let earlier = pages.drop_last();
        lemma_run_active(start, earlier);
    }
}

/// Pagination. Where each page but the last links to a next page and the
/// last links to none, a fetch that receives these pages sends one request
/// for each page and none after the last: the first to the URL of the
/// resource and each further one to the URL that the page before it named.
/// It ends with the records of all the pages in the order of the pages.
pub proof fn lemma_pagination<T>(start: FetchView<T>, pages: Seq<PageView<T>>)
    requires
        start.status is Active,
        start.records.len() == 0,
        pages.len() >= 1,
        forall|k: int| 0 <= k < pages.len() - 1 ==> (#[trigger] pages[k]).next is More,
        pages.last().next is End,
    ensures
        start.run(pages).status is Done,
        start.run(pages).request() is None,
        start.run(pages).records == all_records(pages),
        start.run(pages.take(0)).request() == start.request(),
        forall|k: int|
            1 <= k < pages.len() ==> (#[trigger] start.run(pages.take(k))).request() == Some(
                RequestView {
                    url: pages[k - 1].next->More_0,
                    authorization: start.authorization,
                },
            ),
{
    // Up to the last page the fetch goes from link to link.
    let earlier = pages.drop_last();
    lemma_run_active(start, earlier);
    assert forall|k: int| 1 <= k < pages.len() implies (#[trigger] start.run(
        pages.take(k),
    )).request() == Some(
        RequestView { url: pages[k - 1].next->More_0, authorization: start.authorization },
    ) by {
        let seen = pages.take(k);
        lemma_run_active(start, seen);
    }
}

/// Pagination ends with the first page that names no next page: a response
/// without a link header, or one whose link header has no entry with the
/// relation `next`. The records of that page are kept, no further request
/// is sent, and whatever is handed to the fetch after it changes nothing.
pub proof fn lemma_stops_without_next<T>(
    state: FetchView<T>,
    records: Vec<T>,
    link: LinkHeader,
    later: PageResponse<T>,
)
    requires
        state.status is Active,
        link is Absent || (link matches LinkHeader::Text(links) && regex_accepts(
            next_link_pattern(),
        ) && regex_group(next_link_pattern(), links@, 1) is None),
    ensures
        state.receive(PageResponse::Page(records, link)).status is Done,
        state.receive(PageResponse::Page(records, link)).request() is None,
        state.receive(PageResponse::Page(records, link)).records == state.records + records@,
        state.receive(PageResponse::Page(records, link)).receive(later) == state.receive(
            PageResponse::Page(records, link),
        ),
{
}

} // verus!
