//! The paged directory listing conversation with the NameNode.
//!
//! The listing of a directory comes in pages. The first request asks for the entries
//! from the beginning; each reply holds a page of entries and the number of entries
//! that remain after it; while some remain, the next request asks for the entries
//! after the last name received.

use vstd::prelude::*;
use crate::error::HdfsError;
use crate::messages::{
    DirectoryListing, FileStatus, GetListingRequest, GetListingRequestView, GetListingResponse,
    NameNodeRequest, NameNodeResponse, Request, RequestView, Response,
};

verus! {

/// State of the listing of one directory.
#[derive(Debug)]
pub struct GetListingState {
    pub source: String,
    pub need_location: bool,
}

/// The request for the entries of `src` after `start_after`.
pub open spec fn listing_request(src: Seq<char>, need_location: bool, start_after: Seq<u8>) -> GetListingRequestView {
    GetListingRequestView { src, start_after, need_location }
}

/// The first request of a listing: the entries of `src` from the beginning.
pub open spec fn first_listing_request(src: Seq<char>, need_location: bool) -> GetListingRequestView {
    listing_request(src, need_location, Seq::empty())
}

/// The name after which the page that follows `page` starts: the last entry's name,
/// or the empty name where the page is empty.
pub open spec fn resume_point(page: Seq<FileStatus>) -> Seq<u8> {
    if page.len() > 0 {
        page.last().path@
    } else {
        Seq::empty()
    }
}

/// The request that follows a page with `remaining` entries after it, if any.
pub open spec fn next_listing_request(
    src: Seq<char>,
    need_location: bool,
    page: Seq<FileStatus>,
    remaining: u32,
) -> Option<GetListingRequestView> {
    if remaining == 0 {
        None
    } else {
        Some(listing_request(src, need_location, resume_point(page)))
    }
}

/// The request that `next` sends after a reply, viewed.
pub open spec fn request_option_view(r: Option<Request>) -> Option<RequestView> {
    match r {
        Some(q) => Some(q@),
        None => None,
    }
}

impl GetListingState {
    pub fn new(source: String, need_location: bool) -> (r: GetListingState)
        ensures
            r.source == source,
            r.need_location == need_location,
    {
        GetListingState { source, need_location }
    }

    /// The request for the entries after `start`.
    pub fn q(&self, start: Vec<u8>) -> (r: GetListingRequest)
        ensures
            r@ == listing_request(self.source@, self.need_location, start@),
    {
        GetListingRequest { src: self.source.clone(), start_after: start, need_location: self.need_location }
    }

    /// The request for the first page.
    pub fn s(&mut self) -> (r: GetListingRequest)
        ensures
            *final(self) == *old(self),
            r@ == first_listing_request(old(self).source@, old(self).need_location),
    {
        let v: Vec<u8> = Vec::new();
        self.q(v)
    }

    /// The entries of a reply, and the request for the next page where entries remain.
    pub fn n(&mut self, nr: GetListingResponse) -> (r: (Vec<FileStatus>, Option<GetListingRequest>))
        ensures
            *final(self) == *old(self),
            r.0 == nr.dir_list.partial_listing,
            match r.1 {
                Some(q) => next_listing_request(
                    old(self).source@,
                    old(self).need_location,
                    nr.dir_list.partial_listing@,
                    nr.dir_list.remaining_entries,
                ) == Some(q@),
                None => next_listing_request(
                    old(self).source@,
                    old(self).need_location,
                    nr.dir_list.partial_listing@,
                    nr.dir_list.remaining_entries,
                ) is None,
            },
    {
        let DirectoryListing { partial_listing: fs, remaining_entries } = nr.dir_list;
        if remaining_entries == 0 {
            (fs, None)
        } else {
            let last_filename = if fs.len() > 0 {
                let p = fs[fs.len() - 1].path.clone();
                assert(p@ =~= fs@[fs.len() - 1].path@);
                p
            } else {
                Vec::new()
            };
            assert(last_filename@ == resume_point(fs@));
            let q = self.q(last_filename);
            (fs, Some(q))
        }
    }

    /// The first request of the conversation.
    pub fn start(&mut self) -> (r: Request)
        ensures
            *final(self) == *old(self),
            r@ == RequestView::GetListing(first_listing_request(old(self).source@, old(self).need_location)),
    {
        Request::NameNode(NameNodeRequest::GetListing(self.s()))
    }

    /// Handles a reply: a listing page gives its entries and the next request, if
    /// entries remain; any other reply is an error.
    pub fn next(&mut self, nr: Response) -> (r: Result<(Vec<FileStatus>, Option<Request>), HdfsError>)
        ensures
            *final(self) == *old(self),
            match nr {
                Response::NameNode(NameNodeResponse::GetListing(glrp)) => {
                    &&& r is Ok
                    &&& r->Ok_0.0 == glrp.dir_list.partial_listing
                    &&& request_option_view(r->Ok_0.1) == match next_listing_request(
                        old(self).source@,
                        old(self).need_location,
                        glrp.dir_list.partial_listing@,
                        glrp.dir_list.remaining_entries,
                    ) {
                        Some(q) => Some(RequestView::GetListing(q)),
                        None => None,
                    }
                },
                _ => r == Err::<(Vec<FileStatus>, Option<Request>), HdfsError>(HdfsError::UnexpectedResponse(nr)),
            },
    {
        match nr {
            Response::NameNode(NameNodeResponse::GetListing(glrp)) => {
                let (a, ob) = self.n(glrp);
                let next = match ob {
                    Some(n) => Some(Request::NameNode(NameNodeRequest::GetListing(n))),
                    None => None,
                };
                Ok((a, next))
            },
            other => Err(HdfsError::UnexpectedResponse(other)),
        }
    }
}

/// A listing conversation for the directory `source`.
pub fn get_listing(source: String, need_location: bool) -> (r: GetListingState)
    ensures
        r.source == source,
        r.need_location == need_location,
{
    GetListingState::new(source, need_location)
}

/// The requests that a listing conversation sends and the pages it yields, given the
/// replies to its requests in order (each a page and the number of entries remaining
/// after it), starting with a request for the entries after `start_after`. The
/// conversation ends with the first reply that leaves no entry remaining.
pub open spec fn listing_run(
    src: Seq<char>,
    need_location: bool,
    start_after: Seq<u8>,
    replies: Seq<(Seq<FileStatus>, u32)>,
) -> (Seq<GetListingRequestView>, Seq<Seq<FileStatus>>)
    decreases replies.len(),
{
    let q = listing_request(src, need_location, start_after);
    if replies.len() == 0 {
        (seq![q], Seq::empty())
    } else {
        match next_listing_request(src, need_location, replies[0].0, replies[0].1) {
            None => (seq![q], seq![replies[0].0]),
            Some(q2) => {
                let (qs, ps) = listing_run(src, need_location, q2.start_after, replies.drop_first());
                (seq![q] + qs, seq![replies[0].0] + ps)
            },
        }
    }
}

proof fn lemma_listing_run(
    src: Seq<char>,
    need_location: bool,
    start_after: Seq<u8>,
    replies: Seq<(Seq<FileStatus>, u32)>,
)
    requires
        replies.len() >= 1,
        forall|k: int| 0 <= k < replies.len() - 1 ==> (#[trigger] replies[k]).1 != 0,
        replies.last().1 == 0,
    ensures
        listing_run(src, need_location, start_after, replies).0.len() == replies.len(),
        listing_run(src, need_location, start_after, replies).1 == replies.map_values(|r: (Seq<FileStatus>, u32)| r.0),
        listing_run(src, need_location, start_after, replies).0[0].start_after == start_after,
        forall|k: int| 0 <= k < replies.len() ==> {
            &&& (#[trigger] listing_run(src, need_location, start_after, replies).0[k]).src == src
            &&& listing_run(src, need_location, start_after, replies).0[k].need_location == need_location
        },
        forall|k: int| 0 <= k < replies.len() - 1 ==> (#[trigger] listing_run(src, need_location, start_after, replies).0[k
            + 1]).start_after == resume_point(replies[k].0),
    decreases replies.len(),
{
    let (qs, ps) = listing_run(src, need_location, start_after, replies);
    if replies.len() == 1 {
        assert(ps =~= replies.map_values(|r: (Seq<FileStatus>, u32)| r.0));
    } else {
        assert(replies[0].1 != 0);
        let rest = replies.drop_first();
        assert forall|k: int| 0 <= k < rest.len() - 1 implies (#[trigger] rest[k]).1 != 0 by {
            assert(rest[k] == replies[k + 1]);
        }
        let next = resume_point(replies[0].0);
        lemma_listing_run(src, need_location, next, rest);
        let (qs2, ps2) = listing_run(src, need_location, next, rest);
        assert(qs == seq![listing_request(src, need_location, start_after)] + qs2);
        assert(ps =~= replies.map_values(|r: (Seq<FileStatus>, u32)| r.0)) by {
            assert(ps == seq![replies[0].0] + ps2);
            assert forall|k: int| 0 <= k < ps.len() implies ps[k] == replies[k].0 by {
                if k > 0 {
                    assert(ps[k] == ps2[k - 1]);
                    assert(rest[k - 1] == replies[k]);
                }
            }
        }
        assert forall|k: int| 0 <= k < replies.len() implies {
            &&& (#[trigger] qs[k]).src == src
            &&& qs[k].need_location == need_location
        } by {
            if k > 0 {
                assert(qs[k] == qs2[k - 1]);
            }
        }
        assert forall|k: int| 0 <= k < replies.len() - 1 implies (#[trigger] qs[k + 1]).start_after == resume_point(
            replies[k].0,
        ) by {
            assert(qs[k + 1] == qs2[k]);
            if k > 0 {
                assert(rest[k - 1] == replies[k]);
            }
        }
    }
}

/// Law: when the NameNode answers the requests of a listing with pages of which all
/// but the last leave entries remaining, the conversation sends one request per page,
/// all for the same directory and flag; the first asks for the entries from the
/// beginning and each next one for the entries after the last name of the page before;
/// it yields the pages in order and ends after the last.
pub proof fn lemma_paged_listing(src: Seq<char>, need_location: bool, replies: Seq<(Seq<FileStatus>, u32)>)
    requires
        replies.len() >= 1,
        forall|k: int| 0 <= k < replies.len() - 1 ==> (#[trigger] replies[k]).1 != 0,
        replies.last().1 == 0,
    ensures
        listing_run(src, need_location, Seq::empty(), replies).0.len() == replies.len(),
        listing_run(src, need_location, Seq::empty(), replies).1 == replies.map_values(|r: (Seq<FileStatus>, u32)| r.0),
        listing_run(src, need_location, Seq::empty(), replies).0[0].start_after == Seq::<u8>::empty(),
        forall|k: int| 0 <= k < replies.len() ==> {
            &&& (#[trigger] listing_run(src, need_location, Seq::empty(), replies).0[k]).src == src
            &&& listing_run(src, need_location, Seq::empty(), replies).0[k].need_location == need_location
        },
        forall|k: int| 0 <= k < replies.len() - 1 ==> (#[trigger] listing_run(src, need_location, Seq::empty(), replies).0[k
            + 1]).start_after == resume_point(replies[k].0),
        forall|k: int| 0 <= k < replies.len() - 1 && replies[k].0.len() > 0 ==> (#[trigger] listing_run(
            src,
            need_location,
            Seq::empty(),
            replies,
        ).0[k + 1]).start_after == replies[k].0[replies[k].0.len() - 1].path@,
{
    lemma_listing_run(src, need_location, Seq::empty(), replies);
}

/// Law: a page with no entry remaining after it ends the listing; otherwise the next
/// request asks for the same directory, with the same flag, for the entries after the
/// page's last entry's name (after the empty name where the page is empty).
pub proof fn lemma_listing_resumes_after_last_entry(
    src: Seq<char>,
    need_location: bool,
    page: Seq<FileStatus>,
    remaining: u32,
)
    ensures
        remaining == 0 <==> next_listing_request(src, need_location, page, remaining) is None,
        remaining != 0 && page.len() > 0 ==> next_listing_request(src, need_location, page, remaining) == Some(
            GetListingRequestView { src, start_after: page[page.len() - 1].path@, need_location },
        ),
        remaining != 0 && page.len() == 0 ==> next_listing_request(src, need_location, page, remaining) == Some(
            GetListingRequestView { src, start_after: Seq::empty(), need_location },
        ),
{
}

/// Law: a listing starts by asking for the entries of the directory from the
/// beginning (after the empty name), with the flag it was made with.
pub proof fn lemma_listing_starts_at_beginning(src: Seq<char>, need_location: bool)
    ensures
        first_listing_request(src, need_location) == (GetListingRequestView {
            src,
            start_after: Seq::empty(),
            need_location,
        }),
        listing_request(src, need_location, Seq::empty()) == first_listing_request(src, need_location),
{
}

} // verus!
