use rhdfs::error::HdfsError;
use rhdfs::listing::{get_listing, GetListingState};
use rhdfs::messages::{
    DirectoryListing, FileStatus, FileType, GetListingResponse, NameNodeRequest, NameNodeResponse, Request, Response,
};

fn dir(name: &str, owner: &str, group: &str, permission: u32) -> FileStatus {
    FileStatus {
        file_type: FileType::Dir,
        path: name.as_bytes().to_vec(),
        length: 0,
        owner: owner.to_owned(),
        group: group.to_owned(),
        permission,
        modification_time: 0,
    }
}

fn listing_reply(entries: Vec<FileStatus>, remaining_entries: u32) -> Response {
    Response::NameNode(NameNodeResponse::GetListing(GetListingResponse {
        dir_list: DirectoryListing { partial_listing: entries, remaining_entries },
    }))
}

fn listing_request_of(q: &Request) -> (String, Vec<u8>, bool) {
    match q {
        Request::NameNode(NameNodeRequest::GetListing(r)) => (r.src.clone(), r.start_after.clone(), r.need_location),
        other => panic!("not a listing request: {:?}", other),
    }
}

/// The root directory of a test cluster lists in one page.
#[test]
fn test_get_listing_() {
    let mut gls = get_listing("/".to_owned(), false);
    let first = gls.start();
    assert_eq!(listing_request_of(&first), ("/".to_owned(), vec![], false));

    let reply = listing_reply(
        vec![
            dir("benchmarks", "hdfs", "supergroup", 0o777),
            dir("hbase", "hbase", "supergroup", 0o755),
            dir("solr", "solr", "solr", 0o755),
            dir("tmp", "hdfs", "supergroup", 0o1777),
            dir("user", "hdfs", "supergroup", 0o755),
            dir("var", "hdfs", "supergroup", 0o755),
        ],
        0,
    );
    let (result, next) = gls.next(reply).expect("gls.wait()");
    assert!(next.is_none());
    let y: Vec<String> = result.iter().map(|fs| String::from_utf8_lossy(&fs.path).into_owned()).collect();
    let z: Vec<String> = ["benchmarks", "hbase", "solr", "tmp", "user", "var"].iter().map(|x| x.to_string()).collect();
    assert_eq!(y, z);
}

#[test]
fn listing_resumes_after_last_entry() {
    let mut st = GetListingState::new("/user".to_owned(), true);
    let (page, next) = st.next(listing_reply(vec![dir("a", "u", "g", 0o755), dir("bb", "u", "g", 0o755)], 7)).unwrap();
    assert_eq!(page.len(), 2);
    let next = next.expect("entries remain");
    assert_eq!(listing_request_of(&next), ("/user".to_owned(), b"bb".to_vec(), true));
}

#[test]
fn listing_empty_page_with_remaining_restarts_from_empty_name() {
    let mut st = GetListingState::new("/x".to_owned(), false);
    let (page, next) = st.next(listing_reply(vec![], 1)).unwrap();
    assert!(page.is_empty());
    assert_eq!(listing_request_of(&next.unwrap()), ("/x".to_owned(), vec![], false));
}

#[test]
fn listing_ends_when_nothing_remains() {
    let mut st = GetListingState::new("/x".to_owned(), false);
    let (page, next) = st.next(listing_reply(vec![dir("only", "u", "g", 0o700)], 0)).unwrap();
    assert_eq!(page[0].path, b"only".to_vec());
    assert_eq!(page[0].permission, 0o700);
    assert!(next.is_none());
}

#[test]
fn listing_rejects_other_replies() {
    let mut st = GetListingState::new("/x".to_owned(), false);
    match st.next(Response::Other("ack".to_owned())) {
        Err(HdfsError::UnexpectedResponse(Response::Other(s))) => assert_eq!(s, "ack"),
        other => panic!("unexpected: {:?}", other),
    }
    match st.next(Response::Data(bytes::Bytes::from(vec![1u8, 2]))) {
        Err(HdfsError::UnexpectedResponse(Response::Data(b))) => assert_eq!(&b[..], &[1u8, 2][..]),
        other => panic!("unexpected: {:?}", other),
    }
}

#[test]
fn listing_request_builders() {
    let mut st = GetListingState::new("/d".to_owned(), true);
    let q = st.q(b"zz".to_vec());
    assert_eq!((q.src.as_str(), q.start_after.as_slice(), q.need_location), ("/d", &b"zz"[..], true));
    let s = st.s();
    assert_eq!((s.src.as_str(), s.start_after.len(), s.need_location), ("/d", 0, true));
    let resp = GetListingResponse {
        dir_list: DirectoryListing { partial_listing: vec![dir("k", "u", "g", 0o755)], remaining_entries: 2 },
    };
    let (fs, q2) = st.n(resp);
    assert_eq!(fs.len(), 1);
    assert_eq!(q2.unwrap().start_after, b"k".to_vec());
}

#[test]
fn paged_listing_resumes_after_each_page_in_order() {
    let mut st = get_listing("/big".to_owned(), false);
    let mut requests = vec![listing_request_of(&st.start())];
    let replies = vec![
        listing_reply(vec![dir("a", "u", "g", 0o755), dir("b", "u", "g", 0o755)], 3),
        listing_reply(vec![dir("c", "u", "g", 0o755), dir("d", "u", "g", 0o755)], 1),
        listing_reply(vec![dir("e", "u", "g", 0o755)], 0),
    ];
    let mut names = Vec::new();
    let mut ended = false;
    for r in replies {
        assert!(!ended);
        let (page, next) = st.next(r).unwrap();
        names.extend(page.into_iter().map(|f| String::from_utf8(f.path).unwrap()));
        match next {
            Some(q) => requests.push(listing_request_of(&q)),
            None => ended = true,
        }
    }
    assert!(ended);
    assert_eq!(names, vec!["a", "b", "c", "d", "e"]);
    assert_eq!(
        requests,
        vec![
            ("/big".to_owned(), vec![], false),
            ("/big".to_owned(), b"b".to_vec(), false),
            ("/big".to_owned(), b"d".to_vec(), false),
        ]
    );
}
