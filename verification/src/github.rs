//! Releases on GitHub and the download of their assets.
//!
//! A download is streamed to its file and can be resumed: a file that is too short is
//! continued from where it ends, so that an interrupted download is not started over.

use vstd::prelude::*;
use crate::number;
use crate::number::decimal_text;
use crate::text;
use crate::text::{cat, cat3};

verus! {

/// A file of a release.
pub struct GithubAsset {
    pub name: String,
    pub size: u64,
    pub browser_download_url: String,
}

/// A release.
pub struct GithubRelease {
    pub tag_name: String,
    pub assets: Vec<GithubAsset>,
}

/// Why a download failed.
pub enum DownloadError {
    /// The server answered something else than the file.
    Http(String),
    /// The request itself failed.
    Request,
}

/// A request to a server.
pub struct HttpRequest {
    pub url: String,
    pub headers: Vec<(String, String)>,
}

/// The name that the launcher gives itself.
pub open spec fn user_agent() -> (Seq<char>, Seq<char>) {
    ("User-Agent"@, "ArmchairDevelopers/Maxima"@)
}

/// The address of the releases of a repository.
pub open spec fn releases_url(author: Seq<char>, repository: Seq<char>) -> Seq<char> {
    "https://api.github.com/repos/"@ + author + "/"@ + (repository + "/releases"@)
}

/// The request for what lies at an address.
pub fn plain_request(url: String) -> (r: HttpRequest)
    ensures
        r.url@ == url@,
        text::pair_views(r.headers@) == seq![user_agent()],
{
    let headers = vec![("User-Agent".to_owned(), "ArmchairDevelopers/Maxima".to_owned())];
    assert(text::pair_views(headers@) =~= seq![user_agent()]);
    HttpRequest { url, headers }
}

/// The request for the releases of a repository.
pub fn fetch_github_releases(author: &str, repository: &str) -> (r: HttpRequest)
    ensures
        r.url@ == releases_url(author@, repository@),
        text::pair_views(r.headers@) == seq![user_agent()],
{
    let head = cat3("https://api.github.com/repos/", author, "/");
    let tail = cat(repository, "/releases");
    plain_request(cat(head.as_str(), tail.as_str()))
}

/// The request for one release of a repository.
pub fn fetch_github_release(author: &str, repository: &str, version: &str) -> (r: HttpRequest)
    ensures
        r.url@ == releases_url(author@, repository@) + "/"@ + version@,
        text::pair_views(r.headers@) == seq![user_agent()],
{
    let all = fetch_github_releases(author, repository);
    plain_request(cat3(all.url.as_str(), "/", version))
}

/// The text that a server answered, where it answered as it should.
pub fn github_reply(status: u16, body: String) -> (r: Result<String, DownloadError>)
    ensures
        match r {
            Ok(b) => status == 200 && b == body,
            Err(DownloadError::Http(b)) => status != 200 && b == body,
            Err(_) => false,
        },
{
    if status != 200 {
        Err(DownloadError::Http(body))
    } else {
        Ok(body)
    }
}

/// The download that is running, if any: its label, how much of it is there, and its size.
pub struct DownloadProgress {
    pub current: Option<(String, u64, u64)>,
}

/// The running download with a text in place of the label.
pub open spec fn progress_view(p: Option<(String, u64, u64)>) -> Option<(Seq<char>, u64, u64)> {
    match p {
        Some((label, downloaded, total)) => Some((label@, downloaded, total)),
        None => None,
    }
}

/// Publishes how far a download is.
pub fn set_download_progress(p: &mut DownloadProgress, label: &str, downloaded: u64, total: u64)
    ensures
        progress_view(final(p).current) == Some((label@, downloaded, total)),
{
    p.current = Some((label.to_owned(), downloaded, total));
}

/// Publishes that no download is running.
pub fn clear_download_progress(p: &mut DownloadProgress)
    ensures
        final(p).current is None,
{
    p.current = None;
}

/// How far the running download is, if there is one.
pub fn download_progress(p: &DownloadProgress) -> (r: Option<(String, u64, u64)>)
    ensures
        progress_view(r) == progress_view(p.current),
{
    match &p.current {
        Some((label, downloaded, total)) => Some((label.clone(), *downloaded, *total)),
        None => None,
    }
}

/// Where a download begins.
#[derive(Clone, Copy, PartialEq, Eq, Structural, Debug)]
pub enum Resume {
    /// The file is there already.
    Complete,
    /// The file is there up to this byte.
    From(u64),
}

/// Where a download begins, from the size that the file should have (0 where it is not
/// known) and the size that it has. A file that is too long is not what was asked for, and
/// is downloaded again.
pub open spec fn resume_point(expected: u64, on_disk: u64) -> Resume {
    if expected > 0 && on_disk == expected {
        Resume::Complete
    } else if expected > 0 && on_disk > expected {
        Resume::From(0)
    } else {
        Resume::From(on_disk)
    }
}

/// Begins a download, from the size that the file has (`None` where there is none), and
/// publishes it unless the file is complete.
pub fn download_with_resume(
    p: &mut DownloadProgress,
    label: &str,
    expected: u64,
    on_disk: Option<u64>,
) -> (r: Resume)
    ensures
        r == resume_point(
            expected,
            match on_disk {
                Some(n) => n,
                None => 0,
            },
        ),
        match r {
            Resume::Complete => *final(p) == *old(p),
            Resume::From(start) => progress_view(final(p).current) == Some((label@, start, expected)),
        },
{
    let mut start: u64 = match on_disk {
        Some(n) => n,
        None => 0,
    };
    if expected > 0 && start >= expected {
        if start == expected {
            return Resume::Complete;
        }
        start = 0;
    }
    set_download_progress(p, label, start, expected);
    Resume::From(start)
}

/// The headers of the request for a file from a byte on.
pub open spec fn download_headers(start: u64) -> Seq<(Seq<char>, Seq<char>)> {
    if start > 0 {
        seq![user_agent(), ("Range"@, "bytes="@ + number::decimal(start as nat) + "-"@)]
    } else {
        seq![user_agent()]
    }
}

/// The request for an asset from a byte on.
pub fn github_download_asset(asset: &GithubAsset, start: u64) -> (r: HttpRequest)
    ensures
        r.url@ == asset.browser_download_url@,
        text::pair_views(r.headers@) == download_headers(start),
{
    let mut q = plain_request(asset.browser_download_url.clone());
    if start > 0 {
        let ghost before = q.headers@;
        let n = decimal_text(start);
        let range = cat3("bytes=", n.as_str(), "-");
        q.headers.push(("Range".to_owned(), range));
        assert(text::pair_views(q.headers@) =~= text::pair_views(before).push(
            ("Range"@, "bytes="@ + number::decimal(start as nat) + "-"@),
        ));
    }
    assert(text::pair_views(q.headers@) =~= download_headers(start));
    q
}

/// What became of a request.
pub enum Reply {
    /// The server answered with this status and a body.
    Response(u16),
    /// The server refused with this status.
    Refused(u16),
    /// There was no answer.
    Unreachable,
}

/// What to do with the body of an answer.
pub enum Transfer {
    /// There is none: the file is complete.
    Complete,
    /// Cut the file to this length and write the body after it.
    Append(u64),
    /// Write the body in place of the file.
    Overwrite,
}

/// What to do with the answer to a request for a file from byte `start` on. What the server
/// did with the range is seen from the status alone: 206 means that it honoured it, 200
/// that it sent the whole file, and 416 that the file ends where the range begins.
pub fn download_inner(start: u64, reply: Reply, label: &str) -> (r: Result<Transfer, DownloadError>)
    ensures
        match r {
            Ok(Transfer::Complete) => reply == Reply::Refused(416) && start > 0,
            Ok(Transfer::Append(n)) => reply == Reply::Response(206) && n == start,
            Ok(Transfer::Overwrite) => reply == Reply::Response(200),
            Err(DownloadError::Http(m)) => {
                &&& reply is Response && reply != Reply::Response(200) && reply != Reply::Response(206)
                &&& m@ == number::decimal(reply->Response_0 as nat) + " "@ + label@
            },
            Err(DownloadError::Request) => (reply is Refused || reply is Unreachable) && !(reply
                == Reply::Refused(416) && start > 0),
        },
{
    match reply {
        Reply::Response(status) => {
            if status == 206 {
                Ok(Transfer::Append(start))
            } else if status == 200 {
                Ok(Transfer::Overwrite)
            } else {
                let n = decimal_text(status as u64);
                Err(DownloadError::Http(cat3(n.as_str(), " ", label)))
            }
        },
        Reply::Refused(status) => {
            if status == 416 && start > 0 {
                Ok(Transfer::Complete)
            } else {
                Err(DownloadError::Request)
            }
        },
        Reply::Unreachable => Err(DownloadError::Request),
    }
}

/// The number of bytes that are there before the body is written.
pub fn transfer_start(transfer: &Transfer) -> (r: u64)
    ensures
        r == (match transfer {
            Transfer::Append(n) => *n,
            _ => 0,
        }),
{
    match transfer {
        Transfer::Append(n) => *n,
        _ => 0,
    }
}

/// Counts `n` bytes that were written after the first `written` ones, and publishes them.
pub fn stream_to_writer(
    p: &mut DownloadProgress,
    label: &str,
    written: u64,
    n: u64,
    total: u64,
) -> (r: u64)
    requires
        written + n <= u64::MAX,
    ensures
        r == written + n,
        progress_view(final(p).current) == Some((label@, r, total)),
{
    let now: u64 = written + n;
    set_download_progress(p, label, now, total);
    now
}

/// The report of a file that ended too early.
pub open spec fn incomplete_report(label: Seq<char>, size: u64, expected: u64) -> Seq<char> {
    label + ": incomplete download ("@ + number::decimal(size as nat) + (" of "@ + number::decimal(
        expected as nat,
    ) + " bytes), will resume on retry"@)
}

/// How a download that was begun ended.
pub enum DownloadEnd {
    /// The server had nothing more to send.
    NothingLeft,
    /// The body was written, and the file has this size now.
    Written(u64),
    Failed(DownloadError),
}

/// Ends a download that was begun, however it went: it is no longer published. It succeeded
/// where the file has the size that it should have (0 where that is not known). A file that
/// ended too early stays, to be continued.
pub fn download_finished(
    p: &mut DownloadProgress,
    label: &str,
    expected: u64,
    end: DownloadEnd,
) -> (r: Result<(), DownloadError>)
    ensures
        final(p).current is None,
        match end {
            DownloadEnd::NothingLeft => r is Ok,
            DownloadEnd::Written(size) => match r {
                Ok(_) => expected == 0 || size == expected,
                Err(DownloadError::Http(m)) => expected > 0 && size != expected && m@
                    == incomplete_report(label@, size, expected),
                Err(_) => false,
            },
            DownloadEnd::Failed(e) => r == Err::<(), DownloadError>(e),
        },
{
    clear_download_progress(p);
    match end {
        DownloadEnd::NothingLeft => Ok(()),
        DownloadEnd::Written(size) => {
            if expected > 0 && size != expected {
                let have = decimal_text(size);
                let want = decimal_text(expected);
                let head = cat3(label, ": incomplete download (", have.as_str());
                let tail = cat3(" of ", want.as_str(), " bytes), will resume on retry");
                return Err(DownloadError::Http(cat(head.as_str(), tail.as_str())));
            }
            Ok(())
        },
        DownloadEnd::Failed(e) => Err(e),
    }
}

/// What the file holds after the body of an answer was written.
pub open spec fn stored(file: Seq<u8>, transfer: Transfer, body: Seq<u8>) -> Seq<u8> {
    match transfer {
        Transfer::Complete => file,
        Transfer::Append(n) => file.take(n as int) + body,
        Transfer::Overwrite => body,
    }
}

/// Whether the body is what a server that has the file `remote` sends for the transfer,
/// possibly cut off.
pub open spec fn body_of(remote: Seq<u8>, transfer: Transfer, body: Seq<u8>) -> bool {
    match transfer {
        Transfer::Complete => true,
        Transfer::Append(n) => n <= remote.len() && body.is_prefix_of(remote.skip(n as int)),
        Transfer::Overwrite => body.is_prefix_of(remote),
    }
}

/// A download that is interrupted, however often, leaves the beginning of the file that the
/// server has; once the size is right, it is that file.
pub proof fn download_keeps_a_beginning(
    remote: Seq<u8>,
    file: Seq<u8>,
    start: u64,
    transfer: Transfer,
    body: Seq<u8>,
)
    requires
        0 < remote.len() <= u64::MAX,
        file.is_prefix_of(remote),
        resume_point(remote.len() as u64, file.len() as u64) == Resume::From(start),
        transfer matches Transfer::Append(n) ==> n == start,
        body_of(remote, transfer, body),
    ensures
        stored(file, transfer, body).is_prefix_of(remote),
        stored(file, transfer, body).len() == remote.len() ==> stored(file, transfer, body)
            == remote,
{
    let end = stored(file, transfer, body);
    match transfer {
        Transfer::Complete => {},
        Transfer::Append(n) => {
            assert(n == file.len());
            assert(file.take(n as int) =~= file);
            assert forall|i: int| 0 <= i < end.len() implies end[i] == remote[i] by {
                if i < n {
                    assert(file[i] == remote.subrange(0, file.len() as int)[i]);
                } else {
                    assert(body[i - n] == remote.skip(n as int).subrange(0, body.len() as int)[i - n]);
                }
            }
            assert(end =~= remote.subrange(0, end.len() as int));
        },
        Transfer::Overwrite => {},
    }
    if end.len() == remote.len() {
        assert(remote.subrange(0, end.len() as int) =~= remote);
    }
}

/// An interrupted download goes on where it stopped, and a complete one is not repeated.
pub proof fn interrupted_download_resumes(expected: u64, size: u64)
    requires
        0 < expected,
        size <= expected,
    ensures
        size < expected ==> resume_point(expected, size) == Resume::From(size),
        size == expected ==> resume_point(expected, size) == Resume::Complete,
{
}

/// A file that is longer than it should be is downloaded anew, and where the size is not known
/// the download goes on behind what is there.
pub proof fn download_begins_where_it_must(expected: u64, on_disk: u64)
    ensures
        0 < expected && expected < on_disk ==> resume_point(expected, on_disk) == Resume::From(0),
        expected == 0 ==> resume_point(expected, on_disk) == Resume::From(on_disk),
        resume_point(expected, on_disk) == Resume::Complete ==> expected > 0 && on_disk == expected,
        resume_point(expected, on_disk) matches Resume::From(n) ==> n == 0 || n == on_disk,
{
}

/// The request for the beginning of a file asks for no range; any other asks for everything
/// from that byte on, and reading the number back from it gives the byte.
pub proof fn range_begins_at_the_byte(start: u64)
    ensures
        download_headers(start)[0] == ("User-Agent"@, "ArmchairDevelopers/Maxima"@),
        start == 0 ==> download_headers(start).len() == 1,
        start > 0 ==> {
            let range = download_headers(start)[1].1;
            &&& download_headers(start).len() == 2
            &&& download_headers(start)[1].0 == "Range"@
            &&& "bytes="@.is_prefix_of(range)
            &&& range.last() == '-'
            &&& number::number_of(range.subrange(6, range.len() - 1)) == start
            &&& number::all_digits(range.subrange(6, range.len() - 1))
        },
{
    reveal_strlit("bytes=");
    reveal_strlit("-");
    if start > 0 {
        let digits = number::decimal(start as nat);
        let range = download_headers(start)[1].1;
        number::decimal_reads_back(start as nat);
        assert(range =~= "bytes="@ + digits + "-"@);
        assert(range.subrange(0, 6) =~= "bytes="@);
        assert(range.subrange(6, range.len() - 1) =~= digits);
    }
}

/// The address of the releases holds the author and the repository as they are.
pub proof fn address_holds_the_repository(author: Seq<char>, repository: Seq<char>)
    ensures
        ({
            let url = releases_url(author, repository);
            let n = author.len() as int;
            &&& url.take(29) == "https://api.github.com/repos/"@
            &&& url.subrange(29, 29 + n) == author
            &&& url[29 + n] == '/'
            &&& url.subrange(30 + n, 30 + n + repository.len()) == repository
            &&& url.skip(30 + n + repository.len()) == "/releases"@
        }),
{
    reveal_strlit("https://api.github.com/repos/");
    reveal_strlit("/");
    let url = releases_url(author, repository);
    let n = author.len() as int;
    assert(url.take(29) =~= "https://api.github.com/repos/"@);
    assert(url.subrange(29, 29 + n) =~= author);
    assert(url.subrange(30 + n, 30 + n + repository.len()) =~= repository);
    assert(url.skip(30 + n + repository.len()) =~= "/releases"@);
}

/// The report of a file that ended too early begins with its label and tells how much there is
/// of how much.
pub proof fn report_tells_both_sizes(label: Seq<char>, size: u64, expected: u64)
    ensures
        label.is_prefix_of(incomplete_report(label, size, expected)),
        text::occurs(
            incomplete_report(label, size, expected),
            seq!['('] + number::decimal(size as nat) + " of "@ + number::decimal(expected as nat)
                + " bytes)"@,
        ),
{
    reveal_strlit(": incomplete download (");
    reveal_strlit(" bytes), will resume on retry");
    reveal_strlit(" bytes)");
    let report = incomplete_report(label, size, expected);
    let a = label + ": incomplete download ("@.drop_last();
    let mark = seq!['('] + number::decimal(size as nat) + " of "@ + number::decimal(expected as nat)
        + " bytes)"@;
    let b = " bytes), will resume on retry"@.skip(7);
    assert(report =~= a + mark + b);
    text::text_stands_where_it_was_put(a, mark, b);
    assert(report.subrange(0, label.len() as int) =~= label);
}

} // verus!
