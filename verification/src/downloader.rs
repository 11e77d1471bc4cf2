//! Fetching content: what a download reports, how its file is named, and the
//! hash of what was received.

use sha1::{Digest, Sha1};
use vstd::prelude::*;
use vstd::string::StringSliceAdditionalSpecFns;
use vstd::utf8::{decode_utf8, encode_utf8, is_char_boundary};
use crate::event::Progress;
use crate::text::{
    cut_at_first, first_index, strip_char, strip_prefix, trim_matches, trimmed,
};

verus! {

/// How far a download has come.
#[derive(Debug, Clone, Copy, PartialEq, Eq, Structural)]
pub struct DownloadProgress {
    pub received_bytes: u64,
    /// The size that the server announced, if it announced one.
    pub total_bytes: Option<u64>,
}

/// What a completed download left in the scratch directory.
#[derive(Debug, PartialEq, Eq)]
pub struct DownloadOutcome {
    /// The name of the file, inside the scratch directory.
    pub file_name: String,
    /// The hash of the content, in lower-case hexadecimal digits.
    pub hash: String,
}

/// The mathematical value of a [`DownloadOutcome`].
pub struct OutcomeView {
    pub file_name: Seq<char>,
    pub hash: Seq<char>,
}

impl View for DownloadOutcome {
    type V = OutcomeView;

    open spec fn view(&self) -> OutcomeView {
        OutcomeView { file_name: self.file_name@, hash: self.hash@ }
    }
}

/// How long a request may take, in seconds.
pub const DOWNLOAD_TIMEOUT_SECS: u64 = 10;

/// How many bytes of a response's body a failure report quotes at most.
pub const BODY_SNIPPET_LIMIT: usize = 512;

/// Why a download failed.
#[derive(Debug, PartialEq, Eq)]
pub enum FetchError {
    /// The server answered with a status that is no success.
    BadStatus { url: String, status: String, body_snippet: String },
    /// Neither the response's headers nor its address name the file.
    NoFileName { url: String },
    /// The name in the address is not text once its escapes are resolved.
    UndecodableName,
}

/// The mathematical value of a [`FetchError`].
pub enum FetchErrorView {
    BadStatus { url: Seq<char>, status: Seq<char>, body_snippet: Seq<char> },
    NoFileName { url: Seq<char> },
    UndecodableName,
}

impl View for FetchError {
    type V = FetchErrorView;

    open spec fn view(&self) -> FetchErrorView {
        match self {
            FetchError::BadStatus { url, status, body_snippet } => FetchErrorView::BadStatus {
                url: url@,
                status: status@,
                body_snippet: body_snippet@,
            },
            FetchError::NoFileName { url } => FetchErrorView::NoFileName { url: url@ },
            FetchError::UndecodableName => FetchErrorView::UndecodableName,
        }
    }
}

/// The text that describes a [`FetchError`].
pub open spec fn fetch_error_text(e: FetchErrorView) -> Seq<char> {
    match e {
        FetchErrorView::BadStatus { url, status, body_snippet } => "Request to "@ + url
            + " failed with status "@ + status + ". Body snippet: "@ + body_snippet,
        FetchErrorView::NoFileName { url } => "Could not determine file name from final URL '"@
            + url + "' or response headers"@,
        FetchErrorView::UndecodableName => "The file name in the URL is not valid UTF-8"@,
    }
}

impl FetchError {
    /// The text that describes this error.
    pub fn message(&self) -> (r: String)
        ensures
            r@ == fetch_error_text(self@),
    {
        match self {
            FetchError::BadStatus { url, status, body_snippet } => {
                let mut r = String::from_str("Request to ");
                r.append(url.as_str());
                r.append(" failed with status ");
                r.append(status.as_str());
                r.append(". Body snippet: ");
                r.append(body_snippet.as_str());
                r
            },
            FetchError::NoFileName { url } => {
                let mut r = String::from_str("Could not determine file name from final URL '");
                r.append(url.as_str());
                r.append("' or response headers");
                r
            },
            FetchError::UndecodableName => String::from_str(
                "The file name in the URL is not valid UTF-8",
            ),
        }
    }
}

/// The last position at or before `limit` at which the text that `bytes`
/// encode can be cut between two characters.
pub open spec fn floor_boundary(bytes: Seq<u8>, limit: int) -> int
    decreases limit,
{
    if limit <= 0 {
        0
    } else if is_char_boundary(bytes, limit) {
        limit
    } else {
        floor_boundary(bytes, limit - 1)
    }
}

/// What a failure report quotes of a response's body: the body itself if it
/// takes no more than [`BODY_SNIPPET_LIMIT`] bytes, else as many of its
/// characters as fit into that many bytes, followed by `...`. An empty body
/// is named as such.
pub open spec fn snippet_of(body: Seq<char>) -> Seq<char> {
    let bytes = encode_utf8(body);
    if body.len() == 0 {
        "<empty body>"@
    } else if bytes.len() > BODY_SNIPPET_LIMIT {
        decode_utf8(bytes.take(floor_boundary(bytes, BODY_SNIPPET_LIMIT as int))) + "..."@
    } else {
        body
    }
}

/// What a failure report quotes of a response's body.
pub fn body_snippet(body: &str) -> (r: String)
    ensures
        r@ == snippet_of(body@),
{
    broadcast use {
        vstd::utf8::encode_utf8_valid_utf8,
        vstd::utf8::encode_utf8_decode_utf8,
        vstd::utf8::is_char_boundary_start_end_of_seq,
    };

    if body.is_empty() {
        return String::from_str("<empty body>");
    }
    if body.as_bytes().len() > BODY_SNIPPET_LIMIT {
        let ghost bytes = body.spec_bytes();
        let mut cut: usize = BODY_SNIPPET_LIMIT;
        while cut > 0 && !body.is_char_boundary(cut)
            invariant
                bytes == body.spec_bytes(),
                cut <= BODY_SNIPPET_LIMIT,
                floor_boundary(bytes, BODY_SNIPPET_LIMIT as int) == floor_boundary(
                    bytes,
                    cut as int,
                ),
            decreases cut,
        {
            cut -= 1;
        }
        assert(is_char_boundary(bytes, cut as int));
        assert(floor_boundary(bytes, cut as int) == cut);
        let (head, _) = body.split_at(cut);
        assert(head@ == decode_utf8(bytes.take(cut as int))) by {
            assert(head.spec_bytes() == encode_utf8(head@));
            assert(bytes.take(cut as int) =~= bytes.subrange(0, cut as int));
        }
        let mut r = String::from_str(head);
        r.append("...");
        r
    } else {
        String::from_str(body)
    }
}

/// The verdict on a response: a success is accepted; anything else is a
/// failure that names the address and the status and quotes the body, or
/// says that the body could not be read.
pub open spec fn status_verdict(
    success: bool,
    url: Seq<char>,
    status: Seq<char>,
    body: Option<Seq<char>>,
) -> Result<(), FetchErrorView> {
    if success {
        Ok(())
    } else {
        Err(
            FetchErrorView::BadStatus {
                url,
                status,
                body_snippet: match body {
                    Some(text) => snippet_of(text),
                    None => "<failed to read body>"@,
                },
            },
        )
    }
}

/// Accepts a response whose status is a success. `status` is the status as
/// it is shown; `body` is the body of a response that is no success, if it
/// could be read.
pub fn ensure_success(success: bool, url: &str, status: &str, body: Option<&str>) -> (r: Result<
    (),
    FetchError,
>)
    ensures
        match r {
            Ok(_) => status_verdict(
                success,
                url@,
                status@,
                match body {
                    Some(text) => Some(text@),
                    None => None,
                },
            ) is Ok,
            Err(e) => status_verdict(
                success,
                url@,
                status@,
                match body {
                    Some(text) => Some(text@),
                    None => None,
                },
            ) == Err::<(), FetchErrorView>(e@),
        },
{
    if success {
        return Ok(());
    }
    let snippet = match body {
        Some(text) => body_snippet(text),
        None => String::from_str("<failed to read body>"),
    };
    Err(
        FetchError::BadStatus {
            url: String::from_str(url),
            status: String::from_str(status),
            body_snippet: snippet,
        },
    )
}

/// A SHA-1 hasher of the `sha1` crate. Verus is told nothing of what is
/// inside it.
#[verifier::external_body]
pub struct ContentHasher {
    inner: Sha1,
}

/// The bytes that a hasher has been given so far, in order.
pub uninterp spec fn absorbed(hasher: ContentHasher) -> Seq<u8>;

/// The SHA-1 digest of a sequence of bytes.
pub uninterp spec fn sha1_digest(data: Seq<u8>) -> Seq<u8>;

/// `Sha1::new`: a hasher that has been given nothing yet.
#[verifier::external_body]
fn hasher_new() -> (r: ContentHasher)
    ensures
        absorbed(r) == Seq::<u8>::empty(),
{
    ContentHasher { inner: Sha1::new() }
}

/// `Digest::update` on a SHA-1 hasher: the hasher is given the bytes of
/// `chunk` after those it has.
#[verifier::external_body]
fn hasher_update(hasher: &mut ContentHasher, chunk: &[u8])
    ensures
        absorbed(*final(hasher)) == absorbed(*old(hasher)) + chunk@,
{
    hasher.inner.update(chunk)
}

/// `Digest::finalize` on a SHA-1 hasher: the digest of all the bytes that
/// the hasher was given, which is 20 bytes long.
#[verifier::external_body]
fn hasher_finalize(hasher: ContentHasher) -> (r: Vec<u8>)
    ensures
        r@ == sha1_digest(absorbed(hasher)),
        r@.len() == 20,
{
    hasher.inner.finalize().to_vec()
}

/// The hexadecimal digit for a number below sixteen, in lower case.
pub open spec fn hex_digit(n: nat) -> char {
    "0123456789abcdef"@[n as int]
}

/// Bytes written as hexadecimal digits in lower case, two for each byte,
/// the high half first.
pub open spec fn hex_lower(bytes: Seq<u8>) -> Seq<char>
    decreases bytes.len(),
{
    if bytes.len() == 0 {
        Seq::empty()
    } else {
        hex_lower(bytes.drop_last()).push(hex_digit((bytes.last() / 16) as nat)).push(
            hex_digit((bytes.last() % 16) as nat),
        )
    }
}

/// Bytes in hexadecimal digits take two characters each.
pub proof fn lemma_hex_len(bytes: Seq<u8>)
    ensures
        hex_lower(bytes).len() == 2 * bytes.len(),
    decreases bytes.len(),
{
    if bytes.len() > 0 {
        lemma_hex_len(bytes.drop_last());
    }
}

/// `hex::encode`: the bytes as hexadecimal digits in lower case, two for
/// each byte.
#[verifier::external_body]
fn hex_encode(bytes: &Vec<u8>) -> (r: String)
    ensures
        r@ == hex_lower(bytes@),
{
    hex::encode(bytes)
}

/// The hash under which content is recorded and compared: its SHA-1 digest
/// in hexadecimal digits.
pub open spec fn content_hash(content: Seq<u8>) -> Seq<char> {
    hex_lower(sha1_digest(content))
}

/// Follows a download: takes in the content chunk by chunk, counts it and
/// hashes it.
pub struct DownloadTracker {
    hasher: ContentHasher,
    received_bytes: u64,
    total_bytes: Option<u64>,
}

impl DownloadTracker {
    /// The content that has been taken in so far.
    pub closed spec fn content(&self) -> Seq<u8> {
        absorbed(self.hasher)
    }

    /// How far the download has come.
    pub closed spec fn progress(&self) -> DownloadProgress {
        DownloadProgress { received_bytes: self.received_bytes, total_bytes: self.total_bytes }
    }

    /// A tracker for a download of which nothing has arrived yet.
    /// `total_bytes` is the size that the server announced, if any.
    pub fn new(total_bytes: Option<u64>) -> (r: Self)
        ensures
            r.content() == Seq::<u8>::empty(),
            r.progress() == (DownloadProgress { received_bytes: 0, total_bytes }),
    {
        DownloadTracker { hasher: hasher_new(), received_bytes: 0, total_bytes }
    }

    /// Takes in the next chunk of the content and says how far the download
    /// has come with it.
    pub fn absorb(&mut self, chunk: &[u8]) -> (r: DownloadProgress)
        requires
            old(self).progress().received_bytes + chunk@.len() <= u64::MAX,
        ensures
            final(self).content() == old(self).content() + chunk@,
            final(self).progress() == r,
            r == (DownloadProgress {
                received_bytes: (old(self).progress().received_bytes + chunk@.len()) as u64,
                total_bytes: old(self).progress().total_bytes,
            }),
    {
        hasher_update(&mut self.hasher, chunk);
        self.received_bytes = self.received_bytes + chunk.len() as u64;
        DownloadProgress { received_bytes: self.received_bytes, total_bytes: self.total_bytes }
    }

    /// Whether a chunk of this length can still be counted.
    pub fn can_absorb(&self, len: usize) -> (r: bool)
        ensures
            r == (self.progress().received_bytes + len <= u64::MAX),
    {
        len as u64 <= u64::MAX - self.received_bytes
    }

    /// The hash of the content that was taken in: forty hexadecimal
    /// digits in lower case.
    pub fn finish(self) -> (r: String)
        ensures
            r@ == content_hash(self.content()),
            r@.len() == 40,
    {
        let digest = hasher_finalize(self.hasher);
        proof {
            lemma_hex_len(digest@);
        }
        hex_encode(&digest)
    }
}

impl DownloadProgress {
    /// Progress of the whole run while a download is under way: the
    /// `completed` steps out of `total`, and of the current step the part
    /// that has been received. With a download of unknown size there is
    /// nothing to report; so too if the numbers outgrow the machine.
    pub open spec fn spec_within(self, completed: u128, total: u128) -> Option<Progress> {
        match self.total_bytes {
            None => None,
            Some(size) => if size == 0 {
                Some(Progress { completed, total })
            } else if completed * size + self.received_bytes <= u128::MAX && total * size
                <= u128::MAX {
                Some(
                    Progress {
                        completed: (completed * size + self.received_bytes) as u128,
                        total: (total * size) as u128,
                    },
                )
            } else {
                None
            },
        }
    }

    /// Progress of the whole run while a download is under way, as a
    /// fraction: `completed` steps and the received part of the current
    /// one, out of `total` steps.
    pub fn within(&self, completed: u128, total: u128) -> (r: Option<Progress>)
        ensures
            r == self.spec_within(completed, total),
    {
        match self.total_bytes {
            None => None,
            Some(size) => {
                if size == 0 {
                    return Some(Progress { completed, total });
                }
                let size = size as u128;
                let scaled = match completed.checked_mul(size) {
                    Some(x) => x,
                    None => {
                        return None;
                    },
                };
                let numerator = match scaled.checked_add(self.received_bytes as u128) {
                    Some(x) => x,
                    None => {
                        return None;
                    },
                };
                match total.checked_mul(size) {
                    Some(denominator) => Some(
                        Progress { completed: numerator, total: denominator },
                    ),
                    None => None,
                }
            },
        }
    }
}

/// The file name that one part of a content-disposition header gives: what
/// follows `filename=`, without quotes around it and white space around
/// that, unless nothing is left.
pub open spec fn header_candidate(part: Seq<char>) -> Option<Seq<char>> {
    let key = "filename="@;
    let text = trimmed(part);
    if key.is_prefix_of(text) {
        let name = trimmed(strip_char(text.skip(key.len() as int), '"'));
        if name.len() > 0 {
            Some(name)
        } else {
            None
        }
    } else {
        None
    }
}

/// The file name that a content-disposition header gives: that of the
/// first of its parts, which `;` separates, that gives one.
pub open spec fn header_file_name(value: Seq<char>) -> Option<Seq<char>>
    decreases value.len(),
{
    let k = first_index(value, ';');
    match header_candidate(value.take(k as int)) {
        Some(name) => Some(name),
        None => if k < value.len() {
            header_file_name(value.skip(k as int + 1))
        } else {
            None
        },
    }
}

/// A path segment without the query that may follow it.
pub open spec fn before_query(segment: Seq<char>) -> Seq<char> {
    segment.take(first_index(segment, '?') as int)
}

/// A text with its percent escapes resolved, as `urlencoding::decode`
/// resolves them, if the result is text.
pub uninterp spec fn percent_decoded(text: Seq<char>) -> Option<Seq<char>>;

/// `urlencoding::decode`: the text with its percent escapes resolved, or
/// nothing if the bytes that result are not UTF-8. A text without `%` is
/// handed back as it is.
#[verifier::external_body]
fn percent_decode(text: &str) -> (r: Option<String>)
    ensures
        match r {
            Some(decoded) => percent_decoded(text@) == Some(decoded@),
            None => percent_decoded(text@) is None,
        },
        !text@.contains('%') ==> r is Some && r->0@ == text@,
{
    match urlencoding::decode(text) {
        Ok(decoded) => Some(decoded.into_owned()),
        Err(_) => None,
    }
}

/// The name under which a download is stored. The content-disposition
/// header decides if it gives a name; else the last segment of the path of
/// the address from which the content finally came, without a query and
/// with its escapes resolved. If neither gives a name that is not empty,
/// the download fails.
pub open spec fn file_name_of(
    content_disposition: Option<Seq<char>>,
    last_segment: Option<Seq<char>>,
    url: Seq<char>,
) -> Result<Seq<char>, FetchErrorView> {
    if content_disposition is Some && header_file_name(content_disposition->0) is Some {
        Ok(header_file_name(content_disposition->0)->0)
    } else if last_segment is Some && before_query(last_segment->0).len() > 0 {
        match percent_decoded(before_query(last_segment->0)) {
            Some(name) => if name.len() > 0 {
                Ok(name)
            } else {
                Err(FetchErrorView::NoFileName { url })
            },
            None => Err(FetchErrorView::UndecodableName),
        }
    } else {
        Err(FetchErrorView::NoFileName { url })
    }
}

fn candidate_of(part: &str) -> (r: Option<String>)
    ensures
        match r {
            Some(name) => header_candidate(part@) == Some(name@) && name@.len() > 0,
            None => header_candidate(part@) is None,
        },
{
    let text = part.trim();
    match strip_prefix(text, "filename=") {
        Some(rest) => {
            let name = trim_matches(rest, '"').trim();
            if !name.is_empty() {
                Some(String::from_str(name))
            } else {
                None
            }
        },
        None => None,
    }
}

/// The file name that a content-disposition header gives, if it gives one.
/// The name is never empty.
pub fn file_name_from_header(value: &str) -> (r: Option<String>)
    ensures
        match r {
            Some(name) => header_file_name(value@) == Some(name@) && name@.len() > 0,
            None => header_file_name(value@) is None,
        },
{
    let mut rest = value;
    loop
        invariant
            header_file_name(value@) == header_file_name(rest@),
        decreases rest@.len(),
    {
        let (head, tail) = cut_at_first(rest, ';');
        match candidate_of(head) {
            Some(name) => {
                return Some(name);
            },
            None => {},
        }
        match tail {
            Some(next) => {
                rest = next;
            },
            None => {
                return None;
            },
        }
    }
}

/// The view of a text that may be absent.
pub open spec fn text_view(text: Option<&str>) -> Option<Seq<char>> {
    match text {
        Some(t) => Some(t@),
        None => None,
    }
}

/// The name under which a download is stored, from the content-disposition
/// header of the response, if it has one that is text, and the last
/// segment of the path of the address from which the content finally came,
/// if that address has segments. `url` is that address.
pub fn extract_file_name(
    content_disposition: Option<&str>,
    last_segment: Option<&str>,
    url: &str,
) -> (r: Result<String, FetchError>)
    ensures
        match r {
            Ok(name) => file_name_of(text_view(content_disposition), text_view(last_segment), url@)
                == Ok::<Seq<char>, FetchErrorView>(name@),
            Err(e) => file_name_of(text_view(content_disposition), text_view(last_segment), url@)
                == Err::<Seq<char>, FetchErrorView>(e@),
        },
        r matches Ok(name) ==> name@.len() > 0,
{
    match content_disposition {
        Some(value) => match file_name_from_header(value) {
            Some(name) => {
                return Ok(name);
            },
            None => {},
        },
        None => {},
    }
    match last_segment {
        Some(segment) => {
            let (file_name, _) = cut_at_first(segment, '?');
            if !file_name.is_empty() {
                return match percent_decode(file_name) {
                    Some(name) => {
                        if name.as_str().is_empty() {
                            Err(FetchError::NoFileName { url: String::from_str(url) })
                        } else {
                            Ok(name)
                        }
                    },
                    None => Err(FetchError::UndecodableName),
                };
            }
        },
        None => {},
    }
    Err(FetchError::NoFileName { url: String::from_str(url) })
}

} // verus!
