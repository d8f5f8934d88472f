//! The wire format: every request and every response is a JSON object with
//! the two members `action` and `content`, both strings. A request may hold
//! further members, which are passed over.

use crate::job::{
    job_views, DownloadState, Job, JobView, SearchResult, SearchResultView, StateView,
};
use crate::text::{decimal, digit, joined, push_decimal, push_joined, texts};
use vstd::prelude::*;

verus! {

/// What a client may ask for.
#[derive(Debug, Clone, Copy, PartialEq, Eq, Structural)]
pub enum RequestAction {
    Search,
    Add,
    Status,
    Download,
}

/// What a response carries.
#[derive(Debug, Clone, Copy, PartialEq, Eq, Structural)]
pub enum ResponseAction {
    Search,
    Status,
    Download,
    NotFound,
    /// The request could not be served; the content says why.
    Error,
}

/// Why a text frame is no request.
#[derive(Debug, Clone, Copy, PartialEq, Eq, Structural)]
pub enum ProtocolError {
    /// The text is not a JSON object, or its member `action` or `content`
    /// is not a string.
    Malformed,
    /// The object has no member `action`.
    MissingAction,
    /// The member `action` names no request action.
    UnknownAction,
    /// The object has no member `content`.
    MissingContent,
}

/// One request of a client.
#[derive(Debug, PartialEq, Eq)]
pub struct Request {
    pub action: RequestAction,
    pub content: String,
}

/// Mathematical model of a [`Request`].
pub struct RequestView {
    pub action: RequestAction,
    pub content: Seq<char>,
}

impl View for Request {
    type V = RequestView;

    open spec fn view(&self) -> RequestView {
        RequestView { action: self.action, content: self.content@ }
    }
}

/// `serde_json::Error`, of which nothing is read: a text that the parser
/// refuses is reported as [`ProtocolError::Malformed`].
#[verifier::external_type_specification]
#[verifier::external_body]
pub struct ExJsonError(serde_json::Error);

/// What `serde_json` reads from `text` as a map from strings to JSON values:
/// the entries of the map, each as its name and, where the value is a string,
/// that string; or `None` where it refuses the text.
pub uninterp spec fn json_members(text: Seq<char>) -> Option<
    Seq<(Seq<char>, Option<Seq<char>>)>,
>;

/// Calls `serde_json::from_str` to read `text` as a map from strings to
/// `serde_json::Value`, and hands out the entries of that map, each value as
/// its string where it is one. Nothing is claimed beyond this: the same text
/// always gives the same answer, which `json_members` names.
#[verifier::external_body]
fn read_members(text: &str) -> (r: Result<Vec<(String, Option<String>)>, serde_json::Error>)
    ensures
        json_members(text@) == match r {
            Ok(members) => Some(members.deep_view()),
            Err(_) => None,
        },
{
    let map = serde_json::from_str::<std::collections::BTreeMap<String, serde_json::Value>>(text)?;
    let entries = map.into_iter().map(|(name, value)| match value {
        serde_json::Value::String(string) => (name, Some(string)),
        serde_json::Value::Null => (name, None),
        serde_json::Value::Bool(_) => (name, None),
        serde_json::Value::Number(_) => (name, None),
        serde_json::Value::Array(_) => (name, None),
        serde_json::Value::Object(_) => (name, None),
    });
    Ok(entries.collect())
}

/// The hexadecimal digit for `d`, which is less than sixteen, in lower case.
pub open spec fn hex_digit(d: nat) -> char {
    if d < 10 {
        digit(d)
    } else if d == 10 {
        'a'
    } else if d == 11 {
        'b'
    } else if d == 12 {
        'c'
    } else if d == 13 {
        'd'
    } else if d == 14 {
        'e'
    } else {
        'f'
    }
}

/// How a character stands inside a JSON string literal: the quote and the
/// backslash with a backslash in front, the control characters below
/// U+0020 by their short escape or as `\u00` and two hexadecimal digits,
/// every other character as it is.
pub open spec fn escaped(c: char) -> Seq<char> {
    let code = c as u32;
    if code == 0x22 {
        seq!['\\', '"']
    } else if code == 0x5c {
        seq!['\\', '\\']
    } else if code == 0x08 {
        seq!['\\', 'b']
    } else if code == 0x09 {
        seq!['\\', 't']
    } else if code == 0x0a {
        seq!['\\', 'n']
    } else if code == 0x0c {
        seq!['\\', 'f']
    } else if code == 0x0d {
        seq!['\\', 'r']
    } else if code < 0x20 {
        seq!['\\', 'u', '0', '0', hex_digit((code / 16) as nat), hex_digit((code % 16) as nat)]
    } else {
        seq![c]
    }
}

/// The characters of `s`, each as it stands inside a JSON string literal.
pub open spec fn escaped_text(s: Seq<char>) -> Seq<char>
    decreases s.len(),
{
    if s.len() == 0 {
        Seq::empty()
    } else {
        escaped_text(s.drop_last()) + escaped(s.last())
    }
}

/// The JSON string literal for `s`: its escaped characters between two
/// quotes.
pub open spec fn json_string(s: Seq<char>) -> Seq<char> {
    seq!['"'] + escaped_text(s) + seq!['"']
}

/// Calls `serde_json::to_string` on a string slice, which writes the JSON
/// string literal for it: a quote, the string with the quote, the backslash
/// and the characters below U+0020 escaped, and a quote. The call reports an
/// error only where the writer does, and the writer is a vector of bytes.
#[verifier::external_body]
fn quote(s: &str) -> (r: String)
    ensures
        r@ == json_string(s@),
{
    match serde_json::to_string(s) {
        Ok(literal) => literal,
        Err(_) => String::new(),
    }
}

/// The value of the first member named `key`: `Some(None)` where that value
/// is not a string.
pub open spec fn member(members: Seq<(Seq<char>, Option<Seq<char>>)>, key: Seq<char>) -> Option<
    Option<Seq<char>>,
>
    decreases members.len(),
{
    if members.len() == 0 {
        None
    } else if members[0].0 == key {
        Some(members[0].1)
    } else {
        member(members.drop_first(), key)
    }
}

/// The request action with this name.
pub open spec fn action_named(name: Seq<char>) -> Option<RequestAction> {
    if name == "Search"@ {
        Some(RequestAction::Search)
    } else if name == "Add"@ {
        Some(RequestAction::Add)
    } else if name == "Status"@ {
        Some(RequestAction::Status)
    } else if name == "Download"@ {
        Some(RequestAction::Download)
    } else {
        None
    }
}

/// The request that the members of an envelope make up: the member `action`
/// is a string that names a request action, the member `content` is a
/// string, and no other member counts.
pub open spec fn request_of(members: Seq<(Seq<char>, Option<Seq<char>>)>) -> Result<
    RequestView,
    ProtocolError,
> {
    match member(members, "action"@) {
        None => Err(ProtocolError::MissingAction),
        Some(None) => Err(ProtocolError::Malformed),
        Some(Some(name)) => match action_named(name) {
            None => Err(ProtocolError::UnknownAction),
            Some(action) => match member(members, "content"@) {
                None => Err(ProtocolError::MissingContent),
                Some(None) => Err(ProtocolError::Malformed),
                Some(Some(content)) => Ok(RequestView { action, content }),
            },
        },
    }
}

/// The request that a text frame holds.
pub open spec fn decoded(text: Seq<char>) -> Result<RequestView, ProtocolError> {
    match json_members(text) {
        None => Err(ProtocolError::Malformed),
        Some(members) => request_of(members),
    }
}

/// The model of what a decoding returned.
pub open spec fn decoding_view(r: Result<Request, ProtocolError>) -> Result<
    RequestView,
    ProtocolError,
> {
    match r {
        Ok(request) => Ok(request@),
        Err(e) => Err(e),
    }
}

/// The request action with this name.
pub fn parse_action(name: &str) -> (r: Option<RequestAction>)
    ensures
        r == action_named(name@),
{
    if name.eq("Search") {
        Some(RequestAction::Search)
    } else if name.eq("Add") {
        Some(RequestAction::Add)
    } else if name.eq("Status") {
        Some(RequestAction::Status)
    } else if name.eq("Download") {
        Some(RequestAction::Download)
    } else {
        None
    }
}

/// Index of the first member named `key`.
fn find_member(members: &Vec<(String, Option<String>)>, key: &str) -> (r: Option<usize>)
    ensures
        match r {
            Some(i) => i < members.len() && member(members.deep_view(), key@) == Some(
                members[i as int].1.deep_view(),
            ),
            None => member(members.deep_view(), key@) is None,
        },
{
    let ghost all = members.deep_view();
    let mut i: usize = 0;
    assert(all.skip(0) =~= all);
    while i < members.len()
        invariant
            i <= members.len(),
            all == members.deep_view(),
            member(all, key@) == member(all.skip(i as int), key@),
        decreases members.len() - i,
    {
        assert(all.skip(i as int)[0] == all[i as int]);
        assert(all[i as int] == (members[i as int].0@, members[i as int].1.deep_view()));
        assert(all.skip(i as int).drop_first() =~= all.skip(i + 1));
        if members[i].0.as_str().eq(key) {
            return Some(i);
        }
        i += 1;
    }
    None
}

/// The request that the members of an envelope make up: the member `action`
/// must be a string that names a request action, and the member `content`
/// must be a string.
pub fn request_from_members(members: &Vec<(String, Option<String>)>) -> (r: Result<
    Request,
    ProtocolError,
>)
    ensures
        decoding_view(r) == request_of(members.deep_view()),
{
    let at = match find_member(members, "action") {
        Some(i) => i,
        None => {
            return Err(ProtocolError::MissingAction);
        },
    };
    let name = match &members[at].1 {
        Some(name) => name,
        None => {
            return Err(ProtocolError::Malformed);
        },
    };
    let action = match parse_action(name.as_str()) {
        Some(action) => action,
        None => {
            return Err(ProtocolError::UnknownAction);
        },
    };
    let at = match find_member(members, "content") {
        Some(i) => i,
        None => {
            return Err(ProtocolError::MissingContent);
        },
    };
    match &members[at].1 {
        Some(content) => Ok(Request { action, content: content.clone() }),
        None => Err(ProtocolError::Malformed),
    }
}

/// Reads a text frame as a request.
pub fn decode_request(text: &str) -> (r: Result<Request, ProtocolError>)
    ensures
        decoding_view(r) == decoded(text@),
{
    match read_members(text) {
        Ok(members) => request_from_members(&members),
        Err(_) => Err(ProtocolError::Malformed),
    }
}

/// The name of a response action on the wire.
pub open spec fn response_name(action: ResponseAction) -> Seq<char> {
    match action {
        ResponseAction::Search => "Search"@,
        ResponseAction::Status => "Status"@,
        ResponseAction::Download => "Download"@,
        ResponseAction::NotFound => "NotFound"@,
        ResponseAction::Error => "Error"@,
    }
}

/// The envelope around a content that is already a JSON string literal.
pub open spec fn framed(action: ResponseAction, literal: Seq<char>) -> Seq<char> {
    "{\"action\":\""@ + response_name(action) + "\",\"content\":"@ + literal + "}"@
}

/// The text frame of a response.
pub open spec fn envelope(action: ResponseAction, content: Seq<char>) -> Seq<char> {
    framed(action, json_string(content))
}

/// The envelope around a content that is already a JSON string literal.
pub fn frame_envelope(action: ResponseAction, literal: &str) -> (r: String)
    ensures
        r@ == framed(action, literal@),
{
    let mut out = String::from_str("{\"action\":\"");
    match action {
        ResponseAction::Search => out.append("Search"),
        ResponseAction::Status => out.append("Status"),
        ResponseAction::Download => out.append("Download"),
        ResponseAction::NotFound => out.append("NotFound"),
        ResponseAction::Error => out.append("Error"),
    }
    out.append("\",\"content\":");
    out.append(literal);
    out.append("}");
    out
}

/// The text frame of a response with this action and content.
pub fn encode_response(action: ResponseAction, content: &str) -> (r: String)
    ensures
        r@ == envelope(action, content@),
{
    let literal = quote(content);
    frame_envelope(action, literal.as_str())
}

/// The JSON array of elements that are already JSON texts.
pub open spec fn array_of(elements: Seq<Seq<char>>) -> Seq<char> {
    "["@ + joined(elements, ","@) + "]"@
}

/// The JSON array of elements that are already JSON texts.
pub fn json_array(elements: &Vec<String>) -> (r: String)
    ensures
        r@ == array_of(texts(elements@)),
{
    let mut out = String::from_str("[");
    push_joined(&mut out, elements, ",");
    out.append("]");
    out
}

/// How one job shows in a `Status` response.
#[derive(Debug, PartialEq, Eq)]
pub struct DownloadStatus {
    pub title: String,
    pub size: usize,
    pub read: usize,
}

/// Mathematical model of a [`DownloadStatus`].
pub struct StatusView {
    pub title: Seq<char>,
    pub size: nat,
    pub read: nat,
}

impl View for DownloadStatus {
    type V = StatusView;

    open spec fn view(&self) -> StatusView {
        StatusView { title: self.title@, size: self.size as nat, read: self.read as nat }
    }
}

/// How a job shows in a `Status` response: with its progress while the
/// acquisition runs, with size and progress both zero in every other state,
/// and not at all once it has `Failed`.
pub open spec fn projection(job: JobView) -> Option<StatusView> {
    match job.state {
        StateView::InProgress { read, total } => Some(
            StatusView { title: job.title, size: total, read },
        ),
        StateView::Failed { .. } => None,
        _ => Some(StatusView { title: job.title, size: 0, read: 0 }),
    }
}

/// The projections of those jobs that have one, in order.
pub open spec fn projections(jobs: Seq<JobView>) -> Seq<StatusView>
    decreases jobs.len(),
{
    if jobs.len() == 0 {
        Seq::empty()
    } else {
        match projection(jobs.last()) {
            Some(status) => projections(jobs.drop_last()).push(status),
            None => projections(jobs.drop_last()),
        }
    }
}

/// The reasons of the `Failed` jobs, in order.
pub open spec fn failure_reasons(jobs: Seq<JobView>) -> Seq<Seq<char>>
    decreases jobs.len(),
{
    if jobs.len() == 0 {
        Seq::empty()
    } else {
        match jobs.last().state {
            StateView::Failed { reason } => failure_reasons(jobs.drop_last()).push(reason),
            _ => failure_reasons(jobs.drop_last()),
        }
    }
}

/// The models of a sequence of status entries.
pub open spec fn status_views(entries: Seq<DownloadStatus>) -> Seq<StatusView> {
    Seq::new(entries.len(), |i: int| entries[i]@)
}

/// What a `Status` response shows of a snapshot, and the reasons of the
/// failed jobs, which it does not show.
pub fn project(jobs: &Vec<Job>) -> (r: (Vec<DownloadStatus>, Vec<String>))
    ensures
        status_views(r.0@) == projections(job_views(jobs@)),
        texts(r.1@) == failure_reasons(job_views(jobs@)),
{
    let ghost all = job_views(jobs@);
    let mut shown: Vec<DownloadStatus> = Vec::new();
    let mut reasons: Vec<String> = Vec::new();
    let mut i: usize = 0;
    assert(all.take(0) =~= Seq::empty());
    assert(status_views(shown@) =~= Seq::empty());
    assert(texts(reasons@) =~= Seq::empty());
    while i < jobs.len()
        invariant
            i <= jobs.len(),
            all == job_views(jobs@),
            status_views(shown@) == projections(all.take(i as int)),
            texts(reasons@) == failure_reasons(all.take(i as int)),
        decreases jobs.len() - i,
    {
        let ghost shown_before = shown@;
        let ghost reasons_before = reasons@;
        proof {
            assert(all.take(i + 1).drop_last() =~= all.take(i as int));
            assert(all.take(i + 1).last() == jobs[i as int]@);
        }
        match &jobs[i].state {
            DownloadState::InProgress { read, total } => {
                shown.push(DownloadStatus { title: jobs[i].title.clone(), size: *total, read: *read });
                assert(status_views(shown@) =~= status_views(shown_before).push(
                    projection(jobs[i as int]@)->0,
                ));
            },
            DownloadState::Failed { reason } => {
                reasons.push(reason.clone());
                assert(texts(reasons@) =~= texts(reasons_before).push(reason@));
            },
            _ => {
                shown.push(DownloadStatus { title: jobs[i].title.clone(), size: 0, read: 0 });
                assert(status_views(shown@) =~= status_views(shown_before).push(
                    projection(jobs[i as int]@)->0,
                ));
            },
        }
        i += 1;
    }
    assert(all.take(i as int) =~= all);
    (shown, reasons)
}

/// The JSON object for one status entry whose title is already a JSON string
/// literal.
pub open spec fn status_object(title_literal: Seq<char>, size: nat, read: nat) -> Seq<char> {
    "{\"title\":"@ + title_literal + ",\"size\":"@ + decimal(size) + ",\"read\":"@ + decimal(
        read,
    ) + "}"@
}

/// The JSON object for one status entry.
pub open spec fn status_json(status: StatusView) -> Seq<char> {
    status_object(json_string(status.title), status.size, status.read)
}

/// The JSON object for one status entry whose title is already a JSON string
/// literal.
pub fn status_entry(title_literal: &str, size: usize, read: usize) -> (r: String)
    ensures
        r@ == status_object(title_literal@, size as nat, read as nat),
{
    let mut out = String::from_str("{\"title\":");
    out.append(title_literal);
    out.append(",\"size\":");
    push_decimal(&mut out, size as u64);
    out.append(",\"read\":");
    push_decimal(&mut out, read as u64);
    out.append("}");
    out
}

/// The content of a `Status` response: the JSON list of the entries.
pub fn status_payload(entries: &Vec<DownloadStatus>) -> (r: String)
    ensures
        r@ == array_of(status_views(entries@).map_values(|s: StatusView| status_json(s))),
{
    let mut objects: Vec<String> = Vec::new();
    let mut i: usize = 0;
    while i < entries.len()
        invariant
            i <= entries.len(),
            objects.len() == i,
            forall|j: int| 0 <= j < i ==> (#[trigger] objects[j])@ == status_json(entries[j]@),
        decreases entries.len() - i,
    {
        let literal = quote(entries[i].title.as_str());
        objects.push(status_entry(literal.as_str(), entries[i].size, entries[i].read));
        i += 1;
    }
    assert(texts(objects@) =~= status_views(entries@).map_values(
        |s: StatusView| status_json(s),
    ));
    json_array(&objects)
}

/// The JSON object for one search result whose three fields are already
/// JSON string literals.
pub open spec fn result_object(
    track_id_literal: Seq<char>,
    title_literal: Seq<char>,
    author_literal: Seq<char>,
) -> Seq<char> {
    "{\"trackId\":"@ + track_id_literal + ",\"title\":"@ + title_literal + ",\"author\":"@
        + author_literal + "}"@
}

/// The JSON object for one search result.
pub open spec fn result_json(result: SearchResultView) -> Seq<char> {
    result_object(
        json_string(result.track_id),
        json_string(result.title),
        json_string(result.author),
    )
}

/// The models of a sequence of search results.
pub open spec fn result_views(results: Seq<SearchResult>) -> Seq<SearchResultView> {
    Seq::new(results.len(), |i: int| results[i]@)
}

/// The content of a `Search` response for these results: empty where there
/// are none, else the JSON list of them.
pub open spec fn search_content(results: Seq<SearchResultView>) -> Seq<char> {
    if results.len() == 0 {
        Seq::empty()
    } else {
        array_of(results.map_values(|r: SearchResultView| result_json(r)))
    }
}

/// The JSON object for one search result whose three fields are already
/// JSON string literals.
pub fn result_entry(track_id_literal: &str, title_literal: &str, author_literal: &str) -> (r:
    String)
    ensures
        r@ == result_object(track_id_literal@, title_literal@, author_literal@),
{
    let mut out = String::from_str("{\"trackId\":");
    out.append(track_id_literal);
    out.append(",\"title\":");
    out.append(title_literal);
    out.append(",\"author\":");
    out.append(author_literal);
    out.append("}");
    out
}

/// The content of a `Search` response: empty where nothing was found, else
/// the JSON list of the results.
pub fn search_payload(results: &Vec<SearchResult>) -> (r: String)
    ensures
        r@ == search_content(result_views(results@)),
{
    if results.len() == 0 {
        return String::new();
    }
    let mut objects: Vec<String> = Vec::new();
    let mut i: usize = 0;
    while i < results.len()
        invariant
            i <= results.len(),
            objects.len() == i,
            forall|j: int| 0 <= j < i ==> (#[trigger] objects[j])@ == result_json(results[j]@),
        decreases results.len() - i,
    {
        let track_id = quote(results[i].track_id.as_str());
        let title = quote(results[i].title.as_str());
        let author = quote(results[i].author.as_str());
        objects.push(result_entry(track_id.as_str(), title.as_str(), author.as_str()));
        i += 1;
    }
    assert(texts(objects@) =~= result_views(results@).map_values(
        |r: SearchResultView| result_json(r),
    ));
    json_array(&objects)
}

} // verus!
