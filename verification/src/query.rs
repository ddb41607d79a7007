//! Queries and actions through a coordinator, on the side of the client.

use vstd::prelude::*;
use vstd::utf8::encode_utf8;

use crate::error::ErrorChain;
use crate::json::{
    as_text, into_object, json_member, json_members, json_object, json_of, json_text, member,
    object_insert_text, object_new, parse_value, pretty_text, pretty_text_of, value_text,
    value_text_of, JsonMember,
};
use crate::number::{at_most, decimal, decimal_of, min_usize};
use crate::text::{opt_text, text_eq};
use crate::upload::{insert_string, is_filled, says, says_if_filled, with_text};

verus! {

// ---------------------------------------------------------------------------
// Requests

/// The members of a query that creates a table from a statement.
pub open spec fn query_members(
    members: Map<Seq<char>, JsonMember>,
    sql: Seq<char>,
    user: Seq<char>,
    target_table: Option<Seq<char>>,
    schema: Option<Seq<char>>,
    authorization: Option<Seq<char>>,
) -> Map<Seq<char>, JsonMember> {
    let members = members.insert("type"@, JsonMember::Text("ctas"@)).insert(
        "sql"@,
        JsonMember::Text(sql),
    ).insert("user"@, JsonMember::Text(user));
    with_text(
        with_text(with_text(members, "targetTable"@, target_table), "schema"@, schema),
        "authorization"@,
        authorization,
    )
}

/// The command of a query that creates a table from a statement.
pub fn query_command(
    sql: &str,
    user: &str,
    target_table: &Option<String>,
    schema: &Option<String>,
    authorization: &Option<String>,
) -> (r: serde_json::Map<String, serde_json::Value>)
    ensures
        is_filled(
            json_members(r),
            |members: Map<Seq<char>, JsonMember>|
                query_members(
                    members,
                    sql@,
                    user@,
                    opt_text(*target_table),
                    opt_text(*schema),
                    opt_text(*authorization),
                ),
        ),
{
    let mut body = object_new();
    let ghost empty = json_members(body);
    proof {
        assert(empty.dom() == Set::<Seq<char>>::empty());
    }
    object_insert_text(&mut body, "type", "ctas");
    object_insert_text(&mut body, "sql", sql);
    object_insert_text(&mut body, "user", user);
    insert_string(&mut body, "targetTable", target_table);
    insert_string(&mut body, "schema", schema);
    insert_string(&mut body, "authorization", authorization);
    body
}

/// The members of the command that asks how a query stands.
pub open spec fn poll_members(
    members: Map<Seq<char>, JsonMember>,
    query_id: Seq<char>,
) -> Map<Seq<char>, JsonMember> {
    members.insert("type"@, JsonMember::Text("poll"@)).insert(
        "queryId"@,
        JsonMember::Text(query_id),
    )
}

/// The members of a request to drop the table of a query.
pub open spec fn drop_temp_members(
    members: Map<Seq<char>, JsonMember>,
    query_id: Seq<char>,
    user: Seq<char>,
    authorization: Option<Seq<char>>,
) -> Map<Seq<char>, JsonMember> {
    with_text(
        members.insert("queryId"@, JsonMember::Text(query_id)).insert(
            "user"@,
            JsonMember::Text(user),
        ),
        "authorization"@,
        authorization,
    )
}

/// The command that asks how a query stands.
pub fn poll_command(query_id: &str) -> (r: serde_json::Map<String, serde_json::Value>)
    ensures
        is_filled(
            json_members(r),
            |members: Map<Seq<char>, JsonMember>| poll_members(members, query_id@),
        ),
{
    let mut body = object_new();
    let ghost empty = json_members(body);
    proof {
        assert(empty.dom() == Set::<Seq<char>>::empty());
    }
    object_insert_text(&mut body, "type", "poll");
    object_insert_text(&mut body, "queryId", query_id);
    body
}

/// The body of a request to drop the table of a query.
pub fn drop_temp(query_id: &str, user: &str, authorization: &Option<String>) -> (r: serde_json::Map<
    String,
    serde_json::Value,
>)
    ensures
        is_filled(
            json_members(r),
            |members: Map<Seq<char>, JsonMember>|
                drop_temp_members(members, query_id@, user@, opt_text(*authorization)),
        ),
{
    let mut body = object_new();
    let ghost empty = json_members(body);
    proof {
        assert(empty.dom() == Set::<Seq<char>>::empty());
    }
    object_insert_text(&mut body, "queryId", query_id);
    object_insert_text(&mut body, "user", user);
    insert_string(&mut body, "authorization", authorization);
    body
}

/// The body of an action that a client wrote by hand: an object, or why it is none.
pub open spec fn body_of(raw: Seq<char>) -> Result<
    serde_json::Map<String, serde_json::Value>,
    Seq<Seq<char>>,
> {
    match json_of(encode_utf8(raw)) {
        Err(words) => Err(seq!["--body must be a JSON object"@, words]),
        Ok(value) => match json_object(value) {
            Some(map) => Ok(map),
            None => Err(seq!["--body must be a JSON object"@]),
        },
    }
}

/// The body of an action that a client wrote by hand.
pub fn parse_body(raw: &str) -> (r: Result<
    serde_json::Map<String, serde_json::Value>,
    ErrorChain,
>)
    ensures
        crate::error::agrees(r, body_of(raw@)),
{
    match parse_value(raw.as_bytes()) {
        Err(words) => {
            let ghost cause = words@;
            let error = ErrorChain::new(words).context("--body must be a JSON object".to_owned());
            proof {
                assert(error@ == seq!["--body must be a JSON object"@, cause]);
            }
            Err(error)
        },
        Ok(value) => match into_object(value) {
            Some(map) => Ok(map),
            None => Err(ErrorChain::new("--body must be a JSON object".to_owned())),
        },
    }
}

// ---------------------------------------------------------------------------
// Answers

/// The metadata in an answer, or why it is none; `what` carries it. Empty metadata is none.
pub open spec fn metadata_of(what: Seq<char>, bytes: Seq<u8>) -> Result<
    Option<serde_json::Value>,
    Seq<Seq<char>>,
> {
    if bytes.len() == 0 {
        Ok(None)
    } else {
        match json_of(bytes) {
            Ok(value) => Ok(Some(value)),
            Err(words) => Err(seq![what + " app_metadata was not JSON"@, words]),
        }
    }
}

/// The metadata in an answer; `what` carries it.
pub fn metadata_json(what: &str, bytes: &[u8]) -> (r: Result<
    Option<serde_json::Value>,
    ErrorChain,
>)
    ensures
        crate::error::agrees(r, metadata_of(what@, bytes@)),
{
    if bytes.len() == 0 {
        return Ok(None);
    }
    match parse_value(bytes) {
        Ok(value) => Ok(Some(value)),
        Err(words) => {
            let ghost cause = words@;
            let mut message = what.to_owned();
            message.append(" app_metadata was not JSON");
            let error = ErrorChain::new(words).context(message);
            proof {
                assert(error@ == seq![what@ + " app_metadata was not JSON"@, cause]);
            }
            Err(error)
        },
    }
}

/// The line of the metadata of a message; a message without any has an empty object.
pub open spec fn metadata_line_of(
    prefix: Seq<char>,
    metadata: Option<serde_json::Value>,
) -> Seq<char> {
    prefix + ".metadata="@ + (match metadata {
        Some(value) => value_text_of(value),
        None => "{}"@,
    })
}

/// The line that shows metadata; there is none where there was no metadata.
pub fn metadata_line(prefix: &str, metadata: &Option<serde_json::Value>) -> (r: String)
    ensures
        r@ == metadata_line_of(prefix@, *metadata),
{
    let mut line = prefix.to_owned();
    line.append(".metadata=");
    match metadata {
        Some(value) => line.append(value_text(value).as_str()),
        None => line.append("{}"),
    }
    line
}

// ---------------------------------------------------------------------------
// Replies

/// The JSON value of a reply, or why it has none; `invalid` says what is wrong with it.
pub open spec fn reply_of(bytes: Seq<u8>, invalid: Seq<char>) -> Result<
    serde_json::Value,
    Seq<Seq<char>>,
> {
    match json_of(bytes) {
        Ok(value) => Ok(value),
        Err(words) => Err(seq![invalid, words]),
    }
}

/// The JSON value of a reply.
pub fn reply_value(bytes: &[u8], invalid: &str) -> (r: Result<serde_json::Value, ErrorChain>)
    ensures
        crate::error::agrees(r, reply_of(bytes@, invalid@)),
{
    match parse_value(bytes) {
        Ok(value) => Ok(value),
        Err(words) => {
            let ghost cause = words@;
            let error = ErrorChain::new(words).context(invalid.to_owned());
            proof {
                assert(error@ == seq![invalid@, cause]);
            }
            Err(error)
        },
    }
}

/// The line that shows the reply to a request to drop the table of a query.
pub fn drop_temp_text(reply: &[u8]) -> (r: Result<String, ErrorChain>)
    ensures
        match reply_of(reply@, "invalid drop-temp JSON response"@) {
            Ok(value) => r matches Ok(line) && line@ == "drop_temp_result="@ + value_text_of(value),
            Err(messages) => r matches Err(error) && error@ == messages,
        },
{
    let value = match reply_value(reply, "invalid drop-temp JSON response") {
        Ok(value) => value,
        Err(error) => return Err(error),
    };
    let mut line = "drop_temp_result=".to_owned();
    line.append(value_text(&value).as_str());
    Ok(line)
}

/// The text of a reply to an action, over several lines, or why it has none.
pub open spec fn action_text_of(reply: Seq<u8>) -> Result<Seq<char>, Seq<Seq<char>>> {
    match reply_of(reply, "invalid JSON action response"@) {
        Ok(value) => match pretty_text_of(value) {
            Ok(text) => Ok(text),
            Err(words) => Err(seq![words]),
        },
        Err(messages) => Err(messages),
    }
}

/// The text of a reply to an action.
pub fn action_text(reply: &[u8]) -> (r: Result<String, ErrorChain>)
    ensures
        match action_text_of(reply@) {
            Ok(text) => r matches Ok(shown) && shown@ == text,
            Err(messages) => r matches Err(error) && error@ == messages,
        },
{
    let value = match reply_value(reply, "invalid JSON action response") {
        Ok(value) => value,
        Err(error) => return Err(error),
    };
    match pretty_text(&value) {
        Ok(text) => Ok(text),
        Err(words) => Err(ErrorChain::new(words)),
    }
}

/// Accepts an action that was replied to; `silence` says that it was not.
pub fn check_replied(replies: usize, silence: &str) -> (r: Result<(), ErrorChain>)
    ensures
        if replies == 0 {
            r matches Err(error) && error@ == seq![silence@]
        } else {
            r is Ok
        },
{
    if replies == 0 {
        return Err(ErrorChain::new(silence.to_owned()));
    }
    Ok(())
}

// ---------------------------------------------------------------------------
// What metadata says

/// The text under a name in metadata.
pub open spec fn text_in(
    metadata: Option<serde_json::Value>,
    name: Seq<char>,
) -> Option<Seq<char>> {
    match metadata {
        Some(value) => match json_member(value, name) {
            Some(found) => json_text(found),
            None => None,
        },
        None => None,
    }
}

/// The text under a name in metadata.
pub fn metadata_text(metadata: &Option<serde_json::Value>, name: &str) -> (r: Option<String>)
    ensures
        opt_text(r) == text_in(*metadata, name@),
{
    match metadata {
        Some(value) => match member(value, name) {
            Some(found) => as_text(found),
            None => None,
        },
        None => None,
    }
}

/// The text under a name in metadata, or `default`.
pub open spec fn text_or(
    metadata: Option<serde_json::Value>,
    name: Seq<char>,
    default: Seq<char>,
) -> Seq<char> {
    match text_in(metadata, name) {
        Some(text) => text,
        None => default,
    }
}

/// The text under a name in metadata, or `default`.
pub fn metadata_text_or(metadata: &Option<serde_json::Value>, name: &str, default: &str) -> (r:
    String)
    ensures
        r@ == text_or(*metadata, name@, default@),
{
    match metadata_text(metadata, name) {
        Some(text) => text,
        None => default.to_owned(),
    }
}

/// The identifier of a query.
pub fn query_id(metadata: &Option<serde_json::Value>) -> (r: Result<String, ErrorChain>)
    ensures
        match text_in(*metadata, "queryId"@) {
            Some(id) => r matches Ok(found) && found@ == id,
            None => r matches Err(error) && error@ == seq![
                "FlightInfo metadata did not include queryId"@,
            ],
        },
{
    match metadata_text(metadata, "queryId") {
        Some(id) => Ok(id),
        None => Err(
            ErrorChain::new("FlightInfo metadata did not include queryId".to_owned()),
        ),
    }
}

/// How a query stands.
#[derive(Clone, Copy, Debug, PartialEq, Eq, Structural)]
pub enum PollVerdict {
    /// It runs: ask again.
    Again,
    /// It has succeeded.
    Done,
}

/// How a query stands that has a status; `more` says that the coordinator asks to poll again. A
/// failure counts whether or not it does.
pub open spec fn poll_verdict_of(
    query_id: Seq<char>,
    status: Seq<char>,
    message: Seq<char>,
    more: bool,
) -> Result<PollVerdict, Seq<Seq<char>>> {
    if status == "FAILED"@ {
        Err(seq!["query "@ + query_id + " failed: "@ + message])
    } else if more {
        Ok(PollVerdict::Again)
    } else if status == "SUCCEEDED"@ {
        Ok(PollVerdict::Done)
    } else {
        Err(seq!["query "@ + query_id + " completed with unexpected status "@ + status])
    }
}

/// How a query stands that has a status.
pub fn poll_verdict(query_id: &str, status: &str, message: &str, more: bool) -> (r: Result<
    PollVerdict,
    ErrorChain,
>)
    ensures
        crate::error::agrees(r, poll_verdict_of(query_id@, status@, message@, more)),
{
    let mut text = "query ".to_owned();
    text.append(query_id);
    if text_eq(status, "FAILED") {
        text.append(" failed: ");
        text.append(message);
        return Err(ErrorChain::new(text));
    }
    if more {
        return Ok(PollVerdict::Again);
    }
    if text_eq(status, "SUCCEEDED") {
        return Ok(PollVerdict::Done);
    }
    text.append(" completed with unexpected status ");
    text.append(status);
    Err(ErrorChain::new(text))
}

/// How a query stands whose metadata came with a poll.
pub fn judge_poll(query_id: &str, metadata: &Option<serde_json::Value>, more: bool) -> (r: Result<
    PollVerdict,
    ErrorChain,
>)
    ensures
        crate::error::agrees(
            r,
            poll_verdict_of(
                query_id@,
                text_or(*metadata, "status"@, "UNKNOWN"@),
                text_or(*metadata, "errorMessage"@, "unknown coordinator query failure"@),
                more,
            ),
        ),
{
    let status = metadata_text_or(metadata, "status", "UNKNOWN");
    let message = metadata_text_or(
        metadata,
        "errorMessage",
        "unknown coordinator query failure",
    );
    poll_verdict(query_id, status.as_str(), message.as_str(), more)
}

/// Why a client gives a query up.
pub fn polls_exhausted(query_id: &str, max_polls: usize) -> (r: ErrorChain)
    ensures
        r@ == seq![
            "query "@ + query_id@ + " did not complete after "@ + decimal_of(max_polls as nat)
                + " polls"@,
        ],
{
    let mut message = "query ".to_owned();
    message.append(query_id);
    message.append(" did not complete after ");
    message.append(decimal(max_polls as u128).as_str());
    message.append(" polls");
    ErrorChain::new(message)
}

/// What a client does next about a query.
#[derive(Clone, Copy, Debug, PartialEq, Eq, Structural)]
pub enum PollStep {
    /// Make the poll with this index.
    Poll(usize),
    /// Read the results.
    Finish,
}

/// What a client does next about a query, or why it gives up: it makes at most `max_polls` polls.
/// `made` polls were made, and the last of them, where there was one, came to `verdict`.
pub open spec fn poll_step_of(
    query_id: Seq<char>,
    max_polls: usize,
    made: usize,
    verdict: Option<PollVerdict>,
) -> Result<PollStep, Seq<Seq<char>>> {
    if verdict == Some(PollVerdict::Done) {
        Ok(PollStep::Finish)
    } else if made < max_polls {
        Ok(PollStep::Poll(made))
    } else {
        Err(
            seq![
                "query "@ + query_id + " did not complete after "@ + decimal_of(max_polls as nat)
                    + " polls"@,
            ],
        )
    }
}

/// What a client does next about a query.
pub fn poll_step(
    query_id: &str,
    max_polls: usize,
    made: usize,
    verdict: Option<PollVerdict>,
) -> (r: Result<PollStep, ErrorChain>)
    ensures
        crate::error::agrees(r, poll_step_of(query_id@, max_polls, made, verdict)),
{
    match verdict {
        Some(PollVerdict::Done) => Ok(PollStep::Finish),
        _ => if made < max_polls {
            Ok(PollStep::Poll(made))
        } else {
            Err(polls_exhausted(query_id, max_polls))
        },
    }
}

// ---------------------------------------------------------------------------
// Results

/// How many endpoints are read: as many as asked for, at most all.
pub open spec fn endpoint_limit_of(asked: Option<usize>, endpoints: usize) -> int {
    at_most(
        match asked {
            Some(limit) => limit as int,
            None => endpoints as int,
        },
        endpoints as int,
    )
}

/// How many endpoints are read: as many as asked for, at most all.
pub fn endpoint_limit(asked: Option<usize>, endpoints: usize) -> (r: usize)
    ensures
        r == endpoint_limit_of(asked, endpoints),
{
    match asked {
        Some(limit) => min_usize(limit, endpoints),
        None => endpoints,
    }
}

fn endpoint_lacks(index: usize, rest: &str) -> (r: ErrorChain)
    ensures
        r@ == seq!["endpoint "@ + decimal_of(index as nat) + rest@],
{
    let mut message = "endpoint ".to_owned();
    message.append(decimal(index as u128).as_str());
    message.append(rest);
    ErrorChain::new(message)
}

/// The worker of an endpoint, or why it has none: it needs a ticket and a worker.
pub open spec fn endpoint_worker_of(
    index: usize,
    has_ticket: bool,
    location: Option<Seq<char>>,
) -> Result<Seq<char>, Seq<Seq<char>>> {
    if !has_ticket {
        Err(seq!["endpoint "@ + decimal_of(index as nat) + " did not include a ticket"@])
    } else {
        match location {
            Some(uri) => Ok(uri),
            None => Err(
                seq![
                    "endpoint "@ + decimal_of(index as nat)
                        + " did not include a worker location"@,
                ],
            ),
        }
    }
}

/// The worker of an endpoint. An endpoint needs a ticket and a worker.
pub fn endpoint_worker(index: usize, has_ticket: bool, location: &Option<String>) -> (r: Result<
    String,
    ErrorChain,
>)
    ensures
        match endpoint_worker_of(index, has_ticket, opt_text(*location)) {
            Ok(uri) => r matches Ok(found) && found@ == uri,
            Err(messages) => r matches Err(error) && error@ == messages,
        },
{
    if !has_ticket {
        return Err(endpoint_lacks(index, " did not include a ticket"));
    }
    match location {
        Some(uri) => Ok(uri.clone()),
        None => Err(endpoint_lacks(index, " did not include a worker location")),
    }
}

/// What was read, and how much of it is shown.
#[derive(Clone, Copy, Debug)]
pub struct ReadTotals {
    pub rows: usize,
    pub batches: usize,
    pub arrow_bytes: u64,
    pub preview_rows: usize,
}

impl ReadTotals {
    /// Nothing read.
    pub fn new() -> (r: ReadTotals)
        ensures
            r == (ReadTotals { rows: 0, batches: 0, arrow_bytes: 0, preview_rows: 0 }),
    {
        ReadTotals { rows: 0, batches: 0, arrow_bytes: 0, preview_rows: 0 }
    }

    /// Whether one more batch can be counted.
    pub open spec fn has_room(self, rows: usize, arrow_bytes: u64) -> bool {
        &&& self.rows + rows <= usize::MAX
        &&& self.batches < usize::MAX
        &&& self.arrow_bytes + arrow_bytes <= u64::MAX
    }

    /// How many rows of a batch are shown, where at most `limit` rows are in all; none where the
    /// limit is reached already.
    pub open spec fn shown_of(self, rows: usize, limit: usize) -> Option<usize> {
        if self.preview_rows < limit {
            Some(at_most(limit - self.preview_rows, rows as int) as usize)
        } else {
            None
        }
    }

    /// The totals after one more batch.
    pub open spec fn after_batch(self, rows: usize, arrow_bytes: u64, limit: usize) -> ReadTotals {
        ReadTotals {
            rows: (self.rows + rows) as usize,
            batches: (self.batches + 1) as usize,
            arrow_bytes: (self.arrow_bytes + arrow_bytes) as u64,
            preview_rows: match self.shown_of(rows, limit) {
                Some(shown) => (self.preview_rows + shown) as usize,
                None => self.preview_rows,
            },
        }
    }

    /// The totals after one more endpoint.
    pub open spec fn after_endpoint(self, endpoint: ReadTotals) -> ReadTotals {
        ReadTotals {
            rows: (self.rows + endpoint.rows) as usize,
            batches: (self.batches + endpoint.batches) as usize,
            arrow_bytes: (self.arrow_bytes + endpoint.arrow_bytes) as u64,
            preview_rows: (self.preview_rows + endpoint.preview_rows) as usize,
        }
    }

    /// How many rows may still be shown.
    pub open spec fn preview_left_of(self, limit: usize) -> int {
        if self.preview_rows <= limit {
            limit - self.preview_rows
        } else {
            0
        }
    }

    /// Counts a batch, and tells how many of its rows are shown.
    pub fn add_batch(&mut self, rows: usize, arrow_bytes: u64, limit: usize) -> (r: Option<usize>)
        requires
            old(self).has_room(rows, arrow_bytes),
        ensures
            r == old(self).shown_of(rows, limit),
            *final(self) == old(self).after_batch(rows, arrow_bytes, limit),
            old(self).preview_rows <= limit ==> final(self).preview_rows <= limit,
    {
        self.rows = self.rows + rows;
        self.batches = self.batches + 1;
        self.arrow_bytes = self.arrow_bytes + arrow_bytes;
        if self.preview_rows < limit {
            let shown: usize = min_usize(limit - self.preview_rows, rows);
            self.preview_rows = self.preview_rows + shown;
            Some(shown)
        } else {
            None
        }
    }

    /// Adds what was read from one endpoint.
    pub fn add_endpoint(&mut self, endpoint: ReadTotals)
        requires
            old(self).rows + endpoint.rows <= usize::MAX,
            old(self).batches + endpoint.batches <= usize::MAX,
            old(self).arrow_bytes + endpoint.arrow_bytes <= u64::MAX,
            old(self).preview_rows + endpoint.preview_rows <= usize::MAX,
        ensures
            *final(self) == old(self).after_endpoint(endpoint),
    {
        self.rows = self.rows + endpoint.rows;
        self.batches = self.batches + endpoint.batches;
        self.arrow_bytes = self.arrow_bytes + endpoint.arrow_bytes;
        self.preview_rows = self.preview_rows + endpoint.preview_rows;
    }

    /// How many rows may still be shown.
    pub fn preview_left(&self, limit: usize) -> (r: usize)
        ensures
            r == self.preview_left_of(limit),
    {
        limit.saturating_sub(self.preview_rows)
    }
}

// ---------------------------------------------------------------------------
// Laws

proof fn lemma_query_names()
    ensures
        "type"@.len() == 4 && "type"@[0] == 't',
        "sql"@.len() == 3,
        "user"@.len() == 4 && "user"@[0] == 'u',
        "targetTable"@.len() == 11,
        "schema"@.len() == 6,
        "authorization"@.len() == 13,
        "queryId"@.len() == 7,
{
    reveal_strlit("type");
    reveal_strlit("sql");
    reveal_strlit("user");
    reveal_strlit("targetTable");
    reveal_strlit("schema");
    reveal_strlit("authorization");
    reveal_strlit("queryId");
}

/// A query says its statement, its table, its schema and who asks, each under its own name; a poll
/// says which query it asks about, and a request to drop a table which query it was of and who
/// asks.
pub proof fn law_query_requests_say(
    query: Map<Seq<char>, JsonMember>,
    poll: Map<Seq<char>, JsonMember>,
    dropping: Map<Seq<char>, JsonMember>,
    query_id: Seq<char>,
    sql: Seq<char>,
    user: Seq<char>,
    target_table: Option<Seq<char>>,
    schema: Option<Seq<char>>,
    authorization: Option<Seq<char>>,
)
    requires
        is_filled(
            query,
            |members: Map<Seq<char>, JsonMember>|
                query_members(members, sql, user, target_table, schema, authorization),
        ),
        is_filled(poll, |members: Map<Seq<char>, JsonMember>| poll_members(members, query_id)),
        is_filled(
            dropping,
            |members: Map<Seq<char>, JsonMember>|
                drop_temp_members(members, query_id, user, authorization),
        ),
    ensures
        says(query, "type"@, "ctas"@),
        says(query, "sql"@, sql),
        says(query, "user"@, user),
        says_if_filled(query, "targetTable"@, target_table),
        says_if_filled(query, "schema"@, schema),
        says_if_filled(query, "authorization"@, authorization),
        says(poll, "type"@, "poll"@),
        says(poll, "queryId"@, query_id),
        says(dropping, "queryId"@, query_id),
        says(dropping, "user"@, user),
        says_if_filled(dropping, "authorization"@, authorization),
{
    lemma_query_names();
    let a = choose|empty: Map<Seq<char>, JsonMember>|
        (#[trigger] empty.dom()) == Set::<Seq<char>>::empty() && query == query_members(
            empty,
            sql,
            user,
            target_table,
            schema,
            authorization,
        );
    assert(query == query_members(a, sql, user, target_table, schema, authorization));
    assert forall|name: Seq<char>| !a.contains_key(name) by {
        assert(!a.dom().contains(name));
    }
    let b = choose|empty: Map<Seq<char>, JsonMember>|
        (#[trigger] empty.dom()) == Set::<Seq<char>>::empty() && poll == poll_members(
            empty,
            query_id,
        );
    assert(poll == poll_members(b, query_id));
    let c = choose|empty: Map<Seq<char>, JsonMember>|
        (#[trigger] empty.dom()) == Set::<Seq<char>>::empty() && dropping == drop_temp_members(
            empty,
            query_id,
            user,
            authorization,
        );
    assert(dropping == drop_temp_members(c, query_id, user, authorization));
    assert forall|name: Seq<char>| !c.contains_key(name) by {
        assert(!c.dom().contains(name));
    }
}

/// A query has failed where its status says so, whether or not it is to be polled again. Otherwise
/// it is polled again exactly where the coordinator asks for that, and is done exactly where it has
/// succeeded and is not.
pub proof fn law_poll_verdicts(
    query_id: Seq<char>,
    status: Seq<char>,
    message: Seq<char>,
    more: bool,
)
    ensures
        status == "FAILED"@ ==> poll_verdict_of(query_id, status, message, more) is Err,
        poll_verdict_of(query_id, status, message, more) == Ok::<PollVerdict, Seq<Seq<char>>>(
            PollVerdict::Again,
        ) <==> more && status != "FAILED"@,
        poll_verdict_of(query_id, status, message, more) == Ok::<PollVerdict, Seq<Seq<char>>>(
            PollVerdict::Done,
        ) <==> !more && status == "SUCCEEDED"@,
{
    reveal_strlit("FAILED");
    reveal_strlit("SUCCEEDED");
    assert("FAILED"@.len() != "SUCCEEDED"@.len());
}

/// A client finishes exactly where the last poll says that the query is done, makes each poll once
/// and in order, and gives up after as many as it may make.
pub proof fn law_poll_steps(
    query_id: Seq<char>,
    max_polls: usize,
    made: usize,
    verdict: Option<PollVerdict>,
)
    ensures
        poll_step_of(query_id, max_polls, made, verdict) == Ok::<PollStep, Seq<Seq<char>>>(
            PollStep::Finish,
        ) <==> verdict == Some(PollVerdict::Done),
        poll_step_of(query_id, max_polls, made, verdict) matches Ok(PollStep::Poll(index)) ==> index
            == made && index < max_polls,
        poll_step_of(query_id, max_polls, made, verdict) is Err <==> verdict != Some(
            PollVerdict::Done,
        ) && made >= max_polls,
{
}

/// As many endpoints are read as are asked for, all where nothing is asked, and never more than
/// there are. An endpoint is read exactly where it has a ticket and a worker, from that worker.
pub proof fn law_read_endpoints(
    asked: Option<usize>,
    endpoints: usize,
    index: usize,
    has_ticket: bool,
    location: Option<Seq<char>>,
)
    ensures
        endpoint_limit_of(asked, endpoints) <= endpoints,
        asked is None ==> endpoint_limit_of(asked, endpoints) == endpoints,
        asked matches Some(limit) ==> limit <= endpoints ==> endpoint_limit_of(asked, endpoints)
            == limit,
        asked matches Some(limit) ==> limit > endpoints ==> endpoint_limit_of(asked, endpoints)
            == endpoints,
        endpoint_worker_of(index, has_ticket, location) is Ok <==> has_ticket && location is Some,
        endpoint_worker_of(index, has_ticket, location) matches Ok(uri) ==> location == Some(uri),
{
}

/// Each batch that is read counts once, with its rows and its bytes, and as many of its rows are
/// shown as may still be: all of them, or as many as reach the limit. No more than the limit is
/// ever shown.
pub proof fn law_read_batches_are_counted(
    totals: ReadTotals,
    rows: usize,
    arrow_bytes: u64,
    limit: usize,
)
    requires
        totals.has_room(rows, arrow_bytes),
        totals.preview_rows <= limit,
    ensures
        ({
            let after = totals.after_batch(rows, arrow_bytes, limit);
            &&& after.rows == totals.rows + rows
            &&& after.batches == totals.batches + 1
            &&& after.arrow_bytes == totals.arrow_bytes + arrow_bytes
            &&& after.preview_rows <= limit
            &&& after.preview_rows == totals.preview_rows + rows || after.preview_rows == limit
            &&& after.preview_rows <= totals.preview_rows + rows
            &&& totals.preview_left_of(limit) == limit - totals.preview_rows
            &&& totals.shown_of(rows, limit) is None <==> totals.preview_rows == limit
            &&& totals.shown_of(rows, limit) matches Some(shown) ==> totals.preview_rows + shown
                == after.preview_rows && shown <= rows
        }),
{
}

/// What was read from two endpoints is together what was read from both, in rows, in batches, in
/// bytes and in rows that were shown.
pub proof fn law_endpoints_add_up(totals: ReadTotals, endpoint: ReadTotals)
    requires
        totals.rows + endpoint.rows <= usize::MAX,
        totals.batches + endpoint.batches <= usize::MAX,
        totals.arrow_bytes + endpoint.arrow_bytes <= u64::MAX,
        totals.preview_rows + endpoint.preview_rows <= usize::MAX,
    ensures
        ({
            let after = totals.after_endpoint(endpoint);
            &&& after.rows == totals.rows + endpoint.rows
            &&& after.batches == totals.batches + endpoint.batches
            &&& after.arrow_bytes == totals.arrow_bytes + endpoint.arrow_bytes
            &&& after.preview_rows == totals.preview_rows + endpoint.preview_rows
        }),
{
}

/// What metadata says under a name is the text of that member; a member that is missing or no text
/// says nothing, and then the default stands.
pub proof fn law_metadata_texts(
    value: serde_json::Value,
    name: Seq<char>,
    default: Seq<char>,
)
    ensures
        text_or(None, name, default) == default,
        json_member(value, name) is None ==> text_or(Some(value), name, default) == default,
        json_member(value, name) matches Some(found) ==> (json_text(found) matches Some(text)
            ==> text_or(Some(value), name, default) == text && text_in(Some(value), name) == Some(
            text,
        )),
        json_member(value, name) matches Some(found) ==> (json_text(found) is None ==> text_or(
            Some(value),
            name,
            default,
        ) == default),
{
}

/// A body is taken where it is a JSON object, and then as that object; every error says that it
/// must be one.
pub proof fn law_bodies(raw: Seq<char>, value: serde_json::Value)
    ensures
        json_of(encode_utf8(raw)) == Ok::<serde_json::Value, Seq<char>>(value) ==> (match json_object(
            value,
        ) {
            Some(map) => body_of(raw) == Ok::<
                serde_json::Map<String, serde_json::Value>,
                Seq<Seq<char>>,
            >(map),
            None => body_of(raw) is Err,
        }),
        json_of(encode_utf8(raw)) is Err ==> body_of(raw) is Err,
        body_of(raw) matches Err(messages) ==> messages[0] == "--body must be a JSON object"@,
{
}

/// A message without metadata has none, and one with metadata has the JSON value of its bytes;
/// bytes that are no JSON are an error that says of what.
pub proof fn law_metadata_values(what: Seq<char>, bytes: Seq<u8>, value: serde_json::Value)
    ensures
        bytes.len() == 0 ==> metadata_of(what, bytes) == Ok::<
            Option<serde_json::Value>,
            Seq<Seq<char>>,
        >(None),
        bytes.len() > 0 && json_of(bytes) == Ok::<serde_json::Value, Seq<char>>(value)
            ==> metadata_of(what, bytes) == Ok::<Option<serde_json::Value>, Seq<Seq<char>>>(
            Some(value),
        ),
        bytes.len() > 0 && json_of(bytes) is Err ==> (metadata_of(what, bytes) matches Err(messages)
            && messages[0] == what + " app_metadata was not JSON"@),
{
}

/// The line of metadata shows its JSON text, and an empty object where there is none.
pub proof fn law_metadata_lines(prefix: Seq<char>, value: serde_json::Value)
    ensures
        metadata_line_of(prefix, None) == prefix + ".metadata={}"@,
        metadata_line_of(prefix, Some(value)) == prefix + ".metadata="@ + value_text_of(value),
{
    reveal_strlit(".metadata=");
    reveal_strlit(".metadata={}");
    reveal_strlit("{}");
    assert(".metadata="@ + "{}"@ == ".metadata={}"@);
    assert(prefix + ".metadata="@ + "{}"@ == prefix + (".metadata="@ + "{}"@));
}

/// The text of a reply to an action is its JSON value over several lines; a reply that is no JSON
/// is an error that says so.
pub proof fn law_action_texts(reply: Seq<u8>, value: serde_json::Value, text: Seq<char>)
    ensures
        json_of(reply) == Ok::<serde_json::Value, Seq<char>>(value) && pretty_text_of(value) == Ok::<
            Seq<char>,
            Seq<char>,
        >(text) ==> action_text_of(reply) == Ok::<Seq<char>, Seq<Seq<char>>>(text),
        json_of(reply) matches Err(words) ==> action_text_of(reply) == Err::<
            Seq<char>,
            Seq<Seq<char>>,
        >(seq!["invalid JSON action response"@, words]),
{
}

}
